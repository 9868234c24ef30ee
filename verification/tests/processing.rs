use gaincore::block::AudioPort;
use gaincore::block::Block;
use gaincore::block::Channel;
use gaincore::block::Pairing;
use gaincore::block::ProcessError;
use gaincore::block::SampleFormat;
use gaincore::block::resolve_port;
use gaincore::engine::Config;
use gaincore::engine::Engine;
use gaincore::engine::ProcessStatus;
use gaincore::events::Event;
use gaincore::events::EventKind;
use gaincore::fixed::FX_ONE;
use gaincore::smoother::Smoother;

const FX: i64 = FX_ONE;

fn in_place(samples: Vec<i64>) -> Channel {
    Channel { pairing: Pairing::InPlace, input: Vec::new(), output: samples }
}

fn mono_block(samples: Vec<i64>) -> Block {
    let len = samples.len();
    Block {
        format: SampleFormat::Float32,
        len,
        ports: vec![AudioPort { channels: vec![in_place(samples)] }],
    }
}

fn unity_engine() -> Engine {
    Engine {
        smoother: Smoother { current: FX, target: FX, weight: 32768 },
        meter: 0,
        decay_weight: FX,
    }
}

fn watching() -> Config {
    Config { sample_accurate: true, observer_active: true, keep_alive: false }
}

#[test]
fn p7_unity_gain_scenario() {
    // gain converged at unity, one block of 4 samples 1.0, -1.0, 0.5, -0.5
    let mut engine = unity_engine();
    engine.initialize(48000);
    let mut block = mono_block(vec![FX, -FX, FX / 2, -FX / 2]);
    let r = engine.process(&mut block, &Vec::new(), 0, &watching());
    assert_eq!(r, Ok(ProcessStatus::Normal));
    // output equals input: the smoother is already converged
    assert_eq!(block.ports[0].channels[0].output, vec![FX, -FX, FX / 2, -FX / 2]);
    // peak estimate becomes mean(|samples|) = 0.75 on the first block
    assert_eq!(engine.meter, 49152);
}

#[test]
fn p1_no_events_monotonic_interpolation() {
    let mut engine = unity_engine();
    engine.smoother.current = 0;
    let mut block = mono_block(vec![FX, FX, FX, FX]);
    let r = engine.process(&mut block, &Vec::new(), 0, &watching());
    assert!(r.is_ok());
    let out = &block.ports[0].channels[0].output;
    // each sample is input (1.0) times the per-frame gain
    assert_eq!(out, &vec![32768, 49152, 57344, 61440]);
    // strictly between the pre-block value (0.0) and the target (1.0),
    // monotonically rising, never past the target
    for t in 0..out.len() {
        assert!(0 < out[t] && out[t] < FX);
        if t > 0 {
            assert!(out[t - 1] < out[t]);
        }
    }
    assert_eq!(engine.smoother.current, 61440);
}

#[test]
fn p1_empty_block_is_fine() {
    let mut engine = unity_engine();
    let mut block = mono_block(Vec::new());
    let r = engine.process(&mut block, &Vec::new(), 0, &watching());
    assert_eq!(r, Ok(ProcessStatus::Normal));
    // no samples were processed, so the meter did not move
    assert_eq!(engine.meter, 0);
}

#[test]
fn p2_input_output_copies_input_before_gain() {
    // junk in the output buffer must be overwritten by the input signal
    let ch = Channel {
        pairing: Pairing::InputOutput,
        input: vec![12345, -23456, 7, 0],
        output: vec![111, 222, 333, 444],
    };
    let mut block = Block {
        format: SampleFormat::Float32,
        len: 4,
        ports: vec![AudioPort { channels: vec![ch] }],
    };
    let r = resolve_port(&mut block, 0);
    assert_eq!(r, Ok(()));
    assert_eq!(block.ports[0].channels[0].output, vec![12345, -23456, 7, 0]);
    assert_eq!(block.ports[0].channels[0].input, vec![12345, -23456, 7, 0]);
}

#[test]
fn p2_in_place_buffer_stays_as_it_is() {
    let mut block = mono_block(vec![5, -6, 7]);
    let r = resolve_port(&mut block, 0);
    assert_eq!(r, Ok(()));
    assert_eq!(block.ports[0].channels[0].output, vec![5, -6, 7]);
}

#[test]
fn p2_processed_output_is_scaled_input() {
    let mut engine = unity_engine();
    engine.smoother.current = FX * 2;
    engine.smoother.target = FX * 2;
    let ch = Channel {
        pairing: Pairing::InputOutput,
        input: vec![100, -200, 300, -400],
        output: vec![0, 0, 0, 0],
    };
    let mut block = Block {
        format: SampleFormat::Float32,
        len: 4,
        ports: vec![AudioPort { channels: vec![ch] }],
    };
    let r = engine.process(&mut block, &Vec::new(), 0, &watching());
    assert!(r.is_ok());
    assert_eq!(block.ports[0].channels[0].output, vec![200, -400, 600, -800]);
    assert_eq!(block.ports[0].channels[0].input, vec![100, -200, 300, -400]);
}

#[test]
fn p3_meter_decays_monotonically_under_silence() {
    let mut engine = unity_engine();
    engine.initialize(48000);
    // one loud block raises the estimate instantly
    let loud: Vec<i64> = std::iter::repeat(8 * FX).take(480).collect();
    let mut block = mono_block(loud);
    engine.process(&mut block, &Vec::new(), 0, &watching()).unwrap();
    let m0 = engine.meter;
    assert_eq!(m0, 8 * FX);

    // silent blocks only ever lower it
    let mut prev = m0;
    let mut after_window = 0i64;
    for i in 0..75 {
        let mut silent = mono_block(vec![0i64; 480]);
        engine.process(&mut silent, &Vec::new(), 0, &watching()).unwrap();
        assert!(engine.meter <= prev);
        assert!(engine.meter >= 0);
        prev = engine.meter;
        if i == 14 {
            after_window = engine.meter;
        }
    }
    // after one decay window (150 ms = 15 blocks of 480 at 48 kHz) the
    // estimate has fallen to about a quarter
    assert!(after_window <= m0 * 3 / 10, "after_window = {after_window}");
    assert!(after_window >= m0 * 2 / 10, "after_window = {after_window}");
    // well under 1 % of the peak after a few windows
    assert!(engine.meter <= m0 / 100);
}

#[test]
fn p5_event_at_offset_ten_is_not_retroactive() {
    let mut engine = unity_engine();
    let mut block = mono_block(vec![FX; 20]);
    let events = vec![Event { offset: 10, kind: EventKind::GainTarget { target: 2 * FX } }];
    let r = engine.process(&mut block, &events, 0, &watching());
    assert!(r.is_ok());
    let out = &block.ports[0].channels[0].output;
    // samples before the offset follow the old, converged trajectory
    for t in 0..10 {
        assert_eq!(out[t], FX);
    }
    // from the offset on, the gain transitions toward the new target
    assert_eq!(out[10], 98304);
    for t in 11..20 {
        assert!(out[t] > out[t - 1]);
        assert!(out[t] < 2 * FX);
    }
}

#[test]
fn p5_whole_batch_mode_applies_events_at_block_start() {
    let mut engine = unity_engine();
    let mut block = mono_block(vec![FX; 20]);
    let events = vec![Event { offset: 10, kind: EventKind::GainTarget { target: 2 * FX } }];
    let cfg = Config { sample_accurate: false, observer_active: true, keep_alive: false };
    let r = engine.process(&mut block, &events, 0, &cfg);
    assert!(r.is_ok());
    let out = &block.ports[0].channels[0].output;
    // the very first sample already moves toward the new target
    assert_eq!(out[0], 98304);
}

#[test]
fn p6_missing_port_declines_and_changes_nothing() {
    let mut engine = unity_engine();
    engine.meter = 1234;
    let mut block = mono_block(vec![10, 20, 30]);
    let r = engine.process(&mut block, &Vec::new(), 3, &watching());
    assert_eq!(r, Err(ProcessError::PortUnavailable));
    assert_eq!(block.ports[0].channels[0].output, vec![10, 20, 30]);
    assert_eq!(engine.meter, 1234);
    assert_eq!(engine.smoother.current, FX);
}

#[test]
fn p6_unsupported_format_declines_and_changes_nothing() {
    let mut engine = unity_engine();
    engine.meter = 77;
    let mut block = mono_block(vec![10, 20, 30]);
    block.format = SampleFormat::Float64;
    let r = engine.process(&mut block, &Vec::new(), 0, &watching());
    assert_eq!(r, Err(ProcessError::UnsupportedSampleFormat));
    assert_eq!(block.ports[0].channels[0].output, vec![10, 20, 30]);
    assert_eq!(engine.meter, 77);

    block.format = SampleFormat::Int16;
    let r2 = engine.process(&mut block, &Vec::new(), 0, &watching());
    assert_eq!(r2, Err(ProcessError::UnsupportedSampleFormat));
}

#[test]
fn p6_no_usable_audio_path_declines() {
    let mut engine = unity_engine();
    let ch = Channel { pairing: Pairing::InputOnly, input: vec![1, 2], output: Vec::new() };
    let mut block = Block {
        format: SampleFormat::Float32,
        len: 2,
        ports: vec![AudioPort { channels: vec![ch] }],
    };
    let r = engine.process(&mut block, &Vec::new(), 0, &watching());
    assert_eq!(r, Err(ProcessError::PortUnavailable));
    assert_eq!(block.ports[0].channels[0].input, vec![1, 2]);
}

#[test]
fn excluded_channels_are_untouched() {
    let mut engine = unity_engine();
    engine.smoother.current = 2 * FX;
    engine.smoother.target = 2 * FX;
    let chans = vec![
        Channel { pairing: Pairing::InputOnly, input: vec![9, 9], output: Vec::new() },
        in_place(vec![100, 200]),
        Channel { pairing: Pairing::OutputOnly, input: Vec::new(), output: vec![5, 5] },
    ];
    let mut block = Block {
        format: SampleFormat::Float32,
        len: 2,
        ports: vec![AudioPort { channels: chans }],
    };
    let r = engine.process(&mut block, &Vec::new(), 0, &watching());
    assert!(r.is_ok());
    assert_eq!(block.ports[0].channels[0].input, vec![9, 9]);
    assert_eq!(block.ports[0].channels[1].output, vec![200, 400]);
    assert_eq!(block.ports[0].channels[2].output, vec![5, 5]);
}

#[test]
fn channels_share_one_trajectory_in_phase() {
    let mut engine = unity_engine();
    engine.smoother.current = 0;
    let chans = vec![in_place(vec![FX; 4]), in_place(vec![FX; 4])];
    let mut block = Block {
        format: SampleFormat::Float32,
        len: 4,
        ports: vec![AudioPort { channels: chans }],
    };
    let r = engine.process(&mut block, &Vec::new(), 0, &watching());
    assert!(r.is_ok());
    // the smoother advances once per frame, not once per channel
    assert_eq!(block.ports[0].channels[0].output, block.ports[0].channels[1].output);
    assert_eq!(block.ports[0].channels[0].output, vec![32768, 49152, 57344, 61440]);
}

#[test]
fn other_ports_are_left_alone() {
    let mut engine = unity_engine();
    let aux = AudioPort {
        channels: vec![Channel {
            pairing: Pairing::InputOnly,
            input: vec![42, 43],
            output: Vec::new(),
        }],
    };
    let mut block = Block {
        format: SampleFormat::Float32,
        len: 2,
        ports: vec![AudioPort { channels: vec![in_place(vec![7, 8])] }, aux],
    };
    let r = engine.process(&mut block, &Vec::new(), 0, &watching());
    assert!(r.is_ok());
    assert_eq!(block.ports[1].channels[0].input, vec![42, 43]);
}

#[test]
fn meter_is_skipped_without_observer() {
    let mut engine = unity_engine();
    engine.initialize(44100);
    let mut block = mono_block(vec![FX, FX]);
    let cfg = Config { sample_accurate: true, observer_active: false, keep_alive: false };
    let r = engine.process(&mut block, &Vec::new(), 0, &cfg);
    assert!(r.is_ok());
    assert_eq!(engine.meter, 0);
}

#[test]
fn keep_alive_status_follows_configuration() {
    let mut engine = unity_engine();
    let mut block = mono_block(vec![FX]);
    let cfg = Config { sample_accurate: true, observer_active: false, keep_alive: true };
    let r = engine.process(&mut block, &Vec::new(), 0, &cfg);
    assert_eq!(r, Ok(ProcessStatus::KeepAlive));
}

#[test]
fn two_events_at_one_offset_last_wins() {
    let mut engine = unity_engine();
    let mut block = mono_block(vec![FX; 4]);
    let events = vec![
        Event { offset: 2, kind: EventKind::GainTarget { target: 2 * FX } },
        Event { offset: 2, kind: EventKind::GainTarget { target: 0 } },
    ];
    let r = engine.process(&mut block, &events, 0, &watching());
    assert!(r.is_ok());
    let out = &block.ports[0].channels[0].output;
    assert_eq!(out[0], FX);
    assert_eq!(out[1], FX);
    // from the shared offset on, the trajectory heads for the second target
    assert_eq!(out[2], FX / 2);
    assert!(out[3] < out[2]);
    assert_eq!(engine.smoother.target, 0);
}

#[test]
fn event_at_offset_zero_applies_to_whole_block() {
    let mut engine = unity_engine();
    let mut block = mono_block(vec![FX; 2]);
    let events = vec![Event { offset: 0, kind: EventKind::GainTarget { target: 0 } }];
    let r = engine.process(&mut block, &events, 0, &watching());
    assert!(r.is_ok());
    let out = &block.ports[0].channels[0].output;
    assert_eq!(out[0], FX / 2);
    assert_eq!(out[1], FX / 4);
}
