use gaincore::amplitude::port_amplitude;
use gaincore::block::AudioPort;
use gaincore::block::Channel;
use gaincore::block::Pairing;
use gaincore::engine::Engine;
use gaincore::events::Event;
use gaincore::events::EventKind;
use gaincore::events::apply_event;
use gaincore::events::events_well_formed;
use gaincore::events::segment_events;
use gaincore::fixed::FX_ONE;
use gaincore::fixed::FX_QUARTER;
use gaincore::fixed::GAIN_LIMIT;
use gaincore::fixed::fx_lerp;
use gaincore::fixed::fx_mul;
use gaincore::fixed::fx_pow;
use gaincore::fixed::fx_root;
use gaincore::meter::decay_weight;
use gaincore::meter::meter_update;
use gaincore::smoother::Smoother;

const FX: i64 = FX_ONE;

#[test]
fn fx_mul_exact_values() {
    assert_eq!(fx_mul(FX, FX), FX);
    assert_eq!(fx_mul(-3, FX), -3);
    assert_eq!(fx_mul(32768, 32768), 16384);
    // floor on the magnitude: rounding is toward zero on either sign
    assert_eq!(fx_mul(1, 32768), 0);
    assert_eq!(fx_mul(-1, 32768), 0);
    assert_eq!(fx_mul(0, GAIN_LIMIT), 0);
}

#[test]
fn fx_lerp_exact_values() {
    assert_eq!(fx_lerp(0, FX, 32768), 32768);
    // weight one: the value does not move
    assert_eq!(fx_lerp(100, 0, FX), 100);
    // weight zero: the value jumps to the target
    assert_eq!(fx_lerp(100, 0, 0), 0);
    assert_eq!(fx_lerp(FX, FX, 12345), FX);
}

#[test]
fn fx_root_squares_back() {
    // the greatest ratio whose square stays at or below one quarter is
    // exactly one half
    assert_eq!(fx_root(FX_QUARTER, 2), 32768);
    assert_eq!(fx_pow(32768, 2), FX_QUARTER);
}

#[test]
fn p4_decay_weight_bracket_at_48k() {
    let w = decay_weight(48000, 150);
    assert!(0 < w && w < FX);
    // the defining bracket: w is the greatest ratio whose power over the
    // window's 7200 frames stays at or below one quarter
    assert!(fx_pow(w, 7200) <= FX_QUARTER);
    assert!(fx_pow(w + 1, 7200) > FX_QUARTER);
    // the floating-point reading of the same fact
    let wf = w as f64 / FX as f64;
    let p = wf.powf(48000.0 * 0.150);
    assert!((p - 0.25).abs() < 0.03, "p = {p}");
}

#[test]
fn decay_weight_degenerate_window() {
    // a window shorter than one frame decays instantly
    assert_eq!(decay_weight(0, 150), 0);
    assert_eq!(decay_weight(48000, 0), 0);
}

#[test]
fn meter_update_attack_and_release() {
    // instant attack
    assert_eq!(meter_update(100, 200, 32768), 200);
    // exponential release: cur*w + amp*(1-w)
    assert_eq!(meter_update(200, 100, 32768), 150);
    assert_eq!(meter_update(200, 0, 32768), 100);
    // equal amplitude holds the estimate
    assert_eq!(meter_update(150, 150, 32768), 150);
}

#[test]
fn smoother_moves_halfway_per_step() {
    let mut s = Smoother { current: FX, target: FX, weight: 32768 };
    assert_eq!(s.next_value(), FX);
    s.set_target(2 * FX);
    assert_eq!(s.next_value(), 98304);
    assert_eq!(s.next_value(), 114688);
    assert_eq!(s.current, 114688);
    assert_eq!(s.target, 2 * FX);
}

#[test]
fn event_dispatch_by_category() {
    let mut s = Smoother { current: FX, target: FX, weight: 32768 };
    apply_event(&mut s, &Event { offset: 0, kind: EventKind::GainTarget { target: 2 * FX } });
    assert_eq!(s.target, 2 * FX);
    assert_eq!(s.current, FX);
    // note events and unrecognized categories are no-ops, not errors
    apply_event(&mut s, &Event { offset: 0, kind: EventKind::NoteOn { note: 60, velocity: 100 } });
    apply_event(&mut s, &Event { offset: 0, kind: EventKind::NoteOff { note: 60 } });
    apply_event(&mut s, &Event { offset: 0, kind: EventKind::Unrecognized });
    assert_eq!(s.target, 2 * FX);
    assert_eq!(s.current, FX);
}

#[test]
fn event_batch_validation() {
    let ok = vec![
        Event { offset: 0, kind: EventKind::GainTarget { target: FX } },
        Event { offset: 5, kind: EventKind::Unrecognized },
        Event { offset: 5, kind: EventKind::NoteOn { note: 1, velocity: 2 } },
    ];
    assert!(events_well_formed(&ok, 10));
    // an offset at or past the block length is rejected
    let late = vec![Event { offset: 10, kind: EventKind::Unrecognized }];
    assert!(!events_well_formed(&late, 10));
    // offsets must be non-decreasing
    let unsorted = vec![
        Event { offset: 6, kind: EventKind::Unrecognized },
        Event { offset: 5, kind: EventKind::Unrecognized },
    ];
    assert!(!events_well_formed(&unsorted, 10));
    // a gain target outside the declared range is rejected
    let low = vec![Event { offset: 0, kind: EventKind::GainTarget { target: -1 } }];
    assert!(!events_well_formed(&low, 10));
    let high = vec![Event { offset: 0, kind: EventKind::GainTarget { target: GAIN_LIMIT + 1 } }];
    assert!(!events_well_formed(&high, 10));
}

#[test]
fn segmenter_pairs_events_with_their_offsets() {
    let events = vec![
        Event { offset: 2, kind: EventKind::GainTarget { target: FX } },
        Event { offset: 7, kind: EventKind::NoteOff { note: 3 } },
    ];
    let pairs = segment_events(&events, 10);
    assert_eq!(pairs.len(), 2);
    assert_eq!(pairs[0], (events[0], 2));
    assert_eq!(pairs[1], (events[1], 7));
}

#[test]
fn amplitude_is_the_mean_absolute_frame_sum() {
    let port = AudioPort {
        channels: vec![Channel {
            pairing: Pairing::InPlace,
            input: Vec::new(),
            output: vec![FX, -FX],
        }],
    };
    assert_eq!(port_amplitude(&port, 2), FX);
    // two channels: the frame sums grow, the mean divides them back
    let stereo = AudioPort {
        channels: vec![
            Channel { pairing: Pairing::InPlace, input: Vec::new(), output: vec![FX, -FX] },
            Channel { pairing: Pairing::InPlace, input: Vec::new(), output: vec![FX, FX] },
        ],
    };
    // frame sums 2.0 and 0.0; total 2.0 over 2 frames and 2 channels
    assert_eq!(port_amplitude(&stereo, 2), FX / 2);
}

#[test]
fn engine_initialization_keeps_state() {
    let mut e = Engine::new();
    assert_eq!(e.meter, 0);
    assert_eq!(e.smoother.current, FX);
    assert_eq!(e.smoother.target, FX);
    e.meter = 321;
    e.initialize(48000);
    assert_eq!(e.meter, 321);
    assert_eq!(e.smoother.current, FX);
    assert!(0 < e.decay_weight && e.decay_weight < FX);
    assert!(0 < e.smoother.weight && e.smoother.weight < FX);
    // the smoother's window is shorter, so its weight decays faster
    assert!(e.smoother.weight < e.decay_weight);
}
