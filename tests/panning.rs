use jack_pan::channel::{ParameterChannel, Snapshot};
use jack_pan::engine::PanEngine;
use jack_pan::law::{linear_pan, Options};
use jack_pan::pan::{PanPosition, PAN_UNIT};
use jack_pan::smoother::{window_for_sample_rate, Smoother};

#[test]
fn clamped_keeps_values_in_range() {
    assert_eq!(PanPosition::clamped(-5).raw, 0);
    assert_eq!(PanPosition::clamped(0).raw, 0);
    assert_eq!(PanPosition::clamped(1234).raw, 1234);
    assert_eq!(PanPosition::clamped(PAN_UNIT as i64).raw, PAN_UNIT);
    assert_eq!(PanPosition::clamped(PAN_UNIT as i64 + 1).raw, PAN_UNIT);
    assert_eq!(PanPosition::clamped(i64::MAX).raw, PAN_UNIT);
    assert_eq!(PanPosition::clamped(i64::MIN).raw, 0);
}

#[test]
fn named_positions() {
    assert_eq!(PanPosition::full_left().raw, 0);
    assert_eq!(PanPosition::centre().raw, 8388608);
    assert_eq!(PanPosition::full_right().raw, 16777216);
}

#[test]
fn option_codes() {
    assert_eq!(Options::Linear.code(), 0);
    assert_eq!(Options::ConstantPower.code(), 1);
    assert_eq!(Options::Db45.code(), 2);
    for o in [Options::Linear, Options::ConstantPower, Options::Db45] {
        assert_eq!(Options::from_code(o.code()), o);
    }
    assert_eq!(Options::from_code(3), Options::ConstantPower);
    assert_eq!(Options::from_code(255), Options::ConstantPower);
}

#[test]
fn linear_gains_sum_to_unity() {
    assert_eq!(linear_pan(PanPosition::full_left()), (PAN_UNIT, 0));
    assert_eq!(linear_pan(PanPosition::full_right()), (0, PAN_UNIT));
    assert_eq!(linear_pan(PanPosition::centre()), (8388608, 8388608));
    assert_eq!(linear_pan(PanPosition { raw: 1000 }), (PAN_UNIT - 1000, 1000));
    for raw in (0..=PAN_UNIT).step_by(99991) {
        let (l, r) = linear_pan(PanPosition { raw });
        assert_eq!(l + r, PAN_UNIT);
    }
}

#[test]
fn window_at_common_rates() {
    assert_eq!(window_for_sample_rate(48000), 2400);
    assert_eq!(window_for_sample_rate(44100), 2205);
    assert_eq!(window_for_sample_rate(20), 1);
    assert_eq!(window_for_sample_rate(19), 1);
    assert_eq!(window_for_sample_rate(0), 1);
}

#[test]
fn new_smoother_is_idle() {
    let mut s = Smoother::new(4, PanPosition::centre());
    assert!(!s.is_ramping());
    assert_eq!(s.window(), 4);
    assert_eq!(s.step().raw, 8388608);
    assert_eq!(s.remaining(), 0);
}

#[test]
fn ramp_converges_after_one_window() {
    let n = window_for_sample_rate(48000);
    let mut s = Smoother::new(n, PanPosition::full_left());
    s.set_target(PanPosition::full_right());
    assert_eq!(s.remaining(), 2400);
    let mut last = 0;
    for i in 0..2400 {
        let p = s.step().raw;
        assert!(p >= last);
        if i < 2399 {
            assert!(p < PAN_UNIT);
        }
        last = p;
    }
    assert_eq!(s.current().raw, PAN_UNIT);
    assert!(!s.is_ramping());
    assert_eq!(s.step().raw, PAN_UNIT);
    assert_eq!(s.current().raw, PAN_UNIT);
}

#[test]
fn retrigger_completes_in_one_window() {
    let mut s = Smoother::new(100, PanPosition::full_left());
    s.set_target(PanPosition::full_right());
    for _ in 0..37 {
        s.step();
    }
    let mid = s.current().raw;
    assert!(mid > 0 && mid < PAN_UNIT);
    s.set_target(PanPosition { raw: 1000 });
    assert_eq!(s.remaining(), 100);
    for _ in 0..99 {
        s.step();
        assert!(s.is_ramping());
    }
    assert_eq!(s.step().raw, 1000);
    assert!(!s.is_ramping());
}

#[test]
fn same_target_does_not_restart() {
    let mut s = Smoother::new(10, PanPosition::full_left());
    s.set_target(PanPosition::full_right());
    for _ in 0..4 {
        s.step();
    }
    s.set_target(PanPosition::full_right());
    assert_eq!(s.remaining(), 6);
    assert_eq!(s.target().raw, PAN_UNIT);
}

#[test]
fn downward_ramp_values() {
    let mut s = Smoother::new(3, PanPosition { raw: 10 });
    s.set_target(PanPosition { raw: 0 });
    assert_eq!(s.step().raw, 7);
    assert_eq!(s.step().raw, 4);
    assert_eq!(s.step().raw, 0);
    assert_eq!(s.step().raw, 0);
}

#[test]
fn channel_holds_initial_values() {
    let c = ParameterChannel::new(Snapshot { pan: PanPosition::centre(), algorithm: Options::Linear });
    assert_eq!(c.poll(), Snapshot { pan: PanPosition::centre(), algorithm: Options::Linear });
}

#[test]
fn channel_latest_write_wins_and_clamps() {
    let c = ParameterChannel::new(Snapshot { pan: PanPosition::centre(), algorithm: Options::Linear });
    c.set_pan(100);
    c.set_pan(200);
    assert_eq!(c.set_algorithm(Options::Db45), 2);
    assert_eq!(c.poll(), Snapshot { pan: PanPosition { raw: 200 }, algorithm: Options::Db45 });
    assert_eq!(c.set_pan(-3).raw, 0);
    assert_eq!(c.poll().pan.raw, 0);
    assert_eq!(c.set_pan(PAN_UNIT as i64 * 2).raw, PAN_UNIT);
    assert_eq!(c.poll().pan.raw, PAN_UNIT);
}

#[test]
fn decode_out_of_range_words() {
    let s = Snapshot::decode(u32::MAX, 9);
    assert_eq!(s.pan.raw, PAN_UNIT);
    assert_eq!(s.algorithm, Options::ConstantPower);
    let s = Snapshot::decode(5, 0);
    assert_eq!(s.pan.raw, 5);
    assert_eq!(s.algorithm, Options::Linear);
}

#[test]
fn linear_jump_ramps_over_four_frames() {
    let mut e = PanEngine::new(4, Snapshot { pan: PanPosition::full_left(), algorithm: Options::Linear });
    assert_eq!(linear_pan(e.current()), (PAN_UNIT, 0));
    e.begin_block(Snapshot { pan: PanPosition::full_right(), algorithm: Options::Linear });
    let mut prev = linear_pan(e.current());
    let mut seen = Vec::new();
    for _ in 0..4 {
        let f = e.next_frame();
        assert_eq!(f.algorithm, Options::Linear);
        let g = linear_pan(f.pan);
        assert!(g.0 < prev.0);
        assert!(g.1 > prev.1);
        seen.push(g);
        prev = g;
    }
    assert_eq!(seen[3], (0, PAN_UNIT));
    assert_eq!(seen[0], (12582912, 4194304));
    assert_eq!(seen[1], (8388608, 8388608));
    assert!(!e.is_ramping());
}

#[test]
fn constant_power_centre_settles() {
    let c = ParameterChannel::new(Snapshot { pan: PanPosition::full_left(), algorithm: Options::Linear });
    let mut e = PanEngine::new(window_for_sample_rate(48000), c.poll());
    c.set_algorithm(Options::ConstantPower);
    c.set_pan(PAN_UNIT as i64 / 2);
    let mut last = e.next_frame();
    for _ in 0..10 {
        let snap = e.poll(&c);
        assert_eq!(snap.algorithm, Options::ConstantPower);
        for _ in 0..256 {
            last = e.next_frame();
        }
    }
    assert_eq!(last.algorithm, Options::ConstantPower);
    assert_eq!(last.pan, PanPosition::centre());
    assert_eq!(e.algorithm(), Options::ConstantPower);
    assert!(!e.is_ramping());
}
