use tone_smithy::filter::{FilterMode, FilterRouting, FilterSlope};
use tone_smithy::lfo::{LfoShape, SyncDivision};
use tone_smithy::mod_env::ModEnvStage;
use tone_smithy::oscillator::Waveform;
use tone_smithy::params::{fm_op_address, SLOT_COUNT};
use tone_smithy::slot::SlotMode;

#[test]
fn filter_routing_index_round_trip() {
    assert_eq!(FilterRouting::Serial.index(), 0);
    assert_eq!(FilterRouting::Parallel.index(), 1);
    for i in 0..2 {
        assert_eq!(FilterRouting::from_index(i).index(), i);
    }
    assert_eq!(FilterRouting::from_index(2), FilterRouting::Serial);
    assert_eq!(FilterRouting::from_index(usize::MAX), FilterRouting::Serial);
    assert_eq!(FilterRouting::default(), FilterRouting::Serial);
}

#[test]
fn filter_slope_index_round_trip() {
    assert_eq!(FilterSlope::TwentyFourDbOct.index(), 1);
    for i in 0..2 {
        assert_eq!(FilterSlope::from_index(i).index(), i);
    }
    assert_eq!(FilterSlope::from_index(9), FilterSlope::TwelveDbOct);
    assert_eq!(FilterSlope::default(), FilterSlope::TwelveDbOct);
}

#[test]
fn filter_mode_index_round_trip() {
    let modes = [FilterMode::LowPass, FilterMode::HighPass, FilterMode::BandPass, FilterMode::Notch];
    for (i, m) in modes.iter().enumerate() {
        assert_eq!(m.index(), i);
        assert_eq!(FilterMode::from_index(i), *m);
    }
    assert_eq!(FilterMode::from_index(4), FilterMode::LowPass);
    assert_eq!(FilterMode::default(), FilterMode::LowPass);
}

#[test]
fn lfo_shape_index_round_trip_and_clamp() {
    for i in 0..7 {
        assert_eq!(LfoShape::from_index(i).index(), i);
    }
    assert_eq!(LfoShape::from_index(5), LfoShape::SampleAndHold);
    assert_eq!(LfoShape::from_index(7), LfoShape::SmoothRandom);
    assert_eq!(LfoShape::from_index(1000), LfoShape::SmoothRandom);
    assert_eq!(LfoShape::default(), LfoShape::Sine);
}

#[test]
fn sync_division_index_round_trip_and_clamp() {
    for i in 0..8 {
        assert_eq!(SyncDivision::from_index(i).index(), i);
    }
    assert_eq!(SyncDivision::from_index(0), SyncDivision::ThirtySecond);
    assert_eq!(SyncDivision::from_index(8), SyncDivision::Four);
    assert_eq!(SyncDivision::default(), SyncDivision::One);
    assert_eq!(SyncDivision::default().index(), 5);
}

#[test]
fn sync_division_periods_double() {
    assert_eq!(SyncDivision::ThirtySecond.thirty_seconds(), 1);
    assert_eq!(SyncDivision::Quarter.thirty_seconds(), 8);
    assert_eq!(SyncDivision::One.thirty_seconds(), 32);
    assert_eq!(SyncDivision::Four.thirty_seconds(), 128);
    for i in 1..8 {
        assert_eq!(
            SyncDivision::from_index(i).thirty_seconds(),
            2 * SyncDivision::from_index(i - 1).thirty_seconds()
        );
    }
}

#[test]
fn waveform_index_round_trip() {
    let shapes = [Waveform::Sine, Waveform::Saw, Waveform::Square, Waveform::Triangle];
    for (i, w) in shapes.iter().enumerate() {
        assert_eq!(w.index(), i);
        assert_eq!(Waveform::from_index(i), *w);
    }
    assert_eq!(Waveform::from_index(4), Waveform::Sine);
    assert_eq!(Waveform::default(), Waveform::Sine);
}

#[test]
fn slot_mode_defaults_to_subtractive() {
    assert_eq!(SlotMode::default(), SlotMode::Subtractive);
    assert_ne!(SlotMode::default(), SlotMode::Fm);
}

#[test]
fn mod_env_runs_attack_decay_sustain_release() {
    let mut s = ModEnvStage::Idle;
    assert!(!s.is_timed());
    s = s.after_note_on();
    assert_eq!(s, ModEnvStage::Attack);
    assert!(s.is_timed());
    s = s.after_stage_end();
    assert_eq!(s, ModEnvStage::Decay);
    s = s.after_stage_end();
    assert_eq!(s, ModEnvStage::Sustain);
    assert!(!s.is_timed());
    assert_eq!(s.after_stage_end(), ModEnvStage::Sustain);
    s = s.after_note_off();
    assert_eq!(s, ModEnvStage::Release);
    s = s.after_stage_end();
    assert_eq!(s, ModEnvStage::Idle);
}

#[test]
fn mod_env_note_off_while_idle_stays_idle() {
    assert_eq!(ModEnvStage::Idle.after_note_off(), ModEnvStage::Idle);
    assert_eq!(ModEnvStage::Attack.after_note_off(), ModEnvStage::Release);
    assert_eq!(ModEnvStage::Release.after_note_on(), ModEnvStage::Attack);
}

#[test]
fn fm_op_address_decodes_slot_and_operator() {
    assert_eq!(fm_op_address(0x00), Some((0, 0)));
    assert_eq!(fm_op_address(0x13), Some((1, 3)));
    assert_eq!(fm_op_address(0x02), Some((0, 2)));
    assert_eq!(fm_op_address(0x04), None);
    assert_eq!(fm_op_address(0x20), None);
    assert_eq!(fm_op_address(0xFF), None);
    for slot in 0..SLOT_COUNT {
        for op in 0..4usize {
            let packed = ((slot << 4) | op) as u8;
            assert_eq!(fm_op_address(packed), Some((slot, op)));
        }
    }
}
