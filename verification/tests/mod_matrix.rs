use tone_smithy::mod_matrix::{sanitize_dest_index, sanitize_source_index, ModDest, ModSource};

#[test]
fn mod_source_index_round_trip() {
    for i in 0..ModSource::COUNT {
        let s = ModSource::from_index(i).unwrap();
        assert_eq!(s.to_index(), i);
    }
    assert!(ModSource::from_index(ModSource::COUNT).is_none());
}

#[test]
fn mod_dest_index_round_trip() {
    for i in 0..ModDest::COUNT {
        let d = ModDest::from_index(i).unwrap();
        assert_eq!(d.to_index(), i);
    }
    assert!(ModDest::from_index(ModDest::COUNT).is_none());
}

#[test]
fn defaults_are_off_and_cutoff() {
    assert_eq!(ModSource::default(), ModSource::Off);
    assert_eq!(ModDest::default(), ModDest::FilterCutoffHz);
    assert_eq!(ModSource::from_index(9), Some(ModSource::PitchBend));
    assert_eq!(ModDest::from_index(3), Some(ModDest::Volume));
}

#[test]
fn bus_indices_are_sanitized() {
    assert_eq!(sanitize_source_index(4), 4);
    assert_eq!(sanitize_source_index(10), 0);
    assert_eq!(sanitize_source_index(255), 0);
    assert_eq!(sanitize_dest_index(5), 5);
    assert_eq!(sanitize_dest_index(6), 0);
}
