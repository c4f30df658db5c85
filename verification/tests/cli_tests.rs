use pitch_tts::audio::{parse_pitch_arg, PitchArg, PitchPreset};

#[test]
fn test_single_threaded_execution() {
    println!("🔧 Running CLI tests - ensure you used --test-threads=1");
    println!("🔧 This prevents audio conflicts when multiple tests play audio");
}

#[test]
fn parse_decimal_factor() {
    match parse_pitch_arg("1.2") {
        Ok(PitchArg::Value(f)) => assert_eq!(f.milli, 1200),
        other => panic!("expected a factor, got {:?}", other),
    }
    match parse_pitch_arg("2") {
        Ok(PitchArg::Value(f)) => assert_eq!(f.milli, 2000),
        other => panic!("expected a factor, got {:?}", other),
    }
    match parse_pitch_arg("1.") {
        Ok(PitchArg::Value(f)) => assert_eq!(f.milli, 1000),
        other => panic!("expected a factor, got {:?}", other),
    }
    match parse_pitch_arg(".5") {
        Ok(PitchArg::Value(f)) => assert_eq!(f.milli, 500),
        other => panic!("expected a factor, got {:?}", other),
    }
    match parse_pitch_arg("1.2345") {
        Ok(PitchArg::Value(f)) => assert_eq!(f.milli, 1234),
        other => panic!("expected truncation to thousandths, got {:?}", other),
    }
}

#[test]
fn parse_preset_names() {
    assert!(matches!(parse_pitch_arg("slomo"), Ok(PitchArg::Preset(PitchPreset::Slomo))));
    assert!(matches!(parse_pitch_arg("DEEP"), Ok(PitchArg::Preset(PitchPreset::Deep))));
    assert!(matches!(parse_pitch_arg("Child"), Ok(PitchArg::Preset(PitchPreset::Child))));
    assert!(matches!(parse_pitch_arg("helium"), Ok(PitchArg::Preset(PitchPreset::Helium))));
}

#[test]
fn parse_rejects_bad_input() {
    match parse_pitch_arg("fast") {
        Err(e) => assert_eq!(e, "Invalid pitch value or preset: fast"),
        other => panic!("expected an error, got {:?}", other),
    }
    // A non-positive factor is a configuration error, rejected up front.
    assert!(parse_pitch_arg("0").is_err());
    assert!(parse_pitch_arg("0.0").is_err());
    assert!(parse_pitch_arg("1.2.3").is_err());
    assert!(parse_pitch_arg("").is_err());
}

#[test]
fn preset_factors() {
    assert_eq!(PitchPreset::Slomo.factor().milli, 400);
    assert_eq!(PitchPreset::Deep.factor().milli, 850);
    assert_eq!(PitchPreset::Child.factor().milli, 1200);
    assert_eq!(PitchPreset::Helium.factor().milli, 1500);
    let arg = PitchArg::Preset(PitchPreset::Helium);
    assert_eq!(arg.as_factor().milli, 1500);
}
