use pitch_tts::audio::{pitch_shift, Factor};
use pitch_tts::voices::get_available_voices;

fn ramp(n: usize) -> Vec<i16> {
    let mut v = Vec::new();
    for i in 0..n {
        v.push(((i % 200) as i16 - 100) * 50);
    }
    v
}

#[test]
fn test_voice_listing() {
    let voices = get_available_voices();
    assert!(!voices.is_empty(), "Should have at least one voice available");
    assert!(
        voices.iter().any(|v| v.id == "en_GB-alba-medium"),
        "Alba voice should be available"
    );
    for voice in &voices {
        assert!(!voice.id.is_empty(), "Voice ID should not be empty");
        assert!(!voice.display_name.is_empty(), "Display name should not be empty");
        assert!(!voice.language.is_empty(), "Language should not be empty");
    }
}

#[test]
fn test_pitch_shifting() {
    let samples = ramp(1000);
    let same = pitch_shift(&samples, &Factor { milli: 1000 });
    assert_eq!(same.len(), samples.len(), "No pitch change should preserve length");

    let up = pitch_shift(&samples, &Factor { milli: 2000 });
    assert!(up.len() < samples.len(), "Pitch up should make audio shorter");

    let down = pitch_shift(&samples, &Factor { milli: 500 });
    assert!(down.len() > samples.len(), "Pitch down should make audio longer");

    let extreme_up = pitch_shift(&samples, &Factor { milli: 4000 });
    assert!(
        extreme_up.len() * 2 < samples.len(),
        "Extreme pitch up should significantly shorten audio"
    );

    let extreme_down = pitch_shift(&samples, &Factor { milli: 250 });
    assert!(
        extreme_down.len() > samples.len() * 2,
        "Extreme pitch down should significantly lengthen audio"
    );
}

#[test]
fn test_voice_metadata() {
    let voices = get_available_voices();
    for voice in voices.iter().take(10) {
        let parts: Vec<&str> = voice.id.split('-').collect();
        assert!(parts.len() >= 3, "Voice ID should have at least 3 parts: {}", voice.id);
        assert!(
            voice.language.len() >= 2,
            "Language code should be at least 2 characters: {}",
            voice.language
        );
        let quality_ok = ["low", "medium", "high", "x_low"].contains(&voice.quality.as_str());
        assert!(quality_ok, "Quality should be valid: {}", voice.quality);
    }
}
