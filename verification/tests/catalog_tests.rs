use pitch_tts::naming::{
    clean_for_folder, export_folder_name, generate_filename_from_text, plan_export_paths,
};
use pitch_tts::voices::{
    config_filename, find_voice, get_available_voices, get_voices_by_language, group_voices,
    model_filename, voice_not_found_message,
};

#[test]
fn catalog_holds_sixty_four_voices() {
    let voices = get_available_voices();
    assert_eq!(voices.len(), 64);
    assert_eq!(voices[0].id, "en_GB-alba-medium");
    assert_eq!(voices[0].display_name, "en GB-alba-medium (medium)");
    assert_eq!(voices[0].language, "Scottish English");
    assert_eq!(
        voices[0].model_path,
        "https://huggingface.co/rhasspy/piper-voices/resolve/main/en/en_GB/alba/medium/en_GB-alba-medium.onnx"
    );
    assert_eq!(voices[0].config_path, format!("{}.json", voices[0].model_path));
    // Interior entries are pinned too, not just the endpoints.
    assert_eq!(voices[11].id, "en_US-amy-low");
    assert_eq!(voices[35].id, "de_DE-eva_k-x_low");
    assert_eq!(voices[45].id, "fr_FR-gilles-low");
    assert_eq!(voices[52].id, "es_ES-carlfm-x_low");
    assert_eq!(voices[58].id, "it_IT-riccardo-x_low");
    assert_eq!(voices[63].id, "ru_RU-ruslan-medium");
}

#[test]
fn voices_group_by_language_in_catalog_order() {
    let groups = get_voices_by_language();
    let total: usize = groups.iter().map(|(_, vs)| vs.len()).sum();
    assert_eq!(total, 64);
    let langs: Vec<&str> = groups.iter().map(|(l, _)| l.as_str()).collect();
    let mut unique = langs.clone();
    unique.dedup();
    assert_eq!(langs, unique, "every language appears once");
    assert_eq!(groups[0].0, "Scottish English");
    let german = groups.iter().find(|(l, _)| l == "German").expect("German voices exist");
    assert_eq!(german.1.len(), 10);
    for v in &german.1 {
        assert_eq!(v.language, "German");
    }
}

#[test]
fn grouping_respects_input_order() {
    let voices = get_available_voices();
    let groups = group_voices(&voices);
    assert_eq!(groups[0].1[0].id, "en_GB-alba-medium");
}

#[test]
fn find_voice_by_identifier() {
    let voices = get_available_voices();
    let v = find_voice(&voices, "en_US-amy-low").expect("amy is in the catalog");
    assert_eq!(v.quality, "low");
    assert!(find_voice(&voices, "nope").is_none());

    let msg = voice_not_found_message(&voices, "nope");
    assert!(msg.starts_with("Voice 'nope' not found. Available voices: en_GB-alba-medium, "));
    assert!(msg.contains("ru_RU-ruslan-medium"));

    assert_eq!(model_filename(v), "en_US-amy-low.onnx");
    assert_eq!(config_filename(v), "en_US-amy-low.onnx.json");
}

#[test]
fn folder_names_are_cleaned() {
    assert_eq!(clean_for_folder("My File!"), "my_file_");
    assert_eq!(clean_for_folder("Abc123"), "abc123");
    assert_eq!(export_folder_name("My Song"), "output_my_song");
}

#[test]
fn filenames_come_from_the_first_words() {
    assert_eq!(
        generate_filename_from_text("Hello World this is a test of things"),
        "hello_world_this_is_a.wav"
    );
    assert_eq!(generate_filename_from_text("One"), "one.wav");
    assert_eq!(generate_filename_from_text(""), "output.wav");
    assert_eq!(generate_filename_from_text("!!! ???"), "output.wav");
}

#[test]
fn export_paths_for_each_destination_shape() {
    let wav_dest = String::from("out/voice.wav");
    let (wav, json) = plan_export_paths(Some(&wav_dest), "ignored text");
    assert_eq!(wav, "out/voice.wav");
    assert_eq!(json, "out/voice.json");

    let dir_dest = String::from("exports");
    let (wav, json) = plan_export_paths(Some(&dir_dest), "Quick test");
    assert_eq!(wav, "exports/quick_test.wav");
    assert_eq!(json, "exports/quick_test.json");

    let (wav, json) = plan_export_paths(None, "Quick test");
    assert_eq!(wav, "quick_test.wav");
    assert_eq!(json, "quick_test.json");
}
