use pitch_tts::lipsync::{
    enrich_segments, expected_json_exec, file_name_exec, lipsync_start, lipsync_step,
    parent_exec, LipsyncAction, LipsyncError, LipsyncEvent, LipsyncOutcome, LipsyncRequest,
    LipsyncState, WordSegment,
};
use pitch_tts::dict::parse_dictionary;
use pitch_tts::resolve::text_to_arpabet_with_method;

#[test]
fn path_helpers() {
    assert_eq!(file_name_exec("out/dir/audio.wav"), "audio.wav");
    assert_eq!(file_name_exec("audio.wav"), "audio.wav");
    assert_eq!(parent_exec("out/dir/audio.wav"), "out/dir");
    assert_eq!(parent_exec("audio.wav"), "");
    assert_eq!(expected_json_exec("audio.wav"), "audio.json");
    assert_eq!(expected_json_exec("audio.flac"), "audio.flac.json");
}

fn drive(req: LipsyncRequest, events: Vec<LipsyncEvent>) -> (LipsyncOutcome, Vec<LipsyncAction>) {
    let (mut state, first) = lipsync_start(&req);
    let mut actions = vec![first];
    for e in &events {
        let (next, action) = lipsync_step(state, e);
        state = next;
        actions.push(action);
        if let LipsyncState::Finished { outcome } = state {
            return (outcome, actions);
        }
    }
    panic!("run did not finish");
}

// Scenario D: a destination in another directory switches there and, on
// every path out, restores the working directory before finishing.
#[test]
fn switched_run_restores_directory_on_success() {
    let req = LipsyncRequest {
        wav_path: String::from("work/audio.wav"),
        output_json: Some(String::from("out/d.json")),
        hi_fidelity: false,
    };
    let (outcome, actions) = drive(
        req,
        vec![
            LipsyncEvent::ProbeFinished { available: true },
            LipsyncEvent::DirSwitched { ok: true },
            LipsyncEvent::AlignerFinished { success: true },
            LipsyncEvent::OutputChecked { present: true },
            LipsyncEvent::RenameFinished { ok: true },
            LipsyncEvent::DirRestored,
        ],
    );
    assert_eq!(outcome, LipsyncOutcome::Done);
    assert!(matches!(actions[1], LipsyncAction::SwitchDir { ref dir } if dir == "out"));
    assert!(matches!(actions[2], LipsyncAction::RunAligner { ref wav } if wav == "audio.wav"));
    assert!(
        matches!(actions[3], LipsyncAction::CheckOutput { ref path } if path == "audio.json")
    );
    assert!(matches!(
        actions[4],
        LipsyncAction::RenameOutput { ref from, ref to } if from == "audio.json" && to == "d.json"
    ));
    let restores = actions.iter().filter(|a| matches!(a, LipsyncAction::RestoreDir)).count();
    assert_eq!(restores, 1, "one restore per successful switch");
}

#[test]
fn switched_run_restores_directory_on_failure() {
    let req = LipsyncRequest {
        wav_path: String::from("work/audio.wav"),
        output_json: Some(String::from("out/d.json")),
        hi_fidelity: false,
    };
    let (outcome, actions) = drive(
        req,
        vec![
            LipsyncEvent::ProbeFinished { available: true },
            LipsyncEvent::DirSwitched { ok: true },
            LipsyncEvent::AlignerFinished { success: false },
            LipsyncEvent::DirRestored,
        ],
    );
    assert_eq!(outcome, LipsyncOutcome::Failed(LipsyncError::AlignerFailed));
    let restores = actions.iter().filter(|a| matches!(a, LipsyncAction::RestoreDir)).count();
    assert_eq!(restores, 1, "a failing run still restores the directory");
}

#[test]
fn missing_aligner_aborts_before_switching() {
    let req = LipsyncRequest {
        wav_path: String::from("audio.wav"),
        output_json: Some(String::from("out/d.json")),
        hi_fidelity: false,
    };
    let (outcome, actions) = drive(req, vec![LipsyncEvent::ProbeFinished { available: false }]);
    assert_eq!(outcome, LipsyncOutcome::Failed(LipsyncError::AlignerMissing));
    assert!(actions.iter().all(|a| !matches!(a, LipsyncAction::SwitchDir { .. })));
    assert!(actions.iter().all(|a| !matches!(a, LipsyncAction::RestoreDir)));
}

#[test]
fn rename_falls_back_to_copy() {
    let req = LipsyncRequest {
        wav_path: String::from("work/audio.wav"),
        output_json: Some(String::from("out/d.json")),
        hi_fidelity: true,
    };
    let (outcome, actions) = drive(
        req,
        vec![
            LipsyncEvent::ProbeFinished { available: true },
            LipsyncEvent::DirSwitched { ok: true },
            LipsyncEvent::AlignerFinished { success: true },
            LipsyncEvent::OutputChecked { present: true },
            LipsyncEvent::RenameFinished { ok: false },
            LipsyncEvent::CopyFinished { ok: true },
            LipsyncEvent::EnrichFinished,
            LipsyncEvent::DirRestored,
        ],
    );
    assert_eq!(outcome, LipsyncOutcome::Done);
    assert!(matches!(
        actions[5],
        LipsyncAction::CopyAndRemove { ref from, ref to } if from == "audio.json" && to == "d.json"
    ));
    assert!(matches!(actions[6], LipsyncAction::Enrich { ref path } if path == "d.json"));
}

#[test]
fn missing_output_is_reported_not_fatal() {
    let req = LipsyncRequest {
        wav_path: String::from("audio.wav"),
        output_json: None,
        hi_fidelity: false,
    };
    let (outcome, actions) = drive(
        req,
        vec![
            LipsyncEvent::ProbeFinished { available: true },
            LipsyncEvent::AlignerFinished { success: true },
            LipsyncEvent::OutputChecked { present: false },
        ],
    );
    assert_eq!(outcome, LipsyncOutcome::Failed(LipsyncError::OutputMissing));
    // No destination was given, so nothing was switched and nothing restored.
    assert!(actions.iter().all(|a| !matches!(a, LipsyncAction::RestoreDir)));
}

#[test]
fn enrichment_attaches_phonemes_by_position() {
    let dict = parse_dictionary(";;; # CMUdict\nHELLO HH AH0 L OW1\nWORLD W ER1 L D\n")
        .expect("valid dictionary");
    let rs = text_to_arpabet_with_method(&dict, "hello world");
    let mut segments = vec![
        WordSegment { word: String::from("hello"), phonemes: None, phoneme_method: None },
        WordSegment { word: String::from("world"), phonemes: None, phoneme_method: None },
        WordSegment { word: String::from("extra"), phonemes: None, phoneme_method: None },
    ];
    enrich_segments(&mut segments, &rs);
    assert_eq!(segments[0].phonemes.as_deref(), Some(&["HH", "AH0", "L", "OW1"].map(String::from)[..]));
    assert_eq!(segments[0].phoneme_method.as_deref(), Some("cmudict"));
    assert_eq!(segments[1].phonemes.as_deref(), Some(&["W", "ER1", "L", "D"].map(String::from)[..]));
    assert_eq!(segments[1].phoneme_method.as_deref(), Some("cmudict"));
    // The aligner found one word more than the text holds: left untouched.
    assert!(segments[2].phonemes.is_none());
    assert!(segments[2].phoneme_method.is_none());
    assert_eq!(segments[2].word, "extra");
}
