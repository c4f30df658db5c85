use pitch_tts::arpabet::{
    build_prompt, filter_arpabet_tokens, is_arpabet_symbol_exec, normalize_word, split_words,
};
use pitch_tts::dict::{parse_dictionary, Dictionary};
use pitch_tts::resolve::{
    needs_model_query, resolve_word, text_to_arpabet, text_to_arpabet_with_method,
    ResolutionMethod,
};

fn small_dictionary() -> Dictionary {
    let content = ";;; # CMUdict  0.7b\n\
                   ;;; a comment line\n\
                   HELLO HH AH0 L OW1\n\
                   HELLO(2) HH EH0 L OW1\n\
                   WORLD W ER1 L D\n";
    parse_dictionary(content).expect("header marker present")
}

#[test]
fn dictionary_parses_entries_and_variants() {
    let dict = small_dictionary();
    let prons = dict.lookup("HELLO").expect("HELLO is listed");
    assert_eq!(prons.len(), 2);
    assert_eq!(prons[0], vec!["HH", "AH0", "L", "OW1"]);
    assert_eq!(prons[1], vec!["HH", "EH0", "L", "OW1"]);
    assert!(dict.lookup("WORLD").is_some());
    assert!(dict.lookup("MISSING").is_none());
}

#[test]
fn dictionary_requires_header_marker() {
    assert!(parse_dictionary("HELLO HH AH0 L OW1\n").is_none());
}

// Scenario B: a dictionary word resolves from the dictionary with no
// fallback configured.
#[test]
fn resolve_hello_from_dictionary() {
    let dict = small_dictionary();
    let r = resolve_word(&dict, "hello", None, None);
    assert_eq!(r.symbols, vec!["HH", "AH0", "L", "OW1"]);
    assert_eq!(r.method, ResolutionMethod::Dictionary);
    assert!(r.note.is_none());
}

// The cascade ordering: a dictionary hit is never overridden by a model
// answer, even a well-formed different one.
#[test]
fn dictionary_wins_over_model_reply() {
    let dict = small_dictionary();
    let model = String::from("llama3.2");
    let reply = String::from("B AE1 D");
    let r = resolve_word(&dict, "hello", Some(&model), Some(&reply));
    assert_eq!(r.method, ResolutionMethod::Dictionary);
    assert_eq!(r.symbols, vec!["HH", "AH0", "L", "OW1"]);
    assert!(!needs_model_query(&dict, "hello", Some(&model)));
    assert!(needs_model_query(&dict, "zyxxy", Some(&model)));
    assert!(!needs_model_query(&dict, "zyxxy", None));
    assert!(!needs_model_query(&dict, "zyxxy", Some(&String::from("   "))));
}

// Resolution is deterministic: the same word against the same dictionary
// and the same model answer resolves identically, twice over.
#[test]
fn resolution_is_idempotent() {
    let dict = small_dictionary();
    let model = String::from("llama3.2");
    let reply = String::from("K AE1 T");
    for (word, reply) in [("hello", None::<&String>), ("zyxxy", Some(&reply))] {
        let a = resolve_word(&dict, word, Some(&model), reply);
        let b = resolve_word(&dict, word, Some(&model), reply);
        assert_eq!(a.symbols, b.symbols);
        assert_eq!(a.method, b.method);
        assert_eq!(a.dropped, b.dropped);
        assert_eq!(a.note, b.note);
    }
}

// A valid model reply resolves with the LanguageModel tag, every symbol in
// the closed set.
#[test]
fn model_reply_filtered_to_valid_symbols() {
    let dict = small_dictionary();
    let model = String::from("llama3.2");
    let reply = String::from("K AE1 T purr XX");
    let r = resolve_word(&dict, "cat", Some(&model), Some(&reply));
    assert_eq!(r.method, ResolutionMethod::LanguageModel);
    assert_eq!(r.symbols, vec!["K", "AE1", "T"]);
    assert_eq!(r.dropped, vec!["purr", "XX"]);
    for s in &r.symbols {
        assert!(is_arpabet_symbol_exec(s));
    }
}

// Scenario C: a reply whose tokens are all invalid filters to nothing and
// the word stays unresolved, with a diagnostic.
#[test]
fn model_reply_of_invalid_tokens_stays_unresolved() {
    let dict = small_dictionary();
    let model = String::from("llama3.2");
    let reply = String::from("XX YY ZZ");
    let r = resolve_word(&dict, "zyxxy", Some(&model), Some(&reply));
    assert_eq!(r.method, ResolutionMethod::Unresolved);
    assert!(r.symbols.is_empty());
    assert_eq!(r.dropped, vec!["XX", "YY", "ZZ"]);
    let note = r.note.expect("an unresolved word carries guidance");
    assert!(note.contains("ZYXXY"));
    assert!(note.contains("llama3.2"));
}

#[test]
fn missing_word_without_model_gets_guidance() {
    let dict = small_dictionary();
    let r = resolve_word(&dict, "zyxxy", None, None);
    assert_eq!(r.method, ResolutionMethod::Unresolved);
    assert!(r.symbols.is_empty());
    let note = r.note.expect("guidance directs the caller to the fallback");
    assert!(note.contains("--lipsync-with-llm"));
}

// A reply that names an error is never tokenized.
#[test]
fn error_replies_are_rejected() {
    let dict = small_dictionary();
    let model = String::from("llama3.2");
    let reply = String::from("model not found");
    let r = resolve_word(&dict, "zyxxy", Some(&model), Some(&reply));
    assert_eq!(r.method, ResolutionMethod::Unresolved);
    assert!(r.symbols.is_empty());
    assert!(r.dropped.is_empty());
}

#[test]
fn whole_text_resolution_is_positional() {
    let dict = small_dictionary();
    let rs = text_to_arpabet_with_method(&dict, "hello zyxxy world");
    assert_eq!(rs.len(), 3);
    assert_eq!(rs[0].method, ResolutionMethod::Dictionary);
    assert_eq!(rs[1].method, ResolutionMethod::Unresolved);
    assert_eq!(rs[2].method, ResolutionMethod::Dictionary);
    assert_eq!(rs[2].symbols, vec!["W", "ER1", "L", "D"]);

    let bare = text_to_arpabet(&dict, "hello zyxxy world");
    assert_eq!(bare.len(), 3);
    assert_eq!(bare[0], vec!["HH", "AH0", "L", "OW1"]);
    assert!(bare[1].is_empty());
}

#[test]
fn normalization_strips_punctuation_and_uppercases() {
    assert_eq!(normalize_word("hello!"), "HELLO");
    assert_eq!(normalize_word("...world??"), "WORLD");
    assert_eq!(normalize_word("it's"), "IT'S");
    assert_eq!(normalize_word("!!!"), "");
}

#[test]
fn split_words_on_whitespace() {
    assert_eq!(split_words("a  b\tc\nd"), vec!["a", "b", "c", "d"]);
    assert!(split_words("   ").is_empty());
}

#[test]
fn symbol_set_is_closed() {
    for good in ["HH", "AH0", "OW1", "ZH", "ER2", "K"] {
        assert!(is_arpabet_symbol_exec(good), "{} belongs to the set", good);
    }
    for bad in ["XX", "AH3", "hh", "B0", "AHH", ""] {
        assert!(!is_arpabet_symbol_exec(bad), "{} does not belong to the set", bad);
    }
}

#[test]
fn filter_preserves_order_and_reports_drops() {
    let tokens: Vec<String> =
        ["HH", "uh", "AH0", "??", "L"].iter().map(|s| s.to_string()).collect();
    let (kept, dropped) = filter_arpabet_tokens(&tokens);
    assert_eq!(kept, vec!["HH", "AH0", "L"]);
    assert_eq!(dropped, vec!["uh", "??"]);
}

#[test]
fn prompt_is_fixed_and_names_the_word() {
    let p = build_prompt("ZYXXY");
    assert!(p.starts_with("Give only the ARPAbet phonemes for the word 'ZYXXY'."));
    assert!(p.ends_with("Now, ZYXXY =>"));
    assert!(p.contains("Example: hello => HH AH0 L OW1"));
}
