use supertts::text::{contains_chars, ends_with_chars, same_chars};
use supertts::voice::{
    extra_style_files,
    plan_voice_lookup, standard_voice, standard_voice_for, stem_answers, style_file_matches,
    trim_json_suffixes, VoicePlan, STANDARD_VOICE_COUNT,
};

fn standard_index(plan: VoicePlan) -> Option<usize> {
    match plan {
        VoicePlan::Standard(i) => Some(i),
        _ => None,
    }
}

#[test]
fn no_voice_uses_default() {
    assert!(matches!(plan_voice_lookup(None), VoicePlan::Default));
}

#[test]
fn path_like_voices_are_direct() {
    match plan_voice_lookup(Some("styles/custom")) {
        VoicePlan::Direct(p) => assert_eq!(p, "styles/custom.json"),
        other => panic!("unexpected {:?}", other),
    }
    match plan_voice_lookup(Some("custom.json")) {
        VoicePlan::Direct(p) => assert_eq!(p, "custom.json"),
        other => panic!("unexpected {:?}", other),
    }
    match plan_voice_lookup(Some("a\\b")) {
        VoicePlan::Direct(p) => assert_eq!(p, "a\\b.json"),
        other => panic!("unexpected {:?}", other),
    }
}

#[test]
fn standard_names_match_exactly_then_partially() {
    assert_eq!(standard_index(plan_voice_lookup(Some("M1"))), Some(0));
    assert_eq!(standard_index(plan_voice_lookup(Some("Female2"))), Some(7));
    assert_eq!(standard_index(plan_voice_lookup(Some("male2"))), Some(5));
    // "female1" holds "male1", but the exact match wins
    assert_eq!(standard_index(plan_voice_lookup(Some("female1"))), Some(3));
    // no exact match: the first contained name is taken
    assert_eq!(standard_index(plan_voice_lookup(Some("xm1x"))), Some(0));
    assert_eq!(standard_voice_for("my_female2_voice"), Some(5));
    assert_eq!(standard_voice_for("zz"), None);
}

#[test]
fn standard_table_entries() {
    assert_eq!(STANDARD_VOICE_COUNT, 8);
    assert_eq!(standard_voice(0), ("m1", "assets/voice_styles/M1.json"));
    assert_eq!(standard_voice(4), ("m2", "assets/voice_styles/M1.json"));
    assert_eq!(standard_voice(5), ("male2", "assets/voice_styles/M2.json"));
    assert_eq!(standard_voice(6), ("f2", "assets/voice_styles/F1.json"));
    assert_eq!(standard_voice(7), ("female2", "assets/voice_styles/F2.json"));
}

#[test]
fn unknown_voices_are_searched_lowercased() {
    match plan_voice_lookup(Some("Narrator")) {
        VoicePlan::Search(n) => assert_eq!(n, "narrator"),
        other => panic!("unexpected {:?}", other),
    }
}

#[test]
fn style_files_answer_by_stem() {
    assert!(style_file_matches("Narrator.json", "narrator"));
    assert!(style_file_matches("NarratorDeep.json", "narrator"));
    assert!(style_file_matches("nar.json", "narrator"));
    assert!(!style_file_matches("narrator.txt", "narrator"));
    assert!(!style_file_matches("other.json", "narrator"));
    assert!(stem_answers("abc", "b"));
    assert!(!stem_answers("abc", "d"));
}

#[test]
fn trailing_extensions_are_all_trimmed() {
    assert_eq!(trim_json_suffixes("a.json.json"), "a");
    assert_eq!(trim_json_suffixes("a.txt"), "a.txt");
    assert_eq!(trim_json_suffixes(".json"), "");
}

#[test]
fn text_helpers() {
    assert!(contains_chars("hello", "ell"));
    assert!(contains_chars("hello", ""));
    assert!(!contains_chars("he", "hello"));
    assert!(ends_with_chars("x.json", ".json"));
    assert!(!ends_with_chars("json", ".json"));
    assert!(same_chars("ab", "ab"));
    assert!(!same_chars("ab", "abc"));
}

#[test]
fn listing_adds_unseen_style_files_once() {
    let files: Vec<String> = ["M1.json", "Narrator.json", "notes.txt", "narrator.json", "F2.JSON", "deep.json"]
        .iter()
        .map(|s| s.to_string())
        .collect();
    let lowered: Vec<String> = files.iter().map(|f| f.to_lowercase()).collect();
    assert_eq!(extra_style_files(&files, &lowered), vec![1, 5]);
    let empty: Vec<String> = Vec::new();
    assert_eq!(extra_style_files(&empty, &empty), Vec::<usize>::new());
}
