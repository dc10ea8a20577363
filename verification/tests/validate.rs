use codex_app::lookup::ThreadSummary;
use codex_app::text::white_space;
use codex_app::validate::{required, shorten, target_thread, normalize, TargetError};

fn thread(id: &str, name: &str) -> ThreadSummary {
    ThreadSummary {
        id: id.to_owned(),
        name: Some(name.to_owned()),
        preview: None,
    }
}

#[test]
fn explicit_thread_bypasses_title_lookup_globally() {
    let selected = target_thread(Some(" thread-global "), None, &[], "/other/project").unwrap();

    assert_eq!(selected, "thread-global");
}

#[test]
fn normalized_title_requires_exactly_one_match() {
    let threads = [thread("one", "Review handoff"), thread("two", "Other")];
    let selected = target_thread(None, Some(" Review   handoff "), &threads, "/work").unwrap();

    assert_eq!(selected, "one");
}

#[test]
fn missing_and_ambiguous_titles_preserve_actionable_errors() {
    let missing = target_thread(None, None, &[], "/work").unwrap_err();
    assert!(missing.message().contains("CODEX_APP_TITLE is unavailable"));

    let threads = [thread("one", "Same"), thread("two", "Same")];
    let ambiguous = target_thread(None, Some("Same"), &threads, "/work").unwrap_err();
    assert!(ambiguous.message().contains("did not identify exactly one"));
    assert!(ambiguous.message().contains("one (Same), two (Same)"));
}

#[test]
fn required_values_are_trimmed_and_reject_blank_input() {
    assert_eq!(required("  prompt  ".into(), "prompt").unwrap(), "prompt");
    assert!(required("  ".into(), "prompt").is_err());
}

#[test]
fn blank_explicit_id_falls_back_to_the_title() {
    let threads = [thread("one", "Title")];
    assert_eq!(target_thread(Some("   "), Some("Title"), &threads, "/w").unwrap(), "one");
}

#[test]
fn blank_title_is_unavailable() {
    let err = target_thread(None, Some(" \t\n "), &[], "/w").unwrap_err();
    assert!(matches!(err, TargetError::TitleUnavailable));
    assert_eq!(
        err.message(),
        "CODEX_APP_TITLE is unavailable. Set CODEX_APP_THREAD_ID to the target Codex task id and retry."
    );
}

#[test]
fn no_match_reports_without_details() {
    let threads = [thread("one", "Other")];
    let err = target_thread(None, Some("Wanted"), &threads, "/work").unwrap_err();
    assert_eq!(
        err.message(),
        "CODEX_APP_TITLE did not identify exactly one unarchived Codex task in /work: Wanted. Set CODEX_APP_THREAD_ID to the task id and retry."
    );
}

#[test]
fn ambiguity_lists_at_most_five_matches_and_falls_back_to_preview() {
    let mut threads: Vec<ThreadSummary> = (0..7).map(|i| thread(&format!("t{i}"), "Same")).collect();
    threads[0].name = None;
    threads[0].preview = Some("  Same ".into());
    let err = target_thread(None, Some("Same"), &threads, "/w").unwrap_err();
    assert_eq!(
        err.message(),
        "CODEX_APP_TITLE did not identify exactly one unarchived Codex task in /w: Same. Matches: t0 (Same), t1 (Same), t2 (Same), t3 (Same), t4 (Same). Set CODEX_APP_THREAD_ID to the task id and retry."
    );
}

#[test]
fn untitled_threads_match_nothing_but_an_empty_title_is_refused() {
    let threads = [ThreadSummary { id: "x".into(), name: None, preview: None }];
    assert!(matches!(
        target_thread(None, Some("untitled"), &threads, "/w"),
        Err(TargetError::NotUnique { .. })
    ));
}

#[test]
fn shorten_cuts_with_an_ellipsis() {
    assert_eq!(shorten("  a   b  ", 10), "a b");
    assert_eq!(shorten("abcdefghij", 5), "ab...");
    assert_eq!(shorten("abcdef", 2), "...");
    assert_eq!(shorten("héllo wörld", 8), "héllo...");
}

#[test]
fn normalize_collapses_unicode_white_space() {
    assert_eq!(normalize("\u{3000}a\u{00A0}\u{2003}b\t\nc  "), "a b c");
    assert_eq!(normalize(""), "");
}

#[test]
fn required_error_names_the_label() {
    let err = required("\n".into(), "prompt").unwrap_err();
    assert_eq!(err.message(), "prompt must not be empty.");
}

#[test]
fn white_space_agrees_with_std_on_every_char() {
    for c in (0u32..=0x10FFFF).filter_map(char::from_u32) {
        assert_eq!(white_space(c), c.is_whitespace(), "{c:?}");
    }
}

#[test]
fn shortening_twice_is_shortening_once() {
    for (value, limit) in [
        ("  a   b  ", 10usize),
        ("abcdefghij", 5),
        ("abcdef", 2),
        ("ab cdefgh", 6),
        ("ab  cd\tef gh", 7),
        ("", 0),
        ("x", 0),
        ("héllo wörld", 8),
    ] {
        let once = shorten(value, limit);
        assert_eq!(shorten(&once, limit), once);
    }
    assert_eq!(shorten("ab cdefgh", 6), "ab ...");
}
