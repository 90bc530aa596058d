use whipplescript::budget::{cap_grep_line, cap_stream, middle_truncate, redact, GREP_MAX_LINE_CHARS, STREAM_CAP_BYTES};
use whipplescript::glob::simple_glob_matches;
use whipplescript::gov::{hash_hex, SignedEnvelope};
use whipplescript::{kernel_stage, parser_stage, store_stage, IMPLEMENTATION_STAGE};

const CONFIG: &str = "\
grant file_store ledger -> file:/srv/ledger.db readable by Operator\n\
grant file_store outbox -> file:/srv/outbox public\n";

#[test]
fn simple_glob_matching_is_anchored_without_wildcards() {
    assert!(simple_glob_matches("worker-*", "worker-1"));
    assert!(simple_glob_matches("*-done", "worker-done"));
    assert!(simple_glob_matches("worker", "worker"));
    assert!(!simple_glob_matches("worker", "worker-1"));
    assert!(!simple_glob_matches("worker-*", "quality-1"));
}

#[test]
fn glob_with_inner_wildcards_matches_pieces_in_order() {
    assert!(simple_glob_matches("a*b*c", "a-x-b-y-c"));
    assert!(!simple_glob_matches("a*b*c", "a-x-c-y-b"));
    assert!(simple_glob_matches("*", ""));
    assert!(simple_glob_matches("**", "anything"));
    assert!(!simple_glob_matches("ab*ba", "aba"));
    assert!(simple_glob_matches("ab*ba", "abba"));
}

#[test]
fn redact_keeps_only_last_four() {
    assert_eq!(redact("sk-abcdef1234"), "****1234");
    assert_eq!(redact("xy"), "****");
}

#[test]
fn redact_of_exactly_four_shows_nothing() {
    assert_eq!(redact("abcd"), "****");
    assert_eq!(redact("abcde"), "****bcde");
}

#[test]
fn redact_counts_characters_not_bytes() {
    assert_eq!(redact("abcd\u{20ac}"), "****bcd\u{20ac}");
    assert_eq!(redact("\u{20ac}\u{20ac}"), "****");
}

#[test]
fn unprivileged_cannot_sign() {
    assert!(SignedEnvelope::sign_with_privilege(Ok(CONFIG.to_owned()), "admin", false).is_err());
}

#[test]
fn middle_truncate_keeps_head_and_tail_within_budget() {
    // Small output is untouched.
    assert_eq!(middle_truncate("hello", 100), "hello");

    // A large output keeps both ends, elides the middle, and fits the budget.
    let big: String = (0..4000).map(|i| format!("line-{i}\n")).collect();
    let out = middle_truncate(&big, 800);
    assert!(out.len() <= 800 + 128, "over budget: {}", out.len());
    assert!(out.contains("line-0\n"), "head dropped");
    assert!(out.contains("line-3999"), "tail dropped");
    assert!(out.contains("elided"), "no elision marker");
}

#[test]
fn middle_truncate_reports_the_elided_byte_count() {
    let text = "a".repeat(200);
    // budget 116: keep 20 bytes, 10 of head and 10 of tail
    let expected = format!(
        "{}\n[... 180 of 200 bytes elided (full output kept as evidence) ...]\n{}",
        "a".repeat(10),
        "a".repeat(10)
    );
    assert_eq!(middle_truncate(&text, 116), expected);
}

#[test]
fn middle_truncate_at_exact_budget_is_untouched() {
    let text = "x".repeat(64);
    assert_eq!(middle_truncate(&text, 64), text);
    assert_ne!(middle_truncate(&text, 63), text);
}

#[test]
fn cap_stream_flags_only_oversized_output() {
    let (small, truncated) = cap_stream("abc".to_owned());
    assert_eq!(small, "abc");
    assert!(!truncated);
    let (big, truncated) = cap_stream("y".repeat(STREAM_CAP_BYTES + 10));
    assert!(truncated);
    assert_eq!(big.len(), STREAM_CAP_BYTES);
}

#[test]
fn cap_grep_line_shortens_long_lines() {
    assert_eq!(cap_grep_line("short"), "short");
    let long = "z".repeat(GREP_MAX_LINE_CHARS + 5);
    assert_eq!(
        cap_grep_line(&long),
        format!("{}... [truncated]", "z".repeat(GREP_MAX_LINE_CHARS))
    );
}

#[test]
fn kernel_scaffold_links_to_store() {
    assert_eq!(kernel_stage(), IMPLEMENTATION_STAGE);
}

#[test]
fn parser_scaffold_links_to_core() {
    assert_eq!(parser_stage(), "stage-0-skeleton");
}

#[test]
fn store_scaffold_links_to_core() {
    assert_eq!(store_stage(), "stage-0-skeleton");
}

#[test]
fn hash_hex_is_the_sha256_of_the_text() {
    assert_eq!(
        hash_hex(""),
        "e3b0c44298fc1c149afbf4c8996fb92427ae41e4649b934ca495991b7852b855"
    );
    assert_eq!(
        hash_hex("abc"),
        "ba7816bf8f01cfea414140de5dae2223b00361a396177a9cb410ff61f20015ad"
    );
}
