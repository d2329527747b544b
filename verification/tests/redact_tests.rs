use hermes_launcher::redact::{log_lines, redact};

#[test]
fn redacts_value_after_sensitive_flag() {
    assert_eq!(redact("run --password hunter2 now"), "run --password *** now");
}

#[test]
fn redacts_sensitive_assignment() {
    assert_eq!(redact("token=abc user=bob"), "token=*** user=bob");
}

#[test]
fn key_is_normalised_before_matching() {
    assert_eq!(redact("API_KEY=abc"), "API_KEY=***");
    assert_eq!(redact("--PASSWD=z"), "--PASSWD=***");
    assert_eq!(redact("--auth-token=xyz"), "--auth-token=***");
    assert_eq!(redact("MY_SECRET=1 x"), "MY_SECRET=*** x");
}

#[test]
fn key_must_end_with_a_sensitive_word() {
    assert_eq!(redact("passwordfile=x"), "passwordfile=x");
    assert_eq!(redact("--tokenizer fast"), "--tokenizer fast");
}

#[test]
fn only_the_first_equals_sign_splits() {
    assert_eq!(redact("secret=a=b"), "secret=***");
    assert_eq!(redact("a=token=b"), "a=token=b");
}

#[test]
fn empty_tokens_do_not_take_the_mask() {
    assert_eq!(redact("--auth  secret"), "--auth  ***");
    assert_eq!(redact("--auth"), "--auth");
    assert_eq!(redact(""), "");
}

#[test]
fn a_flag_value_is_masked_even_when_it_is_a_flag() {
    assert_eq!(redact("--password --password x"), "--password *** x");
}

#[test]
fn harmless_lines_are_unchanged() {
    let line = "ls -la /tmp --color=auto x=1";
    assert_eq!(redact(line), line);
}

#[test]
fn redacting_twice_changes_nothing_more() {
    for line in [
        "run --password hunter2 now",
        "token=abc --auth  x y",
        "--secret=1 --token --token v",
        "plain text here",
        "",
    ] {
        let once = redact(line);
        assert_eq!(redact(&once), once);
    }
}

#[test]
fn tokens_are_kept_one_for_one() {
    let line = "a --token b c=d password=e  f";
    let out = redact(line);
    assert_eq!(out.split(' ').count(), line.split(' ').count());
    assert_eq!(out, "a --token *** c=d password=***  f");
}

#[test]
fn non_ascii_text_passes_through() {
    assert_eq!(redact("héllo wörld pässword=ü"), "héllo wörld pässword=ü");
    assert_eq!(redact("Ünïcode --secret ✓"), "Ünïcode --secret ***");
}

#[test]
fn log_lines_split_trim_and_redact() {
    assert_eq!(
        log_lines("line1\nline2 password=x\n"),
        vec!["line1".to_string(), "line2 password=***".to_string()]
    );
}

#[test]
fn log_lines_of_empty_chunk_is_empty() {
    assert!(log_lines("").is_empty());
}

#[test]
fn log_lines_keep_a_last_line_without_newline() {
    assert_eq!(log_lines("a\r\n\nb  "), vec!["a".to_string(), "".to_string(), "b".to_string()]);
    assert_eq!(log_lines("tail"), vec!["tail".to_string()]);
}

#[test]
fn log_lines_trim_unicode_white_space() {
    assert_eq!(log_lines("x\u{3000}\u{a0}\t\n"), vec!["x".to_string()]);
}

#[test]
fn value_of_a_sensitive_assignment_does_not_show() {
    assert_eq!(redact("x API_KEY=aaa y"), redact("x API_KEY=bbbbbb y"));
    assert_eq!(redact("API_KEY=aaa"), "API_KEY=***");
}

#[test]
fn value_after_a_sensitive_flag_does_not_show() {
    let r1 = redact("--db-password one rest");
    assert_eq!(r1, redact("--db-password two rest"));
    assert_eq!(r1.split(' ').nth(1), Some("***"));
}

#[test]
fn line_without_secret_words_passes_whole() {
    let line = "  deploy  --to=prod  x=y --verbose ";
    assert_eq!(redact(line), line);
}
