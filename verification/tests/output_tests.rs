use hermes_launcher::output::{drain_lines, CommandOutput};

#[test]
fn drain_lines_takes_complete_lines() {
    let mut buf = b"ab\ncd\nef".to_vec();
    let lines = drain_lines(&mut buf);
    assert_eq!(lines, vec!["ab\n".to_string(), "cd\n".to_string()]);
    assert_eq!(buf, b"ef".to_vec());
}

#[test]
fn drain_lines_without_newline_keeps_everything() {
    let mut buf = b"partial".to_vec();
    assert!(drain_lines(&mut buf).is_empty());
    assert_eq!(buf, b"partial".to_vec());
    let mut empty: Vec<u8> = Vec::new();
    assert!(drain_lines(&mut empty).is_empty());
    assert!(empty.is_empty());
}

#[test]
fn drain_lines_decodes_invalid_utf8_lossily() {
    let mut buf = vec![0xff, b'o', b'k', b'\n'];
    let lines = drain_lines(&mut buf);
    assert_eq!(lines, vec!["\u{FFFD}ok\n".to_string()]);
    assert!(buf.is_empty());
}

#[test]
fn multibyte_character_split_across_chunks_survives() {
    let bytes = "é\n".as_bytes();
    let mut out = CommandOutput::new();
    assert!(out.on_data(&bytes[..1]).is_empty());
    assert_eq!(out.on_data(&bytes[1..]), vec!["é\n".to_string()]);
    assert_eq!(out.finish(), (0, None));
}

#[test]
fn command_output_streams_lines_and_code() {
    let mut out = CommandOutput::new();
    assert!(out.on_data(b"hel").is_empty());
    assert_eq!(out.on_data(b"lo\nwor"), vec!["hello\n".to_string()]);
    out.on_exit_status(3);
    assert_eq!(out.finish(), (3, Some("wor".to_string())));
}

#[test]
fn command_output_without_anything_is_code_zero() {
    let out = CommandOutput::new();
    assert_eq!(out.finish(), (0, None));
}

#[test]
fn command_output_loses_no_bytes() {
    let chunks: [&[u8]; 4] = [b"a\nbb", b"b\n", b"", b"\nccc"];
    let mut out = CommandOutput::new();
    let mut all = String::new();
    for c in chunks {
        for l in out.on_data(c) {
            all.push_str(&l);
        }
    }
    let (_, rest) = out.finish();
    all.push_str(&rest.unwrap());
    assert_eq!(all, "a\nbbb\n\nccc");
}

#[test]
fn drain_lines_decodes_valid_lines_exactly() {
    let mut buf = b"ab\n\xC3\xA9\ncd".to_vec();
    assert_eq!(drain_lines(&mut buf), vec!["ab\n".to_string(), "é\n".to_string()]);
    assert_eq!(buf, b"cd".to_vec());
}

#[test]
fn draining_in_two_chunks_equals_draining_once() {
    let all: Vec<u8> = "x\nh\u{e9}llo\nwor".as_bytes().to_vec();
    for cut in 0..=all.len() {
        let mut once = all.clone();
        let lines_once = drain_lines(&mut once);
        let mut buf = all[..cut].to_vec();
        let mut lines = drain_lines(&mut buf);
        buf.extend_from_slice(&all[cut..]);
        lines.extend(drain_lines(&mut buf));
        assert_eq!(lines, lines_once);
        assert_eq!(buf, once);
    }
}
