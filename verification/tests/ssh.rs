use rcargo::ssh::{filter_sgr, shell_quote, SgrFilter};

fn filter(input: &[u8]) -> Vec<u8> {
    filter_sgr(input)
}

#[test]
fn plain_text_passthrough() {
    let out = filter(b"hello world");
    assert_eq!(out, b"hello world");
}

#[test]
fn empty_input() {
    let out = filter(b"");
    assert!(out.is_empty());
}

#[test]
fn sgr_color_allowed() {
    let out = filter(b"\x1b[31mred\x1b[0m");
    assert_eq!(out, b"\x1b[31mred\x1b[0m");
}

#[test]
fn sgr_bold_allowed() {
    let out = filter(b"\x1b[1mbold\x1b[22m");
    assert_eq!(out, b"\x1b[1mbold\x1b[22m");
}

#[test]
fn sgr_256_color_allowed() {
    let out = filter(b"\x1b[38;5;196m");
    assert_eq!(out, b"\x1b[38;5;196m");
}

#[test]
fn sgr_24bit_color_allowed() {
    let out = filter(b"\x1b[48;2;255;128;0m");
    assert_eq!(out, b"\x1b[48;2;255;128;0m");
}

#[test]
fn sgr_shorthand_reset_allowed() {
    let out = filter(b"\x1b[m");
    assert_eq!(out, b"\x1b[m");
}

#[test]
fn sgr_with_intermediate_byte_allowed() {
    let out = filter(b"\x1b[ m");
    assert_eq!(out, b"\x1b[ m");
}

#[test]
fn dsr_response_stripped() {
    let out = filter(b"\x1b[21;1R");
    assert!(out.is_empty());
}

#[test]
fn dec_private_dsr_stripped() {
    let out = filter(b"\x1b[?21;1R");
    assert!(out.is_empty());
}

#[test]
fn dec_private_dsr_extended_stripped() {
    let out = filter(b"\x1b[?5;10;1R");
    assert!(out.is_empty());
}

#[test]
fn da_response_stripped() {
    let out = filter(b"\x1b[?1;2c");
    assert!(out.is_empty());
}

#[test]
fn da2_response_stripped() {
    let out = filter(b"\x1b[>62;1;2c");
    assert!(out.is_empty());
}

#[test]
fn cursor_movement_stripped() {
    let out = filter(b"\x1b[2A");
    assert!(out.is_empty());
}

#[test]
fn cursor_home_stripped() {
    let out = filter(b"\x1b[H");
    assert!(out.is_empty());
}

#[test]
fn erase_display_stripped() {
    let out = filter(b"\x1b[2J");
    assert!(out.is_empty());
}

#[test]
fn tild_terminated_sequence_stripped() {
    let out = filter(b"\x1b[200~");
    assert!(out.is_empty());
}

#[test]
fn mixed_text_and_sgr() {
    let out = filter(b"pass ");
    assert_eq!(out, b"pass ");
    let out = filter(b"\x1b[32m");
    assert_eq!(out, b"\x1b[32m");
    let out = filter(b"1");
    assert_eq!(out, b"1");
    let out = filter(b"\x1b[0m");
    assert_eq!(out, b"\x1b[0m");
    let out = filter(b" fail 2");
    assert_eq!(out, b" fail 2");
}

#[test]
fn multiple_sgr_in_sequence() {
    let out = filter(b"\x1b[1m\x1b[31m\x1b[4m");
    assert_eq!(out, b"\x1b[1m\x1b[31m\x1b[4m");
}

#[test]
fn text_sgr_text_dsr_text_sgr_text() {
    let out = filter(b"before\x1b[31mcolored\x1b[0m\x1b[21;1Rafter\x1b[32mgreen");
    assert_eq!(out, b"before\x1b[31mcolored\x1b[0mafter\x1b[32mgreen");
}

#[test]
fn non_csi_escape_passed_through() {
    let out = filter(b"\x1b7\x1b8");
    assert_eq!(out, b"\x1b7\x1b8");
}

#[test]
fn bare_esc_at_eof_flushed() {
    let out = filter(b"hello\x1b");
    assert_eq!(out, b"hello\x1b");
}

#[test]
fn partial_csi_at_eof_flushed() {
    let out = filter(b"hello\x1b[");
    assert_eq!(out, b"hello\x1b[");
}

#[test]
fn partial_csi_params_at_eof_flushed() {
    let out = filter(b"\x1b[31");
    assert_eq!(out, b"\x1b[31");
}

#[test]
fn realistic_cargo_test_output() {
    let input = b"\x1b[0m\x1b[1m\x1b[32mok\x1b[0m\x1b[0m \x1b[1mtest_name\x1b[0m\n\x1b[1m\x1b[31mFAILED\x1b[0m\x1b[0m other_test\n\x1b[21;1R";
    let out = filter(input);
    assert_eq!(
        out,
        b"\x1b[0m\x1b[1m\x1b[32mok\x1b[0m\x1b[0m \x1b[1mtest_name\x1b[0m\n\x1b[1m\x1b[31mFAILED\x1b[0m\x1b[0m other_test\n".to_vec()
    );
}

// ---------------------------------------------------------------------------

#[test]
fn streaming_filter_matches_whole_filter() {
    let input = b"a\x1b[31mb\x1b[2Jc\x1b[";
    let mut f = SgrFilter::new();
    let mut out = Vec::new();
    for b in input.iter() {
        out.extend(f.feed(*b));
    }
    out.extend(f.finish());
    assert_eq!(out, filter(input));
    assert_eq!(out, b"a\x1b[31mbc\x1b[".to_vec());
}

#[test]
fn shell_quote_examples() {
    assert_eq!(shell_quote("foobar"), "foobar");
    assert_eq!(shell_quote("foo bar"), "foo' bar'");
    assert_eq!(shell_quote(""), "''");
    assert_eq!(shell_quote("/home/u/build/app"), "/home/u/build/app");
}

#[test]
fn filtering_twice_is_filtering_once() {
    let inputs: Vec<&[u8]> = vec![
        b"\x1b\x1b\x1b[1A[31mred",
        b"a\x1b[1;31mb\x1b[6nc\x1b7d\x1b[",
        b"\x1b[?25l\x1b[0m\x1b",
        b"\x1b[1\x1b",
    ];
    for x in inputs {
        let once = filter_sgr(x);
        assert_eq!(filter_sgr(&once), once);
    }
}
