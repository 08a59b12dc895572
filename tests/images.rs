use shwelcome::image::{image_base64, imagecode_iterm2, path_to_block, to_block};
use shwelcome::text::{chars_of, split_chars, strip_tags, trim};

#[test]
fn image_code_with_dimensions_moving_cursor() {
    let code = imagecode_iterm2("QUJD", 10, 4, true);
    assert!(code.contains(";width=10;height=4"));
    assert!(!code.contains("doNotMoveCursor"));
    assert_eq!(code, "\x1b]1337;File=inline=1;width=10;height=4:QUJD\x07");
    let block = to_block(&code, 10, 4, false);
    let rest = block.strip_prefix(code.as_str()).unwrap();
    let rows: Vec<&str> = rest.lines().collect();
    assert_eq!(rows.len(), 4);
    for r in rows {
        assert_eq!(r, "          ");
    }
}

#[test]
fn image_code_keeping_cursor() {
    let code = imagecode_iterm2("AA==", 0, 0, false);
    assert_eq!(code, "\x1b]1337;File=inline=1;doNotMoveCursor=1:AA==\x07");
}

#[test]
fn image_code_height_only() {
    let code = imagecode_iterm2("x", 0, 120, true);
    assert_eq!(code, "\x1b]1337;File=inline=1;height=120:x\x07");
}

#[test]
fn to_block_saves_and_restores_cursor() {
    let b = to_block("CODE", 2, 1, true);
    assert_eq!(b, "\x1b7CODE\x1b8  \n");
}

#[test]
fn base64_of_bytes() {
    assert_eq!(image_base64(b"hello"), "aGVsbG8=");
    assert_eq!(image_base64(b""), "");
    assert_eq!(image_base64(b"abcd").len(), 8);
}

#[test]
fn path_to_block_encodes_and_pads() {
    let b = path_to_block(b"ABC", 3, 2);
    assert_eq!(b, "\x1b]1337;File=inline=1;width=3;height=2;doNotMoveCursor=1:QUJD\x07   \n   \n");
}

#[test]
fn text_helpers() {
    assert_eq!(trim(&chars_of("  a b\t\n")), vec!['a', ' ', 'b']);
    assert_eq!(strip_tags(&chars_of("<b>x</b>y<z")), vec!['x', 'y']);
    let parts = split_chars(&chars_of("a<br>b<br>"), &chars_of("<br>"));
    assert_eq!(parts, vec![vec!['a'], vec!['b'], vec![]]);
}
