//! The inline-image escape sequence and the blank placeholder rows that give
//! an image its footprint in terminal cells.
use vstd::prelude::*;

use base64::Engine;
use crossterm::Command;

use crate::text::{chars_of, push_chars, push_spaces, spaces, string_of};

verus! {

/// The decimal digit for `d`.
pub open spec fn digit(d: nat) -> char {
    if d == 0 { '0' }
    else if d == 1 { '1' }
    else if d == 2 { '2' }
    else if d == 3 { '3' }
    else if d == 4 { '4' }
    else if d == 5 { '5' }
    else if d == 6 { '6' }
    else if d == 7 { '7' }
    else if d == 8 { '8' }
    else { '9' }
}

/// The decimal notation of `n`, without leading zeros.
pub open spec fn decimal(n: nat) -> Seq<char>
    decreases n,
{
    if n < 10 {
        seq![digit(n)]
    } else {
        decimal(n / 10).push(digit(n % 10))
    }
}

/// The start of an inline-file transfer: `ESC ] 1337 ; File=inline=1`.
pub open spec fn inline_prefix() -> Seq<char> {
    seq!['\u{1b}', ']', '1', '3', '3', '7', ';', 'F', 'i', 'l', 'e', '=', 'i', 'n', 'l', 'i', 'n', 'e', '=', '1']
}

/// The width parameter.
pub open spec fn width_key() -> Seq<char> {
    seq![';', 'w', 'i', 'd', 't', 'h', '=']
}

/// The height parameter.
pub open spec fn height_key() -> Seq<char> {
    seq![';', 'h', 'e', 'i', 'g', 'h', 't', '=']
}

/// The parameter that keeps the cursor in place.
pub open spec fn keep_cursor_key() -> Seq<char> {
    seq![';', 'd', 'o', 'N', 'o', 't', 'M', 'o', 'v', 'e', 'C', 'u', 'r', 's', 'o', 'r', '=', '1']
}

/// The escape sequence that shows the base64 `payload` inline, `width` and
/// `height` cells large where they are not 0, without moving the cursor
/// unless `move_cursor`.
pub open spec fn image_code(payload: Seq<char>, width: nat, height: nat, move_cursor: bool) -> Seq<char> {
    inline_prefix()
        + (if width > 0 { width_key() + decimal(width) } else { seq![] })
        + (if height > 0 { height_key() + decimal(height) } else { seq![] })
        + (if !move_cursor { keep_cursor_key() } else { seq![] })
        + seq![':'] + payload + seq!['\u{7}']
}

/// `n` rows of `width` spaces, each followed by a newline.
pub open spec fn blank_rows(width: nat, n: nat) -> Seq<char>
    decreases n,
{
    if n == 0 {
        seq![]
    } else {
        blank_rows(width, (n - 1) as nat) + spaces(width) + seq!['\n']
    }
}

/// The escape sequence that saves the cursor position.
pub open spec fn save_cursor() -> Seq<char> {
    seq!['\u{1b}', '7']
}

/// The escape sequence that restores the saved cursor position.
pub open spec fn restore_cursor() -> Seq<char> {
    seq!['\u{1b}', '8']
}

/// The image code, between cursor save and restore where `return_cursor`,
/// followed by `height` blank rows of `width` spaces.
pub open spec fn image_block(code: Seq<char>, width: nat, height: nat, return_cursor: bool) -> Seq<char> {
    (if return_cursor { save_cursor() + code + restore_cursor() } else { code })
        + blank_rows(width, height)
}

/// The base64 encoding of `bytes` with the standard alphabet and padding.
pub uninterp spec fn base64_of(bytes: Seq<u8>) -> Seq<char>;

/// Relies on base64's `STANDARD` engine `encode`: the standard padded
/// encoding, four characters for each three bytes begun.
#[verifier::external_body]
fn encode_standard(bytes: &[u8]) -> (r: String)
    requires
        bytes@.len() <= usize::MAX / 2,
    ensures
        r@ == base64_of(bytes@),
        r@.len() == 4 * ((bytes@.len() + 2) / 3),
{
    base64::engine::general_purpose::STANDARD.encode(bytes)
}

/// Relies on crossterm's `cursor::SavePosition` written as ANSI: `ESC 7`.
#[verifier::external_body]
fn save_position() -> (r: String)
    ensures
        r@ == save_cursor(),
{
    let mut s = String::new();
    let _ = crossterm::cursor::SavePosition.write_ansi(&mut s);
    s
}

/// Relies on crossterm's `cursor::RestorePosition` written as ANSI: `ESC 8`.
#[verifier::external_body]
fn restore_position() -> (r: String)
    ensures
        r@ == restore_cursor(),
{
    let mut s = String::new();
    let _ = crossterm::cursor::RestorePosition.write_ansi(&mut s);
    s
}

/// The base64 payload of an image file's bytes.
pub fn image_base64(image: &[u8]) -> (r: String)
    requires
        image@.len() <= usize::MAX / 2,
    ensures
        r@ == base64_of(image@),
        r@.len() == 4 * ((image@.len() + 2) / 3),
{
    encode_standard(image)
}

fn push_decimal(out: &mut Vec<char>, n: u32)
    ensures
        final(out)@ == old(out)@ + decimal(n as nat),
    decreases n,
{
    if n >= 10 {
        push_decimal(out, n / 10);
    }
    let d = n % 10;
    let c = if d == 0 { '0' } else if d == 1 { '1' } else if d == 2 { '2' } else if d == 3 {
        '3'
    } else if d == 4 { '4' } else if d == 5 { '5' } else if d == 6 { '6' } else if d == 7 {
        '7'
    } else if d == 8 { '8' } else { '9' };
    out.push(c);
    assert(out@ =~= old(out)@ + decimal(n as nat));
}

/// The escape sequence that shows `payload` inline.
pub fn imagecode_iterm2(payload: &str, width: u32, height: u32, move_cursor: bool) -> (r: String)
    ensures
        r@ == image_code(payload@, width as nat, height as nat, move_cursor),
{
    let mut out: Vec<char> = vec![
        '\u{1b}', ']', '1', '3', '3', '7', ';', 'F', 'i', 'l', 'e', '=', 'i', 'n', 'l', 'i', 'n',
        'e', '=', '1',
    ];
    assert(out@ =~= inline_prefix());
    let ghost a = out@;
    if width > 0 {
        let key: Vec<char> = vec![';', 'w', 'i', 'd', 't', 'h', '='];
        assert(key@ =~= width_key());
        out.extend_from_slice(key.as_slice());
        push_decimal(&mut out, width);
    }
    assert(out@ =~= a + (if width > 0 { width_key() + decimal(width as nat) } else { seq![] }));
    let ghost b = out@;
    if height > 0 {
        let key: Vec<char> = vec![';', 'h', 'e', 'i', 'g', 'h', 't', '='];
        assert(key@ =~= height_key());
        out.extend_from_slice(key.as_slice());
        push_decimal(&mut out, height);
    }
    assert(out@ =~= b + (if height > 0 { height_key() + decimal(height as nat) } else { seq![] }));
    let ghost c = out@;
    if !move_cursor {
        let key: Vec<char> = vec![
            ';', 'd', 'o', 'N', 'o', 't', 'M', 'o', 'v', 'e', 'C', 'u', 'r', 's', 'o', 'r', '=',
            '1',
        ];
        assert(key@ =~= keep_cursor_key());
        out.extend_from_slice(key.as_slice());
    }
    assert(out@ =~= c + (if !move_cursor { keep_cursor_key() } else { seq![] }));
    out.push(':');
    let p = chars_of(payload);
    out.extend_from_slice(p.as_slice());
    out.push('\u{7}');
    assert(out@ =~= image_code(payload@, width as nat, height as nat, move_cursor));
    string_of(out.as_slice())
}

/// The image code followed by `height` blank rows of `width` spaces, between
/// cursor save and restore where `return_cursor`.
pub fn to_block(image_code: &str, width: u32, height: u32, return_cursor: bool) -> (r: String)
    ensures
        r@ == image_block(image_code@, width as nat, height as nat, return_cursor),
{
    let mut out = String::new();
    let code = chars_of(image_code);
    if return_cursor {
        out = save_position();
        push_chars(&mut out, code.as_slice());
        let restore = chars_of(restore_position().as_str());
        push_chars(&mut out, restore.as_slice());
    } else {
        push_chars(&mut out, code.as_slice());
    }
    let ghost head = out@;
    assert(head =~= (if return_cursor { save_cursor() + image_code@ + restore_cursor() } else { image_code@ }));
    let mut row: Vec<char> = Vec::new();
    push_spaces(&mut row, width as usize);
    row.push('\n');
    assert(row@ =~= spaces(width as nat) + seq!['\n']);
    let mut i: u32 = 0;
    while i < height
        invariant
            i <= height,
            row@ == spaces(width as nat) + seq!['\n'],
            out@ == head + blank_rows(width as nat, i as nat),
        decreases height - i,
    {
        push_chars(&mut out, row.as_slice());
        i += 1;
        assert(out@ =~= head + blank_rows(width as nat, i as nat));
    }
    out
}

/// The block text of an image: its bytes encoded as base64, shown inline at
/// `width` by `height` cells without moving the cursor, followed by the
/// blank rows of its footprint.
pub fn path_to_block(image: &[u8], width: u32, height: u32) -> (r: String)
    requires
        image@.len() <= usize::MAX / 2,
    ensures
        r@ == image_block(
            image_code(base64_of(image@), width as nat, height as nat, false),
            width as nat,
            height as nat,
            false,
        ),
{
    let payload = image_base64(image);
    let code = imagecode_iterm2(payload.as_str(), width, height, false);
    to_block(code.as_str(), width, height, false)
}

} // verus!
