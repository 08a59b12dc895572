use shwelcome::banner;
use shwelcome::block::{join_horizontal, Block};
use shwelcome::error::Error;

#[test]
fn padded_pads_lines_and_adds_blank_rows() {
    let b = Block::new("ab\nc".to_string(), 4, 3);
    assert_eq!(b.padded().unwrap(), "ab  \nc   \n    ");
}

#[test]
fn padded_rows_have_declared_shape() {
    let b = Block::new("hello\nhi\n".to_string(), 6, 4);
    let out = b.padded().unwrap();
    let rows: Vec<&str> = out.split('\n').collect();
    assert_eq!(rows.len(), 4);
    for r in rows {
        assert_eq!(r.chars().count(), 6);
    }
}

#[test]
fn padded_keeps_lines_wider_than_width() {
    let b = Block::new("abcdef".to_string(), 3, 2);
    assert_eq!(b.padded().unwrap(), "abcdef\n   ");
}

#[test]
fn padded_counts_characters_not_bytes() {
    let b = Block::new("äö".to_string(), 3, 1);
    assert_eq!(b.padded().unwrap(), "äö ");
}

#[test]
fn padded_refuses_too_many_lines() {
    let b = Block::new("a\nb\nc".to_string(), 1, 2);
    assert_eq!(b.padded(), Err(Error::InvalidBlockDimensions));
}

#[test]
fn padded_zero_height_empty_content() {
    let b = Block::new(String::new(), 5, 0);
    assert_eq!(b.padded().unwrap(), "");
}

#[test]
fn from_text_measures_lines() {
    let b = Block::from_text("abc\nde\n");
    assert_eq!(b.width, 3);
    assert_eq!(b.height, 2);
    assert_eq!(b.content, "abc\nde\n");
    let e = Block::from_text("");
    assert_eq!(e.width, 0);
    assert_eq!(e.height, 0);
    let blank = Block::from_text("\n\n");
    assert_eq!(blank.height, 2);
    assert_eq!(blank.width, 0);
}

#[test]
fn join_two_blocks_side_by_side() {
    let a = Block::new("a\nb".to_string(), 2, 2);
    let b = Block::new("xyz".to_string(), 3, 1);
    assert_eq!(join_horizontal(&vec![a, b]).unwrap(), "a xyz\nb    \n");
}

#[test]
fn join_rows_all_have_total_width() {
    let a = Block::from_text("one\ntwo\nthree");
    let b = Block::new("x".to_string(), 4, 1);
    let c = Block::new(String::new(), 2, 0);
    let out = join_horizontal(&vec![a, b, c]).unwrap();
    let rows: Vec<&str> = out.lines().collect();
    assert_eq!(rows.len(), 3);
    for r in rows {
        assert_eq!(r.chars().count(), 5 + 4 + 2);
    }
    assert!(out.ends_with('\n'));
}

#[test]
fn join_empty_list_is_empty() {
    assert_eq!(join_horizontal(&Vec::new()).unwrap(), "");
}

#[test]
fn join_zero_height_blocks_is_empty() {
    let a = Block::new(String::new(), 3, 0);
    let b = Block::new("ignored".to_string(), 4, 0);
    assert_eq!(join_horizontal(&vec![a, b]).unwrap(), "");
}

#[test]
fn join_refuses_block_with_too_many_lines() {
    let a = Block::new("a\nb".to_string(), 1, 1);
    let b = Block::new("c".to_string(), 1, 1);
    assert_eq!(join_horizontal(&vec![a, b]), Err(Error::InvalidBlockDimensions));
}

#[test]
fn banner_without_image_is_card() {
    assert_eq!(banner(None, "card\ntext").unwrap(), "card\ntext");
}

#[test]
fn banner_with_image_block() {
    let img = Block::new("II\nII".to_string(), 2, 2);
    assert_eq!(banner(Some(img), "ab\nc").unwrap(), "IIab\nIIc \n");
}

#[test]
fn from_text_drops_carriage_return_before_newline() {
    let b = Block::from_text("ab\r\ncd\r");
    assert_eq!(b.height, 2);
    assert_eq!(b.width, 3);
    let p = Block::new("ab\r\nc\r\n".to_string(), 3, 2);
    assert_eq!(p.padded().unwrap(), "ab \nc  ");
}

#[test]
fn banner_refuses_image_block_with_too_many_lines() {
    let img = Block::new("I\nI\nI".to_string(), 1, 2);
    assert_eq!(banner(Some(img), "card"), Err(Error::InvalidBlockDimensions));
}
