use shwelcome::card::{card_from_choice, parse_line, random_card, render_translation, AnkiCard};
use shwelcome::error::Error;
use shwelcome::style::{paint, CardStyle, TextStyle};

fn plain() -> CardStyle {
    let p = TextStyle { fg: None, bg: None, italic: false };
    CardStyle { word: p, reading: p, tag: p, index: p, gloss: p }
}

#[test]
fn parse_round_trip() {
    let c = parse_line("ignored\x1Fword\x1Freading\x1Fa<br> b <br>c").unwrap();
    assert_eq!(c.word, "word");
    assert_eq!(c.reading, "reading");
    assert_eq!(c.translations, vec!["a".to_string(), "b".to_string(), "c".to_string()]);
}

#[test]
fn parse_keeps_empty_entries_and_ignores_extra_fields() {
    let c = parse_line("x\x1Fw\x1Fr\x1F<br>  \u{3000}z\x1Fextra").unwrap();
    assert_eq!(c.translations, vec![String::new(), "z".to_string()]);
}

#[test]
fn parse_two_fields_is_malformed() {
    let r = parse_line("only\x1Ftwo");
    assert_eq!(r.unwrap_err(), Error::MalformedRecord("only\x1Ftwo".to_string()));
}

#[test]
fn parse_three_fields_is_malformed() {
    assert!(matches!(parse_line("a\x1Fb\x1Fc"), Err(Error::MalformedRecord(_))));
}

#[test]
fn plain_entry_renders_unchanged() {
    assert_eq!(render_translation("run", &CardStyle::mocha()), "run");
}

#[test]
fn numbered_entry_pads_index() {
    let style = CardStyle::mocha();
    let expected = format!("{} {}", paint(" 12", &style.index), "dog");
    assert_eq!(render_translation("<b>12</b> dog", &style), expected);
    assert!(expected.contains("\x1b["));
    assert_eq!(render_translation("<b>12</b> dog", &plain()), " 12 dog");
}

#[test]
fn long_index_is_not_padded() {
    assert_eq!(render_translation("<b>1234</b><i>cat</i>", &plain()), "1234 cat");
}

#[test]
fn tag_entry_is_stripped_and_styled() {
    let entry = "<span style=\"color: #78909C\"> noun </span>";
    assert_eq!(render_translation(entry, &plain()), "noun");
    let styled = render_translation(entry, &CardStyle::mocha());
    assert!(styled.contains("noun"));
    assert!(styled.starts_with("\x1b["));
    assert_ne!(styled, "noun");
}

#[test]
fn render_whole_card() {
    let c = AnkiCard {
        word: "犬".to_string(),
        reading: "いぬ".to_string(),
        translations: vec!["<b>1</b> dog".to_string(), "hound".to_string()],
    };
    assert_eq!(c.render_with(&plain()), "犬 - いぬ\n  1 dog\nhound");
    let styled = c.render();
    assert!(styled.contains("犬"));
    assert!(styled.contains("\x1b["));
    assert!(styled.ends_with("\nhound"));
}

#[test]
fn render_card_without_translations() {
    let c = AnkiCard { word: "a".to_string(), reading: "b".to_string(), translations: vec![] };
    assert_eq!(c.render_with(&plain()), "a - b\n");
}

#[test]
fn random_card_from_no_records() {
    assert!(matches!(random_card(&Vec::new()), Err(Error::NoCardsAvailable)));
}

#[test]
fn random_card_from_records() {
    let records = vec!["i\x1Fw1\x1Fr1\x1Ft1".to_string(), "i\x1Fw2\x1Fr2\x1Ft2".to_string()];
    let c = random_card(&records).unwrap();
    assert!(c.word == "w1" || c.word == "w2");
    let bad = vec!["broken".to_string()];
    assert_eq!(random_card(&bad).unwrap_err(), Error::MalformedRecord("broken".to_string()));
}

#[test]
fn card_from_no_choice() {
    assert!(matches!(card_from_choice(None), Err(Error::NoCardsAvailable)));
    let c = card_from_choice(Some("a\x1Fb\x1Fc\x1Fd".to_string())).unwrap();
    assert_eq!(c.translations, vec!["d".to_string()]);
}

#[test]
fn mocha_palette_colors() {
    let s = CardStyle::mocha();
    assert_eq!(s.word.fg, Some((245, 194, 231)));
    assert_eq!(s.index.fg, Some((17, 17, 27)));
    assert_eq!(s.reading.fg, Some((166, 173, 200)));
    assert!(s.tag.italic);
    let p = paint("x", &s.word);
    assert_eq!(p, "\x1b[38;2;245;194;231mx\x1b[0m");
}
