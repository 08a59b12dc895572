//! Flashcards: parsing a raw delimited record, rendering it with styles, and
//! picking one record out of those a datastore returned.
use vstd::prelude::*;

use itertools::Itertools;
use rand::seq::SliceRandom;

use crate::block::join_nl;
use crate::error::Error;
use crate::style::{paint, paint_spec, CardStyle};
use crate::text::{
    chars_of, find_at_or_after, find_from, lemma_find_from_range, push_chars, slice_to_vec,
    spaces, split_chars, split_seq, string_of, strip_tags, strip_tags_spec, trim, trim_spec,
    views,
};

verus! {

/// A flashcard: a headword, its reading, and its translation entries in order.
#[derive(Debug, Clone)]
pub struct AnkiCard {
    pub word: String,
    pub reading: String,
    pub translations: Vec<String>,
}

/// The separator between the fields of a record (the unit separator).
pub open spec fn field_sep() -> Seq<char> {
    seq!['\u{1f}']
}

/// The token between translation entries.
pub open spec fn entry_sep() -> Seq<char> {
    seq!['<', 'b', 'r', '>']
}

/// The color code that marks a grammatical-category tag.
pub open spec fn tag_marker() -> Seq<char> {
    seq!['7', '8', '9', '0', '9', 'C']
}

/// The token that closes the bold index of a numbered gloss.
pub open spec fn bold_close() -> Seq<char> {
    seq!['<', '/', 'b', '>']
}

/// The fields of a record.
pub open spec fn record_fields(line: Seq<char>) -> Seq<Seq<char>> {
    split_seq(line, field_sep())
}

/// A record without its four fields.
pub open spec fn malformed(line: Seq<char>) -> bool {
    record_fields(line).len() < 4
}

/// The translation entries of a translations field, each trimmed.
pub open spec fn entries_of(field: Seq<char>) -> Seq<Seq<char>> {
    split_seq(field, entry_sep()).map_values(|p: Seq<char>| trim_spec(p))
}

/// The views of a sequence of strings.
pub open spec fn string_views(v: Seq<String>) -> Seq<Seq<char>> {
    v.map_values(|s: String| s@)
}

/// `c` is the card that the well-formed record `line` holds: the second field
/// is the word, the third the reading, and the fourth the translations.
pub open spec fn parsed(line: Seq<char>, c: AnkiCard) -> bool {
    let f = record_fields(line);
    &&& !malformed(line)
    &&& c.word@ == f[1]
    &&& c.reading@ == f[2]
    &&& string_views(c.translations@) == entries_of(f[3])
}

/// Parses one record: four fields separated by the unit separator, the first
/// ignored, then word, reading, and translations separated by `<br>`.
pub fn parse_line(line: &str) -> (r: Result<AnkiCard, Error>)
    ensures
        r is Err <==> malformed(line@),
        r matches Err(e) ==> (e matches Error::MalformedRecord(m) && m@ == line@),
        r matches Ok(c) ==> parsed(line@, c),
{
    let cs = chars_of(line);
    let sep: Vec<char> = vec!['\u{1f}'];
    assert(sep@ =~= field_sep());
    let fields = split_chars(cs.as_slice(), sep.as_slice());
    if fields.len() < 4 {
        return Err(Error::MalformedRecord(String::from_str(line)));
    }
    assert(fields[1]@ == record_fields(line@)[1]);
    assert(fields[2]@ == record_fields(line@)[2]);
    assert(fields[3]@ == record_fields(line@)[3]);
    let word = string_of(fields[1].as_slice());
    let reading = string_of(fields[2].as_slice());
    let br: Vec<char> = vec!['<', 'b', 'r', '>'];
    assert(br@ =~= entry_sep());
    let pieces = split_chars(fields[3].as_slice(), br.as_slice());
    let ghost target = entries_of(fields[3]@);
    let mut translations: Vec<String> = Vec::new();
    let mut i: usize = 0;
    while i < pieces.len()
        invariant
            views(pieces@) == split_seq(fields[3]@, entry_sep()),
            target == entries_of(fields[3]@),
            i <= pieces.len(),
            string_views(translations@) == target.take(i as int),
        decreases pieces.len() - i,
    {
        assert(views(pieces@)[i as int] == pieces[i as int]@);
        let t = string_of(trim(pieces[i].as_slice()).as_slice());
        let ghost before = string_views(translations@);
        translations.push(t);
        assert(string_views(translations@) =~= before.push(t@));
        assert(target.take(i + 1) =~= target.take(i as int).push(target[i as int]));
        i += 1;
    }
    assert(target.take(pieces.len() as int) =~= target);
    Ok(AnkiCard { word, reading, translations })
}

/// `s` padded on the left with spaces to at least three characters.
pub open spec fn pad_index(s: Seq<char>) -> Seq<char> {
    if s.len() < 3 {
        spaces((3 - s.len()) as nat) + s
    } else {
        s
    }
}

/// How a translation entry is rendered: a tag, with its markup removed and
/// trimmed, in the tag style; a numbered gloss as its index, padded to three
/// columns, in the index style, a space, and the gloss in the gloss style;
/// any other entry as it is, in the gloss style.
pub open spec fn render_entry(t: Seq<char>, style: CardStyle) -> Seq<char> {
    if find_from(t, tag_marker(), 0) >= 0 {
        paint_spec(trim_spec(strip_tags_spec(t)), style.tag)
    } else {
        let k = find_from(t, bold_close(), 0);
        if k >= 0 {
            paint_spec(pad_index(trim_spec(strip_tags_spec(t.take(k)))), style.index) + seq![' ']
                + paint_spec(trim_spec(strip_tags_spec(t.skip(k + 4))), style.gloss)
        } else {
            paint_spec(t, style.gloss)
        }
    }
}

/// The rendered card: word and reading separated by ` - `, then a newline and
/// the rendered entries, one per line.
pub open spec fn render_spec(c: AnkiCard, style: CardStyle) -> Seq<char> {
    paint_spec(c.word@, style.word) + seq![' ', '-', ' '] + paint_spec(c.reading@, style.reading)
        + seq!['\n'] + join_nl(
        string_views(c.translations@).map_values(|t: Seq<char>| render_entry(t, style)),
    )
}

/// Renders one translation entry.
pub fn render_translation(translation: &str, style: &CardStyle) -> (r: String)
    ensures
        r@ == render_entry(translation@, *style),
{
    let t = chars_of(translation);
    let marker: Vec<char> = vec!['7', '8', '9', '0', '9', 'C'];
    assert(marker@ =~= tag_marker());
    if let Some(_) = find_at_or_after(t.as_slice(), marker.as_slice(), 0) {
        let body = string_of(trim(strip_tags(t.as_slice()).as_slice()).as_slice());
        return paint(body.as_str(), &style.tag);
    }
    let close: Vec<char> = vec!['<', '/', 'b', '>'];
    assert(close@ =~= bold_close());
    match find_at_or_after(t.as_slice(), close.as_slice(), 0) {
        Some(k) => {
            proof {
                lemma_find_from_range(t@, close@, 0);
                assert(close@.len() == 4);
                assert(k + 4 <= t@.len());
            }
            let left = slice_to_vec(t.as_slice(), 0, k);
            assert(k + 4 <= t.len());
            let right = slice_to_vec(t.as_slice(), k + close.len(), t.len());
            assert(left@ =~= t@.take(k as int));
            assert(right@ =~= t@.skip(k + 4));
            let number = trim(strip_tags(left.as_slice()).as_slice());
            let mut padded: Vec<char> = Vec::new();
            if number.len() < 3 {
                crate::text::push_spaces(&mut padded, 3 - number.len());
            }
            let ghost pre = padded@;
            let mut j: usize = 0;
            while j < number.len()
                invariant
                    j <= number.len(),
                    padded@ == pre + number@.take(j as int),
                decreases number.len() - j,
            {
                padded.push(number[j]);
                j += 1;
                assert(padded@ =~= pre + number@.take(j as int));
            }
            assert(number@.take(number.len() as int) =~= number@);
            assert(padded@ =~= pad_index(number@));
            let index = paint(string_of(padded.as_slice()).as_str(), &style.index);
            let word = string_of(trim(strip_tags(right.as_slice()).as_slice()).as_slice());
            let gloss = paint(word.as_str(), &style.gloss);
            let mut out = index;
            crate::text::push_char(&mut out, ' ');
            let gv = chars_of(gloss.as_str());
            push_chars(&mut out, gv.as_slice());
            out
        },
        None => paint(translation, &style.gloss),
    }
}

/// Relies on itertools' `Itertools::join`: the strings in order with a
/// newline between each two.
#[verifier::external_body]
fn join_lines(v: &Vec<String>) -> (r: String)
    ensures
        r@ == join_nl(string_views(v@)),
{
    v.iter().join("\n")
}

impl AnkiCard {
    /// The card rendered in `style`.
    pub fn render_with(&self, style: &CardStyle) -> (r: String)
        ensures
            r@ == render_spec(*self, *style),
    {
        let ghost target = string_views(self.translations@).map_values(
            |t: Seq<char>| render_entry(t, *style),
        );
        let mut rendered: Vec<String> = Vec::new();
        let mut i: usize = 0;
        while i < self.translations.len()
            invariant
                i <= self.translations.len(),
                target == string_views(self.translations@).map_values(
                    |t: Seq<char>| render_entry(t, *style),
                ),
                string_views(rendered@) == target.take(i as int),
            decreases self.translations.len() - i,
        {
            let e = render_translation(self.translations[i].as_str(), style);
            let ghost before = string_views(rendered@);
            rendered.push(e);
            assert(string_views(rendered@) =~= before.push(e@));
            assert(target.take(i + 1) =~= target.take(i as int).push(target[i as int]));
            i += 1;
        }
        assert(target.take(i as int) =~= target);
        let mut out = paint(self.word.as_str(), &style.word);
        let sep: Vec<char> = vec![' ', '-', ' '];
        push_chars(&mut out, sep.as_slice());
        let reading = chars_of(paint(self.reading.as_str(), &style.reading).as_str());
        push_chars(&mut out, reading.as_slice());
        crate::text::push_char(&mut out, '\n');
        let body = chars_of(join_lines(&rendered).as_str());
        push_chars(&mut out, body.as_slice());
        assert(out@ =~= render_spec(*self, *style));
        out
    }

    /// The card rendered in the Catppuccin Mocha styles.
    pub fn render(&self) -> (r: String)
        ensures
            r@ == render_spec(*self, CardStyle::mocha_spec()),
    {
        let style = CardStyle::mocha();
        self.render_with(&style)
    }
}

/// Relies on rand's `SliceRandom::choose` with the thread-local generator:
/// `None` for an empty slice, else a clone of one of its elements.
#[verifier::external_body]
fn choose_record(records: &Vec<String>) -> (r: Option<String>)
    ensures
        r is None <==> records@.len() == 0,
        r matches Some(s) ==> exists|i: int|
            0 <= i < records@.len() && (#[trigger] records@[i])@ == s@,
{
    records.choose(&mut rand::thread_rng()).cloned()
}

/// The card of the chosen record, or `NoCardsAvailable` where none was chosen.
pub fn card_from_choice(choice: Option<String>) -> (r: Result<AnkiCard, Error>)
    ensures
        choice is None ==> r == Err::<AnkiCard, Error>(Error::NoCardsAvailable),
        choice matches Some(s) ==> match r {
            Ok(c) => parsed(s@, c),
            Err(e) => malformed(s@) && (e matches Error::MalformedRecord(m) && m@ == s@),
        },
{
    match choice {
        None => Err(Error::NoCardsAvailable),
        Some(s) => parse_line(s.as_str()),
    }
}

/// The card of a record picked uniformly at random; `NoCardsAvailable` when
/// there is no record.
pub fn random_card(records: &Vec<String>) -> (r: Result<AnkiCard, Error>)
    ensures
        records@.len() == 0 <==> r == Err::<AnkiCard, Error>(Error::NoCardsAvailable),
        r matches Ok(c) ==> exists|i: int|
            0 <= i < records@.len() && parsed((#[trigger] records@[i])@, c),
        r matches Err(e) ==> records@.len() == 0 || exists|i: int|
            0 <= i < records@.len() && malformed((#[trigger] records@[i])@) && (e matches Error::MalformedRecord(m) && m@ == records@[i]@),
{
    let choice = choose_record(records);
    card_from_choice(choice)
}

} // verus!
