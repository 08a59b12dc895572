//! Rectangular text blocks and their side-by-side composition.
use vstd::prelude::*;

use crate::error::Error;
use crate::text::{
    chars_of, lemma_lines_bounds, lines, lines_of, pad_right, push_chars, push_spaces, spaces,
    views,
};

verus! {

/// A rectangle of terminal text: its content and the width and height it is
/// declared to take.
#[derive(Debug, Clone)]
pub struct Block {
    pub content: String,
    pub width: u32,
    pub height: u32,
}

/// The longest length among `ls`, or 0.
pub open spec fn max_len(ls: Seq<Seq<char>>) -> nat
    decreases ls.len(),
{
    if ls.len() == 0 {
        0
    } else {
        let m = max_len(ls.drop_last());
        if ls.last().len() > m {
            ls.last().len()
        } else {
            m
        }
    }
}

/// `rows` joined by newlines, without a final newline.
pub open spec fn join_nl(rows: Seq<Seq<char>>) -> Seq<char>
    decreases rows.len(),
{
    if rows.len() == 0 {
        seq![]
    } else if rows.len() == 1 {
        rows[0]
    } else {
        join_nl(rows.drop_last()) + seq!['\n'] + rows.last()
    }
}

/// `rows`, each followed by a newline.
pub open spec fn lines_text(rows: Seq<Seq<char>>) -> Seq<char>
    decreases rows.len(),
{
    if rows.len() == 0 {
        seq![]
    } else {
        lines_text(rows.drop_last()) + rows.last() + seq!['\n']
    }
}

impl Block {
    pub open spec fn content_view(&self) -> Seq<char> {
        self.content@
    }

    pub open spec fn width_view(&self) -> nat {
        self.width as nat
    }

    pub open spec fn height_view(&self) -> nat {
        self.height as nat
    }

    /// The lines of the content.
    pub open spec fn lines_view(&self) -> Seq<Seq<char>> {
        lines_of(self.content@)
    }

    /// The content has no more lines than the declared height.
    pub open spec fn well_sized(&self) -> bool {
        self.lines_view().len() <= self.height
    }

    /// No line of the content is wider than the declared width.
    pub open spec fn fits(&self) -> bool {
        forall|k: int| 0 <= k < self.lines_view().len() ==> #[trigger] self.lines_view()[k].len()
            <= self.width
    }

    /// The rows of the padded rendering: each line padded to the width, then
    /// blank rows up to the height.
    pub open spec fn padded_rows(&self) -> Seq<Seq<char>> {
        Seq::new(
            self.height as nat,
            |i: int|
                if i < self.lines_view().len() {
                    pad_right(self.lines_view()[i], self.width as nat)
                } else {
                    spaces(self.width as nat)
                },
        )
    }

    /// A block with the given content and declared dimensions.
    pub fn new(content: String, width: u32, height: u32) -> (r: Self)
        ensures
            r.content_view() == content@,
            r.width_view() == width,
            r.height_view() == height,
    {
        Block { content, width, height }
    }

    /// A block whose width is the length of its longest line and whose height
    /// is its number of lines.
    pub fn from_text(s: &str) -> (r: Self)
        requires
            s@.len() < u32::MAX,
        ensures
            r.content_view() == s@,
            r.height_view() == lines_of(s@).len(),
            r.width_view() == max_len(lines_of(s@)),
            r.well_sized(),
            r.fits(),
    {
        let cs = chars_of(s);
        let ls = lines(cs.as_slice());
        proof {
            lemma_lines_bounds(s@);
        }
        let ghost lv = views(ls@);
        let mut width: u32 = 0;
        let mut i: usize = 0;
        while i < ls.len()
            invariant
                lv == views(ls@),
                lv == lines_of(s@),
                lv.len() <= s@.len() + 1,
                s@.len() < u32::MAX,
                forall|k: int| 0 <= k < lv.len() ==> #[trigger] lv[k].len() <= s@.len(),
                i <= ls.len(),
                width == max_len(lv.take(i as int)),
                forall|k: int| 0 <= k < i ==> #[trigger] lv[k].len() <= width,
            decreases ls.len() - i,
        {
            assert(lv.take(i + 1).drop_last() =~= lv.take(i as int));
            assert(lv[i as int] == ls[i as int]@);
            let n = ls[i].len();
            if n as u64 > width as u64 {
                width = n as u32;
            }
            i += 1;
        }
        assert(lv.take(ls.len() as int) =~= lv);
        let height = ls.len() as u32;
        Block { content: String::from_str(s), width, height }
    }

    /// The padded rows, or `None` where the content has more lines than the
    /// declared height.
    fn rows(&self) -> (r: Option<Vec<Vec<char>>>)
        ensures
            r is None <==> !self.well_sized(),
            r matches Some(v) ==> views(v@) == self.padded_rows(),
    {
        let cs = chars_of(self.content.as_str());
        let ls = lines(cs.as_slice());
        if ls.len() > self.height as usize {
            return None;
        }
        let ghost target = self.padded_rows();
        let mut rows: Vec<Vec<char>> = Vec::new();
        let mut i: usize = 0;
        while i < self.height as usize
            invariant
                views(ls@) == self.lines_view(),
                ls.len() <= self.height,
                target == self.padded_rows(),
                i <= self.height,
                views(rows@) == target.take(i as int),
            decreases self.height - i,
        {
            let mut row: Vec<char> = Vec::new();
            if i < ls.len() {
                let line = &ls[i];
                row = line.clone();
                assert(row@ == self.lines_view()[i as int]);
                if line.len() < self.width as usize {
                    push_spaces(&mut row, self.width as usize - line.len());
                }
            } else {
                push_spaces(&mut row, self.width as usize);
                assert(row@ =~= spaces(self.width as nat));
            }
            let ghost before = views(rows@);
            rows.push(row);
            assert(views(rows@) =~= before.push(target[i as int]));
            assert(target.take(i + 1) =~= target.take(i as int).push(target[i as int]));
            i += 1;
        }
        assert(target.take(i as int) =~= target);
        Some(rows)
    }

    /// The content with each line right-padded with spaces to the width and
    /// blank rows added up to the height, rows joined by newlines.
    pub fn padded(&self) -> (r: Result<String, Error>)
        ensures
            r is Err <==> !self.well_sized(),
            r matches Err(e) ==> e == Error::InvalidBlockDimensions,
            r matches Ok(s) ==> s@ == join_nl(self.padded_rows()),
    {
        match self.rows() {
            None => Err(Error::InvalidBlockDimensions),
            Some(rows) => {
                let mut out = String::new();
                let mut i: usize = 0;
                while i < rows.len()
                    invariant
                        i <= rows.len(),
                        out@ == join_nl(views(rows@).take(i as int)),
                    decreases rows.len() - i,
                {
                    let ghost vr = views(rows@);
                    assert(vr.take(i + 1).drop_last() =~= vr.take(i as int));
                    assert(vr[i as int] == rows[i as int]@);
                    if i > 0 {
                        push_char_nl(&mut out);
                    } else {
                        assert(vr.take(0) =~= seq![]);
                    }
                    push_chars(&mut out, rows[i].as_slice());
                    i += 1;
                    if i == 1 {
                        assert(out@ =~= vr.take(1)[0]);
                    }
                }
                assert(views(rows@).take(rows.len() as int) =~= views(rows@));
                Ok(out)
            },
        }
    }
}

fn push_char_nl(s: &mut String)
    ensures
        final(s)@ == old(s)@ + seq!['\n'],
{
    crate::text::push_char(s, '\n');
    assert(s@ =~= old(s)@ + seq!['\n']);
}

/// The greatest declared height among `bs`, or 0.
pub open spec fn max_height(bs: Seq<Block>) -> nat
    decreases bs.len(),
{
    if bs.len() == 0 {
        0
    } else {
        let m = max_height(bs.drop_last());
        if bs.last().height > m {
            bs.last().height as nat
        } else {
            m
        }
    }
}

/// The sum of the declared widths of `bs`.
pub open spec fn total_width(bs: Seq<Block>) -> nat
    decreases bs.len(),
{
    if bs.len() == 0 {
        0
    } else {
        total_width(bs.drop_last()) + bs.last().width as nat
    }
}

/// What block `b` shows on row `i`: its padded row, or blank filler below it.
pub open spec fn cell(b: Block, i: int) -> Seq<char> {
    if i < b.height {
        b.padded_rows()[i]
    } else {
        spaces(b.width as nat)
    }
}

/// Row `i` of the composition: the cells of all blocks, left to right.
pub open spec fn row_of(bs: Seq<Block>, i: int) -> Seq<char>
    decreases bs.len(),
{
    if bs.len() == 0 {
        seq![]
    } else {
        row_of(bs.drop_last(), i) + cell(bs.last(), i)
    }
}

/// The rows of the composition, as many as the tallest block.
pub open spec fn composed_rows(bs: Seq<Block>) -> Seq<Seq<char>> {
    Seq::new(max_height(bs), |i: int| row_of(bs, i))
}

/// The composed text: every row followed by a newline.
pub open spec fn composed(bs: Seq<Block>) -> Seq<char> {
    lines_text(composed_rows(bs))
}

/// Joins `blocks` side by side, row by row, as many rows as the tallest block
/// has; a block shorter than that contributes blank rows of its width.
pub fn join_horizontal(blocks: &Vec<Block>) -> (r: Result<String, Error>)
    ensures
        max_height(blocks@) == 0 ==> (r matches Ok(s) && s@.len() == 0),
        r is Err <==> max_height(blocks@) > 0 && exists|k: int|
            0 <= k < blocks@.len() && !(#[trigger] blocks@[k]).well_sized(),
        r matches Err(e) ==> e == Error::InvalidBlockDimensions,
        r matches Ok(s) ==> s@ == composed(blocks@),
{
    let ghost bs = blocks@;
    let mut h: u32 = 0;
    let mut j: usize = 0;
    while j < blocks.len()
        invariant
            bs == blocks@,
            j <= blocks.len(),
            h == max_height(bs.take(j as int)),
        decreases blocks.len() - j,
    {
        assert(bs.take(j + 1).drop_last() =~= bs.take(j as int));
        if blocks[j].height > h {
            h = blocks[j].height;
        }
        j += 1;
    }
    assert(bs.take(blocks.len() as int) =~= bs);
    if h == 0 {
        let out = String::new();
        assert(composed_rows(bs) =~= seq![]);
        return Ok(out);
    }
    let mut all: Vec<Vec<Vec<char>>> = Vec::new();
    j = 0;
    while j < blocks.len()
        invariant
            bs == blocks@,
            j <= blocks.len(),
            all.len() == j,
            h == max_height(bs),
            h > 0,
            forall|k: int| 0 <= k < j ==> (#[trigger] bs[k]).well_sized(),
            forall|k: int| 0 <= k < j ==> views(#[trigger] all@[k]@) == bs[k].padded_rows(),
        decreases blocks.len() - j,
    {
        match blocks[j].rows() {
            None => {
                assert(!bs[j as int].well_sized());
                return Err(Error::InvalidBlockDimensions);
            },
            Some(rows) => {
                all.push(rows);
            },
        }
        j += 1;
    }
    let ghost target = composed_rows(bs);
    let mut out = String::new();
    let mut i: u32 = 0;
    while i < h
        invariant
            bs == blocks@,
            all.len() == bs.len(),
            forall|k: int| 0 <= k < bs.len() ==> views(#[trigger] all@[k]@) == bs[k].padded_rows(),
            h == max_height(bs),
            target == composed_rows(bs),
            i <= h,
            out@ == lines_text(target.take(i as int)),
        decreases h - i,
    {
        let ghost prefix = out@;
        let mut k: usize = 0;
        while k < blocks.len()
            invariant
                bs == blocks@,
                all.len() == bs.len(),
                forall|m: int|
                    0 <= m < bs.len() ==> views(#[trigger] all@[m]@) == bs[m].padded_rows(),
                i < h,
                k <= blocks.len(),
                out@ == prefix + row_of(bs.take(k as int), i as int),
            decreases blocks.len() - k,
        {
            assert(bs.take(k + 1).drop_last() =~= bs.take(k as int));
            let b = &blocks[k];
            if i < b.height {
                let rows = &all[k];
                assert(views(rows@)[i as int] == rows@[i as int]@);
                push_chars(&mut out, rows[i as usize].as_slice());
            } else {
                let mut blank: Vec<char> = Vec::new();
                push_spaces(&mut blank, b.width as usize);
                assert(blank@ =~= spaces(b.width as nat));
                push_chars(&mut out, blank.as_slice());
            }
            k += 1;
            assert(out@ =~= prefix + row_of(bs.take(k as int), i as int));
        }
        assert(bs.take(blocks.len() as int) =~= bs);
        push_char_nl(&mut out);
        assert(target.take(i + 1).drop_last() =~= target.take(i as int));
        i += 1;
        assert(out@ =~= lines_text(target.take(i as int)));
    }
    assert(target.take(h as int) =~= target);
    Ok(out)
}

/// A well-sized block whose lines fit its width pads to exactly `height` rows
/// of exactly `width` characters each.
pub proof fn lemma_padded_shape(b: Block)
    requires
        b.well_sized(),
        b.fits(),
    ensures
        b.padded_rows().len() == b.height,
        forall|i: int| 0 <= i < b.height ==> (#[trigger] b.padded_rows()[i]).len() == b.width,
{
    assert forall|i: int| 0 <= i < b.height implies (#[trigger] b.padded_rows()[i]).len()
        == b.width by {
        if i < b.lines_view().len() {
            assert(b.lines_view()[i].len() <= b.width);
        }
    }
}

proof fn lemma_row_len(bs: Seq<Block>, i: int)
    requires
        0 <= i,
        forall|k: int| 0 <= k < bs.len() ==> (#[trigger] bs[k]).fits(),
    ensures
        row_of(bs, i).len() == total_width(bs),
    decreases bs.len(),
{
    if bs.len() > 0 {
        let b = bs.last();
        assert(b == bs[bs.len() - 1]);
        assert forall|k: int| 0 <= k < bs.drop_last().len() implies (
        #[trigger] bs.drop_last()[k]).fits() by {
            assert(bs.drop_last()[k] == bs[k]);
        }
        lemma_row_len(bs.drop_last(), i);
        if i < b.height {
            if i < b.lines_view().len() {
                assert(b.lines_view()[i].len() <= b.width);
            }
        }
    }
}

/// Composing blocks whose lines fit their widths gives as many rows as the
/// tallest block, each as long as the sum of all widths.
pub proof fn lemma_composed_shape(bs: Seq<Block>)
    requires
        forall|k: int| 0 <= k < bs.len() ==> (#[trigger] bs[k]).fits(),
    ensures
        composed_rows(bs).len() == max_height(bs),
        forall|i: int|
            0 <= i < max_height(bs) ==> (#[trigger] composed_rows(bs)[i]).len() == total_width(
                bs,
            ),
        composed(bs) == lines_text(composed_rows(bs)),
{
    assert forall|i: int| 0 <= i < max_height(bs) implies (
    #[trigger] composed_rows(bs)[i]).len() == total_width(bs) by {
        lemma_row_len(bs, i);
    }
}

proof fn lemma_max_height_zero(bs: Seq<Block>)
    requires
        forall|k: int| 0 <= k < bs.len() ==> (#[trigger] bs[k]).height == 0,
    ensures
        max_height(bs) == 0,
    decreases bs.len(),
{
    if bs.len() > 0 {
        assert(bs.last() == bs[bs.len() - 1]);
        assert forall|k: int| 0 <= k < bs.drop_last().len() implies (
        #[trigger] bs.drop_last()[k]).height == 0 by {
            assert(bs.drop_last()[k] == bs[k]);
        }
        lemma_max_height_zero(bs.drop_last());
    }
}

/// Composing no blocks, or only blocks of height 0, gives the empty text.
pub proof fn lemma_composed_empty(bs: Seq<Block>)
    requires
        forall|k: int| 0 <= k < bs.len() ==> (#[trigger] bs[k]).height == 0,
    ensures
        composed(bs) == Seq::<char>::empty(),
{
    lemma_max_height_zero(bs);
    assert(composed_rows(bs) =~= seq![]);
}

} // verus!
