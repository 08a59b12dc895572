//! Character-level text primitives: splitting, trimming, tag stripping and
//! padding, each stated over `Seq<char>`.
use vstd::prelude::*;

verus! {

/// `n` space characters.
pub open spec fn spaces(n: nat) -> Seq<char> {
    Seq::new(n, |i: int| ' ')
}

/// `line` right-padded with spaces to `width` characters; a line that is
/// already as wide is kept as it is.
pub open spec fn pad_right(line: Seq<char>, width: nat) -> Seq<char> {
    if line.len() < width {
        line + spaces((width - line.len()) as nat)
    } else {
        line
    }
}

/// `pat` occurs in `s` starting at index `i`.
pub open spec fn occurs_at(s: Seq<char>, pat: Seq<char>, i: int) -> bool {
    0 <= i && i + pat.len() <= s.len() && s.subrange(i, i + pat.len()) == pat
}

/// Index of the first occurrence of `pat` in `s` at or after `i`, or -1.
pub open spec fn find_from(s: Seq<char>, pat: Seq<char>, i: int) -> int
    decreases s.len() + 1 - i,
{
    if i < 0 || i + pat.len() > s.len() {
        -1
    } else if occurs_at(s, pat, i) {
        i
    } else {
        find_from(s, pat, i + 1)
    }
}

/// The pieces of `s` from index `start` on, separated by the non-empty
/// pattern `pat`, scanning left to right.
pub open spec fn split_from(s: Seq<char>, pat: Seq<char>, start: int) -> Seq<Seq<char>>
    decreases s.len() - start,
{
    if pat.len() == 0 || start < 0 || start > s.len() {
        seq![]
    } else {
        let k = find_from(s, pat, start);
        if k < start || k + pat.len() > s.len() {
            seq![s.subrange(start, s.len() as int)]
        } else {
            seq![s.subrange(start, k)] + split_from(s, pat, k + pat.len())
        }
    }
}

/// The pieces of `s` separated by the non-empty pattern `pat`.
pub open spec fn split_seq(s: Seq<char>, pat: Seq<char>) -> Seq<Seq<char>> {
    split_from(s, pat, 0)
}

/// `p` without one carriage return at its end.
pub open spec fn strip_cr(p: Seq<char>) -> Seq<char> {
    if p.len() > 0 && p.last() == '\r' {
        p.drop_last()
    } else {
        p
    }
}

/// The lines of `s`: pieces between newlines, each without a carriage return
/// just before its newline, where a final newline does not open another line
/// and the empty text has no line.
pub open spec fn lines_of(s: Seq<char>) -> Seq<Seq<char>> {
    let p = split_seq(s, seq!['\n']);
    let ended = Seq::new((p.len() - 1) as nat, |i: int| strip_cr(p[i]));
    if s.len() == 0 {
        seq![]
    } else if s.last() == '\n' {
        ended
    } else {
        ended.push(p.last())
    }
}

/// The characters with the Unicode `White_Space` property.
pub open spec fn is_white(c: char) -> bool {
    ('\u{9}' <= c && c <= '\u{d}') || c == ' ' || c == '\u{85}' || c == '\u{a0}'
        || c == '\u{1680}' || ('\u{2000}' <= c && c <= '\u{200a}') || c == '\u{2028}'
        || c == '\u{2029}' || c == '\u{202f}' || c == '\u{205f}' || c == '\u{3000}'
}

/// `s` without leading white space.
pub open spec fn trim_start_spec(s: Seq<char>) -> Seq<char>
    decreases s.len(),
{
    if s.len() > 0 && is_white(s[0]) {
        trim_start_spec(s.drop_first())
    } else {
        s
    }
}

/// `s` without trailing white space.
pub open spec fn trim_end_spec(s: Seq<char>) -> Seq<char>
    decreases s.len(),
{
    if s.len() > 0 && is_white(s.last()) {
        trim_end_spec(s.drop_last())
    } else {
        s
    }
}

/// `s` without leading and trailing white space.
pub open spec fn trim_spec(s: Seq<char>) -> Seq<char> {
    trim_end_spec(trim_start_spec(s))
}

/// What a left-to-right scan keeps of `s` when it drops every character from a
/// `<` through the next `>`, and whether it ends inside such a tag.
pub open spec fn strip_scan(s: Seq<char>) -> (Seq<char>, bool)
    decreases s.len(),
{
    if s.len() == 0 {
        (seq![], false)
    } else {
        let (kept, in_tag) = strip_scan(s.drop_last());
        let c = s.last();
        if c == '<' {
            (kept, true)
        } else if c == '>' {
            (kept, false)
        } else if in_tag {
            (kept, in_tag)
        } else {
            (kept.push(c), in_tag)
        }
    }
}

/// `s` with its markup tags removed.
pub open spec fn strip_tags_spec(s: Seq<char>) -> Seq<char> {
    strip_scan(s).0
}

/// A search finds nothing, or an occurrence at or after where it started.
pub proof fn lemma_find_from_range(s: Seq<char>, pat: Seq<char>, i: int)
    ensures
        find_from(s, pat, i) == -1 || (i <= find_from(s, pat, i) && occurs_at(
            s,
            pat,
            find_from(s, pat, i),
        )),
    decreases s.len() + 1 - i,
{
    if !(i < 0 || i + pat.len() > s.len()) && !occurs_at(s, pat, i) {
        lemma_find_from_range(s, pat, i + 1);
    }
}

/// The views of a sequence of character vectors.
pub open spec fn views(v: Seq<Vec<char>>) -> Seq<Seq<char>> {
    v.map_values(|x: Vec<char>| x@)
}

/// Relies on std's `String::push`: appends one character.
#[verifier::external_body]
pub(crate) fn push_char(s: &mut String, c: char)
    ensures
        final(s)@ == old(s)@.push(c),
{
    s.push(c);
}

/// The characters of `s`.
pub fn chars_of(s: &str) -> (r: Vec<char>)
    ensures
        r@ == s@,
{
    let n = s.unicode_len();
    let mut r: Vec<char> = Vec::new();
    let mut i: usize = 0;
    while i < n
        invariant
            n == s@.len(),
            i <= n,
            r@ == s@.subrange(0, i as int),
        decreases n - i,
    {
        r.push(s.get_char(i));
        i += 1;
        assert(r@ =~= s@.subrange(0, i as int));
    }
    assert(r@ =~= s@);
    r
}

/// The string made of the characters of `v`.
pub fn string_of(v: &[char]) -> (r: String)
    ensures
        r@ == v@,
{
    let mut r = String::new();
    let mut i: usize = 0;
    while i < v.len()
        invariant
            i <= v.len(),
            r@ == v@.subrange(0, i as int),
        decreases v.len() - i,
    {
        push_char(&mut r, v[i]);
        i += 1;
        assert(r@ =~= v@.subrange(0, i as int));
    }
    assert(r@ =~= v@);
    r
}

/// Appends the characters of `v` to `s`.
pub fn push_chars(s: &mut String, v: &[char])
    ensures
        final(s)@ == old(s)@ + v@,
{
    let mut i: usize = 0;
    while i < v.len()
        invariant
            i <= v.len(),
            s@ == old(s)@ + v@.subrange(0, i as int),
        decreases v.len() - i,
    {
        push_char(s, v[i]);
        i += 1;
        assert(s@ =~= old(s)@ + v@.subrange(0, i as int));
    }
    assert(v@.subrange(0, v@.len() as int) =~= v@);
}

/// Appends `n` spaces to `v`.
pub fn push_spaces(v: &mut Vec<char>, n: usize)
    ensures
        final(v)@ == old(v)@ + spaces(n as nat),
{
    let mut i: usize = 0;
    while i < n
        invariant
            i <= n,
            v@ == old(v)@ + spaces(i as nat),
        decreases n - i,
    {
        v.push(' ');
        i += 1;
        assert(v@ =~= old(v)@ + spaces(i as nat));
    }
}

/// Whether `pat` occurs in `s` at index `i`.
pub fn matches_at(s: &[char], pat: &[char], i: usize) -> (r: bool)
    ensures
        r == occurs_at(s@, pat@, i as int),
{
    if i > s.len() || pat.len() > s.len() - i {
        return false;
    }
    let mut j: usize = 0;
    while j < pat.len()
        invariant
            i + pat.len() <= s.len(),
            j <= pat.len(),
            forall|k: int| 0 <= k < j ==> s@[i + k] == pat@[k],
        decreases pat.len() - j,
    {
        if s[i + j] != pat[j] {
            assert(s@.subrange(i as int, i + pat@.len())[j as int] != pat@[j as int]);
            return false;
        }
        j += 1;
    }
    assert(s@.subrange(i as int, i + pat@.len()) =~= pat@);
    true
}

/// The first occurrence of `pat` in `s` at or after `start`.
pub fn find_at_or_after(s: &[char], pat: &[char], start: usize) -> (r: Option<usize>)
    ensures
        match r {
            Some(k) => k as int == find_from(s@, pat@, start as int),
            None => find_from(s@, pat@, start as int) == -1,
        },
{
    let mut i = start;
    loop
        invariant
            start <= i,
            find_from(s@, pat@, start as int) == find_from(s@, pat@, i as int),
        decreases s.len() + 1 - i,
    {
        if i > s.len() || pat.len() > s.len() - i {
            return None;
        }
        if matches_at(s, pat, i) {
            return Some(i);
        }
        if i == s.len() {
            assert(find_from(s@, pat@, i + 1) == -1);
            return None;
        }
        i += 1;
    }
}

/// The pieces of `s` separated by the non-empty pattern `pat`.
pub fn split_chars(s: &[char], pat: &[char]) -> (r: Vec<Vec<char>>)
    requires
        pat@.len() > 0,
    ensures
        views(r@) == split_seq(s@, pat@),
{
    let mut parts: Vec<Vec<char>> = Vec::new();
    let mut start: usize = 0;
    loop
        invariant
            pat@.len() > 0,
            start <= s.len(),
            views(parts@) + split_from(s@, pat@, start as int) == split_seq(s@, pat@),
        decreases s.len() - start,
    {
        let found = find_at_or_after(s, pat, start);
        proof {
            lemma_find_from_range(s@, pat@, start as int);
        }
        match found {
            Some(k) => {
                let piece = slice_to_vec(s, start, k);
                let ghost before = views(parts@);
                parts.push(piece);
                assert(views(parts@) =~= before.push(s@.subrange(start as int, k as int)));
                assert(views(parts@) + split_from(s@, pat@, (k + pat.len()) as int)
                    =~= before + split_from(s@, pat@, start as int));
                start = k + pat.len();
            },
            None => {
                let piece = slice_to_vec(s, start, s.len());
                let ghost before = views(parts@);
                parts.push(piece);
                assert(views(parts@) =~= before + split_from(s@, pat@, start as int));
                return parts;
            },
        }
    }
}

/// The characters of `s` from `from` up to `to`.
pub fn slice_to_vec(s: &[char], from: usize, to: usize) -> (r: Vec<char>)
    requires
        from <= to <= s.len(),
    ensures
        r@ == s@.subrange(from as int, to as int),
{
    let mut r: Vec<char> = Vec::new();
    let mut i = from;
    while i < to
        invariant
            from <= i <= to <= s.len(),
            r@ == s@.subrange(from as int, i as int),
        decreases to - i,
    {
        r.push(s[i]);
        i += 1;
        assert(r@ =~= s@.subrange(from as int, i as int));
    }
    r
}

/// Whether `c` is white space.
pub fn is_white_char(c: char) -> (r: bool)
    ensures
        r == is_white(c),
{
    ('\u{9}' <= c && c <= '\u{d}') || c == ' ' || c == '\u{85}' || c == '\u{a0}'
        || c == '\u{1680}' || ('\u{2000}' <= c && c <= '\u{200a}') || c == '\u{2028}'
        || c == '\u{2029}' || c == '\u{202f}' || c == '\u{205f}' || c == '\u{3000}'
}

/// `s` without leading and trailing white space.
pub fn trim(s: &[char]) -> (r: Vec<char>)
    ensures
        r@ == trim_spec(s@),
{
    let n = s.len();
    let mut i: usize = 0;
    assert(s@.subrange(0, n as int) =~= s@);
    while i < n && is_white_char(s[i])
        invariant
            n == s@.len(),
            i <= n,
            trim_start_spec(s@.subrange(i as int, n as int)) == trim_start_spec(s@),
        decreases n - i,
    {
        assert(s@.subrange(i as int, n as int).drop_first() =~= s@.subrange(i + 1, n as int));
        i += 1;
    }
    let ghost t = s@.subrange(i as int, n as int);
    assert(trim_start_spec(t) == t);
    let mut j: usize = n;
    while j > i && is_white_char(s[j - 1])
        invariant
            n == s@.len(),
            i <= j <= n,
            t == s@.subrange(i as int, n as int),
            trim_end_spec(s@.subrange(i as int, j as int)) == trim_end_spec(t),
        decreases j,
    {
        assert(s@.subrange(i as int, j as int).drop_last() =~= s@.subrange(i as int, j - 1));
        j -= 1;
    }
    slice_to_vec(s, i, j)
}

/// `s` with every character from a `<` through the next `>` removed.
pub fn strip_tags(s: &[char]) -> (r: Vec<char>)
    ensures
        r@ == strip_tags_spec(s@),
{
    let mut r: Vec<char> = Vec::new();
    let mut in_tag = false;
    let mut i: usize = 0;
    while i < s.len()
        invariant
            i <= s.len(),
            (r@, in_tag) == strip_scan(s@.subrange(0, i as int)),
        decreases s.len() - i,
    {
        let c = s[i];
        assert(s@.subrange(0, i + 1).drop_last() =~= s@.subrange(0, i as int));
        if c == '<' {
            in_tag = true;
        } else if c == '>' {
            in_tag = false;
        } else if !in_tag {
            r.push(c);
        }
        i += 1;
    }
    assert(s@.subrange(0, s@.len() as int) =~= s@);
    r
}

/// Splitting gives at most one piece more than there are characters, none
/// longer than the text.
pub proof fn lemma_split_from_bounds(s: Seq<char>, pat: Seq<char>, start: int)
    requires
        pat.len() > 0,
        0 <= start <= s.len(),
    ensures
        split_from(s, pat, start).len() <= s.len() - start + 1,
        forall|k: int|
            0 <= k < split_from(s, pat, start).len() ==> #[trigger] split_from(
                s,
                pat,
                start,
            )[k].len() <= s.len() - start,
    decreases s.len() - start,
{
    lemma_find_from_range(s, pat, start);
    let k = find_from(s, pat, start);
    if !(k < start || k + pat.len() > s.len()) {
        lemma_split_from_bounds(s, pat, k + pat.len());
        let rest = split_from(s, pat, k + pat.len());
        let all = split_from(s, pat, start);
        assert(all == seq![s.subrange(start, k)] + rest);
        assert forall|m: int| 0 <= m < all.len() implies #[trigger] all[m].len() <= s.len()
            - start by {
            if m > 0 {
                assert(all[m] == rest[m - 1]);
            }
        }
    }
}

/// The lines of `s`.
pub fn lines(s: &[char]) -> (r: Vec<Vec<char>>)
    ensures
        views(r@) == lines_of(s@),
{
    let mut r: Vec<Vec<char>> = Vec::new();
    if s.len() == 0 {
        assert(views(r@) =~= lines_of(s@));
        return r;
    }
    let nl: Vec<char> = vec!['\n'];
    assert(nl@ =~= seq!['\n']);
    let parts = split_chars(s, nl.as_slice());
    let ghost p = views(parts@);
    assert(p.len() > 0);
    let ghost ended = Seq::new((p.len() - 1) as nat, |i: int| strip_cr(p[i]));
    let mut i: usize = 0;
    while i + 1 < parts.len()
        invariant
            p == views(parts@),
            p == split_seq(s@, seq!['\n']),
            p.len() > 0,
            ended == Seq::new((p.len() - 1) as nat, |i: int| strip_cr(p[i])),
            i < parts.len(),
            views(r@) == ended.take(i as int),
        decreases parts.len() - i,
    {
        let mut line = parts[i].clone();
        assert(line@ == p[i as int]);
        if line.len() > 0 && line[line.len() - 1] == '\r' {
            line.pop();
        }
        assert(line@ =~= strip_cr(p[i as int]));
        let ghost before = views(r@);
        r.push(line);
        assert(views(r@) =~= before.push(ended[i as int]));
        assert(ended.take(i + 1) =~= ended.take(i as int).push(ended[i as int]));
        i += 1;
    }
    assert(ended.take(i as int) =~= ended);
    if s[s.len() - 1] != '\n' {
        let last = parts[i].clone();
        assert(last@ == p.last());
        let ghost before = views(r@);
        r.push(last);
        assert(views(r@) =~= before.push(p.last()));
    }
    r
}

/// A text has at most one line more than it has characters, none longer
/// than the text.
pub proof fn lemma_lines_bounds(s: Seq<char>)
    ensures
        lines_of(s).len() <= s.len() + 1,
        forall|k: int| 0 <= k < lines_of(s).len() ==> #[trigger] lines_of(s)[k].len() <= s.len(),
{
    lemma_split_from_bounds(s, seq!['\n'], 0);
    let p = split_seq(s, seq!['\n']);
    assert forall|k: int| 0 <= k < lines_of(s).len() implies #[trigger] lines_of(s)[k].len()
        <= s.len() by {
        assert(lines_of(s)[k].len() <= p[k].len());
    }
}

} // verus!
