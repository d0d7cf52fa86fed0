//! The smart prompt syntax of the prompt relay nodes.
//!
//! Two syntaxes are recognised:
//! - **inline**: segments separated by `|`, each with an optional weight tag
//!   `[n]` or `[n-m]` (also `[n:m]`);
//! - **block**: segments preceded by header lines such as `Scene 1:` or
//!   `Shot 2-4:`; a tag in a segment's body overrides the header's weight.
//!
//! A segment's weight stays symbolic here ([`Weight`]): the numbers of a tag
//! are kept as written, those of a header as parsed, so that turning them
//! into floating-point weights is left to the caller.

use vstd::prelude::*;
use crate::number::{number_of, parsed_number, word_number, word_number_of};
use crate::text::{
    chars_of, class_has, run_back, run_fwd, skip_back, skip_fwd, string_of, sub_vec, trim,
    trim_end, trimmed, CharClass, is_ws, lemma_run_fwd, lemma_trim_ends,
};

verus! {

/// A header's numbers: the start, and the end of a range header.
pub type Header = (i64, Option<i64>);

/// The weight of a segment, as the prompt states it.
#[derive(Clone, Debug, PartialEq, Eq)]
pub enum Weight {
    /// No weight given: the weight is 1.
    Unit,
    /// A tag `[first]` (weight `first`) or `[first-second]` (weight
    /// `second - first`); each number as written, `0` where it does not
    /// read as a float.
    Tag { first: String, second: Option<String> },
    /// A range header `start-end`: the weight is `end - start`.
    Span { start: i64, end: i64 },
}

/// The mathematical content of a [`Weight`].
pub enum WeightView {
    Unit,
    Tag { first: Seq<char>, second: Option<Seq<char>> },
    Span { start: i64, end: i64 },
}

impl View for Weight {
    type V = WeightView;

    open spec fn view(&self) -> WeightView {
        match self {
            Weight::Unit => WeightView::Unit,
            Weight::Tag { first, second } => WeightView::Tag {
                first: first@,
                second: match second {
                    Some(s) => Some(s@),
                    None => None,
                },
            },
            Weight::Span { start, end } => WeightView::Span { start: *start, end: *end },
        }
    }
}

/// A parsed segment: its text and its weight.
#[derive(Clone, Debug)]
pub struct Segment {
    pub text: String,
    pub weight: Weight,
}

/// The mathematical content of a [`Segment`].
pub struct SegmentView {
    pub text: Seq<char>,
    pub weight: WeightView,
}

impl View for Segment {
    type V = SegmentView;

    open spec fn view(&self) -> SegmentView {
        SegmentView { text: self.text@, weight: self.weight@ }
    }
}

/// The views of a sequence of segments.
pub open spec fn views(v: Seq<Segment>) -> Seq<SegmentView> {
    v.map_values(|s: Segment| s@)
}

// ---------------------------------------------------------------- headers

/// Number of white-space separated words of `s` (`split_whitespace().count()`).
pub open spec fn word_count(s: Seq<char>) -> nat
    decreases s.len(),
{
    if s.len() == 0 {
        0
    } else {
        let i = s.len() - 1;
        word_count(s.drop_last()) + if !is_ws(s[i]) && (i == 0 || is_ws(s[i - 1])) {
            1nat
        } else {
            0nat
        }
    }
}

/// The last word of `s`, where `s` does not end in white space.
pub open spec fn last_word(s: Seq<char>) -> Seq<char> {
    s.subrange(s.len() - run_back(s, s.len() as int, CharClass::NonSpace), s.len() as int)
}

/// End of the group `\d+(\.\d+)?` that starts at `i`.
pub open spec fn decimal_group_end(s: Seq<char>, i: int) -> int {
    let j = i + run_fwd(s, i, CharClass::Decimal);
    if j < s.len() && s[j] == '.' && run_fwd(s, j + 1, CharClass::Decimal) > 0 {
        j + 1 + run_fwd(s, j + 1, CharClass::Decimal)
    } else {
        j
    }
}

/// The captures of `(\d+(?:\.\d+)?)\s*[-–]\s*(\d+(?:\.\d+)?)\s*$` when it
/// matches `s` from index `i` on.
pub open spec fn range_match_at(s: Seq<char>, i: int) -> Option<(Seq<char>, Seq<char>)> {
    if run_fwd(s, i, CharClass::Decimal) == 0 {
        None
    } else {
        let g1e = decimal_group_end(s, i);
        let k = g1e + run_fwd(s, g1e, CharClass::Space);
        if k < s.len() && (s[k] == '-' || s[k] == '\u{2013}') {
            let k2 = k + 1 + run_fwd(s, k + 1, CharClass::Space);
            if run_fwd(s, k2, CharClass::Decimal) == 0 {
                None
            } else {
                let g2e = decimal_group_end(s, k2);
                if g2e + run_fwd(s, g2e, CharClass::Space) == s.len() {
                    Some((s.subrange(i, g1e), s.subrange(k2, g2e)))
                } else {
                    None
                }
            }
        } else {
            None
        }
    }
}

/// The leftmost match of the range pattern at or after `i`: its start and
/// its two captures.
pub open spec fn first_range_match(s: Seq<char>, i: int) -> Option<(int, Seq<char>, Seq<char>)>
    decreases s.len() - i,
{
    if i < 0 || i >= s.len() {
        None
    } else {
        match range_match_at(s, i) {
            Some(g) => Some((i, g.0, g.1)),
            None => first_range_match(s, i + 1),
        }
    }
}

/// The range form of a header body `... n-m`: both numbers, where the
/// range pattern matches after a non-blank prefix and both captures read
/// as numbers.
pub open spec fn range_header(body: Seq<char>) -> Option<Header> {
    match first_range_match(body, 0) {
        Some(m) => if trim(body.subrange(0, m.0)).len() > 0 && parsed_number(m.1) is Some
            && parsed_number(m.2) is Some {
            Some((parsed_number(m.1)->0, Some(parsed_number(m.2)->0)))
        } else {
            None
        },
        None => None,
    }
}

/// The number a header's last word states: a numeral (see
/// [`parsed_number`]), else a number word (see [`word_number`]).
pub open spec fn header_number(w: Seq<char>) -> Option<i64> {
    match parsed_number(w) {
        Some(v) => Some(v),
        None => word_number(w),
    }
}

/// What `parse_header` returns for a line: a line is a header when,
/// trimmed, it ends in `:` and what precedes the colon has at least two
/// words and either ends in a range `n-m` (after a non-blank prefix) or
/// ends in a word that states a number, as a numeral or a number word.
/// (Of the trailing candidates of one to four words, joined by spaces, only
/// the last word alone can state a number.)
pub open spec fn header_of(line: Seq<char>) -> Option<Header> {
    let l = trim(line);
    if l.len() == 0 || l.last() != ':' {
        None
    } else {
        let body = trim_end(l.drop_last());
        if word_count(body) < 2 {
            None
        } else {
            match range_header(body) {
                Some(h) => Some(h),
                None => match header_number(last_word(body)) {
                    Some(v) => Some((v, None)),
                    None => None,
                },
            }
        }
    }
}

pub(crate) fn count_words(v: &Vec<char>) -> (n: usize)
    ensures
        n == word_count(v@),
        n <= v@.len(),
{
    let mut n: usize = 0;
    let mut i: usize = 0;
    assert(v@.subrange(0, 0) =~= Seq::<char>::empty());
    while i < v.len()
        invariant
            i <= v@.len(),
            n == word_count(v@.subrange(0, i as int)),
            n <= i,
        decreases v@.len() - i,
    {
        assert(v@.subrange(0, i + 1).drop_last() =~= v@.subrange(0, i as int));
        let c = v[i];
        let start = !class_has(CharClass::Space, c) && (i == 0 || class_has(
            CharClass::Space,
            v[i - 1],
        ));
        if start {
            n = n + 1;
        }
        i = i + 1;
    }
    assert(v@.subrange(0, v@.len() as int) =~= v@);
    n
}

/// End of the decimal group that starts at `i` (see [`decimal_group_end`]).
fn group_end(v: &Vec<char>, i: usize) -> (e: usize)
    requires
        i <= v@.len(),
    ensures
        e == decimal_group_end(v@, i as int),
        e <= v@.len(),
{
    let j = skip_fwd(v, i, CharClass::Decimal);
    if j < v.len() && v[j] == '.' {
        let k = skip_fwd(v, j + 1, CharClass::Decimal);
        if k > j + 1 {
            return k;
        }
    }
    j
}

fn range_at(v: &Vec<char>, i: usize) -> (r: Option<(usize, usize, usize, usize)>)
    requires
        i <= v@.len(),
    ensures
        match r {
            Some((a, b, c, d)) => a == i && a <= b <= c <= d <= v@.len() && range_match_at(
                v@,
                i as int,
            ) == Some((v@.subrange(a as int, b as int), v@.subrange(c as int, d as int))),
            None => range_match_at(v@, i as int) is None,
        },
{
    let n = v.len();
    if skip_fwd(v, i, CharClass::Decimal) == i {
        return None;
    }
    let g1e = group_end(v, i);
    let k = skip_fwd(v, g1e, CharClass::Space);
    if k < n && (v[k] == '-' || v[k] == '\u{2013}') {
        let k2 = skip_fwd(v, k + 1, CharClass::Space);
        if skip_fwd(v, k2, CharClass::Decimal) == k2 {
            return None;
        }
        let g2e = group_end(v, k2);
        if skip_fwd(v, g2e, CharClass::Space) == n {
            proof {
                lemma_run_fwd(v@, i as int, CharClass::Decimal);
            }
            return Some((i, g1e, k2, g2e));
        }
    }
    None
}

fn first_range(v: &Vec<char>) -> (r: Option<(usize, usize, usize, usize)>)
    ensures
        match r {
            Some((a, b, c, d)) => a <= b <= c <= d <= v@.len() && first_range_match(v@, 0) == Some(
                (a as int, v@.subrange(a as int, b as int), v@.subrange(c as int, d as int)),
            ),
            None => first_range_match(v@, 0) is None,
        },
{
    let mut i: usize = 0;
    while i < v.len()
        invariant
            i <= v@.len(),
            first_range_match(v@, 0) == first_range_match(v@, i as int),
        decreases v@.len() - i,
    {
        match range_at(v, i) {
            Some((a, b, c, d)) => {
                return Some((a, b, c, d));
            },
            None => {},
        }
        i = i + 1;
    }
    None
}

/// The number that a header line states, and the end of its range: see
/// [`header_of`].
pub fn parse_header(line: &str) -> (r: Option<Header>)
    ensures
        r == header_of(line@),
{
    let v = chars_of(line);
    header_of_chars(&v)
}

/// [`parse_header`] on a vector of characters.
pub fn header_of_chars(v: &Vec<char>) -> (r: Option<Header>)
    ensures
        r == header_of(v@),
{
    let l = trimmed(v);
    let n = l.len();
    if n == 0 || l[n - 1] != ':' {
        return None;
    }
    let pre = sub_vec(&l, 0, n - 1);
    assert(pre@ == l@.drop_last());
    let e = skip_back(&pre, pre.len(), CharClass::Space);
    let body = sub_vec(&pre, 0, e);
    assert(body@ == trim_end(l@.drop_last()));
    if count_words(&body) < 2 {
        return None;
    }
    match first_range(&body) {
        Some((a, b, c, d)) => {
            let prefix = sub_vec(&body, 0, a);
            let tp = trimmed(&prefix);
            if tp.len() > 0 {
                let g1 = sub_vec(&body, a, b);
                let g2 = sub_vec(&body, c, d);
                match (number_of(&g1), number_of(&g2)) {
                    (Some(s), Some(t)) => {
                        return Some((s, Some(t)));
                    },
                    _ => {},
                }
            }
        },
        None => {},
    }
    let k = skip_back(&body, body.len(), CharClass::NonSpace);
    let w = sub_vec(&body, k, body.len());
    match number_of(&w) {
        Some(x) => Some((x, None)),
        None => match word_number_of(&w) {
            Some(x) => Some((x, None)),
            None => None,
        },
    }
}

// ---------------------------------------------------------------- tags

/// A weight tag `\[([\d\.]+)(?:[:\-]([\d\.]+))?\]` that starts at index
/// `i`: the index just past it, and its captures.
pub open spec fn tag_at(s: Seq<char>, i: int) -> Option<(int, Seq<char>, Option<Seq<char>>)> {
    if !(0 <= i < s.len() && s[i] == '[') {
        None
    } else {
        let r1 = i + 1 + run_fwd(s, i + 1, CharClass::DecimalOrDot);
        if r1 == i + 1 {
            None
        } else if r1 < s.len() && s[r1] == ']' {
            Some((r1 + 1, s.subrange(i + 1, r1), None))
        } else if r1 < s.len() && (s[r1] == ':' || s[r1] == '-') {
            let r2 = r1 + 1 + run_fwd(s, r1 + 1, CharClass::DecimalOrDot);
            if r2 > r1 + 1 && r2 < s.len() && s[r2] == ']' {
                Some((r2 + 1, s.subrange(i + 1, r1), Some(s.subrange(r1 + 1, r2))))
            } else {
                None
            }
        } else {
            None
        }
    }
}

/// The leftmost tag at or after `i`: its captures.
pub open spec fn first_tag(s: Seq<char>, i: int) -> Option<(Seq<char>, Option<Seq<char>>)>
    decreases s.len() - i,
{
    if i < 0 || i >= s.len() {
        None
    } else {
        match tag_at(s, i) {
            Some(t) => Some((t.1, t.2)),
            None => first_tag(s, i + 1),
        }
    }
}

/// `s[i..]` with every tag removed (`replace_all(.., "")`).
pub open spec fn strip_tags(s: Seq<char>, i: int) -> Seq<char>
    decreases s.len() - i,
{
    if i < 0 || i >= s.len() {
        Seq::empty()
    } else {
        match tag_at(s, i) {
            Some(t) => if t.0 > i {
                strip_tags(s, t.0)
            } else {
                Seq::empty()
            },
            None => seq![s[i]] + strip_tags(s, i + 1),
        }
    }
}

/// What `extract_inline_tag` returns: the text trimmed, and with every tag
/// removed where it has one; the weight that its first tag states.
pub open spec fn inline_tag(text: Seq<char>) -> (Seq<char>, Option<WeightView>) {
    match first_tag(text, 0) {
        Some(t) => (trim(strip_tags(text, 0)), Some(WeightView::Tag { first: t.0, second: t.1 })),
        None => (trim(text), None),
    }
}

fn tag_at_exec(v: &Vec<char>, i: usize) -> (r: Option<(usize, usize, Option<(usize, usize)>)>)
    requires
        i <= v@.len(),
    ensures
        match r {
            Some((e, g1e, g2)) => {
                &&& i < e <= v@.len()
                &&& i + 1 <= g1e <= v@.len()
                &&& tag_at(v@, i as int) == Some(
                    (
                        e as int,
                        v@.subrange(i + 1, g1e as int),
                        match g2 {
                            Some((a, b)) => Some(v@.subrange(a as int, b as int)),
                            None => None,
                        },
                    ),
                )
                &&& match g2 {
                    Some((a, b)) => a <= b <= v@.len(),
                    None => true,
                }
            },
            None => tag_at(v@, i as int) is None,
        },
{
    let n = v.len();
    if !(i < n && v[i] == '[') {
        return None;
    }
    let r1 = skip_fwd(v, i + 1, CharClass::DecimalOrDot);
    if r1 == i + 1 {
        return None;
    }
    if r1 < n && v[r1] == ']' {
        return Some((r1 + 1, r1, None));
    }
    if r1 < n && (v[r1] == ':' || v[r1] == '-') {
        let r2 = skip_fwd(v, r1 + 1, CharClass::DecimalOrDot);
        if r2 > r1 + 1 && r2 < n && v[r2] == ']' {
            return Some((r2 + 1, r1, Some((r1 + 1, r2))));
        }
    }
    None
}

fn find_first_tag(text: &Vec<char>) -> (r: Option<(usize, usize, Option<(usize, usize)>)>)
    ensures
        match r {
            Some((start, g1e, g2)) => {
                &&& start + 1 <= g1e <= text@.len()
                &&& match g2 {
                    Some((a, b)) => a <= b <= text@.len(),
                    None => true,
                }
                &&& first_tag(text@, 0) == Some(
                    (
                        text@.subrange(start + 1, g1e as int),
                        match g2 {
                            Some((a, b)) => Some(text@.subrange(a as int, b as int)),
                            None => None,
                        },
                    ),
                )
            },
            None => first_tag(text@, 0) is None,
        },
{
    let n = text.len();
    let mut i: usize = 0;
    while i < n
        invariant
            i <= n == text@.len(),
            first_tag(text@, 0) == first_tag(text@, i as int),
        decreases n - i,
    {
        match tag_at_exec(text, i) {
            Some((_e, g1e, g2)) => {
                return Some((i, g1e, g2));
            },
            None => {},
        }
        i = i + 1;
    }
    None
}

/// The text of a segment without its tags, and the weight of its first tag
/// (`extract_inline_tag`): see [`inline_tag`].
pub fn extract_inline_tag(text: &Vec<char>) -> (r: (Vec<char>, Option<Weight>))
    ensures
        (r.0@, match r.1 {
            Some(w) => Some(w@),
            None => None,
        }) == inline_tag(text@),
{
    let n = text.len();
    let found = find_first_tag(text);
    match found {
        None => {
            let t = trimmed(text);
            (t, None)
        },
        Some((start, g1e, g2)) => {
            let first = string_of(&sub_vec(text, start + 1, g1e));
            let second = match g2 {
                Some((a, b)) => Some(string_of(&sub_vec(text, a, b))),
                None => None,
            };
            // remove every tag
            let mut out: Vec<char> = Vec::new();
            let mut j: usize = 0;
            while j < n
                invariant
                    j <= n == text@.len(),
                    out@ + strip_tags(text@, j as int) == strip_tags(text@, 0),
                decreases n - j,
            {
                match tag_at_exec(text, j) {
                    Some((e, _, _)) => {
                        j = e;
                    },
                    None => {
                        let ghost prev = out@;
                        out.push(text[j]);
                        assert(out@ + strip_tags(text@, j + 1) =~= prev + strip_tags(
                            text@,
                            j as int,
                        ));
                        j = j + 1;
                    },
                }
            }
            assert(out@ =~= strip_tags(text@, 0));
            let clean = trimmed(&out);
            (clean, Some(Weight::Tag { first, second }))
        },
    }
}

// ---------------------------------------------------------------- segments

/// Index of the first `c` in `s` at or after `i`, or the length of `s`.
pub open spec fn find_char(s: Seq<char>, i: int, c: char) -> int
    decreases s.len() - i,
{
    if i < 0 || i >= s.len() {
        s.len() as int
    } else if s[i] == c {
        i
    } else {
        find_char(s, i + 1, c)
    }
}

/// The list holding `o`'s value, or the empty list.
pub open spec fn opt_seq<A>(o: Option<A>) -> Seq<A> {
    match o {
        Some(x) => seq![x],
        None => Seq::empty(),
    }
}

/// The segment that one `|`-separated part gives, if its text is not empty
/// once its tags are removed; its weight is its first tag's, else 1.
pub open spec fn segment_of_part(part: Seq<char>) -> Option<SegmentView> {
    let t = inline_tag(part);
    if t.0.len() == 0 {
        None
    } else {
        Some(
            SegmentView {
                text: t.0,
                weight: match t.1 {
                    Some(w) => w,
                    None => WeightView::Unit,
                },
            },
        )
    }
}

/// The inline syntax: the segments of the parts `s[i..]` splits into at `|`.
pub open spec fn inline_from(s: Seq<char>, i: int) -> Seq<SegmentView>
    decreases s.len() - i,
{
    if i < 0 || i > s.len() {
        Seq::empty()
    } else {
        let j = find_char(s, i, '|');
        let here = opt_seq(segment_of_part(s.subrange(i, j)));
        if i <= j < s.len() {
            here + inline_from(s, j + 1)
        } else {
            here
        }
    }
}

/// The segment of a block: its body without tags and trimmed, if not empty;
/// weighted by the body's first tag, else by a range header, else 1.
pub open spec fn block_segment(header: Option<Header>, body: Seq<char>) -> Option<SegmentView> {
    let t = inline_tag(body);
    if t.0.len() == 0 {
        None
    } else {
        Some(
            SegmentView {
                text: t.0,
                weight: match t.1 {
                    Some(w) => w,
                    None => match header {
                        Some(h) => match h.1 {
                            Some(e) => WeightView::Span { start: h.0, end: e },
                            None => WeightView::Unit,
                        },
                        None => WeightView::Unit,
                    },
                },
            },
        )
    }
}

/// Law: in the block syntax, a body that holds a weight tag is weighted by
/// its first tag whatever its header says, just as the same text is as a
/// part of the inline syntax; only a body without a tag takes the weight
/// of a range header (`end - start`), and 1 under any other header.
pub proof fn lemma_block_tag_overrides_header(header: Option<Header>, body: Seq<char>)
    ensures
        first_tag(body, 0) is Some ==> block_segment(header, body) == segment_of_part(body),
        first_tag(body, 0) matches Some(t) ==> (block_segment(header, body) matches Some(seg) ==> seg.weight
            == WeightView::Tag { first: t.0, second: t.1 }),
        first_tag(body, 0) is None && trim(body).len() > 0 ==> block_segment(header, body) == Some(
            SegmentView {
                text: trim(body),
                weight: match header {
                    Some((start, Some(end))) => WeightView::Span { start, end },
                    _ => WeightView::Unit,
                },
            },
        ),
{
}

/// The segment that a block under construction gives when it is closed: a
/// block is kept when it has a header or a non-empty body.
pub open spec fn close_block(header: Option<Header>, body: Seq<char>) -> Seq<SegmentView> {
    if body.len() > 0 || header is Some {
        opt_seq(block_segment(header, body))
    } else {
        Seq::empty()
    }
}

/// The block syntax on the lines of `s[i..]` (split at `\n`), with the
/// block under construction so far: a header line closes it and opens a
/// new one; any other line, with a `\n`, is added to its body.
pub open spec fn block_from(s: Seq<char>, i: int, header: Option<Header>, body: Seq<char>) -> Seq<
    SegmentView,
>
    decreases s.len() - i,
{
    if i < 0 || i > s.len() {
        Seq::empty()
    } else {
        let j = find_char(s, i, '\n');
        let line = s.subrange(i, j);
        match header_of(line) {
            Some(h) => if i <= j < s.len() {
                close_block(header, body) + block_from(s, j + 1, Some(h), Seq::empty())
            } else {
                close_block(header, body) + close_block(Some(h), Seq::empty())
            },
            None => {
                let b2 = body + line + seq!['\n'];
                if i <= j < s.len() {
                    block_from(s, j + 1, header, b2)
                } else {
                    close_block(header, b2)
                }
            },
        }
    }
}

/// Some line of `s[i..]` (split at `\n`) is a header.
pub open spec fn has_header_line(s: Seq<char>, i: int) -> bool
    decreases s.len() - i,
{
    if i < 0 || i > s.len() {
        false
    } else {
        let j = find_char(s, i, '\n');
        header_of(s.subrange(i, j)) is Some || (i <= j < s.len() && has_header_line(s, j + 1))
    }
}

/// What `parse_smart_prompt` returns: the block syntax where some line is
/// a header, the inline syntax otherwise. (`str::lines` and a split at
/// `\n` differ only by a trailing `\r` and a last empty line, which do not
/// change whether a line is a header.)
pub open spec fn smart_segments(s: Seq<char>) -> Seq<SegmentView> {
    if has_header_line(s, 0) {
        block_from(s, 0, None, Seq::empty())
    } else {
        inline_from(s, 0)
    }
}

/// [`find_char`] finds the first `c` at or after `i`, or none.
pub proof fn lemma_find_char(s: Seq<char>, i: int, c: char)
    requires
        0 <= i <= s.len(),
    ensures
        i <= find_char(s, i, c) <= s.len(),
        forall|k: int| i <= k < find_char(s, i, c) ==> s[k] != c,
        find_char(s, i, c) < s.len() ==> s[find_char(s, i, c)] == c,
    decreases s.len() - i,
{
    if i < s.len() && s[i] != c {
        lemma_find_char(s, i + 1, c);
    }
}

pub(crate) fn find_char_exec(v: &Vec<char>, i: usize, c: char) -> (j: usize)
    requires
        i <= v@.len(),
    ensures
        j == find_char(v@, i as int, c),
        i <= j <= v@.len(),
{
    proof {
        lemma_find_char(v@, i as int, c);
    }
    let mut j = i;
    while j < v.len() && v[j] != c
        invariant
            i <= j <= v@.len(),
            find_char(v@, i as int, c) == find_char(v@, j as int, c),
        decreases v@.len() - j,
    {
        j = j + 1;
    }
    j
}

fn push_segment(out: &mut Vec<Segment>, seg: Option<Segment>)
    ensures
        views(final(out)@) == views(old(out)@) + opt_seq(
            match seg {
                Some(s) => Some(s@),
                None => None,
            },
        ),
{
    match seg {
        Some(s) => {
            let ghost before = out@;
            out.push(s);
            assert(views(out@) =~= views(before) + seq![s@]);
        },
        None => {
            assert(views(out@) =~= views(old(out)@) + Seq::<SegmentView>::empty());
        },
    }
}

fn part_segment(part: &Vec<char>) -> (r: Option<Segment>)
    ensures
        match r {
            Some(s) => Some(s@),
            None => None,
        } == segment_of_part(part@),
{
    let (clean, w) = extract_inline_tag(part);
    if clean.len() == 0 {
        None
    } else {
        let weight = match w {
            Some(w) => w,
            None => Weight::Unit,
        };
        Some(Segment { text: string_of(&clean), weight })
    }
}

fn closed_block(header: Option<Header>, body: &Vec<char>, out: &mut Vec<Segment>)
    ensures
        views(final(out)@) == views(old(out)@) + close_block(header, body@),
{
    if body.len() > 0 || header.is_some() {
        let (clean, w) = extract_inline_tag(body);
        let seg = if clean.len() == 0 {
            None
        } else {
            let weight = match w {
                Some(w) => w,
                None => match header {
                    Some((s, Some(e))) => Weight::Span { start: s, end: e },
                    _ => Weight::Unit,
                },
            };
            Some(Segment { text: string_of(&clean), weight })
        };
        push_segment(out, seg);
    } else {
        assert(views(out@) =~= views(old(out)@) + Seq::<SegmentView>::empty());
    }
}

/// The inline syntax: see [`inline_from`].
pub fn parse_inline_syntax(v: &Vec<char>) -> (r: Vec<Segment>)
    ensures
        views(r@) == inline_from(v@, 0),
{
    let n = v.len();
    let mut out: Vec<Segment> = Vec::new();
    let mut i: usize = 0;
    assert(views(out@) =~= Seq::<SegmentView>::empty());
    loop
        invariant_except_break
            i <= n == v@.len(),
            views(out@) + inline_from(v@, i as int) == inline_from(v@, 0),
        ensures
            views(out@) == inline_from(v@, 0),
        decreases n - i,
    {
        let j = find_char_exec(v, i, '|');
        let part = sub_vec(v, i, j);
        let ghost prev = views(out@);
        push_segment(&mut out, part_segment(&part));
        if j >= n {
            assert(views(out@) =~= prev + inline_from(v@, i as int));
            break;
        }
        assert(prev + inline_from(v@, i as int) =~= views(out@) + inline_from(v@, j + 1));
        i = j + 1;
    }
    out
}

/// The block syntax: see [`block_from`].
pub fn parse_block_syntax(v: &Vec<char>) -> (r: Vec<Segment>)
    ensures
        views(r@) == block_from(v@, 0, None, Seq::empty()),
{
    let n = v.len();
    let mut out: Vec<Segment> = Vec::new();
    let mut i: usize = 0;
    let mut header: Option<Header> = None;
    let mut body: Vec<char> = Vec::new();
    assert(views(out@) =~= Seq::<SegmentView>::empty());
    loop
        invariant_except_break
            i <= n == v@.len(),
            views(out@) + block_from(v@, i as int, header, body@) == block_from(
                v@,
                0,
                None,
                Seq::empty(),
            ),
        ensures
            views(out@) == block_from(v@, 0, None, Seq::empty()),
        decreases n - i,
    {
        let j = find_char_exec(v, i, '\n');
        let line = sub_vec(v, i, j);
        let ghost prev = views(out@);
        let ghost old_header = header;
        let ghost old_body = body@;
        match header_of_chars(&line) {
            Some(h) => {
                closed_block(header, &body, &mut out);
                header = Some(h);
                body = Vec::new();
                if j >= n {
                    closed_block(header, &body, &mut out);
                    assert(views(out@) =~= prev + block_from(v@, i as int, old_header, old_body));
                    break;
                }
                assert(prev + block_from(v@, i as int, old_header, old_body) =~= views(out@)
                    + block_from(v@, j + 1, header, body@));
            },
            None => {
                let mut k: usize = 0;
                while k < line.len()
                    invariant
                        k <= line@.len(),
                        body@ == old_body + line@.subrange(0, k as int),
                    decreases line@.len() - k,
                {
                    body.push(line[k]);
                    k = k + 1;
                    assert(body@ =~= old_body + line@.subrange(0, k as int));
                }
                body.push('\n');
                assert(body@ =~= old_body + line@ + seq!['\n']);
                if j >= n {
                    closed_block(header, &body, &mut out);
                    break;
                }
            },
        }
        i = j + 1;
    }
    out
}

fn has_header_lines(v: &Vec<char>) -> (r: bool)
    ensures
        r == has_header_line(v@, 0),
{
    let n = v.len();
    let mut i: usize = 0;
    while i <= n
        invariant
            i <= n,
            n == v@.len(),
            has_header_line(v@, 0) == has_header_line(v@, i as int),
        decreases n + 1 - i,
    {
        let j = find_char_exec(v, i, '\n');
        let line = sub_vec(v, i, j);
        if header_of_chars(&line).is_some() {
            return true;
        }
        if j >= n {
            return false;
        }
        i = j + 1;
    }
    false
}

/// Splits a smart prompt into weighted segments: the block syntax where a
/// line is a header (`Scene 1:`, `Shot 2-4:`), the inline syntax
/// (`a | b [0-50] | c`) otherwise. See [`smart_segments`].
pub fn parse_smart_prompt(text: &str) -> (r: Vec<Segment>)
    ensures
        views(r@) == smart_segments(text@),
{
    let v = chars_of(text);
    if has_header_lines(&v) {
        parse_block_syntax(&v)
    } else {
        parse_inline_syntax(&v)
    }
}


// ---------------------------------------------------------------- laws

/// A segment text as the parser makes it: not empty, and neither beginning
/// nor ending with white space.
pub open spec fn well_trimmed(t: Seq<char>) -> bool {
    t.len() > 0 && !is_ws(t[0]) && !is_ws(t.last())
}

/// Every segment's text is [`well_trimmed`].
pub open spec fn all_trimmed(segs: Seq<SegmentView>) -> bool {
    forall|k: int| 0 <= k < segs.len() ==> well_trimmed(#[trigger] segs[k].text)
}

proof fn lemma_inline_tag_trimmed(text: Seq<char>)
    ensures
        inline_tag(text).0.len() > 0 ==> well_trimmed(inline_tag(text).0),
{
    match first_tag(text, 0) {
        Some(t) => lemma_trim_ends(strip_tags(text, 0)),
        None => lemma_trim_ends(text),
    }
}

proof fn lemma_all_trimmed_concat(a: Seq<SegmentView>, b: Seq<SegmentView>)
    requires
        all_trimmed(a),
        all_trimmed(b),
    ensures
        all_trimmed(a + b),
{
    assert forall|k: int| 0 <= k < (a + b).len() implies well_trimmed(#[trigger] (a + b)[k].text) by {
        if k < a.len() {
            assert((a + b)[k] == a[k]);
        } else {
            assert((a + b)[k] == b[k - a.len()]);
        }
    }
}

proof fn lemma_close_block_trimmed(header: Option<Header>, body: Seq<char>)
    ensures
        all_trimmed(close_block(header, body)),
{
    lemma_inline_tag_trimmed(body);
}

proof fn lemma_inline_trimmed(s: Seq<char>, i: int)
    ensures
        all_trimmed(inline_from(s, i)),
    decreases s.len() - i,
{
    if 0 <= i <= s.len() {
        let j = find_char(s, i, '|');
        lemma_inline_tag_trimmed(s.subrange(i, j));
        let here = opt_seq(segment_of_part(s.subrange(i, j)));
        assert(all_trimmed(here));
        if i <= j < s.len() {
            lemma_inline_trimmed(s, j + 1);
            lemma_all_trimmed_concat(here, inline_from(s, j + 1));
        }
    }
}

proof fn lemma_block_trimmed(s: Seq<char>, i: int, header: Option<Header>, body: Seq<char>)
    ensures
        all_trimmed(block_from(s, i, header, body)),
    decreases s.len() - i,
{
    if 0 <= i <= s.len() {
        let j = find_char(s, i, '\n');
        let line = s.subrange(i, j);
        lemma_close_block_trimmed(header, body);
        match header_of(line) {
            Some(h) => {
                if i <= j < s.len() {
                    lemma_block_trimmed(s, j + 1, Some(h), Seq::empty());
                    lemma_all_trimmed_concat(close_block(header, body), block_from(s, j + 1, Some(h), Seq::empty()));
                } else {
                    lemma_close_block_trimmed(Some(h), Seq::empty());
                    lemma_all_trimmed_concat(close_block(header, body), close_block(Some(h), Seq::empty()));
                }
            },
            None => {
                let b2 = body + line + seq!['\n'];
                if i <= j < s.len() {
                    lemma_block_trimmed(s, j + 1, header, b2);
                } else {
                    lemma_close_block_trimmed(header, b2);
                }
            },
        }
    }
}

/// Law: every segment a smart prompt is split into has a text that is not
/// empty and has no white space at either end.
pub proof fn lemma_segments_are_trimmed(s: Seq<char>)
    ensures
        all_trimmed(smart_segments(s)),
{
    lemma_inline_trimmed(s, 0);
    lemma_block_trimmed(s, 0, None, Seq::empty());
}

} // verus!
