//! Characters and strings: the character classes that the prompt grammar
//! uses, runs of such characters, trimming, and conversions between `&str`,
//! `String` and vectors of characters.

use vstd::prelude::*;

verus! {

/// The Unicode `White_Space` property: what `char::is_whitespace` and the
/// regex class `\s` accept.
pub open spec fn is_ws(c: char) -> bool {
    let u = c as u32;
    ||| (0x09 <= u && u <= 0x0d)
    ||| u == 0x20
    ||| u == 0x85
    ||| u == 0xa0
    ||| u == 0x1680
    ||| (0x2000 <= u && u <= 0x200a)
    ||| u == 0x2028
    ||| u == 0x2029
    ||| u == 0x202f
    ||| u == 0x205f
    ||| u == 0x3000
}

/// ASCII digits `0`..`9`: the digits of a numeral that `f64`'s parser reads.
pub open spec fn is_ascii_digit(c: char) -> bool {
    '0' <= c && c <= '9'
}

/// The Unicode general category `Nd` (decimal number), Unicode 16.0:
/// what the regex class `\d` accepts.
pub open spec fn is_decimal(c: char) -> bool {
    let u = c as u32;
    ||| (48 <= u && u <= 57)
    ||| (1632 <= u && u <= 1641)
    ||| (1776 <= u && u <= 1785)
    ||| (1984 <= u && u <= 1993)
    ||| (2406 <= u && u <= 2415)
    ||| (2534 <= u && u <= 2543)
    ||| (2662 <= u && u <= 2671)
    ||| (2790 <= u && u <= 2799)
    ||| (2918 <= u && u <= 2927)
    ||| (3046 <= u && u <= 3055)
    ||| (3174 <= u && u <= 3183)
    ||| (3302 <= u && u <= 3311)
    ||| (3430 <= u && u <= 3439)
    ||| (3558 <= u && u <= 3567)
    ||| (3664 <= u && u <= 3673)
    ||| (3792 <= u && u <= 3801)
    ||| (3872 <= u && u <= 3881)
    ||| (4160 <= u && u <= 4169)
    ||| (4240 <= u && u <= 4249)
    ||| (6112 <= u && u <= 6121)
    ||| (6160 <= u && u <= 6169)
    ||| (6470 <= u && u <= 6479)
    ||| (6608 <= u && u <= 6617)
    ||| (6784 <= u && u <= 6793)
    ||| (6800 <= u && u <= 6809)
    ||| (6992 <= u && u <= 7001)
    ||| (7088 <= u && u <= 7097)
    ||| (7232 <= u && u <= 7241)
    ||| (7248 <= u && u <= 7257)
    ||| (42528 <= u && u <= 42537)
    ||| (43216 <= u && u <= 43225)
    ||| (43264 <= u && u <= 43273)
    ||| (43472 <= u && u <= 43481)
    ||| (43504 <= u && u <= 43513)
    ||| (43600 <= u && u <= 43609)
    ||| (44016 <= u && u <= 44025)
    ||| (65296 <= u && u <= 65305)
    ||| (66720 <= u && u <= 66729)
    ||| (68912 <= u && u <= 68921)
    ||| (68928 <= u && u <= 68937)
    ||| (69734 <= u && u <= 69743)
    ||| (69872 <= u && u <= 69881)
    ||| (69942 <= u && u <= 69951)
    ||| (70096 <= u && u <= 70105)
    ||| (70384 <= u && u <= 70393)
    ||| (70736 <= u && u <= 70745)
    ||| (70864 <= u && u <= 70873)
    ||| (71248 <= u && u <= 71257)
    ||| (71360 <= u && u <= 71369)
    ||| (71376 <= u && u <= 71395)
    ||| (71472 <= u && u <= 71481)
    ||| (71904 <= u && u <= 71913)
    ||| (72016 <= u && u <= 72025)
    ||| (72688 <= u && u <= 72697)
    ||| (72784 <= u && u <= 72793)
    ||| (73040 <= u && u <= 73049)
    ||| (73120 <= u && u <= 73129)
    ||| (73552 <= u && u <= 73561)
    ||| (90416 <= u && u <= 90425)
    ||| (92768 <= u && u <= 92777)
    ||| (92864 <= u && u <= 92873)
    ||| (93008 <= u && u <= 93017)
    ||| (93552 <= u && u <= 93561)
    ||| (118000 <= u && u <= 118009)
    ||| (120782 <= u && u <= 120831)
    ||| (123200 <= u && u <= 123209)
    ||| (123632 <= u && u <= 123641)
    ||| (124144 <= u && u <= 124153)
    ||| (124401 <= u && u <= 124410)
    ||| (125264 <= u && u <= 125273)
    ||| (130032 <= u && u <= 130041)
}

/// The classes of characters that the grammars of this crate scan runs of.
#[derive(Clone, Copy, PartialEq, Eq, Debug)]
pub enum CharClass {
    /// Unicode white space.
    Space,
    /// Anything that is not white space.
    NonSpace,
    /// `0`..`9`.
    AsciiDigit,
    /// A Unicode decimal digit (`\d`).
    Decimal,
    /// A Unicode decimal digit or `.` (`[\d\.]`).
    DecimalOrDot,
}

/// Membership of a character in a class.
pub open spec fn in_class(k: CharClass, c: char) -> bool {
    match k {
        CharClass::Space => is_ws(c),
        CharClass::NonSpace => !is_ws(c),
        CharClass::AsciiDigit => is_ascii_digit(c),
        CharClass::Decimal => is_decimal(c),
        CharClass::DecimalOrDot => is_decimal(c) || c == '.',
    }
}

fn char_is_ws(c: char) -> (r: bool)
    ensures
        r == is_ws(c),
{
    let u = c as u32;
    (0x09 <= u && u <= 0x0d) || u == 0x20 || u == 0x85 || u == 0xa0 || u == 0x1680 || (0x2000
        <= u && u <= 0x200a) || u == 0x2028 || u == 0x2029 || u == 0x202f || u == 0x205f || u
        == 0x3000
}

fn char_is_decimal(c: char) -> (r: bool)
    ensures
        r == is_decimal(c),
{
    let u = c as u32;
    if u < 128 {
        return 48 <= u && u <= 57;
    }
    let ranges: [(u32, u32); 70] = [
        (1632, 1641), (1776, 1785), (1984, 1993), (2406, 2415), (2534, 2543), (2662, 2671),
        (2790, 2799), (2918, 2927), (3046, 3055), (3174, 3183), (3302, 3311), (3430, 3439),
        (3558, 3567), (3664, 3673), (3792, 3801), (3872, 3881), (4160, 4169), (4240, 4249),
        (6112, 6121), (6160, 6169), (6470, 6479), (6608, 6617), (6784, 6793), (6800, 6809),
        (6992, 7001), (7088, 7097), (7232, 7241), (7248, 7257), (42528, 42537), (43216, 43225),
        (43264, 43273), (43472, 43481), (43504, 43513), (43600, 43609), (44016, 44025),
        (65296, 65305), (66720, 66729), (68912, 68921), (68928, 68937), (69734, 69743),
        (69872, 69881), (69942, 69951), (70096, 70105), (70384, 70393), (70736, 70745),
        (70864, 70873), (71248, 71257), (71360, 71369), (71376, 71395), (71472, 71481),
        (71904, 71913), (72016, 72025), (72688, 72697), (72784, 72793), (73040, 73049),
        (73120, 73129), (73552, 73561), (90416, 90425), (92768, 92777), (92864, 92873),
        (93008, 93017), (93552, 93561), (118000, 118009), (120782, 120831), (123200, 123209),
        (123632, 123641), (124144, 124153), (124401, 124410), (125264, 125273),
        (130032, 130041),
    ];
    let mut i: usize = 0;
    while i < 70
        invariant
            0 <= i <= 70,
            128 <= u,
            u == c as u32,
            ranges@ == seq![
                (1632u32, 1641u32), (1776, 1785), (1984, 1993), (2406, 2415), (2534, 2543),
                (2662, 2671), (2790, 2799), (2918, 2927), (3046, 3055), (3174, 3183),
                (3302, 3311), (3430, 3439), (3558, 3567), (3664, 3673), (3792, 3801),
                (3872, 3881), (4160, 4169), (4240, 4249), (6112, 6121), (6160, 6169),
                (6470, 6479), (6608, 6617), (6784, 6793), (6800, 6809), (6992, 7001),
                (7088, 7097), (7232, 7241), (7248, 7257), (42528, 42537), (43216, 43225),
                (43264, 43273), (43472, 43481), (43504, 43513), (43600, 43609), (44016, 44025),
                (65296, 65305), (66720, 66729), (68912, 68921), (68928, 68937), (69734, 69743),
                (69872, 69881), (69942, 69951), (70096, 70105), (70384, 70393), (70736, 70745),
                (70864, 70873), (71248, 71257), (71360, 71369), (71376, 71395), (71472, 71481),
                (71904, 71913), (72016, 72025), (72688, 72697), (72784, 72793), (73040, 73049),
                (73120, 73129), (73552, 73561), (90416, 90425), (92768, 92777), (92864, 92873),
                (93008, 93017), (93552, 93561), (118000, 118009), (120782, 120831),
                (123200, 123209), (123632, 123641), (124144, 124153), (124401, 124410),
                (125264, 125273), (130032, 130041)
            ],
            forall|j: int| 0 <= j < i ==> !(ranges@[j].0 <= u && u <= ranges@[j].1),
        decreases 70 - i,
    {
        let (a, b) = ranges[i];
        if a <= u && u <= b {
            return true;
        }
        i = i + 1;
    }
    false
}

/// Executable membership test for [`in_class`].
pub fn class_has(k: CharClass, c: char) -> (r: bool)
    ensures
        r == in_class(k, c),
{
    match k {
        CharClass::Space => char_is_ws(c),
        CharClass::NonSpace => !char_is_ws(c),
        CharClass::AsciiDigit => '0' <= c && c <= '9',
        CharClass::Decimal => char_is_decimal(c),
        CharClass::DecimalOrDot => c == '.' || char_is_decimal(c),
    }
}

/// Length of the run of characters of class `k` in `s` that starts at `i`.
pub open spec fn run_fwd(s: Seq<char>, i: int, k: CharClass) -> nat
    decreases s.len() - i,
{
    if 0 <= i < s.len() && in_class(k, s[i]) {
        1 + run_fwd(s, i + 1, k)
    } else {
        0
    }
}

/// Length of the run of characters of class `k` in `s` that ends just before `j`.
pub open spec fn run_back(s: Seq<char>, j: int, k: CharClass) -> nat
    decreases j,
{
    if 0 < j <= s.len() && in_class(k, s[j - 1]) {
        1 + run_back(s, j - 1, k)
    } else {
        0
    }
}

/// `str::trim_start`.
pub open spec fn trim_start(s: Seq<char>) -> Seq<char> {
    s.subrange(run_fwd(s, 0, CharClass::Space) as int, s.len() as int)
}

/// `str::trim_end`.
pub open spec fn trim_end(s: Seq<char>) -> Seq<char> {
    s.subrange(0, s.len() - run_back(s, s.len() as int, CharClass::Space))
}

/// `str::trim`: white space removed from both ends.
pub open spec fn trim(s: Seq<char>) -> Seq<char> {
    trim_end(trim_start(s))
}

/// Every character of `s[i..i + run_fwd(s, i, k)]` is of class `k`.
pub proof fn lemma_run_fwd(s: Seq<char>, i: int, k: CharClass)
    requires
        0 <= i <= s.len(),
    ensures
        i + run_fwd(s, i, k) <= s.len(),
        forall|j: int| i <= j < i + run_fwd(s, i, k) ==> in_class(k, #[trigger] s[j]),
        i + run_fwd(s, i, k) < s.len() ==> !in_class(k, s[i + run_fwd(s, i, k)]),
    decreases s.len() - i,
{
    if i < s.len() && in_class(k, s[i]) {
        lemma_run_fwd(s, i + 1, k);
    }
}

/// Every character of `s[j - run_back(s, j, k)..j]` is of class `k`.
pub proof fn lemma_run_back(s: Seq<char>, j: int, k: CharClass)
    requires
        0 <= j <= s.len(),
    ensures
        run_back(s, j, k) <= j,
        forall|m: int| j - run_back(s, j, k) <= m < j ==> in_class(k, #[trigger] s[m]),
        j - run_back(s, j, k) > 0 ==> !in_class(k, s[j - run_back(s, j, k) - 1]),
    decreases j,
{
    if j > 0 && in_class(k, s[j - 1]) {
        lemma_run_back(s, j - 1, k);
    }
}

/// Index just past the run of class `k` that starts at `i`.
pub fn skip_fwd(v: &Vec<char>, i: usize, k: CharClass) -> (j: usize)
    requires
        i <= v@.len(),
    ensures
        j == i + run_fwd(v@, i as int, k),
        j <= v@.len(),
{
    proof {
        lemma_run_fwd(v@, i as int, k);
    }
    let mut j = i;
    while j < v.len() && class_has(k, v[j])
        invariant
            i <= j <= v@.len(),
            run_fwd(v@, i as int, k) == (j - i) + run_fwd(v@, j as int, k),
        decreases v@.len() - j,
    {
        j = j + 1;
    }
    j
}

/// Index where the run of class `k` that ends just before `j` begins.
pub fn skip_back(v: &Vec<char>, j: usize, k: CharClass) -> (i: usize)
    requires
        j <= v@.len(),
    ensures
        i == j - run_back(v@, j as int, k),
        i <= j,
{
    proof {
        lemma_run_back(v@, j as int, k);
    }
    let mut i = j;
    while i > 0 && class_has(k, v[i - 1])
        invariant
            i <= j <= v@.len(),
            run_back(v@, j as int, k) == (j - i) + run_back(v@, i as int, k),
        decreases i,
    {
        i = i - 1;
    }
    i
}

/// The characters of a string slice, in order.
pub fn chars_of(s: &str) -> (v: Vec<char>)
    ensures
        v@ == s@,
{
    let mut v: Vec<char> = Vec::new();
    for c in it: s.chars()
        invariant
            v@ == it.seq().take(it.index() as int),
    {
        v.push(c);
    }
    v
}

/// A copy of `v[lo..hi]`.
pub fn sub_vec(v: &Vec<char>, lo: usize, hi: usize) -> (r: Vec<char>)
    requires
        lo <= hi <= v@.len(),
    ensures
        r@ == v@.subrange(lo as int, hi as int),
{
    let mut r: Vec<char> = Vec::new();
    let mut i = lo;
    while i < hi
        invariant
            lo <= i <= hi <= v@.len(),
            r@ == v@.subrange(lo as int, i as int),
        decreases hi - i,
    {
        r.push(v[i]);
        i = i + 1;
    }
    r
}

/// `v` with white space removed from both ends.
pub fn trimmed(v: &Vec<char>) -> (r: Vec<char>)
    ensures
        r@ == trim(v@),
{
    let a = skip_fwd(v, 0, CharClass::Space);
    let t = sub_vec(v, a, v.len());
    let b = skip_back(&t, t.len(), CharClass::Space);
    sub_vec(&t, 0, b)
}

/// `String::push`, believed without proof: the string afterwards holds its
/// former characters followed by `c`.
#[verifier::external_body]
pub(crate) fn push_char(s: &mut String, c: char)
    ensures
        final(s)@ == old(s)@.push(c),
{
    s.push(c);
}

/// A `String` holding the characters of `cs`.
pub fn string_of(cs: &Vec<char>) -> (s: String)
    ensures
        s@ == cs@,
{
    let mut s = String::new();
    let mut i: usize = 0;
    while i < cs.len()
        invariant
            i <= cs@.len(),
            s@ == cs@.subrange(0, i as int),
        decreases cs@.len() - i,
    {
        push_char(&mut s, cs[i]);
        i = i + 1;
    }
    s
}


/// The items joined with `sep` between them (`join`).
pub open spec fn joined(items: Seq<Seq<char>>, sep: Seq<char>) -> Seq<char>
    decreases items.len(),
{
    if items.len() == 0 {
        Seq::empty()
    } else if items.len() == 1 {
        items[0]
    } else {
        joined(items.drop_last(), sep) + sep + items.last()
    }
}

/// Appends `item` to a list of `items` joined with `sep` (`first`: the
/// list is empty so far).
pub(crate) fn push_item(
    list: &mut String,
    Ghost(items): Ghost<Seq<Seq<char>>>,
    first: bool,
    sep: &str,
    item: &str,
)
    requires
        old(list)@ == joined(items, sep@),
        first == (items.len() == 0),
    ensures
        final(list)@ == joined(items.push(item@), sep@),
{
    assert(items.push(item@).drop_last() =~= items);
    if !first {
        list.append(sep);
    } else {
        assert(old(list)@ =~= Seq::<char>::empty());
    }
    list.append(item);
    if first {
        assert(list@ =~= item@);
    }
}

/// The decimal numeral of `n` (what `n.to_string()` gives for an integer).
pub open spec fn decimal(n: nat) -> Seq<char>
    decreases n,
{
    if n < 10 {
        seq![(('0' as nat) + n) as char]
    } else {
        decimal(n / 10).push((('0' as nat) + n % 10) as char)
    }
}

/// Appends the decimal numeral of `n` to `s`.
pub fn push_decimal(s: &mut String, n: u64)
    ensures
        final(s)@ == old(s)@ + decimal(n as nat),
    decreases n,
{
    if n >= 10 {
        push_decimal(s, n / 10);
    }
    let d = (n % 10) as u8;
    let c = (48u8 + d) as char;
    assert(c == (('0' as nat) + n % 10) as char);
    let ghost mid = s@;
    push_char(s, c);
    if n >= 10 {
        assert(s@ =~= old(s)@ + decimal(n as nat));
    } else {
        assert(s@ =~= old(s)@ + decimal(n as nat));
    }
}


/// What `str::to_lowercase` returns for a string: its characters mapped
/// to lower case by Unicode's rules.
pub uninterp spec fn lowercase(s: Seq<char>) -> Seq<char>;

/// `str::to_lowercase`, believed without proof: the result is
/// [`lowercase`] of the argument's characters (Unicode's lower-case mapping,
/// which is named here, not stated).
#[verifier::external_body]
pub(crate) fn to_lowercase(s: &str) -> (r: String)
    ensures
        r@ == lowercase(s@),
{
    s.to_lowercase()
}

/// What `str::to_uppercase` returns for a string: its characters mapped
/// to upper case by Unicode's rules.
pub uninterp spec fn uppercase(s: Seq<char>) -> Seq<char>;

/// `str::to_uppercase`, believed without proof: the result is
/// [`uppercase`] of the argument's characters (Unicode's upper-case mapping,
/// which is named here, not stated).
#[verifier::external_body]
pub(crate) fn to_uppercase(s: &str) -> (r: String)
    ensures
        r@ == uppercase(s@),
{
    s.to_uppercase()
}

/// Do two strings hold the same characters?
pub fn same_chars(a: &Vec<char>, b: &Vec<char>) -> (r: bool)
    ensures
        r == (a@ == b@),
{
    if a.len() != b.len() {
        return false;
    }
    let mut i: usize = 0;
    while i < a.len()
        invariant
            a@.len() == b@.len(),
            i <= a@.len(),
            forall|j: int| 0 <= j < i ==> a@[j] == b@[j],
        decreases a@.len() - i,
    {
        if a[i] != b[i] {
            return false;
        }
        i = i + 1;
    }
    assert(a@ =~= b@);
    true
}

/// Do two string slices hold the same characters?
pub fn str_eq(a: &str, b: &str) -> (r: bool)
    ensures
        r == (a@ == b@),
{
    same_chars(&chars_of(a), &chars_of(b))
}

/// `s` starts with `p`.
pub open spec fn starts_with(s: Seq<char>, p: Seq<char>) -> bool {
    p.len() <= s.len() && s.subrange(0, p.len() as int) == p
}

/// `s` ends with `p`.
pub open spec fn ends_with(s: Seq<char>, p: Seq<char>) -> bool {
    p.len() <= s.len() && s.subrange(s.len() - p.len(), s.len() as int) == p
}

/// `p` occurs in `s`.
pub open spec fn contains(s: Seq<char>, p: Seq<char>) -> bool {
    exists|i: int| 0 <= i && i + p.len() <= s.len() && #[trigger] s.subrange(i, i + p.len()) == p
}

/// Does `p` occur in `s` at index `i`?
pub(crate) fn occurs_at(s: &Vec<char>, p: &Vec<char>, i: usize) -> (r: bool)
    requires
        i + p@.len() <= s@.len(),
    ensures
        r == (s@.subrange(i as int, i + p@.len()) == p@),
{
    let n = s.len();
    let mut j: usize = 0;
    while j < p.len()
        invariant
            n == s@.len(),
            i + p@.len() <= s@.len(),
            j <= p@.len(),
            forall|k: int| 0 <= k < j ==> s@[i + k] == p@[k],
        decreases p@.len() - j,
    {
        if s[i + j] != p[j] {
            assert(s@.subrange(i as int, i + p@.len())[j as int] != p@[j as int]);
            return false;
        }
        j = j + 1;
    }
    assert(s@.subrange(i as int, i + p@.len()) =~= p@);
    true
}

/// `str::starts_with`.
pub fn has_prefix(s: &Vec<char>, p: &Vec<char>) -> (r: bool)
    ensures
        r == starts_with(s@, p@),
{
    p.len() <= s.len() && occurs_at(s, p, 0)
}

/// `str::ends_with`.
pub fn has_suffix(s: &Vec<char>, p: &Vec<char>) -> (r: bool)
    ensures
        r == ends_with(s@, p@),
{
    p.len() <= s.len() && occurs_at(s, p, s.len() - p.len())
}

/// `str::contains`.
pub fn has_infix(s: &Vec<char>, p: &Vec<char>) -> (r: bool)
    ensures
        r == contains(s@, p@),
{
    let n = s.len();
    let m = p.len();
    if m > n {
        return false;
    }
    if m == 0 {
        assert(s@.subrange(0, 0 + p@.len() as int) =~= p@);
        return true;
    }
    let mut i: usize = 0;
    while i <= n - m
        invariant
            n == s@.len(),
            m == p@.len(),
            1 <= m <= n,
            i <= n - m + 1,
            forall|k: int| 0 <= k < i ==> #[trigger] s@.subrange(k, k + p@.len()) != p@,
        decreases n - m + 1 - i,
    {
        if occurs_at(s, p, i) {
            return true;
        }
        i = i + 1;
    }
    false
}

/// Strict lexicographic order of strings by character (for UTF-8 text the
/// same as the byte order in which `String`s compare).
pub open spec fn lex_lt(a: Seq<char>, b: Seq<char>) -> bool
    decreases a.len(),
{
    if a.len() == 0 {
        b.len() > 0
    } else if b.len() == 0 {
        false
    } else if a[0] != b[0] {
        a[0] < b[0]
    } else {
        lex_lt(a.drop_first(), b.drop_first())
    }
}

/// `lex_lt` is irreflexive.
pub proof fn lemma_lex_irreflexive(a: Seq<char>)
    ensures
        !lex_lt(a, a),
    decreases a.len(),
{
    if a.len() > 0 {
        lemma_lex_irreflexive(a.drop_first());
    }
}

/// `lex_lt` is transitive.
pub proof fn lemma_lex_transitive(a: Seq<char>, b: Seq<char>, c: Seq<char>)
    requires
        lex_lt(a, b),
        lex_lt(b, c),
    ensures
        lex_lt(a, c),
    decreases a.len(),
{
    if a.len() > 0 && b.len() > 0 && c.len() > 0 && a[0] == b[0] && b[0] == c[0] {
        lemma_lex_transitive(a.drop_first(), b.drop_first(), c.drop_first());
    }
}

/// `lex_lt` is total on distinct strings.
pub proof fn lemma_lex_total(a: Seq<char>, b: Seq<char>)
    ensures
        a == b || lex_lt(a, b) || lex_lt(b, a),
    decreases a.len(),
{
    if a.len() > 0 && b.len() > 0 && a[0] == b[0] {
        lemma_lex_total(a.drop_first(), b.drop_first());
        if a.drop_first() == b.drop_first() {
            assert forall|i: int| 0 <= i < a.len() implies a[i] == b[i] by {
                if i > 0 {
                    assert(a[i] == a.drop_first()[i - 1]);
                    assert(b[i] == b.drop_first()[i - 1]);
                }
            }
            assert(a =~= b);
        }
    } else if a.len() == 0 && b.len() == 0 {
        assert(a =~= b);
    } else if a.len() > 0 && b.len() > 0 {
    }
}

/// Is `a` before `b` in [`lex_lt`] order?
pub fn lex_less(a: &Vec<char>, b: &Vec<char>) -> (r: bool)
    ensures
        r == lex_lt(a@, b@),
{
    let mut i: usize = 0;
    assert(a@.skip(0) =~= a@);
    assert(b@.skip(0) =~= b@);
    while i < a.len() && i < b.len() && a[i] == b[i]
        invariant
            i <= a@.len(),
            i <= b@.len(),
            lex_lt(a@, b@) == lex_lt(a@.skip(i as int), b@.skip(i as int)),
        decreases a@.len() - i,
    {
        assert(a@.skip(i as int).drop_first() =~= a@.skip(i + 1));
        assert(b@.skip(i as int).drop_first() =~= b@.skip(i + 1));
        i = i + 1;
    }
    if i == a.len() {
        i < b.len()
    } else if i == b.len() {
        false
    } else {
        a[i] < b[i]
    }
}


/// A trimmed string that is not empty begins and ends with a character
/// that is not white space.
pub proof fn lemma_trim_ends(s: Seq<char>)
    ensures
        trim(s).len() > 0 ==> !is_ws(trim(s)[0]) && !is_ws(trim(s).last()),
{
    let a = run_fwd(s, 0, CharClass::Space);
    lemma_run_fwd(s, 0, CharClass::Space);
    let u = trim_start(s);
    lemma_run_back(u, u.len() as int, CharClass::Space);
    let t = trim(s);
    if t.len() > 0 {
        assert(t[0] == u[0]);
        assert(u[0] == s[a as int]);
        assert(t.last() == u[u.len() - run_back(u, u.len() as int, CharClass::Space) - 1]);
    }
}

/// Trimming twice is trimming once.
pub proof fn lemma_trim_idempotent(s: Seq<char>)
    ensures
        trim(trim(s)) == trim(s),
{
    let t = trim(s);
    lemma_trim_ends(s);
    if t.len() > 0 {
        assert(run_fwd(t, 0, CharClass::Space) == 0);
        assert(trim_start(t) =~= t);
        assert(run_back(t, t.len() as int, CharClass::Space) == 0);
        assert(trim_end(t) =~= t);
    } else {
        assert(trim_start(t) =~= t);
        assert(trim_end(t) =~= t);
    }
}

} // verus!
