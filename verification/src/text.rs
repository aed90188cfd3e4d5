//! Character-level text helpers: conversions between strings and character
//! sequences, decimal rendering and parsing of integers, whitespace splitting.

use vstd::prelude::*;

verus! {

broadcast use vstd::string::group_string_axioms;

/// The characters of a string slice, in order.
pub fn chars_of(s: &str) -> (r: Vec<char>)
    ensures
        r@ == s@,
{
    let mut out: Vec<char> = Vec::new();
    for c in it: s.chars()
        invariant
            it.seq() == s@,
            out@ == it.seq().take(it.index() as int),
    {
        out.push(c);
    }
    out
}

} // verus!

verus! {

/// A string holding the given characters, in order. Trusted: made by std's
/// `String::from_iter` over the characters, whose documentation says the string is
/// the characters concatenated; this contract claims exactly that of its view.
#[verifier::external_body]
pub(crate) fn string_from_chars(cs: &[char]) -> (s: String)
    ensures
        s@ == cs@,
{
    String::from_iter(cs.iter())
}

/// The decimal digit character of `d` (`d < 10`).
pub open spec fn digit_char(d: nat) -> char
    recommends
        d < 10,
{
    ((d + 48) as u8) as char
}

pub open spec fn is_digit(c: char) -> bool {
    '0' <= c && c <= '9'
}

pub open spec fn digit_value(c: char) -> nat {
    (c as nat - 48) as nat
}

/// Decimal representation of a natural number, most significant digit first, no leading zeros.
pub open spec fn nat_text(n: nat) -> Seq<char>
    decreases n,
{
    if n < 10 {
        seq![digit_char(n)]
    } else {
        nat_text(n / 10).push(digit_char(n % 10))
    }
}

/// Decimal representation of an integer, with a leading '-' when negative.
pub open spec fn int_text(i: int) -> Seq<char> {
    if i < 0 {
        seq!['-'] + nat_text((-i) as nat)
    } else {
        nat_text(i as nat)
    }
}

fn push_digits(out: &mut Vec<char>, n: u64)
    ensures
        final(out)@ == old(out)@ + nat_text(n as nat),
    decreases n,
{
    if n >= 10 {
        push_digits(out, n / 10);
    }
    let d = (n % 10) as u8;
    out.push((d + 48) as char);
}

/// Appends the decimal text of `v`.
pub fn push_u64_text(out: &mut Vec<char>, v: u64)
    ensures
        final(out)@ == old(out)@ + nat_text(v as nat),
{
    push_digits(out, v);
}

/// Appends the decimal text of `v`, with a '-' when negative.
pub fn push_i64_text(out: &mut Vec<char>, v: i64)
    ensures
        final(out)@ == old(out)@ + int_text(v as int),
{
    if v < 0 {
        out.push('-');
        let mag: u64 = (-(v as i128)) as u64;
        push_digits(out, mag);
        assert(out@ == old(out)@ + int_text(v as int));
    } else {
        push_digits(out, v as u64);
    }
}

/// Why a decimal text is not a number of the requested type (the kinds of `std::num::IntErrorKind`).
#[derive(Clone, Copy, Debug, PartialEq, Eq, Structural)]
pub enum IntErrorKind {
    Empty,
    InvalidDigit,
    PosOverflow,
    NegOverflow,
}

/// Left-to-right accumulation of decimal digits, as `str::parse` performs it:
/// the first character that is not a digit, or the first step that leaves `[min, max]`, decides the error.
pub open spec fn scan_digits(ds: Seq<char>, acc: int, negative: bool, min: int, max: int) -> Result<int, IntErrorKind>
    decreases ds.len(),
{
    if ds.len() == 0 {
        Ok(acc)
    } else if !is_digit(ds[0]) {
        Err(IntErrorKind::InvalidDigit)
    } else if negative {
        let a = acc * 10 - digit_value(ds[0]);
        if a < min { Err(IntErrorKind::NegOverflow) } else { scan_digits(ds.drop_first(), a, negative, min, max) }
    } else {
        let a = acc * 10 + digit_value(ds[0]);
        if a > max { Err(IntErrorKind::PosOverflow) } else { scan_digits(ds.drop_first(), a, negative, min, max) }
    }
}

/// `str::parse` for an integer type whose range is `[min, max]` (signed when `min < 0`).
pub open spec fn parse_int_spec(s: Seq<char>, min: int, max: int) -> Result<int, IntErrorKind> {
    if s.len() == 0 {
        Err(IntErrorKind::Empty)
    } else if s.len() == 1 && (s[0] == '+' || s[0] == '-') {
        Err(IntErrorKind::InvalidDigit)
    } else if s[0] == '+' {
        scan_digits(s.drop_first(), 0, false, min, max)
    } else if s[0] == '-' && min < 0 {
        scan_digits(s.drop_first(), 0, true, min, max)
    } else {
        scan_digits(s, 0, false, min, max)
    }
}

fn scan_digits_exec(s: &[char], start: usize, negative: bool, min: i128, max: i128) -> (r: Result<i128, IntErrorKind>)
    requires
        start <= s@.len(),
        min <= 0 <= max,
        -0x1_0000_0000_0000_0000 <= min,
        max <= 0x1_0000_0000_0000_0000,
    ensures
        match r {
            Ok(v) => scan_digits(s@.skip(start as int), 0, negative, min as int, max as int) == Ok::<int, IntErrorKind>(v as int),
            Err(e) => scan_digits(s@.skip(start as int), 0, negative, min as int, max as int) == Err::<int, IntErrorKind>(e),
        },
{
    let mut acc: i128 = 0;
    let mut i = start;
    while i < s.len()
        invariant
            start <= i <= s@.len(),
            min <= acc <= max,
            negative ==> acc <= 0,
            !negative ==> acc >= 0,
            min <= 0 <= max,
            -0x1_0000_0000_0000_0000 <= min,
            max <= 0x1_0000_0000_0000_0000,
            scan_digits(s@.skip(start as int), 0, negative, min as int, max as int)
                == scan_digits(s@.skip(i as int), acc as int, negative, min as int, max as int),
        decreases s@.len() - i,
    {
        let c = s[i];
        assert(s@.skip(i as int)[0] == c);
        assert(s@.skip(i as int).drop_first() =~= s@.skip(i + 1));
        if !('0' <= c && c <= '9') {
            return Err(IntErrorKind::InvalidDigit);
        }
        let d = (c as u32 - 48) as i128;
        if negative {
            let a = acc * 10 - d;
            if a < min {
                return Err(IntErrorKind::NegOverflow);
            }
            acc = a;
        } else {
            let a = acc * 10 + d;
            if a > max {
                return Err(IntErrorKind::PosOverflow);
            }
            acc = a;
        }
        i = i + 1;
    }
    assert(s@.skip(i as int).len() == 0);
    Ok(acc)
}

/// Parses decimal text the way `str::parse` does for an integer type with range `[min, max]`.
pub fn parse_int(s: &[char], min: i128, max: i128) -> (r: Result<i128, IntErrorKind>)
    requires
        min <= 0 <= max,
        -0x1_0000_0000_0000_0000 <= min,
        max <= 0x1_0000_0000_0000_0000,
    ensures
        match r {
            Ok(v) => parse_int_spec(s@, min as int, max as int) == Ok::<int, IntErrorKind>(v as int),
            Err(e) => parse_int_spec(s@, min as int, max as int) == Err::<int, IntErrorKind>(e),
        },
{
    if s.len() == 0 {
        return Err(IntErrorKind::Empty);
    }
    let c0 = s[0];
    if s.len() == 1 && (c0 == '+' || c0 == '-') {
        return Err(IntErrorKind::InvalidDigit);
    }
    if c0 == '+' {
        assert(s@.skip(1) =~= s@.drop_first());
        scan_digits_exec(s, 1, false, min, max)
    } else if c0 == '-' && min < 0 {
        assert(s@.skip(1) =~= s@.drop_first());
        scan_digits_exec(s, 1, true, min, max)
    } else {
        assert(s@.skip(0) =~= s@);
        scan_digits_exec(s, 0, false, min, max)
    }
}

/// Whether two string slices hold the same characters.
pub fn str_eq(a: &str, b: &str) -> (r: bool)
    ensures
        r == (a@ == b@),
{
    let ca = chars_of(a);
    let cb = chars_of(b);
    chars_eq(ca.as_slice(), cb.as_slice())
}

/// Whether two character slices are equal.
pub fn chars_eq(a: &[char], b: &[char]) -> (r: bool)
    ensures
        r == (a@ == b@),
{
    if a.len() != b.len() {
        return false;
    }
    let mut i: usize = 0;
    while i < a.len()
        invariant
            a@.len() == b@.len(),
            i <= a@.len(),
            forall|j: int| 0 <= j < i ==> a@[j] == b@[j],
        decreases a@.len() - i,
    {
        if a[i] != b[i] {
            return false;
        }
        i = i + 1;
    }
    assert(a@ =~= b@);
    true
}

/// Appends the characters of `s`.
pub fn push_str(out: &mut Vec<char>, s: &str)
    ensures
        final(out)@ == old(out)@ + s@,
{
    let mut cs = chars_of(s);
    out.append(&mut cs);
}

/// Unicode `White_Space`, as `char::is_whitespace` decides it.
pub open spec fn is_ws(c: char) -> bool {
    ||| ('\u{9}' <= c && c <= '\u{d}')
    ||| c == ' '
    ||| c == '\u{85}'
    ||| c == '\u{a0}'
    ||| c == '\u{1680}'
    ||| ('\u{2000}' <= c && c <= '\u{200a}')
    ||| c == '\u{2028}'
    ||| c == '\u{2029}'
    ||| c == '\u{202f}'
    ||| c == '\u{205f}'
    ||| c == '\u{3000}'
}

/// Whether `c` is white space.
pub fn is_whitespace(c: char) -> (r: bool)
    ensures
        r == is_ws(c),
{
    ('\u{9}' <= c && c <= '\u{d}') || c == ' ' || c == '\u{85}' || c == '\u{a0}' || c == '\u{1680}'
        || ('\u{2000}' <= c && c <= '\u{200a}') || c == '\u{2028}' || c == '\u{2029}' || c == '\u{202f}'
        || c == '\u{205f}' || c == '\u{3000}'
}

/// The views of a sequence of character vectors.
pub open spec fn views(v: Seq<Vec<char>>) -> Seq<Seq<char>> {
    Seq::new(v.len(), |k: int| v[k]@)
}

/// The whitespace-separated words from position `i`, `cur` being the word in progress.
pub open spec fn words_from(s: Seq<char>, i: int, cur: Seq<char>) -> Seq<Seq<char>>
    decreases s.len() - i,
{
    if i < 0 || i >= s.len() {
        if cur.len() > 0 { seq![cur] } else { Seq::empty() }
    } else if is_ws(s[i]) {
        if cur.len() > 0 { seq![cur] + words_from(s, i + 1, Seq::empty()) } else { words_from(s, i + 1, Seq::empty()) }
    } else {
        words_from(s, i + 1, cur.push(s[i]))
    }
}

/// The words of a text, as `split_whitespace` yields them.
pub open spec fn words(s: Seq<char>) -> Seq<Seq<char>> {
    words_from(s, 0, Seq::empty())
}

/// Splits text at white space, dropping empty pieces.
pub fn split_words(s: &[char]) -> (r: Vec<Vec<char>>)
    ensures
        views(r@) == words(s@),
{
    let mut out: Vec<Vec<char>> = Vec::new();
    let mut cur: Vec<char> = Vec::new();
    let mut i: usize = 0;
    while i < s.len()
        invariant
            i <= s@.len(),
            words(s@) == views(out@) + words_from(s@, i as int, cur@),
        decreases s@.len() - i,
    {
        let c = s[i];
        if is_whitespace(c) {
            if cur.len() > 0 {
                let ghost before = views(out@);
                let done = cur;
                cur = Vec::new();
                out.push(done);
                assert(views(out@) =~= before.push(done@));
                assert(before + (seq![done@] + words_from(s@, i + 1, Seq::empty())) =~= before.push(done@) + words_from(s@, i + 1, Seq::empty()));
                assert(cur@ =~= Seq::<char>::empty());
            } else {
                assert(cur@ =~= Seq::<char>::empty());
                assert(words_from(s@, i as int, cur@) == words_from(s@, i + 1, Seq::<char>::empty()));
            }
        } else {
            let ghost old_cur = cur@;
            cur.push(c);
            assert(words_from(s@, i as int, old_cur) == words_from(s@, i + 1, cur@));
        }
        i = i + 1;
    }
    if cur.len() > 0 {
        let ghost before = views(out@);
        out.push(cur);
        assert(views(out@) =~= before + words_from(s@, i as int, out@.last()@));
    } else {
        assert(views(out@) + words_from(s@, i as int, cur@) =~= views(out@));
    }
    out
}

/// The text without leading white space.
pub open spec fn trim_start(s: Seq<char>) -> Seq<char>
    decreases s.len(),
{
    if s.len() > 0 && is_ws(s[0]) { trim_start(s.drop_first()) } else { s }
}

/// The text without trailing white space.
pub open spec fn trim_end(s: Seq<char>) -> Seq<char>
    decreases s.len(),
{
    if s.len() > 0 && is_ws(s.last()) { trim_end(s.drop_last()) } else { s }
}

/// The text without leading and trailing white space, as `str::trim` gives it.
pub open spec fn trim(s: Seq<char>) -> Seq<char> {
    trim_end(trim_start(s))
}

/// Removes leading and trailing white space.
pub fn trim_chars(s: &[char]) -> (r: Vec<char>)
    ensures
        r@ == trim(s@),
{
    let mut i: usize = 0;
    assert(s@.skip(0) =~= s@);
    while i < s.len() && is_whitespace(s[i])
        invariant
            i <= s@.len(),
            trim_start(s@) == trim_start(s@.skip(i as int)),
        decreases s@.len() - i,
    {
        assert(s@.skip(i as int).drop_first() =~= s@.skip(i + 1));
        i = i + 1;
    }
    let mut j: usize = s.len();
    assert(s@.skip(i as int) =~= s@.subrange(i as int, j as int));
    while j > i && is_whitespace(s[j - 1])
        invariant
            i <= j <= s@.len(),
            trim(s@) == trim_end(s@.subrange(i as int, j as int)),
        decreases j - i,
    {
        assert(s@.subrange(i as int, j as int).drop_last() =~= s@.subrange(i as int, j - 1));
        j = j - 1;
    }
    let mut out: Vec<char> = Vec::new();
    let mut k: usize = i;
    while k < j
        invariant
            i <= k <= j <= s@.len(),
            out@ == s@.subrange(i as int, k as int),
        decreases j - k,
    {
        out.push(s[k]);
        k = k + 1;
        assert(out@ =~= s@.subrange(i as int, k as int));
    }
    out
}

/// The pieces of a text between the separator characters (empty pieces kept).
pub open spec fn split_from(s: Seq<char>, sep: char, i: int, cur: Seq<char>) -> Seq<Seq<char>>
    decreases s.len() - i,
{
    if i < 0 || i >= s.len() {
        seq![cur]
    } else if s[i] == sep {
        seq![cur] + split_from(s, sep, i + 1, Seq::empty())
    } else {
        split_from(s, sep, i + 1, cur.push(s[i]))
    }
}

/// The pieces of a text between separators, as `str::split` with one character yields them.
pub open spec fn split_on(s: Seq<char>, sep: char) -> Seq<Seq<char>> {
    split_from(s, sep, 0, Seq::empty())
}

/// Splits text at every `sep`.
pub fn split_chars(s: &[char], sep: char) -> (r: Vec<Vec<char>>)
    ensures
        views(r@) == split_on(s@, sep),
{
    let mut out: Vec<Vec<char>> = Vec::new();
    let mut cur: Vec<char> = Vec::new();
    let mut i: usize = 0;
    while i < s.len()
        invariant
            i <= s@.len(),
            split_on(s@, sep) == views(out@) + split_from(s@, sep, i as int, cur@),
        decreases s@.len() - i,
    {
        let c = s[i];
        if c == sep {
            let ghost before = views(out@);
            let done = cur;
            cur = Vec::new();
            out.push(done);
            assert(views(out@) =~= before.push(done@));
            assert(before + (seq![done@] + split_from(s@, sep, i + 1, Seq::empty())) =~= before.push(done@) + split_from(s@, sep, i + 1, Seq::empty()));
        } else {
            cur.push(c);
        }
        i = i + 1;
    }
    let ghost before = views(out@);
    out.push(cur);
    assert(views(out@) =~= before + split_from(s@, sep, i as int, out@.last()@));
    out
}

/// The digit character of `d` is a digit of value `d`.
pub proof fn lemma_digit_char(d: nat)
    requires
        d < 10,
    ensures
        is_digit(digit_char(d)),
        digit_value(digit_char(d)) == d,
        !is_ws(digit_char(d)),
        digit_char(d) != '=',
        digit_char(d) != '-',
        digit_char(d) != '+',
{
    assert(((d + 48) as u8) as int == d + 48);
    assert((((d + 48) as u8) as char) as int == d + 48) by {
        let b = (d + 48) as u8;
        assert(b as char as u32 == b as u32);
    }
}

/// Every character of a number's decimal text is a digit.
pub proof fn lemma_nat_text_digits(n: nat)
    ensures
        nat_text(n).len() > 0,
        forall|k: int| 0 <= k < nat_text(n).len() ==> {
            &&& is_digit(#[trigger] nat_text(n)[k])
            &&& !is_ws(nat_text(n)[k])
            &&& nat_text(n)[k] != '='
            &&& nat_text(n)[k] != '-'
            &&& nat_text(n)[k] != '+'
        },
    decreases n,
{
    lemma_digit_char(n % 10);
    if n >= 10 {
        lemma_nat_text_digits(n / 10);
    }
}

/// Scanning a concatenation scans the first part, then the second from where it left off.
pub proof fn lemma_scan_append(a: Seq<char>, b: Seq<char>, acc: int, negative: bool, min: int, max: int)
    ensures
        scan_digits(a + b, acc, negative, min, max) == match scan_digits(a, acc, negative, min, max) {
            Ok(x) => scan_digits(b, x, negative, min, max),
            Err(e) => Err(e),
        },
    decreases a.len(),
{
    if a.len() == 0 {
        assert(a + b =~= b);
    } else {
        assert((a + b)[0] == a[0]);
        assert((a + b).drop_first() =~= a.drop_first() + b);
        if is_digit(a[0]) {
            let a1 = if negative { acc * 10 - digit_value(a[0]) } else { acc * 10 + digit_value(a[0]) };
            lemma_scan_append(a.drop_first(), b, a1, negative, min, max);
        }
    }
}

/// The decimal text of `n` scans back to `n` (or to `-n` when scanning a negative number),
/// when the result is in range.
pub proof fn lemma_scan_nat_text(n: nat, negative: bool, min: int, max: int)
    requires
        min <= 0 <= max,
        negative ==> min <= -n,
        !negative ==> n <= max,
    ensures
        scan_digits(nat_text(n), 0, negative, min, max) == Ok::<int, IntErrorKind>(if negative { -n } else { n as int }),
    decreases n,
{
    lemma_digit_char(n % 10);
    let d = seq![digit_char(n % 10)];
    let target: int = if negative { -n } else { n as int };
    assert(d.drop_first() =~= Seq::<char>::empty());
    if n < 10 {
        assert(n % 10 == n);
        assert(nat_text(n) == d);
        assert(scan_digits(d.drop_first(), target, negative, min, max) == Ok::<int, IntErrorKind>(target));
    } else {
        lemma_scan_nat_text(n / 10, negative, min, max);
        assert(nat_text(n) == nat_text(n / 10) + d);
        lemma_scan_append(nat_text(n / 10), d, 0, negative, min, max);
        let acc: int = if negative { -((n / 10) as int) } else { (n / 10) as int };
        assert((n / 10) * 10 + n % 10 == n);
        assert(if negative { acc * 10 - (n % 10) == target } else { acc * 10 + (n % 10) == target });
        assert(scan_digits(d.drop_first(), target, negative, min, max) == Ok::<int, IntErrorKind>(target));
        assert(scan_digits(d, acc, negative, min, max) == Ok::<int, IntErrorKind>(target));
    }
}

/// `str::parse` reads a number's decimal text back as the number.
pub proof fn lemma_parse_nat_text(n: nat, min: int, max: int)
    requires
        min <= 0,
        n <= max,
    ensures
        parse_int_spec(nat_text(n), min, max) == Ok::<int, IntErrorKind>(n as int),
{
    lemma_nat_text_digits(n);
    lemma_scan_nat_text(n, false, min, max);
    let s = nat_text(n);
    assert(is_digit(s[0]));
}

/// `str::parse` reads an integer's text back as the integer, when it is in range.
pub proof fn lemma_parse_int_text(v: int, min: int, max: int)
    requires
        min < 0 <= max,
        min <= v <= max,
    ensures
        parse_int_spec(int_text(v), min, max) == Ok::<int, IntErrorKind>(v),
{
    if v < 0 {
        let m = (-v) as nat;
        lemma_nat_text_digits(m);
        lemma_scan_nat_text(m, true, min, max);
        let s = int_text(v);
        assert(s == seq!['-'] + nat_text(m));
        assert(s.drop_first() =~= nat_text(m));
        assert(s.len() >= 2);
    } else {
        lemma_parse_nat_text(v as nat, min, max);
    }
}

/// No character of the text is white space.
pub open spec fn no_ws(w: Seq<char>) -> bool {
    forall|k: int| 0 <= k < w.len() ==> !is_ws(#[trigger] w[k])
}

/// Words joined by single spaces.
pub open spec fn join_words(toks: Seq<Seq<char>>) -> Seq<char>
    decreases toks.len(),
{
    if toks.len() == 0 {
        Seq::empty()
    } else if toks.len() == 1 {
        toks[0]
    } else {
        join_words(toks.drop_last()) + seq![' '] + toks.last()
    }
}

proof fn lemma_scan_word(s: Seq<char>, i: int, cur: Seq<char>, w: Seq<char>)
    requires
        0 <= i,
        i + w.len() <= s.len(),
        s.subrange(i, i + w.len()) == w,
        no_ws(w),
    ensures
        words_from(s, i, cur) == words_from(s, i + w.len(), cur + w),
    decreases w.len(),
{
    if w.len() == 0 {
        assert(cur + w =~= cur);
    } else {
        assert(s[i] == s.subrange(i, i + w.len())[0]);
        assert(!is_ws(w[0]));
        let w1 = w.drop_first();
        assert(s.subrange(i + 1, i + 1 + w1.len()) =~= w1) by {
            assert forall|k: int| 0 <= k < w1.len() implies s.subrange(i + 1, i + 1 + w1.len())[k] == w1[k] by {
                assert(s.subrange(i, i + w.len())[k + 1] == w[k + 1]);
            }
        }
        assert(no_ws(w1)) by {
            assert forall|k: int| 0 <= k < w1.len() implies !is_ws(#[trigger] w1[k]) by {
                assert(w1[k] == w[k + 1]);
            }
        }
        lemma_scan_word(s, i + 1, cur.push(s[i]), w1);
        assert(cur.push(s[i]) + w1 =~= cur + w);
    }
}

proof fn lemma_words_join_at(s: Seq<char>, i: int, toks: Seq<Seq<char>>)
    requires
        toks.len() >= 1,
        forall|k: int| 0 <= k < toks.len() ==> (#[trigger] toks[k]).len() > 0 && no_ws(toks[k]),
        0 <= i,
        i + join_words(toks).len() <= s.len(),
        s.subrange(i, i + join_words(toks).len()) == join_words(toks),
    ensures
        words_from(s, i, Seq::empty()) == toks.drop_last() + words_from(s, i + join_words(toks).len(), toks.last()),
    decreases toks.len(),
{
    if toks.len() == 1 {
        lemma_scan_word(s, i, Seq::empty(), toks[0]);
        assert(Seq::<char>::empty() + toks[0] =~= toks[0]);
        assert(toks.drop_last() =~= Seq::<Seq<char>>::empty());
        assert(toks.drop_last() + words_from(s, i + join_words(toks).len(), toks.last()) =~= words_from(s, i + join_words(toks).len(), toks.last()));
    } else {
        let init = toks.drop_last();
        let j = join_words(init);
        let last = toks.last();
        assert(join_words(toks) == j + seq![' '] + last);
        assert forall|k: int| 0 <= k < init.len() implies (#[trigger] init[k]).len() > 0 && no_ws(init[k]) by {
            assert(init[k] == toks[k]);
        }
        assert(s.subrange(i, i + j.len()) =~= j) by {
            assert forall|k: int| 0 <= k < j.len() implies s.subrange(i, i + j.len())[k] == j[k] by {
                assert(s.subrange(i, i + join_words(toks).len())[k] == join_words(toks)[k]);
            }
        }
        lemma_words_join_at(s, i, init);
        let e1 = i + j.len();
        assert(s[e1] == ' ') by {
            assert(s.subrange(i, i + join_words(toks).len())[j.len() as int] == join_words(toks)[j.len() as int]);
        }
        assert(init.last().len() > 0) by { assert(init.last() == toks[toks.len() - 2]); }
        assert(words_from(s, e1, init.last()) == seq![init.last()] + words_from(s, e1 + 1, Seq::empty()));
        assert(s.subrange(e1 + 1, e1 + 1 + last.len()) =~= last) by {
            assert forall|k: int| 0 <= k < last.len() implies s.subrange(e1 + 1, e1 + 1 + last.len())[k] == last[k] by {
                assert(s.subrange(i, i + join_words(toks).len())[j.len() + 1 + k] == join_words(toks)[j.len() + 1 + k]);
            }
        }
        lemma_scan_word(s, e1 + 1, Seq::empty(), last);
        assert(Seq::<char>::empty() + last =~= last);
        assert(init.drop_last() + (seq![init.last()] + words_from(s, e1 + 1 + last.len(), last))
            =~= toks.drop_last() + words_from(s, e1 + 1 + last.len(), last));
    }
}

/// The words of space-joined words are those words.
pub proof fn lemma_words_of_join(toks: Seq<Seq<char>>)
    requires
        toks.len() >= 1,
        forall|k: int| 0 <= k < toks.len() ==> (#[trigger] toks[k]).len() > 0 && no_ws(toks[k]),
    ensures
        words(join_words(toks)) == toks,
{
    let s = join_words(toks);
    assert(s.subrange(0, s.len() as int) =~= s);
    lemma_words_join_at(s, 0, toks);
    assert(toks.last() == toks[toks.len() - 1]);
    assert(toks.drop_last() + seq![toks.last()] =~= toks);
}

/// Text that neither starts nor ends with white space is its own trim; a trailing
/// newline is trimmed off.
pub proof fn lemma_trim_plain(s: Seq<char>)
    requires
        s.len() > 0,
        !is_ws(s[0]),
        !is_ws(s.last()),
    ensures
        trim(s) == s,
        trim(s.push('\n')) == s,
{
    assert(trim_start(s) == s);
    assert(trim_start(s.push('\n')) == s.push('\n')) by {
        assert(s.push('\n')[0] == s[0]);
    }
    assert(s.push('\n').drop_last() =~= s);
    assert(is_ws('\n'));
}

proof fn lemma_scan_range(ds: Seq<char>, acc: int, negative: bool, min: int, max: int)
    requires
        min <= 0 <= max,
        min <= acc <= max,
        negative ==> acc <= 0,
        !negative ==> acc >= 0,
    ensures
        scan_digits(ds, acc, negative, min, max) matches Ok(x) ==> min <= x <= max,
    decreases ds.len(),
{
    if ds.len() > 0 && is_digit(ds[0]) {
        let a = if negative { acc * 10 - digit_value(ds[0]) } else { acc * 10 + digit_value(ds[0]) };
        if (negative && a >= min) || (!negative && a <= max) {
            lemma_scan_range(ds.drop_first(), a, negative, min, max);
        }
    }
}

/// What `str::parse` yields lies in the type's range.
pub proof fn lemma_parse_int_range(s: Seq<char>, min: int, max: int)
    requires
        min <= 0 <= max,
    ensures
        parse_int_spec(s, min, max) matches Ok(x) ==> min <= x <= max,
{
    if s.len() > 0 {
        if s[0] == '+' {
            lemma_scan_range(s.drop_first(), 0, false, min, max);
        } else if s[0] == '-' && min < 0 {
            lemma_scan_range(s.drop_first(), 0, true, min, max);
        } else {
            lemma_scan_range(s, 0, false, min, max);
        }
    }
}

} // verus!
