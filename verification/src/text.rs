//! Character-level text handling: whitespace trimming, splitting, integer
//! parsing and decimal formatting, with their meaning stated over `Seq<char>`.
use vstd::prelude::*;
use vstd::string::*;

verus! {

/// The characters of `s`, in order.
pub fn chars_of(s: &str) -> (v: Vec<char>)
    ensures
        v@ == s@,
{
    broadcast use vstd::string::axiom_spec_iter;
    let mut v: Vec<char> = Vec::new();
    for c in it: s.chars()
        invariant
            v@ == it.history(),
    {
        v.push(c);
    }
    v
}

/// Appends `c` to `s` (`String::push`).
#[verifier::external_body]
pub(crate) fn push_char(s: &mut String, c: char)
    ensures
        final(s)@ == old(s)@.push(c),
{
    s.push(c);
}

/// `c` has the Unicode `White_Space` property (`char::is_whitespace`).
pub open spec fn is_whitespace(c: char) -> bool {
    ||| '\u{9}' <= c <= '\u{d}'
    ||| c == ' '
    ||| c == '\u{85}'
    ||| c == '\u{a0}'
    ||| c == '\u{1680}'
    ||| '\u{2000}' <= c <= '\u{200a}'
    ||| c == '\u{2028}'
    ||| c == '\u{2029}'
    ||| c == '\u{202f}'
    ||| c == '\u{205f}'
    ||| c == '\u{3000}'
}

/// Decides `is_whitespace`.
pub fn is_whitespace_char(c: char) -> (r: bool)
    ensures
        r == is_whitespace(c),
{
    ('\u{9}' <= c && c <= '\u{d}') || c == ' ' || c == '\u{85}' || c == '\u{a0}' || c == '\u{1680}'
        || ('\u{2000}' <= c && c <= '\u{200a}') || c == '\u{2028}' || c == '\u{2029}' || c
        == '\u{202f}' || c == '\u{205f}' || c == '\u{3000}'
}

/// `s` without its leading whitespace.
pub open spec fn trim_start(s: Seq<char>) -> Seq<char>
    decreases s.len(),
{
    if s.len() > 0 && is_whitespace(s[0]) {
        trim_start(s.drop_first())
    } else {
        s
    }
}

/// `s` without its trailing whitespace.
pub open spec fn trim_end(s: Seq<char>) -> Seq<char>
    decreases s.len(),
{
    if s.len() > 0 && is_whitespace(s.last()) {
        trim_end(s.drop_last())
    } else {
        s
    }
}

/// `s` without leading and trailing whitespace (`str::trim`).
pub open spec fn trim(s: Seq<char>) -> Seq<char> {
    trim_end(trim_start(s))
}

/// Bounds of `v[lo..hi]` with its leading and trailing whitespace removed.
pub fn trim_bounds(v: &Vec<char>, lo: usize, hi: usize) -> (r: (usize, usize))
    requires
        lo <= hi <= v.len(),
    ensures
        lo <= r.0 <= r.1 <= hi,
        v@.subrange(r.0 as int, r.1 as int) == trim(v@.subrange(lo as int, hi as int)),
{
    let mut a = lo;
    while a < hi && is_whitespace_char(v[a])
        invariant
            lo <= a <= hi <= v.len(),
            trim_start(v@.subrange(lo as int, hi as int)) == trim_start(v@.subrange(a as int, hi as int)),
        decreases hi - a,
    {
        assert(v@.subrange(a as int, hi as int).drop_first() =~= v@.subrange(a + 1, hi as int));
        a = a + 1;
    }
    assert(trim_start(v@.subrange(a as int, hi as int)) == v@.subrange(a as int, hi as int));
    let mut b = hi;
    while b > a && is_whitespace_char(v[b - 1])
        invariant
            lo <= a <= b <= hi <= v.len(),
            trim(v@.subrange(lo as int, hi as int)) == trim_end(v@.subrange(a as int, b as int)),
        decreases b - a,
    {
        assert(v@.subrange(a as int, b as int).drop_last() =~= v@.subrange(a as int, b - 1));
        b = b - 1;
    }
    (a, b)
}

/// `str::trim(s)` is empty.
pub fn is_blank(s: &str) -> (r: bool)
    ensures
        r == (trim(s@).len() == 0),
{
    let v = chars_of(s);
    let (a, b) = trim_bounds(&v, 0, v.len());
    assert(v@.subrange(0, v@.len() as int) =~= v@);
    a == b
}

/// An ASCII decimal digit.
pub open spec fn is_digit(c: char) -> bool {
    '0' <= c <= '9'
}

/// Value of the ASCII digit `c`.
pub open spec fn digit_value(c: char) -> int {
    c as int - '0' as int
}

/// Every character of `s` is an ASCII digit.
pub open spec fn all_digits(s: Seq<char>) -> bool {
    forall|i: int| 0 <= i < s.len() ==> is_digit(#[trigger] s[i])
}

/// Value of the decimal numeral `s` (most significant digit first).
pub open spec fn digits_value(s: Seq<char>) -> int
    decreases s.len(),
{
    if s.len() == 0 {
        0
    } else {
        digits_value(s.drop_last()) * 10 + digit_value(s.last())
    }
}

/// The `i32` that `s` denotes as `str::parse::<i32>` reads it: an optional
/// `+` or `-`, then one or more ASCII digits, within the range of `i32`.
pub open spec fn parse_i32(s: Seq<char>) -> Option<i32> {
    if s.len() == 0 {
        None
    } else {
        let body = if s[0] == '+' || s[0] == '-' {
            s.drop_first()
        } else {
            s
        };
        if body.len() == 0 || !all_digits(body) {
            None
        } else {
            let v = if s[0] == '-' {
                -digits_value(body)
            } else {
                digits_value(body)
            };
            if i32::MIN <= v <= i32::MAX {
                Some(v as i32)
            } else {
                None
            }
        }
    }
}

/// Parses `v[lo..hi]` as `str::parse::<i32>` does.
pub fn parse_i32_range(v: &Vec<char>, lo: usize, hi: usize) -> (r: Option<i32>)
    requires
        lo <= hi <= v.len(),
    ensures
        r == parse_i32(v@.subrange(lo as int, hi as int)),
{
    let ghost s = v@.subrange(lo as int, hi as int);
    if lo == hi {
        return None;
    }
    let negative = v[lo] == '-';
    let start: usize = if v[lo] == '+' || v[lo] == '-' { lo + 1 } else { lo };
    assert(s.drop_first() =~= v@.subrange(lo + 1, hi as int));
    if start == hi {
        return None;
    }
    // Values above `cap` are all out of range, so the accumulator stops there.
    let cap: u64 = 0x8000_0001;
    let mut acc: u64 = 0;
    let mut j = start;
    while j < hi
        invariant
            lo <= start <= j <= hi <= v.len(),
            lo < hi,
            s == v@.subrange(lo as int, hi as int),
            start == (if s[0] == '+' || s[0] == '-' { lo + 1 } else { lo as int }),
            negative == (s[0] == '-'),
            cap == 0x8000_0001,
            all_digits(v@.subrange(start as int, j as int)),
            digits_value(v@.subrange(start as int, j as int)) >= 0,
            acc == if digits_value(v@.subrange(start as int, j as int)) < cap {
                digits_value(v@.subrange(start as int, j as int))
            } else {
                cap as int
            },
        decreases hi - j,
    {
        let c = v[j];
        if !('0' <= c && c <= '9') {
            proof {
                let body = v@.subrange(start as int, hi as int);
                assert(body[j - start] == c);
                assert(!all_digits(body));
                assert(body =~= if start == lo { s } else { s.drop_first() });
            }
            return None;
        }
        let d: u64 = if c == '0' { 0 } else if c == '1' { 1 } else if c == '2' { 2 } else if c == '3' { 3 }
            else if c == '4' { 4 } else if c == '5' { 5 } else if c == '6' { 6 } else if c == '7' { 7 }
            else if c == '8' { 8 } else { 9 };
        assert(d == digit_value(c));
        let ghost prev = v@.subrange(start as int, j as int);
        let ghost next = v@.subrange(start as int, j + 1);
        assert(next.drop_last() =~= prev);
        assert(digits_value(next) == digits_value(prev) * 10 + d);
        let grown = acc * 10 + d;
        acc = if grown < cap { grown } else { cap };
        j = j + 1;
    }
    assert(v@.subrange(start as int, hi as int) =~= if start == lo { s } else { s.drop_first() });
    if negative {
        if acc > 0x8000_0000 {
            None
        } else {
            Some((0 - (acc as i64)) as i32)
        }
    } else {
        if acc > 0x7fff_ffff {
            None
        } else {
            Some(acc as i32)
        }
    }
}

/// The pieces of `s` between occurrences of `sep` (`str::split`), left to
/// right; a string without `sep` is one piece, and the empty string is one
/// empty piece.
pub open spec fn split_on(s: Seq<char>, sep: char) -> Seq<Seq<char>>
    decreases s.len(),
{
    if s.len() == 0 {
        seq![Seq::empty()]
    } else {
        let pieces = split_on(s.drop_last(), sep);
        if s.last() == sep {
            pieces.push(Seq::empty())
        } else {
            pieces.update(pieces.len() - 1, pieces.last().push(s.last()))
        }
    }
}

/// There is always at least one piece.
pub proof fn lemma_split_nonempty(s: Seq<char>, sep: char)
    ensures
        split_on(s, sep).len() >= 1,
    decreases s.len(),
{
    if s.len() > 0 {
        lemma_split_nonempty(s.drop_last(), sep);
    }
}

/// Bounds, in `v`, of the pieces of `v` between occurrences of `sep`.
pub fn split_ranges(v: &Vec<char>, sep: char) -> (r: Vec<(usize, usize)>)
    ensures
        r.len() == split_on(v@, sep).len(),
        forall|k: int|
            0 <= k < r.len() ==> {
                &&& (#[trigger] r[k]).0 <= r[k].1 <= v.len()
                &&& v@.subrange(r[k].0 as int, r[k].1 as int) == split_on(v@, sep)[k]
            },
{
    let mut ranges: Vec<(usize, usize)> = Vec::new();
    let mut start: usize = 0;
    let mut i: usize = 0;
    while i < v.len()
        invariant
            start <= i <= v.len(),
            split_on(v@.take(i as int), sep).len() == ranges.len() + 1,
            split_on(v@.take(i as int), sep)[ranges.len() as int] == v@.subrange(start as int, i as int),
            forall|k: int|
                0 <= k < ranges.len() ==> {
                    &&& (#[trigger] ranges[k]).0 <= ranges[k].1 <= i
                    &&& v@.subrange(ranges[k].0 as int, ranges[k].1 as int) == split_on(v@.take(i as int), sep)[k]
                },
        decreases v.len() - i,
    {
        let ghost prefix = v@.take(i as int);
        assert(v@.take(i + 1).drop_last() =~= prefix);
        assert(v@.take(i + 1).last() == v@[i as int]);
        if v[i] == sep {
            ranges.push((start, i));
            start = i + 1;
            assert(v@.subrange(start as int, i + 1) =~= Seq::<char>::empty());
        } else {
            assert(v@.subrange(start as int, i + 1) =~= v@.subrange(start as int, i as int).push(v@[i as int]));
        }
        i = i + 1;
    }
    ranges.push((start, v.len()));
    assert(v@.take(v.len() as int) =~= v@);
    ranges
}

/// Position of the first `c` in `s`.
pub open spec fn find_char(s: Seq<char>, c: char) -> Option<int>
    decreases s.len(),
{
    if s.len() == 0 {
        None
    } else if s[0] == c {
        Some(0)
    } else {
        match find_char(s.drop_first(), c) {
            Some(i) => Some(i + 1),
            None => None,
        }
    }
}

/// `s` split at its first `c`, which is dropped (`str::split_once`).
pub open spec fn split_once(s: Seq<char>, c: char) -> Option<(Seq<char>, Seq<char>)> {
    match find_char(s, c) {
        Some(i) => Some((s.take(i), s.skip(i + 1))),
        None => None,
    }
}

/// Position of the first `c` in `v[lo..hi]`, counted from the start of `v`.
pub fn find_in(v: &Vec<char>, lo: usize, hi: usize, c: char) -> (r: Option<usize>)
    requires
        lo <= hi <= v.len(),
    ensures
        match r {
            Some(k) => lo <= k < hi && find_char(v@.subrange(lo as int, hi as int), c) == Some(k - lo),
            None => find_char(v@.subrange(lo as int, hi as int), c) is None,
        },
{
    let mut j = lo;
    while j < hi
        invariant
            lo <= j <= hi <= v.len(),
            match find_char(v@.subrange(j as int, hi as int), c) {
                Some(i) => find_char(v@.subrange(lo as int, hi as int), c) == Some(i + j - lo),
                None => find_char(v@.subrange(lo as int, hi as int), c) is None,
            },
        decreases hi - j,
    {
        assert(v@.subrange(j as int, hi as int).drop_first() =~= v@.subrange(j + 1, hi as int));
        if v[j] == c {
            assert(find_char(v@.subrange(j as int, hi as int), c) == Some(0int));
            return Some(j);
        }
        j = j + 1;
    }
    assert(find_char(v@.subrange(j as int, hi as int), c) is None);
    None
}

/// The ASCII digit of value `d`.
pub open spec fn digit_char(d: int) -> char {
    if d == 0 {
        '0'
    } else if d == 1 {
        '1'
    } else if d == 2 {
        '2'
    } else if d == 3 {
        '3'
    } else if d == 4 {
        '4'
    } else if d == 5 {
        '5'
    } else if d == 6 {
        '6'
    } else if d == 7 {
        '7'
    } else if d == 8 {
        '8'
    } else {
        '9'
    }
}

/// Decimal numeral of `n`, without leading zeros.
pub open spec fn decimal(n: nat) -> Seq<char>
    decreases n,
{
    if n < 10 {
        seq![digit_char(n as int)]
    } else {
        decimal(n / 10).push(digit_char(n as int % 10))
    }
}

/// Decimal numeral of `i`, with a leading `-` when negative (`Display` for
/// integers).
pub open spec fn int_text(i: int) -> Seq<char> {
    if i < 0 {
        seq!['-'] + decimal((-i) as nat)
    } else {
        decimal(i as nat)
    }
}

/// The ASCII digit of value `d`.
pub fn digit_to_char(d: u64) -> (c: char)
    requires
        d < 10,
    ensures
        c == digit_char(d as int),
{
    if d == 0 {
        '0'
    } else if d == 1 {
        '1'
    } else if d == 2 {
        '2'
    } else if d == 3 {
        '3'
    } else if d == 4 {
        '4'
    } else if d == 5 {
        '5'
    } else if d == 6 {
        '6'
    } else if d == 7 {
        '7'
    } else if d == 8 {
        '8'
    } else {
        '9'
    }
}

/// Appends the decimal numeral of `n` to `out`.
pub fn push_decimal(out: &mut String, n: u64)
    ensures
        final(out)@ == old(out)@ + decimal(n as nat),
    decreases n,
{
    if n >= 10 {
        push_decimal(out, n / 10);
        push_char(out, digit_to_char(n % 10));
        assert(final(out)@ =~= old(out)@ + decimal(n as nat));
    } else {
        push_char(out, digit_to_char(n));
        assert(final(out)@ =~= old(out)@ + decimal(n as nat));
    }
}

/// Appends the decimal text of `i` to `out`, as `Display` writes it.
pub fn push_int(out: &mut String, i: i32)
    ensures
        final(out)@ == old(out)@ + int_text(i as int),
{
    if i < 0 {
        push_char(out, '-');
        let magnitude: u64 = (0 - (i as i64)) as u64;
        push_decimal(out, magnitude);
        assert(final(out)@ =~= old(out)@ + int_text(i as int));
    } else {
        push_decimal(out, i as u64);
    }
}

/// Appends `s` to `out`.
pub fn push_str(out: &mut String, s: &str)
    ensures
        final(out)@ == old(out)@ + s@,
{
    out.append(s);
}


/// What `String::from_utf8_lossy` makes of `bytes`.
pub uninterp spec fn utf8_lossy(bytes: Seq<u8>) -> Seq<char>;

/// Decodes `bytes` as UTF-8, each invalid sequence replaced by U+FFFD
/// (`String::from_utf8_lossy`). Its documentation states that valid UTF-8
/// comes back unchanged, which is the one fact claimed beyond the name.
#[verifier::external_body]
pub(crate) fn lossy_text(bytes: &[u8]) -> (r: String)
    ensures
        r@ == utf8_lossy(bytes@),
        vstd::utf8::valid_utf8(bytes@) ==> r@ == vstd::utf8::decode_utf8(bytes@),
{
    String::from_utf8_lossy(bytes).into_owned()
}

/// The characters `v[lo..hi]`.
pub fn sub_chars(v: &Vec<char>, lo: usize, hi: usize) -> (r: Vec<char>)
    requires
        lo <= hi <= v.len(),
    ensures
        r@ == v@.subrange(lo as int, hi as int),
{
    let mut r: Vec<char> = Vec::new();
    let mut i = lo;
    while i < hi
        invariant
            lo <= i <= hi <= v.len(),
            r@ == v@.subrange(lo as int, i as int),
        decreases hi - i,
    {
        r.push(v[i]);
        i = i + 1;
        assert(r@ =~= v@.subrange(lo as int, i as int));
    }
    r
}


/// `s` does not contain `c`.
pub open spec fn lacks(s: Seq<char>, c: char) -> bool {
    forall|i: int| 0 <= i < s.len() ==> #[trigger] s[i] != c
}

/// The digit of value `d` is an ASCII digit of that value.
pub proof fn lemma_digit_char(d: int)
    requires
        0 <= d < 10,
    ensures
        is_digit(digit_char(d)),
        digit_value(digit_char(d)) == d,
{
}

/// A decimal numeral is a non-empty run of digits denoting its number.
pub proof fn lemma_decimal(n: nat)
    ensures
        decimal(n).len() >= 1,
        all_digits(decimal(n)),
        digits_value(decimal(n)) == n,
    decreases n,
{
    if n < 10 {
        lemma_digit_char(n as int);
        assert(decimal(n).drop_last() =~= Seq::<char>::empty());
        assert(decimal(n).last() == digit_char(n as int));
        assert(digits_value(decimal(n)) == digits_value(Seq::<char>::empty()) * 10 + digit_value(digit_char(n as int)));
    } else {
        lemma_decimal(n / 10);
        lemma_digit_char(n as int % 10);
        assert(decimal(n).drop_last() =~= decimal(n / 10));
        assert((n / 10) * 10 + n % 10 == n) by (nonlinear_arith);
        assert(decimal(n).last() == digit_char(n as int % 10));
        assert(digits_value(decimal(n)) == digits_value(decimal(n / 10)) * 10 + digit_value(digit_char(n as int % 10)));
    }
}

/// The text of an integer holds only digits and a leading minus sign.
pub proof fn lemma_int_text_chars(i: int)
    ensures
        int_text(i).len() >= 1,
        forall|k: int| 0 <= k < int_text(i).len() ==> is_digit(#[trigger] int_text(i)[k]) || int_text(i)[k] == '-',
        is_digit(int_text(i).last()),
{
    if i < 0 {
        lemma_decimal((-i) as nat);
        assert forall|k: int| 0 <= k < int_text(i).len() implies is_digit(#[trigger] int_text(i)[k])
            || int_text(i)[k] == '-' by {
            if k > 0 {
                assert(int_text(i)[k] == decimal((-i) as nat)[k - 1]);
            }
        }
    } else {
        lemma_decimal(i as nat);
    }
}

/// The text of an integer contains none of the field separators.
pub proof fn lemma_int_text_lacks(i: int, c: char)
    requires
        c == ',' || c == ' ' || c == 'x',
    ensures
        lacks(int_text(i), c),
{
    lemma_int_text_chars(i);
}

/// The text of an integer has no surrounding whitespace.
pub proof fn lemma_int_text_trimmed(i: int)
    ensures
        trim(int_text(i)) == int_text(i),
{
    lemma_int_text_chars(i);
    let s = int_text(i);
    assert(is_digit(s[0]) || s[0] == '-');
    assert(trim_start(s) == s);
    assert(trim_end(s) == s);
}

/// Parsing the text of an `i32` gives it back.
pub proof fn lemma_parse_int_text(i: i32)
    ensures
        parse_i32(int_text(i as int)) == Some(i),
{
    let s = int_text(i as int);
    if i < 0 {
        lemma_decimal((-i) as nat);
        assert(s.drop_first() =~= decimal((-i) as nat));
    } else {
        lemma_decimal(i as nat);
        assert(is_digit(s[0]));
    }
}

/// A string without the separator is a single piece.
pub proof fn lemma_split_lacking(s: Seq<char>, sep: char)
    requires
        lacks(s, sep),
    ensures
        split_on(s, sep) == seq![s],
    decreases s.len(),
{
    if s.len() > 0 {
        lemma_split_lacking(s.drop_last(), sep);
        assert(s[s.len() - 1] != sep);
        assert(s.drop_last().push(s.last()) =~= s);
        assert(split_on(s, sep) =~~= seq![s.drop_last()].update(0, s.drop_last().push(s.last())));
        assert(split_on(s, sep) =~~= seq![s]);
    } else {
        assert(split_on(s, sep) =~~= seq![s]);
    }
}

/// Splitting at a separator between `p` and `t` splits each side apart.
pub proof fn lemma_split_join(p: Seq<char>, sep: char, t: Seq<char>)
    ensures
        split_on(p + seq![sep] + t, sep) == split_on(p, sep) + split_on(t, sep),
    decreases t.len(),
{
    let whole = p + seq![sep] + t;
    lemma_split_nonempty(p, sep);
    if t.len() == 0 {
        assert(whole.drop_last() =~= p);
        assert(split_on(t, sep) =~= seq![Seq::<char>::empty()]);
        assert(split_on(whole, sep) =~= split_on(p, sep) + split_on(t, sep));
    } else {
        lemma_split_join(p, sep, t.drop_last());
        lemma_split_nonempty(t.drop_last(), sep);
        assert(whole.drop_last() =~= p + seq![sep] + t.drop_last());
        assert(whole.last() == t.last());
        assert(split_on(whole, sep) =~= split_on(p, sep) + split_on(t, sep));
    }
}

/// The first `c` of `a + [c] + b` is the one after `a` when `a` lacks `c`.
pub proof fn lemma_find_after(a: Seq<char>, c: char, b: Seq<char>)
    requires
        lacks(a, c),
    ensures
        find_char(a + seq![c] + b, c) == Some(a.len() as int),
    decreases a.len(),
{
    let s = a + seq![c] + b;
    if a.len() > 0 {
        lemma_find_after(a.drop_first(), c, b);
        assert(s.drop_first() =~= a.drop_first() + seq![c] + b);
    }
}


/// `s` with every `c` replaced by `with` (`str::replace` with a `char`
/// pattern).
pub open spec fn replace_char(s: Seq<char>, c: char, with: Seq<char>) -> Seq<char>
    decreases s.len(),
{
    if s.len() == 0 {
        Seq::empty()
    } else if s.last() == c {
        replace_char(s.drop_last(), c, with) + with
    } else {
        replace_char(s.drop_last(), c, with).push(s.last())
    }
}

/// Appends `s` to `out` with every `c` replaced by `with`.
pub fn push_replaced(out: &mut String, s: &str, c: char, with: &str)
    ensures
        final(out)@ == old(out)@ + replace_char(s@, c, with@),
{
    let v = chars_of(s);
    let ghost start = out@;
    let mut i: usize = 0;
    while i < v.len()
        invariant
            i <= v.len(),
            v@ == s@,
            out@ == start + replace_char(v@.take(i as int), c, with@),
        decreases v.len() - i,
    {
        assert(v@.take(i + 1).drop_last() =~= v@.take(i as int));
        assert(v@.take(i + 1).last() == v[i as int]);
        if v[i] == c {
            push_str(out, with);
            assert(out@ =~= start + replace_char(v@.take(i + 1), c, with@));
        } else {
            push_char(out, v[i]);
            assert(out@ =~= start + replace_char(v@.take(i + 1), c, with@));
        }
        i = i + 1;
    }
    assert(v@.take(v.len() as int) =~= v@);
}

} // verus!
