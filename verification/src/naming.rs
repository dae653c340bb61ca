//! Names of the files the daemon writes: Desktop output named by local
//! time, `YYMMDD_HHMMSS.<ext>`, and per-process temporary files. The caller
//! reads the clock and the time zone and hands over the fields.
use vstd::prelude::*;
use crate::text::{
    decimal, digit_char, digit_to_char, digit_value, is_digit, lemma_digit_char, push_char, push_decimal, push_str,
};

verus! {

/// A local date and time, each field as `%y%m%d_%H%M%S` prints it: the year
/// modulo 100, month, day, hour, minute and second.
#[derive(Debug, Clone, Copy, PartialEq, Eq, Structural)]
pub struct StampTime {
    pub year_mod_100: u32,
    pub month: u32,
    pub day: u32,
    pub hour: u32,
    pub minute: u32,
    pub second: u32,
}

impl StampTime {
    /// Every field fits in two digits.
    pub open spec fn wf(&self) -> bool {
        &&& self.year_mod_100 < 100
        &&& self.month < 100
        &&& self.day < 100
        &&& self.hour < 100
        &&& self.minute < 100
        &&& self.second < 100
    }
}

/// `v` as two digits, zero-padded.
pub open spec fn two_digits(v: int) -> Seq<char> {
    seq![digit_char(v / 10), digit_char(v % 10)]
}

/// `YYMMDD_HHMMSS` for `t`: each field as two zero-padded digits, an
/// underscore between date and time.
pub open spec fn stamp(t: StampTime) -> Seq<char> {
    two_digits(t.year_mod_100 as int) + two_digits(t.month as int) + two_digits(t.day as int) + seq!['_']
        + two_digits(t.hour as int) + two_digits(t.minute as int) + two_digits(t.second as int)
}

proof fn lemma_two_digits(v: int)
    requires
        0 <= v < 100,
    ensures
        reads_as(two_digits(v), 0, v),
{
    lemma_digit_char(v / 10);
    lemma_digit_char(v % 10);
}

fn push_two_digits(out: &mut String, v: u32)
    requires
        v < 100,
    ensures
        final(out)@ == old(out)@ + two_digits(v as int),
{
    push_char(out, digit_to_char((v / 10) as u64));
    push_char(out, digit_to_char((v % 10) as u64));
    assert(final(out)@ =~= old(out)@ + two_digits(v as int));
}

/// The two characters at `i` of `s` are ASCII digits that read as `v`.
pub open spec fn reads_as(s: Seq<char>, i: int, v: int) -> bool {
    &&& is_digit(s[i])
    &&& is_digit(s[i + 1])
    &&& digit_value(s[i]) * 10 + digit_value(s[i + 1]) == v
}

/// Writes `t` as `YYMMDD_HHMMSS`.
pub fn stamp_text(t: &StampTime) -> (r: String)
    requires
        t.wf(),
    ensures
        r@ == stamp(*t),
        // Reading the digits back gives the fields, in order.
        r@.len() == 13,
        r@[6] == '_',
        reads_as(r@, 0, t.year_mod_100 as int),
        reads_as(r@, 2, t.month as int),
        reads_as(r@, 4, t.day as int),
        reads_as(r@, 7, t.hour as int),
        reads_as(r@, 9, t.minute as int),
        reads_as(r@, 11, t.second as int),
{
    proof {
        lemma_two_digits(t.year_mod_100 as int);
        lemma_two_digits(t.month as int);
        lemma_two_digits(t.day as int);
        lemma_two_digits(t.hour as int);
        lemma_two_digits(t.minute as int);
        lemma_two_digits(t.second as int);
    }
    let mut s = String::new();
    push_two_digits(&mut s, t.year_mod_100);
    push_two_digits(&mut s, t.month);
    push_two_digits(&mut s, t.day);
    push_char(&mut s, '_');
    push_two_digits(&mut s, t.hour);
    push_two_digits(&mut s, t.minute);
    push_two_digits(&mut s, t.second);
    assert(s@ =~= stamp(*t));
    s
}

/// The name of a new Desktop output file taken at local time `t`:
/// `YYMMDD_HHMMSS.<ext>`.
pub fn output_file_name(t: &StampTime, ext: &str) -> (r: String)
    requires
        t.wf(),
    ensures
        r@ == stamp(*t) + seq!['.'] + ext@,
{
    let mut name = stamp_text(t);
    push_char(&mut name, '.');
    push_str(&mut name, ext);
    name
}

/// The name of a temporary file: `asnap_<tag>_<pid>.<ext>`.
pub fn tmp_file_name(tag: &str, pid: u32, ext: &str) -> (r: String)
    ensures
        r@ == "asnap_"@ + tag@ + seq!['_'] + decimal(pid as nat) + seq!['.'] + ext@,
{
    let mut name = String::new();
    push_str(&mut name, "asnap_");
    push_str(&mut name, tag);
    push_char(&mut name, '_');
    push_decimal(&mut name, pid as u64);
    push_char(&mut name, '.');
    push_str(&mut name, ext);
    assert(name@ =~= "asnap_"@ + tag@ + seq!['_'] + decimal(pid as nat) + seq!['.'] + ext@);
    name
}

/// The tag of the temporary file for frame number `index`: `frame<index>`.
pub fn frame_tag(index: usize) -> (r: String)
    ensures
        r@ == "frame"@ + decimal(index as nat),
{
    let mut tag = String::new();
    push_str(&mut tag, "frame");
    push_decimal(&mut tag, index as u64);
    tag
}

} // verus!
