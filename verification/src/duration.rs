//! The textual encoding of the gateway's duration fields: strings of the
//! form `{hours}h{minutes}m{seconds}s`, where the seconds part may carry a
//! decimal fraction. Durations are held as whole seconds and nanoseconds;
//! fractional digits beyond nanosecond precision are ignored.

use vstd::prelude::*;
use vstd::string::{StringExecFns, StringSliceAdditionalSpecFns};

verus! {

/// A non-negative span of time: whole seconds, and nanoseconds below one
/// billion.
#[derive(Clone, Copy, Debug, PartialEq, Eq, Structural)]
pub struct Duration {
    pub secs: u64,
    pub nanos: u32,
}

impl Duration {
    /// Well-formedness: the nanosecond part never reaches a whole second.
    pub open spec fn wf(&self) -> bool {
        self.nanos < 1000000000
    }
}

/// Whether a byte is an ASCII decimal digit.
pub open spec fn is_digit(b: u8) -> bool {
    48 <= b <= 57
}

/// Whether every byte of the sequence is a decimal digit.
pub open spec fn all_digits(s: Seq<u8>) -> bool {
    forall|i: int| 0 <= i < s.len() ==> is_digit(s[i])
}

/// The numeric value of a digit sequence, most significant digit first.
pub open spec fn digits_val(s: Seq<u8>) -> int
    decreases s.len(),
{
    if s.len() == 0 {
        0
    } else {
        digits_val(s.drop_last()) * 10 + s.last() - 48
    }
}

/// Ten to the given power.
pub open spec fn pow10(n: int) -> int
    decreases n,
{
    if n <= 0 {
        1
    } else {
        10 * pow10(n - 1)
    }
}

/// Ten to any power is at least one.
pub proof fn lemma_pow10_pos(n: int)
    ensures
        pow10(n) >= 1,
    decreases (if n > 0 {
        n
    } else {
        0
    }),
{
    if n > 0 {
        lemma_pow10_pos(n - 1);
    }
}

/// Ten to a power grows with the power.
pub proof fn lemma_pow10_mono(a: int, b: int)
    requires
        a <= b,
    ensures
        pow10(a) <= pow10(b),
    decreases b - a,
{
    if a < b {
        lemma_pow10_mono(a, b - 1);
        if b > 0 {
            lemma_pow10_pos(b - 1);
        }
    }
}

/// The first index at or after `from` whose byte is not a decimal digit, or
/// the length if digits run to the end.
pub open spec fn digit_run_end(s: Seq<u8>, from: int) -> int
    decreases s.len() - from,
{
    if from < 0 || from >= s.len() {
        from
    } else if is_digit(s[from]) {
        digit_run_end(s, from + 1)
    } else {
        from
    }
}

pub proof fn lemma_digit_run_end_bounds(s: Seq<u8>, from: int)
    requires
        0 <= from <= s.len(),
    ensures
        from <= digit_run_end(s, from) <= s.len(),
        forall|j: int| from <= j < digit_run_end(s, from) ==> is_digit(s[j]),
        digit_run_end(s, from) < s.len() ==> !is_digit(s[digit_run_end(s, from)]),
    decreases s.len() - from,
{
    if from < s.len() && is_digit(s[from]) {
        lemma_digit_run_end_bounds(s, from + 1);
    }
}

/// The value of a digit sequence is non-negative.
pub proof fn lemma_digits_val_nonneg(s: Seq<u8>)
    requires
        all_digits(s),
    ensures
        digits_val(s) >= 0,
    decreases s.len(),
{
    if s.len() > 0 {
        assert(all_digits(s.drop_last()));
        lemma_digits_val_nonneg(s.drop_last());
    }
}

/// Extending a digit run can only increase its value.
pub proof fn lemma_digits_val_prefix_le(s: Seq<u8>, i: int)
    requires
        all_digits(s),
        0 <= i <= s.len(),
    ensures
        digits_val(s.subrange(0, i)) <= digits_val(s),
    decreases s.len() - i,
{
    if i == s.len() {
        assert(s.subrange(0, i) =~= s);
    } else {
        let shorter = s.subrange(0, i);
        let longer = s.subrange(0, i + 1);
        assert(longer.drop_last() =~= shorter);
        assert(all_digits(shorter));
        lemma_digits_val_nonneg(shorter);
        assert(digits_val(longer) == digits_val(shorter) * 10 + longer.last() - 48);
        lemma_digits_val_prefix_le(s, i + 1);
    }
}

/// The seconds part of a duration string: a run of digits, optionally broken
/// by a single decimal point, with at least one digit.
pub open spec fn seconds_ok(t: Seq<u8>) -> bool {
    let d = digit_run_end(t, 0);
    &&& t.len() >= 1
    &&& (d == t.len() || (t[d] == 46 && all_digits(t.subrange(d + 1, t.len() as int))))
    &&& !(t.len() == 1 && d == 0)
}

/// The whole seconds denoted by the seconds part.
pub open spec fn seconds_int_part(t: Seq<u8>) -> int {
    digits_val(t.subrange(0, digit_run_end(t, 0)))
}

/// The fractional digits of the seconds part, possibly empty.
pub open spec fn seconds_frac(t: Seq<u8>) -> Seq<u8> {
    let d = digit_run_end(t, 0);
    if d < t.len() {
        t.subrange(d + 1, t.len() as int)
    } else {
        Seq::empty()
    }
}

/// The fractional digits brought to exactly nanosecond width: truncated to
/// nine digits, then padded with trailing zeros.
pub open spec fn pad9(f: Seq<u8>) -> Seq<u8> {
    let f9 = if f.len() >= 9 {
        f.subrange(0, 9)
    } else {
        f
    };
    f9 + Seq::new((9 - f9.len()) as nat, |i: int| 48u8)
}

/// The nanoseconds denoted by the fractional digits.
pub open spec fn nanos_of_frac(f: Seq<u8>) -> int {
    digits_val(pad9(f))
}

/// The index where the hours digits end.
pub open spec fn h_end(s: Seq<u8>) -> int {
    digit_run_end(s, 0)
}

/// The index where the minutes digits end.
pub open spec fn m_end(s: Seq<u8>) -> int {
    digit_run_end(s, h_end(s) + 1)
}

/// A well-formed duration string: hours digits, `h`, minutes digits, `m`,
/// a seconds part, and a final `s`.
pub open spec fn well_formed(s: Seq<u8>) -> bool {
    let he = h_end(s);
    let me = m_end(s);
    &&& 0 < he
    &&& he < s.len() && s[he] == 104
    &&& he + 1 < me
    &&& me < s.len() && s[me] == 109
    &&& me + 2 <= s.len() - 1
    &&& s[s.len() - 1] == 115
    &&& seconds_ok(s.subrange(me + 1, s.len() - 1))
}

/// The seconds part of a well-formed duration string.
pub open spec fn seconds_region(s: Seq<u8>) -> Seq<u8> {
    s.subrange(m_end(s) + 1, s.len() - 1)
}

/// The total whole seconds a well-formed duration string denotes.
pub open spec fn spec_total_secs(s: Seq<u8>) -> int {
    digits_val(s.subrange(0, h_end(s))) * 3600 + digits_val(
        s.subrange(h_end(s) + 1, m_end(s)),
    ) * 60 + seconds_int_part(seconds_region(s))
}

/// The nanoseconds a well-formed duration string denotes.
pub open spec fn spec_subsec_nanos(s: Seq<u8>) -> int {
    nanos_of_frac(seconds_frac(seconds_region(s)))
}

/// The failure of reading a duration field's text.
#[derive(Clone, Copy, Debug, PartialEq, Eq, Structural)]
pub enum DurationParseError {
    /// The text does not have the `{hours}h{minutes}m{seconds}s` shape.
    UnrecognisedFormat,
    /// The text is well-formed but denotes more whole seconds than can be
    /// represented.
    OutOfRange,
}

fn scan_digits(s: &[u8], from: usize) -> (r: usize)
    requires
        from <= s@.len(),
    ensures
        r == digit_run_end(s@, from as int),
        from <= r <= s@.len(),
        forall|j: int| from <= j < r ==> is_digit(s@[j]),
        r < s@.len() ==> !is_digit(s@[r as int]),
{
    let n = s.len();
    let mut i = from;
    while i < n && 48 <= s[i] && s[i] <= 57
        invariant
            from <= i <= n,
            n == s@.len(),
            digit_run_end(s@, from as int) == digit_run_end(s@, i as int),
            forall|j: int| from <= j < i ==> is_digit(s@[j]),
        decreases n - i,
    {
        i = i + 1;
    }
    i
}

fn copy_range(s: &[u8], lo: usize, hi: usize) -> (r: Vec<u8>)
    requires
        lo <= hi <= s@.len(),
    ensures
        r@ == s@.subrange(lo as int, hi as int),
{
    let mut out: Vec<u8> = Vec::new();
    let mut j = lo;
    while j < hi
        invariant
            lo <= j <= hi <= s@.len(),
            out@ =~= s@.subrange(lo as int, j as int),
        decreases hi - j,
    {
        out.push(s[j]);
        j = j + 1;
        proof {
            assert(out@ =~= s@.subrange(lo as int, j as int));
        }
    }
    proof {
        assert(out@ =~= s@.subrange(lo as int, hi as int));
    }
    out
}

fn parse_u64_digits(digits: &[u8]) -> (r: Option<u64>)
    requires
        all_digits(digits@),
    ensures
        r matches Some(v) ==> v == digits_val(digits@),
        r is None ==> digits_val(digits@) > u64::MAX,
{
    let n = digits.len();
    let mut acc: u64 = 0;
    for i in 0..n
        invariant
            n == digits@.len(),
            all_digits(digits@),
            acc == digits_val(digits@.subrange(0, i as int)),
    {
        let d = digits[i] - 48;
        proof {
            assert(digits@.subrange(0, i as int + 1).drop_last() =~= digits@.subrange(0, i as int));
            assert(digits@.subrange(0, i as int + 1).last() == digits@[i as int]);
        }
        if acc > 1844674407370955161u64 || (acc == 1844674407370955161u64 && d > 5) {
            proof {
                assert(digits_val(digits@.subrange(0, i as int + 1)) > u64::MAX);
                lemma_digits_val_prefix_le(digits@, i as int + 1);
            }
            return None;
        }
        acc = acc * 10 + d as u64;
    }
    proof {
        assert(digits@.subrange(0, n as int) =~= digits@);
    }
    Some(acc)
}

enum SecondsParse {
    Value(u64, u32),
    TooBig,
    Bad,
}

fn parse_seconds(region: &[u8]) -> (r: SecondsParse)
    ensures
        match r {
            SecondsParse::Value(sec, ns) => seconds_ok(region@) && sec == seconds_int_part(
                region@,
            ) && ns == nanos_of_frac(seconds_frac(region@)) && ns < 1000000000,
            SecondsParse::TooBig => seconds_ok(region@) && seconds_int_part(region@) > u64::MAX,
            SecondsParse::Bad => !seconds_ok(region@),
        },
{
    let n = region.len();
    if n == 0 {
        return SecondsParse::Bad;
    }
    let d = scan_digits(region, 0);
    if d < n {
        if region[d] != 46 {
            return SecondsParse::Bad;
        }
        let q = scan_digits(region, d + 1);
        if q < n {
            proof {
                assert(region@.subrange(d as int + 1, n as int)[q as int - (d as int + 1)]
                    == region@[q as int]);
                assert(!all_digits(region@.subrange(d as int + 1, n as int)));
            }
            return SecondsParse::Bad;
        }
        proof {
            assert(all_digits(region@.subrange(d as int + 1, n as int)));
        }
    }
    if n == 1 && d == 0 {
        return SecondsParse::Bad;
    }
    proof {
        assert(seconds_ok(region@));
    }
    // whole seconds
    let int_digits = copy_range(region, 0, d);
    proof {
        assert(all_digits(int_digits@));
    }
    let sec = match parse_u64_digits(int_digits.as_slice()) {
        Some(v) => v,
        None => {
            return SecondsParse::TooBig;
        },
    };
    // nanoseconds from the padded fraction
    let frac_start = if d < n {
        d + 1
    } else {
        n
    };
    let frac_len = n - frac_start;
    proof {
        assert(seconds_frac(region@) =~= region@.subrange(frac_start as int, n as int));
    }
    let ghost padded = pad9(seconds_frac(region@));
    proof {
        assert(padded.len() == 9);
        assert(forall|k: int|
            0 <= k < 9 ==> padded[k] == (if k < frac_len && k < 9 {
                region@[frac_start + k]
            } else {
                48u8
            }));
    }
    let mut ns: u32 = 0;
    for k in 0..9usize
        invariant
            frac_start + frac_len == n,
            frac_start <= n,
            n == region@.len(),
            padded == pad9(seconds_frac(region@)),
            padded.len() == 9,
            forall|j: int|
                0 <= j < 9 ==> padded[j] == (if j < frac_len && j < 9 {
                    region@[frac_start + j]
                } else {
                    48u8
                }),
            all_digits(padded),
            ns == digits_val(padded.subrange(0, k as int)),
            ns < pow10(k as int),
        decreases 9 - k,
    {
        let b: u8 = if k < frac_len {
            region[frac_start + k]
        } else {
            48
        };
        proof {
            assert(b == padded[k as int]);
            assert(is_digit(b));
            assert(padded.subrange(0, k as int + 1).drop_last() =~= padded.subrange(0, k as int));
            assert(padded.subrange(0, k as int + 1).last() == padded[k as int]);
            assert(pow10(k as int + 1) == 10 * pow10(k as int));
            lemma_pow10_mono(k as int + 1, 9);
            assert(pow10(9) == 1000000000) by {
                reveal_with_fuel(pow10, 11);
            }
        }
        ns = ns * 10 + (b - 48) as u32;
    }
    proof {
        assert(padded.subrange(0, 9) =~= padded);
        assert(pow10(9) == 1000000000) by {
            reveal_with_fuel(pow10, 11);
        }
    }
    SecondsParse::Value(sec, ns)
}

/// The duration denoted by a duration field's text, exactly when the text is
/// well formed and the total seconds fit the representation; a malformed
/// text and an overlarge one are told apart.
pub fn deserialize(s: &str) -> (r: Result<Duration, DurationParseError>)
    ensures
        match r {
            Ok(d) => well_formed(s.spec_bytes()) && spec_total_secs(s.spec_bytes()) <= u64::MAX
                && d.secs == spec_total_secs(s.spec_bytes()) && d.nanos == spec_subsec_nanos(
                s.spec_bytes(),
            ) && d.wf(),
            Err(DurationParseError::UnrecognisedFormat) => !well_formed(s.spec_bytes()),
            Err(DurationParseError::OutOfRange) => well_formed(s.spec_bytes())
                && spec_total_secs(s.spec_bytes()) > u64::MAX,
        },
{
    parse_duration_bytes(s.as_bytes())
}

/// `deserialize`, over the raw bytes of the text.
pub fn parse_duration_bytes(s: &[u8]) -> (r: Result<Duration, DurationParseError>)
    ensures
        match r {
            Ok(d) => well_formed(s@) && spec_total_secs(s@) <= u64::MAX && d.secs
                == spec_total_secs(s@) && d.nanos == spec_subsec_nanos(s@) && d.wf(),
            Err(DurationParseError::UnrecognisedFormat) => !well_formed(s@),
            Err(DurationParseError::OutOfRange) => well_formed(s@) && spec_total_secs(s@)
                > u64::MAX,
        },
{
    let n = s.len();
    let he = scan_digits(s, 0);
    if he == 0 || he == n {
        return Err(DurationParseError::UnrecognisedFormat);
    }
    if s[he] != 104 {
        return Err(DurationParseError::UnrecognisedFormat);
    }
    let me = scan_digits(s, he + 1);
    if me == he + 1 || me == n {
        return Err(DurationParseError::UnrecognisedFormat);
    }
    if s[me] != 109 {
        return Err(DurationParseError::UnrecognisedFormat);
    }
    if n - 1 - me < 2 {
        return Err(DurationParseError::UnrecognisedFormat);
    }
    if s[n - 1] != 115 {
        return Err(DurationParseError::UnrecognisedFormat);
    }
    let region = copy_range(s, me + 1, n - 1);
    proof {
        assert(region@ == seconds_region(s@));
    }
    let (sec, ns) = match parse_seconds(region.as_slice()) {
        SecondsParse::Bad => {
            return Err(DurationParseError::UnrecognisedFormat);
        },
        SecondsParse::TooBig => {
            proof {
                assert(well_formed(s@));
                assert(all_digits(s@.subrange(0, he as int)));
                assert(all_digits(s@.subrange(he as int + 1, me as int)));
                lemma_digits_val_nonneg(s@.subrange(0, he as int));
                lemma_digits_val_nonneg(s@.subrange(he as int + 1, me as int));
            }
            return Err(DurationParseError::OutOfRange);
        },
        SecondsParse::Value(sec, ns) => (sec, ns),
    };
    proof {
        assert(well_formed(s@));
    }
    let hours_digits = copy_range(s, 0, he);
    let hours = match parse_u64_digits(hours_digits.as_slice()) {
        Some(v) => v,
        None => {
            proof {
                lemma_digits_val_nonneg(s@.subrange(he as int + 1, me as int));
                lemma_seconds_int_nonneg(region@);
            }
            return Err(DurationParseError::OutOfRange);
        },
    };
    let minutes_digits = copy_range(s, he + 1, me);
    let minutes = match parse_u64_digits(minutes_digits.as_slice()) {
        Some(v) => v,
        None => {
            proof {
                lemma_digits_val_nonneg(s@.subrange(0, he as int));
                lemma_seconds_int_nonneg(region@);
            }
            return Err(DurationParseError::OutOfRange);
        },
    };
    let total: u128 = (hours as u128) * 3600 + (minutes as u128) * 60 + (sec as u128);
    if total > u64::MAX as u128 {
        return Err(DurationParseError::OutOfRange);
    }
    Ok(Duration { secs: total as u64, nanos: ns })
}

/// The character of one decimal digit.
pub open spec fn digit_char(n: int) -> char {
    ((n + 48) as u8) as char
}

/// The decimal text of a non-negative number, most significant digit first
/// and without leading zeros.
pub open spec fn dec_str(n: int) -> Seq<char>
    decreases n,
{
    if n < 0 {
        Seq::empty()
    } else if n < 10 {
        seq![digit_char(n)]
    } else {
        dec_str(n / 10) + seq![digit_char(n % 10)]
    }
}

/// The decimal text of a non-negative number's lowest digits, padded with
/// leading zeros to a fixed width.
pub open spec fn padded_str(n: int, width: int) -> Seq<char>
    decreases width,
{
    if width <= 0 {
        Seq::empty()
    } else {
        padded_str(n / 10, width - 1) + seq![digit_char(n % 10)]
    }
}

/// The canonical text of a duration: whole hours, minutes and seconds, and
/// exactly nine fractional digits.
pub open spec fn spec_duration_text(d: Duration) -> Seq<char> {
    dec_str(d.secs as int / 3600) + "h"@ + dec_str((d.secs as int % 3600) / 60) + "m"@ + dec_str(
        (d.secs as int % 3600) % 60,
    ) + "."@ + padded_str(d.nanos as int, 9) + "s"@
}

fn push_digit(out: &mut String, d: u8)
    requires
        d < 10,
    ensures
        final(out)@ == old(out)@ + seq![digit_char(d as int)],
{
    proof {
        assert(crate::hash::hex_char_of(d) == digit_char(d as int));
    }
    crate::hash::push_hex_char(out, d);
}

fn append_dec(out: &mut String, n: u64)
    ensures
        final(out)@ == old(out)@ + dec_str(n as int),
    decreases n,
{
    if n < 10 {
        push_digit(out, n as u8);
    } else {
        append_dec(out, n / 10);
        push_digit(out, (n % 10) as u8);
        proof {
            assert((old(out)@ + dec_str(n as int / 10)) + seq![digit_char(n as int % 10)] =~= old(
                out,
            )@ + dec_str(n as int));
        }
    }
}

fn append_padded(out: &mut String, n: u64, width: u64)
    ensures
        final(out)@ == old(out)@ + padded_str(n as int, width as int),
    decreases width,
{
    if width == 0 {
        proof {
            assert(old(out)@ + padded_str(n as int, 0) =~= old(out)@);
        }
    } else {
        append_padded(out, n / 10, width - 1);
        push_digit(out, (n % 10) as u8);
        proof {
            assert((old(out)@ + padded_str(n as int / 10, width as int - 1)) + seq![
                digit_char(n as int % 10),
            ] =~= old(out)@ + padded_str(n as int, width as int));
        }
    }
}

/// The canonical text of a duration: `{hours}h{minutes}m{seconds}s`, the
/// seconds carried to exactly nine fractional digits.
pub fn serialize(duration: &Duration) -> (r: String)
    requires
        duration.wf(),
    ensures
        r@ == spec_duration_text(*duration),
{
    let mut out = String::new();
    let hours = duration.secs / 3600;
    let rem = duration.secs % 3600;
    let minutes = rem / 60;
    let sec = rem % 60;
    append_dec(&mut out, hours);
    out.append("h");
    append_dec(&mut out, minutes);
    out.append("m");
    append_dec(&mut out, sec);
    out.append(".");
    append_padded(&mut out, duration.nanos as u64, 9);
    out.append("s");
    proof {
        assert(out@ =~= spec_duration_text(*duration));
    }
    out
}

proof fn lemma_seconds_int_nonneg(t: Seq<u8>)
    requires
        seconds_ok(t),
    ensures
        seconds_int_part(t) >= 0,
{
    lemma_digit_run_end_bounds(t, 0);
    let d = digit_run_end(t, 0);
    assert(all_digits(t.subrange(0, d)));
    lemma_digits_val_nonneg(t.subrange(0, d));
}

} // verus!
