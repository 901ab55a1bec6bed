//! Parsing of sensor readings.
//!
//! The temperature source is a text file whose content is a decimal integer
//! in millidegrees Celsius, surrounded by optional whitespace (typically a
//! trailing newline). `parse_millidegrees` turns such text into the integer
//! reading, and rejects everything else: the control loop treats a rejected
//! reading as a fatal I/O error.

use vstd::prelude::*;

verus! {

use vstd::string::StrSliceExecFns;

/// The whitespace characters stripped from around a reading.
pub open spec fn is_ascii_space(c: char) -> bool {
    c == ' ' || c == '\t' || c == '\n' || c == '\r'
}

/// Decimal digit.
pub open spec fn is_digit(c: char) -> bool {
    48 <= c as int <= 57
}

/// Numeric value of a decimal digit.
pub open spec fn digit_val(c: char) -> int {
    c as int - 48
}

/// Every character of `s` is a decimal digit.
pub open spec fn all_digits(s: Seq<char>) -> bool {
    forall|k: int| 0 <= k < s.len() ==> is_digit(#[trigger] s[k])
}

/// Value of a string of decimal digits, most significant first.
pub open spec fn digits_val(s: Seq<char>) -> int
    decreases s.len(),
{
    if s.len() == 0 {
        0
    } else {
        10 * digits_val(s.drop_last()) + digit_val(s.last())
    }
}

/// `s` with leading whitespace removed.
pub open spec fn trim_front(s: Seq<char>) -> Seq<char>
    decreases s.len(),
{
    if s.len() > 0 && is_ascii_space(s[0]) {
        trim_front(s.subrange(1, s.len() as int))
    } else {
        s
    }
}

/// `s` with trailing whitespace removed.
pub open spec fn trim_back(s: Seq<char>) -> Seq<char>
    decreases s.len(),
{
    if s.len() > 0 && is_ascii_space(s.last()) {
        trim_back(s.drop_last())
    } else {
        s
    }
}

/// `s` with whitespace removed from both ends.
pub open spec fn spec_trim(s: Seq<char>) -> Seq<char> {
    trim_back(trim_front(s))
}

/// A well-formed reading after trimming: an optional sign followed by at
/// least one decimal digit.
pub open spec fn valid_reading(s: Seq<char>) -> bool {
    if s.len() == 0 {
        false
    } else if s[0] == '+' || s[0] == '-' {
        s.len() >= 2 && all_digits(s.subrange(1, s.len() as int))
    } else {
        all_digits(s)
    }
}

/// The signed value of a well-formed reading.
pub open spec fn reading_val(s: Seq<char>) -> int
    recommends
        valid_reading(s),
{
    if s.len() > 0 && s[0] == '-' {
        -digits_val(s.subrange(1, s.len() as int))
    } else if s.len() > 0 && s[0] == '+' {
        digits_val(s.subrange(1, s.len() as int))
    } else {
        digits_val(s)
    }
}

/// The magnitudes the parser accepts; a reading beyond them is rejected.
pub open spec fn fits_reading(v: int) -> bool {
    -0x7fff_ffff_ffff_ffff <= v <= 0x7fff_ffff_ffff_ffff
}

/// A digit string has a non-negative value.
pub proof fn lemma_digits_val_nonneg(s: Seq<char>)
    requires
        all_digits(s),
    ensures
        digits_val(s) >= 0,
    decreases s.len(),
{
    if s.len() > 0 {
        assert(all_digits(s.drop_last()));
        lemma_digits_val_nonneg(s.drop_last());
    }
}

/// Extending a digit string never shrinks its value.
proof fn lemma_digits_val_prefix_le(s: Seq<char>, m: int)
    requires
        all_digits(s),
        0 <= m <= s.len(),
    ensures
        digits_val(s.subrange(0, m)) <= digits_val(s),
    decreases s.len() - m,
{
    if m < s.len() {
        let p = s.subrange(0, m);
        let q = s.subrange(0, m + 1);
        assert(q.drop_last() =~= p);
        assert(all_digits(p));
        lemma_digits_val_nonneg(p);
        assert(digits_val(q) == 10 * digits_val(p) + digit_val(q.last()));
        lemma_digits_val_prefix_le(s, m + 1);
    } else {
        assert(s.subrange(0, m) =~= s);
    }
}

/// If the first `lo` characters are whitespace and the one after them (if
/// any) is not, trimming the front removes exactly those `lo` characters.
proof fn lemma_trim_front_at(s: Seq<char>, lo: int)
    requires
        0 <= lo <= s.len(),
        forall|j: int| 0 <= j < lo ==> is_ascii_space(#[trigger] s[j]),
        lo == s.len() || !is_ascii_space(s[lo]),
    ensures
        trim_front(s) =~= s.subrange(lo, s.len() as int),
    decreases lo,
{
    if lo == 0 {
        if s.len() > 0 && is_ascii_space(s[0]) {
            assert(false);
        }
        assert(trim_front(s) == s);
    } else {
        let rest = s.subrange(1, s.len() as int);
        lemma_trim_front_at(rest, lo - 1);
        assert(rest.subrange(lo - 1, rest.len() as int) =~= s.subrange(lo, s.len() as int));
    }
}

/// If the characters from `hi` on are whitespace and the one before `hi`
/// (if any) is not, trimming the back removes exactly those characters.
proof fn lemma_trim_back_at(s: Seq<char>, hi: int)
    requires
        0 <= hi <= s.len(),
        forall|j: int| hi <= j < s.len() ==> is_ascii_space(#[trigger] s[j]),
        hi == 0 || !is_ascii_space(s[hi - 1]),
    ensures
        trim_back(s) =~= s.subrange(0, hi),
    decreases s.len() - hi,
{
    if hi == s.len() {
        if s.len() > 0 && is_ascii_space(s.last()) {
            assert(false);
        }
        assert(trim_back(s) == s);
    } else {
        assert(is_ascii_space(s.last()));
        lemma_trim_back_at(s.drop_last(), hi);
    }
}

/// Parse a temperature reading: optional surrounding whitespace, an optional
/// sign, and at least one decimal digit. Returns the value in millidegrees
/// Celsius, or `None` for malformed text or a magnitude too large to hold.
#[verifier::loop_isolation(false)]
pub fn parse_millidegrees(s: &str) -> (r: Option<i64>)
    ensures
        r is Some <==> valid_reading(spec_trim(s@)) && fits_reading(reading_val(spec_trim(s@))),
        r matches Some(v) ==> v == reading_val(spec_trim(s@)),
{
    let n = s.unicode_len();

    let mut lo: usize = 0;
    while lo < n && is_space(s.get_char(lo))
        invariant
            0 <= lo <= n,
            n == s@.len(),
            forall|j: int| 0 <= j < lo ==> is_ascii_space(#[trigger] s@[j]),
        decreases n - lo,
    {
        lo = lo + 1;
    }

    let mut hi: usize = n;
    while hi > lo && is_space(s.get_char(hi - 1))
        invariant
            lo <= hi <= n,
            n == s@.len(),
            forall|j: int| 0 <= j < lo ==> is_ascii_space(#[trigger] s@[j]),
            forall|j: int| hi <= j < n ==> is_ascii_space(#[trigger] s@[j]),
        decreases hi,
    {
        hi = hi - 1;
    }

    let ghost t = spec_trim(s@);
    proof {
        lemma_trim_front_at(s@, lo as int);
        let front = s@.subrange(lo as int, n as int);
        lemma_trim_back_at(front, hi - lo);
        assert(front.subrange(0, hi - lo) =~= s@.subrange(lo as int, hi as int));
        assert(t =~= s@.subrange(lo as int, hi as int));
    }

    if lo == hi {
        // Nothing but whitespace.
        return None;
    }

    let first = s.get_char(lo);
    let negative = first == '-';
    let start: usize = if first == '-' || first == '+' {
        lo + 1
    } else {
        lo
    };

    if start == hi {
        // A sign with no digits after it.
        return None;
    }

    let ghost digits = s@.subrange(start as int, hi as int);
    proof {
        if start > lo {
            assert(digits =~= t.subrange(1, t.len() as int));
        } else {
            assert(digits =~= t);
        }
    }

    let mut acc: i64 = 0;
    let mut idx: usize = start;
    while idx < hi
        invariant
            start <= idx <= hi <= n,
            n == s@.len(),
            start < hi,
            digits == s@.subrange(start as int, hi as int),
            all_digits(s@.subrange(start as int, idx as int)),
            0 <= acc,
            acc == digits_val(s@.subrange(start as int, idx as int)),
        decreases hi - idx,
    {
        let c = s.get_char(idx);
        let u = c as u32;
        if u < 48 || u > 57 {
            // A non-digit where a digit must stand: the reading is malformed.
            proof {
                assert(c as int == u as int);
                assert(digits[idx - start] == s@[idx as int]);
                assert(!all_digits(digits));
                assert(t[0] == s@[lo as int]);
                if first == '-' || first == '+' {
                    assert(digits =~= t.subrange(1, t.len() as int));
                } else {
                    assert(digits =~= t);
                }
                assert(!valid_reading(t));
            }
            return None;
        }
        let d = (u - 48) as i64;
        let ghost prefix = s@.subrange(start as int, idx as int);
        let ghost extended = s@.subrange(start as int, idx + 1 as int);
        proof {
            assert(extended.drop_last() =~= prefix);
            assert(extended.last() == s@[idx as int]);
        }
        if acc > (9223372036854775807i64 - d) / 10 {
            // The magnitude no longer fits; with only digits left it can
            // only grow further, so the reading is rejected either way.
            proof {
                assert(10 * acc + d > 0x7fff_ffff_ffff_ffff) by (nonlinear_arith)
                    requires
                        acc > (9223372036854775807i64 - d) / 10,
                        0 <= d <= 9,
                        acc >= 0,
                ;
                assert(t[0] == s@[lo as int]);
                if first == '-' || first == '+' {
                    assert(digits =~= t.subrange(1, t.len() as int));
                } else {
                    assert(digits =~= t);
                }
                if all_digits(digits) {
                    lemma_digits_val_prefix_le(digits, idx + 1 - start as int);
                    assert(digits.subrange(0, idx + 1 - start as int) =~= extended);
                    assert(digits_val(digits) >= digits_val(extended));
                    assert(digits_val(extended) == 10 * acc + d);
                    assert(digits_val(digits) > 0x7fff_ffff_ffff_ffff);
                    if t[0] == '-' {
                        assert(reading_val(t) == -digits_val(digits));
                    } else if t[0] == '+' {
                        assert(reading_val(t) == digits_val(digits));
                    } else {
                        assert(reading_val(t) == digits_val(digits));
                    }
                    assert(!fits_reading(reading_val(t)));
                } else {
                    assert(!valid_reading(t));
                }
            }
            return None;
        }
        acc = acc * 10 + d;
        idx = idx + 1;
    }

    proof {
        assert(s@.subrange(start as int, idx as int) =~= digits);
    }

    if negative {
        Some(-acc)
    } else {
        Some(acc)
    }
}

/// Whitespace test used by the parser.
fn is_space(c: char) -> (b: bool)
    ensures
        b == is_ascii_space(c),
{
    c == ' ' || c == '\t' || c == '\n' || c == '\r'
}

} // verus!
