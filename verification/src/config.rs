//! Validation of configuration values.
//!
//! The binary's argument parser calls these validators on the raw text of
//! each flag before the controller starts: the log verbosity must be one of
//! a fixed set of severities, the hardware PWM channel one of the two the
//! board offers, and the initial duty cycle a decimal number in [0.0, 1.0].
//! Each returns an operator-facing message on rejection.
//! The duty-cycle check reads the decimal text directly — sign,
//! integer digits, fraction digits — so no floating-point value is ever
//! formed here.

use vstd::prelude::*;

verus! {

use vstd::string::StrSliceExecFns;

use crate::reading::{all_digits, digit_val, digits_val, is_digit, lemma_digits_val_nonneg};

/// The recognized log severities.
pub open spec fn is_level_name(s: Seq<char>) -> bool {
    ||| s == "TRACE"@
    ||| s == "DEBUG"@
    ||| s == "INFO"@
    ||| s == "WARN"@
    ||| s == "ERROR"@
    ||| s == "OFF"@
}

/// Character-wise string comparison.
fn str_eq(a: &str, b: &str) -> (r: bool)
    ensures
        r == (a@ == b@),
{
    let n = a.unicode_len();
    if n != b.unicode_len() {
        return false;
    }
    let mut i: usize = 0;
    while i < n
        invariant
            0 <= i <= n,
            n == a@.len(),
            n == b@.len(),
            forall|j: int| 0 <= j < i ==> a@[j] == b@[j],
        decreases n - i,
    {
        if a.get_char(i) != b.get_char(i) {
            return false;
        }
        i = i + 1;
    }
    proof {
        assert(a@ =~= b@);
    }
    true
}

/// Accepts exactly the recognized log severities.
pub fn is_log_level(val: &str) -> (r: Result<(), String>)
    ensures
        r is Ok <==> is_level_name(val@),
        r matches Err(m) ==> m@
            == "Unknown log level.\nShould be one of: TRACE, DEBUG, INFO, WARN, ERROR, OFF"@,
{
    if str_eq(val, "TRACE") || str_eq(val, "DEBUG") || str_eq(val, "INFO") || str_eq(val, "WARN")
        || str_eq(val, "ERROR") || str_eq(val, "OFF") {
        Ok(())
    } else {
        Err("Unknown log level.\nShould be one of: TRACE, DEBUG, INFO, WARN, ERROR, OFF".to_owned())
    }
}

/// The board offers two hardware PWM channels.
pub open spec fn is_channel_name(s: Seq<char>) -> bool {
    s == "0"@ || s == "1"@
}

/// Accepts exactly the two hardware PWM channel selectors.
pub fn hardware_pwm_channel(val: &str) -> (r: Result<(), String>)
    ensures
        r is Ok <==> is_channel_name(val@),
        r matches Err(m) ==> m@ == "Value has to be either 0 or 1"@,
{
    if str_eq(val, "0") || str_eq(val, "1") {
        Ok(())
    } else {
        Err("Value has to be either 0 or 1".to_owned())
    }
}

/// An optional leading sign.
pub open spec fn has_sign(s: Seq<char>) -> bool {
    s.len() > 0 && (s[0] == '+' || s[0] == '-')
}

/// The digits-and-dot part of a decimal literal, after the optional sign.
pub open spec fn duty_body(s: Seq<char>) -> Seq<char> {
    if has_sign(s) {
        s.subrange(1, s.len() as int)
    } else {
        s
    }
}

/// A well-formed unsigned decimal literal: either all digits, or digits with
/// a single point among them, with at least one digit in all.
pub open spec fn decimal_body_ok(b: Seq<char>) -> bool {
    ||| (b.len() > 0 && all_digits(b))
    ||| (exists|p: int|
        0 <= p < b.len() && #[trigger] b[p] == '.' && b.len() >= 2 && all_digits(
            b.subrange(0, p),
        ) && all_digits(b.subrange(p + 1, b.len() as int)))
}

/// A well-formed decimal duty-cycle literal: an optional sign, then a
/// well-formed unsigned decimal.
pub open spec fn duty_grammar(s: Seq<char>) -> bool {
    decimal_body_ok(duty_body(s))
}

/// The digits before the first point, and the digits after it.
pub open spec fn split_at_dot(b: Seq<char>) -> (Seq<char>, Seq<char>)
    decreases b.len(),
{
    if b.len() == 0 {
        (Seq::<char>::empty(), Seq::<char>::empty())
    } else if b[0] == '.' {
        (Seq::<char>::empty(), b.subrange(1, b.len() as int))
    } else {
        let rest = split_at_dot(b.subrange(1, b.len() as int));
        (seq![b[0]] + rest.0, rest.1)
    }
}

/// Every character is the digit zero.
pub open spec fn all_zero_chars(s: Seq<char>) -> bool {
    forall|k: int| 0 <= k < s.len() ==> #[trigger] s[k] == '0'
}

/// The literal denotes a value strictly below zero: a minus sign in front
/// of digits that are not all zero.
pub open spec fn duty_below_zero(s: Seq<char>) -> bool {
    let (ip, fp) = split_at_dot(duty_body(s));
    s.len() > 0 && s[0] == '-' && !(digits_val(ip) == 0 && all_zero_chars(fp))
}

/// The unsigned part of the literal denotes a value strictly above one.
pub open spec fn duty_above_one(s: Seq<char>) -> bool {
    let (ip, fp) = split_at_dot(duty_body(s));
    digits_val(ip) >= 2 || (digits_val(ip) == 1 && !all_zero_chars(fp))
}

/// A digit string whose value is zero is all zeros, and conversely.
proof fn lemma_digits_val_zero_iff(s: Seq<char>)
    requires
        all_digits(s),
    ensures
        digits_val(s) == 0 <==> all_zero_chars(s),
    decreases s.len(),
{
    if s.len() > 0 {
        assert(all_digits(s.drop_last()));
        lemma_digits_val_zero_iff(s.drop_last());
        lemma_digits_val_nonneg(s.drop_last());
        if all_zero_chars(s.drop_last()) && s.last() == '0' {
            assert forall|k: int| 0 <= k < s.len() implies #[trigger] s[k] == '0' by {
                if k < s.len() - 1 {
                    assert(s.drop_last()[k] == '0');
                }
            }
        }
        if all_zero_chars(s) {
            assert forall|k: int| 0 <= k < s.drop_last().len() implies #[trigger] s.drop_last()[k]
                == '0' by {
                assert(s[k] == '0');
            }
        }
    }
}

/// A leading zero does not change the value of a digit string.
proof fn lemma_digits_val_strip_zero(s: Seq<char>)
    requires
        s.len() > 0,
        s[0] == '0',
    ensures
        digits_val(s) == digits_val(s.subrange(1, s.len() as int)),
    decreases s.len(),
{
    if s.len() == 1 {
        assert(s.drop_last() =~= Seq::<char>::empty());
        assert(s.subrange(1, s.len() as int) =~= Seq::<char>::empty());
    } else {
        lemma_digits_val_strip_zero(s.drop_last());
        assert(s.drop_last().subrange(1, s.drop_last().len() as int) =~= s.subrange(
            1,
            s.len() as int,
        ).drop_last());
        assert(s.subrange(1, s.len() as int).last() == s.last());
    }
}

/// Leading zeros do not change the value of a digit string.
proof fn lemma_digits_val_strip_zeros(s: Seq<char>, k: int)
    requires
        0 <= k <= s.len(),
        forall|j: int| 0 <= j < k ==> #[trigger] s[j] == '0',
    ensures
        digits_val(s) == digits_val(s.subrange(k, s.len() as int)),
    decreases k,
{
    if k == 0 {
        assert(s.subrange(0, s.len() as int) =~= s);
    } else {
        lemma_digits_val_strip_zero(s);
        let rest = s.subrange(1, s.len() as int);
        lemma_digits_val_strip_zeros(rest, k - 1);
        assert(rest.subrange(k - 1, rest.len() as int) =~= s.subrange(k, s.len() as int));
    }
}

/// A digit string of two or more digits that does not start with zero is
/// worth at least ten.
proof fn lemma_digits_val_ge_ten(s: Seq<char>)
    requires
        all_digits(s),
        s.len() >= 2,
        s[0] != '0',
    ensures
        digits_val(s) >= 10,
    decreases s.len(),
{
    assert(all_digits(s.drop_last()));
    if s.len() == 2 {
        assert(s.drop_last().len() == 1);
        assert(s.drop_last().last() == s[0]);
        assert(s.drop_last().drop_last() =~= Seq::<char>::empty());
        assert(digits_val(s.drop_last()) == 10 * digits_val(s.drop_last().drop_last()) + digit_val(
            s[0],
        ));
        assert(digits_val(s.drop_last()) == digit_val(s[0]));
    } else {
        lemma_digits_val_ge_ten(s.drop_last());
    }
}

/// If the first point of `b` stands at `p` and everything else up to the end
/// is whatever it is, splitting at the point yields exactly the two sides.
proof fn lemma_split_at_dot_at(b: Seq<char>, p: int)
    requires
        0 <= p <= b.len(),
        forall|j: int| 0 <= j < p ==> #[trigger] b[j] != '.',
        p == b.len() || b[p] == '.',
    ensures
        split_at_dot(b).0 =~= b.subrange(0, p),
        split_at_dot(b).1 =~= (if p < b.len() {
            b.subrange(p + 1, b.len() as int)
        } else {
            Seq::<char>::empty()
        }),
    decreases b.len(),
{
    if b.len() == 0 {
    } else if b[0] == '.' {
        assert(p == 0);
    } else {
        let rest = b.subrange(1, b.len() as int);
        lemma_split_at_dot_at(rest, p - 1);
        assert(rest.subrange(0, p - 1) =~= b.subrange(1, p));
        assert(split_at_dot(b).0 =~= seq![b[0]] + b.subrange(1, p));
        if p < b.len() {
            assert(rest.subrange(p - 1 + 1, rest.len() as int) =~= b.subrange(
                p + 1,
                b.len() as int,
            ));
        }
    }
}

/// Accepts a decimal duty-cycle literal whose value lies in [0.0, 1.0]:
/// an optional sign, digits, and at most one decimal point, denoting no
/// less than zero and no more than one.
#[verifier::loop_isolation(false)]
#[verifier::rlimit(60)]
pub fn duty_cycle_range(val: &str) -> (r: Result<(), String>)
    ensures
        r is Ok <==> duty_grammar(val@) && !duty_below_zero(val@) && !duty_above_one(val@),
        r matches Err(m) ==> (!duty_grammar(val@) ==> m@ == "Unable to parse duty cycle"@),
        r matches Err(m) ==> (duty_grammar(val@) && duty_below_zero(val@) ==> m@
            == "Value can't be below 0.0"@),
        r matches Err(m) ==> (duty_grammar(val@) && !duty_below_zero(val@) && duty_above_one(val@)
            ==> m@ == "Value can't be above 1.0"@),
{
    let n = val.unicode_len();
    let first_is_sign = n > 0 && (val.get_char(0) == '+' || val.get_char(0) == '-');
    let start: usize = if first_is_sign {
        1
    } else {
        0
    };
    let ghost b = duty_body(val@);
    proof {
        if first_is_sign {
            assert(b =~= val@.subrange(1, n as int));
        } else {
            assert(b =~= val@);
        }
    }

    if start == n {
        // No digits at all.
        return Err("Unable to parse duty cycle".to_owned());
    }

    // Scan the digits before a possible decimal point.
    let mut p: usize = start;
    while p < n && is_digit_char(val.get_char(p))
        invariant
            start <= p <= n,
            forall|j: int| start <= j < p ==> is_digit(#[trigger] val@[j]),
        decreases n - p,
    {
        p = p + 1;
    }

    let dot: usize;
    if p < n {
        if val.get_char(p) != '.' {
            // A character that is neither digit nor point.
            proof {
                lemma_no_grammar_with_bad_char(b, p - start as int);
            }
            return Err("Unable to parse duty cycle".to_owned());
        }
        // Scan the digits after the point.
        let mut q: usize = p + 1;
        while q < n && is_digit_char(val.get_char(q))
            invariant
                p + 1 <= q <= n,
                forall|j: int| p + 1 <= j < q ==> is_digit(#[trigger] val@[j]),
            decreases n - q,
        {
            q = q + 1;
        }
        if q < n {
            // A second point, or another bad character, after the first point.
            proof {
                lemma_no_grammar_second_bad(b, p - start as int, q - start as int);
            }
            return Err("Unable to parse duty cycle".to_owned());
        }
        if n == start + 1 {
            // The body is a lone point with no digit.
            return Err("Unable to parse duty cycle".to_owned());
        }
        dot = p;
    } else {
        dot = n;
    }

    // The grammar holds; name the two digit strings.
    let ghost ip = val@.subrange(start as int, dot as int);
    let ghost fp = (if dot < n {
        val@.subrange(dot + 1 as int, n as int)
    } else {
        Seq::<char>::empty()
    });
    proof {
        lemma_split_at_dot_at(b, dot - start as int);
        assert(b.subrange(0, dot - start as int) =~= ip);
        if dot < n {
            assert(b.subrange(dot - start + 1 as int, b.len() as int) =~= fp);
        }
        assert(split_at_dot(b).0 == ip);
        assert(split_at_dot(b).1 == fp);
        if dot == n {
            assert(b =~= ip);
            assert(duty_grammar(val@));
        } else {
            assert(b[dot - start as int] == '.');
            assert(all_digits(b.subrange(0, dot - start as int)));
            assert(all_digits(b.subrange(dot - start + 1 as int, b.len() as int)));
            assert(b.len() >= 2);
            assert(duty_grammar(val@));
        }
    }

    // Strip the leading zeros of the integer part.
    let mut k: usize = start;
    while k < dot && val.get_char(k) == '0'
        invariant
            start <= k <= dot,
            forall|j: int| start <= j < k ==> #[trigger] val@[j] == '0',
        decreases dot - k,
    {
        k = k + 1;
    }
    let ghost sig = ip.subrange(k - start as int, ip.len() as int);
    proof {
        lemma_digits_val_strip_zeros(ip, k - start as int);
        lemma_digits_val_nonneg(sig);
        assert(all_digits(sig));
    }

    // Is every fraction digit zero?
    let mut frac_all_zero = true;
    let mut j: usize = if dot < n {
        dot + 1
    } else {
        n
    };
    let ghost j0 = j as int;
    while j < n
        invariant
            j0 <= j <= n,
            frac_all_zero <==> (forall|x: int| j0 <= x < j ==> #[trigger] val@[x] == '0'),
        decreases n - j,
    {
        if val.get_char(j) != '0' {
            frac_all_zero = false;
        }
        j = j + 1;
    }
    proof {
        if dot < n {
            if frac_all_zero {
                assert forall|x: int| 0 <= x < fp.len() implies #[trigger] fp[x] == '0' by {
                    assert(val@[j0 + x] == '0');
                }
                assert(all_zero_chars(fp));
            } else if all_zero_chars(fp) {
                assert forall|x: int| j0 <= x < n implies #[trigger] val@[x] == '0' by {
                    assert(fp[x - j0] == '0');
                }
                assert(false);
            }
        } else {
            assert(frac_all_zero);
            assert(all_zero_chars(fp));
        }
        assert(frac_all_zero <==> all_zero_chars(fp));
    }

    // Zero exactly when the integer part has no significant digit and the
    // fraction is all zeros.
    let int_is_zero = k == dot;
    proof {
        if int_is_zero {
            assert(sig =~= Seq::<char>::empty());
        } else {
            assert(sig[0] == val@[k as int]);
            assert(is_digit(sig[0]) && sig[0] != '0');
            lemma_digits_val_zero_iff(sig);
        }
    }

    if first_is_sign && val.get_char(0) == '-' && !(int_is_zero && frac_all_zero) {
        return Err("Value can't be below 0.0".to_owned());
    }

    // Strictly above one exactly when the significant integer digits are
    // worth two or more, or worth one with a non-zero fraction digit.
    let above: bool;
    if dot - k >= 2 {
        proof {
            lemma_digits_val_ge_ten(sig);
        }
        above = true;
    } else if dot - k == 1 {
        let d = val.get_char(k) as u32;
        proof {
            assert(sig.len() == 1);
            assert(sig.last() == val@[k as int]);
            assert(sig.drop_last() =~= Seq::<char>::empty());
            assert(digits_val(sig) == 10 * digits_val(sig.drop_last()) + digit_val(sig.last()));
            assert(digits_val(sig) == digit_val(val@[k as int]));
        }
        if d >= 50 {
            above = true;
        } else {
            // The single significant digit is 1.
            above = !frac_all_zero;
        }
    } else {
        above = false;
    }

    if above {
        return Err("Value can't be above 1.0".to_owned());
    }
    Ok(())
}

/// Digit test used by the validator.
fn is_digit_char(c: char) -> (b: bool)
    ensures
        b == is_digit(c),
{
    let u = c as u32;
    48 <= u && u <= 57
}

/// If some character of `b` is neither a digit nor a point, `b` is not a
/// well-formed unsigned decimal.
proof fn lemma_no_grammar_with_bad_char(b: Seq<char>, i: int)
    requires
        0 <= i < b.len(),
        !is_digit(b[i]),
        b[i] != '.',
    ensures
        !decimal_body_ok(b),
{
    assert forall|p: int|
        0 <= p < b.len() && #[trigger] b[p] == '.' implies !(all_digits(b.subrange(0, p))
        && all_digits(b.subrange(p + 1, b.len() as int))) by {
        if p < i {
            assert(b.subrange(p + 1, b.len() as int)[i - p - 1] == b[i]);
        } else {
            assert(p > i);
            assert(b.subrange(0, p)[i] == b[i]);
        }
    }
}

/// If a point stands at `i` and a non-digit stands later at `j`, `b` is not
/// a well-formed unsigned decimal.
proof fn lemma_no_grammar_second_bad(b: Seq<char>, i: int, j: int)
    requires
        0 <= i < j < b.len(),
        b[i] == '.',
        !is_digit(b[j]),
    ensures
        !decimal_body_ok(b),
{
    assert(!all_digits(b));
    assert forall|p: int|
        0 <= p < b.len() && #[trigger] b[p] == '.' implies !(all_digits(b.subrange(0, p))
        && all_digits(b.subrange(p + 1, b.len() as int))) by {
        if p == i {
            assert(b.subrange(p + 1, b.len() as int)[j - p - 1] == b[j]);
        } else if p < i {
            if j > p {
                assert(b.subrange(p + 1, b.len() as int)[j - p - 1] == b[j]);
            }
        } else {
            assert(b.subrange(0, p)[i] == b[i]);
            assert(!is_digit(b[i]));
        }
    }
}

} // verus!
