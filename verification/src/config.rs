//! Configuration arguments.
//!
//! Arguments arrive as `key=value` strings.  Numbers are parsed here with
//! exact contracts: grid dimensions and the iteration bound as decimal
//! integers, plane coordinates and the scale as decimal fractions read
//! into the fixed-point encoding (millionths, truncated toward zero).  A
//! value that does not parse, or parses outside its documented range,
//! leaves the viewport field unchanged — configuration errors fall back
//! silently, they are never fatal.

use vstd::prelude::*;

use crate::text::str_eq;
use crate::viewport::CENTER_LIMIT;
use crate::viewport::ITER_MAX;
use crate::viewport::ITER_MIN;
use crate::viewport::MAX_DIM;
use crate::viewport::MIN_DIM;
use crate::viewport::SCALE_MAX;
use crate::viewport::SCALE_MIN;
use crate::viewport::Viewport;

verus! {

/// Whether a character is a decimal digit.
pub open spec fn is_digit(c: char) -> bool {
    48 <= c as int <= 57
}

/// The numeric value of a decimal digit.
pub open spec fn digit_val(c: char) -> int {
    c as int - 48
}

/// Whether every character of the string is a decimal digit.
pub open spec fn all_digits(s: Seq<char>) -> bool {
    forall|i: int| 0 <= i < s.len() ==> is_digit(#[trigger] s[i])
}

/// The number a digit string denotes, most significant digit first.
pub open spec fn digits_val(s: Seq<char>) -> int
    decreases s.len(),
{
    if s.len() == 0 {
        0
    } else {
        10 * digits_val(s.drop_last()) + digit_val(s.last())
    }
}

/// A digit string denotes a non-negative number.
pub proof fn lemma_digits_val_nonneg(s: Seq<char>)
    requires
        all_digits(s),
    ensures
        digits_val(s) >= 0,
    decreases s.len(),
{
    if s.len() > 0 {
        assert(all_digits(s.drop_last())) by {
            assert(forall|i: int| 0 <= i < s.len() - 1 ==> s.drop_last()[i] == #[trigger] s[i]);
        }
        lemma_digits_val_nonneg(s.drop_last());
    }
}

/// Extending a digit string to the right never shrinks its value.
pub proof fn lemma_digits_val_prefix_le(s: Seq<char>, j: int)
    requires
        all_digits(s),
        0 <= j <= s.len(),
    ensures
        digits_val(s.take(j)) <= digits_val(s),
    decreases s.len() - j,
{
    if j < s.len() {
        lemma_digits_val_prefix_le(s, j + 1);
        assert(s.take(j + 1).drop_last() =~= s.take(j));
        assert(all_digits(s.take(j))) by {
            assert(forall|i: int| 0 <= i < j ==> s.take(j)[i] == #[trigger] s[i]);
        }
        lemma_digits_val_nonneg(s.take(j));
        assert(digits_val(s.take(j + 1)) == 10 * digits_val(s.take(j)) + digit_val(s[j]));
    } else {
        assert(s.take(j) =~= s);
    }
}

/// Whether a digit string is a valid `usize`: non-empty, digits only, and
/// in range.
pub open spec fn usize_ok(s: Seq<char>) -> bool {
    s.len() >= 1 && all_digits(s) && digits_val(s) <= usize::MAX
}

/// Parses a decimal `usize`; `None` exactly on the empty string, a
/// non-digit character, or a value beyond `usize::MAX`.
pub fn parse_usize(s: &str) -> (r: Option<usize>)
    ensures
        r is Some <==> usize_ok(s@),
        r is Some ==> r->Some_0 == digits_val(s@),
{
    let len = s.unicode_len();
    if len == 0 {
        return None;
    }
    let mut acc: usize = 0;
    let mut i: usize = 0;
    while i < len
        invariant
            len == s@.len(),
            0 <= i <= len,
            forall|k: int| 0 <= k < i ==> is_digit(#[trigger] s@[k]),
            acc == digits_val(s@.take(i as int)),
        decreases len - i,
    {
        let c = s.get_char(i);
        let cv = c as u32;
        if cv < 48 || cv > 57 {
            assert(!is_digit(s@[i as int]));
            return None;
        }
        let d = (cv - 48) as usize;
        proof {
            assert(s@.take(i + 1).drop_last() =~= s@.take(i as int));
            assert(s@.take(i + 1).last() == s@[i as int]);
        }
        if acc > (usize::MAX - d) / 10 {
            proof {
                vstd::arithmetic::div_mod::lemma_fundamental_div_mod(
                    (usize::MAX - d) as int,
                    10,
                );
                vstd::arithmetic::div_mod::lemma_mod_division_less_than_divisor(
                    (usize::MAX - d) as int,
                    10,
                );
                assert(digits_val(s@.take(i + 1)) > usize::MAX);
                if all_digits(s@) {
                    lemma_digits_val_prefix_le(s@, i + 1);
                }
            }
            return None;
        }
        proof {
            vstd::arithmetic::div_mod::lemma_fundamental_div_mod((usize::MAX - d) as int, 10);
            vstd::arithmetic::div_mod::lemma_mod_division_less_than_divisor(
                (usize::MAX - d) as int,
                10,
            );
        }
        acc = acc * 10 + d;
        i = i + 1;
    }
    assert(s@.take(len as int) =~= s@);
    Some(acc)
}

/// Ten to the `n`th power.
pub open spec fn pow10(n: nat) -> int
    decreases n,
{
    if n == 0 {
        1
    } else {
        10 * pow10((n - 1) as nat)
    }
}

/// Powers of ten are positive.
pub proof fn lemma_pow10_pos(n: nat)
    ensures
        pow10(n) >= 1,
    decreases n,
{
    if n > 0 {
        lemma_pow10_pos((n - 1) as nat);
    }
}

/// Powers of ten grow with the exponent.
pub proof fn lemma_pow10_le(a: nat, b: nat)
    requires
        a <= b,
    ensures
        pow10(a) <= pow10(b),
    decreases b,
{
    if a < b {
        lemma_pow10_le(a, (b - 1) as nat);
        lemma_pow10_pos((b - 1) as nat);
    }
}

/// Powers of ten multiply by adding exponents.
pub proof fn lemma_pow10_adds(a: nat, b: nat)
    ensures
        pow10(a) * pow10(b) == pow10(a + b),
    decreases a,
{
    if a == 0 {
        assert(pow10(0) * pow10(b) == pow10(b));
    } else {
        lemma_pow10_adds((a - 1) as nat, b);
        assert((10 * pow10((a - 1) as nat)) * pow10(b) == 10 * (pow10((a - 1) as nat) * pow10(b)))
            by (nonlinear_arith);
    }
}

/// A digit string of length `n` denotes a value below ten to the `n`th.
pub proof fn lemma_digits_val_bound(s: Seq<char>)
    requires
        all_digits(s),
    ensures
        0 <= digits_val(s) < pow10(s.len()),
    decreases s.len(),
{
    if s.len() > 0 {
        assert(all_digits(s.drop_last())) by {
            assert(forall|i: int| 0 <= i < s.len() - 1 ==> s.drop_last()[i] == #[trigger] s[i]);
        }
        lemma_digits_val_bound(s.drop_last());
    }
}

/// The position of the first occurrence of `c` in `s` at or after `from`,
/// or the length of `s` if there is none.
pub open spec fn first_at(s: Seq<char>, c: char, from: int) -> int
    decreases s.len() - from,
{
    if from < 0 || from >= s.len() {
        s.len() as int
    } else if s[from] == c {
        from
    } else {
        first_at(s, c, from + 1)
    }
}

/// Finds the first occurrence of `c` in `s` at or after `from`, or returns
/// the length of `s`.
fn find_char(s: &str, from: usize, c: char) -> (p: usize)
    requires
        from <= s@.len(),
    ensures
        p == first_at(s@, c, from as int),
        from <= p <= s@.len(),
{
    let len = s.unicode_len();
    let mut i: usize = from;
    while i < len
        invariant
            from <= i <= len,
            len == s@.len(),
            first_at(s@, c, from as int) == first_at(s@, c, i as int),
        decreases len - i,
    {
        if s.get_char(i) == c {
            return i;
        }
        i = i + 1;
    }
    i
}

/// Whether the string opens with a minus sign.
pub open spec fn fixed_sign(s: Seq<char>) -> bool {
    s.len() >= 1 && s[0] == '-'
}

/// The position where the digits begin: after the optional sign.
pub open spec fn body_start(s: Seq<char>) -> int {
    if fixed_sign(s) {
        1
    } else {
        0
    }
}

/// The position of the decimal point, or the string length if none.
pub open spec fn dot_pos(s: Seq<char>) -> int {
    first_at(s, '.', body_start(s))
}

/// The digits before the decimal point.
pub open spec fn int_part(s: Seq<char>) -> Seq<char> {
    s.subrange(body_start(s), dot_pos(s))
}

/// The digits after the decimal point.
pub open spec fn frac_part(s: Seq<char>) -> Seq<char> {
    if dot_pos(s) < s.len() {
        s.subrange(dot_pos(s) + 1, s.len() as int)
    } else {
        Seq::empty()
    }
}

/// The grammar of a fixed-point literal: an optional sign, then digits
/// with at most one decimal point and at least one digit overall.
pub open spec fn fixed_grammar(s: Seq<char>) -> bool {
    all_digits(int_part(s)) && all_digits(frac_part(s)) && int_part(s).len() + frac_part(s).len()
        >= 1
}

/// The value of the fraction digits in millionths: the first six digits,
/// zero-padded on the right — further digits are truncated toward zero.
pub open spec fn frac_val(f: Seq<char>) -> int {
    if f.len() >= 6 {
        digits_val(f.take(6))
    } else {
        digits_val(f) * pow10((6 - f.len()) as nat)
    }
}

/// The fraction digits denote less than one unit, in millionths.
pub proof fn lemma_frac_val_range(f: Seq<char>)
    requires
        all_digits(f),
    ensures
        0 <= frac_val(f) < 1_000_000,
{
    reveal_with_fuel(pow10, 7);
    if f.len() >= 6 {
        assert(all_digits(f.take(6))) by {
            assert(forall|k: int| 0 <= k < 6 ==> f.take(6)[k] == #[trigger] f[k]);
        }
        lemma_digits_val_bound(f.take(6));
    } else {
        lemma_digits_val_bound(f);
        lemma_pow10_pos((6 - f.len()) as nat);
        lemma_pow10_adds(f.len(), (6 - f.len()) as nat);
        assert(0 <= digits_val(f) * pow10((6 - f.len()) as nat) < 1_000_000) by (nonlinear_arith)
            requires
                0 <= digits_val(f) < pow10(f.len()),
                pow10((6 - f.len()) as nat) >= 1,
                pow10(f.len()) * pow10((6 - f.len()) as nat) == 1_000_000,
        ;
    }
}

/// The magnitude a fixed-point literal denotes, in millionths.
pub open spec fn fixed_mag(s: Seq<char>) -> int {
    digits_val(int_part(s)) * 1_000_000 + frac_val(frac_part(s))
}

/// Whether a string is an accepted fixed-point literal: grammatical and
/// with a magnitude that fits the encoding.
pub open spec fn fixed_ok(s: Seq<char>) -> bool {
    fixed_grammar(s) && fixed_mag(s) <= i64::MAX
}

/// The signed value a fixed-point literal denotes, in millionths.
pub open spec fn fixed_val(s: Seq<char>) -> int {
    if fixed_sign(s) {
        -fixed_mag(s)
    } else {
        fixed_mag(s)
    }
}

/// Largest integer part whose millionths still fit in an `i64`.
pub const INT_PART_CAP: u64 = 9_223_372_036_854;

/// Parses a decimal fraction into fixed-point millionths, truncating the
/// fraction toward zero beyond six digits; `None` exactly when the string
/// is not a signed decimal literal or its magnitude does not fit.
pub fn parse_fixed(s: &str) -> (r: Option<i64>)
    ensures
        r is Some <==> fixed_ok(s@),
        r is Some ==> r->Some_0 == fixed_val(s@),
{
    let len = s.unicode_len();
    let (neg, start): (bool, usize) = if len >= 1 && s.get_char(0) == '-' {
        (true, 1)
    } else {
        (false, 0)
    };
    assert(start == body_start(s@));
    let dp = find_char(s, start, '.');
    let ghost ip = int_part(s@);
    let ghost fp = frac_part(s@);
    assert(ip.len() == dp - start);
    let mut acc: u64 = 0;
    let mut i: usize = start;
    while i < dp
        invariant
            len == s@.len(),
            start == body_start(s@),
            dp == dot_pos(s@),
            ip == int_part(s@),
            fp == frac_part(s@),
            start <= i <= dp <= len,
            forall|k: int| 0 <= k < i - start ==> is_digit(#[trigger] ip[k]),
            acc == digits_val(ip.take(i - start)),
            acc <= INT_PART_CAP,
        decreases dp - i,
    {
        let c = s.get_char(i);
        let cv = c as u32;
        proof {
            assert(ip[i - start] == s@[i as int]);
        }
        if cv < 48 || cv > 57 {
            assert(!is_digit(ip[i - start]));
            return None;
        }
        let d = (cv - 48) as u64;
        proof {
            assert(ip.take(i - start + 1).drop_last() =~= ip.take(i - start));
            assert(ip.take(i - start + 1).last() == ip[i - start]);
        }
        let nacc = acc * 10 + d;
        if nacc > INT_PART_CAP {
            proof {
                if fixed_grammar(s@) {
                    lemma_digits_val_prefix_le(ip, i - start + 1);
                    lemma_frac_val_range(fp);
                    assert(digits_val(ip) * 1_000_000 >= nacc * 1_000_000) by (nonlinear_arith)
                        requires
                            digits_val(ip) >= nacc,
                    ;
                }
            }
            return None;
        }
        acc = nacc;
        i = i + 1;
    }
    assert(acc == digits_val(ip)) by {
        assert(ip.take(dp - start) =~= ip);
    }
    let fstart = if dp < len {
        dp + 1
    } else {
        dp
    };
    assert(fp.len() == len - fstart);
    let mut facc: u64 = 0;
    let mut fcount: usize = 0;
    let mut j: usize = fstart;
    while j < len
        invariant
            len == s@.len(),
            dp == dot_pos(s@),
            dp <= len,
            fp == frac_part(s@),
            fp.len() == len - fstart,
            dp < len ==> fstart == dp + 1,
            dp >= len ==> fstart == dp,
            fstart <= j <= len,
            forall|k: int| 0 <= k < j - fstart ==> is_digit(#[trigger] fp[k]),
            fcount == if j - fstart <= 6 {
                j - fstart
            } else {
                6int
            },
            facc == digits_val(fp.take(fcount as int)),
            facc <= 999_999,
        decreases len - j,
    {
        let c = s.get_char(j);
        let cv = c as u32;
        proof {
            assert(fp[j - fstart] == s@[j as int]);
        }
        if cv < 48 || cv > 57 {
            assert(!is_digit(fp[j - fstart]));
            return None;
        }
        if fcount < 6 {
            let d = (cv - 48) as u64;
            proof {
                assert(fp.take(fcount + 1).drop_last() =~= fp.take(fcount as int));
                assert(fp.take(fcount + 1).last() == fp[fcount as int]);
                assert(all_digits(fp.take(fcount + 1))) by {
                    assert(forall|k: int|
                        0 <= k < fcount + 1 ==> fp.take(fcount + 1)[k] == #[trigger] fp[k]);
                }
                lemma_digits_val_bound(fp.take(fcount + 1));
                lemma_pow10_le((fcount + 1) as nat, 6);
                reveal_with_fuel(pow10, 7);
            }
            facc = facc * 10 + d;
            fcount = fcount + 1;
        }
        j = j + 1;
    }
    if dp == start && fstart == len {
        assert(int_part(s@).len() == 0 && frac_part(s@).len() == 0);
        return None;
    }
    assert(all_digits(ip));
    assert(all_digits(fp));
    assert(fixed_grammar(s@));
    let scale: u64 = if fcount == 0 {
        1_000_000
    } else if fcount == 1 {
        100_000
    } else if fcount == 2 {
        10_000
    } else if fcount == 3 {
        1_000
    } else if fcount == 4 {
        100
    } else if fcount == 5 {
        10
    } else {
        1
    };
    proof {
        reveal_with_fuel(pow10, 7);
        if fp.len() >= 6 {
            assert(fcount == 6 && scale == 1);
            assert(facc == digits_val(fp.take(6)));
        } else {
            assert(fcount == fp.len());
            assert(fp.take(fcount as int) =~= fp);
            assert(scale == pow10((6 - fp.len()) as nat));
        }
        assert(all_digits(fp.take(fcount as int))) by {
            assert(forall|k: int|
                0 <= k < fcount ==> fp.take(fcount as int)[k] == #[trigger] fp[k]);
        }
        lemma_digits_val_bound(fp.take(fcount as int));
        lemma_pow10_adds(fcount as nat, (6 - fcount) as nat);
        assert(facc * scale < 1_000_000) by (nonlinear_arith)
            requires
                0 <= facc,
                facc < pow10(fcount as nat),
                scale == pow10((6 - fcount) as nat),
                pow10(fcount as nat) * pow10((6 - fcount) as nat) == 1_000_000,
                scale >= 1,
        ;
        vstd::arithmetic::mul::lemma_mul_nonnegative(facc as int, scale as int);
    }
    let fscaled: u64 = facc * scale;
    assert(fscaled == frac_val(fp));
    let mag: u64 = acc * 1_000_000 + fscaled;
    assert(mag == fixed_mag(s@));
    if mag > 0x7FFF_FFFF_FFFF_FFFF {
        return None;
    }
    let v = mag as i64;
    if neg {
        Some(-v)
    } else {
        Some(v)
    }
}

/// The key of a `key=value` argument: everything before the first `=`,
/// or the whole argument if there is none.
pub open spec fn arg_key(arg: Seq<char>) -> Seq<char> {
    arg.take(first_at(arg, '=', 0))
}

/// The value of a `key=value` argument: everything after the first `=`,
/// or empty if there is none.
pub open spec fn arg_value(arg: Seq<char>) -> Seq<char> {
    if first_at(arg, '=', 0) < arg.len() {
        arg.subrange(first_at(arg, '=', 0) + 1, arg.len() as int)
    } else {
        Seq::empty()
    }
}

/// The viewport after one `key=value` argument: the named field is set
/// when the value parses inside its documented range, and kept otherwise;
/// unknown keys change nothing.
pub open spec fn apply_arg_spec(vp: Viewport, arg: Seq<char>) -> Viewport {
    let k = arg_key(arg);
    let v = arg_value(arg);
    if k == "w"@ || k == "width"@ {
        if usize_ok(v) && MIN_DIM <= digits_val(v) <= MAX_DIM {
            Viewport { width: digits_val(v) as usize, ..vp }
        } else {
            vp
        }
    } else if k == "h"@ || k == "height"@ {
        if usize_ok(v) && MIN_DIM <= digits_val(v) <= MAX_DIM {
            Viewport { height: digits_val(v) as usize, ..vp }
        } else {
            vp
        }
    } else if k == "cx"@ {
        if fixed_ok(v) && -CENTER_LIMIT <= fixed_val(v) <= CENTER_LIMIT {
            Viewport { center_x: fixed_val(v) as i64, ..vp }
        } else {
            vp
        }
    } else if k == "cy"@ {
        if fixed_ok(v) && -CENTER_LIMIT <= fixed_val(v) <= CENTER_LIMIT {
            Viewport { center_y: fixed_val(v) as i64, ..vp }
        } else {
            vp
        }
    } else if k == "scale"@ || k == "s"@ {
        if fixed_ok(v) && SCALE_MIN <= fixed_val(v) <= SCALE_MAX {
            Viewport { scale: fixed_val(v) as i64, ..vp }
        } else {
            vp
        }
    } else if k == "iters"@ || k == "i"@ {
        if usize_ok(v) && ITER_MIN <= digits_val(v) <= ITER_MAX {
            Viewport { iter_bound: digits_val(v) as usize, ..vp }
        } else {
            vp
        }
    } else {
        vp
    }
}

impl Viewport {
    /// Applies one `key=value` configuration argument.  A value that does
    /// not parse, or lies outside the field's documented range, leaves the
    /// viewport unchanged.
    pub fn apply_arg(&mut self, arg: &str)
        requires
            old(self).wf(),
        ensures
            *final(self) == apply_arg_spec(*old(self), arg@),
            final(self).wf(),
    {
        let len = arg.unicode_len();
        let eq = find_char(arg, 0, '=');
        let key = arg.substring_char(0, eq);
        assert(key@ =~= arg_key(arg@));
        let value = if eq < len {
            arg.substring_char(eq + 1, len)
        } else {
            arg.substring_char(len, len)
        };
        assert(value@ =~= arg_value(arg@));
        if str_eq(key, "w") || str_eq(key, "width") {
            match parse_usize(value) {
                Some(n) => {
                    if n >= MIN_DIM && n <= MAX_DIM {
                        self.width = n;
                    }
                },
                None => {},
            }
        } else if str_eq(key, "h") || str_eq(key, "height") {
            match parse_usize(value) {
                Some(n) => {
                    if n >= MIN_DIM && n <= MAX_DIM {
                        self.height = n;
                    }
                },
                None => {},
            }
        } else if str_eq(key, "cx") {
            match parse_fixed(value) {
                Some(c) => {
                    if c >= -CENTER_LIMIT && c <= CENTER_LIMIT {
                        self.center_x = c;
                    }
                },
                None => {},
            }
        } else if str_eq(key, "cy") {
            match parse_fixed(value) {
                Some(c) => {
                    if c >= -CENTER_LIMIT && c <= CENTER_LIMIT {
                        self.center_y = c;
                    }
                },
                None => {},
            }
        } else if str_eq(key, "scale") || str_eq(key, "s") {
            match parse_fixed(value) {
                Some(c) => {
                    if c >= SCALE_MIN && c <= SCALE_MAX {
                        self.scale = c;
                    }
                },
                None => {},
            }
        } else if str_eq(key, "iters") || str_eq(key, "i") {
            match parse_usize(value) {
                Some(n) => {
                    if n >= ITER_MIN && n <= ITER_MAX {
                        self.iter_bound = n;
                    }
                },
                None => {},
            }
        }
    }
}

} // verus!
