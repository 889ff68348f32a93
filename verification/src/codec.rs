//! The persisted-position file format: a single JSON object
//! `{"x":<int>,"y":<int>}` holding the toolbar's physical position.
//!
//! The encoder emits the canonical compact form.  The parser accepts
//! that form with optional ASCII whitespace between tokens, rejects
//! leading zeros and out-of-range numbers as JSON does, and returns
//! `None` on any malformed input, which callers treat as "no saved
//! position".

use vstd::prelude::*;
use vstd::arithmetic::div_mod::lemma_fundamental_div_mod;
use vstd::arithmetic::div_mod::lemma_multiply_divide_lt;
use crate::geometry::ToolbarPosition;

verus! {

/// ASCII whitespace accepted between JSON tokens.
pub open spec fn is_ws_byte(c: u8) -> bool {
    c == 32 || c == 9 || c == 10 || c == 13
}

/// ASCII decimal digit.
pub open spec fn is_digit_byte(c: u8) -> bool {
    48 <= c <= 57
}

/// Numeric value of an ASCII digit.
pub open spec fn digit_val(c: u8) -> int {
    c - 48
}

/// Ten to the power `k`.
pub open spec fn pow10(k: nat) -> int
    decreases k,
{
    if k == 0 {
        1
    } else {
        10 * pow10((k - 1) as nat)
    }
}

/// The small powers of ten, spelled out for concrete bounds.
pub proof fn lemma_pow10_values()
    ensures
        pow10(0) == 1,
        pow10(1) == 10,
        pow10(9) == 1000000000,
        pow10(10) == 10000000000,
{
    assert(pow10(0) == 1);
    assert(pow10(1) == 10);
    assert(pow10(2) == 100);
    assert(pow10(3) == 1000);
    assert(pow10(4) == 10000);
    assert(pow10(5) == 100000);
    assert(pow10(6) == 1000000);
    assert(pow10(7) == 10000000);
    assert(pow10(8) == 100000000);
    assert(pow10(9) == 1000000000);
    assert(pow10(10) == 10000000000);
}

/// Canonical decimal digits of a nonnegative integer, most
/// significant first, no leading zeros.
pub open spec fn spec_udec(n: int) -> Seq<u8>
    recommends
        n >= 0,
    decreases n,
{
    if n < 10 {
        seq![(48 + n) as u8]
    } else {
        spec_udec(n / 10) + seq![(48 + n % 10) as u8]
    }
}

/// Canonical decimal digits of an integer, with a leading minus sign
/// when negative.
pub open spec fn spec_idec(n: int) -> Seq<u8> {
    if n < 0 {
        seq![45u8] + spec_udec(-n)
    } else {
        spec_udec(n)
    }
}

/// The canonical encoding of a position: `{"x":<x>,"y":<y>}` with no
/// whitespace.
pub open spec fn spec_encode_position(p: ToolbarPosition) -> Seq<u8> {
    seq![123u8, 34u8, 120u8, 34u8, 58u8] + spec_idec(p.x as int)
        + seq![44u8, 34u8, 121u8, 34u8, 58u8] + spec_idec(p.y as int) + seq![125u8]
}

/// Append the canonical decimal digits of `n` to `out`.
fn push_udec(n: u32, out: &mut Vec<u8>)
    ensures
        final(out)@ == old(out)@ + spec_udec(n as int),
    decreases n,
{
    if n < 10 {
        out.push(48 + n as u8);
        assert(out@ =~= old(out)@ + spec_udec(n as int));
    } else {
        push_udec(n / 10, out);
        out.push(48 + (n % 10) as u8);
        assert(out@ =~= old(out)@ + spec_udec(n as int));
    }
}

/// Append the canonical decimal digits of `v`, with a sign when
/// negative.
fn push_idec(v: i32, out: &mut Vec<u8>)
    ensures
        final(out)@ == old(out)@ + spec_idec(v as int),
{
    if v < 0 {
        out.push(45);
        let magnitude: u32 = (-(v as i64)) as u32;
        push_udec(magnitude, out);
        assert(out@ =~= old(out)@ + spec_idec(v as int));
    } else {
        push_udec(v as u32, out);
    }
}

/// Encode a position as the canonical JSON record
/// `{"x":<x>,"y":<y>}`, the bytes written to the position file.
pub fn encode_toolbar_position(p: &ToolbarPosition) -> (r: Vec<u8>)
    ensures
        r@ == spec_encode_position(*p),
{
    let mut out: Vec<u8> = Vec::new();
    out.push(123);
    out.push(34);
    out.push(120);
    out.push(34);
    out.push(58);
    assert(out@ =~= seq![123u8, 34u8, 120u8, 34u8, 58u8]);
    push_idec(p.x, &mut out);
    let ghost after_x = out@;
    out.push(44);
    out.push(34);
    out.push(121);
    out.push(34);
    out.push(58);
    assert(out@ =~= after_x + seq![44u8, 34u8, 121u8, 34u8, 58u8]);
    push_idec(p.y, &mut out);
    let ghost after_y = out@;
    out.push(125);
    assert(out@ =~= after_y + seq![125u8]);
    assert(out@ =~= spec_encode_position(*p));
    out
}


/// Position of the first non-whitespace byte at or after `i`.
pub open spec fn spec_skip_ws(s: Seq<u8>, i: int) -> int
    recommends
        0 <= i <= s.len(),
    decreases s.len() - i,
{
    if i < s.len() && is_ws_byte(s[i]) {
        spec_skip_ws(s, i + 1)
    } else {
        i
    }
}

/// Position of the first non-digit byte at or after `i`.
pub open spec fn spec_skip_digits(s: Seq<u8>, i: int) -> int
    recommends
        0 <= i <= s.len(),
    decreases s.len() - i,
{
    if i < s.len() && is_digit_byte(s[i]) {
        spec_skip_digits(s, i + 1)
    } else {
        i
    }
}

/// Left-to-right accumulation of a digit run starting at `i` into
/// `acc`; yields the position after the run and the final value.
pub open spec fn spec_parse_digits(s: Seq<u8>, i: int, acc: int) -> (int, int)
    recommends
        0 <= i <= s.len(),
    decreases s.len() - i,
{
    if i < s.len() && is_digit_byte(s[i]) {
        spec_parse_digits(s, i + 1, acc * 10 + digit_val(s[i]))
    } else {
        (i, acc)
    }
}

/// One expected byte at position `i`.
pub open spec fn spec_expect(s: Seq<u8>, i: int, c: u8) -> Option<int> {
    if i < s.len() && s[i] == c {
        Some(i + 1)
    } else {
        None
    }
}

/// A quoted one-letter field name, `"<name>"`, at position `i`.
pub open spec fn spec_expect_quoted(s: Seq<u8>, i: int, name: u8) -> Option<int> {
    if i + 3 <= s.len() && s[i] == 34 && s[i + 1] == name && s[i + 2] == 34 {
        Some(i + 3)
    } else {
        None
    }
}

/// A JSON integer in `i32` range at position `i`: an optional minus
/// sign, then digits with no leading zero, at most ten digits.
pub open spec fn spec_parse_int(s: Seq<u8>, i: int) -> Option<(int, int)> {
    let neg = i < s.len() && s[i] == 45;
    let j = if neg { i + 1 } else { i };
    if j < s.len() && is_digit_byte(s[j]) {
        let end = spec_skip_digits(s, j);
        if s[j] == 48 && end != j + 1 {
            None
        } else if end - j > 10 {
            None
        } else {
            let magnitude = spec_parse_digits(s, j, 0).1;
            let v = if neg { -magnitude } else { magnitude };
            if v < i32::MIN || v > i32::MAX {
                None
            } else {
                Some((end, v))
            }
        }
    } else {
        None
    }
}

/// A quoted field name followed by a colon and an integer, with
/// whitespace allowed between tokens.
pub open spec fn spec_parse_field(s: Seq<u8>, i: int, name: u8) -> Option<(int, int)> {
    let i1 = spec_skip_ws(s, i);
    match spec_expect_quoted(s, i1, name) {
        None => None,
        Some(i2) => {
            let i3 = spec_skip_ws(s, i2);
            match spec_expect(s, i3, 58) {
                None => None,
                Some(i4) => {
                    let i5 = spec_skip_ws(s, i4);
                    spec_parse_int(s, i5)
                },
            }
        },
    }
}

/// The whole record: `{"x":<int>,"y":<int>}` with optional
/// whitespace between tokens and around the object, and nothing
/// after it.
pub open spec fn spec_parse_position(s: Seq<u8>) -> Option<ToolbarPosition> {
    let i0 = spec_skip_ws(s, 0);
    match spec_expect(s, i0, 123) {
        None => None,
        Some(i1) => match spec_parse_field(s, i1, 120) {
            None => None,
            Some((i2, x)) => {
                let i3 = spec_skip_ws(s, i2);
                match spec_expect(s, i3, 44) {
                    None => None,
                    Some(i4) => match spec_parse_field(s, i4, 121) {
                        None => None,
                        Some((i5, y)) => {
                            let i6 = spec_skip_ws(s, i5);
                            match spec_expect(s, i6, 125) {
                                None => None,
                                Some(i7) => if spec_skip_ws(s, i7) == s.len() {
                                    Some(ToolbarPosition { x: x as i32, y: y as i32 })
                                } else {
                                    None
                                },
                            }
                        },
                    },
                }
            },
        },
    }
}

/// Advance past ASCII whitespace.
fn skip_ws(data: &Vec<u8>, start: usize) -> (r: usize)
    requires
        start <= data@.len(),
    ensures
        r == spec_skip_ws(data@, start as int),
        start <= r <= data@.len(),
{
    let mut i = start;
    while i < data.len() && (data[i] == 32 || data[i] == 9 || data[i] == 10 || data[i] == 13)
        invariant
            start <= i <= data@.len(),
            spec_skip_ws(data@, start as int) == spec_skip_ws(data@, i as int),
        decreases data@.len() - i,
    {
        i = i + 1;
    }
    i
}

/// Advance past decimal digits.
fn skip_digits(data: &Vec<u8>, start: usize) -> (r: usize)
    requires
        start <= data@.len(),
    ensures
        r == spec_skip_digits(data@, start as int),
        start <= r <= data@.len(),
{
    let mut i = start;
    while i < data.len() && 48 <= data[i] && data[i] <= 57
        invariant
            start <= i <= data@.len(),
            spec_skip_digits(data@, start as int) == spec_skip_digits(data@, i as int),
        decreases data@.len() - i,
    {
        i = i + 1;
    }
    i
}

/// Everything before the run end is a digit, and the run end sits
/// on a non-digit or the end of input.
proof fn lemma_skip_digits_props(s: Seq<u8>, i: int)
    requires
        0 <= i <= s.len(),
    ensures
        i <= spec_skip_digits(s, i) <= s.len(),
        forall|m: int| i <= m < spec_skip_digits(s, i) ==> is_digit_byte(s[m]),
        spec_skip_digits(s, i) == s.len() || !is_digit_byte(s[spec_skip_digits(s, i)]),
    decreases s.len() - i,
{
    if i < s.len() && is_digit_byte(s[i]) {
        lemma_skip_digits_props(s, i + 1);
    }
}

/// The run end and value of a digit run agree with the accumulating
/// parse, whatever the accumulator.
proof fn lemma_parse_digits_end(s: Seq<u8>, i: int, acc: int)
    requires
        0 <= i <= s.len(),
    ensures
        spec_parse_digits(s, i, acc).0 == spec_skip_digits(s, i),
        i <= spec_skip_digits(s, i) <= s.len(),
    decreases s.len() - i,
{
    if i < s.len() && is_digit_byte(s[i]) {
        lemma_parse_digits_end(s, i + 1, acc * 10 + digit_val(s[i]));
    }
}

/// Parse a JSON integer at `start`.
fn parse_int(data: &Vec<u8>, start: usize) -> (r: Option<(usize, i32)>)
    requires
        start <= data@.len(),
    ensures
        match r {
            None => spec_parse_int(data@, start as int) is None,
            Some((j, v)) => {
                &&& spec_parse_int(data@, start as int) == Some((j as int, v as int))
                &&& j <= data@.len()
            },
        },
{
    let n = data.len();
    let neg = start < n && data[start] == 45;
    let j = if neg { start + 1 } else { start };
    if !(j < n && 48 <= data[j] && data[j] <= 57) {
        return None;
    }
    let end = skip_digits(data, j);
    proof {
        lemma_parse_digits_end(data@, j as int, 0);
        lemma_skip_digits_props(data@, j as int);
    }
    if data[j] == 48 && end != j + 1 {
        return None;
    }
    if end - j > 10 {
        return None;
    }
    let mut k = j;
    let mut acc: i64 = 0;
    proof {
        lemma_pow10_values();
    }
    while k < end
        invariant
            j <= k <= end,
            end <= data@.len(),
            end - j <= 10,
            end == spec_skip_digits(data@, j as int),
            spec_skip_digits(data@, k as int) == end,
            forall|m: int| j <= m < end ==> is_digit_byte(data@[m]),
            end == data@.len() || !is_digit_byte(data@[end as int]),
            0 <= acc < pow10((k - j) as nat),
            pow10(9) == 1000000000,
            pow10(10) == 10000000000,
            spec_parse_digits(data@, j as int, 0) == spec_parse_digits(data@, k as int, acc as int),
        decreases end - k,
    {
        proof {
            assert(is_digit_byte(data@[k as int]));
            assert(pow10(((k - j) + 1) as nat) == 10 * pow10((k - j) as nat));
            lemma_pow10_mono((k - j) as nat, 9);
        }
        acc = acc * 10 + (data[k] - 48) as i64;
        k = k + 1;
    }
    assert(spec_parse_digits(data@, k as int, acc as int) == (k as int, acc as int));
    assert(spec_parse_digits(data@, j as int, 0).1 == acc as int);
    let v: i64 = if neg { -acc } else { acc };
    if v < -2147483648 || v > 2147483647 {
        return None;
    }
    Some((end, v as i32))
}

/// Powers of ten grow with the exponent.
proof fn lemma_pow10_mono(a: nat, b: nat)
    requires
        a <= b,
    ensures
        pow10(a) <= pow10(b),
        pow10(a) >= 1,
    decreases b,
{
    if a < b {
        lemma_pow10_mono(a, (b - 1) as nat);
    } else {
        lemma_pow10_ge_one(a);
    }
}

/// Powers of ten are at least one.
proof fn lemma_pow10_ge_one(a: nat)
    ensures
        pow10(a) >= 1,
    decreases a,
{
    if a > 0 {
        lemma_pow10_ge_one((a - 1) as nat);
    }
}

/// Parse a quoted field name, a colon and an integer.
fn parse_field(data: &Vec<u8>, start: usize, name: u8) -> (r: Option<(usize, i32)>)
    requires
        start <= data@.len(),
    ensures
        match r {
            None => spec_parse_field(data@, start as int, name) is None,
            Some((j, v)) => {
                &&& spec_parse_field(data@, start as int, name) == Some((j as int, v as int))
                &&& j <= data@.len()
            },
        },
{
    let n = data.len();
    let i1 = skip_ws(data, start);
    if !(n >= 3 && i1 <= n - 3 && data[i1] == 34 && data[i1 + 1] == name && data[i1 + 2] == 34) {
        assert(spec_expect_quoted(data@, i1 as int, name) is None);
        return None;
    }
    let i2 = i1 + 3;
    let i3 = skip_ws(data, i2);
    if !(i3 < n && data[i3] == 58) {
        return None;
    }
    let i4 = i3 + 1;
    let i5 = skip_ws(data, i4);
    parse_int(data, i5)
}

/// Parse the persisted-position record.  Yields `None` on any input
/// that is not a well-formed `{"x":<int>,"y":<int>}` object.
pub fn parse_toolbar_position(data: &Vec<u8>) -> (r: Option<ToolbarPosition>)
    ensures
        r == spec_parse_position(data@),
{
    let n = data.len();
    let i0 = skip_ws(data, 0);
    if !(i0 < n && data[i0] == 123) {
        return None;
    }
    let i1 = i0 + 1;
    let xr = parse_field(data, i1, 120);
    let (i2, x) = match xr {
        None => {
            return None;
        },
        Some(p) => p,
    };
    let i3 = skip_ws(data, i2);
    if !(i3 < n && data[i3] == 44) {
        return None;
    }
    let i4 = i3 + 1;
    let yr = parse_field(data, i4, 121);
    let (i5, y) = match yr {
        None => {
            return None;
        },
        Some(p) => p,
    };
    let i6 = skip_ws(data, i5);
    if !(i6 < n && data[i6] == 125) {
        return None;
    }
    let i7 = i6 + 1;
    let i8 = skip_ws(data, i7);
    if i8 != n {
        return None;
    }
    Some(ToolbarPosition { x, y })
}


/// The numeric value of a digit string, most significant first.
pub open spec fn spec_numval(t: Seq<u8>) -> int
    decreases t.len(),
{
    if t.len() == 0 {
        0
    } else {
        spec_numval(t.drop_last()) * 10 + digit_val(t.last())
    }
}

/// Every byte of a canonical decimal is a digit.
proof fn lemma_udec_digits(n: int)
    requires
        n >= 0,
    ensures
        spec_udec(n).len() >= 1,
        forall|k: int| 0 <= k < spec_udec(n).len() ==> is_digit_byte(#[trigger] spec_udec(n)[k]),
    decreases n,
{
    if n >= 10 {
        lemma_udec_digits(n / 10);
        assert forall|k: int| 0 <= k < spec_udec(n).len() implies is_digit_byte(
            #[trigger] spec_udec(n)[k],
        ) by {
            if k < spec_udec(n).len() - 1 {
                assert(spec_udec(n)[k] == spec_udec(n / 10)[k]);
            } else {
                assert(spec_udec(n)[k] == (48 + n % 10) as u8);
            }
        }
    }
}

/// A canonical decimal of a positive number never starts with zero.
proof fn lemma_udec_first(n: int)
    requires
        n >= 1,
    ensures
        spec_udec(n)[0] != 48,
    decreases n,
{
    if n >= 10 {
        lemma_udec_first(n / 10);
        assert(spec_udec(n)[0] == spec_udec(n / 10)[0]);
    }
}

/// A number below the `k`-th power of ten has at most `k` digits.
proof fn lemma_udec_len(n: int, k: nat)
    requires
        n >= 0,
        k >= 1,
        n < pow10(k),
    ensures
        spec_udec(n).len() <= k,
    decreases n,
{
    if n >= 10 {
        assert(pow10(0) == 1);
        assert(pow10(1) == 10);
        assert(k != 1);
        assert(pow10(k) == 10 * pow10((k - 1) as nat));
        lemma_multiply_divide_lt(n, 10, pow10((k - 1) as nat));
        lemma_udec_len(n / 10, (k - 1) as nat);
    }
}

/// Reading back the canonical decimal digits gives the number.
proof fn lemma_numval_udec(n: int)
    requires
        n >= 0,
    ensures
        spec_numval(spec_udec(n)) == n,
    decreases n,
{
    if n < 10 {
        assert(spec_udec(n).drop_last() =~= Seq::<u8>::empty());
        assert(spec_numval(Seq::<u8>::empty()) == 0);
        assert(spec_udec(n).last() == (48 + n) as u8);
        assert(spec_numval(spec_udec(n)) == 0 * 10 + digit_val((48 + n) as u8));
    } else {
        lemma_numval_udec(n / 10);
        assert(spec_udec(n).drop_last() =~= spec_udec(n / 10));
        assert(spec_udec(n).last() == (48 + n % 10) as u8);
        assert(spec_numval(spec_udec(n)) == spec_numval(spec_udec(n / 10)) * 10 + digit_val(
            (48 + n % 10) as u8,
        ));
        lemma_fundamental_div_mod(n, 10);
    }
}

/// Splitting off the most significant digit of a digit string.
proof fn lemma_numval_first(t: Seq<u8>)
    requires
        t.len() >= 1,
    ensures
        spec_numval(t) == digit_val(t[0]) * pow10((t.len() - 1) as nat) + spec_numval(
            t.subrange(1, t.len() as int),
        ),
    decreases t.len(),
{
    if t.len() == 1 {
        assert(t.subrange(1, 1) =~= Seq::<u8>::empty());
        assert(t.drop_last() =~= Seq::<u8>::empty());
        assert(spec_numval(Seq::<u8>::empty()) == 0);
        assert(pow10(0) == 1);
        assert(t.last() == t[0]);
        assert(spec_numval(t) == spec_numval(t.drop_last()) * 10 + digit_val(t.last()));
    } else {
        let u = t.drop_last();
        lemma_numval_first(u);
        assert(u[0] == t[0]);
        let tail = t.subrange(1, t.len() as int);
        assert(u.subrange(1, u.len() as int) =~= tail.drop_last());
        assert(tail.last() == t.last());
        let d0 = digit_val(t[0]);
        let pw = pow10((t.len() - 2) as nat);
        assert(pow10((t.len() - 1) as nat) == 10 * pw);
        assert(spec_numval(t) == spec_numval(u) * 10 + digit_val(t.last()));
        assert(spec_numval(u) == d0 * pw + spec_numval(tail.drop_last()));
        assert(spec_numval(tail) == spec_numval(tail.drop_last()) * 10 + digit_val(tail.last()));
        assert(spec_numval(t) == (d0 * pw) * 10 + spec_numval(tail.drop_last()) * 10 + digit_val(
            t.last(),
        ));
        assert(d0 * (10 * pw) == (d0 * pw) * 10) by (nonlinear_arith);
        assert(spec_numval(t) == d0 * pow10((t.len() - 1) as nat) + spec_numval(tail));
    }
}

/// The accumulating parse of a complete digit run yields the
/// accumulator shifted past the run plus the run's value.
proof fn lemma_parse_digits_run(s: Seq<u8>, i: int, j: int, acc: int)
    requires
        0 <= i <= j <= s.len(),
        forall|m: int| i <= m < j ==> is_digit_byte(#[trigger] s[m]),
        j == s.len() || !is_digit_byte(s[j]),
    ensures
        spec_parse_digits(s, i, acc) == (j, acc * pow10((j - i) as nat) + spec_numval(
            s.subrange(i, j),
        )),
    decreases j - i,
{
    if i == j {
        assert(s.subrange(i, j) =~= Seq::<u8>::empty());
    } else {
        assert(is_digit_byte(s[i]));
        let d = digit_val(s[i]);
        lemma_parse_digits_run(s, i + 1, j, acc * 10 + d);
        let t = s.subrange(i, j);
        lemma_numval_first(t);
        assert(t[0] == s[i]);
        assert(t.subrange(1, t.len() as int) =~= s.subrange(i + 1, j));
        let pw = pow10((j - i - 1) as nat);
        assert(pow10((j - i) as nat) == 10 * pw);
        assert((acc * 10 + d) * pw == acc * (10 * pw) + d * pw) by (nonlinear_arith);
    }
}

/// A complete digit run ends exactly at its first non-digit.
proof fn lemma_skip_digits_run(s: Seq<u8>, i: int, j: int)
    requires
        0 <= i <= j <= s.len(),
        forall|m: int| i <= m < j ==> is_digit_byte(#[trigger] s[m]),
        j == s.len() || !is_digit_byte(s[j]),
    ensures
        spec_skip_digits(s, i) == j,
    decreases j - i,
{
    if i < j {
        lemma_skip_digits_run(s, i + 1, j);
    }
}

/// The first byte of an encoded integer is a sign or a digit, never
/// whitespace.
proof fn lemma_idec_first(v: int)
    ensures
        spec_idec(v).len() >= 1,
        !is_ws_byte(spec_idec(v)[0]),
{
    if v < 0 {
        lemma_udec_digits(-v);
        assert(spec_idec(v)[0] == 45);
    } else {
        lemma_udec_digits(v);
        assert(spec_idec(v)[0] == spec_udec(v)[0]);
        assert(is_digit_byte(spec_idec(v)[0]));
    }
}

/// Parsing an encoded `i32` out of a larger buffer recovers the
/// value, provided no digit follows it.
proof fn lemma_parse_int_encoded(s: Seq<u8>, i: int, v: int)
    requires
        0 <= i,
        i32::MIN <= v <= i32::MAX,
        i + spec_idec(v).len() <= s.len(),
        forall|k: int| 0 <= k < spec_idec(v).len() ==> s[i + k] == #[trigger] spec_idec(v)[k],
        i + spec_idec(v).len() == s.len() || !is_digit_byte(s[i + spec_idec(v).len()]),
    ensures
        spec_parse_int(s, i) == Some((i + spec_idec(v).len(), v)),
{
    lemma_pow10_values();
    let l = spec_idec(v).len() as int;
    if v >= 0 {
        lemma_udec_digits(v);
        assert(s[i] == spec_udec(v)[0]);
        assert(is_digit_byte(s[i]));
        assert(s[i] != 45);
        assert forall|m: int| i <= m < i + l implies is_digit_byte(#[trigger] s[m]) by {
            assert(s[m] == spec_udec(v)[m - i]);
        }
        lemma_skip_digits_run(s, i, i + l);
        lemma_parse_digits_run(s, i, i + l, 0);
        assert(s.subrange(i, i + l) =~= spec_udec(v));
        lemma_numval_udec(v);
        lemma_udec_len(v, 10);
        if s[i] == 48 {
            if v >= 1 {
                lemma_udec_first(v);
            }
            assert(v == 0);
            assert(l == 1);
        }
        assert(spec_parse_digits(s, i, 0).1 == v);
    } else {
        let m = -v;
        lemma_udec_digits(m);
        assert(s[i] == spec_idec(v)[0]);
        assert(s[i] == 45);
        assert forall|k: int| i + 1 <= k < i + l implies is_digit_byte(#[trigger] s[k]) by {
            assert(s[k] == spec_idec(v)[k - i]);
            assert(spec_idec(v)[k - i] == spec_udec(m)[k - i - 1]);
        }
        assert(spec_idec(v)[1] == spec_udec(m)[0]);
        assert(s[i + 1] == spec_udec(m)[0]);
        lemma_udec_first(m);
        assert(s[i + 1] != 48);
        lemma_skip_digits_run(s, i + 1, i + l);
        lemma_parse_digits_run(s, i + 1, i + l, 0);
        assert forall|k: int| 0 <= k < l - 1 implies s.subrange(i + 1, i + l)[k] == spec_udec(m)[k] by {
            assert(spec_idec(v)[k + 1] == spec_udec(m)[k]);
            assert(s[i + (k + 1)] == spec_idec(v)[k + 1]);
        }
        assert(s.subrange(i + 1, i + l) =~= spec_udec(m));
        lemma_numval_udec(m);
        lemma_udec_len(m, 10);
        assert(spec_parse_digits(s, i + 1, 0).1 == m);
    }
}

/// Round trip: parsing an encoded position gives the position back.
pub proof fn lemma_encode_parse_round_trip(p: ToolbarPosition)
    ensures
        spec_parse_position(spec_encode_position(p)) == Some(p),
{
    let s = spec_encode_position(p);
    let ix = spec_idec(p.x as int);
    let iy = spec_idec(p.y as int);
    let lx = ix.len() as int;
    let ly = iy.len() as int;
    lemma_idec_first(p.x as int);
    lemma_idec_first(p.y as int);
    assert(s.len() == 11 + lx + ly);
    assert(s[0] == 123 && s[1] == 34 && s[2] == 120 && s[3] == 34 && s[4] == 58);
    assert forall|k: int| 0 <= k < lx implies s[5 + k] == #[trigger] ix[k] by {}
    assert(s[5 + lx] == 44 && s[6 + lx] == 34 && s[7 + lx] == 121 && s[8 + lx] == 34 && s[9 + lx]
        == 58);
    assert forall|k: int| 0 <= k < ly implies s[10 + lx + k] == #[trigger] iy[k] by {}
    assert(s[10 + lx + ly] == 125);

    assert(spec_skip_ws(s, 0) == 0);
    assert(spec_expect(s, 0, 123) == Some(1int));

    assert(spec_skip_ws(s, 1) == 1);
    assert(spec_expect_quoted(s, 1, 120) == Some(4int));
    assert(spec_skip_ws(s, 4) == 4);
    assert(spec_expect(s, 4, 58) == Some(5int));
    assert(s[5] == ix[0]);
    assert(spec_skip_ws(s, 5) == 5);
    lemma_parse_int_encoded(s, 5, p.x as int);
    assert(spec_parse_field(s, 1, 120) == Some((5 + lx, p.x as int)));

    assert(spec_skip_ws(s, 5 + lx) == 5 + lx);
    assert(spec_expect(s, 5 + lx, 44) == Some(6 + lx));

    assert(spec_skip_ws(s, 6 + lx) == 6 + lx);
    assert(spec_expect_quoted(s, 6 + lx, 121) == Some(9 + lx));
    assert(spec_skip_ws(s, 9 + lx) == 9 + lx);
    assert(spec_expect(s, 9 + lx, 58) == Some(10 + lx));
    assert(s[10 + lx] == iy[0]);
    assert(spec_skip_ws(s, 10 + lx) == 10 + lx);
    assert forall|k: int| 0 <= k < iy.len() implies s[10 + lx + k] == #[trigger] spec_idec(
        p.y as int,
    )[k] by {}
    lemma_parse_int_encoded(s, 10 + lx, p.y as int);
    assert(spec_parse_field(s, 6 + lx, 121) == Some((10 + lx + ly, p.y as int)));

    assert(spec_skip_ws(s, 10 + lx + ly) == 10 + lx + ly);
    assert(spec_expect(s, 10 + lx + ly, 125) == Some(11 + lx + ly));
    assert(spec_skip_ws(s, 11 + lx + ly) == s.len());
}

} // verus!
