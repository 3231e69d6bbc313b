//! The descriptor file format.
//!
//! A descriptor is the small record published beside every archive.  It
//! carries the save's logical clock as a decimal count of seconds with a
//! nine-digit nanosecond fraction, framed as a one-field record:
//! `{"time":SECONDS.NANOSECONDS}`.  Reading accepts any fraction of one to
//! nine digits, so a record written with a shorter fraction is understood
//! as well.

use vstd::arithmetic::div_mod::lemma_fundamental_div_mod;
use vstd::arithmetic::div_mod::lemma_mod_bound;
use vstd::prelude::*;

verus! {

/// Nanoseconds in one second: the scale between the two clock units.
pub const NANOS_PER_SEC: u64 = 1_000_000_000;

/// The fixed width of the written nanosecond fraction.
pub const FRAC_DIGITS: usize = 9;

pub open spec fn is_digit(b: u8) -> bool {
    48 <= b <= 57
}

pub open spec fn all_digits(s: Seq<u8>) -> bool {
    forall|i: int| 0 <= i < s.len() ==> is_digit(#[trigger] s[i])
}

pub open spec fn digit_val(b: u8) -> nat {
    (b - 48) as nat
}

/// The number a digit string denotes, most significant digit first.
pub open spec fn dec_val(s: Seq<u8>) -> nat
    decreases s.len(),
{
    if s.len() == 0 {
        0
    } else {
        dec_val(s.drop_last()) * 10 + digit_val(s.last())
    }
}

/// The shortest decimal form of `n`.
pub open spec fn spec_decimal(n: nat) -> Seq<u8>
    decreases n,
{
    if n < 10 {
        seq![(48 + n) as u8]
    } else {
        spec_decimal(n / 10).push((48 + n % 10) as u8)
    }
}

/// `n` rendered in exactly `width` digits, zero-padded, modulo 10^width.
pub open spec fn spec_decimal_fixed(n: nat, width: nat) -> Seq<u8>
    decreases width,
{
    if width == 0 {
        Seq::empty()
    } else {
        spec_decimal_fixed(n / 10, (width - 1) as nat).push((48 + n % 10) as u8)
    }
}

pub open spec fn pow10(e: nat) -> nat
    decreases e,
{
    if e == 0 {
        1
    } else {
        10 * pow10((e - 1) as nat)
    }
}

/// The index of the first occurrence of `b` in `s`, if any.
pub open spec fn find_byte(s: Seq<u8>, b: u8) -> Option<int>
    decreases s.len(),
{
    if s.len() == 0 {
        None
    } else if s[0] == b {
        Some(0int)
    } else {
        match find_byte(s.drop_first(), b) {
            Some(i) => Some(i + 1),
            None => None,
        }
    }
}

/// The framing around the clock value: `{"time":`.
pub open spec fn descriptor_prefix() -> Seq<u8> {
    seq![123u8, 34, 116, 105, 109, 101, 34, 58]
}

/// The canonical descriptor for clock `nanos`.
pub open spec fn spec_descriptor(nanos: u64) -> Seq<u8> {
    descriptor_prefix() + spec_decimal((nanos / NANOS_PER_SEC) as nat) + seq![46]
        + spec_decimal_fixed((nanos % NANOS_PER_SEC) as nat, FRAC_DIGITS as nat) + seq![125]
}

/// The clock a number body denotes: decimal seconds, optionally followed
/// by a dot and a fraction of one to nine digits.  `None` when malformed
/// or not representable in nanoseconds as a `u64`.
pub open spec fn spec_parse_number(body: Seq<u8>) -> Option<u64> {
    match find_byte(body, 46) {
        None => if body.len() > 0 && all_digits(body) && dec_val(body) * NANOS_PER_SEC
            <= u64::MAX {
            Some((dec_val(body) * NANOS_PER_SEC) as u64)
        } else {
            None
        },
        Some(dot) => {
            let ip = body.take(dot);
            let fp = body.skip(dot + 1);
            let scaled_frac = dec_val(fp) * pow10((FRAC_DIGITS - fp.len()) as nat);
            if ip.len() > 0 && 1 <= fp.len() <= FRAC_DIGITS && all_digits(ip) && all_digits(fp)
                && dec_val(ip) * NANOS_PER_SEC + scaled_frac <= u64::MAX {
                Some((dec_val(ip) * NANOS_PER_SEC + scaled_frac) as u64)
            } else {
                None
            }
        },
    }
}

/// The clock a descriptor file denotes: `None` when malformed.
pub open spec fn spec_parse_descriptor(s: Seq<u8>) -> Option<u64> {
    if s.len() >= 10 && s.take(8) == descriptor_prefix() && s.last() == 125 {
        spec_parse_number(s.subrange(8, s.len() - 1))
    } else {
        None
    }
}

proof fn lemma_decimal_digits(n: nat)
    ensures
        all_digits(spec_decimal(n)),
        spec_decimal(n).len() >= 1,
    decreases n,
{
    if n >= 10 {
        lemma_decimal_digits(n / 10);
    }
}

proof fn lemma_decimal_fixed_digits(n: nat, width: nat)
    ensures
        all_digits(spec_decimal_fixed(n, width)),
        spec_decimal_fixed(n, width).len() == width,
    decreases width,
{
    if width > 0 {
        lemma_decimal_fixed_digits(n / 10, (width - 1) as nat);
    }
}

proof fn lemma_dec_val_decimal(n: nat)
    ensures
        dec_val(spec_decimal(n)) == n,
    decreases n,
{
    if n < 10 {
        assert(spec_decimal(n).drop_last() =~= Seq::<u8>::empty());
        assert(dec_val(Seq::<u8>::empty()) == 0);
        assert(spec_decimal(n).last() == (48 + n) as u8);
        assert(digit_val((48 + n) as u8) == n);
    } else {
        lemma_dec_val_decimal(n / 10);
        assert(spec_decimal(n).drop_last() =~= spec_decimal(n / 10));
        assert(spec_decimal(n).last() == (48 + n % 10) as u8);
        assert(digit_val((48 + n % 10) as u8) == n % 10);
        lemma_fundamental_div_mod(n as int, 10);
    }
}

proof fn lemma_dec_val_fixed(n: nat, width: nat)
    requires
        n < pow10(width),
    ensures
        dec_val(spec_decimal_fixed(n, width)) == n,
    decreases width,
{
    if width > 0 {
        lemma_fundamental_div_mod(n as int, 10);
        assert(n / 10 < pow10((width - 1) as nat)) by {
            if n / 10 >= pow10((width - 1) as nat) {
                assert(n / 10 * 10 >= pow10((width - 1) as nat) * 10) by (nonlinear_arith)
                    requires
                        n / 10 >= pow10((width - 1) as nat),
                ;
            }
        }
        lemma_dec_val_fixed(n / 10, (width - 1) as nat);
        assert(spec_decimal_fixed(n, width).drop_last() =~= spec_decimal_fixed(
            n / 10,
            (width - 1) as nat,
        ));
    } else {
        assert(spec_decimal_fixed(n, width) =~= Seq::<u8>::empty());
    }
}

/// A digit string of `len` digits denotes a value below 10^len.
proof fn lemma_dec_val_bound(s: Seq<u8>)
    requires
        all_digits(s),
    ensures
        dec_val(s) < pow10(s.len()),
    decreases s.len(),
{
    if s.len() > 0 {
        assert forall|i: int| 0 <= i < s.drop_last().len() implies is_digit(
            #[trigger] s.drop_last()[i],
        ) by {
            assert(s.drop_last()[i] == s[i]);
        }
        assert(is_digit(s[s.len() - 1]));
        lemma_dec_val_bound(s.drop_last());
        assert(dec_val(s.drop_last()) * 10 + 10 <= pow10(s.drop_last().len()) * 10)
            by (nonlinear_arith)
            requires
                dec_val(s.drop_last()) < pow10(s.drop_last().len()),
        ;
    }
}

/// Extending a digit string on the right never lowers its value.
proof fn lemma_dec_val_take_le(s: Seq<u8>, k: int)
    requires
        0 <= k <= s.len(),
    ensures
        dec_val(s.take(k)) <= dec_val(s),
    decreases s.len() - k,
{
    if k < s.len() {
        lemma_dec_val_take_le(s, k + 1);
        assert(s.take(k + 1).drop_last() =~= s.take(k));
        assert(dec_val(s.take(k + 1)) == dec_val(s.take(k)) * 10 + digit_val(s.take(k + 1).last()));
    } else {
        assert(s.take(k) =~= s);
    }
}

/// A scan that saw no `b` before `i` pins down `find_byte`.
proof fn lemma_find_byte_position(s: Seq<u8>, b: u8, i: int)
    requires
        0 <= i <= s.len(),
        forall|j: int| 0 <= j < i ==> s[j] != b,
        i < s.len() ==> s[i] == b,
    ensures
        i < s.len() ==> find_byte(s, b) == Some(i),
        i == s.len() ==> find_byte(s, b) is None,
    decreases s.len(),
{
    if s.len() > 0 && s[0] != b {
        assert forall|j: int| 0 <= j < i - 1 implies s.drop_first()[j] != b by {
            assert(s.drop_first()[j] == s[j + 1]);
        }
        if i == 0 {
            lemma_find_byte_position(s.drop_first(), b, 0);
        } else {
            assert(i - 1 < s.drop_first().len() ==> s.drop_first()[i - 1] == b);
            lemma_find_byte_position(s.drop_first(), b, i - 1);
        }
    }
}

/// For any `x`, scale `c` and rest `r <= m`, the quotient test
/// `x > (m - r) / c` is exactly the overflow test `x * c + r > m`.
proof fn lemma_mul_overflow_check(x: nat, c: nat, r: nat, m: nat)
    requires
        1 <= c,
        r <= m,
    ensures
        (x * c + r > m) <==> (x > ((m - r) as int) / (c as int)),
{
    let q = ((m - r) as int) / (c as int);
    lemma_fundamental_div_mod((m - r) as int, c as int);
    lemma_mod_bound((m - r) as int, c as int);
    assert(q >= 0) by {
        if q <= -1 {
            assert((c as int) * q <= (c as int) * -1) by (nonlinear_arith)
                requires
                    q <= -1,
                    c >= 1,
            ;
        }
    }
    assert(q * (c as int) == (c as int) * q) by (nonlinear_arith);
    if x > q {
        assert(x * c >= (q + 1) * c) by (nonlinear_arith)
            requires
                x >= q + 1,
                c >= 1,
                q >= 0,
        ;
        assert((q + 1) * c == q * c + c) by (nonlinear_arith);
    } else {
        assert(x * c <= q * c) by (nonlinear_arith)
            requires
                0 <= x <= q,
                c >= 1,
        ;
    }
}

/// When the integer part alone exceeds `u64::MAX`, the whole value does.
proof fn lemma_seconds_overflow(vi: nat, scaled: nat)
    requires
        vi > u64::MAX,
    ensures
        vi * NANOS_PER_SEC + scaled > u64::MAX,
{
    assert(vi * NANOS_PER_SEC >= vi * 1) by (nonlinear_arith)
        requires
            NANOS_PER_SEC >= 1,
    ;
}

/// The products of matching powers of ten recompose one second.
proof fn lemma_pow10_product(e: nat)
    requires
        e <= 9,
    ensures
        pow10(e) * pow10((9 - e) as nat) == 1_000_000_000,
    decreases e,
{
    if e == 0 {
        assert(pow10(0) == 1);
        assert(pow10(9) == 1_000_000_000) by {
            reveal_with_fuel(pow10, 10);
        }
    } else {
        lemma_pow10_product((e - 1) as nat);
        let a = pow10((e - 1) as nat);
        let b = pow10((9 - e) as nat);
        assert(pow10(e) * b == (10 * a) * b);
        assert((10 * a) * b == 10 * (a * b) && a * (10 * b) == 10 * (a * b)) by (nonlinear_arith);
        assert(pow10((9 - (e - 1)) as nat) == 10 * b);
    }
}

proof fn lemma_pow10_le9(e: nat)
    requires
        e <= 9,
    ensures
        pow10(e) <= 1_000_000_000,
    decreases e,
{
    if e > 0 {
        lemma_pow10_le9((e - 1) as nat);
        assert(pow10(9) == 1_000_000_000) by {
            reveal_with_fuel(pow10, 10);
        }
        if e < 9 {
            assert(pow10(e) * pow10((9 - e) as nat) == 1_000_000_000) by {
                lemma_pow10_product(e);
            }
            assert(pow10((9 - e) as nat) >= 1) by {
                lemma_pow10_pos((9 - e) as nat);
            }
            assert(pow10(e) * 1 <= pow10(e) * pow10((9 - e) as nat)) by (nonlinear_arith)
                requires
                    pow10((9 - e) as nat) >= 1,
                    pow10(e) >= 0,
            ;
        }
    }
}

proof fn lemma_pow10_pos(e: nat)
    ensures
        pow10(e) >= 1,
    decreases e,
{
    if e > 0 {
        lemma_pow10_pos((e - 1) as nat);
    }
}

/// Copies `s[from..to]` into a fresh vector.
fn copy_range(s: &Vec<u8>, from: usize, to: usize) -> (out: Vec<u8>)
    requires
        from <= to <= s@.len(),
    ensures
        out@ == s@.subrange(from as int, to as int),
{
    let mut out: Vec<u8> = Vec::new();
    let mut i: usize = from;
    while i < to
        invariant
            from <= i <= to <= s@.len(),
            out@ == s@.subrange(from as int, i as int),
        decreases to - i,
    {
        out.push(s[i]);
        proof {
            assert(s@.subrange(from as int, i + 1) =~= s@.subrange(from as int, i as int).push(
                s@[i as int],
            ));
        }
        i = i + 1;
    }
    out
}

/// The decimal digits of `n`, shortest form.
pub fn encode_decimal(n: u64) -> (out: Vec<u8>)
    ensures
        out@ == spec_decimal(n as nat),
    decreases n,
{
    if n < 10 {
        let mut out: Vec<u8> = Vec::new();
        out.push(48 + (n as u8));
        proof {
            assert(out@ =~= spec_decimal(n as nat));
        }
        out
    } else {
        let mut out = encode_decimal(n / 10);
        out.push(48 + ((n % 10) as u8));
        proof {
            assert(out@ =~= spec_decimal(n as nat));
        }
        out
    }
}

/// The low `width` decimal digits of `n`, zero-padded.
pub fn encode_decimal_fixed(n: u64, width: usize) -> (out: Vec<u8>)
    ensures
        out@ == spec_decimal_fixed(n as nat, width as nat),
    decreases width,
{
    if width == 0 {
        let out: Vec<u8> = Vec::new();
        proof {
            assert(out@ =~= spec_decimal_fixed(n as nat, width as nat));
        }
        out
    } else {
        let mut out = encode_decimal_fixed(n / 10, width - 1);
        out.push(48 + ((n % 10) as u8));
        proof {
            assert(out@ =~= spec_decimal_fixed(n as nat, width as nat));
        }
        out
    }
}

/// Writes the descriptor for clock `nanos` in its canonical form.
pub fn encode_descriptor(nanos: u64) -> (out: Vec<u8>)
    ensures
        out@ == spec_descriptor(nanos),
{
    let mut out: Vec<u8> = Vec::new();
    out.push(123);
    out.push(34);
    out.push(116);
    out.push(105);
    out.push(109);
    out.push(101);
    out.push(34);
    out.push(58);
    let mut secs = encode_decimal(nanos / NANOS_PER_SEC);
    out.append(&mut secs);
    out.push(46);
    let mut frac = encode_decimal_fixed(nanos % NANOS_PER_SEC, FRAC_DIGITS);
    out.append(&mut frac);
    out.push(125);
    proof {
        assert(out@ =~= spec_descriptor(nanos));
    }
    out
}

/// Checks that `digits[from..to]` holds decimal digits only.
fn check_digits(digits: &Vec<u8>, from: usize, to: usize) -> (ok: bool)
    requires
        from <= to <= digits@.len(),
    ensures
        ok == all_digits(digits@.subrange(from as int, to as int)),
{
    let ghost whole = digits@.subrange(from as int, to as int);
    let mut i: usize = from;
    while i < to
        invariant
            from <= i <= to <= digits@.len(),
            whole == digits@.subrange(from as int, to as int),
            forall|j: int| 0 <= j < i - from ==> is_digit(#[trigger] whole[j]),
        decreases to - i,
    {
        let b = digits[i];
        proof {
            assert(whole[i - from] == digits@[i as int]);
        }
        if b < 48 || b > 57 {
            return false;
        }
        i = i + 1;
    }
    true
}

/// Reads the digit string `digits[from..to]` as a number, or `None` when
/// its value exceeds `u64::MAX`.
fn dec_value_range(digits: &Vec<u8>, from: usize, to: usize) -> (r: Option<u64>)
    requires
        from <= to <= digits@.len(),
        all_digits(digits@.subrange(from as int, to as int)),
    ensures
        r matches Some(v) ==> v == dec_val(digits@.subrange(from as int, to as int)),
        r is None ==> dec_val(digits@.subrange(from as int, to as int)) > u64::MAX,
{
    let ghost whole = digits@.subrange(from as int, to as int);
    let mut acc: u64 = 0;
    let mut i: usize = from;
    while i < to
        invariant
            from <= i <= to <= digits@.len(),
            all_digits(whole),
            whole == digits@.subrange(from as int, to as int),
            acc == dec_val(digits@.subrange(from as int, i as int)),
        decreases to - i,
    {
        proof {
            assert(whole[i - from] == digits@[i as int]);
        }
        let d = digits[i] - 48;
        proof {
            assert(digits@.subrange(from as int, i + 1) =~= digits@.subrange(
                from as int,
                i as int,
            ).push(digits@[i as int]));
            assert(digits@.subrange(from as int, i + 1).drop_last() =~= digits@.subrange(
                from as int,
                i as int,
            ));
            lemma_mul_overflow_check(acc as nat, 10, d as nat, u64::MAX as nat);
        }
        if acc > (u64::MAX - (d as u64)) / 10 {
            proof {
                assert(dec_val(digits@.subrange(from as int, i + 1)) > u64::MAX);
                assert(whole.take(i + 1 - from) =~= digits@.subrange(from as int, i + 1));
                lemma_dec_val_take_le(whole, i + 1 - from);
            }
            return None;
        }
        acc = acc * 10 + (d as u64);
        i = i + 1;
    }
    Some(acc)
}

/// 10 to the power `e`, for exponents up to nine.
fn pow10_exec(e: usize) -> (r: u64)
    requires
        e <= 9,
    ensures
        r == pow10(e as nat),
{
    let mut r: u64 = 1;
    let mut k: usize = 0;
    while k < e
        invariant
            k <= e <= 9,
            r == pow10(k as nat),
        decreases e - k,
    {
        proof {
            lemma_pow10_le9(k as nat);
        }
        r = r * 10;
        k = k + 1;
    }
    r
}

/// Reads a number body: decimal seconds with an optional fraction.
fn parse_number(body: &Vec<u8>) -> (r: Option<u64>)
    ensures
        r == spec_parse_number(body@),
{
    let n = body.len();
    let mut i: usize = 0;
    while i < n && body[i] != 46
        invariant
            i <= n == body@.len(),
            forall|j: int| 0 <= j < i ==> body@[j] != 46,
        decreases n - i,
    {
        i = i + 1;
    }
    proof {
        lemma_find_byte_position(body@, 46, i as int);
    }
    if i == n {
        // No dot: the body is whole seconds.
        if n == 0 {
            return None;
        }
        if !check_digits(body, 0, n) {
            proof {
                assert(body@.subrange(0, n as int) =~= body@);
            }
            return None;
        }
        proof {
            assert(body@.subrange(0, n as int) =~= body@);
        }
        let vi = match dec_value_range(body, 0, n) {
            Some(v) => v,
            None => {
                proof {
                    lemma_seconds_overflow(dec_val(body@), 0);
                }
                return None;
            },
        };
        proof {
            lemma_mul_overflow_check(vi as nat, NANOS_PER_SEC as nat, 0, u64::MAX as nat);
        }
        if vi > u64::MAX / NANOS_PER_SEC {
            return None;
        }
        Some(vi * NANOS_PER_SEC)
    } else {
        let d = i;
        let fp_len = n - d - 1;
        if d == 0 || fp_len == 0 || fp_len > FRAC_DIGITS {
            return None;
        }
        let ghost fp = body@.skip(d + 1);
        let ghost scaled_spec = dec_val(fp) * pow10((FRAC_DIGITS - fp.len()) as nat);
        if !check_digits(body, 0, d) {
            proof {
                assert(body@.subrange(0, d as int) =~= body@.take(d as int));
            }
            return None;
        }
        if !check_digits(body, d + 1, n) {
            proof {
                assert(body@.subrange(d + 1, n as int) =~= body@.skip(d + 1));
            }
            return None;
        }
        proof {
            assert(body@.subrange(0, d as int) =~= body@.take(d as int));
            assert(body@.subrange(d + 1, n as int) =~= body@.skip(d + 1));
        }
        let vi = match dec_value_range(body, 0, d) {
            Some(v) => v,
            None => {
                proof {
                    lemma_seconds_overflow(dec_val(body@.take(d as int)), scaled_spec);
                }
                return None;
            },
        };
        let vf = match dec_value_range(body, d + 1, n) {
            Some(v) => v,
            None => {
                proof {
                    lemma_dec_val_bound(fp);
                    lemma_pow10_le9(fp.len() as nat);
                    assert(false);
                }
                return None;
            },
        };
        let scale = pow10_exec(FRAC_DIGITS - fp_len);
        proof {
            lemma_dec_val_bound(fp);
            lemma_pow10_le9((FRAC_DIGITS - fp_len) as nat);
            lemma_pow10_pos((FRAC_DIGITS - fp_len) as nat);
            assert(vf * scale < pow10(fp_len as nat) * pow10((FRAC_DIGITS - fp_len) as nat))
                by (nonlinear_arith)
                requires
                    vf < pow10(fp_len as nat),
                    scale == pow10((FRAC_DIGITS - fp_len) as nat),
                    scale >= 1,
            ;
            lemma_pow10_product(fp_len as nat);
        }
        let scaled = vf * scale;
        proof {
            lemma_mul_overflow_check(vi as nat, NANOS_PER_SEC as nat, scaled as nat,
                u64::MAX as nat);
        }
        if vi > (u64::MAX - scaled) / NANOS_PER_SEC {
            return None;
        }
        Some(vi * NANOS_PER_SEC + scaled)
    }
}

/// Reads a descriptor file; `None` when it is malformed or out of range.
pub fn parse_descriptor(s: &Vec<u8>) -> (r: Option<u64>)
    ensures
        r == spec_parse_descriptor(s@),
{
    if s.len() < 10 {
        return None;
    }
    let ok = s[0] == 123 && s[1] == 34 && s[2] == 116 && s[3] == 105 && s[4] == 109
        && s[5] == 101 && s[6] == 34 && s[7] == 58;
    proof {
        if ok {
            assert(s@.take(8) =~= descriptor_prefix());
        } else {
            if s@.take(8) == descriptor_prefix() {
                assert forall|j: int| 0 <= j < 8 implies s@[j] == descriptor_prefix()[j] by {
                    assert(s@.take(8)[j] == s@[j]);
                }
            }
        }
    }
    if !ok {
        return None;
    }
    if s[s.len() - 1] != 125 {
        return None;
    }
    let body = copy_range(s, 8, s.len() - 1);
    parse_number(&body)
}

/// Law: a descriptor read back yields exactly the clock it was written
/// from.
#[verifier::rlimit(50)]
pub proof fn lemma_descriptor_roundtrip(nanos: u64)
    ensures
        spec_parse_descriptor(spec_descriptor(nanos)) == Some(nanos),
{
    let s = spec_descriptor(nanos);
    let secs = (nanos / NANOS_PER_SEC) as nat;
    let frac = (nanos % NANOS_PER_SEC) as nat;
    let ip = spec_decimal(secs);
    let fp = spec_decimal_fixed(frac, FRAC_DIGITS as nat);
    lemma_decimal_digits(secs);
    lemma_decimal_fixed_digits(frac, FRAC_DIGITS as nat);
    assert(s.take(8) =~= descriptor_prefix());
    assert(s.last() == 125);
    let body = s.subrange(8, s.len() - 1);
    assert(body =~= ip + seq![46] + fp);
    assert forall|j: int| 0 <= j < ip.len() implies body[j] != 46 by {
        assert(body[j] == ip[j]);
        assert(is_digit(ip[j]));
    }
    assert(body[ip.len() as int] == 46);
    lemma_find_byte_position(body, 46, ip.len() as int);
    assert(body.take(ip.len() as int) =~= ip);
    assert(body.skip(ip.len() as int + 1) =~= fp);
    lemma_dec_val_decimal(secs);
    lemma_mod_bound(nanos as int, NANOS_PER_SEC as int);
    assert(pow10(9) == 1_000_000_000) by {
        reveal_with_fuel(pow10, 10);
    }
    lemma_dec_val_fixed(frac, FRAC_DIGITS as nat);
    lemma_fundamental_div_mod(nanos as int, NANOS_PER_SEC as int);
    assert(pow10(0) == 1);
    assert(NANOS_PER_SEC == 1_000_000_000);
    assert(dec_val(ip) == secs);
    assert(dec_val(fp) == frac);
    assert(dec_val(fp) * pow10((FRAC_DIGITS - fp.len()) as nat) == frac) by (nonlinear_arith)
        requires
            dec_val(fp) == frac,
            pow10((FRAC_DIGITS - fp.len()) as nat) == 1,
    ;
    assert(dec_val(ip) * NANOS_PER_SEC == secs * 1_000_000_000) by (nonlinear_arith)
        requires
            dec_val(ip) == secs,
            NANOS_PER_SEC == 1_000_000_000,
    ;
    assert(secs * 1_000_000_000 + frac == nanos);
    assert(dec_val(ip) * NANOS_PER_SEC + dec_val(fp) * pow10((FRAC_DIGITS - fp.len()) as nat)
        == nanos);
}

} // verus!
