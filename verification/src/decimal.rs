//! Exact decimal numbers as sent on the wire: prices and quantities arrive as
//! strings such as "50000.00" and are held as a sign, an integer mantissa and
//! a power-of-ten scale, so no precision is lost in the core.

use vstd::prelude::*;
use vstd::string::StrSliceExecFns;

verus! {

/// A decimal number: the value is `(-1)^neg * mantissa / 10^scale`.
///
/// Values built by this module are canonical (no trailing zero in the
/// mantissa together with a positive scale, and zero is stored as
/// `+0 / 10^0`), so `==` on `Dec` coincides with numeric equality.
#[derive(Clone, Copy, Debug, PartialEq, Eq, Structural)]
pub struct Dec {
    pub neg: bool,
    pub mantissa: u128,
    pub scale: u32,
}

/// Exclusive bound on the mantissa of a decimal parsed from the wire: 10^19.
pub const MANTISSA_LIMIT: u128 = 10_000_000_000_000_000_000;

/// Largest count of fractional digits a wire decimal may carry.
pub const SCALE_LIMIT: u32 = 19;

/// Exclusive bound on the mantissa of a product of two wire decimals: 10^38.
pub const WIDE_MANTISSA_LIMIT: u128 = 100_000_000_000_000_000_000_000_000_000_000_000_000;

/// The canonical zero decimal.
pub open spec fn dec_zero() -> Dec {
    Dec { neg: false, mantissa: 0, scale: 0 }
}

/// Canonical form: zero is stored positively with scale zero, and a positive
/// scale never hides a trailing zero of the mantissa.
pub open spec fn dec_canonical(d: Dec) -> bool {
    &&& d.mantissa == 0 ==> d.scale == 0 && !d.neg
    &&& d.scale > 0 ==> d.mantissa % 10 != 0
}

/// Size bounds that hold of every decimal parsed from the wire.
pub open spec fn dec_small(d: Dec) -> bool {
    d.mantissa < MANTISSA_LIMIT && d.scale <= SCALE_LIMIT
}

/// A well-formed wire decimal: canonical and within the wire bounds.
pub open spec fn dec_wf(d: Dec) -> bool {
    dec_canonical(d) && dec_small(d)
}

/// Canonicalization: drop trailing zeros of the mantissa into the scale, and
/// collapse zero to the canonical zero.
pub open spec fn spec_norm(neg: bool, m: u128, s: u32) -> Dec
    decreases s,
{
    if m == 0 {
        dec_zero()
    } else if s == 0 {
        Dec { neg, mantissa: m, scale: 0 }
    } else if m % 10 == 0 {
        spec_norm(neg, m / 10, (s - 1) as u32)
    } else {
        Dec { neg, mantissa: m, scale: s }
    }
}

pub proof fn lemma_norm_canonical(neg: bool, m: u128, s: u32)
    ensures
        dec_canonical(spec_norm(neg, m, s)),
        spec_norm(neg, m, s).mantissa <= m,
        spec_norm(neg, m, s).scale <= s,
    decreases s,
{
    if m != 0 && s != 0 && m % 10 == 0 {
        lemma_norm_canonical(neg, m / 10, (s - 1) as u32);
    }
}

impl Dec {
    /// The zero decimal, the default for an absent wire quantity.
    pub fn zero() -> (d: Dec)
        ensures
            d == dec_zero(),
    {
        Dec { neg: false, mantissa: 0, scale: 0 }
    }

    /// Whether this decimal is within the wire bounds, so that callers can
    /// establish `mul`'s precondition at run time.
    pub fn is_small(&self) -> (r: bool)
        ensures
            r == dec_small(*self),
    {
        self.mantissa < MANTISSA_LIMIT && self.scale <= SCALE_LIMIT
    }

    /// Multiply two wire decimals. The wire bounds keep the product's
    /// mantissa inside `u128`, so the result is exact.
    pub fn mul(&self, other: &Dec) -> (r: Dec)
        requires
            dec_small(*self),
            dec_small(*other),
        ensures
            r == spec_mul(*self, *other),
            dec_canonical(r),
            r.mantissa < WIDE_MANTISSA_LIMIT,
    {
        proof {
            assert(0 <= self.mantissa * other.mantissa < WIDE_MANTISSA_LIMIT)
                by (nonlinear_arith)
                requires
                    self.mantissa < MANTISSA_LIMIT,
                    other.mantissa < MANTISSA_LIMIT,
                    MANTISSA_LIMIT == 10_000_000_000_000_000_000u128,
                    WIDE_MANTISSA_LIMIT == 100_000_000_000_000_000_000_000_000_000_000_000_000u128,
            ;
        }
        let m = self.mantissa * other.mantissa;
        let sc = self.scale + other.scale;
        let r = Dec::normalize(self.neg != other.neg, m, sc);
        proof {
            lemma_norm_canonical(self.neg != other.neg, m, sc);
        }
        r
    }

    /// Canonicalize a raw sign/mantissa/scale triple.
    pub fn normalize(neg: bool, mantissa: u128, scale: u32) -> (d: Dec)
        ensures
            d == spec_norm(neg, mantissa, scale),
    {
        let mut m = mantissa;
        let mut s = scale;
        while s > 0 && m != 0 && m % 10 == 0
            invariant
                spec_norm(neg, mantissa, scale) == spec_norm(neg, m, s),
            decreases s,
        {
            m = m / 10;
            s = s - 1;
        }
        if m == 0 {
            Dec { neg: false, mantissa: 0, scale: 0 }
        } else {
            Dec { neg, mantissa: m, scale: s }
        }
    }
}

/// The numeric value a decimal denotes, in units of one over ten to its
/// scale: the signed mantissa.
pub open spec fn dec_num(d: Dec) -> int {
    if d.neg {
        -(d.mantissa as int)
    } else {
        d.mantissa as int
    }
}

/// The product of two decimals: signs combine, mantissas multiply, scales
/// add, and the result is canonicalized.
pub open spec fn spec_mul(a: Dec, b: Dec) -> Dec {
    spec_norm(a.neg != b.neg, (a.mantissa * b.mantissa) as u128, (a.scale + b.scale) as u32)
}

/// Canonicalization keeps the denoted value: the mantissa shrinks by exactly
/// the power of ten that the scale loses, and the sign of a nonzero value is
/// kept.
pub proof fn lemma_norm_value(neg: bool, m: u128, s: u32)
    ensures
        ({
            let d = spec_norm(neg, m, s);
            &&& d.scale <= s
            &&& d.mantissa * pow10((s - d.scale) as nat) == m
            &&& m != 0 ==> d.neg == neg
            &&& m == 0 ==> d == dec_zero()
        }),
    decreases s,
{
    let d = spec_norm(neg, m, s);
    if m == 0 {
        assert(d == dec_zero());
        assert(d.mantissa * pow10((s - d.scale) as nat) == 0);
    } else if s == 0 {
        assert(pow10(0) == 1);
        assert(d.mantissa * pow10((s - d.scale) as nat) == m);
    } else if m % 10 == 0 {
        lemma_norm_value(neg, m / 10, (s - 1) as u32);
        assert(d == spec_norm(neg, m / 10, (s - 1) as u32));
        let p = pow10((s - 1 - d.scale) as nat);
        assert(pow10((s - d.scale) as nat) == 10 * p);
        assert(d.mantissa * p == m / 10);
        assert(d.mantissa * (10 * p) == 10 * (d.mantissa * p)) by (nonlinear_arith);
        assert(10 * (m / 10) == m);
        assert(d.mantissa * pow10((s - d.scale) as nat) == m);
    } else {
        assert(pow10(0) == 1);
        assert(d.mantissa * pow10((s - d.scale) as nat) == m);
    }
}

/// Multiplying two decimals multiplies their values: brought to the common
/// scale, the product's signed mantissa is the product of the factors'.
pub proof fn lemma_mul_value(a: Dec, b: Dec)
    requires
        dec_small(a),
        dec_small(b),
    ensures
        ({
            let r = spec_mul(a, b);
            &&& r.scale <= a.scale + b.scale
            &&& dec_num(r) * pow10((a.scale + b.scale - r.scale) as nat) == dec_num(a) * dec_num(
                b,
            )
        }),
{
    let mm = a.mantissa * b.mantissa;
    assert(0 <= mm < WIDE_MANTISSA_LIMIT) by (nonlinear_arith)
        requires
            a.mantissa < MANTISSA_LIMIT,
            b.mantissa < MANTISSA_LIMIT,
            MANTISSA_LIMIT == 10_000_000_000_000_000_000u128,
            WIDE_MANTISSA_LIMIT == 100_000_000_000_000_000_000_000_000_000_000_000_000u128,
            mm == a.mantissa * b.mantissa,
    ;
    lemma_norm_value(a.neg != b.neg, mm as u128, (a.scale + b.scale) as u32);
    let r = spec_mul(a, b);
    let p = pow10((a.scale + b.scale - r.scale) as nat);
    assert(r.mantissa * p == mm);
    if mm == 0 {
        assert(a.mantissa == 0 || b.mantissa == 0) by (nonlinear_arith)
            requires
                a.mantissa * b.mantissa == 0,
        ;
        assert(dec_num(r) == 0);
        assert(dec_num(a) * dec_num(b) == 0) by (nonlinear_arith)
            requires
                a.mantissa == 0 || b.mantissa == 0,
        ;
    } else {
        assert(r.neg == (a.neg != b.neg));
        if a.neg == b.neg {
            assert(dec_num(a) * dec_num(b) == a.mantissa * b.mantissa) by (nonlinear_arith)
                requires
                    dec_num(a) == if a.neg {
                        -(a.mantissa as int)
                    } else {
                        a.mantissa as int
                    },
                    dec_num(b) == if b.neg {
                        -(b.mantissa as int)
                    } else {
                        b.mantissa as int
                    },
                    a.neg == b.neg,
            ;
        } else {
            assert(dec_num(a) * dec_num(b) == -(a.mantissa * b.mantissa)) by (nonlinear_arith)
                requires
                    dec_num(a) == if a.neg {
                        -(a.mantissa as int)
                    } else {
                        a.mantissa as int
                    },
                    dec_num(b) == if b.neg {
                        -(b.mantissa as int)
                    } else {
                        b.mantissa as int
                    },
                    a.neg != b.neg,
            ;
            assert((-(r.mantissa as int)) * p == -(r.mantissa * p)) by (nonlinear_arith);
        }
    }
}

/// The ten decimal digit characters.
pub open spec fn is_digit(c: char) -> bool {
    '0' <= c && c <= '9'
}

pub open spec fn digit_val(c: char) -> int {
    c as int - '0' as int
}

pub open spec fn all_digits(s: Seq<char>) -> bool {
    forall|i: int| 0 <= i < s.len() ==> is_digit(#[trigger] s[i])
}

/// The number a digit string denotes, most significant digit first.
pub open spec fn digits_val(s: Seq<char>) -> int
    decreases s.len(),
{
    if s.len() == 0 {
        0
    } else {
        digits_val(s.drop_last()) * 10 + digit_val(s.last())
    }
}

/// The number a sequence of digit values (not characters) denotes.
pub open spec fn digit_seq_val(s: Seq<u8>) -> int
    decreases s.len(),
{
    if s.len() == 0 {
        0
    } else {
        digit_seq_val(s.drop_last()) * 10 + s.last()
    }
}

/// Every entry is a single digit value.
pub open spec fn all_digit_vals(s: Seq<u8>) -> bool {
    forall|i: int| 0 <= i < s.len() ==> #[trigger] s[i] <= 9
}

pub open spec fn pow10(n: nat) -> int
    decreases n,
{
    if n == 0 {
        1
    } else {
        10 * pow10((n - 1) as nat)
    }
}

pub proof fn lemma_pow10_pos(n: nat)
    ensures
        pow10(n) >= 1,
    decreases n,
{
    if n > 0 {
        lemma_pow10_pos((n - 1) as nat);
    }
}

pub proof fn lemma_pow10_mono(a: nat, b: nat)
    requires
        a <= b,
    ensures
        pow10(a) <= pow10(b),
    decreases b,
{
    if a < b {
        lemma_pow10_mono(a, (b - 1) as nat);
        lemma_pow10_pos((b - 1) as nat);
    }
}

/// A digit-value sequence relates to the character sequence it was read from.
pub proof fn lemma_digit_seq_chars(cs: Seq<char>, ds: Seq<u8>)
    requires
        cs.len() == ds.len(),
        forall|i: int| 0 <= i < cs.len() ==> digit_val(#[trigger] cs[i]) == ds[i],
    ensures
        digits_val(cs) == digit_seq_val(ds),
    decreases cs.len(),
{
    if cs.len() > 0 {
        lemma_digit_seq_chars(cs.drop_last(), ds.drop_last());
    }
}

/// A digit string is smaller than ten to its length.
pub proof fn lemma_digit_seq_val_upper(s: Seq<u8>)
    requires
        all_digit_vals(s),
    ensures
        digit_seq_val(s) < pow10(s.len() as nat),
    decreases s.len(),
{
    if s.len() > 0 {
        lemma_digit_seq_val_upper(s.drop_last());
    }
}

/// A digit string whose first digit is not zero is at least ten to one less
/// than its length.
pub proof fn lemma_digit_seq_val_lower(s: Seq<u8>)
    requires
        s.len() >= 1,
        s[0] >= 1,
        all_digit_vals(s),
    ensures
        digit_seq_val(s) >= pow10((s.len() - 1) as nat),
    decreases s.len(),
{
    if s.len() == 1 {
    } else {
        assert(s.drop_last()[0] == s[0]);
        assert(all_digit_vals(s.drop_last()));
        lemma_digit_seq_val_lower(s.drop_last());
        lemma_pow10_pos((s.len() - 2) as nat);
        assert(pow10((s.len() - 1) as nat) == 10 * pow10((s.len() - 2) as nat));
        assert(digit_seq_val(s) == digit_seq_val(s.drop_last()) * 10 + s.last());
    }
}

/// Leading zero digits do not change the denoted number.
pub proof fn lemma_digit_seq_val_leading_zeros(s: Seq<u8>, z: int)
    requires
        0 <= z <= s.len(),
        forall|k: int| 0 <= k < z ==> #[trigger] s[k] == 0,
    ensures
        digit_seq_val(s) == digit_seq_val(s.subrange(z, s.len() as int)),
    decreases s.len(),
{
    if z == s.len() {
        lemma_digit_seq_val_all_zero(s);
        assert(s.subrange(z, s.len() as int) =~= Seq::<u8>::empty());
    } else {
        lemma_digit_seq_val_leading_zeros(s.drop_last(), z);
        assert(s.drop_last().subrange(z, s.drop_last().len() as int) =~= s.subrange(
            z,
            s.len() as int,
        ).drop_last());
    }
}

pub proof fn lemma_digit_seq_val_all_zero(s: Seq<u8>)
    requires
        forall|k: int| 0 <= k < s.len() ==> #[trigger] s[k] == 0,
    ensures
        digit_seq_val(s) == 0,
    decreases s.len(),
{
    if s.len() > 0 {
        lemma_digit_seq_val_all_zero(s.drop_last());
    }
}

/// The split of a wire decimal around its point: the integer digits and the
/// fractional digits, or nothing if the string is not of the grammar
/// `digits ['.' digits]` with both digit runs nonempty.
pub open spec fn spec_split_body(body: Seq<char>) -> Option<(Seq<char>, Seq<char>)> {
    match body.index_of_first('.') {
        Some(i) => {
            let ip = body.subrange(0, i);
            let fp = body.subrange(i + 1, body.len() as int);
            if ip.len() >= 1 && fp.len() >= 1 && all_digits(ip) && all_digits(fp) {
                Some((ip, fp))
            } else {
                None
            }
        },
        None => if body.len() >= 1 && all_digits(body) {
            Some((body, Seq::<char>::empty()))
        } else {
            None
        },
    }
}

/// What parsing a wire decimal string yields: an optional minus sign, then
/// integer digits, then optionally a point and fractional digits; the
/// mantissa must stay under `MANTISSA_LIMIT` and the fractional run at most
/// `SCALE_LIMIT` digits; the result is canonicalized.
///
/// This grammar is the whole of what the library accepts, a deliberate
/// restriction to the plain decimal notation the feed sends: exponent
/// notation ("1e3"), a leading plus, a bare point ("1.", ".5") and
/// anything beyond the size bounds are rejected rather than approximated.
pub open spec fn spec_parse_dec(s: Seq<char>) -> Option<Dec> {
    let neg = s.len() > 0 && s[0] == '-';
    let body = if neg {
        s.subrange(1, s.len() as int)
    } else {
        s
    };
    match spec_split_body(body) {
        Some((ip, fp)) => {
            let m = digits_val(ip + fp);
            if m < MANTISSA_LIMIT && fp.len() <= SCALE_LIMIT {
                Some(spec_norm(neg, m as u128, fp.len() as u32))
            } else {
                None
            }
        },
        None => None,
    }
}

/// Parse a wire decimal string such as "50000.00", "-1.5" or "201".
/// Exactly the grammar of `spec_parse_dec` is accepted; see there for what
/// is deliberately rejected.
#[verifier::rlimit(60)]
pub fn parse_decimal(s: &str) -> (r: Option<Dec>)
    ensures
        r == spec_parse_dec(s@),
        r matches Some(d) ==> dec_wf(d),
{
    let n = s.unicode_len();
    let neg = n > 0 && s.get_char(0) == '-';
    let start: usize = if neg {
        1
    } else {
        0
    };
    let ghost body = if neg {
        s@.subrange(1, s@.len() as int)
    } else {
        s@
    };
    proof {
        if !neg {
            assert(body =~= s@.subrange(0, s@.len() as int));
        }
        assert(body.len() == n - start);
        assert(forall|k: int| 0 <= k < body.len() ==> body[k] == s@[start + k]);
        body.index_of_first_ensures('.');
    }
    if n == start {
        return None;
    }
    // First pass: the shape. Exactly one optional point, neither first nor
    // last, and every other character a decimal digit.
    let mut dot: Option<usize> = None;
    let mut i: usize = start;
    while i < n
        invariant
            start <= i <= n,
            n == s@.len(),
            n > start,
            neg == (s@.len() > 0 && s@[0] == '-'),
            neg ==> start == 1,
            !neg ==> start == 0,
            body == (if neg {
                s@.subrange(1, s@.len() as int)
            } else {
                s@
            }),
            body.len() == n - start,
            forall|k: int| 0 <= k < body.len() ==> body[k] == s@[start + k],
            match dot {
                Some(p) => {
                    &&& start < p && p < i && p + 1 < n
                    &&& s@[p as int] == '.'
                    &&& forall|k: int| start <= k < i && k != p ==> is_digit(#[trigger] s@[k])
                },
                None => forall|k: int| start <= k < i ==> is_digit(#[trigger] s@[k]),
            },
        decreases n - i,
    {
        let c = s.get_char(i);
        if c == '.' {
            match dot {
                Some(p) => {
                    proof {
                        body.index_of_first_ensures('.');
                        assert(body[i - start] == '.');
                        assert(body.contains('.'));
                        let j = body.index_of_first('.')->Some_0;
                        if j < p - start {
                            assert(body[j] == s@[start + j]);
                            assert(is_digit(s@[start + j]));
                            assert(false);
                        }
                        if j > p - start {
                            assert(body[p - start] != '.');
                            assert(false);
                        }
                        let fp = body.subrange(j + 1, body.len() as int);
                        assert(fp[i - start - j - 1] == '.');
                        assert(!is_digit('.'));
                        assert(!all_digits(fp));
                    }
                    return None;
                },
                None => {},
            }
            if i == start {
                proof {
                    body.index_of_first_ensures('.');
                    assert(body[0] == '.');
                    assert(body.contains('.'));
                    let j = body.index_of_first('.')->Some_0;
                    if j > 0 {
                        assert(body[0] != '.');
                        assert(false);
                    }
                    assert(body.subrange(0, j).len() == 0);
                }
                return None;
            }
            if i + 1 == n {
                proof {
                    body.index_of_first_ensures('.');
                    assert(body[i - start] == '.');
                    assert(body.contains('.'));
                    let j = body.index_of_first('.')->Some_0;
                    if j < i - start {
                        assert(body[j] == s@[start + j]);
                        assert(is_digit(s@[start + j]));
                        assert(false);
                    }
                    assert(j == i - start);
                    assert(body.subrange(j + 1, body.len() as int).len() == 0);
                }
                return None;
            }
            dot = Some(i);
        } else if '0' <= c && c <= '9' {
        } else {
            proof {
                body.index_of_first_ensures('.');
                let q = i - start;
                assert(body[q] == c);
                assert(!is_digit(c));
                match body.index_of_first('.') {
                    Some(j) => {
                        let ip = body.subrange(0, j);
                        let fp = body.subrange(j + 1, body.len() as int);
                        if q < j {
                            assert(ip[q] == c);
                            assert(!all_digits(ip));
                        } else if q > j {
                            assert(fp[q - j - 1] == c);
                            assert(!all_digits(fp));
                        } else {
                            assert(body[j] == '.');
                            assert(false);
                        }
                    },
                    None => {
                        assert(!all_digits(body));
                    },
                }
            }
            return None;
        }
        i = i + 1;
    }
    // The shape is valid: name the two digit runs.
    let ip_end: usize = match dot {
        Some(p) => p,
        None => n,
    };
    let frac_len: usize = match dot {
        Some(p) => n - p - 1,
        None => 0,
    };
    let dcount: usize = match dot {
        Some(_) => n - start - 1,
        None => n - start,
    };
    let ghost gip = body.subrange(0, ip_end - start);
    let ghost gfp = body.subrange(
        if dot is Some {
            ip_end - start + 1
        } else {
            ip_end - start
        },
        body.len() as int,
    );
    proof {
        body.index_of_first_ensures('.');
        match dot {
            Some(p) => {
                assert(body[p - start] == '.');
                assert(body.contains('.'));
                let j = body.index_of_first('.')->Some_0;
                if j < p - start {
                    assert(body[j] == s@[start + j]);
                    assert(is_digit(s@[start + j]));
                    assert(false);
                }
                if j > p - start {
                    assert(body[p - start] != '.');
                    assert(false);
                }
                assert(j == p - start);
                assert(gip.len() >= 1);
                assert(gfp.len() >= 1);
                assert(forall|k: int| 0 <= k < gip.len() ==> is_digit(#[trigger] gip[k]));
                assert(forall|k: int| 0 <= k < gfp.len() ==> is_digit(#[trigger] gfp[k]));
                assert(spec_split_body(body) == Some((gip, gfp)));
            },
            None => {
                if body.index_of_first('.') is Some {
                    let j = body.index_of_first('.')->Some_0;
                    assert(body[j] == s@[start + j]);
                    assert(is_digit(s@[start + j]));
                    assert(false);
                }
                assert(gip =~= body);
                assert(gfp =~= Seq::<char>::empty());
                assert(forall|k: int| 0 <= k < body.len() ==> is_digit(#[trigger] body[k]));
                assert(spec_split_body(body) == Some((gip, gfp)));
            },
        }
    }
    let ghost dd = gip + gfp;
    proof {
        assert(dd.len() == dcount);
        assert(forall|t: int|
            0 <= t < dd.len() ==> #[trigger] dd[t] == s@[if t < ip_end - start {
                start + t
            } else {
                start + t + 1
            }]);
        assert(forall|t: int| 0 <= t < dd.len() ==> is_digit(#[trigger] dd[t]));
    }
    // Second pass: read the digit values in order, skipping the point.
    let mut digits: Vec<u8> = Vec::new();
    let mut k: usize = 0;
    while k < dcount
        invariant
            k <= dcount,
            n == s@.len(),
            n > start,
            dcount == dd.len(),
            dcount <= n - start,
            start <= ip_end <= n,
            ip_end == n ==> dcount == n - start,
            ip_end < n ==> dcount == n - start - 1 && ip_end > start,
            forall|t: int|
                0 <= t < dd.len() ==> #[trigger] dd[t] == s@[if t < ip_end - start {
                    start + t
                } else {
                    start + t + 1
                }],
            forall|t: int| 0 <= t < dd.len() ==> is_digit(#[trigger] dd[t]),
            digits@.len() == k,
            forall|t: int|
                0 <= t < k ==> #[trigger] digits@[t] <= 9 && digits@[t] == digit_val(dd[t]),
        decreases dcount - k,
    {
        let pos: usize = if k < ip_end - start {
            start + k
        } else {
            start + k + 1
        };
        let c = s.get_char(pos);
        proof {
            assert(dd[k as int] == s@[pos as int]);
            assert(is_digit(c));
        }
        let d: u8 = ((c as u32) - ('0' as u32)) as u8;
        digits.push(d);
        k = k + 1;
    }
    // Leading zeros carry no value; what remains must fit the mantissa bound.
    let mut z: usize = 0;
    while z < dcount && digits[z] == 0
        invariant
            z <= dcount,
            dcount == dd.len(),
            digits@.len() == dcount,
            forall|t: int|
                0 <= t < dcount ==> #[trigger] digits@[t] <= 9 && digits@[t] == digit_val(dd[t]),
            forall|t: int| 0 <= t < dd.len() ==> is_digit(#[trigger] dd[t]),
            forall|t: int| 0 <= t < z ==> #[trigger] digits@[t] == 0,
        decreases dcount - z,
    {
        z = z + 1;
    }
    proof {
        lemma_digit_seq_chars(dd, digits@);
        lemma_digit_seq_val_leading_zeros(digits@, z as int);
        assert(pow10(19) == MANTISSA_LIMIT) by {
            reveal_with_fuel(pow10, 21);
        }
    }
    if dcount - z > 19 {
        proof {
            let sig = digits@.subrange(z as int, dcount as int);
            assert(sig[0] == digits@[z as int]);
            assert(digits@[z as int] != 0);
            assert(forall|t: int| 0 <= t < sig.len() ==> #[trigger] sig[t] <= 9);
            lemma_digit_seq_val_lower(sig);
            lemma_pow10_mono(19, (sig.len() - 1) as nat);
            assert(digit_seq_val(digits@) >= MANTISSA_LIMIT);
        }
        return None;
    }
    if frac_len > 19 {
        proof {
            assert(gfp.len() > SCALE_LIMIT);
        }
        return None;
    }
    // Third pass: accumulate the mantissa; the bound proved above keeps it
    // inside u128.
    let mut m: u128 = 0;
    let mut t: usize = z;
    while t < dcount
        invariant
            z <= t <= dcount,
            dcount - z <= 19,
            digits@.len() == dcount,
            forall|q: int| 0 <= q < dcount ==> #[trigger] digits@[q] <= 9,
            m == digit_seq_val(digits@.subrange(z as int, t as int)),
            m < MANTISSA_LIMIT,
        decreases dcount - t,
    {
        let d = digits[t];
        proof {
            let prev = digits@.subrange(z as int, t as int);
            let next = digits@.subrange(z as int, t + 1);
            assert(next.drop_last() =~= prev);
            assert(next.last() == digits@[t as int]);
            assert(forall|q: int| 0 <= q < next.len() ==> #[trigger] next[q] <= 9);
            lemma_digit_seq_val_upper(next);
            lemma_pow10_mono(next.len() as nat, 19);
            assert(pow10(19) == MANTISSA_LIMIT) by {
                reveal_with_fuel(pow10, 21);
            }
        }
        m = m * 10 + (d as u128);
        t = t + 1;
    }
    proof {
        assert(digits@.subrange(z as int, dcount as int) =~= digits@.subrange(
            z as int,
            digits@.len() as int,
        ));
        lemma_digit_seq_chars(dd, digits@);
        lemma_digit_seq_val_leading_zeros(digits@, z as int);
        assert(m == digits_val(dd));
        assert(gfp.len() == frac_len);
    }
    let result = Dec::normalize(neg, m, frac_len as u32);
    proof {
        lemma_norm_canonical(neg, m, frac_len as u32);
    }
    Some(result)
}

} // verus!
