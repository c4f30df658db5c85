//! Pitch transforms over mono 16-bit PCM sample buffers.
//!
//! A multiplicative factor is held in thousandths (`milli`), so `1000` is
//! "unchanged" and the identity band `|factor - 1| < 0.01` is
//! `990 < milli < 1010`. Resampling reads the source at stride `factor`,
//! interpolating linearly between the floor and ceiling sample positions.

use vstd::prelude::*;
use crate::strutil::{chars_of, lower_of, str_eq, to_lower};
use vstd::string::StringExecFns;

verus! {

/// Largest factor the crate accepts, in thousandths (a factor of 4000x).
pub const MAX_FACTOR_MILLI: u32 = 4000000;

/// A finite, positive multiplicative factor in thousandths.
/// `milli == 1000` means "leave the audio unchanged".
#[derive(Clone, Copy, Debug)]
pub struct Factor {
    pub milli: u32,
}

/// The identity band: factors within one hundredth of 1.0 leave the buffer
/// untouched, by contract rather than by numeric accident.
pub open spec fn identity_factor(m: nat) -> bool {
    990 < m < 1010
}

/// Output length of a resample by `m` thousandths: `floor(n * 1000 / m)`.
pub open spec fn resampled_len(n: nat, m: nat) -> nat
    recommends
        m >= 1,
{
    (n * 1000) / m
}

/// Linear interpolation between `a` and `b` with weight `f` thousandths on `b`.
pub open spec fn lerp(a: int, b: int, f: int) -> int {
    if a <= b {
        a + ((b - a) * f) / 1000
    } else {
        a - ((a - b) * f) / 1000
    }
}

/// Index below the source position of output sample `i`.
pub open spec fn source_floor(i: nat, m: nat) -> nat {
    (i * m) / 1000
}

/// Fractional part of the source position of output sample `i`, in thousandths.
pub open spec fn source_frac(i: nat, m: nat) -> nat {
    (i * m) % 1000
}

/// Index above the source position, clamped to the last sample.
pub open spec fn source_ceil(i: nat, m: nat, n: nat) -> nat
    recommends
        n >= 1,
{
    let fl = source_floor(i, m);
    let up = if source_frac(i, m) == 0 {
        fl
    } else {
        fl + 1
    };
    if up > n - 1 {
        (n - 1) as nat
    } else {
        up
    }
}

/// The value of output sample `i` of a resample of `s` by `m` thousandths.
pub open spec fn resampled_at(s: Seq<i16>, i: nat, m: nat) -> int
    recommends
        s.len() >= 1,
{
    let fl = source_floor(i, m);
    let ce = source_ceil(i, m, s.len());
    if fl == ce {
        s[fl as int] as int
    } else {
        lerp(s[fl as int] as int, s[ce as int] as int, source_frac(i, m) as int)
    }
}

impl Factor {
    /// A factor is well formed when it is positive and within the accepted range.
    pub open spec fn wf(&self) -> bool {
        1 <= self.milli <= MAX_FACTOR_MILLI
    }

    /// Whether this factor falls in the identity band.
    pub fn is_identity(&self) -> (r: bool)
        ensures
            r == identity_factor(self.milli as nat),
    {
        990 < self.milli && self.milli < 1010
    }
}

/// The preset pitch characters: each maps to a fixed factor.
#[derive(Clone, Copy, Debug, PartialEq, Eq, Structural)]
pub enum PitchPreset {
    Slomo,
    Deep,
    Child,
    Helium,
}

impl PitchPreset {
    /// The fixed factor of this preset, in thousandths.
    pub open spec fn factor_milli(&self) -> nat {
        match self {
            PitchPreset::Slomo => 400,
            PitchPreset::Deep => 850,
            PitchPreset::Child => 1200,
            PitchPreset::Helium => 1500,
        }
    }

    /// The fixed factor this preset stands for.
    pub fn factor(&self) -> (r: Factor)
        ensures
            r.milli as nat == self.factor_milli(),
            r.wf(),
    {
        match self {
            PitchPreset::Slomo => Factor { milli: 400 },
            PitchPreset::Deep => Factor { milli: 850 },
            PitchPreset::Child => Factor { milli: 1200 },
            PitchPreset::Helium => Factor { milli: 1500 },
        }
    }
}

/// A pitch request: an explicit factor or a named preset.
#[derive(Clone, Debug)]
pub enum PitchArg {
    Value(Factor),
    Preset(PitchPreset),
}

impl PitchArg {
    /// The factor this request stands for, in thousandths.
    pub open spec fn factor_milli(&self) -> nat {
        match self {
            PitchArg::Value(f) => f.milli as nat,
            PitchArg::Preset(p) => p.factor_milli(),
        }
    }

    pub open spec fn wf(&self) -> bool {
        match self {
            PitchArg::Value(f) => f.wf(),
            PitchArg::Preset(_) => true,
        }
    }

    /// The multiplicative factor this request stands for.
    pub fn as_factor(&self) -> (r: Factor)
        requires
            self.wf(),
        ensures
            r.milli as nat == self.factor_milli(),
            r.wf(),
    {
        match self {
            PitchArg::Value(f) => *f,
            PitchArg::Preset(p) => p.factor(),
        }
    }
}

/// Resample a mono PCM buffer, changing pitch and duration together: output
/// sample `i` is read from source position `i * factor` by linear
/// interpolation. Factors in the identity band return the buffer unchanged.
pub fn pitch_shift(samples: &Vec<i16>, factor: &Factor) -> (r: Vec<i16>)
    requires
        factor.wf(),
        1000 * samples@.len() < usize::MAX,
    ensures
        identity_factor(factor.milli as nat) ==> r@ == samples@,
        !identity_factor(factor.milli as nat) ==> r@.len() == resampled_len(
            samples@.len(),
            factor.milli as nat,
        ),
        !identity_factor(factor.milli as nat) ==> forall|i: int|
            0 <= i < r@.len() ==> r@[i] as int == resampled_at(
                samples@,
                i as nat,
                factor.milli as nat,
            ),
{
    if factor.is_identity() {
        return copy_samples(samples);
    }
    let m = factor.milli as usize;
    let n = samples.len();
    let new_len: usize = (n * 1000) / m;
    let mut out: Vec<i16> = Vec::new();
    let mut i: usize = 0;
    proof {
        assert(new_len == resampled_len(n as nat, m as nat));
    }
    while i < new_len
        invariant
            0 <= i <= new_len,
            n == samples@.len(),
            1 <= m <= MAX_FACTOR_MILLI,
            1000 * n < usize::MAX,
            new_len == resampled_len(n as nat, m as nat),
            out@.len() == i,
            forall|j: int|
                0 <= j < i ==> out@[j] as int == resampled_at(samples@, j as nat, m as nat),
        decreases new_len - i,
    {
        proof {
            lemma_source_floor_in_range(i as nat, m as nat, n as nat);
        }
        let pos: usize = i * m;
        let fl: usize = pos / 1000;
        let frac: usize = pos % 1000;
        let up: usize = if frac == 0 {
            fl
        } else {
            fl + 1
        };
        let ce: usize = if up > n - 1 {
            n - 1
        } else {
            up
        };
        let a = samples[fl];
        let b = samples[ce];
        let v: i16 = if fl == ce {
            a
        } else {
            lerp_exec(a, b, frac as u32)
        };
        out.push(v);
        i += 1;
    }
    out
}

/// Interpolate between two samples; the weight is in thousandths and below 1000.
fn lerp_exec(a: i16, b: i16, f: u32) -> (r: i16)
    requires
        f < 1000,
    ensures
        r as int == lerp(a as int, b as int, f as int),
{
    if a <= b {
        let d: u32 = (b as i32 - a as i32) as u32;
        proof {
            lemma_weighted_step_bound(d as nat, f as nat);
        }
        let step: u32 = ((d as u64 * f as u64) / 1000) as u32;
        (a as i32 + step as i32) as i16
    } else {
        let d: u32 = (a as i32 - b as i32) as u32;
        proof {
            lemma_weighted_step_bound(d as nat, f as nat);
        }
        let step: u32 = ((d as u64 * f as u64) / 1000) as u32;
        (a as i32 - step as i32) as i16
    }
}

/// A sub-unit weight never carries the interpolation past the far sample.
proof fn lemma_weighted_step_bound(d: nat, f: nat)
    requires
        d <= 65535,
        f < 1000,
    ensures
        d * f < 65536000,
        (d * f) / 1000 <= d,
{
    assert(d * f < 65536000) by (nonlinear_arith)
        requires d <= 65535, f < 1000,
    ;
    assert(d * f <= d * 1000) by (nonlinear_arith)
        requires f < 1000,
    ;
    vstd::arithmetic::div_mod::lemma_div_is_ordered((d * f) as int, (d * 1000) as int, 1000);
    assert((d * 1000) / 1000 == d) by (nonlinear_arith);
}

/// Output positions always read inside the source buffer.
proof fn lemma_source_floor_in_range(i: nat, m: nat, n: nat)
    requires
        m >= 1,
        i < resampled_len(n, m),
    ensures
        source_floor(i, m) < n,
        n >= 1,
{
    assert(i * m < n * 1000) by (nonlinear_arith)
        requires m >= 1, i < (n * 1000) / m,
    ;
    assert((i * m) / 1000 < n) by (nonlinear_arith)
        requires i * m < n * 1000,
    ;
    assert(n >= 1) by (nonlinear_arith)
        requires m >= 1, i < (n * 1000) / m, i >= 0,
    ;
}

/// An element-for-element copy of a sample buffer.
pub fn copy_samples(samples: &Vec<i16>) -> (r: Vec<i16>)
    ensures
        r@ == samples@,
{
    let mut out: Vec<i16> = Vec::new();
    let mut i: usize = 0;
    while i < samples.len()
        invariant
            0 <= i <= samples@.len(),
            out@ == samples@.subrange(0, i as int),
        decreases samples@.len() - i,
    {
        out.push(samples[i]);
        proof {
            assert(out@ =~= samples@.subrange(0, i + 1));
        }
        i += 1;
    }
    proof {
        assert(out@ =~= samples@);
    }
    out
}

/// Raising the pitch (factor above the identity band) strictly shortens a
/// non-empty buffer.
pub proof fn lemma_pitch_up_shortens(n: nat, m: nat)
    requires
        m >= 1010,
        n >= 1,
    ensures
        resampled_len(n, m) < n,
{
    assert((n * 1000) / m < n) by (nonlinear_arith)
        requires m >= 1010, n >= 1,
    ;
}

/// Lowering the pitch (factor below the identity band) strictly lengthens the
/// buffer, whenever the buffer is long enough for the growth to round up to a
/// whole sample: `n * (1000 - m) >= m`.
pub proof fn lemma_pitch_down_lengthens(n: nat, m: nat)
    requires
        1 <= m <= 990,
        n * (1000 - m) >= m,
    ensures
        resampled_len(n, m) > n,
{
    assert(n * 1000 >= m * (n + 1)) by (nonlinear_arith)
        requires 1 <= m <= 990, n * (1000 - m) >= m,
    ;
    assert((n * 1000) / m >= n + 1) by (nonlinear_arith)
        requires m >= 1, n * 1000 >= m * (n + 1),
    ;
}


/// A decimal digit.
pub open spec fn is_digit(c: char) -> bool {
    48 <= c as int <= 57
}

/// The value of a decimal digit.
pub open spec fn digit_val(c: char) -> nat
    recommends
        is_digit(c),
{
    (c as int - 48) as nat
}

/// The value of a digit string, most significant first.
pub open spec fn digits_val(s: Seq<char>) -> nat
    decreases s.len(),
{
    if s.len() == 0 {
        0
    } else {
        digits_val(s.drop_last()) * 10 + digit_val(s.last())
    }
}

pub open spec fn all_digits(s: Seq<char>) -> bool {
    forall|i: int| 0 <= i < s.len() ==> is_digit(s[i])
}

/// Index of the first dot, or the length.
pub open spec fn dot_at(s: Seq<char>) -> nat
    decreases s.len(),
{
    if s.len() == 0 || s[0] == '.' {
        0
    } else {
        1 + dot_at(s.drop_first())
    }
}

/// The digits before the dot.
pub open spec fn int_part(s: Seq<char>) -> Seq<char> {
    s.take(dot_at(s) as int)
}

/// The digits after the dot (empty when there is no dot).
pub open spec fn frac_part(s: Seq<char>) -> Seq<char> {
    if dot_at(s) == s.len() {
        Seq::empty()
    } else {
        s.skip(dot_at(s) as int + 1)
    }
}

/// The thousandths contributed by a fractional digit string: its first three
/// digits, padded with zeros.
pub open spec fn frac_milli(f: Seq<char>) -> nat {
    if f.len() == 0 {
        0
    } else if f.len() == 1 {
        digit_val(f[0]) * 100
    } else if f.len() == 2 {
        digits_val(f) * 10
    } else {
        digits_val(f.take(3))
    }
}

/// The factor, in thousandths, a decimal string denotes: digits around at
/// most one dot, at least one digit in all.
pub open spec fn decimal_milli(s: Seq<char>) -> Option<nat> {
    if all_digits(int_part(s)) && all_digits(frac_part(s)) && int_part(s).len() + frac_part(
        s,
    ).len() >= 1 {
        Some(digits_val(int_part(s)) * 1000 + frac_milli(frac_part(s)))
    } else {
        None
    }
}

/// The command-line name of a preset.
pub open spec fn preset_name(p: PitchPreset) -> Seq<char> {
    match p {
        PitchPreset::Slomo => "slomo"@,
        PitchPreset::Deep => "deep"@,
        PitchPreset::Child => "child"@,
        PitchPreset::Helium => "helium"@,
    }
}

pub open spec fn is_preset_name(x: Seq<char>) -> bool {
    ||| x == "slomo"@
    ||| x == "deep"@
    ||| x == "child"@
    ||| x == "helium"@
}

/// A prefix one longer is all digits exactly when the shorter one is and
/// the new character is a digit.
proof fn lemma_all_digits_step(s: Seq<char>, i: int)
    requires
        0 <= i < s.len(),
    ensures
        all_digits(s.subrange(0, i + 1)) == (all_digits(s.subrange(0, i)) && is_digit(s[i])),
{
    let a = s.subrange(0, i);
    let b = s.subrange(0, i + 1);
    assert(b[i] == s[i]);
    if all_digits(a) && is_digit(s[i]) {
        assert forall|k: int| 0 <= k < b.len() implies is_digit(b[k]) by {
            if k < i {
                assert(b[k] == a[k]);
            }
        }
    }
    if all_digits(b) {
        assert forall|k: int| 0 <= k < a.len() implies is_digit(a[k]) by {
            assert(a[k] == b[k]);
        }
    }
}

/// The same, for a run starting after the dot.
proof fn lemma_all_digits_step_from(s: Seq<char>, lo: int, j: int)
    requires
        0 <= lo <= j < s.len(),
    ensures
        all_digits(s.subrange(lo, j + 1)) == (all_digits(s.subrange(lo, j)) && is_digit(s[j])),
{
    let a = s.subrange(lo, j);
    let b = s.subrange(lo, j + 1);
    assert(b[j - lo] == s[j]);
    if all_digits(a) && is_digit(s[j]) {
        assert forall|k: int| 0 <= k < b.len() implies is_digit(b[k]) by {
            if k < j - lo {
                assert(b[k] == a[k]);
            }
        }
    }
    if all_digits(b) {
        assert forall|k: int| 0 <= k < a.len() implies is_digit(a[k]) by {
            assert(a[k] == b[k]);
        }
    }
}

/// The value of a decimal digit character, or nothing for any other
/// character.
fn digit_of(c: char) -> (r: Option<u32>)
    ensures
        r matches Some(v) ==> is_digit(c) && v == digit_val(c),
        r is None ==> !is_digit(c),
{
    let cv = c as u32;
    if 48 <= cv && cv <= 57 {
        Some(cv - 48)
    } else {
        None
    }
}

/// Parse a pitch argument: a decimal factor first, else a preset name
/// compared in lowercase, else an error naming the input.
///
/// A factor is written as decimal digits around at most one dot (`2`,
/// `1.2`, `.5`), read to thousandths with further digits truncated; it must
/// be positive and at most `MAX_FACTOR_MILLI` thousandths. Non-positive,
/// non-finite and out-of-range factors are configuration errors, rejected
/// here before any work begins.
pub fn parse_pitch_arg(s: &str) -> (r: Result<PitchArg, String>)
    ensures
        match r {
            Ok(a) => match a {
                PitchArg::Value(f) => decimal_milli(s@) == Some(f.milli as nat) && f.wf(),
                PitchArg::Preset(p) => decimal_milli(s@) is None && lower_of(s@) == preset_name(
                    p,
                ),
            },
            Err(e) => ({
                &&& match decimal_milli(s@) {
                    Some(v) => !(1 <= v <= MAX_FACTOR_MILLI),
                    None => !is_preset_name(lower_of(s@)),
                }
                &&& e@ == "Invalid pitch value or preset: "@ + s@
            }),
        },
{
    let cs = chars_of(s);
    let n = cs.len();
    let mut d: usize = 0;
    while d < n && cs[d] != '.'
        invariant
            d <= n,
            n == cs@.len(),
            cs@ == s@,
            forall|k: int| 0 <= k < d ==> cs@[k] != '.',
        decreases n - d,
    {
        d += 1;
    }
    proof {
        lemma_dot_at_exact(cs@, d as nat);
        assert(int_part(s@) =~= cs@.subrange(0, d as int));
        if d < n {
            assert(frac_part(s@) =~= cs@.subrange(d + 1, n as int));
        } else {
            assert(frac_part(s@) =~= Seq::<char>::empty());
        }
    }
    // Integer part: validate and accumulate, noting when it outgrows the cap.
    let mut int_val: u64 = 0;
    let mut big: bool = false;
    let mut ok: bool = true;
    let mut i: usize = 0;
    proof {
        assert(cs@.subrange(0, 0) =~= Seq::<char>::empty());
    }
    while i < d
        invariant
            i <= d <= n,
            n == cs@.len(),
            cs@ == s@,
            ok <==> all_digits(cs@.subrange(0, i as int)),
            ok && !big ==> int_val == digits_val(cs@.subrange(0, i as int)) && int_val
                <= MAX_FACTOR_MILLI,
            ok && big ==> digits_val(cs@.subrange(0, i as int)) > MAX_FACTOR_MILLI,
        decreases d - i,
    {
        let c = cs[i];
        proof {
            lemma_all_digits_step(cs@, i as int);
            assert(cs@.subrange(0, i + 1).drop_last() =~= cs@.subrange(0, i as int));
            assert(cs@.subrange(0, i + 1).last() == cs@[i as int]);
            assert(digits_val(cs@.subrange(0, i + 1)) == digits_val(cs@.subrange(0, i as int))
                * 10 + digit_val(cs@[i as int]));
        }
        match digit_of(c) {
            None => {
                ok = false;
            },
            Some(dv) => {
                if ok && !big {
                    let next: u64 = int_val * 10 + dv as u64;
                    if next > MAX_FACTOR_MILLI as u64 {
                        big = true;
                    }
                    int_val = next;
                } else if ok {
                    proof {
                        let pre = cs@.subrange(0, i as int);
                        assert(digits_val(pre) * 10 >= digits_val(pre)) by (nonlinear_arith);
                    }
                }
            },
        }
        i += 1;
    }
    // Fractional part: validate every digit, accumulate the first three.
    let mut fval: u64 = 0;
    let mut fcount: usize = 0;
    if d < n {
        let mut j: usize = d + 1;
        proof {
            assert(cs@.subrange(d + 1, d + 1) =~= Seq::<char>::empty());
        }
        while j < n
            invariant
                d < n,
                d + 1 <= j <= n,
                n == cs@.len(),
                cs@ == s@,
                ok <==> all_digits(cs@.subrange(0, d as int)) && all_digits(
                    cs@.subrange(d + 1, j as int),
                ),
                ok ==> fcount == (if j - d - 1 < 3 {
                    j - d - 1
                } else {
                    3
                }),
                ok ==> fval == digits_val(cs@.subrange(d + 1, d + 1 + fcount as int)),
                fcount <= 3,
                fcount == 0 ==> fval == 0,
                fcount == 1 ==> fval <= 9,
                fcount == 2 ==> fval <= 99,
                fval <= 999,
                ok && !big ==> int_val == digits_val(cs@.subrange(0, d as int)) && int_val
                    <= MAX_FACTOR_MILLI,
                ok && big ==> digits_val(cs@.subrange(0, d as int)) > MAX_FACTOR_MILLI,
            decreases n - j,
        {
            let c = cs[j];
            proof {
                lemma_all_digits_step_from(cs@, d + 1, j as int);
                if ok && fcount < 3 {
                    assert(cs@.subrange(d + 1, d + 1 + (fcount + 1) as int).drop_last()
                        =~= cs@.subrange(d + 1, d + 1 + fcount as int));
                    assert(cs@.subrange(d + 1, d + 1 + (fcount + 1) as int).last()
                        == cs@[d + 1 + fcount as int]);
                }
            }
            match digit_of(c) {
                None => {
                    ok = false;
                },
                Some(dv) => {
                    if ok && fcount < 3 {
                        proof {
                            assert(j as int == d + 1 + fcount as int);
                        }
                        fval = fval * 10 + dv as u64;
                        fcount += 1;
                    }
                },
            }
            j += 1;
        }
    }
    let has_digit = d > 0 || (d < n && n - d - 1 > 0);
    if ok && has_digit {
        // A valid decimal: scale the fraction and test the range.
        let frac_scaled: u64 = if d >= n {
            0
        } else {
            let flen = n - d - 1;
            if flen == 0 {
                0
            } else if flen == 1 {
                fval * 100
            } else if flen == 2 {
                fval * 10
            } else {
                fval
            }
        };
        proof {
            let f = frac_part(s@);
            if d < n {
                assert(f =~= cs@.subrange(d + 1, n as int));
                if f.len() >= 3 {
                    assert(cs@.subrange(d + 1, d + 4) =~= f.take(3));
                } else if f.len() == 2 {
                    assert(cs@.subrange(d + 1, d + 3) =~= f);
                } else if f.len() == 1 {
                    assert(cs@.subrange(d + 1, d + 2) =~= f);
                    assert(f.drop_last() =~= Seq::<char>::empty());
                    assert(f.last() == f[0]);
                }
            }
            assert(frac_scaled == frac_milli(frac_part(s@)));
        }
        if !big {
            let total: u64 = int_val * 1000 + frac_scaled;
            if 1 <= total && total <= MAX_FACTOR_MILLI as u64 {
                return Ok(PitchArg::Value(Factor { milli: total as u32 }));
            }
            let mut e = String::new();
            e.append("Invalid pitch value or preset: ");
            e.append(s);
            return Err(e);
        }
        proof {
            let iv = digits_val(int_part(s@));
            assert(iv * 1000 >= iv) by (nonlinear_arith);
            assert(iv * 1000 + frac_milli(frac_part(s@)) > MAX_FACTOR_MILLI);
        }
        let mut e = String::new();
        e.append("Invalid pitch value or preset: ");
        e.append(s);
        return Err(e);
    }
    proof {
        if ok && !has_digit {
            assert(int_part(s@).len() + frac_part(s@).len() == 0);
        }
    }
    // Not a number: try the preset names, lowercased.
    let lower = to_lower(s);
    if str_eq(lower.as_str(), "slomo") {
        return Ok(PitchArg::Preset(PitchPreset::Slomo));
    }
    if str_eq(lower.as_str(), "deep") {
        return Ok(PitchArg::Preset(PitchPreset::Deep));
    }
    if str_eq(lower.as_str(), "child") {
        return Ok(PitchArg::Preset(PitchPreset::Child));
    }
    if str_eq(lower.as_str(), "helium") {
        return Ok(PitchArg::Preset(PitchPreset::Helium));
    }
    let mut e = String::new();
    e.append("Invalid pitch value or preset: ");
    e.append(s);
    Err(e)
}

/// The scan that stopped at `i` found the first dot.
proof fn lemma_dot_at_exact(s: Seq<char>, i: nat)
    requires
        i <= s.len(),
        forall|k: int| 0 <= k < i ==> s[k] != '.',
        i == s.len() || s[i as int] == '.',
    ensures
        dot_at(s) == i,
    decreases i,
{
    if i == 0 {
    } else {
        lemma_dot_at_exact(s.drop_first(), (i - 1) as nat);
    }
}

/// The identity fast path of the duration-preserving pitch shift: factors
/// in the identity band pass the buffer through bit-identically; any other
/// factor is handed on to the external tool (`None` here).
pub fn true_pitch_gate(samples: &Vec<i16>, factor: &Factor) -> (r: Option<Vec<i16>>)
    ensures
        identity_factor(factor.milli as nat) ==> (r matches Some(v) && v@ == samples@),
        !identity_factor(factor.milli as nat) ==> r is None,
{
    if factor.is_identity() {
        Some(copy_samples(samples))
    } else {
        None
    }
}

/// The outcome of a duration-preserving pitch shift through the external
/// tool: its output when the tool succeeded, the original buffer unchanged
/// when it failed (graceful degradation, not a hard failure).
pub fn true_pitch_merge(original: &Vec<i16>, processed: Option<Vec<i16>>) -> (r: Vec<i16>)
    ensures
        processed matches Some(v) ==> r@ == v@,
        processed is None ==> r@ == original@,
{
    match processed {
        Some(v) => v,
        None => copy_samples(original),
    }
}



} // verus!
