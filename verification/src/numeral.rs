//! How a numeral reads when shown as a floating-point number: the shortest
//! decimal form of its value, as `{:?}` prints an `f64`.
//!
//! The rendering works on the digits alone.  It tells exactly which numerals
//! read as zero and which as infinity.  Between them it agrees with the
//! printed `f64` for every numeral of at most 15 significant digits whose
//! value lies in the normal range (from about 2.2e-308 on); on longer
//! numerals, and on values in the subnormal range, `f64` rounds to fewer
//! digits, and that rounding is not modelled here.
use vstd::prelude::*;
use crate::text::{chars_of, decimal, push_char, push_decimal};

verus! {

/// A numeral split at its first point: the digits before it, those after
/// it, and whether there was a point.
pub open spec fn split_point(s: Seq<char>) -> (Seq<char>, Seq<char>, bool)
    decreases s.len(),
{
    if s.len() == 0 {
        (Seq::empty(), Seq::empty(), false)
    } else {
        let (a, b, found) = split_point(s.drop_last());
        let c = s.last();
        if found {
            (a, b.push(c), true)
        } else if c == '.' {
            (a, b, true)
        } else {
            (a.push(c), b, false)
        }
    }
}

/// How many `0` chars a sequence starts with.
pub open spec fn leading_zeros(d: Seq<char>) -> nat
    decreases d.len(),
{
    if d.len() > 0 && d[0] == '0' {
        1 + leading_zeros(d.drop_first())
    } else {
        0
    }
}

/// How many `0` chars a sequence ends with.
pub open spec fn trailing_zeros(d: Seq<char>) -> nat
    decreases d.len(),
{
    if d.len() > 0 && d.last() == '0' {
        1 + trailing_zeros(d.drop_last())
    } else {
        0
    }
}

/// `n` zero digits.
pub open spec fn zeros(n: nat) -> Seq<char> {
    Seq::new(n, |_i: int| '0')
}

/// The significant digits of a numeral (no leading or trailing zeros).
pub open spec fn mantissa(s: Seq<char>) -> Seq<char> {
    let (ip, fp, _found) = split_point(s);
    let core = (ip + fp).skip(leading_zeros(ip + fp) as int);
    core.take(core.len() - trailing_zeros(core))
}

/// The decimal exponent of a numeral's first significant digit: the value is
/// `d.ddd × 10^e` for its mantissa `dddd`.
pub open spec fn exponent(s: Seq<char>) -> int {
    let (ip, fp, _found) = split_point(s);
    let core = (ip + fp).skip(leading_zeros(ip + fp) as int);
    mantissa(s).len() + trailing_zeros(core) - fp.len() - 1
}

/// The significant digits of 2^-1075, half the smallest positive `f64`
/// (they are those of 5^1075); its first digit stands at 10^-324.  A value
/// up to it, itself included (a tie rounds to the even zero), reads as 0.
pub const HALF_MIN_DIGITS: &'static str = "24703282292062327208828439643411068618252990130716238221279284125033775363510437593264991818081799618989828234772285886546332835517796989819938739800539093906315035659515570226392290858392449105184435931802849936536152500319370457678249219365623669863658480757001585769269903706311928279558551332927834338409351978015531246597263579574622766465272827220056374006485499977096599470454020828166226237857393450736339007967761930577506740176324673600968951340535537458516661134223766678604162159680461914467291840300530057530849048765391711386591646239524912623653881879636239373280423891018672348497668235089863388587925628302755995657524455507255189313690836254779186948667994968324049705821028513185451396213837722826145437693412532098591327667236328125";

/// The significant digits of 2^1024 - 2^970, halfway from the largest
/// finite `f64` to 2^1024; its first digit stands at 10^308.  A value from
/// it on, itself included (a tie rounds to the even infinity), reads as
/// infinity.
pub const OVERFLOW_DIGITS: &'static str = "179769313486231580793728971405303415079934132710037826936173778980444968292764750946649017977587207096330286416692887910946555547851940402630657488671505820681908902000708383676273854845817711531764475730270069855571366959622842914819860834936475292719074168444365510704342711559699508093042880177904174497792";

/// Whether the decimal fraction `0.a` is at most `0.b`, for digit strings
/// without trailing zeros.
pub open spec fn digits_le(a: Seq<char>, b: Seq<char>) -> bool
    decreases a.len(),
{
    if a.len() == 0 {
        true
    } else if b.len() == 0 {
        false
    } else if a[0] != b[0] {
        a[0] < b[0]
    } else {
        digits_le(a.drop_first(), b.drop_first())
    }
}

/// Whether a numeral reads as the `f64` zero: it is zero, or at most
/// 2^-1075.
pub open spec fn reads_zero(s: Seq<char>) -> bool {
    let m = mantissa(s);
    let e = exponent(s);
    m.len() == 0 || e < -324 || (e == -324 && digits_le(m, HALF_MIN_DIGITS@))
}

/// Whether a numeral reads as the `f64` infinity: it is at least
/// 2^1024 - 2^970.
pub open spec fn reads_infinite(s: Seq<char>) -> bool {
    let m = mantissa(s);
    let e = exponent(s);
    e > 308 || (e == 308 && digits_le(OVERFLOW_DIGITS@, m))
}

/// A numeral shown as `{:?}` shows an `f64`: `inf` and `0.0` for what reads
/// as infinity and zero; scientific
/// form (`1.5e16`, `1e-5`) when the exponent is below -4 or at least 16;
/// else plain decimals with at least one digit after the point.
pub open spec fn float_debug(s: Seq<char>) -> Seq<char> {
    if reads_infinite(s) {
        "inf"@
    } else if reads_zero(s) {
        "0.0"@
    } else {
        render(mantissa(s), exponent(s))
    }
}

/// The value `m[0].m[1..] × 10^e` written out as `float_debug` describes.
pub open spec fn render(m: Seq<char>, e: int) -> Seq<char> {
    if m.len() == 0 {
        "0.0"@
    } else if e < -4 || e >= 16 {
        scientific(m, e)
    } else if e >= 0 {
        (if e + 1 <= m.len() { m.take(e + 1) } else { m + zeros((e + 1 - m.len()) as nat) }) + seq!['.']
            + (if m.len() > e + 1 { m.skip(e + 1) } else { seq!['0'] })
    } else {
        seq!['0', '.'] + zeros((-e - 1) as nat) + m
    }
}

/// Scientific form: the first digit, the others after a point, then `e`
/// and the exponent.
pub open spec fn scientific(m: Seq<char>, e: int) -> Seq<char> {
    seq![m[0]] + (if m.len() > 1 { seq!['.'] + m.drop_first() } else { Seq::empty() }) + seq!['e']
        + (if e < 0 { seq!['-'] } else { Seq::empty() }) + decimal((if e < 0 { -e } else { e }) as nat)
}

/// A numeral without a point splits into itself and no fraction.
proof fn lemma_split_whole(s: Seq<char>)
    requires
        forall|k: int| 0 <= k < s.len() ==> #[trigger] s[k] != '.',
    ensures
        split_point(s) == (s, Seq::<char>::empty(), false),
    decreases s.len(),
{
    if s.len() > 0 {
        lemma_split_whole(s.drop_last());
        assert(s.drop_last().push(s.last()) =~= s);
    }
}

/// The trailing zeros of a sequence are zeros, and no more than it holds.
proof fn lemma_trailing_zeros(d: Seq<char>)
    ensures
        trailing_zeros(d) <= d.len(),
        forall|k: int| d.len() - trailing_zeros(d) <= k < d.len() ==> #[trigger] d[k] == '0',
    decreases d.len(),
{
    if d.len() > 0 && d.last() == '0' {
        lemma_trailing_zeros(d.drop_last());
        assert forall|k: int| d.len() - trailing_zeros(d) <= k < d.len() implies #[trigger] d[k] == '0' by {
            if k < d.len() - 1 {
                assert(d[k] == d.drop_last()[k]);
            }
        }
    }
}

/// A whole number of at most 16 digits, not starting with `0`, shows as
/// written with `.0` after it, as an `f64` of that value prints.
pub proof fn law_whole_numeral(s: Seq<char>)
    requires
        1 <= s.len() <= 16,
        s[0] != '0',
        forall|k: int| 0 <= k < s.len() ==> '0' <= #[trigger] s[k] <= '9',
    ensures
        float_debug(s) == s + seq!['.', '0'],
{
    lemma_split_whole(s);
    assert(Seq::<char>::empty() + s =~= s);
    assert(s + Seq::<char>::empty() =~= s);
    assert(leading_zeros(s) == 0);
    assert(s.skip(0) =~= s);
    lemma_trailing_zeros(s);
    let t = trailing_zeros(s);
    let m = s.take(s.len() - t);
    assert(m[0] == s[0]);
    assert(mantissa(s) == m);
    assert(exponent(s) == s.len() - 1);
    assert(m + zeros(t) =~= s);
}

/// Appends `v[a..b]`.
fn push_range(out: &mut String, v: &Vec<char>, a: usize, b: usize)
    requires
        a <= b <= v.len(),
    ensures
        final(out)@ == old(out)@ + v@.subrange(a as int, b as int),
{
    let mut k = a;
    while k < b
        invariant
            a <= k <= b <= v.len(),
            out@ == old(out)@ + v@.subrange(a as int, k as int),
        decreases b - k,
    {
        push_char(out, v[k]);
        k += 1;
        assert(out@ =~= old(out)@ + v@.subrange(a as int, k as int));
    }
}

/// Appends `n` zero digits.
fn push_zeros(out: &mut String, n: usize)
    ensures
        final(out)@ == old(out)@ + zeros(n as nat),
{
    let mut k: usize = 0;
    while k < n
        invariant
            k <= n,
            out@ == old(out)@ + zeros(k as nat),
        decreases n - k,
    {
        push_char(out, '0');
        k += 1;
        assert(out@ =~= old(out)@ + zeros(k as nat));
    }
}

/// The digits of a numeral without its point, where its mantissa lies in
/// them, and how many digits follow the point.
fn analyse(s: &String) -> (r: (Vec<char>, usize, usize, usize))
    ensures
        r.1 <= r.2 <= r.0.len(),
        r.3 < usize::MAX,
        mantissa(s@) == r.0@.subrange(r.1 as int, r.2 as int),
        exponent(s@) == (r.0.len() - r.1) - r.3 - 1,
{
    let cs = chars_of(s.as_str());
    // the digits before and after the point, and all of them together
    let mut all: Vec<char> = Vec::new();
    let mut frac_len: usize = 0;
    let mut found = false;
    let ghost mut ip: Seq<char> = Seq::empty();
    let ghost mut fp: Seq<char> = Seq::empty();
    let mut i: usize = 0;
    while i < cs.len()
        invariant
            i <= cs.len(),
            cs@ == s@,
            split_point(cs@.take(i as int)) == (ip, fp, found),
            all@ == ip + fp,
            all@.len() + (if found { 1int } else { 0int }) <= i,
            !found ==> fp.len() == 0,
            frac_len == fp.len(),
        decreases cs.len() - i,
    {
        assert(cs@.take(i + 1).drop_last() =~= cs@.take(i as int));
        let c = cs[i];
        if found {
            all.push(c);
            frac_len += 1;
            proof {
                fp = fp.push(c);
            }
        } else if c == '.' {
            found = true;
        } else {
            all.push(c);
            proof {
                ip = ip.push(c);
            }
        }
        assert(all@ =~= ip + fp);
        i += 1;
    }
    assert(cs@.take(cs.len() as int) =~= cs@);
    let n = all.len();
    // the leading zeros
    let mut lz: usize = 0;
    assert(all@.skip(0) =~= all@);
    while lz < n && all[lz] == '0'
        invariant
            lz <= n == all.len(),
            leading_zeros(all@) == lz + leading_zeros(all@.skip(lz as int)),
        decreases n - lz,
    {
        assert(all@.skip(lz as int).drop_first() =~= all@.skip(lz + 1));
        lz += 1;
    }
    let ghost core = all@.skip(lz as int);
    assert(leading_zeros(core) == 0);
    // the trailing zeros of what follows them
    let mut end: usize = n;
    assert(all@.subrange(lz as int, n as int) =~= core);
    while end > lz && all[end - 1] == '0'
        invariant
            lz <= end <= n == all.len(),
            core == all@.skip(lz as int),
            trailing_zeros(core) == (n - end) + trailing_zeros(all@.subrange(lz as int, end as int)),
        decreases end,
    {
        assert(all@.subrange(lz as int, end as int).drop_last() =~= all@.subrange(lz as int, end - 1));
        end -= 1;
    }
    assert(trailing_zeros(all@.subrange(lz as int, end as int)) == 0);
    assert(core.take(core.len() - trailing_zeros(core)) =~= all@.subrange(lz as int, end as int));
    (all, lz, end, frac_len)
}

/// Appends the scientific form of the mantissa `all[lz..end]` with exponent
/// `pos - neg - 1`.
fn push_scientific(out: &mut String, all: &Vec<char>, lz: usize, end: usize, pos: usize, neg: usize)
    requires
        lz < end <= all.len(),
        (neg > 3 && pos < neg - 3) || (pos >= 17 && pos - 17 >= neg),
        neg < usize::MAX,
    ensures
        final(out)@ == old(out)@ + scientific(all@.subrange(lz as int, end as int), pos - neg - 1),
{
    let ghost m = all@.subrange(lz as int, end as int);
    push_char(out, all[lz]);
    if end - lz > 1 {
        push_char(out, '.');
        push_range(out, all, lz + 1, end);
        assert(m.drop_first() =~= all@.subrange(lz + 1, end as int));
    }
    push_char(out, 'e');
    if pos < neg {
        push_char(out, '-');
        push_decimal(out, neg - pos + 1);
    } else {
        push_decimal(out, pos - neg - 1);
    }
    assert(final(out)@ =~= old(out)@ + scientific(m, pos - neg - 1));
}

/// Appends the plain decimal form of the mantissa `all[lz..end]` with
/// exponent `pos - neg - 1`, when that is at least 0.
fn push_plain(out: &mut String, all: &Vec<char>, lz: usize, end: usize, pos: usize, neg: usize)
    requires
        lz < end <= all.len(),
        pos > neg,
    ensures
        final(out)@ == old(out)@ + render(all@.subrange(lz as int, end as int), pos - neg - 1)
            || pos - neg - 1 >= 16,
{
    let ghost m = all@.subrange(lz as int, end as int);
    let m_len = end - lz;
    let int_len = pos - neg;
    if int_len <= m_len {
        push_range(out, all, lz, lz + int_len);
        assert(m.take(int_len as int) =~= all@.subrange(lz as int, lz + int_len));
    } else {
        push_range(out, all, lz, end);
        push_zeros(out, int_len - m_len);
    }
    push_char(out, '.');
    if m_len > int_len {
        push_range(out, all, lz + int_len, end);
        assert(m.skip(int_len as int) =~= all@.subrange(lz + int_len, end as int));
    } else {
        push_char(out, '0');
    }
    assert(pos - neg - 1 < 16 ==> final(out)@ =~= old(out)@ + render(m, pos - neg - 1));
}

/// Whether `0.a[alo..ahi]` is at most `0.b[blo..bhi]`.
fn digits_le_exec(a: &Vec<char>, alo: usize, ahi: usize, b: &Vec<char>, blo: usize, bhi: usize) -> (r: bool)
    requires
        alo <= ahi <= a.len(),
        blo <= bhi <= b.len(),
    ensures
        r == digits_le(a@.subrange(alo as int, ahi as int), b@.subrange(blo as int, bhi as int)),
{
    let ghost x = a@.subrange(alo as int, ahi as int);
    let ghost y = b@.subrange(blo as int, bhi as int);
    let mut k: usize = 0;
    assert(x.skip(0) =~= x);
    assert(y.skip(0) =~= y);
    while k < ahi - alo && k < bhi - blo
        invariant
            alo <= ahi <= a.len(),
            blo <= bhi <= b.len(),
            x == a@.subrange(alo as int, ahi as int),
            y == b@.subrange(blo as int, bhi as int),
            k <= ahi - alo,
            k <= bhi - blo,
            digits_le(x, y) == digits_le(x.skip(k as int), y.skip(k as int)),
        decreases ahi - alo - k,
    {
        let c = a[alo + k];
        let d = b[blo + k];
        assert(x.skip(k as int)[0] == c);
        assert(y.skip(k as int)[0] == d);
        if c != d {
            return c < d;
        }
        assert(x.skip(k as int).drop_first() =~= x.skip(k + 1));
        assert(y.skip(k as int).drop_first() =~= y.skip(k + 1));
        k += 1;
    }
    k == ahi - alo
}

/// Whether a numeral reads as the `f64` zero.
pub fn reads_zero_exec(s: &String) -> (b: bool)
    ensures
        b == reads_zero(s@),
{
    let (all, lz, end, neg) = analyse(s);
    zero_from_parts(&all, lz, end, neg)
}

/// Whether the numeral with mantissa `all[lz..end]` and exponent
/// `all.len() - lz - neg - 1` reads as zero.
fn zero_from_parts(all: &Vec<char>, lz: usize, end: usize, neg: usize) -> (b: bool)
    requires
        lz <= end <= all.len(),
    ensures
        ({
            let m = all@.subrange(lz as int, end as int);
            let e = (all.len() - lz) - neg - 1;
            b == (m.len() == 0 || e < -324 || (e == -324 && digits_le(m, HALF_MIN_DIGITS@)))
        }),
{
    let pos = all.len() - lz;
    if end == lz {
        true
    } else if neg > 323 && pos < neg - 323 {
        true
    } else if neg >= 323 && pos == neg - 323 {
        let half = chars_of(HALF_MIN_DIGITS);
        assert(half@.subrange(0, half.len() as int) =~= half@);
        digits_le_exec(all, lz, end, &half, 0, half.len())
    } else {
        false
    }
}

/// Whether the numeral with mantissa `all[lz..end]` and exponent
/// `all.len() - lz - neg - 1` reads as infinity.
fn infinite_from_parts(all: &Vec<char>, lz: usize, end: usize, neg: usize) -> (b: bool)
    requires
        lz <= end <= all.len(),
    ensures
        ({
            let m = all@.subrange(lz as int, end as int);
            let e = (all.len() - lz) - neg - 1;
            b == (e > 308 || (e == 308 && digits_le(OVERFLOW_DIGITS@, m)))
        }),
{
    let pos = all.len() - lz;
    if pos >= 310 && pos - 310 >= neg {
        true
    } else if pos >= 309 && pos - 309 == neg {
        let top = chars_of(OVERFLOW_DIGITS);
        assert(top@.subrange(0, top.len() as int) =~= top@);
        digits_le_exec(&top, 0, top.len(), all, lz, end)
    } else {
        false
    }
}

/// Appends a numeral as `{:?}` shows an `f64`.
pub fn push_float_debug(out: &mut String, s: &String)
    ensures
        final(out)@ == old(out)@ + float_debug(s@),
{
    let (all, lz, end, neg) = analyse(s);
    let pos = all.len() - lz;
    if infinite_from_parts(&all, lz, end, neg) {
        push_char(out, 'i');
        push_char(out, 'n');
        push_char(out, 'f');
        proof {
            reveal_strlit("inf");
        }
        assert(final(out)@ =~= old(out)@ + float_debug(s@));
    } else if zero_from_parts(&all, lz, end, neg) {
        push_char(out, '0');
        push_char(out, '.');
        push_char(out, '0');
        proof {
            reveal_strlit("0.0");
        }
        assert(final(out)@ =~= old(out)@ + float_debug(s@));
    } else if (neg > 3 && pos < neg - 3) || (pos >= 17 && pos - 17 >= neg) {
        push_scientific(out, &all, lz, end, pos, neg);
    } else if pos > neg {
        push_plain(out, &all, lz, end, pos, neg);
    } else {
        push_char(out, '0');
        push_char(out, '.');
        push_zeros(out, neg - pos);
        push_range(out, &all, lz, end);
        assert(final(out)@ =~= old(out)@ + float_debug(s@));
    }
}

} // verus!
