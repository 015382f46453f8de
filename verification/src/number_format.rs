//! The text layout of Orca numbers: six significant digits, in scientific
//! form outside `1e-4 ..< 1e6`, with trailing zeros of the fraction dropped.
//! The float formatting itself is done by the caller; this module decides
//! the layout from the scientific text and tidies the digits.
use vstd::prelude::*;
use crate::text::{chars_of, string_of, push_char, push_str, parse_i64, parse_i64_text, u64_text,
    nat_text};

verus! {

/// `s` without its trailing `0` characters.
pub open spec fn strip_trailing_zeros(s: Seq<char>) -> Seq<char>
    decreases s.len(),
{
    if s.len() > 0 && s.last() == '0' {
        strip_trailing_zeros(s.drop_last())
    } else {
        s
    }
}

/// A number's text with a fraction: trailing zeros dropped, then a
/// trailing point; text without a point is kept.
pub open spec fn trimmed_fraction(s: Seq<char>) -> Seq<char> {
    if s.contains('.') {
        let t = strip_trailing_zeros(s);
        if t.len() > 0 && t.last() == '.' {
            t.drop_last()
        } else {
            t
        }
    } else {
        s
    }
}

/// Drops trailing zeros of the fraction, then a trailing point.
pub fn trim_fraction(value: &mut String)
    ensures
        final(value)@ == trimmed_fraction(old(value)@),
{
    let chars = chars_of(value.as_str());
    let mut has_point = false;
    let mut i: usize = 0;
    while i < chars.len()
        invariant
            i <= chars@.len(),
            has_point == exists|j: int| 0 <= j < i && chars@[j] == '.',
        decreases chars@.len() - i,
    {
        if chars[i] == '.' {
            has_point = true;
        }
        i = i + 1;
    }
    if !has_point {
        assert(!chars@.contains('.'));
        return;
    }
    assert(chars@.contains('.'));
    let mut end: usize = chars.len();
    assert(chars@.take(end as int) =~= chars@);
    while end > 0 && chars[end - 1] == '0'
        invariant
            end <= chars@.len(),
            strip_trailing_zeros(chars@) == strip_trailing_zeros(chars@.take(end as int)),
        decreases end,
    {
        assert(chars@.take(end as int).drop_last() =~= chars@.take(end - 1));
        end = end - 1;
    }
    assert(strip_trailing_zeros(chars@.take(end as int)) == chars@.take(end as int));
    if end > 0 && chars[end - 1] == '.' {
        end = end - 1;
    }
    let mut kept: Vec<char> = Vec::new();
    let mut k: usize = 0;
    while k < end
        invariant
            k <= end <= chars@.len(),
            kept@ == chars@.take(k as int),
        decreases end - k,
    {
        kept.push(chars[k]);
        k = k + 1;
        assert(kept@ =~= chars@.take(k as int));
    }
    assert(chars@.take(chars@.len() as int) =~= chars@);
    *value = string_of(&kept);
}

/// The exponent as written in scientific form: always signed, at least two
/// digits.
pub open spec fn exponent_text(e: int) -> Seq<char> {
    let digits = nat_text((if e < 0 { -e } else { e }) as nat);
    let sign = if e < 0 { seq!['-'] } else { seq!['+'] };
    if digits.len() < 2 {
        sign + seq!['0'] + digits
    } else {
        sign + digits
    }
}

/// The exponent written signed with at least two digits (`{:+03}`).
pub fn format_exponent(e: i32) -> (r: String)
    ensures
        r@ == exponent_text(e as int),
{
    let magnitude: u64 = if e < 0 {
        (-(e as i64)) as u64
    } else {
        e as u64
    };
    let digits = u64_text(magnitude);
    let mut out = String::new();
    push_char(&mut out, if e < 0 {
        '-'
    } else {
        '+'
    });
    if magnitude < 10 {
        push_char(&mut out, '0');
    }
    push_str(&mut out, digits.as_str());
    proof {
        crate::text::lemma_nat_text_len(magnitude as nat);
    }
    out
}

/// The mantissa and exponent of a scientific text: before and after its
/// first `e`, the exponent read as an `i32`.
pub open spec fn scientific_parts(s: Seq<char>) -> Option<(Seq<char>, i32)> {
    if exists|i: int| 0 <= i < s.len() && s[i] == 'e' {
        let i = choose|i: int| 0 <= i < s.len() && s[i] == 'e' && forall|j: int| 0 <= j < i ==> s[j] != 'e';
        match parse_i64_text(s.skip(i + 1)) {
            Some(x) => if i32::MIN <= x <= i32::MAX {
                Some((s.take(i), x as i32))
            } else {
                None
            },
            None => None,
        }
    } else {
        None
    }
}

/// How a number is laid out.
#[derive(Debug)]
pub enum NumberLayout {
    /// The scientific text to write.
    Scientific(String),
    /// Fixed form with this many decimals, then the fraction trimmed.
    Fixed(usize),
}

/// The layout for an exponent: scientific outside `-4 ..< 6` (mantissa
/// trimmed, exponent signed with two digits), else fixed with `5 - e`
/// decimals (none below).
pub open spec fn layout_spec(mantissa: Seq<char>, e: int) -> Result<Seq<char>, nat> {
    if !(-4 <= e < 6) {
        Ok(trimmed_fraction(mantissa) + seq!['e'] + exponent_text(e))
    } else {
        Err((if 5 - e > 0 { 5 - e } else { 0 }) as nat)
    }
}

/// The layout of a number from its scientific text (six significant
/// digits, `{:.5e}`).
pub fn number_layout(scientific: &str) -> (r: NumberLayout)
    requires
        scientific_parts(scientific@) is Some,
    ensures
        ({
            let (mantissa, e) = scientific_parts(scientific@)->Some_0;
            match r {
                NumberLayout::Scientific(t) => layout_spec(mantissa, e as int) == Ok::<
                    Seq<char>,
                    nat,
                >(t@),
                NumberLayout::Fixed(d) => layout_spec(mantissa, e as int) == Err::<Seq<char>, nat>(
                    d as nat,
                ),
            }
        }),
{
    let chars = chars_of(scientific);
    let mut i: usize = 0;
    while i < chars.len() && chars[i] != 'e'
        invariant
            i <= chars@.len(),
            chars@ == scientific@,
            forall|j: int| 0 <= j < i ==> chars@[j] != 'e',
        decreases chars@.len() - i,
    {
        i = i + 1;
    }
    let ghost s = scientific@;
    proof {
        let k = choose|k: int|
            0 <= k < s.len() && s[k] == 'e' && forall|j: int| 0 <= j < k ==> s[j] != 'e';
        assert(k == i);
    }
    let mut mantissa_chars: Vec<char> = Vec::new();
    let mut k: usize = 0;
    while k < i
        invariant
            k <= i < chars@.len(),
            mantissa_chars@ == chars@.take(k as int),
        decreases i - k,
    {
        mantissa_chars.push(chars[k]);
        k = k + 1;
        assert(mantissa_chars@ =~= chars@.take(k as int));
    }
    let mut exponent_chars: Vec<char> = Vec::new();
    let mut m: usize = i + 1;
    while m < chars.len()
        invariant
            i + 1 <= m <= chars@.len(),
            exponent_chars@ == chars@.subrange(i + 1, m as int),
        decreases chars@.len() - m,
    {
        exponent_chars.push(chars[m]);
        m = m + 1;
        assert(exponent_chars@ =~= chars@.subrange(i + 1, m as int));
    }
    assert(chars@.subrange(i + 1, chars@.len() as int) =~= s.skip(i + 1));
    let exponent_text_value = string_of(&exponent_chars);
    let parsed = parse_i64(exponent_text_value.as_str());
    let e: i32 = match parsed {
        Some(x) => x as i32,
        None => 0,
    };
    assert(mantissa_chars@ =~= s.take(i as int));
    assert(scientific_parts(s) == Some((s.take(i as int), e)));
    if e < -4 || e >= 6 {
        let mut mantissa = string_of(&mantissa_chars);
        trim_fraction(&mut mantissa);
        let ghost trimmed = mantissa@;
        push_char(&mut mantissa, 'e');
        let exp = format_exponent(e);
        push_str(&mut mantissa, exp.as_str());
        assert(mantissa@ =~= trimmed + seq!['e'] + exponent_text(e as int));
        NumberLayout::Scientific(mantissa)
    } else {
        let decimals: usize = if 5 - e > 0 {
            (5 - e) as usize
        } else {
            0
        };
        NumberLayout::Fixed(decimals)
    }
}


/// Stripping zeros leaves no trailing zero and keeps a prefix.
proof fn lemma_strip_zeros(s: Seq<char>)
    ensures
        strip_trailing_zeros(s).len() <= s.len(),
        strip_trailing_zeros(s) == s.take(strip_trailing_zeros(s).len() as int),
        strip_trailing_zeros(s).len() > 0 ==> strip_trailing_zeros(s).last() != '0',
        strip_trailing_zeros(strip_trailing_zeros(s)) == strip_trailing_zeros(s),
    decreases s.len(),
{
    if s.len() > 0 && s.last() == '0' {
        lemma_strip_zeros(s.drop_last());
        let t = strip_trailing_zeros(s.drop_last());
        assert(s.drop_last().take(t.len() as int) =~= s.take(t.len() as int));
    } else {
        assert(s.take(s.len() as int) =~= s);
    }
}

/// Trimming the fraction of a number's text (at most one point) twice is
/// trimming it once.
pub proof fn lemma_trimmed_fraction_idempotent(s: Seq<char>)
    requires
        forall|i: int, j: int| 0 <= i < s.len() && 0 <= j < s.len() && s[i] == '.' && s[j] == '.' ==> i == j,
    ensures
        trimmed_fraction(trimmed_fraction(s)) == trimmed_fraction(s),
{
    if s.contains('.') {
        lemma_strip_zeros(s);
        let t = strip_trailing_zeros(s);
        let p = choose|p: int| 0 <= p < s.len() && s[p] == '.';
        assert(p < t.len()) by {
            if p >= t.len() {
                // every character stripped is a zero
                lemma_stripped_are_zeros(s, p);
            }
        }
        assert(t[p] == '.');
        if t.len() > 0 && t.last() == '.' {
            let u = t.drop_last();
            assert(p == t.len() - 1);
            assert(!u.contains('.')) by {
                if u.contains('.') {
                    let q = choose|q: int| 0 <= q < u.len() && u[q] == '.';
                    assert(s[q] == '.');
                }
            }
        } else {
            assert(t.contains('.'));
            lemma_strip_zeros(t);
            assert(strip_trailing_zeros(t) == t);
        }
    }
}

/// The characters that stripping removes are zeros.
proof fn lemma_stripped_are_zeros(s: Seq<char>, p: int)
    requires
        strip_trailing_zeros(s).len() <= p < s.len(),
    ensures
        s[p] == '0',
    decreases s.len(),
{
    if s.len() > 0 && s.last() == '0' {
        if p < s.len() - 1 {
            lemma_stripped_are_zeros(s.drop_last(), p);
        }
    }
}

} // verus!
