//! Character-level string helpers: equality, decimal text, trimming and
//! splitting, each with the meaning that std gives the operation.
use vstd::prelude::*;

verus! {

/// Appends one character by calling `String::push`, which std documents as
/// appending the character to the end of the string. The contract, taken
/// on trust, says that the text afterwards is the text before followed by
/// `c`.
#[verifier::external_body]
pub(crate) fn push_char(s: &mut String, c: char)
    ensures
        final(s)@ == old(s)@.push(c),
{
    s.push(c);
}

/// An owned copy of a string slice.
pub fn owned(s: &str) -> (r: String)
    ensures
        r@ == s@,
{
    s.to_owned()
}

/// Appends `b` to `a`.
pub fn push_str(a: &mut String, b: &str)
    ensures
        final(a)@ == old(a)@ + b@,
{
    a.append(b);
}

/// `a` followed by `b`.
pub fn concat(a: &str, b: &str) -> (r: String)
    ensures
        r@ == a@ + b@,
{
    let mut r = a.to_owned();
    r.append(b);
    r
}

/// The characters of a string slice.
pub fn chars_of(s: &str) -> (r: Vec<char>)
    ensures
        r@ == s@,
{
    let mut out: Vec<char> = Vec::new();
    for c in it: s.chars()
        invariant
            out@ == it.seq().take(it.index() as int),
            it.seq() == s@,
    {
        out.push(c);
    }
    out
}

/// A string made of the given characters.
pub fn string_of(v: &Vec<char>) -> (r: String)
    ensures
        r@ == v@,
{
    let mut out = String::new();
    let mut i: usize = 0;
    while i < v.len()
        invariant
            i <= v@.len(),
            out@ == v@.take(i as int),
        decreases v@.len() - i,
    {
        push_char(&mut out, v[i]);
        i = i + 1;
        assert(v@.take(i as int) =~= v@.take(i - 1).push(v@[i - 1]));
    }
    assert(v@.take(v@.len() as int) =~= v@);
    out
}

/// Whether two character vectors hold the same characters.
pub fn chars_equal(a: &Vec<char>, b: &Vec<char>) -> (r: bool)
    ensures
        r == (a@ == b@),
{
    if a.len() != b.len() {
        return false;
    }
    let mut i: usize = 0;
    while i < a.len()
        invariant
            a@.len() == b@.len(),
            i <= a@.len(),
            forall|j: int| 0 <= j < i ==> a@[j] == b@[j],
        decreases a@.len() - i,
    {
        if a[i] != b[i] {
            return false;
        }
        i = i + 1;
    }
    assert(a@ =~= b@);
    true
}

/// Whether two string slices are equal.
pub fn str_eq(a: &str, b: &str) -> (r: bool)
    ensures
        r == (a@ == b@),
{
    let ca = chars_of(a);
    let cb = chars_of(b);
    chars_equal(&ca, &cb)
}

/// The decimal digit character for `d`.
pub open spec fn digit_char(d: nat) -> char {
    ((d + 48) as u32) as char
}

/// The decimal text of a natural number, without leading zeros.
pub open spec fn nat_text(n: nat) -> Seq<char>
    decreases n,
{
    if n < 10 {
        seq![digit_char(n)]
    } else {
        nat_text(n / 10).push(digit_char(n % 10))
    }
}

/// A decimal text has one digit exactly below ten.
pub proof fn lemma_nat_text_len(n: nat)
    ensures
        nat_text(n).len() >= 1,
        (nat_text(n).len() == 1) == (n < 10),
    decreases n,
{
    if n >= 10 {
        lemma_nat_text_len(n / 10);
    }
}

/// The decimal text of an integer, as `to_string` writes it.
pub open spec fn int_text(n: int) -> Seq<char> {
    if n < 0 {
        seq!['-'] + nat_text((-n) as nat)
    } else {
        nat_text(n as nat)
    }
}

fn digit(d: u64) -> (c: char)
    requires
        d < 10,
    ensures
        c == digit_char(d as nat),
{
    let b: u8 = 48u8 + (d as u8);
    proof {
        assert(b as char == ((d + 48) as u32) as char);
    }
    b as char
}

/// Appends the decimal text of `n`.
pub fn push_decimal(out: &mut String, n: u64)
    ensures
        final(out)@ == old(out)@ + nat_text(n as nat),
    decreases n,
{
    if n >= 10 {
        push_decimal(out, n / 10);
    }
    let c = digit(n % 10);
    push_char(out, c);
    proof {
        if n >= 10 {
            assert(nat_text(n as nat) == nat_text((n / 10) as nat).push(digit_char((n % 10) as nat)));
        }
    }
}

/// The decimal text of a signed integer.
pub fn i64_text(n: i64) -> (r: String)
    ensures
        r@ == int_text(n as int),
{
    let mut out = String::new();
    if n < 0 {
        push_char(&mut out, '-');
        let magnitude: u64 = if n == i64::MIN {
            9_223_372_036_854_775_808u64
        } else {
            (-n) as u64
        };
        push_decimal(&mut out, magnitude);
        assert(out@ =~= seq!['-'] + nat_text((-(n as int)) as nat));
    } else {
        push_decimal(&mut out, n as u64);
        assert(out@ =~= nat_text(n as nat));
    }
    out
}

/// The decimal text of an unsigned integer.
pub fn u64_text(n: u64) -> (r: String)
    ensures
        r@ == int_text(n as int),
{
    let mut out = String::new();
    push_decimal(&mut out, n);
    assert(out@ =~= nat_text(n as nat));
    out
}

/// Whether a character is decimal digit.
pub open spec fn is_digit(c: char) -> bool {
    '0' <= c && c <= '9'
}

/// The value of a sequence of decimal digits.
pub open spec fn digits_value(s: Seq<char>) -> nat
    decreases s.len(),
{
    if s.len() == 0 {
        0
    } else {
        digits_value(s.drop_last()) * 10 + ((s.last() as u32) - 48) as nat
    }
}

/// A non-empty run of decimal digits.
pub open spec fn all_digits(s: Seq<char>) -> bool {
    s.len() > 0 && forall|i: int| 0 <= i < s.len() ==> is_digit(#[trigger] s[i])
}

/// The integer that `str::parse::<i64>` reads: an optional `+` or `-`, then
/// decimal digits, in range.
pub open spec fn parse_i64_text(s: Seq<char>) -> Option<i64> {
    if s.len() > 0 && s[0] == '-' {
        let d = s.drop_first();
        if all_digits(d) && digits_value(d) <= 9_223_372_036_854_775_808 {
            Some((-(digits_value(d) as int)) as i64)
        } else {
            None
        }
    } else {
        let d = if s.len() > 0 && s[0] == '+' {
            s.drop_first()
        } else {
            s
        };
        if all_digits(d) && digits_value(d) <= i64::MAX {
            Some(digits_value(d) as i64)
        } else {
            None
        }
    }
}

/// Reads digits `d` as a natural number, or `None` past `limit`.
fn digits_up_to(d: &Vec<char>, start: usize, limit: u64) -> (r: Option<u64>)
    requires
        start <= d@.len(),
    ensures
        match r {
            Some(v) => all_digits(d@.skip(start as int)) && v == digits_value(d@.skip(start as int))
                && v <= limit,
            None => !(all_digits(d@.skip(start as int)) && digits_value(d@.skip(start as int))
                <= limit),
        },
{
    let ghost s = d@.skip(start as int);
    if start == d.len() {
        return None;
    }
    let mut value: u64 = 0;
    let mut i: usize = start;
    while i < d.len()
        invariant
            start < d@.len(),
            start <= i <= d@.len(),
            s == d@.skip(start as int),
            all_digits(d@.subrange(start as int, i as int)) || i == start,
            value == digits_value(d@.subrange(start as int, i as int)),
            value <= limit,
        decreases d@.len() - i,
    {
        let c = d[i];
        let ghost prefix = d@.subrange(start as int, i + 1);
        assert(prefix.drop_last() =~= d@.subrange(start as int, i as int));
        if !('0' <= c && c <= '9') {
            proof {
                assert(s[i - start] == c);
            }
            return None;
        }
        let dv: u64 = (c as u64) - 48;
        if (value as u128) * 10 + (dv as u128) > (limit as u128) {
            proof {
                assert(s.take((i - start) as int) =~= d@.subrange(start as int, i as int));
                assert(s[i - start] == c);
                lemma_digits_prefix_grow(s, (i - start) as int, limit as int);
            }
            return None;
        }
        value = value * 10 + dv;
        i = i + 1;
        assert(all_digits(d@.subrange(start as int, i as int)));
    }
    assert(d@.subrange(start as int, d@.len() as int) =~= s);
    Some(value)
}

/// Once a prefix of digits is too large, so is any longer run of digits.
proof fn lemma_digits_prefix_grow(s: Seq<char>, k: int, limit: int)
    requires
        0 <= k < s.len(),
        is_digit(s[k]),
        digits_value(s.take(k)) * 10 + (s[k] as u32 - 48) > limit,
        limit >= 0,
    ensures
        !(all_digits(s) && digits_value(s) <= limit),
    decreases s.len() - k,
{
    assert(s.take(k + 1).drop_last() =~= s.take(k));
    if k + 1 == s.len() {
        assert(s.take(k + 1) =~= s);
    } else {
        if all_digits(s) {
            lemma_digits_monotone(s, k + 1);
        }
    }
}

/// A run of digits is worth at least any of its prefixes.
proof fn lemma_digits_monotone(s: Seq<char>, k: int)
    requires
        0 <= k <= s.len(),
        all_digits(s) || s.len() == 0,
    ensures
        digits_value(s.take(k)) <= digits_value(s),
    decreases s.len() - k,
{
    if k < s.len() {
        lemma_digits_monotone(s, k + 1);
        assert(s.take(k + 1).drop_last() =~= s.take(k));
        assert(is_digit(s[k]));
    } else {
        assert(s.take(k) =~= s);
    }
}

/// `str::parse::<i64>`.
pub fn parse_i64(text: &str) -> (r: Option<i64>)
    ensures
        r == parse_i64_text(text@),
{
    let d = chars_of(text);
    if d.len() > 0 && d[0] == '-' {
        assert(d@.skip(1) =~= d@.drop_first());
        match digits_up_to(&d, 1, 9_223_372_036_854_775_808u64) {
            Some(v) => {
                if v == 9_223_372_036_854_775_808u64 {
                    Some(i64::MIN)
                } else {
                    Some(-(v as i64))
                }
            },
            None => None,
        }
    } else {
        let start: usize = if d.len() > 0 && d[0] == '+' {
            1
        } else {
            0
        };
        assert(d@.skip(1) =~= d@.drop_first());
        assert(d@.skip(0) =~= d@);
        match digits_up_to(&d, start, 9_223_372_036_854_775_807u64) {
            Some(v) => Some(v as i64),
            None => None,
        }
    }
}

/// The integer that `str::parse::<u64>` reads: an optional `+`, then
/// decimal digits, in range.
pub open spec fn parse_u64_text(s: Seq<char>) -> Option<u64> {
    let d = if s.len() > 0 && s[0] == '+' {
        s.drop_first()
    } else {
        s
    };
    if all_digits(d) && digits_value(d) <= u64::MAX {
        Some(digits_value(d) as u64)
    } else {
        None
    }
}

/// `str::parse::<u64>`.
pub fn parse_u64(text: &str) -> (r: Option<u64>)
    ensures
        r == parse_u64_text(text@),
{
    let d = chars_of(text);
    let start: usize = if d.len() > 0 && d[0] == '+' {
        1
    } else {
        0
    };
    assert(d@.skip(1) =~= d@.drop_first());
    assert(d@.skip(0) =~= d@);
    digits_up_to(&d, start, u64::MAX)
}

/// The characters that `char::is_whitespace` accepts (Unicode White_Space).
pub open spec fn is_white_space(c: char) -> bool {
    ('\u{9}' <= c && c <= '\u{d}') || c == ' ' || c == '\u{85}' || c == '\u{a0}' || c
        == '\u{1680}' || ('\u{2000}' <= c && c <= '\u{200a}') || c == '\u{2028}' || c == '\u{2029}'
        || c == '\u{202f}' || c == '\u{205f}' || c == '\u{3000}'
}

/// `char::is_whitespace`.
pub fn char_is_white_space(c: char) -> (r: bool)
    ensures
        r == is_white_space(c),
{
    ('\u{9}' <= c && c <= '\u{d}') || c == ' ' || c == '\u{85}' || c == '\u{a0}' || c == '\u{1680}'
        || ('\u{2000}' <= c && c <= '\u{200a}') || c == '\u{2028}' || c == '\u{2029}' || c
        == '\u{202f}' || c == '\u{205f}' || c == '\u{3000}'
}

/// `s` without its leading white space.
pub open spec fn trim_start(s: Seq<char>) -> Seq<char>
    decreases s.len(),
{
    if s.len() > 0 && is_white_space(s[0]) {
        trim_start(s.drop_first())
    } else {
        s
    }
}

/// `s` without its trailing white space.
pub open spec fn trim_end(s: Seq<char>) -> Seq<char>
    decreases s.len(),
{
    if s.len() > 0 && is_white_space(s.last()) {
        trim_end(s.drop_last())
    } else {
        s
    }
}

/// `str::trim`: `s` without leading and trailing white space.
pub open spec fn trim(s: Seq<char>) -> Seq<char> {
    trim_end(trim_start(s))
}

/// The characters of `v` without leading and trailing white space.
pub fn trim_chars(v: &Vec<char>) -> (r: Vec<char>)
    ensures
        r@ == trim(v@),
{
    let mut start: usize = 0;
    assert(v@.skip(0) =~= v@);
    while start < v.len() && char_is_white_space(v[start])
        invariant
            start <= v@.len(),
            trim_start(v@) == trim_start(v@.skip(start as int)),
        decreases v@.len() - start,
    {
        assert(v@.skip(start as int).drop_first() =~= v@.skip(start + 1));
        start = start + 1;
    }
    let ghost head = v@.skip(start as int);
    assert(trim_start(head) == head);
    let mut end: usize = v.len();
    while end > start && char_is_white_space(v[end - 1])
        invariant
            start <= end <= v@.len(),
            head == v@.skip(start as int),
            trim_end(head) == trim_end(v@.subrange(start as int, end as int)),
        decreases end,
    {
        assert(v@.subrange(start as int, end as int).drop_last() =~= v@.subrange(
            start as int,
            end - 1,
        ));
        end = end - 1;
    }
    assert(head =~= v@.subrange(start as int, v@.len() as int));
    let mut out: Vec<char> = Vec::new();
    let mut i: usize = start;
    while i < end
        invariant
            start <= i <= end,
            end <= v@.len(),
            out@ == v@.subrange(start as int, i as int),
        decreases end - i,
    {
        out.push(v[i]);
        i = i + 1;
        assert(out@ =~= v@.subrange(start as int, i as int));
    }
    assert(trim_end(v@.subrange(start as int, end as int)) == v@.subrange(start as int, end as int));
    out
}

/// `str::trim` on a string slice.
pub fn trim_str(s: &str) -> (r: String)
    ensures
        r@ == trim(s@),
{
    let v = chars_of(s);
    let t = trim_chars(&v);
    string_of(&t)
}

/// Whether the text is empty or white space only.
pub open spec fn is_blank(s: Seq<char>) -> bool {
    trim(s).len() == 0
}

/// `str::split` at every character of `seps`: one more piece than there are
/// separators, empty pieces kept.
pub open spec fn split_at_chars(s: Seq<char>, seps: Set<char>) -> Seq<Seq<char>>
    decreases s.len(),
{
    if s.len() == 0 {
        seq![Seq::empty()]
    } else {
        let rest = split_at_chars(s.drop_last(), seps);
        if seps.contains(s.last()) {
            rest.push(Seq::empty())
        } else {
            rest.update(rest.len() - 1, rest.last().push(s.last()))
        }
    }
}

pub proof fn lemma_split_nonempty(s: Seq<char>, seps: Set<char>)
    ensures
        split_at_chars(s, seps).len() >= 1,
    decreases s.len(),
{
    if s.len() > 0 {
        lemma_split_nonempty(s.drop_last(), seps);
    }
}

/// The separators `;` and `,`.
pub open spec fn list_separators() -> Set<char> {
    set![';', ',']
}

/// The pieces of `text` between `;` and `,` separators, each as characters.
pub fn split_list(text: &str) -> (r: Vec<Vec<char>>)
    ensures
        r@.len() == split_at_chars(text@, list_separators()).len(),
        forall|i: int|
            0 <= i < r@.len() ==> #[trigger] r@[i]@ == split_at_chars(text@, list_separators())[i],
{
    let v = chars_of(text);
    let mut pieces: Vec<Vec<char>> = Vec::new();
    let mut current: Vec<char> = Vec::new();
    let mut i: usize = 0;
    while i < v.len()
        invariant
            i <= v@.len(),
            pieces@.len() + 1 == split_at_chars(v@.take(i as int), list_separators()).len(),
            forall|j: int|
                0 <= j < pieces@.len() ==> #[trigger] pieces@[j]@ == split_at_chars(
                    v@.take(i as int),
                    list_separators(),
                )[j],
            current@ == split_at_chars(v@.take(i as int), list_separators()).last(),
        decreases v@.len() - i,
    {
        let c = v[i];
        let ghost before = split_at_chars(v@.take(i as int), list_separators());
        assert(v@.take(i + 1).drop_last() =~= v@.take(i as int));
        if c == ';' || c == ',' {
            pieces.push(current);
            current = Vec::new();
        } else {
            current.push(c);
        }
        i = i + 1;
    }
    assert(v@.take(v@.len() as int) =~= v@);
    pieces.push(current);
    pieces
}


/// The views of a sequence of strings.
pub open spec fn views_of(s: Seq<String>) -> Seq<Seq<char>> {
    s.map_values(|v: String| v@)
}

/// `parts` joined with `sep` between each two (`[String]::join`).
pub open spec fn join_with(parts: Seq<Seq<char>>, sep: Seq<char>) -> Seq<char>
    decreases parts.len(),
{
    if parts.len() == 0 {
        Seq::empty()
    } else if parts.len() == 1 {
        parts[0]
    } else {
        join_with(parts.drop_last(), sep) + sep + parts.last()
    }
}

/// `parts` joined with `sep` between each two.
pub fn join_strings(parts: &Vec<String>, sep: &str) -> (r: String)
    ensures
        r@ == join_with(views_of(parts@), sep@),
{
    let ghost pv = views_of(parts@);
    let mut out = String::new();
    let mut i: usize = 0;
    assert(views_of(parts@).take(0) =~= Seq::<Seq<char>>::empty());
    while i < parts.len()
        invariant
            i <= parts@.len(),
            pv == views_of(parts@),
            out@ == join_with(pv.take(i as int), sep@),
        decreases parts@.len() - i,
    {
        if i > 0 {
            push_str(&mut out, sep);
        }
        push_str(&mut out, parts[i].as_str());
        proof {
            assert(pv.take(i + 1).drop_last() =~= pv.take(i as int));
            if i == 0 {
                assert(out@ =~= pv[0]);
            }
        }
        i = i + 1;
    }
    assert(pv.take(parts@.len() as int) =~= pv);
    out
}


/// The characters of a decimal text are digits, worth their place values.
pub proof fn lemma_nat_text_digits(n: nat)
    ensures
        all_digits(nat_text(n)),
        digits_value(nat_text(n)) == n,
        nat_text(n).len() >= 1,
    decreases n,
{
    if n < 10 {
        assert(nat_text(n).drop_last() =~= Seq::<char>::empty());
        assert(digit_char(n) as u32 == n + 48);
        assert(nat_text(n).last() == digit_char(n));
        assert(digits_value(nat_text(n)) == digits_value(Seq::<char>::empty()) * 10 + n);
    } else {
        lemma_nat_text_digits(n / 10);
        let t = nat_text(n / 10);
        assert(nat_text(n).drop_last() =~= t);
        assert(digit_char(n % 10) as u32 == n % 10 + 48);
        assert(nat_text(n).last() == digit_char(n % 10));
        assert(digits_value(nat_text(n)) == digits_value(t) * 10 + (n % 10));
        assert((n / 10) * 10 + n % 10 == n);
        assert forall|i: int| 0 <= i < nat_text(n).len() implies is_digit(
            #[trigger] nat_text(n)[i],
        ) by {
            if i < t.len() {
                assert(nat_text(n)[i] == t[i]);
            }
        }
    }
}

/// A decimal text has no white space at either end.
pub proof fn lemma_trim_digits(s: Seq<char>)
    requires
        all_digits(s),
    ensures
        trim(s) == s,
{
    assert(!is_white_space(s[0]));
    assert(!is_white_space(s.last()));
}

/// The text of an integer reads back as the same integer.
pub proof fn lemma_int_text_parses(n: i64)
    ensures
        parse_i64_text(int_text(n as int)) == Some(n),
        trim(int_text(n as int)) == int_text(n as int),
{
    if n < 0 {
        let m = (-(n as int)) as nat;
        lemma_nat_text_digits(m);
        let s = int_text(n as int);
        assert(s.drop_first() =~= nat_text(m));
        assert(!is_white_space(s[0]));
        assert(s.last() == nat_text(m).last());
        assert(!is_white_space(s.last()));
    } else {
        lemma_nat_text_digits(n as nat);
        lemma_trim_digits(nat_text(n as nat));
    }
}

/// The text of a non-negative integer reads back as the same integer.
pub proof fn lemma_nat_text_parses_u64(n: u64)
    ensures
        parse_u64_text(nat_text(n as nat)) == Some(n),
        trim(nat_text(n as nat)) == nat_text(n as nat),
{
    lemma_nat_text_digits(n as nat);
    lemma_trim_digits(nat_text(n as nat));
}

} // verus!
