//! Typed Orca option values: strings, booleans, integers and nullable
//! entries, with the text each reads from and writes to.
use vstd::prelude::*;
use crate::text::{lemma_int_text_parses, lemma_nat_text_parses_u64, chars_of, str_eq, trim_chars, string_of, i64_text, int_text, parse_i64,
    parse_i64_text, parse_u64, parse_u64_text, u64_text, nat_text, trim, trim_str};

verus! {

/// An Orca string option.
#[derive(Debug)]
pub struct OrcaString(pub String);

/// An Orca string vector option.
#[derive(Debug)]
pub struct OrcaStrings(pub Vec<String>);

/// An Orca boolean, written `1` or `0`.
#[derive(Clone, Copy, Debug)]
pub struct OrcaBool(pub bool);

/// An Orca signed integer.
#[derive(Clone, Copy, Debug)]
pub struct OrcaInt(pub i32);

/// An Orca unsigned integer.
#[derive(Clone, Copy, Debug)]
pub struct OrcaUInt(pub u32);

/// An entry of a nullable vector option: `nil` or a value.
#[derive(Debug)]
pub enum Nullable<T> {
    Nil,
    Value(T),
}

/// The printer technology.
#[derive(Clone, Copy, Debug)]
pub enum PrinterTechnology {
    Fff,
    Sla,
}

/// The Orca text of a boolean.
pub open spec fn bool_text(b: bool) -> Seq<char> {
    if b {
        "1"@
    } else {
        "0"@
    }
}

impl OrcaBool {
    /// The text an Orca boolean is written as.
    pub fn token(&self) -> (r: &'static str)
        ensures
            r@ == bool_text(self.0),
    {
        if self.0 {
            "1"
        } else {
            "0"
        }
    }
}

/// The text before the first comma.
pub open spec fn first_comma_piece(s: Seq<char>) -> Seq<char>
    decreases s.len(),
{
    if s.len() == 0 {
        s
    } else if s.last() == ',' && !s.drop_last().contains(',') {
        s.drop_last()
    } else if s.contains(',') {
        first_comma_piece(s.drop_last())
    } else {
        s
    }
}

/// What an Orca boolean reads from text: the first comma-separated piece,
/// trimmed, must be `0` or `1`.
pub open spec fn orca_bool_from_text(s: Seq<char>) -> Option<bool> {
    let piece = trim(first_comma_piece(s));
    if piece == "0"@ {
        Some(false)
    } else if piece == "1"@ {
        Some(true)
    } else {
        None
    }
}

/// The characters before the first comma.
fn before_first_comma(v: &Vec<char>) -> (r: Vec<char>)
    ensures
        r@ == first_comma_piece(v@),
{
    let mut i: usize = 0;
    while i < v.len() && v[i] != ','
        invariant
            i <= v@.len(),
            forall|j: int| 0 <= j < i ==> v@[j] != ',',
        decreases v@.len() - i,
    {
        i = i + 1;
    }
    let mut out: Vec<char> = Vec::new();
    let mut k: usize = 0;
    while k < i
        invariant
            k <= i <= v@.len(),
            out@ == v@.take(k as int),
        decreases i - k,
    {
        out.push(v[k]);
        k = k + 1;
        assert(out@ =~= v@.take(k as int));
    }
    proof {
        lemma_first_comma_piece(v@, i as int);
    }
    out
}

proof fn lemma_first_comma_piece(s: Seq<char>, i: int)
    requires
        0 <= i <= s.len(),
        forall|j: int| 0 <= j < i ==> s[j] != ',',
        i == s.len() || s[i] == ',',
    ensures
        first_comma_piece(s) == s.take(i),
    decreases s.len(),
{
    if s.len() == 0 {
        assert(s.take(i) =~= s);
    } else if i == s.len() {
        assert(!s.contains(',')) by {
            if s.contains(',') {
                let j = choose|j: int| 0 <= j < s.len() && s[j] == ',';
                assert(s[j] != ',');
            }
        }
        assert(s.take(i) =~= s);
    } else if i == s.len() - 1 {
        assert(!s.drop_last().contains(',')) by {
            if s.drop_last().contains(',') {
                let j = choose|j: int| 0 <= j < s.drop_last().len() && s.drop_last()[j] == ',';
                assert(s[j] != ',');
            }
        }
        assert(s.take(i) =~= s.drop_last());
    } else {
        assert(s.contains(',')) by {
            assert(s[i] == ',');
        }
        assert(s.drop_last()[i] == ',');
        assert(s.drop_last().contains(',')) by {
            assert(s.drop_last()[i] == ',');
        }
        lemma_first_comma_piece(s.drop_last(), i);
        assert(s.drop_last().take(i) =~= s.take(i));
    }
}

impl OrcaBool {
    /// Reads an Orca boolean from text: the first comma-separated piece,
    /// trimmed, is `0` or `1`.
    pub fn from_text(text: &str) -> (r: Option<OrcaBool>)
        ensures
            match orca_bool_from_text(text@) {
                Some(b) => r matches Some(v) && v.0 == b,
                None => r is None,
            },
    {
        let v = chars_of(text);
        let piece = before_first_comma(&v);
        let trimmed = trim_chars(&piece);
        let t = string_of(&trimmed);
        if str_eq(t.as_str(), "0") {
            Some(OrcaBool(false))
        } else if str_eq(t.as_str(), "1") {
            Some(OrcaBool(true))
        } else {
            None
        }
    }
}

impl OrcaInt {
    /// The decimal text of the integer.
    pub fn token(&self) -> (r: String)
        ensures
            r@ == int_text(self.0 as int),
    {
        i64_text(self.0 as i64)
    }

    /// Reads an integer from trimmed text, as `str::parse::<i32>` does.
    pub fn from_text(text: &str) -> (r: Option<OrcaInt>)
        ensures
            match parse_i64_text(trim(text@)) {
                Some(n) => if i32::MIN <= n <= i32::MAX {
                    r matches Some(v) && v.0 == n
                } else {
                    r is None
                },
                None => r is None,
            },
    {
        let v = chars_of(text);
        let trimmed = trim_chars(&v);
        let t = string_of(&trimmed);
        match parse_i64(t.as_str()) {
            Some(n) => if -2147483648 <= n && n <= 2147483647 {
                Some(OrcaInt(n as i32))
            } else {
                None
            },
            None => None,
        }
    }
}

impl OrcaInt {
    /// A signed integer from a JSON integer, when it fits.
    pub fn from_i64(value: i64) -> (r: Option<OrcaInt>)
        ensures
            match r {
                Some(v) => v.0 == value,
                None => !(i32::MIN <= value <= i32::MAX),
            },
    {
        if -2147483648 <= value && value <= 2147483647 {
            Some(OrcaInt(value as i32))
        } else {
            None
        }
    }

    /// A signed integer from a JSON non-negative integer, when it fits.
    pub fn from_u64(value: u64) -> (r: Option<OrcaInt>)
        ensures
            match r {
                Some(v) => v.0 == value,
                None => value > i32::MAX,
            },
    {
        if value <= 2147483647 {
            Some(OrcaInt(value as i32))
        } else {
            None
        }
    }
}

impl OrcaUInt {
    /// The decimal text of the integer.
    pub fn token(&self) -> (r: String)
        ensures
            r@ == nat_text(self.0 as nat),
    {
        u64_text(self.0 as u64)
    }

    /// Reads an unsigned integer from trimmed text, as `str::parse::<u32>`
    /// does.
    pub fn from_text(text: &str) -> (r: Option<OrcaUInt>)
        ensures
            match parse_u64_text(trim(text@)) {
                Some(n) => if n <= u32::MAX {
                    r matches Some(v) && v.0 == n
                } else {
                    r is None
                },
                None => r is None,
            },
    {
        let t = trim_str(text);
        match parse_u64(t.as_str()) {
            Some(n) => if n <= 4294967295 {
                Some(OrcaUInt(n as u32))
            } else {
                None
            },
            None => None,
        }
    }

    /// An unsigned integer from a JSON integer, when it fits.
    pub fn from_i64(value: i64) -> (r: Option<OrcaUInt>)
        ensures
            match r {
                Some(v) => v.0 == value,
                None => !(0 <= value <= u32::MAX),
            },
    {
        if 0 <= value && value <= 4294967295 {
            Some(OrcaUInt(value as u32))
        } else {
            None
        }
    }

    /// An unsigned integer from a JSON non-negative integer, when it fits.
    pub fn from_u64(value: u64) -> (r: Option<OrcaUInt>)
        ensures
            match r {
                Some(v) => v.0 == value,
                None => value > u32::MAX,
            },
    {
        if value <= 4294967295 {
            Some(OrcaUInt(value as u32))
        } else {
            None
        }
    }
}

/// Whether the text of a nullable entry is `nil` once trimmed.
pub fn is_nil_text(text: &str) -> (r: bool)
    ensures
        r == (trim(text@) == "nil"@),
{
    let t = trim_str(text);
    str_eq(t.as_str(), "nil")
}

/// The Orca name of a printer technology.
pub open spec fn printer_technology_text(t: PrinterTechnology) -> Seq<char> {
    match t {
        PrinterTechnology::Fff => "FFF"@,
        PrinterTechnology::Sla => "SLA"@,
    }
}

impl PrinterTechnology {
    /// The Orca name of the technology.
    pub fn name(&self) -> (r: &'static str)
        ensures
            r@ == printer_technology_text(*self),
    {
        match self {
            PrinterTechnology::Fff => "FFF",
            PrinterTechnology::Sla => "SLA",
        }
    }

    /// The technology with the given Orca name.
    pub fn from_name(name: &str) -> (r: Option<PrinterTechnology>)
        ensures
            r matches Some(t) ==> printer_technology_text(t) == name@,
            r is None ==> name@ != "FFF"@ && name@ != "SLA"@,
    {
        if str_eq(name, "FFF") {
            Some(PrinterTechnology::Fff)
        } else if str_eq(name, "SLA") {
            Some(PrinterTechnology::Sla)
        } else {
            None
        }
    }
}


/// An Orca boolean's text reads back as the same boolean.
pub proof fn lemma_orca_bool_round_trip(b: bool)
    ensures
        orca_bool_from_text(bool_text(b)) == Some(b),
{
    reveal_strlit("0");
    reveal_strlit("1");
    let s = bool_text(b);
    assert(!s.contains(',')) by {
        assert(s.len() == 1);
        assert(s[0] != ',');
    }
    assert(first_comma_piece(s) == s);
    assert(!crate::text::is_white_space(s[0]));
    assert(trim(s) == s);
}

/// An Orca signed integer's text reads back as the same integer.
pub proof fn lemma_orca_int_round_trip(v: OrcaInt)
    ensures
        parse_i64_text(trim(int_text(v.0 as int))) == Some(v.0 as i64),
{
    lemma_int_text_parses(v.0 as i64);
}

/// An Orca unsigned integer's text reads back as the same integer.
pub proof fn lemma_orca_uint_round_trip(v: OrcaUInt)
    ensures
        parse_u64_text(trim(nat_text(v.0 as nat))) == Some(v.0 as u64),
{
    lemma_nat_text_parses_u64(v.0 as u64);
}

/// Different printer technologies have different names, so a name reads
/// back as its technology.
pub proof fn lemma_printer_technology_names_differ(a: PrinterTechnology, b: PrinterTechnology)
    ensures
        printer_technology_text(a) == printer_technology_text(b) ==> a == b,
{
    reveal_strlit("FFF");
    reveal_strlit("SLA");
    assert("FFF"@[0] != "SLA"@[0]);
}

} // verus!
