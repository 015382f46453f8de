//! The text of one option value in a config block: scalar strings escaped,
//! string vectors quoted where needed and joined with `;`, other vectors
//! joined with `,` (or `#` for point groups), and `nil` entries marked.
use vstd::prelude::*;
use crate::text::{push_char, push_str, owned, chars_of, str_eq, join_strings, join_with, views_of,
    i64_text, u64_text, int_text, nat_text};

verus! {

/// A serialized option value: its text, and whether it stands for `nil`.
#[derive(Debug)]
pub struct SerializedConfigValue {
    pub token: String,
    pub is_nil: bool,
}

/// An error while serializing a config value.
#[derive(Debug)]
pub struct ConfigValueError(pub String);

/// The message of a config value error.
pub open spec fn value_error_message(e: ConfigValueError) -> Seq<char> {
    e.0@
}

/// A plain token: the text, not `nil`.
pub fn token(value: String) -> (r: SerializedConfigValue)
    ensures
        r.token@ == value@,
        !r.is_nil,
{
    SerializedConfigValue { token: value, is_nil: false }
}

/// The token of a boolean: `1` or `0`.
pub fn bool_token(value: bool) -> (r: SerializedConfigValue)
    ensures
        r.token@ == (if value {
            "1"@
        } else {
            "0"@
        }),
        !r.is_nil,
{
    token(owned(if value {
        "1"
    } else {
        "0"
    }))
}

/// The token of a signed integer: its decimal text.
pub fn signed_token(value: i64) -> (r: SerializedConfigValue)
    ensures
        r.token@ == int_text(value as int),
        !r.is_nil,
{
    token(i64_text(value))
}

/// The token of an unsigned integer: its decimal text.
pub fn unsigned_token(value: u64) -> (r: SerializedConfigValue)
    ensures
        r.token@ == nat_text(value as nat),
        !r.is_nil,
{
    token(u64_text(value))
}

/// The escaped form of one character in a scalar string.
pub open spec fn escape_char(c: char) -> Seq<char> {
    if c == '\r' {
        seq!['\\', 'r']
    } else if c == '\n' {
        seq!['\\', 'n']
    } else if c == '\\' || c == '"' {
        seq!['\\', c]
    } else {
        seq![c]
    }
}

/// A scalar string with carriage returns, line feeds, backslashes and
/// double quotes escaped by a backslash.
pub open spec fn escaped(s: Seq<char>) -> Seq<char>
    decreases s.len(),
{
    if s.len() == 0 {
        Seq::empty()
    } else {
        escaped(s.drop_last()) + escape_char(s.last())
    }
}

/// An escaped scalar string holds no line break, so it never splits the
/// line of its option.
pub proof fn lemma_escaped_has_no_line_breaks(s: Seq<char>)
    ensures
        !escaped(s).contains('\n'),
        !escaped(s).contains('\r'),
    decreases s.len(),
{
    if s.len() > 0 {
        lemma_escaped_has_no_line_breaks(s.drop_last());
        let head = escaped(s.drop_last());
        let tail = escape_char(s.last());
        assert(escaped(s) == head + tail);
        assert forall|i: int| 0 <= i < escaped(s).len() implies escaped(s)[i] != '\n' && escaped(
            s,
        )[i] != '\r' by {
            if i < head.len() {
                assert(escaped(s)[i] == head[i]);
            } else {
                assert(escaped(s)[i] == tail[i - head.len()]);
            }
        }
    }
}

/// A scalar string escaped for a config block.
pub fn escape_scalar_string(value: &str) -> (r: String)
    ensures
        r@ == escaped(value@),
{
    let chars = chars_of(value);
    let mut output = String::new();
    let mut i: usize = 0;
    while i < chars.len()
        invariant
            i <= chars@.len(),
            chars@ == value@,
            output@ == escaped(chars@.take(i as int)),
        decreases chars@.len() - i,
    {
        let c = chars[i];
        proof {
            assert(chars@.take(i + 1).drop_last() =~= chars@.take(i as int));
        }
        if c == '\r' {
            push_char(&mut output, '\\');
            push_char(&mut output, 'r');
        } else if c == '\n' {
            push_char(&mut output, '\\');
            push_char(&mut output, 'n');
        } else if c == '\\' || c == '"' {
            push_char(&mut output, '\\');
            push_char(&mut output, c);
        } else {
            push_char(&mut output, c);
        }
        i = i + 1;
        assert(output@ =~= escaped(chars@.take(i as int)));
    }
    assert(chars@.take(chars@.len() as int) =~= chars@);
    output
}

/// A character that forces a string vector element into quotes.
pub open spec fn needs_quote(c: char) -> bool {
    c == ' ' || c == '\t' || c == '\\' || c == '"' || c == '\r' || c == '\n'
}

/// Whether a string vector element is written in quotes: the only element
/// and empty, or holding a blank, tab, backslash, quote or line break.
pub open spec fn should_quote(value: Seq<char>, value_count: nat) -> bool {
    (value_count == 1 && value.len() == 0) || exists|i: int|
        0 <= i < value.len() && needs_quote(#[trigger] value[i])
}

/// The text of one string vector element.
pub open spec fn quoted_element(value: Seq<char>, value_count: nat) -> Seq<char> {
    if should_quote(value, value_count) {
        seq!['"'] + escaped(value) + seq!['"']
    } else {
        value
    }
}

/// One string vector element, quoted and escaped where needed.
pub fn quote_string_vector_element(value: &str, value_count: usize) -> (r: String)
    ensures
        r@ == quoted_element(value@, value_count as nat),
{
    let chars = chars_of(value);
    let mut quote = value_count == 1 && chars.len() == 0;
    let mut i: usize = 0;
    while i < chars.len() && !quote
        invariant
            i <= chars@.len(),
            chars@ == value@,
            quote == ((value_count == 1 && chars@.len() == 0) || exists|j: int|
                0 <= j < i && needs_quote(#[trigger] chars@[j])),
        decreases chars@.len() - i,
    {
        let c = chars[i];
        if c == ' ' || c == '\t' || c == '\\' || c == '"' || c == '\r' || c == '\n' {
            quote = true;
        }
        i = i + 1;
    }
    if !quote {
        assert(!should_quote(value@, value_count as nat)) by {
            assert(i == chars@.len());
        }
        return owned(value);
    }
    let mut out = String::new();
    push_char(&mut out, '"');
    let inner = escape_scalar_string(value);
    push_str(&mut out, inner.as_str());
    push_char(&mut out, '"');
    out
}

/// The tokens of serialized values.
pub open spec fn tokens_of(values: Seq<SerializedConfigValue>) -> Seq<Seq<char>> {
    values.map_values(|v: SerializedConfigValue| v.token@)
}

/// The quoted elements of a string vector.
pub open spec fn quoted_elements(values: Seq<Seq<char>>) -> Seq<Seq<char>> {
    values.map_values(|v: Seq<char>| quoted_element(v, values.len()))
}

/// A string vector: each element quoted where needed, joined with `;`.
pub fn serialize_string_vector(values: &Vec<SerializedConfigValue>) -> (r: String)
    ensures
        r@ == join_with(quoted_elements(tokens_of(values@)), ";"@),
{
    let ghost tv = tokens_of(values@);
    let mut parts: Vec<String> = Vec::new();
    let mut i: usize = 0;
    while i < values.len()
        invariant
            i <= values@.len(),
            tv == tokens_of(values@),
            parts@.len() == i,
            forall|j: int| 0 <= j < i ==> #[trigger] parts@[j]@ == quoted_element(tv[j], tv.len()),
        decreases values@.len() - i,
    {
        let part = quote_string_vector_element(values[i].token.as_str(), values.len());
        parts.push(part);
        i = i + 1;
    }
    assert(views_of(parts@) =~= quoted_elements(tv));
    join_strings(&parts, ";")
}

/// Serialized values joined with `separator`, marked `nil` or not.
pub fn joined(values: Vec<SerializedConfigValue>, separator: &str, is_nil: bool) -> (r:
    SerializedConfigValue)
    ensures
        r.token@ == join_with(tokens_of(values@), separator@),
        r.is_nil == is_nil,
{
    let mut parts: Vec<String> = Vec::new();
    let mut i: usize = 0;
    while i < values.len()
        invariant
            i <= values@.len(),
            parts@.len() == i,
            forall|j: int| 0 <= j < i ==> #[trigger] parts@[j]@ == values@[j].token@,
        decreases values@.len() - i,
    {
        parts.push(owned(values[i].token.as_str()));
        i = i + 1;
    }
    assert(views_of(parts@) =~= tokens_of(values@));
    SerializedConfigValue { token: join_strings(&parts, separator), is_nil }
}

/// How the elements of a sequence are written.
#[derive(Clone, Copy, Debug, PartialEq, Eq, Structural)]
pub enum SequenceKind {
    Ordinary,
    Strings,
    PointGroups,
    Nullable,
}

/// The elements of a sequence value, serialized one by one.
pub struct ConfigSequence {
    pub kind: SequenceKind,
    pub values: Vec<SerializedConfigValue>,
}

/// Whether every value is `nil` (true of none).
pub open spec fn all_nil(values: Seq<SerializedConfigValue>) -> bool {
    forall|i: int| 0 <= i < values.len() ==> (#[trigger] values[i]).is_nil
}

/// What a finished sequence is written as.
pub open spec fn finished_sequence(kind: SequenceKind, values: Seq<SerializedConfigValue>) -> (
    Seq<char>,
    bool,
) {
    match kind {
        SequenceKind::Strings => (join_with(quoted_elements(tokens_of(values)), ";"@), false),
        SequenceKind::PointGroups => (join_with(tokens_of(values), "#"@), false),
        SequenceKind::Nullable => (join_with(tokens_of(values), ","@), all_nil(values)),
        SequenceKind::Ordinary => (join_with(tokens_of(values), ","@), false),
    }
}

impl ConfigSequence {
    /// An empty sequence of the given kind.
    pub fn new(kind: SequenceKind) -> (r: Self)
        ensures
            r.kind == kind,
            r.values@.len() == 0,
    {
        ConfigSequence { kind, values: Vec::new() }
    }

    /// Adds the next element, already serialized.
    pub fn push(&mut self, value: SerializedConfigValue)
        ensures
            final(self).kind == old(self).kind,
            final(self).values@ == old(self).values@.push(value),
    {
        self.values.push(value);
    }

    /// The text of the whole sequence.
    pub fn finish(self) -> (r: SerializedConfigValue)
        ensures
            (r.token@, r.is_nil) == finished_sequence(self.kind, self.values@),
    {
        match self.kind {
            SequenceKind::Strings => SerializedConfigValue {
                token: serialize_string_vector(&self.values),
                is_nil: false,
            },
            SequenceKind::PointGroups => joined(self.values, "#", false),
            SequenceKind::Nullable => {
                let mut is_nil = true;
                let mut i: usize = 0;
                while i < self.values.len()
                    invariant
                        i <= self.values@.len(),
                        is_nil == forall|j: int| 0 <= j < i ==> (#[trigger] self.values@[j]).is_nil,
                    decreases self.values@.len() - i,
                {
                    if !self.values[i].is_nil {
                        is_nil = false;
                    }
                    i = i + 1;
                }
                joined(self.values, ",", is_nil)
            },
            SequenceKind::Ordinary => joined(self.values, ",", false),
        }
    }
}

/// How a named wrapper value is serialized.
#[derive(Clone, Copy, Debug, PartialEq, Eq, Structural)]
pub enum NewtypeAction {
    /// Serialize the inner value as a sequence of this kind.
    Sequence(SequenceKind),
    /// The value is the `nil` marker.
    Nil,
    /// Serialize the inner value as it is.
    Inner,
}

/// What a wrapper name asks for.
pub open spec fn newtype_action_spec(name: Seq<char>) -> NewtypeAction {
    if name == "ConfigOptionStrings"@ {
        NewtypeAction::Sequence(SequenceKind::Strings)
    } else if name == "ConfigOptionPointsGroups"@ {
        NewtypeAction::Sequence(SequenceKind::PointGroups)
    } else if name == "ConfigOptionNullableVector"@ {
        NewtypeAction::Sequence(SequenceKind::Nullable)
    } else if name == "ConfigOptionNil"@ {
        NewtypeAction::Nil
    } else {
        NewtypeAction::Inner
    }
}

/// How the wrapper value with the given name is serialized.
pub fn newtype_action(name: &str) -> (r: NewtypeAction)
    ensures
        r == newtype_action_spec(name@),
{
    if str_eq(name, "ConfigOptionStrings") {
        NewtypeAction::Sequence(SequenceKind::Strings)
    } else if str_eq(name, "ConfigOptionPointsGroups") {
        NewtypeAction::Sequence(SequenceKind::PointGroups)
    } else if str_eq(name, "ConfigOptionNullableVector") {
        NewtypeAction::Sequence(SequenceKind::Nullable)
    } else if str_eq(name, "ConfigOptionNil") {
        NewtypeAction::Nil
    } else {
        NewtypeAction::Inner
    }
}

/// The `nil` marker value.
pub fn nil_value() -> (r: SerializedConfigValue)
    ensures
        r.token@ == "nil"@,
        r.is_nil,
{
    SerializedConfigValue { token: owned("nil"), is_nil: true }
}

} // verus!
