//! A JSON document held as plain values, with the lookups the AniList
//! exchanges need, and JSON string quoting for request bodies.

use vstd::prelude::*;

verus! {

broadcast use vstd::string::group_string_axioms;

/// A JSON value. Numbers keep only what the logic reads of them: whether
/// they are a non-negative integer that fits `u64`, and if so which.
/// Object members keep their order; a lookup takes the first member with
/// the key (serde_json's objects never repeat a key).
pub enum Json {
    Null,
    Bool(bool),
    /// A number that is an integer in `0..=u64::MAX`.
    Unsigned(u64),
    /// Any other number (negative or fractional).
    OtherNumber,
    Str(String),
    Array(Vec<Json>),
    Object(Vec<(String, Json)>),
}

/// The value stored under `key` among `members`, taking the first match.
pub open spec fn lookup(members: Seq<(String, Json)>, key: Seq<char>) -> Option<Json>
    decreases members.len(),
{
    if members.len() == 0 {
        None
    } else if members[0].0@ == key {
        Some(members[0].1)
    } else {
        lookup(members.drop_first(), key)
    }
}

impl Json {
    /// The member `key` of an object; nothing for any other value.
    pub open spec fn field(self, key: Seq<char>) -> Option<Json> {
        match self {
            Json::Object(members) => lookup(members@, key),
            _ => None,
        }
    }

    /// The member `key` of this value, when it is an object that has one.
    pub fn get(&self, key: &str) -> (r: Option<&Json>)
        ensures
            deref_opt(r) == self.field(key@),
    {
        match self {
            Json::Object(members) => {
                let k = String::from_str(key);
                let mut i: usize = 0;
                assert(members@.skip(0) =~= members@);
                while i < members.len()
                    invariant
                        k@ == key@,
                        self.field(key@) == lookup(members@, key@),
                        i <= members@.len(),
                        lookup(members@, key@) == lookup(members@.skip(i as int), key@),
                    decreases members.len() - i,
                {
                    assert(members@.skip(i as int).drop_first() =~= members@.skip(i + 1));
                    assert(members@.skip(i as int)[0] == members@[i as int]);
                    if members[i].0 == k {
                        assert(members@.skip(i as int).len() > 0);
                        return Some(&members[i].1);
                    }
                    i += 1;
                }
                None
            },
            _ => None,
        }
    }

    /// The integer value, when this is a number in `0..=u64::MAX`.
    pub fn as_u64(&self) -> (r: Option<u64>)
        ensures
            r == as_u64_of(Some(*self)),
    {
        match self {
            Json::Unsigned(n) => Some(*n),
            _ => None,
        }
    }

    /// The text, when this is a string.
    pub fn as_str(&self) -> (r: Option<&String>)
        ensures
            r matches Some(s) ==> str_of(Some(*self)) == Some(s@),
            r is None ==> str_of(Some(*self)) is None,
    {
        match self {
            Json::Str(s) => Some(s),
            _ => None,
        }
    }

    /// The elements, when this is an array.
    pub fn as_array(&self) -> (r: Option<&Vec<Json>>)
        ensures
            r matches Some(v) ==> array_of(Some(*self)) == Some(v@),
            r is None ==> array_of(Some(*self)) is None,
    {
        match self {
            Json::Array(v) => Some(v),
            _ => None,
        }
    }
}

/// The value behind an optional reference.
pub open spec fn deref_opt(o: Option<&Json>) -> Option<Json> {
    match o {
        Some(j) => Some(*j),
        None => None,
    }
}

/// Member `key` of an optional value (indexing a missing value gives nothing).
pub open spec fn field_of(j: Option<Json>, key: Seq<char>) -> Option<Json> {
    match j {
        Some(v) => v.field(key),
        None => None,
    }
}

/// The integer held by an optional value.
pub open spec fn as_u64_of(j: Option<Json>) -> Option<u64> {
    match j {
        Some(Json::Unsigned(n)) => Some(n),
        _ => None,
    }
}

/// The text held by an optional value.
pub open spec fn str_of(j: Option<Json>) -> Option<Seq<char>> {
    match j {
        Some(Json::Str(s)) => Some(s@),
        _ => None,
    }
}

/// The elements held by an optional value.
pub open spec fn array_of(j: Option<Json>) -> Option<Seq<Json>> {
    match j {
        Some(Json::Array(v)) => Some(v@),
        _ => None,
    }
}

/// A member lookup finds the first member with that key, and finds nothing
/// only when no member has it.
pub proof fn law_lookup_first(members: Seq<(String, Json)>, key: Seq<char>)
    ensures
        lookup(members, key) is Some ==> exists|i: int|
            0 <= i < members.len() && #[trigger] members[i].0@ == key && members[i].1 == lookup(
                members,
                key,
            )->0 && forall|j: int| 0 <= j < i ==> (#[trigger] members[j]).0@ != key,
        lookup(members, key) is None ==> forall|i: int|
            0 <= i < members.len() ==> (#[trigger] members[i]).0@ != key,
    decreases members.len(),
{
    if members.len() > 0 {
        let rest = members.drop_first();
        law_lookup_first(rest, key);
        if members[0].0@ == key {
            assert(members[0].0@ == key);
        } else if lookup(members, key) is Some {
            let k = choose|k: int|
                0 <= k < rest.len() && #[trigger] rest[k].0@ == key && rest[k].1 == lookup(
                    rest,
                    key,
                )->0 && forall|j: int| 0 <= j < k ==> (#[trigger] rest[j]).0@ != key;
            assert(members[k + 1] == rest[k]);
            assert(members[k + 1].0@ == key);
            assert forall|j: int| 0 <= j < k + 1 implies (#[trigger] members[j]).0@ != key by {
                if j > 0 {
                    assert(members[j] == rest[j - 1]);
                }
            }
        } else {
            assert forall|i: int| 0 <= i < members.len() implies (#[trigger] members[i]).0@ != key by {
                if i > 0 {
                    assert(members[i] == rest[i - 1]);
                }
            }
        }
    }
}

/// What each accessor reads: a member of an object only; the integer of an
/// unsigned number only; the whole text of a string only; the elements of
/// an array only.
pub proof fn law_accessors(j: Json, key: Seq<char>)
    ensures
        j matches Json::Object(m) ==> j.field(key) == lookup(m@, key),
        !(j is Object) ==> j.field(key) is None,
        field_of(Some(j), key) == j.field(key),
        field_of(None, key) is None,
        j matches Json::Unsigned(n) ==> as_u64_of(Some(j)) == Some(n),
        !(j is Unsigned) ==> as_u64_of(Some(j)) is None,
        j matches Json::Str(s) ==> str_of(Some(j)) == Some(s@),
        !(j is Str) ==> str_of(Some(j)) is None,
        j matches Json::Array(v) ==> array_of(Some(j)) == Some(v@),
        !(j is Array) ==> array_of(Some(j)) is None,
        as_u64_of(None) is None && str_of(None) is None && array_of(None) is None,
{
}

/// Member `key` of an optional value.
pub fn get_of<'a>(j: Option<&'a Json>, key: &str) -> (r: Option<&'a Json>)
    ensures
        deref_opt(r) == field_of(deref_opt(j), key@),
{
    match j {
        Some(v) => v.get(key),
        None => None,
    }
}

// ---------------------------------------------------------------------------
// Quoting
// ---------------------------------------------------------------------------

/// A hexadecimal digit, lower case.
pub open spec fn hex_digit(d: int) -> char {
    if d < 10 {
        (d + 48) as char
    } else {
        (d + 87) as char
    }
}

/// How serde_json writes one character inside a string literal: `"` and
/// `\` behind a backslash, the control characters below U+0020 as `\b`,
/// `\t`, `\n`, `\f`, `\r` or `\u00` and two lower-case hex digits, any
/// other character as itself.
pub open spec fn escaped(c: char) -> Seq<char> {
    if c == '"' {
        seq!['\\', '"']
    } else if c == '\\' {
        seq!['\\', '\\']
    } else if c == '\u{8}' {
        seq!['\\', 'b']
    } else if c == '\t' {
        seq!['\\', 't']
    } else if c == '\n' {
        seq!['\\', 'n']
    } else if c == '\u{c}' {
        seq!['\\', 'f']
    } else if c == '\r' {
        seq!['\\', 'r']
    } else if (c as int) < 32 {
        seq!['\\', 'u', '0', '0', hex_digit(c as int / 16), hex_digit(c as int % 16)]
    } else {
        seq![c]
    }
}

/// Every character of `s` escaped.
pub open spec fn escaped_all(s: Seq<char>) -> Seq<char>
    decreases s.len(),
{
    if s.len() == 0 {
        seq![]
    } else {
        escaped(s[0]) + escaped_all(s.drop_first())
    }
}

/// The JSON string literal for the text `s`.
pub open spec fn json_quoted(s: Seq<char>) -> Seq<char> {
    seq!['"'] + escaped_all(s) + seq!['"']
}

/// `s` holds nothing that JSON string syntax escapes: no `"`, no `\` and
/// no control character below U+0020.
pub open spec fn needs_no_escape(s: Seq<char>) -> bool {
    forall|i: int| 0 <= i < s.len() ==> #[trigger] s[i] != '"' && s[i] != '\\' && s[i] as int >= 32
}

/// Text with nothing to escape is quoted as it is.
pub proof fn lemma_quoted_verbatim(s: Seq<char>)
    requires
        needs_no_escape(s),
    ensures
        escaped_all(s) == s,
        json_quoted(s) == seq!['"'] + s + seq!['"'],
    decreases s.len(),
{
    if s.len() > 0 {
        assert(needs_no_escape(s.drop_first())) by {
            assert forall|i: int| 0 <= i < s.drop_first().len() implies #[trigger] s.drop_first()[i]
                != '"' && s.drop_first()[i] != '\\' && s.drop_first()[i] as int >= 32 by {
                assert(s.drop_first()[i] == s[i + 1]);
            }
        }
        lemma_quoted_verbatim(s.drop_first());
        assert(s[0] != '"' && s[0] != '\\' && s[0] as int >= 32);
        assert(escaped(s[0]) == seq![s[0]]);
        assert(seq![s[0]] + s.drop_first() =~= s);
    }
}

/// `serde_json::to_string` on a string slice: the text as a JSON string
/// literal (serde_json's `format_escaped_str` with its escape table).
/// Serialising a `str` cannot fail: the output is an in-memory buffer and
/// `str` has no failing `Serialize`.
#[verifier::external_body]
pub(crate) fn quote(s: &str) -> (r: String)
    ensures
        r@ == json_quoted(s@),
{
    serde_json::to_string(s).unwrap()
}

} // verus!
