//! The JSON texts that the broker reads and writes.

use crate::text::{join, joined, separated};
use vstd::prelude::*;
use vstd::string::*;

verus! {

/// The string that the text `document` holds under `key` when it is read
/// as a JSON object: `None` where the text is no JSON, no object, has no
/// such member, or holds there something other than a string.
pub uninterp spec fn json_member(document: Seq<u8>, key: Seq<char>) -> Option<Seq<char>>;

/// The sixteen digits of a hexadecimal escape.
pub open spec fn hex_digits() -> Seq<char> {
    "0123456789abcdef"@
}

/// How one character stands inside a JSON string: the quote, the backslash
/// and the control characters are escaped, the others stand for
/// themselves.
pub open spec fn escaped_char(c: char) -> Seq<char> {
    if c == '"' {
        seq!['\\', '"']
    } else if c == '\\' {
        seq!['\\', '\\']
    } else if c == '\u{8}' {
        seq!['\\', 'b']
    } else if c == '\t' {
        seq!['\\', 't']
    } else if c == '\n' {
        seq!['\\', 'n']
    } else if c == '\u{c}' {
        seq!['\\', 'f']
    } else if c == '\r' {
        seq!['\\', 'r']
    } else if (c as u32) < 0x20 {
        seq!['\\', 'u', '0', '0', hex_digits()[(c as u32 / 16) as int], hex_digits()[(c as u32
            % 16) as int]]
    } else {
        seq![c]
    }
}

/// The characters of `text`, each as it stands inside a JSON string.
pub open spec fn escaped(text: Seq<char>) -> Seq<char>
    decreases text.len(),
{
    if text.len() == 0 {
        Seq::empty()
    } else {
        escaped(text.drop_last()) + escaped_char(text.last())
    }
}

/// The JSON string that holds `text`: its characters, escaped, between two
/// quotes.
pub open spec fn json_string(text: Seq<char>) -> Seq<char> {
    seq!['"'] + escaped(text) + seq!['"']
}

/// The ten decimal digits.
pub open spec fn decimal_digits() -> Seq<char> {
    "0123456789"@
}

/// The decimal digits of a natural number, without leading zeros.
pub open spec fn decimal(n: nat) -> Seq<char>
    decreases n,
{
    if n < 10 {
        seq![decimal_digits()[n as int]]
    } else {
        decimal(n / 10).push(decimal_digits()[(n % 10) as int])
    }
}

/// The JSON number that stands for an integer: its decimal digits, after a
/// minus sign where it is negative.
pub open spec fn json_number(value: int) -> Seq<char> {
    if value < 0 {
        seq!['-'] + decimal((-value) as nat)
    } else {
        decimal(value as nat)
    }
}

/// The JSON array of the given values, each already written as JSON.
pub open spec fn array_text(values: Seq<Seq<char>>) -> Seq<char> {
    seq!['['] + separated(values, seq![',']) + seq![']']
}

/// One member of a JSON object: the key and the value, each already
/// written as JSON.
pub open spec fn member_text(key: Seq<char>, value: Seq<char>) -> Seq<char> {
    key + seq![':'] + value
}

/// The JSON object of the given members, each key and each value already
/// written as JSON.
pub open spec fn object_text(members: Seq<(Seq<char>, Seq<char>)>) -> Seq<char> {
    seq!['{'] + separated(
        Seq::new(members.len(), |i: int| member_text(members[i].0, members[i].1)),
        seq![','],
    ) + seq!['}']
}

/// Reads `document` with `serde_json::from_slice` as a `serde_json::Value`,
/// looks `key` up with `Value::get` and takes the string found with
/// `Value::as_str`. The contract gives the outcome a name and claims that
/// it depends on the document and the key alone.
#[verifier::external_body]
pub(crate) fn string_member(document: &Vec<u8>, key: &str) -> (member: Option<String>)
    ensures
        match member {
            Some(text) => json_member(document@, key@) == Some(text@),
            None => json_member(document@, key@) is None,
        },
{
    let value: serde_json::Value = serde_json::from_slice(document.as_slice()).ok()?;
    value.get(key)?.as_str().map(|text| text.to_string())
}

/// Writes `text` as a JSON string, by the `Display` of the
/// `serde_json::Value::String` that holds it. The contract claims the
/// escapes that serde_json's compact writer makes: `\"`, `\\`, `\b`, `\t`,
/// `\n`, `\f`, `\r`, and `\u00` with two lower-case hexadecimal digits for
/// the other characters below U+0020.
#[verifier::external_body]
pub(crate) fn quoted(text: &str) -> (literal: String)
    ensures
        literal@ == json_string(text@),
{
    serde_json::Value::String(text.to_string()).to_string()
}

/// Writes `value` as a JSON number, by the `Display` of the
/// `serde_json::Value` made from it. The contract claims the decimal
/// digits, without leading zeros, after a minus sign for a negative
/// number.
#[verifier::external_body]
pub(crate) fn number(value: i32) -> (literal: String)
    ensures
        literal@ == json_number(value as int),
{
    serde_json::Value::from(value).to_string()
}

/// Writes the given values, each already written as JSON, as a JSON
/// array.
pub fn json_array(values: &Vec<String>) -> (text: String)
    ensures
        text@ == array_text(values.deep_view()),
{
    let inner = join(values, ",");
    proof {
        reveal_strlit(",");
        reveal_strlit("[");
        reveal_strlit("]");
        assert(","@ =~= seq![',']);
        assert("["@ =~= seq!['[']);
        assert("]"@ =~= seq![']']);
    }
    let mut text = joined("[", inner.as_str());
    text.append("]");
    text
}

/// Writes the given members, each key and each value already written as
/// JSON, as a JSON object.
pub fn json_object(members: &Vec<(String, String)>) -> (text: String)
    ensures
        text@ == object_text(members.deep_view()),
{
    let mut written: Vec<String> = Vec::new();
    let mut i: usize = 0;
    proof {
        reveal_strlit(",");
        reveal_strlit("{");
        reveal_strlit("}");
        reveal_strlit(":");
        assert(","@ =~= seq![',']);
        assert("{"@ =~= seq!['{']);
        assert("}"@ =~= seq!['}']);
        assert(":"@ =~= seq![':']);
    }
    let ghost all = Seq::new(
        members.deep_view().len(),
        |i: int| member_text(members.deep_view()[i].0, members.deep_view()[i].1),
    );
    while i < members.len()
        invariant
            i <= members.len(),
            ":"@ == seq![':'],
            written.deep_view() == all.take(i as int),
            all == Seq::new(
                members.deep_view().len(),
                |i: int| member_text(members.deep_view()[i].0, members.deep_view()[i].1),
            ),
        decreases members.len() - i,
    {
        let mut member = joined(members[i].0.as_str(), ":");
        member.append(members[i].1.as_str());
        let ghost before = written.deep_view();
        written.push(member);
        proof {
            assert(members.deep_view()[i as int] == (members@[i as int].0@, members@[i as int].1@));
            assert(written.deep_view() =~= before.push(member@));
            assert(all.take(i + 1) =~= all.take(i as int).push(all[i as int]));
        }
        i = i + 1;
    }
    proof {
        assert(all.take(i as int) =~= all);
    }
    let inner = join(&written, ",");
    let mut text = joined("{", inner.as_str());
    text.append("}");
    text
}

} // verus!
