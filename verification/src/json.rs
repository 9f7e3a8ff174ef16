//! Canonical JSON, as fingerprints are taken of it: no white space, members in a
//! fixed order.
use crate::text::{decimal, hex_digit, u64_text};
use vstd::prelude::*;
use vstd::string::StringExecFns;

verus! {

/// The escape of one character inside a JSON string.
pub open spec fn escaped(c: char) -> Seq<char> {
    if c == '"' {
        seq!['\\', '"']
    } else if c == '\\' {
        seq!['\\', '\\']
    } else if c == '\u{8}' {
        seq!['\\', 'b']
    } else if c == '\t' {
        seq!['\\', 't']
    } else if c == '\n' {
        seq!['\\', 'n']
    } else if c == '\u{c}' {
        seq!['\\', 'f']
    } else if c == '\r' {
        seq!['\\', 'r']
    } else if ' ' > c {
        seq!['\\', 'u', '0', '0', hex_digit(c as int / 16), hex_digit(c as int % 16)]
    } else {
        seq![c]
    }
}

/// The escapes of the characters of `text`, one after the other.
pub open spec fn escaped_all(text: Seq<char>) -> Seq<char>
    decreases text.len(),
{
    if text.len() == 0 {
        Seq::empty()
    } else {
        escaped(text[0]) + escaped_all(text.skip(1))
    }
}

/// `text` as a JSON string.
pub open spec fn json_text(text: Seq<char>) -> Seq<char> {
    seq!['"'] + escaped_all(text) + seq!['"']
}

/// `serde_json::to_string` writes a text as a JSON string: in quotes, with
/// quotes, backslashes and control characters escaped and nothing else changed.
#[verifier::external_body]
fn json_string(text: &str) -> (json: String)
    ensures
        json@ == json_text(text@),
{
    serde_json::to_string(text).unwrap_or_default()
}

/// A JSON document that is being written.
pub struct JsonWriter {
    out: String,
}

impl View for JsonWriter {
    type V = Seq<char>;

    closed spec fn view(&self) -> Seq<char> {
        self.out@
    }
}

impl JsonWriter {
    /// Nothing has been written.
    pub fn new() -> (writer: Self)
        ensures
            writer@ == Seq::<char>::empty(),
    {
        JsonWriter { out: String::new() }
    }

    /// Writes `raw` as it stands.
    pub fn raw(&mut self, raw: &str)
        ensures
            final(self)@ == old(self)@ + raw@,
    {
        self.out.append(raw);
    }

    /// Writes `text` as a JSON string.
    pub fn text(&mut self, text: &str)
        ensures
            final(self)@ == old(self)@ + json_text(text@),
    {
        let json = json_string(text);
        self.out.append(json.as_str());
    }

    /// Writes `value` in decimal.
    pub fn number(&mut self, value: u64)
        ensures
            final(self)@ == old(self)@ + decimal(value as nat),
    {
        let json = u64_text(value);
        self.out.append(json.as_str());
    }

    /// Writes `true` or `false`.
    pub fn boolean(&mut self, value: bool)
        ensures
            final(self)@ == old(self)@ + json_bool(value),
    {
        if value {
            self.out.append("true");
        } else {
            self.out.append("false");
        }
    }

    /// What was written.
    pub fn finish(self) -> (json: String)
        ensures
            json@ == self@,
    {
        self.out
    }
}

/// A member of a JSON object: its key and the JSON of its value.
pub open spec fn json_member(key: Seq<char>, value: Seq<char>) -> Seq<char> {
    json_text(key) + ":"@ + value
}

/// The first `count` members of a JSON object, parted by commas.
pub open spec fn json_members(members: Seq<(Seq<char>, Seq<char>)>, count: nat) -> Seq<char>
    decreases count,
{
    if count == 0 {
        Seq::empty()
    } else if count == 1 {
        json_member(members[0].0, members[0].1)
    } else {
        json_members(members, (count - 1) as nat) + ","@ + json_member(
            members[count - 1].0,
            members[count - 1].1,
        )
    }
}

/// The JSON object with these members, each a key and the JSON of its value, in this order.
pub open spec fn json_object(members: Seq<(Seq<char>, Seq<char>)>) -> Seq<char> {
    "{"@ + json_members(members, members.len()) + "}"@
}

/// The keys of the members of a JSON object.
pub open spec fn keys(members: Seq<(Seq<char>, Seq<char>)>) -> Seq<Seq<char>> {
    members.map_values(|member: (Seq<char>, Seq<char>)| member.0)
}

/// A text of which nothing needs to be escaped stands in JSON as it is.
pub(crate) proof fn lemma_plain_text(text: Seq<char>)
    requires
        forall|i: int| 0 <= i < text.len() ==> escaped(#[trigger] text[i]) == seq![text[i]],
    ensures
        escaped_all(text) == text,
        json_text(text) == seq!['"'] + text + seq!['"'],
    decreases text.len(),
{
    if text.len() > 0 {
        let rest = text.skip(1);
        assert forall|i: int| 0 <= i < rest.len() implies escaped(#[trigger] rest[i])
            == seq![rest[i]] by {
            assert(rest[i] == text[i + 1]);
        }
        lemma_plain_text(rest);
        assert(escaped(text[0]) == seq![text[0]]);
        assert(seq![text[0]] + rest =~= text);
    }
}

/// `true` or `false`.
pub open spec fn json_bool(value: bool) -> Seq<char> {
    if value {
        "true"@
    } else {
        "false"@
    }
}

/// An object is its members between braces, with a comma between each two of them.
pub proof fn law_objects_hold_their_members(
    members: Seq<(Seq<char>, Seq<char>)>,
    key: Seq<char>,
    value: Seq<char>,
)
    ensures
        json_object(Seq::empty()) == "{"@ + "}"@,
        members.len() == 0 ==> json_object(members.push((key, value))) == "{"@ + json_text(key)
            + ":"@ + value + "}"@,
        members.len() > 0 ==> json_object(members.push((key, value))) == json_object(
            members,
        ).drop_last() + ","@ + json_text(key) + ":"@ + value + "}"@,
{
    reveal_strlit("}");
    assert("}"@.len() == 1);
    assert(json_object(Seq::empty()) =~= "{"@ + "}"@);
    let longer = members.push((key, value));
    assert(longer[members.len() as int] == (key, value));
    if members.len() == 0 {
        assert(json_object(longer) =~= "{"@ + json_text(key) + ":"@ + value + "}"@);
    } else {
        lemma_members_of_prefix(members, longer, members.len());
        assert(json_object(members).drop_last() =~= "{"@ + json_members(members, members.len()));
        assert(json_object(longer) =~= json_object(members).drop_last() + ","@ + json_text(key)
            + ":"@ + value + "}"@);
    }
}

proof fn lemma_members_of_prefix(
    left: Seq<(Seq<char>, Seq<char>)>,
    right: Seq<(Seq<char>, Seq<char>)>,
    count: nat,
)
    requires
        count <= left.len(),
        count <= right.len(),
        forall|i: int| 0 <= i < count ==> left[i] == right[i],
    ensures
        json_members(left, count) == json_members(right, count),
    decreases count,
{
    if count > 1 {
        lemma_members_of_prefix(left, right, (count - 1) as nat);
    }
}

/// A flag is written as one of two words.
pub proof fn law_flags_are_written_as_words(value: bool)
    ensures
        json_bool(value) == "true"@ <==> value,
        json_bool(value) == "false"@ <==> !value,
{
    reveal_strlit("true");
    reveal_strlit("false");
    assert("true"@.len() == 4 && "false"@.len() == 5);
}

} // verus!
