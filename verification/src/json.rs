//! JSON, as the `serde_json` crate reads and writes it.

use crate::text::same_text;
use vstd::prelude::*;

verus! {

/// What is read of a JSON document: of an object its members, of anything else nothing.
#[derive(Debug)]
pub enum JsonDocument {
    Object(Vec<JsonMember>),
    Other,
}

/// A member of a JSON object: its name, and its value where that is a string.
#[derive(Debug)]
pub struct JsonMember {
    pub name: String,
    pub text: Option<String>,
}

/// The members of a JSON object, by name and string value.
pub type Members = Seq<(Seq<char>, Option<Seq<char>>)>;

impl View for JsonMember {
    type V = (Seq<char>, Option<Seq<char>>);

    open spec fn view(&self) -> (Seq<char>, Option<Seq<char>>) {
        (
            self.name@,
            match self.text {
                Some(text) => Some(text@),
                None => None,
            },
        )
    }
}

impl View for JsonDocument {
    type V = Option<Members>;

    /// The members of an object; `None` for a document that is not one.
    open spec fn view(&self) -> Option<Members> {
        match self {
            JsonDocument::Object(members) => Some(
                Seq::new(members@.len(), |i: int| members@[i]@),
            ),
            JsonDocument::Other => None,
        }
    }
}

/// What parsing bytes as JSON gives: `None` where they are not JSON, `Some(None)` where they are
/// but not an object, else the members of the object.
pub uninterp spec fn json_document(bytes: Seq<u8>) -> Option<
    Option<Seq<(Seq<char>, Option<Seq<char>>)>>,
>;

/// The string under a name, in the first member that has the name.
pub open spec fn member_text(members: Members, name: Seq<char>) -> Option<Seq<char>>
    decreases members.len(),
{
    if members.len() == 0 {
        None
    } else if members[0].0 == name {
        members[0].1
    } else {
        member_text(members.drop_first(), name)
    }
}

/// The string under a name in a document; none where the document is not an object, has no such
/// member or has something else in it.
pub open spec fn document_text(document: Option<Members>, name: Seq<char>) -> Option<Seq<char>> {
    match document {
        Some(members) => member_text(members, name),
        None => None,
    }
}

/// No two members have the same name.
pub open spec fn has_distinct_names(members: Members) -> bool {
    forall|i: int, j: int|
        0 <= i < j < members.len() ==> (#[trigger] members[i]).0 != (#[trigger] members[j]).0
}

/// Parses JSON with `serde_json::from_slice` into a `serde_json::Value`.
///
/// Trusted: the document is a function of the bytes alone, and no two members of an object have
/// the same name. Which bytes are JSON, and what they say, is left to the parser.
#[verifier::external_body]
pub(crate) fn parse_json(bytes: &[u8]) -> (document: Option<JsonDocument>)
    ensures
        (match document {
            Some(document) => Some(document@),
            None => None,
        }) == json_document(bytes@),
        document matches Some(document) ==> (document@ matches Some(members)
            ==> has_distinct_names(members)),
{
    match serde_json::from_slice::<serde_json::Value>(bytes).ok()? {
        serde_json::Value::Object(members) => Some(
            JsonDocument::Object(
                members.into_iter().map(
                    |(name, value)|
                        JsonMember { name, text: value.as_str().map(|text| text.to_owned()) },
                ).collect(),
            ),
        ),
        _ => Some(JsonDocument::Other),
    }
}

impl JsonDocument {
    /// The string under a name.
    pub fn text_of(&self, name: &str) -> (text: Option<String>)
        ensures
            (match text {
                Some(text) => Some(text@),
                None => None,
            }) == document_text(self@, name@),
    {
        match self {
            JsonDocument::Object(members) => {
                let ghost all: Members = Seq::new(members@.len(), |i: int| members@[i]@);
                assert(all.skip(0) == all);
                for i in 0..members.len()
                    invariant
                        all == Seq::new(members@.len(), |i: int| members@[i]@),
                        self@ == Some(all),
                        member_text(all, name@) == member_text(all.skip(i as int), name@),
                {
                    assert(all.skip(i as int)[0] == members@[i as int]@);
                    if same_text(members[i].name.as_str(), name) {
                        return members[i].text.clone();
                    }
                    assert(all.skip(i as int).drop_first() == all.skip(i + 1));
                }
                assert(all.skip(members@.len() as int).len() == 0);
                None
            },
            JsonDocument::Other => None,
        }
    }
}

/// Where names are distinct, the string under a name is that of the one member that has it.
pub proof fn law_member_text_is_unique(members: Members, name: Seq<char>, text: Seq<char>)
    requires
        has_distinct_names(members),
    ensures
        member_text(members, name) == Some(text) <==> members.contains((name, Some(text))),
    decreases members.len(),
{
    if members.len() > 0 {
        let rest = members.drop_first();
        assert forall|i: int, j: int| 0 <= i < j < rest.len() implies (#[trigger] rest[i]).0 != (
        #[trigger] rest[j]).0 by {
            assert(members[i + 1].0 != members[j + 1].0);
        }
        law_member_text_is_unique(rest, name, text);
        let wanted = (name, Some(text));
        if members.contains(wanted) {
            let i = members.index_of(wanted);
            if i > 0 {
                assert(rest[i - 1] == wanted);
                assert(members[0].0 != members[i].0);
            }
        }
        if rest.contains(wanted) {
            let i = rest.index_of(wanted);
            assert(members[i + 1] == wanted);
        }
        if members[0] == wanted {
            assert(members.contains(members[0]));
        }
    }
}

/// One hexadecimal digit, in lower case.
pub open spec fn hex_char(digit: nat) -> char {
    if digit < 10 {
        ('0' as nat + digit) as char
    } else {
        ('a' as nat + digit - 10) as char
    }
}

/// A character as it stands in a JSON string: a quote, a backslash and the control characters
/// are escaped, by a letter where they have one.
pub open spec fn json_escaped_char(c: char) -> Seq<char> {
    if c == '"' {
        seq!['\\', '"']
    } else if c == '\\' {
        seq!['\\', '\\']
    } else if c == '\u{8}' {
        seq!['\\', 'b']
    } else if c == '\u{c}' {
        seq!['\\', 'f']
    } else if c == '\n' {
        seq!['\\', 'n']
    } else if c == '\r' {
        seq!['\\', 'r']
    } else if c == '\t' {
        seq!['\\', 't']
    } else if (c as nat) < 32 {
        seq!['\\', 'u', '0', '0', hex_char(c as nat / 16), hex_char(c as nat % 16)]
    } else {
        seq![c]
    }
}

/// The characters of a text as they stand in a JSON string.
pub open spec fn json_escaped(text: Seq<char>) -> Seq<char>
    decreases text.len(),
{
    if text.len() == 0 {
        Seq::empty()
    } else {
        json_escaped_char(text[0]) + json_escaped(text.drop_first())
    }
}

/// A text as a JSON string.
pub open spec fn json_quoted(text: Seq<char>) -> Seq<char> {
    seq!['"'] + json_escaped(text) + seq!['"']
}

/// Different texts are different JSON strings: nothing of a text is lost.
pub proof fn law_quoted_determines_text(left: Seq<char>, right: Seq<char>)
    requires
        json_quoted(left) == json_quoted(right),
    ensures
        left == right,
{
    crate::json_reader::law_quoted_reads_back(left);
    crate::json_reader::law_quoted_reads_back(right);
}

/// Writes a text as a JSON string, with `serde_json::Value`'s `Display`.
///
/// Trusted: the result is the text between double quotes, with quotes, backslashes and control
/// characters escaped, and everything else as it is.
#[verifier::external_body]
pub(crate) fn json_string(text: &str) -> (quoted: String)
    ensures
        quoted@ == json_quoted(text@),
{
    serde_json::Value::String(text.to_owned()).to_string()
}

/// What is read of a document is what it holds, member by member, and the string under a name is
/// that of the first member that has the name.
pub proof fn law_text_of_first_member(document: JsonDocument, name: Seq<char>, i: int)
    ensures
        document is Other ==> document_text(document@, name) is None,
        document matches JsonDocument::Object(members) ==> {
            &&& 0 <= i < members@.len() && members@[i].name@ == name && (forall|j: int|
                0 <= j < i ==> (#[trigger] members@[j]).name@ != name) ==> {
                &&& members@[i].text matches Some(text) ==> document_text(document@, name) == Some(
                    text@,
                )
                &&& members@[i].text is None ==> document_text(document@, name) is None
            }
            &&& (forall|j: int| 0 <= j < members@.len() ==> (#[trigger] members@[j]).name@ != name)
                ==> document_text(document@, name) is None
        },
{
    if let JsonDocument::Object(members) = document {
        let all: Members = Seq::new(members@.len(), |k: int| members@[k]@);
        if 0 <= i < members@.len() && members@[i].name@ == name && (forall|j: int|
            0 <= j < i ==> (#[trigger] members@[j]).name@ != name) {
            assert forall|j: int| 0 <= j < i implies (#[trigger] all[j]).0 != name by {
                assert(members@[j].name@ != name);
            }
            lemma_member_text_at(all, name, i);
        }
        if forall|j: int| 0 <= j < members@.len() ==> (#[trigger] members@[j]).name@ != name {
            assert forall|j: int| 0 <= j < all.len() implies (#[trigger] all[j]).0 != name by {
                assert(members@[j].name@ != name);
            }
            lemma_member_text_absent(all, name);
        }
    }
}

proof fn lemma_member_text_at(members: Members, name: Seq<char>, i: int)
    requires
        0 <= i < members.len(),
        members[i].0 == name,
        forall|j: int| 0 <= j < i ==> (#[trigger] members[j]).0 != name,
    ensures
        member_text(members, name) == members[i].1,
    decreases members.len(),
{
    if i > 0 {
        let rest = members.drop_first();
        assert(members[0].0 != name);
        assert forall|j: int| 0 <= j < i - 1 implies (#[trigger] rest[j]).0 != name by {
            assert(members[j + 1].0 != name);
        }
        lemma_member_text_at(rest, name, i - 1);
    }
}

proof fn lemma_member_text_absent(members: Members, name: Seq<char>)
    requires
        forall|j: int| 0 <= j < members.len() ==> (#[trigger] members[j]).0 != name,
    ensures
        member_text(members, name) is None,
    decreases members.len(),
{
    if members.len() > 0 {
        let rest = members.drop_first();
        assert forall|j: int| 0 <= j < rest.len() implies (#[trigger] rest[j]).0 != name by {
            assert(members[j + 1].0 != name);
        }
        lemma_member_text_absent(rest, name);
    }
}

} // verus!
