//! What JSON texts mean, as far as they are made of strings and objects.
//!
//! Nothing here runs: it is the reading by which what the library writes is judged.

use vstd::prelude::*;

verus! {

/// A JSON value that is a string or an object of such values, the members of an object in the
/// order in which they stand.
pub enum JsonValue {
    Text(Seq<char>),
    Object(Seq<(Seq<char>, JsonValue)>),
}

/// A character read from a JSON string, and how many characters stand for it there.
pub struct CharRead {
    pub value: char,
    pub length: nat,
}

/// A text read from a JSON string, and what follows the string.
pub struct TextRead {
    pub value: Seq<char>,
    pub rest: Seq<char>,
}

/// The members read of a JSON object, and what follows the object.
pub struct MembersRead {
    pub members: Seq<(Seq<char>, JsonValue)>,
    pub rest: Seq<char>,
}

/// A value read from a JSON text, and what follows the value.
pub struct ValueRead {
    pub value: JsonValue,
    pub rest: Seq<char>,
}

/// A character that may stand between the parts of a JSON text.
pub open spec fn is_blank(c: char) -> bool {
    c == ' ' || c == '\t' || c == '\n' || c == '\r'
}

/// A text without the blanks in front of it.
pub open spec fn skip_blanks(text: Seq<char>) -> Seq<char>
    decreases text.len(),
{
    if text.len() > 0 && is_blank(text[0]) {
        skip_blanks(text.drop_first())
    } else {
        text
    }
}

/// The value of a hexadecimal digit.
pub open spec fn hex_digit_value(c: char) -> nat {
    if crate::text::is_digit(c) {
        (c as nat - '0' as nat) as nat
    } else if 'a' <= c {
        (c as nat - 'a' as nat + 10) as nat
    } else {
        (c as nat - 'A' as nat + 10) as nat
    }
}

/// The number that the four hexadecimal digits behind `\u` denote; `None` where a text does not
/// begin with such an escape.
pub open spec fn read_code_unit(text: Seq<char>) -> Option<nat> {
    if text.len() >= 6 && text[0] == '\\' && text[1] == 'u' && crate::text::is_hex_digit(text[2])
        && crate::text::is_hex_digit(text[3]) && crate::text::is_hex_digit(text[4])
        && crate::text::is_hex_digit(text[5]) {
        Some(
            hex_digit_value(text[2]) * 4096 + hex_digit_value(text[3]) * 256 + hex_digit_value(
                text[4],
            ) * 16 + hex_digit_value(text[5]),
        )
    } else {
        None
    }
}

/// The character that an escape of one or, for a surrogate pair, two code units stands for.
pub open spec fn read_unicode_escape(text: Seq<char>) -> Option<CharRead> {
    match read_code_unit(text) {
        None => None,
        Some(unit) => if unit < 0xd800 || 0xe000 <= unit {
            Some(CharRead { value: unit as char, length: 6 })
        } else {
            match read_code_unit(text.skip(6)) {
                Some(low) => if unit < 0xdc00 && 0xdc00 <= low < 0xe000 {
                    Some(
                        CharRead {
                            value: (0x10000 + (unit - 0xd800) * 0x400 + (low - 0xdc00)) as char,
                            length: 12,
                        },
                    )
                } else {
                    None
                },
                None => None,
            }
        },
    }
}

/// The character that a text begins with, read as the inside of a JSON string. A control
/// character cannot stand there.
pub open spec fn read_char(text: Seq<char>) -> Option<CharRead> {
    if text.len() == 0 || (text[0] as nat) < 32 {
        None
    } else if text[0] != '\\' {
        Some(CharRead { value: text[0], length: 1 })
    } else if text.len() < 2 {
        None
    } else if text[1] == '"' || text[1] == '\\' || text[1] == '/' {
        Some(CharRead { value: text[1], length: 2 })
    } else if text[1] == 'b' {
        Some(CharRead { value: '\u{8}', length: 2 })
    } else if text[1] == 'f' {
        Some(CharRead { value: '\u{c}', length: 2 })
    } else if text[1] == 'n' {
        Some(CharRead { value: '\n', length: 2 })
    } else if text[1] == 'r' {
        Some(CharRead { value: '\r', length: 2 })
    } else if text[1] == 't' {
        Some(CharRead { value: '\t', length: 2 })
    } else {
        read_unicode_escape(text)
    }
}

/// Reads a JSON string whose opening quote stands in front of the text.
pub open spec fn read_string(text: Seq<char>) -> Option<TextRead>
    decreases text.len(),
{
    if text.len() > 0 && text[0] == '"' {
        Some(TextRead { value: Seq::empty(), rest: text.drop_first() })
    } else {
        match read_char(text) {
            Some(CharRead { value: first, length }) => match read_string(text.skip(length as int)) {
                Some(TextRead { value, rest }) => Some(
                    TextRead { value: seq![first] + value, rest },
                ),
                None => None,
            },
            None => None,
        }
    }
}

/// Reads a value, behind blanks. Numbers, arrays, `true`, `false` and `null` are not read.
#[verifier::opaque]
pub open spec fn read_value(text: Seq<char>) -> Option<ValueRead>
    decreases text.len(),
    via read_value_decreases
{
    let start = skip_blanks(text);
    if start.len() == 0 {
        None
    } else if start[0] == '"' {
        match read_string(start.drop_first()) {
            Some(TextRead { value, rest }) => Some(
                ValueRead { value: JsonValue::Text(value), rest },
            ),
            None => None,
        }
    } else if start[0] == '{' {
        let inside = skip_blanks(start.drop_first());
        if inside.len() > 0 && inside[0] == '}' {
            Some(ValueRead { value: JsonValue::Object(Seq::empty()), rest: inside.drop_first() })
        } else {
            match read_members(start.drop_first()) {
                Some(MembersRead { members, rest }) => Some(
                    ValueRead { value: JsonValue::Object(members), rest },
                ),
                None => None,
            }
        }
    } else {
        None
    }
}

/// Reads the members of an object, at least one, and the closing brace.
#[verifier::opaque]
pub open spec fn read_members(text: Seq<char>) -> Option<MembersRead>
    decreases text.len(),
    via read_members_decreases
{
    let start = skip_blanks(text);
    if start.len() == 0 || start[0] != '"' {
        None
    } else {
        match read_string(start.drop_first()) {
            None => None,
            Some(TextRead { value: name, rest: behind_name }) => {
                let colon = skip_blanks(behind_name);
                if colon.len() == 0 || colon[0] != ':' {
                    None
                } else {
                    match read_value(colon.drop_first()) {
                        None => None,
                        Some(ValueRead { value, rest: behind_value }) => {
                            // What is left behind a value is never longer than the text.
                            let end = skip_blanks(behind_value);
                            if end.len() == 0 || end.len() > text.len() {
                                None
                            } else if end[0] == '}' {
                                Some(
                                    MembersRead {
                                        members: seq![(name, value)],
                                        rest: end.drop_first(),
                                    },
                                )
                            } else if end[0] == ',' {
                                match read_members(end.drop_first()) {
                                    Some(MembersRead { members, rest }) => Some(
                                        MembersRead {
                                            members: seq![(name, value)] + members,
                                            rest,
                                        },
                                    ),
                                    None => None,
                                }
                            } else {
                                None
                            }
                        },
                    }
                }
            },
        }
    }
}

/// The value that a whole text is; `None` where it is none that is read here.
pub open spec fn read_document(text: Seq<char>) -> Option<JsonValue> {
    match read_value(text) {
        Some(ValueRead { value, rest }) => if skip_blanks(rest).len() == 0 {
            Some(value)
        } else {
            None
        },
        None => None,
    }
}

#[via_fn]
proof fn read_value_decreases(text: Seq<char>) {
    lemma_skip_blanks_shorter(text);
}

#[via_fn]
proof fn read_members_decreases(text: Seq<char>) {
    let start = skip_blanks(text);
    lemma_skip_blanks_shorter(text);
    if start.len() > 0 {
        lemma_read_string_shorter(start.drop_first());
        if let Some(TextRead { rest, .. }) = read_string(start.drop_first()) {
            lemma_skip_blanks_shorter(rest);
        }
    }
}

proof fn lemma_skip_blanks_shorter(text: Seq<char>)
    ensures
        skip_blanks(text).len() <= text.len(),
    decreases text.len(),
{
    if text.len() > 0 && is_blank(text[0]) {
        lemma_skip_blanks_shorter(text.drop_first());
    }
}

proof fn lemma_read_string_shorter(text: Seq<char>)
    ensures
        read_string(text) matches Some(TextRead { rest, .. }) ==> rest.len() < text.len(),
    decreases text.len(),
{
    if text.len() > 0 && text[0] == '"' {
    } else if let Some(CharRead { length, .. }) = read_char(text) {
        lemma_read_string_shorter(text.skip(length as int));
    }
}

/// An escaped character reads back as the character, whatever follows it.
proof fn lemma_read_escaped_char(c: char, rest: Seq<char>)
    ensures
        read_char(crate::json::json_escaped_char(c) + rest) == Some(
            CharRead { value: c, length: crate::json::json_escaped_char(c).len() },
        ),
        (crate::json::json_escaped_char(c) + rest)[0] != '"',
{
    let text = crate::json::json_escaped_char(c) + rest;
    if crate::json::json_escaped_char(c).len() == 6 {
        let high = c as nat / 16;
        let low = c as nat % 16;
        assert(hex_digit_value(crate::json::hex_char(high)) == high);
        assert(hex_digit_value(crate::json::hex_char(low)) == low);
        assert(read_code_unit(text) == Some(c as nat));
    }
}

/// Reading a JSON string undoes the escaping of its text.
pub proof fn law_escaped_reads_back(text: Seq<char>, rest: Seq<char>)
    ensures
        read_string(crate::json::json_escaped(text) + seq!['"'] + rest) == Some(
            TextRead { value: text, rest },
        ),
    decreases text.len(),
{
    let whole = crate::json::json_escaped(text) + seq!['"'] + rest;
    if text.len() == 0 {
        assert(whole.drop_first() == rest);
        assert(text == Seq::<char>::empty());
    } else {
        let first = crate::json::json_escaped_char(text[0]);
        let behind = crate::json::json_escaped(text.drop_first()) + seq!['"'] + rest;
        assert(whole == first + behind);
        lemma_read_escaped_char(text[0], behind);
        law_escaped_reads_back(text.drop_first(), rest);
        assert(whole.skip(first.len() as int) == behind);
        assert(seq![text[0]] + text.drop_first() == text);
    }
}

/// A text as a JSON string reads back as the text, and so do the characters behind it.
pub proof fn lemma_read_quoted(text: Seq<char>, rest: Seq<char>)
    ensures
        read_value(crate::json::json_quoted(text) + rest) == Some(
            ValueRead { value: JsonValue::Text(text), rest },
        ),
{
    reveal(read_value);
    let whole = crate::json::json_quoted(text) + rest;
    assert(whole[0] == '"');
    assert(whole.drop_first() == crate::json::json_escaped(text) + seq!['"'] + rest);
    law_escaped_reads_back(text, rest);
}

/// A JSON string as a document reads back as its text: nothing is lost, and nothing is added.
pub proof fn law_quoted_reads_back(text: Seq<char>)
    ensures
        read_document(crate::json::json_quoted(text)) == Some(JsonValue::Text(text)),
{
    lemma_read_quoted(text, Seq::empty());
    assert(crate::json::json_quoted(text) + Seq::<char>::empty() == crate::json::json_quoted(text));
}

/// The last member of an object: a name, a colon, a value and the closing brace.
pub proof fn lemma_read_last_member(
    name: Seq<char>,
    text: Seq<char>,
    value: JsonValue,
    rest: Seq<char>,
)
    requires
        read_value(text) == Some(ValueRead { value, rest: seq!['}'] + rest }),
        rest.len() < text.len(),
    ensures
        read_members(crate::json::json_quoted(name) + seq![':'] + text) == Some(
            MembersRead { members: seq![(name, value)], rest },
        ),
{
    reveal(read_value);
    reveal(read_members);
    lemma_read_name(name, text);
    assert((seq!['}'] + rest).drop_first() == rest);
}

/// A member with others behind it.
pub proof fn lemma_read_member(
    name: Seq<char>,
    text: Seq<char>,
    value: JsonValue,
    behind: Seq<char>,
    others: MembersRead,
)
    requires
        read_value(text) == Some(ValueRead { value, rest: seq![','] + behind }),
        behind.len() < text.len(),
        read_members(behind) == Some(others),
    ensures
        read_members(crate::json::json_quoted(name) + seq![':'] + text) == Some(
            MembersRead { members: seq![(name, value)] + others.members, rest: others.rest },
        ),
{
    reveal(read_value);
    reveal(read_members);
    lemma_read_name(name, text);
    assert((seq![','] + behind).drop_first() == behind);
}

proof fn lemma_read_name(name: Seq<char>, text: Seq<char>)
    ensures
        ({
            let whole = crate::json::json_quoted(name) + seq![':'] + text;
            &&& whole.len() > text.len()
            &&& whole[0] == '"'
            &&& read_string(whole.drop_first()) == Some(
                TextRead { value: name, rest: seq![':'] + text },
            )
            &&& (seq![':'] + text).drop_first() == text
        }),
{
    let whole = crate::json::json_quoted(name) + seq![':'] + text;
    assert(whole.drop_first() == crate::json::json_escaped(name) + seq!['"'] + (seq![':'] + text));
    law_escaped_reads_back(name, seq![':'] + text);
    assert((seq![':'] + text).drop_first() == text);
}

/// An opening brace in front of members makes an object.
pub proof fn lemma_read_object(text: Seq<char>, read: MembersRead)
    requires
        text.len() > 0,
        text[0] == '"',
        read_members(text) == Some(read),
    ensures
        read_value(seq!['{'] + text) == Some(
            ValueRead { value: JsonValue::Object(read.members), rest: read.rest },
        ),
{
    reveal(read_value);
    reveal(read_members);
    assert((seq!['{'] + text).drop_first() == text);
}

/// A text of printable characters, without quotes and backslashes, is not changed by escaping.
pub proof fn lemma_plain_is_not_escaped(text: Seq<char>)
    requires
        forall|k: int|
            0 <= k < text.len() ==> (#[trigger] text[k]) as nat >= 32 && text[k] != '"' && text[k]
                != '\\',
    ensures
        crate::json::json_escaped(text) == text,
    decreases text.len(),
{
    if text.len() > 0 {
        lemma_plain_is_not_escaped(text.drop_first());
        assert(seq![text[0]] + text.drop_first() == text);
    } else {
        assert(text == Seq::<char>::empty());
    }
}

} // verus!
