//! JSON text for the outbound wire frames.

use vstd::prelude::*;

verus! {

/// The error `serde_json` reports; the relay never sees one.
#[verifier::external_type_specification]
#[verifier::external_body]
pub struct ExJsonError(serde_json::Error);

/// The lower-case hexadecimal digit for a number below sixteen.
pub open spec fn hex_digit(n: int) -> char
    recommends
        0 <= n < 16,
{
    seq!['0', '1', '2', '3', '4', '5', '6', '7', '8', '9', 'a', 'b', 'c', 'd', 'e', 'f'][n]
}

/// How one character stands inside a JSON string literal. The quote and the
/// backslash get a backslash in front; backspace, form feed, line feed,
/// carriage return and tab have their letter; every other character below
/// the space is written as `\u00` and two hexadecimal digits; all others,
/// the ones beyond ASCII too, stand for themselves.
pub open spec fn escaped_char(c: char) -> Seq<char> {
    if c == '"' {
        seq!['\\', '"']
    } else if c == '\\' {
        seq!['\\', '\\']
    } else if c == '\u{8}' {
        seq!['\\', 'b']
    } else if c == '\u{c}' {
        seq!['\\', 'f']
    } else if c == '\n' {
        seq!['\\', 'n']
    } else if c == '\r' {
        seq!['\\', 'r']
    } else if c == '\t' {
        seq!['\\', 't']
    } else if (c as int) < 0x20 {
        seq!['\\', 'u', '0', '0', hex_digit(c as int / 16), hex_digit(c as int % 16)]
    } else {
        seq![c]
    }
}

/// A text with each of its characters escaped, in order.
pub open spec fn escaped(text: Seq<char>) -> Seq<char>
    decreases text.len(),
{
    if text.len() == 0 {
        Seq::empty()
    } else {
        escaped(text.drop_last()) + escaped_char(text.last())
    }
}

/// The JSON string literal for a text: the escaped text between two double
/// quotes.
pub open spec fn json_string(text: Seq<char>) -> Seq<char> {
    seq!['"'] + escaped(text) + seq!['"']
}

/// Whether a character stands for itself inside a JSON string literal.
pub open spec fn is_plain(c: char) -> bool {
    c != '"' && c != '\\' && (c as int) >= 0x20
}

/// A text of plain characters is written as it is, between the quotes.
pub proof fn plain_text_is_quoted_as_it_is(text: Seq<char>)
    requires
        forall|i: int| 0 <= i < text.len() ==> is_plain(#[trigger] text[i]),
    ensures
        escaped(text) == text,
        json_string(text) == seq!['"'] + text + seq!['"'],
    decreases text.len(),
{
    if text.len() > 0 {
        let front = text.drop_last();
        assert forall|i: int| 0 <= i < front.len() implies is_plain(#[trigger] front[i]) by {
            assert(front[i] == text[i]);
        }
        plain_text_is_quoted_as_it_is(front);
        assert(is_plain(text[text.len() - 1]));
        assert(escaped_char(text.last()) == seq![text.last()]);
        assert(front + seq![text.last()] =~= text);
    } else {
        assert(escaped(text) =~= text);
    }
}

/// Calls `serde_json::to_string` on a string slice. On a string slice the
/// serializer cannot fail: it writes into memory, and a text is always a
/// JSON string. What it writes is the text's JSON string literal, escaped as
/// [`escaped_char`] says.
#[verifier::external_body]
pub(crate) fn json_quote(text: &str) -> (out: Result<String, serde_json::Error>)
    ensures
        out is Ok,
        out->Ok_0@ == json_string(text@),
{
    serde_json::to_string(text)
}

} // verus!
