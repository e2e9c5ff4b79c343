//! The grammar of JSON texts, as far as the scanner's laws speak of it.
//!
//! A JSON value is modelled by its syntax tree, whitespace and spelling
//! included, so that every well-formed text is the rendering of exactly the
//! trees that spell it.

use vstd::prelude::*;
use crate::scanner_laws::is_json_whitespace;

verus! {

/// Where a reader stands inside the body of a string literal.
pub ghost enum StringPart {
    /// Between characters.
    Plain,
    /// Behind a backslash.
    Escape,
    /// Inside `\u`, with this many hexadecimal digits still to come.
    Hex(nat),
    /// The body is not one of a string literal.
    Bad,
}

/// A hexadecimal digit, in either case.
pub open spec fn is_hex_digit(c: char) -> bool {
    ('0' <= c <= '9') || ('a' <= c <= 'f') || ('A' <= c <= 'F')
}

/// A character that may follow a backslash, other than `u`.
pub open spec fn is_simple_escape(c: char) -> bool {
    c == '"' || c == '\\' || c == '/' || c == 'b' || c == 'f' || c == 'n' || c == 'r' || c == 't'
}

/// One character further in the body of a string literal. Quotes and
/// control characters may not stand there unescaped.
pub open spec fn string_step(part: StringPart, c: char) -> StringPart {
    match part {
        StringPart::Plain => if c == '\\' {
            StringPart::Escape
        } else if c == '"' || (c as u32) < 0x20 {
            StringPart::Bad
        } else {
            StringPart::Plain
        },
        StringPart::Escape => if c == 'u' {
            StringPart::Hex(4)
        } else if is_simple_escape(c) {
            StringPart::Plain
        } else {
            StringPart::Bad
        },
        StringPart::Hex(owed) => if !is_hex_digit(c) {
            StringPart::Bad
        } else if owed <= 1 {
            StringPart::Plain
        } else {
            StringPart::Hex((owed - 1) as nat)
        },
        StringPart::Bad => StringPart::Bad,
    }
}

/// Where a reader stands after the whole of `body`.
pub open spec fn string_part_after(body: Seq<char>) -> StringPart
    decreases body.len(),
{
    if body.len() == 0 {
        StringPart::Plain
    } else {
        string_step(string_part_after(body.drop_last()), body.last())
    }
}

/// What may stand between the quotes of a string literal.
pub open spec fn is_string_body(body: Seq<char>) -> bool {
    string_part_after(body) is Plain
}

/// Where a reader stands inside a number.
pub ghost enum NumberPart {
    Start,
    /// Behind the sign.
    Minus,
    /// Behind a single leading zero.
    Zero,
    /// Inside the integer part.
    Int,
    /// Behind the decimal point.
    Dot,
    /// Inside the fraction.
    Frac,
    /// Behind `e` or `E`.
    E,
    /// Behind the sign of the exponent.
    ESign,
    /// Inside the exponent.
    Exp,
    /// The text is no number.
    Bad,
}

/// One character further in a number.
pub open spec fn number_step(part: NumberPart, c: char) -> NumberPart {
    let digit = '0' <= c <= '9';
    let exponent = c == 'e' || c == 'E';
    match part {
        NumberPart::Start => if c == '-' {
            NumberPart::Minus
        } else if c == '0' {
            NumberPart::Zero
        } else if digit {
            NumberPart::Int
        } else {
            NumberPart::Bad
        },
        NumberPart::Minus => if c == '0' {
            NumberPart::Zero
        } else if digit {
            NumberPart::Int
        } else {
            NumberPart::Bad
        },
        NumberPart::Zero => if c == '.' {
            NumberPart::Dot
        } else if exponent {
            NumberPart::E
        } else {
            NumberPart::Bad
        },
        NumberPart::Int => if digit {
            NumberPart::Int
        } else if c == '.' {
            NumberPart::Dot
        } else if exponent {
            NumberPart::E
        } else {
            NumberPart::Bad
        },
        NumberPart::Dot => if digit {
            NumberPart::Frac
        } else {
            NumberPart::Bad
        },
        NumberPart::Frac => if digit {
            NumberPart::Frac
        } else if exponent {
            NumberPart::E
        } else {
            NumberPart::Bad
        },
        NumberPart::E => if c == '+' || c == '-' {
            NumberPart::ESign
        } else if digit {
            NumberPart::Exp
        } else {
            NumberPart::Bad
        },
        NumberPart::ESign => if digit {
            NumberPart::Exp
        } else {
            NumberPart::Bad
        },
        NumberPart::Exp => if digit {
            NumberPart::Exp
        } else {
            NumberPart::Bad
        },
        NumberPart::Bad => NumberPart::Bad,
    }
}

/// Where a reader stands after the whole of `text`.
pub open spec fn number_part_after(text: Seq<char>) -> NumberPart
    decreases text.len(),
{
    if text.len() == 0 {
        NumberPart::Start
    } else {
        number_step(number_part_after(text.drop_last()), text.last())
    }
}

/// A number: an optional minus, an integer part without needless zeros, an
/// optional fraction and an optional exponent.
pub open spec fn is_number(text: Seq<char>) -> bool {
    let part = number_part_after(text);
    part is Zero || part is Int || part is Frac || part is Exp
}

/// A JSON value as it is spelled. Whitespace is kept where the grammar
/// allows it: around every element, key and member value, and inside empty
/// brackets.
pub ghost enum Json {
    Null,
    True,
    False,
    /// A number, by its spelling.
    Number(Seq<char>),
    /// A string, by what stands between its quotes.
    Text(Seq<char>),
    /// `[`, whitespace, `]`.
    EmptyArray(Seq<char>),
    /// `[`, one or more elements, `]`.
    Array(Box<Elements>),
    /// `{`, whitespace, `}`.
    EmptyObject(Seq<char>),
    /// `{`, one or more members, `}`.
    Object(Box<Members>),
}

/// A value with the whitespace before and behind it.
pub ghost struct Element {
    pub before: Seq<char>,
    pub value: Json,
    pub behind: Seq<char>,
}

/// One or more elements, with commas between them.
pub ghost enum Elements {
    Last(Element),
    More(Element, Box<Elements>),
}

/// A key, a colon and a value, with the whitespace around the key and
/// around the value.
pub ghost struct Member {
    pub before_key: Seq<char>,
    pub key: Seq<char>,
    pub behind_key: Seq<char>,
    pub value: Element,
}

/// One or more members, with commas between them.
pub ghost enum Members {
    Last(Member),
    More(Member, Box<Members>),
}

/// The text of a value.
pub open spec fn render(value: Json) -> Seq<char>
    decreases value,
{
    match value {
        Json::Null => seq!['n', 'u', 'l', 'l'],
        Json::True => seq!['t', 'r', 'u', 'e'],
        Json::False => seq!['f', 'a', 'l', 's', 'e'],
        Json::Number(text) => text,
        Json::Text(body) => seq!['"'] + body + seq!['"'],
        Json::EmptyArray(space) => seq!['['] + space + seq![']'],
        Json::Array(elements) => seq!['['] + render_elements(*elements) + seq![']'],
        Json::EmptyObject(space) => seq!['{'] + space + seq!['}'],
        Json::Object(members) => seq!['{'] + render_members(*members) + seq!['}'],
    }
}

/// The text of a value with its whitespace.
pub open spec fn render_element(element: Element) -> Seq<char>
    decreases element,
{
    element.before + render(element.value) + element.behind
}

/// The text of a list of elements.
pub open spec fn render_elements(elements: Elements) -> Seq<char>
    decreases elements,
{
    match elements {
        Elements::Last(element) => render_element(element),
        Elements::More(element, rest) => render_element(element) + seq![','] + render_elements(
            *rest,
        ),
    }
}

/// The text of a member.
pub open spec fn render_member(member: Member) -> Seq<char>
    decreases member,
{
    member.before_key + seq!['"'] + member.key + seq!['"'] + member.behind_key + seq![':']
        + render_element(member.value)
}

/// The text of a list of members.
pub open spec fn render_members(members: Members) -> Seq<char>
    decreases members,
{
    match members {
        Members::Last(member) => render_member(member),
        Members::More(member, rest) => render_member(member) + seq![','] + render_members(*rest),
    }
}

/// Whether a tree spells a JSON value: numbers are numbers, string bodies
/// are string bodies, and whitespace is whitespace.
pub open spec fn well_formed_json(value: Json) -> bool
    decreases value,
{
    match value {
        Json::Null | Json::True | Json::False => true,
        Json::Number(text) => is_number(text),
        Json::Text(body) => is_string_body(body),
        Json::EmptyArray(space) => is_json_whitespace(space),
        Json::Array(elements) => well_formed_elements(*elements),
        Json::EmptyObject(space) => is_json_whitespace(space),
        Json::Object(members) => well_formed_members(*members),
    }
}

/// Whether a tree spells a value with whitespace around it.
pub open spec fn well_formed_element(element: Element) -> bool
    decreases element,
{
    &&& is_json_whitespace(element.before)
    &&& well_formed_json(element.value)
    &&& is_json_whitespace(element.behind)
}

/// Whether a tree spells a list of elements.
pub open spec fn well_formed_elements(elements: Elements) -> bool
    decreases elements,
{
    match elements {
        Elements::Last(element) => well_formed_element(element),
        Elements::More(element, rest) => well_formed_element(element) && well_formed_elements(
            *rest,
        ),
    }
}

/// Whether a tree spells a member.
pub open spec fn well_formed_member(member: Member) -> bool
    decreases member,
{
    &&& is_json_whitespace(member.before_key)
    &&& is_string_body(member.key)
    &&& is_json_whitespace(member.behind_key)
    &&& well_formed_element(member.value)
}

/// Whether a tree spells a list of members.
pub open spec fn well_formed_members(members: Members) -> bool
    decreases members,
{
    match members {
        Members::Last(member) => well_formed_member(member),
        Members::More(member, rest) => well_formed_member(member) && well_formed_members(*rest),
    }
}

/// Whether a text is a well-formed JSON object.
pub open spec fn is_json_object(text: Seq<char>) -> bool {
    exists|value: Json|
        #![trigger render(value)]
        (value is Object || value is EmptyObject) && well_formed_json(value) && render(value)
            == text
}

} // verus!
