//! The calls into other crates, and what is relied on about each.

use base64::Engine;
use rand::RngExt;
use sha1::Digest;
use vstd::prelude::*;

verus! {

/// Lowercase form of a text as `str::to_lowercase` gives it.
pub uninterp spec fn lowercase(s: Seq<char>) -> Seq<char>;

/// An ASCII letter in lower case; any other character as it is.
pub open spec fn ascii_lower(c: char) -> char {
    if 'A' <= c <= 'Z' {
        (c as int + 32) as char
    } else {
        c
    }
}

/// An ASCII text with its letters in lower case.
pub open spec fn ascii_lowered(s: Seq<char>) -> Seq<char> {
    s.map_values(|c: char| ascii_lower(c))
}

/// Calls `str::to_lowercase`. The result depends on the text alone. Of an ASCII
/// text the letters are put in lower case one by one; beyond ASCII the Unicode
/// tables decide, of which nothing is claimed.
#[verifier::external_body]
pub(crate) fn to_lowercase(s: &str) -> (out: String)
    ensures
        out@ == lowercase(s@),
        vstd::utf8::is_ascii_chars(s@) ==> out@ == ascii_lowered(s@),
{
    s.to_lowercase()
}

/// A hexadecimal digit in lower case.
pub open spec fn hex_digit(d: int) -> char {
    if d < 10 {
        (48 + d) as char
    } else {
        (87 + d) as char
    }
}

/// A character as it stands inside a JSON string.
pub open spec fn json_escaped(c: char) -> Seq<char> {
    if c == '"' || c == '\\' {
        seq!['\\', c]
    } else if c == '\u{8}' {
        seq!['\\', 'b']
    } else if c == '\u{9}' {
        seq!['\\', 't']
    } else if c == '\u{a}' {
        seq!['\\', 'n']
    } else if c == '\u{c}' {
        seq!['\\', 'f']
    } else if c == '\u{d}' {
        seq!['\\', 'r']
    } else if (c as int) < 32 {
        seq!['\\', 'u', '0', '0', hex_digit(c as int / 16), hex_digit(c as int % 16)]
    } else {
        seq![c]
    }
}

/// A text as it stands inside a JSON string.
pub open spec fn json_escaped_text(s: Seq<char>) -> Seq<char>
    decreases s.len(),
{
    if s.len() == 0 {
        s
    } else {
        json_escaped_text(s.drop_last()) + json_escaped(s.last())
    }
}

/// The JSON text of an optional string: a quoted string, or `null`.
pub open spec fn json_text(value: Option<Seq<char>>) -> Seq<char> {
    match value {
        Some(s) => seq!['"'] + json_escaped_text(s) + seq!['"'],
        None => seq!['n', 'u', 'l', 'l'],
    }
}

/// The characters of an optional string slice.
pub open spec fn str_view(text: Option<&str>) -> Option<Seq<char>> {
    match text {
        Some(s) => Some(s@),
        None => None,
    }
}

/// Calls `serde_json::to_string` on an optional string. It always succeeds, and
/// writes `null` for `None`; for a string it writes quotes around the text, in
/// which quotes, backslashes and control characters are escaped.
#[verifier::external_body]
pub(crate) fn to_json(value: Option<&str>) -> (out: Option<String>)
    ensures
        out is Some,
        out->0@ == json_text(str_view(value)),
{
    serde_json::to_string(&value).ok()
}

/// The character that stands for six bits in the standard Base64 alphabet.
pub open spec fn base64_char(six: int) -> char {
    if six < 26 {
        ('A' as int + six) as char
    } else if six < 52 {
        ('a' as int + six - 26) as char
    } else if six < 62 {
        ('0' as int + six - 52) as char
    } else if six == 62 {
        '+'
    } else {
        '/'
    }
}

/// Base64 text of some bytes, in the standard alphabet and with padding: three bytes
/// make four characters, and one or two bytes that are left are filled up with zero
/// bits and padded.
pub open spec fn base64_text(data: Seq<u8>) -> Seq<char>
    decreases data.len(),
{
    if data.len() == 0 {
        Seq::empty()
    } else {
        let a = data[0] as int;
        let b = if data.len() > 1 { data[1] as int } else { 0 };
        let c = if data.len() > 2 { data[2] as int } else { 0 };
        let start = seq![base64_char(a / 4), base64_char(a % 4 * 16 + b / 16)];
        if data.len() == 1 {
            start + seq!['=', '=']
        } else if data.len() == 2 {
            start + seq![base64_char(b % 16 * 4), '=']
        } else {
            start + seq![base64_char(b % 16 * 4 + c / 64), base64_char(c % 64)] + base64_text(
                data.skip(3),
            )
        }
    }
}

/// A character of the standard Base64 alphabet, or its padding.
pub open spec fn is_base64_char(c: char) -> bool {
    'A' <= c <= 'Z' || 'a' <= c <= 'z' || '0' <= c <= '9' || c == '+' || c == '/' || c == '='
}

/// Base64 text has four characters for every three bytes that were begun, all from
/// the standard alphabet or padding.
pub proof fn law_base64_is_plain(data: Seq<u8>)
    ensures
        base64_text(data).len() == (data.len() + 2) / 3 * 4,
        forall|i: int|
            0 <= i < base64_text(data).len() ==> is_base64_char(#[trigger] base64_text(data)[i]),
    decreases data.len(),
{
    if data.len() > 2 {
        law_base64_is_plain(data.skip(3));
        let text = base64_text(data);
        let rest = base64_text(data.skip(3));
        assert forall|i: int| 0 <= i < text.len() implies is_base64_char(#[trigger] text[i]) by {
            if i >= 4 {
                assert(text[i] == rest[i - 4]);
            }
        }
    }
}

/// Calls `Engine::encode` of the engine `base64::engine::general_purpose::STANDARD`,
/// which writes the bytes in the standard alphabet and with padding. Where the
/// encoded length does not fit the address space the call panics, hence the bound.
#[verifier::external_body]
pub(crate) fn to_base64(data: &[u8]) -> (out: String)
    requires
        data@.len() <= usize::MAX / 4,
    ensures
        out@ == base64_text(data@),
{
    base64::engine::general_purpose::STANDARD.encode(data)
}

/// SHA-1 digest of some bytes.
pub uninterp spec fn sha1_digest(data: Seq<u8>) -> Seq<u8>;

/// Calls `Digest::digest` of `sha1::Sha1`, which is a new hasher, one update with
/// all of the bytes, and its result. The twenty bytes depend on the data alone.
#[verifier::external_body]
pub(crate) fn sha1(data: &[u8]) -> (out: Vec<u8>)
    ensures
        out@ == sha1_digest(data@),
        out@.len() == 20,
{
    sha1::Sha1::digest(data).to_vec()
}

/// Calls `RngExt::fill` of the generator `rand::rng()` for twenty bytes. They are
/// random: nothing is claimed of their values.
#[verifier::external_body]
pub(crate) fn random_nonce() -> (nonce: [u8; 20]) {
    let mut nonce = [0u8; 20];
    rand::rng().fill(&mut nonce);
    nonce
}

/// Calls `time::OffsetDateTime::now_utc` and gives the moment in nanoseconds since
/// the Unix epoch. It is read from the machine's clock: nothing is claimed of it.
#[verifier::external_body]
pub(crate) fn utc_now() -> (nanos: i128) {
    time::OffsetDateTime::now_utc().unix_timestamp_nanos()
}

/// RFC 3339 text of a moment, given in nanoseconds since the Unix epoch, or the
/// reason why there is none.
pub uninterp spec fn rfc3339(nanos: int) -> Result<Seq<char>, Seq<char>>;

/// What an outcome in text says.
pub open spec fn outcome_view(outcome: Result<String, String>) -> Result<Seq<char>, Seq<char>> {
    match outcome {
        Ok(text) => Ok(text@),
        Err(reason) => Err(reason@),
    }
}

/// A character that the RFC 3339 text of a moment in UTC can hold.
pub open spec fn is_stamp_char(c: char) -> bool {
    '0' <= c <= '9' || c == '-' || c == ':' || c == '.' || c == 'T' || c == 'Z'
}

/// Calls `OffsetDateTime::from_unix_timestamp_nanos`, then `format` with the
/// well-known description `Rfc3339`. The result depends on the moment alone;
/// the moments from the Unix epoch to the end of the year 9999 have such a text,
/// made of digits, hyphens, colons, points and the letters T and Z.
#[verifier::external_body]
pub(crate) fn format_rfc3339(nanos: i128) -> (text: Result<String, String>)
    ensures
        outcome_view(text) == rfc3339(nanos as int),
        0 <= nanos < 253_402_300_800_000_000_000 ==> text is Ok,
        text is Ok ==> forall|i: int|
            0 <= i < text->Ok_0@.len() ==> is_stamp_char(#[trigger] text->Ok_0@[i]),
{
    match time::OffsetDateTime::from_unix_timestamp_nanos(nanos) {
        Ok(moment) => match moment.format(&time::format_description::well_known::Rfc3339) {
            Ok(stamp) => Ok(stamp),
            Err(error) => Err(error.to_string()),
        },
        Err(error) => Err(error.to_string()),
    }
}

/// A node of an XML document: the local name of an element, or nothing; the value
/// of the attribute that was asked for; its text; and the number of nodes in the
/// part of the document that it is the root of, itself included.
pub struct XmlNode {
    pub name: String,
    pub attribute: Option<String>,
    pub text: Option<String>,
    pub subtree: usize,
}

/// What a node of an XML document holds.
pub struct XmlNodeView {
    pub name: Seq<char>,
    pub attribute: Option<Seq<char>>,
    pub text: Option<Seq<char>>,
    pub subtree: nat,
}

/// The characters of an optional string.
pub open spec fn text_view(text: Option<String>) -> Option<Seq<char>> {
    match text {
        Some(s) => Some(s@),
        None => None,
    }
}

impl View for XmlNode {
    type V = XmlNodeView;

    open spec fn view(&self) -> XmlNodeView {
        XmlNodeView {
            name: self.name@,
            attribute: text_view(self.attribute),
            text: text_view(self.text),
            subtree: self.subtree as nat,
        }
    }
}

/// What the nodes of a document hold.
pub open spec fn nodes_view(nodes: Seq<XmlNode>) -> Seq<XmlNodeView> {
    nodes.map_values(|node: XmlNode| node@)
}

/// The nodes of an XML document in document order, each with the value of one
/// attribute, or the reason why the text is no XML document.
pub uninterp spec fn xml_nodes(xml: Seq<char>, attribute: Seq<char>) -> Result<
    Seq<XmlNodeView>,
    Seq<char>,
>;

/// What the outcome of reading an XML document says.
pub open spec fn parsed_view(outcome: Result<Vec<XmlNode>, String>) -> Result<
    Seq<XmlNodeView>,
    Seq<char>,
> {
    match outcome {
        Ok(nodes) => Ok(nodes_view(nodes@)),
        Err(reason) => Err(reason@),
    }
}

/// Calls `roxmltree::Document::parse` and writes the nodes out in document order,
/// each with its `tag_name`, `attribute`, `text` and number of `descendants`. The
/// nodes, or the error's text, depend on the document and the attribute's name
/// alone.
#[verifier::external_body]
pub(crate) fn parse_xml(xml: &str, attribute: &str) -> (nodes: Result<Vec<XmlNode>, String>)
    ensures
        parsed_view(nodes) == xml_nodes(xml@, attribute@),
{
    let document = roxmltree::Document::parse(xml).map_err(|error| error.to_string())?;
    Ok(document.descendants().map(|node| XmlNode {
        name: node.tag_name().name().to_string(),
        attribute: node.attribute(attribute).map(|value| value.to_string()),
        text: node.text().map(|text| text.to_string()),
        subtree: node.descendants().len(),
    }).collect())
}

} // verus!
