//! Reading XML with `quick_xml`: the events of a document as plain values.
use crate::text;
use quick_xml::events::attributes::{Attribute, Attributes};
use quick_xml::events::{BytesRef, BytesText, Event};
use quick_xml::name::QName;
use quick_xml::reader::Reader;
use vstd::prelude::*;
use vstd::utf8::*;

verus! {

/// What kind of markup an event stands for.
#[derive(Debug, Clone, Copy, PartialEq, Eq, Structural)]
pub enum XmlKind {
    Start,
    Empty,
    End,
    Text,
    CData,
    GeneralRef,
    Eof,
    Other,
}

/// One event of a document. `content` is what stands between the delimiters: of
/// a tag its name and attributes, of an end tag its name, of a reference the
/// entity's name, of the others the text.
#[derive(Debug)]
pub struct XmlEvent {
    pub kind: XmlKind,
    pub content: String,
}

/// An event over sequences of characters.
pub struct XmlEventView {
    pub kind: XmlKind,
    pub content: Seq<char>,
}

impl View for XmlEvent {
    type V = XmlEventView;

    open spec fn view(&self) -> XmlEventView {
        XmlEventView { kind: self.kind, content: self.content@ }
    }
}

/// What one read gives: an event, or the text of an error.
pub type XmlRead = Result<XmlEventView, Seq<char>>;

/// `quick_xml::reader::Reader`.
#[verifier::external_type_specification]
#[verifier::external_body]
#[verifier::reject_recursive_types(R)]
pub struct ExReader<R>(quick_xml::reader::Reader<R>);

/// What the reads of a document give, up to and with the end of the document or
/// the first error.
pub uninterp spec fn xml_reads(xml: Seq<char>) -> Seq<XmlRead>;

/// What the reads that a reader has left give, up to and with the end of the
/// document or the first error.
pub uninterp spec fn pending_reads(reader: Reader<&[u8]>) -> Seq<XmlRead>;

/// Whether a read ends the document: its end, or an error.
pub open spec fn ends_document(read: XmlRead) -> bool {
    match read {
        Ok(event) => event.kind == XmlKind::Eof,
        Err(_) => true,
    }
}

/// The last read, and no other, ends the document.
pub open spec fn complete_reads(reads: Seq<XmlRead>) -> bool {
    &&& reads.len() > 0
    &&& ends_document(reads.last())
    &&& forall|i: int| 0 <= i < reads.len() - 1 ==> !ends_document(#[trigger] reads[i])
}

/// `Reader::from_str`: a reader at the front of the document. Every document
/// ends, after finitely many reads, with its end or with an error.
#[verifier::external_body]
pub(crate) fn open_document<'a>(xml: &'a str) -> (reader: Reader<&'a [u8]>)
    ensures
        pending_reads(reader) == xml_reads(xml@),
        complete_reads(pending_reads(reader)),
{
    Reader::from_str(xml)
}

/// `Reader::read_event`: gives the first of the reads that are left, and takes it
/// where it does not end the document. The text of an error holds its causes.
#[verifier::external_body]
pub(crate) fn next_event(reader: &mut Reader<&[u8]>) -> (read: Result<XmlEvent, String>)
    requires
        pending_reads(*old(reader)).len() > 0,
    ensures
        !ends_document(pending_reads(*old(reader))[0]) ==> pending_reads(*final(reader))
            == pending_reads(*old(reader)).skip(1),
        match read {
            Ok(event) => pending_reads(*old(reader))[0] == Ok::<XmlEventView, Seq<char>>(event@),
            Err(text) => pending_reads(*old(reader))[0] == Err::<XmlEventView, Seq<char>>(text@),
        },
{
    let event = reader.read_event().map_err(|e| format!("{:#}", anyhow::Error::from(e)))?;
    let kind = match &event {
        Event::Start(_) => XmlKind::Start,
        Event::Empty(_) => XmlKind::Empty,
        Event::End(_) => XmlKind::End,
        Event::Text(_) => XmlKind::Text,
        Event::CData(_) => XmlKind::CData,
        Event::GeneralRef(_) => XmlKind::GeneralRef,
        Event::Eof => XmlKind::Eof,
        _ => XmlKind::Other,
    };
    Ok(XmlEvent { kind, content: String::from_utf8_lossy(&event).into_owned() })
}

// ---------------------------------------------------------------------------
// Names

/// XML white space.
pub open spec fn xml_space(c: char) -> bool {
    c == ' ' || c == '\t' || c == '\r' || c == '\n'
}

/// What comes before the first XML white space: the qualified name, in the
/// content of a tag.
pub open spec fn first_word(s: Seq<char>) -> Seq<char>
    decreases s.len(),
{
    if s.len() == 0 || xml_space(s[0]) {
        Seq::empty()
    } else {
        seq![s[0]] + first_word(s.skip(1))
    }
}

/// A name without its namespace prefix: what comes after the first `:`.
pub open spec fn local_part(name: Seq<char>) -> Seq<char> {
    match text::after_first(name, seq![':']) {
        Some(local) => local,
        None => name,
    }
}

proof fn lemma_first_word_at(s: Seq<char>, k: int)
    requires
        0 <= k <= s.len(),
        forall|i: int| 0 <= i < k ==> !xml_space(#[trigger] s[i]),
        k < s.len() ==> xml_space(s[k]),
    ensures
        first_word(s) == s.take(k),
    decreases k,
{
    if k == 0 {
        assert(s.take(0) == Seq::<char>::empty());
    } else {
        assert(!xml_space(s[0]));
        let t = s.skip(1);
        assert forall|i: int| 0 <= i < k - 1 implies !xml_space(#[trigger] t[i]) by {
            assert(t[i] == s[i + 1]);
        }
        lemma_first_word_at(t, k - 1);
        assert(seq![s[0]] + t.take(k - 1) == s.take(k));
    }
}

/// The qualified name in the content of a tag.
pub fn tag_name(content: &str) -> (name: String)
    ensures
        name@ == first_word(content@),
{
    let v = text::chars_of(content);
    let mut k: usize = 0;
    while k < v.len() && !(v[k] == ' ' || v[k] == '\t' || v[k] == '\r' || v[k] == '\n')
        invariant
            k <= v@.len(),
            forall|i: int| 0 <= i < k ==> !xml_space(#[trigger] v@[i]),
        decreases v@.len() - k,
    {
        k = k + 1;
    }
    proof {
        lemma_first_word_at(v@, k as int);
        assert(v@.subrange(0, k as int) == v@.take(k as int));
    }
    text::string_of(&v, 0, k)
}

/// A name without its namespace prefix.
pub fn local_name(name: &str) -> (local: String)
    ensures
        local@ == local_part(name@),
{
    proof {
        reveal_strlit(":");
        assert(":"@ == seq![':']);
    }
    match text::cut_after(name, ":") {
        Some(local) => local,
        None => name.to_owned(),
    }
}

/// The UTF-8 bytes that the qualified name takes up at the front of a tag's
/// content.
pub open spec fn name_bytes(content: Seq<char>) -> nat {
    encode_utf8(first_word(content)).len()
}

proof fn lemma_first_word_bytes(s: Seq<char>)
    ensures
        name_bytes(s) <= encode_utf8(s).len(),
    decreases s.len(),
{
    if s.len() > 0 && !xml_space(s[0]) {
        lemma_first_word_bytes(s.skip(1));
        let w = first_word(s);
        assert(s.drop_first() == s.skip(1));
        assert(w.drop_first() == first_word(s.skip(1)));
        assert(w[0] == s[0]);
    }
}

// ---------------------------------------------------------------------------
// Attributes

/// What one step through a tag's attributes gives: the qualified key and the
/// raw value, or nothing where the attribute is ill-formed.
pub type AttributeRead = Option<(Seq<char>, Seq<char>)>;

/// `quick_xml::events::attributes::Attributes`.
#[verifier::external_type_specification]
#[verifier::external_body]
pub struct ExAttributes<'a>(quick_xml::events::attributes::Attributes<'a>);

/// `quick_xml::events::attributes::Attribute`.
#[verifier::external_type_specification]
#[verifier::external_body]
pub struct ExAttribute<'a>(quick_xml::events::attributes::Attribute<'a>);

/// `quick_xml::events::attributes::AttrError`.
#[verifier::external_type_specification]
#[verifier::external_body]
pub struct ExAttrError(quick_xml::events::attributes::AttrError);

/// What the steps through the attributes of a tag give, where the tag's name
/// takes up the first `name_len` bytes of its content.
pub uninterp spec fn tag_attributes(tag: Seq<char>, name_len: usize) -> Seq<AttributeRead>;

/// What the steps that are left give.
pub uninterp spec fn pending_attributes(attributes: Attributes<'_>) -> Seq<AttributeRead>;

/// `Attributes::new`: the attributes of a tag, before the first step.
#[verifier::external_body]
pub(crate) fn open_attributes<'a>(tag: &'a str, name_len: usize) -> (attributes: Attributes<'a>)
    requires
        name_len <= encode_utf8(tag@).len(),
    ensures
        pending_attributes(attributes) == tag_attributes(tag@, name_len),
{
    Attributes::new(tag, name_len)
}

/// The attributes of a tag, before the first step.
pub(crate) fn attributes_of<'a>(content: &'a str) -> (attributes: Attributes<'a>)
    ensures
        pending_attributes(attributes) == tag_attributes(content@, name_bytes(content@) as usize),
{
    let name = tag_name(content);
    let name_len: usize = name.as_str().as_bytes().len();
    proof {
        lemma_first_word_bytes(content@);
    }
    open_attributes(content, name_len)
}

/// One attribute: its qualified key and its raw value.
pub struct RawAttribute {
    pub key: String,
    pub value: String,
}

/// The iterator of `Attributes`: the first of the steps that are left, and
/// `None` where none is left. An ill-formed attribute is `Some(None)`.
#[verifier::external_body]
pub(crate) fn next_attribute(attributes: &mut Attributes<'_>) -> (step: Option<Option<RawAttribute>>)
    ensures
        step is None <==> pending_attributes(*old(attributes)).len() == 0,
        step is Some ==> pending_attributes(*final(attributes)) == pending_attributes(
            *old(attributes),
        ).skip(1),
        step matches Some(Some(a)) ==> pending_attributes(*old(attributes))[0] == Some(
            (a.key@, a.value@),
        ),
        step matches Some(None) ==> pending_attributes(*old(attributes))[0] is None,
{
    match attributes.next()? {
        Ok(attribute) => Some(Some(RawAttribute {
            key: String::from_utf8_lossy(attribute.key.as_ref()).into_owned(),
            value: String::from_utf8_lossy(&attribute.value).into_owned(),
        })),
        Err(_) => Some(None),
    }
}

/// The character that a predefined entity stands for.
pub open spec fn predefined_entity(name: Seq<char>) -> Option<char> {
    if name == "amp"@ {
        Some('&')
    } else if name == "lt"@ {
        Some('<')
    } else if name == "gt"@ {
        Some('>')
    } else if name == "apos"@ {
        Some('\'')
    } else if name == "quot"@ {
        Some('"')
    } else {
        None
    }
}

/// The character that the reference `&name;` stands for: by its code, or as a
/// predefined entity.
pub open spec fn referred_char(name: Seq<char>) -> Option<char> {
    match character_reference(name) {
        Some(c) => Some(c),
        None => predefined_entity(name),
    }
}

/// A character that stands for a space in an attribute.
pub open spec fn space_in_value(c: char) -> bool {
    c == '\t' || c == '\n' || c == '\r'
}

/// `rest` with `c` in front, where there is a `rest`.
pub open spec fn in_front(c: char, rest: Option<Seq<char>>) -> Option<Seq<char>> {
    match rest {
        Some(r) => Some(seq![c] + r),
        None => None,
    }
}

/// What a raw attribute value stands for. Each reference stands for its
/// character; a tab, a line feed, a carriage return, and the last two together
/// stand for a space; and every other character stands for itself. A `&` without
/// a `;` behind it, and a reference that stands for nothing, make the whole value
/// ill-formed.
pub open spec fn attribute_value(raw: Seq<char>) -> Option<Seq<char>>
    decreases raw.len(),
{
    if raw.len() == 0 {
        Some(raw)
    } else if raw[0] == '&' {
        match text::find(raw, seq![';']) {
            Some(i) => if 0 < i < raw.len() {
                match referred_char(raw.subrange(1, i)) {
                    Some(c) => in_front(c, attribute_value(raw.skip(i + 1))),
                    None => None,
                }
            } else {
                None
            },
            None => None,
        }
    } else if raw.len() > 1 && raw[0] == '\r' && raw[1] == '\n' {
        in_front(' ', attribute_value(raw.skip(2)))
    } else if space_in_value(raw[0]) {
        in_front(' ', attribute_value(raw.skip(1)))
    } else {
        in_front(raw[0], attribute_value(raw.skip(1)))
    }
}

/// `Attribute::normalized_value` for XML 1.0, without entities beside the
/// predefined ones: references resolved and white space normalized, and `None`
/// for the error of an ill-formed value.
#[verifier::external_body]
pub(crate) fn normalized_value(raw: &str) -> (value: Option<String>)
    ensures
        value is Some <==> attribute_value(raw@) is Some,
        value matches Some(v) ==> attribute_value(raw@) == Some(v@),
{
    let attribute = Attribute { key: QName(b""), value: raw.as_bytes().into() };
    let value = attribute.normalized_value(quick_xml::XmlVersion::Implicit1_0);
    value.ok().map(|v| v.into_owned())
}

// ---------------------------------------------------------------------------
// Text and references

/// `s` with every `\r\n`, and every other `\r`, made one `\n`.
pub open spec fn normalized_eols(s: Seq<char>) -> Seq<char>
    decreases s.len(),
{
    if s.len() == 0 {
        s
    } else if s[0] == '\r' {
        let rest = if s.len() > 1 && s[1] == '\n' {
            s.skip(2)
        } else {
            s.skip(1)
        };
        seq!['\n'] + normalized_eols(rest)
    } else {
        seq![s[0]] + normalized_eols(s.skip(1))
    }
}

/// `BytesText::xml10_content`: the text with its line ends normalized. It fails
/// only on text that is not UTF-8, which a `str` is.
#[verifier::external_body]
pub(crate) fn text_content(raw: &str) -> (text: Option<String>)
    ensures
        text is Some,
        text matches Some(t) ==> t@ == normalized_eols(raw@),
{
    BytesText::from_escaped(raw).xml10_content().ok().map(|t| t.into_owned())
}

/// The value of `c` as a digit in a base of at most sixteen.
pub open spec fn digit_in(c: char, base: nat) -> Option<nat> {
    let v: int = if '0' <= c && c <= '9' {
        c as u32 - '0' as u32
    } else if 'a' <= c && c <= 'f' {
        c as u32 - 'a' as u32 + 10
    } else if 'A' <= c && c <= 'F' {
        c as u32 - 'A' as u32 + 10
    } else {
        16
    };
    if v < base {
        Some(v as nat)
    } else {
        None
    }
}

/// The number that the digits of `s` write; `None` where something is not a
/// digit of the base.
pub open spec fn number_in(s: Seq<char>, base: nat) -> Option<nat>
    decreases s.len(),
{
    if s.len() == 0 {
        Some(0)
    } else {
        match (number_in(s.drop_last(), base), digit_in(s.last(), base)) {
            (Some(n), Some(d)) => Some(n * base + d),
            _ => None,
        }
    }
}

/// A number that is the code of a character other than U+0000.
pub open spec fn character_code(n: nat) -> bool {
    0 < n < 0xd800 || 0xe000 <= n <= 0x10ffff
}

/// The character that the reference `&name;` writes by its code: `#` and
/// decimal digits, or `#x` and hexadecimal digits.
pub open spec fn character_reference(name: Seq<char>) -> Option<char> {
    if name.len() < 2 || name[0] != '#' {
        None
    } else {
        let hex = name[1] == 'x';
        let digits = if hex {
            name.skip(2)
        } else {
            name.skip(1)
        };
        match number_in(digits, if hex { 16 } else { 10 }) {
            Some(n) => if digits.len() > 0 && character_code(n) {
                Some(n as char)
            } else {
                None
            },
            None => None,
        }
    }
}

/// `BytesRef::resolve_char_ref`: the character that a numeric reference stands
/// for, and `None` for a named one or for a number that is no character.
#[verifier::external_body]
pub(crate) fn resolve_char_ref(name: &str) -> (c: Option<char>)
    ensures
        c == character_reference(name@),
{
    BytesRef::new(name).resolve_char_ref().ok().flatten()
}

// ---------------------------------------------------------------------------
// Laws

/// A character as an attribute can always write it.
pub open spec fn escaped_char(c: char) -> Seq<char> {
    if c == '&' {
        "&amp;"@
    } else if c == '<' {
        "&lt;"@
    } else if c == '>' {
        "&gt;"@
    } else if c == '\'' {
        "&apos;"@
    } else if c == '"' {
        "&quot;"@
    } else {
        seq![c]
    }
}

/// A text as an attribute can always write it.
pub open spec fn escaped(s: Seq<char>) -> Seq<char>
    decreases s.len(),
{
    if s.len() == 0 {
        s
    } else {
        escaped_char(s[0]) + escaped(s.skip(1))
    }
}

/// No tab and no line end.
pub open spec fn no_spaces_but_blanks(s: Seq<char>) -> bool {
    forall|i: int| 0 <= i < s.len() ==> !space_in_value(#[trigger] s[i])
}

proof fn lemma_reference_in_front(name: Seq<char>, rest: Seq<char>)
    requires
        forall|i: int| 0 <= i < name.len() ==> #[trigger] name[i] != ';',
    ensures
        attribute_value(seq!['&'] + name + seq![';'] + rest) == match referred_char(name) {
            Some(c) => in_front(c, attribute_value(rest)),
            None => None,
        },
{
    let raw = seq!['&'] + name + seq![';'] + rest;
    let k = (name.len() + 1) as int;
    let semicolon = seq![';'];
    text::lemma_find(raw, semicolon);
    assert(raw.subrange(k, k + 1) == semicolon);
    assert(text::stands_at(raw, semicolon, k));
    assert forall|j: int| 0 <= j < k implies !text::stands_at(raw, semicolon, j) by {
        if text::stands_at(raw, semicolon, j) {
            assert(raw.subrange(j, j + 1)[0] == raw[j]);
            if j > 0 {
                assert(raw[j] == name[j - 1]);
            }
        }
    }
    assert(text::find(raw, semicolon) == Some(k));
    assert(raw.subrange(1, k) == name);
    assert(raw.skip(k + 1) == rest);
}

proof fn lemma_entity_in_front(name: Seq<char>, written: Seq<char>, c: char, rest: Seq<char>)
    requires
        written == seq!['&'] + name + seq![';'],
        name.len() > 0,
        name[0] != '#',
        forall|i: int| 0 <= i < name.len() ==> #[trigger] name[i] != ';',
        predefined_entity(name) == Some(c),
    ensures
        attribute_value(written + rest) == in_front(c, attribute_value(rest)),
{
    lemma_reference_in_front(name, rest);
    assert(character_reference(name) is None);
}

proof fn lemma_escaped_char_in_front(c: char, rest: Seq<char>)
    requires
        !space_in_value(c),
    ensures
        attribute_value(escaped_char(c) + rest) == in_front(c, attribute_value(rest)),
{
    reveal_strlit("amp");
    reveal_strlit("lt");
    reveal_strlit("gt");
    reveal_strlit("apos");
    reveal_strlit("quot");
    reveal_strlit("&amp;");
    reveal_strlit("&lt;");
    reveal_strlit("&gt;");
    reveal_strlit("&apos;");
    reveal_strlit("&quot;");
    assert("lt"@[0] == 'l' && "gt"@[0] == 'g');
    if c == '&' {
        assert("&amp;"@ == seq!['&'] + "amp"@ + seq![';']);
        lemma_entity_in_front("amp"@, "&amp;"@, c, rest);
    } else if c == '<' {
        assert("&lt;"@ == seq!['&'] + "lt"@ + seq![';']);
        lemma_entity_in_front("lt"@, "&lt;"@, c, rest);
    } else if c == '>' {
        assert("&gt;"@ == seq!['&'] + "gt"@ + seq![';']);
        lemma_entity_in_front("gt"@, "&gt;"@, c, rest);
    } else if c == '\'' {
        assert("&apos;"@ == seq!['&'] + "apos"@ + seq![';']);
        assert("apos"@.len() == 4 && "amp"@.len() == 3);
        lemma_entity_in_front("apos"@, "&apos;"@, c, rest);
    } else if c == '"' {
        assert("&quot;"@ == seq!['&'] + "quot"@ + seq![';']);
        assert("quot"@[0] == 'q' && "apos"@[0] == 'a');
        lemma_entity_in_front("quot"@, "&quot;"@, c, rest);
    } else {
        assert((escaped_char(c) + rest).skip(1) == rest);
    }
}

/// A text that an attribute writes with the predefined entities reads back, where
/// it holds no tab and no line end.
pub proof fn law_escaped_values_read_back(s: Seq<char>)
    requires
        no_spaces_but_blanks(s),
    ensures
        attribute_value(escaped(s)) == Some(s),
    decreases s.len(),
{
    if s.len() > 0 {
        let rest = s.skip(1);
        assert(!space_in_value(s[0]));
        assert forall|i: int| 0 <= i < rest.len() implies !space_in_value(#[trigger] rest[i]) by {
            assert(rest[i] == s[i + 1]);
        }
        law_escaped_values_read_back(rest);
        lemma_escaped_char_in_front(s[0], escaped(rest));
        assert(seq![s[0]] + rest == s);
    }
}

/// A value without references, tabs and line ends stands for itself.
pub proof fn law_plain_values_stand_for_themselves(s: Seq<char>)
    requires
        no_spaces_but_blanks(s),
        forall|i: int| 0 <= i < s.len() ==> #[trigger] s[i] != '&',
    ensures
        attribute_value(s) == Some(s),
    decreases s.len(),
{
    if s.len() > 0 {
        let rest = s.skip(1);
        assert(s[0] != '&' && !space_in_value(s[0]));
        assert forall|i: int| 0 <= i < rest.len() implies !space_in_value(#[trigger] rest[i])
            && rest[i] != '&' by {
            assert(rest[i] == s[i + 1]);
            assert(!space_in_value(s[i + 1]) && s[i + 1] != '&');
        }
        law_plain_values_stand_for_themselves(rest);
        assert(seq![s[0]] + rest == s);
    }
}

/// What the predefined entities stand for.
pub proof fn lemma_entities()
    ensures
        referred_char("amp"@) == Some('&'),
        referred_char("lt"@) == Some('<'),
        referred_char("gt"@) == Some('>'),
        referred_char("apos"@) == Some('\''),
        referred_char("quot"@) == Some('"'),
{
    reveal_strlit("amp");
    reveal_strlit("lt");
    reveal_strlit("gt");
    reveal_strlit("apos");
    reveal_strlit("quot");
    assert("amp"@.len() == 3 && "lt"@.len() == 2 && "gt"@.len() == 2 && "apos"@.len() == 4
        && "quot"@.len() == 4);
    assert("lt"@[0] == 'l' && "gt"@[0] == 'g' && "apos"@[0] == 'a' && "quot"@[0] == 'q');
}

/// The name of a tag is all that stands before the first white space in it,
/// whatever its length.
pub proof fn law_tag_names_end_at_white_space(name: Seq<char>, rest: Seq<char>)
    requires
        forall|i: int| 0 <= i < name.len() ==> !" \t\r\n"@.contains(#[trigger] name[i]),
        rest.len() > 0 ==> " \t\r\n"@.contains(rest[0]),
    ensures
        first_word(name + rest) == name,
    decreases name.len(),
{
    reveal_strlit(" \t\r\n");
    let spaces = " \t\r\n"@;
    assert(spaces.len() == 4);
    assert(spaces[0] == ' ' && spaces[1] == '\t' && spaces[2] == '\r' && spaces[3] == '\n');
    let s = name + rest;
    if name.len() > 0 {
        assert(!spaces.contains(name[0]));
        assert(s[0] == name[0]);
        let t = name.skip(1);
        assert forall|i: int| 0 <= i < t.len() implies !spaces.contains(#[trigger] t[i]) by {
            assert(t[i] == name[i + 1]);
        }
        law_tag_names_end_at_white_space(t, rest);
        assert(s.skip(1) == t + rest);
        assert(seq![name[0]] + t == name);
    } else {
        assert(s == rest);
        assert(name == Seq::<char>::empty());
    }
}

/// A prefix with its `:` is cut off a name, and only that.
pub proof fn law_prefixes_are_cut_off(prefix: Seq<char>, local: Seq<char>)
    requires
        forall|i: int| 0 <= i < prefix.len() ==> #[trigger] prefix[i] != ':',
    ensures
        local_part(prefix + seq![':'] + local) == local,
        local_part(prefix) == prefix,
{
    let colon = seq![':'];
    let s = prefix + colon + local;
    assert forall|j: int| 0 <= j < prefix.len() implies (#[trigger] s.subrange(j, j + colon.len()))
        != colon by {
        assert(s.subrange(j, j + 1)[0] == prefix[j]);
    }
    text::law_parts_are_found_again(prefix, colon, local);
    text::law_cutting_is_at_the_first(prefix, colon);
    if let Some(rest) = text::after_first(prefix, colon) {
        let k = text::before_first(prefix, colon).len() as int;
        assert(prefix[k] == ':');
    }
}

proof fn lemma_decimal_number(n: nat)
    ensures
        number_in(text::decimal(n), 10) == Some(n),
    decreases n,
{
    let d = text::decimal(n);
    let last = (('0' as u32 + n % 10) as u32) as char;
    assert(digit_in(last, 10) == Some(n % 10));
    if n < 10 {
        assert(d.drop_last() == Seq::<char>::empty());
        reveal_with_fuel(number_in, 2);
    } else {
        lemma_decimal_number(n / 10);
        assert(d.drop_last() == text::decimal(n / 10));
    }
}

/// A reference that writes the code of a character in decimal stands for that
/// character, whichever it is; and so does one that writes it in hexadecimal.
pub proof fn law_codes_stand_for_their_characters(n: nat, digits: Seq<char>)
    requires
        0 < n < 0xd800 || 0xe000 <= n <= 0x10ffff,
    ensures
        referred_char(seq!['#'] + text::decimal(n)) == Some(n as char),
        digits.len() > 0 && number_in(digits, 16) == Some(n) ==> referred_char(
            seq!['#', 'x'] + digits,
        ) == Some(n as char),
{
    lemma_decimal_number(n);
    text::lemma_decimal_read_back(n);
    let d = text::decimal(n);
    let name = seq!['#'] + d;
    assert(name.skip(1) == d);
    assert(name[1] == d[0]);
    assert(text::digit(d[0]));
    let hex = seq!['#', 'x'] + digits;
    assert(hex.skip(2) == digits);
}

/// A hexadecimal digit more writes sixteen times the number and the digit.
pub proof fn law_a_hexadecimal_digit_more(s: Seq<char>, c: char)
    ensures
        number_in(Seq::empty(), 16) == Some(0nat),
        '0' <= c && c <= '9' && number_in(s, 16) is Some ==> number_in(s.push(c), 16) == Some(
            (number_in(s, 16)->0 * 16 + (c as u32 - '0' as u32)) as nat,
        ),
        'a' <= c && c <= 'f' && number_in(s, 16) is Some ==> number_in(s.push(c), 16) == Some(
            (number_in(s, 16)->0 * 16 + 10 + (c as u32 - 'a' as u32)) as nat,
        ),
        'A' <= c && c <= 'F' && number_in(s, 16) is Some ==> number_in(s.push(c), 16) == Some(
            (number_in(s, 16)->0 * 16 + 10 + (c as u32 - 'A' as u32)) as nat,
        ),
{
    assert(s.push(c).drop_last() == s);
}

/// The name at the front of a tag takes up as many bytes as its UTF-8 has, all of
/// it.
pub proof fn law_a_name_takes_up_its_bytes(name: Seq<char>, rest: Seq<char>)
    requires
        forall|i: int| 0 <= i < name.len() ==> !" \t\r\n"@.contains(#[trigger] name[i]),
        rest.len() > 0 ==> " \t\r\n"@.contains(rest[0]),
    ensures
        name_bytes(name + rest) == encode_utf8(name).len(),
{
    law_tag_names_end_at_white_space(name, rest);
}

}
