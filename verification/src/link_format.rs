//! Link-format documents: the answers to resource discovery.

use crate::text::separated;
use coap_lite::link_format::LinkFormatWrite;
use vstd::prelude::*;
use vstd::string::*;

verus! {

/// The model of an attribute.
pub struct AttributeView {
    pub key: Seq<char>,
    pub value: Seq<char>,
}

/// One attribute of a link, such as `rt` with a resource type.
pub struct Attribute {
    pub key: String,
    pub value: String,
}

impl View for Attribute {
    type V = AttributeView;

    open spec fn view(&self) -> AttributeView {
        AttributeView { key: self.key@, value: self.value@ }
    }
}

/// The model of a link.
pub struct LinkView {
    pub target: Seq<char>,
    pub attributes: Seq<AttributeView>,
}

/// One link of a document: the target it points to and what is said of it.
pub struct Link {
    pub target: String,
    pub attributes: Vec<Attribute>,
}

impl View for Link {
    type V = LinkView;

    open spec fn view(&self) -> LinkView {
        LinkView {
            target: self.target@,
            attributes: Seq::new(self.attributes@.len(), |i: int| self.attributes@[i]@),
        }
    }
}

/// The models of the given links, in order.
pub open spec fn link_views(links: Seq<Link>) -> Seq<LinkView> {
    Seq::new(links.len(), |i: int| links[i]@)
}

/// A letter of either case or a digit, of ASCII.
pub open spec fn is_ascii_alphanumeric(c: char) -> bool {
    ||| '0' <= c <= '9'
    ||| 'a' <= c <= 'z'
    ||| 'A' <= c <= 'Z'
}

/// A space, a tab, a line feed, a form feed or a carriage return.
pub open spec fn is_ascii_whitespace(c: char) -> bool {
    c == ' ' || c == '\t' || c == '\n' || c == '\u{c}' || c == '\r'
}

/// An attribute key holds no white space and no equals sign.
pub open spec fn is_key(key: Seq<char>) -> bool {
    forall|i: int| 0 <= i < key.len() ==> !is_ascii_whitespace(#[trigger] key[i]) && key[i] != '='
}

/// A value of letters and digits alone is written as it is; any other is
/// written between quotes.
pub open spec fn is_bare_value(value: Seq<char>) -> bool {
    forall|i: int| 0 <= i < value.len() ==> is_ascii_alphanumeric(#[trigger] value[i])
}

/// The characters of `value` as they stand between quotes: a backslash
/// before each quote and each backslash.
pub open spec fn quoted_contents(value: Seq<char>) -> Seq<char>
    decreases value.len(),
{
    if value.len() == 0 {
        Seq::empty()
    } else if value.last() == '"' || value.last() == '\\' {
        quoted_contents(value.drop_last()).push('\\').push(value.last())
    } else {
        quoted_contents(value.drop_last()).push(value.last())
    }
}

/// One attribute as written: `;key=value`, or `;key="value"`.
pub open spec fn attribute_text(attribute: AttributeView) -> Seq<char> {
    seq![';'] + attribute.key + seq!['='] + if is_bare_value(attribute.value) {
        attribute.value
    } else {
        seq!['"'] + quoted_contents(attribute.value) + seq!['"']
    }
}

/// The given attributes as written, one after the other.
pub open spec fn attributes_text(attributes: Seq<AttributeView>) -> Seq<char>
    decreases attributes.len(),
{
    if attributes.len() == 0 {
        Seq::empty()
    } else {
        attributes_text(attributes.drop_last()) + attribute_text(attributes.last())
    }
}

/// One link as written: the target between angle brackets, then the
/// attributes.
pub open spec fn link_text(link: LinkView) -> Seq<char> {
    seq!['<'] + link.target + seq!['>'] + attributes_text(link.attributes)
}

/// What stands between two links: a comma, followed by a line feed and a
/// carriage return where line breaks are asked for.
pub open spec fn link_separator(line_breaks: bool) -> Seq<char> {
    if line_breaks {
        seq![',', '\n', '\r']
    } else {
        seq![',']
    }
}

/// The document that lists the given links.
pub open spec fn link_format_text(links: Seq<LinkView>, line_breaks: bool) -> Seq<char> {
    separated(Seq::new(links.len(), |i: int| link_text(links[i])), link_separator(line_breaks))
}

/// Every key of every link is a key.
pub open spec fn keys_valid(links: Seq<LinkView>) -> bool {
    forall|i: int, j: int|
        0 <= i < links.len() && 0 <= j < links[i].attributes.len() ==> is_key(
            (#[trigger] links[i].attributes[j]).key,
        )
}

/// Writes the links with coap_lite's `LinkFormatWrite`: `set_add_newlines`
/// once, then `link` for each link and `attr` for each of its attributes.
/// The contract claims what the writer's source shows: where each link
/// starts and how it is separated from the one before, and that `attr`
/// quotes a value exactly when it holds something other than ASCII letters
/// and digits, escaping quotes and backslashes. Keys with white space or an
/// equals sign, which the writer refuses in debug builds, are left out.
#[verifier::external_body]
pub(crate) fn write_link_format(links: &Vec<Link>, line_breaks: bool) -> (text: String)
    requires
        keys_valid(link_views(links@)),
    ensures
        text@ == link_format_text(link_views(links@), line_breaks),
{
    let mut buffer = String::new();
    let mut writer = LinkFormatWrite::new(&mut buffer);
    writer.set_add_newlines(line_breaks);
    for link in links.iter() {
        let mut entry = writer.link(&link.target);
        for attribute in link.attributes.iter() {
            entry = entry.attr(&attribute.key, &attribute.value);
        }
    }
    buffer
}

} // verus!
