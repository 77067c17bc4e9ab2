//! What a snapshot reads of the elements of a document.

use vstd::prelude::*;
use vstd::string::*;

use crate::error::option_text;
use crate::text::{join, joined, lower_case, texts, to_lower_case, trim, trimmed};
use crate::text_map::{contents_of, in_key_order, TextMap};

verus! {

/// An attribute of an element.
#[derive(Debug)]
pub struct Attribute {
    /// The attribute is in a namespace.
    pub in_namespace: bool,
    pub local_name: String,
    /// The name with its prefix.
    pub name: String,
    pub value: String,
}

/// The value of an element that is a form control.
#[derive(Debug)]
pub enum Control {
    Input(String),
    TextArea(String),
    Select(String),
    /// The element is no form control with a value.
    Other,
}

/// An element, as a snapshot reads it.
#[derive(Debug)]
pub struct ElementRecord {
    /// The node's address.
    pub node: u64,
    /// The place of the parent element.
    pub parent: Option<usize>,
    pub is_canvas: bool,
    pub local_name: String,
    pub attributes: Vec<Attribute>,
    pub control: Control,
    /// The text of its own text nodes.
    pub child_text: String,
    /// The text of all text nodes in it.
    pub descendant_text: String,
    pub is_actually_disabled: bool,
    pub is_editable: bool,
}

/// The value of the first attribute of that name outside all namespaces.
pub open spec fn attribute_text(attributes: Seq<Attribute>, name: Seq<char>) -> Option<Seq<char>>
    decreases attributes.len(),
{
    if attributes.len() == 0 {
        None
    } else if !attributes[0].in_namespace && attributes[0].local_name@ == name {
        Some(attributes[0].value@)
    } else {
        attribute_text(attributes.drop_first(), name)
    }
}

/// The value of an attribute.
pub fn attribute_value(element: &ElementRecord, name: &str) -> (value: Option<String>)
    ensures
        option_text(value) == attribute_text(element.attributes@, name@),
{
    let ghost all = element.attributes@;
    let wanted = name.to_owned();
    let mut i: usize = 0;
    assert(all.skip(0) =~= all);
    while i < element.attributes.len()
        invariant
            i <= element.attributes.len(),
            all == element.attributes@,
            wanted@ == name@,
            attribute_text(all.skip(i as int), name@) == attribute_text(all, name@),
        decreases element.attributes.len() - i,
    {
        let attribute = &element.attributes[i];
        assert(all.skip(i as int).drop_first() =~= all.skip(i + 1));
        if !attribute.in_namespace && attribute.local_name == wanted {
            return Some(attribute.value.clone());
        }
        i += 1;
    }
    None
}

/// The attributes by name; of several with one name the last counts.
pub open spec fn attribute_map(attributes: Seq<Attribute>) -> Map<Seq<char>, Seq<char>>
    decreases attributes.len(),
{
    if attributes.len() == 0 {
        Map::empty()
    } else {
        attribute_map(attributes.drop_last()).insert(
            attributes.last().name@,
            attributes.last().value@,
        )
    }
}

/// The attributes of an element by name.
pub fn attributes_of(element: &ElementRecord) -> (attributes: TextMap)
    ensures
        in_key_order(attributes.items@),
        contents_of(attributes.items@) == attribute_map(element.attributes@),
{
    let ghost all = element.attributes@;
    let mut attributes = TextMap { items: Vec::new() };
    let mut i: usize = 0;
    assert(all.take(0) =~= seq![]);
    assert(contents_of(attributes.items@) =~= Map::empty());
    while i < element.attributes.len()
        invariant
            i <= element.attributes.len(),
            all == element.attributes@,
            in_key_order(attributes.items@),
            contents_of(attributes.items@) == attribute_map(all.take(i as int)),
        decreases element.attributes.len() - i,
    {
        assert(all.take(i + 1).drop_last() =~= all.take(i as int));
        let attribute = &element.attributes[i];
        attributes.put(attribute.name.clone(), attribute.value.clone());
        i += 1;
    }
    assert(all.take(i as int) =~= all);
    attributes
}

/// The text without white space at its ends, if anything is left.
pub open spec fn non_empty_text(value: Seq<char>) -> Option<Seq<char>> {
    if trimmed(value).len() > 0 {
        Some(trimmed(value))
    } else {
        None
    }
}

/// The text without white space at its ends, if anything is left.
pub fn non_empty(value: &str) -> (text: Option<String>)
    ensures
        option_text(text) == non_empty_text(value@),
{
    let part = trim(value);
    if part.unicode_len() > 0 {
        Some(part.to_owned())
    } else {
        None
    }
}

/// The role of an element: what it declares, or what its tag stands for.
pub open spec fn role_text(attributes: Seq<Attribute>, tag: Seq<char>) -> Seq<char> {
    match attribute_text(attributes, "role"@) {
        Some(role) => lower_case(role),
        None => if tag == "a"@ && attribute_text(attributes, "href"@) is Some {
            "link"@
        } else if tag == "textarea"@ {
            "textbox"@
        } else if tag == "input"@ {
            lower_case(
                match attribute_text(attributes, "type"@) {
                    Some(kind) => kind,
                    None => "text"@,
                },
            )
        } else {
            tag
        },
    }
}

/// The role of an element.
pub fn role_of(element: &ElementRecord, tag: &String) -> (role: String)
    ensures
        role@ == role_text(element.attributes@, tag@),
{
    match attribute_value(element, "role") {
        Some(role) => return to_lower_case(role.as_str()),
        None => {},
    }
    if *tag == "a".to_owned() && attribute_value(element, "href").is_some() {
        "link".to_owned()
    } else if *tag == "textarea".to_owned() {
        "textbox".to_owned()
    } else if *tag == "input".to_owned() {
        match attribute_value(element, "type") {
            Some(kind) => to_lower_case(kind.as_str()),
            None => to_lower_case("text"),
        }
    } else {
        tag.clone()
    }
}

/// The parts with one more at the end, where there is one that is not empty.
pub open spec fn with_part(parts: Seq<Seq<char>>, part: Option<Seq<char>>) -> Seq<Seq<char>> {
    match part {
        Some(part) => if part.len() > 0 {
            parts.push(part)
        } else {
            parts
        },
        None => parts,
    }
}

/// What makes up the name of an element.
pub open spec fn name_parts(element: ElementRecord) -> Seq<Seq<char>> {
    let attributes = element.attributes@;
    let parts = with_part(seq![], attribute_text(attributes, "aria-label"@));
    let parts = with_part(parts, attribute_text(attributes, "title"@));
    let parts = with_part(parts, attribute_text(attributes, "placeholder"@));
    let parts = with_part(parts, attribute_text(attributes, "alt"@));
    with_part(parts, non_empty_text(element.descendant_text@))
}

/// The name of an element: its labels and its text.
pub open spec fn name_text(element: ElementRecord) -> Seq<char> {
    trimmed(joined(name_parts(element), " "@))
}

fn add_part(parts: &mut Vec<String>, part: Option<String>)
    ensures
        texts(final(parts)@) == with_part(texts(old(parts)@), option_text(part)),
{
    match part {
        Some(part) => if part.as_str().unicode_len() > 0 {
            parts.push(part);
            assert(texts(parts@) =~= texts(old(parts)@).push(part@));
        },
        None => {},
    }
}

/// The name of an element.
pub fn name_of(element: &ElementRecord) -> (name: String)
    ensures
        name@ == name_text(*element),
{
    let mut parts: Vec<String> = Vec::new();
    assert(texts(parts@) =~= seq![]);
    add_part(&mut parts, attribute_value(element, "aria-label"));
    add_part(&mut parts, attribute_value(element, "title"));
    add_part(&mut parts, attribute_value(element, "placeholder"));
    add_part(&mut parts, attribute_value(element, "alt"));
    add_part(&mut parts, non_empty(element.descendant_text.as_str()));
    let name = join(&parts, " ");
    trim(name.as_str()).to_owned()
}

/// The value of a form control.
pub open spec fn control_text(control: Control) -> Option<Seq<char>> {
    match control {
        Control::Input(value) => Some(value@),
        Control::TextArea(value) => Some(value@),
        Control::Select(value) => Some(value@),
        Control::Other => None,
    }
}

/// The value of an element that is a form control.
pub fn value_of(element: &ElementRecord) -> (value: Option<String>)
    ensures
        option_text(value) == control_text(element.control),
{
    match &element.control {
        Control::Input(value) => Some(value.clone()),
        Control::TextArea(value) => Some(value.clone()),
        Control::Select(value) => Some(value.clone()),
        Control::Other => None,
    }
}

/// The name under which tests know an element: the first that there is of three attributes.
pub open spec fn test_id_text(attributes: Seq<Attribute>) -> Option<Seq<char>> {
    if attribute_text(attributes, "data-testid"@) is Some {
        attribute_text(attributes, "data-testid"@)
    } else if attribute_text(attributes, "data-test-id"@) is Some {
        attribute_text(attributes, "data-test-id"@)
    } else {
        attribute_text(attributes, "data-test"@)
    }
}

/// The name under which tests know an element.
pub fn test_id_of(element: &ElementRecord) -> (id: Option<String>)
    ensures
        option_text(id) == test_id_text(element.attributes@),
{
    match attribute_value(element, "data-testid") {
        Some(id) => return Some(id),
        None => {},
    }
    match attribute_value(element, "data-test-id") {
        Some(id) => return Some(id),
        None => {},
    }
    attribute_value(element, "data-test")
}

/// The element can be used: it is not disabled, and does not declare that it is.
pub open spec fn is_enabled(element: ElementRecord) -> bool {
    !element.is_actually_disabled && !(attribute_text(
        element.attributes@,
        "aria-disabled"@,
    ) matches Some(value) && lower_case(value) == "true"@)
}

/// The element can be used.
pub fn enabled(element: &ElementRecord) -> (enabled: bool)
    ensures
        enabled == is_enabled(*element),
{
    let declared = match attribute_value(element, "aria-disabled") {
        Some(value) => to_lower_case(value.as_str()) == "true".to_owned(),
        None => false,
    };
    !element.is_actually_disabled && !declared
}

} // verus!
