//! What a snapshot tells of an element's role, name, value and state.

use vstd::prelude::*;
use vstd::seq_lib::lemma_seq_contains_after_push;
use vstd::string::*;

use crate::layout::element::{
    attribute_map, attribute_text, control_text, is_enabled, name_parts, non_empty_text, role_text,
    test_id_text, with_part, Attribute, Control, ElementRecord,
};
use crate::layout::projection::is_scrollable;
use crate::layout::rect::DocumentLayoutRect;
use crate::text::{lower_case, trimmed};

verus! {

/// A declared role counts, whatever the element is. Where none is declared, a link is an `a` with a
/// target, a control is what it is for, and any other element is what its tag says.
pub proof fn declared_roles_count(attributes: Seq<Attribute>, tag: Seq<char>, other: Seq<char>)
    ensures
        attribute_text(attributes, "role"@) matches Some(role) ==> role_text(attributes, tag)
            == role_text(attributes, other) && role_text(attributes, tag) == lower_case(role),
        attribute_text(attributes, "role"@) is None ==> {
            &&& attribute_text(attributes, "href"@) is Some ==> role_text(attributes, "a"@)
                == "link"@
            &&& attribute_text(attributes, "href"@) is None ==> role_text(attributes, "a"@) == "a"@
            &&& role_text(attributes, "textarea"@) == "textbox"@
            &&& attribute_text(attributes, "type"@) matches Some(kind) ==> role_text(
                attributes,
                "input"@,
            ) == lower_case(kind)
            &&& attribute_text(attributes, "type"@) is None ==> role_text(attributes, "input"@)
                == lower_case("text"@)
            &&& tag != "a"@ && tag != "textarea"@ && tag != "input"@ ==> role_text(attributes, tag)
                == tag
        },
{
    reveal_strlit("a");
    reveal_strlit("textarea");
    reveal_strlit("input");
    assert("a"@.len() == 1 && "textarea"@.len() == 8 && "input"@.len() == 5);
}

/// The text of the attribute is this label, which is not empty.
pub open spec fn is_label(attributes: Seq<Attribute>, name: Seq<char>, label: Seq<char>) -> bool {
    label.len() > 0 && attribute_text(attributes, name) == Some(label)
}

/// An element is named by every label that it has, and by its text, and by nothing else; the label
/// for assistive technology comes first, and the text last.
pub proof fn names_hold_every_label(element: ElementRecord, part: Seq<char>)
    ensures
        name_parts(element).contains(part) <==> {
            ||| is_label(element.attributes@, "aria-label"@, part)
            ||| is_label(element.attributes@, "title"@, part)
            ||| is_label(element.attributes@, "placeholder"@, part)
            ||| is_label(element.attributes@, "alt"@, part)
            ||| part.len() > 0 && part == trimmed(element.descendant_text@)
        },
        is_label(element.attributes@, "aria-label"@, part) ==> name_parts(element)[0] == part,
        part.len() > 0 && part == trimmed(element.descendant_text@) ==> name_parts(element).last()
            == part,
        name_parts(element).len() <= 5,
{
    let attributes = element.attributes@;
    let one = with_part(seq![], attribute_text(attributes, "aria-label"@));
    let two = with_part(one, attribute_text(attributes, "title"@));
    let three = with_part(two, attribute_text(attributes, "placeholder"@));
    let four = with_part(three, attribute_text(attributes, "alt"@));
    part_is_added(seq![], attribute_text(attributes, "aria-label"@), part);
    part_is_added(one, attribute_text(attributes, "title"@), part);
    part_is_added(two, attribute_text(attributes, "placeholder"@), part);
    part_is_added(three, attribute_text(attributes, "alt"@), part);
    part_is_added(four, non_empty_text(element.descendant_text@), part);
    assert(!Seq::<Seq<char>>::empty().contains(part));
}

proof fn part_is_added(parts: Seq<Seq<char>>, added: Option<Seq<char>>, part: Seq<char>)
    ensures
        with_part(parts, added).contains(part) <==> parts.contains(part) || (added == Some(part)
            && part.len() > 0),
        parts.len() <= with_part(parts, added).len() <= parts.len() + 1,
        parts.len() > 0 ==> with_part(parts, added)[0] == parts[0],
{
    if let Some(own) = added {
        lemma_seq_contains_after_push(parts, own, part);
    }
}

/// Text that is nothing but white space is no text, and other text is shown without the white space
/// around it.
pub proof fn blank_text_is_none(value: Seq<char>)
    ensures
        non_empty_text(value) is None <==> trimmed(value) == Seq::<char>::empty(),
        non_empty_text(value) matches Some(text) ==> text.len() > 0 && text == trimmed(value),
{
    if trimmed(value).len() == 0 {
        assert(trimmed(value) =~= Seq::<char>::empty());
    }
}

/// A control of any kind shows the value that it holds; no other element has one.
pub proof fn controls_show_their_value(value: String)
    ensures
        control_text(Control::Input(value)) == Some(value@),
        control_text(Control::TextArea(value)) == Some(value@),
        control_text(Control::Select(value)) == Some(value@),
        control_text(Control::Other) is None,
{
}

/// An element has a test name exactly where one of the three attributes gives one, and an attribute
/// further down gives it only where those before it are absent.
pub proof fn test_names_come_from_their_attributes(attributes: Seq<Attribute>)
    ensures
        test_id_text(attributes) is None <==> attribute_text(attributes, "data-testid"@) is None
            && attribute_text(attributes, "data-test-id"@) is None && attribute_text(
            attributes,
            "data-test"@,
        ) is None,
        attribute_text(attributes, "data-testid"@) matches Some(own) ==> test_id_text(attributes)
            == Some(own),
        attribute_text(attributes, "data-testid"@) is None ==> (attribute_text(
            attributes,
            "data-test-id"@,
        ) matches Some(own) ==> test_id_text(attributes) == Some(own)),
        attribute_text(attributes, "data-testid"@) is None && attribute_text(
            attributes,
            "data-test-id"@,
        ) is None ==> test_id_text(attributes) == attribute_text(attributes, "data-test"@),
{
}

/// A disabled element cannot be used, whatever it declares; one that is not disabled can be, unless
/// it declares that it is disabled.
pub proof fn disabled_elements_are_not_enabled(element: ElementRecord)
    ensures
        element.is_actually_disabled ==> !is_enabled(element),
        !element.is_actually_disabled && attribute_text(
            element.attributes@,
            "aria-disabled"@,
        ) is None ==> is_enabled(element),
        !element.is_actually_disabled ==> (attribute_text(
            element.attributes@,
            "aria-disabled"@,
        ) matches Some(value) ==> (is_enabled(element) <==> lower_case(value) != "true"@)),
{
}

/// Under every name stands the value of the last attribute that has it, and nothing under others.
pub proof fn the_last_attribute_counts(attributes: Seq<Attribute>, i: int)
    requires
        0 <= i < attributes.len(),
        forall|j: int| i < j < attributes.len() ==> (#[trigger] attributes[j]).name@
            != attributes[i].name@,
    ensures
        attribute_map(attributes).contains_key(attributes[i].name@),
        attribute_map(attributes)[attributes[i].name@] == attributes[i].value@,
    decreases attributes.len(),
{
    if i < attributes.len() - 1 {
        let fewer = attributes.drop_last();
        assert forall|j: int| i < j < fewer.len() implies (#[trigger] fewer[j]).name@
            != fewer[i].name@ by {
            assert(fewer[j] == attributes[j]);
        }
        the_last_attribute_counts(fewer, i);
        assert(attributes[attributes.len() - 1].name@ != attributes[i].name@);
    }
}

/// An element has no attributes but its own.
pub proof fn only_own_attributes_are_shown(attributes: Seq<Attribute>, name: Seq<char>)
    requires
        attribute_map(attributes).contains_key(name),
    ensures
        exists|i: int| 0 <= i < attributes.len() && (#[trigger] attributes[i]).name@ == name,
    decreases attributes.len(),
{
    if attributes.len() > 0 {
        if attributes[attributes.len() - 1].name@ != name {
            let fewer = attributes.drop_last();
            only_own_attributes_are_shown(fewer, name);
            let i = choose|i: int| 0 <= i < fewer.len() && (#[trigger] fewer[i]).name@ == name;
            assert(attributes[i].name@ == name);
        }
    }
}

/// An element can be scrolled exactly where what it holds is wider or higher than it is.
pub proof fn what_overflows_can_be_scrolled(
    client: DocumentLayoutRect,
    scroll: DocumentLayoutRect,
)
    ensures
        scroll.width > client.width ==> is_scrollable(Some(client), Some(scroll)),
        scroll.height > client.height ==> is_scrollable(Some(client), Some(scroll)),
        scroll.width <= client.width && scroll.height <= client.height ==> !is_scrollable(
            Some(client),
            Some(scroll),
        ),
        !is_scrollable(None, Some(scroll)),
        !is_scrollable(Some(client), None),
{
}

} // verus!
