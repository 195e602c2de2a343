//! Reading a value from a node, by the type of the value.

use vstd::prelude::*;
use vstd::string::StringExecFns;
use crate::style::{
    Affixes,
    Choose,
    Citation,
    Conditions,
    DateElement,
    Element,
    Formatting,
    IfThen,
    Layout,
    MacroDef,
    Match,
    NameLabel,
    Names,
    RangeDelimiter,
    Style,
    Substitute,
    TextCase,
};
use crate::part_reader::{range_delimiter_reads, read_range_delimiter};
use crate::style_reader::{
    affixes_read,
    attribute_or,
    attribute_required,
    branch_reads,
    choose_el,
    choose_reads,
    citation_reads,
    conditions_read,
    date_el,
    date_reads,
    element_reads,
    fault,
    formatting_reads,
    has_formatting,
    layout_reads,
    macro_reads,
    name_label_reads,
    named_or,
    named_reads,
    names_el,
    names_reads,
    one_fault,
    read_affixes,
    read_branch,
    read_citation,
    read_conditions,
    read_element,
    read_formatting,
    read_layout,
    read_macro,
    read_name_label,
    read_style,
    style_reads,
    substitute_reads,
};
use crate::style_rules::{
    at_most_one,
    attributes_allowed,
    is_on_node,
    name_views,
    names_in_group,
    Allowed,
    AttributeGroup,
    Count,
    CslError,
    InvalidCsl,
};
use crate::text::push_char;
use crate::xml::{tagged, XmlNode};

verus! {

/// A value that a node of a style stands for.
pub trait FromNode: Sized {
    /// Whether `value` is what the node stands for.
    spec fn reads(node: &XmlNode, value: &Self) -> bool;

    /// Reads the value that the node stands for. It fails, with a fault at
    /// least, exactly where the node stands for none.
    fn from_node(node: &XmlNode) -> (r: Result<Self, CslError>)
        ensures
            match r {
                Ok(value) => Self::reads(node, &value),
                Err(e) => e.0@.len() > 0 && forall|value: Self| !Self::reads(node, &value),
            },
    ;
}

/// A value that is written as attributes of a group.
pub trait IsOnNode: Sized {
    /// The group of the attributes.
    spec fn group() -> AttributeGroup;

    /// The attributes of the group that the node has, by name, in the
    /// order in which it has them.
    fn is_on_node(node: &XmlNode) -> (found: Vec<String>)
        ensures
            name_views(found@) == names_in_group(Self::group(), attribute_names(node)),
    ;
}

/// The names of the attributes of a node, in order.
pub open spec fn attribute_names(node: &XmlNode) -> Seq<Seq<char>> {
    Seq::new(node.attributes@.len(), |i: int| node.attributes@[i].0@)
}

fn on_node(group: AttributeGroup, node: &XmlNode) -> (found: Vec<String>)
    ensures
        name_views(found@) == names_in_group(group, attribute_names(node)),
{
    let names = node.attribute_names();
    assert(name_views(names@) =~= attribute_names(node));
    is_on_node(group, &names)
}

impl IsOnNode for Affixes {
    open spec fn group() -> AttributeGroup {
        AttributeGroup::Affixes
    }

    fn is_on_node(node: &XmlNode) -> (found: Vec<String>) {
        on_node(AttributeGroup::Affixes, node)
    }
}

impl IsOnNode for Formatting {
    open spec fn group() -> AttributeGroup {
        AttributeGroup::Formatting
    }

    fn is_on_node(node: &XmlNode) -> (found: Vec<String>) {
        on_node(AttributeGroup::Formatting, node)
    }
}

impl IsOnNode for TextCase {
    open spec fn group() -> AttributeGroup {
        AttributeGroup::TextCase
    }

    fn is_on_node(node: &XmlNode) -> (found: Vec<String>) {
        on_node(AttributeGroup::TextCase, node)
    }
}

impl FromNode for Affixes {
    open spec fn reads(node: &XmlNode, value: &Affixes) -> bool {
        affixes_read(node, value)
    }

    /// Affixes are read from every node: an absent one is empty.
    fn from_node(node: &XmlNode) -> (r: Result<Affixes, CslError>) {
        Ok(read_affixes(node))
    }
}

/// The formatting that says nothing.
pub open spec fn no_formatting() -> Formatting {
    Formatting {
        font_style: None,
        font_variant: None,
        font_weight: None,
        text_decoration: None,
        vertical_alignment: None,
    }
}

impl FromNode for Formatting {
    /// A node that says nothing about formatting stands for the
    /// formatting that says nothing.
    open spec fn reads(node: &XmlNode, value: &Formatting) -> bool {
        if has_formatting(node) {
            formatting_reads(node, Some(*value))
        } else {
            *value == no_formatting()
        }
    }

    fn from_node(node: &XmlNode) -> (r: Result<Formatting, CslError>) {
        match read_formatting(node) {
            Ok(Some(f)) => Ok(f),
            Ok(None) => Ok(
                Formatting {
                    font_style: None,
                    font_variant: None,
                    font_weight: None,
                    text_decoration: None,
                    vertical_alignment: None,
                },
            ),
            Err(e) => {
                proof {
                    assert forall|value: Formatting| !Self::reads(node, &value) by {
                        assert(!formatting_reads(node, Some(value)));
                        assert(!formatting_reads(node, None));
                    }
                }
                Err(one_fault(e))
            },
        }
    }
}

impl FromNode for TextCase {
    /// A node that names no case leaves the case of a text unchanged.
    open spec fn reads(node: &XmlNode, value: &TextCase) -> bool {
        named_or(node.spec_attribute("text-case"@), TextCase::Unchanged, *value)
    }

    fn from_node(node: &XmlNode) -> (r: Result<TextCase, CslError>) {
        match attribute_or::<TextCase>(node, "text-case", TextCase::Unchanged) {
            Ok(c) => Ok(c),
            Err(e) => Err(one_fault(e)),
        }
    }
}

impl IsOnNode for RangeDelimiter {
    open spec fn group() -> AttributeGroup {
        AttributeGroup::RangeDelimiter
    }

    fn is_on_node(node: &XmlNode) -> (found: Vec<String>) {
        on_node(AttributeGroup::RangeDelimiter, node)
    }
}

impl FromNode for RangeDelimiter {
    open spec fn reads(node: &XmlNode, value: &RangeDelimiter) -> bool {
        range_delimiter_reads(node, value)
    }

    fn from_node(node: &XmlNode) -> (r: Result<RangeDelimiter, CslError>) {
        Ok(read_range_delimiter(node))
    }
}

impl FromNode for DateElement {
    open spec fn reads(node: &XmlNode, value: &DateElement) -> bool {
        date_reads(node, value)
    }

    fn from_node(node: &XmlNode) -> (r: Result<DateElement, CslError>) {
        date_el(node)
    }
}

impl FromNode for Match {
    open spec fn reads(node: &XmlNode, value: &Match) -> bool {
        named_reads(node.spec_attribute("match"@), Some(*value))
    }

    fn from_node(node: &XmlNode) -> (r: Result<Match, CslError>) {
        match attribute_required::<Match>(node, "match") {
            Ok(m) => Ok(m),
            Err(e) => Err(one_fault(e)),
        }
    }
}

impl FromNode for NameLabel {
    open spec fn reads(node: &XmlNode, value: &NameLabel) -> bool {
        name_label_reads(node, value)
    }

    fn from_node(node: &XmlNode) -> (r: Result<NameLabel, CslError>) {
        match read_name_label(node) {
            Ok(l) => Ok(l),
            Err(e) => Err(one_fault(e)),
        }
    }
}

impl FromNode for Names {
    open spec fn reads(node: &XmlNode, value: &Names) -> bool {
        names_reads(node, value)
    }

    fn from_node(node: &XmlNode) -> (r: Result<Names, CslError>) {
        names_el(node)
    }
}

impl FromNode for Substitute {
    open spec fn reads(node: &XmlNode, value: &Substitute) -> bool {
        substitute_reads(node, value)
    }

    /// Each child with the tag `name` is a fault, as it is no rendering
    /// element.
    fn from_node(node: &XmlNode) -> (r: Result<Substitute, CslError>) {
        let places = node.children_tagged("name");
        if places.len() == 0 {
            return Ok(Substitute(Vec::new()));
        }
        let mut faults: Vec<InvalidCsl> = Vec::new();
        let mut k: usize = 0;
        while k < places.len()
            invariant
                k <= places@.len(),
                faults@.len() == k,
            decreases places@.len() - k,
        {
            faults.push(fault("Unrecognised node."));
            k = k + 1;
        }
        Err(CslError(faults))
    }
}

impl FromNode for Conditions {
    open spec fn reads(node: &XmlNode, value: &Conditions) -> bool {
        conditions_read(node, value)
    }

    fn from_node(node: &XmlNode) -> (r: Result<Conditions, CslError>) {
        read_conditions(node)
    }
}

impl FromNode for IfThen {
    open spec fn reads(node: &XmlNode, value: &IfThen) -> bool {
        branch_reads(*node, *value)
    }

    fn from_node(node: &XmlNode) -> (r: Result<IfThen, CslError>) {
        read_branch(node)
    }
}

impl FromNode for Choose {
    open spec fn reads(node: &XmlNode, value: &Choose) -> bool {
        choose_reads(*node, *value)
    }

    fn from_node(node: &XmlNode) -> (r: Result<Choose, CslError>) {
        choose_el(node)
    }
}

impl FromNode for Element {
    open spec fn reads(node: &XmlNode, value: &Element) -> bool {
        element_reads(*node, *value)
    }

    fn from_node(node: &XmlNode) -> (r: Result<Element, CslError>) {
        read_element(node)
    }
}

impl FromNode for Layout {
    open spec fn reads(node: &XmlNode, value: &Layout) -> bool {
        layout_reads(node, value)
    }

    fn from_node(node: &XmlNode) -> (r: Result<Layout, CslError>) {
        read_layout(node)
    }
}

impl FromNode for Citation {
    open spec fn reads(node: &XmlNode, value: &Citation) -> bool {
        citation_reads(node, value)
    }

    fn from_node(node: &XmlNode) -> (r: Result<Citation, CslError>) {
        read_citation(node)
    }
}

impl FromNode for MacroDef {
    open spec fn reads(node: &XmlNode, value: &MacroDef) -> bool {
        macro_reads(node, value)
    }

    fn from_node(node: &XmlNode) -> (r: Result<MacroDef, CslError>) {
        read_macro(node)
    }
}

impl FromNode for Style {
    open spec fn reads(node: &XmlNode, value: &Style) -> bool {
        style_reads(node, value)
    }

    fn from_node(node: &XmlNode) -> (r: Result<Style, CslError>) {
        read_style(node)
    }
}

/// The message for a child of which there is one too many.
pub open spec fn one_only(parent_tag: Seq<char>, child_tag: Seq<char>) -> Seq<char> {
    "There can only be one <"@ + child_tag + "> in a <"@ + parent_tag + "> block."@
}

/// Reads the one child with the given tag: nothing where there is none. A
/// second one is a fault.
pub fn max1_child<T: FromNode>(parent_tag: &str, child_tag: &str, node: &XmlNode) -> (r: Result<
    Option<T>,
    CslError,
>)
    ensures
        ({
            let found = tagged(node.children@, child_tag@);
            match r {
                Ok(None) => found.len() == 0,
                Ok(Some(value)) => found.len() == 1 && T::reads(&node.children@[found[0]], &value),
                Err(e) => if found.len() > 1 {
                    e.0@.len() == 1 && e.0@[0].message@ == one_only(parent_tag@, child_tag@)
                } else {
                    &&& found.len() == 1
                    &&& e.0@.len() > 0
                    &&& forall|value: T| !T::reads(&node.children@[found[0]], &value)
                },
            }
        }),
{
    let places = node.children_tagged(child_tag);
    match at_most_one(places.len()) {
        Count::Missing => Ok(None),
        Count::One(k) => match T::from_node(&node.children[places[k]]) {
            Ok(value) => Ok(Some(value)),
            Err(e) => Err(e),
        },
        Count::TooMany(_) => {
            let mut message = String::from_str("There can only be one <");
            message.append(child_tag);
            message.append("> in a <");
            message.append(parent_tag);
            message.append("> block.");
            Err(one_fault(InvalidCsl { message }))
        },
    }
}

/// Names between quotation marks, with a comma and a space between each two.
pub open spec fn quoted_names(names: Seq<Seq<char>>) -> Seq<char>
    decreases names.len(),
{
    if names.len() == 0 {
        Seq::empty()
    } else if names.len() == 1 {
        seq!['"'] + names[0] + seq!['"']
    } else {
        quoted_names(names.drop_last()) + ", "@ + seq!['"'] + names.last() + seq!['"']
    }
}

/// Names as a list between square brackets.
pub open spec fn listed_names(names: Seq<Seq<char>>) -> Seq<char> {
    seq!['['] + quoted_names(names) + seq![']']
}

fn list_names(names: &Vec<String>) -> (s: String)
    ensures
        s@ == listed_names(name_views(names@)),
{
    let ghost all = name_views(names@);
    let mut s = String::new();
    push_char(&mut s, '[');
    let mut i: usize = 0;
    proof {
        assert(all.take(0) =~= Seq::<Seq<char>>::empty());
        assert(s@ =~= seq!['['] + quoted_names(all.take(0)));
    }
    while i < names.len()
        invariant
            i <= names@.len(),
            all == name_views(names@),
            s@ == seq!['['] + quoted_names(all.take(i as int)),
        decreases names@.len() - i,
    {
        let ghost before = s@;
        let ghost done = all.take(i as int);
        let ghost next = all.take(i + 1);
        proof {
            assert(next.drop_last() =~= done);
            assert(next.last() == names@[i as int]@);
        }
        if i > 0 {
            s.append(", ");
        }
        push_char(&mut s, '"');
        s.append(names[i].as_str());
        push_char(&mut s, '"');
        proof {
            if i == 0 {
                assert(next.len() == 1);
                assert(done.len() == 0);
                assert(s@ =~= seq!['['] + quoted_names(next));
            } else {
                assert(next.len() > 1);
                assert(s@ =~= seq!['['] + quoted_names(next));
            }
        }
        i = i + 1;
    }
    assert(all.take(i as int) =~= all);
    push_char(&mut s, ']');
    s
}

/// Reads a value that is written as attributes, where these may be
/// forbidden. Where they are not, the value is read. Where they are and
/// the node has none of them, nothing is read, and the default of the
/// value stands; where it has one, that is a fault.
pub fn disallow_default<T: FromNode + IsOnNode>(node: &XmlNode, disallow: bool) -> (r: Result<
    Option<T>,
    CslError,
>)
    ensures
        ({
            let present = names_in_group(T::group(), attribute_names(node));
            match r {
                Ok(Some(value)) => !disallow && T::reads(node, &value),
                Ok(None) => disallow && present.len() == 0,
                Err(e) => if disallow {
                    &&& present.len() > 0
                    &&& e.0@.len() == 1
                    &&& e.0@[0].message@ == "Disallowed attribute on node: "@ + listed_names(present)
                } else {
                    e.0@.len() > 0 && forall|value: T| !T::reads(node, &value)
                },
            }
        }),
{
    let attrs = T::is_on_node(node);
    assert(name_views(attrs@).len() == attrs@.len());
    match attributes_allowed(disallow, attrs.len()) {
        Allowed::Read => match T::from_node(node) {
            Ok(value) => Ok(Some(value)),
            Err(e) => Err(e),
        },
        Allowed::Default => Ok(None),
        Allowed::Disallowed => {
            let listed = list_names(&attrs);
            let mut message = String::from_str("Disallowed attribute on node: ");
            message.append(listed.as_str());
            Err(one_fault(InvalidCsl { message }))
        },
    }
}

/// Whether `values` are what the children of a node with the given tag
/// stand for, in order.
pub open spec fn children_read<T: FromNode>(node: &XmlNode, tag: Seq<char>, values: Seq<T>) -> bool {
    let places = tagged(node.children@, tag);
    &&& values.len() == places.len()
    &&& forall|k: int|
        0 <= k < places.len() ==> T::reads(&node.children@[places[k]], &(#[trigger] values[k]))
}

/// Reads each child of a node with the given tag. All are read: where
/// some stand for nothing, the faults of each of them come back.
pub fn read_children<T: FromNode>(node: &XmlNode, tag: &str) -> (r: Result<Vec<T>, CslError>)
    ensures
        match r {
            Ok(values) => children_read(node, tag@, values@),
            Err(e) => e.0@.len() > 0 && forall|values: Seq<T>| !children_read(node, tag@, values),
        },
{
    let places = node.children_tagged(tag);
    let ghost want = tagged(node.children@, tag@);
    let mut values: Vec<T> = Vec::new();
    let mut faults: Vec<InvalidCsl> = Vec::new();
    let ghost mut failed: int = -1;
    let mut k: usize = 0;
    while k < places.len()
        invariant
            k <= places@.len(),
            want == tagged(node.children@, tag@),
            places@.len() == want.len(),
            forall|j: int| 0 <= j < places@.len() ==> places@[j] == want[j],
            forall|j: int| 0 <= j < places@.len() ==> places@[j] < node.children@.len(),
            faults@.len() == 0 ==> values@.len() == k,
            faults@.len() == 0 ==> forall|j: int|
                0 <= j < k ==> T::reads(&node.children@[want[j]], &(#[trigger] values@[j])),
            faults@.len() > 0 ==> 0 <= failed < k && forall|value: T|
                !T::reads(&node.children@[want[failed]], &value),
        decreases places@.len() - k,
    {
        match T::from_node(&node.children[places[k]]) {
            Ok(value) => {
                if faults.len() == 0 {
                    values.push(value);
                }
            },
            Err(e) => {
                proof {
                    if faults@.len() == 0 {
                        failed = k as int;
                    }
                }
                let CslError(more) = e;
                let mut rest = crate::utils::reversed(more);
                while rest.len() > 0
                    invariant
                        faults@.len() + rest@.len() > 0,
                    decreases rest@.len(),
                {
                    let f = rest.pop().unwrap();
                    faults.push(f);
                }
            },
        }
        k = k + 1;
    }
    if faults.len() > 0 {
        proof {
            assert forall|other: Seq<T>| !children_read(node, tag@, other) by {
                if children_read(node, tag@, other) {
                    assert(T::reads(&node.children@[want[failed]], &other[failed]));
                }
            }
        }
        Err(CslError(faults))
    } else {
        Ok(values)
    }
}

} // verus!
