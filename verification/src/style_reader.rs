//! Reading the markup of a style into a style tree.
//!
//! What a node is read as is stated as a relation between the node and the
//! tree: [`element_reads`] and its kin say of a node and a value whether
//! the value is what the node stands for. A reader gives a value that the
//! relation holds of, and fails exactly where it holds of none.

use vstd::prelude::*;
use vstd::string::StringExecFns;
use std::sync::Arc;
use crate::document::{document_reads, parse_document, xml_records};
use crate::from_node::{children_read, max1_child, read_children, FromNode};
use crate::part_reader::{date_parts_read, read_date_parts};
use crate::names::Named;
use crate::style::{
    insert_macro,
    with_macros,
    Affixes,
    Choose,
    Citation,
    Cond,
    Conditions,
    CondSet,
    CslType,
    DateElement,
    DateParts,
    Element,
    Else,
    Features,
    FontStyle,
    FontVariant,
    FontWeight,
    Formatting,
    GivenNameDisambiguationRule,
    Group,
    IfThen,
    LabelElement,
    Layout,
    MacroDef,
    Match,
    Name,
    NameLabel,
    Names,
    NumberElement,
    NumericForm,
    Plural,
    Position,
    Style,
    Substitute,
    TextCase,
    TextDecoration,
    TextElement,
    TextSource,
    VariableForm,
    VerticalAlignment,
};
use crate::style_rules::{
    attribute_bool,
    choose_shape,
    choose_tag,
    conditions_from,
    element_kind,
    spec_attribute_bool,
    spec_choose_shape,
    spec_choose_tag,
    spec_element_kind,
    text_kind,
    BlockConditions,
    ChooseError,
    ChooseShape,
    ChooseTag,
    ConditionError,
    ConditionsFrom,
    CslError,
    ElementKind,
    InvalidCsl,
    OwnConditions,
    TextKind,
};
use crate::terms::LocatorType;
use crate::variables::{AnyVariable, NameVariable};
use crate::xml::{lemma_tagged, split_words, tagged, words};
use crate::terms::{SimpleTerm, TermForm, TermFormExtended, TextTermSelector};
use crate::variables::{DateVariable, NumberVariable, StandardVariable, Variable};
use crate::xml::XmlNode;

verus! {

/// A fault with the given message.
pub fn fault(message: &str) -> (f: InvalidCsl)
    ensures
        f.message@ == message@,
{
    InvalidCsl { message: message.to_owned() }
}

/// A fault with a message made of three parts.
fn fault_about(before: &str, what: &str, after: &str) -> (f: InvalidCsl)
    ensures
        f.message@ == before@ + what@ + after@,
{
    let mut message = String::from_str(before);
    message.append(what);
    message.append(after);
    InvalidCsl { message }
}

/// The faults that hold one fault.
pub fn one_fault(f: InvalidCsl) -> (e: CslError)
    ensures
        e.0@ == seq![f],
{
    let mut faults: Vec<InvalidCsl> = Vec::new();
    faults.push(f);
    assert(faults@ =~= seq![f]);
    CslError(faults)
}

// ---------------------------------------------------------------------------
// Attributes
// ---------------------------------------------------------------------------

/// Whether `r` is what an attribute with a named value is read as: nothing
/// where the attribute is absent, the value of that name where it is there.
pub open spec fn named_reads<T: Named>(value: Option<Seq<char>>, r: Option<T>) -> bool {
    match value {
        None => r is None,
        Some(v) => r matches Some(t) && t.spec_name() == v,
    }
}

/// Whether `r` is what an attribute with a named value and a default is read as.
pub open spec fn named_or<T: Named>(value: Option<Seq<char>>, default: T, r: T) -> bool {
    match value {
        None => r == default,
        Some(v) => r.spec_name() == v,
    }
}

/// Whether the attribute is there with a value that names nothing.
pub open spec fn names_nothing<T: Named>(value: Option<Seq<char>>) -> bool {
    value matches Some(v) && forall|t: T| t.spec_name() != v
}

/// Reads an attribute with a named value, which may be absent.
pub fn attribute_optional<T: Named>(node: &XmlNode, name: &str) -> (r: Result<Option<T>, InvalidCsl>)
    ensures
        match r {
            Ok(x) => named_reads(node.spec_attribute(name@), x),
            Err(_) => names_nothing::<T>(node.spec_attribute(name@)),
        },
{
    match node.attribute(name) {
        None => Ok(None),
        Some(v) => match T::from_name(v) {
            Some(t) => Ok(Some(t)),
            None => Err(fault_about("Unknown value for attribute `", name, "`")),
        },
    }
}

/// Reads an attribute with a named value, with a default for where it is absent.
pub fn attribute_or<T: Named>(node: &XmlNode, name: &str, default: T) -> (r: Result<T, InvalidCsl>)
    ensures
        match r {
            Ok(x) => named_or(node.spec_attribute(name@), default, x),
            Err(_) => names_nothing::<T>(node.spec_attribute(name@)),
        },
{
    match node.attribute(name) {
        None => Ok(default),
        Some(v) => match T::from_name(v) {
            Some(t) => Ok(t),
            None => Err(fault_about("Unknown value for attribute `", name, "`")),
        },
    }
}

/// Reads an attribute with a named value, which must be there.
pub fn attribute_required<T: Named>(node: &XmlNode, name: &str) -> (r: Result<T, InvalidCsl>)
    ensures
        match r {
            Ok(t) => node.spec_attribute(name@) == Some(t.spec_name()),
            Err(_) => node.spec_attribute(name@) is None || names_nothing::<T>(
                node.spec_attribute(name@),
            ),
        },
{
    match node.attribute(name) {
        None => Err(fault_about("Must have `", name, "` attribute")),
        Some(v) => match T::from_name(v) {
            Some(t) => Ok(t),
            None => Err(fault_about("Unknown value for attribute `", name, "`")),
        },
    }
}

/// Reads a yes-or-no attribute.
pub fn attribute_flag(node: &XmlNode, name: &str, default: bool) -> (r: Result<bool, InvalidCsl>)
    ensures
        match r {
            Ok(b) => spec_attribute_bool(node.spec_attribute(name@), default) == Some(b),
            Err(_) => spec_attribute_bool(node.spec_attribute(name@), default) is None,
        },
{
    match attribute_bool(node.attribute(name), default) {
        Some(b) => Ok(b),
        None => Err(fault_about("Attribute `", name, "` must be `true` or `false`")),
    }
}

/// Whether `a` holds the affixes that the node gives.
pub open spec fn affixes_read(node: &XmlNode, a: &Affixes) -> bool {
    &&& a.prefix@ == node.spec_attribute_string("prefix"@)
    &&& a.suffix@ == node.spec_attribute_string("suffix"@)
}

pub fn read_affixes(node: &XmlNode) -> (a: Affixes)
    ensures
        affixes_read(node, &a),
{
    Affixes { prefix: node.attribute_string("prefix"), suffix: node.attribute_string("suffix") }
}

/// Whether the node says anything about formatting.
pub open spec fn has_formatting(node: &XmlNode) -> bool {
    ||| node.spec_attribute("font-style"@) is Some
    ||| node.spec_attribute("font-variant"@) is Some
    ||| node.spec_attribute("font-weight"@) is Some
    ||| node.spec_attribute("text-decoration"@) is Some
    ||| node.spec_attribute("vertical-alignment"@) is Some
}

/// Whether `f` is the formatting that the node gives: none where it says
/// nothing about formatting, else each part as its attribute names it.
pub open spec fn formatting_reads(node: &XmlNode, f: Option<Formatting>) -> bool {
    if has_formatting(node) {
        &&& f matches Some(x)
        &&& named_reads(node.spec_attribute("font-style"@), x.font_style)
        &&& named_reads(node.spec_attribute("font-variant"@), x.font_variant)
        &&& named_reads(node.spec_attribute("font-weight"@), x.font_weight)
        &&& named_reads(node.spec_attribute("text-decoration"@), x.text_decoration)
        &&& named_reads(node.spec_attribute("vertical-alignment"@), x.vertical_alignment)
    } else {
        f is None
    }
}

pub fn read_formatting(node: &XmlNode) -> (r: Result<Option<Formatting>, InvalidCsl>)
    ensures
        match r {
            Ok(f) => formatting_reads(node, f),
            Err(_) => forall|f: Option<Formatting>| !formatting_reads(node, f),
        },
{
    let font_style = match attribute_optional::<FontStyle>(node, "font-style") {
        Ok(x) => x,
        Err(e) => {
            return Err(e);
        },
    };
    let font_variant = match attribute_optional::<FontVariant>(node, "font-variant") {
        Ok(x) => x,
        Err(e) => {
            return Err(e);
        },
    };
    let font_weight = match attribute_optional::<FontWeight>(node, "font-weight") {
        Ok(x) => x,
        Err(e) => {
            return Err(e);
        },
    };
    let text_decoration = match attribute_optional::<TextDecoration>(node, "text-decoration") {
        Ok(x) => x,
        Err(e) => {
            return Err(e);
        },
    };
    let vertical_alignment = match attribute_optional::<VerticalAlignment>(
        node,
        "vertical-alignment",
    ) {
        Ok(x) => x,
        Err(e) => {
            return Err(e);
        },
    };
    if font_style.is_none() && font_variant.is_none() && font_weight.is_none()
        && text_decoration.is_none() && vertical_alignment.is_none() {
        Ok(None)
    } else {
        Ok(
            Some(
                Formatting {
                    font_style,
                    font_variant,
                    font_weight,
                    text_decoration,
                    vertical_alignment,
                },
            ),
        )
    }
}

// ---------------------------------------------------------------------------
// Elements without children
// ---------------------------------------------------------------------------

/// Where the text of a text element comes from, by the attributes that it has.
pub open spec fn text_kind_of(node: &XmlNode) -> Option<TextKind> {
    if node.spec_attribute("macro"@) is Some {
        Some(TextKind::Macro)
    } else if node.spec_attribute("variable"@) is Some {
        Some(TextKind::Variable)
    } else if node.spec_attribute("value"@) is Some {
        Some(TextKind::Value)
    } else if node.spec_attribute("term"@) is Some {
        Some(TextKind::Term)
    } else {
        None
    }
}

/// Whether `source` is where the text of the node comes from.
pub open spec fn source_reads(node: &XmlNode, source: TextSource) -> bool {
    match text_kind_of(node) {
        Some(TextKind::Macro) => source matches TextSource::Macro(name) && Some(name@)
            == node.spec_attribute("macro"@),
        Some(TextKind::Variable) => {
            &&& source matches TextSource::Variable(v, form)
            &&& Some(v.spec_name()) == node.spec_attribute("variable"@)
            &&& named_or(node.spec_attribute("form"@), VariableForm::Long, form)
        },
        Some(TextKind::Value) => source matches TextSource::Value(text) && Some(text@)
            == node.spec_attribute("value"@),
        Some(TextKind::Term) => {
            &&& source matches TextSource::Term(selector, plural)
            &&& selector matches TextTermSelector::Simple(term, form)
            &&& Some(term.spec_name()) == node.spec_attribute("term"@)
            &&& named_or(node.spec_attribute("form"@), TermFormExtended::Long, form)
            &&& spec_attribute_bool(node.spec_attribute("plural"@), false) == Some(plural)
        },
        None => false,
    }
}

pub fn read_source(node: &XmlNode) -> (r: Result<TextSource, InvalidCsl>)
    ensures
        match r {
            Ok(source) => source_reads(node, source),
            Err(_) => forall|source: TextSource| !source_reads(node, source),
        },
{
    let name = node.attribute("macro");
    let variable = node.attribute("variable");
    let value = node.attribute("value");
    let term = node.attribute("term");
    match text_kind(name.is_some(), variable.is_some(), value.is_some(), term.is_some()) {
        Some(TextKind::Macro) => Ok(TextSource::Macro(String::from_str(name.unwrap()))),
        Some(TextKind::Variable) => {
            let v = match StandardVariable::from_name(variable.unwrap()) {
                Some(v) => v,
                None => {
                    return Err(fault("Unknown variable"));
                },
            };
            let form = match attribute_or::<VariableForm>(node, "form", VariableForm::Long) {
                Ok(f) => f,
                Err(e) => {
                    return Err(e);
                },
            };
            Ok(TextSource::Variable(v, form))
        },
        Some(TextKind::Value) => Ok(TextSource::Value(String::from_str(value.unwrap()))),
        Some(TextKind::Term) => {
            let t = match SimpleTerm::from_name(term.unwrap()) {
                Some(t) => t,
                None => {
                    return Err(fault("Unknown term"));
                },
            };
            let form = match attribute_or::<TermFormExtended>(
                node,
                "form",
                TermFormExtended::Long,
            ) {
                Ok(f) => f,
                Err(e) => {
                    return Err(e);
                },
            };
            let plural = match attribute_flag(node, "plural", false) {
                Ok(p) => p,
                Err(e) => {
                    return Err(e);
                },
            };
            Ok(TextSource::Term(TextTermSelector::Simple(t, form), plural))
        },
        None => Err(fault("<text> without a `variable`, `macro`, `term` or `value` is invalid")),
    }
}

/// Whether `t` is the text element that the node stands for.
pub open spec fn text_reads(node: &XmlNode, t: &TextElement) -> bool {
    &&& source_reads(node, t.source)
    &&& formatting_reads(node, t.formatting)
    &&& affixes_read(node, &t.affixes)
    &&& spec_attribute_bool(node.spec_attribute("quotes"@), false) == Some(t.quotes)
    &&& named_or(node.spec_attribute("text-case"@), TextCase::Unchanged, t.text_case)
}

/// Reads a text element.
pub fn text_el(node: &XmlNode) -> (r: Result<TextElement, InvalidCsl>)
    ensures
        match r {
            Ok(t) => text_reads(node, &t),
            Err(_) => forall|t: TextElement| !text_reads(node, &t),
        },
{
    let formatting = match read_formatting(node) {
        Ok(f) => f,
        Err(e) => {
            return Err(e);
        },
    };
    let affixes = read_affixes(node);
    let source = match read_source(node) {
        Ok(s) => s,
        Err(e) => {
            return Err(e);
        },
    };
    let quotes = match attribute_flag(node, "quotes", false) {
        Ok(q) => q,
        Err(e) => {
            return Err(e);
        },
    };
    let text_case = match attribute_or::<TextCase>(node, "text-case", TextCase::Unchanged) {
        Ok(c) => c,
        Err(e) => {
            return Err(e);
        },
    };
    Ok(TextElement { source, formatting, affixes, quotes, text_case })
}

/// Whether `l` is the label that the node stands for.
pub open spec fn label_reads(node: &XmlNode, l: &LabelElement) -> bool {
    &&& node.spec_attribute("variable"@) == Some(l.variable.spec_name())
    &&& named_or(node.spec_attribute("form"@), TermForm::Long, l.form)
    &&& formatting_reads(node, l.formatting)
    &&& affixes_read(node, &l.affixes)
    &&& named_or(node.spec_attribute("plural"@), Plural::Contextual, l.plural)
    &&& named_or(node.spec_attribute("text-case"@), TextCase::Unchanged, l.text_case)
}

/// Reads a label.
pub fn label_el(node: &XmlNode) -> (r: Result<LabelElement, InvalidCsl>)
    ensures
        match r {
            Ok(l) => label_reads(node, &l),
            Err(_) => forall|l: LabelElement| !label_reads(node, &l),
        },
{
    let variable = match attribute_required::<NumberVariable>(node, "variable") {
        Ok(v) => v,
        Err(e) => {
            return Err(e);
        },
    };
    let form = match attribute_or::<TermForm>(node, "form", TermForm::Long) {
        Ok(f) => f,
        Err(e) => {
            return Err(e);
        },
    };
    let formatting = match read_formatting(node) {
        Ok(f) => f,
        Err(e) => {
            return Err(e);
        },
    };
    let affixes = read_affixes(node);
    let plural = match attribute_or::<Plural>(node, "plural", Plural::Contextual) {
        Ok(p) => p,
        Err(e) => {
            return Err(e);
        },
    };
    let text_case = match attribute_or::<TextCase>(node, "text-case", TextCase::Unchanged) {
        Ok(c) => c,
        Err(e) => {
            return Err(e);
        },
    };
    Ok(LabelElement { variable, form, formatting, affixes, plural, text_case })
}

/// Whether `n` is the number element that the node stands for.
pub open spec fn number_reads(node: &XmlNode, n: &NumberElement) -> bool {
    &&& node.spec_attribute("variable"@) == Some(n.variable.spec_name())
    &&& named_or(node.spec_attribute("form"@), NumericForm::Numeric, n.form)
    &&& formatting_reads(node, n.formatting)
    &&& affixes_read(node, &n.affixes)
    &&& named_or(node.spec_attribute("text-case"@), TextCase::Unchanged, n.text_case)
}

/// Reads a number element.
pub fn number_el(node: &XmlNode) -> (r: Result<NumberElement, InvalidCsl>)
    ensures
        match r {
            Ok(n) => number_reads(node, &n),
            Err(_) => forall|n: NumberElement| !number_reads(node, &n),
        },
{
    let variable = match attribute_required::<NumberVariable>(node, "variable") {
        Ok(v) => v,
        Err(e) => {
            return Err(e);
        },
    };
    let form = match attribute_or::<NumericForm>(node, "form", NumericForm::Numeric) {
        Ok(f) => f,
        Err(e) => {
            return Err(e);
        },
    };
    let formatting = match read_formatting(node) {
        Ok(f) => f,
        Err(e) => {
            return Err(e);
        },
    };
    let affixes = read_affixes(node);
    let text_case = match attribute_or::<TextCase>(node, "text-case", TextCase::Unchanged) {
        Ok(c) => c,
        Err(e) => {
            return Err(e);
        },
    };
    Ok(NumberElement { variable, form, formatting, affixes, text_case })
}

/// Whether `d` is the date element that the node stands for: a date that
/// the style lays out itself, with the parts that stand inside the node.
/// All three parts are shown where the node selects none.
pub open spec fn date_reads(node: &XmlNode, d: &DateElement) -> bool {
    &&& node.spec_attribute("variable"@) == Some(d.variable.spec_name())
    &&& date_parts_read(node, true, d.date_parts@)
    &&& named_or(node.spec_attribute("text-case"@), TextCase::Unchanged, d.text_case)
    &&& named_or(node.spec_attribute("date-parts"@), DateParts::YearMonthDay, d.parts_selector)
    &&& formatting_reads(node, d.formatting)
    &&& affixes_read(node, &d.affixes)
    &&& d.delimiter@ == node.spec_attribute_string("delimiter"@)
}

/// Reads a date element.
pub fn date_el(node: &XmlNode) -> (r: Result<DateElement, CslError>)
    ensures
        match r {
            Ok(d) => date_reads(node, &d),
            Err(e) => e.0@.len() > 0 && forall|d: DateElement| !date_reads(node, &d),
        },
{
    let date_parts = match read_date_parts(node, true) {
        Ok(p) => p,
        Err(e) => {
            proof {
                assert forall|d: DateElement| !date_reads(node, &d) by {
                    assert(!date_parts_read(node, true, d.date_parts@));
                }
            }
            return Err(e);
        },
    };
    let variable = match attribute_required::<DateVariable>(node, "variable") {
        Ok(v) => v,
        Err(e) => {
            return Err(one_fault(e));
        },
    };
    let text_case = match attribute_or::<TextCase>(node, "text-case", TextCase::Unchanged) {
        Ok(c) => c,
        Err(e) => {
            return Err(one_fault(e));
        },
    };
    let parts_selector = match attribute_or::<DateParts>(node, "date-parts", DateParts::YearMonthDay) {
        Ok(p) => p,
        Err(e) => {
            return Err(one_fault(e));
        },
    };
    let formatting = match read_formatting(node) {
        Ok(f) => f,
        Err(e) => {
            return Err(one_fault(e));
        },
    };
    let affixes = read_affixes(node);
    let delimiter = node.attribute_string("delimiter");
    Ok(
        DateElement {
            variable,
            date_parts,
            text_case,
            parts_selector,
            formatting,
            affixes,
            delimiter,
        },
    )
}

// ---------------------------------------------------------------------------
// Conditions
// ---------------------------------------------------------------------------

/// Whether `items` are what an attribute that lists names is read as: one
/// value for each word of the attribute, in order; none where it is absent.
pub open spec fn list_reads<T: Named>(value: Option<Seq<char>>, items: Seq<T>) -> bool {
    match value {
        None => items.len() == 0,
        Some(v) => {
            &&& items.len() == words(v).len()
            &&& forall|i: int| 0 <= i < items.len() ==> (#[trigger] items[i]).spec_name() == words(
                v,
            )[i]
        },
    }
}

/// Reads an attribute that lists names.
pub fn attribute_list<T: Named>(node: &XmlNode, name: &str) -> (r: Result<Vec<T>, InvalidCsl>)
    ensures
        match r {
            Ok(items) => list_reads(node.spec_attribute(name@), items@),
            Err(_) => forall|items: Seq<T>| !list_reads(node.spec_attribute(name@), items),
        },
{
    match node.attribute(name) {
        None => Ok(Vec::new()),
        Some(v) => {
            let parts = split_words(v);
            let ghost all = words(v@);
            assert(all =~= Seq::new(parts@.len(), |i: int| parts@[i]@));
            let mut items: Vec<T> = Vec::new();
            let mut i: usize = 0;
            while i < parts.len()
                invariant
                    i <= parts@.len(),
                    all == Seq::new(parts@.len(), |k: int| parts@[k]@),
                    all == words(v@),
                    node.spec_attribute(name@) == Some(v@),
                    items@.len() == i,
                    forall|k: int| 0 <= k < i ==> (#[trigger] items@[k]).spec_name() == all[k],
                decreases parts@.len() - i,
            {
                match T::from_name(parts[i].as_str()) {
                    Some(t) => {
                        items.push(t);
                    },
                    None => {
                        proof {
                            assert(all[i as int] == parts@[i as int]@);
                            assert forall|others: Seq<T>| !list_reads(
                                node.spec_attribute(name@),
                                others,
                            ) by {
                                if list_reads(node.spec_attribute(name@), others) {
                                    assert(others[i as int].spec_name() == all[i as int]);
                                }
                            }
                        }
                        return Err(fault_about("Unknown name in attribute `", name, "`"));
                    },
                }
                i = i + 1;
            }
            Ok(items)
        },
    }
}

/// Whether the node asks about disambiguation: it does where it has the
/// attribute, which can only say `true`.
pub open spec fn disambiguate_reads(value: Option<Seq<char>>, asks: bool) -> bool {
    match value {
        None => !asks,
        Some(v) => asks && v == "true"@,
    }
}

/// The tests that the attributes of a node amount to, kind by kind.
pub open spec fn conds_of(
    asks: bool,
    numeric: Seq<AnyVariable>,
    variable: Seq<AnyVariable>,
    position: Seq<Position>,
    uncertain: Seq<DateVariable>,
    types: Seq<CslType>,
    locator: Seq<LocatorType>,
) -> Seq<Cond> {
    (if asks {
        seq![Cond::Disambiguate(true)]
    } else {
        Seq::<Cond>::empty()
    }) + Seq::new(numeric.len(), |i: int| Cond::IsNumeric(numeric[i])) + Seq::new(
        variable.len(),
        |i: int| Cond::Variable(variable[i]),
    ) + Seq::new(position.len(), |i: int| Cond::Position(position[i])) + Seq::new(
        uncertain.len(),
        |i: int| Cond::IsUncertainDate(uncertain[i]),
    ) + Seq::new(types.len(), |i: int| Cond::Type(types[i])) + Seq::new(
        locator.len(),
        |i: int| Cond::Locator(locator[i]),
    )
}

/// Whether the lists are what the attributes of the node list, kind by kind.
pub open spec fn lists_read(
    node: &XmlNode,
    asks: bool,
    numeric: Seq<AnyVariable>,
    variable: Seq<AnyVariable>,
    position: Seq<Position>,
    uncertain: Seq<DateVariable>,
    types: Seq<CslType>,
    locator: Seq<LocatorType>,
) -> bool {
    &&& disambiguate_reads(node.spec_attribute("disambiguate"@), asks)
    &&& list_reads(node.spec_attribute("is-numeric"@), numeric)
    &&& list_reads(node.spec_attribute("variable"@), variable)
    &&& list_reads(node.spec_attribute("position"@), position)
    &&& list_reads(node.spec_attribute("is-uncertain-date"@), uncertain)
    &&& list_reads(node.spec_attribute("type"@), types)
    &&& list_reads(node.spec_attribute("locator"@), locator)
}

/// Whether `conds` are the tests that the attributes of the node amount to:
/// first the test for disambiguation, then the variables that are to be
/// numeric, those that are to be there, the positions, the dates that are
/// to be uncertain, the types and the locators, each in the order in which
/// its attribute lists them.
pub open spec fn tests_read(node: &XmlNode, conds: Seq<Cond>) -> bool {
    exists|
        asks: bool,
        numeric: Seq<AnyVariable>,
        variable: Seq<AnyVariable>,
        position: Seq<Position>,
        uncertain: Seq<DateVariable>,
        types: Seq<CslType>,
        locator: Seq<LocatorType>,
    |
        {
            &&& #[trigger] lists_read(
                node,
                asks,
                numeric,
                variable,
                position,
                uncertain,
                types,
                locator,
            )
            &&& conds == conds_of(asks, numeric, variable, position, uncertain, types, locator)
        }
}

/// How many tests the attributes of a node amount to, whatever they name.
pub open spec fn tests_len(node: &XmlNode) -> nat {
    let count = |name: Seq<char>|
        match node.spec_attribute(name) {
            Some(v) => words(v).len(),
            None => 0nat,
        };
    (if node.spec_attribute("disambiguate"@) is Some {
        1nat
    } else {
        0nat
    }) + count("is-numeric"@) + count("variable"@) + count("position"@) + count(
        "is-uncertain-date"@,
    ) + count("type"@) + count("locator"@)
}

/// The number of tests of a node does not depend on what they are read as.
pub proof fn lemma_tests_len(node: &XmlNode, conds: Seq<Cond>)
    requires
        tests_read(node, conds),
    ensures
        conds.len() == tests_len(node),
{
}

/// Whether `set` is the set of tests that the node carries: the policy of
/// its `match`, which is `all` where it has none, and at least one test.
pub open spec fn condition_reads(node: &XmlNode, set: &CondSet) -> bool {
    &&& named_or(node.spec_attribute("match"@), Match::All, set.match_type)
    &&& tests_read(node, set.conds@)
    &&& set.conds@.len() > 0
}

/// Whether the node carries no test at all, and nothing at fault.
pub open spec fn unconditional(node: &XmlNode) -> bool {
    &&& exists|m: Match| #[trigger] named_or(node.spec_attribute("match"@), Match::All, m)
    &&& tests_read(node, Seq::empty())
}

fn append_numeric(conds: &mut Vec<Cond>, items: &Vec<AnyVariable>)
    ensures
        final(conds)@ == old(conds)@ + Seq::new(items@.len(), |k: int| Cond::IsNumeric(items@[k])),
{
    let ghost start = conds@;
    let mut i: usize = 0;
    assert(conds@ =~= start + Seq::new(0, |k: int| Cond::IsNumeric(items@[k])));
    while i < items.len()
        invariant
            i <= items@.len(),
            conds@ == start + Seq::new(i as nat, |k: int| Cond::IsNumeric(items@[k])),
        decreases items@.len() - i,
    {
        conds.push(Cond::IsNumeric(items[i]));
        assert(conds@ =~= start + Seq::new((i + 1) as nat, |k: int| Cond::IsNumeric(items@[k])));
        i = i + 1;
    }
}

fn append_variable(conds: &mut Vec<Cond>, items: &Vec<AnyVariable>)
    ensures
        final(conds)@ == old(conds)@ + Seq::new(items@.len(), |k: int| Cond::Variable(items@[k])),
{
    let ghost start = conds@;
    let mut i: usize = 0;
    assert(conds@ =~= start + Seq::new(0, |k: int| Cond::Variable(items@[k])));
    while i < items.len()
        invariant
            i <= items@.len(),
            conds@ == start + Seq::new(i as nat, |k: int| Cond::Variable(items@[k])),
        decreases items@.len() - i,
    {
        conds.push(Cond::Variable(items[i]));
        assert(conds@ =~= start + Seq::new((i + 1) as nat, |k: int| Cond::Variable(items@[k])));
        i = i + 1;
    }
}

fn append_position(conds: &mut Vec<Cond>, items: &Vec<Position>)
    ensures
        final(conds)@ == old(conds)@ + Seq::new(items@.len(), |k: int| Cond::Position(items@[k])),
{
    let ghost start = conds@;
    let mut i: usize = 0;
    assert(conds@ =~= start + Seq::new(0, |k: int| Cond::Position(items@[k])));
    while i < items.len()
        invariant
            i <= items@.len(),
            conds@ == start + Seq::new(i as nat, |k: int| Cond::Position(items@[k])),
        decreases items@.len() - i,
    {
        conds.push(Cond::Position(items[i]));
        assert(conds@ =~= start + Seq::new((i + 1) as nat, |k: int| Cond::Position(items@[k])));
        i = i + 1;
    }
}

fn append_uncertain(conds: &mut Vec<Cond>, items: &Vec<DateVariable>)
    ensures
        final(conds)@ == old(conds)@ + Seq::new(items@.len(), |k: int| Cond::IsUncertainDate(items@[k])),
{
    let ghost start = conds@;
    let mut i: usize = 0;
    assert(conds@ =~= start + Seq::new(0, |k: int| Cond::IsUncertainDate(items@[k])));
    while i < items.len()
        invariant
            i <= items@.len(),
            conds@ == start + Seq::new(i as nat, |k: int| Cond::IsUncertainDate(items@[k])),
        decreases items@.len() - i,
    {
        conds.push(Cond::IsUncertainDate(items[i]));
        assert(conds@ =~= start + Seq::new((i + 1) as nat, |k: int| Cond::IsUncertainDate(items@[k])));
        i = i + 1;
    }
}

fn append_types(conds: &mut Vec<Cond>, items: &Vec<CslType>)
    ensures
        final(conds)@ == old(conds)@ + Seq::new(items@.len(), |k: int| Cond::Type(items@[k])),
{
    let ghost start = conds@;
    let mut i: usize = 0;
    assert(conds@ =~= start + Seq::new(0, |k: int| Cond::Type(items@[k])));
    while i < items.len()
        invariant
            i <= items@.len(),
            conds@ == start + Seq::new(i as nat, |k: int| Cond::Type(items@[k])),
        decreases items@.len() - i,
    {
        conds.push(Cond::Type(items[i]));
        assert(conds@ =~= start + Seq::new((i + 1) as nat, |k: int| Cond::Type(items@[k])));
        i = i + 1;
    }
}

fn append_locator(conds: &mut Vec<Cond>, items: &Vec<LocatorType>)
    ensures
        final(conds)@ == old(conds)@ + Seq::new(items@.len(), |k: int| Cond::Locator(items@[k])),
{
    let ghost start = conds@;
    let mut i: usize = 0;
    assert(conds@ =~= start + Seq::new(0, |k: int| Cond::Locator(items@[k])));
    while i < items.len()
        invariant
            i <= items@.len(),
            conds@ == start + Seq::new(i as nat, |k: int| Cond::Locator(items@[k])),
        decreases items@.len() - i,
    {
        conds.push(Cond::Locator(items[i]));
        assert(conds@ =~= start + Seq::new((i + 1) as nat, |k: int| Cond::Locator(items@[k])));
        i = i + 1;
    }
}

/// The lists of tests of a node, kind by kind.
pub struct TestLists {
    pub asks: bool,
    pub numeric: Vec<AnyVariable>,
    pub variable: Vec<AnyVariable>,
    pub position: Vec<Position>,
    pub uncertain: Vec<DateVariable>,
    pub types: Vec<CslType>,
    pub locator: Vec<LocatorType>,
}

impl TestLists {
    pub open spec fn read_from(&self, node: &XmlNode) -> bool {
        lists_read(
            node,
            self.asks,
            self.numeric@,
            self.variable@,
            self.position@,
            self.uncertain@,
            self.types@,
            self.locator@,
        )
    }

    pub open spec fn spec_conds(&self) -> Seq<Cond> {
        conds_of(
            self.asks,
            self.numeric@,
            self.variable@,
            self.position@,
            self.uncertain@,
            self.types@,
            self.locator@,
        )
    }

    /// The tests of the lists, in order.
    pub fn conds(&self) -> (conds: Vec<Cond>)
        ensures
            conds@ == self.spec_conds(),
    {
        let mut conds: Vec<Cond> = Vec::new();
        if self.asks {
            conds.push(Cond::Disambiguate(true));
        }
        assert(conds@ =~= (if self.asks {
            seq![Cond::Disambiguate(true)]
        } else {
            Seq::<Cond>::empty()
        }));
        append_numeric(&mut conds, &self.numeric);
        append_variable(&mut conds, &self.variable);
        append_position(&mut conds, &self.position);
        append_uncertain(&mut conds, &self.uncertain);
        append_types(&mut conds, &self.types);
        append_locator(&mut conds, &self.locator);
        conds
    }
}

/// Reads the lists of tests of a node.
pub fn read_lists(node: &XmlNode) -> (r: Result<TestLists, InvalidCsl>)
    ensures
        match r {
            Ok(lists) => lists.read_from(node),
            Err(_) => forall|conds: Seq<Cond>| !tests_read(node, conds),
        },
{
    let asks = match node.attribute("disambiguate") {
        None => false,
        Some(v) => {
            if crate::style::str_eq(v, "true") {
                true
            } else {
                return Err(fault("Attribute `disambiguate` can only be `true`"));
            }
        },
    };
    let numeric = match attribute_list::<AnyVariable>(node, "is-numeric") {
        Ok(x) => x,
        Err(e) => {
            return Err(e);
        },
    };
    let variable = match attribute_list::<AnyVariable>(node, "variable") {
        Ok(x) => x,
        Err(e) => {
            return Err(e);
        },
    };
    let position = match attribute_list::<Position>(node, "position") {
        Ok(x) => x,
        Err(e) => {
            return Err(e);
        },
    };
    let uncertain = match attribute_list::<DateVariable>(node, "is-uncertain-date") {
        Ok(x) => x,
        Err(e) => {
            return Err(e);
        },
    };
    let types = match attribute_list::<CslType>(node, "type") {
        Ok(x) => x,
        Err(e) => {
            return Err(e);
        },
    };
    let locator = match attribute_list::<LocatorType>(node, "locator") {
        Ok(x) => x,
        Err(e) => {
            return Err(e);
        },
    };
    Ok(TestLists { asks, numeric, variable, position, uncertain, types, locator })
}

/// Reads the tests that a node carries itself.
pub fn read_condition(node: &XmlNode) -> (r: Result<CondSet, ConditionError>)
    ensures
        match r {
            Ok(set) => condition_reads(node, &set),
            Err(ConditionError::Unconditional(_)) => unconditional(node),
            Err(ConditionError::Invalid(_)) => !unconditional(node) && forall|set: CondSet|
                !condition_reads(node, &set),
        },
{
    let match_type = match attribute_or::<Match>(node, "match", Match::All) {
        Ok(m) => m,
        Err(e) => {
            return Err(ConditionError::Invalid(one_fault(e)));
        },
    };
    let lists = match read_lists(node) {
        Ok(lists) => lists,
        Err(e) => {
            return Err(ConditionError::Invalid(one_fault(e)));
        },
    };
    let conds = lists.conds();
    proof {
        assert(lists.read_from(node));
        assert(tests_read(node, conds@));
        lemma_tests_len(node, conds@);
    }
    if conds.len() == 0 {
        proof {
            assert(conds@ =~= Seq::<Cond>::empty());
            assert(named_or(node.spec_attribute("match"@), Match::All, match_type));
        }
        Err(ConditionError::Unconditional(fault("Unconditional <choose> branch")))
    } else {
        Ok(CondSet { match_type, conds })
    }
}


// ---------------------------------------------------------------------------
// Elements with children
// ---------------------------------------------------------------------------

/// Whether `l` is the label of names that the node stands for.
pub open spec fn name_label_reads(node: &XmlNode, l: &NameLabel) -> bool {
    &&& named_or(node.spec_attribute("form"@), TermFormExtended::Long, l.form)
    &&& formatting_reads(node, l.formatting)
    &&& named_or(node.spec_attribute("plural"@), Plural::Contextual, l.plural)
    &&& affixes_read(node, &l.affixes)
    &&& !l.after_name
    &&& spec_attribute_bool(node.spec_attribute("strip-periods"@), false) == Some(l.strip_periods)
    &&& named_or(node.spec_attribute("text-case"@), TextCase::Unchanged, l.text_case)
}

pub fn read_name_label(node: &XmlNode) -> (r: Result<NameLabel, InvalidCsl>)
    ensures
        match r {
            Ok(l) => name_label_reads(node, &l),
            Err(_) => forall|l: NameLabel| !name_label_reads(node, &l),
        },
{
    let form = match attribute_or::<TermFormExtended>(node, "form", TermFormExtended::Long) {
        Ok(f) => f,
        Err(e) => {
            return Err(e);
        },
    };
    let formatting = match read_formatting(node) {
        Ok(f) => f,
        Err(e) => {
            return Err(e);
        },
    };
    let plural = match attribute_or::<Plural>(node, "plural", Plural::Contextual) {
        Ok(p) => p,
        Err(e) => {
            return Err(e);
        },
    };
    let affixes = read_affixes(node);
    let strip_periods = match attribute_flag(node, "strip-periods", false) {
        Ok(b) => b,
        Err(e) => {
            return Err(e);
        },
    };
    let text_case = match attribute_or::<TextCase>(node, "text-case", TextCase::Unchanged) {
        Ok(c) => c,
        Err(e) => {
            return Err(e);
        },
    };
    Ok(
        NameLabel {
            form,
            formatting,
            plural,
            affixes,
            after_name: false,
            strip_periods,
            text_case,
        },
    )
}

/// Whether `s` is the substitute that the node stands for: the rendering
/// elements that its children with the tag `name` stand for. A `name` is
/// no rendering element (see [`lemma_name_is_no_element`]), so a node with
/// such a child stands for no substitute, and one without stands for the
/// substitute that holds nothing.
pub open spec fn substitute_reads(node: &XmlNode, s: &Substitute) -> bool {
    tagged(node.children@, "name"@).len() == 0 && s.0@.len() == 0
}

/// Whether `n` is the names element that the node stands for, with how
/// each `name` inside it wants the names shown. At most one label and at
/// most one substitute may stand inside it.
pub open spec fn names_reads(node: &XmlNode, n: &Names) -> bool {
    &&& list_reads(node.spec_attribute("variable"@), n.variables@)
    &&& children_read::<Name>(node, "name"@, n.names@)
    &&& formatting_reads(node, n.formatting)
    &&& n.delimiter@ == node.spec_attribute_string("delimiter"@)
    &&& affixes_read(node, &n.affixes)
    &&& {
        let labels = tagged(node.children@, "label"@);
        if labels.len() == 0 {
            n.label is None
        } else if labels.len() == 1 {
            n.label matches Some(l) && name_label_reads(&node.children@[labels[0]], &l)
        } else {
            false
        }
    }
    &&& {
        let substitutes = tagged(node.children@, "substitute"@);
        if substitutes.len() == 0 {
            n.substitute is None
        } else if substitutes.len() == 1 {
            n.substitute matches Some(s) && substitute_reads(&node.children@[substitutes[0]], &s)
        } else {
            false
        }
    }
}

/// Reads a names element.
pub fn names_el(node: &XmlNode) -> (r: Result<Names, CslError>)
    ensures
        match r {
            Ok(n) => names_reads(node, &n),
            Err(e) => e.0@.len() > 0 && forall|n: Names| !names_reads(node, &n),
        },
{
    let variables = match attribute_list::<NameVariable>(node, "variable") {
        Ok(v) => v,
        Err(e) => {
            return Err(one_fault(e));
        },
    };
    let formatting = match read_formatting(node) {
        Ok(f) => f,
        Err(e) => {
            return Err(one_fault(e));
        },
    };
    let delimiter = node.attribute_string("delimiter");
    let affixes = read_affixes(node);
    let names = match read_children::<Name>(node, "name") {
        Ok(n) => n,
        Err(e) => {
            proof {
                assert forall|n: Names| !names_reads(node, &n) by {
                    assert(!children_read::<Name>(node, "name"@, n.names@));
                }
            }
            return Err(e);
        },
    };
    let label = match max1_child::<NameLabel>("names", "label", node) {
        Ok(l) => l,
        Err(e) => {
            proof {
                let labels = tagged(node.children@, "label"@);
                assert forall|n: Names| !names_reads(node, &n) by {
                    if names_reads(node, &n) {
                        let l = n.label->0;
                        assert(NameLabel::reads(&node.children@[labels[0]], &l));
                    }
                }
            }
            return Err(e);
        },
    };
    let substitute = match max1_child::<Substitute>("names", "substitute", node) {
        Ok(s) => s,
        Err(e) => {
            proof {
                let substitutes = tagged(node.children@, "substitute"@);
                assert forall|n: Names| !names_reads(node, &n) by {
                    if names_reads(node, &n) {
                        let s = n.substitute->0;
                        assert(Substitute::reads(&node.children@[substitutes[0]], &s));
                    }
                }
            }
            return Err(e);
        },
    };
    Ok(Names { variables, names, label, formatting, delimiter, affixes, substitute })
}

/// No element is what a node with the tag `name` stands for.
pub proof fn lemma_name_is_no_element(node: XmlNode, el: Element)
    requires
        node.tag@ == "name"@,
    ensures
        !element_reads(node, el),
{
    reveal_strlit("name");
    reveal_strlit("text");
    reveal_strlit("label");
    reveal_strlit("group");
    reveal_strlit("number");
    reveal_strlit("names");
    reveal_strlit("choose");
    reveal_strlit("date");
    assert("name"@.len() == 4);
    assert("name"@[0] == 'n' && "name"@[1] == 'a');
    assert("text"@[0] == 't');
    assert("date"@[0] == 'd');
    assert("label"@.len() == 5);
    assert("group"@.len() == 5);
    assert("names"@.len() == 5);
    assert("number"@.len() == 6);
    assert("choose"@.len() == 6);
    assert(spec_element_kind(node.tag@) is None);
}

/// The tags of nodes, as children of a `choose`.
pub open spec fn child_tags(children: Seq<XmlNode>) -> Seq<ChooseTag> {
    Seq::new(children.len(), |i: int| spec_choose_tag(children[i].tag@))
}

/// Whether `el` is the element that the node stands for.
pub open spec fn element_reads(node: XmlNode, el: Element) -> bool
    decreases node, 3nat,
{
    match spec_element_kind(node.tag@) {
        Some(ElementKind::Text) => el matches Element::Text(t) && text_reads(&node, &t),
        Some(ElementKind::Label) => el matches Element::Label(l) && label_reads(&node, &l),
        Some(ElementKind::Number) => el matches Element::Number(n) && number_reads(&node, &n),
        Some(ElementKind::Date) => el matches Element::Date(d) && date_reads(&node, &d),
        Some(ElementKind::Names) => el matches Element::Names(n) && names_reads(&node, &*n),
        Some(ElementKind::Group) => {
            &&& el matches Element::Group(g)
            &&& formatting_reads(&node, g.formatting)
            &&& g.delimiter@ == node.spec_attribute_string("delimiter"@)
            &&& affixes_read(&node, &g.affixes)
            &&& body_reads(node.children@, None, g.elements@)
        },
        Some(ElementKind::Choose) => el matches Element::Choose(ch) && choose_reads(node, *ch),
        None => false,
    }
}

/// Whether `els` are the elements that the nodes stand for, one for each
/// node in order, the nodes with the tag `skip` left out.
pub open spec fn body_reads(nodes: Seq<XmlNode>, skip: Option<Seq<char>>, els: Seq<Element>) -> bool
    decreases nodes, 0nat,
{
    if nodes.len() == 0 {
        els.len() == 0
    } else if Some(nodes.last().tag@) == skip {
        body_reads(nodes.drop_last(), skip, els)
    } else {
        &&& els.len() > 0
        &&& body_reads(nodes.drop_last(), skip, els.drop_last())
        &&& element_reads(nodes.last(), els.last())
    }
}

/// Whether `c` is the block of conditions that the node stands for: the
/// policy of its `match`, and the set of each `condition` inside it, of
/// which there is one at least.
pub open spec fn conditions_read(node: &XmlNode, c: &Conditions) -> bool {
    let sets = tagged(node.children@, "condition"@);
    &&& node.spec_attribute("match"@) == Some(c.0.spec_name())
    &&& sets.len() > 0
    &&& c.1@.len() == sets.len()
    &&& forall|k: int|
        0 <= k < sets.len() ==> condition_reads(&node.children@[sets[k]], &(#[trigger] c.1@[k]))
}

/// Whether `b` is the branch that the node stands for.
///
/// The conditions are those that the node carries itself, as the only set
/// under the policy `all`, where it has no block of conditions; they are
/// those of the block where it has one and carries none itself. The body
/// is what the other children stand for.
pub open spec fn branch_reads(node: XmlNode, b: IfThen) -> bool
    decreases node, 1nat,
{
    let blocks = tagged(node.children@, "conditions"@);
    &&& body_reads(node.children@, Some("conditions"@), b.1@)
    &&& if blocks.len() == 0 {
        &&& b.0.0 == Match::All
        &&& b.0.1@.len() == 1
        &&& condition_reads(&node, &b.0.1@[0])
    } else if blocks.len() == 1 {
        unconditional(&node) && conditions_read(&node.children@[blocks[0]], &b.0)
    } else {
        false
    }
}

/// Whether `ch` is the choice that the node stands for: its children are
/// an `if`, then `else-if`s, then at most one `else`, and the branches of
/// the choice are what they stand for; without an `else`, the fallback is empty.
pub open spec fn choose_reads(node: XmlNode, ch: Choose) -> bool
    decreases node, 2nat,
{
    match spec_choose_shape(child_tags(node.children@)) {
        Ok(shape) => {
            &&& node.children@.len() >= 1
            &&& branch_reads(node.children@[0], ch.0)
            &&& ch.1@.len() == shape.else_ifs
            &&& forall|i: int|
                0 <= i < ch.1@.len() && i + 1 < node.children@.len() ==> branch_reads(
                    node.children@[i + 1],
                    #[trigger] ch.1@[i],
                )
            &&& if shape.has_else {
                body_reads(node.children@[node.children@.len() - 1].children@, None, ch.2.0@)
            } else {
                ch.2.0@.len() == 0
            }
        },
        Err(_) => false,
    }
}


/// A body that is read has an element for each node that is not left out.
proof fn lemma_body_element(nodes: Seq<XmlNode>, skip: Option<Seq<char>>, els: Seq<Element>, i: int)
    requires
        body_reads(nodes, skip, els),
        0 <= i < nodes.len(),
        Some(nodes[i].tag@) != skip,
    ensures
        exists|el: Element| element_reads(nodes[i], el),
    decreases nodes.len(),
{
    if i == nodes.len() - 1 {
        assert(element_reads(nodes.last(), els.last()));
    } else {
        let front = nodes.drop_last();
        assert(front[i] == nodes[i]);
        if Some(nodes.last().tag@) == skip {
            lemma_body_element(front, skip, els, i);
        } else {
            lemma_body_element(front, skip, els.drop_last(), i);
        }
    }
}

fn append_faults(all: &mut Vec<InvalidCsl>, more: CslError)
    ensures
        final(all)@.len() == old(all)@.len() + more.0@.len(),
{
    let CslError(faults) = more;
    let mut rest = crate::utils::reversed(faults);
    while rest.len() > 0
        invariant
            all@.len() + rest@.len() == old(all)@.len() + more.0@.len(),
        decreases rest@.len(),
    {
        let f = rest.pop().unwrap();
        all.push(f);
    }
}

/// The tag that is left out, as characters.
pub open spec fn skip_view(skip: Option<&str>) -> Option<Seq<char>> {
    match skip {
        Some(t) => Some(t@),
        None => None,
    }
}

/// Reads the elements that nodes stand for, leaving out the nodes with the
/// tag `skip`. Every node is read: the faults of all that fail are reported.
pub fn read_body(nodes: &Vec<XmlNode>, skip: Option<&str>) -> (r: Result<Vec<Element>, CslError>)
    ensures
        match r {
            Ok(els) => body_reads(nodes@, skip_view(skip), els@),
            Err(e) => e.0@.len() > 0 && forall|els: Seq<Element>|
                !#[trigger] body_reads(nodes@, skip_view(skip), els),
        },
    decreases *nodes, 0nat,
{
    let ghost skipped: Option<Seq<char>> = skip_view(skip);
    let mut els: Vec<Element> = Vec::new();
    let mut faults: Vec<InvalidCsl> = Vec::new();
    let ghost mut failed: int = -1;
    let mut i: usize = 0;
    assert(nodes@.take(0) =~= Seq::<XmlNode>::empty());
    while i < nodes.len()
        invariant
            i <= nodes@.len(),
            skipped == skip_view(skip),
            faults@.len() == 0 ==> body_reads(nodes@.take(i as int), skipped, els@),
            faults@.len() > 0 ==> 0 <= failed < i && Some(nodes@[failed].tag@) != skipped
                && forall|el: Element| !element_reads(nodes@[failed], el),
        decreases nodes@.len() - i,
    {
        proof {
            assert(nodes@.take(i + 1).drop_last() =~= nodes@.take(i as int));
            assert(nodes@.take(i + 1).last() == nodes@[i as int]);
        }
        let left_out = match skip {
            Some(t) => crate::style::str_eq(nodes[i].tag.as_str(), t),
            None => false,
        };
        if !left_out {
            match read_element(&nodes[i]) {
                Ok(el) => {
                    if faults.len() == 0 {
                        let ghost before = els@;
                        els.push(el);
                        assert(els@.drop_last() =~= before);
                    }
                },
                Err(e) => {
                    proof {
                        if faults@.len() == 0 {
                            failed = i as int;
                        }
                    }
                    append_faults(&mut faults, e);
                },
            }
        }
        i = i + 1;
    }
    assert(nodes@.take(i as int) =~= nodes@);
    if faults.len() > 0 {
        proof {
            assert forall|any: Seq<Element>| !body_reads(nodes@, skipped, any) by {
                if body_reads(nodes@, skipped, any) {
                    lemma_body_element(nodes@, skipped, any, failed);
                }
            }
        }
        Err(CslError(faults))
    } else {
        Ok(els)
    }
}

/// Reads a block of conditions.
pub fn read_conditions(node: &XmlNode) -> (r: Result<Conditions, CslError>)
    ensures
        match r {
            Ok(c) => conditions_read(node, &c),
            Err(e) => e.0@.len() > 0 && forall|c: Conditions| !conditions_read(node, &c),
        },
{
    let match_type = match attribute_required::<Match>(node, "match") {
        Ok(m) => m,
        Err(e) => {
            return Err(one_fault(e));
        },
    };
    let places = node.children_tagged("condition");
    let ghost sets = tagged(node.children@, "condition"@);
    if places.len() == 0 {
        return Err(one_fault(fault("Unconditional <choose> branch")));
    }
    let mut conds: Vec<CondSet> = Vec::new();
    let mut k: usize = 0;
    while k < places.len()
        invariant
            k <= places@.len(),
            sets == tagged(node.children@, "condition"@),
            places@.len() == sets.len(),
            forall|j: int| 0 <= j < places@.len() ==> places@[j] == sets[j],
            forall|j: int| 0 <= j < places@.len() ==> places@[j] < node.children@.len(),
            conds@.len() == k,
            forall|j: int|
                0 <= j < k ==> condition_reads(&node.children@[sets[j]], &(#[trigger] conds@[j])),
        decreases places@.len() - k,
    {
        let child = &node.children[places[k]];
        match read_condition(child) {
            Ok(set) => {
                conds.push(set);
            },
            Err(e) => {
                proof {
                    if e is Unconditional {
                        assert forall|set: CondSet| !condition_reads(child, &set) by {
                            if condition_reads(child, &set) {
                                lemma_tests_len(child, set.conds@);
                                lemma_tests_len(child, Seq::empty());
                            }
                        }
                    }
                    assert forall|c: Conditions| !conditions_read(node, &c) by {
                        if conditions_read(node, &c) {
                            assert(condition_reads(&node.children@[sets[k as int]], &c.1@[k as int]));
                        }
                    }
                }
                let faults = e.into_inner();
                if faults.0.len() == 0 {
                    return Err(one_fault(fault("Invalid <condition>")));
                }
                return Err(faults);
            },
        }
        k = k + 1;
    }
    Ok(Conditions(match_type, conds))
}

/// Reads a branch of a choice.
pub fn read_branch(node: &XmlNode) -> (r: Result<IfThen, CslError>)
    ensures
        match r {
            Ok(b) => branch_reads(*node, b),
            Err(e) => e.0@.len() > 0 && forall|b: IfThen| !branch_reads(*node, b),
        },
    decreases *node, 1nat,
{
    let places = node.children_tagged("conditions");
    let ghost blocks = tagged(node.children@, "conditions"@);
    let own = read_condition(node);
    let own_state = match &own {
        Ok(_) => OwnConditions::Given,
        Err(ConditionError::Unconditional(_)) => OwnConditions::Unconditional,
        Err(ConditionError::Invalid(_)) => OwnConditions::Invalid,
    };
    proof {
        if own is Ok {
            lemma_tests_len(node, own->Ok_0.conds@);
            if unconditional(node) {
                lemma_tests_len(node, Seq::empty());
            }
            assert(!unconditional(node));
        }
        if own_state == OwnConditions::Unconditional {
            assert forall|set: CondSet| !condition_reads(node, &set) by {
                if condition_reads(node, &set) {
                    lemma_tests_len(node, set.conds@);
                    lemma_tests_len(node, Seq::empty());
                }
            }
        }
    }
    let block: Option<Conditions> = if places.len() == 1 {
        match read_conditions(&node.children[places[0]]) {
            Ok(c) => Some(c),
            Err(_) => None,
        }
    } else {
        None
    };
    let ghost block_faulty = places@.len() >= 2 || (places@.len() == 1 && forall|c: Conditions|
        !conditions_read(&node.children@[blocks[0]], &c));
    let block_state = if places.len() == 0 {
        BlockConditions::Absent
    } else if block.is_some() {
        BlockConditions::Given
    } else {
        BlockConditions::Invalid
    };
    assert(block_state == BlockConditions::Invalid ==> block_faulty);
    let from = conditions_from(own_state, block_state);
    proof {
        if from == ConditionsFrom::OwnFault || from == ConditionsFrom::BlockFault || from
            == ConditionsFrom::Both {
            assert forall|b: IfThen| !branch_reads(*node, b) by {
                if branch_reads(*node, b) {
                    if blocks.len() == 0 {
                        assert(condition_reads(node, &b.0.1@[0]));
                    } else if blocks.len() == 1 {
                        assert(unconditional(node));
                        assert(conditions_read(&node.children@[blocks[0]], &b.0));
                    }
                }
            }
        }
    }
    let conditions = match from {
        ConditionsFrom::Own => {
            match own {
                Ok(set) => {
                    let mut sets: Vec<CondSet> = Vec::new();
                    sets.push(set);
                    assert(sets@.len() == 1 && sets@[0] == set);
                    Conditions(Match::All, sets)
                },
                Err(_) => {
                    return Err(one_fault(fault("Invalid conditions")));
                },
            }
        },
        ConditionsFrom::Block => {
            match block {
                Some(c) => c,
                None => {
                    return Err(one_fault(fault("Invalid <conditions>")));
                },
            }
        },
        ConditionsFrom::OwnFault => {
            return Err(one_fault(fault("Unconditional <choose> branch")));
        },
        ConditionsFrom::BlockFault => {
            return Err(one_fault(fault("Invalid <conditions> block")));
        },
        ConditionsFrom::Both => {
            return Err(
                one_fault(
                    fault("if or else-if can only have its own conditions OR a <conditions> block"),
                ),
            );
        },
    };
    assert(skip_view(Some("conditions")) == Some("conditions"@));
    match read_body(&node.children, Some("conditions")) {
        Ok(body) => {
            let b = IfThen(conditions, body);
            proof {
                if blocks.len() == 0 {
                    assert(condition_reads(node, &b.0.1@[0]));
                } else {
                    assert(blocks.len() == 1);
                    assert(conditions_read(&node.children@[blocks[0]], &b.0));
                }
                assert(branch_reads(*node, b));
            }
            Ok(b)
        },
        Err(e) => {
            proof {
                assert forall|b: IfThen| !branch_reads(*node, b) by {
                    if branch_reads(*node, b) {
                        assert(body_reads(node.children@, skip_view(Some("conditions")), b.1@));
                    }
                }
            }
            Err(e)
        },
    }
}

/// Reads a choice.
pub fn choose_el(node: &XmlNode) -> (r: Result<Choose, CslError>)
    ensures
        match r {
            Ok(ch) => choose_reads(*node, ch),
            Err(e) => e.0@.len() > 0 && forall|ch: Choose| !choose_reads(*node, ch),
        },
    decreases *node, 2nat,
{
    let mut tags: Vec<ChooseTag> = Vec::new();
    let mut i: usize = 0;
    while i < node.children.len()
        invariant
            i <= node.children@.len(),
            tags@.len() == i,
            forall|j: int| 0 <= j < i ==> tags@[j] == child_tags(node.children@)[j],
        decreases node.children@.len() - i,
    {
        tags.push(choose_tag(node.children[i].tag.as_str()));
        i = i + 1;
    }
    assert(tags@ =~= child_tags(node.children@));
    let shape = match choose_shape(&tags) {
        Ok(shape) => shape,
        Err((_, e)) => {
            let message = match e {
                ChooseError::MustBeginWithIf => "<choose> blocks must begin with an <if>",
                ChooseError::OutOfOrder =>
                    "<choose> elements out of order; found <if>, <else-if> or <else> in wrong position",
                ChooseError::Unrecognised => "Unrecognised element in <choose>",
                ChooseError::NoIf => "<choose> blocks must have an <if>",
            };
            return Err(one_fault(fault(message)));
        },
    };
    proof {
        crate::style_rules::law_choose_children(tags@, shape);
    }
    let head = match read_branch(&node.children[0]) {
        Ok(b) => b,
        Err(e) => {
            proof {
                assert forall|ch: Choose| !choose_reads(*node, ch) by {
                    if choose_reads(*node, ch) {
                        assert(branch_reads(node.children@[0], ch.0));
                    }
                }
            }
            return Err(e);
        },
    };
    let mut rest: Vec<IfThen> = Vec::new();
    let mut k: usize = 0;
    while k < shape.else_ifs
        invariant
            k <= shape.else_ifs,
            shape.else_ifs + 1 <= node.children@.len(),
            spec_choose_shape(child_tags(node.children@)) == Ok::<ChooseShape, (int, ChooseError)>(
                shape,
            ),
            rest@.len() == k,
            forall|j: int| 0 <= j < k ==> branch_reads(node.children@[j + 1], #[trigger] rest@[j]),
        decreases shape.else_ifs - k,
    {
        match read_branch(&node.children[k + 1]) {
            Ok(b) => {
                rest.push(b);
            },
            Err(e) => {
                proof {
                    assert forall|ch: Choose| !choose_reads(*node, ch) by {
                        if choose_reads(*node, ch) {
                            assert(branch_reads(node.children@[k + 1], ch.1@[k as int]));
                        }
                    }
                }
                return Err(e);
            },
        }
        k = k + 1;
    }
    let last = if shape.has_else {
        assert(skip_view(None) == None::<Seq<char>>);
        match read_body(&node.children[node.children.len() - 1].children, None) {
            Ok(els) => Else(els),
            Err(e) => {
                proof {
                    let body = node.children@[node.children@.len() - 1].children@;
                    assert forall|ch: Choose| !choose_reads(*node, ch) by {
                        if choose_reads(*node, ch) {
                            assert(body_reads(body, skip_view(None), ch.2.0@));
                        }
                    }
                }
                return Err(e);
            },
        }
    } else {
        Else(Vec::new())
    };
    let ch = Choose(head, rest, last);
    proof {
        assert(choose_reads(*node, ch));
    }
    Ok(ch)
}

/// Reads an element of a layout.
pub fn read_element(node: &XmlNode) -> (r: Result<Element, CslError>)
    ensures
        match r {
            Ok(el) => element_reads(*node, el),
            Err(e) => e.0@.len() > 0 && forall|el: Element| !element_reads(*node, el),
        },
    decreases *node, 3nat,
{
    match element_kind(node.tag.as_str()) {
        Some(ElementKind::Text) => match text_el(node) {
            Ok(t) => Ok(Element::Text(t)),
            Err(e) => {
                proof {
                    assert forall|el: Element| !element_reads(*node, el) by {
                        if let Element::Text(t) = el {
                            assert(!text_reads(node, &t));
                        }
                    }
                }
                Err(one_fault(e))
            },
        },
        Some(ElementKind::Label) => match label_el(node) {
            Ok(l) => Ok(Element::Label(l)),
            Err(e) => {
                proof {
                    assert forall|el: Element| !element_reads(*node, el) by {
                        if let Element::Label(l) = el {
                            assert(!label_reads(node, &l));
                        }
                    }
                }
                Err(one_fault(e))
            },
        },
        Some(ElementKind::Number) => match number_el(node) {
            Ok(n) => Ok(Element::Number(n)),
            Err(e) => {
                proof {
                    assert forall|el: Element| !element_reads(*node, el) by {
                        if let Element::Number(n) = el {
                            assert(!number_reads(node, &n));
                        }
                    }
                }
                Err(one_fault(e))
            },
        },
        Some(ElementKind::Date) => match date_el(node) {
            Ok(d) => Ok(Element::Date(d)),
            Err(e) => {
                proof {
                    assert forall|el: Element| !element_reads(*node, el) by {
                        if let Element::Date(d) = el {
                            assert(!date_reads(node, &d));
                        }
                    }
                }
                Err(e)
            },
        },
        Some(ElementKind::Names) => match names_el(node) {
            Ok(n) => Ok(Element::Names(Arc::new(n))),
            Err(e) => {
                proof {
                    assert forall|el: Element| !element_reads(*node, el) by {
                        if let Element::Names(n) = el {
                            assert(!names_reads(node, &*n));
                        }
                    }
                }
                Err(e)
            },
        },
        Some(ElementKind::Group) => {
            let formatting = match read_formatting(node) {
                Ok(f) => f,
                Err(e) => {
                    proof {
                        assert forall|el: Element| !element_reads(*node, el) by {
                            if let Element::Group(g) = el {
                                assert(!formatting_reads(node, g.formatting));
                            }
                        }
                    }
                    return Err(one_fault(e));
                },
            };
            let delimiter = node.attribute_string("delimiter");
            let affixes = read_affixes(node);
            assert(skip_view(None) == None::<Seq<char>>);
            match read_body(&node.children, None) {
                Ok(elements) => Ok(
                    Element::Group(Group { formatting, delimiter, affixes, elements }),
                ),
                Err(e) => {
                    proof {
                        assert forall|el: Element| !element_reads(*node, el) by {
                            if let Element::Group(g) = el {
                                assert(!body_reads(node.children@, skip_view(None), g.elements@));
                            }
                        }
                    }
                    Err(e)
                },
            }
        },
        Some(ElementKind::Choose) => match choose_el(node) {
            Ok(ch) => Ok(Element::Choose(Arc::new(ch))),
            Err(e) => {
                proof {
                    assert forall|el: Element| !element_reads(*node, el) by {
                        if let Element::Choose(ch) = el {
                            assert(!choose_reads(*node, *ch));
                        }
                    }
                }
                Err(e)
            },
        },
        None => Err(one_fault(fault("Unrecognised node."))),
    }
}


// ---------------------------------------------------------------------------
// The style as a whole
// ---------------------------------------------------------------------------

/// Whether `l` is the layout that the node stands for.
pub open spec fn layout_reads(node: &XmlNode, l: &Layout) -> bool {
    &&& formatting_reads(node, l.formatting)
    &&& affixes_read(node, &l.affixes)
    &&& l.delimiter@ == node.spec_attribute_string("delimiter"@)
    &&& body_reads(node.children@, None, l.elements@)
}

pub fn read_layout(node: &XmlNode) -> (r: Result<Layout, CslError>)
    ensures
        match r {
            Ok(l) => layout_reads(node, &l),
            Err(e) => e.0@.len() > 0 && forall|l: Layout| !layout_reads(node, &l),
        },
{
    assert(skip_view(None) == None::<Seq<char>>);
    let elements = match read_body(&node.children, None) {
        Ok(els) => els,
        Err(e) => {
            proof {
                assert forall|l: Layout| !layout_reads(node, &l) by {
                    assert(!body_reads(node.children@, skip_view(None), l.elements@));
                }
            }
            return Err(e);
        },
    };
    let formatting = match read_formatting(node) {
        Ok(f) => f,
        Err(e) => {
            proof {
                assert forall|l: Layout| !layout_reads(node, &l) by {
                    assert(!formatting_reads(node, l.formatting));
                }
            }
            return Err(one_fault(e));
        },
    };
    let affixes = read_affixes(node);
    let delimiter = node.attribute_string("delimiter");
    Ok(Layout { formatting, affixes, delimiter, elements })
}

/// Whether `c` is the citation that the node stands for. It has exactly one layout.
pub open spec fn citation_reads(node: &XmlNode, c: &Citation) -> bool {
    let layouts = tagged(node.children@, "layout"@);
    &&& layouts.len() == 1
    &&& layout_reads(&node.children@[layouts[0]], &c.layout)
    &&& spec_attribute_bool(node.spec_attribute("disambiguate-add-names"@), false) == Some(
        c.disambiguate_add_names,
    )
    &&& spec_attribute_bool(node.spec_attribute("disambiguate-add-givenname"@), false) == Some(
        c.disambiguate_add_givenname,
    )
    &&& named_or(
        node.spec_attribute("givenname-disambiguation-rule"@),
        GivenNameDisambiguationRule::ByCite,
        c.givenname_disambiguation_rule,
    )
    &&& spec_attribute_bool(node.spec_attribute("disambiguate-add-year-suffix"@), false) == Some(
        c.disambiguate_add_year_suffix,
    )
}

pub fn read_citation(node: &XmlNode) -> (r: Result<Citation, CslError>)
    ensures
        match r {
            Ok(c) => citation_reads(node, &c),
            Err(e) => e.0@.len() > 0 && forall|c: Citation| !citation_reads(node, &c),
        },
{
    let layouts = node.children_tagged("layout");
    if layouts.len() != 1 {
        return Err(one_fault(fault("<citation> must contain exactly one <layout>")));
    }
    let disambiguate_add_names = match attribute_flag(node, "disambiguate-add-names", false) {
        Ok(b) => b,
        Err(e) => {
            return Err(one_fault(e));
        },
    };
    let disambiguate_add_givenname = match attribute_flag(
        node,
        "disambiguate-add-givenname",
        false,
    ) {
        Ok(b) => b,
        Err(e) => {
            return Err(one_fault(e));
        },
    };
    let givenname_disambiguation_rule = match attribute_or::<GivenNameDisambiguationRule>(
        node,
        "givenname-disambiguation-rule",
        GivenNameDisambiguationRule::ByCite,
    ) {
        Ok(r) => r,
        Err(e) => {
            return Err(one_fault(e));
        },
    };
    let disambiguate_add_year_suffix = match attribute_flag(
        node,
        "disambiguate-add-year-suffix",
        false,
    ) {
        Ok(b) => b,
        Err(e) => {
            return Err(one_fault(e));
        },
    };
    let layout = match read_layout(&node.children[layouts[0]]) {
        Ok(l) => l,
        Err(e) => {
            return Err(e);
        },
    };
    Ok(
        Citation {
            disambiguate_add_names,
            disambiguate_add_givenname,
            givenname_disambiguation_rule,
            disambiguate_add_year_suffix,
            layout,
        },
    )
}

/// Whether `m` is the macro that the node stands for. A macro has a name.
pub open spec fn macro_reads(node: &XmlNode, m: &MacroDef) -> bool {
    &&& node.spec_attribute("name"@) == Some(m.name@)
    &&& body_reads(node.children@, None, m.elements@)
}

pub fn read_macro(node: &XmlNode) -> (r: Result<MacroDef, CslError>)
    ensures
        match r {
            Ok(m) => macro_reads(node, &m),
            Err(e) => e.0@.len() > 0 && forall|m: MacroDef| !macro_reads(node, &m),
        },
{
    assert(skip_view(None) == None::<Seq<char>>);
    let elements = match read_body(&node.children, None) {
        Ok(els) => els,
        Err(e) => {
            proof {
                assert forall|m: MacroDef| !macro_reads(node, &m) by {
                    assert(!body_reads(node.children@, skip_view(None), m.elements@));
                }
            }
            return Err(e);
        },
    };
    match node.attribute("name") {
        Some(name) => Ok(MacroDef { name: String::from_str(name), elements }),
        None => Err(one_fault(fault("Macro must have a 'name' attribute."))),
    }
}

/// The place of the one child of the root with the given tag. That there
/// is none, and that there is more than one, is a fault.
pub fn get_toplevel(root: &XmlNode, nodename: &str) -> (r: Result<usize, CslError>)
    ensures
        match r {
            Ok(i) => tagged(root.children@, nodename@) == seq![i as int] && i
                < root.children@.len(),
            Err(e) => {
                let found = tagged(root.children@, nodename@).len();
                &&& found != 1
                &&& e.0@.len() == 1
                &&& e.0@[0].message@ == (if found == 0 {
                    "Must have one <...>"@
                } else {
                    "Cannot have more than one <"@ + nodename@ + ">"@
                })
            },
        },
{
    let matches = root.children_tagged(nodename);
    if matches.len() > 1 {
        Err(one_fault(fault_about("Cannot have more than one <", nodename, ">")))
    } else if matches.len() == 0 {
        Err(one_fault(fault("Must have one <...>")))
    } else {
        assert(tagged(root.children@, nodename@) =~= seq![matches@[0] as int]);
        Ok(matches[0])
    }
}

/// The language of a style that names none.
pub open spec fn default_lang() -> Seq<char> {
    "en-US"@
}

/// Whether `s` is the style that the node stands for, given what its
/// children with the tag `macro` stand for: these macros, defined one
/// after the other, and its one citation. Extensions are switched off.
pub open spec fn style_reads_with(node: &XmlNode, defs: Seq<MacroDef>, s: &Style) -> bool {
    let citations = tagged(node.children@, "citation"@);
    &&& children_read::<MacroDef>(node, "macro"@, defs)
    &&& s.macros@ == with_macros(Seq::empty(), defs)
    &&& citations.len() == 1
    &&& citation_reads(&node.children@[citations[0]], &s.citation)
    &&& s.features == (Features { condition_date_parts: false })
    &&& s.default_locale@ == (match node.spec_attribute("default-locale"@) {
        Some(lang) => lang,
        None => default_lang(),
    })
}

/// Whether `s` is the style that the node stands for: its macros, of two
/// with one name the later one, and its one citation.
pub open spec fn style_reads(node: &XmlNode, s: &Style) -> bool {
    exists|defs: Seq<MacroDef>| style_reads_with(node, defs, s)
}

/// Reads a style.
pub fn read_style(node: &XmlNode) -> (r: Result<Style, CslError>)
    ensures
        match r {
            Ok(s) => style_reads(node, &s),
            Err(e) => e.0@.len() > 0 && forall|s: Style| !style_reads(node, &s),
        },
{
    let defs = match read_children::<MacroDef>(node, "macro") {
        Ok(d) => d,
        Err(e) => {
            proof {
                assert forall|s: Style| !style_reads(node, &s) by {
                    if style_reads(node, &s) {
                        let other = choose|other: Seq<MacroDef>| style_reads_with(node, other, &s);
                        assert(children_read::<MacroDef>(node, "macro"@, other));
                    }
                }
            }
            return Err(e);
        },
    };
    let ghost all = defs@;
    let ghost n = all.len();
    let mut rest = crate::utils::reversed(defs);
    let mut macros: Vec<MacroDef> = Vec::new();
    assert(all.take(0) =~= Seq::<MacroDef>::empty());
    while rest.len() > 0
        invariant
            n == all.len(),
            rest@.len() <= n,
            rest@ == all.skip((n - rest@.len()) as int).reverse(),
            macros@ == with_macros(Seq::empty(), all.take((n - rest@.len()) as int)),
        decreases rest@.len(),
    {
        let ghost k = (n - rest@.len()) as int;
        let ghost before = rest@;
        let m = rest.pop().unwrap();
        proof {
            assert(m == before.last());
            assert(before.last() == all.skip(k)[0]);
            assert(all.take(k + 1).drop_last() =~= all.take(k));
            assert(all.take(k + 1).last() == all[k]);
            assert(rest@ =~= all.skip(k + 1).reverse());
        }
        insert_macro(&mut macros, m);
    }
    assert(all.take(n as int) =~= all);
    let place = match get_toplevel(node, "citation") {
        Ok(i) => i,
        Err(e) => {
            proof {
                assert forall|s: Style| !style_reads(node, &s) by {
                    if style_reads(node, &s) {
                        let other = choose|other: Seq<MacroDef>| style_reads_with(node, other, &s);
                    }
                }
            }
            return Err(e);
        },
    };
    let citation = match read_citation(&node.children[place]) {
        Ok(c) => c,
        Err(e) => {
            proof {
                assert forall|s: Style| !style_reads(node, &s) by {
                    if style_reads(node, &s) {
                        let other = choose|other: Seq<MacroDef>| style_reads_with(node, other, &s);
                        assert(citation_reads(&node.children@[place as int], &s.citation));
                    }
                }
            }
            return Err(e);
        },
    };
    let default_locale = match node.attribute("default-locale") {
        Some(lang) => String::from_str(lang),
        None => String::from_str("en-US"),
    };
    let style = Style {
        macros,
        citation,
        features: Features { condition_date_parts: false },
        default_locale,
    };
    assert(style_reads_with(node, all, &style));
    Ok(style)
}

/// Why a style could not be loaded from its text.
#[derive(Debug)]
pub enum StyleError {
    /// The text holds no document.
    ParseError(roxmltree::Error),
    /// The document is not a style.
    Invalid(CslError),
}

/// Whether the node stands for no style that can be used: it is read as
/// no style, or as one that calls a macro that it does not define.
pub open spec fn style_fails(node: &XmlNode) -> bool {
    ||| forall|s: Style| !style_reads(node, &s)
    ||| exists|s: Style| style_reads(node, &s) && !s.well_formed()
}

/// Loads a style from the root element of its document: the style is
/// read, and it is checked that every macro that it calls is defined.
pub fn load_style(node: &XmlNode) -> (r: Result<Style, CslError>)
    ensures
        match r {
            Ok(s) => style_reads(node, &s) && s.well_formed(),
            Err(e) => e.0@.len() > 0 && style_fails(node),
        },
{
    match read_style(node) {
        Ok(s) => {
            if s.validate() {
                Ok(s)
            } else {
                Err(one_fault(fault("Style calls a macro that it does not define.")))
            }
        },
        Err(e) => Err(e),
    }
}

/// Whether `s` is a style that the text stands for, with every macro that
/// it calls defined.
pub open spec fn style_text_reads(text: Seq<char>, s: Style) -> bool {
    &&& s.well_formed()
    &&& exists|node: XmlNode| document_reads(text, node) && style_reads(&node, &s)
}

/// Whether `e` says why the text stands for no style: it holds no
/// document, or the root element of its document stands for no style that
/// can be used.
pub open spec fn style_text_fails(text: Seq<char>, e: StyleError) -> bool {
    match e {
        StyleError::ParseError(_) => xml_records(text) is None,
        StyleError::Invalid(faults) => {
            &&& faults.0@.len() > 0
            &&& exists|node: XmlNode| document_reads(text, node) && style_fails(&node)
        },
    }
}

/// Loads a style from its text.
pub fn style_from_text(text: &str) -> (r: Result<Style, StyleError>)
    ensures
        match r {
            Ok(s) => style_text_reads(text@, s),
            Err(e) => style_text_fails(text@, e),
        },
{
    match parse_document(text) {
        Ok(node) => match load_style(&node) {
            Ok(s) => Ok(s),
            Err(faults) => Err(StyleError::Invalid(faults)),
        },
        Err(e) => Err(StyleError::ParseError(e)),
    }
}

} // verus!
