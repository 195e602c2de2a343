//! Reading how names and dates are laid out.

use vstd::prelude::*;
use crate::from_node::{attribute_names, disallow_default, FromNode, IsOnNode};
use crate::names::Named;
use crate::numeric::{all_digits, chars_of, digit_value, digits_value, is_digit};
use crate::style::{
    Affixes,
    DateForm,
    DatePart,
    DatePartForm,
    DatePartName,
    DateParts,
    DayForm,
    DelimiterPrecedes,
    LocaleDate,
    LocalizedDate,
    MonthForm,
    Name,
    NameAsSortOrder,
    NameForm,
    NamePart,
    NamePartName,
    RangeDelimiter,
    TextCase,
    YearForm,
};
use crate::style_reader::{
    affixes_read,
    attribute_flag,
    attribute_optional,
    attribute_or,
    attribute_required,
    fault,
    formatting_reads,
    named_or,
    named_reads,
    one_fault,
    read_affixes,
    read_formatting,
};
use crate::style_rules::{names_in_group, spec_attribute_bool, AttributeGroup, CslError, InvalidCsl};
use crate::variables::DateVariable;
use crate::xml::{tagged, XmlNode};

verus! {

// ---------------------------------------------------------------------------
// Numbers in attributes
// ---------------------------------------------------------------------------

/// The number that a text writes in decimal digits, if it writes one that
/// fits in 32 bits.
pub open spec fn uint_of(v: Seq<char>) -> Option<u32> {
    if v.len() > 0 && all_digits(v) && digits_value(v) <= u32::MAX {
        Some(digits_value(v) as u32)
    } else {
        None
    }
}

/// What an attribute that holds a number is read as: the default where it
/// is absent, nothing where it holds no number.
pub open spec fn spec_attribute_int(value: Option<Seq<char>>, default: u32) -> Option<u32> {
    match value {
        None => Some(default),
        Some(v) => uint_of(v),
    }
}

proof fn lemma_digits_grow(w: Seq<char>, k: int)
    requires
        0 <= k <= w.len(),
    ensures
        digits_value(w.take(k)) <= digits_value(w),
    decreases w.len() - k,
{
    if k == w.len() {
        assert(w.take(k) =~= w);
    } else {
        assert(w.drop_last().take(k) =~= w.take(k));
        lemma_digits_grow(w.drop_last(), k);
        assert(digits_value(w) >= digits_value(w.drop_last())) by (nonlinear_arith)
            requires
                digits_value(w) == digits_value(w.drop_last()) * 10 + digit_value(w.last()),
        ;
    }
}

/// Reads a number in decimal digits.
pub fn read_uint(s: &str) -> (r: Option<u32>)
    ensures
        r == uint_of(s@),
{
    let chars = chars_of(s);
    let n = chars.len();
    if n == 0 {
        return None;
    }
    let ghost w = chars@;
    let mut value: u64 = 0;
    let mut i: usize = 0;
    assert(w.take(0) =~= Seq::<char>::empty());
    while i < n
        invariant
            i <= n,
            n == w.len(),
            w == chars@,
            w == s@,
            all_digits(w.take(i as int)),
            value == digits_value(w.take(i as int)),
            value <= u32::MAX,
        decreases n - i,
    {
        let c = chars[i];
        proof {
            assert(w.take(i + 1).drop_last() =~= w.take(i as int));
            assert(w.take(i + 1).last() == c);
        }
        if !(c >= '0' && c <= '9') {
            assert(!is_digit(w[i as int]));
            return None;
        }
        let d: u64 = (c as u32 - '0' as u32) as u64;
        value = value * 10 + d;
        if value > 4294967295 {
            proof {
                lemma_digits_grow(w, i + 1);
            }
            return None;
        }
        proof {
            assert forall|j: int| 0 <= j < i + 1 implies is_digit(#[trigger] w.take(i + 1)[j]) by {
                if j < i {
                    assert(w.take(i as int)[j] == w[j]);
                }
            }
        }
        i = i + 1;
    }
    assert(w.take(n as int) =~= w);
    Some(value as u32)
}

/// Reads an attribute that holds a number.
pub fn attribute_int(node: &XmlNode, name: &str, default: u32) -> (r: Result<u32, InvalidCsl>)
    ensures
        match r {
            Ok(n) => spec_attribute_int(node.spec_attribute(name@), default) == Some(n),
            Err(_) => spec_attribute_int(node.spec_attribute(name@), default) is None,
        },
{
    match node.attribute(name) {
        None => Ok(default),
        Some(v) => match read_uint(v) {
            Some(n) => Ok(n),
            None => Err(fault("Invalid integer.")),
        },
    }
}

// ---------------------------------------------------------------------------
// Dates
// ---------------------------------------------------------------------------

/// Whether `r` holds what the node gives to stand between the ends of a range.
pub open spec fn range_delimiter_reads(node: &XmlNode, r: &RangeDelimiter) -> bool {
    r.0@ == node.spec_attribute_string("range-delimiter"@)
}

pub fn read_range_delimiter(node: &XmlNode) -> (r: RangeDelimiter)
    ensures
        range_delimiter_reads(node, &r),
{
    RangeDelimiter(node.attribute_string("range-delimiter"))
}

/// The part of a date that a form belongs to.
pub open spec fn part_name(form: DatePartForm) -> DatePartName {
    match form {
        DatePartForm::Year(_) => DatePartName::Year,
        DatePartForm::Month(_) => DatePartName::Month,
        DatePartForm::Day(_) => DatePartName::Day,
    }
}

/// Whether `form` is the part and the form that the node names. A year
/// and a month are long, and a day is a plain number, where the node names
/// no form.
pub open spec fn part_form_reads(node: &XmlNode, form: DatePartForm) -> bool {
    &&& node.spec_attribute("name"@) == Some(part_name(form).spec_name())
    &&& match form {
        DatePartForm::Year(f) => named_or(node.spec_attribute("form"@), YearForm::Long, f),
        DatePartForm::Month(f) => named_or(node.spec_attribute("form"@), MonthForm::Long, f),
        DatePartForm::Day(f) => named_or(node.spec_attribute("form"@), DayForm::Numeric, f),
    }
}

/// Whether the node has neither a prefix nor a suffix.
pub open spec fn without_affixes(node: &XmlNode) -> bool {
    names_in_group(AttributeGroup::Affixes, attribute_names(node)).len() == 0
}

/// Whether `p` is the part of a date that the node stands for. Where the
/// part is not `full`, as in the dates of a locale, it may have no affixes.
pub open spec fn date_part_reads(node: &XmlNode, full: bool, p: &DatePart) -> bool {
    &&& part_form_reads(node, p.form)
    &&& if full {
        affixes_read(node, &p.affixes)
    } else {
        without_affixes(node) && p.affixes.prefix@.len() == 0 && p.affixes.suffix@.len() == 0
    }
    &&& formatting_reads(node, p.formatting)
    &&& named_or(node.spec_attribute("text-case"@), TextCase::Unchanged, p.text_case)
    &&& range_delimiter_reads(node, &p.range_delimiter)
}

fn read_part_form(node: &XmlNode) -> (r: Result<DatePartForm, InvalidCsl>)
    ensures
        match r {
            Ok(form) => part_form_reads(node, form),
            Err(_) => forall|form: DatePartForm| !part_form_reads(node, form),
        },
{
    let name = match attribute_required::<DatePartName>(node, "name") {
        Ok(n) => n,
        Err(e) => {
            proof {
                assert forall|form: DatePartForm| !part_form_reads(node, form) by {
                    let n = part_name(form);
                    assert(n.spec_name() == n.spec_name());
                }
            }
            return Err(e);
        },
    };
    proof {
        assert(DatePartName::Year.spec_name() == "year"@);
        assert(DatePartName::Month.spec_name() == "month"@);
        assert(DatePartName::Day.spec_name() == "day"@);
        lemma_part_names_differ();
    }
    match name {
        DatePartName::Year => match attribute_or::<YearForm>(node, "form", YearForm::Long) {
            Ok(f) => Ok(DatePartForm::Year(f)),
            Err(e) => Err(e),
        },
        DatePartName::Month => match attribute_or::<MonthForm>(node, "form", MonthForm::Long) {
            Ok(f) => Ok(DatePartForm::Month(f)),
            Err(e) => Err(e),
        },
        DatePartName::Day => match attribute_or::<DayForm>(node, "form", DayForm::Numeric) {
            Ok(f) => Ok(DatePartForm::Day(f)),
            Err(e) => Err(e),
        },
    }
}

/// The three parts of a date have three names.
proof fn lemma_part_names_differ()
    ensures
        DatePartName::Year.spec_name() != DatePartName::Month.spec_name(),
        DatePartName::Year.spec_name() != DatePartName::Day.spec_name(),
        DatePartName::Month.spec_name() != DatePartName::Day.spec_name(),
{
    reveal_strlit("year");
    reveal_strlit("month");
    reveal_strlit("day");
    assert("year"@[0] != "month"@[0]);
    assert("year"@[0] != "day"@[0]);
    assert("month"@[0] != "day"@[0]);
}

/// Reads a part of a date.
pub fn read_date_part(node: &XmlNode, full: bool) -> (r: Result<DatePart, CslError>)
    ensures
        match r {
            Ok(p) => date_part_reads(node, full, &p),
            Err(e) => e.0@.len() > 0 && forall|p: DatePart| !date_part_reads(node, full, &p),
        },
{
    let form = match read_part_form(node) {
        Ok(f) => f,
        Err(e) => {
            return Err(one_fault(e));
        },
    };
    let affixes = match disallow_default::<Affixes>(node, !full) {
        Ok(Some(a)) => a,
        Ok(None) => Affixes::default(),
        Err(e) => {
            proof {
                assert(<Affixes as IsOnNode>::group() == AttributeGroup::Affixes);
                assert forall|p: DatePart| !date_part_reads(node, full, &p) by {
                    if full {
                        assert(!<Affixes as FromNode>::reads(node, &p.affixes));
                    }
                }
            }
            return Err(e);
        },
    };
    assert(<Affixes as IsOnNode>::group() == AttributeGroup::Affixes);
    let formatting = match read_formatting(node) {
        Ok(f) => f,
        Err(e) => {
            return Err(one_fault(e));
        },
    };
    let text_case = match attribute_or::<TextCase>(node, "text-case", TextCase::Unchanged) {
        Ok(c) => c,
        Err(e) => {
            return Err(one_fault(e));
        },
    };
    let range_delimiter = read_range_delimiter(node);
    Ok(DatePart { form, affixes, formatting, text_case, range_delimiter })
}

/// Whether `parts` are the parts of a date inside a node: what its
/// children with the tag `date-part` stand for, in order.
pub open spec fn date_parts_read(node: &XmlNode, full: bool, parts: Seq<DatePart>) -> bool {
    let places = tagged(node.children@, "date-part"@);
    &&& parts.len() == places.len()
    &&& forall|k: int|
        0 <= k < places.len() ==> date_part_reads(
            &node.children@[places[k]],
            full,
            &(#[trigger] parts[k]),
        )
}

/// Reads the parts of a date inside a node.
pub fn read_date_parts(node: &XmlNode, full: bool) -> (r: Result<Vec<DatePart>, CslError>)
    ensures
        match r {
            Ok(parts) => date_parts_read(node, full, parts@),
            Err(e) => e.0@.len() > 0 && forall|parts: Seq<DatePart>|
                !date_parts_read(node, full, parts),
        },
{
    let places = node.children_tagged("date-part");
    let ghost want = tagged(node.children@, "date-part"@);
    let mut parts: Vec<DatePart> = Vec::new();
    let mut k: usize = 0;
    while k < places.len()
        invariant
            k <= places@.len(),
            want == tagged(node.children@, "date-part"@),
            places@.len() == want.len(),
            forall|j: int| 0 <= j < places@.len() ==> places@[j] == want[j],
            forall|j: int| 0 <= j < places@.len() ==> places@[j] < node.children@.len(),
            parts@.len() == k,
            forall|j: int|
                0 <= j < k ==> date_part_reads(
                    &node.children@[want[j]],
                    full,
                    &(#[trigger] parts@[j]),
                ),
        decreases places@.len() - k,
    {
        match read_date_part(&node.children[places[k]], full) {
            Ok(p) => {
                parts.push(p);
            },
            Err(e) => {
                proof {
                    assert forall|other: Seq<DatePart>| !date_parts_read(node, full, other) by {
                        if date_parts_read(node, full, other) {
                            assert(date_part_reads(
                                &node.children@[want[k as int]],
                                full,
                                &other[k as int],
                            ));
                        }
                    }
                }
                return Err(e);
            },
        }
        k = k + 1;
    }
    Ok(parts)
}

/// Whether `d` is the layout of dates that the node of a locale stands for.
pub open spec fn locale_date_reads(node: &XmlNode, d: &LocaleDate) -> bool {
    &&& node.spec_attribute("form"@) == Some(d.form.spec_name())
    &&& date_parts_read(node, false, d.date_parts@)
    &&& d.delimiter@ == node.spec_attribute_string("delimiter"@)
    &&& named_or(node.spec_attribute("text-case"@), TextCase::Unchanged, d.text_case)
}

impl FromNode for LocaleDate {
    open spec fn reads(node: &XmlNode, value: &LocaleDate) -> bool {
        locale_date_reads(node, value)
    }

    fn from_node(node: &XmlNode) -> (r: Result<LocaleDate, CslError>) {
        let date_parts = match read_date_parts(node, false) {
            Ok(p) => p,
            Err(e) => {
                proof {
                    assert forall|d: LocaleDate| !locale_date_reads(node, &d) by {
                        assert(!date_parts_read(node, false, d.date_parts@));
                    }
                }
                return Err(e);
            },
        };
        let form = match attribute_required::<DateForm>(node, "form") {
            Ok(f) => f,
            Err(e) => {
                return Err(one_fault(e));
            },
        };
        let delimiter = node.attribute_string("delimiter");
        let text_case = match attribute_or::<TextCase>(node, "text-case", TextCase::Unchanged) {
            Ok(c) => c,
            Err(e) => {
                return Err(one_fault(e));
            },
        };
        Ok(LocaleDate { form, date_parts, delimiter, text_case })
    }
}

/// Whether `d` is the date, laid out as the locale has it, that the node
/// stands for. All three parts are shown where the node selects none.
pub open spec fn localized_date_reads(node: &XmlNode, d: &LocalizedDate) -> bool {
    &&& node.spec_attribute("variable"@) == Some(d.variable.spec_name())
    &&& named_or(node.spec_attribute("date-parts"@), DateParts::YearMonthDay, d.parts_selector)
    &&& node.spec_attribute("form"@) == Some(d.form.spec_name())
    &&& affixes_read(node, &d.affixes)
    &&& formatting_reads(node, d.formatting)
    &&& named_or(node.spec_attribute("text-case"@), TextCase::Unchanged, d.text_case)
}

impl FromNode for LocalizedDate {
    open spec fn reads(node: &XmlNode, value: &LocalizedDate) -> bool {
        localized_date_reads(node, value)
    }

    fn from_node(node: &XmlNode) -> (r: Result<LocalizedDate, CslError>) {
        let variable = match attribute_required::<DateVariable>(node, "variable") {
            Ok(v) => v,
            Err(e) => {
                return Err(one_fault(e));
            },
        };
        let parts_selector = match attribute_or::<DateParts>(
            node,
            "date-parts",
            DateParts::YearMonthDay,
        ) {
            Ok(p) => p,
            Err(e) => {
                return Err(one_fault(e));
            },
        };
        let form = match attribute_required::<DateForm>(node, "form") {
            Ok(f) => f,
            Err(e) => {
                return Err(one_fault(e));
            },
        };
        let affixes = read_affixes(node);
        let formatting = match read_formatting(node) {
            Ok(f) => f,
            Err(e) => {
                return Err(one_fault(e));
            },
        };
        let text_case = match attribute_or::<TextCase>(node, "text-case", TextCase::Unchanged) {
            Ok(c) => c,
            Err(e) => {
                return Err(one_fault(e));
            },
        };
        Ok(LocalizedDate { variable, parts_selector, form, affixes, formatting, text_case })
    }
}

// ---------------------------------------------------------------------------
// Names
// ---------------------------------------------------------------------------

/// Whether `p` is what the node says of one part of a name.
pub open spec fn name_part_reads(node: &XmlNode, p: &NamePart) -> bool {
    &&& node.spec_attribute("name"@) == Some(p.name.spec_name())
    &&& named_or(node.spec_attribute("text-case"@), TextCase::Unchanged, p.text_case)
    &&& formatting_reads(node, p.formatting)
}

impl FromNode for NamePart {
    open spec fn reads(node: &XmlNode, value: &NamePart) -> bool {
        name_part_reads(node, value)
    }

    fn from_node(node: &XmlNode) -> (r: Result<NamePart, CslError>) {
        let name = match attribute_required::<NamePartName>(node, "name") {
            Ok(n) => n,
            Err(e) => {
                return Err(one_fault(e));
            },
        };
        let text_case = match attribute_or::<TextCase>(node, "text-case", TextCase::Unchanged) {
            Ok(c) => c,
            Err(e) => {
                return Err(one_fault(e));
            },
        };
        let formatting = match read_formatting(node) {
            Ok(f) => f,
            Err(e) => {
                return Err(one_fault(e));
            },
        };
        Ok(NamePart { name, text_case, formatting })
    }
}

/// Whether `n` is how the node wants the names of a list shown. Texts
/// that the node does not give are empty, and numbers are 0. Names are
/// long, initials are made, and "et al." is not followed by a last name,
/// where the node says nothing else.
pub open spec fn name_reads(node: &XmlNode, n: &Name) -> bool {
    &&& n.and@ == node.spec_attribute_string("and"@)
    &&& n.delimiter@ == node.spec_attribute_string("delimiter"@)
    &&& named_or(
        node.spec_attribute("delimiter-precedes-et-al"@),
        DelimiterPrecedes::Contextual,
        n.delimiter_precedes_et_al,
    )
    &&& named_or(
        node.spec_attribute("delimiter-precedes-last"@),
        DelimiterPrecedes::Contextual,
        n.delimiter_precedes_last,
    )
    &&& spec_attribute_int(node.spec_attribute("et-al-min"@), 0) == Some(n.et_al_min)
    &&& spec_attribute_int(node.spec_attribute("et-al-use-first"@), 0) == Some(n.et_al_use_first)
    &&& spec_attribute_int(node.spec_attribute("et-al-subsequent-min"@), 0) == Some(
        n.et_al_subsequent_min,
    )
    &&& spec_attribute_int(node.spec_attribute("et-al-subsequent-use-first"@), 0) == Some(
        n.et_al_subsequent_use_first,
    )
    &&& spec_attribute_bool(node.spec_attribute("et-al-use-last"@), false) == Some(n.et_al_use_last)
    &&& named_or(node.spec_attribute("form"@), NameForm::Long, n.form)
    &&& spec_attribute_bool(node.spec_attribute("initialize"@), true) == Some(n.initialize)
    &&& n.initialize_with@ == node.spec_attribute_string("initialize-with"@)
    &&& named_reads(node.spec_attribute("name-as-sort-order"@), n.name_as_sort_order)
    &&& n.sort_separator@ == node.spec_attribute_string("sort-separator"@)
    &&& formatting_reads(node, n.formatting)
    &&& affixes_read(node, &n.affixes)
}

/// The two attributes on when a delimiter stands.
fn read_delimiter_precedes(node: &XmlNode) -> (r: Result<
    (DelimiterPrecedes, DelimiterPrecedes),
    InvalidCsl,
>)
    ensures
        match r {
            Ok(p) => {
                &&& named_or(
                    node.spec_attribute("delimiter-precedes-et-al"@),
                    DelimiterPrecedes::Contextual,
                    p.0,
                )
                &&& named_or(
                    node.spec_attribute("delimiter-precedes-last"@),
                    DelimiterPrecedes::Contextual,
                    p.1,
                )
            },
            Err(_) => forall|n: Name| !name_reads(node, &n),
        },
{
    let et_al = match attribute_or::<DelimiterPrecedes>(
        node,
        "delimiter-precedes-et-al",
        DelimiterPrecedes::Contextual,
    ) {
        Ok(d) => d,
        Err(e) => {
            return Err(e);
        },
    };
    match attribute_or::<DelimiterPrecedes>(
        node,
        "delimiter-precedes-last",
        DelimiterPrecedes::Contextual,
    ) {
        Ok(last) => Ok((et_al, last)),
        Err(e) => Err(e),
    }
}

/// The four numbers on when a list is cut short.
fn read_et_al(node: &XmlNode) -> (r: Result<(u32, u32, u32, u32), InvalidCsl>)
    ensures
        match r {
            Ok(n) => {
                &&& spec_attribute_int(node.spec_attribute("et-al-min"@), 0) == Some(n.0)
                &&& spec_attribute_int(node.spec_attribute("et-al-use-first"@), 0) == Some(n.1)
                &&& spec_attribute_int(node.spec_attribute("et-al-subsequent-min"@), 0) == Some(n.2)
                &&& spec_attribute_int(node.spec_attribute("et-al-subsequent-use-first"@), 0)
                    == Some(n.3)
            },
            Err(_) => forall|n: Name| !name_reads(node, &n),
        },
{
    let min = match attribute_int(node, "et-al-min", 0) {
        Ok(n) => n,
        Err(e) => {
            return Err(e);
        },
    };
    let use_first = match attribute_int(node, "et-al-use-first", 0) {
        Ok(n) => n,
        Err(e) => {
            return Err(e);
        },
    };
    let subsequent_min = match attribute_int(node, "et-al-subsequent-min", 0) {
        Ok(n) => n,
        Err(e) => {
            return Err(e);
        },
    };
    match attribute_int(node, "et-al-subsequent-use-first", 0) {
        Ok(subsequent_use_first) => Ok((min, use_first, subsequent_min, subsequent_use_first)),
        Err(e) => Err(e),
    }
}

/// Reads how the names of a list are shown.
pub fn read_name(node: &XmlNode) -> (r: Result<Name, InvalidCsl>)
    ensures
        match r {
            Ok(n) => name_reads(node, &n),
            Err(_) => forall|n: Name| !name_reads(node, &n),
        },
{
    let and = node.attribute_string("and");
    let delimiter = node.attribute_string("delimiter");
    let (delimiter_precedes_et_al, delimiter_precedes_last) = match read_delimiter_precedes(node) {
        Ok(p) => p,
        Err(e) => {
            return Err(e);
        },
    };
    let (et_al_min, et_al_use_first, et_al_subsequent_min, et_al_subsequent_use_first) =
        match read_et_al(node) {
        Ok(n) => n,
        Err(e) => {
            return Err(e);
        },
    };
    let et_al_use_last = match attribute_flag(node, "et-al-use-last", false) {
        Ok(b) => b,
        Err(e) => {
            return Err(e);
        },
    };
    let form = match attribute_or::<NameForm>(node, "form", NameForm::Long) {
        Ok(f) => f,
        Err(e) => {
            return Err(e);
        },
    };
    let initialize = match attribute_flag(node, "initialize", true) {
        Ok(b) => b,
        Err(e) => {
            return Err(e);
        },
    };
    let initialize_with = node.attribute_string("initialize-with");
    let name_as_sort_order = match attribute_optional::<NameAsSortOrder>(node, "name-as-sort-order") {
        Ok(o) => o,
        Err(e) => {
            return Err(e);
        },
    };
    let sort_separator = node.attribute_string("sort-separator");
    let formatting = match read_formatting(node) {
        Ok(f) => f,
        Err(e) => {
            return Err(e);
        },
    };
    let affixes = read_affixes(node);
    Ok(
        Name {
            and,
            delimiter,
            delimiter_precedes_et_al,
            delimiter_precedes_last,
            et_al_min,
            et_al_use_first,
            et_al_subsequent_min,
            et_al_subsequent_use_first,
            et_al_use_last,
            form,
            initialize,
            initialize_with,
            name_as_sort_order,
            sort_separator,
            formatting,
            affixes,
        },
    )
}

impl FromNode for Name {
    open spec fn reads(node: &XmlNode, value: &Name) -> bool {
        name_reads(node, value)
    }

    fn from_node(node: &XmlNode) -> (r: Result<Name, CslError>) {
        match read_name(node) {
            Ok(n) => Ok(n),
            Err(e) => Err(one_fault(e)),
        }
    }
}

} // verus!
