//! The tree of a style: what to render, in which order, under which conditions.
//!
//! A style is read-only while citations are evaluated. Macros are kept by
//! name and looked up when a text element calls one.

use vstd::prelude::*;
use std::sync::Arc;
use crate::terms::{LocatorType, TermForm, TermFormExtended, TextTermSelector};
use crate::variables::{AnyVariable, DateVariable, NameVariable, NumberVariable, StandardVariable};

verus! {

/// Text put before and after what an element renders.
#[derive(Debug, PartialEq, Eq)]
pub struct Affixes {
    pub prefix: String,
    pub suffix: String,
}

impl Default for Affixes {
    fn default() -> (a: Affixes)
        ensures
            a.prefix@.len() == 0,
            a.suffix@.len() == 0,
    {
        Affixes { prefix: String::new(), suffix: String::new() }
    }
}

impl Clone for Affixes {
    fn clone(&self) -> (a: Affixes)
        ensures
            a.prefix@ == self.prefix@,
            a.suffix@ == self.suffix@,
    {
        Affixes { prefix: self.prefix.clone(), suffix: self.suffix.clone() }
    }
}

#[derive(Copy, Clone, PartialEq, Eq, Hash, Debug, Structural)]
pub enum FontStyle {
    Normal,
    Italic,
    Oblique,
}

#[derive(Copy, Clone, PartialEq, Eq, Hash, Debug, Structural)]
pub enum FontVariant {
    Normal,
    SmallCaps,
}

#[derive(Copy, Clone, PartialEq, Eq, Hash, Debug, Structural)]
pub enum FontWeight {
    Normal,
    Bold,
    Light,
}

#[derive(Copy, Clone, PartialEq, Eq, Hash, Debug, Structural)]
pub enum TextDecoration {
    Plain,
    Underline,
}

#[derive(Copy, Clone, PartialEq, Eq, Hash, Debug, Structural)]
pub enum VerticalAlignment {
    Baseline,
    Superscript,
    Subscript,
}

/// How text is set. A field that is `None` leaves the surrounding setting as it is.
#[derive(Copy, Clone, PartialEq, Eq, Hash, Debug, Structural)]
pub struct Formatting {
    pub font_style: Option<FontStyle>,
    pub font_variant: Option<FontVariant>,
    pub font_weight: Option<FontWeight>,
    pub text_decoration: Option<TextDecoration>,
    pub vertical_alignment: Option<VerticalAlignment>,
}

impl Formatting {
    /// Formatting that changes nothing.
    pub fn plain() -> (f: Formatting)
        ensures
            f == (Formatting {
                font_style: None,
                font_variant: None,
                font_weight: None,
                text_decoration: None,
                vertical_alignment: None,
            }),
    {
        Formatting {
            font_style: None,
            font_variant: None,
            font_weight: None,
            text_decoration: None,
            vertical_alignment: None,
        }
    }
}

#[derive(Copy, Clone, PartialEq, Eq, Hash, Debug, Structural)]
pub enum TextCase {
    Unchanged,
    Lowercase,
    Uppercase,
    CapitalizeFirst,
    CapitalizeAll,
    Sentence,
    Title,
}

#[derive(Copy, Clone, PartialEq, Eq, Hash, Debug, Structural)]
pub enum VariableForm {
    Long,
    Short,
}

#[derive(Copy, Clone, PartialEq, Eq, Hash, Debug, Structural)]
pub enum NumericForm {
    Numeric,
    Ordinal,
    LongOrdinal,
    Roman,
}

/// Whether a label is written in the plural.
#[derive(Copy, Clone, PartialEq, Eq, Hash, Debug, Structural)]
pub enum Plural {
    /// As the value that it labels: plural where that holds several numbers or names.
    Contextual,
    Always,
    Never,
}

/// How the results of several tests are combined into one.
#[derive(Copy, Clone, PartialEq, Eq, Hash, Debug, Structural)]
pub enum Match {
    /// Every test is true.
    All,
    /// At least one test is true.
    Any,
    /// Every test is false.
    Neither,
    /// At least one test is false.
    Nand,
}

/// Where a cite stands in relation to earlier cites of the same reference.
#[derive(Copy, Clone, PartialEq, Eq, Hash, Debug, Structural)]
pub enum Position {
    First,
    Ibid,
    IbidWithLocator,
    Subsequent,
    NearNote,
    FarNote,
}

impl Position {
    /// Whether a cite at this position passes a test for `tested`.
    ///
    /// A position passes the test for itself. A cite that repeats the one
    /// just before it is also a subsequent cite, with or without locator,
    /// and one with a locator also passes the test without. A cite near or
    /// far from the last one is a subsequent cite too.
    pub open spec fn spec_matches(self, tested: Position) -> bool {
        ||| self == tested
        ||| self == Position::IbidWithLocator && tested == Position::Ibid
        ||| self == Position::IbidWithLocator && tested == Position::Subsequent
        ||| self == Position::Ibid && tested == Position::Subsequent
        ||| self == Position::NearNote && tested == Position::Subsequent
        ||| self == Position::FarNote && tested == Position::Subsequent
    }

    #[verifier::when_used_as_spec(spec_matches)]
    pub fn matches(self, tested: Position) -> (b: bool)
        ensures
            b == self.spec_matches(tested),
    {
        match (self, tested) {
            (Position::IbidWithLocator, Position::Ibid) => true,
            (Position::IbidWithLocator, Position::Subsequent) => true,
            (Position::Ibid, Position::Subsequent) => true,
            (Position::NearNote, Position::Subsequent) => true,
            (Position::FarNote, Position::Subsequent) => true,
            (x, y) => x == y,
        }
    }
}

/// The kind of work that a reference describes.
#[derive(Copy, Clone, PartialEq, Eq, Hash, Debug, Structural)]
pub enum CslType {
    Article,
    ArticleMagazine,
    ArticleNewspaper,
    ArticleJournal,
    Bill,
    Book,
    Broadcast,
    Chapter,
    Dataset,
    Entry,
    EntryDictionary,
    EntryEncyclopedia,
    Figure,
    Graphic,
    Interview,
    Legislation,
    LegalCase,
    Manuscript,
    Chart,
    MotionPicture,
    MusicalScore,
    Pamphlet,
    PaperConference,
    Patent,
    Post,
    PostWeblog,
    PersonalCommunication,
    Report,
    Review,
    ReviewBook,
    Song,
    Speech,
    Thesis,
    Treaty,
    Webpage,
}

/// One test of a condition.
#[derive(Copy, Clone, PartialEq, Eq, Hash, Debug, Structural)]
pub enum Cond {
    /// The variable has a value.
    Variable(AnyVariable),
    /// The variable has a numeric value.
    IsNumeric(AnyVariable),
    /// The cite is being told apart from another by its conditions.
    Disambiguate(bool),
    /// The reference is of this type.
    Type(CslType),
    /// The cite stands at this position.
    Position(Position),
    /// The cite gives a locator of this type.
    Locator(LocatorType),
    /// The date has years only.
    HasYearOnly(DateVariable),
    /// The date has a month or a season.
    HasMonthOrSeason(DateVariable),
    /// The date has a day.
    HasDay(DateVariable),
    /// The date is approximate. No reference says so yet: the test takes no side.
    IsUncertainDate(DateVariable),
}

/// Tests and the way to combine them.
#[derive(Debug, PartialEq, Eq)]
pub struct CondSet {
    pub match_type: Match,
    pub conds: Vec<Cond>,
}

/// Sets of tests and the way to combine the sets.
#[derive(Debug, PartialEq, Eq)]
pub struct Conditions(pub Match, pub Vec<CondSet>);

/// A branch with conditions: what to render where they hold.
#[derive(Debug, PartialEq, Eq)]
pub struct IfThen(pub Conditions, pub Vec<Element>);

/// The branch that is taken where no other is.
#[derive(Debug, PartialEq, Eq)]
pub struct Else(pub Vec<Element>);

/// Branches in the order in which they are tried, and the fallback.
#[derive(Debug, PartialEq, Eq)]
pub struct Choose(pub IfThen, pub Vec<IfThen>, pub Else);

/// Where the text of a text element comes from.
#[derive(Debug, PartialEq, Eq)]
pub enum TextSource {
    /// The elements of the macro of this name.
    Macro(String),
    /// The text itself.
    Value(String),
    /// A variable of the reference or the cite.
    Variable(StandardVariable, VariableForm),
    /// A term of the locale, in the singular or the plural.
    Term(TextTermSelector, bool),
}

#[derive(Debug, PartialEq, Eq)]
pub struct TextElement {
    pub source: TextSource,
    pub formatting: Option<Formatting>,
    pub affixes: Affixes,
    pub quotes: bool,
    pub text_case: TextCase,
}

#[derive(Debug, PartialEq, Eq)]
pub struct LabelElement {
    pub variable: NumberVariable,
    pub form: TermForm,
    pub formatting: Option<Formatting>,
    pub affixes: Affixes,
    pub plural: Plural,
    pub text_case: TextCase,
}

#[derive(Debug, PartialEq, Eq)]
pub struct NumberElement {
    pub variable: NumberVariable,
    pub form: NumericForm,
    pub formatting: Option<Formatting>,
    pub affixes: Affixes,
    pub text_case: TextCase,
}

/// The label of a list of names, such as "editor" or "eds.".
#[derive(Debug, PartialEq, Eq)]
pub struct NameLabel {
    pub form: TermFormExtended,
    pub formatting: Option<Formatting>,
    pub plural: Plural,
    pub affixes: Affixes,
    pub after_name: bool,
    pub strip_periods: bool,
    pub text_case: TextCase,
}

#[derive(Debug, PartialEq, Eq)]
pub struct Names {
    pub variables: Vec<NameVariable>,
    pub names: Vec<Name>,
    pub label: Option<NameLabel>,
    pub formatting: Option<Formatting>,
    pub delimiter: String,
    pub affixes: Affixes,
    pub substitute: Option<Substitute>,
}

/// What is rendered in place of names that are absent.
#[derive(Debug, PartialEq, Eq)]
pub struct Substitute(pub Vec<Element>);

#[derive(Debug, PartialEq, Eq)]
pub struct Group {
    pub formatting: Option<Formatting>,
    pub delimiter: String,
    pub affixes: Affixes,
    pub elements: Vec<Element>,
}

/// What stands between the two ends of a range.
#[derive(Debug, PartialEq, Eq)]
pub struct RangeDelimiter(pub String);

/// The part of a date that a date part shows.
#[derive(Copy, Clone, PartialEq, Eq, Hash, Debug, Structural)]
pub enum DatePartName {
    Year,
    Month,
    Day,
}

#[derive(Copy, Clone, PartialEq, Eq, Hash, Debug, Structural)]
pub enum YearForm {
    Long,
    Short,
}

#[derive(Copy, Clone, PartialEq, Eq, Hash, Debug, Structural)]
pub enum MonthForm {
    Long,
    Short,
    Numeric,
    NumericLeadingZeros,
}

#[derive(Copy, Clone, PartialEq, Eq, Hash, Debug, Structural)]
pub enum DayForm {
    Numeric,
    NumericLeadingZeros,
    Ordinal,
}

/// A part of a date with the form in which it is shown.
#[derive(Copy, Clone, PartialEq, Eq, Hash, Debug, Structural)]
pub enum DatePartForm {
    Year(YearForm),
    Month(MonthForm),
    Day(DayForm),
}

/// How a part of a date is shown.
#[derive(Debug, PartialEq, Eq)]
pub struct DatePart {
    pub form: DatePartForm,
    pub affixes: Affixes,
    pub formatting: Option<Formatting>,
    pub text_case: TextCase,
    pub range_delimiter: RangeDelimiter,
}

/// The parts of a date that are shown.
#[derive(Copy, Clone, PartialEq, Eq, Hash, Debug, Structural)]
pub enum DateParts {
    YearMonthDay,
    YearMonth,
    Year,
}

/// The form of a date that a locale lays out.
#[derive(Copy, Clone, PartialEq, Eq, Hash, Debug, Structural)]
pub enum DateForm {
    Text,
    Numeric,
}

/// A date that the style lays out itself, part by part.
#[derive(Debug, PartialEq, Eq)]
pub struct DateElement {
    pub variable: DateVariable,
    pub date_parts: Vec<DatePart>,
    pub text_case: TextCase,
    pub parts_selector: DateParts,
    pub formatting: Option<Formatting>,
    pub affixes: Affixes,
    pub delimiter: String,
}

/// The layout of dates of one form in a locale.
#[derive(Debug, PartialEq, Eq)]
pub struct LocaleDate {
    pub form: DateForm,
    pub date_parts: Vec<DatePart>,
    pub delimiter: String,
    pub text_case: TextCase,
}

/// A date that is laid out as the locale has it.
#[derive(Debug, PartialEq, Eq)]
pub struct LocalizedDate {
    pub variable: DateVariable,
    pub parts_selector: DateParts,
    pub form: DateForm,
    pub affixes: Affixes,
    pub formatting: Option<Formatting>,
    pub text_case: TextCase,
}

/// The part of a name that a name part is about.
#[derive(Copy, Clone, PartialEq, Eq, Hash, Debug, Structural)]
pub enum NamePartName {
    Given,
    Family,
}

/// How one part of a name is shown.
#[derive(Debug, PartialEq, Eq)]
pub struct NamePart {
    pub name: NamePartName,
    pub text_case: TextCase,
    pub formatting: Option<Formatting>,
}

/// When a delimiter stands before the last name or before "et al.".
#[derive(Copy, Clone, PartialEq, Eq, Hash, Debug, Structural)]
pub enum DelimiterPrecedes {
    Contextual,
    AfterInvertedName,
    Always,
    Never,
}

#[derive(Copy, Clone, PartialEq, Eq, Hash, Debug, Structural)]
pub enum NameForm {
    Long,
    Short,
    Count,
}

/// The names that are shown family name first.
#[derive(Copy, Clone, PartialEq, Eq, Hash, Debug, Structural)]
pub enum NameAsSortOrder {
    First,
    All,
}

/// How the names of a list are shown.
#[derive(Debug, PartialEq, Eq)]
pub struct Name {
    pub and: String,
    pub delimiter: String,
    pub delimiter_precedes_et_al: DelimiterPrecedes,
    pub delimiter_precedes_last: DelimiterPrecedes,
    pub et_al_min: u32,
    pub et_al_use_first: u32,
    pub et_al_subsequent_min: u32,
    pub et_al_subsequent_use_first: u32,
    pub et_al_use_last: bool,
    pub form: NameForm,
    pub initialize: bool,
    pub initialize_with: String,
    pub name_as_sort_order: Option<NameAsSortOrder>,
    pub sort_separator: String,
    pub formatting: Option<Formatting>,
    pub affixes: Affixes,
}

/// One rendering element of a style.
#[derive(Debug, PartialEq, Eq)]
pub enum Element {
    Text(TextElement),
    Label(LabelElement),
    Number(NumberElement),
    Names(Arc<Names>),
    Group(Group),
    Choose(Arc<Choose>),
    Date(DateElement),
}

/// A named run of elements that text elements can call.
#[derive(Debug, PartialEq, Eq)]
pub struct MacroDef {
    pub name: String,
    pub elements: Vec<Element>,
}

#[derive(Debug, PartialEq, Eq)]
pub struct Layout {
    pub formatting: Option<Formatting>,
    pub affixes: Affixes,
    pub delimiter: String,
    pub elements: Vec<Element>,
}

/// Which given names are added to tell names apart.
#[derive(Copy, Clone, PartialEq, Eq, Hash, Debug, Structural)]
pub enum GivenNameDisambiguationRule {
    AllNames,
    AllNamesWithInitials,
    PrimaryName,
    PrimaryNameWithInitials,
    ByCite,
}

#[derive(Debug, PartialEq, Eq)]
pub struct Citation {
    pub disambiguate_add_names: bool,
    pub disambiguate_add_givenname: bool,
    pub givenname_disambiguation_rule: GivenNameDisambiguationRule,
    pub disambiguate_add_year_suffix: bool,
    pub layout: Layout,
}

/// Extensions of the style language that a style switches on.
#[derive(Copy, Clone, PartialEq, Eq, Hash, Debug, Structural)]
pub struct Features {
    /// Conditions may test which parts a date has.
    pub condition_date_parts: bool,
}

#[derive(Debug, PartialEq, Eq)]
pub struct Style {
    pub macros: Vec<MacroDef>,
    pub citation: Citation,
    pub features: Features,
    pub default_locale: String,
}

// ---------------------------------------------------------------------------
// Macros
// ---------------------------------------------------------------------------

/// The place of the first macro named `name`, if there is one.
pub open spec fn macro_index(macros: Seq<MacroDef>, name: Seq<char>) -> Option<int>
    decreases macros.len(),
{
    if macros.len() == 0 {
        None
    } else if macros[0].name@ == name {
        Some(0)
    } else {
        match macro_index(macros.skip(1), name) {
            Some(i) => Some(i + 1),
            None => None,
        }
    }
}

pub proof fn lemma_macro_index(macros: Seq<MacroDef>, name: Seq<char>)
    ensures
        match macro_index(macros, name) {
            Some(i) => {
                &&& 0 <= i < macros.len()
                &&& macros[i].name@ == name
                &&& forall|j: int| 0 <= j < i ==> (#[trigger] macros[j]).name@ != name
            },
            None => forall|j: int| 0 <= j < macros.len() ==> (#[trigger] macros[j]).name@ != name,
        },
    decreases macros.len(),
{
    if macros.len() > 0 && macros[0].name@ != name {
        let rest = macros.skip(1);
        lemma_macro_index(rest, name);
        match macro_index(rest, name) {
            Some(i) => {
                assert forall|j: int| 0 <= j < i + 1 implies (#[trigger] macros[j]).name@
                    != name by {
                    if j > 0 {
                        assert(macros[j] == rest[j - 1]);
                    }
                }
            },
            None => {
                assert forall|j: int| 0 <= j < macros.len() implies (#[trigger] macros[j]).name@
                    != name by {
                    if j > 0 {
                        assert(macros[j] == rest[j - 1]);
                    }
                }
            },
        }
    }
}

/// Every macro that `el` calls, at any depth, is one of `macros`.
pub open spec fn element_resolves(el: Element, macros: Seq<MacroDef>) -> bool
    decreases el,
{
    match el {
        Element::Text(t) => match t.source {
            TextSource::Macro(name) => macro_index(macros, name@) is Some,
            _ => true,
        },
        Element::Group(g) => elements_resolve(g.elements@, macros),
        Element::Choose(ch) => {
            &&& elements_resolve(ch.0.1@, macros)
            &&& forall|i: int|
                0 <= i < ch.1@.len() ==> elements_resolve((#[trigger] ch.1@[i]).1@, macros)
            &&& elements_resolve(ch.2.0@, macros)
        },
        _ => true,
    }
}

pub open spec fn elements_resolve(els: Seq<Element>, macros: Seq<MacroDef>) -> bool
    decreases els,
{
    forall|i: int| 0 <= i < els.len() ==> element_resolves(#[trigger] els[i], macros)
}

/// The macros with one more definition: it stands in place of the first
/// macro of its name, or at the end where there is none.
pub open spec fn with_macro(macros: Seq<MacroDef>, m: MacroDef) -> Seq<MacroDef> {
    match macro_index(macros, m.name@) {
        Some(i) => macros.update(i, m),
        None => macros.push(m),
    }
}

/// The macros with more definitions, one after the other: of two with one
/// name the later one stays.
pub open spec fn with_macros(macros: Seq<MacroDef>, defs: Seq<MacroDef>) -> Seq<MacroDef>
    decreases defs.len(),
{
    if defs.len() == 0 {
        macros
    } else {
        with_macro(with_macros(macros, defs.drop_last()), defs.last())
    }
}

/// Defines a macro.
pub fn insert_macro(macros: &mut Vec<MacroDef>, m: MacroDef)
    ensures
        final(macros)@ == with_macro(old(macros)@, m),
{
    match find_in(macros, m.name.as_str()) {
        Some(i) => {
            macros[i] = m;
        },
        None => {
            macros.push(m);
        },
    }
}

impl Style {
    /// No element of the style calls a macro that the style does not define.
    pub open spec fn well_formed(&self) -> bool {
        &&& elements_resolve(self.citation.layout.elements@, self.macros@)
        &&& forall|i: int|
            0 <= i < self.macros@.len() ==> elements_resolve(
                (#[trigger] self.macros@[i]).elements@,
                self.macros@,
            )
    }

    /// The macro of the given name: the first one, where several share a name.
    pub fn find_macro(&self, name: &str) -> (r: Option<usize>)
        ensures
            match r {
                Some(i) => macro_index(self.macros@, name@) == Some(i as int) && i
                    < self.macros@.len(),
                None => macro_index(self.macros@, name@) is None,
            },
    {
        find_in(&self.macros, name)
    }
}

/// Whether two strings hold the same characters.
pub fn str_eq(a: &str, b: &str) -> (r: bool)
    ensures
        r == (a@ == b@),
{
    let x = a.to_owned();
    let y = b.to_owned();
    x == y
}


// ---------------------------------------------------------------------------
// Checking a style when it is loaded
// ---------------------------------------------------------------------------

/// Whether every macro that the element calls, at any depth, is defined.
pub fn check_element(el: &Element, macros: &Vec<MacroDef>) -> (ok: bool)
    ensures
        ok == element_resolves(*el, macros@),
    decreases *el, 1nat,
{
    match el {
        Element::Text(t) => match &t.source {
            TextSource::Macro(name) => find_in(macros, name.as_str()).is_some(),
            _ => true,
        },
        Element::Group(g) => check_elements(&g.elements, macros),
        Element::Choose(ch) => {
            let choice: &Choose = &**ch;
            check_elements(&choice.0.1, macros) && check_branches(&choice.1, macros)
                && check_elements(&choice.2.0, macros)
        },
        _ => true,
    }
}

/// Whether every macro that the branches call is defined.
fn check_branches(branches: &Vec<IfThen>, macros: &Vec<MacroDef>) -> (ok: bool)
    ensures
        ok == forall|i: int|
            0 <= i < branches@.len() ==> elements_resolve((#[trigger] branches@[i]).1@, macros@),
    decreases *branches, 0nat,
{
    let mut i: usize = 0;
    while i < branches.len()
        invariant
            i <= branches@.len(),
            forall|j: int|
                0 <= j < i ==> elements_resolve((#[trigger] branches@[j]).1@, macros@),
        decreases branches@.len() - i,
    {
        if !check_elements(&branches[i].1, macros) {
            return false;
        }
        i = i + 1;
    }
    true
}

/// Whether every macro that the elements call is defined.
pub fn check_elements(els: &Vec<Element>, macros: &Vec<MacroDef>) -> (ok: bool)
    ensures
        ok == elements_resolve(els@, macros@),
    decreases *els, 0nat,
{
    let mut i: usize = 0;
    while i < els.len()
        invariant
            i <= els@.len(),
            forall|j: int| 0 <= j < i ==> element_resolves(#[trigger] els@[j], macros@),
        decreases els@.len() - i,
    {
        if !check_element(&els[i], macros) {
            return false;
        }
        i = i + 1;
    }
    true
}

/// The place of the first macro of the given name.
pub fn find_in(macros: &Vec<MacroDef>, name: &str) -> (r: Option<usize>)
    ensures
        match r {
            Some(i) => macro_index(macros@, name@) == Some(i as int) && i < macros@.len(),
            None => macro_index(macros@, name@) is None,
        },
{
    let mut i: usize = 0;
    assert(macros@.skip(0) =~= macros@);
    while i < macros.len()
        invariant
            i <= macros@.len(),
            macro_index(macros@, name@) == match macro_index(macros@.skip(i as int), name@) {
                Some(k) => Some(k + i),
                None => None,
            },
        decreases macros@.len() - i,
    {
        let ghost rest = macros@.skip(i as int);
        assert(rest.skip(1) =~= macros@.skip(i + 1));
        assert(rest[0] == macros@[i as int]);
        if str_eq(macros[i].name.as_str(), name) {
            return Some(i);
        }
        i = i + 1;
    }
    assert(macros@.skip(i as int).len() == 0);
    None
}

impl Style {
    /// Checks that no element of the style calls a macro that the style
    /// does not define. A style that fails is not to be used: an element
    /// that calls such a macro renders nothing.
    pub fn validate(&self) -> (ok: bool)
        ensures
            ok == self.well_formed(),
    {
        if !check_elements(&self.citation.layout.elements, &self.macros) {
            return false;
        }
        let mut i: usize = 0;
        while i < self.macros.len()
            invariant
                i <= self.macros@.len(),
                forall|j: int|
                    0 <= j < i ==> elements_resolve(
                        (#[trigger] self.macros@[j]).elements@,
                        self.macros@,
                    ),
            decreases self.macros@.len() - i,
        {
            if !check_elements(&self.macros[i].elements, &self.macros) {
                return false;
            }
            i = i + 1;
        }
        true
    }
}

} // verus!
