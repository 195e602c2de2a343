use citeproc::cite::{Cite, Locator};
use citeproc::cite_context::{CiteContext, DisambPass};
use citeproc::conditional::{eval_cond, eval_conditions, eval_condset, run_matcher, CondChecker};
use citeproc::date::{Date, DateOrRange};
use citeproc::locale::Locale;
use citeproc::markup::Markup;
use citeproc::number::{roman_lower, roman_representable, sort_string};
use citeproc::numeric::{NumericToken, NumericValue};
use citeproc::output::{affixed_text, IngestOptions, LocalizedQuotes, OutputFormat};
use citeproc::proc::{evaluate, flatten, retry_conditionals, Proc, IR};
use citeproc::ref_context::RefContext;
use citeproc::reference::{Name, Reference};
use citeproc::renderer::{GenericContext, Renderer};
use citeproc::style::{
    Affixes, Choose, Citation, Cond, Conditions, CondSet, CslType, DateElement, DateParts,
    Element, Else, Features, FontStyle, FontWeight, Formatting, GivenNameDisambiguationRule,
    Group, IfThen, LabelElement, Layout, MacroDef, Match, NameLabel, Names, NumberElement,
    NumericForm, Plural, Position, Style, TextCase, TextElement, TextSource, VariableForm,
};
use citeproc::terms::{
    GenderedTermSelector, LocatorType, RoleTermSelector, SimpleTerm, TermForm, TermFormExtended,
    TextTermSelector,
};
use citeproc::variables::{
    AnyVariable, DateVariable, NameVariable, NumberVariable, StandardVariable, Variable,
};
use std::sync::Arc;

fn affixes(prefix: &str, suffix: &str) -> Affixes {
    Affixes { prefix: prefix.to_string(), suffix: suffix.to_string() }
}

fn text(source: TextSource) -> Element {
    Element::Text(TextElement {
        source,
        formatting: None,
        affixes: Affixes::default(),
        quotes: false,
        text_case: TextCase::Unchanged,
    })
}

fn value(s: &str) -> Element {
    text(TextSource::Value(s.to_string()))
}

fn number(variable: NumberVariable) -> Element {
    Element::Number(NumberElement {
        variable,
        form: NumericForm::Numeric,
        formatting: None,
        affixes: Affixes::default(),
        text_case: TextCase::Unchanged,
    })
}

fn condset(match_type: Match, conds: Vec<Cond>) -> CondSet {
    CondSet { match_type, conds }
}

fn when(cond: Cond, elements: Vec<Element>) -> IfThen {
    IfThen(Conditions(Match::All, vec![condset(Match::All, vec![cond])]), elements)
}

fn style_of(elements: Vec<Element>, macros: Vec<MacroDef>) -> Style {
    Style {
        macros,
        citation: Citation {
            disambiguate_add_names: false,
            disambiguate_add_givenname: false,
            givenname_disambiguation_rule: GivenNameDisambiguationRule::ByCite,
            disambiguate_add_year_suffix: false,
            layout: Layout {
                formatting: None,
                affixes: Affixes::default(),
                delimiter: String::new(),
                elements,
            },
        },
        features: Features { condition_date_parts: false },
        default_locale: "en-US".to_string(),
    }
}

fn book(id: &str) -> Reference {
    let mut r = Reference::empty(id, CslType::Book);
    r.ordinary.push((Variable::Title, "A Title".to_string()));
    r.ordinary.push((Variable::TitleShort, "Short".to_string()));
    r.ordinary.push((Variable::URL, "http://example.com".to_string()));
    r.number.push((NumberVariable::Page, NumericValue::from("5-7")));
    r.number.push((NumberVariable::Edition, NumericValue::from("2nd edition")));
    r.number.push((NumberVariable::Volume, NumericValue::from("4")));
    r.name.push((
        NameVariable::Editor,
        vec![
            Name { family: Some("Doe".to_string()), given: Some("Jo".to_string()), literal: None },
            Name { family: Some("Roe".to_string()), given: None, literal: None },
        ],
    ));
    r.date.push((DateVariable::Issued, DateOrRange::Single(Date::new(1999, 0, 0))));
    r.date.push((
        DateVariable::Accessed,
        DateOrRange::Range(Date::new(2001, 3, 0), Date::new(2001, 4, 12)),
    ));
    r
}

fn english() -> Locale {
    let mut l = Locale::new("en-US");
    l.add_term(
        TextTermSelector::Gendered(GenderedTermSelector::Number(NumberVariable::Page, TermForm::Long)),
        "page",
        "pages",
    );
    l.add_term(
        TextTermSelector::Gendered(GenderedTermSelector::Locator(LocatorType::Chapter, TermForm::Short)),
        "chap.",
        "chaps.",
    );
    l.add_term(
        TextTermSelector::Role(RoleTermSelector(NameVariable::Editor, TermFormExtended::Short)),
        "ed.",
        "eds.",
    );
    l.add_term(TextTermSelector::Simple(SimpleTerm::And, TermFormExtended::Long), "and", "and");
    l.add_term(TextTermSelector::Simple(SimpleTerm::And, TermFormExtended::Long), "und", "und");
    l
}

fn context<'c>(
    style: &'c Style,
    locale: &'c Locale,
    format: &'c Markup,
    reference: &'c Reference,
    cite: &'c Cite,
) -> CiteContext<'c, Markup> {
    CiteContext {
        reference,
        format,
        cite_id: cite.id,
        style,
        locale,
        position: (Position::First, None),
        disamb_pass: None,
        cite,
        citation_number: 1,
        bib_number: None,
    }
}

fn render(style: &Style, reference: &Reference, cite: &Cite) -> Option<String> {
    let locale = english();
    let format = Markup::plain();
    let ctx = context(style, &locale, &format, reference, cite);
    let ir = style.intermediate(&ctx);
    flatten(ir, &format)
}

#[test]
fn policies_follow_the_truth_table() {
    let t = vec![true];
    let f = vec![false];
    let tf = vec![true, false];
    let none: Vec<bool> = vec![];
    assert!(run_matcher(&t, Match::All));
    assert!(run_matcher(&t, Match::Any));
    assert!(!run_matcher(&t, Match::Neither));
    assert!(!run_matcher(&t, Match::Nand));
    assert!(!run_matcher(&f, Match::All));
    assert!(!run_matcher(&f, Match::Any));
    assert!(run_matcher(&f, Match::Neither));
    assert!(run_matcher(&f, Match::Nand));
    assert!(!run_matcher(&tf, Match::All));
    assert!(run_matcher(&tf, Match::Any));
    assert!(!run_matcher(&tf, Match::Neither));
    assert!(run_matcher(&tf, Match::Nand));
    assert!(run_matcher(&none, Match::All));
    assert!(!run_matcher(&none, Match::Any));
    assert!(run_matcher(&none, Match::Neither));
    assert!(!run_matcher(&none, Match::Nand));
}

#[test]
fn tests_of_date_parts_take_no_side_unless_switched_on() {
    let mut style = style_of(vec![], vec![]);
    let reference = book("a");
    let cite = Cite::basic(1, "a");
    let locale = english();
    let format = Markup::plain();
    let date_tests = vec![
        Cond::HasYearOnly(DateVariable::Issued),
        Cond::HasMonthOrSeason(DateVariable::Issued),
        Cond::HasDay(DateVariable::Issued),
    ];
    {
        let ctx = context(&style, &locale, &format, &reference, &cite);
        for c in date_tests.iter() {
            assert_eq!(eval_cond(c, &ctx), None);
        }
        assert_eq!(eval_cond(&Cond::IsUncertainDate(DateVariable::Issued), &ctx), None);
        // With every test left out, the policies see no test at all.
        assert!(eval_condset(&condset(Match::All, date_tests.clone()), &ctx));
        assert!(eval_condset(&condset(Match::Neither, date_tests.clone()), &ctx));
        assert!(!eval_condset(&condset(Match::Any, date_tests.clone()), &ctx));
        assert!(!eval_condset(&condset(Match::Nand, date_tests.clone()), &ctx));
    }
    style.features.condition_date_parts = true;
    let ctx = context(&style, &locale, &format, &reference, &cite);
    assert_eq!(eval_cond(&Cond::HasYearOnly(DateVariable::Issued), &ctx), Some(true));
    assert_eq!(eval_cond(&Cond::HasMonthOrSeason(DateVariable::Issued), &ctx), Some(false));
    assert_eq!(eval_cond(&Cond::HasDay(DateVariable::Issued), &ctx), Some(false));
    assert_eq!(eval_cond(&Cond::HasYearOnly(DateVariable::Accessed), &ctx), Some(false));
    assert_eq!(eval_cond(&Cond::HasMonthOrSeason(DateVariable::Accessed), &ctx), Some(true));
    assert_eq!(eval_cond(&Cond::HasDay(DateVariable::Accessed), &ctx), Some(true));
    assert_eq!(eval_cond(&Cond::HasDay(DateVariable::Submitted), &ctx), Some(false));
    assert!(!eval_condset(&condset(Match::All, date_tests.clone()), &ctx));
    assert!(eval_condset(&condset(Match::Any, date_tests), &ctx));
}

#[test]
fn context_answers_for_cite_and_reference() {
    let style = style_of(vec![], vec![]);
    let reference = book("a");
    let mut cite = Cite::basic(1, "a");
    let locale = english();
    let format = Markup::plain();
    {
        let ctx = context(&style, &locale, &format, &reference, &cite);
        assert!(ctx.has_variable(AnyVariable::Ordinary(Variable::Title)));
        assert!(!ctx.has_variable(AnyVariable::Ordinary(Variable::Publisher)));
        assert!(ctx.has_variable(AnyVariable::Number(NumberVariable::Page)));
        assert!(ctx.has_variable(AnyVariable::Number(NumberVariable::PageFirst)));
        assert!(!ctx.has_variable(AnyVariable::Number(NumberVariable::Locator)));
        assert!(!ctx.has_variable(AnyVariable::Number(NumberVariable::FirstReferenceNoteNumber)));
        assert!(!ctx.has_variable(AnyVariable::Number(NumberVariable::CitationNumber)));
        assert!(ctx.has_variable(AnyVariable::Name(NameVariable::Editor)));
        assert!(!ctx.has_variable(AnyVariable::Name(NameVariable::Dummy)));
        assert!(ctx.has_variable(AnyVariable::Date(DateVariable::Issued)));
        assert!(ctx.is_numeric(AnyVariable::Number(NumberVariable::Page)));
        assert!(!ctx.is_numeric(AnyVariable::Number(NumberVariable::Edition)));
        assert!(!ctx.is_numeric(AnyVariable::Number(NumberVariable::Issue)));
        assert!(!ctx.is_numeric(AnyVariable::Ordinary(Variable::Title)));
        assert_eq!(ctx.get_number(NumberVariable::PageFirst), Some(NumericValue::num(5)));
        assert_eq!(ctx.get_number(NumberVariable::Page), Some(NumericValue::from("5-7")));
        assert_eq!(ctx.get_number(NumberVariable::Locator), None);
        assert_eq!(ctx.get_number(NumberVariable::Issue), None);
        assert_eq!(ctx.get_ordinary(Variable::Title, VariableForm::Long), Some("A Title"));
        assert_eq!(ctx.get_ordinary(Variable::Title, VariableForm::Short), Some("Short"));
        assert_eq!(ctx.get_ordinary(Variable::Publisher, VariableForm::Long), None);
        assert_eq!(ctx.get_name(NameVariable::Editor).map(|v| v.len()), Some(2));
        assert_eq!(ctx.get_name(NameVariable::Dummy), None);
        assert_eq!(ctx.locator_type(), None);
        assert_eq!(ctx.csl_type(), CslType::Book);
        assert_eq!(ctx.position(), Position::First);
        assert!(!ctx.is_disambiguate());
    }
    cite.locators.push(Locator(LocatorType::Chapter, NumericValue::from("3")));
    let mut ctx = context(&style, &locale, &format, &reference, &cite);
    ctx.position = (Position::Subsequent, Some(4));
    ctx.bib_number = Some(9);
    ctx.disamb_pass = Some(DisambPass::Conditionals);
    assert!(ctx.has_variable(AnyVariable::Number(NumberVariable::Locator)));
    assert!(ctx.has_variable(AnyVariable::Number(NumberVariable::FirstReferenceNoteNumber)));
    assert!(ctx.has_variable(AnyVariable::Number(NumberVariable::CitationNumber)));
    assert_eq!(ctx.get_number(NumberVariable::Locator), Some(NumericValue::num(3)));
    assert_eq!(ctx.get_number(NumberVariable::FirstReferenceNoteNumber), Some(NumericValue::num(4)));
    assert_eq!(ctx.get_number(NumberVariable::CitationNumber), Some(NumericValue::num(9)));
    assert_eq!(ctx.locator_type(), Some(LocatorType::Chapter));
    assert!(ctx.is_disambiguate());
    assert_eq!(eval_cond(&Cond::Locator(LocatorType::Chapter), &ctx), Some(true));
    assert_eq!(eval_cond(&Cond::Locator(LocatorType::Page), &ctx), Some(false));
    assert_eq!(eval_cond(&Cond::Type(CslType::Book), &ctx), Some(true));
    assert_eq!(eval_cond(&Cond::Type(CslType::Thesis), &ctx), Some(false));
    assert_eq!(eval_cond(&Cond::Position(Position::Subsequent), &ctx), Some(true));
    assert_eq!(eval_cond(&Cond::Position(Position::First), &ctx), Some(false));
}

#[test]
fn reference_context_has_no_locator_value() {
    let style = style_of(vec![], vec![]);
    let reference = book("a");
    let locale = english();
    let format = Markup::plain();
    let ctx = RefContext {
        format: &format,
        style: &style,
        locale: &locale,
        reference: &reference,
        locator_type: Some(LocatorType::Page),
        position: (Position::First, None),
        bib_number: None,
        year_suffix: true,
        disamb_pass: None,
    };
    assert!(ctx.has_variable(AnyVariable::Number(NumberVariable::Locator)));
    assert_eq!(ctx.get_number(NumberVariable::Locator), None);
    assert_eq!(ctx.get_number(NumberVariable::PageFirst), Some(NumericValue::num(5)));
    let generic = GenericContext::Ref(&ctx);
    assert!(generic.should_add_year_suffix_hook());
    assert_eq!(generic.locator_type(), Some(LocatorType::Page));
    assert!(generic.has_variable(AnyVariable::Ordinary(Variable::Title)));
    assert_eq!(generic.get_number(NumberVariable::Volume), Some(NumericValue::num(4)));
    assert_eq!(generic.reference().id, "a");
    assert_eq!(generic.locale().lang, "en-US");
    assert_eq!(generic.style().default_locale, "en-US");
    assert_eq!(generic.format(), &Markup::Plain);
    assert_eq!(generic.get_name(NameVariable::Editor).map(|v| v.len()), Some(2));
    assert_eq!(generic.csl_type(), CslType::Book);
}

#[test]
fn positions_imply_the_weaker_ones() {
    assert!(Position::IbidWithLocator.matches(Position::Ibid));
    assert!(Position::IbidWithLocator.matches(Position::Subsequent));
    assert!(Position::Ibid.matches(Position::Subsequent));
    assert!(Position::NearNote.matches(Position::Subsequent));
    assert!(Position::FarNote.matches(Position::Subsequent));
    assert!(Position::First.matches(Position::First));
    assert!(!Position::First.matches(Position::Subsequent));
    assert!(!Position::Subsequent.matches(Position::Ibid));
    assert!(!Position::Ibid.matches(Position::IbidWithLocator));
}

#[test]
fn page_or_no_page() {
    let choose = Element::Choose(Arc::new(Choose(
        when(
            Cond::Variable(AnyVariable::Number(NumberVariable::Page)),
            vec![number(NumberVariable::Page)],
        ),
        vec![],
        Else(vec![value("No page")]),
    )));
    let style = style_of(vec![choose], vec![]);
    let with_page = book("a");
    let cite = Cite::basic(1, "a");
    assert_eq!(render(&style, &with_page, &cite), Some("5-7".to_string()));
    let without_page = Reference::empty("a", CslType::Book);
    assert_eq!(render(&style, &without_page, &cite), Some("No page".to_string()));
}

#[test]
fn first_matching_branch_wins() {
    let choose = Element::Choose(Arc::new(Choose(
        when(Cond::Type(CslType::Thesis), vec![value("thesis")]),
        vec![
            when(Cond::Variable(AnyVariable::Ordinary(Variable::Publisher)), vec![value("publisher")]),
            when(Cond::Type(CslType::Book), vec![value("book")]),
            when(Cond::Variable(AnyVariable::Ordinary(Variable::Title)), vec![value("title")]),
        ],
        Else(vec![value("else")]),
    )));
    let style = style_of(vec![choose], vec![]);
    let cite = Cite::basic(1, "a");
    assert_eq!(render(&style, &book("a"), &cite), Some("book".to_string()));
    let mut thesis = book("a");
    thesis.csl_type = CslType::Thesis;
    assert_eq!(render(&style, &thesis, &cite), Some("thesis".to_string()));
    let report = Reference::empty("a", CslType::Report);
    assert_eq!(render(&style, &report, &cite), Some("else".to_string()));
}

#[test]
fn disambiguate_branches_wait_for_their_pass() {
    let choose = Arc::new(Choose(
        when(Cond::Disambiguate(true), vec![value("told apart")]),
        vec![],
        Else(vec![value("as usual")]),
    ));
    let style = style_of(vec![Element::Choose(choose.clone())], vec![]);
    let reference = book("a");
    let cite = Cite::basic(1, "a");
    let locale = english();
    let format = Markup::plain();
    let mut ctx = context(&style, &locale, &format, &reference, &cite);
    for pass in [None, Some(DisambPass::AddNames), Some(DisambPass::AddYearSuffix)] {
        ctx.disamb_pass = pass;
        let ir = choose.intermediate(&ctx);
        assert!(matches!(ir, IR::ConditionalDisamb(_, _)));
        assert_eq!(flatten(ir, &format), Some("as usual".to_string()));
        assert_eq!(eval_conditions(&choose.0 .0, &ctx), (false, true));
    }
    ctx.disamb_pass = Some(DisambPass::Conditionals);
    let ir = choose.intermediate(&ctx);
    assert!(matches!(ir, IR::Sequence(_)));
    assert_eq!(flatten(ir, &format), Some("told apart".to_string()));
    assert_eq!(eval_conditions(&choose.0 .0, &ctx), (true, false));
}

#[test]
fn branches_after_the_one_taken_do_not_mark_the_outcome() {
    let choose = Arc::new(Choose(
        when(Cond::Type(CslType::Book), vec![value("book")]),
        vec![when(Cond::Disambiguate(true), vec![value("told apart")])],
        Else(vec![]),
    ));
    let style = style_of(vec![], vec![]);
    let reference = book("a");
    let cite = Cite::basic(1, "a");
    let locale = english();
    let format = Markup::plain();
    let ctx = context(&style, &locale, &format, &reference, &cite);
    let ir = choose.intermediate(&ctx);
    assert!(matches!(ir, IR::Sequence(_)));
    assert_eq!(flatten(ir, &format), Some("book".to_string()));
}

#[test]
fn groups_join_what_is_there() {
    let group = Element::Group(Group {
        formatting: None,
        delimiter: ", ".to_string(),
        affixes: affixes("(", ")"),
        elements: vec![
            value("a"),
            text(TextSource::Variable(
                StandardVariable::Ordinary(Variable::Publisher),
                VariableForm::Long,
            )),
            value(""),
            number(NumberVariable::Issue),
            value("b"),
        ],
    });
    let style = style_of(vec![group], vec![]);
    let cite = Cite::basic(1, "a");
    assert_eq!(render(&style, &book("a"), &cite), Some("(a, b)".to_string()));
    let empty = Element::Group(Group {
        formatting: None,
        delimiter: ", ".to_string(),
        affixes: affixes("(", ")"),
        elements: vec![value(""), number(NumberVariable::Issue)],
    });
    let style = style_of(vec![empty], vec![]);
    assert_eq!(render(&style, &book("a"), &cite), None);
}

#[test]
fn macros_expand_where_they_are_called() {
    let macros = vec![
        MacroDef {
            name: "title".to_string(),
            elements: vec![
                text(TextSource::Variable(
                    StandardVariable::Ordinary(Variable::Title),
                    VariableForm::Long,
                )),
                text(TextSource::Macro("pages".to_string())),
            ],
        },
        MacroDef {
            name: "pages".to_string(),
            elements: vec![value(": "), number(NumberVariable::Page)],
        },
        MacroDef { name: "loop".to_string(), elements: vec![value("x"), text(TextSource::Macro("loop".to_string()))] },
    ];
    let style = style_of(vec![text(TextSource::Macro("title".to_string()))], macros);
    assert!(style.find_macro("pages") == Some(1));
    assert!(style.find_macro("nothing") == None);
    let cite = Cite::basic(1, "a");
    assert_eq!(render(&style, &book("a"), &cite), Some("A Title: 5-7".to_string()));
    let missing = style_of(vec![value("a"), text(TextSource::Macro("nothing".to_string()))], vec![]);
    assert_eq!(render(&missing, &book("a"), &cite), Some("a".to_string()));
}

#[test]
fn a_macro_that_calls_itself_is_cut_off() {
    let macros = vec![MacroDef {
        name: "loop".to_string(),
        elements: vec![value("x"), text(TextSource::Macro("loop".to_string()))],
    }];
    let style = style_of(vec![text(TextSource::Macro("loop".to_string()))], macros);
    let cite = Cite::basic(1, "a");
    assert_eq!(render(&style, &book("a"), &cite), Some("x".to_string()));
}

#[test]
fn labels_agree_with_their_numbers() {
    let label = |variable, plural| {
        Element::Label(LabelElement {
            variable,
            form: TermForm::Long,
            formatting: None,
            affixes: affixes("", " "),
            plural,
            text_case: TextCase::Unchanged,
        })
    };
    let cite = Cite::basic(1, "a");
    let style = style_of(vec![label(NumberVariable::Page, Plural::Contextual), number(NumberVariable::Page)], vec![]);
    assert_eq!(render(&style, &book("a"), &cite), Some("pages 5-7".to_string()));
    let mut single = Reference::empty("a", CslType::Book);
    single.number.push((NumberVariable::Page, NumericValue::from("5")));
    assert_eq!(render(&style, &single, &cite), Some("page 5".to_string()));
    let style = style_of(vec![label(NumberVariable::Page, Plural::Always)], vec![]);
    assert_eq!(render(&style, &single, &cite), Some("pages ".to_string()));
    let style = style_of(vec![label(NumberVariable::Page, Plural::Never)], vec![]);
    assert_eq!(render(&style, &book("a"), &cite), Some("page ".to_string()));
    // No value, no label; no term, no label.
    assert_eq!(render(&style, &Reference::empty("a", CslType::Book), &cite), None);
    let style = style_of(vec![label(NumberVariable::Volume, Plural::Always)], vec![]);
    assert_eq!(render(&style, &book("a"), &cite), None);
}

#[test]
fn locator_labels_follow_the_type_of_locator() {
    let label = Element::Label(LabelElement {
        variable: NumberVariable::Locator,
        form: TermForm::Short,
        formatting: None,
        affixes: affixes("", " "),
        plural: Plural::Contextual,
        text_case: TextCase::Unchanged,
    });
    let style = style_of(vec![label, number(NumberVariable::Locator)], vec![]);
    let mut cite = Cite::basic(1, "a");
    assert_eq!(render(&style, &book("a"), &cite), None);
    cite.locators.push(Locator(LocatorType::Chapter, NumericValue::from("3 & 4")));
    assert_eq!(render(&style, &book("a"), &cite), Some("chaps. 3 & 4".to_string()));
}

#[test]
fn numbers_in_roman_and_decimal() {
    let el = |variable, form| {
        Element::Number(NumberElement {
            variable,
            form,
            formatting: None,
            affixes: affixes("[", "]"),
            text_case: TextCase::Unchanged,
        })
    };
    let cite = Cite::basic(1, "a");
    let style = style_of(vec![el(NumberVariable::Volume, NumericForm::Roman)], vec![]);
    assert_eq!(render(&style, &book("a"), &cite), Some("[iv]".to_string()));
    let style = style_of(vec![el(NumberVariable::Page, NumericForm::Roman)], vec![]);
    assert_eq!(render(&style, &book("a"), &cite), Some("[v\u{2013}vii]".to_string()));
    let style = style_of(vec![el(NumberVariable::Edition, NumericForm::Roman)], vec![]);
    assert_eq!(render(&style, &book("a"), &cite), Some("[2nd edition]".to_string()));
    let style = style_of(vec![el(NumberVariable::Volume, NumericForm::Ordinal)], vec![]);
    assert_eq!(render(&style, &book("a"), &cite), Some("[4]".to_string()));
    let style = style_of(vec![el(NumberVariable::Issue, NumericForm::Numeric)], vec![]);
    assert_eq!(render(&style, &book("a"), &cite), None);
}

#[test]
fn roman_numerals() {
    let roman = |n: u32| roman_lower(&vec![NumericToken::Num(n)]);
    assert_eq!(roman(1), "i");
    assert_eq!(roman(4), "iv");
    assert_eq!(roman(9), "ix");
    assert_eq!(roman(14), "xiv");
    assert_eq!(roman(40), "xl");
    assert_eq!(roman(90), "xc");
    assert_eq!(roman(400), "cd");
    assert_eq!(roman(1994), "mcmxciv");
    assert_eq!(roman(2024), "mmxxiv");
    assert_eq!(roman(3999), "mmmcmxcix");
    assert_eq!(roman(3888), "mmmdccclxxxviii");
    assert!(roman_representable(&NumericValue::from("1-3999, 5")));
    assert!(!roman_representable(&NumericValue::from("0")));
    assert!(!roman_representable(&NumericValue::from("4000")));
    assert!(!roman_representable(&NumericValue::from("2nd")));
    assert!(!roman_representable(&NumericValue::from("not a number")));
    assert_eq!(
        roman_lower(&vec![NumericToken::Num(2), NumericToken::Comma, NumericToken::Num(12), NumericToken::Ampersand, NumericToken::Num(3)]),
        "ii, xii & iii"
    );
}

#[test]
fn sort_keys_are_padded() {
    assert_eq!(sort_string(&vec![NumericToken::Num(5)]), "00000005");
    assert_eq!(sort_string(&vec![NumericToken::Num(123456789)]), "123456789");
    assert_eq!(sort_string(&vec![NumericToken::Num(12345678)]), "12345678");
    assert_eq!(
        sort_string(&vec![NumericToken::Num(2), NumericToken::Hyphen, NumericToken::Num(15)]),
        "00000002,,00000015"
    );
    assert_eq!(sort_string(&vec![NumericToken::Affixed("2b".to_string())]), "");
    let style = style_of(vec![], vec![]);
    let reference = book("a");
    let cite = Cite::basic(1, "a");
    let locale = english();
    let format = Markup::plain();
    let ctx = context(&style, &locale, &format, &reference, &cite);
    let sorting = Markup::plain();
    let renderer = Renderer::sorting(GenericContext::Cit(&ctx), &sorting);
    assert_eq!(
        renderer.number_sort_string(
            NumberVariable::Page,
            NumericForm::Numeric,
            &NumericValue::from("5-7"),
            &affixes("<", ">"),
            TextCase::Unchanged
        ),
        "<00000005,,00000007>"
    );
    assert_eq!(
        renderer.number_sort_string(
            NumberVariable::Edition,
            NumericForm::Numeric,
            &NumericValue::from("2nd edition"),
            &Affixes::default(),
            TextCase::Unchanged
        ),
        "2nd edition"
    );
}

#[test]
fn text_of_variables_terms_and_values() {
    let style = style_of(vec![], vec![]);
    let reference = book("a");
    let cite = Cite::basic(1, "a");
    let locale = english();
    let format = Markup::html();
    let ctx = context(&style, &locale, &format, &reference, &cite);
    let renderer = Renderer::cite(&ctx);
    let italic = Formatting { font_style: Some(FontStyle::Italic), ..Formatting::plain() };
    assert_eq!(
        renderer.text_variable(
            StandardVariable::Ordinary(Variable::Title),
            "A Title",
            Some(italic),
            &affixes("(", ")"),
            true,
            TextCase::Unchanged
        ),
        "('<i>A Title</i>')"
    );
    assert_eq!(
        renderer.text_variable(
            StandardVariable::Ordinary(Variable::URL),
            "http://example.com",
            None,
            &Affixes::default(),
            false,
            TextCase::Unchanged
        ),
        "<a href=\"http://example.com\">http://example.com</a>"
    );
    assert_eq!(
        renderer.text_variable(
            StandardVariable::Number(NumberVariable::Page),
            "5-7",
            None,
            &Affixes::default(),
            false,
            TextCase::Unchanged
        ),
        "5\u{2013}7"
    );
    assert_eq!(
        renderer.text_value("Value", None, &affixes("", "."), false, TextCase::Uppercase),
        Some("VALUE.".to_string())
    );
    assert_eq!(renderer.text_value("", None, &affixes("a", "b"), true, TextCase::Unchanged), None);
    assert_eq!(
        renderer.text_term(
            TextTermSelector::Simple(SimpleTerm::And, TermFormExtended::Long),
            false,
            None,
            &affixes(" ", " "),
            false
        ),
        Some(" and ".to_string())
    );
    assert_eq!(
        renderer.text_term(
            TextTermSelector::Simple(SimpleTerm::EtAl, TermFormExtended::Long),
            false,
            None,
            &Affixes::default(),
            false
        ),
        None
    );
}

#[test]
fn name_labels_count_the_names() {
    let style = style_of(vec![], vec![]);
    let reference = book("a");
    let cite = Cite::basic(1, "a");
    let locale = english();
    let format = Markup::plain();
    let ctx = context(&style, &locale, &format, &reference, &cite);
    let renderer = Renderer::cite(&ctx);
    let label = |plural| NameLabel {
        form: TermFormExtended::Short,
        formatting: None,
        plural,
        affixes: affixes(" (", ")"),
        after_name: true,
        strip_periods: false,
        text_case: TextCase::Unchanged,
    };
    assert_eq!(
        renderer.name_label(&label(Plural::Contextual), NameVariable::Editor),
        Some(" (eds.)".to_string())
    );
    assert_eq!(
        renderer.name_label(&label(Plural::Never), NameVariable::Editor),
        Some(" (ed.)".to_string())
    );
    assert_eq!(renderer.name_label(&label(Plural::Contextual), NameVariable::Author), None);
    assert_eq!(renderer.name_label(&label(Plural::Always), NameVariable::Author), None);
    assert_eq!(renderer.name_label(&label(Plural::Always), NameVariable::Dummy), None);
    let mut one = Reference::empty("a", CslType::Book);
    one.name.push((
        NameVariable::Editor,
        vec![Name { family: Some("Doe".to_string()), given: None, literal: None }],
    ));
    let ctx = context(&style, &locale, &format, &one, &cite);
    let renderer = Renderer::cite(&ctx);
    assert_eq!(
        renderer.name_label(&label(Plural::Contextual), NameVariable::Editor),
        Some(" (ed.)".to_string())
    );
    assert_eq!(
        renderer.name_label(&label(Plural::Always), NameVariable::Editor),
        Some(" (eds.)".to_string())
    );
}

#[test]
fn names_hold_their_place() {
    let names = Arc::new(Names {
        variables: vec![NameVariable::Editor],
        names: vec![],
        label: None,
        formatting: None,
        delimiter: String::new(),
        affixes: Affixes::default(),
        substitute: None,
    });
    let style = style_of(vec![], vec![]);
    let reference = book("a");
    let cite = Cite::basic(1, "a");
    let locale = english();
    let format = Markup::plain();
    let ctx = context(&style, &locale, &format, &reference, &cite);
    let ir = evaluate(&Element::Names(names), &ctx);
    assert!(matches!(ir, IR::Names(_, _)));
    assert_eq!(flatten(ir, &format), Some("names first-pass".to_string()));
}

#[test]
fn year_suffix_has_a_place_of_its_own() {
    let el = text(TextSource::Variable(
        StandardVariable::Ordinary(Variable::YearSuffix),
        VariableForm::Long,
    ));
    let mut style = style_of(vec![], vec![]);
    let mut reference = book("a");
    let cite = Cite::basic(1, "a");
    let locale = english();
    let format = Markup::plain();
    {
        let ctx = context(&style, &locale, &format, &reference, &cite);
        assert!(matches!(evaluate(&el, &ctx), IR::Rendered(None)));
    }
    style.citation.disambiguate_add_year_suffix = true;
    {
        let ctx = context(&style, &locale, &format, &reference, &cite);
        assert!(matches!(evaluate(&el, &ctx), IR::YearSuffix(None)));
    }
    reference.ordinary.push((Variable::YearSuffix, "b".to_string()));
    let ctx = context(&style, &locale, &format, &reference, &cite);
    let ir = evaluate(&el, &ctx);
    assert!(matches!(ir, IR::YearSuffix(Some(_))));
    assert_eq!(flatten(ir, &format), Some("b".to_string()));
}

#[test]
fn dates_in_plain_form() {
    assert_eq!(DateOrRange::Single(Date::new(1999, 0, 0)).text(), "1999");
    assert_eq!(DateOrRange::Single(Date::new(1999, 12, 0)).text(), "1999-12");
    assert_eq!(DateOrRange::Single(Date::new(1999, 2, 3)).text(), "1999-2-3");
    assert_eq!(DateOrRange::Single(Date::new(-44, 3, 15)).text(), "-44-3-15");
    assert_eq!(DateOrRange::Single(Date::new(i32::MIN, 0, 0)).text(), "-2147483648");
    assert_eq!(
        DateOrRange::Range(Date::new(2001, 3, 0), Date::new(2001, 4, 12)).text(),
        "2001-3\u{2013}2001-4-12"
    );
    assert_eq!(DateOrRange::Literal("spring".to_string()).text(), "spring");
    let el = Element::Date(DateElement {
        variable: DateVariable::Issued,
        date_parts: vec![],
        text_case: TextCase::Unchanged,
        parts_selector: DateParts::YearMonthDay,
        formatting: None,
        affixes: affixes("(", ")"),
        delimiter: String::new(),
    });
    let style = style_of(vec![el], vec![]);
    let cite = Cite::basic(1, "a");
    assert_eq!(render(&style, &book("a"), &cite), Some("(1999)".to_string()));
    assert_eq!(render(&style, &Reference::empty("a", CslType::Book), &cite), None);
}

#[test]
fn markup_flavours() {
    let bold_italic = Formatting {
        font_style: Some(FontStyle::Italic),
        font_weight: Some(FontWeight::Bold),
        ..Formatting::plain()
    };
    let html = Markup::html();
    assert_eq!(html.with_format("x".to_string(), Some(bold_italic)), "<b><i>x</i></b>");
    assert_eq!(Markup::rtf().with_format("x".to_string(), Some(bold_italic)), "{\\b {\\i x}}");
    assert_eq!(Markup::plain().with_format("x".to_string(), Some(bold_italic)), "x");
    assert_eq!(html.with_format("x".to_string(), None), "x");
    assert_eq!(html.plain("a-b"), "a-b");
    assert_eq!(
        html.ingest("a-b", IngestOptions { replace_hyphens: true, text_case: TextCase::Unchanged }),
        "a\u{2013}b"
    );
    assert_eq!(
        html.ingest("aZ-\u{e9}", IngestOptions { replace_hyphens: false, text_case: TextCase::Lowercase }),
        "az-\u{e9}"
    );
    assert_eq!(html.ingest("aZ", IngestOptions::default()), "aZ");
    let quotes = LocalizedQuotes { open: "\u{201c}".to_string(), close: "\u{201d}".to_string() };
    assert_eq!(
        html.affixed_quoted("x".to_string(), &affixes("(", ")"), Some(&quotes)),
        "(\u{201c}x\u{201d})"
    );
    assert_eq!(html.affixed_quoted("x".to_string(), &affixes("(", ")"), None), "(x)");
    assert_eq!(Markup::plain().hyperlinked("x".to_string(), Some("u")), "x");
    assert_eq!(html.hyperlinked("x".to_string(), None), "x");
    assert_eq!(html.join(vec!["a".to_string(), "b".to_string(), "c".to_string()], ", "), "a, b, c");
    assert_eq!(html.join(vec!["a".to_string()], ", "), "a");
    assert_eq!(html.join(vec![], ", "), "");
    assert!(html.is_empty(&String::new()));
    assert!(!html.is_empty(&" ".to_string()));
    assert_eq!(html.output("done".to_string()), "done");
    assert_eq!(affixed_text(&html, "t", Some(bold_italic), &affixes("[", "]")), "[<b><i>t</i></b>]");
}

#[test]
fn marked_choices_are_taken_anew() {
    let choose = Arc::new(Choose(
        when(Cond::Disambiguate(true), vec![value("told apart")]),
        vec![],
        Else(vec![value("as usual")]),
    ));
    let group = Element::Group(Group {
        formatting: None,
        delimiter: " / ".to_string(),
        affixes: affixes("<", ">"),
        elements: vec![value("before"), Element::Choose(choose), number(NumberVariable::Page)],
    });
    let style = style_of(vec![group], vec![]);
    let reference = book("a");
    let cite = Cite::basic(1, "a");
    let locale = english();
    let format = Markup::plain();
    let mut ctx = context(&style, &locale, &format, &reference, &cite);
    let first = style.intermediate(&ctx);
    ctx.disamb_pass = Some(DisambPass::Conditionals);
    let second = retry_conditionals(first, &ctx);
    assert_eq!(flatten(second, &format), Some("<before / told apart / 5-7>".to_string()));
    ctx.disamb_pass = None;
    let first = style.intermediate(&ctx);
    assert_eq!(flatten(first, &format), Some("<before / as usual / 5-7>".to_string()));
    // A reference that changes between the passes shows only in what is taken anew.
    let first = style.intermediate(&ctx);
    let other = Reference::empty("a", CslType::Book);
    let mut later = context(&style, &locale, &format, &other, &cite);
    later.disamb_pass = Some(DisambPass::Conditionals);
    assert_eq!(
        flatten(retry_conditionals(first, &later), &format),
        Some("<before / told apart / 5-7>".to_string())
    );
}

#[test]
fn styles_are_checked_for_missing_macros() {
    let macros = vec![
        MacroDef { name: "a".to_string(), elements: vec![text(TextSource::Macro("b".to_string()))] },
        MacroDef { name: "b".to_string(), elements: vec![value("x")] },
    ];
    let good = style_of(vec![text(TextSource::Macro("a".to_string()))], macros);
    assert!(good.validate());
    let missing_in_layout = style_of(vec![text(TextSource::Macro("c".to_string()))], vec![]);
    assert!(!missing_in_layout.validate());
    let missing_in_macro = style_of(
        vec![value("x")],
        vec![MacroDef { name: "a".to_string(), elements: vec![text(TextSource::Macro("c".to_string()))] }],
    );
    assert!(!missing_in_macro.validate());
    let nested = Element::Group(Group {
        formatting: None,
        delimiter: String::new(),
        affixes: Affixes::default(),
        elements: vec![Element::Choose(Arc::new(Choose(
            when(Cond::Type(CslType::Book), vec![]),
            vec![when(Cond::Type(CslType::Thesis), vec![text(TextSource::Macro("c".to_string()))])],
            Else(vec![]),
        )))],
    });
    assert!(!style_of(vec![nested], vec![]).validate());
    assert!(style_of(vec![], vec![]).validate());
}
