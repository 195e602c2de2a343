use citeproc::cite::{Cite, Cluster2, IntraNote};
use citeproc::db::Processor;
use citeproc::document::{parse_document, tree_of, XmlRecord};
use citeproc::from_node::{disallow_default, max1_child, read_children, FromNode, IsOnNode};
use citeproc::part_reader::{attribute_int, read_date_part, read_name, read_uint};
use citeproc::locale::Locale;
use citeproc::markup::Markup;
use citeproc::names::Named;
use citeproc::numeric::NumericValue;
use citeproc::reference::Reference;
use citeproc::style::{
    insert_macro, Affixes, Cond, CslType, DateElement, DateForm, DatePartForm, DateParts,
    DayForm, DelimiterPrecedes, Element, FontStyle, FontVariant, FontWeight, Formatting,
    GivenNameDisambiguationRule, LocaleDate, LocalizedDate, MacroDef, Match, MonthForm, Name,
    NameAsSortOrder, NameForm, NameLabel, NamePart, NamePartName, NumericForm, Plural, Position,
    RangeDelimiter, Style, Substitute, TextCase, TextSource, VariableForm, YearForm,
};
use citeproc::style_reader::{
    attribute_flag, attribute_list, attribute_optional, attribute_or, attribute_required,
    choose_el, date_el, load_style, names_el, read_branch, read_condition, read_conditions,
    read_element, read_formatting, read_style, style_from_text, text_el, StyleError,
};
use citeproc::style_rules::ConditionError;
use citeproc::terms::{LocatorType, SimpleTerm, TermFormExtended, TextTermSelector};
use citeproc::variables::{
    AnyVariable, DateVariable, NameVariable, NumberVariable, StandardVariable, Variable,
};
use citeproc::xml::{split_words, XmlNode};

fn convert(node: roxmltree::Node) -> XmlNode {
    XmlNode {
        tag: node.tag_name().name().to_string(),
        attributes: node
            .attributes()
            .iter()
            .map(|a| (a.name().to_string(), a.value().to_string()))
            .collect(),
        children: node.children().filter(|n| n.is_element()).map(convert).collect(),
    }
}

fn xml(text: &str) -> XmlNode {
    parse_document(text).unwrap()
}

const PAGE_STYLE: &str = r#"<style default-locale="en-GB">
  <citation>
    <layout delimiter="; ">
      <choose><if variable="page"><number variable="page"/></if><else><text value="No page"/></else></choose>
    </layout>
  </citation>
</style>"#;

#[test]
fn end_to_end_from_markup() {
    let style = read_style(&xml(PAGE_STYLE)).unwrap();
    assert_eq!(style.default_locale, "en-GB");
    assert!(style.validate());
    let mut db = Processor::new(PAGE_STYLE, Locale::new("en-GB"), Markup::plain(), false).unwrap();
    assert_eq!(db.get_style(), &style);
    let mut with_page = Reference::empty("a", CslType::Book);
    with_page.number.push((NumberVariable::Page, NumericValue::from("5-7")));
    db.set_references(vec![with_page, Reference::empty("b", CslType::Book)]);
    db.init_clusters(vec![
        Cluster2::Note { note: IntraNote::Single(1), id: 1, cites: vec![Cite::basic(1, "a")] },
        Cluster2::Note { note: IntraNote::Single(2), id: 2, cites: vec![Cite::basic(2, "b")] },
    ]);
    db.compute();
    assert_eq!(db.get_cluster(1), "5-7");
    assert_eq!(db.get_cluster(2), "No page");
}

#[test]
fn styles_are_read_with_macros_and_flags() {
    let style = read_style(&xml(
        r#"<style>
             <macro name="title"><text variable="title" font-style="italic" prefix="(" suffix=")"/></macro>
             <info/>
             <macro name="pages"><label variable="page" plural="always"/><number variable="page" form="roman"/></macro>
             <citation disambiguate-add-year-suffix="true">
               <layout prefix="[" suffix="]" delimiter=", ">
                 <text macro="title"/>
                 <group delimiter=" "><text macro="pages"/><text term="et-al" form="short" plural="true"/></group>
                 <names variable="author editor" delimiter="; "><label form="verb-short"/><name/></names>
                 <date variable="issued"/>
               </layout>
             </citation>
           </style>"#,
    ))
    .unwrap();
    assert_eq!(style.default_locale, "en-US");
    assert_eq!(style.macros.len(), 2);
    assert_eq!(style.macros[0].name, "title");
    assert_eq!(style.macros[1].name, "pages");
    assert!(style.citation.disambiguate_add_year_suffix);
    assert!(!style.citation.disambiguate_add_names);
    assert_eq!(style.citation.layout.delimiter, ", ");
    assert_eq!(style.citation.layout.affixes.prefix, "[");
    assert_eq!(style.citation.layout.elements.len(), 4);
    match &style.macros[0].elements[0] {
        Element::Text(t) => {
            assert_eq!(
                t.source,
                TextSource::Variable(StandardVariable::Ordinary(Variable::Title), VariableForm::Long)
            );
            assert_eq!(t.formatting.unwrap().font_style, Some(FontStyle::Italic));
            assert_eq!(t.formatting.unwrap().font_weight, None);
            assert_eq!(t.affixes.prefix, "(");
            assert_eq!(t.affixes.suffix, ")");
            assert!(!t.quotes);
            assert_eq!(t.text_case, TextCase::Unchanged);
        }
        other => panic!("not a text element: {:?}", other),
    }
    match &style.macros[1].elements[0] {
        Element::Label(l) => {
            assert_eq!(l.variable, NumberVariable::Page);
            assert_eq!(l.plural, Plural::Always);
            assert_eq!(l.formatting, None);
        }
        other => panic!("not a label: {:?}", other),
    }
    match &style.macros[1].elements[1] {
        Element::Number(n) => assert_eq!(n.form, NumericForm::Roman),
        other => panic!("not a number: {:?}", other),
    }
    match &style.citation.layout.elements[1] {
        Element::Group(g) => {
            assert_eq!(g.delimiter, " ");
            assert_eq!(g.elements.len(), 2);
            match &g.elements[1] {
                Element::Text(t) => assert_eq!(
                    t.source,
                    TextSource::Term(
                        TextTermSelector::Simple(SimpleTerm::EtAl, TermFormExtended::Short),
                        true
                    )
                ),
                other => panic!("not a text element: {:?}", other),
            }
        }
        other => panic!("not a group: {:?}", other),
    }
    match &style.citation.layout.elements[2] {
        Element::Names(n) => {
            assert_eq!(n.variables, vec![NameVariable::Author, NameVariable::Editor]);
            assert_eq!(n.delimiter, "; ");
            assert_eq!(n.label.as_ref().unwrap().form, TermFormExtended::VerbShort);
        }
        other => panic!("not names: {:?}", other),
    }
    match &style.citation.layout.elements[3] {
        Element::Date(d) => assert_eq!(d.variable, DateVariable::Issued),
        other => panic!("not a date: {:?}", other),
    }
}

#[test]
fn styles_with_faults_are_not_read() {
    for text in [
        r#"<style/>"#,
        r#"<style><citation/></style>"#,
        r#"<style><citation><layout/><layout/></citation></style>"#,
        r#"<style><citation><layout/></citation><citation><layout/></citation></style>"#,
        r#"<style><macro><text value="x"/></macro><citation><layout/></citation></style>"#,
        r#"<style><citation><layout><text/></layout></citation></style>"#,
        r#"<style><citation><layout><text variable="nothing"/></layout></citation></style>"#,
        r#"<style><citation><layout><text value="x" quotes="yes"/></layout></citation></style>"#,
        r#"<style><citation><layout><text value="x" font-style="bold"/></layout></citation></style>"#,
        r#"<style><citation><layout><label/></layout></citation></style>"#,
        r#"<style><citation><layout><number variable="title"/></layout></citation></style>"#,
        r#"<style><citation><layout><unknown/></layout></citation></style>"#,
        r#"<style><citation><layout><group><unknown/></group></layout></citation></style>"#,
        r#"<style><citation disambiguate-add-names="1"><layout/></citation></style>"#,
        r#"<style><citation><layout><names variable="author"><label/><label/></names></layout></citation></style>"#,
        r#"<style><citation><layout><names variable="author nobody"/></layout></citation></style>"#,
    ] {
        let faults = read_style(&xml(text)).unwrap_err();
        assert!(!faults.0.is_empty(), "{}", text);
    }
    let both = read_style(&xml(
        r#"<style><citation><layout><text/><unknown/><text value="fine"/><label/></layout></citation></style>"#,
    ))
    .unwrap_err();
    assert_eq!(both.0.len(), 3);
    assert_eq!(
        both.0[0].message,
        "<text> without a `variable`, `macro`, `term` or `value` is invalid"
    );
    assert_eq!(both.0[1].message, "Unrecognised node.");
}

#[test]
fn choices_are_read_branch_by_branch() {
    let ch = choose_el(&xml(
        r#"<choose>
             <if type="book thesis" match="any"><text value="a"/></if>
             <else-if variable="title page" is-numeric="volume" position="ibid" locator="page" disambiguate="true"/>
             <else-if><conditions match="nand"><condition match="none" is-uncertain-date="issued"/><condition type="bill"/></conditions><text value="c"/></else-if>
             <else><text value="d"/><text value="e"/></else>
           </choose>"#,
    ))
    .unwrap();
    assert_eq!(ch.0 .0 .0, Match::All);
    assert_eq!(ch.0 .0 .1.len(), 1);
    assert_eq!(ch.0 .0 .1[0].match_type, Match::Any);
    assert_eq!(
        ch.0 .0 .1[0].conds,
        vec![Cond::Type(CslType::Book), Cond::Type(CslType::Thesis)]
    );
    assert_eq!(ch.0 .1.len(), 1);
    assert_eq!(ch.1.len(), 2);
    assert_eq!(
        ch.1[0].0 .1[0].conds,
        vec![
            Cond::Disambiguate(true),
            Cond::IsNumeric(AnyVariable::Number(NumberVariable::Volume)),
            Cond::Variable(AnyVariable::Ordinary(Variable::Title)),
            Cond::Variable(AnyVariable::Number(NumberVariable::Page)),
            Cond::Position(Position::Ibid),
            Cond::Locator(LocatorType::Page),
        ]
    );
    assert_eq!(ch.1[0].0 .1[0].match_type, Match::All);
    assert!(ch.1[0].1.is_empty());
    assert_eq!(ch.1[1].0 .0, Match::Nand);
    assert_eq!(ch.1[1].0 .1.len(), 2);
    assert_eq!(ch.1[1].0 .1[0].match_type, Match::Neither);
    assert_eq!(
        ch.1[1].0 .1[0].conds,
        vec![Cond::IsUncertainDate(DateVariable::Issued)]
    );
    assert_eq!(ch.1[1].0 .1[1].conds, vec![Cond::Type(CslType::Bill)]);
    assert_eq!(ch.1[1].1.len(), 1);
    assert_eq!(ch.2 .0.len(), 2);
    let bare = choose_el(&xml(r#"<choose><if type="book"/></choose>"#)).unwrap();
    assert!(bare.1.is_empty());
    assert!(bare.2 .0.is_empty());
}

#[test]
fn choices_with_faults_are_not_read() {
    for (text, message) in [
        (r#"<choose/>"#, "<choose> blocks must have an <if>"),
        (r#"<choose><else/></choose>"#, "<choose> blocks must begin with an <if>"),
        (
            r#"<choose><if type="book"/><else/><else-if type="bill"/></choose>"#,
            "<choose> elements out of order; found <if>, <else-if> or <else> in wrong position",
        ),
        (r#"<choose><if type="book"/><text/></choose>"#, "Unrecognised element in <choose>"),
        (r#"<choose><if/></choose>"#, "Unconditional <choose> branch"),
        (
            r#"<choose><if type="book"><conditions match="all"><condition type="bill"/></conditions></if></choose>"#,
            "if or else-if can only have its own conditions OR a <conditions> block",
        ),
        (
            r#"<choose><if><conditions match="all"/></if></choose>"#,
            "Invalid <conditions> block",
        ),
        (
            r#"<choose><if><conditions match="all"><condition type="bill"/></conditions><conditions match="all"><condition type="bill"/></conditions></if></choose>"#,
            "Invalid <conditions> block",
        ),
    ] {
        let faults = choose_el(&xml(text)).unwrap_err();
        assert_eq!(faults.0[0].message, message, "{}", text);
    }
    assert!(choose_el(&xml(r#"<choose><if type="nothing"/></choose>"#)).is_err());
    assert!(choose_el(&xml(r#"<choose><if disambiguate="false"/></choose>"#)).is_err());
    assert!(choose_el(&xml(r#"<choose><if type="book" match="some"/></choose>"#)).is_err());
    assert!(choose_el(&xml(r#"<choose><if type="book"><text/></if></choose>"#)).is_err());
    assert!(choose_el(&xml(r#"<choose><if type="book"/><else><text/></else></choose>"#)).is_err());
    assert!(read_branch(&xml(r#"<if type="book"><conditions/></if>"#)).is_err());
    assert!(read_conditions(&xml(r#"<conditions><condition type="book"/></conditions>"#)).is_err());
    assert!(read_element(&xml(r#"<choose><if type="book"><unknown/></if></choose>"#)).is_err());
}

#[test]
fn conditions_on_the_node_itself() {
    assert!(matches!(
        read_condition(&xml(r#"<if match="any"/>"#)),
        Err(ConditionError::Unconditional(_))
    ));
    assert!(matches!(
        read_condition(&xml(r#"<if variable=""/>"#)),
        Err(ConditionError::Unconditional(_))
    ));
    assert!(matches!(
        read_condition(&xml(r#"<if variable="title" match="no"/>"#)),
        Err(ConditionError::Invalid(_))
    ));
    assert!(matches!(
        read_condition(&xml(r#"<if position="nowhere"/>"#)),
        Err(ConditionError::Invalid(_))
    ));
    let set = read_condition(&xml(r#"<if variable="  author   issued "/>"#)).unwrap();
    assert_eq!(
        set.conds,
        vec![
            Cond::Variable(AnyVariable::Name(NameVariable::Author)),
            Cond::Variable(AnyVariable::Date(DateVariable::Issued)),
        ]
    );
}

#[test]
fn attributes_are_read_by_name() {
    let node = xml(r#"<text form="short" quotes="true" text-case="title" names="a  b" empty="" twice="1" other="x"/>"#);
    assert_eq!(node.attribute("form"), Some("short"));
    assert_eq!(node.attribute("nothing"), None);
    assert_eq!(node.attribute_string("nothing"), "");
    assert_eq!(node.attribute_string("other"), "x");
    assert_eq!(
        node.attribute_names(),
        vec!["form", "quotes", "text-case", "names", "empty", "twice", "other"]
    );
    assert_eq!(attribute_optional::<VariableForm>(&node, "form"), Ok(Some(VariableForm::Short)));
    assert_eq!(attribute_optional::<VariableForm>(&node, "nothing"), Ok(None));
    assert!(attribute_optional::<VariableForm>(&node, "other").is_err());
    assert_eq!(attribute_or::<TextCase>(&node, "text-case", TextCase::Unchanged), Ok(TextCase::Title));
    assert_eq!(attribute_or::<TextCase>(&node, "nothing", TextCase::Sentence), Ok(TextCase::Sentence));
    assert_eq!(attribute_required::<VariableForm>(&node, "form"), Ok(VariableForm::Short));
    assert!(attribute_required::<VariableForm>(&node, "nothing").is_err());
    assert_eq!(attribute_flag(&node, "quotes", false), Ok(true));
    assert_eq!(attribute_flag(&node, "nothing", true), Ok(true));
    assert!(attribute_flag(&node, "other", false).is_err());
    assert_eq!(attribute_list::<Variable>(&node, "empty"), Ok(vec![]));
    assert_eq!(attribute_list::<Variable>(&node, "nothing"), Ok(vec![]));
    assert!(attribute_list::<Variable>(&node, "names").is_err());
    assert_eq!(read_formatting(&node), Ok(None));
    assert!(text_el(&node).is_err());
    let with_children = xml(r#"<a><b/><c/><b/><d/><b/></a>"#);
    assert_eq!(with_children.children_tagged("b"), vec![0, 2, 4]);
    assert_eq!(with_children.children_tagged("d"), vec![3]);
    assert_eq!(with_children.children_tagged("e"), Vec::<usize>::new());
}

#[test]
fn words_are_split_at_spaces() {
    assert_eq!(split_words("a bc  d"), vec!["a", "bc", "d"]);
    assert_eq!(split_words("  a "), vec!["a"]);
    assert_eq!(split_words(""), Vec::<String>::new());
    assert_eq!(split_words("   "), Vec::<String>::new());
    assert_eq!(split_words("one"), vec!["one"]);
}

#[test]
fn names_go_both_ways() {
    for v in [Variable::Title, Variable::DOI, Variable::ArchiveLocation, Variable::YearSuffix] {
        assert_eq!(Variable::from_name(v.name()), Some(v));
    }
    for v in [NumberVariable::Page, NumberVariable::FirstReferenceNoteNumber] {
        assert_eq!(NumberVariable::from_name(v.name()), Some(v));
    }
    assert_eq!(Variable::from_name("title-short"), Some(Variable::TitleShort));
    assert_eq!(Variable::from_name("page"), None);
    assert_eq!(CslType::from_name("legal_case"), Some(CslType::LegalCase));
    assert_eq!(CslType::from_name("map"), Some(CslType::Chart));
    assert_eq!(Match::from_name("none"), Some(Match::Neither));
    assert_eq!(LocatorType::from_name("sub-verbo"), Some(LocatorType::SubVerbo));
    assert_eq!(SimpleTerm::from_name("and others"), Some(SimpleTerm::AndOthers));
    assert_eq!(StandardVariable::from_name("page"), Some(StandardVariable::Number(NumberVariable::Page)));
    assert_eq!(StandardVariable::from_name("author"), None);
    assert_eq!(AnyVariable::from_name("author"), Some(AnyVariable::Name(NameVariable::Author)));
    assert_eq!(AnyVariable::from_name("issued"), Some(AnyVariable::Date(DateVariable::Issued)));
    assert_eq!(AnyVariable::from_name("volume"), Some(AnyVariable::Number(NumberVariable::Volume)));
    assert_eq!(AnyVariable::from_name("nothing"), None);
    assert_eq!(AnyVariable::Date(DateVariable::EventDate).name(), "event-date");
    assert_eq!(Position::IbidWithLocator.name(), "ibid-with-locator");
}

const MIXED: &str = r#"<?xml version="1.0"?>
<!-- before -->
<a x="1" y="two">
  text
  <b/>
  <!-- inside -->
  <c k="v"><d><e/></d>tail<f/></c>
  <?pi here?>
  <g><h><i><j z=""/></i></h></g>
</a>
<!-- after -->"#;

#[test]
fn documents_are_read_as_trees_of_elements() {
    for text in [MIXED, PAGE_STYLE, "<a/>", "<a><b><c/></b><b/></a>", "<n:a xmlns:n='u' n:k='v'><n:b/>x</n:a>"] {
        let doc = roxmltree::Document::parse(text).unwrap();
        assert_eq!(parse_document(text).unwrap(), convert(doc.root_element()));
    }
    let a = parse_document(MIXED).unwrap();
    assert_eq!(a.tag, "a");
    assert_eq!(a.attributes, vec![("x".to_string(), "1".to_string()), ("y".to_string(), "two".to_string())]);
    let tags: Vec<&str> = a.children.iter().map(|c| c.tag.as_str()).collect();
    assert_eq!(tags, vec!["b", "c", "g"]);
    let c = &a.children[1];
    let tags: Vec<&str> = c.children.iter().map(|c| c.tag.as_str()).collect();
    assert_eq!(tags, vec!["d", "f"]);
    assert_eq!(c.children[0].children[0].tag, "e");
    assert_eq!(a.children[2].children[0].children[0].children[0].attributes[0].0, "z");
}

#[test]
fn texts_that_are_no_documents_are_turned_down() {
    for text in ["", "<a", "<a></b>", "no markup", "<a/><b/>", "<a x='1' x='2'/>"] {
        assert_eq!(
            parse_document(text).unwrap_err(),
            roxmltree::Document::parse(text).unwrap_err(),
            "{:?}",
            text
        );
    }
}

fn record(depth: usize, element: bool, tag: &str) -> XmlRecord {
    XmlRecord { depth, element, tag: tag.to_string(), attributes: vec![] }
}

fn leaf(tag: &str) -> XmlNode {
    XmlNode { tag: tag.to_string(), attributes: vec![], children: vec![] }
}

#[test]
fn trees_are_built_from_records_in_document_order() {
    assert_eq!(tree_of(&vec![]), None);
    assert_eq!(tree_of(&vec![record(2, true, "a")]), Some(leaf("a")));
    // a( b( c ) text d ) and what follows the root is left out
    let records = vec![
        record(2, true, "a"),
        record(3, true, "b"),
        record(4, true, "c"),
        record(3, false, ""),
        record(3, true, "d"),
        record(2, true, "z"),
        record(3, true, "y"),
    ];
    let expected = XmlNode {
        tag: "a".to_string(),
        attributes: vec![],
        children: vec![
            XmlNode { tag: "b".to_string(), attributes: vec![], children: vec![leaf("c")] },
            leaf("d"),
        ],
    };
    assert_eq!(tree_of(&records), Some(expected));
    // what stands under a node that is no element goes with it
    let records = vec![record(0, true, "a"), record(1, false, ""), record(2, true, "b"), record(1, true, "c")];
    let expected = XmlNode { tag: "a".to_string(), attributes: vec![], children: vec![leaf("c")] };
    assert_eq!(tree_of(&records), Some(expected));
    // attributes are kept in order
    let mut with = record(7, true, "a");
    with.attributes = vec![("k".to_string(), "v".to_string()), ("l".to_string(), "w".to_string())];
    let built = tree_of(&vec![with]).unwrap();
    assert_eq!(built.attributes, vec![("k".to_string(), "v".to_string()), ("l".to_string(), "w".to_string())]);
}

#[test]
fn styles_are_loaded_from_text() {
    let style = style_from_text(PAGE_STYLE).unwrap();
    assert_eq!(style, read_style(&xml(PAGE_STYLE)).unwrap());
    match style_from_text("<style><citation></style>") {
        Err(StyleError::ParseError(_)) => {}
        other => panic!("read as {:?}", other),
    }
    match style_from_text("<style><macro name='a'/></style>") {
        Err(StyleError::Invalid(faults)) => {
            assert_eq!(faults.0.len(), 1);
            assert_eq!(faults.0[0].message, "Must have one <...>");
        }
        other => panic!("read as {:?}", other),
    }
}

#[test]
fn the_style_of_a_store_is_set_from_text() {
    let mut db = Processor::test_db();
    let mut with_page = Reference::empty("a", CslType::Book);
    with_page.number.push((NumberVariable::Page, NumericValue::from("5-7")));
    db.set_references(vec![with_page]);
    db.init_clusters(vec![Cluster2::Note {
        note: IntraNote::Single(1),
        id: 1,
        cites: vec![Cite::basic(1, "a")],
    }]);
    db.compute();
    assert_eq!(db.get_cluster(1), "");
    assert!(db.set_style_text(PAGE_STYLE).is_ok());
    db.compute();
    assert_eq!(db.get_cluster(1), "5-7");
    // a text that is no style leaves the store as it was
    assert!(db.set_style_text("<style/>").is_err());
    assert!(db.set_style_text("<style").is_err());
    db.compute();
    assert_eq!(db.get_cluster(1), "5-7");
    assert_eq!(db.get_style(), &style_from_text(PAGE_STYLE).unwrap());
    assert!(Processor::new("<style", Locale::new("en-GB"), Markup::plain(), false).is_err());
}

#[test]
fn values_are_read_by_their_type() {
    let node = xml(r#"<text prefix="(" suffix=")" font-style="italic" text-case="uppercase" match="any"/>"#);
    let affixes = Affixes::from_node(&node).unwrap();
    assert_eq!(affixes.prefix, "(");
    assert_eq!(affixes.suffix, ")");
    assert_eq!(Match::from_node(&node).unwrap(), Match::Any);
    assert!(Match::from_node(&xml("<if/>")).is_err());
    assert!(Match::from_node(&xml(r#"<if match="some"/>"#)).is_err());
    assert_eq!(Element::from_node(&node).ok(), read_element(&node).ok());
    assert_eq!(Style::from_node(&xml(PAGE_STYLE)).unwrap(), read_style(&xml(PAGE_STYLE)).unwrap());
    assert_eq!(<Affixes as IsOnNode>::is_on_node(&node), vec!["prefix".to_string(), "suffix".to_string()]);
    assert_eq!(<Formatting as IsOnNode>::is_on_node(&node), vec!["font-style".to_string()]);
    assert_eq!(<TextCase as IsOnNode>::is_on_node(&node), vec!["text-case".to_string()]);
    assert_eq!(<TextCase as IsOnNode>::is_on_node(&xml("<a/>")), Vec::<String>::new());
}

#[test]
fn a_child_may_stand_once() {
    let none = xml(r#"<names variable="author"><name/></names>"#);
    assert_eq!(max1_child::<NameLabel>("names", "label", &none).unwrap(), None);
    let one = xml(r#"<names variable="author"><name/><label form="short"/></names>"#);
    let label = max1_child::<NameLabel>("names", "label", &one).unwrap().unwrap();
    assert_eq!(label.form, TermFormExtended::Short);
    let two = xml(r#"<names variable="author"><label/><name/><label/></names>"#);
    let faults = max1_child::<NameLabel>("names", "label", &two).unwrap_err();
    assert_eq!(faults.0.len(), 1);
    assert_eq!(faults.0[0].message, "There can only be one <label> in a <names> block.");
    let bad = xml(r#"<names variable="author"><label form="tiny"/></names>"#);
    assert!(max1_child::<NameLabel>("names", "label", &bad).is_err());
    assert!(read_element(&two).is_err());
    assert!(read_element(&one).is_ok());
}

#[test]
fn forbidden_attributes_are_faults() {
    let with = xml(r#"<date-part name="year" suffix="." prefix=" "/>"#);
    let without = xml(r#"<date-part name="year"/>"#);
    let read = disallow_default::<Affixes>(&with, false).unwrap().unwrap();
    assert_eq!(read.suffix, ".");
    assert_eq!(read.prefix, " ");
    let read = disallow_default::<Affixes>(&without, false).unwrap().unwrap();
    assert_eq!(read.suffix, "");
    assert_eq!(disallow_default::<Affixes>(&without, true).unwrap(), None);
    let faults = disallow_default::<Affixes>(&with, true).unwrap_err();
    assert_eq!(faults.0.len(), 1);
    assert_eq!(faults.0[0].message, r#"Disallowed attribute on node: ["suffix", "prefix"]"#);
    assert_eq!(faults.0[0].message, format!("Disallowed attribute on node: {:?}", vec!["suffix", "prefix"]));
}

#[test]
fn numbers_in_attributes() {
    assert_eq!(read_uint("0"), Some(0));
    assert_eq!(read_uint("007"), Some(7));
    assert_eq!(read_uint("4294967295"), Some(4294967295));
    assert_eq!(read_uint("4294967296"), None);
    assert_eq!(read_uint("99999999999999999999999999"), None);
    assert_eq!(read_uint(""), None);
    assert_eq!(read_uint("12a"), None);
    assert_eq!(read_uint("-1"), None);
    assert_eq!(read_uint(" 1"), None);
    let node = xml(r#"<name et-al-min="3" et-al-use-first="x"/>"#);
    assert_eq!(attribute_int(&node, "et-al-min", 0), Ok(3));
    assert_eq!(attribute_int(&node, "absent", 9), Ok(9));
    assert!(attribute_int(&node, "et-al-use-first", 0).is_err());
}

#[test]
fn dates_are_read_with_their_parts() {
    let node = xml(
        r#"<date variable="issued" delimiter=" " date-parts="year-month" prefix="(" text-case="lowercase">
             <date-part name="month" form="short" suffix="." range-delimiter="-"/>
             <other/>
             <date-part name="year" font-weight="bold"/>
             <date-part name="day"/>
           </date>"#,
    );
    let date = date_el(&node).unwrap();
    assert_eq!(date.variable, DateVariable::Issued);
    assert_eq!(date.delimiter, " ");
    assert_eq!(date.parts_selector, DateParts::YearMonth);
    assert_eq!(date.text_case, TextCase::Lowercase);
    assert_eq!(date.affixes.prefix, "(");
    assert_eq!(date.date_parts.len(), 3);
    assert_eq!(date.date_parts[0].form, DatePartForm::Month(MonthForm::Short));
    assert_eq!(date.date_parts[0].affixes.suffix, ".");
    assert_eq!(date.date_parts[0].range_delimiter, RangeDelimiter("-".to_string()));
    assert_eq!(date.date_parts[1].form, DatePartForm::Year(YearForm::Long));
    assert_eq!(date.date_parts[1].formatting.unwrap().font_weight, Some(FontWeight::Bold));
    assert_eq!(date.date_parts[2].form, DatePartForm::Day(DayForm::Numeric));
    assert_eq!(DateElement::from_node(&node).unwrap(), date);
    match read_element(&node).unwrap() {
        Element::Date(d) => assert_eq!(d, date),
        other => panic!("not a date: {:?}", other),
    }
    let plain = date_el(&xml(r#"<date variable="accessed"/>"#)).unwrap();
    assert_eq!(plain.parts_selector, DateParts::YearMonthDay);
    assert!(plain.date_parts.is_empty());
    for bad in [
        r#"<date/>"#,
        r#"<date variable="title"/>"#,
        r#"<date variable="issued" date-parts="day"/>"#,
        r#"<date variable="issued"><date-part/></date>"#,
        r#"<date variable="issued"><date-part name="week"/></date>"#,
        r#"<date variable="issued"><date-part name="year" form="ordinal"/></date>"#,
        r#"<date variable="issued"><date-part name="day" form="long"/></date>"#,
        r#"<date variable="issued"><date-part name="day" text-case="loud"/></date>"#,
    ] {
        assert!(date_el(&xml(bad)).is_err(), "{}", bad);
    }
}

#[test]
fn the_dates_of_a_locale_have_no_affixes() {
    let node = xml(
        r#"<date form="numeric" delimiter="/"><date-part name="month" form="numeric-leading-zeros"/><date-part name="year" form="short"/></date>"#,
    );
    let date = LocaleDate::from_node(&node).unwrap();
    assert_eq!(date.form, DateForm::Numeric);
    assert_eq!(date.delimiter, "/");
    assert_eq!(date.date_parts.len(), 2);
    assert_eq!(date.date_parts[0].form, DatePartForm::Month(MonthForm::NumericLeadingZeros));
    assert_eq!(date.date_parts[1].form, DatePartForm::Year(YearForm::Short));
    assert_eq!(date.date_parts[1].affixes, Affixes::default());
    let with = xml(r#"<date form="text"><date-part name="year" suffix=","/></date>"#);
    let faults = LocaleDate::from_node(&with).unwrap_err();
    assert_eq!(faults.0[0].message, r#"Disallowed attribute on node: ["suffix"]"#);
    assert!(read_date_part(&with.children[0], true).is_ok());
    assert!(read_date_part(&with.children[0], false).is_err());
    assert!(LocaleDate::from_node(&xml(r#"<date/>"#)).is_err());
    assert!(LocaleDate::from_node(&xml(r#"<date form="long"/>"#)).is_err());
    let localized =
        LocalizedDate::from_node(&xml(r#"<date variable="issued" form="text" date-parts="year" suffix="."/>"#))
            .unwrap();
    assert_eq!(localized.variable, DateVariable::Issued);
    assert_eq!(localized.form, DateForm::Text);
    assert_eq!(localized.parts_selector, DateParts::Year);
    assert_eq!(localized.affixes.suffix, ".");
    assert!(LocalizedDate::from_node(&xml(r#"<date variable="issued"/>"#)).is_err());
    assert!(LocalizedDate::from_node(&xml(r#"<date form="text"/>"#)).is_err());
}

#[test]
fn names_are_read_with_how_they_are_shown() {
    let node = xml(
        r#"<names variable="author editor">
             <name and="text" delimiter=", " delimiter-precedes-last="always" et-al-min="4"
                   et-al-use-first="1" et-al-use-last="true" form="short" initialize="false"
                   initialize-with=". " name-as-sort-order="first" sort-separator=", "
                   font-variant="small-caps" prefix="[">
               <name-part name="family" text-case="uppercase"/>
             </name>
             <label form="short"/>
             <name/>
           </names>"#,
    );
    let names = names_el(&node).unwrap();
    assert_eq!(names.names.len(), 2);
    let first = &names.names[0];
    assert_eq!(first.and, "text");
    assert_eq!(first.delimiter, ", ");
    assert_eq!(first.delimiter_precedes_last, DelimiterPrecedes::Always);
    assert_eq!(first.delimiter_precedes_et_al, DelimiterPrecedes::Contextual);
    assert_eq!(first.et_al_min, 4);
    assert_eq!(first.et_al_use_first, 1);
    assert_eq!(first.et_al_subsequent_min, 0);
    assert_eq!(first.et_al_subsequent_use_first, 0);
    assert!(first.et_al_use_last);
    assert_eq!(first.form, NameForm::Short);
    assert!(!first.initialize);
    assert_eq!(first.initialize_with, ". ");
    assert_eq!(first.name_as_sort_order, Some(NameAsSortOrder::First));
    assert_eq!(first.sort_separator, ", ");
    assert_eq!(first.formatting.unwrap().font_variant, Some(FontVariant::SmallCaps));
    assert_eq!(first.affixes.prefix, "[");
    let second = &names.names[1];
    assert_eq!(second.form, NameForm::Long);
    assert!(second.initialize);
    assert!(!second.et_al_use_last);
    assert_eq!(second.name_as_sort_order, None);
    assert_eq!(second.and, "");
    assert_eq!(Name::from_node(&node.children[0]).unwrap(), names.names[0]);
    assert_eq!(read_children::<Name>(&node, "name").unwrap(), names.names);
    assert_eq!(read_children::<Name>(&node, "nothing").unwrap(), vec![]);
    let part = NamePart::from_node(&node.children[0].children[0]).unwrap();
    assert_eq!(part.name, NamePartName::Family);
    assert_eq!(part.text_case, TextCase::Uppercase);
    assert_eq!(part.formatting, None);
    assert!(NamePart::from_node(&xml("<name-part/>")).is_err());
    assert!(NamePart::from_node(&xml(r#"<name-part name="middle"/>"#)).is_err());
    for bad in [
        r#"<name et-al-min="many"/>"#,
        r#"<name et-al-use-first="-1"/>"#,
        r#"<name et-al-subsequent-min="1.5"/>"#,
        r#"<name et-al-subsequent-use-first=""/>"#,
        r#"<name et-al-use-last="yes"/>"#,
        r#"<name initialize="0"/>"#,
        r#"<name form="tiny"/>"#,
        r#"<name delimiter-precedes-last="sometimes"/>"#,
        r#"<name delimiter-precedes-et-al="sometimes"/>"#,
        r#"<name name-as-sort-order="none"/>"#,
        r#"<name font-style="wavy"/>"#,
    ] {
        assert!(read_name(&xml(bad)).is_err(), "{}", bad);
        let inside = format!(r#"<names variable="author">{}</names>"#, bad);
        assert!(names_el(&xml(&inside)).is_err(), "{}", inside);
    }
    // every name that stands for nothing gives its fault
    let two = xml(r#"<names variable="author"><name form="a"/><name/><name initialize="b"/></names>"#);
    assert_eq!(read_children::<Name>(&two, "name").unwrap_err().0.len(), 2);
}

#[test]
fn formatting_and_case_by_their_type() {
    let node = xml(r#"<text font-style="italic" range-delimiter="-"/>"#);
    let f = Formatting::from_node(&node).unwrap();
    assert_eq!(f.font_style, Some(FontStyle::Italic));
    assert_eq!(f.font_weight, None);
    assert_eq!(TextCase::from_node(&node).unwrap(), TextCase::Unchanged);
    assert_eq!(RangeDelimiter::from_node(&node).unwrap(), RangeDelimiter("-".to_string()));
    assert_eq!(<RangeDelimiter as IsOnNode>::is_on_node(&node), vec!["range-delimiter".to_string()]);
    let plain = xml("<text/>");
    let f = Formatting::from_node(&plain).unwrap();
    assert_eq!(
        f,
        Formatting {
            font_style: None,
            font_variant: None,
            font_weight: None,
            text_decoration: None,
            vertical_alignment: None
        }
    );
    assert_eq!(RangeDelimiter::from_node(&plain).unwrap(), RangeDelimiter(String::new()));
    assert!(Formatting::from_node(&xml(r#"<text font-weight="heavy"/>"#)).is_err());
    assert!(TextCase::from_node(&xml(r#"<text text-case="loud"/>"#)).is_err());
    assert_eq!(TextCase::from_node(&xml(r#"<text text-case="title"/>"#)).unwrap(), TextCase::Title);
}

#[test]
fn of_two_macros_with_one_name_the_later_stays() {
    let text = r#"<style>
        <macro name="a"><text value="first"/></macro>
        <macro name="b"><text value="other"/></macro>
        <macro name="a"><text value="second"/></macro>
        <citation><layout><text macro="a"/><text macro="b"/></layout></citation>
    </style>"#;
    let style = style_from_text(text).unwrap();
    assert_eq!(style.macros.len(), 2);
    assert_eq!(style.macros[0].name, "a");
    assert_eq!(style.macros[1].name, "b");
    let mut db = Processor::new(text, Locale::new("en-US"), Markup::plain(), false).unwrap();
    db.set_references(vec![Reference::empty("r", CslType::Book)]);
    db.init_clusters(vec![Cluster2::Note {
        note: IntraNote::Single(1),
        id: 1,
        cites: vec![Cite::basic(1, "r")],
    }]);
    db.compute();
    assert_eq!(db.get_cluster(1), "secondother");
    let mut macros = Vec::new();
    insert_macro(&mut macros, MacroDef { name: "x".to_string(), elements: vec![] });
    insert_macro(&mut macros, MacroDef { name: "y".to_string(), elements: vec![] });
    let again = read_element(&xml(r#"<text value="v"/>"#)).unwrap();
    insert_macro(&mut macros, MacroDef { name: "x".to_string(), elements: vec![again] });
    assert_eq!(macros.len(), 2);
    assert_eq!(macros[0].name, "x");
    assert_eq!(macros[0].elements.len(), 1);
    assert_eq!(macros[1].name, "y");
}

#[test]
fn a_substitute_may_stand_once_in_names() {
    let none = names_el(&xml(r#"<names variable="author"/>"#)).unwrap();
    assert_eq!(none.substitute, None);
    let empty = names_el(&xml(r#"<names variable="author"><substitute><text value="x"/></substitute></names>"#))
        .unwrap();
    assert_eq!(empty.substitute, Some(Substitute(vec![])));
    assert_eq!(Substitute::from_node(&xml("<substitute/>")).unwrap(), Substitute(vec![]));
    // a name is no rendering element
    let faults = Substitute::from_node(&xml("<substitute><name/><text/><name/></substitute>")).unwrap_err();
    assert_eq!(faults.0.len(), 2);
    assert_eq!(faults.0[0].message, "Unrecognised node.");
    assert_eq!(read_element(&xml("<name/>")).unwrap_err().0[0].message, "Unrecognised node.");
    assert!(names_el(&xml(r#"<names variable="author"><substitute><name/></substitute></names>"#)).is_err());
    let two = names_el(&xml(r#"<names variable="author"><substitute/><substitute/></names>"#)).unwrap_err();
    assert_eq!(two.0[0].message, "There can only be one <substitute> in a <names> block.");
}

#[test]
fn citations_name_their_rule_for_given_names() {
    let plain = style_from_text("<style><citation><layout/></citation></style>").unwrap();
    assert_eq!(plain.citation.givenname_disambiguation_rule, GivenNameDisambiguationRule::ByCite);
    let named = style_from_text(
        r#"<style><citation givenname-disambiguation-rule="primary-name-with-initials"><layout/></citation></style>"#,
    )
    .unwrap();
    assert_eq!(
        named.citation.givenname_disambiguation_rule,
        GivenNameDisambiguationRule::PrimaryNameWithInitials
    );
    assert!(style_from_text(
        r#"<style><citation givenname-disambiguation-rule="some"><layout/></citation></style>"#
    )
    .is_err());
    assert_eq!(GivenNameDisambiguationRule::from_name("all-names"), Some(GivenNameDisambiguationRule::AllNames));
    assert_eq!(GivenNameDisambiguationRule::AllNamesWithInitials.name(), "all-names-with-initials");
    assert_eq!(GivenNameDisambiguationRule::PrimaryName.name(), "primary-name");
}

#[test]
fn a_style_that_calls_an_unknown_macro_is_not_loaded() {
    let text = r#"<style>
        <macro name="a"><text macro="b"/></macro>
        <citation><layout><text macro="a"/></layout></citation>
    </style>"#;
    // it is read, but it cannot be used
    let read = read_style(&xml(text)).unwrap();
    assert!(!read.validate());
    assert!(load_style(&xml(text)).is_err());
    match style_from_text(text) {
        Err(StyleError::Invalid(faults)) => {
            assert_eq!(faults.0.len(), 1);
            assert_eq!(faults.0[0].message, "Style calls a macro that it does not define.");
        }
        other => panic!("read as {:?}", other),
    }
    assert!(Processor::new(text, Locale::new("en-US"), Markup::plain(), false).is_err());
    let mut db = Processor::test_db();
    assert!(db.set_style_text(text).is_err());
    let deep = r#"<style><citation><layout><group><choose><if variable="title"><text value="x"/></if>
        <else><text macro="nowhere"/></else></choose></group></layout></citation></style>"#;
    assert!(style_from_text(deep).is_err());
    let fine = r#"<style><macro name="nowhere"/><citation><layout><group><choose><if variable="title"><text value="x"/></if>
        <else><text macro="nowhere"/></else></choose></group></layout></citation></style>"#;
    assert!(style_from_text(fine).is_ok());
    assert!(load_style(&xml(fine)).unwrap().validate());
}
