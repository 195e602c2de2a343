use citeproc::api::{ClusterId, ClusterPosition, ReorderingError};
use citeproc::cite::{Cite, Cluster2, ClusterNumber, IntraNote};
use citeproc::db::Processor;
use citeproc::locale::Locale;
use citeproc::markup::Markup;
use citeproc::numeric::NumericValue;
use citeproc::reference::Reference;
use citeproc::style::{
    Affixes, Choose, Citation, Cond, Conditions, CondSet, CslType, Element, Else, Features,
    GivenNameDisambiguationRule, Group, IfThen, Layout, Match, NumberElement, NumericForm,
    Style, TextCase, TextElement, TextSource, VariableForm,
};
use citeproc::terms::{SimpleTerm, TermFormExtended, TextTermSelector};
use citeproc::variables::{AnyVariable, NumberVariable, StandardVariable, Variable};
use std::sync::Arc;

fn text(source: TextSource, prefix: &str) -> Element {
    Element::Text(TextElement {
        source,
        formatting: None,
        affixes: Affixes { prefix: prefix.to_string(), suffix: String::new() },
        quotes: false,
        text_case: TextCase::Unchanged,
    })
}

fn number(variable: NumberVariable, prefix: &str) -> Element {
    Element::Number(NumberElement {
        variable,
        form: NumericForm::Numeric,
        formatting: None,
        affixes: Affixes { prefix: prefix.to_string(), suffix: String::new() },
        text_case: TextCase::Unchanged,
    })
}

fn style_of(elements: Vec<Element>, delimiter: &str) -> Style {
    Style {
        macros: vec![],
        citation: Citation {
            disambiguate_add_names: false,
            disambiguate_add_givenname: false,
            givenname_disambiguation_rule: GivenNameDisambiguationRule::ByCite,
            disambiguate_add_year_suffix: false,
            layout: Layout {
                formatting: None,
                affixes: Affixes::default(),
                delimiter: delimiter.to_string(),
                elements,
            },
        },
        features: Features { condition_date_parts: false },
        default_locale: "en-US".to_string(),
    }
}

/// Title, then the note of the first cite of the reference where that is known.
fn title_style() -> Style {
    style_of(
        vec![Element::Group(Group {
            formatting: None,
            delimiter: String::new(),
            affixes: Affixes::default(),
            elements: vec![
                text(
                    TextSource::Variable(
                        StandardVariable::Ordinary(Variable::Title),
                        VariableForm::Long,
                    ),
                    "",
                ),
                number(NumberVariable::FirstReferenceNoteNumber, " n. "),
            ],
        })],
        "; ",
    )
}

fn page_style() -> Style {
    let choose = Element::Choose(Arc::new(Choose(
        IfThen(
            Conditions(
                Match::All,
                vec![CondSet {
                    match_type: Match::All,
                    conds: vec![Cond::Variable(AnyVariable::Number(NumberVariable::Page))],
                }],
            ),
            vec![number(NumberVariable::Page, "")],
        ),
        vec![],
        Else(vec![text(TextSource::Value("No page".to_string()), "")]),
    )));
    style_of(vec![choose], "; ")
}

fn titled(id: &str, title: &str) -> Reference {
    let mut r = Reference::empty(id, CslType::Book);
    r.ordinary.push((Variable::Title, title.to_string()));
    r
}

fn note(id: u32, n: u32, refs: &[&str]) -> Cluster2 {
    Cluster2::Note {
        note: IntraNote::Single(n),
        id,
        cites: refs
            .iter()
            .enumerate()
            .map(|(i, r)| Cite::basic(id * 100 + i as u32, r))
            .collect(),
    }
}

fn store(style: Style, save_updates: bool) -> Processor {
    Processor::with_style(style, Locale::new("en-US"), Markup::plain(), save_updates)
}

fn ids(summary: &citeproc::api::UpdateSummary) -> Vec<u32> {
    summary.clusters.iter().map(|(id, _)| id.raw()).collect()
}

#[test]
fn end_to_end_page_or_no_page() {
    let mut db = store(page_style(), false);
    let mut with_page = Reference::empty("a", CslType::Book);
    with_page.number.push((NumberVariable::Page, NumericValue::from("5-7")));
    db.set_references(vec![with_page, Reference::empty("b", CslType::Book)]);
    db.init_clusters(vec![note(1, 1, &["a"]), note(2, 2, &["b"]), note(3, 3, &["a", "b"])]);
    db.compute();
    assert_eq!(db.get_cluster(1), "5-7");
    assert_eq!(db.get_cluster(2), "No page");
    assert_eq!(db.get_cluster(3), "5-7; No page");
    assert_eq!(db.get_cluster(4), "");
}

#[test]
fn unrelated_references_leave_clusters_alone() {
    let mut db = store(title_style(), true);
    db.set_references(vec![titled("a", "A"), titled("b", "B"), titled("c", "C")]);
    db.init_clusters(vec![note(1, 1, &["a"]), note(2, 2, &["b"]), note(3, 3, &["a", "b"])]);
    let first = db.batched_updates();
    assert_eq!(ids(&first), vec![1, 2, 3]);
    assert_eq!(
        first.clusters,
        vec![
            (ClusterId::new(1), "A".to_string()),
            (ClusterId::new(2), "B".to_string()),
            (ClusterId::new(3), "A n. 1; B n. 2".to_string()),
        ]
    );
    // Nothing changed: nothing to hand over.
    assert!(db.batched_updates().clusters.is_empty());
    db.compute();
    assert!(db.batched_updates().clusters.is_empty());
    // A reference that nothing cites.
    db.insert_reference(titled("c", "C again"));
    assert!(db.batched_updates().clusters.is_empty());
    db.insert_reference(titled("d", "D"));
    assert!(db.batched_updates().clusters.is_empty());
    // A reference that two clusters cite.
    db.insert_reference(titled("b", "B again"));
    let second = db.batched_updates();
    assert_eq!(
        second.clusters,
        vec![
            (ClusterId::new(2), "B again".to_string()),
            (ClusterId::new(3), "A n. 1; B again n. 2".to_string()),
        ]
    );
    assert_eq!(db.get_cluster(1), "A");
    assert!(db.batched_updates().clusters.is_empty());
}

#[test]
fn nothing_is_logged_unless_asked_for() {
    let mut db = store(title_style(), false);
    db.insert_reference(titled("a", "A"));
    db.insert_cluster(note(1, 1, &["a"]));
    let summary = db.batched_updates();
    assert!(summary.clusters.is_empty());
    assert_eq!(summary.bibliography, None);
    assert_eq!(db.get_cluster(1), "A");
}

#[test]
fn drain_forgets_the_log() {
    let mut db = store(title_style(), true);
    db.insert_reference(titled("a", "A"));
    db.insert_cluster(note(1, 1, &["a"]));
    db.drain();
    assert!(db.batched_updates().clusters.is_empty());
    db.insert_reference(titled("a", "A2"));
    db.drain();
    assert!(db.batched_updates().clusters.is_empty());
    assert_eq!(db.get_cluster(1), "A2");
}

#[test]
fn references_that_come_later_are_picked_up() {
    let mut db = store(title_style(), true);
    db.insert_cluster(note(1, 1, &["a"]));
    assert_eq!(db.batched_updates().clusters, vec![(ClusterId::new(1), String::new())]);
    db.insert_reference(titled("a", "A"));
    assert_eq!(db.batched_updates().clusters, vec![(ClusterId::new(1), "A".to_string())]);
    assert_eq!(db.get_reference("a").map(|r| r.id.as_str()), Some("a"));
    assert!(db.get_reference("b").is_none());
}

#[test]
fn the_order_of_the_document_decides_what_is_first() {
    let mut db = store(title_style(), true);
    db.set_references(vec![titled("a", "A")]);
    db.init_clusters(vec![note(1, 4, &["a"]), note(2, 9, &["a"])]);
    db.compute();
    assert_eq!(db.get_cluster(1), "A");
    assert_eq!(db.get_cluster(2), "A n. 4");
    db.renumber_clusters(&vec![(1, ClusterNumber::Note(IntraNote::Multi(5, 1))), (7, ClusterNumber::InText(1))]);
    assert_eq!(ids(&db.batched_updates()), vec![1, 2, 1, 2]);
    assert_eq!(db.get_cluster(2), "A n. 5");
    db.renumber_clusters(&vec![(1, ClusterNumber::InText(3))]);
    assert_eq!(db.get_cluster(2), "A");
    // The other way round.
    db.init_clusters(vec![note(2, 1, &["a"]), note(1, 2, &["a"])]);
    assert_eq!(db.get_cluster(2), "A");
    assert_eq!(db.get_cluster(1), "A n. 1");
}

#[test]
fn removed_clusters_are_empty_and_gone() {
    let mut db = store(title_style(), true);
    db.set_references(vec![titled("a", "A")]);
    db.init_clusters(vec![note(1, 1, &["a"]), note(2, 2, &["a"])]);
    db.drain();
    assert_eq!(db.get_cluster(2), "A n. 1");
    db.remove_cluster(1);
    assert_eq!(ids(&db.batched_updates()), vec![2]);
    assert_eq!(db.get_cluster(2), "A");
    assert_eq!(db.get_cluster(1), "");
    db.remove_cluster(17);
    assert_eq!(db.get_cluster(2), "A");
}

#[test]
fn inserting_a_cluster_twice_keeps_its_place() {
    let mut db = store(title_style(), true);
    db.set_references(vec![titled("a", "A"), titled("b", "B")]);
    db.insert_cluster(note(1, 1, &["a"]));
    db.insert_cluster(note(2, 2, &["b"]));
    db.insert_cluster(note(1, 1, &["b"]));
    assert_eq!(ids(&db.batched_updates()), vec![1, 2]);
    assert_eq!(db.get_cluster(1), "B");
    assert_eq!(db.get_cluster(2), "B n. 1");
}

#[test]
fn a_new_style_renders_everything_anew() {
    let mut db = store(title_style(), true);
    let mut a = titled("a", "A");
    a.number.push((NumberVariable::Page, NumericValue::from("12")));
    db.set_references(vec![a]);
    db.init_clusters(vec![note(1, 1, &["a"])]);
    assert_eq!(db.batched_updates().clusters, vec![(ClusterId::new(1), "A".to_string())]);
    db.set_style(page_style());
    assert_eq!(db.get_style().citation.layout.delimiter, "; ");
    assert_eq!(db.batched_updates().clusters, vec![(ClusterId::new(1), "12".to_string())]);
    db.set_locale(Locale::new("de-DE"));
    assert_eq!(ids(&db.batched_updates()), vec![1]);
}

#[test]
fn get_cluster_renders_what_is_stale() {
    let mut db = store(title_style(), true);
    db.set_references(vec![titled("a", "A")]);
    db.init_clusters(vec![note(1, 1, &["a"]), note(2, 2, &["a"])]);
    assert_eq!(db.get_cluster(2), "A n. 1");
    // What get_cluster rendered is logged, and not rendered again.
    assert_eq!(ids(&db.batched_updates()), vec![2, 1]);
}

#[test]
fn the_delimiter_of_the_layout_joins_elements_and_cites() {
    let style = style_of(
        vec![
            text(
                TextSource::Variable(StandardVariable::Ordinary(Variable::Title), VariableForm::Long),
                "",
            ),
            number(NumberVariable::Page, "p. "),
        ],
        ", ",
    );
    let mut db = store(style, false);
    let mut a = titled("a", "A");
    a.number.push((NumberVariable::Page, NumericValue::from("3")));
    db.set_references(vec![a, titled("b", "B")]);
    db.init_clusters(vec![note(1, 1, &["a", "b", "missing"])]);
    assert_eq!(db.get_cluster(1), "A, p. 3, B");
}

fn at(id: u32, note: Option<u32>) -> ClusterPosition {
    ClusterPosition { id: ClusterId::new(id), note }
}

#[test]
fn cluster_order_sets_ids_and_places() {
    let mut db = store(title_style(), true);
    db.set_references(vec![titled("a", "A")]);
    db.init_clusters(vec![note(1, 9, &["a"]), note(2, 9, &["a"]), note(3, 9, &["a"])]);
    db.drain();
    assert_eq!(db.get_cluster(3), "A n. 9");
    assert_eq!(
        db.set_cluster_order(&vec![at(3, None), at(2, Some(4)), at(1, Some(4)), at(3, Some(6))]),
        Ok(())
    );
    assert_eq!(ids(&db.batched_updates()), vec![3, 2, 1]);
    assert_eq!(db.get_cluster(3), "A");
    assert_eq!(db.get_cluster(2), "A n. 6");
    assert_eq!(db.set_cluster_order(&vec![at(2, Some(4)), at(1, Some(4))]), Ok(()));
    assert_eq!(db.get_cluster(2), "A");
    assert_eq!(db.get_cluster(1), "A n. 4");
    assert_eq!(db.set_cluster_order(&vec![]), Ok(()));
    assert_eq!(db.get_cluster(1), "A");
}

#[test]
fn cluster_order_reports_the_first_fault() {
    let mut db = store(title_style(), true);
    db.set_references(vec![titled("a", "A")]);
    db.init_clusters(vec![note(1, 1, &["a"]), note(2, 2, &["a"])]);
    db.drain();
    assert_eq!(
        db.set_cluster_order(&vec![at(1, Some(1)), at(2, Some(2)), at(1, Some(3)), at(2, Some(1))]),
        Err(ReorderingError::NonMonotonicNoteNumber(1))
    );
    assert_eq!(
        db.set_cluster_order(&vec![at(1, Some(5)), at(2, None), at(1, Some(4)), at(7, None)]),
        Err(ReorderingError::NonMonotonicNoteNumber(4))
    );
    assert_eq!(
        db.set_cluster_order(&vec![at(1, Some(5)), at(7, None), at(1, Some(4))]),
        Err(ReorderingError::NonExistentCluster(ClusterId::new(7)))
    );
    assert_eq!(
        db.set_cluster_order(&vec![at(9, Some(5))]),
        Err(ReorderingError::NonExistentCluster(ClusterId::new(9)))
    );
    // Nothing was changed, and nothing needs rendering.
    assert!(db.batched_updates().clusters.is_empty());
    assert_eq!(db.get_cluster(2), "A n. 1");
    // Equal note numbers are in order.
    assert_eq!(db.set_cluster_order(&vec![at(1, Some(5)), at(2, Some(5))]), Ok(()));
}

#[test]
fn cites_are_found_by_identifier() {
    let mut db = store(title_style(), false);
    db.init_clusters(vec![note(1, 1, &["a", "b"]), note(2, 2, &["c"])]);
    assert_eq!(db.get_cite(100).map(|c| c.ref_id.as_str()), Some("a"));
    assert_eq!(db.get_cite(101).map(|c| c.ref_id.as_str()), Some("b"));
    assert_eq!(db.get_cite(200).map(|c| c.ref_id.as_str()), Some("c"));
    assert!(db.get_cite(300).is_none());
    db.remove_cluster(1);
    assert!(db.get_cite(100).is_none());
}

#[test]
fn locales_are_stored_by_language() {
    let mut db = Processor::test_db();
    assert!(!db.has_cached_locale("en-US"));
    db.store_locales(vec![Locale::new("de-DE"), Locale::new("fr-FR"), Locale::new("de-DE")]);
    assert!(db.has_cached_locale("de-DE"));
    assert!(db.has_cached_locale("fr-FR"));
    assert!(!db.has_cached_locale("en-US"));
    db.store_locales(vec![Locale::new("en-US")]);
    assert!(db.has_cached_locale("en-US"));
}

#[test]
fn a_stored_locale_in_the_language_of_the_style_is_read() {
    let and = TextTermSelector::Simple(SimpleTerm::And, TermFormExtended::Long);
    let style = style_of(vec![text(TextSource::Term(and, false), "")], "");
    let mut db = store(style, true);
    db.insert_reference(titled("a", "A"));
    db.insert_cluster(note(1, 1, &["a"]));
    assert_eq!(db.batched_updates().clusters, vec![(ClusterId::new(1), String::new())]);
    let mut german = Locale::new("de-DE");
    german.add_term(and, "und", "und");
    db.store_locales(vec![german]);
    assert!(db.batched_updates().clusters.is_empty());
    let mut english = Locale::new("en-US");
    english.add_term(and, "and", "and");
    db.store_locales(vec![english]);
    assert_eq!(db.batched_updates().clusters, vec![(ClusterId::new(1), "and".to_string())]);
}

#[test]
fn languages_in_use() {
    let mut db = store(title_style(), false);
    assert_eq!(db.get_langs_in_use(), vec!["en-US".to_string()]);
    let mut a = titled("a", "A");
    a.language = Some("fr-FR".to_string());
    let mut b = titled("b", "B");
    b.language = Some("en-US".to_string());
    let mut c = titled("c", "C");
    c.language = Some("fr-FR".to_string());
    db.set_references(vec![a, titled("d", "D"), b, c]);
    assert_eq!(db.get_langs_in_use(), vec!["fr-FR".to_string(), "en-US".to_string()]);
    let mut e = titled("a", "A");
    e.language = Some("de-DE".to_string());
    db.insert_reference(e);
    assert_eq!(
        db.get_langs_in_use(),
        vec!["de-DE".to_string(), "en-US".to_string(), "fr-FR".to_string()]
    );
}

#[test]
fn the_trial_store_renders_nothing() {
    let mut db = Processor::test_db();
    db.insert_reference(titled("a", "A"));
    db.insert_cluster(note(1, 1, &["a"]));
    db.compute();
    assert_eq!(db.get_cluster(1), "");
    assert!(db.batched_updates().clusters.is_empty());
}
