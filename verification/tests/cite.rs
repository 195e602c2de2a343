use citeproc::cite::{Cite, Cluster2, ClusterNumber, IntraNote, Locator, Suppression};
use citeproc::numeric::NumericValue;
use citeproc::terms::LocatorType;
use std::cmp::Ordering;

#[test]
fn notes_are_ordered_by_number() {
    for (a, b) in [(0u32, 1u32), (1, 2), (7, 300), (0, u32::MAX)] {
        assert!(ClusterNumber::Note(IntraNote::Single(a)) < ClusterNumber::Note(IntraNote::Single(b)));
        assert!(ClusterNumber::Note(IntraNote::Single(b)) > ClusterNumber::Note(IntraNote::Single(a)));
    }
}

#[test]
fn a_lone_cluster_comes_before_numbered_ones() {
    for n in [0u32, 1, 8, u32::MAX] {
        for d in [0u32, 1, 2, u32::MAX] {
            assert!(
                ClusterNumber::Note(IntraNote::Single(n)) < ClusterNumber::Note(IntraNote::Multi(n, d))
            );
        }
    }
    assert!(IntraNote::Single(9) < IntraNote::Multi(1, 1));
}

#[test]
fn numbered_clusters_follow_their_second_number() {
    assert!(ClusterNumber::Note(IntraNote::Multi(8, 1)) < ClusterNumber::Note(IntraNote::Multi(8, 2)));
    assert!(ClusterNumber::Note(IntraNote::Multi(7, 9)) < ClusterNumber::Note(IntraNote::Multi(8, 1)));
    assert_eq!(
        IntraNote::Multi(3, 4).partial_cmp(&IntraNote::Multi(3, 4)),
        Some(Ordering::Equal)
    );
}

#[test]
fn text_comes_before_notes() {
    assert!(ClusterNumber::InText(900) < ClusterNumber::Note(IntraNote::Single(1)));
    assert!(ClusterNumber::Note(IntraNote::Single(1)) > ClusterNumber::InText(900));
    assert!(ClusterNumber::InText(1) < ClusterNumber::InText(2));
    assert_eq!(
        ClusterNumber::InText(4).partial_cmp(&ClusterNumber::InText(4)),
        Some(Ordering::Equal)
    );
}

#[test]
fn derived_order_agrees_with_comparison() {
    let all = [
        ClusterNumber::InText(0),
        ClusterNumber::InText(5),
        ClusterNumber::Note(IntraNote::Single(1)),
        ClusterNumber::Note(IntraNote::Single(2)),
        ClusterNumber::Note(IntraNote::Multi(1, 1)),
        ClusterNumber::Note(IntraNote::Multi(1, 2)),
        ClusterNumber::Note(IntraNote::Multi(2, 0)),
    ];
    for a in all.iter() {
        for b in all.iter() {
            assert_eq!(a.partial_cmp(b), Some(a.cmp(b)));
        }
    }
}

#[test]
fn note_number_of_either_variant() {
    assert_eq!(IntraNote::Single(32).note_number(), 32);
    assert_eq!(IntraNote::Multi(8, 2).note_number(), 8);
}

#[test]
fn sub_note_is_the_distance_in_notes() {
    assert_eq!(
        ClusterNumber::Note(IntraNote::Single(10)).sub_note(IntraNote::Single(4)),
        Some(6)
    );
    assert_eq!(
        ClusterNumber::Note(IntraNote::Multi(10, 3)).sub_note(IntraNote::Multi(10, 1)),
        Some(0)
    );
    assert_eq!(
        ClusterNumber::Note(IntraNote::Single(5)).sub_note(IntraNote::Multi(2, 7)),
        Some(3)
    );
    assert_eq!(ClusterNumber::InText(10).sub_note(IntraNote::Single(4)), None);
}

#[test]
fn clusters_split_into_their_parts() {
    let c = Cluster2::Note {
        note: IntraNote::Single(32),
        id: 5,
        cites: vec![],
    };
    assert_eq!(c.id(), 5);
    assert_eq!(c.cluster_number(), ClusterNumber::Note(IntraNote::Single(32)));
    let c2 = Cluster2::Note {
        note: IntraNote::Multi(8, 2),
        id: 5,
        cites: vec![Cite::basic(1, "smith")],
    };
    let (id, number, cites) = c2.split();
    assert_eq!(id, 5);
    assert_eq!(number, ClusterNumber::Note(IntraNote::Multi(8, 2)));
    assert_eq!(cites.len(), 1);
    let c3 = Cluster2::InText {
        in_text: 32,
        id: 6,
        cites: vec![],
    };
    assert_eq!(c3.id(), 6);
    assert_eq!(c3.cluster_number(), ClusterNumber::InText(32));
    assert_eq!(c3.split(), (6, ClusterNumber::InText(32), vec![]));
}

#[test]
fn basic_cite_has_nothing_but_its_reference() {
    let c = Cite::basic(3, "jones");
    assert_eq!(c.id, 3);
    assert_eq!(c.ref_id, "jones");
    assert_eq!(c.prefix, None);
    assert_eq!(c.suffix, None);
    assert_eq!(c.suppression, None);
    assert!(c.locators.is_empty());
    assert_eq!(c.locator_extra, None);
    assert_eq!(c.locator_date, None);
    assert_ne!(Some(Suppression::InText), Some(Suppression::Rest));
}

#[test]
fn locator_gives_type_and_value() {
    let l = Locator(LocatorType::Page, NumericValue::from("5-7"));
    assert_eq!(l.type_of(), LocatorType::Page);
    assert_eq!(l.value(), &NumericValue::from("5-7"));
}
