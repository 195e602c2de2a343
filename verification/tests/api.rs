use citeproc::api::{
    preview_place, BibliographyUpdate, ClusterId, ClusterPosition, IncludeUncited, Interner,
    ReorderingError, SupportedFormat, UpdateSummary,
};
use citeproc::markup::Markup;
use citeproc::string_id;
use std::str::FromStr;

#[test]
fn formats_make_their_markup() {
    assert_eq!(SupportedFormat::Html.make_markup(), Markup::Html { test_suite: false });
    assert_eq!(SupportedFormat::TestHtml.make_markup(), Markup::Html { test_suite: true });
    assert_eq!(SupportedFormat::Rtf.make_markup(), Markup::Rtf);
    assert_eq!(SupportedFormat::Plain.make_markup(), Markup::Plain);
    assert_eq!(Markup::html(), Markup::Html { test_suite: false });
    assert_eq!(Markup::test_html(), Markup::Html { test_suite: true });
}

#[test]
fn formats_are_read_by_name() {
    assert_eq!(SupportedFormat::from_str("html"), Ok(SupportedFormat::Html));
    assert_eq!(SupportedFormat::from_str("rtf"), Ok(SupportedFormat::Rtf));
    assert_eq!(SupportedFormat::from_str("plain"), Ok(SupportedFormat::Plain));
    assert_eq!(SupportedFormat::from_str("test_html"), Err(()));
    assert_eq!(SupportedFormat::from_str("HTML"), Err(()));
    assert_eq!(SupportedFormat::from_name(""), None);
    assert_eq!(SupportedFormat::from_name("plain"), Some(SupportedFormat::Plain));
}

#[test]
fn errors_have_their_messages() {
    assert_eq!(
        ReorderingError::NonMonotonicNoteNumber(3).message(),
        "set_cluster_order called with a note number 3 that was out of order (e.g. [1, 2, 3, 1])"
    );
    assert_eq!(
        ReorderingError::DidNotSupplyZeroPosition.message(),
        "call to preview_citation_cluster must provide exactly one preview position"
    );
    assert_eq!(
        ReorderingError::NonExistentCluster(ClusterId::new(12)).message(),
        "non-existent cluster 12"
    );
}

#[test]
fn missing_clusters_are_named_for_the_host() {
    let mut interner = Interner::new();
    interner.names.push("zero".to_string());
    interner.names.push("one".to_string());
    assert_eq!(
        ReorderingError::NonExistentCluster(ClusterId::new(1)).to_external(&interner),
        string_id::ReorderingError::NonExistentCluster("one".to_string())
    );
    assert_eq!(
        ReorderingError::NonExistentCluster(ClusterId::new(2)).to_external(&interner),
        string_id::ReorderingError::Internal(ReorderingError::NonExistentCluster(ClusterId::new(2)))
    );
    assert_eq!(
        ReorderingError::NonMonotonicNoteNumber(4).to_external(&interner),
        string_id::ReorderingError::Internal(ReorderingError::NonMonotonicNoteNumber(4))
    );
    assert_eq!(interner.resolve(0), Some("zero"));
    assert_eq!(interner.resolve(7), None);
    assert_eq!(ClusterId::new(5).raw(), 5);
}

#[test]
fn empty_values_are_empty() {
    let u = BibliographyUpdate::new();
    assert!(u.updated_entries.is_empty());
    assert_eq!(u.entry_ids, None);
    let s = UpdateSummary::default();
    assert!(s.clusters.is_empty());
    assert_eq!(s.bibliography, None);
    assert_eq!(IncludeUncited::default(), IncludeUncited::Nothing);
}

#[test]
fn random_identifiers_have_their_shape() {
    for _ in 0..50 {
        let id = citeproc::random_cluster_id();
        assert_eq!(id.len(), 23);
        assert_eq!(id.chars().count(), citeproc::CLUSTER_ID_LEN);
        assert!(id.starts_with("cluster-"));
        assert!(id["cluster-".len()..].chars().all(|c| c.is_ascii_alphanumeric()));
    }
    assert_ne!(citeproc::random_cluster_id(), citeproc::random_cluster_id());
}

#[test]
fn identifiers_are_made_of_what_was_drawn() {
    assert_eq!(citeproc::cluster_id_from(&vec!['a', 'B', '3']), "cluster-aB3");
    assert_eq!(citeproc::cluster_id_from(&vec![]), "cluster-");
    assert_eq!(citeproc::text::string_of(&vec!['x', '\u{e9}']), "x\u{e9}");
}

#[test]
fn a_preview_goes_where_the_one_zero_is() {
    let at = |id: u32, note: Option<u32>| ClusterPosition { id: ClusterId(id), note };
    assert_eq!(preview_place(&[at(0, None)]), Ok(0));
    assert_eq!(preview_place(&[at(3, Some(1)), at(0, Some(1)), at(4, None)]), Ok(1));
    assert_eq!(preview_place(&[at(3, Some(1)), at(4, None), at(0, Some(2))]), Ok(2));
    assert_eq!(preview_place(&[]), Err(ReorderingError::DidNotSupplyZeroPosition));
    assert_eq!(
        preview_place(&[at(3, Some(1)), at(4, None)]),
        Err(ReorderingError::DidNotSupplyZeroPosition)
    );
    assert_eq!(
        preview_place(&[at(0, Some(1)), at(4, None), at(0, None)]),
        Err(ReorderingError::DidNotSupplyZeroPosition)
    );
}
