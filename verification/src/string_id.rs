//! The values of the interface for hosts that know clusters by name.

use vstd::prelude::*;
use crate::api::{BibEntry, BibliographyUpdate};

verus! {

#[derive(Debug, PartialEq, Eq)]
pub struct ClusterPosition {
    pub id: Option<String>,
    /// `None` for a cluster in the running text, the number of the note otherwise.
    pub note: Option<u32>,
}

/// The clusters that were rendered anew, each with its text, and what
/// changed in the bibliography.
#[derive(Debug, PartialEq, Eq)]
pub struct UpdateSummary {
    pub clusters: Vec<(String, String)>,
    pub bibliography: Option<BibliographyUpdate>,
}

#[derive(Debug, PartialEq, Eq)]
pub struct FullRender {
    pub all_clusters: Vec<(String, String)>,
    pub bib_entries: Vec<BibEntry>,
}

#[derive(Debug, PartialEq, Eq)]
pub enum ReorderingError {
    Internal(crate::api::ReorderingError),
    NonExistentCluster(String),
}

} // verus!
