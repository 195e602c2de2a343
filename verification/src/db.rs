//! The store of a document: its inputs, and what they render to.
//!
//! The inputs are the style, the locale, the references and the clusters
//! with their cites and their places. What a cluster renders to is a
//! function of the inputs, stated here as [`Inputs::built`]. The store keeps
//! the text of each cluster from the last time it was rendered, and renders
//! a cluster anew only where an input that it reads has changed since.
//!
//! Every write to an input takes a new revision number. A kept text is
//! fresh as long as no input that it was rendered from has a later revision
//! than the text itself. A write to a reference touches the clusters that
//! cite it and no others; a write to the style or to any cluster touches
//! every cluster, since the place of a cluster among the others decides
//! whether its cites are the first of their references.

use vstd::prelude::*;
use crate::api::{ClusterId, ClusterPosition, ReorderingError, UpdateSummary};
use crate::cite::{Cite, Cluster2, ClusterNumber, IntraNote};
use crate::cite_context::CiteContext;
use crate::locale::Locale;
use crate::markup::{joined, Markup};
use crate::output::OutputFormat;
use crate::proc::{eval_layout, flatten, flatten_model, Proc};
use crate::reference::Reference;
use crate::style::{
    str_eq,
    Affixes,
    Citation,
    Features,
    GivenNameDisambiguationRule,
    Layout,
    Position,
    Style,
};
use crate::style_reader::{style_from_text, style_text_fails, style_text_reads, StyleError};

verus! {

/// A cluster as an input: its place and its cites.
pub struct ClusterInput {
    pub id: u32,
    pub number: ClusterNumber,
    pub cites: Seq<Cite>,
}

/// Everything that rendering reads.
pub struct Inputs {
    pub style: Style,
    pub locale: Locale,
    pub format: Markup,
    /// The references. Of two with one identifier the first counts.
    pub references: Seq<Reference>,
    /// The clusters that are known, in no particular order.
    pub clusters: Seq<ClusterInput>,
    /// The identifiers of the clusters of the document, in its order.
    pub cluster_ids: Seq<u32>,
}

/// Whether `i` is the place of the first reference with the given identifier.
pub open spec fn is_first_reference(references: Seq<Reference>, ref_id: Seq<char>, i: int) -> bool {
    &&& 0 <= i < references.len()
    &&& references[i].id@ == ref_id
    &&& forall|j: int| 0 <= j < i ==> (#[trigger] references[j]).id@ != ref_id
}

pub open spec fn reference_index(references: Seq<Reference>, ref_id: Seq<char>) -> Option<int> {
    if exists|i: int| is_first_reference(references, ref_id, i) {
        Some(choose|i: int| is_first_reference(references, ref_id, i))
    } else {
        None
    }
}

/// The reference with the given identifier, if there is one.
pub open spec fn find_reference(references: Seq<Reference>, ref_id: Seq<char>) -> Option<
    Reference,
> {
    match reference_index(references, ref_id) {
        Some(i) => Some(references[i]),
        None => None,
    }
}

pub open spec fn is_first_cluster(clusters: Seq<ClusterInput>, id: u32, i: int) -> bool {
    &&& 0 <= i < clusters.len()
    &&& clusters[i].id == id
    &&& forall|j: int| 0 <= j < i ==> (#[trigger] clusters[j]).id != id
}

pub open spec fn cluster_index(clusters: Seq<ClusterInput>, id: u32) -> Option<int> {
    if exists|i: int| is_first_cluster(clusters, id, i) {
        Some(choose|i: int| is_first_cluster(clusters, id, i))
    } else {
        None
    }
}

/// The cites of a cluster; none for a cluster that is not known.
pub open spec fn cites_of(clusters: Seq<ClusterInput>, id: u32) -> Seq<Cite> {
    match cluster_index(clusters, id) {
        Some(i) => clusters[i].cites,
        None => Seq::empty(),
    }
}

pub open spec fn cites_reference(cites: Seq<Cite>, ref_id: Seq<char>) -> bool {
    exists|i: int| 0 <= i < cites.len() && (#[trigger] cites[i]).ref_id@ == ref_id
}

/// Whether the cluster at place `k` of the document cites the reference.
pub open spec fn cited_at(
    clusters: Seq<ClusterInput>,
    cluster_ids: Seq<u32>,
    k: int,
    ref_id: Seq<char>,
) -> bool {
    0 <= k < cluster_ids.len() && cites_reference(cites_of(clusters, cluster_ids[k]), ref_id)
}

/// Whether `k` is the place of the first cluster of the document that cites the reference.
pub open spec fn is_first_citing(
    clusters: Seq<ClusterInput>,
    cluster_ids: Seq<u32>,
    k: int,
    ref_id: Seq<char>,
) -> bool {
    &&& cited_at(clusters, cluster_ids, k, ref_id)
    &&& forall|j: int| 0 <= j < k ==> !cited_at(clusters, cluster_ids, j, ref_id)
}

/// The place in the document of the first cluster that cites the reference.
pub open spec fn first_citing(
    clusters: Seq<ClusterInput>,
    cluster_ids: Seq<u32>,
    ref_id: Seq<char>,
) -> Option<int> {
    if exists|k: int| is_first_citing(clusters, cluster_ids, k, ref_id) {
        Some(choose|k: int| is_first_citing(clusters, cluster_ids, k, ref_id))
    } else {
        None
    }
}

/// The position of the cites of a reference in the cluster `id`, and the
/// note in which the reference was first cited.
///
/// Cites are the first of their reference in the first cluster of the
/// document that cites it, and where no cluster of the document does.
/// Elsewhere they are subsequent cites, and the note of the first cite is
/// known where the first cluster stands in a note.
pub open spec fn position_of(
    clusters: Seq<ClusterInput>,
    cluster_ids: Seq<u32>,
    id: u32,
    ref_id: Seq<char>,
) -> (Position, Option<u32>) {
    match first_citing(clusters, cluster_ids, ref_id) {
        Some(k) => {
            let first = cluster_ids[k];
            if first == id {
                (Position::First, None)
            } else {
                match cluster_index(clusters, first) {
                    Some(i) => match clusters[i].number {
                        ClusterNumber::Note(note) => (
                            Position::Subsequent,
                            Some(note.spec_note_number()),
                        ),
                        ClusterNumber::InText(_) => (Position::Subsequent, None),
                    },
                    None => (Position::Subsequent, None),
                }
            }
        },
        None => (Position::First, None),
    }
}

/// What one cite renders to: the layout of the style, evaluated for the
/// cite and flattened. Nothing where the reference of the cite is not known.
pub open spec fn cite_text(
    style: &Style,
    locale: &Locale,
    format: &Markup,
    reference: Option<Reference>,
    position: (Position, Option<u32>),
    cite: &Cite,
) -> Option<Seq<char>> {
    match reference {
        Some(r) => {
            let ctx = CiteContext::<Markup> {
                reference: &r,
                format,
                cite_id: cite.id,
                style,
                locale,
                position,
                disamb_pass: None,
                cite,
                citation_number: 0,
                bib_number: None,
            };
            flatten_model(format, eval_layout(&style.citation.layout, &ctx))
        },
        None => None,
    }
}

impl Inputs {
    pub open spec fn cite_text(self, id: u32, cite: Cite) -> Option<Seq<char>> {
        cite_text(
            &self.style,
            &self.locale,
            &self.format,
            find_reference(self.references, cite.ref_id@),
            position_of(self.clusters, self.cluster_ids, id, cite.ref_id@),
            &cite,
        )
    }

    /// What the cites of a cluster render to, in order, without those that
    /// render nothing or something empty.
    pub open spec fn cite_texts(self, id: u32, cites: Seq<Cite>) -> Seq<Seq<char>>
        decreases cites.len(),
    {
        if cites.len() == 0 {
            Seq::empty()
        } else {
            let before = self.cite_texts(id, cites.drop_last());
            match self.cite_text(id, cites.last()) {
                Some(text) => if text.len() == 0 {
                    before
                } else {
                    before.push(text)
                },
                None => before,
            }
        }
    }

    /// What a cluster renders to: its cites, joined by the delimiter of the
    /// layout. A cluster that is not known renders to nothing.
    pub open spec fn built(self, id: u32) -> Seq<char> {
        joined(
            self.cite_texts(id, cites_of(self.clusters, id)),
            self.style.citation.layout.delimiter@,
        )
    }

    /// Whether the cluster is known.
    pub open spec fn knows(self, id: u32) -> bool {
        cluster_index(self.clusters, id) is Some
    }
}

pub proof fn lemma_reference_index(references: Seq<Reference>, ref_id: Seq<char>, i: int)
    requires
        is_first_reference(references, ref_id, i),
    ensures
        reference_index(references, ref_id) == Some(i),
{
    let k = choose|k: int| is_first_reference(references, ref_id, k);
    if k < i {
        assert(references[k].id@ != ref_id);
    } else if k > i {
        assert(references[i].id@ != ref_id);
    }
}

pub proof fn lemma_reference_absent(references: Seq<Reference>, ref_id: Seq<char>)
    requires
        forall|j: int| 0 <= j < references.len() ==> (#[trigger] references[j]).id@ != ref_id,
    ensures
        reference_index(references, ref_id) is None,
{
    assert forall|k: int| !is_first_reference(references, ref_id, k) by {
        if 0 <= k < references.len() {
            assert(references[k].id@ != ref_id);
        }
    }
}

pub proof fn lemma_cluster_index(clusters: Seq<ClusterInput>, id: u32, i: int)
    requires
        is_first_cluster(clusters, id, i),
    ensures
        cluster_index(clusters, id) == Some(i),
{
    let k = choose|k: int| is_first_cluster(clusters, id, k);
    if k < i {
        assert(clusters[k].id != id);
    } else if k > i {
        assert(clusters[i].id != id);
    }
}

pub proof fn lemma_cluster_absent(clusters: Seq<ClusterInput>, id: u32)
    requires
        forall|j: int| 0 <= j < clusters.len() ==> (#[trigger] clusters[j]).id != id,
    ensures
        cluster_index(clusters, id) is None,
{
    assert forall|k: int| !is_first_cluster(clusters, id, k) by {
        if 0 <= k < clusters.len() {
            assert(clusters[k].id != id);
        }
    }
}

pub proof fn lemma_first_citing(
    clusters: Seq<ClusterInput>,
    cluster_ids: Seq<u32>,
    k: int,
    ref_id: Seq<char>,
)
    requires
        is_first_citing(clusters, cluster_ids, k, ref_id),
    ensures
        first_citing(clusters, cluster_ids, ref_id) == Some(k),
{
    let j = choose|j: int| is_first_citing(clusters, cluster_ids, j, ref_id);
    if j < k {
        assert(!cited_at(clusters, cluster_ids, j, ref_id));
    } else if j > k {
        assert(!cited_at(clusters, cluster_ids, k, ref_id));
    }
}

pub proof fn lemma_never_cited(clusters: Seq<ClusterInput>, cluster_ids: Seq<u32>, ref_id: Seq<char>)
    requires
        forall|j: int| 0 <= j < cluster_ids.len() ==> !cited_at(clusters, cluster_ids, j, ref_id),
    ensures
        first_citing(clusters, cluster_ids, ref_id) is None,
{
    assert forall|k: int| !is_first_citing(clusters, cluster_ids, k, ref_id) by {
        if 0 <= k < cluster_ids.len() {
            assert(!cited_at(clusters, cluster_ids, k, ref_id));
        }
    }
}


// ---------------------------------------------------------------------------
// The store
// ---------------------------------------------------------------------------

/// A reference with the revision of its last write.
pub struct RefEntry {
    pub reference: Reference,
    pub changed: u64,
}

/// A cluster with what is kept of its last rendering.
pub struct ClusterRecord {
    pub id: u32,
    pub number: ClusterNumber,
    pub cites: Vec<Cite>,
    /// The text that the cluster rendered to, if it was rendered.
    pub text: Option<String>,
    /// The revision at which the text was rendered.
    pub computed: u64,
}

/// One entry of the log of what was rendered anew.
#[derive(Debug, Clone, Copy, PartialEq, Eq, Structural)]
pub enum DocUpdate {
    Cluster(u32),
}

/// The store of a document.
pub struct Processor {
    style: Style,
    locale: Locale,
    format: Markup,
    references: Vec<RefEntry>,
    records: Vec<ClusterRecord>,
    cluster_ids: Vec<u32>,
    revision: u64,
    style_changed: u64,
    order_changed: u64,
    queue: Vec<DocUpdate>,
    save_updates: bool,
    /// The languages of the locales that were stored.
    langs: Vec<String>,
}

pub open spec fn reference_values(entries: Seq<RefEntry>) -> Seq<Reference> {
    Seq::new(entries.len(), |i: int| entries[i].reference)
}

pub open spec fn cluster_inputs(records: Seq<ClusterRecord>) -> Seq<ClusterInput> {
    Seq::new(
        records.len(),
        |i: int| ClusterInput { id: records[i].id, number: records[i].number, cites: records[i].cites@ },
    )
}

/// The revision of the last write to a reference; 0 for one that was never written.
pub open spec fn reference_changed(entries: Seq<RefEntry>, ref_id: Seq<char>) -> u64 {
    match reference_index(reference_values(entries), ref_id) {
        Some(i) => entries[i].changed,
        None => 0,
    }
}

/// Whether what is kept of a cluster was rendered after the last write to
/// everything that the rendering read.
pub open spec fn record_fresh(
    record: ClusterRecord,
    entries: Seq<RefEntry>,
    style_changed: u64,
    order_changed: u64,
) -> bool {
    &&& record.text is Some
    &&& style_changed <= record.computed
    &&& order_changed <= record.computed
    &&& forall|i: int|
        0 <= i < record.cites@.len() ==> reference_changed(
            entries,
            (#[trigger] record.cites@[i]).ref_id@,
        ) <= record.computed
}

impl Processor {
    /// The inputs as they stand.
    pub closed spec fn inputs(&self) -> Inputs {
        Inputs {
            style: self.style,
            locale: self.locale,
            format: self.format,
            references: reference_values(self.references@),
            clusters: cluster_inputs(self.records@),
            cluster_ids: self.cluster_ids@,
        }
    }

    /// The log of what was rendered anew since it was last drained.
    pub closed spec fn log(&self) -> Seq<DocUpdate> {
        self.queue@
    }

    /// Whether renderings are logged.
    pub closed spec fn recording(&self) -> bool {
        self.save_updates
    }

    /// The languages of the locales that were stored, in the order in which
    /// they first came.
    pub closed spec fn cached_langs(&self) -> Seq<Seq<char>> {
        Seq::new(self.langs@.len(), |i: int| self.langs@[i]@)
    }

    /// The text that is kept of a cluster, if any is.
    pub closed spec fn kept(&self, id: u32) -> Option<Seq<char>> {
        match cluster_index(cluster_inputs(self.records@), id) {
            Some(i) => match self.records@[i].text {
                Some(text) => Some(text@),
                None => None,
            },
            None => None,
        }
    }

    /// Whether the text that is kept of a cluster is still what the cluster
    /// renders to, as far as the store has kept track.
    pub closed spec fn is_fresh(&self, id: u32) -> bool {
        match cluster_index(cluster_inputs(self.records@), id) {
            Some(i) => record_fresh(
                self.records@[i],
                self.references@,
                self.style_changed,
                self.order_changed,
            ),
            None => false,
        }
    }

    /// What the store relies on: no write or rendering is later than the
    /// current revision, and a text that counts as fresh is the text that
    /// its cluster renders to.
    pub closed spec fn well_formed(&self) -> bool {
        &&& self.style_changed <= self.revision
        &&& self.order_changed <= self.revision
        &&& forall|i: int|
            0 <= i < self.references@.len() ==> (#[trigger] self.references@[i]).changed
                <= self.revision
        &&& forall|i: int|
            0 <= i < self.records@.len() ==> (#[trigger] self.records@[i]).computed
                <= self.revision
        &&& forall|id: u32| #[trigger]
            self.is_fresh(id) ==> self.kept(id) == Some(self.inputs().built(id))
    }

    /// A fresh text is the text that its cluster renders to.
    pub proof fn lemma_fresh_is_built(&self, id: u32)
        requires
            self.well_formed(),
            self.is_fresh(id),
        ensures
            self.kept(id) == Some(self.inputs().built(id)),
    {
    }

    /// The place of the record of a cluster.
    fn find_record(&self, id: u32) -> (r: Option<usize>)
        ensures
            match r {
                Some(i) => i < self.records@.len() && cluster_index(
                    cluster_inputs(self.records@),
                    id,
                ) == Some(i as int),
                None => cluster_index(cluster_inputs(self.records@), id) is None,
            },
    {
        let ghost clusters = cluster_inputs(self.records@);
        let mut i: usize = 0;
        while i < self.records.len()
            invariant
                i <= self.records@.len(),
                clusters == cluster_inputs(self.records@),
                forall|j: int| 0 <= j < i ==> (#[trigger] clusters[j]).id != id,
            decreases self.records@.len() - i,
        {
            if self.records[i].id == id {
                proof {
                    assert(clusters[i as int].id == id);
                    lemma_cluster_index(clusters, id, i as int);
                }
                return Some(i);
            }
            assert(clusters[i as int].id != id);
            i = i + 1;
        }
        proof {
            lemma_cluster_absent(clusters, id);
        }
        None
    }

    /// The place of the entry of a reference.
    fn find_reference_entry(&self, ref_id: &str) -> (r: Option<usize>)
        ensures
            match r {
                Some(i) => i < self.references@.len() && reference_index(
                    reference_values(self.references@),
                    ref_id@,
                ) == Some(i as int),
                None => reference_index(reference_values(self.references@), ref_id@) is None,
            },
    {
        let ghost values = reference_values(self.references@);
        let mut i: usize = 0;
        while i < self.references.len()
            invariant
                i <= self.references@.len(),
                values == reference_values(self.references@),
                forall|j: int| 0 <= j < i ==> (#[trigger] values[j]).id@ != ref_id@,
            decreases self.references@.len() - i,
        {
            if str_eq(self.references[i].reference.id.as_str(), ref_id) {
                proof {
                    assert(values[i as int].id@ == ref_id@);
                    lemma_reference_index(values, ref_id@, i as int);
                }
                return Some(i);
            }
            assert(values[i as int].id@ != ref_id@);
            i = i + 1;
        }
        proof {
            lemma_reference_absent(values, ref_id@);
        }
        None
    }

    fn record_cites(&self, id: u32, ref_id: &str) -> (b: bool)
        ensures
            b == cites_reference(cites_of(cluster_inputs(self.records@), id), ref_id@),
    {
        match self.find_record(id) {
            Some(i) => {
                let cites = &self.records[i].cites;
                assert(cluster_inputs(self.records@)[i as int].cites == cites@);
                let mut j: usize = 0;
                while j < cites.len()
                    invariant
                        j <= cites@.len(),
                        cites@ == cites_of(cluster_inputs(self.records@), id),
                        forall|k: int| 0 <= k < j ==> (#[trigger] cites@[k]).ref_id@ != ref_id@,
                    decreases cites@.len() - j,
                {
                    if str_eq(cites[j].ref_id.as_str(), ref_id) {
                        assert(cites@[j as int].ref_id@ == ref_id@);
                        return true;
                    }
                    j = j + 1;
                }
                false
            },
            None => false,
        }
    }

    /// The position of the cites of a reference in a cluster.
    fn position(&self, id: u32, ref_id: &str) -> (p: (Position, Option<u32>))
        ensures
            p == position_of(cluster_inputs(self.records@), self.cluster_ids@, id, ref_id@),
    {
        let ghost clusters = cluster_inputs(self.records@);
        let mut k: usize = 0;
        while k < self.cluster_ids.len()
            invariant
                k <= self.cluster_ids@.len(),
                clusters == cluster_inputs(self.records@),
                forall|j: int|
                    0 <= j < k ==> !cited_at(clusters, self.cluster_ids@, j, ref_id@),
            decreases self.cluster_ids@.len() - k,
        {
            let first = self.cluster_ids[k];
            if self.record_cites(first, ref_id) {
                proof {
                    assert(cited_at(clusters, self.cluster_ids@, k as int, ref_id@));
                    lemma_first_citing(clusters, self.cluster_ids@, k as int, ref_id@);
                }
                if first == id {
                    return (Position::First, None);
                }
                return match self.find_record(first) {
                    Some(i) => {
                        assert(clusters[i as int].number == self.records@[i as int].number);
                        match self.records[i].number {
                            ClusterNumber::Note(note) => (
                                Position::Subsequent,
                                Some(note.note_number()),
                            ),
                            ClusterNumber::InText(_) => (Position::Subsequent, None),
                        }
                    },
                    None => (Position::Subsequent, None),
                };
            }
            k = k + 1;
        }
        proof {
            lemma_never_cited(clusters, self.cluster_ids@, ref_id@);
        }
        (Position::First, None)
    }

    /// Renders one cite of a cluster.
    fn build_cite(&self, id: u32, cite: &Cite) -> (r: Option<String>)
        ensures
            match r {
                Some(text) => self.inputs().cite_text(id, *cite) == Some(text@),
                None => self.inputs().cite_text(id, *cite) is None,
            },
    {
        let position = self.position(id, cite.ref_id.as_str());
        match self.find_reference_entry(cite.ref_id.as_str()) {
            Some(i) => {
                assert(reference_values(self.references@)[i as int]
                    == self.references@[i as int].reference);
                let ctx = CiteContext::<Markup> {
                    reference: &self.references[i].reference,
                    format: &self.format,
                    cite_id: cite.id,
                    style: &self.style,
                    locale: &self.locale,
                    position,
                    disamb_pass: None,
                    cite,
                    citation_number: 0,
                    bib_number: None,
                };
                let ir = self.style.citation.layout.intermediate(&ctx);
                flatten(ir, &self.format)
            },
            None => None,
        }
    }

    /// Renders a cluster from the inputs as they stand.
    fn build(&self, record: usize) -> (text: String)
        requires
            record < self.records@.len(),
            cluster_index(cluster_inputs(self.records@), self.records@[record as int].id) == Some(
                record as int,
            ),
        ensures
            text@ == self.inputs().built(self.records@[record as int].id),
    {
        let id = self.records[record].id;
        let cites = &self.records[record].cites;
        assert(cluster_inputs(self.records@)[record as int].cites == cites@);
        let mut parts: Vec<String> = Vec::new();
        let mut j: usize = 0;
        assert(cites@.take(0) =~= Seq::<Cite>::empty());
        while j < cites.len()
            invariant
                j <= cites@.len(),
                Seq::new(parts@.len(), |i: int| parts@[i]@) == self.inputs().cite_texts(
                    id,
                    cites@.take(j as int),
                ),
            decreases cites@.len() - j,
        {
            let ghost before = Seq::new(parts@.len(), |i: int| parts@[i]@);
            proof {
                assert(cites@.take(j + 1).drop_last() =~= cites@.take(j as int));
                assert(cites@.take(j + 1).last() == cites@[j as int]);
            }
            match self.build_cite(id, &cites[j]) {
                Some(text) => {
                    if !text.as_str().is_empty() {
                        parts.push(text);
                        assert(Seq::new(parts@.len(), |i: int| parts@[i]@) =~= before.push(text@));
                    }
                },
                None => {},
            }
            j = j + 1;
        }
        assert(cites@.take(j as int) =~= cites@);
        assert(cites@ == cites_of(cluster_inputs(self.records@), id));
        assert(Seq::new(parts@.len(), |i: int| self.format.model(&parts@[i])) =~= Seq::new(
            parts@.len(),
            |i: int| parts@[i]@,
        ));
        let joined = self.format.join(parts, self.style.citation.layout.delimiter.as_str());
        self.format.output(joined)
    }

    /// Whether what is kept of a cluster is fresh.
    fn check_fresh(&self, record: usize) -> (b: bool)
        requires
            record < self.records@.len(),
        ensures
            b == record_fresh(
                self.records@[record as int],
                self.references@,
                self.style_changed,
                self.order_changed,
            ),
    {
        if self.records[record].text.is_none() {
            return false;
        }
        let computed = self.records[record].computed;
        if self.style_changed > computed || self.order_changed > computed {
            return false;
        }
        let cites = &self.records[record].cites;
        let mut j: usize = 0;
        while j < cites.len()
            invariant
                j <= cites@.len(),
                record < self.records@.len(),
                cites == &self.records@[record as int].cites,
                computed == self.records@[record as int].computed,
                forall|k: int|
                    0 <= k < j ==> reference_changed(
                        self.references@,
                        (#[trigger] cites@[k]).ref_id@,
                    ) <= computed,
            decreases cites@.len() - j,
        {
            let changed = match self.find_reference_entry(cites[j].ref_id.as_str()) {
                Some(i) => self.references[i].changed,
                None => 0,
            };
            assert(changed == reference_changed(self.references@, cites@[j as int].ref_id@));
            if changed > computed {
                return false;
            }
            j = j + 1;
        }
        true
    }
}


// ---------------------------------------------------------------------------
// Writes
// ---------------------------------------------------------------------------

/// The references after one is set: in place of the one with its
/// identifier, or after all the others where there is none.
pub open spec fn with_reference(references: Seq<Reference>, r: Reference) -> Seq<Reference> {
    match reference_index(references, r.id@) {
        Some(i) => references.update(i, r),
        None => references.push(r),
    }
}

/// Setting a reference leaves every reference with another identifier as it was.
pub proof fn lemma_other_references(references: Seq<Reference>, r: Reference, ref_id: Seq<char>)
    requires
        ref_id != r.id@,
    ensures
        find_reference(with_reference(references, r), ref_id) == find_reference(references, ref_id),
        reference_index(with_reference(references, r), ref_id) == reference_index(
            references,
            ref_id,
        ),
{
    let after = with_reference(references, r);
    lemma_reference_index_range(references, r.id@);
    lemma_reference_index_range(references, ref_id);
    match reference_index(references, ref_id) {
        Some(k) => {
            assert(is_first_reference(after, ref_id, k)) by {
                assert forall|j: int| 0 <= j < k implies (#[trigger] after[j]).id@ != ref_id by {
                    assert(references[j].id@ != ref_id);
                }
            }
            lemma_reference_index(after, ref_id, k);
        },
        None => {
            assert forall|j: int| 0 <= j < after.len() implies (#[trigger] after[j]).id@
                != ref_id by {
                if j < references.len() {
                    assert(references[j].id@ != ref_id);
                }
            }
            lemma_reference_absent(after, ref_id);
        },
    }
}

/// The index that a lookup gives is the first with the identifier, and a
/// lookup that gives none means that no reference has it.
pub proof fn lemma_reference_index_range(references: Seq<Reference>, ref_id: Seq<char>)
    ensures
        match reference_index(references, ref_id) {
            Some(i) => is_first_reference(references, ref_id, i),
            None => forall|j: int|
                0 <= j < references.len() ==> (#[trigger] references[j]).id@ != ref_id,
        },
{
    if !exists|i: int| is_first_reference(references, ref_id, i) {
        assert forall|j: int| 0 <= j < references.len() implies (#[trigger] references[j]).id@
            != ref_id by {
            if references[j].id@ == ref_id {
                lemma_least_reference(references, ref_id, j);
            }
        }
    }
}

proof fn lemma_least_reference(references: Seq<Reference>, ref_id: Seq<char>, j: int)
    requires
        0 <= j < references.len(),
        references[j].id@ == ref_id,
    ensures
        exists|i: int| is_first_reference(references, ref_id, i),
    decreases j,
{
    if exists|k: int| 0 <= k < j && (#[trigger] references[k]).id@ == ref_id {
        let k = choose|k: int| 0 <= k < j && (#[trigger] references[k]).id@ == ref_id;
        lemma_least_reference(references, ref_id, k);
    } else {
        assert(is_first_reference(references, ref_id, j));
    }
}

/// The reference that was set is the one that a lookup of its identifier gives.
pub proof fn lemma_reference_set(references: Seq<Reference>, r: Reference)
    ensures
        find_reference(with_reference(references, r), r.id@) == Some(r),
{
    let after = with_reference(references, r);
    lemma_reference_index_range(references, r.id@);
    match reference_index(references, r.id@) {
        Some(i) => {
            assert(is_first_reference(after, r.id@, i)) by {
                assert forall|j: int| 0 <= j < i implies (#[trigger] after[j]).id@ != r.id@ by {
                    assert(references[j].id@ != r.id@);
                }
            }
            lemma_reference_index(after, r.id@, i);
        },
        None => {
            let n = references.len() as int;
            assert(is_first_reference(after, r.id@, n)) by {
                assert forall|j: int| 0 <= j < n implies (#[trigger] after[j]).id@ != r.id@ by {
                    assert(references[j].id@ != r.id@);
                }
            }
            lemma_reference_index(after, r.id@, n);
        },
    }
}

/// What the cites of a cluster render to is the same under two sets of
/// inputs that differ at most in references that none of the cites names.
pub proof fn lemma_cite_texts_frame(a: Inputs, b: Inputs, id: u32, cites: Seq<Cite>)
    requires
        a.style == b.style,
        a.locale == b.locale,
        a.format == b.format,
        a.clusters == b.clusters,
        a.cluster_ids == b.cluster_ids,
        forall|i: int|
            0 <= i < cites.len() ==> find_reference(a.references, (#[trigger] cites[i]).ref_id@)
                == find_reference(b.references, cites[i].ref_id@),
    ensures
        a.cite_texts(id, cites) == b.cite_texts(id, cites),
    decreases cites.len(),
{
    if cites.len() > 0 {
        let front = cites.drop_last();
        assert forall|i: int| 0 <= i < front.len() implies find_reference(
            a.references,
            (#[trigger] front[i]).ref_id@,
        ) == find_reference(b.references, front[i].ref_id@) by {
            assert(front[i] == cites[i]);
        }
        lemma_cite_texts_frame(a, b, id, front);
        assert(cites.last() == cites[cites.len() - 1]);
    }
}

impl Processor {
    /// A store for the style that a text stands for, with a locale, and
    /// neither references nor clusters.
    pub fn new(style_string: &str, locale: Locale, format: Markup, save_updates: bool) -> (r: Result<
        Processor,
        StyleError,
    >)
        ensures
            match r {
                Ok(p) => {
                    &&& p.well_formed()
                    &&& style_text_reads(style_string@, p.inputs().style)
                    &&& p.inputs().locale == locale
                    &&& p.inputs().format == format
                    &&& p.inputs().references.len() == 0
                    &&& p.inputs().clusters.len() == 0
                    &&& p.inputs().cluster_ids.len() == 0
                    &&& p.log().len() == 0
                    &&& p.recording() == save_updates
                    &&& p.cached_langs().len() == 0
                },
                Err(e) => style_text_fails(style_string@, e),
            },
    {
        match style_from_text(style_string) {
            Ok(style) => Ok(Processor::with_style(style, locale, format, save_updates)),
            Err(e) => Err(e),
        }
    }

    /// A store with a style and a locale, and neither references nor clusters.
    pub fn with_style(style: Style, locale: Locale, format: Markup, save_updates: bool) -> (p:
        Processor)
        ensures
            p.well_formed(),
            p.inputs().style == style,
            p.inputs().locale == locale,
            p.inputs().format == format,
            p.inputs().references.len() == 0,
            p.inputs().clusters.len() == 0,
            p.inputs().cluster_ids.len() == 0,
            p.log().len() == 0,
            p.recording() == save_updates,
            p.cached_langs().len() == 0,
    {
        let p = Processor {
            style,
            locale,
            format,
            references: Vec::new(),
            records: Vec::new(),
            cluster_ids: Vec::new(),
            revision: 0,
            style_changed: 0,
            order_changed: 0,
            queue: Vec::new(),
            save_updates,
            langs: Vec::new(),
        };
        proof {
            assert forall|id: u32| !#[trigger] p.is_fresh(id) by {
                lemma_cluster_absent(cluster_inputs(p.records@), id);
            }
        }
        p
    }

    /// Starts the revisions over at 0, keeping what is fresh fresh.
    fn renormalize(&mut self)
        requires
            old(self).well_formed(),
        ensures
            final(self).well_formed(),
            final(self).inputs() == old(self).inputs(),
            final(self).queue == old(self).queue,
            final(self).save_updates == old(self).save_updates,
            final(self).langs == old(self).langs,
            final(self).revision == 0,
            forall|id: u32| final(self).is_fresh(id) == old(self).is_fresh(id),
            forall|id: u32| old(self).is_fresh(id) ==> final(self).kept(id) == old(self).kept(id),
    {
        let ghost before = *self;
        let mut i: usize = 0;
        while i < self.records.len()
            invariant
                i <= self.records@.len(),
                self.records@.len() == before.records@.len(),
                self.references == before.references,
                self.style == before.style,
                self.locale == before.locale,
                self.format == before.format,
                self.cluster_ids == before.cluster_ids,
                self.style_changed == before.style_changed,
                self.order_changed == before.order_changed,
                self.revision == before.revision,
                self.queue == before.queue,
                self.save_updates == before.save_updates,
                self.langs == before.langs,
                forall|j: int|
                    0 <= j < self.records@.len() ==> {
                        &&& (#[trigger] self.records@[j]).id == before.records@[j].id
                        &&& self.records@[j].number == before.records@[j].number
                        &&& self.records@[j].cites == before.records@[j].cites
                        &&& self.records@[j].computed == before.records@[j].computed
                    },
                forall|j: int|
                    0 <= j < i ==> (#[trigger] self.records@[j]).text == (if record_fresh(
                        before.records@[j],
                        before.references@,
                        before.style_changed,
                        before.order_changed,
                    ) {
                        before.records@[j].text
                    } else {
                        None
                    }),
                forall|j: int|
                    i <= j < self.records@.len() ==> (#[trigger] self.records@[j])
                        == before.records@[j],
            decreases self.records@.len() - i,
        {
            let fresh = self.check_fresh(i);
            if !fresh {
                self.records[i].text = None;
            }
            i = i + 1;
        }
        self.style_changed = 0;
        self.order_changed = 0;
        self.revision = 0;
        let ghost dropped = self.records@;
        let mut k: usize = 0;
        while k < self.references.len()
            invariant
                k <= self.references@.len(),
                self.references@.len() == before.references@.len(),
                self.records@ == dropped,
                self.style == before.style,
                self.locale == before.locale,
                self.format == before.format,
                self.cluster_ids == before.cluster_ids,
                self.style_changed == 0,
                self.order_changed == 0,
                self.revision == 0,
                self.queue == before.queue,
                self.save_updates == before.save_updates,
                self.langs == before.langs,
                forall|j: int|
                    0 <= j < self.references@.len() ==> (#[trigger] self.references@[j]).reference
                        == before.references@[j].reference,
                forall|j: int| 0 <= j < k ==> (#[trigger] self.references@[j]).changed == 0,
            decreases self.references@.len() - k,
        {
            self.references[k].changed = 0;
            k = k + 1;
        }
        let mut m: usize = 0;
        let ghost zeroed = self.references@;
        while m < self.records.len()
            invariant
                m <= self.records@.len(),
                self.records@.len() == dropped.len(),
                self.references@ == zeroed,
                self.style == before.style,
                self.locale == before.locale,
                self.format == before.format,
                self.cluster_ids == before.cluster_ids,
                self.style_changed == 0,
                self.order_changed == 0,
                self.revision == 0,
                self.queue == before.queue,
                self.save_updates == before.save_updates,
                self.langs == before.langs,
                forall|j: int|
                    0 <= j < self.records@.len() ==> {
                        &&& (#[trigger] self.records@[j]).id == dropped[j].id
                        &&& self.records@[j].number == dropped[j].number
                        &&& self.records@[j].cites == dropped[j].cites
                        &&& self.records@[j].text == dropped[j].text
                    },
                forall|j: int| 0 <= j < m ==> (#[trigger] self.records@[j]).computed == 0,
            decreases self.records@.len() - m,
        {
            self.records[m].computed = 0;
            m = m + 1;
        }
        proof {
            assert(cluster_inputs(self.records@) =~= cluster_inputs(before.records@));
            assert(reference_values(self.references@) =~= reference_values(before.references@));
            assert(self.inputs() == before.inputs());
            assert forall|id: u32| #[trigger]
                self.is_fresh(id) == before.is_fresh(id) && (before.is_fresh(id) ==> self.kept(id)
                    == before.kept(id)) by {
                match cluster_index(cluster_inputs(before.records@), id) {
                    Some(i) => {
                        lemma_cluster_index_range(cluster_inputs(before.records@), id);
                        let was = record_fresh(
                            before.records@[i],
                            before.references@,
                            before.style_changed,
                            before.order_changed,
                        );
                        assert(self.records@[i].text == dropped[i].text);
                        if was {
                            assert(self.records@[i].text == before.records@[i].text);
                            assert forall|c: int|
                                0 <= c < self.records@[i].cites@.len() implies reference_changed(
                                self.references@,
                                (#[trigger] self.records@[i].cites@[c]).ref_id@,
                            ) <= 0 by {
                                let rid = self.records@[i].cites@[c].ref_id@;
                                lemma_reference_index_range(reference_values(self.references@), rid);
                            }
                        } else {
                            assert(self.records@[i].text is None);
                        }
                    },
                    None => {},
                }
            }
            assert(self.well_formed()) by {
                assert forall|id: u32| #[trigger] self.is_fresh(id) implies self.kept(id) == Some(
                    self.inputs().built(id),
                ) by {
                    assert(before.is_fresh(id));
                }
            }
        }
    }

    /// Takes the next revision. No text is as late as it.
    fn bump(&mut self)
        requires
            old(self).well_formed(),
        ensures
            final(self).well_formed(),
            final(self).inputs() == old(self).inputs(),
            final(self).queue == old(self).queue,
            final(self).save_updates == old(self).save_updates,
            final(self).langs == old(self).langs,
            forall|id: u32| final(self).is_fresh(id) == old(self).is_fresh(id),
            forall|id: u32| old(self).is_fresh(id) ==> final(self).kept(id) == old(self).kept(id),
            final(self).style_changed < final(self).revision,
            final(self).order_changed < final(self).revision,
            forall|i: int|
                0 <= i < final(self).references@.len() ==> (#[trigger] final(self).references@[i]).changed
                    < final(self).revision,
            forall|i: int|
                0 <= i < final(self).records@.len() ==> (#[trigger] final(self).records@[i]).computed
                    < final(self).revision,
    {
        if self.revision == u64::MAX {
            self.renormalize();
        }
        let ghost before = *self;
        self.revision = self.revision + 1;
        proof {
            assert forall|id: u32| #[trigger]
                self.is_fresh(id) == before.is_fresh(id) && self.kept(id) == before.kept(id) by {}
            assert(self.inputs() == before.inputs());
            assert(self.well_formed()) by {
                assert forall|id: u32| #[trigger] self.is_fresh(id) implies self.kept(id) == Some(
                    self.inputs().built(id),
                ) by {
                    assert(before.is_fresh(id));
                }
            }
        }
    }
}

pub proof fn lemma_cluster_index_range(clusters: Seq<ClusterInput>, id: u32)
    ensures
        match cluster_index(clusters, id) {
            Some(i) => is_first_cluster(clusters, id, i),
            None => forall|j: int| 0 <= j < clusters.len() ==> (#[trigger] clusters[j]).id != id,
        },
{
    if !exists|i: int| is_first_cluster(clusters, id, i) {
        assert forall|j: int| 0 <= j < clusters.len() implies (#[trigger] clusters[j]).id != id by {
            if clusters[j].id == id {
                lemma_least_cluster(clusters, id, j);
            }
        }
    }
}

proof fn lemma_least_cluster(clusters: Seq<ClusterInput>, id: u32, j: int)
    requires
        0 <= j < clusters.len(),
        clusters[j].id == id,
    ensures
        exists|i: int| is_first_cluster(clusters, id, i),
    decreases j,
{
    if exists|k: int| 0 <= k < j && (#[trigger] clusters[k]).id == id {
        let k = choose|k: int| 0 <= k < j && (#[trigger] clusters[k]).id == id;
        lemma_least_cluster(clusters, id, k);
    } else {
        assert(is_first_cluster(clusters, id, j));
    }
}


/// The clusters after one is set: in place of the one with its identifier,
/// or after all the others where there is none.
pub open spec fn with_cluster(clusters: Seq<ClusterInput>, c: ClusterInput) -> Seq<ClusterInput> {
    match cluster_index(clusters, c.id) {
        Some(i) => clusters.update(i, c),
        None => clusters.push(c),
    }
}

/// A cluster as the store keeps it.
pub open spec fn cluster_input(c: Cluster2) -> ClusterInput {
    ClusterInput { id: c.spec_id(), number: c.spec_cluster_number(), cites: c.spec_cites()@ }
}

/// The clusters after each of a run is set, in order.
pub open spec fn with_clusters(clusters: Seq<ClusterInput>, new: Seq<Cluster2>) -> Seq<ClusterInput>
    decreases new.len(),
{
    if new.len() == 0 {
        clusters
    } else {
        with_cluster(with_clusters(clusters, new.drop_last()), cluster_input(new.last()))
    }
}

pub open spec fn ids_of(clusters: Seq<Cluster2>) -> Seq<u32> {
    Seq::new(clusters.len(), |i: int| clusters[i].spec_id())
}

/// The identifiers without one of them, in the same order.
pub open spec fn without(ids: Seq<u32>, id: u32) -> Seq<u32>
    decreases ids.len(),
{
    if ids.len() == 0 {
        Seq::empty()
    } else if ids.last() == id {
        without(ids.drop_last(), id)
    } else {
        without(ids.drop_last(), id).push(ids.last())
    }
}

/// The clusters after the place of one is set; a cluster that is not known stays unknown.
pub open spec fn renumbered_one(clusters: Seq<ClusterInput>, id: u32, number: ClusterNumber) -> Seq<
    ClusterInput,
> {
    match cluster_index(clusters, id) {
        Some(i) => clusters.update(i, ClusterInput { number, ..clusters[i] }),
        None => clusters,
    }
}

pub open spec fn renumbered(clusters: Seq<ClusterInput>, mappings: Seq<(u32, ClusterNumber)>) -> Seq<
    ClusterInput,
>
    decreases mappings.len(),
{
    if mappings.len() == 0 {
        clusters
    } else {
        renumbered_one(
            renumbered(clusters, mappings.drop_last()),
            mappings.last().0,
            mappings.last().1,
        )
    }
}

/// The clusters that a rendering of the document renders anew: those of
/// the document that are known and not fresh, each once, in the order of
/// the document.
pub open spec fn rendered_anew(p: Processor, ids: Seq<u32>) -> Seq<u32>
    decreases ids.len(),
{
    if ids.len() == 0 {
        Seq::empty()
    } else {
        let before = rendered_anew(p, ids.drop_last());
        let id = ids.last();
        if p.inputs().knows(id) && !p.is_fresh(id) && !ids.drop_last().contains(id) {
            before.push(id)
        } else {
            before
        }
    }
}

pub open spec fn cluster_updates(ids: Seq<u32>) -> Seq<DocUpdate> {
    Seq::new(ids.len(), |i: int| DocUpdate::Cluster(ids[i]))
}

impl Processor {
    /// Sets the style. Every cluster reads the style.
    pub fn set_style(&mut self, style: Style)
        requires
            old(self).well_formed(),
        ensures
            final(self).well_formed(),
            final(self).inputs() == (Inputs { style, ..old(self).inputs() }),
            final(self).log() == old(self).log(),
            final(self).recording() == old(self).recording(),
            final(self).cached_langs() == old(self).cached_langs(),
            forall|id: u32| !final(self).is_fresh(id),
    {
        self.bump();
        let ghost mid = *self;
        self.style = style;
        self.style_changed = self.revision;
        proof {
            assert forall|id: u32| !#[trigger] self.is_fresh(id) by {
                lemma_cluster_index_range(cluster_inputs(self.records@), id);
            }
        }
    }

    /// Sets the style to the one that a text stands for. Where the text
    /// stands for none, nothing changes.
    pub fn set_style_text(&mut self, style_text: &str) -> (r: Result<(), StyleError>)
        requires
            old(self).well_formed(),
        ensures
            final(self).well_formed(),
            match r {
                Ok(_) => {
                    &&& style_text_reads(style_text@, final(self).inputs().style)
                    &&& final(self).inputs() == (Inputs {
                        style: final(self).inputs().style,
                        ..old(self).inputs()
                    })
                    &&& final(self).log() == old(self).log()
                    &&& final(self).recording() == old(self).recording()
                    &&& final(self).cached_langs() == old(self).cached_langs()
                    &&& forall|id: u32| !final(self).is_fresh(id)
                },
                Err(e) => *final(self) == *old(self) && style_text_fails(style_text@, e),
            },
    {
        match style_from_text(style_text) {
            Ok(style) => {
                self.set_style(style);
                Ok(())
            },
            Err(e) => Err(e),
        }
    }

    /// Sets the locale. Every cluster reads the locale.
    pub fn set_locale(&mut self, locale: Locale)
        requires
            old(self).well_formed(),
        ensures
            final(self).well_formed(),
            final(self).inputs() == (Inputs { locale, ..old(self).inputs() }),
            final(self).log() == old(self).log(),
            final(self).recording() == old(self).recording(),
            final(self).cached_langs() == old(self).cached_langs(),
            forall|id: u32| !final(self).is_fresh(id),
    {
        self.bump();
        self.locale = locale;
        self.style_changed = self.revision;
        proof {
            assert forall|id: u32| !#[trigger] self.is_fresh(id) by {
                lemma_cluster_index_range(cluster_inputs(self.records@), id);
            }
        }
    }

    /// Sets one reference, in place of the one with its identifier if there
    /// is one.
    ///
    /// The clusters that cite the reference are no longer fresh. Every
    /// other cluster is as fresh as it was, and keeps its text.
    pub fn insert_reference(&mut self, refr: Reference)
        requires
            old(self).well_formed(),
        ensures
            reference_set(*old(self), *final(self), refr),
            forall|id: u32|
                cites_reference(cites_of(old(self).inputs().clusters, id), refr.id@)
                    ==> !#[trigger] final(self).is_fresh(id),
    {
        self.bump();
        let ghost mid = *self;
        let ghost values = reference_values(mid.references@);
        let ghost rid = refr.id@;
        let rev = self.revision;
        let found = self.find_reference_entry(refr.id.as_str());
        match found {
            Some(i) => {
                self.references[i] = RefEntry { reference: refr, changed: rev };
            },
            None => {
                self.references.push(RefEntry { reference: refr, changed: rev });
            },
        }
        proof {
            let after = reference_values(self.references@);
            assert(after =~= with_reference(values, refr));
            assert(cluster_inputs(self.records@) == cluster_inputs(mid.records@));
            lemma_reference_set(values, refr);
            lemma_reference_index_range(after, rid);
            let at = reference_index(after, rid)->Some_0;
            assert(self.references@[at].changed == rev) by {
                lemma_reference_index_range(values, rid);
                match found {
                    Some(i) => {
                        assert(is_first_reference(after, rid, i as int)) by {
                            assert forall|j: int| 0 <= j < i implies (#[trigger] after[j]).id@
                                != rid by {
                                assert(values[j].id@ != rid);
                            }
                        }
                        lemma_reference_index(after, rid, i as int);
                    },
                    None => {
                        let n = values.len() as int;
                        assert(is_first_reference(after, rid, n)) by {
                            assert forall|j: int| 0 <= j < n implies (#[trigger] after[j]).id@
                                != rid by {
                                assert(values[j].id@ != rid);
                            }
                        }
                        lemma_reference_index(after, rid, n);
                    },
                }
            }
            assert forall|other: Seq<char>| other != rid implies #[trigger] reference_changed(
                self.references@,
                other,
            ) == reference_changed(mid.references@, other) by {
                lemma_other_references(values, refr, other);
                lemma_reference_index_range(values, other);
                lemma_reference_index_range(values, rid);
            }
            assert forall|id: u32|
                (cites_reference(cites_of(mid.inputs().clusters, id), rid) ==> !#[trigger] self.is_fresh(
                    id,
                )) && (!cites_reference(cites_of(mid.inputs().clusters, id), rid) ==> self.is_fresh(id)
                    == mid.is_fresh(id)) && self.kept(id) == mid.kept(id) by {
                lemma_cluster_index_range(cluster_inputs(mid.records@), id);
                match cluster_index(cluster_inputs(mid.records@), id) {
                    Some(i) => {
                        let record = mid.records@[i];
                        assert(cluster_inputs(mid.records@)[i].cites == record.cites@);
                        if cites_reference(record.cites@, rid) {
                            let c = choose|c: int|
                                0 <= c < record.cites@.len() && (#[trigger] record.cites@[c]).ref_id@
                                    == rid;
                            assert(reference_changed(self.references@, record.cites@[c].ref_id@)
                                == rev);
                        } else {
                            assert forall|c: int|
                                0 <= c < record.cites@.len() implies reference_changed(
                                self.references@,
                                (#[trigger] record.cites@[c]).ref_id@,
                            ) == reference_changed(mid.references@, record.cites@[c].ref_id@) by {
                                assert(record.cites@[c].ref_id@ != rid);
                            }
                        }
                    },
                    None => {},
                }
            }
            assert forall|id: u32| #[trigger] self.is_fresh(id) implies self.kept(id) == Some(
                self.inputs().built(id),
            ) by {
                let cites = cites_of(mid.inputs().clusters, id);
                assert(!cites_reference(cites, rid));
                assert(mid.is_fresh(id));
                assert forall|c: int| 0 <= c < cites.len() implies find_reference(
                    mid.inputs().references,
                    (#[trigger] cites[c]).ref_id@,
                ) == find_reference(self.inputs().references, cites[c].ref_id@) by {
                    assert(cites[c].ref_id@ != rid);
                    lemma_other_references(values, refr, cites[c].ref_id@);
                }
                lemma_cite_texts_frame(mid.inputs(), self.inputs(), id, cites);
            }
        }
    }
}


/// The references after each of a run is set, in order.
pub open spec fn with_references(references: Seq<Reference>, new: Seq<Reference>) -> Seq<Reference>
    decreases new.len(),
{
    if new.len() == 0 {
        references
    } else {
        with_reference(with_references(references, new.drop_last()), new.last())
    }
}

impl Processor {
    /// Sets each of the references, in order.
    pub fn set_references(&mut self, refs: Vec<Reference>)
        requires
            old(self).well_formed(),
        ensures
            final(self).well_formed(),
            final(self).inputs() == (Inputs {
                references: with_references(old(self).inputs().references, refs@),
                ..old(self).inputs()
            }),
            final(self).log() == old(self).log(),
            final(self).recording() == old(self).recording(),
            final(self).cached_langs() == old(self).cached_langs(),
    {
        let ghost all = refs@;
        let ghost n = all.len();
        let mut rest = crate::utils::reversed(refs);
        assert(all.take(0) =~= Seq::<Reference>::empty());
        while rest.len() > 0
            invariant
                self.well_formed(),
                n == all.len(),
                rest@.len() <= n,
                rest@ == all.skip((n - rest@.len()) as int).reverse(),
                self.inputs() == (Inputs {
                    references: with_references(
                        old(self).inputs().references,
                        all.take((n - rest@.len()) as int),
                    ),
                    ..old(self).inputs()
                }),
                self.log() == old(self).log(),
                self.recording() == old(self).recording(),
                self.cached_langs() == old(self).cached_langs(),
            decreases rest@.len(),
        {
            let ghost k = (n - rest@.len()) as int;
            let ghost before = rest@;
            let r = rest.pop().unwrap();
            proof {
                assert(r == before.last());
                assert(before.last() == all.skip(k)[0]);
                assert(all.take(k + 1).drop_last() =~= all.take(k));
                assert(all.take(k + 1).last() == all[k]);
                assert(rest@ =~= all.skip(k + 1).reverse());
            }
            self.insert_reference(r);
        }
        assert(all.take(n as int) =~= all);
    }

    /// Sets the record of a cluster, forgetting what was kept of it.
    fn upsert_record(&mut self, id: u32, number: ClusterNumber, cites: Vec<Cite>)
        requires
            0 < old(self).revision,
            forall|j: int|
                0 <= j < old(self).records@.len() ==> (#[trigger] old(self).records@[j]).computed
                    < old(self).revision,
        ensures
            cluster_inputs(final(self).records@) == with_cluster(
                cluster_inputs(old(self).records@),
                ClusterInput { id, number, cites: cites@ },
            ),
            forall|j: int|
                0 <= j < final(self).records@.len() ==> (#[trigger] final(self).records@[j]).computed
                    < final(self).revision,
            final(self).style == old(self).style,
            final(self).locale == old(self).locale,
            final(self).format == old(self).format,
            final(self).references == old(self).references,
            final(self).cluster_ids == old(self).cluster_ids,
            final(self).revision == old(self).revision,
            final(self).style_changed == old(self).style_changed,
            final(self).order_changed == old(self).order_changed,
            final(self).queue == old(self).queue,
            final(self).save_updates == old(self).save_updates,
            final(self).langs == old(self).langs,
    {
        let record = ClusterRecord { id, number, cites, text: None, computed: 0 };
        match self.find_record(id) {
            Some(i) => {
                self.records[i] = record;
                assert(cluster_inputs(self.records@) =~= cluster_inputs(old(self).records@).update(
                    i as int,
                    ClusterInput { id, number, cites: cites@ },
                ));
            },
            None => {
                self.records.push(record);
                assert(cluster_inputs(self.records@) =~= cluster_inputs(old(self).records@).push(
                    ClusterInput { id, number, cites: cites@ },
                ));
            },
        }
    }

    /// After a write to the clusters at the current revision, nothing is fresh.
    proof fn lemma_order_written(&self)
        requires
            self.order_changed == self.revision,
            self.style_changed <= self.revision,
            forall|i: int|
                0 <= i < self.references@.len() ==> (#[trigger] self.references@[i]).changed
                    <= self.revision,
            forall|j: int|
                0 <= j < self.records@.len() ==> (#[trigger] self.records@[j]).computed
                    < self.revision,
        ensures
            self.well_formed(),
            forall|id: u32| !#[trigger] self.is_fresh(id),
    {
        assert forall|id: u32| !#[trigger] self.is_fresh(id) by {
            lemma_cluster_index_range(cluster_inputs(self.records@), id);
        }
    }

    fn has_cluster_id(&self, id: u32) -> (b: bool)
        ensures
            b == self.cluster_ids@.contains(id),
    {
        let mut k: usize = 0;
        while k < self.cluster_ids.len()
            invariant
                k <= self.cluster_ids@.len(),
                forall|j: int| 0 <= j < k ==> self.cluster_ids@[j] != id,
            decreases self.cluster_ids@.len() - k,
        {
            if self.cluster_ids[k] == id {
                return true;
            }
            k = k + 1;
        }
        false
    }

    /// Sets a cluster, and puts it at the end of the document if it is not
    /// part of it yet. Every cluster reads the order of the document.
    pub fn insert_cluster(&mut self, cluster: Cluster2)
        requires
            old(self).well_formed(),
        ensures
            final(self).well_formed(),
            final(self).inputs() == (Inputs {
                clusters: with_cluster(old(self).inputs().clusters, cluster_input(cluster)),
                cluster_ids: if old(self).inputs().cluster_ids.contains(cluster.spec_id()) {
                    old(self).inputs().cluster_ids
                } else {
                    old(self).inputs().cluster_ids.push(cluster.spec_id())
                },
                ..old(self).inputs()
            }),
            final(self).log() == old(self).log(),
            final(self).recording() == old(self).recording(),
            final(self).cached_langs() == old(self).cached_langs(),
            forall|id: u32| !#[trigger] final(self).is_fresh(id),
    {
        self.bump();
        let (id, number, cites) = cluster.split();
        self.upsert_record(id, number, cites);
        if !self.has_cluster_id(id) {
            self.cluster_ids.push(id);
        }
        self.order_changed = self.revision;
        proof {
            self.lemma_order_written();
        }
    }

    /// Sets the clusters of the document, in their order.
    pub fn init_clusters(&mut self, clusters: Vec<Cluster2>)
        requires
            old(self).well_formed(),
        ensures
            final(self).well_formed(),
            final(self).inputs() == (Inputs {
                clusters: with_clusters(old(self).inputs().clusters, clusters@),
                cluster_ids: ids_of(clusters@),
                ..old(self).inputs()
            }),
            final(self).log() == old(self).log(),
            final(self).recording() == old(self).recording(),
            final(self).cached_langs() == old(self).cached_langs(),
            forall|id: u32| !#[trigger] final(self).is_fresh(id),
    {
        self.bump();
        let ghost mid = *self;
        let ghost all = clusters@;
        let ghost n = all.len();
        let mut rest = crate::utils::reversed(clusters);
        let mut ids: Vec<u32> = Vec::new();
        assert(all.take(0) =~= Seq::<Cluster2>::empty());
        assert(ids@ =~= ids_of(all.take(0)));
        while rest.len() > 0
            invariant
                n == all.len(),
                rest@.len() <= n,
                rest@ == all.skip((n - rest@.len()) as int).reverse(),
                ids@ == ids_of(all.take((n - rest@.len()) as int)),
                cluster_inputs(self.records@) == with_clusters(
                    cluster_inputs(mid.records@),
                    all.take((n - rest@.len()) as int),
                ),
                0 < self.revision,
                forall|j: int|
                    0 <= j < self.records@.len() ==> (#[trigger] self.records@[j]).computed
                        < self.revision,
                self.style == mid.style,
                self.locale == mid.locale,
                self.format == mid.format,
                self.references == mid.references,
                self.cluster_ids == mid.cluster_ids,
                self.revision == mid.revision,
                self.style_changed == mid.style_changed,
                self.order_changed == mid.order_changed,
                self.queue == mid.queue,
                self.save_updates == mid.save_updates,
                self.langs == mid.langs,
            decreases rest@.len(),
        {
            let ghost k = (n - rest@.len()) as int;
            let ghost before = rest@;
            let cluster = rest.pop().unwrap();
            proof {
                assert(cluster == before.last());
                assert(before.last() == all.skip(k)[0]);
                assert(all.take(k + 1).drop_last() =~= all.take(k));
                assert(all.take(k + 1).last() == all[k]);
                assert(rest@ =~= all.skip(k + 1).reverse());
                assert(ids_of(all.take(k + 1)) =~= ids_of(all.take(k)).push(all[k].spec_id()));
            }
            let (id, number, cites) = cluster.split();
            self.upsert_record(id, number, cites);
            ids.push(id);
        }
        assert(all.take(n as int) =~= all);
        self.cluster_ids = ids;
        self.order_changed = self.revision;
        proof {
            self.lemma_order_written();
        }
    }

    /// Takes a cluster out of the document. The cluster is first left
    /// without cites, at the start of the text, then taken off the list of
    /// the document: whatever still asks for it finds it empty.
    pub fn remove_cluster(&mut self, id: u32)
        requires
            old(self).well_formed(),
        ensures
            final(self).well_formed(),
            final(self).inputs() == (Inputs {
                clusters: with_cluster(
                    old(self).inputs().clusters,
                    ClusterInput { id, number: ClusterNumber::InText(0), cites: Seq::empty() },
                ),
                cluster_ids: without(old(self).inputs().cluster_ids, id),
                ..old(self).inputs()
            }),
            final(self).log() == old(self).log(),
            final(self).recording() == old(self).recording(),
            final(self).cached_langs() == old(self).cached_langs(),
            forall|other: u32| !#[trigger] final(self).is_fresh(other),
    {
        self.bump();
        let empty: Vec<Cite> = Vec::new();
        assert(empty@ =~= Seq::<Cite>::empty());
        self.upsert_record(id, ClusterNumber::InText(0), empty);
        let mut kept: Vec<u32> = Vec::new();
        let mut k: usize = 0;
        assert(self.cluster_ids@.take(0) =~= Seq::<u32>::empty());
        while k < self.cluster_ids.len()
            invariant
                k <= self.cluster_ids@.len(),
                kept@ == without(self.cluster_ids@.take(k as int), id),
            decreases self.cluster_ids@.len() - k,
        {
            proof {
                assert(self.cluster_ids@.take(k + 1).drop_last() =~= self.cluster_ids@.take(
                    k as int,
                ));
                assert(self.cluster_ids@.take(k + 1).last() == self.cluster_ids@[k as int]);
            }
            if self.cluster_ids[k] != id {
                kept.push(self.cluster_ids[k]);
            }
            k = k + 1;
        }
        assert(self.cluster_ids@.take(k as int) =~= self.cluster_ids@);
        self.cluster_ids = kept;
        self.order_changed = self.revision;
        proof {
            self.lemma_order_written();
        }
    }

    /// Sets the places of the known clusters among the given ones.
    fn apply_numbers(&mut self, mappings: &Vec<(u32, ClusterNumber)>)
        requires
            forall|j: int|
                0 <= j < old(self).records@.len() ==> (#[trigger] old(self).records@[j]).computed
                    < old(self).revision,
        ensures
            cluster_inputs(final(self).records@) == renumbered(
                cluster_inputs(old(self).records@),
                mappings@,
            ),
            forall|j: int|
                0 <= j < final(self).records@.len() ==> (#[trigger] final(self).records@[j]).computed
                    < final(self).revision,
            final(self).style == old(self).style,
            final(self).locale == old(self).locale,
            final(self).format == old(self).format,
            final(self).references == old(self).references,
            final(self).cluster_ids == old(self).cluster_ids,
            final(self).revision == old(self).revision,
            final(self).style_changed == old(self).style_changed,
            final(self).order_changed == old(self).order_changed,
            final(self).queue == old(self).queue,
            final(self).save_updates == old(self).save_updates,
            final(self).langs == old(self).langs,
    {
        let ghost mid = *self;
        let mut k: usize = 0;
        assert(mappings@.take(0) =~= Seq::<(u32, ClusterNumber)>::empty());
        while k < mappings.len()
            invariant
                k <= mappings@.len(),
                cluster_inputs(self.records@) == renumbered(
                    cluster_inputs(mid.records@),
                    mappings@.take(k as int),
                ),
                forall|j: int|
                    0 <= j < self.records@.len() ==> (#[trigger] self.records@[j]).computed
                        < self.revision,
                self.style == mid.style,
                self.locale == mid.locale,
                self.format == mid.format,
                self.references == mid.references,
                self.cluster_ids == mid.cluster_ids,
                self.revision == mid.revision,
                self.style_changed == mid.style_changed,
                self.order_changed == mid.order_changed,
                self.queue == mid.queue,
                self.save_updates == mid.save_updates,
                self.langs == mid.langs,
            decreases mappings@.len() - k,
        {
            proof {
                assert(mappings@.take(k + 1).drop_last() =~= mappings@.take(k as int));
                assert(mappings@.take(k + 1).last() == mappings@[k as int]);
            }
            let id = mappings[k].0;
            let number = mappings[k].1;
            let ghost before = cluster_inputs(self.records@);
            match self.find_record(id) {
                Some(i) => {
                    self.records[i].number = number;
                    assert(cluster_inputs(self.records@) =~= before.update(
                        i as int,
                        ClusterInput { number, ..before[i as int] },
                    ));
                },
                None => {},
            }
            k = k + 1;
        }
        assert(mappings@.take(k as int) =~= mappings@);
    }

    /// Sets the places of clusters. A cluster that is not known is passed over.
    pub fn renumber_clusters(&mut self, mappings: &Vec<(u32, ClusterNumber)>)
        requires
            old(self).well_formed(),
        ensures
            final(self).well_formed(),
            final(self).inputs() == (Inputs {
                clusters: renumbered(old(self).inputs().clusters, mappings@),
                ..old(self).inputs()
            }),
            final(self).log() == old(self).log(),
            final(self).recording() == old(self).recording(),
            final(self).cached_langs() == old(self).cached_langs(),
            forall|id: u32| !#[trigger] final(self).is_fresh(id),
    {
        self.bump();
        self.apply_numbers(mappings);
        self.order_changed = self.revision;
        proof {
            self.lemma_order_written();
        }
    }
}


// ---------------------------------------------------------------------------
// Rendering
// ---------------------------------------------------------------------------

/// What is logged when the document is rendered: one entry for each cluster
/// that is rendered anew, if renderings are logged at all.
pub open spec fn logged(p: Processor) -> Seq<DocUpdate> {
    if p.recording() {
        cluster_updates(rendered_anew(p, p.inputs().cluster_ids))
    } else {
        Seq::empty()
    }
}

/// How the store stands after a rendering of the document, against how it
/// stood before.
///
/// The inputs are as they were. Every known cluster of the document is
/// fresh. Whatever was fresh still is, with the text that was kept of it.
/// The log has grown by what was rendered anew.
pub open spec fn rendered_from(before: Processor, after: Processor) -> bool {
    &&& after.well_formed()
    &&& after.inputs() == before.inputs()
    &&& after.recording() == before.recording()
    &&& after.cached_langs() == before.cached_langs()
    &&& forall|id: u32|
        before.inputs().cluster_ids.contains(id) && before.inputs().knows(id)
            ==> #[trigger] after.is_fresh(id)
    &&& forall|id: u32| #[trigger]
        before.is_fresh(id) ==> after.is_fresh(id) && after.kept(id) == before.kept(id)
    &&& after.log() == before.log() + logged(before)
}

/// How the store stands after a reference was set, against how it stood before.
pub open spec fn reference_set(before: Processor, after: Processor, refr: Reference) -> bool {
    &&& after.well_formed()
    &&& after.inputs() == (Inputs {
        references: with_reference(before.inputs().references, refr),
        ..before.inputs()
    })
    &&& after.log() == before.log()
    &&& after.recording() == before.recording()
    &&& after.cached_langs() == before.cached_langs()
    &&& forall|id: u32|
        !cites_reference(cites_of(before.inputs().clusters, id), refr.id@) ==> (
        #[trigger] after.is_fresh(id)) == before.is_fresh(id)
    &&& forall|id: u32|
        before.is_fresh(id) ==> (#[trigger] after.kept(id)) == before.kept(id)
}

/// The text of a cluster in a summary: what is kept of it, or nothing.
pub open spec fn summary_text(p: Processor, id: u32) -> Seq<char> {
    match p.kept(id) {
        Some(text) => text,
        None => Seq::empty(),
    }
}

/// How the store stands after a summary was handed over, against how it
/// stood before, and what the summary holds.
///
/// Where renderings are logged, the document was rendered: every known
/// cluster of it is fresh, the summary holds what the log held and what
/// that rendering added to it, each cluster with the text that is kept of
/// it, and the log is empty. Where they are not, the store is as it was
/// and the summary is empty. Either way the inputs are as they were, and
/// whatever was fresh still is, with the text that was kept of it.
pub open spec fn summarized(before: Processor, after: Processor, summary: UpdateSummary) -> bool {
    &&& after.well_formed()
    &&& after.inputs() == before.inputs()
    &&& after.recording() == before.recording()
    &&& after.cached_langs() == before.cached_langs()
    &&& summary.bibliography is None
    &&& forall|id: u32| #[trigger]
        before.is_fresh(id) ==> after.is_fresh(id) && after.kept(id) == before.kept(id)
    &&& if before.recording() {
        let entries = before.log() + logged(before);
        &&& after.log().len() == 0
        &&& forall|id: u32|
            before.inputs().cluster_ids.contains(id) && before.inputs().knows(id)
                ==> #[trigger] after.is_fresh(id)
        &&& summary.clusters@.len() == entries.len()
        &&& forall|i: int|
            0 <= i < entries.len() ==> {
                &&& DocUpdate::Cluster((#[trigger] summary.clusters@[i]).0.0) == entries[i]
                &&& summary.clusters@[i].1@ == summary_text(after, summary.clusters@[i].0.0)
            }
    } else {
        summary.clusters@.len() == 0 && after == before
    }
}

proof fn lemma_take_contains(ids: Seq<u32>, k: int, x: u32)
    requires
        0 <= k < ids.len(),
    ensures
        ids.take(k + 1).contains(x) <==> (ids.take(k).contains(x) || x == ids[k]),
{
    let longer = ids.take(k + 1);
    let shorter = ids.take(k);
    if longer.contains(x) {
        let j = choose|j: int| 0 <= j < longer.len() && longer[j] == x;
        if j < k {
            assert(shorter[j] == x);
        }
    }
    if shorter.contains(x) {
        let j = choose|j: int| 0 <= j < shorter.len() && shorter[j] == x;
        assert(longer[j] == x);
    }
    if x == ids[k] {
        assert(longer[k] == x);
    }
}

/// Nothing that is rendered anew was fresh.
pub proof fn lemma_rendered_anew(p: Processor, ids: Seq<u32>, id: u32)
    requires
        rendered_anew(p, ids).contains(id),
    ensures
        !p.is_fresh(id),
        p.inputs().knows(id),
        ids.contains(id),
    decreases ids.len(),
{
    if ids.len() > 0 {
        let before = rendered_anew(p, ids.drop_last());
        let last = ids.last();
        let all = rendered_anew(p, ids);
        let j = choose|j: int| 0 <= j < all.len() && all[j] == id;
        if j < before.len() {
            assert(before[j] == id);
            lemma_rendered_anew(p, ids.drop_last(), id);
            let front = ids.drop_last();
            let w = choose|w: int| 0 <= w < front.len() && front[w] == id;
            assert(ids[w] == id);
        } else {
            assert(last == id);
            assert(ids[ids.len() - 1] == id);
        }
    }
}

/// Where every known cluster of the document is fresh, nothing is rendered anew.
pub proof fn lemma_nothing_to_render(p: Processor, ids: Seq<u32>)
    requires
        forall|id: u32| ids.contains(id) && p.inputs().knows(id) ==> #[trigger] p.is_fresh(id),
    ensures
        rendered_anew(p, ids).len() == 0,
    decreases ids.len(),
{
    if ids.len() > 0 {
        let front = ids.drop_last();
        assert forall|id: u32| front.contains(id) && p.inputs().knows(id) implies #[trigger] p.is_fresh(
            id,
        ) by {
            let w = choose|w: int| 0 <= w < front.len() && front[w] == id;
            assert(ids[w] == id);
        }
        lemma_nothing_to_render(p, front);
        assert(ids[ids.len() - 1] == ids.last());
    }
}

impl Processor {
    /// Renders every cluster of the document that is not fresh, in the
    /// order of the document, and logs each rendering where renderings are
    /// logged. What is fresh is not touched.
    pub fn compute(&mut self)
        requires
            old(self).well_formed(),
        ensures
            rendered_from(*old(self), *final(self)),
    {
        let ghost before = *self;
        let ghost ids = self.cluster_ids@;
        let mut k: usize = 0;
        proof {
            assert(ids.take(0) =~= Seq::<u32>::empty());
            assert(self.queue@ =~= before.queue@ + Seq::<DocUpdate>::empty());
            assert(cluster_updates(Seq::<u32>::empty()) =~= Seq::<DocUpdate>::empty());
        }
        while k < self.cluster_ids.len()
            invariant
                k <= ids.len(),
                ids == self.cluster_ids@,
                before.well_formed(),
                self.well_formed(),
                self.inputs() == before.inputs(),
                self.save_updates == before.save_updates,
                self.langs == before.langs,
                forall|id: u32| #[trigger]
                    self.is_fresh(id) == (before.is_fresh(id) || (before.inputs().knows(id)
                        && ids.take(k as int).contains(id))),
                forall|id: u32|
                    before.is_fresh(id) ==> (#[trigger] self.kept(id)) == before.kept(id),
                self.queue@ == before.queue@ + (if before.save_updates {
                    cluster_updates(rendered_anew(before, ids.take(k as int)))
                } else {
                    Seq::<DocUpdate>::empty()
                }),
            decreases ids.len() - k,
        {
            let id = self.cluster_ids[k];
            let ghost mid = *self;
            proof {
                assert(ids.take(k + 1).drop_last() =~= ids.take(k as int));
                assert(ids.take(k + 1).last() == id);
                assert forall|x: u32|
                    ids.take(k + 1).contains(x) <==> (ids.take(k as int).contains(x) || x == id) by {
                    lemma_take_contains(ids, k as int, x);
                }
            }
            match self.find_record(id) {
                Some(i) => {
                    let fresh = self.check_fresh(i);
                    assert(fresh == self.is_fresh(id));
                    if !fresh {
                        let text = self.build(i);
                        let ghost built = text@;
                        self.records[i].text = Some(text);
                        self.records[i].computed = self.revision;
                        if self.save_updates {
                            self.queue.push(DocUpdate::Cluster(id));
                        }
                        proof {
                            let anew = rendered_anew(before, ids.take(k as int));
                            assert(cluster_inputs(self.records@) =~= cluster_inputs(mid.records@));
                            assert(self.inputs() == mid.inputs());
                            assert(rendered_anew(before, ids.take(k + 1)) == anew.push(id));
                            assert(cluster_updates(anew.push(id)) =~= cluster_updates(anew).push(
                                DocUpdate::Cluster(id),
                            ));
                            if before.save_updates {
                                assert(self.queue@ =~= before.queue@ + cluster_updates(
                                    anew.push(id),
                                ));
                            }
                            assert(self.is_fresh(id));
                            assert(self.kept(id) == Some(built));
                            assert forall|x: u32| x != id implies #[trigger] self.is_fresh(x)
                                == mid.is_fresh(x) && self.kept(x) == mid.kept(x) by {
                                lemma_cluster_index_range(cluster_inputs(mid.records@), x);
                                lemma_cluster_index_range(cluster_inputs(mid.records@), id);
                            }
                            assert forall|x: u32| #[trigger] self.is_fresh(x) implies self.kept(x)
                                == Some(self.inputs().built(x)) by {
                                if x != id {
                                    assert(mid.is_fresh(x));
                                }
                            }
                            assert(self.well_formed());
                            assert(!mid.is_fresh(id));
                            assert(!before.is_fresh(id));
                            assert forall|x: u32| before.is_fresh(x) implies (#[trigger] self.kept(
                                x,
                            )) == before.kept(x) by {
                                assert(x != id);
                                assert(self.is_fresh(x) == mid.is_fresh(x));
                                assert(mid.kept(x) == before.kept(x));
                            }
                        }
                    } else {
                        proof {
                            assert(rendered_anew(before, ids.take(k + 1)) == rendered_anew(
                                before,
                                ids.take(k as int),
                            ));
                        }
                    }
                },
                None => {
                    proof {
                        assert(!before.inputs().knows(id));
                        assert(rendered_anew(before, ids.take(k + 1)) == rendered_anew(
                            before,
                            ids.take(k as int),
                        ));
                    }
                },
            }
            k = k + 1;
        }
        proof {
            assert(ids.take(k as int) =~= ids);
        }
    }

    /// Renders the document and forgets the log.
    pub fn drain(&mut self)
        requires
            old(self).well_formed(),
        ensures
            final(self).well_formed(),
            final(self).inputs() == old(self).inputs(),
            final(self).recording() == old(self).recording(),
            final(self).cached_langs() == old(self).cached_langs(),
            final(self).log().len() == 0,
            forall|id: u32|
                old(self).inputs().cluster_ids.contains(id) && old(self).inputs().knows(id)
                    ==> #[trigger] final(self).is_fresh(id),
            forall|id: u32| #[trigger]
                old(self).is_fresh(id) ==> final(self).is_fresh(id) && final(self).kept(id) == old(
                    self,
                ).kept(id),
    {
        self.compute();
        let ghost mid = *self;
        self.queue.clear();
        proof {
            assert forall|id: u32| #[trigger]
                self.is_fresh(id) == mid.is_fresh(id) && self.kept(id) == mid.kept(id) by {}
            assert(self.inputs() == mid.inputs());
            assert forall|x: u32| #[trigger] self.is_fresh(x) implies self.kept(x) == Some(
                self.inputs().built(x),
            ) by {
                assert(mid.is_fresh(x));
            }
        }
    }

    /// The text that is kept of a cluster, or an empty text.
    fn kept_text(&self, id: u32) -> (text: String)
        ensures
            text@ == summary_text(*self, id),
    {
        match self.find_record(id) {
            Some(i) => match &self.records[i].text {
                Some(text) => text.clone(),
                None => String::new(),
            },
            None => String::new(),
        }
    }

    /// Renders the document and hands over the log: each cluster that was
    /// rendered anew since the log was last handed over, with its text.
    /// Where renderings are not logged, nothing is rendered and the summary
    /// is empty.
    pub fn batched_updates(&mut self) -> (summary: UpdateSummary)
        requires
            old(self).well_formed(),
        ensures
            summarized(*old(self), *final(self), summary),
    {
        if !self.save_updates {
            return UpdateSummary::default();
        }
        self.compute();
        let ghost mid = *self;
        let mut clusters: Vec<(ClusterId, String)> = Vec::new();
        let mut k: usize = 0;
        while k < self.queue.len()
            invariant
                k <= self.queue@.len(),
                *self == mid,
                clusters@.len() == k,
                forall|i: int|
                    0 <= i < k ==> {
                        &&& DocUpdate::Cluster((#[trigger] clusters@[i]).0.0) == self.queue@[i]
                        &&& clusters@[i].1@ == summary_text(*self, clusters@[i].0.0)
                    },
            decreases self.queue@.len() - k,
        {
            match self.queue[k] {
                DocUpdate::Cluster(id) => {
                    let text = self.kept_text(id);
                    clusters.push((ClusterId::new(id), text));
                },
            }
            k = k + 1;
        }
        self.queue.clear();
        proof {
            assert forall|id: u32| #[trigger]
                self.is_fresh(id) == mid.is_fresh(id) && self.kept(id) == mid.kept(id) by {}
            assert(self.inputs() == mid.inputs());
            assert forall|x: u32| #[trigger] self.is_fresh(x) implies self.kept(x) == Some(
                self.inputs().built(x),
            ) by {
                assert(mid.is_fresh(x));
            }
            assert forall|i: int| 0 <= i < clusters@.len() implies summary_text(
                *self,
                (#[trigger] clusters@[i]).0.0,
            ) == summary_text(mid, clusters@[i].0.0) by {}
        }
        UpdateSummary { clusters, bibliography: None }
    }

    /// What a cluster renders to. The text is rendered where none is fresh,
    /// and kept.
    pub fn get_cluster(&mut self, id: u32) -> (text: String)
        requires
            old(self).well_formed(),
        ensures
            final(self).well_formed(),
            final(self).inputs() == old(self).inputs(),
            final(self).recording() == old(self).recording(),
            final(self).cached_langs() == old(self).cached_langs(),
            text@ == old(self).inputs().built(id),
            forall|other: u32| #[trigger]
                old(self).is_fresh(other) ==> final(self).is_fresh(other) && final(self).kept(other)
                    == old(self).kept(other),
    {
        let ghost mid = *self;
        match self.find_record(id) {
            Some(i) => {
                let fresh = self.check_fresh(i);
                assert(fresh == self.is_fresh(id));
                if !fresh {
                    let text = self.build(i);
                    let copy = text.clone();
                    self.records[i].text = Some(text);
                    self.records[i].computed = self.revision;
                    if self.save_updates {
                        self.queue.push(DocUpdate::Cluster(id));
                    }
                    proof {
                        assert(cluster_inputs(self.records@) =~= cluster_inputs(mid.records@));
                        assert(self.inputs() == mid.inputs());
                        assert(self.is_fresh(id));
                        assert forall|x: u32| x != id implies #[trigger] self.is_fresh(x)
                            == mid.is_fresh(x) && self.kept(x) == mid.kept(x) by {
                            lemma_cluster_index_range(cluster_inputs(mid.records@), x);
                            lemma_cluster_index_range(cluster_inputs(mid.records@), id);
                        }
                        assert forall|x: u32| #[trigger] self.is_fresh(x) implies self.kept(x)
                            == Some(self.inputs().built(x)) by {
                            if x != id {
                                assert(mid.is_fresh(x));
                            }
                        }
                    }
                    copy
                } else {
                    self.kept_text(id)
                }
            },
            None => {
                proof {
                    let inputs = self.inputs();
                    assert(cites_of(inputs.clusters, id) =~= Seq::<Cite>::empty());
                    assert(inputs.cite_texts(id, Seq::<Cite>::empty()) =~= Seq::<Seq<char>>::empty());
                }
                String::new()
            },
        }
    }

    /// The reference with the given identifier, if it was set.
    pub fn get_reference(&self, ref_id: &str) -> (r: Option<&Reference>)
        ensures
            match r {
                Some(reference) => find_reference(self.inputs().references, ref_id@) == Some(
                    *reference,
                ),
                None => find_reference(self.inputs().references, ref_id@) is None,
            },
    {
        match self.find_reference_entry(ref_id) {
            Some(i) => {
                assert(reference_values(self.references@)[i as int]
                    == self.references@[i as int].reference);
                Some(&self.references[i].reference)
            },
            None => None,
        }
    }

    pub fn get_style(&self) -> (style: &Style)
        ensures
            *style == self.inputs().style,
    {
        &self.style
    }
}

// ---------------------------------------------------------------------------
// Laws
// ---------------------------------------------------------------------------

/// A write to a reference leaves alone every cluster that does not cite
/// it: where such a cluster was fresh, the next rendering of the document
/// neither renders it anew nor logs it, and the text that is kept of it is
/// the very text that was kept before the write.
pub proof fn law_unrelated_reference(
    p1: Processor,
    p2: Processor,
    p3: Processor,
    refr: Reference,
    id: u32,
)
    requires
        p1.well_formed(),
        p1.is_fresh(id),
        !cites_reference(cites_of(p1.inputs().clusters, id), refr.id@),
        reference_set(p1, p2, refr),
        rendered_from(p2, p3),
    ensures
        p3.is_fresh(id),
        p3.kept(id) == p1.kept(id),
        !rendered_anew(p2, p2.inputs().cluster_ids).contains(id),
        !logged(p2).contains(DocUpdate::Cluster(id)),
        p3.kept(id) == Some(p3.inputs().built(id)),
{
    assert(p2.is_fresh(id));
    assert(p2.kept(id) == p1.kept(id));
    assert(p3.is_fresh(id) && p3.kept(id) == p2.kept(id));
    if rendered_anew(p2, p2.inputs().cluster_ids).contains(id) {
        lemma_rendered_anew(p2, p2.inputs().cluster_ids, id);
    }
    if logged(p2).contains(DocUpdate::Cluster(id)) {
        let anew = rendered_anew(p2, p2.inputs().cluster_ids);
        let j = choose|j: int| 0 <= j < logged(p2).len() && logged(p2)[j] == DocUpdate::Cluster(id);
        assert(anew[j] == id);
    }
    p3.lemma_fresh_is_built(id);
}

/// Of two summaries in a row, with no write between them, the second is
/// empty.
pub proof fn law_nothing_to_report(
    p1: Processor,
    p2: Processor,
    p3: Processor,
    first: UpdateSummary,
    second: UpdateSummary,
)
    requires
        summarized(p1, p2, first),
        summarized(p2, p3, second),
    ensures
        second.clusters@.len() == 0,
        second.bibliography is None,
{
    if p2.recording() {
        lemma_nothing_to_render(p2, p2.inputs().cluster_ids);
        assert(cluster_updates(Seq::<u32>::empty()) =~= Seq::<DocUpdate>::empty());
        assert(rendered_anew(p2, p2.inputs().cluster_ids) =~= Seq::<u32>::empty());
        assert(p2.log() + logged(p2) =~= Seq::<DocUpdate>::empty());
    }
}

/// Rendering the document twice in a row renders nothing anew the second
/// time: the second rendering adds nothing to the log.
pub proof fn law_nothing_changed(p1: Processor, p2: Processor, p3: Processor)
    requires
        rendered_from(p1, p2),
        rendered_from(p2, p3),
    ensures
        logged(p2).len() == 0,
        p3.log() == p2.log(),
{
    assert forall|id: u32|
        p2.inputs().cluster_ids.contains(id) && p2.inputs().knows(id) implies #[trigger] p2.is_fresh(
        id,
    ) by {}
    lemma_nothing_to_render(p2, p2.inputs().cluster_ids);
    assert(cluster_updates(Seq::<u32>::empty()) =~= Seq::<DocUpdate>::empty());
    assert(rendered_anew(p2, p2.inputs().cluster_ids) =~= Seq::<u32>::empty());
    assert(p2.log() + logged(p2) =~= p2.log());
}


// ---------------------------------------------------------------------------
// Cites, locales and the order of the document
// ---------------------------------------------------------------------------

pub open spec fn is_first_cite(cites: Seq<Cite>, id: u32, j: int) -> bool {
    &&& 0 <= j < cites.len()
    &&& cites[j].id == id
    &&& forall|k: int| 0 <= k < j ==> (#[trigger] cites[k]).id != id
}

pub open spec fn has_cite(cites: Seq<Cite>, id: u32) -> bool {
    exists|j: int| 0 <= j < cites.len() && (#[trigger] cites[j]).id == id
}

/// Whether `cite` is the first cite with the identifier `id` among the
/// clusters that are known, taken in their order.
pub open spec fn is_cite_of(clusters: Seq<ClusterInput>, id: u32, cite: Cite) -> bool {
    exists|i: int, j: int|
        {
            &&& 0 <= i < clusters.len()
            &&& #[trigger] is_first_cite(clusters[i].cites, id, j)
            &&& clusters[i].cites[j] == cite
            &&& forall|k: int| 0 <= k < i ==> !#[trigger] has_cite(clusters[k].cites, id)
        }
}

/// The strings of a vector, as sequences.
pub open spec fn views_of(v: Seq<String>) -> Seq<Seq<char>> {
    Seq::new(v.len(), |i: int| v[i]@)
}

/// The locale that rendering reads after locales were stored: the last of
/// them in the language that the style asks for, or else the locale as it was.
pub open spec fn chosen_locale(current: Locale, wanted: Seq<char>, stored: Seq<Locale>) -> Locale
    decreases stored.len(),
{
    if stored.len() == 0 {
        current
    } else if stored.last().lang@ == wanted {
        stored.last()
    } else {
        chosen_locale(current, wanted, stored.drop_last())
    }
}

/// The languages after more are added: each new one once, after the others.
pub open spec fn with_langs(langs: Seq<Seq<char>>, new: Seq<Seq<char>>) -> Seq<Seq<char>>
    decreases new.len(),
{
    if new.len() == 0 {
        langs
    } else {
        let before = with_langs(langs, new.drop_last());
        if before.contains(new.last()) {
            before
        } else {
            before.push(new.last())
        }
    }
}

pub open spec fn locale_langs(locales: Seq<Locale>) -> Seq<Seq<char>> {
    Seq::new(locales.len(), |i: int| locales[i].lang@)
}

/// The languages of the references that have one, in order, each once.
pub open spec fn reference_langs(references: Seq<Reference>) -> Seq<Seq<char>>
    decreases references.len(),
{
    if references.len() == 0 {
        Seq::empty()
    } else {
        let before = reference_langs(references.drop_last());
        match references.last().language {
            Some(lang) => if before.contains(lang@) {
                before
            } else {
                before.push(lang@)
            },
            None => before,
        }
    }
}

/// The languages that rendering may ask for: those of the references, then
/// that of the style if no reference has it.
pub open spec fn langs_in_use(references: Seq<Reference>, default_locale: Seq<char>) -> Seq<
    Seq<char>,
> {
    let langs = reference_langs(references);
    if langs.contains(default_locale) {
        langs
    } else {
        langs.push(default_locale)
    }
}

fn contains_string(v: &Vec<String>, s: &str) -> (b: bool)
    ensures
        b == views_of(v@).contains(s@),
{
    let mut i: usize = 0;
    while i < v.len()
        invariant
            i <= v@.len(),
            forall|j: int| 0 <= j < i ==> views_of(v@)[j] != s@,
        decreases v@.len() - i,
    {
        if str_eq(v[i].as_str(), s) {
            assert(views_of(v@)[i as int] == s@);
            return true;
        }
        i = i + 1;
    }
    false
}

/// The note of the last position that stands in a note.
pub open spec fn last_note(positions: Seq<ClusterPosition>) -> Option<u32>
    decreases positions.len(),
{
    if positions.len() == 0 {
        None
    } else {
        match positions.last().note {
            Some(n) => Some(n),
            None => last_note(positions.drop_last()),
        }
    }
}

/// What is wrong with an order of clusters, if anything: the first position,
/// in order, that names a cluster which is not known, or that stands in a
/// note with a smaller number than a position before it.
pub open spec fn order_error(clusters: Seq<ClusterInput>, positions: Seq<ClusterPosition>) -> Option<
    ReorderingError,
>
    decreases positions.len(),
{
    if positions.len() == 0 {
        None
    } else {
        let front = positions.drop_last();
        let last = positions.last();
        match order_error(clusters, front) {
            Some(e) => Some(e),
            None => if cluster_index(clusters, last.id.0) is None {
                Some(ReorderingError::NonExistentCluster(last.id))
            } else {
                match (last.note, last_note(front)) {
                    (Some(n), Some(before)) => if n < before {
                        Some(ReorderingError::NonMonotonicNoteNumber(n))
                    } else {
                        None
                    },
                    _ => None,
                }
            },
        }
    }
}

/// How many of the positions stand in the running text.
pub open spec fn count_in_text(positions: Seq<ClusterPosition>) -> nat
    decreases positions.len(),
{
    if positions.len() == 0 {
        0
    } else {
        count_in_text(positions.drop_last()) + (if positions.last().note is None {
            1nat
        } else {
            0nat
        })
    }
}

/// How many of the positions at the end stand in the note `n`.
pub open spec fn count_in_note(positions: Seq<ClusterPosition>, n: u32) -> nat
    decreases positions.len(),
{
    if positions.len() == 0 {
        0
    } else if positions.last().note == Some(n) {
        count_in_note(positions.drop_last(), n) + 1
    } else if positions.last().note is None {
        count_in_note(positions.drop_last(), n)
    } else {
        0
    }
}

/// The place that the position at `k` gives its cluster: in the running
/// text, the number of the cluster among those of the text; in a note, the
/// number of the note and the number of the cluster among those of the note.
pub open spec fn assigned_number(positions: Seq<ClusterPosition>, k: int) -> ClusterNumber {
    match positions[k].note {
        None => ClusterNumber::InText((count_in_text(positions.take(k)) + 1) as u32),
        Some(n) => ClusterNumber::Note(
            IntraNote::Multi(n, (count_in_note(positions.take(k), n) + 1) as u32),
        ),
    }
}

pub open spec fn assigned_numbers(positions: Seq<ClusterPosition>) -> Seq<(u32, ClusterNumber)> {
    Seq::new(positions.len(), |k: int| (positions[k].id.0, assigned_number(positions, k)))
}

pub open spec fn position_ids(positions: Seq<ClusterPosition>) -> Seq<u32> {
    Seq::new(positions.len(), |k: int| positions[k].id.0)
}

proof fn lemma_counts_bounded(positions: Seq<ClusterPosition>, n: u32)
    ensures
        count_in_text(positions) <= positions.len(),
        count_in_note(positions, n) <= positions.len(),
    decreases positions.len(),
{
    if positions.len() > 0 {
        lemma_counts_bounded(positions.drop_last(), n);
    }
}

impl Processor {
    /// A store with a style that renders nothing, for trying things out.
    pub fn test_db() -> (p: Processor)
        ensures
            p.well_formed(),
            p.inputs().style.macros@.len() == 0,
            p.inputs().style.citation.layout.elements@.len() == 0,
            p.inputs().format == (Markup::Html { test_suite: false }),
            p.inputs().references.len() == 0,
            p.inputs().clusters.len() == 0,
            p.inputs().cluster_ids.len() == 0,
            p.log().len() == 0,
            !p.recording(),
            p.cached_langs().len() == 0,
    {
        let style = Style {
            macros: Vec::new(),
            citation: Citation {
                disambiguate_add_names: false,
                disambiguate_add_givenname: false,
                givenname_disambiguation_rule: GivenNameDisambiguationRule::ByCite,
                disambiguate_add_year_suffix: false,
                layout: Layout {
                    formatting: None,
                    affixes: Affixes::default(),
                    delimiter: String::new(),
                    elements: Vec::new(),
                },
            },
            features: Features { condition_date_parts: false },
            default_locale: "en-US".to_owned(),
        };
        Processor::with_style(style, Locale::new("en-US"), Markup::html(), false)
    }

    /// The cite with the given identifier: the first, among the clusters
    /// that are known.
    pub fn get_cite(&self, id: u32) -> (r: Option<&Cite>)
        ensures
            match r {
                Some(cite) => is_cite_of(self.inputs().clusters, id, *cite),
                None => forall|i: int|
                    0 <= i < self.inputs().clusters.len() ==> !#[trigger] has_cite(
                        self.inputs().clusters[i].cites,
                        id,
                    ),
            },
    {
        let ghost clusters = cluster_inputs(self.records@);
        let mut i: usize = 0;
        while i < self.records.len()
            invariant
                i <= self.records@.len(),
                clusters == cluster_inputs(self.records@),
                forall|k: int| 0 <= k < i ==> !#[trigger] has_cite(clusters[k].cites, id),
            decreases self.records@.len() - i,
        {
            let cites = &self.records[i].cites;
            assert(clusters[i as int].cites == cites@);
            let mut j: usize = 0;
            while j < cites.len()
                invariant
                    j <= cites@.len(),
                    i < self.records@.len(),
                    clusters == cluster_inputs(self.records@),
                    clusters[i as int].cites == cites@,
                    forall|k: int| 0 <= k < i ==> !#[trigger] has_cite(clusters[k].cites, id),
                    forall|k: int| 0 <= k < j ==> (#[trigger] cites@[k]).id != id,
                decreases cites@.len() - j,
            {
                if cites[j].id == id {
                    assert(is_first_cite(clusters[i as int].cites, id, j as int));
                    return Some(&cites[j]);
                }
                j = j + 1;
            }
            i = i + 1;
        }
        None
    }

    /// Whether a locale in the given language was stored.
    pub fn has_cached_locale(&self, lang: &str) -> (b: bool)
        ensures
            b == self.cached_langs().contains(lang@),
    {
        contains_string(&self.langs, lang)
    }

    /// Stores locales. The language of each is remembered. A locale in the
    /// language that the style asks for becomes the locale that rendering
    /// reads, which every cluster reads.
    pub fn store_locales(&mut self, locales: Vec<Locale>)
        requires
            old(self).well_formed(),
        ensures
            final(self).well_formed(),
            final(self).inputs() == (Inputs {
                locale: chosen_locale(
                    old(self).inputs().locale,
                    old(self).inputs().style.default_locale@,
                    locales@,
                ),
                ..old(self).inputs()
            }),
            final(self).log() == old(self).log(),
            final(self).recording() == old(self).recording(),
            final(self).cached_langs() == with_langs(old(self).cached_langs(), locale_langs(locales@)),
    {
        let ghost all = locales@;
        let ghost n = all.len();
        let ghost start = *self;
        let mut rest = crate::utils::reversed(locales);
        proof {
            assert(all.take(0) =~= Seq::<Locale>::empty());
            assert(locale_langs(all.take(0)) =~= Seq::<Seq<char>>::empty());
        }
        while rest.len() > 0
            invariant
                self.well_formed(),
                n == all.len(),
                rest@.len() <= n,
                rest@ == all.skip((n - rest@.len()) as int).reverse(),
                self.inputs() == (Inputs {
                    locale: chosen_locale(
                        start.inputs().locale,
                        start.inputs().style.default_locale@,
                        all.take((n - rest@.len()) as int),
                    ),
                    ..start.inputs()
                }),
                self.log() == start.log(),
                self.recording() == start.recording(),
                self.cached_langs() == with_langs(
                    start.cached_langs(),
                    locale_langs(all.take((n - rest@.len()) as int)),
                ),
            decreases rest@.len(),
        {
            let ghost k = (n - rest@.len()) as int;
            let ghost before = rest@;
            let locale = rest.pop().unwrap();
            proof {
                assert(locale == before.last());
                assert(before.last() == all.skip(k)[0]);
                assert(all.take(k + 1).drop_last() =~= all.take(k));
                assert(all.take(k + 1).last() == all[k]);
                assert(rest@ =~= all.skip(k + 1).reverse());
                assert(locale_langs(all.take(k + 1)).drop_last() =~= locale_langs(all.take(k)));
                assert(locale_langs(all.take(k + 1)).last() == all[k].lang@);
            }
            if !contains_string(&self.langs, locale.lang.as_str()) {
                let ghost langs = self.cached_langs();
                let ghost pre = *self;
                self.langs.push(locale.lang.clone());
                proof {
                    assert(self.cached_langs() =~= langs.push(locale.lang@));
                    assert(self.inputs() == pre.inputs());
                    assert forall|id: u32| #[trigger]
                        self.is_fresh(id) == pre.is_fresh(id) && self.kept(id) == pre.kept(id) by {}
                    assert forall|id: u32| #[trigger] self.is_fresh(id) implies self.kept(id)
                        == Some(self.inputs().built(id)) by {
                        assert(pre.is_fresh(id));
                    }
                }
            }
            if str_eq(locale.lang.as_str(), self.style.default_locale.as_str()) {
                self.set_locale(locale);
            }
        }
        assert(all.take(n as int) =~= all);
    }

    /// The languages that rendering may ask for.
    pub fn get_langs_in_use(&self) -> (langs: Vec<String>)
        ensures
            views_of(langs@) == langs_in_use(
                self.inputs().references,
                self.inputs().style.default_locale@,
            ),
    {
        let ghost references = reference_values(self.references@);
        let mut langs: Vec<String> = Vec::new();
        let mut i: usize = 0;
        proof {
            assert(references.take(0) =~= Seq::<Reference>::empty());
            assert(views_of(langs@) =~= Seq::<Seq<char>>::empty());
        }
        while i < self.references.len()
            invariant
                i <= self.references@.len(),
                references == reference_values(self.references@),
                views_of(langs@) == reference_langs(references.take(i as int)),
            decreases self.references@.len() - i,
        {
            proof {
                assert(references.take(i + 1).drop_last() =~= references.take(i as int));
                assert(references.take(i + 1).last() == self.references@[i as int].reference);
            }
            match &self.references[i].reference.language {
                Some(lang) => {
                    if !contains_string(&langs, lang.as_str()) {
                        let ghost before = views_of(langs@);
                        langs.push(lang.clone());
                        assert(views_of(langs@) =~= before.push(lang@));
                    }
                },
                None => {},
            }
            i = i + 1;
        }
        assert(references.take(i as int) =~= references);
        if !contains_string(&langs, self.style.default_locale.as_str()) {
            let ghost before = views_of(langs@);
            langs.push(self.style.default_locale.clone());
            assert(views_of(langs@) =~= before.push(self.style.default_locale@));
        }
        langs
    }

    /// Checks an order of clusters.
    fn check_order(&self, positions: &Vec<ClusterPosition>) -> (r: Result<(), ReorderingError>)
        ensures
            match r {
                Ok(_) => order_error(self.inputs().clusters, positions@) is None,
                Err(e) => order_error(self.inputs().clusters, positions@) == Some(e),
            },
    {
        let ghost clusters = cluster_inputs(self.records@);
        let mut last: Option<u32> = None;
        let mut k: usize = 0;
        assert(positions@.take(0) =~= Seq::<ClusterPosition>::empty());
        while k < positions.len()
            invariant
                k <= positions@.len(),
                clusters == cluster_inputs(self.records@),
                order_error(clusters, positions@.take(k as int)) is None,
                last == last_note(positions@.take(k as int)),
            decreases positions@.len() - k,
        {
            proof {
                assert(positions@.take(k + 1).drop_last() =~= positions@.take(k as int));
                assert(positions@.take(k + 1).last() == positions@[k as int]);
            }
            let position = positions[k];
            let ghost upto = positions@.take(k + 1);
            if self.find_record(position.id.0).is_none() {
                proof {
                    lemma_order_error_stays(clusters, positions@, k + 1);
                }
                return Err(ReorderingError::NonExistentCluster(position.id));
            }
            match position.note {
                Some(n) => {
                    match last {
                        Some(before) => {
                            if n < before {
                                proof {
                                    lemma_order_error_stays(clusters, positions@, k + 1);
                                }
                                return Err(ReorderingError::NonMonotonicNoteNumber(n));
                            }
                        },
                        None => {},
                    }
                    last = Some(n);
                },
                None => {},
            }
            k = k + 1;
        }
        assert(positions@.take(k as int) =~= positions@);
        Ok(())
    }

    /// Sets the order of the document and the places of its clusters.
    ///
    /// Every position names a cluster that is known, and the numbers of the
    /// notes never go down: where either fails, the first failure in order
    /// is reported and nothing is changed.
    pub fn set_cluster_order(&mut self, positions: &Vec<ClusterPosition>) -> (r: Result<
        (),
        ReorderingError,
    >)
        requires
            old(self).well_formed(),
            positions@.len() < u32::MAX,
        ensures
            final(self).well_formed(),
            final(self).log() == old(self).log(),
            final(self).recording() == old(self).recording(),
            final(self).cached_langs() == old(self).cached_langs(),
            match r {
                Ok(_) => {
                    &&& order_error(old(self).inputs().clusters, positions@) is None
                    &&& final(self).inputs() == (Inputs {
                        clusters: renumbered(
                            old(self).inputs().clusters,
                            assigned_numbers(positions@),
                        ),
                        cluster_ids: position_ids(positions@),
                        ..old(self).inputs()
                    })
                },
                Err(e) => {
                    &&& order_error(old(self).inputs().clusters, positions@) == Some(e)
                    &&& final(self).inputs() == old(self).inputs()
                    &&& forall|id: u32| #[trigger]
                        final(self).is_fresh(id) == old(self).is_fresh(id) && final(self).kept(id)
                            == old(self).kept(id)
                },
            },
    {
        match self.check_order(positions) {
            Err(e) => {
                return Err(e);
            },
            Ok(_) => {},
        }
        let mut mappings: Vec<(u32, ClusterNumber)> = Vec::new();
        let mut ids: Vec<u32> = Vec::new();
        let mut in_text: u32 = 0;
        let mut note: Option<u32> = None;
        let mut in_note: u32 = 0;
        let mut k: usize = 0;
        proof {
            assert(positions@.take(0) =~= Seq::<ClusterPosition>::empty());
        }
        while k < positions.len()
            invariant
                k <= positions@.len(),
                positions@.len() < u32::MAX,
                mappings@.len() == k,
                ids@.len() == k,
                forall|j: int| 0 <= j < k ==> mappings@[j] == assigned_numbers(positions@)[j],
                forall|j: int| 0 <= j < k ==> ids@[j] == positions@[j].id.0,
                in_text == count_in_text(positions@.take(k as int)),
                note == last_note(positions@.take(k as int)),
                match note {
                    Some(n) => in_note == count_in_note(positions@.take(k as int), n),
                    None => true,
                },
                forall|m: u32|
                    Some(m) != note ==> #[trigger] count_in_note(positions@.take(k as int), m)
                        == 0,
            decreases positions@.len() - k,
        {
            let ghost front = positions@.take(k as int);
            proof {
                assert(positions@.take(k + 1).drop_last() =~= front);
                assert(positions@.take(k + 1).last() == positions@[k as int]);
                lemma_counts_bounded(front, 0);
            }
            let position = positions[k];
            let number = match position.note {
                None => {
                    in_text = in_text + 1;
                    ClusterNumber::InText(in_text)
                },
                Some(n) => {
                    let same = match note {
                        Some(before) => before == n,
                        None => false,
                    };
                    proof {
                        lemma_counts_bounded(front, n);
                    }
                    if same {
                        in_note = in_note + 1;
                    } else {
                        in_note = 1;
                    }
                    note = Some(n);
                    ClusterNumber::Note(IntraNote::Multi(n, in_note))
                },
            };
            proof {
                let longer = positions@.take(k + 1);
                assert forall|m: u32| Some(m) != note implies #[trigger] count_in_note(longer, m)
                    == 0 by {
                    assert(count_in_note(front, m) == 0 || position.note is Some);
                }
                assert(number == assigned_number(positions@, k as int));
            }
            mappings.push((position.id.0, number));
            ids.push(position.id.0);
            k = k + 1;
        }
        proof {
            assert(mappings@ =~= assigned_numbers(positions@));
            assert(ids@ =~= position_ids(positions@));
        }
        self.bump();
        self.apply_numbers(&mappings);
        self.cluster_ids = ids;
        self.order_changed = self.revision;
        proof {
            self.lemma_order_written();
        }
        Ok(())
    }
}

/// An error in the first positions of an order is the error of the whole order.
proof fn lemma_order_error_stays(
    clusters: Seq<ClusterInput>,
    positions: Seq<ClusterPosition>,
    k: int,
)
    requires
        0 <= k <= positions.len(),
        order_error(clusters, positions.take(k)) is Some,
    ensures
        order_error(clusters, positions) == order_error(clusters, positions.take(k)),
    decreases positions.len() - k,
{
    if k < positions.len() {
        assert(positions.take(k + 1).drop_last() =~= positions.take(k));
        lemma_order_error_stays(clusters, positions, k + 1);
    } else {
        assert(positions.take(k) =~= positions);
    }
}

} // verus!
