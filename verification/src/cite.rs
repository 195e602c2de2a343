//! Cites, clusters and the keys that order clusters in a document.

use vstd::prelude::*;
use std::cmp::Ordering;
use vstd::std_specs::cmp::PartialOrdSpecImpl;
use crate::date::DateOrRange;
use crate::numeric::NumericValue;
use crate::terms::LocatorType;

verus! {

pub type CiteId = u32;

pub type ClusterId = u32;

/// Which half of a cite is left out when an author is named in running text.
#[derive(Copy, Clone, PartialEq, Eq, Hash, Debug, Structural)]
pub enum Suppression {
    /// Keep only what belongs in the running text (the author, the parties of a case).
    InText,
    /// Keep everything but that.
    Rest,
}

/// A pointer into a reference: what kind of place, and which.
#[derive(Debug, PartialEq, Eq)]
pub struct Locator(pub LocatorType, pub NumericValue);

impl Locator {
    pub fn type_of(&self) -> (t: LocatorType)
        ensures
            t == self.0,
    {
        self.0
    }

    pub fn value(&self) -> (v: &NumericValue)
        ensures
            *v == self.1,
    {
        &self.1
    }
}

/// One cite in a document, to exactly one reference.
#[derive(Debug, PartialEq, Eq)]
pub struct Cite {
    pub id: CiteId,
    pub ref_id: String,
    pub prefix: Option<String>,
    pub suffix: Option<String>,
    pub suppression: Option<Suppression>,
    pub locators: Vec<Locator>,
    pub locator_extra: Option<String>,
    pub locator_date: Option<DateOrRange>,
}

impl Cite {
    /// A cite of `ref_id` with nothing else said: no affixes, no suppression, no locator.
    pub fn basic(id: CiteId, ref_id: &str) -> (c: Cite)
        ensures
            c.id == id,
            c.ref_id@ == ref_id@,
            c.prefix is None,
            c.suffix is None,
            c.suppression is None,
            c.locators@.len() == 0,
            c.locator_extra is None,
            c.locator_date is None,
    {
        Cite {
            id,
            ref_id: ref_id.to_owned(),
            prefix: None,
            suffix: None,
            suppression: None,
            locators: Vec::new(),
            locator_extra: None,
            locator_date: None,
        }
    }
}

/// The place of a cluster among the notes of a document.
///
/// A note with one cluster is `Single`. Where several clusters share a note,
/// each is `Multi` with a second number that tells them apart. `Single`
/// orders before every `Multi`; two `Multi` are ordered by the note, then by
/// the second number.
#[derive(Copy, Clone, PartialEq, Eq, Ord, Debug, Structural)]
pub enum IntraNote {
    Single(u32),
    Multi(u32, u32),
}

/// The place of a cluster in a document: in the running text, or in a note.
///
/// Every place in the text orders before every place in a note.
#[derive(Copy, Clone, PartialEq, Eq, Ord, Debug, Structural)]
pub enum ClusterNumber {
    InText(u32),
    Note(IntraNote),
}

/// How two unsigned numbers compare.
pub open spec fn order_of(a: u32, b: u32) -> Ordering {
    if a < b {
        Ordering::Less
    } else if a == b {
        Ordering::Equal
    } else {
        Ordering::Greater
    }
}

fn compare(a: u32, b: u32) -> (o: Ordering)
    ensures
        o == order_of(a, b),
{
    if a < b {
        Ordering::Less
    } else if a == b {
        Ordering::Equal
    } else {
        Ordering::Greater
    }
}

impl IntraNote {
    /// The number of the note, whichever the variant.
    pub open spec fn spec_note_number(&self) -> u32 {
        match self {
            IntraNote::Single(x) => *x,
            IntraNote::Multi(x, _) => *x,
        }
    }

    #[verifier::when_used_as_spec(spec_note_number)]
    pub fn note_number(&self) -> (n: u32)
        ensures
            n == self.spec_note_number(),
    {
        match self {
            IntraNote::Single(x) => *x,
            IntraNote::Multi(x, _) => *x,
        }
    }

    /// The order of two places among the notes.
    pub open spec fn order(self, other: IntraNote) -> Ordering {
        match (self, other) {
            (IntraNote::Single(_), IntraNote::Multi(_, _)) => Ordering::Less,
            (IntraNote::Multi(_, _), IntraNote::Single(_)) => Ordering::Greater,
            (IntraNote::Single(a), IntraNote::Single(b)) => order_of(a, b),
            (IntraNote::Multi(a, b), IntraNote::Multi(c, d)) => if a == c {
                order_of(b, d)
            } else {
                order_of(a, c)
            },
        }
    }
}

impl PartialOrd for IntraNote {
    fn partial_cmp(&self, other: &IntraNote) -> (r: Option<Ordering>) {
        match (self, other) {
            (IntraNote::Single(_), IntraNote::Multi(_, _)) => Some(Ordering::Less),
            (IntraNote::Multi(_, _), IntraNote::Single(_)) => Some(Ordering::Greater),
            (IntraNote::Single(a), IntraNote::Single(b)) => Some(compare(*a, *b)),
            (IntraNote::Multi(a, b), IntraNote::Multi(c, d)) => {
                if *a == *c {
                    Some(compare(*b, *d))
                } else {
                    Some(compare(*a, *c))
                }
            },
        }
    }
}

impl PartialOrdSpecImpl for IntraNote {
    open spec fn obeys_partial_cmp_spec() -> bool {
        true
    }

    open spec fn partial_cmp_spec(&self, other: &IntraNote) -> Option<Ordering> {
        Some(self.order(*other))
    }
}

impl ClusterNumber {
    /// How many notes lie between this place and an earlier note.
    ///
    /// `None` for a place in the running text, which has no note number.
    pub open spec fn spec_sub_note(self, note: IntraNote) -> Option<u32> {
        match self {
            ClusterNumber::Note(own) => Some((own.spec_note_number() - note.spec_note_number()) as u32),
            ClusterNumber::InText(_) => None,
        }
    }

    /// The distance in notes from `note` up to this place.
    ///
    /// `note` is a note at or before this one: the distance is not negative.
    pub fn sub_note(self, note: IntraNote) -> (r: Option<u32>)
        requires
            self matches ClusterNumber::Note(own) ==> own.spec_note_number()
                >= note.spec_note_number(),
        ensures
            r == self.spec_sub_note(note),
    {
        match self {
            ClusterNumber::Note(own) => Some(own.note_number() - note.note_number()),
            ClusterNumber::InText(_) => None,
        }
    }

    /// The order of two places in a document.
    pub open spec fn order(self, other: ClusterNumber) -> Ordering {
        match (self, other) {
            (ClusterNumber::InText(_), ClusterNumber::Note(_)) => Ordering::Less,
            (ClusterNumber::Note(_), ClusterNumber::InText(_)) => Ordering::Greater,
            (ClusterNumber::InText(a), ClusterNumber::InText(b)) => order_of(a, b),
            (ClusterNumber::Note(a), ClusterNumber::Note(b)) => a.order(b),
        }
    }

    /// Whether this place comes strictly before `other`.
    pub open spec fn before(self, other: ClusterNumber) -> bool {
        self.order(other) == Ordering::Less
    }
}

impl PartialOrd for ClusterNumber {
    fn partial_cmp(&self, other: &ClusterNumber) -> (r: Option<Ordering>) {
        match (self, other) {
            (ClusterNumber::InText(_), ClusterNumber::Note(_)) => Some(Ordering::Less),
            (ClusterNumber::Note(_), ClusterNumber::InText(_)) => Some(Ordering::Greater),
            (ClusterNumber::InText(a), ClusterNumber::InText(b)) => Some(compare(*a, *b)),
            (ClusterNumber::Note(a), ClusterNumber::Note(b)) => a.partial_cmp(b),
        }
    }
}

impl PartialOrdSpecImpl for ClusterNumber {
    open spec fn obeys_partial_cmp_spec() -> bool {
        true
    }

    open spec fn partial_cmp_spec(&self, other: &ClusterNumber) -> Option<Ordering> {
        Some(self.order(*other))
    }
}

/// Notes are ordered by their number; within one note, the cluster that
/// stands alone comes before every numbered one, and numbered ones follow
/// their second number.
pub proof fn law_note_order(a: u32, b: u32, n: u32, d: u32, e: u32)
    ensures
        a < b ==> ClusterNumber::Note(IntraNote::Single(a)).before(
            ClusterNumber::Note(IntraNote::Single(b)),
        ),
        ClusterNumber::Note(IntraNote::Single(n)).before(ClusterNumber::Note(IntraNote::Multi(n, d))),
        d < e ==> ClusterNumber::Note(IntraNote::Multi(n, d)).before(
            ClusterNumber::Note(IntraNote::Multi(n, e)),
        ),
{
}

/// The order of places is a strict total order: of two places exactly one of
/// before, equal and after holds, the two directions mirror each other, and
/// before is transitive.
pub proof fn law_order_total(x: ClusterNumber, y: ClusterNumber, z: ClusterNumber)
    ensures
        x.order(y) == Ordering::Equal <==> x == y,
        x.order(y) == Ordering::Less <==> y.order(x) == Ordering::Greater,
        x.before(y) && y.before(z) ==> x.before(z),
        ClusterNumber::InText(0).order(x) != Ordering::Greater,
{
}

/// A cluster as a document hands it over: its place, its identifier and its cites.
#[derive(Debug, PartialEq)]
pub enum Cluster2 {
    Note { note: IntraNote, id: ClusterId, cites: Vec<Cite> },
    InText { in_text: u32, id: ClusterId, cites: Vec<Cite> },
}

impl Cluster2 {
    pub open spec fn spec_id(&self) -> ClusterId {
        match self {
            Cluster2::InText { id, .. } => *id,
            Cluster2::Note { id, .. } => *id,
        }
    }

    pub open spec fn spec_cluster_number(&self) -> ClusterNumber {
        match self {
            Cluster2::InText { in_text, .. } => ClusterNumber::InText(*in_text),
            Cluster2::Note { note, .. } => ClusterNumber::Note(*note),
        }
    }

    pub open spec fn spec_cites(&self) -> Vec<Cite> {
        match self {
            Cluster2::InText { cites, .. } => *cites,
            Cluster2::Note { cites, .. } => *cites,
        }
    }

    #[verifier::when_used_as_spec(spec_id)]
    pub fn id(&self) -> (id: ClusterId)
        ensures
            id == self.spec_id(),
    {
        match self {
            Cluster2::InText { id, .. } => *id,
            Cluster2::Note { id, .. } => *id,
        }
    }

    #[verifier::when_used_as_spec(spec_cluster_number)]
    pub fn cluster_number(&self) -> (n: ClusterNumber)
        ensures
            n == self.spec_cluster_number(),
    {
        match self {
            Cluster2::InText { in_text, .. } => ClusterNumber::InText(*in_text),
            Cluster2::Note { note, .. } => ClusterNumber::Note(*note),
        }
    }

    /// The three parts of a cluster.
    pub fn split(self) -> (r: (ClusterId, ClusterNumber, Vec<Cite>))
        ensures
            r.0 == self.spec_id(),
            r.1 == self.spec_cluster_number(),
            r.2 == self.spec_cites(),
    {
        match self {
            Cluster2::Note { id, note, cites } => (id, ClusterNumber::Note(note), cites),
            Cluster2::InText { id, in_text, cites } => (id, ClusterNumber::InText(in_text), cites),
        }
    }
}

} // verus!
