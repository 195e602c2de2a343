//! The values that pass between the processor and its host.

use vstd::prelude::*;
use vstd::string::StringExecFns;
use crate::cite::Cite;
use crate::markup::Markup;
use crate::numeric::{decimal, push_decimal};
use crate::string_id;
use crate::style::str_eq;

verus! {

/// The identifier of a cluster: a number that stands for a name which the
/// host keeps in an [`Interner`].
#[derive(Debug, Clone, Copy, PartialEq, Eq, Hash, Structural)]
pub struct ClusterId(pub u32);

impl ClusterId {
    pub fn new(internal: u32) -> (id: ClusterId)
        ensures
            id == ClusterId(internal),
    {
        ClusterId(internal)
    }

    pub fn raw(&self) -> (internal: u32)
        ensures
            internal == self.0,
    {
        self.0
    }
}

/// The names that cluster identifiers stand for, each at the place of its number.
#[derive(Debug, PartialEq, Eq)]
pub struct Interner {
    pub names: Vec<String>,
}

impl Interner {
    pub fn new() -> (i: Interner)
        ensures
            i.names@.len() == 0,
    {
        Interner { names: Vec::new() }
    }

    /// The name that a number stands for, if it stands for one.
    pub open spec fn spec_resolve(&self, id: u32) -> Option<Seq<char>> {
        if id < self.names@.len() {
            Some(self.names@[id as int]@)
        } else {
            None
        }
    }

    pub fn resolve(&self, id: u32) -> (r: Option<&str>)
        ensures
            match r {
                Some(s) => self.spec_resolve(id) == Some(s@),
                None => self.spec_resolve(id) is None,
            },
    {
        let i = id as usize;
        if i < self.names.len() {
            Some(self.names[i].as_str())
        } else {
            None
        }
    }
}

/// A special form in which a cluster is written.
#[derive(Debug, Clone, Copy, PartialEq, Eq, Hash, Structural)]
pub enum ClusterMode {
    /// Only the authors.
    AuthorOnly,
    /// Everything but the authors of the first `suppress_first` cites.
    SuppressAuthor { suppress_first: u32 },
    /// The authors in the running text, the rest in the cluster proper.
    Composite { suppress_first: u32 },
}

/// A cluster as the host hands it over: its cites, and how to write them.
#[derive(Debug, PartialEq)]
pub struct Cluster {
    pub id: ClusterId,
    pub cites: Vec<Cite>,
    pub mode: Option<ClusterMode>,
}

/// Where a cluster stands in the document.
#[derive(Debug, Clone, Copy, PartialEq, Eq, Structural)]
pub struct ClusterPosition {
    pub id: ClusterId,
    /// `None` for a cluster in the running text, the number of the note otherwise.
    pub note: Option<u32>,
}

/// What can be wrong with an order of clusters that the host asks for.
#[derive(Debug, Copy, Clone, PartialEq, Eq, Structural)]
pub enum ReorderingError {
    /// A note number that is smaller than one before it, as in `[1, 2, 3, 1]`.
    NonMonotonicNoteNumber(u32),
    /// A preview needs exactly one position marked for it.
    DidNotSupplyZeroPosition,
    NonExistentCluster(ClusterId),
}

impl ReorderingError {
    /// The message of the error.
    pub open spec fn spec_message(&self) -> Seq<char> {
        match self {
            ReorderingError::NonMonotonicNoteNumber(n) =>
                "set_cluster_order called with a note number "@ + decimal(*n as nat)
                    + " that was out of order (e.g. [1, 2, 3, 1])"@,
            ReorderingError::DidNotSupplyZeroPosition =>
                "call to preview_citation_cluster must provide exactly one preview position"@,
            ReorderingError::NonExistentCluster(id) => "non-existent cluster "@ + decimal(
                id.0 as nat,
            ),
        }
    }

    pub fn message(&self) -> (s: String)
        ensures
            s@ == self.spec_message(),
    {
        match self {
            ReorderingError::NonMonotonicNoteNumber(n) => {
                let mut s = String::from_str("set_cluster_order called with a note number ");
                push_decimal(&mut s, *n);
                s.append(" that was out of order (e.g. [1, 2, 3, 1])");
                s
            },
            ReorderingError::DidNotSupplyZeroPosition => String::from_str(
                "call to preview_citation_cluster must provide exactly one preview position",
            ),
            ReorderingError::NonExistentCluster(id) => {
                let mut s = String::from_str("non-existent cluster ");
                push_decimal(&mut s, id.0);
                s
            },
        }
    }

    /// The same error for a host that knows clusters by name: a cluster
    /// that does not exist is given by its name, where it has one.
    pub fn to_external(self, interner: &Interner) -> (e: string_id::ReorderingError)
        ensures
            match e {
                string_id::ReorderingError::NonExistentCluster(name) => {
                    &&& self matches ReorderingError::NonExistentCluster(id)
                    &&& interner.spec_resolve(id.0) == Some(name@)
                },
                string_id::ReorderingError::Internal(inner) => {
                    &&& inner == self
                    &&& self matches ReorderingError::NonExistentCluster(id)
                        ==> interner.spec_resolve(id.0) is None
                },
            },
    {
        match self {
            ReorderingError::NonExistentCluster(id) => {
                match interner.resolve(id.raw()) {
                    Some(name) => string_id::ReorderingError::NonExistentCluster(
                        String::from_str(name),
                    ),
                    None => string_id::ReorderingError::Internal(self),
                }
            },
            _ => string_id::ReorderingError::Internal(self),
        }
    }
}

#[derive(Debug, Clone, Copy, PartialEq, Eq, Structural)]
pub enum SecondFieldAlign {
    Flush,
    Margin,
}

/// How a bibliography is to be laid out.
#[derive(Debug, PartialEq, Eq)]
pub struct BibliographyMeta {
    pub max_offset: u32,
    /// Line spacing between entries.
    pub entry_spacing: u32,
    /// Line spacing within entries.
    pub line_spacing: u32,
    pub hanging_indent: bool,
    /// Where the style aligns the second field, how.
    pub second_field_align: Option<SecondFieldAlign>,
    /// What the format writes before and after the bibliography.
    pub format_meta: Option<(String, String)>,
}

/// What changed in a bibliography.
#[derive(Debug, PartialEq, Eq)]
pub struct BibliographyUpdate {
    /// The entries that were rendered anew, by reference.
    pub updated_entries: Vec<(String, String)>,
    /// `None` where the order is as it was; else all the entries in order.
    /// An entry that is no longer listed has been removed.
    pub entry_ids: Option<Vec<String>>,
}

impl BibliographyUpdate {
    /// An update that changes nothing.
    pub fn new() -> (u: BibliographyUpdate)
        ensures
            u.updated_entries@.len() == 0,
            u.entry_ids is None,
    {
        BibliographyUpdate { updated_entries: Vec::new(), entry_ids: None }
    }
}

/// The clusters that were rendered anew, each with its text, and what
/// changed in the bibliography.
#[derive(Debug, PartialEq, Eq)]
pub struct UpdateSummary {
    pub clusters: Vec<(ClusterId, String)>,
    pub bibliography: Option<BibliographyUpdate>,
}

impl Default for UpdateSummary {
    fn default() -> (u: UpdateSummary)
        ensures
            u.clusters@.len() == 0,
            u.bibliography is None,
    {
        UpdateSummary { clusters: Vec::new(), bibliography: None }
    }
}

#[derive(Debug, PartialEq, Eq)]
pub struct BibEntry {
    pub id: String,
    pub value: String,
}

/// Everything that a document renders to.
#[derive(Debug, PartialEq, Eq)]
pub struct FullRender {
    pub all_clusters: Vec<(ClusterId, String)>,
    pub bib_entries: Vec<BibEntry>,
}

/// Which references are listed in the bibliography though nothing cites them.
#[derive(Debug, PartialEq, Eq)]
pub enum IncludeUncited {
    /// None of them.
    Nothing,
    All,
    /// Those with these identifiers.
    Specific(Vec<String>),
}

impl Default for IncludeUncited {
    fn default() -> (i: IncludeUncited)
        ensures
            i is Nothing,
    {
        IncludeUncited::Nothing
    }
}

/// The output formats that a host can ask for by name.
#[derive(Debug, Copy, Clone, PartialEq, Eq, Hash, Structural)]
pub enum SupportedFormat {
    Html,
    Rtf,
    Plain,
    TestHtml,
}

impl SupportedFormat {
    pub open spec fn spec_make_markup(&self) -> Markup {
        match self {
            SupportedFormat::Html => Markup::Html { test_suite: false },
            SupportedFormat::Rtf => Markup::Rtf,
            SupportedFormat::Plain => Markup::Plain,
            SupportedFormat::TestHtml => Markup::Html { test_suite: true },
        }
    }

    /// The format itself.
    #[verifier::when_used_as_spec(spec_make_markup)]
    pub fn make_markup(&self) -> (m: Markup)
        ensures
            m == self.spec_make_markup(),
    {
        match self {
            SupportedFormat::Html => Markup::html(),
            SupportedFormat::Rtf => Markup::rtf(),
            SupportedFormat::Plain => Markup::plain(),
            SupportedFormat::TestHtml => Markup::test_html(),
        }
    }

    /// The format of a name. The form for the test suite has no name.
    pub open spec fn spec_from_name(name: Seq<char>) -> Option<SupportedFormat> {
        if name == "html"@ {
            Some(SupportedFormat::Html)
        } else if name == "rtf"@ {
            Some(SupportedFormat::Rtf)
        } else if name == "plain"@ {
            Some(SupportedFormat::Plain)
        } else {
            None
        }
    }

    pub fn from_name(name: &str) -> (r: Option<SupportedFormat>)
        ensures
            r == Self::spec_from_name(name@),
    {
        if str_eq(name, "html") {
            Some(SupportedFormat::Html)
        } else if str_eq(name, "rtf") {
            Some(SupportedFormat::Rtf)
        } else if str_eq(name, "plain") {
            Some(SupportedFormat::Plain)
        } else {
            None
        }
    }
}

impl std::str::FromStr for SupportedFormat {
    type Err = ();

    /// The format of a name, and an error for a name that no format has.
    fn from_str(s: &str) -> (r: Result<Self, ()>)
        ensures
            match r {
                Ok(f) => SupportedFormat::spec_from_name(s@) == Some(f),
                Err(_) => SupportedFormat::spec_from_name(s@) is None,
            },
    {
        match SupportedFormat::from_name(s) {
            Some(f) => Ok(f),
            None => Err(()),
        }
    }
}

/// Where a cluster goes that is rendered for a preview only.
pub enum PreviewPosition<'a> {
    /// In place of the cluster that the user is editing.
    ReplaceCluster(ClusterId),
    /// At the position marked by the identifier 0 in an order of the whole document.
    MarkWithZero(&'a [ClusterPosition]),
    MarkWithZeroStr(&'a [string_id::ClusterPosition]),
}

/// How many of the positions are marked with the identifier 0.
pub open spec fn marked(positions: Seq<ClusterPosition>) -> nat
    decreases positions.len(),
{
    if positions.len() == 0 {
        0
    } else {
        marked(positions.drop_last()) + if positions.last().id.0 == 0 {
            1nat
        } else {
            0nat
        }
    }
}

/// The place of the one position that is marked with the identifier 0,
/// which is where a preview goes. That none is marked, and that more than
/// one is, is an error.
pub fn preview_place(positions: &[ClusterPosition]) -> (r: Result<usize, ReorderingError>)
    ensures
        match r {
            Ok(i) => {
                &&& marked(positions@) == 1
                &&& i < positions@.len()
                &&& positions@[i as int].id.0 == 0
                &&& forall|j: int|
                    0 <= j < positions@.len() && j != i ==> (#[trigger] positions@[j]).id.0 != 0
            },
            Err(e) => e == ReorderingError::DidNotSupplyZeroPosition && marked(positions@) != 1,
        },
{
    let mut found: Option<usize> = None;
    let mut k: usize = 0;
    assert(positions@.take(0) =~= Seq::<ClusterPosition>::empty());
    while k < positions.len()
        invariant
            k <= positions@.len(),
            match found {
                Some(i) => {
                    &&& marked(positions@.take(k as int)) == 1
                    &&& i < k
                    &&& positions@[i as int].id.0 == 0
                    &&& forall|j: int| 0 <= j < k && j != i ==> (#[trigger] positions@[j]).id.0 != 0
                },
                None => {
                    &&& marked(positions@.take(k as int)) == 0
                    &&& forall|j: int| 0 <= j < k ==> (#[trigger] positions@[j]).id.0 != 0
                },
            },
        decreases positions@.len() - k,
    {
        proof {
            assert(positions@.take(k + 1).drop_last() =~= positions@.take(k as int));
            assert(positions@.take(k + 1).last() == positions@[k as int]);
        }
        if positions[k].id.0 == 0 {
            if found.is_some() {
                proof {
                    lemma_marked_grows(positions@, k + 1);
                }
                return Err(ReorderingError::DidNotSupplyZeroPosition);
            }
            found = Some(k);
        }
        k = k + 1;
    }
    assert(positions@.take(k as int) =~= positions@);
    match found {
        Some(i) => Ok(i),
        None => Err(ReorderingError::DidNotSupplyZeroPosition),
    }
}

/// The count of a front part is no more than the count of the whole.
proof fn lemma_marked_grows(positions: Seq<ClusterPosition>, k: int)
    requires
        0 <= k <= positions.len(),
    ensures
        marked(positions.take(k)) <= marked(positions),
    decreases positions.len() - k,
{
    if k == positions.len() {
        assert(positions.take(k) =~= positions);
    } else {
        assert(positions.drop_last().take(k) =~= positions.take(k));
        lemma_marked_grows(positions.drop_last(), k);
    }
}

} // verus!
