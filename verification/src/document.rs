//! Documents of markup, from their text.
//!
//! The text is parsed by `roxmltree`. What it finds is handed over as a
//! list of records, one for each node in the order of the document; the
//! tree of elements is built from that list here.

use vstd::prelude::*;
use crate::xml::XmlNode;

verus! {

/// One node of a parsed document: how deep it stands, whether it is an
/// element, and for an element its tag and its attributes.
#[derive(Debug, PartialEq, Eq)]
pub struct XmlRecord {
    pub depth: usize,
    pub element: bool,
    pub tag: String,
    pub attributes: Vec<(String, String)>,
}

/// What a record holds.
pub struct RecordModel {
    pub depth: nat,
    pub element: bool,
    pub tag: Seq<char>,
    pub attributes: Seq<(Seq<char>, Seq<char>)>,
}

/// Attributes as texts.
pub open spec fn pairs_model(pairs: Seq<(String, String)>) -> Seq<(Seq<char>, Seq<char>)> {
    Seq::new(pairs.len(), |i: int| (pairs[i].0@, pairs[i].1@))
}

impl View for XmlRecord {
    type V = RecordModel;

    open spec fn view(&self) -> RecordModel {
        RecordModel {
            depth: self.depth as nat,
            element: self.element,
            tag: self.tag@,
            attributes: pairs_model(self.attributes@),
        }
    }
}

pub open spec fn record_models(records: Seq<XmlRecord>) -> Seq<RecordModel> {
    Seq::new(records.len(), |i: int| records[i]@)
}

/// The nodes of the document that a text holds, from its root element on
/// in the order of the document, as `roxmltree` finds them; `None` for a
/// text that it does not take for a document.
pub uninterp spec fn xml_records(text: Seq<char>) -> Option<Seq<RecordModel>>;

/// The error of `roxmltree`, which says why a text is no document.
/// Nothing is said of what it holds.
#[verifier::external_type_specification]
#[verifier::external_body]
pub struct ExSyntaxError(roxmltree::Error);

/// Parses a text with `roxmltree::Document::parse` and lists the root
/// element and what is under it (`Node::descendants`): of each node the
/// number of nodes from it up to the root (`Node::ancestors`), whether it
/// is an element, the local name of its tag and its attributes by local
/// name and value. The same text gives the same list. The list is never
/// empty: a document has a root element, which is listed first. Nothing
/// else is claimed of it.
#[verifier::external_body]
fn parsed_records(text: &str) -> (r: Result<Vec<XmlRecord>, roxmltree::Error>)
    ensures
        match r {
            Ok(records) => records@.len() > 0 && xml_records(text@) == Some(
                record_models(records@),
            ),
            Err(_) => xml_records(text@) is None,
        },
{
    let doc = roxmltree::Document::parse(text)?;
    Ok(doc.root_element().descendants().map(|n| XmlRecord {
        depth: n.ancestors().count(),
        element: n.is_element(),
        tag: n.tag_name().name().to_owned(),
        attributes: n.attributes().iter().map(|a| (a.name().to_owned(), a.value().to_owned())).collect(),
    }).collect())
}

/// Where the part of the list that stands deeper than `d` ends, from `j`
/// on: the first place with a record at depth `d` or above it, or the end
/// of the list.
pub open spec fn part_end(records: Seq<RecordModel>, j: int, d: nat) -> int
    decreases records.len() - j,
{
    if j < 0 || j >= records.len() {
        records.len() as int
    } else if records[j].depth <= d {
        j
    } else {
        part_end(records, j + 1, d)
    }
}

/// Whether `nodes` are the elements at depth `d` among the records from
/// `start` up to `j`, in order, each with what stands under it.
pub open spec fn children_at(
    records: Seq<RecordModel>,
    start: int,
    j: int,
    d: nat,
    nodes: Seq<XmlNode>,
) -> bool
    decreases records.len() - start, j - start + 1,
{
    if start < 0 || j <= start || j > records.len() {
        nodes.len() == 0
    } else if records[j - 1].depth == d && records[j - 1].element {
        &&& nodes.len() > 0
        &&& children_at(records, start, j - 1, d, nodes.drop_last())
        &&& node_at(records, j - 1, nodes.last())
    } else {
        children_at(records, start, j - 1, d, nodes)
    }
}

/// Whether `node` is what the record at `i` stands for: it has the tag and
/// the attributes of the record, and its children are the elements one
/// level deeper among the records that follow, up to the next record that
/// does not stand deeper than the one at `i`.
pub open spec fn node_at(records: Seq<RecordModel>, i: int, node: XmlNode) -> bool
    decreases records.len() - i, 0int,
{
    &&& 0 <= i < records.len()
    &&& node.tag@ == records[i].tag
    &&& pairs_model(node.attributes@) == records[i].attributes
    &&& children_at(
        records,
        i + 1,
        part_end(records, i + 1, records[i].depth),
        records[i].depth + 1,
        node.children@,
    )
}

fn copy_pairs(pairs: &Vec<(String, String)>) -> (r: Vec<(String, String)>)
    ensures
        pairs_model(r@) == pairs_model(pairs@),
{
    let mut r: Vec<(String, String)> = Vec::new();
    let mut i: usize = 0;
    while i < pairs.len()
        invariant
            i <= pairs@.len(),
            r@.len() == i,
            forall|k: int| 0 <= k < i ==> (#[trigger] r@[k]).0@ == pairs@[k].0@ && r@[k].1@ == pairs@[k].1@,
        decreases pairs@.len() - i,
    {
        r.push((pairs[i].0.clone(), pairs[i].1.clone()));
        i = i + 1;
    }
    assert(pairs_model(r@) =~= pairs_model(pairs@));
    r
}

/// Builds the element that the record at `i` stands for.
fn build(records: &Vec<XmlRecord>, i: usize) -> (node: XmlNode)
    requires
        i < records@.len(),
    ensures
        node_at(record_models(records@), i as int, node),
    decreases records@.len() - i,
{
    let ghost models = record_models(records@);
    let d = records[i].depth;
    let mut children: Vec<XmlNode> = Vec::new();
    let n = records.len();
    let mut j: usize = i + 1;
    while j < n && records[j].depth > d
        invariant
            i < j <= n,
            n == records@.len(),
            models == record_models(records@),
            d == records@[i as int].depth,
            part_end(models, i + 1, d as nat) == part_end(models, j as int, d as nat),
            children_at(models, i + 1, j as int, (d + 1) as nat, children@),
        decreases records@.len() - j,
    {
        let ghost before = children@;
        if records[j].depth - 1 == d && records[j].element {
            let child = build(records, j);
            children.push(child);
            assert(children@.drop_last() =~= before);
        }
        j = j + 1;
    }
    XmlNode {
        tag: records[i].tag.clone(),
        attributes: copy_pairs(&records[i].attributes),
        children,
    }
}

/// The tree of elements of a list of records: the element that the first
/// record stands for. An empty list holds none.
pub fn tree_of(records: &Vec<XmlRecord>) -> (r: Option<XmlNode>)
    ensures
        match r {
            Some(node) => node_at(record_models(records@), 0, node),
            None => records@.len() == 0,
        },
{
    if records.len() == 0 {
        None
    } else {
        Some(build(records, 0))
    }
}

/// Whether `node` is the root element of the document that the text holds.
pub open spec fn document_reads(text: Seq<char>, node: XmlNode) -> bool {
    match xml_records(text) {
        Some(records) => node_at(records, 0, node),
        None => false,
    }
}

/// Reads a document from its text: its root element, with the elements
/// under it. It fails exactly on a text that holds no document.
pub fn parse_document(text: &str) -> (r: Result<XmlNode, roxmltree::Error>)
    ensures
        match r {
            Ok(node) => document_reads(text@, node),
            Err(_) => xml_records(text@) is None,
        },
{
    match parsed_records(text) {
        Ok(records) => Ok(build(&records, 0)),
        Err(e) => Err(e),
    }
}

} // verus!
