//! Citation rendering: the evaluation core of a CSL processor.

pub mod api;
pub mod conditional;
pub mod cite;
pub mod cite_context;
pub mod date;
pub mod document;
pub mod db;
pub mod from_node;
pub mod locale;
pub mod markup;
pub mod names;
pub mod number;
pub mod numeric;
pub mod output;
pub mod part_reader;
pub mod proc;
pub mod ref_context;
pub mod reference;
pub mod renderer;
pub mod string_id;
pub mod style;
pub mod style_reader;
pub mod style_rules;
pub mod terms;
pub mod text;
pub mod utils;
pub mod variables;
pub mod xml;

use rand::Rng;
use vstd::prelude::*;
use vstd::string::StringExecFns;

verus! {

/// What every identifier made by [`random_cluster_id`] starts with.
pub open spec fn cluster_id_prefix() -> Seq<char> {
    "cluster-"@
}

/// The length of an identifier made by [`random_cluster_id`].
pub const CLUSTER_ID_LEN: usize = 23;

/// The letters of the basic Latin alphabet and the digits.
pub open spec fn is_alphanumeric(c: char) -> bool {
    ('A' <= c <= 'Z') || ('a' <= c <= 'z') || ('0' <= c <= '9')
}

/// One character drawn at random. Wraps `Rng::sample` of rand with the
/// distribution `Alphanumeric`, on the generator that `thread_rng` gives:
/// the character is one of the 62 letters and digits of ASCII. Which one is
/// not said, and two calls need not agree.
#[verifier::external_body]
fn random_alphanumeric() -> (c: char)
    ensures
        is_alphanumeric(c),
{
    rand::thread_rng().sample(rand::distributions::Alphanumeric)
}

/// The identifier that is made of the given characters: they follow the prefix.
pub fn cluster_id_from(chars: &Vec<char>) -> (id: String)
    ensures
        id@ == cluster_id_prefix() + chars@,
{
    let mut id = String::from_str("cluster-");
    let tail = crate::text::string_of(chars);
    id.append(tail.as_str());
    id
}

/// An identifier for a cluster, made at random: the prefix `cluster-`, then
/// letters and digits up to [`CLUSTER_ID_LEN`] characters in all.
pub fn random_cluster_id() -> (id: String)
    ensures
        id@.len() == CLUSTER_ID_LEN,
        id@.take(cluster_id_prefix().len() as int) == cluster_id_prefix(),
        forall|i: int| cluster_id_prefix().len() <= i < id@.len() ==> is_alphanumeric(id@[i]),
{
    proof {
        reveal_strlit("cluster-");
    }
    let mut chars: Vec<char> = Vec::new();
    let mut k: usize = 0;
    while k < CLUSTER_ID_LEN - 8
        invariant
            k <= CLUSTER_ID_LEN - 8,
            chars@.len() == k,
            forall|i: int| 0 <= i < k ==> is_alphanumeric(chars@[i]),
        decreases CLUSTER_ID_LEN - 8 - k,
    {
        chars.push(random_alphanumeric());
        k = k + 1;
    }
    let id = cluster_id_from(&chars);
    assert(id@.take(8) =~= cluster_id_prefix());
    id
}

} // verus!
