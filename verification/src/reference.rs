//! References: the works that cites point to.

use vstd::prelude::*;
use crate::date::DateOrRange;
use crate::numeric::{NumericModel, NumericValue};
use crate::style::CslType;
use crate::variables::{AnyVariable, DateVariable, NameVariable, NumberVariable, Variable};

verus! {

/// A person or an institution.
#[derive(Debug, PartialEq, Eq)]
pub struct Name {
    pub family: Option<String>,
    pub given: Option<String>,
    /// A name that is not split into parts, as that of an institution.
    pub literal: Option<String>,
}

/// A work, as a bag of values keyed by variable.
///
/// The values are kept in four lists, one for each kind of variable. Of two
/// entries for one variable the first counts. A reference is not changed
/// once it is set: a change is a new reference under the same identifier.
#[derive(Debug, PartialEq, Eq)]
pub struct Reference {
    pub id: String,
    pub csl_type: CslType,
    pub language: Option<String>,
    pub ordinary: Vec<(Variable, String)>,
    pub number: Vec<(NumberVariable, NumericValue)>,
    pub name: Vec<(NameVariable, Vec<Name>)>,
    pub date: Vec<(DateVariable, DateOrRange)>,
}

/// Whether `i` is the place of the first entry under `key`.
pub open spec fn is_first_key<K, V>(entries: Seq<(K, V)>, key: K, i: int) -> bool {
    &&& 0 <= i < entries.len()
    &&& entries[i].0 == key
    &&& forall|j: int| 0 <= j < i ==> (#[trigger] entries[j]).0 != key
}

/// The place of the first entry under `key`, if there is one.
pub open spec fn key_index<K, V>(entries: Seq<(K, V)>, key: K) -> Option<int> {
    if exists|i: int| is_first_key(entries, key, i) {
        Some(choose|i: int| is_first_key(entries, key, i))
    } else {
        None
    }
}

pub proof fn lemma_key_found<K, V>(entries: Seq<(K, V)>, key: K, i: int)
    requires
        is_first_key(entries, key, i),
    ensures
        key_index(entries, key) == Some(i),
{
    let k = choose|k: int| is_first_key(entries, key, k);
    if k < i {
        assert(entries[k].0 != key);
    } else if k > i {
        assert(entries[i].0 != key);
    }
}

pub proof fn lemma_key_absent<K, V>(entries: Seq<(K, V)>, key: K)
    requires
        forall|j: int| 0 <= j < entries.len() ==> (#[trigger] entries[j]).0 != key,
    ensures
        key_index(entries, key) is None,
{
    assert forall|k: int| !is_first_key(entries, key, k) by {
        if 0 <= k < entries.len() {
            assert(entries[k].0 != key);
        }
    }
}

impl Reference {
    /// A reference that has no value for any variable.
    pub fn empty(id: &str, csl_type: CslType) -> (r: Reference)
        ensures
            r.id@ == id@,
            r.csl_type == csl_type,
            r.language is None,
            r.ordinary@.len() == 0,
            r.number@.len() == 0,
            r.name@.len() == 0,
            r.date@.len() == 0,
    {
        Reference {
            id: id.to_owned(),
            csl_type,
            language: None,
            ordinary: Vec::new(),
            number: Vec::new(),
            name: Vec::new(),
            date: Vec::new(),
        }
    }

    pub open spec fn spec_ordinary(&self, var: Variable) -> Option<Seq<char>> {
        match key_index(self.ordinary@, var) {
            Some(i) => Some(self.ordinary@[i].1@),
            None => None,
        }
    }

    pub open spec fn spec_number(&self, var: NumberVariable) -> Option<NumericModel> {
        match key_index(self.number@, var) {
            Some(i) => Some(self.number@[i].1@),
            None => None,
        }
    }

    pub open spec fn spec_names(&self, var: NameVariable) -> Option<Vec<Name>> {
        match key_index(self.name@, var) {
            Some(i) => Some(self.name@[i].1),
            None => None,
        }
    }

    pub open spec fn spec_date(&self, var: DateVariable) -> Option<DateOrRange> {
        match key_index(self.date@, var) {
            Some(i) => Some(self.date@[i].1),
            None => None,
        }
    }

    /// Whether the reference has a value for the variable.
    pub open spec fn spec_has_variable(&self, var: AnyVariable) -> bool {
        match var {
            AnyVariable::Ordinary(v) => key_index(self.ordinary@, v) is Some,
            AnyVariable::Number(v) => key_index(self.number@, v) is Some,
            AnyVariable::Name(v) => key_index(self.name@, v) is Some,
            AnyVariable::Date(v) => key_index(self.date@, v) is Some,
        }
    }

    pub fn ordinary(&self, var: Variable) -> (r: Option<&str>)
        ensures
            match r {
                Some(s) => self.spec_ordinary(var) == Some(s@),
                None => self.spec_ordinary(var) is None,
            },
    {
        let mut i: usize = 0;
        while i < self.ordinary.len()
            invariant
                i <= self.ordinary@.len(),
                forall|j: int| 0 <= j < i ==> (#[trigger] self.ordinary@[j]).0 != var,
            decreases self.ordinary@.len() - i,
        {
            if self.ordinary[i].0 == var {
                proof {
                    lemma_key_found(self.ordinary@, var, i as int);
                }
                return Some(self.ordinary[i].1.as_str());
            }
            i = i + 1;
        }
        proof {
            lemma_key_absent(self.ordinary@, var);
        }
        None
    }

    pub fn number(&self, var: NumberVariable) -> (r: Option<&NumericValue>)
        ensures
            match r {
                Some(v) => self.spec_number(var) == Some(v@),
                None => self.spec_number(var) is None,
            },
    {
        let mut i: usize = 0;
        while i < self.number.len()
            invariant
                i <= self.number@.len(),
                forall|j: int| 0 <= j < i ==> (#[trigger] self.number@[j]).0 != var,
            decreases self.number@.len() - i,
        {
            if self.number[i].0 == var {
                proof {
                    lemma_key_found(self.number@, var, i as int);
                }
                return Some(&self.number[i].1);
            }
            i = i + 1;
        }
        proof {
            lemma_key_absent(self.number@, var);
        }
        None
    }

    pub fn names(&self, var: NameVariable) -> (r: Option<&Vec<Name>>)
        ensures
            match r {
                Some(v) => self.spec_names(var) == Some(*v),
                None => self.spec_names(var) is None,
            },
    {
        let mut i: usize = 0;
        while i < self.name.len()
            invariant
                i <= self.name@.len(),
                forall|j: int| 0 <= j < i ==> (#[trigger] self.name@[j]).0 != var,
            decreases self.name@.len() - i,
        {
            if self.name[i].0 == var {
                proof {
                    lemma_key_found(self.name@, var, i as int);
                }
                return Some(&self.name[i].1);
            }
            i = i + 1;
        }
        proof {
            lemma_key_absent(self.name@, var);
        }
        None
    }

    pub fn date(&self, var: DateVariable) -> (r: Option<&DateOrRange>)
        ensures
            match r {
                Some(v) => self.spec_date(var) == Some(*v),
                None => self.spec_date(var) is None,
            },
    {
        let mut i: usize = 0;
        while i < self.date.len()
            invariant
                i <= self.date@.len(),
                forall|j: int| 0 <= j < i ==> (#[trigger] self.date@[j]).0 != var,
            decreases self.date@.len() - i,
        {
            if self.date[i].0 == var {
                proof {
                    lemma_key_found(self.date@, var, i as int);
                }
                return Some(&self.date[i].1);
            }
            i = i + 1;
        }
        proof {
            lemma_key_absent(self.date@, var);
        }
        None
    }

    #[verifier::when_used_as_spec(spec_has_variable)]
    pub fn has_variable(&self, var: AnyVariable) -> (b: bool)
        ensures
            b == self.spec_has_variable(var),
    {
        match var {
            AnyVariable::Ordinary(v) => self.ordinary(v).is_some(),
            AnyVariable::Number(v) => self.number(v).is_some(),
            AnyVariable::Name(v) => self.names(v).is_some(),
            AnyVariable::Date(v) => self.date(v).is_some(),
        }
    }
}

} // verus!
