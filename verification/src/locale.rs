//! The terms of a locale.

use vstd::prelude::*;
use crate::terms::TextTermSelector;

verus! {

/// One term of a locale, in the singular and the plural.
#[derive(Debug, PartialEq, Eq)]
pub struct TermEntry {
    pub selector: TextTermSelector,
    pub singular: String,
    pub plural: String,
}

/// The terms that a locale gives. Of two entries for one selector the first counts.
#[derive(Debug, PartialEq, Eq)]
pub struct Locale {
    pub lang: String,
    pub terms: Vec<TermEntry>,
}

/// Whether `i` is the place of the first entry for `selector`.
pub open spec fn is_first_term(terms: Seq<TermEntry>, selector: TextTermSelector, i: int) -> bool {
    &&& 0 <= i < terms.len()
    &&& terms[i].selector == selector
    &&& forall|j: int| 0 <= j < i ==> (#[trigger] terms[j]).selector != selector
}

impl Locale {
    pub fn new(lang: &str) -> (l: Locale)
        ensures
            l.lang@ == lang@,
            l.terms@.len() == 0,
    {
        Locale { lang: lang.to_owned(), terms: Vec::new() }
    }

    /// The text of a term, if the locale has an entry for it.
    pub open spec fn spec_get_text_term(&self, selector: TextTermSelector, plural: bool) -> Option<
        Seq<char>,
    > {
        if exists|i: int| is_first_term(self.terms@, selector, i) {
            let i = choose|i: int| is_first_term(self.terms@, selector, i);
            if plural {
                Some(self.terms@[i].plural@)
            } else {
                Some(self.terms@[i].singular@)
            }
        } else {
            None
        }
    }

    pub fn get_text_term(&self, selector: TextTermSelector, plural: bool) -> (r: Option<&str>)
        ensures
            match r {
                Some(s) => self.spec_get_text_term(selector, plural) == Some(s@),
                None => self.spec_get_text_term(selector, plural) is None,
            },
    {
        let mut i: usize = 0;
        while i < self.terms.len()
            invariant
                i <= self.terms@.len(),
                forall|j: int| 0 <= j < i ==> (#[trigger] self.terms@[j]).selector != selector,
            decreases self.terms@.len() - i,
        {
            if self.terms[i].selector == selector {
                proof {
                    assert(is_first_term(self.terms@, selector, i as int));
                    let k = choose|k: int| is_first_term(self.terms@, selector, k);
                    assert(k == i) by {
                        if k < i {
                            assert(self.terms@[k].selector != selector);
                        } else if k > i {
                            assert(self.terms@[i as int].selector != selector);
                        }
                    }
                }
                if plural {
                    return Some(self.terms[i].plural.as_str());
                } else {
                    return Some(self.terms[i].singular.as_str());
                }
            }
            i = i + 1;
        }
        proof {
            assert forall|k: int| !is_first_term(self.terms@, selector, k) by {
                if 0 <= k < self.terms@.len() {
                    assert(self.terms@[k].selector != selector);
                }
            }
        }
        None
    }

    /// Adds a term after those that the locale has.
    pub fn add_term(&mut self, selector: TextTermSelector, singular: &str, plural: &str)
        ensures
            final(self).lang == old(self).lang,
            final(self).terms@.len() == old(self).terms@.len() + 1,
            final(self).terms@.drop_last() == old(self).terms@,
            final(self).terms@.last().selector == selector,
            final(self).terms@.last().singular@ == singular@,
            final(self).terms@.last().plural@ == plural@,
    {
        self.terms.push(
            TermEntry { selector, singular: singular.to_owned(), plural: plural.to_owned() },
        );
        assert(self.terms@.drop_last() =~= old(self).terms@);
    }
}

} // verus!
