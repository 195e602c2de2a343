//! A tree of markup, as plain values.
//!
//! A node has a tag, attributes in the order in which they are written, and
//! the elements inside it in order. Text between elements is not kept.

use vstd::prelude::*;
use vstd::string::StringExecFns;
use crate::numeric::chars_of;
use crate::style::str_eq;
use crate::text::string_of;

verus! {

/// An element of a document of markup.
#[derive(Debug, PartialEq, Eq)]
pub struct XmlNode {
    pub tag: String,
    pub attributes: Vec<(String, String)>,
    pub children: Vec<XmlNode>,
}

/// Whether `i` is the place of the first attribute of the given name.
pub open spec fn is_first_attribute(attributes: Seq<(String, String)>, name: Seq<char>, i: int) -> bool {
    &&& 0 <= i < attributes.len()
    &&& attributes[i].0@ == name
    &&& forall|j: int| 0 <= j < i ==> (#[trigger] attributes[j]).0@ != name
}

/// The value of the first attribute of the given name, if there is one.
pub open spec fn attribute_value(attributes: Seq<(String, String)>, name: Seq<char>) -> Option<
    Seq<char>,
> {
    if exists|i: int| is_first_attribute(attributes, name, i) {
        Some(attributes[choose|i: int| is_first_attribute(attributes, name, i)].1@)
    } else {
        None
    }
}

/// The places of the children with the given tag, in order.
pub open spec fn tagged(children: Seq<XmlNode>, tag: Seq<char>) -> Seq<int>
    decreases children.len(),
{
    if children.len() == 0 {
        Seq::empty()
    } else {
        let before = tagged(children.drop_last(), tag);
        if children.last().tag@ == tag {
            before.push(children.len() - 1)
        } else {
            before
        }
    }
}

pub proof fn lemma_tagged(children: Seq<XmlNode>, tag: Seq<char>)
    ensures
        tagged(children, tag).len() <= children.len(),
        forall|k: int|
            0 <= k < tagged(children, tag).len() ==> 0 <= #[trigger] tagged(children, tag)[k]
                < children.len() && children[tagged(children, tag)[k]].tag@ == tag,
    decreases children.len(),
{
    if children.len() > 0 {
        let front = children.drop_last();
        lemma_tagged(front, tag);
        assert forall|k: int| 0 <= k < tagged(children, tag).len() implies 0 <= #[trigger] tagged(
            children,
            tag,
        )[k] < children.len() && children[tagged(children, tag)[k]].tag@ == tag by {
            if k < tagged(front, tag).len() {
                assert(tagged(children, tag)[k] == tagged(front, tag)[k]);
                assert(front[tagged(front, tag)[k]] == children[tagged(front, tag)[k]]);
            }
        }
    }
}

impl XmlNode {
    pub open spec fn spec_attribute(&self, name: Seq<char>) -> Option<Seq<char>> {
        attribute_value(self.attributes@, name)
    }

    /// The value of an attribute; the empty string for one that is absent.
    pub open spec fn spec_attribute_string(&self, name: Seq<char>) -> Seq<char> {
        match self.spec_attribute(name) {
            Some(v) => v,
            None => Seq::empty(),
        }
    }

    /// The value of the first attribute of the given name.
    pub fn attribute(&self, name: &str) -> (r: Option<&str>)
        ensures
            match r {
                Some(v) => self.spec_attribute(name@) == Some(v@),
                None => self.spec_attribute(name@) is None,
            },
    {
        let mut i: usize = 0;
        while i < self.attributes.len()
            invariant
                i <= self.attributes@.len(),
                forall|j: int| 0 <= j < i ==> (#[trigger] self.attributes@[j]).0@ != name@,
            decreases self.attributes@.len() - i,
        {
            if str_eq(self.attributes[i].0.as_str(), name) {
                proof {
                    assert(is_first_attribute(self.attributes@, name@, i as int));
                    let k = choose|k: int| is_first_attribute(self.attributes@, name@, k);
                    if k < i {
                        assert(self.attributes@[k].0@ != name@);
                    } else if k > i {
                        assert(self.attributes@[i as int].0@ != name@);
                    }
                }
                return Some(self.attributes[i].1.as_str());
            }
            i = i + 1;
        }
        proof {
            assert forall|k: int| !is_first_attribute(self.attributes@, name@, k) by {
                if 0 <= k < self.attributes@.len() {
                    assert(self.attributes@[k].0@ != name@);
                }
            }
        }
        None
    }

    pub fn attribute_string(&self, name: &str) -> (s: String)
        ensures
            s@ == self.spec_attribute_string(name@),
    {
        match self.attribute(name) {
            Some(v) => String::from_str(v),
            None => String::new(),
        }
    }

    /// The names of the attributes, in order.
    pub fn attribute_names(&self) -> (names: Vec<String>)
        ensures
            names@.len() == self.attributes@.len(),
            forall|i: int| 0 <= i < names@.len() ==> (#[trigger] names@[i])@ == self.attributes@[i].0@,
    {
        let mut names: Vec<String> = Vec::new();
        let mut i: usize = 0;
        while i < self.attributes.len()
            invariant
                i <= self.attributes@.len(),
                names@.len() == i,
                forall|j: int| 0 <= j < i ==> (#[trigger] names@[j])@ == self.attributes@[j].0@,
            decreases self.attributes@.len() - i,
        {
            names.push(self.attributes[i].0.clone());
            i = i + 1;
        }
        names
    }

    /// The places of the children with the given tag, in order.
    pub fn children_tagged(&self, tag: &str) -> (found: Vec<usize>)
        ensures
            found@.len() == tagged(self.children@, tag@).len(),
            forall|k: int| 0 <= k < found@.len() ==> found@[k] == tagged(self.children@, tag@)[k],
            forall|k: int| 0 <= k < found@.len() ==> found@[k] < self.children@.len(),
    {
        let mut found: Vec<usize> = Vec::new();
        let mut i: usize = 0;
        assert(self.children@.take(0) =~= Seq::<XmlNode>::empty());
        while i < self.children.len()
            invariant
                i <= self.children@.len(),
                found@.len() == tagged(self.children@.take(i as int), tag@).len(),
                forall|k: int|
                    0 <= k < found@.len() ==> found@[k] == tagged(
                        self.children@.take(i as int),
                        tag@,
                    )[k],
                forall|k: int| 0 <= k < found@.len() ==> found@[k] < i,
            decreases self.children@.len() - i,
        {
            proof {
                assert(self.children@.take(i + 1).drop_last() =~= self.children@.take(i as int));
                assert(self.children@.take(i + 1).last() == self.children@[i as int]);
            }
            if str_eq(self.children[i].tag.as_str(), tag) {
                found.push(i);
            }
            i = i + 1;
        }
        assert(self.children@.take(i as int) =~= self.children@);
        found
    }
}

// ---------------------------------------------------------------------------
// Lists in attributes
// ---------------------------------------------------------------------------

/// The words of a text: its longest runs without a space, in order.
pub open spec fn words(s: Seq<char>) -> Seq<Seq<char>>
    decreases s.len(),
{
    if s.len() == 0 {
        Seq::empty()
    } else if s[0] == ' ' {
        words(s.skip(1))
    } else {
        let n = word_end(s);
        proof {
            lemma_word_end(s);
        }
        seq![s.take(n as int)] + words(s.skip(n as int))
    }
}

/// The length of the longest prefix of `s` without a space.
pub open spec fn word_end(s: Seq<char>) -> nat
    decreases s.len(),
{
    if s.len() > 0 && s[0] != ' ' {
        1 + word_end(s.skip(1))
    } else {
        0
    }
}

pub proof fn lemma_word_end(s: Seq<char>)
    ensures
        word_end(s) <= s.len(),
        s.len() > 0 && s[0] != ' ' ==> word_end(s) >= 1,
    decreases s.len(),
{
    if s.len() > 0 && s[0] != ' ' {
        lemma_word_end(s.skip(1));
    }
}

/// Splits a text at its spaces.
pub fn split_words(s: &str) -> (r: Vec<String>)
    ensures
        Seq::new(r@.len(), |i: int| r@[i]@) == words(s@),
{
    let chars = chars_of(s);
    let n = chars.len();
    let ghost all = chars@;
    let mut r: Vec<String> = Vec::new();
    let mut i: usize = 0;
    proof {
        assert(all.skip(0) =~= all);
        assert(Seq::new(r@.len(), |k: int| r@[k]@) + words(all) =~= words(all));
    }
    while i < n
        invariant
            i <= n,
            n == all.len(),
            all == chars@,
            all == s@,
            Seq::new(r@.len(), |k: int| r@[k]@) + words(all.skip(i as int)) == words(all),
        decreases n - i,
    {
        let ghost rest = all.skip(i as int);
        let ghost done = Seq::new(r@.len(), |k: int| r@[k]@);
        if chars[i] == ' ' {
            assert(rest.skip(1) =~= all.skip(i + 1));
            i = i + 1;
        } else {
            let mut j: usize = i;
            let mut word: Vec<char> = Vec::new();
            while j < n && chars[j] != ' '
                invariant
                    i <= j <= n,
                    n == all.len(),
                    all == chars@,
                    rest == all.skip(i as int),
                    word@ == all.subrange(i as int, j as int),
                    word_end(rest) == (j - i) + word_end(all.skip(j as int)),
                decreases n - j,
            {
                assert(all.skip(j as int).skip(1) =~= all.skip(j + 1));
                word.push(chars[j]);
                assert(word@ =~= all.subrange(i as int, j + 1));
                j = j + 1;
            }
            proof {
                lemma_word_end(rest);
                assert(word_end(rest) == j - i);
                assert(rest.take((j - i) as int) =~= word@);
                assert(rest.skip((j - i) as int) =~= all.skip(j as int));
            }
            let text = string_of(&word);
            r.push(text);
            proof {
                let now = Seq::new(r@.len(), |k: int| r@[k]@);
                assert(now =~= done.push(word@));
                assert(now + words(all.skip(j as int)) =~= done + (seq![word@] + words(
                    all.skip(j as int),
                )));
            }
            i = j;
        }
    }
    proof {
        assert(all.skip(i as int).len() == 0);
        assert(Seq::new(r@.len(), |k: int| r@[k]@) + Seq::<Seq<char>>::empty() =~= Seq::new(
            r@.len(),
            |k: int| r@[k]@,
        ));
    }
    r
}

} // verus!
