//! What the evaluator asks of an output format.
//!
//! The evaluator never looks inside what a format builds. It hands over
//! text, formatting and affixes, and gets back values that it can only pass
//! on, join and test for emptiness. Each operation of a format has a
//! specification function beside it, so that what the evaluator builds can
//! be stated exactly whatever the format is.

use vstd::prelude::*;
use crate::style::{Affixes, Formatting, TextCase};

verus! {

/// How a format is to treat text that it takes in.
#[derive(Copy, Clone, PartialEq, Eq, Hash, Debug, Structural)]
pub struct IngestOptions {
    /// Write a dash in place of each hyphen, as in a range of pages.
    pub replace_hyphens: bool,
    pub text_case: TextCase,
}

impl Default for IngestOptions {
    fn default() -> (o: IngestOptions)
        ensures
            o == (IngestOptions { replace_hyphens: false, text_case: TextCase::Unchanged }),
    {
        IngestOptions { replace_hyphens: false, text_case: TextCase::Unchanged }
    }
}

/// The quotation marks of a locale.
#[derive(Debug, PartialEq, Eq)]
pub struct LocalizedQuotes {
    pub open: String,
    pub close: String,
}

/// The two marks as plain values, for specifications.
pub open spec fn quotes_model(quotes: Option<&LocalizedQuotes>) -> Option<(Seq<char>, Seq<char>)> {
    match quotes {
        Some(q) => Some((q.open@, q.close@)),
        None => None,
    }
}

/// An output format: the operations that build formatted text.
///
/// `Build` is what the format works on; `Model` is its mathematical value,
/// which the specification functions speak of.
pub trait OutputFormat: Sized {
    type Build;

    type Model;

    spec fn model(&self, b: &Self::Build) -> Self::Model;

    spec fn spec_plain(&self, text: Seq<char>) -> Self::Model;

    spec fn spec_ingest(&self, text: Seq<char>, options: IngestOptions) -> Self::Model;

    spec fn spec_with_format(&self, m: Self::Model, formatting: Option<Formatting>) -> Self::Model;

    spec fn spec_affixed_quoted(
        &self,
        m: Self::Model,
        prefix: Seq<char>,
        suffix: Seq<char>,
        quotes: Option<(Seq<char>, Seq<char>)>,
    ) -> Self::Model;

    spec fn spec_hyperlinked(&self, m: Self::Model, url: Option<Seq<char>>) -> Self::Model;

    spec fn spec_join(&self, parts: Seq<Self::Model>, delimiter: Seq<char>) -> Self::Model;

    spec fn spec_is_empty(&self, m: Self::Model) -> bool;

    spec fn spec_output(&self, m: Self::Model) -> Seq<char>;

    /// Text that is taken as it is.
    fn plain(&self, text: &str) -> (b: Self::Build)
        ensures
            self.model(&b) == self.spec_plain(text@),
    ;

    /// Text from a reference, treated as the options say.
    fn ingest(&self, text: &str, options: IngestOptions) -> (b: Self::Build)
        ensures
            self.model(&b) == self.spec_ingest(text@, options),
    ;

    fn with_format(&self, b: Self::Build, formatting: Option<Formatting>) -> (r: Self::Build)
        ensures
            self.model(&r) == self.spec_with_format(self.model(&b), formatting),
    ;

    /// `b` inside quotation marks, where any are given, inside the affixes.
    fn affixed_quoted(&self, b: Self::Build, affixes: &Affixes, quotes: Option<&LocalizedQuotes>) -> (r:
        Self::Build)
        ensures
            self.model(&r) == self.spec_affixed_quoted(
                self.model(&b),
                affixes.prefix@,
                affixes.suffix@,
                quotes_model(quotes),
            ),
    ;

    fn hyperlinked(&self, b: Self::Build, url: Option<&str>) -> (r: Self::Build)
        ensures
            self.model(&r) == self.spec_hyperlinked(
                self.model(&b),
                match url {
                    Some(u) => Some(u@),
                    None => None,
                },
            ),
    ;

    /// The parts in order, with the delimiter between each two.
    fn join(&self, parts: Vec<Self::Build>, delimiter: &str) -> (r: Self::Build)
        ensures
            self.model(&r) == self.spec_join(
                Seq::new(parts@.len(), |i: int| self.model(&parts@[i])),
                delimiter@,
            ),
    ;

    fn is_empty(&self, b: &Self::Build) -> (e: bool)
        ensures
            e == self.spec_is_empty(self.model(b)),
    ;

    /// The final text of what was built.
    fn output(&self, b: Self::Build) -> (s: String)
        ensures
            s@ == self.spec_output(self.model(&b)),
    ;
}

pub open spec fn spec_affixed<O: OutputFormat>(
    format: &O,
    m: O::Model,
    prefix: Seq<char>,
    suffix: Seq<char>,
) -> O::Model {
    format.spec_affixed_quoted(m, prefix, suffix, None)
}

pub open spec fn spec_affixed_text_quoted<O: OutputFormat>(
    format: &O,
    text: Seq<char>,
    formatting: Option<Formatting>,
    prefix: Seq<char>,
    suffix: Seq<char>,
    quotes: Option<(Seq<char>, Seq<char>)>,
) -> O::Model {
    format.spec_affixed_quoted(
        format.spec_with_format(format.spec_plain(text), formatting),
        prefix,
        suffix,
        quotes,
    )
}

pub open spec fn spec_affixed_text<O: OutputFormat>(
    format: &O,
    text: Seq<char>,
    formatting: Option<Formatting>,
    prefix: Seq<char>,
    suffix: Seq<char>,
) -> O::Model {
    spec_affixed_text_quoted(format, text, formatting, prefix, suffix, None)
}

/// `b` inside the affixes.
pub fn affixed<O: OutputFormat>(format: &O, b: O::Build, affixes: &Affixes) -> (r: O::Build)
    ensures
        format.model(&r) == spec_affixed(format, format.model(&b), affixes.prefix@, affixes.suffix@),
{
    format.affixed_quoted(b, affixes, None)
}

/// Plain text, formatted, inside quotation marks where any are given, inside the affixes.
pub fn affixed_text_quoted<O: OutputFormat>(
    format: &O,
    text: &str,
    formatting: Option<Formatting>,
    affixes: &Affixes,
    quotes: Option<&LocalizedQuotes>,
) -> (r: O::Build)
    ensures
        format.model(&r) == spec_affixed_text_quoted(
            format,
            text@,
            formatting,
            affixes.prefix@,
            affixes.suffix@,
            quotes_model(quotes),
        ),
{
    let b = format.plain(text);
    let b = format.with_format(b, formatting);
    format.affixed_quoted(b, affixes, quotes)
}

/// Plain text, formatted, inside the affixes.
pub fn affixed_text<O: OutputFormat>(
    format: &O,
    text: &str,
    formatting: Option<Formatting>,
    affixes: &Affixes,
) -> (r: O::Build)
    ensures
        format.model(&r) == spec_affixed_text(
            format,
            text@,
            formatting,
            affixes.prefix@,
            affixes.suffix@,
        ),
{
    affixed_text_quoted(format, text, formatting, affixes, None)
}

} // verus!
