//! The variables of a reference that a style can call.
//!
//! A reference keeps its values in four disjoint kinds: ordinary text,
//! numbers, lists of names and dates. Each kind has its own set of names.

use vstd::prelude::*;

verus! {

/// Variables that hold plain text.
#[derive(Copy, Clone, PartialEq, Eq, Hash, Debug, Structural)]
pub enum Variable {
    Abstract,
    Annote,
    Archive,
    ArchiveLocation,
    ArchivePlace,
    Authority,
    CallNumber,
    CitationLabel,
    CollectionTitle,
    ContainerTitle,
    ContainerTitleShort,
    Dimensions,
    DOI,
    Event,
    EventPlace,
    Genre,
    ISBN,
    ISSN,
    Jurisdiction,
    Keyword,
    Language,
    Medium,
    Note,
    OriginalPublisher,
    OriginalPublisherPlace,
    OriginalTitle,
    PMCID,
    PMID,
    Publisher,
    PublisherPlace,
    References,
    ReviewedTitle,
    Scale,
    Section,
    Source,
    Status,
    Title,
    TitleShort,
    URL,
    Version,
    YearSuffix,
}

/// Variables that hold numeric values.
#[derive(Copy, Clone, PartialEq, Eq, Hash, Debug, Structural)]
pub enum NumberVariable {
    ChapterNumber,
    CollectionNumber,
    Edition,
    Issue,
    Number,
    NumberOfPages,
    NumberOfVolumes,
    Volume,
    /// The locator of the cite, not of the reference.
    Locator,
    Page,
    /// The first page of `Page`, where that is numeric.
    PageFirst,
    /// The number of the note in which the reference was first cited.
    FirstReferenceNoteNumber,
    /// The number of the reference in the bibliography.
    CitationNumber,
}

/// Variables that hold lists of names.
#[derive(Copy, Clone, PartialEq, Eq, Hash, Debug, Structural)]
pub enum NameVariable {
    Author,
    CollectionEditor,
    Composer,
    ContainerAuthor,
    Director,
    Editor,
    EditorialDirector,
    Illustrator,
    Interviewer,
    OriginalAuthor,
    Recipient,
    ReviewedAuthor,
    Translator,
    /// Stands in for a name variable that a style misspelt; it is never present.
    Dummy,
}

/// Variables that hold dates.
#[derive(Copy, Clone, PartialEq, Eq, Hash, Debug, Structural)]
pub enum DateVariable {
    Accessed,
    Container,
    EventDate,
    Issued,
    OriginalDate,
    Submitted,
}

/// A variable of any of the four kinds.
#[derive(Copy, Clone, PartialEq, Eq, Hash, Debug, Structural)]
pub enum AnyVariable {
    Ordinary(Variable),
    Name(NameVariable),
    Date(DateVariable),
    Number(NumberVariable),
}

/// A variable that a text element can render: ordinary or number.
#[derive(Copy, Clone, PartialEq, Eq, Hash, Debug, Structural)]
pub enum StandardVariable {
    Ordinary(Variable),
    Number(NumberVariable),
}

impl Variable {
    /// Ordinary variables keep their hyphens as they are.
    pub open spec fn spec_should_replace_hyphens(self) -> bool {
        false
    }

    #[verifier::when_used_as_spec(spec_should_replace_hyphens)]
    pub fn should_replace_hyphens(self) -> (b: bool)
        ensures
            b == self.spec_should_replace_hyphens(),
    {
        false
    }

    /// Whether the value of this variable is the target of a link.
    pub open spec fn is_link(self) -> bool {
        self == Variable::URL || self == Variable::DOI || self == Variable::PMCID || self
            == Variable::PMID
    }

    /// The link that a value of this variable points to, for the variables that are links.
    pub fn hyperlink<'a>(self, value: &'a str) -> (r: Option<&'a str>)
        ensures
            r == (if self.is_link() {
                Some(value)
            } else {
                None
            }),
    {
        match self {
            Variable::URL => Some(value),
            Variable::DOI => Some(value),
            Variable::PMCID => Some(value),
            Variable::PMID => Some(value),
            _ => None,
        }
    }
}

impl NumberVariable {
    /// Ranges of pages and locators are written with a dash in place of each hyphen.
    pub open spec fn spec_should_replace_hyphens(self) -> bool {
        self == NumberVariable::Locator || self == NumberVariable::Page
    }

    #[verifier::when_used_as_spec(spec_should_replace_hyphens)]
    pub fn should_replace_hyphens(self) -> (b: bool)
        ensures
            b == self.spec_should_replace_hyphens(),
    {
        match self {
            NumberVariable::Locator => true,
            NumberVariable::Page => true,
            _ => false,
        }
    }
}

} // verus!
