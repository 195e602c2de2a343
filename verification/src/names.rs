//! The names by which styles and references call variables, types and forms.
//!
//! Each value has one name. Reading a name gives the value that has it, and
//! nothing for a name that no value has.

use vstd::prelude::*;
use crate::style::{
    str_eq,
    CslType,
    DateForm,
    DatePartName,
    DateParts,
    DayForm,
    DelimiterPrecedes,
    FontStyle,
    FontVariant,
    FontWeight,
    GivenNameDisambiguationRule,
    Match,
    MonthForm,
    NameAsSortOrder,
    NameForm,
    NamePartName,
    NumericForm,
    Plural,
    Position,
    TextCase,
    TextDecoration,
    VariableForm,
    VerticalAlignment,
    YearForm,
};
use crate::terms::{LocatorType, SimpleTerm, TermForm, TermFormExtended};
use crate::variables::{
    AnyVariable,
    DateVariable,
    NameVariable,
    NumberVariable,
    StandardVariable,
    Variable,
};

verus! {

/// What has a name in styles and references.
pub trait Named: Sized {
    /// The name of the value.
    spec fn spec_name(self) -> Seq<char>;

    fn name(self) -> (n: &'static str)
        ensures
            n@ == self.spec_name(),
    ;

    /// The value of the given name, if a value has it.
    fn from_name(name: &str) -> (r: Option<Self>)
        ensures
            match r {
                Some(v) => v.spec_name() == name@,
                None => forall|v: Self| v.spec_name() != name@,
            },
    ;
}

impl Named for Variable {
    open spec fn spec_name(self) -> Seq<char> {
        match self {
            Variable::Abstract => "abstract"@,
            Variable::Annote => "annote"@,
            Variable::Archive => "archive"@,
            Variable::ArchiveLocation => "archive_location"@,
            Variable::ArchivePlace => "archive-place"@,
            Variable::Authority => "authority"@,
            Variable::CallNumber => "call-number"@,
            Variable::CitationLabel => "citation-label"@,
            Variable::CollectionTitle => "collection-title"@,
            Variable::ContainerTitle => "container-title"@,
            Variable::ContainerTitleShort => "container-title-short"@,
            Variable::Dimensions => "dimensions"@,
            Variable::DOI => "DOI"@,
            Variable::Event => "event"@,
            Variable::EventPlace => "event-place"@,
            Variable::Genre => "genre"@,
            Variable::ISBN => "ISBN"@,
            Variable::ISSN => "ISSN"@,
            Variable::Jurisdiction => "jurisdiction"@,
            Variable::Keyword => "keyword"@,
            Variable::Language => "language"@,
            Variable::Medium => "medium"@,
            Variable::Note => "note"@,
            Variable::OriginalPublisher => "original-publisher"@,
            Variable::OriginalPublisherPlace => "original-publisher-place"@,
            Variable::OriginalTitle => "original-title"@,
            Variable::PMCID => "PMCID"@,
            Variable::PMID => "PMID"@,
            Variable::Publisher => "publisher"@,
            Variable::PublisherPlace => "publisher-place"@,
            Variable::References => "references"@,
            Variable::ReviewedTitle => "reviewed-title"@,
            Variable::Scale => "scale"@,
            Variable::Section => "section"@,
            Variable::Source => "source"@,
            Variable::Status => "status"@,
            Variable::Title => "title"@,
            Variable::TitleShort => "title-short"@,
            Variable::URL => "URL"@,
            Variable::Version => "version"@,
            Variable::YearSuffix => "year-suffix"@,
        }
    }

    fn name(self) -> (n: &'static str) {
        match self {
            Variable::Abstract => "abstract",
            Variable::Annote => "annote",
            Variable::Archive => "archive",
            Variable::ArchiveLocation => "archive_location",
            Variable::ArchivePlace => "archive-place",
            Variable::Authority => "authority",
            Variable::CallNumber => "call-number",
            Variable::CitationLabel => "citation-label",
            Variable::CollectionTitle => "collection-title",
            Variable::ContainerTitle => "container-title",
            Variable::ContainerTitleShort => "container-title-short",
            Variable::Dimensions => "dimensions",
            Variable::DOI => "DOI",
            Variable::Event => "event",
            Variable::EventPlace => "event-place",
            Variable::Genre => "genre",
            Variable::ISBN => "ISBN",
            Variable::ISSN => "ISSN",
            Variable::Jurisdiction => "jurisdiction",
            Variable::Keyword => "keyword",
            Variable::Language => "language",
            Variable::Medium => "medium",
            Variable::Note => "note",
            Variable::OriginalPublisher => "original-publisher",
            Variable::OriginalPublisherPlace => "original-publisher-place",
            Variable::OriginalTitle => "original-title",
            Variable::PMCID => "PMCID",
            Variable::PMID => "PMID",
            Variable::Publisher => "publisher",
            Variable::PublisherPlace => "publisher-place",
            Variable::References => "references",
            Variable::ReviewedTitle => "reviewed-title",
            Variable::Scale => "scale",
            Variable::Section => "section",
            Variable::Source => "source",
            Variable::Status => "status",
            Variable::Title => "title",
            Variable::TitleShort => "title-short",
            Variable::URL => "URL",
            Variable::Version => "version",
            Variable::YearSuffix => "year-suffix",
        }
    }

    fn from_name(name: &str) -> (r: Option<Variable>) {
        if str_eq(name, "abstract") {
            Some(Variable::Abstract)
        } else if str_eq(name, "annote") {
            Some(Variable::Annote)
        } else if str_eq(name, "archive") {
            Some(Variable::Archive)
        } else if str_eq(name, "archive_location") {
            Some(Variable::ArchiveLocation)
        } else if str_eq(name, "archive-place") {
            Some(Variable::ArchivePlace)
        } else if str_eq(name, "authority") {
            Some(Variable::Authority)
        } else if str_eq(name, "call-number") {
            Some(Variable::CallNumber)
        } else if str_eq(name, "citation-label") {
            Some(Variable::CitationLabel)
        } else if str_eq(name, "collection-title") {
            Some(Variable::CollectionTitle)
        } else if str_eq(name, "container-title") {
            Some(Variable::ContainerTitle)
        } else if str_eq(name, "container-title-short") {
            Some(Variable::ContainerTitleShort)
        } else if str_eq(name, "dimensions") {
            Some(Variable::Dimensions)
        } else if str_eq(name, "DOI") {
            Some(Variable::DOI)
        } else if str_eq(name, "event") {
            Some(Variable::Event)
        } else if str_eq(name, "event-place") {
            Some(Variable::EventPlace)
        } else if str_eq(name, "genre") {
            Some(Variable::Genre)
        } else if str_eq(name, "ISBN") {
            Some(Variable::ISBN)
        } else if str_eq(name, "ISSN") {
            Some(Variable::ISSN)
        } else if str_eq(name, "jurisdiction") {
            Some(Variable::Jurisdiction)
        } else if str_eq(name, "keyword") {
            Some(Variable::Keyword)
        } else if str_eq(name, "language") {
            Some(Variable::Language)
        } else if str_eq(name, "medium") {
            Some(Variable::Medium)
        } else if str_eq(name, "note") {
            Some(Variable::Note)
        } else if str_eq(name, "original-publisher") {
            Some(Variable::OriginalPublisher)
        } else if str_eq(name, "original-publisher-place") {
            Some(Variable::OriginalPublisherPlace)
        } else if str_eq(name, "original-title") {
            Some(Variable::OriginalTitle)
        } else if str_eq(name, "PMCID") {
            Some(Variable::PMCID)
        } else if str_eq(name, "PMID") {
            Some(Variable::PMID)
        } else if str_eq(name, "publisher") {
            Some(Variable::Publisher)
        } else if str_eq(name, "publisher-place") {
            Some(Variable::PublisherPlace)
        } else if str_eq(name, "references") {
            Some(Variable::References)
        } else if str_eq(name, "reviewed-title") {
            Some(Variable::ReviewedTitle)
        } else if str_eq(name, "scale") {
            Some(Variable::Scale)
        } else if str_eq(name, "section") {
            Some(Variable::Section)
        } else if str_eq(name, "source") {
            Some(Variable::Source)
        } else if str_eq(name, "status") {
            Some(Variable::Status)
        } else if str_eq(name, "title") {
            Some(Variable::Title)
        } else if str_eq(name, "title-short") {
            Some(Variable::TitleShort)
        } else if str_eq(name, "URL") {
            Some(Variable::URL)
        } else if str_eq(name, "version") {
            Some(Variable::Version)
        } else if str_eq(name, "year-suffix") {
            Some(Variable::YearSuffix)
        } else {
            None
        }
    }
}

impl Named for NumberVariable {
    open spec fn spec_name(self) -> Seq<char> {
        match self {
            NumberVariable::ChapterNumber => "chapter-number"@,
            NumberVariable::CollectionNumber => "collection-number"@,
            NumberVariable::Edition => "edition"@,
            NumberVariable::Issue => "issue"@,
            NumberVariable::Number => "number"@,
            NumberVariable::NumberOfPages => "number-of-pages"@,
            NumberVariable::NumberOfVolumes => "number-of-volumes"@,
            NumberVariable::Volume => "volume"@,
            NumberVariable::Locator => "locator"@,
            NumberVariable::Page => "page"@,
            NumberVariable::PageFirst => "page-first"@,
            NumberVariable::FirstReferenceNoteNumber => "first-reference-note-number"@,
            NumberVariable::CitationNumber => "citation-number"@,
        }
    }

    fn name(self) -> (n: &'static str) {
        match self {
            NumberVariable::ChapterNumber => "chapter-number",
            NumberVariable::CollectionNumber => "collection-number",
            NumberVariable::Edition => "edition",
            NumberVariable::Issue => "issue",
            NumberVariable::Number => "number",
            NumberVariable::NumberOfPages => "number-of-pages",
            NumberVariable::NumberOfVolumes => "number-of-volumes",
            NumberVariable::Volume => "volume",
            NumberVariable::Locator => "locator",
            NumberVariable::Page => "page",
            NumberVariable::PageFirst => "page-first",
            NumberVariable::FirstReferenceNoteNumber => "first-reference-note-number",
            NumberVariable::CitationNumber => "citation-number",
        }
    }

    fn from_name(name: &str) -> (r: Option<NumberVariable>) {
        if str_eq(name, "chapter-number") {
            Some(NumberVariable::ChapterNumber)
        } else if str_eq(name, "collection-number") {
            Some(NumberVariable::CollectionNumber)
        } else if str_eq(name, "edition") {
            Some(NumberVariable::Edition)
        } else if str_eq(name, "issue") {
            Some(NumberVariable::Issue)
        } else if str_eq(name, "number") {
            Some(NumberVariable::Number)
        } else if str_eq(name, "number-of-pages") {
            Some(NumberVariable::NumberOfPages)
        } else if str_eq(name, "number-of-volumes") {
            Some(NumberVariable::NumberOfVolumes)
        } else if str_eq(name, "volume") {
            Some(NumberVariable::Volume)
        } else if str_eq(name, "locator") {
            Some(NumberVariable::Locator)
        } else if str_eq(name, "page") {
            Some(NumberVariable::Page)
        } else if str_eq(name, "page-first") {
            Some(NumberVariable::PageFirst)
        } else if str_eq(name, "first-reference-note-number") {
            Some(NumberVariable::FirstReferenceNoteNumber)
        } else if str_eq(name, "citation-number") {
            Some(NumberVariable::CitationNumber)
        } else {
            None
        }
    }
}

impl Named for NameVariable {
    open spec fn spec_name(self) -> Seq<char> {
        match self {
            NameVariable::Author => "author"@,
            NameVariable::CollectionEditor => "collection-editor"@,
            NameVariable::Composer => "composer"@,
            NameVariable::ContainerAuthor => "container-author"@,
            NameVariable::Director => "director"@,
            NameVariable::Editor => "editor"@,
            NameVariable::EditorialDirector => "editorial-director"@,
            NameVariable::Illustrator => "illustrator"@,
            NameVariable::Interviewer => "interviewer"@,
            NameVariable::OriginalAuthor => "original-author"@,
            NameVariable::Recipient => "recipient"@,
            NameVariable::ReviewedAuthor => "reviewed-author"@,
            NameVariable::Translator => "translator"@,
            NameVariable::Dummy => "dummy"@,
        }
    }

    fn name(self) -> (n: &'static str) {
        match self {
            NameVariable::Author => "author",
            NameVariable::CollectionEditor => "collection-editor",
            NameVariable::Composer => "composer",
            NameVariable::ContainerAuthor => "container-author",
            NameVariable::Director => "director",
            NameVariable::Editor => "editor",
            NameVariable::EditorialDirector => "editorial-director",
            NameVariable::Illustrator => "illustrator",
            NameVariable::Interviewer => "interviewer",
            NameVariable::OriginalAuthor => "original-author",
            NameVariable::Recipient => "recipient",
            NameVariable::ReviewedAuthor => "reviewed-author",
            NameVariable::Translator => "translator",
            NameVariable::Dummy => "dummy",
        }
    }

    fn from_name(name: &str) -> (r: Option<NameVariable>) {
        if str_eq(name, "author") {
            Some(NameVariable::Author)
        } else if str_eq(name, "collection-editor") {
            Some(NameVariable::CollectionEditor)
        } else if str_eq(name, "composer") {
            Some(NameVariable::Composer)
        } else if str_eq(name, "container-author") {
            Some(NameVariable::ContainerAuthor)
        } else if str_eq(name, "director") {
            Some(NameVariable::Director)
        } else if str_eq(name, "editor") {
            Some(NameVariable::Editor)
        } else if str_eq(name, "editorial-director") {
            Some(NameVariable::EditorialDirector)
        } else if str_eq(name, "illustrator") {
            Some(NameVariable::Illustrator)
        } else if str_eq(name, "interviewer") {
            Some(NameVariable::Interviewer)
        } else if str_eq(name, "original-author") {
            Some(NameVariable::OriginalAuthor)
        } else if str_eq(name, "recipient") {
            Some(NameVariable::Recipient)
        } else if str_eq(name, "reviewed-author") {
            Some(NameVariable::ReviewedAuthor)
        } else if str_eq(name, "translator") {
            Some(NameVariable::Translator)
        } else if str_eq(name, "dummy") {
            Some(NameVariable::Dummy)
        } else {
            None
        }
    }
}

impl Named for DateVariable {
    open spec fn spec_name(self) -> Seq<char> {
        match self {
            DateVariable::Accessed => "accessed"@,
            DateVariable::Container => "container"@,
            DateVariable::EventDate => "event-date"@,
            DateVariable::Issued => "issued"@,
            DateVariable::OriginalDate => "original-date"@,
            DateVariable::Submitted => "submitted"@,
        }
    }

    fn name(self) -> (n: &'static str) {
        match self {
            DateVariable::Accessed => "accessed",
            DateVariable::Container => "container",
            DateVariable::EventDate => "event-date",
            DateVariable::Issued => "issued",
            DateVariable::OriginalDate => "original-date",
            DateVariable::Submitted => "submitted",
        }
    }

    fn from_name(name: &str) -> (r: Option<DateVariable>) {
        if str_eq(name, "accessed") {
            Some(DateVariable::Accessed)
        } else if str_eq(name, "container") {
            Some(DateVariable::Container)
        } else if str_eq(name, "event-date") {
            Some(DateVariable::EventDate)
        } else if str_eq(name, "issued") {
            Some(DateVariable::Issued)
        } else if str_eq(name, "original-date") {
            Some(DateVariable::OriginalDate)
        } else if str_eq(name, "submitted") {
            Some(DateVariable::Submitted)
        } else {
            None
        }
    }
}

impl Named for CslType {
    open spec fn spec_name(self) -> Seq<char> {
        match self {
            CslType::Article => "article"@,
            CslType::ArticleMagazine => "article-magazine"@,
            CslType::ArticleNewspaper => "article-newspaper"@,
            CslType::ArticleJournal => "article-journal"@,
            CslType::Bill => "bill"@,
            CslType::Book => "book"@,
            CslType::Broadcast => "broadcast"@,
            CslType::Chapter => "chapter"@,
            CslType::Dataset => "dataset"@,
            CslType::Entry => "entry"@,
            CslType::EntryDictionary => "entry-dictionary"@,
            CslType::EntryEncyclopedia => "entry-encyclopedia"@,
            CslType::Figure => "figure"@,
            CslType::Graphic => "graphic"@,
            CslType::Interview => "interview"@,
            CslType::Legislation => "legislation"@,
            CslType::LegalCase => "legal_case"@,
            CslType::Manuscript => "manuscript"@,
            CslType::Chart => "map"@,
            CslType::MotionPicture => "motion_picture"@,
            CslType::MusicalScore => "musical_score"@,
            CslType::Pamphlet => "pamphlet"@,
            CslType::PaperConference => "paper-conference"@,
            CslType::Patent => "patent"@,
            CslType::Post => "post"@,
            CslType::PostWeblog => "post-weblog"@,
            CslType::PersonalCommunication => "personal_communication"@,
            CslType::Report => "report"@,
            CslType::Review => "review"@,
            CslType::ReviewBook => "review-book"@,
            CslType::Song => "song"@,
            CslType::Speech => "speech"@,
            CslType::Thesis => "thesis"@,
            CslType::Treaty => "treaty"@,
            CslType::Webpage => "webpage"@,
        }
    }

    fn name(self) -> (n: &'static str) {
        match self {
            CslType::Article => "article",
            CslType::ArticleMagazine => "article-magazine",
            CslType::ArticleNewspaper => "article-newspaper",
            CslType::ArticleJournal => "article-journal",
            CslType::Bill => "bill",
            CslType::Book => "book",
            CslType::Broadcast => "broadcast",
            CslType::Chapter => "chapter",
            CslType::Dataset => "dataset",
            CslType::Entry => "entry",
            CslType::EntryDictionary => "entry-dictionary",
            CslType::EntryEncyclopedia => "entry-encyclopedia",
            CslType::Figure => "figure",
            CslType::Graphic => "graphic",
            CslType::Interview => "interview",
            CslType::Legislation => "legislation",
            CslType::LegalCase => "legal_case",
            CslType::Manuscript => "manuscript",
            CslType::Chart => "map",
            CslType::MotionPicture => "motion_picture",
            CslType::MusicalScore => "musical_score",
            CslType::Pamphlet => "pamphlet",
            CslType::PaperConference => "paper-conference",
            CslType::Patent => "patent",
            CslType::Post => "post",
            CslType::PostWeblog => "post-weblog",
            CslType::PersonalCommunication => "personal_communication",
            CslType::Report => "report",
            CslType::Review => "review",
            CslType::ReviewBook => "review-book",
            CslType::Song => "song",
            CslType::Speech => "speech",
            CslType::Thesis => "thesis",
            CslType::Treaty => "treaty",
            CslType::Webpage => "webpage",
        }
    }

    fn from_name(name: &str) -> (r: Option<CslType>) {
        if str_eq(name, "article") {
            Some(CslType::Article)
        } else if str_eq(name, "article-magazine") {
            Some(CslType::ArticleMagazine)
        } else if str_eq(name, "article-newspaper") {
            Some(CslType::ArticleNewspaper)
        } else if str_eq(name, "article-journal") {
            Some(CslType::ArticleJournal)
        } else if str_eq(name, "bill") {
            Some(CslType::Bill)
        } else if str_eq(name, "book") {
            Some(CslType::Book)
        } else if str_eq(name, "broadcast") {
            Some(CslType::Broadcast)
        } else if str_eq(name, "chapter") {
            Some(CslType::Chapter)
        } else if str_eq(name, "dataset") {
            Some(CslType::Dataset)
        } else if str_eq(name, "entry") {
            Some(CslType::Entry)
        } else if str_eq(name, "entry-dictionary") {
            Some(CslType::EntryDictionary)
        } else if str_eq(name, "entry-encyclopedia") {
            Some(CslType::EntryEncyclopedia)
        } else if str_eq(name, "figure") {
            Some(CslType::Figure)
        } else if str_eq(name, "graphic") {
            Some(CslType::Graphic)
        } else if str_eq(name, "interview") {
            Some(CslType::Interview)
        } else if str_eq(name, "legislation") {
            Some(CslType::Legislation)
        } else if str_eq(name, "legal_case") {
            Some(CslType::LegalCase)
        } else if str_eq(name, "manuscript") {
            Some(CslType::Manuscript)
        } else if str_eq(name, "map") {
            Some(CslType::Chart)
        } else if str_eq(name, "motion_picture") {
            Some(CslType::MotionPicture)
        } else if str_eq(name, "musical_score") {
            Some(CslType::MusicalScore)
        } else if str_eq(name, "pamphlet") {
            Some(CslType::Pamphlet)
        } else if str_eq(name, "paper-conference") {
            Some(CslType::PaperConference)
        } else if str_eq(name, "patent") {
            Some(CslType::Patent)
        } else if str_eq(name, "post") {
            Some(CslType::Post)
        } else if str_eq(name, "post-weblog") {
            Some(CslType::PostWeblog)
        } else if str_eq(name, "personal_communication") {
            Some(CslType::PersonalCommunication)
        } else if str_eq(name, "report") {
            Some(CslType::Report)
        } else if str_eq(name, "review") {
            Some(CslType::Review)
        } else if str_eq(name, "review-book") {
            Some(CslType::ReviewBook)
        } else if str_eq(name, "song") {
            Some(CslType::Song)
        } else if str_eq(name, "speech") {
            Some(CslType::Speech)
        } else if str_eq(name, "thesis") {
            Some(CslType::Thesis)
        } else if str_eq(name, "treaty") {
            Some(CslType::Treaty)
        } else if str_eq(name, "webpage") {
            Some(CslType::Webpage)
        } else {
            None
        }
    }
}

impl Named for LocatorType {
    open spec fn spec_name(self) -> Seq<char> {
        match self {
            LocatorType::Book => "book"@,
            LocatorType::Chapter => "chapter"@,
            LocatorType::Column => "column"@,
            LocatorType::Figure => "figure"@,
            LocatorType::Folio => "folio"@,
            LocatorType::Issue => "issue"@,
            LocatorType::Line => "line"@,
            LocatorType::Note => "note"@,
            LocatorType::Opus => "opus"@,
            LocatorType::Page => "page"@,
            LocatorType::Paragraph => "paragraph"@,
            LocatorType::Part => "part"@,
            LocatorType::Section => "section"@,
            LocatorType::SubVerbo => "sub-verbo"@,
            LocatorType::Verse => "verse"@,
            LocatorType::Volume => "volume"@,
        }
    }

    fn name(self) -> (n: &'static str) {
        match self {
            LocatorType::Book => "book",
            LocatorType::Chapter => "chapter",
            LocatorType::Column => "column",
            LocatorType::Figure => "figure",
            LocatorType::Folio => "folio",
            LocatorType::Issue => "issue",
            LocatorType::Line => "line",
            LocatorType::Note => "note",
            LocatorType::Opus => "opus",
            LocatorType::Page => "page",
            LocatorType::Paragraph => "paragraph",
            LocatorType::Part => "part",
            LocatorType::Section => "section",
            LocatorType::SubVerbo => "sub-verbo",
            LocatorType::Verse => "verse",
            LocatorType::Volume => "volume",
        }
    }

    fn from_name(name: &str) -> (r: Option<LocatorType>) {
        if str_eq(name, "book") {
            Some(LocatorType::Book)
        } else if str_eq(name, "chapter") {
            Some(LocatorType::Chapter)
        } else if str_eq(name, "column") {
            Some(LocatorType::Column)
        } else if str_eq(name, "figure") {
            Some(LocatorType::Figure)
        } else if str_eq(name, "folio") {
            Some(LocatorType::Folio)
        } else if str_eq(name, "issue") {
            Some(LocatorType::Issue)
        } else if str_eq(name, "line") {
            Some(LocatorType::Line)
        } else if str_eq(name, "note") {
            Some(LocatorType::Note)
        } else if str_eq(name, "opus") {
            Some(LocatorType::Opus)
        } else if str_eq(name, "page") {
            Some(LocatorType::Page)
        } else if str_eq(name, "paragraph") {
            Some(LocatorType::Paragraph)
        } else if str_eq(name, "part") {
            Some(LocatorType::Part)
        } else if str_eq(name, "section") {
            Some(LocatorType::Section)
        } else if str_eq(name, "sub-verbo") {
            Some(LocatorType::SubVerbo)
        } else if str_eq(name, "verse") {
            Some(LocatorType::Verse)
        } else if str_eq(name, "volume") {
            Some(LocatorType::Volume)
        } else {
            None
        }
    }
}

impl Named for Position {
    open spec fn spec_name(self) -> Seq<char> {
        match self {
            Position::First => "first"@,
            Position::Ibid => "ibid"@,
            Position::IbidWithLocator => "ibid-with-locator"@,
            Position::Subsequent => "subsequent"@,
            Position::NearNote => "near-note"@,
            Position::FarNote => "far-note"@,
        }
    }

    fn name(self) -> (n: &'static str) {
        match self {
            Position::First => "first",
            Position::Ibid => "ibid",
            Position::IbidWithLocator => "ibid-with-locator",
            Position::Subsequent => "subsequent",
            Position::NearNote => "near-note",
            Position::FarNote => "far-note",
        }
    }

    fn from_name(name: &str) -> (r: Option<Position>) {
        if str_eq(name, "first") {
            Some(Position::First)
        } else if str_eq(name, "ibid") {
            Some(Position::Ibid)
        } else if str_eq(name, "ibid-with-locator") {
            Some(Position::IbidWithLocator)
        } else if str_eq(name, "subsequent") {
            Some(Position::Subsequent)
        } else if str_eq(name, "near-note") {
            Some(Position::NearNote)
        } else if str_eq(name, "far-note") {
            Some(Position::FarNote)
        } else {
            None
        }
    }
}

impl Named for Match {
    open spec fn spec_name(self) -> Seq<char> {
        match self {
            Match::All => "all"@,
            Match::Any => "any"@,
            Match::Neither => "none"@,
            Match::Nand => "nand"@,
        }
    }

    fn name(self) -> (n: &'static str) {
        match self {
            Match::All => "all",
            Match::Any => "any",
            Match::Neither => "none",
            Match::Nand => "nand",
        }
    }

    fn from_name(name: &str) -> (r: Option<Match>) {
        if str_eq(name, "all") {
            Some(Match::All)
        } else if str_eq(name, "any") {
            Some(Match::Any)
        } else if str_eq(name, "none") {
            Some(Match::Neither)
        } else if str_eq(name, "nand") {
            Some(Match::Nand)
        } else {
            None
        }
    }
}

impl Named for Plural {
    open spec fn spec_name(self) -> Seq<char> {
        match self {
            Plural::Contextual => "contextual"@,
            Plural::Always => "always"@,
            Plural::Never => "never"@,
        }
    }

    fn name(self) -> (n: &'static str) {
        match self {
            Plural::Contextual => "contextual",
            Plural::Always => "always",
            Plural::Never => "never",
        }
    }

    fn from_name(name: &str) -> (r: Option<Plural>) {
        if str_eq(name, "contextual") {
            Some(Plural::Contextual)
        } else if str_eq(name, "always") {
            Some(Plural::Always)
        } else if str_eq(name, "never") {
            Some(Plural::Never)
        } else {
            None
        }
    }
}

impl Named for NumericForm {
    open spec fn spec_name(self) -> Seq<char> {
        match self {
            NumericForm::Numeric => "numeric"@,
            NumericForm::Ordinal => "ordinal"@,
            NumericForm::LongOrdinal => "long-ordinal"@,
            NumericForm::Roman => "roman"@,
        }
    }

    fn name(self) -> (n: &'static str) {
        match self {
            NumericForm::Numeric => "numeric",
            NumericForm::Ordinal => "ordinal",
            NumericForm::LongOrdinal => "long-ordinal",
            NumericForm::Roman => "roman",
        }
    }

    fn from_name(name: &str) -> (r: Option<NumericForm>) {
        if str_eq(name, "numeric") {
            Some(NumericForm::Numeric)
        } else if str_eq(name, "ordinal") {
            Some(NumericForm::Ordinal)
        } else if str_eq(name, "long-ordinal") {
            Some(NumericForm::LongOrdinal)
        } else if str_eq(name, "roman") {
            Some(NumericForm::Roman)
        } else {
            None
        }
    }
}

impl Named for TermForm {
    open spec fn spec_name(self) -> Seq<char> {
        match self {
            TermForm::Long => "long"@,
            TermForm::Short => "short"@,
            TermForm::Symbol => "symbol"@,
        }
    }

    fn name(self) -> (n: &'static str) {
        match self {
            TermForm::Long => "long",
            TermForm::Short => "short",
            TermForm::Symbol => "symbol",
        }
    }

    fn from_name(name: &str) -> (r: Option<TermForm>) {
        if str_eq(name, "long") {
            Some(TermForm::Long)
        } else if str_eq(name, "short") {
            Some(TermForm::Short)
        } else if str_eq(name, "symbol") {
            Some(TermForm::Symbol)
        } else {
            None
        }
    }
}

impl Named for TermFormExtended {
    open spec fn spec_name(self) -> Seq<char> {
        match self {
            TermFormExtended::Long => "long"@,
            TermFormExtended::Short => "short"@,
            TermFormExtended::Symbol => "symbol"@,
            TermFormExtended::Verb => "verb"@,
            TermFormExtended::VerbShort => "verb-short"@,
        }
    }

    fn name(self) -> (n: &'static str) {
        match self {
            TermFormExtended::Long => "long",
            TermFormExtended::Short => "short",
            TermFormExtended::Symbol => "symbol",
            TermFormExtended::Verb => "verb",
            TermFormExtended::VerbShort => "verb-short",
        }
    }

    fn from_name(name: &str) -> (r: Option<TermFormExtended>) {
        if str_eq(name, "long") {
            Some(TermFormExtended::Long)
        } else if str_eq(name, "short") {
            Some(TermFormExtended::Short)
        } else if str_eq(name, "symbol") {
            Some(TermFormExtended::Symbol)
        } else if str_eq(name, "verb") {
            Some(TermFormExtended::Verb)
        } else if str_eq(name, "verb-short") {
            Some(TermFormExtended::VerbShort)
        } else {
            None
        }
    }
}

impl Named for VariableForm {
    open spec fn spec_name(self) -> Seq<char> {
        match self {
            VariableForm::Long => "long"@,
            VariableForm::Short => "short"@,
        }
    }

    fn name(self) -> (n: &'static str) {
        match self {
            VariableForm::Long => "long",
            VariableForm::Short => "short",
        }
    }

    fn from_name(name: &str) -> (r: Option<VariableForm>) {
        if str_eq(name, "long") {
            Some(VariableForm::Long)
        } else if str_eq(name, "short") {
            Some(VariableForm::Short)
        } else {
            None
        }
    }
}

impl Named for TextCase {
    open spec fn spec_name(self) -> Seq<char> {
        match self {
            TextCase::Unchanged => "none"@,
            TextCase::Lowercase => "lowercase"@,
            TextCase::Uppercase => "uppercase"@,
            TextCase::CapitalizeFirst => "capitalize-first"@,
            TextCase::CapitalizeAll => "capitalize-all"@,
            TextCase::Sentence => "sentence"@,
            TextCase::Title => "title"@,
        }
    }

    fn name(self) -> (n: &'static str) {
        match self {
            TextCase::Unchanged => "none",
            TextCase::Lowercase => "lowercase",
            TextCase::Uppercase => "uppercase",
            TextCase::CapitalizeFirst => "capitalize-first",
            TextCase::CapitalizeAll => "capitalize-all",
            TextCase::Sentence => "sentence",
            TextCase::Title => "title",
        }
    }

    fn from_name(name: &str) -> (r: Option<TextCase>) {
        if str_eq(name, "none") {
            Some(TextCase::Unchanged)
        } else if str_eq(name, "lowercase") {
            Some(TextCase::Lowercase)
        } else if str_eq(name, "uppercase") {
            Some(TextCase::Uppercase)
        } else if str_eq(name, "capitalize-first") {
            Some(TextCase::CapitalizeFirst)
        } else if str_eq(name, "capitalize-all") {
            Some(TextCase::CapitalizeAll)
        } else if str_eq(name, "sentence") {
            Some(TextCase::Sentence)
        } else if str_eq(name, "title") {
            Some(TextCase::Title)
        } else {
            None
        }
    }
}

impl Named for FontStyle {
    open spec fn spec_name(self) -> Seq<char> {
        match self {
            FontStyle::Normal => "normal"@,
            FontStyle::Italic => "italic"@,
            FontStyle::Oblique => "oblique"@,
        }
    }

    fn name(self) -> (n: &'static str) {
        match self {
            FontStyle::Normal => "normal",
            FontStyle::Italic => "italic",
            FontStyle::Oblique => "oblique",
        }
    }

    fn from_name(name: &str) -> (r: Option<FontStyle>) {
        if str_eq(name, "normal") {
            Some(FontStyle::Normal)
        } else if str_eq(name, "italic") {
            Some(FontStyle::Italic)
        } else if str_eq(name, "oblique") {
            Some(FontStyle::Oblique)
        } else {
            None
        }
    }
}

impl Named for FontVariant {
    open spec fn spec_name(self) -> Seq<char> {
        match self {
            FontVariant::Normal => "normal"@,
            FontVariant::SmallCaps => "small-caps"@,
        }
    }

    fn name(self) -> (n: &'static str) {
        match self {
            FontVariant::Normal => "normal",
            FontVariant::SmallCaps => "small-caps",
        }
    }

    fn from_name(name: &str) -> (r: Option<FontVariant>) {
        if str_eq(name, "normal") {
            Some(FontVariant::Normal)
        } else if str_eq(name, "small-caps") {
            Some(FontVariant::SmallCaps)
        } else {
            None
        }
    }
}

impl Named for FontWeight {
    open spec fn spec_name(self) -> Seq<char> {
        match self {
            FontWeight::Normal => "normal"@,
            FontWeight::Bold => "bold"@,
            FontWeight::Light => "light"@,
        }
    }

    fn name(self) -> (n: &'static str) {
        match self {
            FontWeight::Normal => "normal",
            FontWeight::Bold => "bold",
            FontWeight::Light => "light",
        }
    }

    fn from_name(name: &str) -> (r: Option<FontWeight>) {
        if str_eq(name, "normal") {
            Some(FontWeight::Normal)
        } else if str_eq(name, "bold") {
            Some(FontWeight::Bold)
        } else if str_eq(name, "light") {
            Some(FontWeight::Light)
        } else {
            None
        }
    }
}

impl Named for TextDecoration {
    open spec fn spec_name(self) -> Seq<char> {
        match self {
            TextDecoration::Plain => "none"@,
            TextDecoration::Underline => "underline"@,
        }
    }

    fn name(self) -> (n: &'static str) {
        match self {
            TextDecoration::Plain => "none",
            TextDecoration::Underline => "underline",
        }
    }

    fn from_name(name: &str) -> (r: Option<TextDecoration>) {
        if str_eq(name, "none") {
            Some(TextDecoration::Plain)
        } else if str_eq(name, "underline") {
            Some(TextDecoration::Underline)
        } else {
            None
        }
    }
}

impl Named for VerticalAlignment {
    open spec fn spec_name(self) -> Seq<char> {
        match self {
            VerticalAlignment::Baseline => "baseline"@,
            VerticalAlignment::Superscript => "sup"@,
            VerticalAlignment::Subscript => "sub"@,
        }
    }

    fn name(self) -> (n: &'static str) {
        match self {
            VerticalAlignment::Baseline => "baseline",
            VerticalAlignment::Superscript => "sup",
            VerticalAlignment::Subscript => "sub",
        }
    }

    fn from_name(name: &str) -> (r: Option<VerticalAlignment>) {
        if str_eq(name, "baseline") {
            Some(VerticalAlignment::Baseline)
        } else if str_eq(name, "sup") {
            Some(VerticalAlignment::Superscript)
        } else if str_eq(name, "sub") {
            Some(VerticalAlignment::Subscript)
        } else {
            None
        }
    }
}

impl Named for SimpleTerm {
    open spec fn spec_name(self) -> Seq<char> {
        match self {
            SimpleTerm::Accessed => "accessed"@,
            SimpleTerm::And => "and"@,
            SimpleTerm::AndOthers => "and others"@,
            SimpleTerm::Anonymous => "anonymous"@,
            SimpleTerm::At => "at"@,
            SimpleTerm::AvailableAt => "available at"@,
            SimpleTerm::By => "by"@,
            SimpleTerm::Circa => "circa"@,
            SimpleTerm::Cited => "cited"@,
            SimpleTerm::EtAl => "et-al"@,
            SimpleTerm::Forthcoming => "forthcoming"@,
            SimpleTerm::From => "from"@,
            SimpleTerm::Ibid => "ibid"@,
            SimpleTerm::In => "in"@,
            SimpleTerm::InPress => "in press"@,
            SimpleTerm::Internet => "internet"@,
            SimpleTerm::Interview => "interview"@,
            SimpleTerm::Letter => "letter"@,
            SimpleTerm::NoDate => "no date"@,
            SimpleTerm::Online => "online"@,
            SimpleTerm::PresentedAt => "presented at"@,
            SimpleTerm::Reference => "reference"@,
            SimpleTerm::Retrieved => "retrieved"@,
            SimpleTerm::Scale => "scale"@,
            SimpleTerm::Version => "version"@,
        }
    }

    fn name(self) -> (n: &'static str) {
        match self {
            SimpleTerm::Accessed => "accessed",
            SimpleTerm::And => "and",
            SimpleTerm::AndOthers => "and others",
            SimpleTerm::Anonymous => "anonymous",
            SimpleTerm::At => "at",
            SimpleTerm::AvailableAt => "available at",
            SimpleTerm::By => "by",
            SimpleTerm::Circa => "circa",
            SimpleTerm::Cited => "cited",
            SimpleTerm::EtAl => "et-al",
            SimpleTerm::Forthcoming => "forthcoming",
            SimpleTerm::From => "from",
            SimpleTerm::Ibid => "ibid",
            SimpleTerm::In => "in",
            SimpleTerm::InPress => "in press",
            SimpleTerm::Internet => "internet",
            SimpleTerm::Interview => "interview",
            SimpleTerm::Letter => "letter",
            SimpleTerm::NoDate => "no date",
            SimpleTerm::Online => "online",
            SimpleTerm::PresentedAt => "presented at",
            SimpleTerm::Reference => "reference",
            SimpleTerm::Retrieved => "retrieved",
            SimpleTerm::Scale => "scale",
            SimpleTerm::Version => "version",
        }
    }

    fn from_name(name: &str) -> (r: Option<SimpleTerm>) {
        if str_eq(name, "accessed") {
            Some(SimpleTerm::Accessed)
        } else if str_eq(name, "and") {
            Some(SimpleTerm::And)
        } else if str_eq(name, "and others") {
            Some(SimpleTerm::AndOthers)
        } else if str_eq(name, "anonymous") {
            Some(SimpleTerm::Anonymous)
        } else if str_eq(name, "at") {
            Some(SimpleTerm::At)
        } else if str_eq(name, "available at") {
            Some(SimpleTerm::AvailableAt)
        } else if str_eq(name, "by") {
            Some(SimpleTerm::By)
        } else if str_eq(name, "circa") {
            Some(SimpleTerm::Circa)
        } else if str_eq(name, "cited") {
            Some(SimpleTerm::Cited)
        } else if str_eq(name, "et-al") {
            Some(SimpleTerm::EtAl)
        } else if str_eq(name, "forthcoming") {
            Some(SimpleTerm::Forthcoming)
        } else if str_eq(name, "from") {
            Some(SimpleTerm::From)
        } else if str_eq(name, "ibid") {
            Some(SimpleTerm::Ibid)
        } else if str_eq(name, "in") {
            Some(SimpleTerm::In)
        } else if str_eq(name, "in press") {
            Some(SimpleTerm::InPress)
        } else if str_eq(name, "internet") {
            Some(SimpleTerm::Internet)
        } else if str_eq(name, "interview") {
            Some(SimpleTerm::Interview)
        } else if str_eq(name, "letter") {
            Some(SimpleTerm::Letter)
        } else if str_eq(name, "no date") {
            Some(SimpleTerm::NoDate)
        } else if str_eq(name, "online") {
            Some(SimpleTerm::Online)
        } else if str_eq(name, "presented at") {
            Some(SimpleTerm::PresentedAt)
        } else if str_eq(name, "reference") {
            Some(SimpleTerm::Reference)
        } else if str_eq(name, "retrieved") {
            Some(SimpleTerm::Retrieved)
        } else if str_eq(name, "scale") {
            Some(SimpleTerm::Scale)
        } else if str_eq(name, "version") {
            Some(SimpleTerm::Version)
        } else {
            None
        }
    }
}

impl Named for StandardVariable {
    open spec fn spec_name(self) -> Seq<char> {
        match self {
            StandardVariable::Ordinary(v) => v.spec_name(),
            StandardVariable::Number(v) => v.spec_name(),
        }
    }

    fn name(self) -> (n: &'static str) {
        match self {
            StandardVariable::Ordinary(v) => v.name(),
            StandardVariable::Number(v) => v.name(),
        }
    }

    /// An ordinary variable where one has the name, else a number variable.
    fn from_name(name: &str) -> (r: Option<StandardVariable>) {
        match Variable::from_name(name) {
            Some(v) => Some(StandardVariable::Ordinary(v)),
            None => match NumberVariable::from_name(name) {
                Some(v) => Some(StandardVariable::Number(v)),
                None => {
                    assert forall|v: StandardVariable| v.spec_name() != name@ by {
                        match v {
                            StandardVariable::Ordinary(x) => {
                                assert(x.spec_name() != name@);
                            },
                            StandardVariable::Number(x) => {
                                assert(x.spec_name() != name@);
                            },
                        }
                    }
                    None
                },
            },
        }
    }
}

impl Named for AnyVariable {
    open spec fn spec_name(self) -> Seq<char> {
        match self {
            AnyVariable::Ordinary(v) => v.spec_name(),
            AnyVariable::Number(v) => v.spec_name(),
            AnyVariable::Name(v) => v.spec_name(),
            AnyVariable::Date(v) => v.spec_name(),
        }
    }

    fn name(self) -> (n: &'static str) {
        match self {
            AnyVariable::Ordinary(v) => v.name(),
            AnyVariable::Number(v) => v.name(),
            AnyVariable::Name(v) => v.name(),
            AnyVariable::Date(v) => v.name(),
        }
    }

    /// The first kind of variable that has the name, of ordinary, number,
    /// name and date variables in that order.
    fn from_name(name: &str) -> (r: Option<AnyVariable>) {
        if let Some(v) = Variable::from_name(name) {
            return Some(AnyVariable::Ordinary(v));
        }
        if let Some(v) = NumberVariable::from_name(name) {
            return Some(AnyVariable::Number(v));
        }
        if let Some(v) = NameVariable::from_name(name) {
            return Some(AnyVariable::Name(v));
        }
        if let Some(v) = DateVariable::from_name(name) {
            return Some(AnyVariable::Date(v));
        }
        assert forall|v: AnyVariable| v.spec_name() != name@ by {
            match v {
                AnyVariable::Ordinary(x) => {
                    assert(x.spec_name() != name@);
                },
                AnyVariable::Number(x) => {
                    assert(x.spec_name() != name@);
                },
                AnyVariable::Name(x) => {
                    assert(x.spec_name() != name@);
                },
                AnyVariable::Date(x) => {
                    assert(x.spec_name() != name@);
                },
            }
        }
        None
    }
}

impl Named for DatePartName {
    open spec fn spec_name(self) -> Seq<char> {
        match self {
            DatePartName::Year => "year"@,
            DatePartName::Month => "month"@,
            DatePartName::Day => "day"@,
        }
    }

    fn name(self) -> (n: &'static str) {
        match self {
            DatePartName::Year => "year",
            DatePartName::Month => "month",
            DatePartName::Day => "day",
        }
    }

    fn from_name(name: &str) -> (r: Option<DatePartName>) {
        if str_eq(name, "year") {
            Some(DatePartName::Year)
        } else if str_eq(name, "month") {
            Some(DatePartName::Month)
        } else if str_eq(name, "day") {
            Some(DatePartName::Day)
        } else {
            None
        }
    }
}

impl Named for YearForm {
    open spec fn spec_name(self) -> Seq<char> {
        match self {
            YearForm::Long => "long"@,
            YearForm::Short => "short"@,
        }
    }

    fn name(self) -> (n: &'static str) {
        match self {
            YearForm::Long => "long",
            YearForm::Short => "short",
        }
    }

    fn from_name(name: &str) -> (r: Option<YearForm>) {
        if str_eq(name, "long") {
            Some(YearForm::Long)
        } else if str_eq(name, "short") {
            Some(YearForm::Short)
        } else {
            None
        }
    }
}

impl Named for MonthForm {
    open spec fn spec_name(self) -> Seq<char> {
        match self {
            MonthForm::Long => "long"@,
            MonthForm::Short => "short"@,
            MonthForm::Numeric => "numeric"@,
            MonthForm::NumericLeadingZeros => "numeric-leading-zeros"@,
        }
    }

    fn name(self) -> (n: &'static str) {
        match self {
            MonthForm::Long => "long",
            MonthForm::Short => "short",
            MonthForm::Numeric => "numeric",
            MonthForm::NumericLeadingZeros => "numeric-leading-zeros",
        }
    }

    fn from_name(name: &str) -> (r: Option<MonthForm>) {
        if str_eq(name, "long") {
            Some(MonthForm::Long)
        } else if str_eq(name, "short") {
            Some(MonthForm::Short)
        } else if str_eq(name, "numeric") {
            Some(MonthForm::Numeric)
        } else if str_eq(name, "numeric-leading-zeros") {
            Some(MonthForm::NumericLeadingZeros)
        } else {
            None
        }
    }
}

impl Named for DayForm {
    open spec fn spec_name(self) -> Seq<char> {
        match self {
            DayForm::Numeric => "numeric"@,
            DayForm::NumericLeadingZeros => "numeric-leading-zeros"@,
            DayForm::Ordinal => "ordinal"@,
        }
    }

    fn name(self) -> (n: &'static str) {
        match self {
            DayForm::Numeric => "numeric",
            DayForm::NumericLeadingZeros => "numeric-leading-zeros",
            DayForm::Ordinal => "ordinal",
        }
    }

    fn from_name(name: &str) -> (r: Option<DayForm>) {
        if str_eq(name, "numeric") {
            Some(DayForm::Numeric)
        } else if str_eq(name, "numeric-leading-zeros") {
            Some(DayForm::NumericLeadingZeros)
        } else if str_eq(name, "ordinal") {
            Some(DayForm::Ordinal)
        } else {
            None
        }
    }
}

impl Named for DateParts {
    open spec fn spec_name(self) -> Seq<char> {
        match self {
            DateParts::YearMonthDay => "year-month-day"@,
            DateParts::YearMonth => "year-month"@,
            DateParts::Year => "year"@,
        }
    }

    fn name(self) -> (n: &'static str) {
        match self {
            DateParts::YearMonthDay => "year-month-day",
            DateParts::YearMonth => "year-month",
            DateParts::Year => "year",
        }
    }

    fn from_name(name: &str) -> (r: Option<DateParts>) {
        if str_eq(name, "year-month-day") {
            Some(DateParts::YearMonthDay)
        } else if str_eq(name, "year-month") {
            Some(DateParts::YearMonth)
        } else if str_eq(name, "year") {
            Some(DateParts::Year)
        } else {
            None
        }
    }
}

impl Named for DateForm {
    open spec fn spec_name(self) -> Seq<char> {
        match self {
            DateForm::Text => "text"@,
            DateForm::Numeric => "numeric"@,
        }
    }

    fn name(self) -> (n: &'static str) {
        match self {
            DateForm::Text => "text",
            DateForm::Numeric => "numeric",
        }
    }

    fn from_name(name: &str) -> (r: Option<DateForm>) {
        if str_eq(name, "text") {
            Some(DateForm::Text)
        } else if str_eq(name, "numeric") {
            Some(DateForm::Numeric)
        } else {
            None
        }
    }
}

impl Named for NamePartName {
    open spec fn spec_name(self) -> Seq<char> {
        match self {
            NamePartName::Given => "given"@,
            NamePartName::Family => "family"@,
        }
    }

    fn name(self) -> (n: &'static str) {
        match self {
            NamePartName::Given => "given",
            NamePartName::Family => "family",
        }
    }

    fn from_name(name: &str) -> (r: Option<NamePartName>) {
        if str_eq(name, "given") {
            Some(NamePartName::Given)
        } else if str_eq(name, "family") {
            Some(NamePartName::Family)
        } else {
            None
        }
    }
}

impl Named for DelimiterPrecedes {
    open spec fn spec_name(self) -> Seq<char> {
        match self {
            DelimiterPrecedes::Contextual => "contextual"@,
            DelimiterPrecedes::AfterInvertedName => "after-inverted-name"@,
            DelimiterPrecedes::Always => "always"@,
            DelimiterPrecedes::Never => "never"@,
        }
    }

    fn name(self) -> (n: &'static str) {
        match self {
            DelimiterPrecedes::Contextual => "contextual",
            DelimiterPrecedes::AfterInvertedName => "after-inverted-name",
            DelimiterPrecedes::Always => "always",
            DelimiterPrecedes::Never => "never",
        }
    }

    fn from_name(name: &str) -> (r: Option<DelimiterPrecedes>) {
        if str_eq(name, "contextual") {
            Some(DelimiterPrecedes::Contextual)
        } else if str_eq(name, "after-inverted-name") {
            Some(DelimiterPrecedes::AfterInvertedName)
        } else if str_eq(name, "always") {
            Some(DelimiterPrecedes::Always)
        } else if str_eq(name, "never") {
            Some(DelimiterPrecedes::Never)
        } else {
            None
        }
    }
}

impl Named for NameForm {
    open spec fn spec_name(self) -> Seq<char> {
        match self {
            NameForm::Long => "long"@,
            NameForm::Short => "short"@,
            NameForm::Count => "count"@,
        }
    }

    fn name(self) -> (n: &'static str) {
        match self {
            NameForm::Long => "long",
            NameForm::Short => "short",
            NameForm::Count => "count",
        }
    }

    fn from_name(name: &str) -> (r: Option<NameForm>) {
        if str_eq(name, "long") {
            Some(NameForm::Long)
        } else if str_eq(name, "short") {
            Some(NameForm::Short)
        } else if str_eq(name, "count") {
            Some(NameForm::Count)
        } else {
            None
        }
    }
}

impl Named for NameAsSortOrder {
    open spec fn spec_name(self) -> Seq<char> {
        match self {
            NameAsSortOrder::First => "first"@,
            NameAsSortOrder::All => "all"@,
        }
    }

    fn name(self) -> (n: &'static str) {
        match self {
            NameAsSortOrder::First => "first",
            NameAsSortOrder::All => "all",
        }
    }

    fn from_name(name: &str) -> (r: Option<NameAsSortOrder>) {
        if str_eq(name, "first") {
            Some(NameAsSortOrder::First)
        } else if str_eq(name, "all") {
            Some(NameAsSortOrder::All)
        } else {
            None
        }
    }
}

impl Named for GivenNameDisambiguationRule {
    open spec fn spec_name(self) -> Seq<char> {
        match self {
            GivenNameDisambiguationRule::AllNames => "all-names"@,
            GivenNameDisambiguationRule::AllNamesWithInitials => "all-names-with-initials"@,
            GivenNameDisambiguationRule::PrimaryName => "primary-name"@,
            GivenNameDisambiguationRule::PrimaryNameWithInitials => "primary-name-with-initials"@,
            GivenNameDisambiguationRule::ByCite => "by-cite"@,
        }
    }

    fn name(self) -> (n: &'static str) {
        match self {
            GivenNameDisambiguationRule::AllNames => "all-names",
            GivenNameDisambiguationRule::AllNamesWithInitials => "all-names-with-initials",
            GivenNameDisambiguationRule::PrimaryName => "primary-name",
            GivenNameDisambiguationRule::PrimaryNameWithInitials => "primary-name-with-initials",
            GivenNameDisambiguationRule::ByCite => "by-cite",
        }
    }

    fn from_name(name: &str) -> (r: Option<GivenNameDisambiguationRule>) {
        if str_eq(name, "all-names") {
            Some(GivenNameDisambiguationRule::AllNames)
        } else if str_eq(name, "all-names-with-initials") {
            Some(GivenNameDisambiguationRule::AllNamesWithInitials)
        } else if str_eq(name, "primary-name") {
            Some(GivenNameDisambiguationRule::PrimaryName)
        } else if str_eq(name, "primary-name-with-initials") {
            Some(GivenNameDisambiguationRule::PrimaryNameWithInitials)
        } else if str_eq(name, "by-cite") {
            Some(GivenNameDisambiguationRule::ByCite)
        } else {
            None
        }
    }
}

} // verus!
