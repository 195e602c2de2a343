//! The context in which one cite is evaluated.
//!
//! A style asks for variables without saying where they live. Most live in
//! the reference; a few belong to the cite (its locator), to its place in the
//! document (the note in which the reference was first cited) or to the
//! bibliography (the number of the reference there). The context answers for
//! all of them alike.

use vstd::prelude::*;
use crate::cite::{Cite, CiteId};
use crate::conditional::CondChecker;
use crate::date::DateOrRange;
use crate::locale::Locale;
use crate::numeric::{NumericModel, NumericValue, Token};
use crate::output::OutputFormat;
use crate::reference::{Name, Reference};
use crate::style::{CslType, Features, Position, Style, VariableForm};
use crate::terms::LocatorType;
use crate::variables::{AnyVariable, DateVariable, NameVariable, NumberVariable, Variable};

verus! {

/// The attempts to tell apart cites that would otherwise read the same.
#[derive(Copy, Clone, PartialEq, Eq, Hash, Debug, Structural)]
pub enum DisambPass {
    AddNames,
    AddYearSuffix,
    /// Branches that test for disambiguation are evaluated anew.
    Conditionals,
}

/// The value of one plain number.
pub open spec fn number_model(n: u32) -> NumericModel {
    NumericModel::Tokens(seq![Token::Num(n)])
}

/// The number of a variable that does not live in the reference alone.
///
/// The locator is the first locator of the cite. The note of the first
/// reference and the number in the bibliography are there once they have
/// been computed. The first page is taken from the pages of the reference.
/// Every other variable is looked up in the reference.
pub open spec fn resolve_number(
    reference: &Reference,
    locator: Option<NumericModel>,
    first_note: Option<u32>,
    bib_number: Option<u32>,
    var: NumberVariable,
) -> Option<NumericModel> {
    match var {
        NumberVariable::Locator => locator,
        NumberVariable::FirstReferenceNoteNumber => match first_note {
            Some(n) => Some(number_model(n)),
            None => None,
        },
        NumberVariable::CitationNumber => match bib_number {
            Some(n) => Some(number_model(n)),
            None => None,
        },
        NumberVariable::PageFirst => match reference.spec_number(NumberVariable::Page) {
            Some(pages) => pages.page_first(),
            None => None,
        },
        _ => reference.spec_number(var),
    }
}

/// Whether a number variable has a numeric value.
pub open spec fn resolve_is_numeric(
    reference: &Reference,
    locator: Option<NumericModel>,
    first_note: Option<u32>,
    bib_number: Option<u32>,
    var: AnyVariable,
) -> bool {
    match var {
        AnyVariable::Number(num) => match resolve_number(
            reference,
            locator,
            first_note,
            bib_number,
            num,
        ) {
            Some(v) => v.is_numeric(),
            None => false,
        },
        _ => false,
    }
}

/// Whether a variable is there to be rendered.
pub open spec fn resolve_has_variable(
    reference: &Reference,
    has_locator: bool,
    locator: Option<NumericModel>,
    first_note: Option<u32>,
    bib_number: Option<u32>,
    var: AnyVariable,
) -> bool {
    match var {
        AnyVariable::Name(NameVariable::Dummy) => false,
        AnyVariable::Number(NumberVariable::Locator) => has_locator,
        AnyVariable::Number(NumberVariable::PageFirst) => resolve_is_numeric(
            reference,
            locator,
            first_note,
            bib_number,
            AnyVariable::Number(NumberVariable::Page),
        ),
        AnyVariable::Number(NumberVariable::FirstReferenceNoteNumber) => first_note is Some,
        AnyVariable::Number(NumberVariable::CitationNumber) => bib_number is Some,
        _ => reference.spec_has_variable(var),
    }
}

/// Looks up a number that lives in the reference, or is derived from one that does.
pub fn reference_number(
    reference: &Reference,
    first_note: Option<u32>,
    bib_number: Option<u32>,
    var: NumberVariable,
) -> (r: Option<NumericValue>)
    requires
        var != NumberVariable::Locator,
    ensures
        forall|locator: Option<NumericModel>|
            match r {
                Some(v) => #[trigger] resolve_number(
                    reference,
                    locator,
                    first_note,
                    bib_number,
                    var,
                ) == Some(v@),
                None => resolve_number(reference, locator, first_note, bib_number, var) is None,
            },
{
    match var {
        NumberVariable::FirstReferenceNoteNumber => match first_note {
            Some(n) => Some(NumericValue::num(n)),
            None => None,
        },
        NumberVariable::CitationNumber => match bib_number {
            Some(n) => Some(NumericValue::num(n)),
            None => None,
        },
        NumberVariable::PageFirst => match reference.number(NumberVariable::Page) {
            Some(pages) => pages.page_first(),
            None => None,
        },
        _ => match reference.number(var) {
            Some(v) => Some(v.clone()),
            None => None,
        },
    }
}

/// One cite, its reference, and what has been worked out about its place.
pub struct CiteContext<'c, O: OutputFormat> {
    pub reference: &'c Reference,
    pub format: &'c O,
    pub cite_id: CiteId,
    pub style: &'c Style,
    pub locale: &'c Locale,
    /// The position of the cite, and the note of the first cite of its reference.
    pub position: (Position, Option<u32>),
    pub disamb_pass: Option<DisambPass>,
    pub cite: &'c Cite,
    pub citation_number: u32,
    /// The number of the reference in the bibliography, once that is numbered.
    pub bib_number: Option<u32>,
}

impl<'c, O: OutputFormat> CiteContext<'c, O> {
    /// The value of the first locator of the cite.
    pub open spec fn spec_locator(&self) -> Option<NumericModel> {
        if self.cite.locators@.len() > 0 {
            Some(self.cite.locators@[0].1@)
        } else {
            None
        }
    }

    pub open spec fn spec_get_ordinary(&self, var: Variable, form: VariableForm) -> Option<
        Seq<char>,
    > {
        if var == Variable::Title && form == VariableForm::Short {
            self.reference.spec_ordinary(Variable::TitleShort)
        } else {
            self.reference.spec_ordinary(var)
        }
    }

    pub open spec fn spec_get_number(&self, var: NumberVariable) -> Option<NumericModel> {
        resolve_number(self.reference, self.spec_locator(), self.position.1, self.bib_number, var)
    }

    pub open spec fn spec_get_name(&self, var: NameVariable) -> Option<Vec<Name>> {
        if var == NameVariable::Dummy {
            None
        } else {
            self.reference.spec_names(var)
        }
    }

    /// The type of the locator, where the cite gives exactly one.
    pub open spec fn spec_single_locator_type(&self) -> Option<LocatorType> {
        if self.cite.locators@.len() == 1 {
            Some(self.cite.locators@[0].0)
        } else {
            None
        }
    }

    /// The text of an ordinary variable. The short form of the title is a
    /// variable of its own in the reference.
    pub fn get_ordinary(&self, var: Variable, form: VariableForm) -> (r: Option<&str>)
        ensures
            match r {
                Some(s) => self.spec_get_ordinary(var, form) == Some(s@),
                None => self.spec_get_ordinary(var, form) is None,
            },
    {
        if var == Variable::Title && form == VariableForm::Short {
            self.reference.ordinary(Variable::TitleShort)
        } else {
            self.reference.ordinary(var)
        }
    }

    pub fn get_number(&self, var: NumberVariable) -> (r: Option<NumericValue>)
        ensures
            match r {
                Some(v) => self.spec_get_number(var) == Some(v@),
                None => self.spec_get_number(var) is None,
            },
    {
        match var {
            NumberVariable::Locator => {
                if self.cite.locators.len() > 0 {
                    Some(self.cite.locators[0].value().clone())
                } else {
                    None
                }
            },
            _ => {
                let r = reference_number(self.reference, self.position.1, self.bib_number, var);
                proof {
                    let _ = resolve_number(
                        self.reference,
                        self.spec_locator(),
                        self.position.1,
                        self.bib_number,
                        var,
                    );
                }
                r
            },
        }
    }

    pub fn get_name(&self, var: NameVariable) -> (r: Option<&Vec<Name>>)
        ensures
            match r {
                Some(v) => self.spec_get_name(var) == Some(*v),
                None => self.spec_get_name(var) is None,
            },
    {
        match var {
            NameVariable::Dummy => None,
            _ => self.reference.names(var),
        }
    }

    pub fn single_locator_type(&self) -> (t: Option<LocatorType>)
        ensures
            t == self.spec_single_locator_type(),
    {
        if self.cite.locators.len() == 1 {
            Some(self.cite.locators[0].type_of())
        } else {
            None
        }
    }
}

impl<'c, O: OutputFormat> CondChecker for CiteContext<'c, O> {
    open spec fn spec_has_variable(&self, var: AnyVariable) -> bool {
        resolve_has_variable(
            self.reference,
            self.cite.locators@.len() > 0,
            self.spec_locator(),
            self.position.1,
            self.bib_number,
            var,
        )
    }

    open spec fn spec_is_numeric(&self, var: AnyVariable) -> bool {
        resolve_is_numeric(
            self.reference,
            self.spec_locator(),
            self.position.1,
            self.bib_number,
            var,
        )
    }

    open spec fn spec_is_disambiguate(&self) -> bool {
        self.disamb_pass == Some(DisambPass::Conditionals)
    }

    open spec fn spec_csl_type(&self) -> CslType {
        self.reference.csl_type
    }

    open spec fn spec_locator_type(&self) -> Option<LocatorType> {
        self.spec_single_locator_type()
    }

    open spec fn spec_get_date(&self, dvar: DateVariable) -> Option<DateOrRange> {
        self.reference.spec_date(dvar)
    }

    open spec fn spec_position(&self) -> Position {
        self.position.0
    }

    open spec fn spec_features(&self) -> Features {
        self.style.features
    }

    fn has_variable(&self, var: AnyVariable) -> (b: bool) {
        match var {
            AnyVariable::Name(NameVariable::Dummy) => false,
            AnyVariable::Number(NumberVariable::Locator) => self.cite.locators.len() > 0,
            AnyVariable::Number(NumberVariable::PageFirst) => self.is_numeric(
                AnyVariable::Number(NumberVariable::Page),
            ),
            AnyVariable::Number(NumberVariable::FirstReferenceNoteNumber) => self.position.1.is_some(),
            AnyVariable::Number(NumberVariable::CitationNumber) => self.bib_number.is_some(),
            _ => self.reference.has_variable(var),
        }
    }

    /// Whether a variable is numeric. Only number variables ever are.
    fn is_numeric(&self, var: AnyVariable) -> (b: bool) {
        match var {
            AnyVariable::Number(num) => match self.get_number(num) {
                Some(v) => v.is_numeric(),
                None => false,
            },
            _ => false,
        }
    }

    fn is_disambiguate(&self) -> (b: bool) {
        match self.disamb_pass {
            Some(DisambPass::Conditionals) => true,
            _ => false,
        }
    }

    fn csl_type(&self) -> (t: CslType) {
        self.reference.csl_type
    }

    fn locator_type(&self) -> (t: Option<LocatorType>) {
        self.single_locator_type()
    }

    fn get_date(&self, dvar: DateVariable) -> (d: Option<&DateOrRange>) {
        self.reference.date(dvar)
    }

    fn position(&self) -> (p: Position) {
        self.position.0
    }

    fn features(&self) -> (f: &Features) {
        &self.style.features
    }
}

} // verus!
