//! The context in which a reference is evaluated on its own, without a cite.
//!
//! It answers the same questions as the context of a cite. What a cite
//! would give is stated outright: the type of locator that is assumed, and
//! no locator value.

use vstd::prelude::*;
use crate::cite_context::{
    reference_number,
    resolve_has_variable,
    resolve_is_numeric,
    resolve_number,
    DisambPass,
};
use crate::conditional::CondChecker;
use crate::date::DateOrRange;
use crate::locale::Locale;
use crate::numeric::{NumericModel, NumericValue};
use crate::output::OutputFormat;
use crate::reference::{Name, Reference};
use crate::style::{CslType, Features, Position, Style};
use crate::terms::LocatorType;
use crate::variables::{AnyVariable, DateVariable, NameVariable, NumberVariable};

verus! {

pub struct RefContext<'c, O: OutputFormat> {
    pub format: &'c O,
    pub style: &'c Style,
    pub locale: &'c Locale,
    pub reference: &'c Reference,
    /// The type of locator that cites of the reference are taken to give.
    pub locator_type: Option<LocatorType>,
    pub position: (Position, Option<u32>),
    pub bib_number: Option<u32>,
    /// Whether a suffix after the year is to be provided for.
    pub year_suffix: bool,
    pub disamb_pass: Option<DisambPass>,
}

impl<'c, O: OutputFormat> RefContext<'c, O> {
    pub open spec fn spec_get_number(&self, var: NumberVariable) -> Option<NumericModel> {
        resolve_number(self.reference, None, self.position.1, self.bib_number, var)
    }

    pub open spec fn spec_get_name(&self, var: NameVariable) -> Option<Vec<Name>> {
        self.reference.spec_names(var)
    }

    pub fn get_number(&self, var: NumberVariable) -> (r: Option<NumericValue>)
        ensures
            match r {
                Some(v) => self.spec_get_number(var) == Some(v@),
                None => self.spec_get_number(var) is None,
            },
    {
        match var {
            NumberVariable::Locator => None,
            _ => {
                let r = reference_number(self.reference, self.position.1, self.bib_number, var);
                proof {
                    let _ = resolve_number(
                        self.reference,
                        None,
                        self.position.1,
                        self.bib_number,
                        var,
                    );
                }
                r
            },
        }
    }

    pub fn get_name(&self, var: NameVariable) -> (r: Option<&Vec<Name>>)
        ensures
            match r {
                Some(v) => self.spec_get_name(var) == Some(*v),
                None => self.spec_get_name(var) is None,
            },
    {
        self.reference.names(var)
    }
}

impl<'c, O: OutputFormat> CondChecker for RefContext<'c, O> {
    open spec fn spec_has_variable(&self, var: AnyVariable) -> bool {
        resolve_has_variable(
            self.reference,
            self.locator_type is Some,
            None,
            self.position.1,
            self.bib_number,
            var,
        )
    }

    open spec fn spec_is_numeric(&self, var: AnyVariable) -> bool {
        resolve_is_numeric(self.reference, None, self.position.1, self.bib_number, var)
    }

    open spec fn spec_is_disambiguate(&self) -> bool {
        self.disamb_pass == Some(DisambPass::Conditionals)
    }

    open spec fn spec_csl_type(&self) -> CslType {
        self.reference.csl_type
    }

    open spec fn spec_locator_type(&self) -> Option<LocatorType> {
        self.locator_type
    }

    open spec fn spec_get_date(&self, dvar: DateVariable) -> Option<DateOrRange> {
        self.reference.spec_date(dvar)
    }

    open spec fn spec_position(&self) -> Position {
        self.position.0
    }

    open spec fn spec_features(&self) -> Features {
        self.style.features
    }

    fn has_variable(&self, var: AnyVariable) -> (b: bool) {
        match var {
            AnyVariable::Name(NameVariable::Dummy) => false,
            AnyVariable::Number(NumberVariable::Locator) => self.locator_type.is_some(),
            AnyVariable::Number(NumberVariable::PageFirst) => self.is_numeric(
                AnyVariable::Number(NumberVariable::Page),
            ),
            AnyVariable::Number(NumberVariable::FirstReferenceNoteNumber) => self.position.1.is_some(),
            AnyVariable::Number(NumberVariable::CitationNumber) => self.bib_number.is_some(),
            _ => self.reference.has_variable(var),
        }
    }

    fn is_numeric(&self, var: AnyVariable) -> (b: bool) {
        match var {
            AnyVariable::Number(num) => match self.get_number(num) {
                Some(v) => v.is_numeric(),
                None => false,
            },
            _ => false,
        }
    }

    fn is_disambiguate(&self) -> (b: bool) {
        match self.disamb_pass {
            Some(DisambPass::Conditionals) => true,
            _ => false,
        }
    }

    fn csl_type(&self) -> (t: CslType) {
        self.reference.csl_type
    }

    fn locator_type(&self) -> (t: Option<LocatorType>) {
        self.locator_type
    }

    fn get_date(&self, dvar: DateVariable) -> (d: Option<&DateOrRange>) {
        self.reference.date(dvar)
    }

    fn position(&self) -> (p: Position) {
        self.position.0
    }

    fn features(&self) -> (f: &Features) {
        &self.style.features
    }
}

} // verus!
