//! Selectors of localized terms.

use vstd::prelude::*;
use crate::variables::{NameVariable, NumberVariable};

verus! {

/// What kind of place in a work a locator points to.
#[derive(Copy, Clone, PartialEq, Eq, Hash, Debug, Structural)]
pub enum LocatorType {
    Book,
    Chapter,
    Column,
    Figure,
    Folio,
    Issue,
    Line,
    Note,
    Opus,
    Page,
    Paragraph,
    Part,
    Section,
    SubVerbo,
    Verse,
    Volume,
}

/// The form in which a term is written.
#[derive(Copy, Clone, PartialEq, Eq, Hash, Debug, Structural)]
pub enum TermForm {
    Long,
    Short,
    Symbol,
}

/// The forms of a term for a role, which add the two verb forms.
#[derive(Copy, Clone, PartialEq, Eq, Hash, Debug, Structural)]
pub enum TermFormExtended {
    Long,
    Short,
    Symbol,
    Verb,
    VerbShort,
}

/// Terms that stand alone, such as "and" or "et al.".
#[derive(Copy, Clone, PartialEq, Eq, Hash, Debug, Structural)]
pub enum SimpleTerm {
    Accessed,
    And,
    AndOthers,
    Anonymous,
    At,
    AvailableAt,
    By,
    Circa,
    Cited,
    EtAl,
    Forthcoming,
    From,
    Ibid,
    In,
    InPress,
    Internet,
    Interview,
    Letter,
    NoDate,
    Online,
    PresentedAt,
    Reference,
    Retrieved,
    Scale,
    Version,
}

/// Terms that agree in number and gender with what they label.
#[derive(Copy, Clone, PartialEq, Eq, Hash, Debug, Structural)]
pub enum GenderedTermSelector {
    Number(NumberVariable, TermForm),
    Locator(LocatorType, TermForm),
}

/// Terms for the role that a list of names plays.
#[derive(Copy, Clone, PartialEq, Eq, Hash, Debug, Structural)]
pub struct RoleTermSelector(pub NameVariable, pub TermFormExtended);

/// Any term that a style can ask a locale for.
#[derive(Copy, Clone, PartialEq, Eq, Hash, Debug, Structural)]
pub enum TextTermSelector {
    Simple(SimpleTerm, TermFormExtended),
    Gendered(GenderedTermSelector),
    Role(RoleTermSelector),
}

impl GenderedTermSelector {
    /// The term that labels a number variable.
    ///
    /// The locator is labelled by the kind of locator that the cite gives,
    /// and has no label where the cite gives none. Every other number
    /// variable is labelled by its own term.
    pub open spec fn spec_from_number_variable(
        locator_type: Option<LocatorType>,
        var: NumberVariable,
        form: TermForm,
    ) -> Option<GenderedTermSelector> {
        if var == NumberVariable::Locator {
            match locator_type {
                Some(l) => Some(GenderedTermSelector::Locator(l, form)),
                None => None,
            }
        } else {
            Some(GenderedTermSelector::Number(var, form))
        }
    }

    pub fn from_number_variable(
        locator_type: &Option<LocatorType>,
        var: NumberVariable,
        form: TermForm,
    ) -> (r: Option<GenderedTermSelector>)
        ensures
            r == Self::spec_from_number_variable(*locator_type, var, form),
    {
        match var {
            NumberVariable::Locator => match locator_type {
                Some(l) => Some(GenderedTermSelector::Locator(*l, form)),
                None => None,
            },
            v => Some(GenderedTermSelector::Number(v, form)),
        }
    }
}

impl RoleTermSelector {
    /// The term for the role of a name variable; the dummy variable has none.
    pub open spec fn spec_from_name_variable(var: NameVariable, form: TermFormExtended) -> Option<
        RoleTermSelector,
    > {
        if var == NameVariable::Dummy {
            None
        } else {
            Some(RoleTermSelector(var, form))
        }
    }

    pub fn from_name_variable(var: NameVariable, form: TermFormExtended) -> (r: Option<
        RoleTermSelector,
    >)
        ensures
            r == Self::spec_from_name_variable(var, form),
    {
        match var {
            NameVariable::Dummy => None,
            v => Some(RoleTermSelector(v, form)),
        }
    }
}

} // verus!
