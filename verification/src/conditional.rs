//! Conditions and the choice between branches.
//!
//! A condition is a list of tests combined by a match policy. A test that
//! takes no side (a test of date parts where the style has not switched
//! them on) is left out of the list: it is not counted as false.

use vstd::prelude::*;
use crate::date::DateOrRange;
use crate::style::{Choose, Cond, CondSet, Conditions, CslType, Features, IfThen, Match, Position};
use crate::terms::LocatorType;
use crate::variables::{AnyVariable, DateVariable};

verus! {

/// What a condition can ask of the context in which it is evaluated.
///
/// Each question has a specification function beside it; the answers that
/// the executable methods give are those of the specification functions.
pub trait CondChecker {
    spec fn spec_has_variable(&self, var: AnyVariable) -> bool;

    spec fn spec_is_numeric(&self, var: AnyVariable) -> bool;

    spec fn spec_is_disambiguate(&self) -> bool;

    spec fn spec_csl_type(&self) -> CslType;

    spec fn spec_locator_type(&self) -> Option<LocatorType>;

    spec fn spec_get_date(&self, dvar: DateVariable) -> Option<DateOrRange>;

    spec fn spec_position(&self) -> Position;

    spec fn spec_features(&self) -> Features;

    fn has_variable(&self, var: AnyVariable) -> (b: bool)
        ensures
            b == self.spec_has_variable(var),
    ;

    fn is_numeric(&self, var: AnyVariable) -> (b: bool)
        ensures
            b == self.spec_is_numeric(var),
    ;

    /// Whether cites are being told apart by their conditions in this pass.
    fn is_disambiguate(&self) -> (b: bool)
        ensures
            b == self.spec_is_disambiguate(),
    ;

    fn csl_type(&self) -> (t: CslType)
        ensures
            t == self.spec_csl_type(),
    ;

    fn locator_type(&self) -> (t: Option<LocatorType>)
        ensures
            t == self.spec_locator_type(),
    ;

    fn get_date(&self, dvar: DateVariable) -> (d: Option<&DateOrRange>)
        ensures
            match d {
                Some(date) => self.spec_get_date(dvar) == Some(*date),
                None => self.spec_get_date(dvar) is None,
            },
    ;

    fn position(&self) -> (p: Position)
        ensures
            p == self.spec_position(),
    ;

    fn features(&self) -> (f: &Features)
        ensures
            *f == self.spec_features(),
    ;
}

// ---------------------------------------------------------------------------
// Match policies
// ---------------------------------------------------------------------------

/// The result of a match policy on the values of the tests.
pub open spec fn policy_holds(policy: Match, values: Seq<bool>) -> bool {
    match policy {
        Match::All => forall|i: int| 0 <= i < values.len() ==> #[trigger] values[i],
        Match::Any => exists|i: int| 0 <= i < values.len() && #[trigger] values[i],
        Match::Neither => forall|i: int| 0 <= i < values.len() ==> !#[trigger] values[i],
        Match::Nand => exists|i: int| 0 <= i < values.len() && !#[trigger] values[i],
    }
}

/// Combines the values of tests by a match policy.
pub fn run_matcher(values: &Vec<bool>, match_type: Match) -> (r: bool)
    ensures
        r == policy_holds(match_type, values@),
{
    let mut any_true = false;
    let mut any_false = false;
    let mut i: usize = 0;
    while i < values.len()
        invariant
            i <= values@.len(),
            any_true == exists|j: int| 0 <= j < i && #[trigger] values@[j],
            any_false == exists|j: int| 0 <= j < i && !#[trigger] values@[j],
        decreases values@.len() - i,
    {
        if values[i] {
            any_true = true;
        } else {
            any_false = true;
        }
        i = i + 1;
    }
    match match_type {
        Match::Any => any_true,
        Match::Nand => any_false,
        Match::All => !any_false,
        Match::Neither => !any_true,
    }
}

/// With no test at all, the policies that ask for every test hold, and
/// those that ask for some test do not.
pub proof fn law_policy_of_nothing()
    ensures
        policy_holds(Match::All, Seq::empty()),
        policy_holds(Match::Neither, Seq::empty()),
        !policy_holds(Match::Any, Seq::empty()),
        !policy_holds(Match::Nand, Seq::empty()),
{
}

/// With a single test, `All` and `Any` hold where it is true, `Neither` and
/// `Nand` where it is false.
pub proof fn law_policy_of_one(b: bool)
    ensures
        policy_holds(Match::All, seq![b]) == b,
        policy_holds(Match::Any, seq![b]) == b,
        policy_holds(Match::Neither, seq![b]) == !b,
        policy_holds(Match::Nand, seq![b]) == !b,
{
    let s = seq![b];
    assert(s[0] == b);
}

/// `Nand` is the opposite of `All`, and `Neither` the opposite of `Any`,
/// whatever the tests.
pub proof fn law_policy_opposites(values: Seq<bool>)
    ensures
        policy_holds(Match::Nand, values) == !policy_holds(Match::All, values),
        policy_holds(Match::Neither, values) == !policy_holds(Match::Any, values),
{
}

/// Where tests disagree, only the policies that ask for some test hold.
pub proof fn law_policy_of_mixed(values: Seq<bool>, i: int, j: int)
    requires
        0 <= i < values.len(),
        0 <= j < values.len(),
        values[i],
        !values[j],
    ensures
        !policy_holds(Match::All, values),
        policy_holds(Match::Any, values),
        !policy_holds(Match::Neither, values),
        policy_holds(Match::Nand, values),
{
}

// ---------------------------------------------------------------------------
// Tests
// ---------------------------------------------------------------------------

pub open spec fn date_has_year_only(date: Option<DateOrRange>) -> bool {
    match date {
        Some(d) => d.spec_has_year_only(),
        None => false,
    }
}

pub open spec fn date_has_month_or_season(date: Option<DateOrRange>) -> bool {
    match date {
        Some(d) => d.spec_has_month_or_season(),
        None => false,
    }
}

pub open spec fn date_has_day(date: Option<DateOrRange>) -> bool {
    match date {
        Some(d) => d.spec_has_day(),
        None => false,
    }
}

/// The value of one test, or `None` where the test takes no side.
pub open spec fn cond_value<C: CondChecker>(cond: Cond, checker: &C) -> Option<bool> {
    match cond {
        Cond::Variable(var) => Some(checker.spec_has_variable(var)),
        Cond::IsNumeric(var) => Some(checker.spec_is_numeric(var)),
        Cond::Disambiguate(d) => Some(d == checker.spec_is_disambiguate()),
        Cond::Type(typ) => Some(checker.spec_csl_type() == typ),
        Cond::Position(pos) => Some(checker.spec_position().spec_matches(pos)),
        Cond::Locator(typ) => Some(checker.spec_locator_type() == Some(typ)),
        Cond::HasYearOnly(dvar) => if checker.spec_features().condition_date_parts {
            Some(date_has_year_only(checker.spec_get_date(dvar)))
        } else {
            None
        },
        Cond::HasMonthOrSeason(dvar) => if checker.spec_features().condition_date_parts {
            Some(date_has_month_or_season(checker.spec_get_date(dvar)))
        } else {
            None
        },
        Cond::HasDay(dvar) => if checker.spec_features().condition_date_parts {
            Some(date_has_day(checker.spec_get_date(dvar)))
        } else {
            None
        },
        Cond::IsUncertainDate(_) => None,
    }
}

/// The values of the tests that take a side, in the order of the tests.
pub open spec fn cond_values<C: CondChecker>(conds: Seq<Cond>, checker: &C) -> Seq<bool>
    decreases conds.len(),
{
    if conds.len() == 0 {
        Seq::empty()
    } else {
        let before = cond_values(conds.drop_last(), checker);
        match cond_value(conds.last(), checker) {
            Some(b) => before.push(b),
            None => before,
        }
    }
}

/// Whether a set of tests holds.
pub open spec fn cond_set_holds<C: CondChecker>(cond_set: &CondSet, checker: &C) -> bool {
    policy_holds(cond_set.match_type, cond_values(cond_set.conds@, checker))
}

/// Whether each set of tests holds, in the order of the sets.
pub open spec fn cond_set_values<C: CondChecker>(sets: Seq<CondSet>, checker: &C) -> Seq<bool> {
    Seq::new(sets.len(), |i: int| cond_set_holds(&sets[i], checker))
}

/// Whether conditions hold: the policy of the conditions, over their sets.
pub open spec fn conditions_hold<C: CondChecker>(conditions: &Conditions, checker: &C) -> bool {
    policy_holds(conditions.0, cond_set_values(conditions.1@, checker))
}

pub open spec fn is_disambiguate_test(cond: Cond) -> bool {
    cond is Disambiguate
}

/// Whether some test of the conditions asks about disambiguation.
pub open spec fn mentions_disambiguate(conditions: &Conditions) -> bool {
    exists|i: int, j: int|
        0 <= i < conditions.1@.len() && 0 <= j < conditions.1@[i].conds@.len()
            && is_disambiguate_test(#[trigger] conditions.1@[i].conds@[j])
}

/// Whether the outcome of the conditions may still change in the pass that
/// tells cites apart by their conditions: some test asks about
/// disambiguation, and that pass is not the one under way.
pub open spec fn conditions_disambiguate<C: CondChecker>(
    conditions: &Conditions,
    checker: &C,
) -> bool {
    mentions_disambiguate(conditions) && !checker.spec_is_disambiguate()
}

fn date_test<C: CondChecker>(checker: &C, dvar: DateVariable, which: u8) -> (b: bool)
    requires
        which < 3,
    ensures
        which == 0 ==> b == date_has_year_only(checker.spec_get_date(dvar)),
        which == 1 ==> b == date_has_month_or_season(checker.spec_get_date(dvar)),
        which == 2 ==> b == date_has_day(checker.spec_get_date(dvar)),
{
    match checker.get_date(dvar) {
        Some(d) => {
            if which == 0 {
                d.has_year_only()
            } else if which == 1 {
                d.has_month_or_season()
            } else {
                d.has_day()
            }
        },
        None => false,
    }
}

/// Evaluates one test.
pub fn eval_cond<C: CondChecker>(cond: &Cond, checker: &C) -> (r: Option<bool>)
    ensures
        r == cond_value(*cond, checker),
{
    match cond {
        Cond::Variable(var) => Some(checker.has_variable(*var)),
        Cond::IsNumeric(var) => Some(checker.is_numeric(*var)),
        Cond::Disambiguate(d) => Some(*d == checker.is_disambiguate()),
        Cond::Type(typ) => Some(checker.csl_type() == *typ),
        Cond::Position(pos) => Some(checker.position().matches(*pos)),
        Cond::Locator(typ) => {
            match checker.locator_type() {
                Some(t) => Some(t == *typ),
                None => Some(false),
            }
        },
        Cond::HasYearOnly(dvar) => {
            if checker.features().condition_date_parts {
                Some(date_test(checker, *dvar, 0))
            } else {
                None
            }
        },
        Cond::HasMonthOrSeason(dvar) => {
            if checker.features().condition_date_parts {
                Some(date_test(checker, *dvar, 1))
            } else {
                None
            }
        },
        Cond::HasDay(dvar) => {
            if checker.features().condition_date_parts {
                Some(date_test(checker, *dvar, 2))
            } else {
                None
            }
        },
        Cond::IsUncertainDate(_) => None,
    }
}

/// Evaluates a set of tests: the tests that take a side, combined by the
/// policy of the set.
pub fn eval_condset<C: CondChecker>(cond_set: &CondSet, checker: &C) -> (r: bool)
    ensures
        r == cond_set_holds(cond_set, checker),
{
    let mut values: Vec<bool> = Vec::new();
    let mut i: usize = 0;
    while i < cond_set.conds.len()
        invariant
            i <= cond_set.conds@.len(),
            values@ == cond_values(cond_set.conds@.take(i as int), checker),
        decreases cond_set.conds@.len() - i,
    {
        proof {
            assert(cond_set.conds@.take(i + 1).drop_last() =~= cond_set.conds@.take(i as int));
        }
        match eval_cond(&cond_set.conds[i], checker) {
            Some(b) => {
                values.push(b);
            },
            None => {},
        }
        i = i + 1;
    }
    assert(cond_set.conds@.take(i as int) =~= cond_set.conds@);
    run_matcher(&values, cond_set.match_type)
}

fn set_mentions_disambiguate(cond_set: &CondSet) -> (r: bool)
    ensures
        r == exists|j: int|
            0 <= j < cond_set.conds@.len() && is_disambiguate_test(#[trigger] cond_set.conds@[j]),
{
    let mut j: usize = 0;
    while j < cond_set.conds.len()
        invariant
            j <= cond_set.conds@.len(),
            forall|k: int| 0 <= k < j ==> !is_disambiguate_test(#[trigger] cond_set.conds@[k]),
        decreases cond_set.conds@.len() - j,
    {
        match cond_set.conds[j] {
            Cond::Disambiguate(_) => {
                return true;
            },
            _ => {},
        }
        j = j + 1;
    }
    false
}

/// Evaluates conditions.
///
/// The first result says whether the conditions hold. The second says
/// whether that may still change in the pass that tells cites apart by
/// their conditions.
pub fn eval_conditions<C: CondChecker>(conditions: &Conditions, checker: &C) -> (r: (bool, bool))
    ensures
        r.0 == conditions_hold(conditions, checker),
        r.1 == conditions_disambiguate(conditions, checker),
{
    let mut values: Vec<bool> = Vec::new();
    let mut mentions = false;
    let mut i: usize = 0;
    while i < conditions.1.len()
        invariant
            i <= conditions.1@.len(),
            values@ == cond_set_values(conditions.1@, checker).take(i as int),
            mentions == exists|a: int, b: int|
                0 <= a < i && 0 <= b < conditions.1@[a].conds@.len() && is_disambiguate_test(
                    #[trigger] conditions.1@[a].conds@[b],
                ),
        decreases conditions.1@.len() - i,
    {
        let holds = eval_condset(&conditions.1[i], checker);
        let here = set_mentions_disambiguate(&conditions.1[i]);
        proof {
            let all = cond_set_values(conditions.1@, checker);
            assert(all.take(i + 1) =~= all.take(i as int).push(holds));
            if here {
                let b = choose|b: int|
                    0 <= b < conditions.1@[i as int].conds@.len() && is_disambiguate_test(
                        #[trigger] conditions.1@[i as int].conds@[b],
                    );
                assert(is_disambiguate_test(conditions.1@[i as int].conds@[b]));
            }
        }
        values.push(holds);
        mentions = mentions || here;
        i = i + 1;
    }
    proof {
        let all = cond_set_values(conditions.1@, checker);
        assert(all.take(i as int) =~= all);
    }
    let matched = run_matcher(&values, conditions.0);
    let disambiguate = mentions && !checker.is_disambiguate();
    (matched, disambiguate)
}


/// A test for disambiguation asks one thing only: whether the pass under
/// way is the one that tells cites apart by their conditions. Outside that
/// pass, `disambiguate="true"` is false and `disambiguate="false"` is true;
/// inside it, the other way round.
pub proof fn law_disambiguate_test<C: CondChecker>(d: bool, checker: &C)
    ensures
        cond_value(Cond::Disambiguate(d), checker) == Some(d == checker.spec_is_disambiguate()),
        cond_value(Cond::Disambiguate(true), checker) == Some(checker.spec_is_disambiguate()),
        cond_value(Cond::Disambiguate(false), checker) == Some(!checker.spec_is_disambiguate()),
{
}

/// Two contexts that answer every question of a condition alike give every
/// test the same value.
pub open spec fn answer_alike<A: CondChecker, B: CondChecker>(a: &A, b: &B) -> bool {
    &&& forall|var: AnyVariable| #[trigger] a.spec_has_variable(var) == b.spec_has_variable(var)
    &&& forall|var: AnyVariable| #[trigger] a.spec_is_numeric(var) == b.spec_is_numeric(var)
    &&& forall|dvar: DateVariable| #[trigger] a.spec_get_date(dvar) == b.spec_get_date(dvar)
    &&& a.spec_is_disambiguate() == b.spec_is_disambiguate()
    &&& a.spec_csl_type() == b.spec_csl_type()
    &&& a.spec_locator_type() == b.spec_locator_type()
    &&& a.spec_position() == b.spec_position()
    &&& a.spec_features() == b.spec_features()
}

proof fn lemma_cond_values_alike<A: CondChecker, B: CondChecker>(conds: Seq<Cond>, a: &A, b: &B)
    requires
        answer_alike(a, b),
    ensures
        cond_values(conds, a) == cond_values(conds, b),
    decreases conds.len(),
{
    if conds.len() > 0 {
        lemma_cond_values_alike(conds.drop_last(), a, b);
    }
}

/// Conditions hold in one context exactly where they hold in another that
/// answers every question alike.
pub proof fn lemma_conditions_alike<A: CondChecker, B: CondChecker>(
    conditions: &Conditions,
    a: &A,
    b: &B,
)
    requires
        answer_alike(a, b),
    ensures
        conditions_hold(conditions, a) == conditions_hold(conditions, b),
        conditions_disambiguate(conditions, a) == conditions_disambiguate(conditions, b),
{
    let sets = conditions.1@;
    assert forall|i: int| 0 <= i < sets.len() implies cond_set_holds(&sets[i], a) == cond_set_holds(
        &sets[i],
        b,
    ) by {
        lemma_cond_values_alike(sets[i].conds@, a, b);
    }
    assert(cond_set_values(sets, a) =~= cond_set_values(sets, b));
}

} // verus!
