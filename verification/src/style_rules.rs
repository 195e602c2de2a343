//! The rules by which the markup of a style is read into a style tree.
//!
//! What is decided while a style is read is decided here, on plain values:
//! which children a `choose` may have and in which order, where the
//! conditions of a branch come from, what a text element renders, which
//! attributes belong to which group. The reader asks these functions at
//! every step of its walk through the document.

use vstd::prelude::*;
use vstd::string::StringExecFns;
use crate::style::str_eq;

verus! {

/// One fault in the markup of a style.
#[derive(Debug, PartialEq, Eq)]
pub struct InvalidCsl {
    pub message: String,
}

/// The faults that were found in a style.
#[derive(Debug, PartialEq, Eq)]
pub struct CslError(pub Vec<InvalidCsl>);

/// Why the conditions of a branch could not be read.
#[derive(Debug, PartialEq, Eq)]
pub enum ConditionError {
    /// The branch has no conditions of its own. This is no fault where it
    /// has a block of conditions instead.
    Unconditional(InvalidCsl),
    Invalid(CslError),
}

impl ConditionError {
    /// The faults, whichever the reason.
    pub fn into_inner(self) -> (e: CslError)
        ensures
            match self {
                ConditionError::Unconditional(fault) => e.0@ == seq![fault],
                ConditionError::Invalid(faults) => e == faults,
            },
    {
        match self {
            ConditionError::Unconditional(fault) => {
                let mut faults: Vec<InvalidCsl> = Vec::new();
                faults.push(fault);
                assert(faults@ =~= seq![fault]);
                CslError(faults)
            },
            ConditionError::Invalid(faults) => faults,
        }
    }
}

// ---------------------------------------------------------------------------
// The children of a choose
// ---------------------------------------------------------------------------

/// What a child of a `choose` is, by its tag.
#[derive(Debug, Clone, Copy, PartialEq, Eq, Structural)]
pub enum ChooseTag {
    If,
    ElseIf,
    Else,
    Other,
}

pub open spec fn spec_choose_tag(tag: Seq<char>) -> ChooseTag {
    if tag == "if"@ {
        ChooseTag::If
    } else if tag == "else-if"@ {
        ChooseTag::ElseIf
    } else if tag == "else"@ {
        ChooseTag::Else
    } else {
        ChooseTag::Other
    }
}

pub fn choose_tag(tag: &str) -> (t: ChooseTag)
    ensures
        t == spec_choose_tag(tag@),
{
    if str_eq(tag, "if") {
        ChooseTag::If
    } else if str_eq(tag, "else-if") {
        ChooseTag::ElseIf
    } else if str_eq(tag, "else") {
        ChooseTag::Else
    } else {
        ChooseTag::Other
    }
}

/// How far the children of a `choose` have been read.
#[derive(Debug, Clone, Copy, PartialEq, Eq, Structural)]
pub struct ChooseState {
    pub seen_if: bool,
    pub seen_else: bool,
}

/// What a child of a `choose` is read as.
#[derive(Debug, Clone, Copy, PartialEq, Eq, Structural)]
pub enum ChooseStep {
    ReadIf,
    ReadElseIf,
    ReadElse,
}

/// What is wrong with the children of a `choose`.
#[derive(Debug, Clone, Copy, PartialEq, Eq, Structural)]
pub enum ChooseError {
    /// The first child is not an `if`.
    MustBeginWithIf,
    /// An `if`, `else-if` or `else` where none may stand any more.
    OutOfOrder,
    /// A child that is none of the three.
    Unrecognised,
    /// No child at all.
    NoIf,
}

/// The fault of a child that cannot stand where it stands.
pub open spec fn misplaced(tag: ChooseTag) -> ChooseError {
    if tag == ChooseTag::Other {
        ChooseError::Unrecognised
    } else {
        ChooseError::OutOfOrder
    }
}

/// What the next child of a `choose` is read as, and how far the children
/// have been read after it.
///
/// The first child is the `if`. After it come `else-if`s, then at most one
/// `else`, then nothing.
pub open spec fn spec_choose_step(state: ChooseState, tag: ChooseTag) -> Result<
    (ChooseState, ChooseStep),
    ChooseError,
> {
    if !state.seen_if {
        if tag == ChooseTag::If {
            Ok((ChooseState { seen_if: true, seen_else: false }, ChooseStep::ReadIf))
        } else {
            Err(ChooseError::MustBeginWithIf)
        }
    } else if !state.seen_else {
        if tag == ChooseTag::ElseIf {
            Ok((state, ChooseStep::ReadElseIf))
        } else if tag == ChooseTag::Else {
            Ok((ChooseState { seen_if: true, seen_else: true }, ChooseStep::ReadElse))
        } else {
            Err(misplaced(tag))
        }
    } else {
        Err(misplaced(tag))
    }
}

pub fn choose_step(state: ChooseState, tag: ChooseTag) -> (r: Result<
    (ChooseState, ChooseStep),
    ChooseError,
>)
    ensures
        r == spec_choose_step(state, tag),
{
    if !state.seen_if {
        match tag {
            ChooseTag::If => Ok(
                (ChooseState { seen_if: true, seen_else: false }, ChooseStep::ReadIf),
            ),
            _ => Err(ChooseError::MustBeginWithIf),
        }
    } else if !state.seen_else {
        match tag {
            ChooseTag::ElseIf => Ok((state, ChooseStep::ReadElseIf)),
            ChooseTag::Else => Ok(
                (ChooseState { seen_if: true, seen_else: true }, ChooseStep::ReadElse),
            ),
            ChooseTag::Other => Err(ChooseError::Unrecognised),
            ChooseTag::If => Err(ChooseError::OutOfOrder),
        }
    } else {
        match tag {
            ChooseTag::Other => Err(ChooseError::Unrecognised),
            _ => Err(ChooseError::OutOfOrder),
        }
    }
}

/// The shape of a `choose`: how many `else-if`s it has, and whether it has an `else`.
#[derive(Debug, Clone, Copy, PartialEq, Eq, Structural)]
pub struct ChooseShape {
    pub else_ifs: usize,
    pub has_else: bool,
}

/// Whether the children of a `choose` have the given shape: an `if`, then
/// that many `else-if`s, then an `else` if the shape has one.
pub open spec fn has_shape(tags: Seq<ChooseTag>, shape: ChooseShape) -> bool {
    &&& tags.len() == 1 + shape.else_ifs + (if shape.has_else {
        1nat
    } else {
        0nat
    })
    &&& tags[0] == ChooseTag::If
    &&& forall|i: int| 1 <= i <= shape.else_ifs ==> #[trigger] tags[i] == ChooseTag::ElseIf
    &&& shape.has_else ==> tags[tags.len() - 1] == ChooseTag::Else
}

/// The state after the children are read in order, or the place and the
/// fault of the first child that cannot stand where it stands.
pub open spec fn read_children(tags: Seq<ChooseTag>) -> Result<ChooseState, (int, ChooseError)>
    decreases tags.len(),
{
    if tags.len() == 0 {
        Ok(ChooseState { seen_if: false, seen_else: false })
    } else {
        match read_children(tags.drop_last()) {
            Err(e) => Err(e),
            Ok(state) => match spec_choose_step(state, tags.last()) {
                Ok((next, _)) => Ok(next),
                Err(e) => Err((tags.len() - 1, e)),
            },
        }
    }
}

/// What the children of a `choose` amount to: its shape, or the place and
/// the fault of the first child that is out of place; a `choose` without
/// children lacks its `if`, which is reported for the place after the last child.
pub open spec fn spec_choose_shape(tags: Seq<ChooseTag>) -> Result<ChooseShape, (int, ChooseError)> {
    match read_children(tags) {
        Err(e) => Err(e),
        Ok(state) => if state.seen_if {
            Ok(
                ChooseShape {
                    else_ifs: (tags.len() - 1 - (if state.seen_else {
                        1int
                    } else {
                        0int
                    })) as usize,
                    has_else: state.seen_else,
                },
            )
        } else {
            Err((tags.len() as int, ChooseError::NoIf))
        },
    }
}

pub fn choose_shape(tags: &Vec<ChooseTag>) -> (r: Result<ChooseShape, (usize, ChooseError)>)
    ensures
        match r {
            Ok(shape) => spec_choose_shape(tags@) == Ok::<ChooseShape, (int, ChooseError)>(shape),
            Err((at, e)) => spec_choose_shape(tags@) == Err::<ChooseShape, (int, ChooseError)>(
                (at as int, e),
            ),
        },
{
    let mut state = ChooseState { seen_if: false, seen_else: false };
    let mut i: usize = 0;
    assert(tags@.take(0) =~= Seq::<ChooseTag>::empty());
    while i < tags.len()
        invariant
            i <= tags@.len(),
            read_children(tags@.take(i as int)) == Ok::<ChooseState, (int, ChooseError)>(state),
            state.seen_else ==> state.seen_if,
            state.seen_if ==> i >= 1,
            state.seen_else ==> i >= 2,
        decreases tags@.len() - i,
    {
        proof {
            assert(tags@.take(i + 1).drop_last() =~= tags@.take(i as int));
            assert(tags@.take(i + 1).last() == tags@[i as int]);
        }
        match choose_step(state, tags[i]) {
            Ok((next, _)) => {
                state = next;
            },
            Err(e) => {
                proof {
                    lemma_read_children_stays(tags@, i + 1);
                }
                return Err((i, e));
            },
        }
        i = i + 1;
    }
    assert(tags@.take(i as int) =~= tags@);
    if state.seen_if {
        let else_ifs = if state.seen_else {
            tags.len() - 2
        } else {
            tags.len() - 1
        };
        Ok(ChooseShape { else_ifs, has_else: state.seen_else })
    } else {
        Err((tags.len(), ChooseError::NoIf))
    }
}

proof fn lemma_read_children_stays(tags: Seq<ChooseTag>, k: int)
    requires
        0 <= k <= tags.len(),
        read_children(tags.take(k)) is Err,
    ensures
        read_children(tags) == read_children(tags.take(k)),
    decreases tags.len() - k,
{
    if k < tags.len() {
        assert(tags.take(k + 1).drop_last() =~= tags.take(k));
        lemma_read_children_stays(tags, k + 1);
    } else {
        assert(tags.take(k) =~= tags);
    }
}

proof fn lemma_read_children_shape(tags: Seq<ChooseTag>)
    ensures
        match read_children(tags) {
            Ok(state) => {
                &&& state.seen_else ==> state.seen_if
                &&& !state.seen_if ==> tags.len() == 0
                &&& state.seen_if ==> tags.len() >= 1 && tags[0] == ChooseTag::If
                &&& state.seen_if && !state.seen_else ==> forall|i: int|
                    1 <= i < tags.len() ==> #[trigger] tags[i] == ChooseTag::ElseIf
                &&& state.seen_else ==> tags.len() >= 2 && tags[tags.len() - 1] == ChooseTag::Else
                    && forall|i: int|
                    1 <= i < tags.len() - 1 ==> #[trigger] tags[i] == ChooseTag::ElseIf
            },
            Err(_) => true,
        },
    decreases tags.len(),
{
    if tags.len() > 0 {
        let front = tags.drop_last();
        lemma_read_children_shape(front);
        match read_children(front) {
            Ok(state) => {
                assert forall|i: int| 0 <= i < front.len() implies front[i] == tags[i] by {}
                if state.seen_if {
                    assert(front[0] == tags[0]);
                }
            },
            Err(_) => {},
        }
    }
}

proof fn lemma_shape_is_read(tags: Seq<ChooseTag>, shape: ChooseShape, k: int)
    requires
        has_shape(tags, shape),
        1 <= k <= tags.len(),
    ensures
        read_children(tags.take(k)) == Ok::<ChooseState, (int, ChooseError)>(
            ChooseState { seen_if: true, seen_else: shape.has_else && k == tags.len() },
        ),
    decreases k,
{
    let upto = tags.take(k);
    assert(upto.drop_last() =~= tags.take(k - 1));
    assert(upto.last() == tags[k - 1]);
    if k == 1 {
        assert(read_children(tags.take(0)) == Ok::<ChooseState, (int, ChooseError)>(
            ChooseState { seen_if: false, seen_else: false },
        ));
    } else {
        lemma_shape_is_read(tags, shape, k - 1);
        if k - 1 <= shape.else_ifs {
            assert(tags[k - 1] == ChooseTag::ElseIf);
        }
    }
}

/// The children of a `choose` are accepted exactly where they are an `if`,
/// then any number of `else-if`s, then at most one `else`; and the shape
/// that is read is that shape.
pub proof fn law_choose_children(tags: Seq<ChooseTag>, shape: ChooseShape)
    requires
        tags.len() <= usize::MAX,
    ensures
        spec_choose_shape(tags) == Ok::<ChooseShape, (int, ChooseError)>(shape) <==> has_shape(
            tags,
            shape,
        ),
{
    lemma_read_children_shape(tags);
    if has_shape(tags, shape) {
        lemma_shape_is_read(tags, shape, tags.len() as int);
        assert(tags.take(tags.len() as int) =~= tags);
        assert(spec_choose_shape(tags) == Ok::<ChooseShape, (int, ChooseError)>(shape));
    }
    if spec_choose_shape(tags) == Ok::<ChooseShape, (int, ChooseError)>(shape) {
        let state = read_children(tags)->Ok_0;
        assert(state.seen_if);
        assert(shape.has_else == state.seen_else);
        if state.seen_else {
            assert(shape.else_ifs == tags.len() - 2);
            assert forall|i: int| 1 <= i <= shape.else_ifs implies #[trigger] tags[i]
                == ChooseTag::ElseIf by {}
        } else {
            assert(shape.else_ifs == tags.len() - 1);
            assert forall|i: int| 1 <= i <= shape.else_ifs implies #[trigger] tags[i]
                == ChooseTag::ElseIf by {}
        }
        assert(has_shape(tags, shape));
    }
}

// ---------------------------------------------------------------------------
// The conditions of a branch
// ---------------------------------------------------------------------------

/// How reading the conditions that a branch carries itself came out.
#[derive(Debug, Clone, Copy, PartialEq, Eq, Structural)]
pub enum OwnConditions {
    Given,
    /// The branch carries none.
    Unconditional,
    /// The branch carries conditions that are at fault.
    Invalid,
}

/// How reading the block of conditions inside a branch came out.
#[derive(Debug, Clone, Copy, PartialEq, Eq, Structural)]
pub enum BlockConditions {
    Absent,
    Given,
    Invalid,
}

/// Where the conditions of a branch come from.
#[derive(Debug, Clone, Copy, PartialEq, Eq, Structural)]
pub enum ConditionsFrom {
    /// From the branch itself.
    Own,
    /// From nowhere: the fault of the branch's own conditions stands.
    OwnFault,
    /// From the block inside the branch.
    Block,
    /// From nowhere: the fault of the block stands.
    BlockFault,
    /// From nowhere: a branch has either its own conditions or a block, not both.
    Both,
}

/// A branch takes its own conditions where it has no block, and the block
/// where it has no conditions of its own. Conditions of its own, at fault
/// or not, beside a block, at fault or not, are a fault of their own.
pub open spec fn spec_conditions_from(own: OwnConditions, block: BlockConditions) -> ConditionsFrom {
    match (own, block) {
        (OwnConditions::Given, BlockConditions::Absent) => ConditionsFrom::Own,
        (OwnConditions::Unconditional, BlockConditions::Absent) => ConditionsFrom::OwnFault,
        (OwnConditions::Invalid, BlockConditions::Absent) => ConditionsFrom::OwnFault,
        (OwnConditions::Unconditional, BlockConditions::Invalid) => ConditionsFrom::BlockFault,
        (OwnConditions::Unconditional, BlockConditions::Given) => ConditionsFrom::Block,
        _ => ConditionsFrom::Both,
    }
}

pub fn conditions_from(own: OwnConditions, block: BlockConditions) -> (r: ConditionsFrom)
    ensures
        r == spec_conditions_from(own, block),
{
    match (own, block) {
        (OwnConditions::Given, BlockConditions::Absent) => ConditionsFrom::Own,
        (OwnConditions::Unconditional, BlockConditions::Absent) => ConditionsFrom::OwnFault,
        (OwnConditions::Invalid, BlockConditions::Absent) => ConditionsFrom::OwnFault,
        (OwnConditions::Unconditional, BlockConditions::Invalid) => ConditionsFrom::BlockFault,
        (OwnConditions::Unconditional, BlockConditions::Given) => ConditionsFrom::Block,
        (OwnConditions::Invalid, BlockConditions::Given) => ConditionsFrom::Both,
        (OwnConditions::Invalid, BlockConditions::Invalid) => ConditionsFrom::Both,
        (OwnConditions::Given, BlockConditions::Given) => ConditionsFrom::Both,
        (OwnConditions::Given, BlockConditions::Invalid) => ConditionsFrom::Both,
    }
}

// ---------------------------------------------------------------------------
// Children that may stand once
// ---------------------------------------------------------------------------

/// How many children of a kind there may be.
#[derive(Debug, Clone, Copy, PartialEq, Eq, Structural)]
pub enum Count {
    /// None was found.
    Missing,
    /// The one at this place among those found.
    One(usize),
    /// The one at this place among those found is one too many.
    TooMany(usize),
}

/// Of children of which at most one may stand: none, the first, or the
/// second as the one too many.
pub fn at_most_one(found: usize) -> (c: Count)
    ensures
        c == (if found == 0 {
            Count::Missing
        } else if found == 1 {
            Count::One(0)
        } else {
            Count::TooMany(1)
        }),
{
    if found == 0 {
        Count::Missing
    } else if found == 1 {
        Count::One(0)
    } else {
        Count::TooMany(1)
    }
}

/// What is read where an attribute may be forbidden.
#[derive(Debug, Clone, Copy, PartialEq, Eq, Structural)]
pub enum Allowed {
    /// The attributes are read.
    Read,
    /// The attributes are forbidden and absent: the default stands.
    Default,
    /// The attributes are forbidden and present.
    Disallowed,
}

/// Whether attributes that may be forbidden are read, by how many of
/// them are present.
pub fn attributes_allowed(disallow: bool, present: usize) -> (a: Allowed)
    ensures
        a == (if !disallow {
            Allowed::Read
        } else if present == 0 {
            Allowed::Default
        } else {
            Allowed::Disallowed
        }),
{
    if disallow {
        if present > 0 {
            Allowed::Disallowed
        } else {
            Allowed::Default
        }
    } else {
        Allowed::Read
    }
}

// ---------------------------------------------------------------------------
// Elements and attributes
// ---------------------------------------------------------------------------

/// What an element of a layout is, by its tag.
#[derive(Debug, Clone, Copy, PartialEq, Eq, Structural)]
pub enum ElementKind {
    Text,
    Label,
    Group,
    Number,
    Names,
    Choose,
    Date,
}

pub open spec fn spec_element_kind(tag: Seq<char>) -> Option<ElementKind> {
    if tag == "text"@ {
        Some(ElementKind::Text)
    } else if tag == "label"@ {
        Some(ElementKind::Label)
    } else if tag == "group"@ {
        Some(ElementKind::Group)
    } else if tag == "number"@ {
        Some(ElementKind::Number)
    } else if tag == "names"@ {
        Some(ElementKind::Names)
    } else if tag == "choose"@ {
        Some(ElementKind::Choose)
    } else if tag == "date"@ {
        Some(ElementKind::Date)
    } else {
        None
    }
}

/// The kind of element that a tag stands for; `None` for a tag that stands for none.
pub fn element_kind(tag: &str) -> (k: Option<ElementKind>)
    ensures
        k == spec_element_kind(tag@),
{
    if str_eq(tag, "text") {
        Some(ElementKind::Text)
    } else if str_eq(tag, "label") {
        Some(ElementKind::Label)
    } else if str_eq(tag, "group") {
        Some(ElementKind::Group)
    } else if str_eq(tag, "number") {
        Some(ElementKind::Number)
    } else if str_eq(tag, "names") {
        Some(ElementKind::Names)
    } else if str_eq(tag, "choose") {
        Some(ElementKind::Choose)
    } else if str_eq(tag, "date") {
        Some(ElementKind::Date)
    } else {
        None
    }
}

/// Where the text of a text element comes from.
#[derive(Debug, Clone, Copy, PartialEq, Eq, Structural)]
pub enum TextKind {
    Macro,
    Variable,
    Value,
    Term,
}

/// A text element renders a macro if it names one, else a variable, else a
/// value, else a term; one that names none of them is at fault.
pub fn text_kind(has_macro: bool, has_variable: bool, has_value: bool, has_term: bool) -> (k:
    Option<TextKind>)
    ensures
        k == (if has_macro {
            Some(TextKind::Macro)
        } else if has_variable {
            Some(TextKind::Variable)
        } else if has_value {
            Some(TextKind::Value)
        } else if has_term {
            Some(TextKind::Term)
        } else {
            None
        }),
{
    if has_macro {
        Some(TextKind::Macro)
    } else if has_variable {
        Some(TextKind::Variable)
    } else if has_value {
        Some(TextKind::Value)
    } else if has_term {
        Some(TextKind::Term)
    } else {
        None
    }
}

/// The groups of attributes that elements share.
#[derive(Debug, Clone, Copy, PartialEq, Eq, Structural)]
pub enum AttributeGroup {
    Formatting,
    Affixes,
    RangeDelimiter,
    TextCase,
}

/// Whether an attribute of the given name belongs to the group.
pub open spec fn in_group(group: AttributeGroup, name: Seq<char>) -> bool {
    match group {
        AttributeGroup::Formatting => name == "font-style"@ || name == "font-variant"@ || name
            == "font-weight"@ || name == "text-decoration"@ || name == "vertical-alignment"@
            || name == "display"@ || name == "strip-periods"@,
        AttributeGroup::Affixes => name == "prefix"@ || name == "suffix"@,
        AttributeGroup::RangeDelimiter => name == "range-delimiter"@,
        AttributeGroup::TextCase => name == "text-case"@,
    }
}

fn is_in_group(group: AttributeGroup, name: &str) -> (b: bool)
    ensures
        b == in_group(group, name@),
{
    match group {
        AttributeGroup::Formatting => str_eq(name, "font-style") || str_eq(name, "font-variant")
            || str_eq(name, "font-weight") || str_eq(name, "text-decoration") || str_eq(
            name,
            "vertical-alignment",
        ) || str_eq(name, "display") || str_eq(name, "strip-periods"),
        AttributeGroup::Affixes => str_eq(name, "prefix") || str_eq(name, "suffix"),
        AttributeGroup::RangeDelimiter => str_eq(name, "range-delimiter"),
        AttributeGroup::TextCase => str_eq(name, "text-case"),
    }
}

/// The names that belong to the group, in order.
pub open spec fn names_in_group(group: AttributeGroup, names: Seq<Seq<char>>) -> Seq<Seq<char>>
    decreases names.len(),
{
    if names.len() == 0 {
        Seq::empty()
    } else {
        let before = names_in_group(group, names.drop_last());
        if in_group(group, names.last()) {
            before.push(names.last())
        } else {
            before
        }
    }
}

pub open spec fn name_views(names: Seq<String>) -> Seq<Seq<char>> {
    Seq::new(names.len(), |i: int| names[i]@)
}

/// The attributes of a node that belong to a group, by name, in the order
/// in which the node has them.
pub fn is_on_node(group: AttributeGroup, names: &Vec<String>) -> (found: Vec<String>)
    ensures
        name_views(found@) == names_in_group(group, name_views(names@)),
{
    let ghost all = name_views(names@);
    let mut found: Vec<String> = Vec::new();
    let mut i: usize = 0;
    proof {
        assert(all.take(0) =~= Seq::<Seq<char>>::empty());
        assert(name_views(found@) =~= Seq::<Seq<char>>::empty());
    }
    while i < names.len()
        invariant
            i <= names@.len(),
            all == name_views(names@),
            name_views(found@) == names_in_group(group, all.take(i as int)),
        decreases names@.len() - i,
    {
        proof {
            assert(all.take(i + 1).drop_last() =~= all.take(i as int));
            assert(all.take(i + 1).last() == names@[i as int]@);
        }
        if is_in_group(group, names[i].as_str()) {
            let ghost before = name_views(found@);
            found.push(names[i].clone());
            assert(name_views(found@) =~= before.push(names@[i as int]@));
        }
        i = i + 1;
    }
    assert(all.take(i as int) =~= all);
    found
}

/// The value of a yes-or-no attribute: `true` or `false` as written, the
/// default where the attribute is absent, a fault for anything else.
pub open spec fn spec_attribute_bool(value: Option<Seq<char>>, default: bool) -> Option<bool> {
    match value {
        None => Some(default),
        Some(v) => if v == "true"@ {
            Some(true)
        } else if v == "false"@ {
            Some(false)
        } else {
            None
        },
    }
}

pub fn attribute_bool(value: Option<&str>, default: bool) -> (r: Option<bool>)
    ensures
        r == spec_attribute_bool(
            match value {
                Some(v) => Some(v@),
                None => None,
            },
            default,
        ),
{
    match value {
        None => Some(default),
        Some(v) => {
            if str_eq(v, "true") {
                Some(true)
            } else if str_eq(v, "false") {
                Some(false)
            } else {
                None
            }
        },
    }
}

} // verus!
