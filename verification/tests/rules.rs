use citeproc::style_rules::{
    at_most_one, attribute_bool, choose_shape, choose_step, choose_tag, conditions_from,
    attributes_allowed, element_kind, is_on_node, text_kind, Allowed, AttributeGroup,
    BlockConditions, ChooseError, ChooseShape, ChooseState, ChooseStep, ChooseTag, ConditionError,
    ConditionsFrom, Count, CslError, ElementKind, InvalidCsl, OwnConditions, TextKind,
};

fn tags(names: &[&str]) -> Vec<ChooseTag> {
    names.iter().map(|n| choose_tag(n)).collect()
}

fn fault(message: &str) -> InvalidCsl {
    InvalidCsl { message: message.to_string() }
}

#[test]
fn choose_takes_if_then_else_ifs_then_else() {
    assert_eq!(choose_shape(&tags(&["if"])), Ok(ChooseShape { else_ifs: 0, has_else: false }));
    assert_eq!(
        choose_shape(&tags(&["if", "else"])),
        Ok(ChooseShape { else_ifs: 0, has_else: true })
    );
    assert_eq!(
        choose_shape(&tags(&["if", "else-if", "else-if", "else"])),
        Ok(ChooseShape { else_ifs: 2, has_else: true })
    );
    assert_eq!(
        choose_shape(&tags(&["if", "else-if", "else-if", "else-if"])),
        Ok(ChooseShape { else_ifs: 3, has_else: false })
    );
}

#[test]
fn choose_reports_the_first_child_out_of_place() {
    assert_eq!(choose_shape(&tags(&[])), Err((0, ChooseError::NoIf)));
    assert_eq!(choose_shape(&tags(&["else-if", "if"])), Err((0, ChooseError::MustBeginWithIf)));
    assert_eq!(choose_shape(&tags(&["text"])), Err((0, ChooseError::MustBeginWithIf)));
    assert_eq!(choose_shape(&tags(&["if", "if"])), Err((1, ChooseError::OutOfOrder)));
    assert_eq!(choose_shape(&tags(&["if", "text"])), Err((1, ChooseError::Unrecognised)));
    assert_eq!(
        choose_shape(&tags(&["if", "else", "else-if"])),
        Err((2, ChooseError::OutOfOrder))
    );
    assert_eq!(choose_shape(&tags(&["if", "else", "else"])), Err((2, ChooseError::OutOfOrder)));
    assert_eq!(
        choose_shape(&tags(&["if", "else", "group", "if"])),
        Err((2, ChooseError::Unrecognised))
    );
}

#[test]
fn choose_steps_one_child_at_a_time() {
    let start = ChooseState { seen_if: false, seen_else: false };
    let after_if = ChooseState { seen_if: true, seen_else: false };
    let after_else = ChooseState { seen_if: true, seen_else: true };
    assert_eq!(choose_step(start, ChooseTag::If), Ok((after_if, ChooseStep::ReadIf)));
    assert_eq!(choose_step(after_if, ChooseTag::ElseIf), Ok((after_if, ChooseStep::ReadElseIf)));
    assert_eq!(choose_step(after_if, ChooseTag::Else), Ok((after_else, ChooseStep::ReadElse)));
    assert_eq!(choose_step(after_else, ChooseTag::Other), Err(ChooseError::Unrecognised));
    assert_eq!(choose_tag("else-if"), ChooseTag::ElseIf);
    assert_eq!(choose_tag("elseif"), ChooseTag::Other);
}

#[test]
fn conditions_come_from_the_branch_or_its_block() {
    assert_eq!(conditions_from(OwnConditions::Given, BlockConditions::Absent), ConditionsFrom::Own);
    assert_eq!(conditions_from(OwnConditions::Unconditional, BlockConditions::Absent), ConditionsFrom::OwnFault);
    assert_eq!(conditions_from(OwnConditions::Invalid, BlockConditions::Absent), ConditionsFrom::OwnFault);
    assert_eq!(conditions_from(OwnConditions::Unconditional, BlockConditions::Given), ConditionsFrom::Block);
    assert_eq!(conditions_from(OwnConditions::Unconditional, BlockConditions::Invalid), ConditionsFrom::BlockFault);
    assert_eq!(conditions_from(OwnConditions::Given, BlockConditions::Given), ConditionsFrom::Both);
    assert_eq!(conditions_from(OwnConditions::Given, BlockConditions::Invalid), ConditionsFrom::Both);
    assert_eq!(conditions_from(OwnConditions::Invalid, BlockConditions::Given), ConditionsFrom::Both);
    assert_eq!(conditions_from(OwnConditions::Invalid, BlockConditions::Invalid), ConditionsFrom::Both);
}

#[test]
fn condition_errors_give_their_faults() {
    assert_eq!(
        ConditionError::Unconditional(fault("none")).into_inner(),
        CslError(vec![fault("none")])
    );
    assert_eq!(
        ConditionError::Invalid(CslError(vec![fault("a"), fault("b")])).into_inner(),
        CslError(vec![fault("a"), fault("b")])
    );
}

#[test]
fn children_that_may_stand_once() {
    assert_eq!(at_most_one(0), Count::Missing);
    assert_eq!(at_most_one(1), Count::One(0));
    assert_eq!(at_most_one(2), Count::TooMany(1));
    assert_eq!(at_most_one(9), Count::TooMany(1));
    assert_eq!(attributes_allowed(false, 0), Allowed::Read);
    assert_eq!(attributes_allowed(false, 2), Allowed::Read);
    assert_eq!(attributes_allowed(true, 0), Allowed::Default);
    assert_eq!(attributes_allowed(true, 1), Allowed::Disallowed);
}

#[test]
fn elements_by_tag_and_text_by_attribute() {
    assert_eq!(element_kind("text"), Some(ElementKind::Text));
    assert_eq!(element_kind("label"), Some(ElementKind::Label));
    assert_eq!(element_kind("group"), Some(ElementKind::Group));
    assert_eq!(element_kind("number"), Some(ElementKind::Number));
    assert_eq!(element_kind("names"), Some(ElementKind::Names));
    assert_eq!(element_kind("choose"), Some(ElementKind::Choose));
    assert_eq!(element_kind("date"), Some(ElementKind::Date));
    assert_eq!(element_kind("layout"), None);
    assert_eq!(text_kind(true, true, true, true), Some(TextKind::Macro));
    assert_eq!(text_kind(false, true, true, true), Some(TextKind::Variable));
    assert_eq!(text_kind(false, false, true, true), Some(TextKind::Value));
    assert_eq!(text_kind(false, false, false, true), Some(TextKind::Term));
    assert_eq!(text_kind(false, false, false, false), None);
}

#[test]
fn attributes_by_group() {
    let names: Vec<String> = ["prefix", "font-style", "variable", "suffix", "display", "text-case"]
        .iter()
        .map(|s| s.to_string())
        .collect();
    assert_eq!(is_on_node(AttributeGroup::Affixes, &names), vec!["prefix", "suffix"]);
    assert_eq!(is_on_node(AttributeGroup::Formatting, &names), vec!["font-style", "display"]);
    assert_eq!(is_on_node(AttributeGroup::TextCase, &names), vec!["text-case"]);
    assert_eq!(is_on_node(AttributeGroup::RangeDelimiter, &names), Vec::<String>::new());
    assert_eq!(attribute_bool(None, true), Some(true));
    assert_eq!(attribute_bool(Some("false"), true), Some(false));
    assert_eq!(attribute_bool(Some("true"), false), Some(true));
    assert_eq!(attribute_bool(Some("yes"), false), None);
}
