use mew::flow::{
    after_loop_body, at_call_boundary, at_top_level, check_call, select_clause, CallCheck, Completion,
    LoopStep,
};
use mew::ErrorKind;

#[test]
fn first_matching_case_runs_alone() {
    // clauses: case, default, case, case
    let is_default = vec![false, true, false, false];
    assert_eq!(select_clause(&is_default, &vec![false, false, true, true]), Some(2));
    assert_eq!(select_clause(&is_default, &vec![true, false, true, false]), Some(0));
}

#[test]
fn default_runs_only_without_a_match() {
    let is_default = vec![false, true, false];
    assert_eq!(select_clause(&is_default, &vec![false, false, false]), Some(1));
    assert_eq!(select_clause(&vec![false, false], &vec![false, false]), None);
    assert_eq!(select_clause(&vec![], &vec![]), None);
}

#[test]
fn last_default_clause_wins() {
    assert_eq!(select_clause(&vec![true, false, true], &vec![false, false, false]), Some(2));
}

#[test]
fn loops_handle_break_and_continue_but_not_return() {
    assert!(matches!(after_loop_body(Completion::Normal(4)), LoopStep::Again(Some(4))));
    assert!(matches!(after_loop_body(Completion::<i32>::Continue), LoopStep::Again(None)));
    assert!(matches!(after_loop_body(Completion::<i32>::Break), LoopStep::Stop));
    assert!(matches!(after_loop_body(Completion::Return(9)), LoopStep::Leave(9)));
}

#[test]
fn calls_end_returns_and_refuse_stray_breaks() {
    assert_eq!(at_call_boundary(Completion::Return(5)).unwrap(), 5);
    assert_eq!(at_call_boundary(Completion::Normal(6)).unwrap(), 6);
    assert_eq!(at_call_boundary(Completion::<i32>::Break).unwrap_err().kind(), ErrorKind::Runtime);
    assert_eq!(at_call_boundary(Completion::<i32>::Continue).unwrap_err().kind(), ErrorKind::Runtime);
}

#[test]
fn top_level_refuses_every_signal() {
    assert_eq!(at_top_level(Completion::Normal(1)).unwrap(), 1);
    assert_eq!(at_top_level(Completion::Return(1)).unwrap_err().kind(), ErrorKind::Runtime);
    assert_eq!(at_top_level(Completion::<i32>::Break).unwrap_err().kind(), ErrorKind::Runtime);
    assert_eq!(at_top_level(Completion::<i32>::Continue).unwrap_err().kind(), ErrorKind::Runtime);
}

#[test]
fn calls_need_exact_arity_and_bounded_depth() {

    assert_eq!(check_call(2, 2, 0, 10), CallCheck::Proceed);
    assert_eq!(check_call(2, 3, 0, 10), CallCheck::WrongArity);
    assert_eq!(check_call(0, 1, 0, 10), CallCheck::WrongArity);
    assert_eq!(check_call(1, 1, 10, 10), CallCheck::TooDeep);
    assert_eq!(check_call(1, 1, 9, 10), CallCheck::Proceed);
}
