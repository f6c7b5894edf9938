use vstd::prelude::*;
use crate::error::{MewError, MewResult};

verus! {

/// How a statement finished: normally, with its value, or by a `return`,
/// `clawt` (break) or `meownext` (continue) signal on its way to the
/// construct that handles it. Signals are not errors.
pub enum Completion<V> {
    Normal(V),
    Return(V),
    Break,
    Continue,
}

/// What a loop does once its body has finished.
pub enum LoopStep<V> {
    /// Test the condition again; `Some` carries the body's value.
    Again(Option<V>),
    /// Leave the loop (a break).
    Stop,
    /// Leave the loop and hand a `return` on to the enclosing call.
    Leave(V),
}

/// A loop handles break and continue; a return passes through it.
pub fn after_loop_body<V>(c: Completion<V>) -> (r: LoopStep<V>)
    ensures
        c matches Completion::Normal(v) ==> r == LoopStep::Again(Some(v)),
        c is Continue ==> r == LoopStep::<V>::Again(None),
        c is Break ==> r is Stop,
        c matches Completion::Return(v) ==> r == LoopStep::Leave(v),
{
    match c {
        Completion::Normal(v) => LoopStep::Again(Some(v)),
        Completion::Continue => LoopStep::Again(None),
        Completion::Break => LoopStep::Stop,
        Completion::Return(v) => LoopStep::Leave(v),
    }
}

/// A call ends a `return` and gives its value, or the value of the body's
/// last statement; a break or continue that reaches the call is a Runtime
/// error.
pub fn at_call_boundary<V>(c: Completion<V>) -> (r: MewResult<V>)
    ensures
        c matches Completion::Normal(v) ==> r == Ok::<V, MewError>(v),
        c matches Completion::Return(v) ==> r == Ok::<V, MewError>(v),
        (c is Break || c is Continue) ==> (r matches Err(e) && e.spec_kind() is Runtime),
{
    match c {
        Completion::Normal(v) => Ok(v),
        Completion::Return(v) => Ok(v),
        Completion::Break => Err(MewError::runtime(String::from_str("'clawt' outside of a loop."))),
        Completion::Continue => Err(MewError::runtime(String::from_str("'meownext' outside of a loop."))),
    }
}

/// At the top of a program every signal has left its legal boundary: a
/// return outside a function and a break or continue outside a loop are
/// Runtime errors.
pub fn at_top_level<V>(c: Completion<V>) -> (r: MewResult<V>)
    ensures
        c matches Completion::Normal(v) ==> r == Ok::<V, MewError>(v),
        !(c is Normal) ==> (r matches Err(e) && e.spec_kind() is Runtime),
{
    match c {
        Completion::Normal(v) => Ok(v),
        Completion::Return(_) => Err(MewError::runtime(String::from_str("'return' outside of a function."))),
        Completion::Break => Err(MewError::runtime(String::from_str("'clawt' outside of a loop."))),
        Completion::Continue => Err(MewError::runtime(String::from_str("'meownext' outside of a loop."))),
    }
}

/// Clause `i` is a case clause whose value equalled the subject.
pub open spec fn hit(is_default: Seq<bool>, matched: Seq<bool>, i: int) -> bool {
    !is_default[i] && matched[i]
}

/// The clause that a switch runs, given which clauses are default clauses
/// and which case values equalled the subject: the first case that matched;
/// else the default clause, the last one if there are several; else none.
pub open spec fn chosen_clause(is_default: Seq<bool>, matched: Seq<bool>) -> Option<int> {
    if exists|i: int| 0 <= i < is_default.len() && hit(is_default, matched, i) {
        Some(choose|i: int| 0 <= i < is_default.len() && hit(is_default, matched, i)
            && forall|j: int| 0 <= j < i ==> !hit(is_default, matched, j))
    } else if exists|i: int| 0 <= i < is_default.len() && is_default[i] {
        Some(choose|i: int| 0 <= i < is_default.len() && is_default[i]
            && forall|j: int| i < j < is_default.len() ==> !is_default[j])
    } else {
        None
    }
}

/// Clause `r` (or none) is the first case that matched; or, where no case
/// matched, the last default clause; or, where there is neither, none.
pub open spec fn selects(is_default: Seq<bool>, matched: Seq<bool>, r: Option<usize>) -> bool {
    match r {
        Some(i) => {
            &&& i < is_default.len()
            &&& !is_default[i as int] ==> {
                &&& matched[i as int]
                &&& forall|j: int| 0 <= j < i ==> !hit(is_default, matched, j)
            }
            &&& is_default[i as int] ==> {
                &&& forall|j: int| 0 <= j < is_default.len() ==> !hit(is_default, matched, j)
                &&& forall|j: int| i < j < is_default.len() ==> !is_default[j]
            }
        },
        None => forall|j: int| 0 <= j < is_default.len() ==> !hit(is_default, matched, j) && !is_default[j],
    }
}

/// Picks the clause a switch runs: exactly one clause, or none, and never
/// the clauses after it (no fall-through). Case values may be compared
/// lazily: entries after the first match are not read.
pub fn select_clause(is_default: &Vec<bool>, matched: &Vec<bool>) -> (r: Option<usize>)
    requires
        is_default@.len() == matched@.len(),
    ensures
        selects(is_default@, matched@, r),
        chosen_clause(is_default@, matched@) == match r {
            Some(i) => Some(i as int),
            None => None::<int>,
        },
{
    let n = is_default.len();
    let mut default: Option<usize> = None;
    let mut i: usize = 0;
    while i < n
        invariant
            n == is_default@.len() == matched@.len(),
            i <= n,
            forall|j: int| 0 <= j < i ==> !hit(is_default@, matched@, j),
            default matches Some(d) ==> d < i && is_default@[d as int]
                && forall|j: int| d < j < i ==> !is_default@[j],
            default is None ==> forall|j: int| 0 <= j < i ==> !is_default@[j],
        decreases n - i,
    {
        if is_default[i] {
            default = Some(i);
        } else if matched[i] {
            proof {
                lemma_selected_is_chosen(is_default@, matched@, Some(i));
            }
            return Some(i);
        }
        i += 1;
    }
    proof {
        lemma_selected_is_chosen(is_default@, matched@, default);
    }
    default
}

/// A clause picked as `select_clause` picks it is the one the switch rule names.
proof fn lemma_selected_is_chosen(is_default: Seq<bool>, matched: Seq<bool>, r: Option<usize>)
    requires
        is_default.len() == matched.len(),
        selects(is_default, matched, r),
    ensures
        chosen_clause(is_default, matched) == match r {
            Some(i) => Some(i as int),
            None => None::<int>,
        },
{
    match r {
        Some(i) => {
            if !is_default[i as int] {
                assert(hit(is_default, matched, i as int));
                let c = choose|k: int| 0 <= k < is_default.len() && hit(is_default, matched, k)
                    && forall|j: int| 0 <= j < k ==> !hit(is_default, matched, j);
                assert(c == i) by {
                    if c < i {
                        assert(!hit(is_default, matched, c));
                    }
                    if c > i {
                        assert(!hit(is_default, matched, i as int));
                    }
                }
            } else {
                let c = choose|k: int| 0 <= k < is_default.len() && is_default[k]
                    && forall|j: int| k < j < is_default.len() ==> !is_default[j];
                assert(c == i) by {
                    if c < i {
                        assert(!is_default[i as int]);
                    }
                    if c > i {
                        assert(!is_default[c]);
                    }
                }
            }
        },
        None => {},
    }
}

/// Whether a call to a function of the program may go ahead.
#[derive(Debug, Clone, Copy, PartialEq, Eq, Structural)]
pub enum CallCheck {
    Proceed,
    /// The number of arguments differs from the number of parameters.
    WrongArity,
    /// Calls already nest `limit` deep.
    TooDeep,
}

/// A function takes exactly as many arguments as it has parameters (no
/// optional or variadic parameters), and calls nest at most `limit` deep.
pub fn check_call(params: usize, args: usize, depth: usize, limit: usize) -> (r: CallCheck)
    ensures
        r == (if params != args {
            CallCheck::WrongArity
        } else if depth >= limit {
            CallCheck::TooDeep
        } else {
            CallCheck::Proceed
        }),
{
    if params != args {
        CallCheck::WrongArity
    } else if depth >= limit {
        CallCheck::TooDeep
    } else {
        CallCheck::Proceed
    }
}

} // verus!
