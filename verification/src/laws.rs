//! Laws of the interpreter, stated over the reference semantics and proved
//! once and for all.
//!
//! Together with the LIFO law in `stack` and the shadowing laws in `dict`,
//! these pin down the behaviour the engine guarantees on every state: what
//! failing operations leave untouched, which operation pairs cancel, and
//! how the compile-mode gates answer.

use vstd::prelude::*;

use crate::errors::ForthError;
use crate::semantics::BUILTIN_ADD;
use crate::semantics::BUILTIN_COLON;
use crate::semantics::BUILTIN_DIV;
use crate::semantics::BUILTIN_DOT;
use crate::semantics::BUILTIN_DROP;
use crate::semantics::BUILTIN_DUP;
use crate::semantics::BUILTIN_EQUAL;
use crate::semantics::BUILTIN_GREATER;
use crate::semantics::BUILTIN_LESS;
use crate::semantics::BUILTIN_MOD;
use crate::semantics::BUILTIN_MUL;
use crate::semantics::BUILTIN_OVER;
use crate::semantics::BUILTIN_ROT;
use crate::semantics::BUILTIN_SEMICOLON;
use crate::semantics::BUILTIN_SUB;
use crate::semantics::BUILTIN_SWAP;
use crate::semantics::StateModel;
use crate::semantics::builtin_effect;
use crate::stack::STACK_SIZE;

verus! {

/// An operation that pops more values than the stack holds fails with
/// `StackUnderflow` and leaves the whole session state unchanged: the
/// two-operand operations below two values, `rot` below three, and the
/// single-operand `drop` and `.` on an empty stack.
pub proof fn lemma_underflow_preserves_state(st: StateModel, id: u8)
    requires
        (id == BUILTIN_ADD || id == BUILTIN_SUB || id == BUILTIN_MUL || id == BUILTIN_DIV || id
            == BUILTIN_MOD || id == BUILTIN_SWAP || id == BUILTIN_OVER || id == BUILTIN_EQUAL
            || id == BUILTIN_LESS || id == BUILTIN_GREATER) && st.stack.len() < 2 || id
            == BUILTIN_ROT && st.stack.len() < 3 || (id == BUILTIN_DROP || id == BUILTIN_DOT)
            && st.stack.len() == 0,
    ensures
        builtin_effect(st, id) == (st, Err::<bool, ForthError>(ForthError::StackUnderflow)),
{
}

/// `dup` on an empty stack fails with `StackEmpty` and changes nothing.
pub proof fn lemma_dup_empty_preserves_state(st: StateModel)
    requires
        st.stack.len() == 0,
    ensures
        builtin_effect(st, BUILTIN_DUP) == (st, Err::<bool, ForthError>(ForthError::StackEmpty)),
{
}

/// A push onto a full stack fails with `StackOverflow` and changes nothing;
/// `dup` and `over` hit the same ceiling.
pub proof fn lemma_overflow_preserves_state(st: StateModel, id: u8)
    requires
        id == BUILTIN_DUP || id == BUILTIN_OVER,
        2 <= st.stack.len(),
        st.stack.len() >= STACK_SIZE,
    ensures
        builtin_effect(st, id) == (st, Err::<bool, ForthError>(ForthError::StackOverflow)),
{
}

/// `dup` followed by `drop` is a no-op: the session state comes back
/// exactly, and both steps succeed.
pub proof fn lemma_dup_then_drop(st: StateModel)
    requires
        0 < st.stack.len() < STACK_SIZE,
    ensures
        builtin_effect(st, BUILTIN_DUP).1 == Ok::<bool, ForthError>(false),
        builtin_effect(builtin_effect(st, BUILTIN_DUP).0, BUILTIN_DROP) == (
            st,
            Ok::<bool, ForthError>(false),
        ),
{
    let dupped = builtin_effect(st, BUILTIN_DUP).0;
    assert(dupped.stack.drop_last() =~= st.stack);
    assert(builtin_effect(dupped, BUILTIN_DROP).0 =~~= st);
}

/// `swap` applied twice restores the original state: the top two values
/// come back to their places, and both steps succeed.
pub proof fn lemma_swap_twice(st: StateModel)
    requires
        st.stack.len() >= 2,
    ensures
        builtin_effect(st, BUILTIN_SWAP).1 == Ok::<bool, ForthError>(false),
        builtin_effect(builtin_effect(st, BUILTIN_SWAP).0, BUILTIN_SWAP) == (
            st,
            Ok::<bool, ForthError>(false),
        ),
{
    let s = st.stack;
    let n = s.len() as int;
    let swapped = builtin_effect(st, BUILTIN_SWAP).0;
    assert(swapped.stack.len() == n);
    assert(swapped.stack.drop_last().drop_last() =~= s.drop_last().drop_last());
    assert(swapped.stack[n - 1] == s[n - 2]);
    assert(swapped.stack[n - 2] == s[n - 1]);
    assert(builtin_effect(swapped, BUILTIN_SWAP).0.stack =~= s);
    assert(builtin_effect(swapped, BUILTIN_SWAP).0 =~~= st);
}

/// Division and modulo by zero always fail with `DivisionByZero` and never
/// push a quotient; by design both operands are popped before the divisor
/// is tested, so the stack still loses them.
pub proof fn lemma_division_by_zero(st: StateModel, id: u8)
    requires
        id == BUILTIN_DIV || id == BUILTIN_MOD,
        st.stack.len() >= 2,
        st.stack.last() == 0,
    ensures
        builtin_effect(st, id) == (
            StateModel { stack: st.stack.drop_last().drop_last(), ..st },
            Err::<bool, ForthError>(ForthError::DivisionByZero),
        ),
{
}

/// `:` while a definition is already open fails with `AlreadyCompiling`
/// and changes nothing.
pub proof fn lemma_colon_while_compiling(st: StateModel)
    requires
        st.compiling,
    ensures
        builtin_effect(st, BUILTIN_COLON) == (
            st,
            Err::<bool, ForthError>(ForthError::AlreadyCompiling),
        ),
{
}

/// `;` without an open definition fails with `NotCompiling` and changes
/// nothing.
pub proof fn lemma_semicolon_while_interactive(st: StateModel)
    requires
        !st.compiling,
    ensures
        builtin_effect(st, BUILTIN_SEMICOLON) == (
            st,
            Err::<bool, ForthError>(ForthError::NotCompiling),
        ),
{
}

} // verus!
