//! The failure conditions of the interpreter.
//!
//! Every failure is recoverable at the read-eval-print level: it aborts the
//! current line only, and the diagnostic text below is what the loop prints
//! after `Error: `.

use vstd::prelude::*;

verus! {

/// Everything that can go wrong while evaluating a line.
#[derive(Clone, Copy, PartialEq, Eq, Structural, Debug)]
pub enum ForthError {
    /// A push onto a full value stack.
    StackOverflow,
    /// A pop (or an operation that pops) on too few values.
    StackUnderflow,
    /// A peek on an empty stack.
    StackEmpty,
    /// Division or modulo with a zero divisor.
    DivisionByZero,
    /// `:` while a definition is already open.
    AlreadyCompiling,
    /// `;` without an open definition.
    NotCompiling,
    /// A new definition when the dictionary is at capacity.
    DictionaryFull,
    /// A token longer than the word buffer holds.
    WordTooLong,
    /// An unresolvable token outside compile mode.
    UnknownWord,
    /// A dictionary entry with an operation id outside the dispatch table.
    UnknownBuiltin,
}

/// The diagnostic text for an error, as the loop prints it after `Error: `.
pub open spec fn error_text(e: ForthError) -> Seq<u8> {
    match e {
        // "Stack overflow"
        ForthError::StackOverflow => seq![
            83u8, 116u8, 97u8, 99u8, 107u8, 32u8, 111u8, 118u8, 101u8, 114u8, 102u8, 108u8,
            111u8, 119u8,
        ],
        // "Stack underflow"
        ForthError::StackUnderflow => seq![
            83u8, 116u8, 97u8, 99u8, 107u8, 32u8, 117u8, 110u8, 100u8, 101u8, 114u8, 102u8,
            108u8, 111u8, 119u8,
        ],
        // "Stack empty"
        ForthError::StackEmpty => seq![
            83u8, 116u8, 97u8, 99u8, 107u8, 32u8, 101u8, 109u8, 112u8, 116u8, 121u8,
        ],
        // "Division by zero"
        ForthError::DivisionByZero => seq![
            68u8, 105u8, 118u8, 105u8, 115u8, 105u8, 111u8, 110u8, 32u8, 98u8, 121u8, 32u8,
            122u8, 101u8, 114u8, 111u8,
        ],
        // "Already compiling"
        ForthError::AlreadyCompiling => seq![
            65u8, 108u8, 114u8, 101u8, 97u8, 100u8, 121u8, 32u8, 99u8, 111u8, 109u8, 112u8,
            105u8, 108u8, 105u8, 110u8, 103u8,
        ],
        // "Not compiling"
        ForthError::NotCompiling => seq![
            78u8, 111u8, 116u8, 32u8, 99u8, 111u8, 109u8, 112u8, 105u8, 108u8, 105u8, 110u8,
            103u8,
        ],
        // "Dictionary full"
        ForthError::DictionaryFull => seq![
            68u8, 105u8, 99u8, 116u8, 105u8, 111u8, 110u8, 97u8, 114u8, 121u8, 32u8, 102u8,
            117u8, 108u8, 108u8,
        ],
        // "Word too long"
        ForthError::WordTooLong => seq![
            87u8, 111u8, 114u8, 100u8, 32u8, 116u8, 111u8, 111u8, 32u8, 108u8, 111u8, 110u8,
            103u8,
        ],
        // "Unknown word"
        ForthError::UnknownWord => seq![
            85u8, 110u8, 107u8, 110u8, 111u8, 119u8, 110u8, 32u8, 119u8, 111u8, 114u8, 100u8,
        ],
        // "Unknown builtin"
        ForthError::UnknownBuiltin => seq![
            85u8, 110u8, 107u8, 110u8, 111u8, 119u8, 110u8, 32u8, 98u8, 117u8, 105u8, 108u8,
            116u8, 105u8, 110u8,
        ],
    }
}

} // verus!
