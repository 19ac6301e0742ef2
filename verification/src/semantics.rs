//! The mathematical model of the interpreter.
//!
//! A `StateModel` is everything observable about a session: the stack, the
//! dictionary, the compile-mode flags, the body-arena offsets and the bytes
//! written so far.  The spec functions here are the reference semantics —
//! one token, one line, one whole session — and every executable function of
//! the interpreter is proved to agree with them exactly.

use vstd::prelude::*;

use crate::dict::DICTIONARY_SIZE;
use crate::dict::EntryModel;
use crate::dict::MAX_WORD_NAME_LEN;
use crate::dict::lookup_spec;
use crate::errors::ForthError;
use crate::errors::error_text;
use crate::numbers::decimal;
use crate::numbers::div_value;
use crate::numbers::parse_number_spec;
use crate::numbers::rem_value;
use crate::output::aborted_text;
use crate::output::error_prefix;
use crate::output::goodbye_text;
use crate::output::ok_text;
use crate::output::prompt_text;
use crate::output::unknown_prefix;
use crate::output::words_prefix;
use crate::stack::STACK_SIZE;

verus! {

/// Capacity of the line input buffer; a line is stored null-terminated, so
/// at most one byte less is kept.
pub const INPUT_BUFFER_SIZE: usize = 1024;

/// Capacity of the token copy buffer: a token of this many bytes or more is
/// too long.
pub const WORD_BUFFER_SIZE: usize = 64;

/// Capacity of the user-word body arena.
pub const USER_WORDS_SIZE: usize = 1024;

/// Operation id of `+`.
pub const BUILTIN_ADD: u8 = 1;

/// Operation id of `-`.
pub const BUILTIN_SUB: u8 = 2;

/// Operation id of `*`.
pub const BUILTIN_MUL: u8 = 3;

/// Operation id of `/`.
pub const BUILTIN_DIV: u8 = 4;

/// Operation id of `mod`.
pub const BUILTIN_MOD: u8 = 5;

/// Operation id of `dup`.
pub const BUILTIN_DUP: u8 = 6;

/// Operation id of `drop`.
pub const BUILTIN_DROP: u8 = 7;

/// Operation id of `swap`.
pub const BUILTIN_SWAP: u8 = 8;

/// Operation id of `over`.
pub const BUILTIN_OVER: u8 = 9;

/// Operation id of `rot`.
pub const BUILTIN_ROT: u8 = 10;

/// Operation id of `.`.
pub const BUILTIN_DOT: u8 = 11;

/// Operation id of `.s`.
pub const BUILTIN_DOTS: u8 = 12;

/// Operation id of `cr`.
pub const BUILTIN_CR: u8 = 13;

/// Operation id of `bye`.
pub const BUILTIN_BYE: u8 = 14;

/// Operation id of `:`.
pub const BUILTIN_COLON: u8 = 15;

/// Operation id of `;`.
pub const BUILTIN_SEMICOLON: u8 = 16;

/// Operation id of `=`.
pub const BUILTIN_EQUAL: u8 = 17;

/// Operation id of `<`.
pub const BUILTIN_LESS: u8 = 18;

/// Operation id of `>`.
pub const BUILTIN_GREATER: u8 = 19;

/// Operation id of `words`.
pub const BUILTIN_WORDS: u8 = 20;

/// Everything observable about an interpreter session: the stack values
/// bottom first, the dictionary entries oldest first, the body-arena write
/// offset, the start of the definition in progress, the compile-mode flag,
/// and every byte written to the output channel so far.
#[verifier::ext_equal]
pub struct StateModel {
    pub stack: Seq<i32>,
    pub dict: Seq<EntryModel>,
    pub user_top: nat,
    pub def_start: nat,
    pub compiling: bool,
    pub out: Seq<u8>,
}

/// The state of a freshly created session: everything empty, interactive.
pub open spec fn initial_state() -> StateModel {
    StateModel {
        stack: Seq::empty(),
        dict: Seq::empty(),
        user_top: 0,
        def_start: 0,
        compiling: false,
        out: Seq::empty(),
    }
}

/// The bytes `.s` prints for the stack contents: each value bottom-to-top
/// in decimal, each followed by a space.
pub open spec fn stack_dump(s: Seq<i32>) -> Seq<u8>
    decreases s.len(),
{
    if s.len() == 0 {
        Seq::empty()
    } else {
        stack_dump(s.drop_last()) + decimal(s.last()) + seq![32u8]
    }
}

/// The bytes `words` prints for the dictionary: each name in insertion
/// order, each followed by a space.
pub open spec fn words_dump(dict: Seq<EntryModel>) -> Seq<u8>
    decreases dict.len(),
{
    if dict.len() == 0 {
        Seq::empty()
    } else {
        words_dump(dict.drop_last()) + dict.last().name + seq![32u8]
    }
}

/// What one builtin operation does to the session: the state after it, and
/// whether it succeeded, asked to exit, or failed.  Operations that pop two
/// values check their arity first and fail without touching the stack; the
/// division operations pop both operands and only then test the divisor, so
/// a division by zero still costs both operands.
pub open spec fn builtin_effect(st: StateModel, id: u8) -> (StateModel, Result<
    bool,
    ForthError,
>) {
    let s = st.stack;
    let n = s.len() as int;
    if id == BUILTIN_ADD || id == BUILTIN_SUB || id == BUILTIN_MUL {
        if n < 2 {
            (st, Err(ForthError::StackUnderflow))
        } else {
            let a = s[n - 2];
            let b = s[n - 1];
            let v = if id == BUILTIN_ADD {
                vstd::wrapping::i32_specs::wrapping_add(a, b)
            } else if id == BUILTIN_SUB {
                vstd::wrapping::i32_specs::wrapping_sub(a, b)
            } else {
                vstd::wrapping::i32_specs::wrapping_mul(a, b)
            };
            (StateModel { stack: s.drop_last().drop_last().push(v), ..st }, Ok(false))
        }
    } else if id == BUILTIN_DIV || id == BUILTIN_MOD {
        if n < 2 {
            (st, Err(ForthError::StackUnderflow))
        } else {
            let a = s[n - 2];
            let b = s[n - 1];
            let popped = s.drop_last().drop_last();
            if b == 0 {
                (StateModel { stack: popped, ..st }, Err(ForthError::DivisionByZero))
            } else {
                let v = if id == BUILTIN_DIV {
                    div_value(a, b)
                } else {
                    rem_value(a, b)
                };
                (StateModel { stack: popped.push(v), ..st }, Ok(false))
            }
        }
    } else if id == BUILTIN_DUP {
        if n == 0 {
            (st, Err(ForthError::StackEmpty))
        } else if n >= STACK_SIZE {
            (st, Err(ForthError::StackOverflow))
        } else {
            (StateModel { stack: s.push(s.last()), ..st }, Ok(false))
        }
    } else if id == BUILTIN_DROP {
        if n == 0 {
            (st, Err(ForthError::StackUnderflow))
        } else {
            (StateModel { stack: s.drop_last(), ..st }, Ok(false))
        }
    } else if id == BUILTIN_SWAP {
        if n < 2 {
            (st, Err(ForthError::StackUnderflow))
        } else {
            let a = s[n - 2];
            let b = s[n - 1];
            (StateModel { stack: s.drop_last().drop_last().push(b).push(a), ..st }, Ok(false))
        }
    } else if id == BUILTIN_OVER {
        if n < 2 {
            (st, Err(ForthError::StackUnderflow))
        } else if n >= STACK_SIZE {
            (st, Err(ForthError::StackOverflow))
        } else {
            let a = s[n - 2];
            let b = s[n - 1];
            (
                StateModel { stack: s.drop_last().drop_last().push(a).push(b).push(a), ..st },
                Ok(false),
            )
        }
    } else if id == BUILTIN_ROT {
        if n < 3 {
            (st, Err(ForthError::StackUnderflow))
        } else {
            let a = s[n - 3];
            let b = s[n - 2];
            let c = s[n - 1];
            (
                StateModel {
                    stack: s.drop_last().drop_last().drop_last().push(b).push(c).push(a),
                    ..st
                },
                Ok(false),
            )
        }
    } else if id == BUILTIN_DOT {
        if n == 0 {
            (st, Err(ForthError::StackUnderflow))
        } else {
            (
                StateModel {
                    stack: s.drop_last(),
                    out: st.out + decimal(s.last()) + seq![32u8],
                    ..st
                },
                Ok(false),
            )
        }
    } else if id == BUILTIN_DOTS {
        (
            StateModel {
                out: st.out + seq![60u8] + decimal(n as i32) + seq![62u8, 32u8] + stack_dump(s),
                ..st
            },
            Ok(false),
        )
    } else if id == BUILTIN_CR {
        (StateModel { out: st.out + seq![10u8], ..st }, Ok(false))
    } else if id == BUILTIN_BYE {
        (StateModel { out: st.out + goodbye_text(), ..st }, Ok(true))
    } else if id == BUILTIN_COLON {
        if st.compiling {
            (st, Err(ForthError::AlreadyCompiling))
        } else {
            (StateModel { compiling: true, def_start: st.user_top, ..st }, Ok(false))
        }
    } else if id == BUILTIN_SEMICOLON {
        if !st.compiling {
            (st, Err(ForthError::NotCompiling))
        } else {
            (StateModel { compiling: false, ..st }, Ok(false))
        }
    } else if id == BUILTIN_EQUAL || id == BUILTIN_LESS || id == BUILTIN_GREATER {
        if n < 2 {
            (st, Err(ForthError::StackUnderflow))
        } else {
            let a = s[n - 2];
            let b = s[n - 1];
            let holds = if id == BUILTIN_EQUAL {
                a == b
            } else if id == BUILTIN_LESS {
                a < b
            } else {
                a > b
            };
            let v: i32 = if holds {
                -1i32
            } else {
                0i32
            };
            (StateModel { stack: s.drop_last().drop_last().push(v), ..st }, Ok(false))
        }
    } else if id == BUILTIN_WORDS {
        (
            StateModel { out: st.out + words_prefix() + words_dump(st.dict) + seq![10u8], ..st },
            Ok(false),
        )
    } else {
        (st, Err(ForthError::UnknownBuiltin))
    }
}

/// A name longer than the fixed name storage is cut to fit.
pub open spec fn truncated_name(name: Seq<u8>) -> Seq<u8> {
    if name.len() <= MAX_WORD_NAME_LEN {
        name
    } else {
        name.take(MAX_WORD_NAME_LEN as int)
    }
}

/// What evaluating one token does: a numeric literal is pushed; a known
/// builtin dispatches; a known user word has no effect; an unknown token
/// while compiling becomes the new definition's name, and otherwise is
/// reported and fails the line.
pub open spec fn eval_word(st: StateModel, w: Seq<u8>) -> (StateModel, Result<bool, ForthError>) {
    match parse_number_spec(w) {
        Some(v) => {
            if st.stack.len() >= STACK_SIZE {
                (st, Err(ForthError::StackOverflow))
            } else {
                (StateModel { stack: st.stack.push(v), ..st }, Ok(false))
            }
        },
        None => {
            match lookup_spec(st.dict, w) {
                Some(i) => {
                    if st.dict[i].is_builtin {
                        builtin_effect(st, st.dict[i].builtin_id)
                    } else {
                        (st, Ok(false))
                    }
                },
                None => {
                    if st.compiling {
                        if st.dict.len() >= DICTIONARY_SIZE {
                            (st, Err(ForthError::DictionaryFull))
                        } else {
                            let entry = crate::dict::user_entry(
                                truncated_name(w),
                                st.def_start,
                                (st.user_top - st.def_start) as nat,
                            );
                            (StateModel { dict: st.dict.push(entry), ..st }, Ok(false))
                        }
                    } else {
                        (
                            StateModel { out: st.out + unknown_prefix() + w + seq![10u8], ..st },
                            Err(ForthError::UnknownWord),
                        )
                    }
                },
            }
        },
    }
}

/// The first position at or after `pos` that holds neither a space nor a
/// tab (or the end of the line).
pub open spec fn skip_blanks(line: Seq<u8>, pos: nat) -> nat
    decreases line.len() - pos,
{
    if pos < line.len() && (line[pos as int] == 32 || line[pos as int] == 9) {
        skip_blanks(line, pos + 1)
    } else {
        pos
    }
}

/// The end of the token starting at `pos`: the first position at or after
/// it that holds a space, a tab, a null byte, or the end of the line.
pub open spec fn token_end(line: Seq<u8>, pos: nat) -> nat
    decreases line.len() - pos,
{
    if pos < line.len() && line[pos as int] != 0 && line[pos as int] != 32 && line[pos as int]
        != 9 {
        token_end(line, pos + 1)
    } else {
        pos
    }
}

/// Bounds of `skip_blanks`: it never moves backwards nor past the end.
pub proof fn lemma_skip_blanks_bounds(line: Seq<u8>, pos: nat)
    requires
        pos <= line.len(),
    ensures
        pos <= skip_blanks(line, pos) <= line.len(),
    decreases line.len() - pos,
{
    if pos < line.len() && (line[pos as int] == 32 || line[pos as int] == 9) {
        lemma_skip_blanks_bounds(line, pos + 1);
    }
}

/// `skip_blanks` stops on the first byte that is not a blank.
pub proof fn lemma_skip_blanks_stops(line: Seq<u8>, pos: nat)
    requires
        pos <= line.len(),
    ensures
        skip_blanks(line, pos) < line.len() ==> line[skip_blanks(line, pos) as int] != 32
            && line[skip_blanks(line, pos) as int] != 9,
    decreases line.len() - pos,
{
    if pos < line.len() && (line[pos as int] == 32 || line[pos as int] == 9) {
        lemma_skip_blanks_stops(line, pos + 1);
    }
}

/// Bounds of `token_end`: it never moves backwards nor past the end.
pub proof fn lemma_token_end_bounds(line: Seq<u8>, pos: nat)
    requires
        pos <= line.len(),
    ensures
        pos <= token_end(line, pos) <= line.len(),
    decreases line.len() - pos,
{
    if pos < line.len() && line[pos as int] != 0 && line[pos as int] != 32 && line[pos as int]
        != 9 {
        lemma_token_end_bounds(line, pos + 1);
    }
}

/// What evaluating the rest of a line, from `pos` on, does: tokens are
/// taken in turn and each is evaluated; the first failure, or a request to
/// exit, ends the line at once.  A token longer than the word buffer fails
/// the line before it is evaluated.
pub open spec fn line_step(st: StateModel, line: Seq<u8>, pos: nat) -> (StateModel, Result<
    bool,
    ForthError,
>)
    decreases line.len() - pos,
    when pos <= line.len()
    via line_step_decreases
{
    let p = skip_blanks(line, pos);
    if p >= line.len() || line[p as int] == 0 {
        (st, Ok(false))
    } else {
        let e = token_end(line, p);
        if e - p >= WORD_BUFFER_SIZE {
            (st, Err(ForthError::WordTooLong))
        } else {
            let stepped = eval_word(st, line.subrange(p as int, e as int));
            if stepped.1 == Ok::<bool, ForthError>(false) {
                line_step(stepped.0, line, e)
            } else {
                stepped
            }
        }
    }
}

#[via_fn]
proof fn line_step_decreases(st: StateModel, line: Seq<u8>, pos: nat) {
    lemma_skip_blanks_bounds(line, pos);
    lemma_skip_blanks_stops(line, pos);
    let p = skip_blanks(line, pos);
    if p < line.len() && line[p as int] != 0 {
        lemma_token_end_bounds(line, p + 1);
        assert(token_end(line, p) == token_end(line, p + 1));
    }
}

/// What one read of a line yields: whether a full line was available, its
/// bytes (without the terminator), and the position of the first unread
/// input byte.
pub struct ReadOutcome {
    pub ok: bool,
    pub line: Seq<u8>,
    pub next: nat,
}

/// One step of reading a line: after `taken` bytes have been accepted,
/// either the buffer is full (the rest of the input stays unread), the
/// input is exhausted (the partial line is discarded and the session ends),
/// or a newline or carriage return ends the line and is consumed.
pub open spec fn read_line_from(input: Seq<u8>, pos: nat, taken: nat) -> ReadOutcome
    decreases INPUT_BUFFER_SIZE - taken,
    when taken < INPUT_BUFFER_SIZE
{
    let cur = pos + taken;
    if taken == (INPUT_BUFFER_SIZE - 1) as nat {
        ReadOutcome { ok: true, line: input.subrange(pos as int, cur as int), next: cur as nat }
    } else if cur >= input.len() {
        ReadOutcome { ok: false, line: Seq::empty(), next: input.len() as nat }
    } else if input[cur as int] == 10 || input[cur as int] == 13 {
        ReadOutcome {
            ok: true,
            line: input.subrange(pos as int, cur as int),
            next: (cur + 1) as nat,
        }
    } else {
        read_line_from(input, pos, taken + 1)
    }
}

/// Reading one line of input starting at `pos`.
pub open spec fn read_line_spec(input: Seq<u8>, pos: nat) -> ReadOutcome {
    read_line_from(input, pos, 0)
}

/// A successful read always makes progress and stays within the input, and
/// the line it returns fits the input buffer with its terminator.
pub proof fn lemma_read_line_props(input: Seq<u8>, pos: nat, taken: nat)
    requires
        pos + taken <= input.len(),
        taken < INPUT_BUFFER_SIZE,
    ensures
        read_line_from(input, pos, taken).ok ==> pos < read_line_from(input, pos, taken).next
            <= input.len() && read_line_from(input, pos, taken).line.len() < INPUT_BUFFER_SIZE,
    decreases INPUT_BUFFER_SIZE - taken,
{
    let cur = pos + taken;
    if taken == (INPUT_BUFFER_SIZE - 1) as nat {
    } else if cur >= input.len() {
    } else if input[cur as int] == 10 || input[cur as int] == 13 {
    } else {
        lemma_read_line_props(input, pos, taken + 1);
    }
}

/// A line as the evaluator sees it: the bytes read, null-padded to the full
/// input buffer size.
pub open spec fn padded_line(line: Seq<u8>) -> Seq<u8> {
    line + Seq::new((INPUT_BUFFER_SIZE - line.len()) as nat, |i: int| 0u8)
}

/// The bookkeeping after a line has been evaluated: a successful
/// interactive line is acknowledged with `ok`; a failure is reported, and
/// if a definition was open it is abandoned — the body arena is rewound to
/// where the definition began and the session returns to interactive mode.
pub open spec fn after_line(st: StateModel, r: Result<bool, ForthError>) -> StateModel {
    match r {
        Ok(exit) => {
            if exit {
                st
            } else if !st.compiling {
                StateModel { out: st.out + ok_text(), ..st }
            } else {
                st
            }
        },
        Err(e) => {
            let reported = StateModel { out: st.out + error_prefix() + error_text(e) + seq![10u8], ..st };
            if st.compiling {
                StateModel {
                    compiling: false,
                    user_top: st.def_start,
                    out: reported.out + aborted_text(),
                    ..st
                }
            } else {
                reported
            }
        },
    }
}

/// The rest of a session from input position `pos`, with the prompt for
/// the current state already written: lines are read and evaluated until
/// the input runs out or a line asks to exit.
pub open spec fn session_from(st: StateModel, input: Seq<u8>, pos: nat) -> StateModel
    decreases input.len() - pos,
    when pos <= input.len()
    via session_from_decreases
{
    let rl = read_line_spec(input, pos);
    if !rl.ok {
        st
    } else {
        let stepped = line_step(st, padded_line(rl.line), 0);
        if stepped.1 == Ok::<bool, ForthError>(true) {
            stepped.0
        } else {
            let st2 = after_line(stepped.0, stepped.1);
            let st3 = StateModel { out: st2.out + prompt_text(st2.compiling), ..st2 };
            session_from(st3, input, rl.next)
        }
    }
}

#[via_fn]
proof fn session_from_decreases(st: StateModel, input: Seq<u8>, pos: nat) {
    lemma_read_line_props(input, pos, 0);
}

/// A whole session on the given input: the banner and first prompt, then
/// every line until exit or end of input.
pub open spec fn session(st: StateModel, input: Seq<u8>) -> StateModel {
    let greeted = StateModel {
        out: st.out + crate::output::banner_text() + prompt_text(st.compiling),
        ..st
    };
    session_from(greeted, input, 0)
}

} // verus!
