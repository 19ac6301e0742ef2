//! The bytes the interpreter writes: prompts, acknowledgements and
//! diagnostics.
//!
//! The interpreter never writes to a channel itself; it appends bytes to an
//! output buffer whose contents these functions and spec functions pin down
//! exactly, and the caller forwards the buffer to the platform.

use vstd::prelude::*;

use crate::errors::ForthError;
use crate::errors::error_text;

verus! {

/// The banner's title line.
pub open spec fn banner_line_title() -> Seq<u8> {
    seq![
        97u8, 102u8, 100u8, 58u8, 32u8, 65u8, 108u8, 105u8, 101u8, 110u8, 32u8, 70u8, 111u8,
        114u8, 116u8, 104u8, 32u8, 68u8, 105u8, 97u8, 108u8, 101u8, 99u8, 116u8, 32u8, 118u8,
        48u8, 46u8, 52u8, 10u8,
    ]
}

/// The banner's usage line.
pub open spec fn banner_line_help() -> Seq<u8> {
    seq![
        84u8, 121u8, 112u8, 101u8, 32u8, 39u8, 98u8, 121u8, 101u8, 39u8, 32u8, 116u8, 111u8,
        32u8, 101u8, 120u8, 105u8, 116u8, 44u8, 32u8, 39u8, 46u8, 115u8, 39u8, 32u8, 116u8,
        111u8, 32u8, 115u8, 104u8, 111u8, 119u8, 32u8, 115u8, 116u8, 97u8, 99u8, 107u8, 44u8,
        32u8, 39u8, 119u8, 111u8, 114u8, 100u8, 115u8, 39u8, 32u8, 116u8, 111u8, 32u8, 108u8,
        105u8, 115u8, 116u8, 32u8, 119u8, 111u8, 114u8, 100u8, 115u8, 10u8,
    ]
}

/// The first half of the banner's word list.
pub open spec fn banner_line_words_a() -> Seq<u8> {
    seq![
        65u8, 118u8, 97u8, 105u8, 108u8, 97u8, 98u8, 108u8, 101u8, 58u8, 32u8, 43u8, 32u8,
        45u8, 32u8, 42u8, 32u8, 47u8, 32u8, 109u8, 111u8, 100u8, 32u8, 100u8, 117u8, 112u8,
        32u8, 100u8, 114u8, 111u8, 112u8, 32u8, 115u8, 119u8, 97u8, 112u8, 32u8, 111u8, 118u8,
        101u8, 114u8, 32u8, 114u8, 111u8, 116u8, 32u8, 46u8, 32u8, 46u8, 115u8, 32u8, 99u8,
        114u8, 32u8, 98u8, 121u8, 101u8, 10u8,
    ]
}

/// The second half of the banner's word list.
pub open spec fn banner_line_words_b() -> Seq<u8> {
    seq![
        32u8, 32u8, 32u8, 32u8, 32u8, 32u8, 32u8, 32u8, 32u8, 32u8, 32u8, 61u8, 32u8, 60u8,
        32u8, 62u8, 32u8, 119u8, 111u8, 114u8, 100u8, 115u8, 32u8, 58u8, 32u8, 59u8, 10u8,
        10u8,
    ]
}

/// The greeting the session prints once, before the first prompt: the
/// interpreter's name and the words it understands.
pub open spec fn banner_text() -> Seq<u8> {
    banner_line_title() + banner_line_help() + banner_line_words_a() + banner_line_words_b()
}


/// The prompt shown while a definition is open: `: `.
pub open spec fn prompt_compiling() -> Seq<u8> {
    seq![
        58u8, 32u8,
    ]
}

/// The interactive prompt: `ok> `.
pub open spec fn prompt_interactive() -> Seq<u8> {
    seq![
        111u8, 107u8, 62u8, 32u8,
    ]
}

/// The prompt for the given mode.
pub open spec fn prompt_text(compiling: bool) -> Seq<u8> {
    if compiling {
        prompt_compiling()
    } else {
        prompt_interactive()
    }
}

/// The acknowledgement printed after an interactive line succeeds: `ok`.
pub open spec fn ok_text() -> Seq<u8> {
    seq![
        111u8, 107u8, 10u8,
    ]
}

/// The farewell `bye` prints: `Goodbye!`.
pub open spec fn goodbye_text() -> Seq<u8> {
    seq![
        71u8, 111u8, 111u8, 100u8, 98u8, 121u8, 101u8, 33u8, 10u8,
    ]
}

/// What precedes a diagnostic: `Error: `.
pub open spec fn error_prefix() -> Seq<u8> {
    seq![
        69u8, 114u8, 114u8, 111u8, 114u8, 58u8, 32u8,
    ]
}

/// Printed when an error interrupts an open definition.
pub open spec fn aborted_text() -> Seq<u8> {
    seq![
        67u8, 111u8, 109u8, 112u8, 105u8, 108u8, 97u8, 116u8, 105u8, 111u8, 110u8, 32u8, 97u8,
        98u8, 111u8, 114u8, 116u8, 101u8, 100u8, 10u8,
    ]
}

/// What precedes the echo of an unresolvable token: `Unknown word: `.
pub open spec fn unknown_prefix() -> Seq<u8> {
    seq![
        85u8, 110u8, 107u8, 110u8, 111u8, 119u8, 110u8, 32u8, 119u8, 111u8, 114u8, 100u8, 58u8,
        32u8,
    ]
}

/// What precedes the dictionary listing: `Words: `.
pub open spec fn words_prefix() -> Seq<u8> {
    seq![
        87u8, 111u8, 114u8, 100u8, 115u8, 58u8, 32u8,
    ]
}

fn emit_line_title(out: &mut Vec<u8>)
    ensures
        final(out)@ == old(out)@ + banner_line_title(),
{
    out.push(97);
    out.push(102);
    out.push(100);
    out.push(58);
    out.push(32);
    out.push(65);
    out.push(108);
    out.push(105);
    out.push(101);
    out.push(110);
    out.push(32);
    out.push(70);
    out.push(111);
    out.push(114);
    out.push(116);
    out.push(104);
    out.push(32);
    out.push(68);
    out.push(105);
    out.push(97);
    out.push(108);
    out.push(101);
    out.push(99);
    out.push(116);
    out.push(32);
    out.push(118);
    out.push(48);
    out.push(46);
    out.push(52);
    out.push(10);
    proof {
        assert(out@ =~= old(out)@ + banner_line_title());
    }
}

#[verifier::rlimit(100)]
fn emit_line_help(out: &mut Vec<u8>)
    ensures
        final(out)@ == old(out)@ + banner_line_help(),
{
    out.push(84);
    out.push(121);
    out.push(112);
    out.push(101);
    out.push(32);
    out.push(39);
    out.push(98);
    out.push(121);
    out.push(101);
    out.push(39);
    out.push(32);
    out.push(116);
    out.push(111);
    out.push(32);
    out.push(101);
    out.push(120);
    out.push(105);
    out.push(116);
    out.push(44);
    out.push(32);
    out.push(39);
    out.push(46);
    out.push(115);
    out.push(39);
    out.push(32);
    out.push(116);
    out.push(111);
    out.push(32);
    out.push(115);
    out.push(104);
    out.push(111);
    out.push(119);
    out.push(32);
    out.push(115);
    out.push(116);
    out.push(97);
    out.push(99);
    out.push(107);
    out.push(44);
    out.push(32);
    out.push(39);
    out.push(119);
    out.push(111);
    out.push(114);
    out.push(100);
    out.push(115);
    out.push(39);
    out.push(32);
    out.push(116);
    out.push(111);
    out.push(32);
    out.push(108);
    out.push(105);
    out.push(115);
    out.push(116);
    out.push(32);
    out.push(119);
    out.push(111);
    out.push(114);
    out.push(100);
    out.push(115);
    out.push(10);
    proof {
        assert(out@ =~= old(out)@ + banner_line_help());
    }
}

#[verifier::rlimit(100)]
fn emit_line_words_a(out: &mut Vec<u8>)
    ensures
        final(out)@ == old(out)@ + banner_line_words_a(),
{
    out.push(65);
    out.push(118);
    out.push(97);
    out.push(105);
    out.push(108);
    out.push(97);
    out.push(98);
    out.push(108);
    out.push(101);
    out.push(58);
    out.push(32);
    out.push(43);
    out.push(32);
    out.push(45);
    out.push(32);
    out.push(42);
    out.push(32);
    out.push(47);
    out.push(32);
    out.push(109);
    out.push(111);
    out.push(100);
    out.push(32);
    out.push(100);
    out.push(117);
    out.push(112);
    out.push(32);
    out.push(100);
    out.push(114);
    out.push(111);
    out.push(112);
    out.push(32);
    out.push(115);
    out.push(119);
    out.push(97);
    out.push(112);
    out.push(32);
    out.push(111);
    out.push(118);
    out.push(101);
    out.push(114);
    out.push(32);
    out.push(114);
    out.push(111);
    out.push(116);
    out.push(32);
    out.push(46);
    out.push(32);
    out.push(46);
    out.push(115);
    out.push(32);
    out.push(99);
    out.push(114);
    out.push(32);
    out.push(98);
    out.push(121);
    out.push(101);
    out.push(10);
    proof {
        assert(out@ =~= old(out)@ + banner_line_words_a());
    }
}

fn emit_line_words_b(out: &mut Vec<u8>)
    ensures
        final(out)@ == old(out)@ + banner_line_words_b(),
{
    out.push(32);
    out.push(32);
    out.push(32);
    out.push(32);
    out.push(32);
    out.push(32);
    out.push(32);
    out.push(32);
    out.push(32);
    out.push(32);
    out.push(32);
    out.push(61);
    out.push(32);
    out.push(60);
    out.push(32);
    out.push(62);
    out.push(32);
    out.push(119);
    out.push(111);
    out.push(114);
    out.push(100);
    out.push(115);
    out.push(32);
    out.push(58);
    out.push(32);
    out.push(59);
    out.push(10);
    out.push(10);
    proof {
        assert(out@ =~= old(out)@ + banner_line_words_b());
    }
}

/// Appends the greeting.
pub fn emit_banner(out: &mut Vec<u8>)
    ensures
        final(out)@ == old(out)@ + banner_text(),
{
    emit_line_title(out);
    emit_line_help(out);
    emit_line_words_a(out);
    emit_line_words_b(out);
    proof {
        assert(out@ =~= old(out)@ + banner_text());
    }
}


/// Appends the prompt for the given mode.
pub fn emit_prompt(out: &mut Vec<u8>, compiling: bool)
    ensures
        final(out)@ == old(out)@ + prompt_text(compiling),
{
    if compiling {
        out.push(58);
        out.push(32);
    } else {
        out.push(111);
        out.push(107);
        out.push(62);
        out.push(32);
    }
    proof {
        assert(out@ =~= old(out)@ + prompt_text(compiling));
    }
}

/// Appends the acknowledgement of a successful interactive line.
pub fn emit_ok(out: &mut Vec<u8>)
    ensures
        final(out)@ == old(out)@ + ok_text(),
{
    out.push(111);
    out.push(107);
    out.push(10);
    proof {
        assert(out@ =~= old(out)@ + ok_text());
    }
}

/// Appends the farewell.
pub fn emit_goodbye(out: &mut Vec<u8>)
    ensures
        final(out)@ == old(out)@ + goodbye_text(),
{
    out.push(71);
    out.push(111);
    out.push(111);
    out.push(100);
    out.push(98);
    out.push(121);
    out.push(101);
    out.push(33);
    out.push(10);
    proof {
        assert(out@ =~= old(out)@ + goodbye_text());
    }
}

/// Appends the notice that an open definition was abandoned.
pub fn emit_aborted(out: &mut Vec<u8>)
    ensures
        final(out)@ == old(out)@ + aborted_text(),
{
    out.push(67);
    out.push(111);
    out.push(109);
    out.push(112);
    out.push(105);
    out.push(108);
    out.push(97);
    out.push(116);
    out.push(105);
    out.push(111);
    out.push(110);
    out.push(32);
    out.push(97);
    out.push(98);
    out.push(111);
    out.push(114);
    out.push(116);
    out.push(101);
    out.push(100);
    out.push(10);
    proof {
        assert(out@ =~= old(out)@ + aborted_text());
    }
}

/// Appends the given bytes unchanged.
pub fn emit_bytes(out: &mut Vec<u8>, bytes: &[u8])
    ensures
        final(out)@ == old(out)@ + bytes@,
{
    let mut i: usize = 0;
    while i < bytes.len()
        invariant
            i <= bytes.len(),
            out@ == old(out)@ + bytes@.take(i as int),
        decreases bytes.len() - i,
    {
        proof {
            assert(bytes@.take(i as int + 1) =~= bytes@.take(i as int).push(bytes@[i as int]));
        }
        out.push(bytes[i]);
        i += 1;
    }
    proof {
        assert(bytes@.take(bytes@.len() as int) =~= bytes@);
    }
}

/// Appends a full diagnostic line: `Error: `, the error's text, a newline.
pub fn emit_error(out: &mut Vec<u8>, e: ForthError)
    ensures
        final(out)@ == old(out)@ + error_prefix() + error_text(e) + seq![10u8],
{
    out.push(69);
    out.push(114);
    out.push(114);
    out.push(111);
    out.push(114);
    out.push(58);
    out.push(32);
    match e {
        ForthError::StackOverflow => {
            out.push(83);
            out.push(116);
            out.push(97);
            out.push(99);
            out.push(107);
            out.push(32);
            out.push(111);
            out.push(118);
            out.push(101);
            out.push(114);
            out.push(102);
            out.push(108);
            out.push(111);
            out.push(119);
        },
        ForthError::StackUnderflow => {
            out.push(83);
            out.push(116);
            out.push(97);
            out.push(99);
            out.push(107);
            out.push(32);
            out.push(117);
            out.push(110);
            out.push(100);
            out.push(101);
            out.push(114);
            out.push(102);
            out.push(108);
            out.push(111);
            out.push(119);
        },
        ForthError::StackEmpty => {
            out.push(83);
            out.push(116);
            out.push(97);
            out.push(99);
            out.push(107);
            out.push(32);
            out.push(101);
            out.push(109);
            out.push(112);
            out.push(116);
            out.push(121);
        },
        ForthError::DivisionByZero => {
            out.push(68);
            out.push(105);
            out.push(118);
            out.push(105);
            out.push(115);
            out.push(105);
            out.push(111);
            out.push(110);
            out.push(32);
            out.push(98);
            out.push(121);
            out.push(32);
            out.push(122);
            out.push(101);
            out.push(114);
            out.push(111);
        },
        ForthError::AlreadyCompiling => {
            out.push(65);
            out.push(108);
            out.push(114);
            out.push(101);
            out.push(97);
            out.push(100);
            out.push(121);
            out.push(32);
            out.push(99);
            out.push(111);
            out.push(109);
            out.push(112);
            out.push(105);
            out.push(108);
            out.push(105);
            out.push(110);
            out.push(103);
        },
        ForthError::NotCompiling => {
            out.push(78);
            out.push(111);
            out.push(116);
            out.push(32);
            out.push(99);
            out.push(111);
            out.push(109);
            out.push(112);
            out.push(105);
            out.push(108);
            out.push(105);
            out.push(110);
            out.push(103);
        },
        ForthError::DictionaryFull => {
            out.push(68);
            out.push(105);
            out.push(99);
            out.push(116);
            out.push(105);
            out.push(111);
            out.push(110);
            out.push(97);
            out.push(114);
            out.push(121);
            out.push(32);
            out.push(102);
            out.push(117);
            out.push(108);
            out.push(108);
        },
        ForthError::WordTooLong => {
            out.push(87);
            out.push(111);
            out.push(114);
            out.push(100);
            out.push(32);
            out.push(116);
            out.push(111);
            out.push(111);
            out.push(32);
            out.push(108);
            out.push(111);
            out.push(110);
            out.push(103);
        },
        ForthError::UnknownWord => {
            out.push(85);
            out.push(110);
            out.push(107);
            out.push(110);
            out.push(111);
            out.push(119);
            out.push(110);
            out.push(32);
            out.push(119);
            out.push(111);
            out.push(114);
            out.push(100);
        },
        ForthError::UnknownBuiltin => {
            out.push(85);
            out.push(110);
            out.push(107);
            out.push(110);
            out.push(111);
            out.push(119);
            out.push(110);
            out.push(32);
            out.push(98);
            out.push(117);
            out.push(105);
            out.push(108);
            out.push(116);
            out.push(105);
            out.push(110);
        },
    }
    out.push(10);
    proof {
        assert(out@ =~= old(out)@ + error_prefix() + error_text(e) + seq![10u8]);
    }
}

/// Appends the echo of an unresolvable token: `Unknown word: `, the token,
/// a newline.
pub fn emit_unknown_word(out: &mut Vec<u8>, word: &[u8])
    ensures
        final(out)@ == old(out)@ + unknown_prefix() + word@ + seq![10u8],
{
    out.push(85);
    out.push(110);
    out.push(107);
    out.push(110);
    out.push(111);
    out.push(119);
    out.push(110);
    out.push(32);
    out.push(119);
    out.push(111);
    out.push(114);
    out.push(100);
    out.push(58);
    out.push(32);
    emit_bytes(out, word);
    out.push(10);
    proof {
        assert(out@ =~= old(out)@ + unknown_prefix() + word@ + seq![10u8]);
    }
}

} // verus!
