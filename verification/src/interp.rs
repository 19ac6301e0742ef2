//! The interpreter engine: tokenizing, word resolution, builtin dispatch
//! and the line/session drivers.
//!
//! Every function here is proved to agree with the reference semantics in
//! `semantics`: the same stack, dictionary, mode flags and output bytes,
//! token for token and line for line.

use vstd::pervasive::VecAdditionalExecFns;
use vstd::prelude::*;

use crate::dict::DICTIONARY_SIZE;
use crate::dict::DictionaryEntry;
use crate::dict::EntryModel;
use crate::dict::MAX_WORD_NAME_LEN;
use crate::dict::builtin_entry;
use crate::dict::dict_model;
use crate::dict::lookup_spec;
use crate::dict::user_entry;
use crate::errors::ForthError;
use crate::numbers::decimal;
use crate::numbers::div_wrapping;
use crate::numbers::parse_number;
use crate::numbers::push_decimal;
use crate::numbers::rem_wrapping;
use crate::output::banner_text;
use crate::output::emit_aborted;
use crate::output::emit_banner;
use crate::output::emit_bytes;
use crate::output::emit_error;
use crate::output::emit_goodbye;
use crate::output::emit_ok;
use crate::output::emit_prompt;
use crate::output::emit_unknown_word;
use crate::output::prompt_text;
use crate::output::words_prefix;
use crate::semantics::BUILTIN_ADD;
use crate::semantics::BUILTIN_BYE;
use crate::semantics::BUILTIN_COLON;
use crate::semantics::BUILTIN_CR;
use crate::semantics::BUILTIN_DIV;
use crate::semantics::BUILTIN_DOT;
use crate::semantics::BUILTIN_DOTS;
use crate::semantics::BUILTIN_DROP;
use crate::semantics::BUILTIN_DUP;
use crate::semantics::BUILTIN_EQUAL;
use crate::semantics::BUILTIN_GREATER;
use crate::semantics::BUILTIN_LESS;
use crate::semantics::BUILTIN_MOD;
use crate::semantics::BUILTIN_MUL;
use crate::semantics::BUILTIN_OVER;
use crate::semantics::BUILTIN_ROT;
use crate::semantics::BUILTIN_SEMICOLON;
use crate::semantics::BUILTIN_SUB;
use crate::semantics::BUILTIN_SWAP;
use crate::semantics::BUILTIN_WORDS;
use crate::semantics::INPUT_BUFFER_SIZE;
use crate::semantics::StateModel;
use crate::semantics::USER_WORDS_SIZE;
use crate::semantics::WORD_BUFFER_SIZE;
use crate::semantics::after_line;
use crate::semantics::builtin_effect;
use crate::semantics::eval_word;
use crate::semantics::initial_state;
use crate::semantics::lemma_read_line_props;
use crate::semantics::line_step;
use crate::semantics::padded_line;
use crate::semantics::read_line_from;
use crate::semantics::read_line_spec;
use crate::semantics::session;
use crate::semantics::session_from;
use crate::semantics::skip_blanks;
use crate::semantics::stack_dump;
use crate::semantics::token_end;
use crate::semantics::truncated_name;
use crate::semantics::words_dump;
use crate::stack::ForthStack;
use crate::stack::STACK_SIZE;

verus! {

/// One interpreter session: the value stack, the line input buffer, the
/// dictionary, the write offset into the (inert) user-word body arena, the
/// compile-mode state, and the bytes written to the output channel so far.
pub struct ForthInterpreter {
    pub stack: ForthStack,
    pub input_buffer: Vec<u8>,
    pub dictionary: Vec<DictionaryEntry>,
    pub user_words_top: usize,
    pub current_def_start: usize,
    pub compiling: bool,
    pub out: Vec<u8>,
}

impl View for ForthInterpreter {
    type V = StateModel;

    open spec fn view(&self) -> StateModel {
        StateModel {
            stack: self.stack@,
            dict: dict_model(self.dictionary@),
            user_top: self.user_words_top as nat,
            def_start: self.current_def_start as nat,
            compiling: self.compiling,
            out: self.out@,
        }
    }
}

impl ForthInterpreter {
    /// The structural bounds every session keeps: the stack and the
    /// dictionary within their capacities, every stored name within the
    /// name storage, the input buffer at its fixed size, and the arena
    /// offsets in order.
    pub open spec fn wf(&self) -> bool {
        &&& self.stack.wf()
        &&& self.dictionary@.len() <= DICTIONARY_SIZE
        &&& (forall|i: int| 0 <= i < self.dictionary@.len() ==> (#[trigger] self.dictionary@[i]).wf())
        &&& self.input_buffer@.len() == INPUT_BUFFER_SIZE
        &&& self.user_words_top <= USER_WORDS_SIZE
        &&& self.current_def_start <= self.user_words_top
    }

    /// Creates a fresh session: empty stack, empty dictionary, interactive
    /// mode, nothing written yet.
    pub fn new() -> (interp: Self)
        ensures
            interp@ == initial_state(),
            interp.wf(),
    {
        let mut buffer: Vec<u8> = Vec::new();
        let mut i: usize = 0;
        while i < INPUT_BUFFER_SIZE
            invariant
                buffer@.len() == i,
                i <= INPUT_BUFFER_SIZE,
            decreases INPUT_BUFFER_SIZE - i,
        {
            buffer.push(0);
            i += 1;
        }
        let interp = Self {
            stack: ForthStack::new(),
            input_buffer: buffer,
            dictionary: Vec::new(),
            user_words_top: 0,
            current_def_start: 0,
            compiling: false,
            out: Vec::new(),
        };
        proof {
            assert(dict_model(interp.dictionary@) =~= Seq::<EntryModel>::empty());
            assert(interp@ =~~= initial_state());
        }
        interp
    }

    /// True exactly when the two byte strings are identical.
    pub fn word_matches(word: &[u8], target: &[u8]) -> (matches: bool)
        ensures
            matches == (word@ == target@),
    {
        if word.len() != target.len() {
            return false;
        }
        let mut i: usize = 0;
        while i < word.len()
            invariant
                i <= word.len(),
                word@.len() == target@.len(),
                forall|j: int| 0 <= j < i ==> word@[j] == target@[j],
            decreases word.len() - i,
        {
            if word[i] != target[i] {
                return false;
            }
            i += 1;
        }
        proof {
            assert(word@ =~= target@);
        }
        true
    }

    /// Finds the given name in the dictionary, scanning from the newest
    /// entry to the oldest, so that later definitions shadow earlier ones.
    pub fn find_word(&self, word: &[u8]) -> (found: Option<usize>)
        ensures
            match found {
                Some(i) => lookup_spec(self@.dict, word@) == Some(i as int),
                None => lookup_spec(self@.dict, word@) is None,
            },
    {
        let ghost dict = self@.dict;
        proof {
            assert(dict.take(dict.len() as int) =~= dict);
        }
        let mut i: usize = self.dictionary.len();
        while i > 0
            invariant
                i <= self.dictionary@.len(),
                dict == dict_model(self.dictionary@),
                lookup_spec(dict, word@) == lookup_spec(dict.take(i as int), word@),
            decreases i,
        {
            i -= 1;
            let entry = &self.dictionary[i];
            if Self::word_matches(word, entry.name.as_slice()) {
                proof {
                    assert(dict.take(i + 1).last() == dict[i as int]);
                    assert(dict[i as int].name == word@);
                }
                return Some(i);
            }
            proof {
                assert(dict.take(i + 1).last() == dict[i as int]);
                assert(dict.take(i + 1).drop_last() =~= dict.take(i as int));
            }
        }
        proof {
            assert(dict.take(0) =~= Seq::<EntryModel>::empty());
        }
        None
    }

    /// Appends a builtin entry for the given name and operation id; when
    /// the dictionary is already at capacity the registration is silently
    /// dropped.  A name longer than the name storage is truncated.
    pub fn add_builtin(&mut self, name: &[u8], id: u8)
        requires
            old(self).wf(),
        ensures
            final(self).wf(),
            final(self).input_buffer@ == old(self).input_buffer@,
            old(self)@.dict.len() >= DICTIONARY_SIZE ==> final(self)@ == old(self)@,
            old(self)@.dict.len() < DICTIONARY_SIZE ==> final(self)@ == (StateModel {
                dict: old(self)@.dict.push(builtin_entry(truncated_name(name@), id)),
                ..old(self)@
            }),
    {
        if self.dictionary.len() >= DICTIONARY_SIZE {
            return ;
        }
        let keep: usize = if name.len() > MAX_WORD_NAME_LEN {
            MAX_WORD_NAME_LEN
        } else {
            name.len()
        };
        let mut stored: Vec<u8> = Vec::new();
        let mut i: usize = 0;
        while i < keep
            invariant
                i <= keep,
                keep <= name@.len(),
                stored@ == name@.take(i as int),
            decreases keep - i,
        {
            proof {
                assert(name@.take(i as int + 1) =~= name@.take(i as int).push(name@[i as int]));
            }
            stored.push(name[i]);
            i += 1;
        }
        let entry = DictionaryEntry {
            name: stored,
            is_builtin: true,
            builtin_id: id,
            user_word_start: 0,
            user_word_len: 0,
        };
        self.dictionary.push(entry);
        proof {
            if name@.len() <= MAX_WORD_NAME_LEN {
                assert(name@.take(keep as int) =~= name@);
            }
            assert(dict_model(self.dictionary@) =~~= dict_model(old(self).dictionary@).push(
                builtin_entry(truncated_name(name@), id),
            ));
            assert(self@ =~~= StateModel {
                dict: old(self)@.dict.push(builtin_entry(truncated_name(name@), id)),
                ..old(self)@
            });
        }
    }

    /// Appends a user entry for the given name, spanning the body arena
    /// from the start of the current definition to its write offset; on a
    /// full dictionary it fails and changes nothing.  A name longer than
    /// the name storage is truncated.
    pub fn define_user(&mut self, name: &[u8]) -> (r: Result<(), ForthError>)
        requires
            old(self).wf(),
        ensures
            final(self).wf(),
            final(self).input_buffer@ == old(self).input_buffer@,
            old(self)@.dict.len() >= DICTIONARY_SIZE ==> r == Err::<(), ForthError>(
                ForthError::DictionaryFull,
            ) && final(self)@ == old(self)@,
            old(self)@.dict.len() < DICTIONARY_SIZE ==> r == Ok::<(), ForthError>(())
                && final(self)@ == (StateModel {
                dict: old(self)@.dict.push(
                    user_entry(
                        truncated_name(name@),
                        old(self)@.def_start,
                        (old(self)@.user_top - old(self)@.def_start) as nat,
                    ),
                ),
                ..old(self)@
            }),
    {
        if self.dictionary.len() >= DICTIONARY_SIZE {
            return Err(ForthError::DictionaryFull);
        }
        let keep: usize = if name.len() > MAX_WORD_NAME_LEN {
            MAX_WORD_NAME_LEN
        } else {
            name.len()
        };
        let mut stored: Vec<u8> = Vec::new();
        let mut i: usize = 0;
        while i < keep
            invariant
                i <= keep,
                keep <= name@.len(),
                stored@ == name@.take(i as int),
            decreases keep - i,
        {
            proof {
                assert(name@.take(i as int + 1) =~= name@.take(i as int).push(name@[i as int]));
            }
            stored.push(name[i]);
            i += 1;
        }
        let entry = DictionaryEntry {
            name: stored,
            is_builtin: false,
            builtin_id: 0,
            user_word_start: self.current_def_start,
            user_word_len: self.user_words_top - self.current_def_start,
        };
        self.dictionary.push(entry);
        proof {
            if name@.len() <= MAX_WORD_NAME_LEN {
                assert(name@.take(keep as int) =~= name@);
            }
            assert(dict_model(self.dictionary@) =~~= dict_model(old(self).dictionary@).push(
                entry@,
            ));
            assert(self@ =~~= StateModel {
                dict: old(self)@.dict.push(
                    user_entry(
                        truncated_name(name@),
                        old(self)@.def_start,
                        (old(self)@.user_top - old(self)@.def_start) as nat,
                    ),
                ),
                ..old(self)@
            });
        }
        Ok(())
    }
}

/// The twenty builtin entries, in registration order.  This is the whole
/// dictionary of a fresh session after startup.
pub open spec fn builtin_table() -> Seq<EntryModel> {
    seq![
        builtin_entry(seq![43u8], BUILTIN_ADD),  // +
        builtin_entry(seq![45u8], BUILTIN_SUB),  // -
        builtin_entry(seq![42u8], BUILTIN_MUL),  // *
        builtin_entry(seq![47u8], BUILTIN_DIV),  // /
        builtin_entry(seq![109u8, 111u8, 100u8], BUILTIN_MOD),  // mod
        builtin_entry(seq![100u8, 117u8, 112u8], BUILTIN_DUP),  // dup
        builtin_entry(seq![100u8, 114u8, 111u8, 112u8], BUILTIN_DROP),  // drop
        builtin_entry(seq![115u8, 119u8, 97u8, 112u8], BUILTIN_SWAP),  // swap
        builtin_entry(seq![111u8, 118u8, 101u8, 114u8], BUILTIN_OVER),  // over
        builtin_entry(seq![114u8, 111u8, 116u8], BUILTIN_ROT),  // rot
        builtin_entry(seq![46u8], BUILTIN_DOT),  // .
        builtin_entry(seq![46u8, 115u8], BUILTIN_DOTS),  // .s
        builtin_entry(seq![99u8, 114u8], BUILTIN_CR),  // cr
        builtin_entry(seq![98u8, 121u8, 101u8], BUILTIN_BYE),  // bye
        builtin_entry(seq![58u8], BUILTIN_COLON),  // :
        builtin_entry(seq![59u8], BUILTIN_SEMICOLON),  // ;
        builtin_entry(seq![61u8], BUILTIN_EQUAL),  // =
        builtin_entry(seq![60u8], BUILTIN_LESS),  // <
        builtin_entry(seq![62u8], BUILTIN_GREATER),  // >
        builtin_entry(seq![119u8, 111u8, 114u8, 100u8, 115u8], BUILTIN_WORDS),  // words
    ]
}

impl ForthInterpreter {
    /// Registers the builtin words of the language, in the fixed order of
    /// `builtin_table`; it is called once, on a fresh session, and by
    /// construction never exceeds the dictionary's capacity.
    pub fn init_builtins(&mut self)
        requires
            old(self).wf(),
            old(self)@.dict.len() == 0,
        ensures
            final(self).wf(),
            final(self).input_buffer@ == old(self).input_buffer@,
            final(self)@ == (StateModel { dict: builtin_table(), ..old(self)@ }),
    {
        let mut name: Vec<u8> = Vec::new();
        name.push(43);
        self.add_builtin(name.as_slice(), BUILTIN_ADD);  // +
        let mut name: Vec<u8> = Vec::new();
        name.push(45);
        self.add_builtin(name.as_slice(), BUILTIN_SUB);  // -
        let mut name: Vec<u8> = Vec::new();
        name.push(42);
        self.add_builtin(name.as_slice(), BUILTIN_MUL);  // *
        let mut name: Vec<u8> = Vec::new();
        name.push(47);
        self.add_builtin(name.as_slice(), BUILTIN_DIV);  // /
        let mut name: Vec<u8> = Vec::new();
        name.push(109);
        name.push(111);
        name.push(100);
        self.add_builtin(name.as_slice(), BUILTIN_MOD);  // mod
        let mut name: Vec<u8> = Vec::new();
        name.push(100);
        name.push(117);
        name.push(112);
        self.add_builtin(name.as_slice(), BUILTIN_DUP);  // dup
        let mut name: Vec<u8> = Vec::new();
        name.push(100);
        name.push(114);
        name.push(111);
        name.push(112);
        self.add_builtin(name.as_slice(), BUILTIN_DROP);  // drop
        let mut name: Vec<u8> = Vec::new();
        name.push(115);
        name.push(119);
        name.push(97);
        name.push(112);
        self.add_builtin(name.as_slice(), BUILTIN_SWAP);  // swap
        let mut name: Vec<u8> = Vec::new();
        name.push(111);
        name.push(118);
        name.push(101);
        name.push(114);
        self.add_builtin(name.as_slice(), BUILTIN_OVER);  // over
        let mut name: Vec<u8> = Vec::new();
        name.push(114);
        name.push(111);
        name.push(116);
        self.add_builtin(name.as_slice(), BUILTIN_ROT);  // rot
        let mut name: Vec<u8> = Vec::new();
        name.push(46);
        self.add_builtin(name.as_slice(), BUILTIN_DOT);  // .
        let mut name: Vec<u8> = Vec::new();
        name.push(46);
        name.push(115);
        self.add_builtin(name.as_slice(), BUILTIN_DOTS);  // .s
        let mut name: Vec<u8> = Vec::new();
        name.push(99);
        name.push(114);
        self.add_builtin(name.as_slice(), BUILTIN_CR);  // cr
        let mut name: Vec<u8> = Vec::new();
        name.push(98);
        name.push(121);
        name.push(101);
        self.add_builtin(name.as_slice(), BUILTIN_BYE);  // bye
        let mut name: Vec<u8> = Vec::new();
        name.push(58);
        self.add_builtin(name.as_slice(), BUILTIN_COLON);  // :
        let mut name: Vec<u8> = Vec::new();
        name.push(59);
        self.add_builtin(name.as_slice(), BUILTIN_SEMICOLON);  // ;
        let mut name: Vec<u8> = Vec::new();
        name.push(61);
        self.add_builtin(name.as_slice(), BUILTIN_EQUAL);  // =
        let mut name: Vec<u8> = Vec::new();
        name.push(60);
        self.add_builtin(name.as_slice(), BUILTIN_LESS);  // <
        let mut name: Vec<u8> = Vec::new();
        name.push(62);
        self.add_builtin(name.as_slice(), BUILTIN_GREATER);  // >
        let mut name: Vec<u8> = Vec::new();
        name.push(119);
        name.push(111);
        name.push(114);
        name.push(100);
        name.push(115);
        self.add_builtin(name.as_slice(), BUILTIN_WORDS);  // words
        proof {
            assert(self@.dict =~~= builtin_table());
            assert(self@ =~~= StateModel { dict: builtin_table(), ..old(self)@ });
        }
    }
}


impl ForthInterpreter {
    /// Runs one builtin operation against the stack and the output buffer,
    /// exactly as `builtin_effect` describes: `Ok(true)` asks the session
    /// to end, `Ok(false)` continues it, and an error aborts the line.
    pub fn execute_builtin(&mut self, id: u8) -> (r: Result<bool, ForthError>)
        requires
            old(self).wf(),
        ensures
            final(self).wf(),
            final(self).input_buffer@ == old(self).input_buffer@,
            final(self)@ == builtin_effect(old(self)@, id).0,
            r == builtin_effect(old(self)@, id).1,
    {
        let ghost st0 = self@;
        if id == BUILTIN_ADD || id == BUILTIN_SUB || id == BUILTIN_MUL {
            if self.stack.size() < 2 {
                return Err(ForthError::StackUnderflow);
            }
            let b = self.stack.pop().unwrap();
            let a = self.stack.pop().unwrap();
            let v = if id == BUILTIN_ADD {
                a.wrapping_add(b)
            } else if id == BUILTIN_SUB {
                a.wrapping_sub(b)
            } else {
                a.wrapping_mul(b)
            };
            let pushed = self.stack.push(v);
            proof {
                assert(pushed is Ok);
                assert(self@ =~~= builtin_effect(st0, id).0);
            }
            Ok(false)
        } else if id == BUILTIN_DIV || id == BUILTIN_MOD {
            if self.stack.size() < 2 {
                return Err(ForthError::StackUnderflow);
            }
            let b = self.stack.pop().unwrap();
            let a = self.stack.pop().unwrap();
            if b == 0 {
                proof {
                    assert(self@ =~~= builtin_effect(st0, id).0);
                }
                return Err(ForthError::DivisionByZero);
            }
            let v = if id == BUILTIN_DIV {
                div_wrapping(a, b)
            } else {
                rem_wrapping(a, b)
            };
            let pushed = self.stack.push(v);
            proof {
                assert(pushed is Ok);
                assert(self@ =~~= builtin_effect(st0, id).0);
            }
            Ok(false)
        } else if id == BUILTIN_DUP {
            let top = match self.stack.peek() {
                Ok(v) => v,
                Err(e) => {
                    return Err(e);
                },
            };
            if self.stack.size() >= STACK_SIZE {
                return Err(ForthError::StackOverflow);
            }
            let pushed = self.stack.push(top);
            proof {
                assert(pushed is Ok);
                assert(self@ =~~= builtin_effect(st0, id).0);
            }
            Ok(false)
        } else if id == BUILTIN_DROP {
            match self.stack.pop() {
                Ok(_) => Ok(false),
                Err(e) => Err(e),
            }
        } else if id == BUILTIN_SWAP {
            if self.stack.size() < 2 {
                return Err(ForthError::StackUnderflow);
            }
            let b = self.stack.pop().unwrap();
            let a = self.stack.pop().unwrap();
            let p1 = self.stack.push(b);
            let p2 = self.stack.push(a);
            proof {
                assert(p1 is Ok && p2 is Ok);
                assert(self@ =~~= builtin_effect(st0, id).0);
            }
            Ok(false)
        } else if id == BUILTIN_OVER {
            if self.stack.size() < 2 {
                return Err(ForthError::StackUnderflow);
            }
            if self.stack.size() >= STACK_SIZE {
                return Err(ForthError::StackOverflow);
            }
            let b = self.stack.pop().unwrap();
            let a = self.stack.pop().unwrap();
            let p1 = self.stack.push(a);
            let p2 = self.stack.push(b);
            let p3 = self.stack.push(a);
            proof {
                assert(p1 is Ok && p2 is Ok && p3 is Ok);
                assert(self@ =~~= builtin_effect(st0, id).0);
            }
            Ok(false)
        } else if id == BUILTIN_ROT {
            if self.stack.size() < 3 {
                return Err(ForthError::StackUnderflow);
            }
            let c = self.stack.pop().unwrap();
            let b = self.stack.pop().unwrap();
            let a = self.stack.pop().unwrap();
            let p1 = self.stack.push(b);
            let p2 = self.stack.push(c);
            let p3 = self.stack.push(a);
            proof {
                assert(p1 is Ok && p2 is Ok && p3 is Ok);
                assert(self@ =~~= builtin_effect(st0, id).0);
            }
            Ok(false)
        } else if id == BUILTIN_DOT {
            let v = match self.stack.pop() {
                Ok(v) => v,
                Err(e) => {
                    return Err(e);
                },
            };
            push_decimal(&mut self.out, v);
            self.out.push(32);
            proof {
                assert(self.out@ =~= st0.out + decimal(v) + seq![32u8]);
                assert(self@ =~~= builtin_effect(st0, id).0);
            }
            Ok(false)
        } else if id == BUILTIN_DOTS {
            let ghost s = self@.stack;
            let n = self.stack.size();
            self.out.push(60);
            push_decimal(&mut self.out, n as i32);
            self.out.push(62);
            self.out.push(32);
            let ghost base = self.out@;
            let mut i: usize = 0;
            proof {
                assert(s.take(0) =~= Seq::<i32>::empty());
                assert(self@ =~~= (StateModel { out: self.out@, ..st0 }));
            }
            while i < n
                invariant
                    i <= n,
                    n == s.len(),
                    self.stack@ == s,
                    self.wf(),
                    self.input_buffer@ == old(self).input_buffer@,
                    self@ == (StateModel { out: self.out@, ..st0 }),
                    base == st0.out + seq![60u8] + decimal(s.len() as i32) + seq![62u8, 32u8],
                    self.out@ == base + stack_dump(s.take(i as int)),
                decreases n - i,
            {
                proof {
                    assert(s.take(i + 1).drop_last() =~= s.take(i as int));
                    assert(s.take(i + 1).last() == s[i as int]);
                }
                let v = self.stack.data[i];
                push_decimal(&mut self.out, v);
                self.out.push(32);
                i += 1;
                proof {
                    assert(self@ =~~= (StateModel { out: self.out@, ..st0 }));
                }
            }
            proof {
                assert(s.take(n as int) =~= s);
                assert(self@ =~~= builtin_effect(st0, id).0);
            }
            Ok(false)
        } else if id == BUILTIN_CR {
            self.out.push(10);
            proof {
                assert(self.out@ =~= st0.out + seq![10u8]);
                assert(self@ =~~= builtin_effect(st0, id).0);
            }
            Ok(false)
        } else if id == BUILTIN_BYE {
            emit_goodbye(&mut self.out);
            proof {
                assert(self@ =~~= builtin_effect(st0, id).0);
            }
            Ok(true)
        } else if id == BUILTIN_COLON {
            if self.compiling {
                return Err(ForthError::AlreadyCompiling);
            }
            self.compiling = true;
            self.current_def_start = self.user_words_top;
            proof {
                assert(self@ =~~= builtin_effect(st0, id).0);
            }
            Ok(false)
        } else if id == BUILTIN_SEMICOLON {
            if !self.compiling {
                return Err(ForthError::NotCompiling);
            }
            self.compiling = false;
            proof {
                assert(self@ =~~= builtin_effect(st0, id).0);
            }
            Ok(false)
        } else if id == BUILTIN_EQUAL || id == BUILTIN_LESS || id == BUILTIN_GREATER {
            if self.stack.size() < 2 {
                return Err(ForthError::StackUnderflow);
            }
            let b = self.stack.pop().unwrap();
            let a = self.stack.pop().unwrap();
            let holds = if id == BUILTIN_EQUAL {
                a == b
            } else if id == BUILTIN_LESS {
                a < b
            } else {
                a > b
            };
            let v: i32 = if holds {
                -1
            } else {
                0
            };
            let pushed = self.stack.push(v);
            proof {
                assert(pushed is Ok);
                assert(self@ =~~= builtin_effect(st0, id).0);
            }
            Ok(false)
        } else if id == BUILTIN_WORDS {
            let ghost dict = self@.dict;
            let mut i: usize = 0;
            let n = self.dictionary.len();
            self.out.push(87);
            self.out.push(111);
            self.out.push(114);
            self.out.push(100);
            self.out.push(115);
            self.out.push(58);
            self.out.push(32);
            let ghost base = self.out@;
            proof {
                assert(base =~= st0.out + words_prefix());
                assert(dict.take(0) =~= Seq::<EntryModel>::empty());
                assert(self@ =~~= (StateModel { out: self.out@, ..st0 }));
            }
            while i < n
                invariant
                    i <= n,
                    n == self.dictionary@.len(),
                    dict == dict_model(self.dictionary@),
                    self.wf(),
                    self.input_buffer@ == old(self).input_buffer@,
                    self@ == (StateModel { out: self.out@, ..st0 }),
                    base == st0.out + words_prefix(),
                    self.out@ == base + words_dump(dict.take(i as int)),
                decreases n - i,
            {
                proof {
                    assert(dict.take(i + 1).drop_last() =~= dict.take(i as int));
                    assert(dict.take(i + 1).last() == dict[i as int]);
                }
                emit_bytes(&mut self.out, self.dictionary[i].name.as_slice());
                self.out.push(32);
                i += 1;
                proof {
                    assert(self@ =~~= (StateModel { out: self.out@, ..st0 }));
                }
            }
            self.out.push(10);
            proof {
                assert(dict.take(n as int) =~= dict);
                assert(self.out@ =~= st0.out + words_prefix() + words_dump(dict) + seq![10u8]);
                assert(self@ =~~= builtin_effect(st0, id).0);
            }
            Ok(false)
        } else {
            Err(ForthError::UnknownBuiltin)
        }
    }
}

impl ForthInterpreter {
    /// Evaluates one token: a numeric literal is pushed; a resolvable name
    /// dispatches (a user word resolves but has no effect); an unresolvable
    /// token becomes the open definition's name in compile mode and is
    /// otherwise reported as unknown, failing the line.
    pub fn execute_word(&mut self, word: &[u8]) -> (r: Result<bool, ForthError>)
        requires
            old(self).wf(),
        ensures
            final(self).wf(),
            final(self).input_buffer@ == old(self).input_buffer@,
            final(self)@ == eval_word(old(self)@, word@).0,
            r == eval_word(old(self)@, word@).1,
    {
        let ghost st0 = self@;
        match parse_number(word) {
            Some(v) => {
                match self.stack.push(v) {
                    Ok(_) => {
                        proof {
                            assert(self@ =~~= eval_word(st0, word@).0);
                        }
                        Ok(false)
                    },
                    Err(e) => Err(e),
                }
            },
            None => {
                match self.find_word(word) {
                    Some(index) => {
                        proof {
                            crate::dict::lemma_lookup_spec_props(st0.dict, word@);
                            assert(st0.dict[index as int] == self.dictionary@[index as int]@);
                        }
                        let entry_is_builtin = self.dictionary[index].is_builtin;
                        let entry_id = self.dictionary[index].builtin_id;
                        if entry_is_builtin {
                            self.execute_builtin(entry_id)
                        } else {
                            Ok(false)
                        }
                    },
                    None => {
                        if self.compiling {
                            match self.define_user(word) {
                                Ok(_) => Ok(false),
                                Err(e) => Err(e),
                            }
                        } else {
                            emit_unknown_word(&mut self.out, word);
                            proof {
                                assert(self@ =~~= eval_word(st0, word@).0);
                            }
                            Err(ForthError::UnknownWord)
                        }
                    },
                }
            },
        }
    }
}

impl ForthInterpreter {
    /// Reads one line from `input`, starting at `pos`, into the line
    /// buffer: bytes up to a newline or carriage return (consumed), or up
    /// to one byte less than the buffer holds (the rest stays unread).  The
    /// buffer is null-padded to its full size.  When the input runs out
    /// first, the partial line is discarded and the read reports failure.
    pub fn read_line(&mut self, input: &[u8], pos: usize) -> (r: (bool, usize))
        requires
            old(self).wf(),
            pos <= input@.len(),
        ensures
            final(self).wf(),
            final(self)@ == old(self)@,
            r.0 == read_line_spec(input@, pos as nat).ok,
            r.0 ==> final(self).input_buffer@ == padded_line(
                read_line_spec(input@, pos as nat).line,
            ) && r.1 == read_line_spec(input@, pos as nat).next,
            !r.0 ==> r.1 == input@.len(),
    {
        let ghost spec_r = read_line_spec(input@, pos as nat);
        let input_len = input.len();
        let mut taken: usize = 0;
        let mut terminated: bool = false;
        while !terminated && taken < INPUT_BUFFER_SIZE - 1
            invariant
                old(self).wf(),
                input_len == input@.len(),
                pos <= input@.len(),
                taken <= INPUT_BUFFER_SIZE - 1,
                pos + taken <= input@.len(),
                spec_r == read_line_spec(input@, pos as nat),
                !terminated ==> spec_r == read_line_from(input@, pos as nat, taken as nat),
                terminated ==> pos + taken < input@.len() && spec_r.ok && spec_r.line == input@
                    .subrange(pos as int, (pos + taken) as int) && spec_r.next == pos + taken
                    + 1,
                self.input_buffer@.len() == INPUT_BUFFER_SIZE,
                forall|j: int| 0 <= j < taken ==> self.input_buffer@[j] == input@[pos + j],
                self@ == old(self)@,
                self.wf(),
            decreases (if terminated {
                0int
            } else {
                1int
            }), INPUT_BUFFER_SIZE - taken,
        {
            let cur = pos + taken;
            if cur >= input_len {
                return (false, input_len);
            }
            let ch = input[cur];
            if ch == 10 || ch == 13 {
                terminated = true;
            } else {
                self.input_buffer.set(taken, ch);
                taken += 1;
            }
        }
        let next: usize = if terminated {
            pos + taken + 1
        } else {
            pos + taken
        };
        proof {
            assert(spec_r.ok);
            assert(spec_r.line == input@.subrange(pos as int, (pos + taken) as int));
            assert(spec_r.next == next);
        }
        let mut j: usize = taken;
        while j < INPUT_BUFFER_SIZE
            invariant
                taken <= j <= INPUT_BUFFER_SIZE,
                pos + taken <= input@.len(),
                spec_r == read_line_spec(input@, pos as nat),
                spec_r.ok,
                spec_r.line == input@.subrange(pos as int, (pos + taken) as int),
                spec_r.next == next,
                self.input_buffer@.len() == INPUT_BUFFER_SIZE,
                forall|k: int| 0 <= k < taken ==> self.input_buffer@[k] == input@[pos + k],
                forall|k: int| taken <= k < j ==> self.input_buffer@[k] == 0,
                self@ == old(self)@,
                self.wf(),
            decreases INPUT_BUFFER_SIZE - j,
        {
            self.input_buffer.set(j, 0);
            j += 1;
        }
        proof {
            assert(spec_r.line.len() == taken);
            assert(self.input_buffer@ =~= padded_line(spec_r.line));
        }
        (true, next)
    }

    /// Evaluates the line currently in the input buffer, token by token,
    /// as `line_step` describes: the first failure, or a request to exit,
    /// ends the line at once; a token longer than the word buffer fails the
    /// line before it is evaluated.
    pub fn process_line(&mut self) -> (r: Result<bool, ForthError>)
        requires
            old(self).wf(),
        ensures
            final(self).wf(),
            final(self).input_buffer@ == old(self).input_buffer@,
            final(self)@ == line_step(old(self)@, old(self).input_buffer@, 0).0,
            r == line_step(old(self)@, old(self).input_buffer@, 0).1,
    {
        let ghost st0 = self@;
        let ghost line = self.input_buffer@;
        let mut pos: usize = 0;
        proof {
            assert(line.len() == INPUT_BUFFER_SIZE);
        }
        while pos < INPUT_BUFFER_SIZE
            invariant
                self.wf(),
                st0 == old(self)@,
                line == old(self).input_buffer@,
                self.input_buffer@ == line,
                line.len() == INPUT_BUFFER_SIZE,
                pos <= INPUT_BUFFER_SIZE,
                line_step(st0, line, 0) == line_step(self@, line, pos as nat),
            decreases INPUT_BUFFER_SIZE - pos,
        {
            let ghost entry_pos = pos as nat;
            let ghost st_entry = self@;
            // skip separators
            while pos < INPUT_BUFFER_SIZE && (self.input_buffer[pos] == 32
                || self.input_buffer[pos] == 9)
                invariant
                    st0 == old(self)@,
                    line == old(self).input_buffer@,
                    self.input_buffer@ == line,
                    line.len() == INPUT_BUFFER_SIZE,
                    entry_pos <= pos <= INPUT_BUFFER_SIZE,
                    skip_blanks(line, entry_pos) == skip_blanks(line, pos as nat),
                    line_step(st0, line, 0) == line_step(st_entry, line, entry_pos),
                    self@ == st_entry,
                    self.wf(),
                decreases INPUT_BUFFER_SIZE - pos,
            {
                pos += 1;
            }
            proof {
                assert(skip_blanks(line, pos as nat) == pos as nat);
                assert(skip_blanks(line, entry_pos) == pos as nat);
            }
            if pos >= INPUT_BUFFER_SIZE {
                proof {
                    assert(line_step(self@, line, entry_pos) == (self@, Ok::<
                        bool,
                        ForthError,
                    >(false)));
                }
                return Ok(false);
            }
            if self.input_buffer[pos] == 0 {
                proof {
                    assert(line_step(self@, line, entry_pos) == (self@, Ok::<
                        bool,
                        ForthError,
                    >(false)));
                }
                return Ok(false);
            }
            // scan to the end of the token
            let start = pos;
            let ghost start_n = pos as nat;
            while pos < INPUT_BUFFER_SIZE && self.input_buffer[pos] != 0
                && self.input_buffer[pos] != 32 && self.input_buffer[pos] != 9
                invariant
                    st0 == old(self)@,
                    line == old(self).input_buffer@,
                    self.input_buffer@ == line,
                    line.len() == INPUT_BUFFER_SIZE,
                    entry_pos <= start_n,
                    skip_blanks(line, entry_pos) == start_n,
                    start_n < line.len() && line[start_n as int] != 0,
                    start_n <= pos <= INPUT_BUFFER_SIZE,
                    token_end(line, start_n) == token_end(line, pos as nat),
                    line_step(st0, line, 0) == line_step(st_entry, line, entry_pos),
                    self@ == st_entry,
                    self.wf(),
                decreases INPUT_BUFFER_SIZE - pos,
            {
                pos += 1;
            }
            proof {
                assert(token_end(line, pos as nat) == pos as nat);
                assert(token_end(line, start_n) == pos as nat);
            }
            let word_len = pos - start;
            if word_len >= WORD_BUFFER_SIZE {
                proof {
                    assert(line_step(self@, line, entry_pos) == (self@, Err::<
                        bool,
                        ForthError,
                    >(ForthError::WordTooLong)));
                }
                return Err(ForthError::WordTooLong);
            }
            // copy the token out of the line buffer
            let mut token: Vec<u8> = Vec::new();
            let mut i: usize = start;
            while i < pos
                invariant
                    st0 == old(self)@,
                    line == old(self).input_buffer@,
                    self.input_buffer@ == line,
                    line.len() == INPUT_BUFFER_SIZE,
                    entry_pos <= start_n,
                    start == start_n,
                    skip_blanks(line, entry_pos) == start_n,
                    start_n < line.len() && line[start_n as int] != 0,
                    token_end(line, start_n) == pos as nat,
                    pos - start < WORD_BUFFER_SIZE,
                    start <= i <= pos,
                    pos <= INPUT_BUFFER_SIZE,
                    token@ == line.subrange(start as int, i as int),
                    line_step(st0, line, 0) == line_step(st_entry, line, entry_pos),
                    self@ == st_entry,
                    self.wf(),
                decreases pos - i,
            {
                proof {
                    assert(line.subrange(start as int, i as int + 1) =~= line.subrange(
                        start as int,
                        i as int,
                    ).push(line[i as int]));
                }
                token.push(self.input_buffer[i]);
                i += 1;
            }
            let stepped = self.execute_word(token.as_slice());
            match stepped {
                Ok(false) => {
                    proof {
                        assert(line_step(st_entry, line, entry_pos) == line_step(
                            self@,
                            line,
                            pos as nat,
                        ));
                    }
                },
                Ok(true) => {
                    proof {
                        assert(line_step(st_entry, line, entry_pos) == (self@, Ok::<
                            bool,
                            ForthError,
                        >(true)));
                    }
                    return Ok(true);
                },
                Err(e) => {
                    proof {
                        assert(line_step(st_entry, line, entry_pos) == (self@, Err::<
                            bool,
                            ForthError,
                        >(e)));
                    }
                    return Err(e);
                },
            }
        }
        proof {
            assert(line_step(self@, line, pos as nat) == (self@, Ok::<bool, ForthError>(false)));
        }
        Ok(false)
    }
}

/// How one read-evaluate step of the session ended.
#[derive(Clone, Copy, PartialEq, Eq, Structural, Debug)]
pub enum StepOutcome {
    /// The line was handled; the next prompt is written and the session
    /// goes on.
    Continue,
    /// `bye` asked the session to end.
    Exit,
    /// The input ran out before a full line; the session ends silently.
    EndOfInput,
}

impl ForthInterpreter {
    /// Opens the session: writes the greeting and the first prompt.
    pub fn start_session(&mut self)
        requires
            old(self).wf(),
        ensures
            final(self).wf(),
            final(self).input_buffer@ == old(self).input_buffer@,
            final(self)@ == (StateModel {
                out: old(self)@.out + banner_text() + prompt_text(old(self)@.compiling),
                ..old(self)@
            }),
    {
        emit_banner(&mut self.out);
        let compiling = self.compiling;
        emit_prompt(&mut self.out, compiling);
        proof {
            assert(self@ =~~= (StateModel {
                out: old(self)@.out + banner_text() + prompt_text(old(self)@.compiling),
                ..old(self)@
            }));
        }
    }

    /// Reads and evaluates one line from `input` at `pos`, with the prompt
    /// for the current state already written: on success it writes the
    /// acknowledgement or the diagnostic (abandoning an open definition on
    /// an error) and the next prompt, and returns where the next line
    /// starts.
    pub fn step_line(&mut self, input: &[u8], pos: usize) -> (r: (StepOutcome, usize))
        requires
            old(self).wf(),
            pos <= input@.len(),
        ensures
            final(self).wf(),
            ({
                let rl = read_line_spec(input@, pos as nat);
                let stepped = line_step(old(self)@, padded_line(rl.line), 0);
                let recovered = after_line(stepped.0, stepped.1);
                if !rl.ok {
                    r.0 == StepOutcome::EndOfInput && final(self)@ == old(self)@
                } else if stepped.1 == Ok::<bool, ForthError>(true) {
                    r.0 == StepOutcome::Exit && final(self)@ == stepped.0
                } else {
                    r.0 == StepOutcome::Continue && r.1 == rl.next && final(self)@
                        == (StateModel {
                        out: recovered.out + prompt_text(recovered.compiling),
                        ..recovered
                    })
                }
            }),
    {
        let ghost st0 = self@;
        let ghost rl = read_line_spec(input@, pos as nat);
        let (got_line, next) = self.read_line(input, pos);
        if !got_line {
            return (StepOutcome::EndOfInput, next);
        }
        let outcome = self.process_line();
        proof {
            assert((self@, outcome) == line_step(st0, padded_line(rl.line), 0));
        }
        match outcome {
            Ok(true) => (StepOutcome::Exit, next),
            Ok(false) => {
                if !self.compiling {
                    emit_ok(&mut self.out);
                }
                let compiling = self.compiling;
                emit_prompt(&mut self.out, compiling);
                proof {
                    let stepped = line_step(st0, padded_line(rl.line), 0);
                    let recovered = after_line(stepped.0, stepped.1);
                    assert(self@ =~~= (StateModel {
                        out: recovered.out + prompt_text(recovered.compiling),
                        ..recovered
                    }));
                }
                (StepOutcome::Continue, next)
            },
            Err(e) => {
                emit_error(&mut self.out, e);
                if self.compiling {
                    emit_aborted(&mut self.out);
                    self.compiling = false;
                    self.user_words_top = self.current_def_start;
                }
                let compiling = self.compiling;
                emit_prompt(&mut self.out, compiling);
                proof {
                    let stepped = line_step(st0, padded_line(rl.line), 0);
                    let recovered = after_line(stepped.0, stepped.1);
                    assert(self@ =~~= (StateModel {
                        out: recovered.out + prompt_text(recovered.compiling),
                        ..recovered
                    }));
                }
                (StepOutcome::Continue, next)
            },
        }
    }

    /// Runs a whole session over the given input bytes: the greeting, then
    /// line after line until `bye` or the end of the input, writing every
    /// prompt, result and diagnostic to the output buffer.
    pub fn run(&mut self, input: &[u8])
        requires
            old(self).wf(),
        ensures
            final(self).wf(),
            final(self)@ == session(old(self)@, input@),
    {
        let ghost st0 = self@;
        self.start_session();
        proof {
            assert(self@ =~~= (StateModel {
                out: st0.out + banner_text() + prompt_text(st0.compiling),
                ..st0
            }));
            assert(session(st0, input@) == session_from(self@, input@, 0));
        }
        let mut pos: usize = 0;
        loop
            invariant
                self.wf(),
                st0 == old(self)@,
                pos <= input@.len(),
                session(st0, input@) == session_from(self@, input@, pos as nat),
            decreases input@.len() - pos,
        {
            let ghost before = self@;
            let (status, next) = self.step_line(input, pos);
            proof {
                lemma_read_line_props(input@, pos as nat, 0);
            }
            match status {
                StepOutcome::EndOfInput => {
                    proof {
                        assert(session_from(before, input@, pos as nat) == before);
                    }
                    return ;
                },
                StepOutcome::Exit => {
                    proof {
                        assert(session_from(before, input@, pos as nat) == self@);
                    }
                    return ;
                },
                StepOutcome::Continue => {
                    proof {
                        assert(session_from(before, input@, pos as nat) == session_from(
                            self@,
                            input@,
                            read_line_spec(input@, pos as nat).next,
                        ));
                    }
                    pos = next;
                },
            }
        }
    }
}

} // verus!
