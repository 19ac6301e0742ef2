use afd::interp::ForthInterpreter;
use afd::interp::StepOutcome;

fn run_session(input: &str) -> (ForthInterpreter, String) {
    let mut interp = ForthInterpreter::new();
    interp.init_builtins();
    interp.run(input.as_bytes());
    let text = String::from_utf8(interp.out.clone()).unwrap();
    (interp, text)
}

#[test]
fn addition_prints_the_sum() {
    let (_, out) = run_session("3 4 +  .\n");
    assert!(out.contains("7 "), "output was: {out}");
}

#[test]
fn division_by_zero_reports_and_pops_both_operands() {
    let (interp, out) = run_session("10 0 /\n");
    assert!(out.contains("Error: Division by zero"), "output was: {out}");
    // both operands are popped before the divisor is tested
    assert_eq!(interp.stack.size(), 0);
}

#[test]
fn rot_rearranges_the_top_three() {
    let (_, out) = run_session("1 2 3 rot .s\n");
    assert!(out.contains("<3> 2 3 1"), "output was: {out}");
}

#[test]
fn oversized_token_aborts_the_line() {
    let long_word = "x".repeat(64);
    let (_, out) = run_session(&format!("1 2 {long_word} +\n.s\n"));
    assert!(out.contains("Error: Word too long"), "output was: {out}");
    // the + after the oversized token never ran
    assert!(out.contains("<2> 1 2"), "output was: {out}");
}

#[test]
fn bye_ends_the_session() {
    let (_, out) = run_session("bye\n1 2 + .\n");
    assert!(out.contains("Goodbye!"), "output was: {out}");
    // nothing after bye is evaluated
    assert!(!out.contains("3 "), "output was: {out}");
    assert!(out.ends_with("Goodbye!\n"), "output was: {out}");
}

#[test]
fn step_line_reports_exit_on_bye() {
    let mut interp = ForthInterpreter::new();
    interp.init_builtins();
    interp.start_session();
    let input = b"bye\n";
    let (status, _) = interp.step_line(input, 0);
    assert_eq!(status, StepOutcome::Exit);
}

#[test]
fn dup_then_drop_leaves_contents_alone() {
    let (_, out) = run_session("5 9 dup drop .s\n");
    assert!(out.contains("<2> 5 9"), "output was: {out}");
}

#[test]
fn swap_twice_restores_the_top_two() {
    let (_, out) = run_session("1 2 swap swap .s\n");
    assert!(out.contains("<2> 1 2"), "output was: {out}");
}

#[test]
fn swap_exchanges_the_top_two() {
    let (_, out) = run_session("1 2 swap .s\n");
    assert!(out.contains("<2> 2 1"), "output was: {out}");
}

#[test]
fn over_copies_the_second_value() {
    let (_, out) = run_session("1 2 over .s\n");
    assert!(out.contains("<3> 1 2 1"), "output was: {out}");
}

#[test]
fn division_truncates_toward_zero() {
    let (_, out) = run_session("10 3 / .\n-7 2 / .\n7 -2 / .\n");
    assert!(out.contains("3 "), "output was: {out}");
    assert!(out.contains("-3 "), "output was: {out}");
}

#[test]
fn modulo_carries_the_dividend_sign() {
    let (_, out) = run_session("10 3 mod .\n-7 2 mod .\n");
    assert!(out.contains("1 "), "output was: {out}");
    assert!(out.contains("-1 "), "output was: {out}");
}

#[test]
fn arithmetic_wraps_in_32_bits() {
    let (_, out) = run_session("2147483647 1 + .\n");
    assert!(out.contains("-2147483648 "), "output was: {out}");
}

#[test]
fn comparisons_push_minus_one_or_zero() {
    let (_, out) = run_session("1 1 = .\n1 2 = .\n1 2 < .\n2 1 > .\n");
    assert!(out.contains("-1 "), "output was: {out}");
    assert!(out.contains("0 "), "output was: {out}");
}

#[test]
fn subtraction_and_multiplication() {
    let (_, out) = run_session("10 4 - .\n6 7 * .\n");
    assert!(out.contains("6 "), "output was: {out}");
    assert!(out.contains("42 "), "output was: {out}");
}

#[test]
fn unknown_word_is_echoed_and_reported() {
    let (_, out) = run_session("frobnicate\n");
    assert!(out.contains("Unknown word: frobnicate"), "output was: {out}");
    assert!(out.contains("Error: Unknown word"), "output was: {out}");
}

#[test]
fn underflow_reports_stack_underflow() {
    let (_, out) = run_session(".\n");
    assert!(out.contains("Error: Stack underflow"), "output was: {out}");
}

#[test]
fn dup_on_empty_reports_stack_empty() {
    let (_, out) = run_session("dup\n");
    assert!(out.contains("Error: Stack empty"), "output was: {out}");
}

#[test]
fn colon_inside_definition_reports_already_compiling() {
    let (interp, out) = run_session(": :\n");
    assert!(out.contains("Error: Already compiling"), "output was: {out}");
    assert!(out.contains("Compilation aborted"), "output was: {out}");
    assert!(!interp.compiling);
}

#[test]
fn semicolon_outside_definition_reports_not_compiling() {
    let (_, out) = run_session(";\n");
    assert!(out.contains("Error: Not compiling"), "output was: {out}");
}

#[test]
fn stack_overflow_reports_and_keeps_contents() {
    let mut line = String::new();
    for _ in 0..65 {
        line.push_str("1 ");
    }
    line.push('\n');
    let (interp, out) = run_session(&line);
    assert!(out.contains("Error: Stack overflow"), "output was: {out}");
    assert_eq!(interp.stack.size(), 64);
}

#[test]
fn defining_and_listing_a_user_word() {
    let (_, out) = run_session(": greet ;\ngreet\nwords\n");
    // the new word resolves: no unknown-word report
    assert!(!out.contains("Unknown word"), "output was: {out}");
    assert!(out.contains("greet"), "output was: {out}");
}

#[test]
fn words_lists_builtins_in_insertion_order() {
    let (_, out) = run_session("words\n");
    assert!(
        out.contains("Words: + - * / mod dup drop swap over rot . .s cr bye : ; = < > words"),
        "output was: {out}"
    );
}

#[test]
fn dictionary_overflow_reports_dictionary_full() {
    // twenty builtins plus twelve definitions fill the dictionary
    let mut input = String::new();
    for i in 0..13 {
        input.push_str(&format!(": w{i} ;\n"));
    }
    let (_, out) = run_session(&input);
    assert!(out.contains("Error: Dictionary full"), "output was: {out}");
}

#[test]
fn later_definition_shadows_earlier_one() {
    let mut interp = ForthInterpreter::new();
    interp.add_builtin(b"twice", 1);
    let first = interp.find_word(b"twice");
    interp.add_builtin(b"twice", 2);
    let second = interp.find_word(b"twice");
    assert_eq!(first, Some(0));
    assert_eq!(second, Some(1));
    assert_eq!(interp.dictionary[1].builtin_id, 2);
}

#[test]
fn user_word_shadows_a_builtin_of_the_same_name() {
    // once shadowed, `dup` resolves to the inert user word: no copy is made
    let mut interp = ForthInterpreter::new();
    interp.init_builtins();
    assert_eq!(interp.define_user(b"dup"), Ok(()));
    interp.run(b"1 dup .s\n");
    let out = String::from_utf8(interp.out.clone()).unwrap();
    assert!(out.contains("<1> 1"), "output was: {out}");
}

#[test]
fn define_user_appends_a_user_entry() {
    let mut interp = ForthInterpreter::new();
    assert_eq!(interp.define_user(b"thing"), Ok(()));
    let found = interp.find_word(b"thing");
    assert_eq!(found, Some(0));
    assert!(!interp.dictionary[0].is_builtin);
}

#[test]
fn unregistered_operation_id_reports_unknown_builtin() {
    let mut interp = ForthInterpreter::new();
    interp.init_builtins();
    interp.add_builtin(b"mystery", 99);
    interp.run(b"mystery\n");
    let out = String::from_utf8(interp.out.clone()).unwrap();
    assert!(out.contains("Error: Unknown builtin"), "output was: {out}");
}

#[test]
fn prompts_follow_the_mode() {
    let (_, out) = run_session(": half\ndone ;\n1 .\n");
    // interactive prompt before and after, compile prompt inside a definition
    assert!(out.contains("ok> "), "output was: {out}");
    assert!(out.contains(": "), "output was: {out}");
}

#[test]
fn banner_appears_once_at_startup() {
    let (_, out) = run_session("\n");
    assert!(out.starts_with("afd: Alien Forth Dialect v0.4\n"), "output was: {out}");
}

#[test]
fn cr_writes_a_newline() {
    let (_, out) = run_session("1 . cr 2 .\n");
    assert!(out.contains("1 \n2 "), "output was: {out}");
}

#[test]
fn line_without_terminator_is_discarded_at_end_of_input() {
    let (interp, out) = run_session("1 2 +");
    assert!(!out.contains("Error"), "output was: {out}");
    assert_eq!(interp.stack.size(), 0);
}

#[test]
fn empty_lines_are_acknowledged() {
    let (_, out) = run_session("\n\n");
    assert!(out.contains("ok\n"), "output was: {out}");
}

#[test]
fn dot_s_shows_count_and_contents_bottom_to_top() {
    let (_, out) = run_session("1 2 3 .s\n");
    assert!(out.contains("<3> 1 2 3"), "output was: {out}");
    let (_, empty_out) = run_session(".s\n");
    assert!(empty_out.contains("<0>"), "output was: {empty_out}");
}

#[test]
fn negative_values_print_with_a_minus_sign() {
    let (_, out) = run_session("-2147483648 .\n0 5 - .\n");
    assert!(out.contains("-2147483648 "), "output was: {out}");
    assert!(out.contains("-5 "), "output was: {out}");
}

#[test]
fn minimum_value_division_wraps() {
    let (_, out) = run_session("-2147483648 -1 / .\n-2147483648 -1 mod .\n");
    assert!(out.contains("-2147483648 "), "output was: {out}");
    assert!(out.contains("0 "), "output was: {out}");
}

#[test]
fn error_aborts_the_rest_of_the_line() {
    let (_, out) = run_session("1 0 / 5 .\n");
    assert!(out.contains("Error: Division by zero"), "output was: {out}");
    // the trailing print never ran
    assert!(!out.contains("5 "), "output was: {out}");
}

#[test]
fn long_names_are_truncated_when_defined() {
    let (interp, out) = run_session(": abcdefghijklmnopqrstuvwxyz ;\n");
    assert!(!out.contains("Error"), "output was: {out}");
    let found = interp.find_word(b"abcdefghijklmnop");
    assert!(found.is_some());
}
