use sheen::ast::{Command, Program};
use sheen::bytecode::Instruction;
use sheen::compiler::compile;
use sheen::interpreter::execute_script;
use sheen::lexer::Lexer;
use sheen::parse_result::{file_context_message, in_file_context, ParseError, SourceLocation};
use sheen::parser::parse_file;
use sheen::text::{decimal_len, push_decimal, push_decimal_aligned};
use sheen::vm::VM;

fn run_text(text: &str) -> (String, usize) {
    let program = parse_file(text).unwrap();
    let mut vm = VM::new(compile(program));
    let out = vm.run();
    (out, vm.counter())
}

#[test]
fn blank_lines_are_suppressed() {
    let out = execute_script("\n\n\na\n").unwrap();
    assert_eq!(out, "   4:  a\n");
}

#[test]
fn no_trailing_newline_keeps_last_line_open() {
    let out = execute_script("ab\ncd").unwrap();
    assert_eq!(out, "   1:  ab\n   2:  cd");
}

#[test]
fn x_is_rejected_at_its_position() {
    // The X opens line 2, so it stands in column 1.
    let err = parse_file("ab\nXc").unwrap_err();
    assert_eq!(err.location, SourceLocation { line: 2, column: 1 });
    assert!(err.message.contains("X"));
    let err = execute_script("ab\nXc").unwrap_err();
    assert_eq!(err.location, SourceLocation { line: 2, column: 1 });
    assert_eq!(err.to_text(), "X at position 2:1");
}

#[test]
fn first_x_wins() {
    let err = parse_file("aXbX").unwrap_err();
    assert_eq!(err.location, SourceLocation { line: 1, column: 2 });
}

#[test]
fn empty_input() {
    let program = parse_file("").unwrap();
    assert!(program.commands.is_empty());
    let compiled = compile(program);
    assert_eq!(compiled.instructions, vec![Instruction::Halt]);
    assert_eq!(compiled.initial_counter, 1);
    let mut vm = VM::new(compiled);
    assert_eq!(vm.run(), "");
    assert_eq!(execute_script("").unwrap(), "");
}

#[test]
fn compiling_twice_gives_the_same_instructions() {
    let program = parse_file("\nab\n\ncd").unwrap();
    let a = compile(program.clone());
    let b = compile(program);
    assert_eq!(a.instructions, b.instructions);
    assert_eq!(a.initial_counter, b.initial_counter);
}

#[test]
fn locations_increase() {
    let mut lexer = Lexer::new("ab\n\ncd\ne".to_string());
    let mut tokens = Vec::new();
    while let Some(t) = lexer.next() {
        tokens.push(t);
    }
    assert_eq!(tokens.len(), 8);
    for w in tokens.windows(2) {
        let (a, b) = (w[0].1, w[1].1);
        assert!(a.line <= b.line);
        if a.line == b.line {
            assert!(a.column < b.column);
        }
        assert!(b.line >= 1 && b.column >= 1);
    }
    assert_eq!(tokens[0], ('a', SourceLocation { line: 1, column: 1 }));
    assert_eq!(tokens[2], ('\n', SourceLocation { line: 1, column: 3 }));
    assert_eq!(tokens[3], ('\n', SourceLocation { line: 2, column: 1 }));
    assert_eq!(tokens[5], ('d', SourceLocation { line: 3, column: 2 }));
    assert_eq!(tokens[7], ('e', SourceLocation { line: 4, column: 1 }));
    assert_eq!(lexer.next(), None);
}

#[test]
fn counter_counts_newlines() {
    let (out, counter) = run_text("a\n\nb\n\n\n");
    assert_eq!(counter, 6);
    assert_eq!(out, "   1:  a\n   3:  b\n");
    let (_, counter) = run_text("");
    assert_eq!(counter, 1);
    let (out, counter) = run_text("\n\n");
    assert_eq!(counter, 3);
    assert_eq!(out, "");
}

#[test]
fn parse_gives_one_command_per_character() {
    let program = parse_file("a\nb").unwrap();
    assert_eq!(
        program.commands,
        vec![Command::Char('a'), Command::Newline, Command::Char('b')]
    );
}

#[test]
fn compile_emits_prefix_once_per_line() {
    let program = Program {
        commands: vec![
            Command::Char('a'),
            Command::Char('b'),
            Command::Newline,
            Command::Newline,
            Command::Char('c'),
        ],
    };
    let compiled = compile(program);
    assert_eq!(
        compiled.instructions,
        vec![
            Instruction::PrintCounter,
            Instruction::Char('a'),
            Instruction::Char('b'),
            Instruction::Newline,
            Instruction::IncrementCounter,
            Instruction::IncrementCounter,
            Instruction::PrintCounter,
            Instruction::Char('c'),
            Instruction::Halt,
        ]
    );
}

#[test]
fn wide_counters_are_not_truncated() {
    let mut text = String::new();
    for _ in 0..12344 {
        text.push('\n');
    }
    text.push('z');
    assert_eq!(execute_script(&text).unwrap(), "12345:  z");
    let mut text = String::new();
    for _ in 0..99 {
        text.push('\n');
    }
    text.push('q');
    assert_eq!(execute_script(&text).unwrap(), " 100:  q");
}

#[test]
fn vm_stops_at_halt() {
    let compiled = sheen::bytecode::CompiledProgram {
        initial_counter: 7,
        instructions: vec![
            Instruction::PrintCounter,
            Instruction::Char('x'),
            Instruction::Halt,
            Instruction::Char('y'),
            Instruction::Halt,
        ],
    };
    let mut vm = VM::new(compiled);
    assert_eq!(vm.run(), "   7:  x");
    assert_eq!(vm.counter(), 7);
}

#[test]
fn decimal_rendering() {
    let mut s = String::new();
    push_decimal(&mut s, 0);
    push_decimal(&mut s, 907);
    assert_eq!(s, "0907");
    assert_eq!(decimal_len(0), 1);
    assert_eq!(decimal_len(12345), 5);
    let mut s = String::from(">");
    push_decimal_aligned(&mut s, 42, 4);
    assert_eq!(s, ">  42");
}

#[test]
fn location_and_error_text() {
    let loc = SourceLocation { line: 12, column: 3 };
    assert_eq!(loc.to_text(), "12:3");
    let e = ParseError::new("bad", loc);
    assert_eq!(e.message, "bad");
    assert_eq!(e.location, loc);
    assert_eq!(e.to_text(), "bad at position 12:3");
}

#[test]
fn file_context_text() {
    assert_eq!(
        file_context_message("\"a.shn\"", "X at position 1:1"),
        "Error with file \"a.shn\":\nX at position 1:1"
    );
    assert_eq!(
        in_file_context("dir/a \"b\".shn", "oops"),
        "Error with file \"dir/a \\\"b\\\".shn\":\noops"
    );
}

#[test]
fn non_ascii_text_is_echoed() {
    assert_eq!(execute_script("é\nü").unwrap(), "   1:  é\n   2:  ü");
    let err = execute_script("é\nüX").unwrap_err();
    assert_eq!(err.location, SourceLocation { line: 2, column: 2 });
}
