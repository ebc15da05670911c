use sieve::{Compiler, ErrorType, Instruction, Test, Token, TokenInfo, Value};

fn compiler() -> Compiler {
    Compiler::new()
}

#[test]
fn defaults_and_builders() {
    let c = Compiler::new();
    assert_eq!(c.max_script_size, 1024 * 1024);
    assert_eq!(c.max_string_size, 4096);
    assert_eq!(c.max_nested_foreverypart, 3);
    assert_eq!(c.max_match_variables, 30);
    let c = c.with_max_nested_blocks(10).with_max_string_size(100);
    assert_eq!(c.max_nested_blocks, 10);
    assert_eq!(c.max_string_size, 100);
    let mut c = c;
    c.set_max_includes(2);
    assert_eq!(c.max_includes, 2);
}

#[test]
fn empty_script_compiles() {
    let s = compiler().compile(b"").unwrap();
    assert_eq!(s.instructions.len(), 0);
    assert_eq!(s.num_vars, 0);
    assert_eq!(s.num_match_vars, 0);
}

#[test]
fn simple_if_layout() {
    let s = compiler().compile(b"if true { keep; }").unwrap();
    assert_eq!(s.instructions.len(), 3);
    assert!(matches!(s.instructions[0], Instruction::Test(Test::True)));
    assert!(matches!(s.instructions[1], Instruction::Jz(3)));
    assert!(matches!(s.instructions[2], Instruction::Keep));
}

#[test]
fn if_else_layout() {
    let s = compiler().compile(b"if false { keep; } else { discard; }").unwrap();
    // Test; Jz -> else; Keep; Jmp -> end; Discard
    assert_eq!(s.instructions.len(), 5);
    assert!(matches!(s.instructions[0], Instruction::Test(Test::False)));
    assert!(matches!(s.instructions[1], Instruction::Jz(4)));
    assert!(matches!(s.instructions[2], Instruction::Keep));
    assert!(matches!(s.instructions[3], Instruction::Jmp(5)));
    assert!(matches!(s.instructions[4], Instruction::Discard));
}

#[test]
fn elsif_chain_layout() {
    let s = compiler()
        .compile(b"if false { keep; } elsif true { discard; } else { stop; }")
        .unwrap();
    // 0 Test(False) 1 Jz(4) 2 Keep 3 Jmp(9) 4 Test(True) 5 Jz(8) 6 Discard 7 Jmp(9) 8 Stop
    assert_eq!(s.instructions.len(), 9);
    assert!(matches!(s.instructions[1], Instruction::Jz(4)));
    assert!(matches!(s.instructions[3], Instruction::Jmp(9)));
    assert!(matches!(s.instructions[5], Instruction::Jz(8)));
    assert!(matches!(s.instructions[7], Instruction::Jmp(9)));
    assert!(matches!(s.instructions[8], Instruction::Stop));
}

#[test]
fn foreverypart_loop_layout() {
    let s = compiler()
        .compile(b"require [\"foreverypart\", \"mime\"]; foreverypart { break; }")
        .unwrap();
    // 0 Require 1 Push 2 ForEveryPart{jz=6} 3 Pop(1) 4 Jmp(6) 5 Jmp(2)
    assert_eq!(s.instructions.len(), 6);
    assert!(matches!(s.instructions[1], Instruction::ForEveryPartPush));
    match &s.instructions[2] {
        Instruction::ForEveryPart(f) => assert_eq!(f.jz_pos, 6),
        other => panic!("expected loop head, found {:?}", other),
    }
    assert!(matches!(s.instructions[3], Instruction::ForEveryPartPop(1)));
    assert!(matches!(s.instructions[4], Instruction::Jmp(6)));
    assert!(matches!(s.instructions[5], Instruction::Jmp(2)));
}

#[test]
fn missing_block_is_unexpected_token() {
    let err = compiler().compile(b"if header :is \"X\" \"y\" ;").unwrap_err();
    match err.error_type() {
        ErrorType::UnexpectedToken { expected, found } => {
            assert_eq!(expected.as_slice(), b"{");
            assert_eq!(found.as_slice(), b";");
        }
        other => panic!("wrong error {:?}", other),
    }
}

#[test]
fn capability_gating() {
    let err = compiler().compile(b"fileinto \"folder\";").unwrap_err();
    assert!(matches!(err.error_type(), ErrorType::UndeclaredCapability(_)));
    assert!(compiler().compile(b"require \"fileinto\"; fileinto \"folder\";").is_ok());
    assert!(compiler()
        .with_no_capability_check(true)
        .compile(b"fileinto \"folder\";")
        .is_ok());
}

#[test]
fn script_too_long() {
    let err = compiler().with_max_script_size(4).compile(b"keep;").unwrap_err();
    assert!(matches!(err.error_type(), ErrorType::ScriptTooLong));
    assert_eq!(err.line_num(), 0);
    assert_eq!(err.line_pos(), 0);
}

#[test]
fn unterminated_block() {
    let err = compiler().compile(b"if true { keep;").unwrap_err();
    assert!(matches!(err.error_type(), ErrorType::UnterminatedBlock));
}

#[test]
fn break_outside_loop() {
    let err = compiler()
        .compile(b"require \"foreverypart\"; break;")
        .unwrap_err();
    assert!(matches!(err.error_type(), ErrorType::BreakOutsideLoop));
}

#[test]
fn unknown_command_is_tolerated() {
    let s = compiler().compile(b"frobnicate \"x\" :deeply;").unwrap();
    assert_eq!(s.instructions.len(), 1);
    match &s.instructions[0] {
        Instruction::Invalid(inv) => assert_eq!(inv.name().as_slice(), b"frobnicate"),
        other => panic!("expected tolerated command, found {:?}", other),
    }
}

#[test]
fn set_registers_local_variables() {
    let s = compiler()
        .compile(b"require \"variables\"; set \"alpha\" \"1\"; set \"beta\" \"2\";")
        .unwrap();
    assert_eq!(s.num_vars, 2);
    match &s.instructions[1] {
        Instruction::SetVar(a) => {
            assert_eq!(a.name, sieve::VariableType::Local(0));
            assert_eq!(a.value, Value::Text(b"1".to_vec()));
        }
        other => panic!("expected set, found {:?}", other),
    }
}

#[test]
fn string_template_compiles_to_list() {
    let s = compiler()
        .compile(b"require [\"variables\", \"fileinto\"]; set \"x\" \"a\"; fileinto \"pre ${x} post\";")
        .unwrap();
    match &s.instructions[2] {
        Instruction::FileInto(f) => match &f.folder {
            Value::List(items) => {
                assert_eq!(items.len(), 3);
                assert_eq!(items[0], Value::Text(b"pre ".to_vec()));
                assert_eq!(items[1], Value::Variable(sieve::VariableType::Local(0)));
                assert_eq!(items[2], Value::Text(b" post".to_vec()));
            }
            other => panic!("expected a template, found {:?}", other),
        },
        other => panic!("expected fileinto, found {:?}", other),
    }
}

#[test]
fn match_variable_out_of_range() {
    let err = compiler()
        .compile(b"require \"variables\"; set \"x\" \"${99}\";")
        .unwrap_err();
    assert!(matches!(err.error_type(), ErrorType::InvalidMatchVariable(99)));
}

#[test]
fn invalid_regex_is_rejected() {
    let err = compiler()
        .compile(b"require \"regex\"; if header :regex \"subject\" \"(\" { keep; }")
        .unwrap_err();
    assert!(matches!(err.error_type(), ErrorType::InvalidRegex(_)));
}

#[test]
fn too_many_nested_blocks() {
    let mut script = Vec::new();
    for _ in 0..20 {
        script.extend_from_slice(b"if true { ");
    }
    let err = compiler().with_max_nested_blocks(5).compile(&script).unwrap_err();
    assert!(matches!(err.error_type(), ErrorType::TooManyNestedBlocks));
}

#[test]
fn number_with_scale_suffix() {
    let s = compiler().compile(b"if size :over 10K { discard; }").unwrap();
    match &s.instructions[0] {
        Instruction::Test(Test::Size(st)) => {
            assert!(st.over);
            assert_eq!(st.limit, 10240);
        }
        other => panic!("expected size test, found {:?}", other),
    }
}

#[test]
fn comments_and_multiline_strings() {
    let script = b"# a comment\n/* span\nning */ require \"variables\";\nset \"x\" text:\nline one\n..dots\n.\n;";
    let s = compiler().compile(script).unwrap();
    match &s.instructions[1] {
        Instruction::SetVar(a) => {
            assert_eq!(a.value, Value::Text(b"line one\n.dots\n".to_vec()));
        }
        other => panic!("expected set, found {:?}", other),
    }
}

#[test]
fn token_info_error_builders() {
    let ti = TokenInfo {
        token: Token::Semicolon,
        line_num: 3,
        line_pos: 9,
    };
    let err = ti.expected("string");
    assert_eq!(err.line_num(), 3);
    assert_eq!(err.line_pos(), 9);
    match err.error_type() {
        ErrorType::UnexpectedToken { expected, found } => {
            assert_eq!(expected.as_slice(), b"string");
            assert_eq!(found.as_slice(), b";");
        }
        other => panic!("wrong error {:?}", other),
    }
    let ti = TokenInfo {
        token: Token::Comma,
        line_num: 1,
        line_pos: 0,
    };
    let err = ti.missing_tag(":over");
    assert!(matches!(err.error_type(), ErrorType::MissingTag(t) if t.as_slice() == b":over"));
    let ti = TokenInfo {
        token: Token::Comma,
        line_num: 1,
        line_pos: 0,
    };
    let err = ti.custom(ErrorType::UnexpectedEOF);
    assert!(matches!(err.error_type(), ErrorType::UnexpectedEOF));
}

#[test]
fn unexpected_token_message() {
    let err = Compiler::new().compile(b"if header :is \"X\" \"y\" ;").unwrap_err();
    assert_eq!(
        err.message(),
        "Expected token { but found ; at line 1, column 22."
    );
}

#[test]
fn error_message_wording() {
    let err = compiler().compile(b"if true { keep;").unwrap_err();
    assert_eq!(err.message(), "Unterminated block at line 1, column 7.");
}

#[test]
fn all_jumps_stay_in_range() {
    let script = b"require [\"foreverypart\", \"mime\"];\nforeverypart { if exists \"X\" { break; } }\nif anyof (true, allof (false, true)) { keep; } else { discard; }";
    let s = compiler().compile(script).unwrap();
    let len = s.instructions.len();
    for i in &s.instructions {
        match i {
            Instruction::Jmp(t) | Instruction::Jz(t) | Instruction::Jnz(t) => {
                assert!(*t <= len && *t != usize::MAX)
            }
            Instruction::ForEveryPart(f) => assert!(f.jz_pos <= len && f.jz_pos != usize::MAX),
            _ => {}
        }
    }
}

#[test]
fn blank_script_compiles_to_empty_program() {
    let s = Compiler::new().compile(b"  \t\r\n\n   ").unwrap();
    assert!(s.instructions.is_empty());
    assert_eq!(s.num_vars, 0);
    assert_eq!(s.num_match_vars, 0);
    let s = Compiler::new().compile(b"# only a comment\n/* and a block */\n").unwrap();
    assert!(s.instructions.is_empty());
}
