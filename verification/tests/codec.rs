use sieve::{check_wf, deserialize, serialize, Compiler, Instruction, MatchType, Sieve, StringTest, Test, Value};

#[test]
fn roundtrip_simple_program() {
    let s = Compiler::new()
        .compile(b"require \"fileinto\"; if header :is \"Subject\" \"spam\" { fileinto \"Junk\"; stop; }")
        .unwrap();
    let bytes = serialize(&s);
    let s2 = deserialize(&bytes).unwrap();
    assert_eq!(s2, s);
}

#[test]
fn roundtrip_covers_every_emitted_instruction() {
    let script = b"require [\"fileinto\", \"variables\", \"foreverypart\", \"mime\", \"reject\", \"ihave\", \"include\", \"copy\", \"regex\"];\n\
        set :upper :replace \"a\" \"b\" \"x\" \"${1} and ${global.g}\";\n\
        if anyof (true, allof (false, header :matches [\"To\", \"Cc\"] \"*@example.org\"), size :under 2M, exists \"Date\", string :regex \"${x}\" \"ab+c\") {\n\
            fileinto :copy :create \"one\";\n\
            redirect :copy \"two@example.org\";\n\
        } elsif not false {\n\
            reject \"sorry\";\n\
        } else {\n\
            discard;\n\
        }\n\
        foreverypart :name \"outer\" { break :name \"outer\"; }\n\
        include :once :optional :global \"extra\";\n\
        global \"g\";\n\
        unknowncommand 42;\n\
        error \"done\";\n\
        return;\n\
        keep;\n\
        stop;";
    let s = Compiler::new().with_no_capability_check(true).compile(script).unwrap();
    assert!(check_wf(&s));
    let bytes = serialize(&s);
    let s2 = deserialize(&bytes).unwrap();
    assert_eq!(s2, s);
}

#[test]
fn reserializing_reproduces_the_bytes() {
    // deserialize only accepts byte-exact encodings, so writing its result
    // back yields the input unchanged
    let s = Compiler::new()
        .compile(b"require \"variables\"; set :length \"n\" \"hello\"; if string :is \"${n}\" \"5\" { discard; }")
        .unwrap();
    let bytes = serialize(&s);
    let s2 = deserialize(&bytes).unwrap();
    assert_eq!(serialize(&s2), bytes);
}

#[test]
fn corrupted_version_is_refused() {
    let s = Compiler::new().compile(b"keep;").unwrap();
    let mut bytes = serialize(&s);
    bytes[0] = bytes[0].wrapping_add(1);
    assert!(deserialize(&bytes).is_none());
}

#[test]
fn truncated_input_is_refused() {
    let s = Compiler::new().compile(b"keep; discard;").unwrap();
    let bytes = serialize(&s);
    assert!(deserialize(&bytes[..bytes.len() - 1].to_vec()).is_none());
    let mut extended = bytes.clone();
    extended.push(0);
    assert!(deserialize(&extended).is_none());
}

#[test]
fn empty_program_roundtrip() {
    let s = Compiler::new().compile(b"").unwrap();
    let s2 = deserialize(&serialize(&s)).unwrap();
    assert_eq!(s2.instructions.len(), 0);
    assert_eq!(s2.num_vars, 0);
    assert_eq!(s2.num_match_vars, 0);
}

#[test]
fn deserialize_rejects_invalid_regex_values() {
    let bad = Sieve {
        instructions: vec![Instruction::Test(Test::StringTest(StringTest {
            source: vec![Value::Text(b"x".to_vec())],
            key_list: vec![Value::Regex(b"(".to_vec())],
            match_type: MatchType::Regex(0),
        }))],
        num_vars: 0,
        num_match_vars: 0,
    };
    let bytes = serialize(&bad);
    assert!(deserialize(&bytes).is_none());

    let good = Sieve {
        instructions: vec![Instruction::Test(Test::StringTest(StringTest {
            source: vec![Value::Text(b"x".to_vec())],
            key_list: vec![Value::Regex(b"^a.*$".to_vec())],
            match_type: MatchType::Regex(0),
        }))],
        num_vars: 0,
        num_match_vars: 0,
    };
    let bytes = serialize(&good);
    assert_eq!(deserialize(&bytes), Some(good));
}
