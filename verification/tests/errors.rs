use sieve::{Compiler, ErrorType};

#[test]
fn unterminated_string() {
    let err = Compiler::new().compile(b"\"abc").unwrap_err();
    assert!(matches!(err.error_type(), ErrorType::UnterminatedString));
}

#[test]
fn unterminated_comment() {
    let err = Compiler::new().compile(b"/* abc").unwrap_err();
    assert!(matches!(err.error_type(), ErrorType::UnterminatedComment));
}

#[test]
fn unterminated_multiline() {
    let err = Compiler::new().compile(b"text:\nabc").unwrap_err();
    assert!(matches!(err.error_type(), ErrorType::UnterminatedMultiline));
}

#[test]
fn invalid_character() {
    let err = Compiler::new().compile(b"@").unwrap_err();
    assert!(matches!(err.error_type(), ErrorType::InvalidCharacter(64)));
}

#[test]
fn invalid_number() {
    let err = Compiler::new()
        .compile(b"if size :over 99999999999999999999999 { keep; }")
        .unwrap_err();
    assert!(matches!(err.error_type(), ErrorType::InvalidNumber(_)));
}

#[test]
fn unexpected_eof() {
    let err = Compiler::new().compile(b"if true").unwrap_err();
    assert!(matches!(err.error_type(), ErrorType::UnexpectedEOF));
}

#[test]
fn expected_constant_string() {
    let err = Compiler::new().compile(b"require \"a${b}c\";").unwrap_err();
    assert!(matches!(err.error_type(), ErrorType::ExpectedConstantString));
}

#[test]
fn too_many_nested_tests() {
    let err = Compiler::new()
        .with_max_nested_tests(3)
        .compile(b"if allof (allof (allof (allof (true)))) { keep; }")
        .unwrap_err();
    assert!(matches!(err.error_type(), ErrorType::TooManyNestedTests));
}

#[test]
fn too_many_includes() {
    let err = Compiler::new()
        .with_max_includes(0)
        .compile(b"require \"include\"; include \"other\";")
        .unwrap_err();
    assert!(matches!(err.error_type(), ErrorType::TooManyIncludes));
}

#[test]
fn too_many_nested_foreverypart() {
    let err = Compiler::new()
        .with_max_nested_foreverypart(1)
        .compile(
            b"require [\"foreverypart\", \"mime\"]; foreverypart { foreverypart { foreverypart { keep; } } }",
        )
        .unwrap_err();
    assert!(matches!(
        err.error_type(),
        ErrorType::TooManyNestedForEveryParts
    ));
}

#[test]
fn variable_is_local() {
    let err = Compiler::new()
        .compile(b"require [\"variables\", \"include\"]; set \"x\" \"1\"; global \"x\";")
        .unwrap_err();
    assert!(matches!(err.error_type(), ErrorType::VariableIsLocal(_)));
}

#[test]
fn variable_name_too_long() {
    let err = Compiler::new()
        .compile(b"require \"variables\"; set \"abcdefghijklmnopqrstuvwxyz0123456789\" \"1\";")
        .unwrap_err();
    assert!(matches!(err.error_type(), ErrorType::VariableTooLong));
}

#[test]
fn label_already_defined() {
    let err = Compiler::new()
        .compile(
            b"require [\"foreverypart\", \"mime\"]; foreverypart :name \"a\" { foreverypart :name \"b\" { foreverypart :name \"a\" { keep; } } }",
        )
        .unwrap_err();
    assert!(matches!(err.error_type(), ErrorType::LabelAlreadyDefined(_)));
}

#[test]
fn label_undefined() {
    let err = Compiler::new()
        .compile(
            b"require [\"foreverypart\", \"mime\"]; foreverypart { break :name \"zz\"; }",
        )
        .unwrap_err();
    assert!(matches!(err.error_type(), ErrorType::LabelUndefined(_)));
}

#[test]
fn unsupported_comparator() {
    let err = Compiler::new()
        .compile(b"if header :comparator \"i;weird\" :is \"a\" \"b\" { keep; }")
        .unwrap_err();
    assert!(matches!(err.error_type(), ErrorType::UnsupportedComparator(_)));
}

#[test]
fn duplicated_parameter() {
    let err = Compiler::new()
        .compile(b"require [\"fileinto\", \"copy\"]; fileinto :copy :copy \"x\";")
        .unwrap_err();
    assert!(matches!(err.error_type(), ErrorType::DuplicatedParameter));
}

#[test]
fn invalid_namespace() {
    let err = Compiler::new()
        .compile(b"require \"variables\"; set \"foo.bar\" \"x\";")
        .unwrap_err();
    assert!(matches!(err.error_type(), ErrorType::InvalidNamespace(_)));
}

#[test]
fn string_too_long() {
    let err = Compiler::new()
        .with_max_string_size(3)
        .compile(b"keep \"abcd\";")
        .unwrap_err();
    assert!(matches!(err.error_type(), ErrorType::StringTooLong));
}

#[test]
fn missing_size_tag() {
    let err = Compiler::new().compile(b"if size 10 { keep; }").unwrap_err();
    assert!(matches!(err.error_type(), ErrorType::MissingTag(_)));
}
