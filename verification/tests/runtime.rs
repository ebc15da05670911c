use sieve::{Action, ActionList, Compiler, Context, Event, Message, Modifier, Part, RuntimeError, Variable};

fn message_with_subject(subject: &str) -> Message {
    Message {
        parts: vec![Part {
            headers: vec![(b"Subject".to_vec(), subject.as_bytes().to_vec())],
            body: Vec::new(),
            subparts: Vec::new(),
        }],
        size: 100,
    }
}

fn run_to_end(ctx: &mut Context) -> Result<(Vec<Action>, bool), RuntimeError> {
    loop {
        match ctx.run()? {
            Event::Finished {
                actions,
                implicit_keep,
            } => return Ok((actions, implicit_keep)),
            _ => {}
        }
    }
}

#[test]
fn fileinto_on_match() {
    let sieve = Compiler::new()
        .compile(b"require \"fileinto\"; if header :is \"Subject\" \"spam\" { fileinto \"Junk\"; stop; }")
        .unwrap();
    let msg = message_with_subject("spam");
    let mut ctx = Context::new(&sieve, &msg);
    let (actions, implicit) = run_to_end(&mut ctx).unwrap();
    assert_eq!(
        actions,
        vec![Action::FileInto {
            folder: b"Junk".to_vec(),
            copy: false,
            create: false
        }]
    );
    assert!(!implicit);
}

#[test]
fn implicit_keep_on_no_match() {
    let sieve = Compiler::new()
        .compile(b"require \"fileinto\"; if header :is \"Subject\" \"spam\" { fileinto \"Junk\"; stop; }")
        .unwrap();
    let msg = message_with_subject("hello");
    let mut ctx = Context::new(&sieve, &msg);
    let (actions, implicit) = run_to_end(&mut ctx).unwrap();
    assert_eq!(actions, vec![Action::Keep]);
    assert!(implicit);
}

#[test]
fn discard_cancels_implicit_keep() {
    let sieve = Compiler::new()
        .compile(b"require [\"variables\"]; set \"x\" \"Hello\"; if string :is \"${x}\" \"Hello\" { discard; }")
        .unwrap();
    let msg = message_with_subject("any");
    let mut ctx = Context::new(&sieve, &msg);
    let (actions, implicit) = run_to_end(&mut ctx).unwrap();
    assert_eq!(actions, Vec::<Action>::new());
    assert!(!implicit);
}

#[test]
fn fileinto_dedup_by_mailbox() {
    let sieve = Compiler::new()
        .compile(b"require \"fileinto\"; fileinto \"a\"; fileinto \"a\"; fileinto \"b\";")
        .unwrap();
    let msg = message_with_subject("x");
    let mut ctx = Context::new(&sieve, &msg);
    let (actions, implicit) = run_to_end(&mut ctx).unwrap();
    assert_eq!(
        actions,
        vec![
            Action::FileInto {
                folder: b"a".to_vec(),
                copy: false,
                create: false
            },
            Action::FileInto {
                folder: b"b".to_vec(),
                copy: false,
                create: false
            },
        ]
    );
    assert!(!implicit);
}

#[test]
fn explicit_keep_is_idempotent() {
    let sieve = Compiler::new().compile(b"keep; keep;").unwrap();
    let msg = message_with_subject("x");
    let mut ctx = Context::new(&sieve, &msg);
    let (actions, implicit) = run_to_end(&mut ctx).unwrap();
    assert_eq!(actions, vec![Action::Keep]);
    assert!(!implicit);
}

#[test]
fn foreverypart_visits_each_part_once() {
    // parts: root 0 with children 1 and 2; each visit files the part's
    // marker header into a mailbox, so the visit order is observable
    let sieve = Compiler::new()
        .compile(
            b"require [\"foreverypart\", \"mime\", \"fileinto\"];\nforeverypart { if header :matches \"Marker\" \"*\" { fileinto \"${1}\"; } }",
        )
        .unwrap();
    let msg = Message {
        parts: vec![
            Part {
                headers: Vec::new(),
                body: Vec::new(),
                subparts: vec![1, 2],
            },
            Part {
                headers: vec![(b"Marker".to_vec(), b"one".to_vec())],
                body: Vec::new(),
                subparts: Vec::new(),
            },
            Part {
                headers: vec![(b"Marker".to_vec(), b"two".to_vec())],
                body: Vec::new(),
                subparts: Vec::new(),
            },
        ],
        size: 10,
    };
    let mut ctx = Context::new(&sieve, &msg);
    let (actions, implicit) = run_to_end(&mut ctx).unwrap();
    assert_eq!(
        actions,
        vec![
            Action::FileInto {
                folder: b"one".to_vec(),
                copy: false,
                create: false
            },
            Action::FileInto {
                folder: b"two".to_vec(),
                copy: false,
                create: false
            },
        ]
    );
    assert!(!implicit);
}

#[test]
fn break_leaves_loop_after_match() {
    let sieve = Compiler::new()
        .compile(
            b"require [\"foreverypart\", \"mime\"];\nforeverypart { if header :matches \"Content-Type\" \"text/*\" { break; } }",
        )
        .unwrap();
    let msg = Message {
        parts: vec![
            Part {
                headers: Vec::new(),
                body: Vec::new(),
                subparts: vec![1, 2],
            },
            Part {
                headers: vec![(b"Content-Type".to_vec(), b"image/png".to_vec())],
                body: Vec::new(),
                subparts: Vec::new(),
            },
            Part {
                headers: vec![(b"Content-Type".to_vec(), b"text/plain".to_vec())],
                body: Vec::new(),
                subparts: Vec::new(),
            },
        ],
        size: 10,
    };
    let mut ctx = Context::new(&sieve, &msg);
    let (actions, implicit) = run_to_end(&mut ctx).unwrap();
    assert_eq!(actions, vec![Action::Keep]);
    assert!(implicit);
}

#[test]
fn match_variables_capture_wildcards() {
    let sieve = Compiler::new()
        .compile(
            b"require [\"fileinto\", \"variables\"]; if header :matches \"Subject\" \"*world\" { fileinto \"${1}\"; }",
        )
        .unwrap();
    let msg = message_with_subject("hello world");
    let mut ctx = Context::new(&sieve, &msg);
    let (actions, _) = run_to_end(&mut ctx).unwrap();
    assert_eq!(
        actions,
        vec![Action::FileInto {
            folder: b"hello ".to_vec(),
            copy: false,
            create: false
        }]
    );
}

#[test]
fn size_test_branches() {
    let sieve = Compiler::new()
        .compile(b"require \"fileinto\"; if size :over 50 { fileinto \"big\"; } else { fileinto \"small\"; }")
        .unwrap();
    let msg = message_with_subject("x");
    let mut ctx = Context::new(&sieve, &msg);
    let (actions, _) = run_to_end(&mut ctx).unwrap();
    assert_eq!(
        actions,
        vec![Action::FileInto {
            folder: b"big".to_vec(),
            copy: false,
            create: false
        }]
    );
}

#[test]
fn reject_action_and_reason() {
    let sieve = Compiler::new()
        .compile(b"require \"reject\"; reject \"no thanks\";")
        .unwrap();
    let msg = message_with_subject("x");
    let mut ctx = Context::new(&sieve, &msg);
    let (actions, implicit) = run_to_end(&mut ctx).unwrap();
    assert_eq!(
        actions,
        vec![Action::Reject {
            ereject: false,
            reason: b"no thanks".to_vec()
        }]
    );
    assert!(!implicit);
}

#[test]
fn error_command_raises() {
    let sieve = Compiler::new()
        .compile(b"require \"ihave\"; error \"boom\";")
        .unwrap();
    let msg = message_with_subject("x");
    let mut ctx = Context::new(&sieve, &msg);
    let err = run_to_end(&mut ctx).unwrap_err();
    assert_eq!(err, RuntimeError::ScriptErrorMessage(b"boom".to_vec()));
    assert_eq!(err.message(), "Script reported error boom.");
}

#[test]
fn cpu_limit_stops_runaway_scripts() {
    let sieve = Compiler::new().compile(b"keep; keep; keep; keep;").unwrap();
    let msg = message_with_subject("x");
    let mut ctx = Context::new(&sieve, &msg).with_cpu_limit(2);
    let err = run_to_end(&mut ctx).unwrap_err();
    assert_eq!(err, RuntimeError::CPULimitReached);
}

#[test]
fn set_modifiers_transform_values() {
    let sieve = Compiler::new()
        .compile(
            b"require [\"variables\", \"fileinto\"]; set :upper \"a\" \"abc\"; if string :is \"${a}\" \"ABC\" { fileinto \"ok\"; }",
        )
        .unwrap();
    let msg = message_with_subject("x");
    let mut ctx = Context::new(&sieve, &msg);
    let (actions, _) = run_to_end(&mut ctx).unwrap();
    assert_eq!(
        actions,
        vec![Action::FileInto {
            folder: b"ok".to_vec(),
            copy: false,
            create: false
        }]
    );
}

#[test]
fn modifier_apply_directly() {
    let program = Compiler::new().compile(b"").unwrap();
    let msg = message_with_subject("x");
    let ctx = Context::new(&program, &msg);
    assert_eq!(Modifier::Lower.apply(&b"AbC".to_vec(), &ctx), b"abc".to_vec());
    assert_eq!(Modifier::Upper.apply(&b"AbC".to_vec(), &ctx), b"ABC".to_vec());
    assert_eq!(Modifier::UpperFirst.apply(&b"abc".to_vec(), &ctx), b"Abc".to_vec());
    assert_eq!(Modifier::LowerFirst.apply(&b"ABC".to_vec(), &ctx), b"aBC".to_vec());
    assert_eq!(Modifier::Length.apply(&b"hello".to_vec(), &ctx), b"5".to_vec());
    assert_eq!(
        Modifier::QuoteWildcard.apply(&b"a*b?c".to_vec(), &ctx),
        b"a\\*b\\?c".to_vec()
    );
    assert_eq!(
        Modifier::QuoteRegex.apply(&b"a.b".to_vec(), &ctx),
        b"a\\.b".to_vec()
    );
    assert_eq!(
        Modifier::EncodeUrl.apply(&b"a b".to_vec(), &ctx),
        b"a%20b".to_vec()
    );
    assert_eq!(
        Modifier::Replace {
            find: sieve::Value::Text(b"aa".to_vec()),
            replace: sieve::Value::Text(b"b".to_vec())
        }
        .apply(&b"aaaa".to_vec(), &ctx),
        b"bb".to_vec()
    );
}

#[test]
fn regex_test_matches_at_runtime() {
    let sieve = Compiler::new()
        .compile(b"require [\"regex\", \"fileinto\"]; if header :regex \"Subject\" \"^he.*o$\" { fileinto \"re\"; }")
        .unwrap();
    let msg = message_with_subject("hello");
    let mut ctx = Context::new(&sieve, &msg);
    let (actions, _) = run_to_end(&mut ctx).unwrap();
    assert_eq!(
        actions,
        vec![Action::FileInto {
            folder: b"re".to_vec(),
            copy: false,
            create: false
        }]
    );
    let msg2 = message_with_subject("goodbye");
    let mut ctx2 = Context::new(&sieve, &msg2);
    let (actions2, implicit2) = run_to_end(&mut ctx2).unwrap();
    assert_eq!(actions2, vec![Action::Keep]);
    assert!(implicit2);
}

#[test]
fn action_list_implicit_keep_rules() {
    let empty = ActionList::new();
    let (actions, implicit) = empty.finalize();
    assert_eq!(actions, vec![Action::Keep]);
    assert!(implicit);

    let mut canceled = ActionList::new();
    canceled.add(Action::Discard);
    let (actions, implicit) = canceled.finalize();
    assert_eq!(actions, Vec::<Action>::new());
    assert!(!implicit);
}

#[test]
fn replace_modifier_edge_cases() {
    let program = Compiler::new().compile(b"").unwrap();
    let msg = message_with_subject("x");
    let ctx = Context::new(&program, &msg);
    let empty_find = Modifier::Replace {
        find: sieve::Value::Text(Vec::new()),
        replace: sieve::Value::Text(b"x".to_vec()),
    };
    assert_eq!(empty_find.apply(&b"abc".to_vec(), &ctx), b"abc".to_vec());
    let overlapping = Modifier::Replace {
        find: sieve::Value::Text(b"aba".to_vec()),
        replace: sieve::Value::Text(b"_".to_vec()),
    };
    assert_eq!(overlapping.apply(&b"ababa".to_vec(), &ctx), b"_ba".to_vec());
}

#[test]
fn regex_captures_fill_match_variables() {
    let sieve = Compiler::new()
        .compile(
            b"require [\"regex\", \"fileinto\", \"variables\"]; if header :regex \"Subject\" \"(h.)llo\" { fileinto \"${1}\"; }",
        )
        .unwrap();
    let msg = message_with_subject("hello");
    let mut ctx = Context::new(&sieve, &msg);
    let (actions, _) = run_to_end(&mut ctx).unwrap();
    assert_eq!(
        actions,
        vec![Action::FileInto {
            folder: b"he".to_vec(),
            copy: false,
            create: false
        }]
    );
}

#[test]
fn unrequired_tolerated_command_is_gated() {
    let err = Compiler::new().compile(b"vacation \"gone\";").unwrap_err();
    assert!(matches!(err.error_type(), sieve::ErrorType::UndeclaredCapability(_)));
    let s = Compiler::new()
        .compile(b"require \"vacation\"; vacation \"gone\";")
        .unwrap();
    assert!(matches!(s.instructions[1], sieve::Instruction::Invalid(_)));
}

#[test]
fn variable_rendering() {
    assert_eq!(Variable::Integer(42).to_bytes(), b"42".to_vec());
    assert_eq!(Variable::Integer(-5).to_bytes(), b"-5".to_vec());
    assert_eq!(Variable::Text(b"x".to_vec()).to_bytes(), b"x".to_vec());
}

#[test]
fn set_envelope_event_is_emitted() {
    let msg = message_with_subject("x");
    let program = Compiler::new().compile(b"keep;").unwrap();
    let mut ctx = Context::new(&program, &msg);
    ctx.add_set_envelope_event(sieve::Envelope::From, b"a@b".to_vec());
    match ctx.run().unwrap() {
        Event::SetEnvelope { envelope, value } => {
            assert_eq!(envelope, sieve::Envelope::From);
            assert_eq!(value, b"a@b".to_vec());
        }
        other => panic!("expected envelope event, found {:?}", other),
    }
}

#[test]
fn replace_modifier_with_variable_arguments() {
    let sieve = Compiler::new()
        .compile(
            b"require [\"variables\", \"fileinto\"]; set \"pat\" \"l\"; set :replace \"${pat}\" \"L\" \"out\" \"hello\"; if string :is \"${out}\" \"heLLo\" { fileinto \"ok\"; }",
        )
        .unwrap();
    let msg = message_with_subject("x");
    let mut ctx = Context::new(&sieve, &msg);
    let (actions, _) = run_to_end(&mut ctx).unwrap();
    assert_eq!(
        actions,
        vec![Action::FileInto {
            folder: b"ok".to_vec(),
            copy: false,
            create: false
        }]
    );
}

#[test]
fn environment_test_reads_host_items() {
    let sieve = Compiler::new()
        .compile(
            b"require [\"environment\", \"fileinto\"]; if environment :is \"domain\" \"example.org\" { fileinto \"here\"; }",
        )
        .unwrap();
    let msg = message_with_subject("x");
    let mut ctx = Context::new(&sieve, &msg)
        .with_environment(b"domain".to_vec(), b"example.org".to_vec());
    let (actions, _) = run_to_end(&mut ctx).unwrap();
    assert_eq!(
        actions,
        vec![Action::FileInto {
            folder: b"here".to_vec(),
            copy: false,
            create: false
        }]
    );
}

#[test]
fn envelope_test_reads_envelope_fields() {
    let sieve = Compiler::new()
        .compile(
            b"require [\"envelope\", \"fileinto\"]; if envelope :matches \"from\" \"*@example.org\" { fileinto \"${1}\"; }",
        )
        .unwrap();
    let msg = message_with_subject("x");
    let mut ctx = Context::new(&sieve, &msg)
        .with_envelope(sieve::Envelope::From, b"alice@example.org".to_vec());
    let (actions, _) = run_to_end(&mut ctx).unwrap();
    assert_eq!(
        actions,
        vec![Action::FileInto {
            folder: b"alice".to_vec(),
            copy: false,
            create: false
        }]
    );
    let err = Compiler::new()
        .compile(b"require \"envelope\"; if envelope :is \"bogus\" \"x\" { keep; }")
        .unwrap_err();
    assert!(matches!(err.error_type(), sieve::ErrorType::InvalidEnvelope(_)));
}

#[test]
fn escaping_modifiers_truncate_on_character_boundary() {
    let program = Compiler::new().compile(b"").unwrap();
    let msg = message_with_subject("x");
    let ctx = Context::new(&program, &msg).with_max_variable_size(4);
    // four quoted bytes fit the budget exactly
    assert_eq!(
        Modifier::QuoteWildcard.apply(&"aa\u{e9}".as_bytes().to_vec(), &ctx),
        "aa\u{e9}".as_bytes().to_vec()
    );
    // the two-byte character does not fit after three bytes: it is withheld
    // whole, never split
    assert_eq!(
        Modifier::QuoteWildcard.apply(&"aaa\u{e9}".as_bytes().to_vec(), &ctx),
        b"aaa".to_vec()
    );
    // an escaped metacharacter needs two bytes and is withheld whole too
    assert_eq!(
        Modifier::QuoteWildcard.apply(&b"aaa*".to_vec(), &ctx),
        b"aaa".to_vec()
    );
    // a regex metacharacter's escape fits the budget exactly
    assert_eq!(
        Modifier::QuoteRegex.apply(&b"ab.".to_vec(), &ctx),
        b"ab\\.".to_vec()
    );
    // the six encoded bytes of the character pass the budget: only the
    // plain byte before it stays
    assert_eq!(
        Modifier::EncodeUrl.apply(&"a\u{e9}".as_bytes().to_vec(), &ctx),
        b"a".to_vec()
    );
}
