use tickflow::parse::classic::parsing::read_statement;
use tickflow::parse::classic::{
    included_files, CommandName, Identifier, Operation, ParsedStatement, ParsedValue, Statement,
    Value,
};
use tickflow::parse::error::{Error, OldTfError};
use tickflow::parse::numbers::{decimal, hex, pad_zeros};
use tickflow::parse::IntErrorKind;

fn written(text: &str) -> String {
    read_statement(text, "test", 1).unwrap().to_string()
}

#[test]
fn numbers_are_written_in_decimal_and_hexadecimal() {
    assert_eq!(decimal(0), "0");
    assert_eq!(decimal(7), "7");
    assert_eq!(decimal(1234567890), "1234567890");
    assert_eq!(decimal(-45), "-45");
    assert_eq!(decimal(i64::MIN), "-9223372036854775808");
    assert_eq!(decimal(i64::MAX), "9223372036854775807");
    assert_eq!(hex(0), "0");
    assert_eq!(hex(0x1f), "1f");
    assert_eq!(hex(-16), "fffffff0");
    assert_eq!(hex(i32::MIN), "80000000");
    assert_eq!(pad_zeros("1f", 5), "0001f");
    assert_eq!(pad_zeros("123456", 5), "123456");
    assert_eq!(pad_zeros("", 2), "00");
}

#[test]
fn statements_are_written_as_they_are_read() {
    assert_eq!(written(r#"name = "\"value\n\\""#), r#"name = "\"value\n\\""#);
    assert_eq!(written(r#"name = u"wide""#), r#"name = u"wide""#);
    assert_eq!(written("name = 60"), "name = 0x3c");
    assert_eq!(written("name = 9"), "name = 9");
    assert_eq!(written("name = -3"), "name = -3");
    assert_eq!(
        written("name = 2 + 3 * some_constant >> 4"),
        "name = 2 + 3 * some_constant >> 4"
    );
    assert_eq!(written("label:"), "label:");
    assert_eq!(written("#index 0x69"), "#index 0x69");
    assert_eq!(written("#alias yourmom 0"), "#alias yourmom 0");
    assert_eq!(written("#include some file.tickflow"), "#include some file.tickflow");
    assert_eq!(written("0 1, (((2))), -3, \"4\", five"), "0 1, 2, -3, \"4\", five");
    assert_eq!(written("cmdname<2> fa"), "cmdname<2> fa");
    assert_eq!(written("0x10<0x30>"), "0x10<0x30>");
}

#[test]
fn values_and_names_are_written() {
    assert_eq!(Value::Integer(-10).to_string(), "0xfffffff6");
    assert_eq!(Value::Integer(-9).to_string(), "-9");
    assert_eq!(Value::Integer(10).to_string(), "0xa");
    assert_eq!(CommandName::Raw(3).to_string(), "3");
    assert_eq!(CommandName::Raw(300).to_string(), "0x12c");
    assert_eq!(CommandName::Named(Identifier::new_unchecked("rest")).to_string(), "rest");
    let ops = [
        (Operation::Add, "+"),
        (Operation::Sub, "-"),
        (Operation::Mul, "*"),
        (Operation::Div, "/"),
        (Operation::Shl, "<<"),
        (Operation::Shr, ">>"),
        (Operation::And, "&"),
        (Operation::Or, "|"),
        (Operation::Xor, "^"),
    ];
    for (op, text) in ops {
        assert_eq!(op.to_string(), text);
    }
    let sum = Value::Operation {
        op: Operation::Or,
        left: Box::new(Value::Negated(Box::new(Value::Constant(Identifier::new_unchecked(
            "a",
        ))))),
        right: Box::new(Value::String { value: "q\"".to_string(), is_unicode: true }),
    };
    assert_eq!(sum.to_string(), "-a | u\"q\\\"\"");
}

#[test]
fn errors_are_put_in_words() {
    let cases = [
        (OldTfError::InvalidIdentifier("1a".to_string()), "invalid identifier name \"1a\""),
        (
            OldTfError::InvalidDirective(Identifier::new_unchecked("bogus")),
            "unknown directive \"#bogus\"",
        ),
        (OldTfError::InvalidStrPrefix("h".to_string()), "invalid string prefix h\"\""),
        (OldTfError::IntOutOfRange, "number out of range (0x00000000-0xFFFFFFFF)"),
        (OldTfError::SyntaxError, "syntax error"),
        (OldTfError::MissingRequiredDirective("index"), "missing required directive \"#index\""),
        (
            OldTfError::IncludedDirective,
            "included files cannot have #index, #start, or #assets directives",
        ),
        (
            OldTfError::UndefinedConstant(Identifier::new_unchecked("c")),
            "undefined constant \"c\"",
        ),
        (OldTfError::InvalidOpType, "operations can only be applied to integers"),
        (OldTfError::InvalidArg0Type, "arg0 of any command must be an integer"),
        (
            OldTfError::OOBArg0(0x40000),
            "arg0 value 40000 is out of range (must be 18 bits at most)",
        ),
        (OldTfError::OOBArg0(0x12), "arg0 value 00012 is out of range (must be 18 bits at most)"),
        (
            OldTfError::OOBArg0(-1),
            "arg0 value ffffffff is out of range (must be 18 bits at most)",
        ),
    ];
    for (error, text) in cases {
        assert_eq!(error.to_string(), text);
    }
    assert_eq!(
        OldTfError::SyntaxError.with_ctx("a.tickflow", 12).to_string(),
        "tickflow error on a.tickflow:12 - syntax error"
    );
    assert_eq!(Error::IoError("gone".to_string()).to_string(), "file IO error: gone");
    assert!(matches!(OldTfError::from(IntErrorKind::Empty), OldTfError::IntOutOfRange));
}

#[test]
fn names_begin_with_a_letter_an_underscore_or_a_dollar_sign() {
    for name in ["a", "_x9", "$money", "Name_1", "ok then"] {
        assert_eq!(Identifier::new(name, "f", 1).unwrap().as_str(), name);
    }
    for name in ["", "9lives", " lead", "-x"] {
        match Identifier::new(name, "f", 4) {
            Err(Error::OldTfError {
                fname,
                line: 4,
                error: OldTfError::InvalidIdentifier(got),
            }) => {
                assert_eq!(fname, "f");
                assert_eq!(got, name);
            }
            other => panic!("{:?}", other),
        }
    }
    assert!(Identifier::checked("x", Some(false), "f", 1).is_err());
    assert!(Identifier::checked("x", None, "f", 1).is_err());
    assert!(Identifier::checked("9", Some(true), "f", 1).is_ok());
}

#[test]
fn values_are_taken_apart() {
    let name = Value::Constant(Identifier::new_unchecked("c"));
    assert_eq!(name.unwrap_constant().as_str(), "c");
    assert_eq!(*Value::Integer(5).unwrap_int(), 5);
    let text = Value::String { value: "s".to_string(), is_unicode: true };
    assert_eq!(text.unwrap_string(), (&"s".to_string(), true));
}

#[test]
fn resolved_statements_are_written_statements_again() {
    let label: Statement = ParsedStatement::Label("l".to_string()).into();
    assert_eq!(label.to_string(), "l:");
    let command: Statement = ParsedStatement::Command {
        cmd: CommandName::Raw(1),
        arg0: Some(0xFFFF_FFFF),
        args: vec![
            ParsedValue::Integer(2),
            ParsedValue::Label("there".to_string()),
            ParsedValue::String { value: "s".to_string(), is_unicode: false },
        ],
    }
    .into();
    assert_eq!(command.to_string(), "1<-1> 2, there, \"s\"");
    let value: Value = ParsedValue::Label("x".to_string()).into();
    assert!(matches!(value, Value::Constant(name) if name.as_str() == "x"));
}

#[test]
fn the_files_that_are_included_are_listed_in_order() {
    let statements = vec![
        (1, read_statement("#include b", "f", 1).unwrap()),
        (2, read_statement("#index 1", "f", 2).unwrap()),
        (3, read_statement("rest", "f", 3).unwrap()),
        (4, read_statement("#include a", "f", 4).unwrap()),
    ];
    assert_eq!(included_files(&statements), vec!["b".to_string(), "a".to_string()]);
}

#[test]
fn numbers_are_written_as_the_standard_library_writes_them() {
    let samples = [0i64, 1, 9, 10, 11, 99, 100, 255, 256, 4095, 65535, 65536, 1 << 31, 1 << 40];
    for sample in samples {
        for value in [sample, -sample, sample - 1, 1 - sample] {
            assert_eq!(decimal(value), format!("{}", value));
            if let Ok(small) = i32::try_from(value) {
                assert_eq!(hex(small), format!("{:x}", small));
                assert_eq!(pad_zeros(&hex(small), 5), format!("{:05x}", small));
            }
        }
    }
}
