use tickflow::parse::classic::parsing::{
    bin_digit1, cmd_name, cut_comment, eof, ident, integer, is_bin_digit, is_whitespace,
    parse_from_text, read_statement, space0, space1, string_literal, tag, trim, trim_start,
    with_matching_brackets,
};
use tickflow::parse::classic::{
    CommandName, Context, IncludedFile, Operation, ParsedStatement, ParsedValue, Statement, Value,
};
use tickflow::parse::error::{Error, OldTfError};
use tickflow::parse::{create_escapes, process_escapes, read_anysign_int, IntErrorKind};

fn debug(statement: &Result<Statement, Error>) -> String {
    format!("{:?}", statement)
}

#[test]
fn escapes_are_resolved_one_kind_after_the_other() {
    assert_eq!(process_escapes(r#"\"value\n\\"#), "\"value\n\\");
    assert_eq!(process_escapes(r"a\\nb"), "a\nb");
    assert_eq!(process_escapes("plain"), "plain");
}

#[test]
fn escapes_are_created_for_backslash_line_feed_and_quote() {
    assert_eq!(create_escapes("\"value\n\\"), r#"\"value\n\\"#);
    assert_eq!(create_escapes("plain"), "plain");
}

#[test]
fn numbers_are_read_signed_or_not() {
    assert_eq!(read_anysign_int("60", 10), Ok(60));
    assert_eq!(read_anysign_int("1f", 16), Ok(0x1f));
    assert_eq!(read_anysign_int("01", 2), Ok(1));
    assert_eq!(read_anysign_int("ffffffff", 16), Ok(-1));
    assert_eq!(read_anysign_int("80000000", 16), Ok(i32::MIN));
    assert_eq!(read_anysign_int("-2147483648", 10), Ok(i32::MIN));
    assert_eq!(read_anysign_int("100000000", 16), Err(IntErrorKind::PosOverflow));
    assert_eq!(read_anysign_int("-2147483649", 10), Err(IntErrorKind::NegOverflow));
    assert_eq!(read_anysign_int("", 10), Err(IntErrorKind::Empty));
    assert_eq!(read_anysign_int("12x", 10), Err(IntErrorKind::InvalidDigit));
}

#[test]
fn a_string_constant_is_read_with_its_escapes() {
    let got = read_statement(r#"name = "\"value\n\\""#, "test", 1).unwrap();
    match got {
        Statement::Constant { name, value: Value::String { value, is_unicode } } => {
            assert_eq!(name.0, "name");
            assert_eq!(value, "\"value\n\\");
            assert!(!is_unicode);
        }
        other => panic!("{:?}", other),
    }
    let got = read_statement(r#"name = u"wide""#, "test", 2).unwrap();
    match got {
        Statement::Constant { value: Value::String { value, is_unicode }, .. } => {
            assert_eq!(value, "wide");
            assert!(is_unicode);
        }
        other => panic!("{:?}", other),
    }
}

#[test]
fn an_unknown_string_prefix_is_refused() {
    let got = read_statement(r#"name = h"text""#, "test", 3);
    match got {
        Err(Error::OldTfError { fname, line, error: OldTfError::InvalidStrPrefix(prefix) }) => {
            assert_eq!(fname, "test");
            assert_eq!(line, 3);
            assert_eq!(prefix, "h");
        }
        other => panic!("{:?}", other),
    }
}

#[test]
fn numbers_are_read_in_three_radices() {
    for (text, want) in [("name = 60", 60), ("name = 0x1f", 0x1f), ("name = 0b01", 1)] {
        match read_statement(text, "test", 4).unwrap() {
            Statement::Constant { value: Value::Integer(got), .. } => assert_eq!(got, want),
            other => panic!("{:?}", other),
        }
    }
}

#[test]
fn operators_bind_by_rank_and_from_the_left() {
    let got = read_statement("name = 2 + 3 * some_constant >> 4 & 1 | 2 ^ 3 << 1", "test", 7);
    // ((((2 + (3 * c)) >> 4) & 1) | 2) ^ (3 << 1)
    let want = "Ok(Constant { name: Identifier(\"name\"), value: Operation { op: Xor, \
        left: Operation { op: Or, left: Operation { op: And, left: Operation { op: Shr, \
        left: Operation { op: Add, left: Integer(2), right: Operation { op: Mul, \
        left: Integer(3), right: Constant(Identifier(\"some_constant\")) } }, \
        right: Integer(4) }, right: Integer(1) }, right: Integer(2) }, \
        right: Operation { op: Shl, left: Integer(3), right: Integer(1) } } })";
    assert_eq!(debug(&got), want);
    let got = read_statement("name = 2 - 2", "test", 8);
    assert_eq!(
        debug(&got),
        "Ok(Constant { name: Identifier(\"name\"), value: Operation { op: Sub, \
         left: Integer(2), right: Integer(2) } })"
    );
}

#[test]
fn labels_directives_and_commands_are_told_apart() {
    assert_eq!(debug(&read_statement("label:", "t", 11)), "Ok(Label(Identifier(\"label\")))");
    assert_eq!(
        debug(&read_statement("#index 0x69", "t", 12)),
        "Ok(Directive { name: Identifier(\"index\"), args: [Integer(105)] })"
    );
    assert_eq!(
        debug(&read_statement("#alias yourmom 0", "t", 13)),
        "Ok(Directive { name: Identifier(\"alias\"), args: [Constant(Identifier(\"yourmom\")), \
         Integer(0)] })"
    );
    assert_eq!(
        debug(&read_statement("#include thisShouldBeAString.tickflow", "t", 14)),
        "Ok(Directive { name: Identifier(\"include\"), args: [String { value: \
         \"thisShouldBeAString.tickflow\", is_unicode: false }] })"
    );
    assert_eq!(
        debug(&read_statement("0 1, (((2))), -3, \"4\", five", "t", 15)),
        "Ok(Command { cmd: Raw(0), arg0: None, args: [Integer(1), Integer(2), \
         Negated(Integer(3)), String { value: \"4\", is_unicode: false }, \
         Constant(Identifier(\"five\"))] })"
    );
    assert_eq!(
        debug(&read_statement("cmdname<2> fa", "t", 16)),
        "Ok(Command { cmd: Named(Identifier(\"cmdname\")), arg0: Some(Integer(2)), \
         args: [Constant(Identifier(\"fa\"))] })"
    );
}

#[test]
fn what_is_no_statement_is_a_syntax_error() {
    match read_statement("= 3", "file", 9) {
        Err(Error::OldTfError { fname, line, error: OldTfError::SyntaxError }) => {
            assert_eq!(fname, "file");
            assert_eq!(line, 9);
        }
        other => panic!("{:?}", other),
    }
    match read_statement("#bogus 1", "file", 2) {
        Err(Error::OldTfError { error: OldTfError::InvalidDirective(name), .. }) => {
            assert_eq!(name.0, "bogus")
        }
        other => panic!("{:?}", other),
    }
    match read_statement("#index 0x100000000", "file", 2) {
        Err(Error::OldTfError { error: OldTfError::IntOutOfRange, .. }) => {}
        other => panic!("{:?}", other),
    }
}

#[test]
fn a_text_is_read_line_by_line() {
    let text = "#index 3\r\n// a comment\n\nstart:\n   // indented\n  rest 1 // trailing\nx = 2";
    let got = parse_from_text("main", text).unwrap();
    let lines: Vec<usize> = got.iter().map(|s| s.0).collect();
    assert_eq!(lines, vec![1, 4, 6, 7]);
    assert_eq!(
        format!("{:?}", got[2].1),
        "Command { cmd: Named(Identifier(\"rest\")), arg0: None, args: [Integer(1)] }"
    );
}

fn resolve(text: &str, includes: Vec<IncludedFile>) -> Result<Context, Error> {
    let statements = parse_from_text("main", text).unwrap();
    Context::parse_file(statements, includes, "main")
}

#[test]
fn a_file_is_resolved_with_constants_and_aliases() {
    let text = "#index 5\n#alias rest 0xE\nfour = 2 + 2\nstart:\nrest<1> four * 2, \"s\", end\n";
    let got = resolve(text, vec![]).unwrap();
    assert_eq!(got.index, 5);
    assert_eq!(got.start, [None, Some(0)]);
    assert_eq!(got.parsed_cmds.len(), 2);
    match &got.parsed_cmds[0] {
        ParsedStatement::Label(name) => assert_eq!(name, "start"),
        other => panic!("{:?}", other),
    }
    match &got.parsed_cmds[1] {
        ParsedStatement::Command { cmd: CommandName::Raw(14), arg0: Some(1), args } => {
            assert_eq!(
                format!("{:?}", args),
                "[Integer(8), String { value: \"s\", is_unicode: false }, Label(\"end\")]"
            );
        }
        other => panic!("{:?}", other),
    }
}

#[test]
fn the_index_and_the_start_are_required() {
    match resolve("start:\n", vec![]) {
        Err(Error::OldTfError {
            line: 1,
            error: OldTfError::MissingRequiredDirective("index"),
            ..
        }) => {}
        other => panic!("{:?}", other),
    }
    match resolve("#index 1\n", vec![]) {
        Err(Error::OldTfError {
            error: OldTfError::MissingRequiredDirective("start"), ..
        }) => {}
        other => panic!("{:?}", other),
    }
    let got = resolve("#index 1\n#start 7\n#assets 9\n", vec![]).unwrap();
    assert_eq!(got.start, [Some(7), Some(9)]);
    let got = resolve("#index 1\nstart:\nassets:\n", vec![]).unwrap();
    assert_eq!(got.start, [None, None]);
}

#[test]
fn an_included_file_gives_its_statements_and_aliases() {
    let inner = parse_from_text("inc.tickflow", "#alias nop 1\nshared:\nnop\n");
    let includes = vec![IncludedFile { name: "inc.tickflow".to_string(), statements: inner }];
    let got = resolve("#index 1\n#include inc.tickflow\nstart:\nnop 2\n", includes).unwrap();
    assert_eq!(
        format!("{:?}", got.parsed_cmds),
        "[Label(\"shared\"), Command { cmd: Raw(1), arg0: None, args: [] }, Label(\"start\"), \
         Command { cmd: Raw(1), arg0: None, args: [Integer(2)] }]"
    );
}

#[test]
fn an_included_file_may_not_set_the_index() {
    let inner = parse_from_text("inc", "#index 2\n");
    let includes = vec![IncludedFile { name: "inc".to_string(), statements: inner }];
    match resolve("#index 1\n#include inc\nstart:\n", includes) {
        Err(Error::OldTfError { fname, line: 1, error: OldTfError::IncludedDirective }) => {
            assert_eq!(fname, "inc")
        }
        other => panic!("{:?}", other),
    }
    match resolve("#index 1\n#include missing\nstart:\n", vec![]) {
        Err(Error::IoError(name)) => assert_eq!(name, "missing"),
        other => panic!("{:?}", other),
    }
}

#[test]
fn faults_in_values_come_with_their_line() {
    match resolve("#index 1\nstart:\nnop \"a\" + 1\n", vec![]) {
        Err(Error::OldTfError { line: 3, error: OldTfError::InvalidOpType, .. }) => {}
        other => panic!("{:?}", other),
    }
    match resolve("#index 1\nstart:\nnop<0x40000>\n", vec![]) {
        Err(Error::OldTfError { error: OldTfError::OOBArg0(0x40000), .. }) => {}
        other => panic!("{:?}", other),
    }
    match resolve("#index 1\nstart:\nnop<\"s\">\n", vec![]) {
        Err(Error::OldTfError { error: OldTfError::InvalidArg0Type, .. }) => {}
        other => panic!("{:?}", other),
    }
    match resolve("#index 1\nstart:\nnop 1 / 0\n", vec![]) {
        Err(Error::OldTfError { error: OldTfError::IntOutOfRange, .. }) => {}
        other => panic!("{:?}", other),
    }
}

#[test]
fn operations_are_carried_out_on_numbers() {
    assert_eq!(Operation::Add.apply(2, 3), 5);
    assert_eq!(Operation::Sub.apply(2, 3), -1);
    assert_eq!(Operation::Mul.apply(-4, 3), -12);
    assert_eq!(Operation::Div.apply(-7, 2), -3);
    assert_eq!(Operation::Shl.apply(3, 4), 48);
    assert_eq!(Operation::Shr.apply(-16, 2), -4);
    assert_eq!(Operation::And.apply(0b1100, 0b1010), 0b1000);
    assert_eq!(Operation::Or.apply(0b1100, 0b1010), 0b1110);
    assert_eq!(Operation::Xor.apply(0b1100, 0b1010), 0b0110);
    assert_eq!(Operation::Add.checked_apply(i32::MAX, 1), None);
    assert_eq!(Operation::Div.checked_apply(1, 0), None);
    assert_eq!(Operation::Shl.checked_apply(1, 32), None);
    assert_eq!(Operation::Mul.checked_apply(6, 7), Some(42));
}

#[test]
fn a_resolved_value_is_a_number_a_string_or_a_label() {
    let constants = vec![];
    let got = Context::parse_value(&constants, Value::Integer(3), "f", 1).unwrap();
    assert!(matches!(got, ParsedValue::Integer(3)));
}

#[test]
fn white_space_is_what_it_is_everywhere() {
    for code in 0..=0x10FFFFu32 {
        if let Some(c) = char::from_u32(code) {
            assert_eq!(is_whitespace(c), c.is_whitespace(), "{code:x}");
        }
    }
}

#[test]
fn text_is_trimmed_at_both_ends() {
    for text in ["", " ", "a", "  a b \t", "\u{3000}x\u{a0}", "\r\n x\n", "   \u{2028}"] {
        assert_eq!(trim(text), text.trim());
        assert_eq!(trim_start(text), text.trim_start());
    }
    for text in ["", "/", "//", "a//b//c", "a / /b", "ab/", "x = \"//\" // y"] {
        assert_eq!(cut_comment(text), text.split_once("//").map(|c| c.0).unwrap_or(text));
    }
}

#[test]
fn lines_end_with_a_line_feed_or_with_the_text() {
    let texts = [
        "",
        "a:",
        "a:\n",
        "a:\n\n",
        "a:\r\nb:\r\n",
        "a:\n\r\nb:",
        "\n\n\na:",
        "// c\n  // d\na:",
        "a:\n   \nb:\n",
        "a:\n\r",
        "a:\rb:\n",
    ];
    for text in texts {
        // the lines that hold a statement, and what is read of each
        let mut want = Vec::new();
        for (i, line) in text.lines().enumerate() {
            if line.trim_start().starts_with("//") || line.is_empty() {
                continue;
            }
            want.push((i + 1, line.split_once("//").map(|c| c.0).unwrap_or(line).trim()));
        }
        let mut expected = Ok(Vec::new());
        for (number, code) in want {
            match read_statement(code, "f", number) {
                Ok(statement) => {
                    if let Ok(all) = &mut expected {
                        all.push((number, format!("{:?}", statement)));
                    }
                }
                Err(e) => {
                    expected = Err(format!("{:?}", e));
                    break;
                }
            }
        }
        let got = match parse_from_text("f", text) {
            Ok(statements) => Ok(statements
                .iter()
                .map(|(number, statement)| (*number, format!("{:?}", statement)))
                .collect::<Vec<_>>()),
            Err(e) => Err(format!("{:?}", e)),
        };
        assert_eq!(got, expected, "{:?}", text);
    }
}

#[test]
fn operators_are_found_where_the_pattern_finds_them() {
    // the pattern of operators is bound to the front of the input for single signs only
    let got = read_statement("x = 1 garbage >> 2", "f", 1);
    assert_eq!(
        debug(&got),
        "Ok(Constant { name: Identifier(\"x\"), value: Operation { op: Shr, left: Integer(1), \
         right: Integer(2) } })"
    );
    let got = read_statement("x = 1 garbage + 2", "f", 1);
    assert!(matches!(got, Err(Error::OldTfError { error: OldTfError::SyntaxError, .. })));
}

#[test]
fn faults_inside_values_are_handed_on() {
    let got = read_statement("x = 0x100000000", "f", 2);
    assert!(matches!(got, Err(Error::OldTfError { line: 2, error: OldTfError::IntOutOfRange, .. })));
    let got = read_statement("x = h\"a\"", "f", 2);
    assert!(matches!(got, Err(Error::OldTfError { error: OldTfError::InvalidStrPrefix(_), .. })));
    // a value in parentheses, behind a minus sign or in a chain hands its fault on with the
    // whole input, so that the statement does not end where it should
    for text in ["x = (0x100000000)", "x = 1 + 0x100000000", "x = -h\"a\""] {
        let got = read_statement(text, "f", 2);
        assert!(matches!(got, Err(Error::OldTfError { error: OldTfError::SyntaxError, .. })));
    }
    let got = read_statement("rest<0x100000000> 1", "f", 2);
    assert!(matches!(got, Err(Error::OldTfError { error: OldTfError::IntOutOfRange, .. })));
    let got = read_statement("rest 1, 0x100000000, h\"\"", "f", 2);
    assert!(matches!(got, Err(Error::OldTfError { error: OldTfError::IntOutOfRange, .. })));
    let got = read_statement("0x100000000 1", "f", 2);
    assert!(matches!(got, Err(Error::OldTfError { error: OldTfError::IntOutOfRange, .. })));
}

#[test]
fn brackets_are_matched_by_their_depth() {
    assert_eq!(with_matching_brackets("(a(b)c)d", '(', ')'), Some(("a(b)c", "d")));
    assert_eq!(with_matching_brackets("<1>", '<', '>'), Some(("1", "")));
    assert_eq!(with_matching_brackets("()", '(', ')'), Some(("", "")));
    assert_eq!(with_matching_brackets("(a", '(', ')'), None);
    assert_eq!(with_matching_brackets("a)", '(', ')'), None);
    assert_eq!(with_matching_brackets("", '(', ')'), None);
    assert_eq!(with_matching_brackets("(é)ü", '(', ')'), Some(("é", "ü")));
}

#[test]
fn tokens_are_taken_off_the_front() {
    assert_eq!(space0("  \t x "), "x ");
    assert_eq!(space0("x"), "x");
    assert_eq!(space1(" x"), Some("x"));
    assert_eq!(space1("x"), None);
    assert_eq!(tag("#index", "#"), Some("index"));
    assert_eq!(tag("index", "#"), None);
    assert_eq!(tag("", "#"), None);
    assert_eq!(tag("ab", "abc"), None);
    assert!(eof("") && !eof(" "));
    assert_eq!(bin_digit1("0102"), Some(("2", "010")));
    assert_eq!(bin_digit1("2"), None);
    assert!(is_bin_digit('0') && is_bin_digit('1') && !is_bin_digit('2'));
    let (rest, name) = ident("abc_9$ x").unwrap();
    assert_eq!((rest, name.as_str()), (" x", "abc_9$"));
    assert!(ident("9abc").is_none());
    let number = |text| integer(text, "f", 1).map(|(rest, n)| (rest, n.ok()));
    assert_eq!(number("12ab"), Some(("ab", Some(12))));
    assert_eq!(number("0x12abz"), Some(("z", Some(0x12ab))));
    assert_eq!(number("0b1012"), Some(("2", Some(5))));
    assert_eq!(number("0xg"), Some(("xg", Some(0))));
    assert_eq!(number("0b2"), Some(("b2", Some(0))));
    assert_eq!(number("99999999999"), Some(("", None)));
    assert_eq!(number("x"), None);
    assert!(matches!(cmd_name("5 x", "f", 1), Some((" x", Ok(CommandName::Raw(5))))));
    assert!(matches!(cmd_name("rest x", "f", 1), Some((" x", Ok(CommandName::Named(_))))));
    assert!(cmd_name("<", "f", 1).is_none());
}

#[test]
fn a_string_literal_is_made_of_its_groups() {
    let made = string_literal(&vec!["u\"a\\n\"", "u", "a\\n", "n"], "f", 1).unwrap();
    assert!(matches!(made, Value::String { value, is_unicode: true } if value == "a\n"));
    let made = string_literal(&vec!["\"\"", "", ""], "f", 1).unwrap();
    assert!(matches!(made, Value::String { value, is_unicode: false } if value.is_empty()));
    let made = string_literal(&vec!["x\"\"", "x", "", ""], "f", 7);
    assert!(matches!(
        made,
        Err(Error::OldTfError { line: 7, error: OldTfError::InvalidStrPrefix(prefix), .. })
            if prefix == "x"
    ));
}
