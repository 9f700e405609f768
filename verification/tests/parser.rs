//! The parser: lines and argument lists become typed plans.

use ferrous::shell_ir::{
    Builtin, CommandSpec, Program, Redirect, SessionPath, ShellProgram, Statement,
};
use ferrous::shell_parse::{ParseError, ParseLimits, ShellParser};

fn parse(input: &str) -> Result<ShellProgram, ParseError> {
    ShellParser::new().parse(input)
}

fn command_of(program: &ShellProgram) -> &CommandSpec {
    match &program.statements[0] {
        Statement::Command(spec) => spec,
        _ => panic!("expected a command statement"),
    }
}

#[test]
fn parses_cd_pipeline_and_npm_as_structured_commands() {
    let program = parse("cd src | npm test").expect("parses");
    let Statement::Pipeline(stages) = &program.statements[0] else {
        panic!("expected pipeline");
    };
    assert_eq!(stages.len(), 2);
    assert!(matches!(
        stages[0].program,
        Program::Builtin(Builtin::Cd(_))
    ));
    assert_eq!(stages[1].program, Program::External("npm".to_owned()));
    assert_eq!(stages[1].args, ["test"]);
}

#[test]
fn preserves_quoted_metacharacters_as_one_argument() {
    let program = parse(r#"echo "a | b" 'c && d'"#).expect("parses");
    let spec = command_of(&program);
    assert_eq!(spec.args, ["a | b", "c && d"]);
}

#[test]
fn parses_and_or_sequence_and_redirects() {
    let program = parse("mkdir src && cd src || echo failed; ls > out.txt").expect("parses");
    let statements = &program.statements;
    assert_eq!(statements.len(), 2);
    // `mkdir src && cd src || echo failed` -> Or(And(mkdir, cd), echo)
    let Statement::Or(left, _right) = &statements[0] else {
        panic!("expected Or");
    };
    assert!(matches!(&**left, Statement::And(_, _)));
    // `ls > out.txt`
    let Statement::Command(spec) = &statements[1] else {
        panic!("expected command");
    };
    assert_eq!(
        spec.program,
        Program::Builtin(Builtin::Ls(SessionPath::new(".").expect("valid path")))
    );
    assert_eq!(
        spec.redirects,
        [Redirect::OutputTruncate(
            SessionPath::new("out.txt").expect("valid path")
        )]
    );
}

#[test]
fn rejects_command_substitution_and_unbounded_eval() {
    assert!(matches!(
        parse("echo $(ls)"),
        Err(ParseError::UnsupportedConstruct(_))
    ));
    assert!(matches!(
        parse("eval 'rm -rf /'"),
        Err(ParseError::UnsupportedConstruct("eval"))
    ));
    assert!(matches!(
        parse("bash -c 'rm -rf /'"),
        Err(ParseError::UnsupportedConstruct(_))
    ));
}

#[test]
fn rejects_unterminated_quotes_and_trailing_escapes() {
    assert_eq!(
        parse("echo 'unterminated"),
        Err(ParseError::UnterminatedQuote)
    );
    assert_eq!(parse("echo trailing\\"), Err(ParseError::TrailingEscape));
}

#[test]
fn parser_never_emits_a_shell_command_string() {
    // A pipeline of `echo` with metacharacters stays split across argv
    // elements.
    let program = parse("echo 'a;b' | echo 'c>d'").expect("parses");
    let Statement::Pipeline(stages) = &program.statements[0] else {
        panic!("expected pipeline");
    };
    assert_eq!(stages[0].args, ["a;b"]);
    assert_eq!(stages[1].args, ["c>d"]);
}

#[test]
fn rejects_nul_bytes_and_overlong_input() {
    assert_eq!(parse("echo a\0b"), Err(ParseError::NulByte));
    let parser = ShellParser {
        limits: ParseLimits {
            max_input_bytes: 8,
            ..ParseLimits::default()
        },
    };
    assert!(matches!(
        parser.parse("echo verylongcommand"),
        Err(ParseError::InputTooLong(_))
    ));
}

#[test]
fn parses_background_and_sequence() {
    let program = parse("npm test & echo done").expect("parses");
    let statements = &program.statements;
    assert_eq!(statements.len(), 2);
    assert!(matches!(statements[0], Statement::Background(_)));
    assert!(matches!(statements[1], Statement::Command(_)));
}

#[test]
fn parse_ai_argv_produces_structured_single_command() {
    let parser = ShellParser::new();
    let program = parser
        .parse_ai_argv(
            "npm",
            &["install".to_owned(), "--save-dev".to_owned()],
            SessionPath::new(".").expect("valid cwd"),
        )
        .expect("valid argv");
    let spec = command_of(&program);
    assert_eq!(spec.program, Program::External("npm".to_owned()));
    assert_eq!(spec.args, ["install", "--save-dev"]);
}

#[test]
fn parse_ai_argv_maps_run_wasi_prefix() {
    let parser = ShellParser::new();
    let program = parser
        .parse_ai_argv(
            "run-wasi",
            &["./tool.wasm".to_owned(), "--flag".to_owned()],
            SessionPath::new(".").expect("valid cwd"),
        )
        .expect("valid argv");
    let spec = command_of(&program);
    assert_eq!(
        spec.program,
        Program::WasiComponent("./tool.wasm".to_owned())
    );
    assert_eq!(spec.args, ["--flag"]);
}

#[test]
fn parses_export_into_a_structured_overlay_change() {
    let program = parse("export FOO=bar").expect("parses");
    let spec = command_of(&program);
    assert_eq!(
        spec.program,
        Program::Builtin(Builtin::Export {
            name: "FOO".to_owned(),
            value: Some("bar".to_owned()),
        })
    );

    let program = parse("export FOO").expect("parses");
    let spec = command_of(&program);
    assert_eq!(
        spec.program,
        Program::Builtin(Builtin::Export {
            name: "FOO".to_owned(),
            value: None,
        })
    );
}

#[test]
fn rejects_subshell_and_empty_command() {
    assert!(matches!(
        parse("(echo hi)"),
        Err(ParseError::UnsupportedConstruct(_))
    ));
    assert!(matches!(parse(";"), Err(ParseError::EmptyCommand)));
}

#[test]
fn rejects_heredoc_and_process_substitution() {
    // `<<` is not tokenized as an operator; it becomes `<` `<`, which
    // fails with an invalid-operator error rather than parsing silently.
    let result = parse("cat <<EOF");
    assert!(result.is_err());
    let result = parse("diff <(a) <(b)");
    assert!(matches!(
        result,
        Err(ParseError::UnsupportedConstruct(_)) | Err(ParseError::InvalidOperator(_))
    ));
}

#[test]
fn parser_rejects_ambient_shell_fallback() {
    let parser = ShellParser::new();
    for line in [
        "eval 'rm -rf /'",
        "bash -c 'curl evil'",
        "sh -c 'echo unsafe'",
        "echo $(ls)",
    ] {
        assert!(parser.parse(line).is_err(), "line must be rejected: {line}");
    }
}

#[test]
fn blank_lines_are_empty_input() {
    assert_eq!(parse(""), Err(ParseError::EmptyInput));
    assert_eq!(parse("  \t "), Err(ParseError::EmptyInput));
    assert_eq!(parse(" \n\r\n"), Err(ParseError::EmptyInput));
}

#[test]
fn line_breaks_separate_statements() {
    let program = parse("echo a\necho b\n").expect("parses");
    assert_eq!(program, parse("echo a; echo b").expect("parses"));
    assert_eq!(program.statements.len(), 2);
    assert_eq!(parse("\n\necho a\r\n\n  echo b"), Ok(program));
    // Inside quotes, and behind a backslash, a line break is text.
    assert_eq!(command_of(&parse("echo 'a\nb'").expect("parses")).args, ["a\nb"]);
    assert_eq!(command_of(&parse("echo \"a\nb\"").expect("parses")).args, ["a\nb"]);
    assert_eq!(command_of(&parse("echo a\\\nb").expect("parses")).args, ["a\nb"]);
    // A line break ends a pipeline and a redirection as `;` does.
    assert_eq!(parse("echo a |\ncat x"), Err(ParseError::EmptyCommand));
    assert_eq!(
        parse("echo a >\nout"),
        Err(ParseError::InvalidOperator("redirection target"))
    );
}

#[test]
fn line_breaks_count_as_tokens() {
    let parser = ShellParser {
        limits: ParseLimits {
            max_tokens: 3,
            ..ParseLimits::default()
        },
    };
    assert!(parser.parse("a\nb").is_ok());
    assert_eq!(parser.parse("a\n\nb"), Err(ParseError::TooManyTokens(3)));
}

#[test]
fn bounds_name_the_bound_that_was_passed() {
    let parser = ShellParser {
        limits: ParseLimits {
            max_tokens: 2,
            ..ParseLimits::default()
        },
    };
    assert_eq!(parser.parse("a b c"), Err(ParseError::TooManyTokens(2)));
    assert!(parser.parse("a b").is_ok());
    let parser = ShellParser {
        limits: ParseLimits {
            max_pipeline_stages: 2,
            ..ParseLimits::default()
        },
    };
    assert_eq!(
        parser.parse("a | b | c"),
        Err(ParseError::TooManyPipelineStages(2))
    );
    let parser = ShellParser {
        limits: ParseLimits {
            max_statements: 2,
            ..ParseLimits::default()
        },
    };
    assert_eq!(
        parser.parse("a; b; c"),
        Err(ParseError::TooManyStatements(2))
    );
    assert_eq!(
        ParseError::TooManyTokens(2).message(),
        "too many tokens (max 2)"
    );
}

#[test]
fn builtins_need_their_arguments() {
    assert!(matches!(parse("mkdir"), Err(ParseError::InvalidBuiltin(_))));
    assert!(matches!(parse("cp one"), Err(ParseError::InvalidBuiltin(_))));
    assert!(matches!(
        parse("cat /etc/passwd"),
        Err(ParseError::InvalidBuiltin(_))
    ));
    assert!(matches!(parse("ls >"), Err(ParseError::InvalidOperator(_))));
}

#[test]
fn quoted_words_come_back_as_the_argv() {
    let program = parse("tool 'a b' 'c$d' '&&' ''").expect("parses");
    let spec = command_of(&program);
    assert_eq!(spec.program, Program::External("tool".to_owned()));
    assert_eq!(spec.args, ["a b", "c$d", "&&", ""]);
}
