use shell::command::{
    env_var, new_command, parse, parse_cmd, render, token_char, var_char, CharClass,
    CommandError, EnvVar, Token, TokenPart,
};
use shell::result::VarError;
use shell::shell_command::{join_words, ShellCommand};

fn no_env() -> Vec<EnvVar> {
    Vec::new()
}

fn var(name: &str, value: &str) -> EnvVar {
    EnvVar { name: String::from(name), value: Some(String::from(value)) }
}

fn bare(text: &str) -> TokenPart {
    TokenPart::Bare(String::from(text))
}

#[test]
fn test_parse_cmd() {
    let tokens = parse_cmd("cmd 1 2
                              3 \"
  4\" {}", &["5"], &no_env()).unwrap();
    assert_eq!("cmd", tokens[0]);
    assert_eq!("1", tokens[1]);
    assert_eq!("2", tokens[2]);
    assert_eq!("3", tokens[3]);
    assert_eq!("\n  4", tokens[4]);
    assert_eq!("5", tokens[5]);
}

#[test]
fn test_parse_cmd_env() {
    let env = vec![var("MY_VAR", "VALUE")];
    let tokens = parse_cmd("echo $MY_VAR/dir", &[], &env).unwrap();
    assert_eq!("VALUE/dir", tokens[1]);
}

#[test]
fn token_chars() {
    for ch in ['a', 'Z', '0', '!', '#', '%', '&', '(', ')', '*', '+', ',', '-', '.', '/', ':',
        '=', '?', '@', '[', '\\', ']', '^', '_', '`', '~', '\u{80}', 'é', '日'] {
        assert!(token_char(ch), "{:?}", ch);
    }
    for ch in ['\0', '\t', '\n', '\r', '\x1f', ' ', '\x7f', '"', '\'', '>', '<', '|', ';', '{',
        '}', '$'] {
        assert!(!token_char(ch), "{:?}", ch);
    }
}

#[test]
fn var_chars() {
    for ch in ['a', 'm', 'z', 'A', 'M', 'Z', '0', '5', '9', '_'] {
        assert!(var_char(ch), "{:?}", ch);
    }
    for ch in ['`', '{', '@', '[', '/', ':', '-', ' ', '$', 'é', '\0'] {
        assert!(!var_char(ch), "{:?}", ch);
    }
}

#[test]
fn classes_of_characters() {
    assert!(CharClass::Blank.contains(' '));
    assert!(CharClass::Blank.contains('\t'));
    assert!(CharClass::Blank.contains('\r'));
    assert!(CharClass::Blank.contains('\n'));
    assert!(!CharClass::Blank.contains('\x0b'));
    assert!(!CharClass::Blank.contains('a'));
    assert!(CharClass::Quoted.contains(' '));
    assert!(CharClass::Quoted.contains('$'));
    assert!(!CharClass::Quoted.contains('"'));
    assert!(CharClass::Bare.contains('x'));
    assert!(!CharClass::Bare.contains('|'));
    assert!(CharClass::Name.contains('_'));
    assert!(!CharClass::Name.contains('-'));
}

#[test]
fn parse_reads_every_kind_of_part() {
    let tokens = parse("a{}b$X\"q r\"").unwrap();
    assert_eq!(
        tokens,
        vec![Token(vec![
            bare("a"),
            TokenPart::Placeholder,
            bare("b"),
            TokenPart::EnvVariable(String::from("X")),
            bare("q r"),
        ])]
    );
}

#[test]
fn parse_splits_on_blanks() {
    let tokens = parse(" \t a\r\nb  ").unwrap();
    assert_eq!(tokens, vec![Token(vec![bare("a")]), Token(vec![bare("b")])]);
}

#[test]
fn parse_keeps_empty_quotes() {
    let tokens = parse("\"\" \"a\"\"b\"").unwrap();
    assert_eq!(tokens, vec![Token(vec![bare("")]), Token(vec![bare("a"), bare("b")])]);
}

#[test]
fn parse_ends_a_variable_at_the_first_other_character() {
    let tokens = parse("$HOME/x").unwrap();
    assert_eq!(
        tokens,
        vec![Token(vec![TokenPart::EnvVariable(String::from("HOME")), bare("/x")])]
    );
}

#[test]
fn parse_refuses_what_is_no_template() {
    for text in ["", "   ", "\n", "\"", "a \"", "\"abc", "a\"b", "{", "a {", "{x}", "}", "$",
        "a$", "$-", "a'b", "a|b", "a;b", "a>b", "a<b", "a\x0bb", "a\x7f", "a\0"] {
        assert!(parse(text).is_none(), "{:?}", text);
        assert_eq!(parse_cmd(text, &["x"], &no_env()), Err(CommandError::Syntax), "{:?}", text);
    }
}

#[test]
fn placeholders_take_arguments_in_order() {
    let words = parse_cmd("{} x{}y {}", &["a", "b", "c"], &no_env()).unwrap();
    assert_eq!(words, vec!["a", "xby", "c"]);
}

#[test]
fn arguments_are_taken_as_they_are() {
    let words = parse_cmd("echo {}", &["a b \"c\" $D {}"], &no_env()).unwrap();
    assert_eq!(words, vec!["echo", "a b \"c\" $D {}"]);
}

#[test]
fn arguments_left_over_are_ignored() {
    let words = parse_cmd("echo {}", &["a", "b"], &no_env()).unwrap();
    assert_eq!(words, vec!["echo", "a"]);
}

#[test]
fn too_many_placeholders() {
    assert_eq!(parse_cmd("echo {}", &[], &no_env()), Err(CommandError::TooManyPlaceholders));
    assert_eq!(
        parse_cmd("{} {} {}", &["a", "b"], &no_env()),
        Err(CommandError::TooManyPlaceholders)
    );
}

#[test]
fn variables_that_do_not_resolve() {
    assert_eq!(
        parse_cmd("echo $NOPE", &[], &no_env()),
        Err(CommandError::Var(VarError::NotPresent))
    );
    let env = vec![EnvVar { name: String::from("RAW"), value: None }];
    assert_eq!(parse_cmd("echo $RAW", &[], &env), Err(CommandError::Var(VarError::NotUnicode)));
}

#[test]
fn the_first_failure_decides() {
    assert_eq!(
        parse_cmd("{} $NOPE", &[], &no_env()),
        Err(CommandError::TooManyPlaceholders)
    );
    assert_eq!(
        parse_cmd("$NOPE {}", &[], &no_env()),
        Err(CommandError::Var(VarError::NotPresent))
    );
}

#[test]
fn the_first_entry_of_a_name_counts() {
    let env = vec![var("B", "0"), var("A", "1"), var("A", "2")];
    assert_eq!(env_var(&env, &String::from("A")), Ok(String::from("1")));
    assert_eq!(env_var(&env, &String::from("C")), Err(VarError::NotPresent));
    let words = parse_cmd("$A$B", &[], &env).unwrap();
    assert_eq!(words, vec!["10"]);
}

#[test]
fn into_string_counts_the_arguments_it_used() {
    let token = Token(vec![bare("a"), TokenPart::Placeholder, TokenPart::Placeholder]);
    assert_eq!(
        token.into_string(&["x", "y", "z"], 1, &no_env()),
        Ok((String::from("ayz"), 3))
    );
    assert_eq!(
        token.into_string(&["x", "y", "z"], 2, &no_env()),
        Err(CommandError::TooManyPlaceholders)
    );
    let empty = Token(Vec::new());
    assert_eq!(empty.into_string(&[], 7, &no_env()), Ok((String::new(), 7)));
}

#[test]
fn render_fills_in_parsed_tokens() {
    let tokens = parse("ls {} $D").unwrap();
    let env = vec![var("D", "/tmp")];
    assert_eq!(
        render(&tokens, &["-l"], &env),
        Ok(vec![String::from("ls"), String::from("-l"), String::from("/tmp")])
    );
}

#[test]
fn new_command_joins_the_words() {
    let command = new_command("echo \"a b\" {}", &["c"], &no_env()).unwrap();
    assert_eq!(command.argv, vec!["echo", "a b", "c"]);
    assert_eq!(command.line, "echo a b c");
    assert_eq!(new_command("", &[], &no_env()), Err(CommandError::Syntax));
}

#[test]
fn join_words_puts_one_space_between() {
    assert_eq!(join_words(&Vec::new()), "");
    assert_eq!(join_words(&vec![String::from("a")]), "a");
    assert_eq!(join_words(&vec![String::from("a"), String::from("b c"), String::new()]), "a b c ");
}

#[test]
fn shell_command_keeps_what_it_is_given() {
    let command = ShellCommand::new(String::from("l"), vec![String::from("x")]);
    assert_eq!(command.line, "l");
    assert_eq!(command.argv, vec!["x"]);
    let command = ShellCommand::from_argv(vec![String::from("test"), String::from("1")]);
    assert_eq!(command.line, "test 1");
}
