use lexparse::fsm::transition;
use lexparse::fsm::FsmTransitions::{_Comment, _Identifier, _Integer, _Keyword, _Operator, _Real,
    _Reject, _Separator, _Space, _String, _Unknown};
use lexparse::fsm::FsmTransitions;
use lexparse::lexer::get_col;
use lexparse::lexer::get_lexeme_name;
use lexparse::lexer::get_string_type;
use lexparse::lexer::lexer;
use lexparse::tokens::TokenType;

fn texts(tokens: &[TokenType]) -> Vec<(String, String)> {
    tokens
        .iter()
        .map(|t| (t.lexeme_name.clone(), t.token.clone()))
        .collect()
}

#[test]
fn scans_integers_and_operator() {
    let tokens = lexer(&String::from("12+34 $"));
    assert_eq!(
        texts(&tokens),
        vec![
            ("INTEGER".to_string(), "12".to_string()),
            ("OPERATOR".to_string(), "+".to_string()),
            ("INTEGER".to_string(), "34".to_string()),
            ("IDENTIFIER".to_string(), "$".to_string()),
        ]
    );
}

#[test]
fn malformed_numeral_becomes_unknown() {
    // the second dot drives the automaton from the real state into the
    // unknown state, which keeps absorbing, so the whole run flushes as
    // one unknown token
    let tokens = lexer(&String::from("3.4.5 $"));
    assert_eq!(
        texts(&tokens),
        vec![
            ("UNKNOWN".to_string(), "3.4.5".to_string()),
            ("IDENTIFIER".to_string(), "$".to_string()),
        ]
    );
}

#[test]
fn single_dotted_real_scans_as_real() {
    let tokens = lexer(&String::from("3.4 $"));
    assert_eq!(
        texts(&tokens),
        vec![
            ("REAL".to_string(), "3.4".to_string()),
            ("IDENTIFIER".to_string(), "$".to_string()),
        ]
    );
}

#[test]
fn keywords_are_reclassified() {
    let tokens = lexer(&String::from("while x whileend $"));
    assert_eq!(
        texts(&tokens),
        vec![
            ("KEYWORD".to_string(), "while".to_string()),
            ("IDENTIFIER".to_string(), "x".to_string()),
            ("KEYWORD".to_string(), "whileend".to_string()),
            ("IDENTIFIER".to_string(), "$".to_string()),
        ]
    );
}

#[test]
fn comment_absorbs_terminator() {
    let tokens = lexer(&String::from("!note! x $"));
    assert_eq!(
        texts(&tokens),
        vec![
            ("COMMENT".to_string(), "!note!".to_string()),
            ("IDENTIFIER".to_string(), "x".to_string()),
            ("IDENTIFIER".to_string(), "$".to_string()),
        ]
    );
}

#[test]
fn separators_and_declaration() {
    let tokens = lexer(&String::from("int x , y ; $"));
    assert_eq!(
        texts(&tokens),
        vec![
            ("KEYWORD".to_string(), "int".to_string()),
            ("IDENTIFIER".to_string(), "x".to_string()),
            ("SEPARATOR".to_string(), ",".to_string()),
            ("IDENTIFIER".to_string(), "y".to_string()),
            ("SEPARATOR".to_string(), ";".to_string()),
            ("IDENTIFIER".to_string(), "$".to_string()),
        ]
    );
}

#[test]
fn sentinel_is_last_and_unique() {
    for source in [
        "12+34 $",
        "int x , y ; $",
        "if a < b then a = 1 else a = 2 endif $",
        " $",
    ] {
        let tokens = lexer(&String::from(source));
        let last = tokens.last().expect("token stream must not be empty");
        assert_eq!(last.token, "$");
        assert_eq!(last.lexeme, FsmTransitions::_Identifier);
        for t in &tokens[..tokens.len() - 1] {
            assert!(!(t.token == "$" && t.lexeme == FsmTransitions::_Identifier));
        }
    }
}

#[test]
fn line_numbers_follow_newlines() {
    let tokens = lexer(&String::from("a\nbc\nd $"));
    let lines: Vec<(String, usize)> = tokens.iter().map(|t| (t.token.clone(), t.line)).collect();
    assert_eq!(
        lines,
        vec![
            ("a".to_string(), 1),
            ("bc".to_string(), 2),
            ("d".to_string(), 3),
            ("$".to_string(), 3),
        ]
    );
}

#[test]
fn classification_is_idempotent() {
    for c in ['0', 'z', 'Q', '!', ' ', '$', '.', '(', '+', '#', '\u{42f}'] {
        assert_eq!(get_col(c), get_col(c));
    }
}

#[test]
fn classification_covers_the_fixed_rules() {
    assert_eq!(get_col('7'), FsmTransitions::_Integer);
    assert_eq!(get_col('g'), FsmTransitions::_String);
    assert_eq!(get_col('G'), FsmTransitions::_String);
    assert_eq!(get_col('!'), FsmTransitions::_Comment);
    assert_eq!(get_col(' '), FsmTransitions::_Space);
    assert_eq!(get_col('\t'), FsmTransitions::_Space);
    assert_eq!(get_col('\n'), FsmTransitions::_Space);
    assert_eq!(get_col('\r'), FsmTransitions::_Space);
    assert_eq!(get_col('$'), FsmTransitions::_String);
    assert_eq!(get_col('.'), FsmTransitions::_Real);
    for c in ['\'', '{', '}', '[', ']', '(', ')', ',', ':', ';'] {
        assert_eq!(get_col(c), FsmTransitions::_Separator);
    }
    for c in ['*', '+', '-', '=', '/', '>', '<', '%'] {
        assert_eq!(get_col(c), FsmTransitions::_Operator);
    }
    assert_eq!(get_col('#'), FsmTransitions::_Unknown);
    // beyond ASCII: a Cyrillic letter is alphabetic, a fraction mark not
    assert_eq!(get_col('\u{42f}'), FsmTransitions::_String);
    assert_eq!(get_col('\u{bd}'), FsmTransitions::_Unknown);
}

#[test]
fn transition_table_is_deterministic_and_total() {
    let all = [
        _Reject, _Integer, _Real, _Operator, _String, _Unknown, _Space, _Comment, _Separator,
        _Keyword, _Identifier,
    ];
    for s in all {
        for c in all {
            assert_eq!(transition(s, c), transition(s, c));
        }
    }
}

#[test]
fn transition_table_rows_match_the_design() {
    // the default row starts a run in the state its class names
    for c in [_Integer, _Real, _Operator, _String, _Unknown, _Space, _Comment, _Separator] {
        assert_eq!(transition(_Reject, c), c);
    }
    // a digit run stays integer and a dot moves it to real
    assert_eq!(transition(_Integer, _Integer), _Integer);
    assert_eq!(transition(_Integer, _Real), _Real);
    assert_eq!(transition(_Integer, _Operator), _Reject);
    // a second dot moves real to unknown
    assert_eq!(transition(_Real, _Real), _Unknown);
    assert_eq!(transition(_Real, _Integer), _Real);
    // a comment absorbs everything but its terminator
    assert_eq!(transition(_Comment, _Comment), _Reject);
    assert_eq!(transition(_Comment, _Space), _Comment);
    assert_eq!(transition(_Comment, _Integer), _Comment);
    // operator and separator runs are single-character
    assert_eq!(transition(_Operator, _Operator), _Reject);
    assert_eq!(transition(_Separator, _Separator), _Reject);
}

#[test]
fn string_type_splits_keywords_from_identifiers() {
    for kw in [
        "int", "float", "bool", "true", "false", "if", "else", "then", "endif", "while",
        "whileend", "do", "doend", "for", "forend", "input", "output", "and", "or", "not",
    ] {
        assert_eq!(get_string_type(String::from(kw)), FsmTransitions::_Keyword);
    }
    for id in ["x", "intx", "While", "$", "forever"] {
        assert_eq!(get_string_type(String::from(id)), FsmTransitions::_Identifier);
    }
}

#[test]
fn lexeme_names_are_fixed() {
    assert_eq!(get_lexeme_name(&FsmTransitions::_Integer), "INTEGER");
    assert_eq!(get_lexeme_name(&FsmTransitions::_Real), "REAL");
    assert_eq!(get_lexeme_name(&FsmTransitions::_String), "STRING");
    assert_eq!(get_lexeme_name(&FsmTransitions::_Operator), "OPERATOR");
    assert_eq!(get_lexeme_name(&FsmTransitions::_Unknown), "UNKNOWN");
    assert_eq!(get_lexeme_name(&FsmTransitions::_Comment), "COMMENT");
    assert_eq!(get_lexeme_name(&FsmTransitions::_Separator), "SEPARATOR");
    assert_eq!(get_lexeme_name(&FsmTransitions::_Keyword), "KEYWORD");
    assert_eq!(get_lexeme_name(&FsmTransitions::_Identifier), "IDENTIFIER");
    assert_eq!(get_lexeme_name(&FsmTransitions::_Space), "SPACE");
    assert_eq!(get_lexeme_name(&FsmTransitions::_Reject), "ERROR");
}

#[test]
fn default_token_is_empty() {
    let t = TokenType::default();
    assert_eq!(t.token, "");
    assert_eq!(t.lexeme, FsmTransitions::_Reject);
    assert_eq!(t.lexeme_name, "");
    assert_eq!(t.line, 0);
}

#[test]
fn empty_input_gives_no_tokens() {
    let tokens = lexer(&String::from(""));
    assert!(tokens.is_empty());
}

#[test]
fn spaces_are_never_materialized() {
    let tokens = lexer(&String::from("   \n  \t "));
    assert!(tokens.is_empty());
}
