use lexparse::fsm::FsmTransitions;
use lexparse::fsm::FsmTransitions::{_Identifier, _Integer, _Keyword, _Operator, _Real, _Separator};
use lexparse::lexer::lexer;
use lexparse::parser::lexer_to_symbol;
use lexparse::parser::ll_entry;
use lexparse::parser::parse;
use lexparse::parser::ParseOutcome;
use lexparse::parser::SymbolEntry;
use lexparse::parser::Symbols;
use lexparse::parser::TraceEntry;
use lexparse::tokens::TokenType;

fn run(source: &str) -> lexparse::parser::ParseResult {
    parse(lexer(&String::from(source)))
}

fn applied(rule: u32, lhs: Symbols, rhs: Vec<Symbols>) -> TraceEntry {
    TraceEntry::Applied { rule, lhs, rhs }
}

fn matched(text: &str) -> TraceEntry {
    TraceEntry::Matched {
        text: text.to_string(),
    }
}

fn token(name: &str, text: &str, lexeme: FsmTransitions) -> TokenType {
    TokenType {
        token: text.to_string(),
        lexeme,
        lexeme_name: name.to_string(),
        line: 1,
    }
}

#[test]
fn declaration_fills_the_symbol_table() {
    let result = run("int x , y ; $");
    assert_eq!(result.outcome, ParseOutcome::Accepted);
    assert_eq!(
        result.symbol_table,
        vec![
            SymbolEntry {
                decl_type: "int".to_string(),
                name: "x".to_string(),
                line: 1,
            },
            SymbolEntry {
                decl_type: "int".to_string(),
                name: "y".to_string(),
                line: 1,
            },
        ]
    );
}

#[test]
fn declaration_lines_follow_the_source() {
    let result = run("float x ,\n y ; $");
    assert_eq!(result.outcome, ParseOutcome::Accepted);
    assert_eq!(result.symbol_table.len(), 2);
    assert_eq!(result.symbol_table[0].decl_type, "float");
    assert_eq!(result.symbol_table[0].name, "x");
    assert_eq!(result.symbol_table[0].line, 1);
    assert_eq!(result.symbol_table[1].name, "y");
    assert_eq!(result.symbol_table[1].line, 2);
}

#[test]
fn assignment_derivation_reduces_through_the_expression_grammar() {
    let result = run("x = 3 * ( 4 + 5 ) $");
    assert_eq!(result.outcome, ParseOutcome::Accepted);
    let t = &result.trace;
    assert!(t.contains(&applied(13, Symbols::STATEMENT, vec![Symbols::ASSIGN])));
    assert!(t.contains(&applied(
        14,
        Symbols::ASSIGN,
        vec![Symbols::ID_NT, Symbols::EQUAL, Symbols::EXPR]
    )));
    assert!(t.contains(&applied(
        1,
        Symbols::EXPR,
        vec![Symbols::TERM, Symbols::EXPR_PRIME]
    )));
    assert!(t.contains(&applied(
        5,
        Symbols::TERM,
        vec![Symbols::FACTOR, Symbols::TERM_PRIME]
    )));
    assert!(t.contains(&applied(
        7,
        Symbols::TERM_PRIME,
        vec![Symbols::MULT, Symbols::FACTOR, Symbols::TERM_PRIME]
    )));
    assert!(t.contains(&applied(
        9,
        Symbols::FACTOR,
        vec![Symbols::L_PAREN, Symbols::EXPR, Symbols::R_PAREN]
    )));
    assert!(t.contains(&applied(11, Symbols::FACTOR, vec![Symbols::NUM])));
    assert!(t.contains(&matched("(")));
    assert!(t.contains(&matched(")")));
    assert!(t.contains(&matched("=")));
}

#[test]
fn trailing_semicolon_outside_a_block_is_a_syntax_error() {
    // statement chaining by a bare semicolon is only supported inside a
    // begin/end block; at top level the table cell under the end-marker
    // is the disabled chaining production, reported as an error
    let result = run("x = 3 * ( 4 + 5 ) ; $");
    assert!(result
        .trace
        .contains(&applied(13, Symbols::STATEMENT, vec![Symbols::ASSIGN])));
    assert_eq!(
        result.outcome,
        ParseOutcome::SyntaxError {
            expected: Symbols::END_OF_STACK,
            found: Symbols::SEMICOLON,
            line: 1,
        }
    );
}

#[test]
fn conditional_with_relop_takes_the_relational_shape() {
    let result = run("if x < 3 then x = 1 else x = 2 endif $");
    assert_eq!(result.outcome, ParseOutcome::Accepted);
    let t = &result.trace;
    assert!(t.contains(&applied(
        23,
        Symbols::STATEMENT,
        vec![
            Symbols::IF,
            Symbols::CONDITIONAL,
            Symbols::THEN,
            Symbols::STATEMENT,
            Symbols::ELSE,
            Symbols::STATEMENT,
            Symbols::ENDIF,
        ]
    )));
    assert!(t.contains(&applied(
        27,
        Symbols::CONDITIONAL,
        vec![Symbols::EXPR, Symbols::RELOP, Symbols::EXPR]
    )));
    assert!(t.contains(&applied(28, Symbols::RELOP, vec![Symbols::LTHAN])));
    assert!(t.contains(&matched("endif")));
}

#[test]
fn conditional_without_relop_takes_the_bare_shape() {
    let result = run("if x then x = 1 else x = 2 endif $");
    assert_eq!(result.outcome, ParseOutcome::Accepted);
    assert!(result
        .trace
        .contains(&applied(27, Symbols::CONDITIONAL, vec![Symbols::EXPR])));
}

#[test]
fn unmatched_parenthesis_reports_the_expected_symbol() {
    let result = run("( 1 + 2 $");
    assert_eq!(
        result.outcome,
        ParseOutcome::SyntaxError {
            expected: Symbols::R_PAREN,
            found: Symbols::END_OF_STACK,
            line: 1,
        }
    );
    assert!(!result.trace.is_empty());
}

#[test]
fn declaration_needs_an_identifier() {
    let result = run("int 5 ; $");
    assert_eq!(
        result.outcome,
        ParseOutcome::SyntaxError {
            expected: Symbols::ID_NT,
            found: Symbols::NUM,
            line: 1,
        }
    );
}

#[test]
fn while_statement_parses() {
    let result = run("while x < 5 do x = 1 ; whileend $");
    assert_eq!(result.outcome, ParseOutcome::Accepted);
    assert!(result.trace.contains(&applied(
        24,
        Symbols::STATEMENT,
        vec![
            Symbols::WHILE,
            Symbols::CONDITIONAL,
            Symbols::DO,
            Symbols::STATEMENT,
            Symbols::SEMICOLON,
            Symbols::WHILEEND,
        ]
    )));
}

#[test]
fn begin_block_chains_statements() {
    // `begin` and `end` are not in the reserved-keyword set, so the
    // scanner never produces them as keywords; build the token stream by
    // hand to drive the block productions
    let tokens = vec![
        token("KEYWORD", "begin", _Keyword),
        token("IDENTIFIER", "x", _Identifier),
        token("OPERATOR", "=", _Operator),
        token("INTEGER", "1", _Integer),
        token("SEPARATOR", ";", _Separator),
        token("IDENTIFIER", "y", _Identifier),
        token("OPERATOR", "=", _Operator),
        token("INTEGER", "2", _Integer),
        token("SEPARATOR", ";", _Separator),
        token("KEYWORD", "end", _Keyword),
        token("IDENTIFIER", "$", _Identifier),
    ];
    let result = parse(tokens);
    assert_eq!(result.outcome, ParseOutcome::Accepted);
    let t = &result.trace;
    assert!(t.contains(&applied(
        25,
        Symbols::STATEMENT,
        vec![
            Symbols::BEGIN,
            Symbols::STATEMENT,
            Symbols::MORESTATEMENTS,
            Symbols::END,
        ]
    )));
    assert!(t.contains(&applied(
        26,
        Symbols::MORESTATEMENTS,
        vec![Symbols::SEMICOLON, Symbols::STATEMENT, Symbols::MORESTATEMENTS]
    )));
}

#[test]
fn bare_expression_statement_parses() {
    let result = run("1 + 2 $");
    assert_eq!(result.outcome, ParseOutcome::Accepted);
    assert!(result
        .trace
        .contains(&applied(1, Symbols::STATEMENT, vec![Symbols::TERM, Symbols::EXPR_PRIME])));
}

#[test]
fn empty_statement_accepts_immediately() {
    let result = run(" $");
    assert_eq!(result.outcome, ParseOutcome::Accepted);
    assert!(result
        .trace
        .contains(&applied(4, Symbols::STATEMENT, vec![])));
}

#[test]
fn tokens_map_to_grammar_symbols() {
    assert_eq!(
        lexer_to_symbol(&token("IDENTIFIER", "$", _Identifier)),
        Symbols::END_OF_STACK
    );
    assert_eq!(
        lexer_to_symbol(&token("IDENTIFIER", "x", _Identifier)),
        Symbols::ID
    );
    assert_eq!(
        lexer_to_symbol(&token("SEPARATOR", "(", _Separator)),
        Symbols::L_PAREN
    );
    assert_eq!(
        lexer_to_symbol(&token("SEPARATOR", ")", _Separator)),
        Symbols::R_PAREN
    );
    assert_eq!(
        lexer_to_symbol(&token("SEPARATOR", ";", _Separator)),
        Symbols::SEMICOLON
    );
    assert_eq!(
        lexer_to_symbol(&token("SEPARATOR", ",", _Separator)),
        Symbols::COMMA
    );
    assert_eq!(
        lexer_to_symbol(&token("SEPARATOR", "{", _Separator)),
        Symbols::ERROR
    );
    assert_eq!(
        lexer_to_symbol(&token("OPERATOR", "+", _Operator)),
        Symbols::PLUS
    );
    assert_eq!(
        lexer_to_symbol(&token("OPERATOR", "<=", _Operator)),
        Symbols::LEQUAL
    );
    assert_eq!(
        lexer_to_symbol(&token("OPERATOR", "<>", _Operator)),
        Symbols::NOTEQUAL
    );
    assert_eq!(
        lexer_to_symbol(&token("OPERATOR", "%", _Operator)),
        Symbols::ERROR
    );
    assert_eq!(
        lexer_to_symbol(&token("INTEGER", "42", _Integer)),
        Symbols::NUM
    );
    assert_eq!(
        lexer_to_symbol(&token("KEYWORD", "endif", _Keyword)),
        Symbols::ENDIF
    );
    assert_eq!(
        lexer_to_symbol(&token("KEYWORD", "for", _Keyword)),
        Symbols::ERROR
    );
    assert_eq!(
        lexer_to_symbol(&token("REAL", "3.4", _Real)),
        Symbols::ERROR
    );
}

#[test]
fn grammar_table_is_deterministic() {
    let result_one = ll_entry(Symbols::STATEMENT, Symbols::IF);
    let result_two = ll_entry(Symbols::STATEMENT, Symbols::IF);
    assert_eq!(result_one, result_two);
    assert_eq!(result_one, Some(23));
    assert_eq!(ll_entry(Symbols::FACTOR, Symbols::L_PAREN), Some(9));
    assert_eq!(ll_entry(Symbols::FACTOR, Symbols::SEMICOLON), None);
    assert_eq!(ll_entry(Symbols::EXPR_PRIME, Symbols::SEMICOLON), Some(4));
}
