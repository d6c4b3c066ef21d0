//! The table-driven predictive parser: it keeps a derivation stack of
//! grammar symbols, consumes the token stream left to right, chooses
//! productions from a fixed grammar table, logs a derivation trace, and
//! records declared identifiers into a symbol table.  A missing table
//! entry is the sole error: it aborts the parse and reports the expected
//! symbol against the one found.

use vstd::prelude::*;

verus! {

use crate::lexer::token_models;
use crate::parser::Symbols::{ASSIGN, BEGIN, BOOL, COMMA, CONDITIONAL, DECLAR, DIV, DO, ELSE,
    END, ENDIF, END_OF_STACK, EQUAL, EQUALTO, ERROR, EXPR, EXPR_PRIME, FACTOR, FLOAT,
    GTHAN, GTHANEQUAL, ID, ID_NT, IF, INT, LEQUAL, LTHAN, L_PAREN, MINUS, MOREIDS,
    MORESTATEMENTS, MULT, NOTEQUAL, NUM, PLUS, RELOP, R_PAREN, SEMICOLON, STATEMENT, TERM,
    TERM_PRIME, THEN, TYPE, WHILE, WHILEEND};
use crate::tokens::TokenModel;
use crate::tokens::TokenType;
use vstd::string::StringExecFns;

/// Grammar symbols: the terminals of the language and the nonterminals of
/// its grammar, used both as table keys and as derivation-stack elements.
#[derive(Copy, Clone, Debug, PartialEq, Eq, Structural)]
#[allow(non_camel_case_types)]
pub enum Symbols {
    PLUS,
    MINUS,
    MULT,
    DIV,
    L_PAREN,
    R_PAREN,
    NUM,
    ID,
    EQUAL,
    INT,
    BOOL,
    FLOAT,
    COMMA,
    SEMICOLON,
    IF,
    THEN,
    ELSE,
    ENDIF,
    WHILE,
    DO,
    WHILEEND,
    BEGIN,
    END,
    LTHAN,
    LEQUAL,
    EQUALTO,
    NOTEQUAL,
    GTHANEQUAL,
    GTHAN,
    ERROR,
    END_OF_STACK,
    EXPR,
    EXPR_PRIME,
    TERM,
    TERM_PRIME,
    FACTOR,
    ID_NT,
    STATEMENT,
    ASSIGN,
    DECLAR,
    TYPE,
    MOREIDS,
    MORESTATEMENTS,
    CONDITIONAL,
    RELOP,
}

/// The grammar symbol a token stands for, from its category name and its
/// text.  Tokens outside the grammar map to `ERROR`, which no table entry
/// accepts.
pub open spec fn spec_symbol(name: Seq<char>, text: Seq<char>) -> Symbols {
    if name == "IDENTIFIER"@ {
        if text == "$"@ {
            END_OF_STACK
        } else {
            ID
        }
    } else if name == "SEPARATOR"@ {
        if text == "("@ {
            L_PAREN
        } else if text == ")"@ {
            R_PAREN
        } else if text == ";"@ {
            SEMICOLON
        } else if text == ","@ {
            COMMA
        } else {
            ERROR
        }
    } else if name == "OPERATOR"@ {
        if text == "+"@ {
            PLUS
        } else if text == "-"@ {
            MINUS
        } else if text == "*"@ {
            MULT
        } else if text == "/"@ {
            DIV
        } else if text == "="@ {
            EQUAL
        } else if text == "<"@ {
            LTHAN
        } else if text == "<="@ {
            LEQUAL
        } else if text == "=="@ {
            EQUALTO
        } else if text == "<>"@ {
            NOTEQUAL
        } else if text == ">="@ {
            GTHANEQUAL
        } else if text == ">"@ {
            GTHAN
        } else {
            ERROR
        }
    } else if name == "INTEGER"@ {
        NUM
    } else if name == "KEYWORD"@ {
        if text == "int"@ {
            INT
        } else if text == "bool"@ {
            BOOL
        } else if text == "float"@ {
            FLOAT
        } else if text == "if"@ {
            IF
        } else if text == "then"@ {
            THEN
        } else if text == "else"@ {
            ELSE
        } else if text == "endif"@ {
            ENDIF
        } else if text == "while"@ {
            WHILE
        } else if text == "do"@ {
            DO
        } else if text == "whileend"@ {
            WHILEEND
        } else if text == "begin"@ {
            BEGIN
        } else if text == "end"@ {
            END
        } else {
            ERROR
        }
    } else {
        ERROR
    }
}

/// Map a token to the grammar symbol it stands for.
pub fn lexer_to_symbol(current_token: &TokenType) -> (symbol: Symbols)
    ensures
        symbol == spec_symbol(current_token@.name, current_token@.text),
{
    if current_token.lexeme_name == String::from_str("IDENTIFIER") {
        if current_token.token == String::from_str("$") {
            END_OF_STACK
        } else {
            ID
        }
    } else if current_token.lexeme_name == String::from_str("SEPARATOR") {
        if current_token.token == String::from_str("(") {
            L_PAREN
        } else if current_token.token == String::from_str(")") {
            R_PAREN
        } else if current_token.token == String::from_str(";") {
            SEMICOLON
        } else if current_token.token == String::from_str(",") {
            COMMA
        } else {
            ERROR
        }
    } else if current_token.lexeme_name == String::from_str("OPERATOR") {
        if current_token.token == String::from_str("+") {
            PLUS
        } else if current_token.token == String::from_str("-") {
            MINUS
        } else if current_token.token == String::from_str("*") {
            MULT
        } else if current_token.token == String::from_str("/") {
            DIV
        } else if current_token.token == String::from_str("=") {
            EQUAL
        } else if current_token.token == String::from_str("<") {
            LTHAN
        } else if current_token.token == String::from_str("<=") {
            LEQUAL
        } else if current_token.token == String::from_str("==") {
            EQUALTO
        } else if current_token.token == String::from_str("<>") {
            NOTEQUAL
        } else if current_token.token == String::from_str(">=") {
            GTHANEQUAL
        } else if current_token.token == String::from_str(">") {
            GTHAN
        } else {
            ERROR
        }
    } else if current_token.lexeme_name == String::from_str("INTEGER") {
        NUM
    } else if current_token.lexeme_name == String::from_str("KEYWORD") {
        if current_token.token == String::from_str("int") {
            INT
        } else if current_token.token == String::from_str("bool") {
            BOOL
        } else if current_token.token == String::from_str("float") {
            FLOAT
        } else if current_token.token == String::from_str("if") {
            IF
        } else if current_token.token == String::from_str("then") {
            THEN
        } else if current_token.token == String::from_str("else") {
            ELSE
        } else if current_token.token == String::from_str("endif") {
            ENDIF
        } else if current_token.token == String::from_str("while") {
            WHILE
        } else if current_token.token == String::from_str("do") {
            DO
        } else if current_token.token == String::from_str("whileend") {
            WHILEEND
        } else if current_token.token == String::from_str("begin") {
            BEGIN
        } else if current_token.token == String::from_str("end") {
            END
        } else {
            ERROR
        }
    } else {
        ERROR
    }
}

/// The fixed grammar table: the production to apply when the given
/// nonterminal is on top of the stack and the given terminal is the
/// lookahead; `None` marks a syntax error at that configuration.  The
/// entry for a statement-chaining semicolon under the bottom end-marker
/// carries an id that no step consumes, so that configuration also
/// reports a syntax error.
pub open spec fn spec_ll_entry(nt: Symbols, term: Symbols) -> Option<u32> {
    match (nt, term) {
        (STATEMENT, L_PAREN) | (STATEMENT, ID) => Some(13),
        (STATEMENT, NUM) => Some(1),
        (STATEMENT, INT) | (STATEMENT, BOOL) | (STATEMENT, FLOAT) => Some(15),
        (STATEMENT, IF) => Some(23),
        (STATEMENT, WHILE) => Some(24),
        (STATEMENT, BEGIN) => Some(25),
        (STATEMENT, ELSE)
        | (STATEMENT, ENDIF)
        | (STATEMENT, WHILEEND)
        | (STATEMENT, END)
        | (STATEMENT, SEMICOLON)
        | (STATEMENT, END_OF_STACK) => Some(4),
        (MORESTATEMENTS, SEMICOLON) => Some(26),
        (MORESTATEMENTS, WHILEEND) | (MORESTATEMENTS, END) => Some(4),
        (MOREIDS, COMMA) => Some(36),
        (MOREIDS, SEMICOLON) => Some(4),
        (ASSIGN, ID) => Some(14),
        (DECLAR, INT) | (DECLAR, BOOL) | (DECLAR, FLOAT) => Some(16),
        (TYPE, INT) => Some(17),
        (TYPE, BOOL) => Some(18),
        (TYPE, FLOAT) => Some(19),
        (CONDITIONAL, ID) | (CONDITIONAL, NUM) => Some(27),
        (RELOP, LTHAN) => Some(28),
        (RELOP, LEQUAL) => Some(29),
        (RELOP, EQUALTO) => Some(30),
        (RELOP, NOTEQUAL) => Some(31),
        (RELOP, GTHANEQUAL) => Some(32),
        (RELOP, GTHAN) => Some(33),
        (EXPR, L_PAREN) | (EXPR, ID) | (EXPR, NUM) => Some(1),
        (EXPR_PRIME, PLUS) => Some(2),
        (EXPR_PRIME, MINUS) => Some(3),
        (EXPR_PRIME, MULT) | (EXPR_PRIME, DIV) => Some(6),
        (EXPR_PRIME, R_PAREN)
        | (EXPR_PRIME, END_OF_STACK)
        | (EXPR_PRIME, THEN)
        | (EXPR_PRIME, ELSE)
        | (EXPR_PRIME, ENDIF)
        | (EXPR_PRIME, LTHAN)
        | (EXPR_PRIME, LEQUAL)
        | (EXPR_PRIME, EQUALTO)
        | (EXPR_PRIME, NOTEQUAL)
        | (EXPR_PRIME, GTHANEQUAL)
        | (EXPR_PRIME, GTHAN)
        | (EXPR_PRIME, DO)
        | (EXPR_PRIME, SEMICOLON) => Some(4),
        (TERM, L_PAREN) | (TERM, NUM) | (TERM, ID) => Some(5),
        (TERM, MULT) | (TERM, DIV) => Some(6),
        (TERM_PRIME, MULT) => Some(7),
        (TERM_PRIME, DIV) => Some(8),
        (TERM_PRIME, PLUS)
        | (TERM_PRIME, MINUS)
        | (TERM_PRIME, R_PAREN)
        | (TERM_PRIME, SEMICOLON)
        | (TERM_PRIME, THEN)
        | (TERM_PRIME, ELSE)
        | (TERM_PRIME, ENDIF)
        | (TERM_PRIME, LTHAN)
        | (TERM_PRIME, LEQUAL)
        | (TERM_PRIME, EQUALTO)
        | (TERM_PRIME, NOTEQUAL)
        | (TERM_PRIME, GTHANEQUAL)
        | (TERM_PRIME, GTHAN)
        | (TERM_PRIME, DO)
        | (TERM_PRIME, END_OF_STACK) => Some(4),
        (FACTOR, L_PAREN) => Some(9),
        (FACTOR, ID) => Some(10),
        (FACTOR, NUM) => Some(11),
        (ID_NT, ID) => Some(12),
        (END_OF_STACK, SEMICOLON) => Some(21),
        _ => None,
    }
}

/// Look a (stack top, lookahead) pair up in the grammar table.
pub fn ll_entry(nt: Symbols, term: Symbols) -> (cell: Option<u32>)
    ensures
        cell == spec_ll_entry(nt, term),
{
    match (nt, term) {
        (STATEMENT, L_PAREN) | (STATEMENT, ID) => Some(13),
        (STATEMENT, NUM) => Some(1),
        (STATEMENT, INT) | (STATEMENT, BOOL) | (STATEMENT, FLOAT) => Some(15),
        (STATEMENT, IF) => Some(23),
        (STATEMENT, WHILE) => Some(24),
        (STATEMENT, BEGIN) => Some(25),
        (STATEMENT, ELSE)
        | (STATEMENT, ENDIF)
        | (STATEMENT, WHILEEND)
        | (STATEMENT, END)
        | (STATEMENT, SEMICOLON)
        | (STATEMENT, END_OF_STACK) => Some(4),
        (MORESTATEMENTS, SEMICOLON) => Some(26),
        (MORESTATEMENTS, WHILEEND) | (MORESTATEMENTS, END) => Some(4),
        (MOREIDS, COMMA) => Some(36),
        (MOREIDS, SEMICOLON) => Some(4),
        (ASSIGN, ID) => Some(14),
        (DECLAR, INT) | (DECLAR, BOOL) | (DECLAR, FLOAT) => Some(16),
        (TYPE, INT) => Some(17),
        (TYPE, BOOL) => Some(18),
        (TYPE, FLOAT) => Some(19),
        (CONDITIONAL, ID) | (CONDITIONAL, NUM) => Some(27),
        (RELOP, LTHAN) => Some(28),
        (RELOP, LEQUAL) => Some(29),
        (RELOP, EQUALTO) => Some(30),
        (RELOP, NOTEQUAL) => Some(31),
        (RELOP, GTHANEQUAL) => Some(32),
        (RELOP, GTHAN) => Some(33),
        (EXPR, L_PAREN) | (EXPR, ID) | (EXPR, NUM) => Some(1),
        (EXPR_PRIME, PLUS) => Some(2),
        (EXPR_PRIME, MINUS) => Some(3),
        (EXPR_PRIME, MULT) | (EXPR_PRIME, DIV) => Some(6),
        (EXPR_PRIME, R_PAREN)
        | (EXPR_PRIME, END_OF_STACK)
        | (EXPR_PRIME, THEN)
        | (EXPR_PRIME, ELSE)
        | (EXPR_PRIME, ENDIF)
        | (EXPR_PRIME, LTHAN)
        | (EXPR_PRIME, LEQUAL)
        | (EXPR_PRIME, EQUALTO)
        | (EXPR_PRIME, NOTEQUAL)
        | (EXPR_PRIME, GTHANEQUAL)
        | (EXPR_PRIME, GTHAN)
        | (EXPR_PRIME, DO)
        | (EXPR_PRIME, SEMICOLON) => Some(4),
        (TERM, L_PAREN) | (TERM, NUM) | (TERM, ID) => Some(5),
        (TERM, MULT) | (TERM, DIV) => Some(6),
        (TERM_PRIME, MULT) => Some(7),
        (TERM_PRIME, DIV) => Some(8),
        (TERM_PRIME, PLUS)
        | (TERM_PRIME, MINUS)
        | (TERM_PRIME, R_PAREN)
        | (TERM_PRIME, SEMICOLON)
        | (TERM_PRIME, THEN)
        | (TERM_PRIME, ELSE)
        | (TERM_PRIME, ENDIF)
        | (TERM_PRIME, LTHAN)
        | (TERM_PRIME, LEQUAL)
        | (TERM_PRIME, EQUALTO)
        | (TERM_PRIME, NOTEQUAL)
        | (TERM_PRIME, GTHANEQUAL)
        | (TERM_PRIME, GTHAN)
        | (TERM_PRIME, DO)
        | (TERM_PRIME, END_OF_STACK) => Some(4),
        (FACTOR, L_PAREN) => Some(9),
        (FACTOR, ID) => Some(10),
        (FACTOR, NUM) => Some(11),
        (ID_NT, ID) => Some(12),
        (END_OF_STACK, SEMICOLON) => Some(21),
        _ => None,
    }
}

/// The relational operators.
pub open spec fn spec_is_relop(s: Symbols) -> bool {
    s == LTHAN || s == LEQUAL || s == EQUALTO || s == NOTEQUAL || s == GTHANEQUAL || s == GTHAN
}

/// The bounded forward scan that shapes a conditional: true when a
/// relational operator stands before the first `then` (or the end of the
/// stream) from position `from` onward.
pub open spec fn spec_relop_scan(toks: Seq<TokenModel>, from: int) -> bool
    decreases toks.len() - from,
{
    if from < 0 || toks.len() <= from {
        false
    } else {
        let s = spec_symbol(toks[from].name, toks[from].text);
        if spec_is_relop(s) {
            true
        } else if s == THEN {
            false
        } else {
            spec_relop_scan(toks, from + 1)
        }
    }
}

/// Scan forward for a relational operator before the first `then`.
fn relop_scan(token_list: &Vec<TokenType>, from: usize) -> (found: bool)
    requires
        from <= token_list@.len(),
    ensures
        found == spec_relop_scan(token_models(token_list@), from as int),
{
    let mut temp: usize = from;
    while temp < token_list.len()
        invariant
            temp <= token_list@.len(),
            spec_relop_scan(token_models(token_list@), from as int) == spec_relop_scan(
                token_models(token_list@),
                temp as int,
            ),
        decreases token_list@.len() - temp,
    {
        let s = lexer_to_symbol(&token_list[temp]);
        if s == LTHAN || s == LEQUAL || s == EQUALTO || s == NOTEQUAL || s == GTHANEQUAL
            || s == GTHAN {
            return true;
        }
        if s == THEN {
            return false;
        }
        temp = temp + 1;
    }
    false
}

/// One line of the derivation trace: a matched terminal, or an applied
/// production (its table id, the symbol it rewrote, and its replacement).
#[derive(Clone, Debug, PartialEq, Eq)]
pub enum TraceEntry {
    Matched { text: String },
    Applied { rule: u32, lhs: Symbols, rhs: Vec<Symbols> },
}

/// The mathematical value of a trace line.
pub ghost enum TraceModel {
    Matched { text: Seq<char> },
    Applied { rule: u32, lhs: Symbols, rhs: Seq<Symbols> },
}

impl View for TraceEntry {
    type V = TraceModel;

    open spec fn view(&self) -> TraceModel {
        match self {
            TraceEntry::Matched { text } => TraceModel::Matched { text: text@ },
            TraceEntry::Applied { rule, lhs, rhs } => TraceModel::Applied {
                rule: *rule,
                lhs: *lhs,
                rhs: rhs@,
            },
        }
    }
}

/// One row of the symbol table: the declared type's name, the declared
/// identifier, and the line of its declaration.
#[derive(Clone, Debug, PartialEq, Eq)]
pub struct SymbolEntry {
    pub decl_type: String,
    pub name: String,
    pub line: usize,
}

/// The mathematical value of a symbol-table row.
pub ghost struct SymbolModel {
    pub decl_type: Seq<char>,
    pub name: Seq<char>,
    pub line: nat,
}

impl View for SymbolEntry {
    type V = SymbolModel;

    open spec fn view(&self) -> SymbolModel {
        SymbolModel { decl_type: self.decl_type@, name: self.name@, line: self.line as nat }
    }
}

/// How a parse run ended: acceptance, or the single kind of syntax error —
/// no table entry for the configuration — with the expected symbol, the
/// symbol found, and its source line.
#[derive(Copy, Clone, Debug, PartialEq, Eq, Structural)]
pub enum ParseOutcome {
    Accepted,
    SyntaxError { expected: Symbols, found: Symbols, line: usize },
}

/// The mathematical value of an outcome.
pub ghost enum OutcomeModel {
    Accepted,
    SyntaxError { expected: Symbols, found: Symbols, line: nat },
}

impl View for ParseOutcome {
    type V = OutcomeModel;

    open spec fn view(&self) -> OutcomeModel {
        match self {
            ParseOutcome::Accepted => OutcomeModel::Accepted,
            ParseOutcome::SyntaxError { expected, found, line } => OutcomeModel::SyntaxError {
                expected: *expected,
                found: *found,
                line: *line as nat,
            },
        }
    }
}

/// Everything a parse run produces: the derivation trace, the symbol
/// table, and the outcome.
#[derive(Clone, Debug)]
pub struct ParseResult {
    pub trace: Vec<TraceEntry>,
    pub symbol_table: Vec<SymbolEntry>,
    pub outcome: ParseOutcome,
}

/// The models of a vector of trace lines.
pub open spec fn trace_models(trace: Seq<TraceEntry>) -> Seq<TraceModel> {
    trace.map_values(|e: TraceEntry| e@)
}

/// The models of a vector of symbol-table rows.
pub open spec fn sym_models(table: Seq<SymbolEntry>) -> Seq<SymbolModel> {
    table.map_values(|e: SymbolEntry| e@)
}

proof fn lemma_trace_models_push(trace: Seq<TraceEntry>, e: TraceEntry)
    ensures
        trace_models(trace.push(e)) == trace_models(trace).push(e@),
{
    assert(trace_models(trace.push(e)) =~= trace_models(trace).push(e@));
}

proof fn lemma_sym_models_push(table: Seq<SymbolEntry>, e: SymbolEntry)
    ensures
        sym_models(table.push(e)) == sym_models(table).push(e@),
{
    assert(sym_models(table.push(e)) =~= sym_models(table).push(e@));
}

/// The whole state of the parser between steps: the derivation stack, the
/// position of the lookahead, the pending-declaration flag with the
/// recorded type name, and the output accumulated so far.
#[verifier::ext_equal]
pub ghost struct ParserState {
    pub stack: Seq<Symbols>,
    pub ptr: int,
    pub armed: bool,
    pub pending_type: Seq<char>,
    pub table: Seq<SymbolModel>,
    pub trace: Seq<TraceModel>,
}

/// The initial configuration: the end-marker under the start symbol, the
/// lookahead on the first token, nothing pending, nothing produced.
pub open spec fn spec_init() -> ParserState {
    ParserState {
        stack: seq![END_OF_STACK, STATEMENT],
        ptr: 0,
        armed: false,
        pending_type: Seq::empty(),
        table: Seq::empty(),
        trace: Seq::empty(),
    }
}

/// The production ids that a parse step can act on.
pub open spec fn spec_rule_handled(r: u32) -> bool {
    (1 <= r && r <= 19) || (23 <= r && r <= 33) || r == 36
}

/// The replacement (in reading order) of the production with table id
/// `r`.  Two productions are shaped by bounded lookahead: the
/// statement-head rule peeks one token past the identifier for `=`, and
/// the conditional rule scans forward for a relational operator before
/// the first `then`.
pub open spec fn spec_rule_rhs(toks: Seq<TokenModel>, ptr: int, r: u32) -> Seq<Symbols> {
    if r == 1 {
        seq![TERM, EXPR_PRIME]
    } else if r == 2 {
        seq![PLUS, TERM, EXPR_PRIME]
    } else if r == 3 {
        seq![MINUS, TERM, EXPR_PRIME]
    } else if r == 4 {
        Seq::empty()
    } else if r == 5 {
        seq![FACTOR, TERM_PRIME]
    } else if r == 6 {
        seq![TERM_PRIME]
    } else if r == 7 {
        seq![MULT, FACTOR, TERM_PRIME]
    } else if r == 8 {
        seq![DIV, FACTOR, TERM_PRIME]
    } else if r == 9 {
        seq![L_PAREN, EXPR, R_PAREN]
    } else if r == 10 {
        seq![ID_NT]
    } else if r == 11 {
        seq![NUM]
    } else if r == 12 {
        seq![ID]
    } else if r == 13 {
        if 0 <= ptr + 1 < toks.len() && toks[ptr + 1].text == "="@ {
            seq![ASSIGN]
        } else {
            seq![EXPR]
        }
    } else if r == 14 {
        seq![ID_NT, EQUAL, EXPR]
    } else if r == 15 {
        seq![DECLAR]
    } else if r == 16 {
        seq![TYPE, ID_NT, MOREIDS, SEMICOLON]
    } else if r == 17 {
        seq![INT]
    } else if r == 18 {
        seq![BOOL]
    } else if r == 19 {
        seq![FLOAT]
    } else if r == 23 {
        seq![IF, CONDITIONAL, THEN, STATEMENT, ELSE, STATEMENT, ENDIF]
    } else if r == 24 {
        seq![WHILE, CONDITIONAL, DO, STATEMENT, SEMICOLON, WHILEEND]
    } else if r == 25 {
        seq![BEGIN, STATEMENT, MORESTATEMENTS, END]
    } else if r == 26 {
        seq![SEMICOLON, STATEMENT, MORESTATEMENTS]
    } else if r == 27 {
        if spec_relop_scan(toks, ptr) {
            seq![EXPR, RELOP, EXPR]
        } else {
            seq![EXPR]
        }
    } else if r == 28 {
        seq![LTHAN]
    } else if r == 29 {
        seq![LEQUAL]
    } else if r == 30 {
        seq![EQUALTO]
    } else if r == 31 {
        seq![NOTEQUAL]
    } else if r == 32 {
        seq![GTHANEQUAL]
    } else if r == 33 {
        seq![GTHAN]
    } else if r == 36 {
        seq![COMMA, ID_NT, MOREIDS]
    } else {
        Seq::empty()
    }
}

/// Apply the production with id `r`: pop the rewritten symbol, push its
/// replacement so the leftmost symbol ends on top, log the application,
/// and perform the symbol-table side effect — the declaration rule arms
/// the pending flag and records the type name, an identifier reduction
/// while armed appends a row and disarms, the further-identifiers rule
/// re-arms.
pub open spec fn spec_apply(toks: Seq<TokenModel>, st: ParserState, r: u32) -> ParserState {
    let lhs = st.stack.last();
    let rhs = spec_rule_rhs(toks, st.ptr, r);
    let armed = if r == 12 {
        false
    } else if r == 15 || r == 36 {
        true
    } else {
        st.armed
    };
    let pending = if r == 15 {
        toks[st.ptr].text
    } else {
        st.pending_type
    };
    let table = if r == 12 && st.armed {
        st.table.push(
            SymbolModel {
                decl_type: st.pending_type,
                name: toks[st.ptr].text,
                line: toks[st.ptr].line,
            },
        )
    } else {
        st.table
    };
    ParserState {
        stack: st.stack.drop_last() + rhs.reverse(),
        ptr: st.ptr,
        armed: armed,
        pending_type: pending,
        table: table,
        trace: st.trace.push(TraceModel::Applied { rule: r, lhs: lhs, rhs: rhs }),
    }
}

/// One step of the parser on configuration `st`: accept when the
/// end-marker tops the stack and the lookahead is the final token; match
/// a terminal against the lookahead; otherwise consult the grammar table
/// and apply the production found, or stop with a syntax error.
pub open spec fn spec_step(toks: Seq<TokenModel>, st: ParserState) -> (
    ParserState,
    Option<OutcomeModel>,
) {
    if st.stack.len() == 0 {
        (st, Some(OutcomeModel::Accepted))
    } else {
        let top = st.stack.last();
        if top == END_OF_STACK && st.ptr == toks.len() - 1 {
            (ParserState { stack: st.stack.drop_last(), ..st }, Some(OutcomeModel::Accepted))
        } else if 0 <= st.ptr < toks.len() {
            let sym = spec_symbol(toks[st.ptr].name, toks[st.ptr].text);
            if top == sym {
                (
                    ParserState {
                        stack: st.stack.drop_last(),
                        ptr: st.ptr + 1,
                        trace: st.trace.push(TraceModel::Matched { text: toks[st.ptr].text }),
                        ..st
                    },
                    None,
                )
            } else {
                match spec_ll_entry(top, sym) {
                    Some(r) => if spec_rule_handled(r) {
                        (spec_apply(toks, st, r), None)
                    } else {
                        (
                            st,
                            Some(
                                OutcomeModel::SyntaxError {
                                    expected: top,
                                    found: sym,
                                    line: toks[st.ptr].line,
                                },
                            ),
                        )
                    },
                    None => (
                        st,
                        Some(
                            OutcomeModel::SyntaxError {
                                expected: top,
                                found: sym,
                                line: toks[st.ptr].line,
                            },
                        ),
                    ),
                }
            }
        } else {
            (st, Some(OutcomeModel::SyntaxError { expected: top, found: END_OF_STACK, line: 0 }))
        }
    }
}

/// Run the parser for at most `n` steps from `st`: the final state, and
/// the outcome if one was reached within the budget.
pub open spec fn spec_run(toks: Seq<TokenModel>, st: ParserState, n: nat) -> (
    ParserState,
    Option<OutcomeModel>,
)
    decreases n,
{
    if n == 0 {
        (st, None)
    } else {
        let stepped = spec_step(toks, st);
        if stepped.1 is Some {
            stepped
        } else {
            spec_run(toks, stepped.0, (n - 1) as nat)
        }
    }
}

/// Extending an unfinished run by one step runs the step function on the
/// state it reached.
proof fn lemma_run_succ(toks: Seq<TokenModel>, st0: ParserState, n: nat)
    requires
        spec_run(toks, st0, n).1 is None,
    ensures
        spec_run(toks, st0, n + 1) == spec_step(toks, spec_run(toks, st0, n).0),
    decreases n,
{
    if n > 0 {
        let stepped = spec_step(toks, st0);
        if stepped.1 is Some {
            assert(false);
        } else {
            let m = (n - 1) as nat;
            assert(spec_run(toks, st0, n) == spec_run(toks, stepped.0, m));
            lemma_run_succ(toks, stepped.0, m);
            assert(spec_run(toks, st0, n + 1) == spec_run(toks, stepped.0, m + 1));
        }
    } else {
        let stepped = spec_step(toks, st0);
        assert(spec_run(toks, st0, n) == (st0, None::<OutcomeModel>));
        if stepped.1 is Some {
            assert(spec_run(toks, st0, n + 1) == stepped);
        } else {
            assert(spec_run(toks, st0, n + 1) == spec_run(toks, stepped.0, 0));
            assert(spec_run(toks, stepped.0, 0) == (stepped.0, None::<OutcomeModel>));
            assert(stepped == (stepped.0, stepped.1));
        }
    }
}

/// The parser is deterministic: two runs from one configuration that
/// both finish, finish with the same state and the same outcome.
pub proof fn lemma_run_deterministic(toks: Seq<TokenModel>, st: ParserState, n1: nat, n2: nat)
    requires
        spec_run(toks, st, n1).1 is Some,
        spec_run(toks, st, n2).1 is Some,
    ensures
        spec_run(toks, st, n1) == spec_run(toks, st, n2),
    decreases n1,
{
    assert(n1 > 0 && n2 > 0);
    let stepped = spec_step(toks, st);
    if stepped.1 is Some {
    } else {
        assert(spec_run(toks, st, n1) == spec_run(toks, stepped.0, (n1 - 1) as nat));
        assert(spec_run(toks, st, n2) == spec_run(toks, stepped.0, (n2 - 1) as nat));
        lemma_run_deterministic(toks, stepped.0, (n1 - 1) as nat, (n2 - 1) as nat);
    }
}

/// A token stream whose last token, and no other, maps to the end-marker.
pub open spec fn sentinel_terminated(toks: Seq<TokenModel>) -> bool {
    &&& toks.len() >= 1
    &&& spec_symbol(toks.last().name, toks.last().text) == END_OF_STACK
    &&& forall|i: int|
        0 <= i < toks.len() - 1 ==> spec_symbol(toks[i].name, toks[i].text) != END_OF_STACK
}

/// The weight of a grammar symbol for the parser's termination measure:
/// every production either puts a terminal equal to its chosen lookahead
/// on top of the stack, or strictly shrinks the summed weight of the
/// stack.
pub open spec fn sym_weight(s: Symbols) -> nat {
    match s {
        TERM_PRIME | ID_NT | RELOP | TYPE | MOREIDS | MORESTATEMENTS => 2,
        EXPR_PRIME | FACTOR => 3,
        TERM => 6,
        DECLAR => 8,
        EXPR => 10,
        ASSIGN => 14,
        STATEMENT => 15,
        CONDITIONAL => 23,
        _ => 1,
    }
}

/// The summed weight of a derivation stack.
pub open spec fn stack_pot(stack: Seq<Symbols>) -> nat
    decreases stack.len(),
{
    if stack.len() == 0 {
        0
    } else {
        sym_weight(stack.last()) + stack_pot(stack.drop_last())
    }
}

/// Whether the stack top equals the grammar symbol of the lookahead, so
/// the next step is a match or the accepting step.
pub open spec fn lookahead_matches(stack: Seq<Symbols>, toks: Seq<TokenModel>, ptr: int) -> bool {
    stack.len() > 0 && 0 <= ptr < toks.len() && stack.last() == spec_symbol(
        toks[ptr].name,
        toks[ptr].text,
    )
}

proof fn lemma_stack_pot_concat(a: Seq<Symbols>, b: Seq<Symbols>)
    ensures
        stack_pot(a + b) == stack_pot(a) + stack_pot(b),
    decreases b.len(),
{
    if b.len() == 0 {
        assert(a + b =~= a);
    } else {
        assert((a + b).drop_last() =~= a + b.drop_last());
        assert((a + b).last() == b.last());
        lemma_stack_pot_concat(a, b.drop_last());
    }
}

proof fn lemma_stack_pot_first(s: Seq<Symbols>)
    requires
        s.len() > 0,
    ensures
        stack_pot(s) == sym_weight(s[0]) + stack_pot(s.drop_first()),
    decreases s.len(),
{
    if s.len() == 1 {
        assert(s.drop_last() =~= Seq::<Symbols>::empty());
        assert(s.drop_first() =~= Seq::<Symbols>::empty());
    } else {
        lemma_stack_pot_first(s.drop_last());
        assert(s.drop_last()[0] == s[0]);
        assert(s.drop_last().drop_first() =~= s.drop_first().drop_last());
        assert(s.drop_first().last() == s.last());
    }
}

proof fn lemma_pot1(a: Symbols)
    ensures
        stack_pot(seq![a]) == sym_weight(a),
{
    assert(seq![a].len() == 1);
    assert(seq![a].last() == a);
    assert(seq![a].drop_last() =~= Seq::<Symbols>::empty());
    assert(stack_pot(Seq::<Symbols>::empty()) == 0);
}

proof fn lemma_pot2(a: Symbols, b: Symbols)
    ensures
        stack_pot(seq![a, b]) == sym_weight(a) + sym_weight(b),
{
    lemma_pot1(a);
    assert(seq![a, b].drop_last() =~= seq![a]);
}

proof fn lemma_pot3(a: Symbols, b: Symbols, c: Symbols)
    ensures
        stack_pot(seq![a, b, c]) == sym_weight(a) + sym_weight(b) + sym_weight(c),
{
    lemma_pot2(a, b);
    assert(seq![a, b, c].drop_last() =~= seq![a, b]);
}

proof fn lemma_pot4(a: Symbols, b: Symbols, c: Symbols, d: Symbols)
    ensures
        stack_pot(seq![a, b, c, d]) == sym_weight(a) + sym_weight(b) + sym_weight(c)
            + sym_weight(d),
{
    lemma_pot3(a, b, c);
    assert(seq![a, b, c, d].drop_last() =~= seq![a, b, c]);
}

proof fn lemma_stack_pot_reverse(s: Seq<Symbols>)
    ensures
        stack_pot(s.reverse()) == stack_pot(s),
    decreases s.len(),
{
    if s.len() > 0 {
        lemma_stack_pot_reverse(s.drop_first());
        assert(s.reverse().drop_last() =~= s.drop_first().reverse());
        assert(s.reverse().last() == s[0]);
        lemma_stack_pot_first(s);
    }
}

/// The scanner feeds the parser: a source text that ends with the
/// sentinel pair — a space followed by the sentinel mark — and whose
/// remaining characters contain neither a sentinel mark nor a comment
/// mark scans to a stream the parser accepts as input, with the
/// end-marker last and nowhere else.
pub proof fn lemma_scanned_stream_feeds_parser(chars: Seq<char>)
    requires
        chars.len() >= 2,
        chars[chars.len() - 2] == ' ',
        chars[chars.len() - 1] == '$',
        forall|k: int| 0 <= k < chars.len() - 1 ==> chars[k] != '$',
        forall|k: int| 0 <= k < chars.len() - 1 ==> chars[k] != '!',
    ensures
        sentinel_terminated(crate::lexer::spec_lexer(chars)),
{
    let toks = crate::lexer::spec_lexer(chars);
    crate::lexer::lemma_lexer_sentinel(chars);
    crate::lexer::lemma_lexer_names(chars);
    reveal_strlit("$");
    reveal_strlit("IDENTIFIER");
    reveal_strlit("COMMENT");
    reveal_strlit("SPACE");
    reveal_strlit("SEPARATOR");
    reveal_strlit("INTEGER");
    reveal_strlit("REAL");
    reveal_strlit("STRING");
    reveal_strlit("OPERATOR");
    reveal_strlit("UNKNOWN");
    reveal_strlit("KEYWORD");
    reveal_strlit("ERROR");
    assert("$"@ == seq!['$']);
    let last = toks.last();
    assert(last.name == crate::lexer::spec_lexeme_name(last.lexeme));
    assert(spec_symbol(last.name, last.text) == END_OF_STACK);
    assert forall|i: int| 0 <= i < toks.len() - 1 implies spec_symbol(
        toks[i].name,
        toks[i].text,
    ) != END_OF_STACK by {
        if spec_symbol(toks[i].name, toks[i].text) == END_OF_STACK {
            assert(toks[i].name == "IDENTIFIER"@);
            assert(toks[i].text == "$"@);
            assert(toks[i].name == crate::lexer::spec_lexeme_name(toks[i].lexeme));
            assert(toks[i].lexeme == crate::fsm::FsmTransitions::_Identifier);
            assert(crate::lexer::is_end_marker(toks[i]));
            assert(false);
        }
    }
}

/// Pop the stack top and push the given replacement so its leftmost
/// symbol ends on top; log the application.
fn apply_production(ss: &mut Vec<Symbols>, trace: &mut Vec<TraceEntry>, rule: u32, rhs: Vec<
    Symbols,
>)
    requires
        old(ss)@.len() >= 1,
    ensures
        final(ss)@ == old(ss)@.drop_last() + rhs@.reverse(),
        trace_models(final(trace)@) == trace_models(old(trace)@).push(
            TraceModel::Applied { rule: rule, lhs: old(ss)@.last(), rhs: rhs@ },
        ),
{
    let lhs = ss[ss.len() - 1];
    let _ = ss.pop();
    let mut k = rhs.len();
    proof {
        assert(ss@ =~= old(ss)@.drop_last() + rhs@.subrange(k as int, rhs@.len() as int).reverse());
    }
    while k > 0
        invariant
            k <= rhs@.len(),
            lhs == old(ss)@.last(),
            ss@ == old(ss)@.drop_last() + rhs@.subrange(k as int, rhs@.len() as int).reverse(),
        decreases k,
    {
        k = k - 1;
        ss.push(rhs[k]);
        proof {
            assert(ss@ =~= old(ss)@.drop_last() + rhs@.subrange(
                k as int,
                rhs@.len() as int,
            ).reverse());
        }
    }
    proof {
        assert(rhs@.subrange(0, rhs@.len() as int) =~= rhs@);
        assert(ss@ =~= old(ss)@.drop_last() + rhs@.reverse());
    }
    let entry = TraceEntry::Applied { rule: rule, lhs: lhs, rhs: rhs };
    proof {
        lemma_trace_models_push(trace@, entry);
    }
    trace.push(entry);
}

/// Build the replacement of production `r` at the current position.
fn rule_rhs(r: u32, token_list: &Vec<TokenType>, ptr: usize) -> (rhs: Vec<Symbols>)
    requires
        ptr < token_list@.len(),
    ensures
        rhs@ == spec_rule_rhs(token_models(token_list@), ptr as int, r),
{
    if r == 1 {
        vec![TERM, EXPR_PRIME]
    } else if r == 2 {
        vec![PLUS, TERM, EXPR_PRIME]
    } else if r == 3 {
        vec![MINUS, TERM, EXPR_PRIME]
    } else if r == 4 {
        Vec::new()
    } else if r == 5 {
        vec![FACTOR, TERM_PRIME]
    } else if r == 6 {
        vec![TERM_PRIME]
    } else if r == 7 {
        vec![MULT, FACTOR, TERM_PRIME]
    } else if r == 8 {
        vec![DIV, FACTOR, TERM_PRIME]
    } else if r == 9 {
        vec![L_PAREN, EXPR, R_PAREN]
    } else if r == 10 {
        vec![ID_NT]
    } else if r == 11 {
        vec![NUM]
    } else if r == 12 {
        vec![ID]
    } else if r == 13 {
        // statement-head disambiguation: an identifier followed by `=`
        // starts an assignment, anything else a bare expression
        let n = token_list.len();
        let assign = ptr + 1 < n && token_list[ptr + 1].token == String::from_str("=");
        if assign {
            vec![ASSIGN]
        } else {
            vec![EXPR]
        }
    } else if r == 14 {
        vec![ID_NT, EQUAL, EXPR]
    } else if r == 15 {
        vec![DECLAR]
    } else if r == 16 {
        vec![TYPE, ID_NT, MOREIDS, SEMICOLON]
    } else if r == 17 {
        vec![INT]
    } else if r == 18 {
        vec![BOOL]
    } else if r == 19 {
        vec![FLOAT]
    } else if r == 23 {
        vec![IF, CONDITIONAL, THEN, STATEMENT, ELSE, STATEMENT, ENDIF]
    } else if r == 24 {
        vec![WHILE, CONDITIONAL, DO, STATEMENT, SEMICOLON, WHILEEND]
    } else if r == 25 {
        vec![BEGIN, STATEMENT, MORESTATEMENTS, END]
    } else if r == 26 {
        vec![SEMICOLON, STATEMENT, MORESTATEMENTS]
    } else if r == 27 {
        // conditional-shape disambiguation: scan forward for a relational
        // operator before the first `then`
        if relop_scan(token_list, ptr) {
            vec![EXPR, RELOP, EXPR]
        } else {
            vec![EXPR]
        }
    } else if r == 28 {
        vec![LTHAN]
    } else if r == 29 {
        vec![LEQUAL]
    } else if r == 30 {
        vec![EQUALTO]
    } else if r == 31 {
        vec![NOTEQUAL]
    } else if r == 32 {
        vec![GTHANEQUAL]
    } else if r == 33 {
        vec![GTHAN]
    } else if r == 36 {
        vec![COMMA, ID_NT, MOREIDS]
    } else {
        Vec::new()
    }
}

/// Whether a parse step can act on production id `r`.
fn rule_handled(r: u32) -> (b: bool)
    ensures
        b == spec_rule_handled(r),
{
    (1 <= r && r <= 19) || (23 <= r && r <= 33) || r == 36
}

/// Parse a sentinel-terminated token stream.  The run starts from the
/// initial configuration and iterates the step function until it accepts
/// or reports a syntax error; the trace and symbol table of the final
/// configuration are returned with the outcome.
#[verifier::rlimit(100)]
pub fn parse(token_list: Vec<TokenType>) -> (result: ParseResult)
    requires
        sentinel_terminated(token_models(token_list@)),
    ensures
        exists|n: nat|
            #![trigger spec_run(token_models(token_list@), spec_init(), n)]
            {
                let r = spec_run(token_models(token_list@), spec_init(), n);
                &&& r.1 == Some(result.outcome@)
                &&& r.0.trace == trace_models(result.trace@)
                &&& r.0.table == sym_models(result.symbol_table@)
            },
{
    let ghost toks = token_models(token_list@);
    let mut ss: Vec<Symbols> = Vec::new();
    ss.push(END_OF_STACK);
    ss.push(STATEMENT);
    let mut token_pointer: usize = 0;
    let mut trace: Vec<TraceEntry> = Vec::new();
    let mut symbol_table: Vec<SymbolEntry> = Vec::new();
    let mut symbol_type: String = String::new();
    let mut symbol_flag: bool = false;
    let mut outcome: Option<ParseOutcome> = None;
    let ghost mut cur = spec_init();
    let ghost mut steps: nat = 0;
    proof {
        assert(cur.stack =~= ss@);
        assert(toks.len() == token_list@.len());
    }
    while ss.len() > 0 && outcome.is_none()
        invariant
            toks == token_models(token_list@),
            sentinel_terminated(toks),
            toks.len() == token_list@.len(),
            outcome is None ==> {
                &&& spec_run(toks, spec_init(), steps) == (cur, Option::<OutcomeModel>::None)
                &&& cur.stack == ss@
                &&& cur.ptr == token_pointer as int
                &&& cur.armed == symbol_flag
                &&& cur.pending_type == symbol_type@
                &&& cur.table == sym_models(symbol_table@)
                &&& cur.trace == trace_models(trace@)
                &&& token_pointer < toks.len()
                &&& ss@.len() >= 1
                &&& ss@[0] == END_OF_STACK
                &&& forall|i: int| 1 <= i < ss@.len() ==> ss@[i] != END_OF_STACK
            },
            outcome matches Some(oc) ==> exists|n: nat|
                #![trigger spec_run(toks, spec_init(), n)]
                {
                    let r = spec_run(toks, spec_init(), n);
                    &&& r.1 == Some(oc@)
                    &&& r.0.trace == trace_models(trace@)
                    &&& r.0.table == sym_models(symbol_table@)
                },
        decreases
                (if outcome is None { 1int } else { 0int }),
                toks.len() - token_pointer,
                (if lookahead_matches(ss@, toks, token_pointer as int) { 0int } else { 1int }),
                stack_pot(ss@),
    {
        let ghost prev = cur;
        let top = ss[ss.len() - 1];
        proof {
            assert(top == prev.stack.last());
        }
        if top == END_OF_STACK && token_list.len() == token_pointer + 1 {
            let _ = ss.pop();
            outcome = Some(ParseOutcome::Accepted);
            proof {
                lemma_run_succ(toks, spec_init(), steps);
                let stepped = spec_step(toks, prev);
                assert(stepped.1 == Some(OutcomeModel::Accepted));
                assert(stepped.0.trace == trace_models(trace@));
                assert(stepped.0.table == sym_models(symbol_table@));
                assert(spec_run(toks, spec_init(), steps + 1) == stepped);
                steps = steps + 1;
            }
        } else {
            let current_symbol = lexer_to_symbol(&token_list[token_pointer]);
            if top == current_symbol {
                // match: log the terminal, advance the lookahead, pop
                proof {
                    if top == END_OF_STACK {
                        assert(token_pointer as int == toks.len() - 1);
                        assert(false);
                    }
                    if token_pointer as int == toks.len() - 1 {
                        assert(current_symbol == END_OF_STACK);
                        assert(false);
                    }
                }
                let entry = TraceEntry::Matched {
                    text: token_list[token_pointer].token.clone(),
                };
                proof {
                    lemma_trace_models_push(trace@, entry);
                }
                trace.push(entry);
                let len_now = token_list.len();
                proof {
                    assert(token_pointer < len_now);
                }
                token_pointer = token_pointer + 1;
                let _ = ss.pop();
                proof {
                    let stepped = spec_step(toks, prev);
                    cur = ParserState {
                        stack: ss@,
                        ptr: token_pointer as int,
                        armed: symbol_flag,
                        pending_type: symbol_type@,
                        table: sym_models(symbol_table@),
                        trace: trace_models(trace@),
                    };
                    assert(stepped.0 =~~= cur);
                    assert(stepped.1 is None);
                    lemma_run_succ(toks, spec_init(), steps);
                    assert(spec_run(toks, spec_init(), steps + 1) == (
                        cur,
                        Option::<OutcomeModel>::None,
                    ));
                    steps = steps + 1;
                }
            } else {
                let cell = ll_entry(top, current_symbol);
                let mut handled = false;
                if let Some(r) = cell {
                    if rule_handled(r) {
                        handled = true;
                        let rhs = rule_rhs(r, &token_list, token_pointer);
                        apply_production(&mut ss, &mut trace, r, rhs);
                        if r == 12 {
                            // identifier reduction: record the pending
                            // declaration, if one is armed
                            if symbol_flag {
                                let entry = SymbolEntry {
                                    decl_type: symbol_type.clone(),
                                    name: token_list[token_pointer].token.clone(),
                                    line: token_list[token_pointer].line,
                                };
                                proof {
                                    lemma_sym_models_push(symbol_table@, entry);
                                }
                                symbol_table.push(entry);
                                symbol_flag = false;
                            }
                        } else if r == 15 {
                            // declaration chosen: arm and record the type
                            symbol_type = token_list[token_pointer].token.clone();
                            symbol_flag = true;
                        } else if r == 36 {
                            // a further declared identifier follows
                            symbol_flag = true;
                        }
                        proof {
                            let stepped = spec_step(toks, prev);
                            cur = ParserState {
                                stack: ss@,
                                ptr: token_pointer as int,
                                armed: symbol_flag,
                                pending_type: symbol_type@,
                                table: sym_models(symbol_table@),
                                trace: trace_models(trace@),
                            };
                            assert(stepped.0 =~~= spec_apply(toks, prev, r));
                            assert(spec_apply(toks, prev, r) =~~= cur);
                            assert(stepped.1 is None);
                            lemma_run_succ(toks, spec_init(), steps);
                            assert(spec_run(toks, spec_init(), steps + 1) == (
                                cur,
                                Option::<OutcomeModel>::None,
                            ));
                            steps = steps + 1;
                        }
                        proof {
                            // the stack keeps its bottom end-marker, and
                            // only there
                            let old_stack = prev.stack;
                            let rhsm = spec_rule_rhs(toks, prev.ptr, r);
                            assert(old_stack.last() != END_OF_STACK);
                            assert(old_stack.len() >= 2);
                            assert(forall|j: int| 0 <= j < rhsm.len() ==> rhsm[j] != END_OF_STACK);
                            assert(forall|j: int|
                                0 <= j < rhsm.reverse().len() ==> rhsm.reverse()[j]
                                    != END_OF_STACK);
                            assert(ss@[0] == END_OF_STACK);
                            assert(forall|i: int| 1 <= i < ss@.len() ==> ss@[i] != END_OF_STACK);
                        }
                        proof {
                            // termination: the lookahead stands still, so
                            // either the replacement's head is the terminal
                            // the production was chosen on — matched next —
                            // or the stack potential shrinks
                            let old_stack = prev.stack;
                            let rhsm = spec_rule_rhs(toks, prev.ptr, r);
                            let symv = spec_symbol(
                                toks[prev.ptr].name,
                                toks[prev.ptr].text,
                            );
                            assert(ss@ == old_stack.drop_last() + rhsm.reverse());
                            lemma_stack_pot_concat(old_stack.drop_last(), rhsm.reverse());
                            lemma_stack_pot_reverse(rhsm);
                            assert(stack_pot(old_stack) == sym_weight(old_stack.last())
                                + stack_pot(old_stack.drop_last()));
                            if r == 1 {
                                lemma_pot2(TERM, EXPR_PRIME);
                                assert(sym_weight(old_stack.last()) >= 10);
                                assert(stack_pot(ss@) < stack_pot(old_stack));
                            } else if r == 4 {
                                assert(rhsm.reverse() =~= Seq::<Symbols>::empty());
                                assert(stack_pot(ss@) < stack_pot(old_stack));
                            } else if r == 5 {
                                lemma_pot2(FACTOR, TERM_PRIME);
                                assert(sym_weight(old_stack.last()) == 6);
                                assert(stack_pot(ss@) < stack_pot(old_stack));
                            } else if r == 6 {
                                lemma_pot1(TERM_PRIME);
                                assert(sym_weight(old_stack.last()) >= 3);
                                assert(stack_pot(ss@) < stack_pot(old_stack));
                            } else if r == 10 {
                                lemma_pot1(ID_NT);
                                assert(sym_weight(old_stack.last()) == 3);
                                assert(stack_pot(ss@) < stack_pot(old_stack));
                            } else if r == 13 {
                                lemma_pot1(ASSIGN);
                                lemma_pot1(EXPR);
                                assert(stack_pot(rhsm) <= 14);
                                assert(sym_weight(old_stack.last()) == 15);
                                assert(stack_pot(ss@) < stack_pot(old_stack));
                            } else if r == 14 {
                                lemma_pot3(ID_NT, EQUAL, EXPR);
                                assert(sym_weight(old_stack.last()) == 14);
                                assert(stack_pot(ss@) < stack_pot(old_stack));
                            } else if r == 15 {
                                lemma_pot1(DECLAR);
                                assert(sym_weight(old_stack.last()) == 15);
                                assert(stack_pot(ss@) < stack_pot(old_stack));
                            } else if r == 16 {
                                lemma_pot4(TYPE, ID_NT, MOREIDS, SEMICOLON);
                                assert(sym_weight(old_stack.last()) == 8);
                                assert(stack_pot(ss@) < stack_pot(old_stack));
                            } else if r == 27 {
                                lemma_pot3(EXPR, RELOP, EXPR);
                                lemma_pot1(EXPR);
                                assert(stack_pot(rhsm) <= 22);
                                assert(sym_weight(old_stack.last()) == 23);
                                assert(stack_pot(ss@) < stack_pot(old_stack));
                            } else {
                                assert(rhsm.len() > 0);
                                assert(ss@.last() == rhsm[0]);
                                if r == 2 {
                                    assert(symv == PLUS);
                                } else if r == 3 {
                                    assert(symv == MINUS);
                                } else if r == 7 {
                                    assert(symv == MULT);
                                } else if r == 8 {
                                    assert(symv == DIV);
                                } else if r == 9 {
                                    assert(symv == L_PAREN);
                                } else if r == 11 {
                                    assert(symv == NUM);
                                } else if r == 12 {
                                    assert(symv == ID);
                                } else if r == 17 {
                                    assert(symv == INT);
                                } else if r == 18 {
                                    assert(symv == BOOL);
                                } else if r == 19 {
                                    assert(symv == FLOAT);
                                } else if r == 23 {
                                    assert(symv == IF);
                                } else if r == 24 {
                                    assert(symv == WHILE);
                                } else if r == 25 {
                                    assert(symv == BEGIN);
                                } else if r == 26 {
                                    assert(symv == SEMICOLON);
                                } else if r == 28 {
                                    assert(symv == LTHAN);
                                } else if r == 29 {
                                    assert(symv == LEQUAL);
                                } else if r == 30 {
                                    assert(symv == EQUALTO);
                                } else if r == 31 {
                                    assert(symv == NOTEQUAL);
                                } else if r == 32 {
                                    assert(symv == GTHANEQUAL);
                                } else if r == 33 {
                                    assert(symv == GTHAN);
                                } else {
                                    assert(r == 36);
                                    assert(symv == COMMA);
                                }
                                assert(ss@.last() == symv);
                                assert(lookahead_matches(ss@, toks, token_pointer as int));
                            }
                        }
                    }
                }
                if !handled {
                    let oc = ParseOutcome::SyntaxError {
                        expected: top,
                        found: current_symbol,
                        line: token_list[token_pointer].line,
                    };
                    outcome = Some(oc);
                    proof {
                        lemma_run_succ(toks, spec_init(), steps);
                        let stepped = spec_step(toks, prev);
                        assert(stepped.1 == Some(oc@));
                        assert(stepped.0.trace == trace_models(trace@));
                        assert(stepped.0.table == sym_models(symbol_table@));
                        assert(spec_run(toks, spec_init(), steps + 1) == stepped);
                        steps = steps + 1;
                    }
                }
            }
        }
    }
    match outcome {
        Some(oc) => ParseResult { trace: trace, symbol_table: symbol_table, outcome: oc },
        None => vstd::pervasive::unreached(),
    }
}

} // verus!
