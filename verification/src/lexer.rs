//! The finite-state lexical scanner: classifies characters, drives the
//! transition table over the input, and flushes accumulated runs into
//! tokens.  The scanner never fails: content it cannot classify becomes
//! `UNKNOWN` tokens.

use vstd::prelude::*;

verus! {

use crate::fsm::FsmTransitions;
use crate::fsm::FsmTransitions::{_Comment, _Identifier, _Integer, _Keyword, _Operator, _Real,
    _Reject, _Separator, _Space, _String, _Unknown};
use crate::fsm::spec_transition;
use crate::fsm::transition;
use crate::tokens::TokenModel;
use crate::tokens::TokenType;
use vstd::string::StrSliceExecFns;
use vstd::string::StringExecFns;

/// Whether a character beyond ASCII has the Unicode `Alphabetic`
/// property.  Named, not spelled out: the property is a function of the
/// character alone, but its definition fills Unicode tables.
pub uninterp spec fn alphabetic_beyond_ascii(c: char) -> bool;

/// Whether a character counts as alphabetic for classification.  Within
/// ASCII the alphabetic characters are exactly the letters.
pub open spec fn spec_alphabetic(c: char) -> bool {
    if (c as u32) < 128 {
        ('a' <= c && c <= 'z') || ('A' <= c && c <= 'Z')
    } else {
        alphabetic_beyond_ascii(c)
    }
}

/// Relies on `char::is_alphabetic`: true exactly when the character has
/// the Unicode `Alphabetic` property, a function of the character alone;
/// the ASCII characters with that property are exactly `a`-`z` and
/// `A`-`Z`.
#[verifier::external_body]
fn char_is_alphabetic(c: char) -> (r: bool)
    ensures
        r == spec_alphabetic(c),
        (c as u32) >= 128 ==> r == alphabetic_beyond_ascii(c),
{
    c.is_alphabetic()
}

/// Relies on `String::from_iter` (via `Iterator::collect`): the collected
/// string holds exactly the vector's characters, in order.
#[verifier::external_body]
fn chars_to_string(chars: &Vec<char>) -> (s: String)
    ensures
        s@ == chars@,
{
    chars.iter().collect()
}

/// The fixed classification of one character: total and stateless.
pub open spec fn spec_get_col(c: char) -> FsmTransitions {
    if '0' <= c && c <= '9' {
        _Integer
    } else if spec_alphabetic(c) {
        _String
    } else {
        match c {
            '!' => _Comment,
            ' ' | '\n' | '\r' | '\t' => _Space,
            '$' => _String,
            '.' => _Real,
            '\'' | '{' | '}' | '[' | ']' | '(' | ')' | ',' | ':' | ';' => _Separator,
            '*' | '+' | '-' | '=' | '/' | '>' | '<' | '%' => _Operator,
            _ => _Unknown,
        }
    }
}

/// Classify one character into the column of the transition table.
pub fn get_col(c: char) -> (col: FsmTransitions)
    ensures
        col == spec_get_col(c),
{
    if '0' <= c && c <= '9' {
        _Integer
    } else if char_is_alphabetic(c) {
        _String
    } else {
        match c {
            '!' => _Comment,
            ' ' | '\n' | '\r' | '\t' => _Space,
            '$' => _String,
            '.' => _Real,
            '\'' | '{' | '}' | '[' | ']' | '(' | ')' | ',' | ':' | ';' => _Separator,
            '*' | '+' | '-' | '=' | '/' | '>' | '<' | '%' => _Operator,
            _ => _Unknown,
        }
    }
}

/// Purity of classification: the class of a character is defined once and
/// for all, so two classifications of the same character always agree.
pub proof fn lemma_classification_idempotent(c: char, r1: FsmTransitions, r2: FsmTransitions)
    requires
        r1 == spec_get_col(c),
        r2 == spec_get_col(c),
    ensures
        r1 == r2,
{
}

/// The display name of each token category.
pub open spec fn spec_lexeme_name(lexeme: FsmTransitions) -> Seq<char> {
    match lexeme {
        _Comment => "COMMENT"@,
        _Space => "SPACE"@,
        _Separator => "SEPARATOR"@,
        _Integer => "INTEGER"@,
        _Real => "REAL"@,
        _String => "STRING"@,
        _Operator => "OPERATOR"@,
        _Unknown => "UNKNOWN"@,
        _Keyword => "KEYWORD"@,
        _Identifier => "IDENTIFIER"@,
        _Reject => "ERROR"@,
    }
}

/// Name a token category for display.
pub fn get_lexeme_name(lexeme: &FsmTransitions) -> (name: String)
    ensures
        name@ == spec_lexeme_name(*lexeme),
{
    match lexeme {
        _Comment => String::from_str("COMMENT"),
        _Space => String::from_str("SPACE"),
        _Separator => String::from_str("SEPARATOR"),
        _Integer => String::from_str("INTEGER"),
        _Real => String::from_str("REAL"),
        _String => String::from_str("STRING"),
        _Operator => String::from_str("OPERATOR"),
        _Unknown => String::from_str("UNKNOWN"),
        _Keyword => String::from_str("KEYWORD"),
        _Identifier => String::from_str("IDENTIFIER"),
        _Reject => String::from_str("ERROR"),
    }
}

/// Membership in the fixed, case-sensitive reserved-keyword set.
pub open spec fn is_keyword(s: Seq<char>) -> bool {
    ||| s == "int"@
    ||| s == "float"@
    ||| s == "bool"@
    ||| s == "true"@
    ||| s == "false"@
    ||| s == "if"@
    ||| s == "else"@
    ||| s == "then"@
    ||| s == "endif"@
    ||| s == "while"@
    ||| s == "whileend"@
    ||| s == "do"@
    ||| s == "doend"@
    ||| s == "for"@
    ||| s == "forend"@
    ||| s == "input"@
    ||| s == "output"@
    ||| s == "and"@
    ||| s == "or"@
    ||| s == "not"@
}

/// The final category of a run that accumulated in the string state:
/// keyword if the text is reserved, identifier otherwise.
pub open spec fn spec_string_type(s: Seq<char>) -> FsmTransitions {
    if is_keyword(s) {
        _Keyword
    } else {
        _Identifier
    }
}

/// Reclassify a string-state run as a keyword or an identifier.
pub fn get_string_type(token: String) -> (r: FsmTransitions)
    ensures
        r == spec_string_type(token@),
{
    let reserved = token == String::from_str("int") || token == String::from_str("float")
        || token == String::from_str("bool") || token == String::from_str("true")
        || token == String::from_str("false") || token == String::from_str("if")
        || token == String::from_str("else") || token == String::from_str("then")
        || token == String::from_str("endif") || token == String::from_str("while")
        || token == String::from_str("whileend") || token == String::from_str("do")
        || token == String::from_str("doend") || token == String::from_str("for")
        || token == String::from_str("forend") || token == String::from_str("input")
        || token == String::from_str("output") || token == String::from_str("and")
        || token == String::from_str("or") || token == String::from_str("not");
    if reserved {
        _Keyword
    } else {
        _Identifier
    }
}

/// The category a flushed run is recorded under: string-state runs are
/// reclassified against the keyword set, every other state names itself.
pub open spec fn spec_finalize(state: FsmTransitions, text: Seq<char>) -> FsmTransitions {
    if state == _String {
        spec_string_type(text)
    } else {
        state
    }
}

/// The token a flushed run produces.
pub open spec fn token_model(text: Seq<char>, state: FsmTransitions, line: nat) -> TokenModel {
    TokenModel {
        text: text,
        lexeme: spec_finalize(state, text),
        name: spec_lexeme_name(spec_finalize(state, text)),
        line: line,
    }
}

/// The tokens produced from position `i` onward, with the scan in `state`
/// holding the accumulated run `acc`, whose first character stood on line
/// `tok_line`, the cursor standing on line `cur_line`.  A transition to
/// the boundary state flushes the run (space runs are never materialized,
/// a comment first absorbs its terminator) and restarts on the current
/// character; at the end of the input any remaining non-space run is
/// flushed.
pub open spec fn spec_lex_from(
    chars: Seq<char>,
    i: int,
    state: FsmTransitions,
    acc: Seq<char>,
    tok_line: nat,
    cur_line: nat,
) -> Seq<TokenModel>
    decreases chars.len() - i,
{
    if i < 0 || chars.len() <= i {
        if state != _Space && acc.len() > 0 {
            seq![token_model(acc, state, tok_line)]
        } else {
            Seq::empty()
        }
    } else {
        let c = chars[i];
        let cls = spec_get_col(c);
        let next = spec_transition(state, cls);
        let nline: nat = if c == '\n' {
            cur_line + 1
        } else {
            cur_line
        };
        if next != _Reject {
            let tl = if acc.len() == 0 {
                cur_line
            } else {
                tok_line
            };
            spec_lex_from(chars, i + 1, next, acc.push(c), tl, nline)
        } else if state == _Comment {
            seq![token_model(acc.push(c), state, tok_line)] + spec_lex_from(
                chars,
                i + 1,
                _Reject,
                Seq::empty(),
                nline,
                nline,
            )
        } else {
            let restart = spec_transition(_Reject, cls);
            let rest = spec_lex_from(chars, i + 1, restart, seq![c], cur_line, nline);
            if state == _Space {
                rest
            } else {
                seq![token_model(acc, state, tok_line)] + rest
            }
        }
    }
}

/// The full token stream of a source text.
pub open spec fn spec_lexer(chars: Seq<char>) -> Seq<TokenModel> {
    spec_lex_from(chars, 0, _Reject, Seq::empty(), 1, 1)
}

/// The end-of-input sentinel: an identifier token whose text is the
/// single sentinel mark.
pub open spec fn is_end_marker(t: TokenModel) -> bool {
    t.text == seq!['$'] && t.lexeme == _Identifier
}

proof fn lemma_dollar_not_keyword()
    ensures
        !is_keyword(seq!['$']),
{
    reveal_strlit("int");
    reveal_strlit("float");
    reveal_strlit("bool");
    reveal_strlit("true");
    reveal_strlit("false");
    reveal_strlit("if");
    reveal_strlit("else");
    reveal_strlit("then");
    reveal_strlit("endif");
    reveal_strlit("while");
    reveal_strlit("whileend");
    reveal_strlit("do");
    reveal_strlit("doend");
    reveal_strlit("for");
    reveal_strlit("forend");
    reveal_strlit("input");
    reveal_strlit("output");
    reveal_strlit("and");
    reveal_strlit("or");
    reveal_strlit("not");
    assert(seq!['$'].len() == 1);
    assert("int"@.len() == 3);
    assert("float"@.len() == 5);
    assert("bool"@.len() == 4);
    assert("true"@.len() == 4);
    assert("false"@.len() == 5);
    assert("if"@.len() == 2);
    assert("else"@.len() == 4);
    assert("then"@.len() == 4);
    assert("endif"@.len() == 5);
    assert("while"@.len() == 5);
    assert("whileend"@.len() == 8);
    assert("do"@.len() == 2);
    assert("doend"@.len() == 5);
    assert("for"@.len() == 3);
    assert("forend"@.len() == 6);
    assert("input"@.len() == 5);
    assert("output"@.len() == 6);
    assert("and"@.len() == 3);
    assert("or"@.len() == 2);
    assert("not"@.len() == 3);
}

proof fn lemma_sentinel_from(
    chars: Seq<char>,
    i: int,
    state: FsmTransitions,
    acc: Seq<char>,
    tok_line: nat,
    cur_line: nat,
)
    requires
        0 <= i <= chars.len() - 2,
        chars[chars.len() - 2] == ' ',
        chars[chars.len() - 1] == '$',
        forall|k: int| i <= k < chars.len() - 1 ==> chars[k] != '$',
        forall|k: int| i <= k < chars.len() - 1 ==> chars[k] != '!',
        state != _Comment,
        forall|k: int| 0 <= k < acc.len() ==> acc[k] != '$',
    ensures
        ({
            let toks = spec_lex_from(chars, i, state, acc, tok_line, cur_line);
            &&& toks.len() >= 1
            &&& is_end_marker(toks.last())
            &&& forall|j: int| 0 <= j < toks.len() - 1 ==> !is_end_marker(toks[j])
        }),
    decreases chars.len() - i,
{
    let toks = spec_lex_from(chars, i, state, acc, tok_line, cur_line);
    let c = chars[i];
    let cls = spec_get_col(c);
    let next = spec_transition(state, cls);
    lemma_dollar_not_keyword();
    if i == chars.len() - 2 {
        assert(c == ' ');
        assert(cls == _Space);
        let nline: nat = cur_line;
        if state == _Reject {
            assert(next == _Space);
            let tl = if acc.len() == 0 {
                cur_line
            } else {
                tok_line
            };
            let toks1 = spec_lex_from(chars, i + 1, _Space, acc.push(c), tl, nline);
            assert(toks == toks1);
            let marker = spec_lex_from(chars, i + 2, _String, seq!['$'], nline, nline);
            assert(spec_get_col('$') == _String);
            assert(toks1 == marker);
            assert(marker == seq![token_model(seq!['$'], _String, nline)]);
            assert(is_end_marker(marker.last()));
        } else {
            assert(next == _Reject);
            let rest = spec_lex_from(chars, i + 1, _Space, seq![' '], cur_line, nline);
            let marker = spec_lex_from(chars, i + 2, _String, seq!['$'], nline, nline);
            assert(spec_get_col('$') == _String);
            assert(rest == marker);
            assert(marker == seq![token_model(seq!['$'], _String, nline)]);
            assert(is_end_marker(marker.last()));
            if state == _Space {
                assert(toks == rest);
            } else {
                let tok = token_model(acc, state, tok_line);
                assert(toks == seq![tok] + rest);
                assert(!is_end_marker(tok)) by {
                    if acc.len() == 1 && acc[0] == '$' {
                        assert(false);
                    }
                    if tok.text == seq!['$'] {
                        assert(acc[0] == '$');
                    }
                }
                assert(toks.last() == rest[0]);
                assert(forall|j: int| 0 <= j < toks.len() - 1 ==> !is_end_marker(toks[j]));
            }
        }
    } else {
        assert(c != '$' && c != '!');
        assert(cls != _Comment);
        let nline: nat = if c == '\n' {
            cur_line + 1
        } else {
            cur_line
        };
        if next != _Reject {
            assert(next != _Comment);
            let tl = if acc.len() == 0 {
                cur_line
            } else {
                tok_line
            };
            lemma_sentinel_from(chars, i + 1, next, acc.push(c), tl, nline);
            assert(toks == spec_lex_from(chars, i + 1, next, acc.push(c), tl, nline));
        } else {
            let restart = spec_transition(_Reject, cls);
            assert(restart != _Comment);
            lemma_sentinel_from(chars, i + 1, restart, seq![c], cur_line, nline);
            let rest = spec_lex_from(chars, i + 1, restart, seq![c], cur_line, nline);
            if state == _Space {
                assert(toks == rest);
            } else {
                let tok = token_model(acc, state, tok_line);
                assert(toks == seq![tok] + rest);
                assert(!is_end_marker(tok)) by {
                    if tok.text == seq!['$'] {
                        assert(acc[0] == '$');
                    }
                }
                assert(toks.last() == rest.last());
                assert(forall|j: int| 0 <= j < toks.len() - 1 ==> !is_end_marker(toks[j])) by {
                    assert(forall|j: int| 1 <= j < toks.len() - 1 ==> toks[j]
                        == rest[j - 1] && !is_end_marker(rest[j - 1]));
                }
            }
        }
    }
}

/// Every token a scan produces carries the display name of its category.
pub open spec fn names_consistent(toks: Seq<TokenModel>) -> bool {
    forall|j: int|
        0 <= j < toks.len() ==> (#[trigger] toks[j]).name == spec_lexeme_name(toks[j].lexeme)
}

proof fn lemma_lex_from_names(
    chars: Seq<char>,
    i: int,
    state: FsmTransitions,
    acc: Seq<char>,
    tok_line: nat,
    cur_line: nat,
)
    ensures
        names_consistent(spec_lex_from(chars, i, state, acc, tok_line, cur_line)),
    decreases chars.len() - i,
{
    if i < 0 || chars.len() <= i {
    } else {
        let c = chars[i];
        let cls = spec_get_col(c);
        let next = spec_transition(state, cls);
        let nline: nat = if c == '\n' {
            cur_line + 1
        } else {
            cur_line
        };
        if next != _Reject {
            let tl = if acc.len() == 0 {
                cur_line
            } else {
                tok_line
            };
            lemma_lex_from_names(chars, i + 1, next, acc.push(c), tl, nline);
        } else if state == _Comment {
            lemma_lex_from_names(chars, i + 1, _Reject, Seq::empty(), nline, nline);
        } else {
            let restart = spec_transition(_Reject, cls);
            lemma_lex_from_names(chars, i + 1, restart, seq![c], cur_line, nline);
        }
    }
}

/// Every token of a scanned stream names its category: the display name
/// on the token is the fixed name of its lexeme.
pub proof fn lemma_lexer_names(chars: Seq<char>)
    ensures
        names_consistent(spec_lexer(chars)),
{
    lemma_lex_from_names(chars, 0, _Reject, Seq::empty(), 1, 1);
}

/// Sentinel law: a source text that ends with the sentinel pair — a space
/// followed by the sentinel mark — and whose remaining characters contain
/// neither a sentinel mark nor a comment mark scans to a token stream
/// whose last token, and no other, is the end-marker.
pub proof fn lemma_lexer_sentinel(chars: Seq<char>)
    requires
        chars.len() >= 2,
        chars[chars.len() - 2] == ' ',
        chars[chars.len() - 1] == '$',
        forall|k: int| 0 <= k < chars.len() - 1 ==> chars[k] != '$',
        forall|k: int| 0 <= k < chars.len() - 1 ==> chars[k] != '!',
    ensures
        spec_lexer(chars).len() >= 1,
        is_end_marker(spec_lexer(chars).last()),
        forall|j: int| 0 <= j < spec_lexer(chars).len() - 1 ==> !is_end_marker(spec_lexer(chars)[j]),
{
    lemma_sentinel_from(chars, 0, _Reject, Seq::empty(), 1, 1);
}

/// The models of a vector of tokens.
pub open spec fn token_models(tokens: Seq<TokenType>) -> Seq<TokenModel> {
    tokens.map_values(|t: TokenType| t@)
}

proof fn lemma_token_models_push(tokens: Seq<TokenType>, t: TokenType)
    ensures
        token_models(tokens.push(t)) == token_models(tokens).push(t@),
{
    assert(token_models(tokens.push(t)) =~= token_models(tokens).push(t@));
}

/// Build the token a finished run flushes to.
fn flush_token(acc: &Vec<char>, state: FsmTransitions, tok_line: usize) -> (t: TokenType)
    ensures
        t@ == token_model(acc@, state, tok_line as nat),
{
    let text = chars_to_string(acc);
    let lexeme = if state == _String {
        get_string_type(text.clone())
    } else {
        state
    };
    let lexeme_name = get_lexeme_name(&lexeme);
    TokenType { token: text, lexeme: lexeme, lexeme_name: lexeme_name, line: tok_line }
}

/// Scan a source text into its stream of classified tokens.  The one
/// bound on the input is the machine's: the character count must lie
/// below `usize::MAX`, so that cursor positions and line numbers fit.
pub fn lexer(expression: &String) -> (tokens: Vec<TokenType>)
    requires
        expression@.len() < usize::MAX,
    ensures
        token_models(tokens@) == spec_lexer(expression@),
{
    let text = expression.as_str();
    let n = text.unicode_len();
    let mut tokens: Vec<TokenType> = Vec::new();
    let mut current_state = _Reject;
    let mut current_token: Vec<char> = Vec::new();
    let mut index: usize = 0;
    let mut line: usize = 1;
    let mut token_line: usize = 1;
    while index < n
        invariant
            n == expression@.len(),
            n < usize::MAX,
            text@ == expression@,
            index <= n,
            1 <= line,
            line <= index + 1,
            spec_lexer(expression@) == token_models(tokens@) + spec_lex_from(
                expression@,
                index as int,
                current_state,
                current_token@,
                token_line as nat,
                line as nat,
            ),
        decreases n - index,
    {
        let c = text.get_char(index);
        let col = get_col(c);
        let next = transition(current_state, col);
        if next != _Reject {
            if current_token.len() == 0 {
                token_line = line;
            }
            current_token.push(c);
            if c == '\n' {
                line = line + 1;
            }
            index = index + 1;
            current_state = next;
        } else if current_state == _Comment {
            // a comment absorbs its terminating mark before it is flushed
            proof {
                assert(col == _Comment);
                assert(c == '!');
            }
            current_token.push(c);
            let t = flush_token(&current_token, current_state, token_line);
            proof {
                lemma_token_models_push(tokens@, t);
            }
            tokens.push(t);
            current_token = Vec::new();
            index = index + 1;
            current_state = _Reject;
            token_line = line;
            proof {
                assert(spec_lexer(expression@) =~= token_models(tokens@) + spec_lex_from(
                    expression@,
                    index as int,
                    current_state,
                    current_token@,
                    token_line as nat,
                    line as nat,
                ));
            }
        } else {
            // token boundary: flush the run (space runs vanish) and restart
            if current_state != _Space {
                let t = flush_token(&current_token, current_state, token_line);
                proof {
                    lemma_token_models_push(tokens@, t);
                }
                tokens.push(t);
            }
            let restart = transition(_Reject, col);
            proof {
                assert(restart != _Reject);
            }
            current_token = Vec::new();
            current_token.push(c);
            token_line = line;
            if c == '\n' {
                line = line + 1;
            }
            index = index + 1;
            current_state = restart;
            proof {
                assert(current_token@ =~= seq![c]);
                assert(spec_lexer(expression@) =~= token_models(tokens@) + spec_lex_from(
                    expression@,
                    index as int,
                    current_state,
                    current_token@,
                    token_line as nat,
                    line as nat,
                ));
            }
        }
    }
    if current_state != _Space && current_token.len() > 0 {
        let t = flush_token(&current_token, current_state, token_line);
        proof {
            lemma_token_models_push(tokens@, t);
        }
        tokens.push(t);
    }
    tokens
}

} // verus!
