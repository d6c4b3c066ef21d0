//! The token data model shared by the scanner and the parser.

use vstd::prelude::*;

verus! {

use crate::fsm::FsmTransitions;
use crate::fsm::FsmTransitions::_Reject;

/// One classified token: its text, its category, the category's display
/// name, and the source line on which its first character stands.
#[derive(Clone, Debug)]
pub struct TokenType {
    pub token: String,
    pub lexeme: FsmTransitions,
    pub lexeme_name: String,
    pub line: usize,
}

/// The mathematical value of a token: the character sequences of its text
/// and display name, its category, and its line.
pub ghost struct TokenModel {
    pub text: Seq<char>,
    pub lexeme: FsmTransitions,
    pub name: Seq<char>,
    pub line: nat,
}

impl View for TokenType {
    type V = TokenModel;

    open spec fn view(&self) -> TokenModel {
        TokenModel {
            text: self.token@,
            lexeme: self.lexeme,
            name: self.lexeme_name@,
            line: self.line as nat,
        }
    }
}

impl Default for TokenType {
    /// An empty token in the boundary state, on line zero.
    fn default() -> (t: TokenType)
        ensures
            t@.text == Seq::<char>::empty(),
            t@.lexeme == _Reject,
            t@.name == Seq::<char>::empty(),
            t@.line == 0,
    {
        TokenType {
            token: String::new(),
            lexeme: _Reject,
            lexeme_name: String::new(),
            line: 0,
        }
    }
}

} // verus!
