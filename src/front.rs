use vstd::prelude::*;

use crate::laws::lemma_lex_ends_with_eof;
use crate::parser::{program, stmts_view, ParseError, Parser, Prog};
use crate::tokenizer::{lex, LexError, Tokenizer};

verus! {

/// Why source text could not be turned into a program.
pub enum FrontError {
    Lex(LexError),
    Parse(ParseError),
}

/// Tokenizes and parses `text`: the program, or the first error met.
pub fn parse_source(text: &str) -> (r: Result<Prog, FrontError>)
    requires
        text@.len() <= isize::MAX,
    ensures
        match lex(text@) {
            Err(e) => r matches Err(FrontError::Lex(x)) && x@ == e,
            Ok(ts) => match program(ts) {
                Ok(v) => r matches Ok(p) && stmts_view(p.stmts@) == v,
                Err(e) => r matches Err(FrontError::Parse(x)) && x@ == e,
            },
        },
{
    let mut tokenizer = Tokenizer::new(text);
    match tokenizer.tokenize() {
        Ok(()) => {},
        Err(e) => return Err(FrontError::Lex(e)),
    }
    proof {
        lemma_lex_ends_with_eof(text@);
    }
    let tokens = tokenizer.into_tokens();
    let ghost ts = tokens@.map_values(|t: crate::token::Token| t@);
    assert(ts.last() == tokens@.last()@);
    let mut parser = Parser::new(tokens);
    match parser.parse() {
        Ok(()) => Ok(parser.into_tree()),
        Err(e) => Err(FrontError::Parse(e)),
    }
}

} // verus!
