use vstd::prelude::*;

use crate::token::{Token, TokenView};

verus! {

/// An append-only buffer of tokens, read from its most recent end.
pub struct TokenList {
    items: Vec<Token>,
}

impl View for TokenList {
    type V = Seq<TokenView>;

    closed spec fn view(&self) -> Seq<TokenView> {
        self.items@.map_values(|t: Token| t@)
    }
}

impl TokenList {
    pub fn new() -> (r: TokenList)
        ensures
            r@ == Seq::<TokenView>::empty(),
    {
        let r = TokenList { items: Vec::new() };
        assert(r@ =~= Seq::<TokenView>::empty());
        r
    }

    /// Appends a token at the end.
    pub fn push(&mut self, t: Token)
        ensures
            final(self)@ == old(self)@.push(t@),
    {
        self.items.push(t);
        assert(self@ =~= old(self)@.push(t@));
    }

    /// The most recently added token, if any.
    pub fn peek_back(&self) -> (r: Option<&Token>)
        ensures
            self@.len() == 0 <==> r is None,
            r matches Some(t) ==> t@ == self@.last(),
    {
        if self.items.len() == 0 {
            None
        } else {
            Some(&self.items[self.items.len() - 1])
        }
    }

    /// The tokens, oldest first.
    pub fn into_vec(self) -> (r: Vec<Token>)
        ensures
            r@.map_values(|t: Token| t@) == self@,
    {
        self.items
    }
}

} // verus!
