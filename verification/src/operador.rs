//! The tokens that make up a statement.

use vstd::prelude::*;

verus! {

/// One token of a statement.
#[derive(Debug, PartialEq)]
pub enum Operador {
    /// A bare word: an identifier, a keyword or a number.
    String(String),
    /// A parenthesized group of tokens.
    Lista(Vec<Operador>),
    /// The text between two single quotes.
    Texto(String),
    /// A comparison symbol.
    Comparador(String),
}

/// The mathematical value of an [`Operador`].
pub enum Token {
    Word(Seq<char>),
    QuotedText(Seq<char>),
    Group(Seq<Token>),
    Comparator(Seq<char>),
}

impl View for Operador {
    type V = Token;

    open spec fn view(&self) -> Token
        decreases self,
    {
        match self {
            Operador::String(s) => Token::Word(s@),
            Operador::Texto(s) => Token::QuotedText(s@),
            Operador::Comparador(s) => Token::Comparator(s@),
            Operador::Lista(v) => Token::Group(
                Seq::new(
                    v@.len(),
                    |i: int|
                        if 0 <= i < v@.len() {
                            v@[i]@
                        } else {
                            Token::Group(Seq::empty())
                        },
                ),
            ),
        }
    }
}

/// The values of a list of tokens.
pub open spec fn tokens(v: Seq<Operador>) -> Seq<Token> {
    Seq::new(v.len(), |i: int| v[i]@)
}

/// A group is worth the values of its members.
pub proof fn lema_grupo(o: Operador)
    requires
        o is Lista,
    ensures
        o@ == Token::Group(tokens(o->Lista_0@)),
{
    let v = o->Lista_0;
    assert(o@->Group_0 =~= tokens(v@));
}

} // verus!
