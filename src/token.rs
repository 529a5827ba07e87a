use vstd::prelude::*;

verus! {

/// The bracket kind of a delimited group.
#[derive(Clone, Copy, Debug, PartialEq, Eq)]
pub enum Delimiter {
    Parenthesis,
    Brace,
    Bracket,
    Invisible,
}

/// One lexeme of a flat token stream.
///
/// A delimited group is written as its opening marker, its contents and its
/// closing marker, so that a stream never nests.
#[derive(Clone, Debug, PartialEq, Eq)]
pub enum Token {
    Ident(String),
    /// A punctuation character, and whether it is joined to the next one
    /// (the `-` of `->` is joined).
    Punct(char, bool),
    Literal(String),
    Open(Delimiter),
    Close(Delimiter),
}

/// What a token stands for, with its text as characters.
pub ghost enum Lexeme {
    Ident(Seq<char>),
    Punct(char, bool),
    Literal(Seq<char>),
    Open(Delimiter),
    Close(Delimiter),
}

impl View for Token {
    type V = Lexeme;

    open spec fn view(&self) -> Lexeme {
        match self {
            Token::Ident(s) => Lexeme::Ident(s@),
            Token::Punct(c, j) => Lexeme::Punct(*c, *j),
            Token::Literal(s) => Lexeme::Literal(s@),
            Token::Open(d) => Lexeme::Open(*d),
            Token::Close(d) => Lexeme::Close(*d),
        }
    }
}

/// The lexemes of a sequence of tokens.
pub open spec fn lexemes(ts: Seq<Token>) -> Seq<Lexeme> {
    ts.map_values(|t: Token| t@)
}

impl Token {
    /// A copy of the token.
    pub fn duplicate(&self) -> (r: Token)
        ensures
            r@ == self@,
    {
        match self {
            Token::Ident(s) => Token::Ident(s.clone()),
            Token::Punct(c, j) => Token::Punct(*c, *j),
            Token::Literal(s) => Token::Literal(s.clone()),
            Token::Open(d) => Token::Open(*d),
            Token::Close(d) => Token::Close(*d),
        }
    }

    /// An identifier token with the given text.
    pub fn ident(text: &str) -> (r: Token)
        ensures
            r@ == Lexeme::Ident(text@),
    {
        Token::Ident(text.to_owned())
    }
}

/// Appends `token` to `out`.
pub fn push_token(out: &mut Vec<Token>, token: Token)
    ensures
        lexemes(final(out)@) == lexemes(old(out)@).push(token@),
{
    out.push(token);
    assert(lexemes(final(out)@) =~= lexemes(old(out)@).push(token@));
}

/// Appends copies of `src[from..to]` to `out`.
pub fn push_copies(out: &mut Vec<Token>, src: &Vec<Token>, from: usize, to: usize)
    requires
        from <= to <= src.len(),
    ensures
        lexemes(final(out)@) == lexemes(old(out)@) + lexemes(src@.subrange(from as int, to as int)),
{
    let mut i: usize = from;
    while i < to
        invariant
            from <= i <= to <= src.len(),
            lexemes(out@) == lexemes(old(out)@) + lexemes(src@.subrange(from as int, i as int)),
        decreases to - i,
    {
        let t = src[i].duplicate();
        push_token(out, t);
        assert(lexemes(src@.subrange(from as int, i + 1)) =~= lexemes(src@.subrange(from as int, i as int)).push(src@[i as int]@));
        i = i + 1;
    }
}

/// Appends copies of all of `src` to `out`.
pub fn push_all(out: &mut Vec<Token>, src: &Vec<Token>)
    ensures
        lexemes(final(out)@) == lexemes(old(out)@) + lexemes(src@),
{
    push_copies(out, src, 0, src.len());
    assert(src@.subrange(0, src@.len() as int) =~= src@);
}

} // verus!
