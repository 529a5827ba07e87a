use vstd::prelude::*;
use crate::params::{
    boxed_self_annotation, by_value_receiver, call_args, extract_params_without_type,
    forwarded_names, lemma_forwards_each_typed_param, lemma_rewrite_keeps_typed_params, plain_type,
    receiver_pos, receiver_position, replace_params_declaration, rewritten_params, self_word,
    typed_params,
};
use crate::token::{Delimiter, Lexeme, Token, lexemes, push_all, push_token};

verus! {

/// The parts of a method's signature that the twin method is built from.
pub struct FnSignature {
    /// The visibility, such as `pub`; empty where there is none.
    pub vis: Vec<Token>,
    pub name: String,
    /// The generic parameter list with its angle brackets; empty where there
    /// is none.
    pub generics: Vec<Token>,
    /// The parameter list, without its parentheses.
    pub params: Vec<Token>,
    /// The return type annotation with its arrow; empty where there is none.
    pub output: Vec<Token>,
}

pub ghost struct SignatureView {
    pub vis: Seq<Lexeme>,
    pub name: Seq<char>,
    pub generics: Seq<Lexeme>,
    pub params: Seq<Lexeme>,
    pub output: Seq<Lexeme>,
}

impl View for FnSignature {
    type V = SignatureView;

    open spec fn view(&self) -> SignatureView {
        SignatureView {
            vis: lexemes(self.vis@),
            name: self.name@,
            generics: lexemes(self.generics@),
            params: lexemes(self.params@),
            output: lexemes(self.output@),
        }
    }
}

/// A method definition: its tokens as written, and its signature.
pub struct FnItem {
    pub definition: Vec<Token>,
    pub signature: FnSignature,
}

pub ghost struct FnItemView {
    pub definition: Seq<Lexeme>,
    pub signature: SignatureView,
}

impl View for FnItem {
    type V = FnItemView;

    open spec fn view(&self) -> FnItemView {
        FnItemView { definition: lexemes(self.definition@), signature: self.signature@ }
    }
}

/// Why no twin method could be derived.
#[derive(Clone, Copy, Debug, PartialEq, Eq)]
pub enum BoxSelfError {
    /// The attribute argument is not a single identifier.
    InvalidPostfix,
    /// The first parameter is not a by-value `self` (or `mut self`).
    NoByValueReceiver,
}

/// The attribute `#[inline]`.
pub open spec fn inline_attribute() -> Seq<Lexeme> {
    seq![
        Lexeme::Punct('#', false),
        Lexeme::Open(Delimiter::Bracket),
        Lexeme::Ident("inline"@),
        Lexeme::Close(Delimiter::Bracket),
    ]
}

/// The body `{ (*self).name(args) }`.
pub open spec fn forwarding_body(name: Seq<char>, args: Seq<Lexeme>) -> Seq<Lexeme> {
    seq![
        Lexeme::Open(Delimiter::Brace),
        Lexeme::Open(Delimiter::Parenthesis),
        Lexeme::Punct('*', false),
        Lexeme::Ident(self_word()),
        Lexeme::Close(Delimiter::Parenthesis),
        Lexeme::Punct('.', false),
        Lexeme::Ident(name),
        Lexeme::Open(Delimiter::Parenthesis),
    ] + args + seq![Lexeme::Close(Delimiter::Parenthesis), Lexeme::Close(Delimiter::Brace)]
}

/// The twin method: `#[inline] vis fn name+postfix generics (params with a
/// boxed receiver) output { (*self).name(args) }`.
pub open spec fn synthesized(sig: SignatureView, postfix: Seq<char>) -> Seq<Lexeme> {
    inline_attribute() + sig.vis + seq![Lexeme::Ident("fn"@), Lexeme::Ident(sig.name + postfix)]
        + sig.generics + seq![Lexeme::Open(Delimiter::Parenthesis)] + rewritten_params(sig.params)
        + seq![Lexeme::Close(Delimiter::Parenthesis)] + sig.output + forwarding_body(
        sig.name,
        call_args(sig.params),
    )
}

/// The postfix that an attribute argument gives: its text, where it is a
/// single identifier.
pub open spec fn postfix_word(attr: Seq<Lexeme>) -> Option<Seq<char>> {
    if attr.len() == 1 && attr[0] is Ident {
        Some(attr[0]->Ident_0)
    } else {
        None
    }
}

/// What the attribute expands to: the definition unchanged, then its twin.
pub open spec fn expansion(attr: Seq<Lexeme>, item: FnItemView) -> Result<Seq<Lexeme>, BoxSelfError> {
    match postfix_word(attr) {
        None => Err(BoxSelfError::InvalidPostfix),
        Some(p) => if receiver_pos(item.signature.params) is None {
            Err(BoxSelfError::NoByValueReceiver)
        } else {
            Ok(item.definition + synthesized(item.signature, p))
        },
    }
}

fn inline_attribute_tokens() -> (r: Vec<Token>)
    ensures
        lexemes(r@) == inline_attribute(),
{
    let mut out: Vec<Token> = Vec::new();
    push_token(&mut out, Token::Punct('#', false));
    push_token(&mut out, Token::Open(Delimiter::Bracket));
    push_token(&mut out, Token::ident("inline"));
    push_token(&mut out, Token::Close(Delimiter::Bracket));
    assert(lexemes(out@) =~= inline_attribute());
    out
}

fn forwarding_body_tokens(name: &String, args: &Vec<Token>) -> (r: Vec<Token>)
    ensures
        lexemes(r@) == forwarding_body(name@, lexemes(args@)),
{
    let mut out: Vec<Token> = Vec::new();
    push_token(&mut out, Token::Open(Delimiter::Brace));
    push_token(&mut out, Token::Open(Delimiter::Parenthesis));
    push_token(&mut out, Token::Punct('*', false));
    push_token(&mut out, Token::ident("self"));
    push_token(&mut out, Token::Close(Delimiter::Parenthesis));
    push_token(&mut out, Token::Punct('.', false));
    push_token(&mut out, Token::Ident(name.clone()));
    push_token(&mut out, Token::Open(Delimiter::Parenthesis));
    push_all(&mut out, args);
    push_token(&mut out, Token::Close(Delimiter::Parenthesis));
    push_token(&mut out, Token::Close(Delimiter::Brace));
    assert(lexemes(out@) =~= forwarding_body(name@, lexemes(args@)));
    out
}

/// Builds the twin of the method with signature `sig`, named with `postfix`
/// appended.
pub fn synthesize(sig: &FnSignature, postfix: &String) -> (r: Vec<Token>)
    ensures
        lexemes(r@) == synthesized(sig@, postfix@),
{
    let ghost v = sig@;
    let mut out = inline_attribute_tokens();
    push_all(&mut out, &sig.vis);
    push_token(&mut out, Token::ident("fn"));
    let mut name = sig.name.clone();
    name.append(postfix.as_str());
    push_token(&mut out, Token::Ident(name));
    push_all(&mut out, &sig.generics);
    push_token(&mut out, Token::Open(Delimiter::Parenthesis));
    let ghost head = lexemes(out@);
    assert(head =~= inline_attribute() + v.vis + seq![Lexeme::Ident("fn"@), Lexeme::Ident(v.name + postfix@)]
        + v.generics + seq![Lexeme::Open(Delimiter::Parenthesis)]);
    let declared = replace_params_declaration(&sig.params);
    push_all(&mut out, &declared);
    push_token(&mut out, Token::Close(Delimiter::Parenthesis));
    push_all(&mut out, &sig.output);
    let args = extract_params_without_type(&sig.params);
    let body = forwarding_body_tokens(&sig.name, &args);
    push_all(&mut out, &body);
    assert(lexemes(out@) =~= head + rewritten_params(v.params) + seq![Lexeme::Close(Delimiter::Parenthesis)]
        + v.output + forwarding_body(v.name, call_args(v.params)));
    out
}

/// Expands the attribute with argument `attr_postfix` on the method `item`:
/// the method as written, followed by its twin whose receiver is
/// `self: Box<Self>`.
///
/// The argument must be a single identifier, and the method's first
/// parameter a by-value `self` (or `mut self`); otherwise nothing is
/// derived and the error says which of the two failed.
pub fn box_self(attr_postfix: &Vec<Token>, item: &FnItem) -> (r: Result<Vec<Token>, BoxSelfError>)
    ensures
        match r {
            Ok(out) => expansion(lexemes(attr_postfix@), item@) == Ok::<Seq<Lexeme>, BoxSelfError>(
                lexemes(out@),
            ),
            Err(e) => expansion(lexemes(attr_postfix@), item@) == Err::<Seq<Lexeme>, BoxSelfError>(e),
        },
{
    if attr_postfix.len() != 1 {
        return Err(BoxSelfError::InvalidPostfix);
    }
    let postfix = match &attr_postfix[0] {
        Token::Ident(s) => s,
        _ => {
            return Err(BoxSelfError::InvalidPostfix);
        },
    };
    if receiver_position(&item.signature.params).is_none() {
        return Err(BoxSelfError::NoByValueReceiver);
    }
    let mut out: Vec<Token> = Vec::new();
    push_all(&mut out, &item.definition);
    let twin = synthesize(&item.signature, postfix);
    push_all(&mut out, &twin);
    assert(lexemes(out@) =~= item@.definition + synthesized(item.signature@, postfix@));
    Ok(out)
}

/// The twin keeps the method's visibility, is named the method's name
/// followed by the postfix, and carries the method's generic parameter list
/// and return type token for token; its body calls the method by its name.
pub proof fn lemma_twin_signature(sig: SignatureView, postfix: Seq<char>)
    ensures
        ({
            let t = synthesized(sig, postfix);
            let a = (inline_attribute().len() + sig.vis.len()) as int;
            let g = a + 2;
            let o = g + sig.generics.len() + 1 + rewritten_params(sig.params).len() + 1;
            &&& t.subrange(inline_attribute().len() as int, a) == sig.vis
            &&& t[a] == Lexeme::Ident("fn"@)
            &&& t[a + 1] == Lexeme::Ident(sig.name + postfix)
            &&& t.subrange(g, g + sig.generics.len()) == sig.generics
            &&& t.subrange(o, o + sig.output.len()) == sig.output
            &&& t.subrange(o + sig.output.len(), t.len() as int) == forwarding_body(
                sig.name,
                call_args(sig.params),
            )
        }),
{
    let t = synthesized(sig, postfix);
    let a = (inline_attribute().len() + sig.vis.len()) as int;
    let g = a + 2;
    let o = g + sig.generics.len() + 1 + rewritten_params(sig.params).len() + 1;
    assert(t.subrange(inline_attribute().len() as int, a) =~= sig.vis);
    assert(t.subrange(g, g + sig.generics.len()) =~= sig.generics);
    assert(t.subrange(o, o + sig.output.len()) =~= sig.output);
    assert(t.subrange(o + sig.output.len(), t.len() as int) =~= forwarding_body(
        sig.name,
        call_args(sig.params),
    ));
}

/// For a method `fn name<G>(self, n1: t1, ..., nk: tk) -> R`, whose names are
/// identifiers other than `self` and whose types close their brackets with
/// no comma outside them, the twin is
/// `#[inline] fn name+postfix<G>(self: Box<Self>, n1: t1, ..., nk: tk) -> R
/// { (*self).name(n1, ..., nk,) }`.
pub proof fn lemma_twin_of_typed_method(
    sig: SignatureView,
    postfix: Seq<char>,
    receiver: Seq<Lexeme>,
    names: Seq<Seq<char>>,
    types: Seq<Seq<Lexeme>>,
)
    requires
        sig.params == receiver + typed_params(names, types),
        by_value_receiver(receiver),
        names.len() == types.len(),
        forall|k: int| 0 <= k < names.len() ==> #[trigger] names[k] != self_word(),
        forall|k: int| 0 <= k < types.len() ==> plain_type(#[trigger] types[k]),
    ensures
        synthesized(sig, postfix) == inline_attribute() + sig.vis + seq![
            Lexeme::Ident("fn"@),
            Lexeme::Ident(sig.name + postfix),
        ] + sig.generics + seq![Lexeme::Open(Delimiter::Parenthesis)] + receiver
            + boxed_self_annotation() + typed_params(names, types) + seq![
            Lexeme::Close(Delimiter::Parenthesis),
        ] + sig.output + forwarding_body(sig.name, forwarded_names(names)),
{
    lemma_forwards_each_typed_param(receiver, names, types);
    lemma_rewrite_keeps_typed_params(receiver, names, types);
    assert(synthesized(sig, postfix) =~= inline_attribute() + sig.vis + seq![
        Lexeme::Ident("fn"@),
        Lexeme::Ident(sig.name + postfix),
    ] + sig.generics + seq![Lexeme::Open(Delimiter::Parenthesis)] + receiver
        + boxed_self_annotation() + typed_params(names, types) + seq![
        Lexeme::Close(Delimiter::Parenthesis),
    ] + sig.output + forwarding_body(sig.name, forwarded_names(names)));
}

} // verus!
