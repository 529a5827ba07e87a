use vstd::prelude::*;
use crate::token::{Lexeme, Token, lexemes, push_copies, push_token};

verus! {

/// The text of the receiver identifier.
pub open spec fn self_word() -> Seq<char> {
    "self"@
}

/// The text of the `mut` keyword.
pub open spec fn mut_word() -> Seq<char> {
    "mut"@
}

pub open spec fn is_punct(l: Lexeme, c: char) -> bool {
    l matches Lexeme::Punct(d, _) && d == c
}

/// Whether position `i` holds the `>` of an arrow `->`.
pub open spec fn is_arrow_head(ls: Seq<Lexeme>, i: int) -> bool {
    0 < i && ls[i - 1] == Lexeme::Punct('-', true)
}

/// The number of delimited groups open in front of position `n`. A closer
/// with nothing open is ignored.
pub open spec fn groups(ls: Seq<Lexeme>, n: int) -> nat
    decreases n,
{
    if n <= 0 {
        0
    } else {
        let d = groups(ls, n - 1);
        match ls[n - 1] {
            Lexeme::Open(_) => d + 1,
            Lexeme::Close(_) => if d > 0 { (d - 1) as nat } else { 0 },
            _ => d,
        }
    }
}

/// The number of angle brackets open in front of position `n`. Only a `<`
/// or `>` outside every group counts (inside one, such as an array length,
/// it may be an operator); the `>` of `->` never does, and a `>` with
/// nothing open is ignored.
pub open spec fn angles(ls: Seq<Lexeme>, n: int) -> nat
    decreases n,
{
    if n <= 0 {
        0
    } else {
        let d = angles(ls, n - 1);
        if groups(ls, n - 1) > 0 {
            d
        } else if is_punct(ls[n - 1], '<') {
            d + 1
        } else if is_punct(ls[n - 1], '>') && !is_arrow_head(ls, n - 1) {
            if d > 0 { (d - 1) as nat } else { 0 }
        } else {
            d
        }
    }
}

/// Position `n` lies outside every group and every angle bracket.
pub open spec fn outside(ls: Seq<Lexeme>, n: int) -> bool {
    groups(ls, n) == 0 && angles(ls, n) == 0
}

/// Position `i` holds a comma that separates two parameters.
pub open spec fn top_comma(ls: Seq<Lexeme>, i: int) -> bool {
    is_punct(ls[i], ',') && outside(ls, i)
}

/// Position `i` holds a colon outside every bracket.
pub open spec fn top_colon(ls: Seq<Lexeme>, i: int) -> bool {
    is_punct(ls[i], ':') && outside(ls, i)
}

/// Whether the parameter that is open in front of position `n` has already
/// passed the colon that ends its pattern.
pub open spec fn separated(ls: Seq<Lexeme>, n: int) -> bool
    decreases n,
{
    if n <= 0 {
        false
    } else if top_comma(ls, n - 1) {
        false
    } else {
        separated(ls, n - 1) || top_colon(ls, n - 1)
    }
}

/// The last identifier outside every group in front of position `n`, in
/// the parameter that is open there.
pub open spec fn last_ident(ls: Seq<Lexeme>, n: int) -> Option<int>
    decreases n,
{
    if n <= 0 {
        None
    } else if top_comma(ls, n - 1) {
        None
    } else if ls[n - 1] is Ident && groups(ls, n - 1) == 0 {
        Some(n - 1)
    } else {
        last_ident(ls, n - 1)
    }
}

/// Position `i` holds the colon between a parameter's pattern and its type.
pub open spec fn is_separator(ls: Seq<Lexeme>, i: int) -> bool {
    top_colon(ls, i) && !separated(ls, i)
}

/// A comma token of the generated code.
pub open spec fn comma() -> Lexeme {
    Lexeme::Punct(',', false)
}

/// What the separator at position `k` contributes to the forwarding call:
/// the last identifier of the pattern and a comma, unless that identifier is
/// `self` or there is none.
pub open spec fn forwarded(ls: Seq<Lexeme>, k: int) -> Seq<Lexeme> {
    match last_ident(ls, k) {
        Some(j) => if ls[j] == Lexeme::Ident(self_word()) {
            seq![]
        } else {
            seq![ls[j], comma()]
        },
        None => seq![],
    }
}

/// The call arguments that the first `n` positions contribute.
pub open spec fn call_args_upto(ls: Seq<Lexeme>, n: int) -> Seq<Lexeme>
    decreases n,
{
    if n <= 0 {
        seq![]
    } else {
        call_args_upto(ls, n - 1) + if is_separator(ls, n - 1) {
            forwarded(ls, n - 1)
        } else {
            seq![]
        }
    }
}

/// The arguments, each followed by a comma, that re-invoke the method whose
/// parameter list is `ls`.
pub open spec fn call_args(ls: Seq<Lexeme>) -> Seq<Lexeme> {
    call_args_upto(ls, ls.len() as int)
}

/// The position of a by-value receiver: the whole first parameter is `self`
/// or `mut self`.
pub open spec fn receiver_pos(ls: Seq<Lexeme>) -> Option<int> {
    if 1 <= ls.len() && ls[0] == Lexeme::Ident(self_word()) && (ls.len() == 1 || is_punct(ls[1], ',')) {
        Some(0)
    } else if 2 <= ls.len() && ls[0] == Lexeme::Ident(mut_word()) && ls[1] == Lexeme::Ident(self_word())
        && (ls.len() == 2 || is_punct(ls[2], ',')) {
        Some(1)
    } else {
        None
    }
}

/// The type annotation `: Box<Self>` given to the receiver.
pub open spec fn boxed_self_annotation() -> Seq<Lexeme> {
    seq![
        Lexeme::Punct(':', false),
        Lexeme::Ident("Box"@),
        Lexeme::Punct('<', false),
        Lexeme::Ident("Self"@),
        Lexeme::Punct('>', false),
    ]
}

/// The parameter list with the by-value receiver annotated as boxed; the
/// list unchanged where there is no such receiver.
pub open spec fn rewritten_params(ls: Seq<Lexeme>) -> Seq<Lexeme> {
    match receiver_pos(ls) {
        Some(k) => ls.take(k + 1) + boxed_self_annotation() + ls.skip(k + 1),
        None => ls,
    }
}

/// Whether `t` is the identifier `word`.
pub fn is_ident_named(t: &Token, word: &str) -> (r: bool)
    ensures
        r == (t@ == Lexeme::Ident(word@)),
{
    match t {
        Token::Ident(s) => {
            let w = word.to_owned();
            s.eq(&w)
        },
        _ => false,
    }
}

/// Whether `t` is the punctuation character `c`.
pub fn is_punct_char(t: &Token, c: char) -> (r: bool)
    ensures
        r == is_punct(t@, c),
{
    match t {
        Token::Punct(d, _) => *d == c,
        _ => false,
    }
}

/// Whether `t` is a `-` joined to the next character.
fn is_joint_minus(t: &Token) -> (r: bool)
    ensures
        r == (t@ == Lexeme::Punct('-', true)),
{
    match t {
        Token::Punct(c, j) => *c == '-' && *j,
        _ => false,
    }
}

/// The position of the by-value receiver of a parameter list.
pub fn receiver_position(params: &Vec<Token>) -> (r: Option<usize>)
    ensures
        match r {
            Some(k) => receiver_pos(lexemes(params@)) == Some(k as int),
            None => receiver_pos(lexemes(params@)) is None,
        },
{
    let n = params.len();
    if 1 <= n && is_ident_named(&params[0], "self") && (n == 1 || is_punct_char(&params[1], ',')) {
        Some(0)
    } else if 2 <= n && is_ident_named(&params[0], "mut") && is_ident_named(&params[1], "self") && (n
        == 2 || is_punct_char(&params[2], ',')) {
        Some(1)
    } else {
        None
    }
}

/// Rewrites a parameter list so that its by-value receiver reads
/// `self: Box<Self>`; every other token is copied unchanged. A list without
/// such a receiver comes back as it was.
pub fn replace_params_declaration(params: &Vec<Token>) -> (r: Vec<Token>)
    ensures
        lexemes(r@) == rewritten_params(lexemes(params@)),
{
    let ghost ls = lexemes(params@);
    let mut out: Vec<Token> = Vec::new();
    match receiver_position(params) {
        Some(k) => {
            push_copies(&mut out, params, 0, k + 1);
            push_token(&mut out, Token::Punct(':', false));
            push_token(&mut out, Token::ident("Box"));
            push_token(&mut out, Token::Punct('<', false));
            push_token(&mut out, Token::ident("Self"));
            push_token(&mut out, Token::Punct('>', false));
            push_copies(&mut out, params, k + 1, params.len());
            assert(lexemes(out@) =~= rewritten_params(ls));
        },
        None => {
            push_copies(&mut out, params, 0, params.len());
            assert(lexemes(out@) =~= ls);
        },
    }
    out
}

/// Extracts, in order, the name of each typed parameter followed by a comma:
/// the argument list that re-invokes the method. The receiver contributes
/// nothing, and nothing in a parameter's type is taken for a name.
pub fn extract_params_without_type(params: &Vec<Token>) -> (r: Vec<Token>)
    ensures
        lexemes(r@) == call_args(lexemes(params@)),
{
    let ghost ls = lexemes(params@);
    let mut out: Vec<Token> = Vec::new();
    let mut nest: usize = 0;
    let mut angle: usize = 0;
    let mut sep: bool = false;
    let mut last: Option<usize> = None;
    let mut i: usize = 0;
    while i < params.len()
        invariant
            ls == lexemes(params@),
            i <= params.len(),
            nest == groups(ls, i as int),
            angle == angles(ls, i as int),
            nest <= i,
            angle <= i,
            sep == separated(ls, i as int),
            match last {
                Some(j) => j < i && last_ident(ls, i as int) == Some(j as int),
                None => last_ident(ls, i as int) is None,
            },
            lexemes(out@) == call_args_upto(ls, i as int),
        decreases params.len() - i,
    {
        let t = &params[i];
        let top = nest == 0 && angle == 0;
        if top && is_punct_char(t, ':') && !sep {
            if let Some(j) = last {
                if !is_ident_named(&params[j], "self") {
                    push_token(&mut out, params[j].duplicate());
                    push_token(&mut out, Token::Punct(',', false));
                }
            }
        }
        assert(lexemes(out@) =~= call_args_upto(ls, i + 1));
        if top && is_punct_char(t, ',') {
            sep = false;
            last = None;
        } else {
            if top && is_punct_char(t, ':') {
                sep = true;
            }
            if let Token::Ident(_) = t {
                if nest == 0 {
                    last = Some(i);
                }
            }
        }
        if nest == 0 {
            if is_punct_char(t, '<') {
                angle = angle + 1;
            } else if is_punct_char(t, '>') && !(0 < i && is_joint_minus(&params[i - 1])) {
                angle = if angle > 0 { angle - 1 } else { 0 };
            }
        }
        nest = match t {
            Token::Open(_) => nest + 1,
            Token::Close(_) => if nest > 0 { nest - 1 } else { 0 },
            _ => nest,
        };
        i = i + 1;
    }
    out
}

/// The typed parameters `, n1: t1, ..., nk: tk` that follow a receiver.
pub open spec fn typed_params(names: Seq<Seq<char>>, types: Seq<Seq<Lexeme>>) -> Seq<Lexeme>
    decreases names.len(),
{
    if names.len() == 0 {
        seq![]
    } else {
        typed_params(names.drop_last(), types.drop_last()) + seq![
            comma(),
            Lexeme::Ident(names.last()),
            Lexeme::Punct(':', false),
        ] + types.last()
    }
}

/// The argument list `n1, ..., nk,` that forwards the parameters `names`.
pub open spec fn forwarded_names(names: Seq<Seq<char>>) -> Seq<Lexeme>
    decreases names.len(),
{
    if names.len() == 0 {
        seq![]
    } else {
        forwarded_names(names.drop_last()) + seq![Lexeme::Ident(names.last()), comma()]
    }
}

/// A type span that closes every group and angle bracket it opens and
/// holds no comma outside them. Every well-formed type is one: its commas
/// stand inside `<...>` or a group.
pub open spec fn plain_type(ty: Seq<Lexeme>) -> bool {
    &&& outside(ty, ty.len() as int)
    &&& forall|i: int| 0 <= i < ty.len() ==> !#[trigger] top_comma(ty, i)
}

/// A by-value receiver: `self` or `mut self`.
pub open spec fn by_value_receiver(receiver: Seq<Lexeme>) -> bool {
    ||| receiver == seq![Lexeme::Ident(self_word())]
    ||| receiver == seq![Lexeme::Ident(mut_word()), Lexeme::Ident(self_word())]
}

/// Scanning a list depends only on the positions scanned so far.
proof fn lemma_scan_prefix(ls: Seq<Lexeme>, extra: Seq<Lexeme>, n: int)
    requires
        0 <= n <= ls.len(),
    ensures
        groups(ls + extra, n) == groups(ls, n),
        angles(ls + extra, n) == angles(ls, n),
        separated(ls + extra, n) == separated(ls, n),
        last_ident(ls + extra, n) == last_ident(ls, n),
        call_args_upto(ls + extra, n) == call_args_upto(ls, n),
    decreases n,
{
    let full = ls + extra;
    if n > 0 {
        lemma_scan_prefix(ls, extra, n - 1);
        assert(full[n - 1] == ls[n - 1]);
        if n >= 2 {
            assert(full[n - 2] == ls[n - 2]);
        }
        match last_ident(ls, n - 1) {
            Some(j) => {
                lemma_last_ident_bound(ls, n - 1);
                assert(full[j] == ls[j]);
            },
            None => {},
        }
        assert(forwarded(full, n - 1) == forwarded(ls, n - 1));
    }
}

proof fn lemma_last_ident_bound(ls: Seq<Lexeme>, n: int)
    ensures
        last_ident(ls, n) matches Some(j) ==> 0 <= j < n,
    decreases n,
{
    if n > 0 {
        lemma_last_ident_bound(ls, n - 1);
    }
}

/// Inside a type span that follows its parameter's colon, nesting is that
/// of the span alone and nothing is forwarded.
proof fn lemma_type_span(full: Seq<Lexeme>, base: int, ty: Seq<Lexeme>, j: int)
    requires
        0 < base,
        full.len() == base + ty.len(),
        ty == full.subrange(base, full.len() as int),
        full[base - 1] == Lexeme::Punct(':', false),
        outside(full, base),
        separated(full, base),
        plain_type(ty),
        0 <= j <= ty.len(),
    ensures
        groups(full, base + j) == groups(ty, j),
        angles(full, base + j) == angles(ty, j),
        separated(full, base + j),
        call_args_upto(full, base + j) == call_args_upto(full, base),
    decreases j,
{
    if j > 0 {
        lemma_type_span(full, base, ty, j - 1);
        let p = base + j - 1;
        assert(full[p] == ty[j - 1]);
        assert(is_arrow_head(full, p) == is_arrow_head(ty, j - 1)) by {
            if j >= 2 {
                assert(full[p - 1] == ty[j - 2]);
            }
        }
        assert(!top_comma(ty, j - 1));
        assert(top_comma(full, p) == top_comma(ty, j - 1));
        assert(call_args_upto(full, p + 1) =~= call_args_upto(full, p));
    }
}

/// Appending one typed parameter `, name: ty` to a list that ends outside
/// every bracket forwards exactly `name`.
proof fn lemma_one_param(ls: Seq<Lexeme>, name: Seq<char>, ty: Seq<Lexeme>)
    requires
        outside(ls, ls.len() as int),
        name != self_word(),
        plain_type(ty),
    ensures
        ({
            let full = ls + seq![comma(), Lexeme::Ident(name), Lexeme::Punct(':', false)] + ty;
            &&& outside(full, full.len() as int)
            &&& call_args(full) == call_args(ls) + seq![Lexeme::Ident(name), comma()]
        }),
{
    let head = seq![comma(), Lexeme::Ident(name), Lexeme::Punct(':', false)];
    let mid = ls + head;
    let full = mid + ty;
    let l = ls.len() as int;
    lemma_scan_prefix(ls, head, l);
    lemma_scan_prefix(mid, ty, l);
    lemma_scan_prefix(mid, ty, l + 1);
    lemma_scan_prefix(mid, ty, l + 2);
    lemma_scan_prefix(mid, ty, l + 3);
    assert(mid[l] == comma());
    assert(mid[l + 1] == Lexeme::Ident(name));
    assert(mid[l + 2] == Lexeme::Punct(':', false));
    assert(call_args_upto(mid, l) == call_args(ls));
    assert(top_comma(mid, l));
    assert(outside(mid, l + 1));
    assert(call_args_upto(mid, l + 1) =~= call_args(ls));
    assert(last_ident(mid, l + 2) == Some(l + 1));
    assert(outside(mid, l + 2));
    assert(call_args_upto(mid, l + 2) =~= call_args(ls));
    assert(is_separator(mid, l + 2));
    assert(forwarded(mid, l + 2) == seq![Lexeme::Ident(name), comma()]);
    assert(call_args_upto(mid, l + 3) == call_args(ls) + seq![Lexeme::Ident(name), comma()]);
    assert(full.subrange(l + 3, full.len() as int) =~= ty);
    lemma_type_span(full, l + 3, ty, ty.len() as int);
}

/// Scanning a by-value receiver followed by typed parameters ends outside
/// every bracket, having forwarded exactly the parameters' names.
proof fn lemma_scan_params(receiver: Seq<Lexeme>, names: Seq<Seq<char>>, types: Seq<Seq<Lexeme>>)
    requires
        by_value_receiver(receiver),
        names.len() == types.len(),
        forall|k: int| 0 <= k < names.len() ==> #[trigger] names[k] != self_word(),
        forall|k: int| 0 <= k < types.len() ==> plain_type(#[trigger] types[k]),
    ensures
        outside(receiver + typed_params(names, types), (receiver + typed_params(names, types)).len() as int),
        call_args(receiver + typed_params(names, types)) == forwarded_names(names),
    decreases names.len(),
{
    let ls = receiver + typed_params(names, types);
    if names.len() == 0 {
        assert(ls =~= receiver);
        assert(ls[0] is Ident);
        assert(outside(ls, 0));
        assert(call_args_upto(ls, 0) == Seq::<Lexeme>::empty());
        assert(outside(ls, 1));
        assert(!is_separator(ls, 0));
        assert(call_args_upto(ls, 1) =~= seq![]);
        if ls.len() == 2 {
            assert(ls[1] is Ident);
            assert(!is_separator(ls, 1));
            assert(outside(ls, 2));
            assert(call_args_upto(ls, 2) =~= seq![]);
        }
    } else {
        let names0 = names.drop_last();
        let types0 = types.drop_last();
        assert forall|k: int| 0 <= k < names0.len() implies #[trigger] names0[k] != self_word() by {
            assert(names0[k] == names[k]);
        }
        assert forall|k: int| 0 <= k < types0.len() implies plain_type(#[trigger] types0[k]) by {
            assert(types0[k] == types[k]);
        }
        lemma_scan_params(receiver, names0, types0);
        let ls0 = receiver + typed_params(names0, types0);
        assert(names.last() == names[names.len() - 1]);
        assert(types.last() == types[types.len() - 1]);
        lemma_one_param(ls0, names.last(), types.last());
        assert(ls =~= ls0 + seq![comma(), Lexeme::Ident(names.last()), Lexeme::Punct(':', false)]
            + types.last());
    }
}

/// For a method whose parameters are a by-value receiver and N typed
/// parameters `name: type` (each name an identifier other than `self`, each
/// type closing its brackets with no comma outside them), the forwarding
/// call passes exactly the N names, in order, each followed by a comma; no
/// token of a type is taken for a name.
pub proof fn lemma_forwards_each_typed_param(
    receiver: Seq<Lexeme>,
    names: Seq<Seq<char>>,
    types: Seq<Seq<Lexeme>>,
)
    requires
        by_value_receiver(receiver),
        names.len() == types.len(),
        forall|k: int| 0 <= k < names.len() ==> #[trigger] names[k] != self_word(),
        forall|k: int| 0 <= k < types.len() ==> plain_type(#[trigger] types[k]),
    ensures
        call_args(receiver + typed_params(names, types)) == forwarded_names(names),
        forwarded_names(names).len() == 2 * names.len(),
        forall|k: int|
            0 <= k < names.len() ==> #[trigger] forwarded_names(names)[2 * k] == Lexeme::Ident(names[k])
                && forwarded_names(names)[2 * k + 1] == comma(),
{
    lemma_scan_params(receiver, names, types);
    lemma_forwarded_names_layout(names);
}

proof fn lemma_forwarded_names_layout(names: Seq<Seq<char>>)
    ensures
        forwarded_names(names).len() == 2 * names.len(),
        forall|k: int|
            0 <= k < names.len() ==> #[trigger] forwarded_names(names)[2 * k] == Lexeme::Ident(names[k])
                && forwarded_names(names)[2 * k + 1] == comma(),
    decreases names.len(),
{
    if names.len() > 0 {
        let names0 = names.drop_last();
        lemma_forwarded_names_layout(names0);
        assert forall|k: int| 0 <= k < names.len() implies #[trigger] forwarded_names(names)[2 * k]
            == Lexeme::Ident(names[k]) && forwarded_names(names)[2 * k + 1] == comma() by {
            if k < names0.len() {
                assert(names0[k] == names[k]);
                assert(forwarded_names(names0)[2 * k] == Lexeme::Ident(names0[k]));
            }
        }
    }
}

/// For a method whose parameters are a by-value receiver and typed
/// parameters, the rewritten list is the receiver, `: Box<Self>`, and every
/// typed parameter token for token as it was: one more parameter than
/// there are typed ones, and each type passed through unchanged.
pub proof fn lemma_rewrite_keeps_typed_params(
    receiver: Seq<Lexeme>,
    names: Seq<Seq<char>>,
    types: Seq<Seq<Lexeme>>,
)
    requires
        by_value_receiver(receiver),
        names.len() == types.len(),
    ensures
        rewritten_params(receiver + typed_params(names, types)) == receiver + boxed_self_annotation()
            + typed_params(names, types),
{
    let rest = typed_params(names, types);
    let ls = receiver + rest;
    if names.len() > 0 {
        lemma_typed_params_start(names, types);
        assert(ls[receiver.len() as int] == rest[0]);
    }
    let k = receiver.len() - 1;
    assert(receiver_pos(ls) == Some(k));
    assert(ls.take(k + 1) =~= receiver);
    assert(ls.skip(k + 1) =~= rest);
}

proof fn lemma_typed_params_start(names: Seq<Seq<char>>, types: Seq<Seq<Lexeme>>)
    requires
        names.len() > 0,
        names.len() == types.len(),
    ensures
        typed_params(names, types).len() > 0,
        typed_params(names, types)[0] == comma(),
    decreases names.len(),
{
    let head = typed_params(names.drop_last(), types.drop_last());
    if names.len() > 1 {
        lemma_typed_params_start(names.drop_last(), types.drop_last());
    } else {
        assert(head.len() == 0);
    }
}

} // verus!
