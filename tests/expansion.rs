use box_self::synth::{box_self, synthesize, BoxSelfError, FnItem, FnSignature};
use box_self::token::{Delimiter, Token};

fn id(s: &str) -> Token {
    Token::Ident(s.to_string())
}

fn p(c: char) -> Token {
    Token::Punct(c, false)
}

fn arrow() -> Vec<Token> {
    vec![Token::Punct('-', true), p('>')]
}

fn paren(inner: Vec<Token>) -> Vec<Token> {
    let mut v = vec![Token::Open(Delimiter::Parenthesis)];
    v.extend(inner);
    v.push(Token::Close(Delimiter::Parenthesis));
    v
}

fn brace(inner: Vec<Token>) -> Vec<Token> {
    let mut v = vec![Token::Open(Delimiter::Brace)];
    v.extend(inner);
    v.push(Token::Close(Delimiter::Brace));
    v
}

fn inline_attr() -> Vec<Token> {
    vec![p('#'), Token::Open(Delimiter::Bracket), id("inline"), Token::Close(Delimiter::Bracket)]
}

fn boxed_self() -> Vec<Token> {
    vec![id("self"), p(':'), id("Box"), p('<'), id("Self"), p('>')]
}

fn forward(name: &str, args: Vec<Token>) -> Vec<Token> {
    let mut call = paren(vec![p('*'), id("self")]);
    call.push(p('.'));
    call.push(id(name));
    call.extend(paren(args));
    brace(call)
}

fn concat(parts: Vec<Vec<Token>>) -> Vec<Token> {
    parts.into_iter().flatten().collect()
}

// fn consume(self, age: u32, b: bool) -> u32 { age }
fn consume_item() -> FnItem {
    let params = vec![id("self"), p(','), id("age"), p(':'), id("u32"), p(','), id("b"), p(':'), id("bool")];
    let mut output = arrow();
    output.push(id("u32"));
    let definition = concat(vec![
        vec![id("fn"), id("consume")],
        paren(params.clone()),
        output.clone(),
        brace(vec![id("age")]),
    ]);
    FnItem {
        definition,
        signature: FnSignature { vis: vec![], name: "consume".to_string(), generics: vec![], params, output },
    }
}

#[test]
fn scenario_two_typed_params() {
    let item = consume_item();
    let out = box_self(&vec![id("_boxed")], &item).unwrap();
    let twin = concat(vec![
        inline_attr(),
        vec![id("fn"), id("consume_boxed")],
        paren(concat(vec![
            boxed_self(),
            vec![p(','), id("age"), p(':'), id("u32"), p(','), id("b"), p(':'), id("bool")],
        ])),
        arrow(),
        vec![id("u32")],
        forward("consume", vec![id("age"), p(','), id("b"), p(',')]),
    ]);
    assert_eq!(out, concat(vec![item.definition.clone(), twin]));
}

#[test]
fn scenario_no_extra_params() {
    let definition = concat(vec![vec![id("fn"), id("consume")], paren(vec![id("self")]), brace(vec![])]);
    let item = FnItem {
        definition: definition.clone(),
        signature: FnSignature {
            vis: vec![],
            name: "consume".to_string(),
            generics: vec![],
            params: vec![id("self")],
            output: vec![],
        },
    };
    let out = box_self(&vec![id("_boxed")], &item).unwrap();
    let twin = concat(vec![
        inline_attr(),
        vec![id("fn"), id("consume_boxed")],
        paren(boxed_self()),
        forward("consume", vec![]),
    ]);
    assert_eq!(out, concat(vec![definition, twin]));
}

#[test]
fn scenario_generic_param() {
    // pub fn consume<T>(self, val: T) -> T { val }
    let generics = vec![p('<'), id("T"), p('>')];
    let params = vec![id("self"), p(','), id("val"), p(':'), id("T")];
    let output = concat(vec![arrow(), vec![id("T")]]);
    let sig = FnSignature {
        vis: vec![id("pub")],
        name: "consume".to_string(),
        generics: generics.clone(),
        params,
        output: output.clone(),
    };
    let twin = synthesize(&sig, &"_boxed".to_string());
    let expected = concat(vec![
        inline_attr(),
        vec![id("pub"), id("fn"), id("consume_boxed")],
        generics,
        paren(concat(vec![boxed_self(), vec![p(','), id("val"), p(':'), id("T")]])),
        output,
        forward("consume", vec![id("val"), p(',')]),
    ]);
    assert_eq!(twin, expected);
}

#[test]
fn scenario_self_inside_a_type() {
    // fn consume(self, x: self::Alias) -- the inner `self` stays as written
    let params = vec![
        id("self"), p(','), id("x"), p(':'), id("self"), Token::Punct(':', true), p(':'), id("Alias"),
    ];
    let sig = FnSignature {
        vis: vec![],
        name: "consume".to_string(),
        generics: vec![],
        params,
        output: vec![],
    };
    let twin = synthesize(&sig, &"_boxed".to_string());
    let expected = concat(vec![
        inline_attr(),
        vec![id("fn"), id("consume_boxed")],
        paren(concat(vec![
            boxed_self(),
            vec![p(','), id("x"), p(':'), id("self"), Token::Punct(':', true), p(':'), id("Alias")],
        ])),
        forward("consume", vec![id("x"), p(',')]),
    ]);
    assert_eq!(twin, expected);
}

#[test]
fn twin_name_is_name_and_postfix() {
    let item = consume_item();
    let twin = synthesize(&item.signature, &"_dyn".to_string());
    assert_eq!(twin[5], id("consume_dyn"));
    assert_eq!(twin[4], id("fn"));
}

#[test]
fn postfix_of_several_tokens_is_refused() {
    let item = consume_item();
    assert_eq!(box_self(&vec![id("_a"), id("_b")], &item), Err(BoxSelfError::InvalidPostfix));
    assert_eq!(box_self(&vec![], &item), Err(BoxSelfError::InvalidPostfix));
}

#[test]
fn postfix_that_is_not_an_identifier_is_refused() {
    let item = consume_item();
    assert_eq!(box_self(&vec![Token::Literal("1".to_string())], &item), Err(BoxSelfError::InvalidPostfix));
    assert_eq!(box_self(&vec![p('_')], &item), Err(BoxSelfError::InvalidPostfix));
}

#[test]
fn method_without_by_value_receiver_is_refused() {
    let mut item = consume_item();
    item.signature.params = vec![p('&'), id("self"), p(','), id("age"), p(':'), id("u32")];
    assert_eq!(box_self(&vec![id("_boxed")], &item), Err(BoxSelfError::NoByValueReceiver));
    item.signature.params = vec![id("age"), p(':'), id("u32")];
    assert_eq!(box_self(&vec![id("_boxed")], &item), Err(BoxSelfError::NoByValueReceiver));
    item.signature.params = vec![];
    assert_eq!(box_self(&vec![id("_boxed")], &item), Err(BoxSelfError::NoByValueReceiver));
}

#[test]
fn mut_self_receiver_is_accepted() {
    let mut item = consume_item();
    item.signature.params = vec![id("mut"), id("self"), p(','), id("age"), p(':'), id("u32")];
    let out = box_self(&vec![id("_boxed")], &item).unwrap();
    let twin = &out[item.definition.len()..];
    let expected = concat(vec![
        inline_attr(),
        vec![id("fn"), id("consume_boxed")],
        paren(concat(vec![vec![id("mut")], boxed_self(), vec![p(','), id("age"), p(':'), id("u32")]])),
        arrow(),
        vec![id("u32")],
        forward("consume", vec![id("age"), p(',')]),
    ]);
    assert_eq!(twin.to_vec(), expected);
}

#[test]
fn tokens_duplicate_and_build() {
    let t = Token::Literal("\"x\"".to_string());
    assert_eq!(t.duplicate(), t);
    assert_eq!(Token::ident("fn"), id("fn"));
}

#[test]
fn twin_forwards_param_after_array_length_shift() {
    // fn consume(self, a: [u8; 1 << 2], b: u8)
    let typed = vec![
        p(','), id("a"), p(':'), Token::Open(Delimiter::Bracket), id("u8"), p(';'),
        Token::Literal("1".to_string()), Token::Punct('<', true), p('<'), Token::Literal("2".to_string()),
        Token::Close(Delimiter::Bracket), p(','), id("b"), p(':'), id("u8"),
    ];
    let sig = FnSignature {
        vis: vec![],
        name: "consume".to_string(),
        generics: vec![],
        params: concat(vec![vec![id("self")], typed.clone()]),
        output: vec![],
    };
    let twin = synthesize(&sig, &"_boxed".to_string());
    let expected = concat(vec![
        inline_attr(),
        vec![id("fn"), id("consume_boxed")],
        paren(concat(vec![boxed_self(), typed])),
        forward("consume", vec![id("a"), p(','), id("b"), p(',')]),
    ]);
    assert_eq!(twin, expected);
}
