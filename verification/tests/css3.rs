use gosub_engine::css3::tokens::{Token, TokenStream};
use gosub_engine::css3::{
    declaration_from_component_values, ComponentValue, CSS3ParserTng, DeclarationAndAtRules, Error,
    Rule,
};

fn ident(s: &str) -> Token {
    Token::Ident(s.to_string())
}

fn parser(tokens: Vec<Token>) -> CSS3ParserTng {
    CSS3ParserTng::from_input_stream(tokens)
}

fn is_token(v: &ComponentValue, t: &Token) -> bool {
    match v {
        ComponentValue::PreservedToken(x) => x.same_as(t),
        _ => false,
    }
}

#[test]
fn token_stream_consume_reconsume() {
    let mut s = TokenStream::new_from_tokens(vec![ident("a"), Token::Colon]);
    assert!(s.current().is_eof());
    assert!(s.lookahead(0).same_as(&ident("a")));
    assert!(s.lookahead(1).same_as(&Token::Colon));
    assert!(s.lookahead(2).is_eof());
    assert!(s.consume().same_as(&ident("a")));
    assert!(s.current().same_as(&ident("a")));
    s.reconsume();
    assert!(s.consume().same_as(&ident("a")));
    assert!(s.consume().same_as(&Token::Colon));
    assert!(s.consume().is_eof());
    assert!(s.consume().is_eof());
    assert!(s.current().same_as(&Token::Colon));
}

#[test]
fn token_text() {
    assert_eq!(ident("color").to_string(), "color");
    assert_eq!(Token::Function("var".to_string()).to_string(), "var(");
    assert_eq!(Token::AtKeyword("media".to_string()).to_string(), "@media");
    assert_eq!(Token::Hash("fff".to_string()).to_string(), "#fff");
    assert_eq!(Token::QuotedString("x".to_string()).to_string(), "\"x\"");
    assert_eq!(Token::Delim('!').to_string(), "!");
    assert_eq!(Token::Colon.to_string(), ":");
    assert_eq!(Token::CDO.to_string(), "<!--");
    assert_eq!(Token::CDC.to_string(), "-->");
    assert_eq!(Token::EOF.to_string(), "");
    assert!(!ident("a").same_as(&ident("b")));
    assert!(!ident("a").same_as(&Token::Function("a".to_string())));
}

#[test]
fn qualified_rule_with_block() {
    let mut p = parser(vec![
        ident("a"),
        Token::Whitespace,
        Token::LCurly,
        ident("color"),
        Token::Colon,
        ident("red"),
        Token::RCurly,
    ]);
    let rules = p.parse_list_of_rules();
    assert_eq!(rules.len(), 1);
    match &rules[0] {
        Rule::QualifiedRule(q) => {
            assert_eq!(q.prelude.len(), 2);
            assert!(is_token(&q.prelude[0], &ident("a")));
            assert!(is_token(&q.prelude[1], &Token::Whitespace));
            let block = q.block.as_ref().unwrap();
            assert!(block.associated_token.same_as(&Token::LCurly));
            assert_eq!(block.values.len(), 3);
            assert!(is_token(&block.values[0], &ident("color")));
            assert!(is_token(&block.values[1], &Token::Colon));
            assert!(is_token(&block.values[2], &ident("red")));
        },
        _ => panic!("expected a qualified rule"),
    }
}

#[test]
fn stylesheet_of_nothing() {
    let mut p = parser(vec![]);
    let sheet = p.parse_stylesheet(Some("style.css".to_string())).unwrap();
    assert_eq!(sheet.location, Some("style.css".to_string()));
    assert_eq!(sheet.rules.len(), 0);
}

#[test]
fn stylesheet_skips_cdo_cdc_at_top_level() {
    let mut p = parser(vec![Token::CDO, Token::Whitespace, Token::CDC]);
    let sheet = p.parse_stylesheet(None).unwrap();
    assert_eq!(sheet.rules.len(), 0);
    let mut p = parser(vec![Token::CDO, Token::LCurly, Token::RCurly]);
    let rules = p.parse_list_of_rules();
    assert_eq!(rules.len(), 1);
    match &rules[0] {
        Rule::QualifiedRule(q) => {
            assert_eq!(q.prelude.len(), 1);
            assert!(is_token(&q.prelude[0], &Token::CDO));
        },
        _ => panic!("expected a qualified rule"),
    }
}

#[test]
fn at_rule_and_function() {
    let mut p = parser(vec![
        Token::AtKeyword("import".to_string()),
        Token::Function("url".to_string()),
        ident("x"),
        Token::RParen,
        Token::Semicolon,
    ]);
    let rules = p.parse_list_of_rules();
    assert_eq!(rules.len(), 1);
    match &rules[0] {
        Rule::AtRule(a) => {
            assert_eq!(a.name, "");
            assert!(a.block.is_none());
            assert_eq!(a.prelude.len(), 2);
            assert!(is_token(&a.prelude[0], &Token::AtKeyword("import".to_string())));
            match &a.prelude[1] {
                ComponentValue::Function(f) => {
                    assert_eq!(f.name, "url(");
                    assert_eq!(f.values.len(), 1);
                    assert!(is_token(&f.values[0], &ident("x")));
                },
                _ => panic!("expected a function"),
            }
        },
        _ => panic!("expected an at-rule"),
    }
}

#[test]
fn parse_rule_of_nothing_is_unexpected_eof() {
    let mut p = parser(vec![]);
    match p.parse_rule() {
        Err(Error::Syntax(m)) => assert_eq!(m, "unexpected eof"),
        _ => panic!("expected a syntax error"),
    }
}

#[test]
fn parse_rule_reads_one_at_rule() {
    let mut p = parser(vec![
        Token::Whitespace,
        Token::AtKeyword("m".to_string()),
        Token::Semicolon,
        Token::Whitespace,
    ]);
    match p.parse_rule() {
        Ok(Rule::AtRule(a)) => {
            assert_eq!(a.prelude.len(), 1);
            assert!(is_token(&a.prelude[0], &Token::AtKeyword("m".to_string())));
        },
        _ => panic!("expected an at-rule"),
    }
}

#[test]
fn parse_rule_skips_whitespace_up_to_the_rule() {
    let mut p = parser(vec![
        Token::Whitespace,
        ident("p"),
        Token::LCurly,
        Token::RCurly,
        Token::Whitespace,
        Token::EOF,
    ]);
    match p.parse_rule() {
        Ok(Rule::QualifiedRule(q)) => {
            assert_eq!(q.prelude.len(), 1);
            assert!(is_token(&q.prelude[0], &ident("p")));
            let block = q.block.as_ref().unwrap();
            assert!(block.associated_token.same_as(&Token::LCurly));
            assert_eq!(block.values.len(), 0);
        },
        _ => panic!("expected a qualified rule"),
    }
}

#[test]
fn parse_rule_rejects_a_token_after_the_rule() {
    let mut p = parser(vec![ident("p"), Token::LCurly, Token::RCurly, Token::Whitespace, ident("x")]);
    match p.parse_rule() {
        Err(Error::Syntax(m)) => assert_eq!(m, "syntax error"),
        _ => panic!("expected a syntax error"),
    }
}

#[test]
fn parse_rule_without_block_is_syntax_error() {
    let mut p = parser(vec![ident("a"), Token::Whitespace]);
    match p.parse_rule() {
        Err(e) => assert_eq!(e.to_string(), "syntax error: syntax error"),
        Ok(_) => panic!("expected a syntax error"),
    }
}

#[test]
fn parse_is_not_implemented() {
    let mut p = parser(vec![ident("a")]);
    match p.parse("grammar".to_string()) {
        Err(e) => assert_eq!(e.to_string(), "syntax error: not implemented yet"),
        Ok(_) => panic!("expected an error"),
    }
}

#[test]
fn component_value_of_nothing_is_unexpected_eof() {
    let mut p = parser(vec![]);
    match p.parse_component_value() {
        Err(e) => {
            assert!(matches!(e, Error::UnexpectedEof));
            assert_eq!(e.to_string(), "unexpected end of stream");
        },
        Ok(_) => panic!("expected an error"),
    }
}

#[test]
fn component_value_of_a_block() {
    // The block closes on the token read before it: here nothing, so it runs to the end.
    let mut p = parser(vec![Token::LCurly, ident("x"), Token::RCurly]);
    match p.parse_component_value() {
        Ok(ComponentValue::SimpleBlock(b)) => {
            assert!(b.associated_token.same_as(&Token::LCurly));
            assert_eq!(b.values.len(), 2);
            assert!(is_token(&b.values[0], &ident("x")));
            assert!(is_token(&b.values[1], &Token::RCurly));
        },
        _ => panic!("expected a block"),
    }
    let mut p = parser(vec![ident("a"), ident("b"), ident("c"), ident("d"), ident("e")]);
    match p.parse_component_value() {
        Err(Error::Syntax(m)) => assert_eq!(m, "syntax error"),
        _ => panic!("expected a syntax error"),
    }
}

#[test]
fn component_value_between_whitespace() {
    let mut p = parser(vec![Token::Whitespace, ident("a"), Token::Whitespace, Token::EOF]);
    match p.parse_component_value() {
        Ok(v) => assert!(is_token(&v, &ident("a"))),
        Err(_) => panic!("expected a value"),
    }
}

#[test]
fn list_of_component_values_reads_every_other_token() {
    let mut p = parser(vec![ident("a"), ident("b"), ident("c"), ident("d")]);
    let values = p.parse_list_of_component_values();
    assert_eq!(values.len(), 2);
    assert!(is_token(&values[0], &ident("b")));
    assert!(is_token(&values[1], &ident("d")));
}

#[test]
fn comma_separated_list() {
    let mut p = parser(vec![ident("a"), Token::Comma, ident("b"), ident("c"), ident("d")]);
    let values = p.parse_comma_separated_list("g".to_string()).unwrap();
    assert_eq!(values.len(), 3);
    assert!(is_token(&values[0], &Token::Comma));
    assert!(is_token(&values[1], &ident("c")));
    assert!(is_token(&values[2], &ident("d")));
    let mut p = parser(vec![Token::Comma, ident("skipped"), ident("x"), ident("y")]);
    let values = p.parse_commaseparated_list_of_component_values();
    assert_eq!(values.len(), 1);
    assert!(is_token(&values[0], &ident("y")));
}

#[test]
fn declaration_needs_an_identifier_first() {
    let mut p = parser(vec![]);
    match p.parse_declaration(vec![Token::Colon, ident("x")]) {
        Err(Error::Syntax(m)) => assert_eq!(m, "syntax error"),
        _ => panic!("expected a syntax error"),
    }
}

#[test]
fn declaration_without_colon_is_an_error() {
    let mut p = parser(vec![]);
    match p.parse_declaration(vec![ident("color"), Token::Colon, ident("red")]) {
        Err(Error::Syntax(m)) => assert_eq!(m, "syntax error"),
        _ => panic!("expected a syntax error"),
    }
}

#[test]
fn important_declaration() {
    let mut p = parser(vec![Token::Whitespace, ident("outer")]);
    let z = || ident("z");
    let d = p
        .parse_declaration(vec![
            ident("a"),
            ident("color"),
            Token::Colon,
            Token::Whitespace,
            z(),
            ident("q"),
            z(),
            Token::Delim('!'),
            z(),
            ident("important"),
        ])
        .ok()
        .unwrap();
    assert_eq!(d.name, "color");
    assert!(d.important);
    assert_eq!(d.value.len(), 1);
    assert!(is_token(&d.value[0], &ident("q")));
    // Only the whitespace was consumed from the parser's own stream.
    match p.parse_component_value() {
        Ok(v) => assert!(is_token(&v, &ident("outer"))),
        Err(_) => panic!("expected the token after the whitespace"),
    }
}

#[test]
fn declaration_with_colon_right_after_the_name() {
    let mut p = parser(vec![]);
    let d = p
        .parse_declaration(vec![ident("a"), ident("color"), Token::Colon, ident("z"), ident("red")])
        .ok()
        .unwrap();
    assert_eq!(d.name, "color");
    assert_eq!(d.value.len(), 1);
    assert!(is_token(&d.value[0], &ident("red")));
}

#[test]
fn declaration_value_drops_trailing_whitespace() {
    let mut p = parser(vec![]);
    let z = || ident("z");
    let d = p
        .parse_declaration(vec![
            ident("a"),
            ident("width"),
            Token::Whitespace,
            Token::Colon,
            z(),
            ident("q"),
            z(),
            Token::Whitespace,
            z(),
            Token::Number("5".to_string()),
            z(),
            Token::Whitespace,
        ])
        .ok()
        .unwrap();
    assert_eq!(d.name, "width");
    assert!(!d.important);
    assert_eq!(d.value.len(), 3);
    assert!(is_token(&d.value[0], &ident("q")));
    assert!(is_token(&d.value[1], &Token::Whitespace));
    assert!(is_token(&d.value[2], &Token::Number("5".to_string())));
}

#[test]
fn style_block_content() {
    let mut p = parser(vec![
        Token::AtKeyword("x".to_string()),
        Token::Semicolon,
        Token::Delim('&'),
        Token::LCurly,
        Token::RCurly,
    ]);
    let (decls, rules) = p.parse_style_block_content();
    assert_eq!(decls.len(), 0);
    assert_eq!(rules.len(), 2);
    assert!(matches!(rules[0], Rule::AtRule(_)));
    match &rules[1] {
        Rule::QualifiedRule(q) => {
            assert!(is_token(&q.prelude[0], &Token::Delim('&')));
            assert_eq!(q.block.as_ref().unwrap().values.len(), 0);
        },
        _ => panic!("expected a qualified rule"),
    }
}

#[test]
fn style_block_with_identifier() {
    let mut p = parser(vec![ident("color"), Token::Semicolon, Token::Whitespace]);
    let (decls, rules) = p.parse_style_block_content();
    assert_eq!(decls.len(), 0);
    assert_eq!(rules.len(), 0);
}

#[test]
fn list_of_declarations_with_at_rules() {
    let mut p = parser(vec![
        Token::Whitespace,
        Token::AtKeyword("page".to_string()),
        Token::LCurly,
        Token::RCurly,
        Token::Semicolon,
    ]);
    let list = p.parse_list_of_declarations();
    assert_eq!(list.len(), 1);
    match &list[0] {
        DeclarationAndAtRules::AtRule(a) => {
            assert!(a.block.is_some());
            assert_eq!(a.prelude.len(), 1);
        },
        _ => panic!("expected an at-rule"),
    }
}

#[test]
fn parser_from_token_stream() {
    let mut s = TokenStream::new_from_tokens(vec![ident("a"), Token::LCurly, Token::RCurly]);
    s.consume();
    let mut p = CSS3ParserTng::new(s);
    let rules = p.parse_list_of_rules();
    assert_eq!(rules.len(), 1);
    match &rules[0] {
        Rule::QualifiedRule(q) => assert_eq!(q.prelude.len(), 0),
        _ => panic!("expected a qualified rule"),
    }
}

#[test]
fn style_block_reads_declaration() {
    let mut p = parser(vec![
        ident("color"),
        Token::Colon,
        Token::Whitespace,
        ident("red"),
        Token::Semicolon,
        ident("background-color"),
        Token::Colon,
        Token::Whitespace,
        Token::Function("var".to_string()),
        ident("--x"),
        Token::RParen,
        Token::Semicolon,
        Token::EOF,
    ]);
    let (decls, rules) = p.parse_style_block_content();
    assert_eq!(rules.len(), 0);
    assert_eq!(decls.len(), 2);
    assert_eq!(decls[0].name, "color");
    assert_eq!(decls[0].value.len(), 1);
    assert!(is_token(&decls[0].value[0], &ident("red")));
    assert!(!decls[0].important);
    assert_eq!(decls[1].name, "background-color");
    assert_eq!(decls[1].value.len(), 1);
    match &decls[1].value[0] {
        ComponentValue::Function(f) => {
            assert_eq!(f.name, "var(");
            assert_eq!(f.values.len(), 1);
            assert!(is_token(&f.values[0], &ident("--x")));
        },
        _ => panic!("expected a function"),
    }
}

#[test]
fn style_block_reads_one_declaration_per_statement() {
    let mut p = parser(vec![
        ident("a"),
        Token::Colon,
        ident("b"),
        ident("c"),
        Token::Colon,
        ident("d"),
        Token::Semicolon,
    ]);
    let (decls, rules) = p.parse_style_block_content();
    assert_eq!(rules.len(), 0);
    assert_eq!(decls.len(), 1);
    assert_eq!(decls[0].name, "a");
    assert_eq!(decls[0].value.len(), 4);
    assert!(is_token(&decls[0].value[2], &Token::Colon));
}

#[test]
fn style_block_drops_a_statement_in_error() {
    let mut p = parser(vec![
        Token::Number("5".to_string()),
        ident("x"),
        Token::Semicolon,
        ident("color"),
        Token::Colon,
        ident("red"),
    ]);
    let (decls, rules) = p.parse_style_block_content();
    assert_eq!(rules.len(), 0);
    assert_eq!(decls.len(), 1);
    assert_eq!(decls[0].name, "color");
    // An identifier without a colon gives no declaration.
    let mut p = parser(vec![ident("color"), Token::Whitespace, ident("red"), Token::Semicolon]);
    let (decls, _) = p.parse_style_block_content();
    assert_eq!(decls.len(), 0);
}

#[test]
fn list_of_declarations_mixes_declarations_and_at_rules() {
    let mut p = parser(vec![
        ident("color"),
        Token::Colon,
        ident("red"),
        Token::Semicolon,
        Token::AtKeyword("x".to_string()),
        Token::Semicolon,
        Token::Number("1".to_string()),
        Token::Semicolon,
        Token::EOF,
    ]);
    let list = p.parse_list_of_declarations();
    assert_eq!(list.len(), 2);
    match &list[0] {
        DeclarationAndAtRules::Declaration(d) => {
            assert_eq!(d.name, "color");
            assert_eq!(d.value.len(), 1);
            assert!(is_token(&d.value[0], &ident("red")));
            assert!(!d.important);
        },
        _ => panic!("expected a declaration"),
    }
    match &list[1] {
        DeclarationAndAtRules::AtRule(a) => {
            assert_eq!(a.name, "");
            assert_eq!(a.prelude.len(), 1);
            assert!(a.block.is_none());
        },
        _ => panic!("expected an at-rule"),
    }
}

#[test]
fn declaration_from_a_list_of_values() {
    let pt = |t: Token| ComponentValue::PreservedToken(t);
    let d = declaration_from_component_values(vec![
        pt(ident("margin")),
        pt(Token::Whitespace),
        pt(Token::Colon),
        pt(Token::Whitespace),
        pt(Token::Number("0".to_string())),
        pt(Token::Delim('!')),
        pt(ident("important")),
    ])
    .unwrap();
    assert_eq!(d.name, "margin");
    assert!(d.important);
    assert_eq!(d.value.len(), 1);
    assert!(declaration_from_component_values(vec![pt(ident("a")), pt(ident("b"))]).is_none());
    assert!(declaration_from_component_values(vec![pt(Token::Colon), pt(ident("b"))]).is_none());
    assert!(declaration_from_component_values(vec![]).is_none());
}

#[test]
fn stylesheet_and_list_of_rules_agree_without_cdo_cdc() {
    let tokens = || {
        vec![
            ident("a"),
            Token::LCurly,
            Token::RCurly,
            Token::Whitespace,
            Token::AtKeyword("x".to_string()),
            Token::Semicolon,
        ]
    };
    let sheet = parser(tokens()).parse_stylesheet(None).unwrap();
    let rules = parser(tokens()).parse_list_of_rules();
    assert_eq!(sheet.rules.len(), 2);
    assert_eq!(rules.len(), 2);
    assert!(matches!(sheet.rules[0], Rule::QualifiedRule(_)));
    assert!(matches!(rules[0], Rule::QualifiedRule(_)));
    assert!(matches!(sheet.rules[1], Rule::AtRule(_)));
    assert!(matches!(rules[1], Rule::AtRule(_)));
}

#[test]
fn tokens_compare_by_kind_and_text() {
    assert!(ident("a") == ident("a"));
    assert!(ident("a") != ident("b"));
    assert!(Token::Delim('!') == Token::Delim('!'));
    assert!(Token::Colon != Token::Semicolon);
}

#[test]
fn stylesheet_is_rule_list_without_top_level_cdo_cdc() {
    let sheet = parser(vec![
        Token::CDO,
        ident("a"),
        Token::LCurly,
        Token::RCurly,
        Token::Whitespace,
        Token::CDC,
        Token::AtKeyword("x".to_string()),
        Token::Semicolon,
        Token::CDO,
    ])
    .parse_stylesheet(None)
    .unwrap();
    let rules = parser(vec![
        ident("a"),
        Token::LCurly,
        Token::RCurly,
        Token::Whitespace,
        Token::AtKeyword("x".to_string()),
        Token::Semicolon,
    ])
    .parse_list_of_rules();
    assert_eq!(sheet.rules.len(), 2);
    assert_eq!(rules.len(), 2);
    for (x, y) in sheet.rules.iter().zip(rules.iter()) {
        match (x, y) {
            (Rule::QualifiedRule(q1), Rule::QualifiedRule(q2)) => {
                assert_eq!(q1.prelude.len(), 1);
                assert_eq!(q2.prelude.len(), 1);
                assert!(is_token(&q1.prelude[0], &ident("a")));
                assert!(is_token(&q2.prelude[0], &ident("a")));
                assert_eq!(q1.block.as_ref().unwrap().values.len(), 0);
                assert_eq!(q2.block.as_ref().unwrap().values.len(), 0);
            },
            (Rule::AtRule(a1), Rule::AtRule(a2)) => {
                assert_eq!(a1.prelude.len(), 1);
                assert_eq!(a2.prelude.len(), 1);
                assert!(a1.block.is_none() && a2.block.is_none());
            },
            _ => panic!("the two lists differ"),
        }
    }
}

#[test]
fn skipped_cdo_before_bracket_closes_the_bracket() {
    // The `(` after a skipped `<!--` closes on that `<!--`.
    let sheet = parser(vec![Token::CDO, Token::LParen, Token::CDO, Token::LCurly, Token::RCurly])
        .parse_stylesheet(None)
        .unwrap();
    assert_eq!(sheet.rules.len(), 1);
    match &sheet.rules[0] {
        Rule::QualifiedRule(q) => {
            assert_eq!(q.prelude.len(), 1);
            match &q.prelude[0] {
                ComponentValue::SimpleBlock(b) => {
                    assert!(b.associated_token.same_as(&Token::LParen));
                    assert_eq!(b.values.len(), 0);
                },
                _ => panic!("expected a block"),
            }
        },
        _ => panic!("expected a qualified rule"),
    }
    let rules = parser(vec![Token::LParen, Token::CDO, Token::LCurly, Token::RCurly])
        .parse_list_of_rules();
    assert_eq!(rules.len(), 0);
}
