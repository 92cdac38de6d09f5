use yaak_grpc::template::{Parser, Token, Val};

#[test]
fn var_simple() {
    let mut p = Parser::new("${[ foo ]}");
    assert_eq!(
        p.parse(),
        vec![Token::Var { name: "foo".into() }, Token::Eof]
    );
}

#[test]
fn var_multiple_names_invalid() {
    let mut p = Parser::new("${[ foo bar ]}");
    assert_eq!(
        p.parse(),
        vec![Token::Raw("${[ foo bar ]}".into()), Token::Eof]
    );
}

#[test]
fn tag_string() {
    let mut p = Parser::new(r#"${[ "foo \"bar\" baz" ]}"#);
    assert_eq!(
        p.parse(),
        vec![Token::Raw(r#"${[ "foo \"bar\" baz" ]}"#.into()), Token::Eof]
    );
}

#[test]
fn var_surrounded() {
    let mut p = Parser::new("Hello ${[ foo ]}!");
    assert_eq!(
        p.parse(),
        vec![
            Token::Raw("Hello ".to_string()),
            Token::Var { name: "foo".into() },
            Token::Raw("!".to_string()),
            Token::Eof,
        ]
    );
}

#[test]
fn fn_simple() {
    let mut p = Parser::new("${[ foo() ]}");
    assert_eq!(
        p.parse(),
        vec![
            Token::Fn {
                name: "foo".into(),
                args: Vec::new(),
            },
            Token::Eof
        ]
    );
}

#[test]
fn fn_ident_arg() {
    let mut p = Parser::new("${[ foo(bar) ]}");
    assert_eq!(
        p.parse(),
        vec![
            Token::Fn {
                name: "foo".into(),
                args: vec![Val::Ident("bar".into())],
            },
            Token::Eof
        ]
    );
}

#[test]
fn fn_ident_args() {
    let mut p = Parser::new("${[ foo(bar,baz, qux ) ]}");
    assert_eq!(
        p.parse(),
        vec![
            Token::Fn {
                name: "foo".into(),
                args: vec![
                    Val::Ident("bar".into()),
                    Val::Ident("baz".into()),
                    Val::Ident("qux".into()),
                ],
            },
            Token::Eof
        ]
    );
}

#[test]
fn fn_mixed_args() {
    let mut p = Parser::new(r#"${[ foo(bar,"baz \"hi\"", qux ) ]}"#);
    assert_eq!(
        p.parse(),
        vec![
            Token::Fn {
                name: "foo".into(),
                args: vec![
                    Val::Ident("bar".into()),
                    Val::Str(r#"baz "hi""#.into()),
                    Val::Ident("qux".into()),
                ],
            },
            Token::Eof
        ]
    );
}

#[test]
fn empty_input_gives_only_eof() {
    let mut p = Parser::new("");
    assert_eq!(p.parse(), vec![Token::Eof]);
}

#[test]
fn unterminated_tag_is_raw_text() {
    let mut p = Parser::new("a ${[ foo");
    assert_eq!(p.parse(), vec![Token::Raw("a ${[ foo".into()), Token::Eof]);
}

#[test]
fn missing_comma_falls_back_to_variable() {
    let mut p = Parser::new("${[ foo(a]}");
    assert_eq!(p.parse(), vec![Token::Var { name: "foo".into() }, Token::Eof]);
}

#[test]
fn unreadable_argument_is_raw_text() {
    let mut p = Parser::new("${[ foo(!) ]}");
    assert_eq!(p.parse(), vec![Token::Raw("${[ foo(!) ]}".into()), Token::Eof]);
}

#[test]
fn trailing_backslash_in_string_is_raw_text() {
    let mut p = Parser::new("${[ foo(\"\\");
    assert_eq!(p.parse(), vec![Token::Raw("${[ foo(\"\\".into()), Token::Eof]);
}

#[test]
fn unicode_identifiers_and_two_tags() {
    let mut p = Parser::new("${[ é1 ]}-${[ _x(\"y\") ]}");
    assert_eq!(
        p.parse(),
        vec![
            Token::Var { name: "é1".into() },
            Token::Raw("-".into()),
            Token::Fn { name: "_x".into(), args: vec![Val::Str("y".into())] },
            Token::Eof,
        ]
    );
}

#[test]
fn unicode_whitespace_inside_tags() {
    let mut p = Parser::new("${[\t\u{a0}foo(\nbar ,\u{2028}baz)\r\u{3000}]}");
    assert_eq!(
        p.parse(),
        vec![
            Token::Fn {
                name: "foo".into(),
                args: vec![Val::Ident("bar".into()), Val::Ident("baz".into())],
            },
            Token::Eof,
        ]
    );
}
