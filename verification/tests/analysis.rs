//! The analysis pass run whole, and its printed projections.

use rap_trace::ast::{Expr, Item, Stmt, Token};
use rap_trace::model::{Infoitem, Report, Span};
use rap_trace::walker::syn_parse;

fn sp(line: usize, c0: usize, c1: usize) -> Span {
    Span { start_line: line, start_col: c0, end_line: line, end_col: c1 }
}

#[test]
fn test() {
    let items: Vec<Item> = Vec::new();
    let res = syn_parse(&items);
    println!("{:?}", res.registry);
    println!("{:?}", res.trace);
    assert!(res.registry.is_empty());
    assert_eq!(res.trace.len(), 1);
    assert!(res.reports.is_empty());
}

#[test]
fn macro_reference_segment_records_use() {
    // println!("{}", &mut target)
    let items = vec![Item::Func {
        name: "main".to_string(),
        span: sp(1, 3, 7),
        params: Vec::new(),
        body: vec![
            Stmt::Let {
                name: "target".to_string(),
                is_mut: true,
                span: sp(2, 12, 18),
                init: Some(Expr::Other),
            },
            Stmt::Expr(Expr::MacroCall {
                name: "println".to_string(),
                span: sp(3, 4, 11),
                tokens: vec![
                    Token::Literal,
                    Token::Punct { ch: ',' },
                    Token::Punct { ch: '&' },
                    Token::Ident { name: "mut".to_string(), span: sp(3, 20, 23) },
                    Token::Ident { name: "target".to_string(), span: sp(3, 24, 30) },
                ],
            }),
        ],
    }];
    let res = syn_parse(&items);
    let body = &res.trace[1];
    let t = body.entries.iter().find(|e| e.name == "target").unwrap();
    assert_eq!(t.occs.len(), 2);
    assert!(matches!(t.occs[1].info, Infoitem::Reference));
}

#[test]
fn macro_comma_inside_group_does_not_split() {
    // println!("{}", f(a, b)): the inner comma stays inside the call group
    let items = vec![Item::Func {
        name: "main".to_string(),
        span: sp(1, 3, 7),
        params: Vec::new(),
        body: vec![Stmt::Expr(Expr::MacroCall {
            name: "println".to_string(),
            span: sp(2, 4, 11),
            tokens: vec![
                Token::Literal,
                Token::Punct { ch: ',' },
                Token::Ident { name: "f".to_string(), span: sp(2, 19, 20) },
                Token::Group {
                    delim: rap_trace::ast::Delim::Paren,
                    tokens: vec![
                        Token::Ident { name: "a".to_string(), span: sp(2, 21, 22) },
                        Token::Punct { ch: ',' },
                        Token::Ident { name: "b".to_string(), span: sp(2, 24, 25) },
                    ],
                },
            ],
        })],
    }];
    let res = syn_parse(&items);
    // exactly one segment after the format string, classified as a call of f
    let body = &res.trace[1];
    let f = body.entries.iter().find(|e| e.name == "f").unwrap();
    assert!(matches!(f.occs[0].info, Infoitem::Call { .. }));
    assert!(body.entries.iter().all(|e| e.name != "a" && e.name != "b"));
    assert!(!res.reports.iter().any(|r| matches!(r, Report::MacroArgSkipped)));
}

#[test]
fn redeclared_struct_field_replaces_template_slot() {
    let items = vec![
        Item::StructDef {
            ty_name: "S".to_string(),
            fields: vec![rap_trace::ast::FieldDef { name: "x".to_string(), span: sp(1, 11, 12) }],
        },
        Item::StructDef {
            ty_name: "S".to_string(),
            fields: vec![rap_trace::ast::FieldDef { name: "x".to_string(), span: sp(2, 11, 12) }],
        },
    ];
    let res = syn_parse(&items);
    assert_eq!(res.template.len(), 1);
    assert_eq!(res.template[0].fields.len(), 1);
    // the slot holds the later declaration's RAP; ids are 1-based
    assert_eq!(res.template[0].fields[0].rap.id(), 2);
    // both declarations were allocated
    assert_eq!(res.arena.len(), 2);
}

#[test]
fn qualified_macro_argument_path() {
    // assert!(limits::MAX): a qualified identifier resolves as one use
    let items = vec![Item::Func {
        name: "main".to_string(),
        span: sp(1, 3, 7),
        params: Vec::new(),
        body: vec![
            Stmt::Expr(Expr::MacroCall {
                name: "assert".to_string(),
                span: sp(2, 4, 10),
                tokens: vec![
                    Token::Ident { name: "limits".to_string(), span: sp(2, 12, 18) },
                    Token::Punct { ch: ':' },
                    Token::Punct { ch: ':' },
                    Token::Ident { name: "MAX".to_string(), span: sp(2, 20, 23) },
                ],
            }),
        ],
    }];
    let res = syn_parse(&items);
    // an unknown plain identifier use is an undefined-identifier condition
    assert!(res.reports.iter().any(|r| matches!(
        r,
        Report::UndefinedIdentifier { name } if name == "limits::MAX"
    )));
}
