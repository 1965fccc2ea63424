//! End-to-end analysis scenarios over hand-built syntax trees.

use rap_trace::ast::{Expr, FieldDef, FieldInit, Item, Param, ParamTy, Stmt, Token};
use rap_trace::model::{Infoitem, Rap, Report, Span};
use rap_trace::header::header_gen_str;
use rap_trace::walker::syn_parse;

fn sp(line: usize, c0: usize, c1: usize) -> Span {
    Span { start_line: line, start_col: c0, end_line: line, end_col: c1 }
}

fn main_fn(body: Vec<Stmt>) -> Item {
    Item::Func { name: "main".to_string(), span: sp(1, 3, 7), params: Vec::new(), body }
}

const BEGIN: &str = "/* --- BEGIN Variable Definitions ---\n";
const END: &str = "--- END Variable Definitions --- */\n";

#[test]
fn scenario_owner_and_static_ref() {
    // let mut b = 5; let c = &b;
    let items = vec![main_fn(vec![
        Stmt::Let {
            name: "b".to_string(),
            is_mut: true,
            span: sp(2, 12, 13),
            init: Some(Expr::Other),
        },
        Stmt::Let {
            name: "c".to_string(),
            is_mut: false,
            span: sp(3, 8, 9),
            init: Some(Expr::Reference {
                is_mut: false,
                target: Some(vec!["b".to_string()]),
            }),
        },
    ])];
    let res = syn_parse(&items);
    let (header, issues) = header_gen_str(&res.registry);
    assert_eq!(header, format!("{}Owner mut b;\nStaticRef c;\n{}", BEGIN, END));
    assert!(issues.is_empty());
    // the reference target is recorded as a use of b in the body frame
    let body = &res.trace[1];
    let b = body.entries.iter().find(|e| e.name == "b").unwrap();
    assert_eq!(b.occs.len(), 2);
    assert!(matches!(b.occs[0].info, Infoitem::Local { .. }));
    assert!(matches!(b.occs[1].info, Infoitem::Reference));
}

#[test]
fn scenario_call_and_method_call() {
    // let s = String::from("hello"); let len = s.len();
    let items = vec![main_fn(vec![
        Stmt::Let {
            name: "s".to_string(),
            is_mut: false,
            span: sp(2, 8, 9),
            init: Some(Expr::Call {
                path: vec!["String".to_string(), "from".to_string()],
                span: sp(2, 12, 24),
            }),
        },
        Stmt::Let {
            name: "len".to_string(),
            is_mut: false,
            span: sp(3, 8, 11),
            init: Some(Expr::MethodCall { name: "len".to_string() }),
        },
    ])];
    let res = syn_parse(&items);
    let (header, _) = header_gen_str(&res.registry);
    assert_eq!(
        header,
        format!(
            "{}Function String::from();\nOwner s;\nFunction len();\nOwner len;\n{}",
            BEGIN, END
        )
    );
}

#[test]
fn scenario_struct_literal() {
    // struct Rect { w: i32, h: i32 }  let r = Rect { w: 3, h: 4 };
    let items = vec![
        Item::StructDef {
            ty_name: "Rect".to_string(),
            fields: vec![
                FieldDef { name: "w".to_string(), span: sp(1, 14, 15) },
                FieldDef { name: "h".to_string(), span: sp(1, 22, 23) },
            ],
        },
        main_fn(vec![Stmt::Let {
            name: "r".to_string(),
            is_mut: false,
            span: sp(3, 8, 9),
            init: Some(Expr::StructLit {
                ty_name: "Rect".to_string(),
                fields: vec![
                    FieldInit { name: "w".to_string(), span: sp(3, 19, 20) },
                    FieldInit { name: "h".to_string(), span: sp(3, 25, 26) },
                ],
            }),
        }]),
    ];
    let res = syn_parse(&items);
    let (header, issues) = header_gen_str(&res.registry);
    assert_eq!(header, format!("{}Struct r{{w,h}};\n{}", BEGIN, END));
    assert!(issues.is_empty());
    // both member RAPs are owned by r's instance RAP
    let r_id = match &res.registry.iter().find(|e| e.name == "r").unwrap().raps[0] {
        Rap::Struct { id, owner_id, is_member, .. } => {
            assert!(!is_member);
            assert_eq!(id, owner_id);
            *id
        }
        other => panic!("unexpected RAP for r: {:?}", other),
    };
    for field in ["w", "h"] {
        match &res.registry.iter().find(|e| e.name == field).unwrap().raps[0] {
            Rap::Struct { owner_id, is_member, .. } => {
                assert!(*is_member);
                assert_eq!(*owner_id, r_id);
            }
            other => panic!("unexpected RAP for {}: {:?}", field, other),
        }
    }
}

#[test]
fn scenario_println_arguments() {
    // let a = ...; let b = ...; println!("{} {}", a, b);
    let items = vec![main_fn(vec![
        Stmt::Let { name: "a".to_string(), is_mut: false, span: sp(2, 8, 9), init: Some(Expr::Other) },
        Stmt::Let { name: "b".to_string(), is_mut: false, span: sp(3, 8, 9), init: Some(Expr::Other) },
        Stmt::Expr(Expr::MacroCall {
            name: "println".to_string(),
            span: sp(4, 4, 11),
            tokens: vec![
                Token::Literal,
                Token::Punct { ch: ',' },
                Token::Ident { name: "a".to_string(), span: sp(4, 22, 23) },
                Token::Punct { ch: ',' },
                Token::Ident { name: "b".to_string(), span: sp(4, 25, 26) },
            ],
        }),
    ])];
    let res = syn_parse(&items);
    // both prior bindings acquire a new use occurrence in the body frame
    let body = &res.trace[1];
    for name in ["a", "b"] {
        let entry = body.entries.iter().find(|e| e.name == name).unwrap();
        assert_eq!(entry.occs.len(), 2);
        assert!(matches!(entry.occs[1].info, Infoitem::Ident { .. }));
    }
    // the macro itself is recorded as a Function
    let (header, _) = header_gen_str(&res.registry);
    assert!(header.contains("Function println();\n"));
    let m = body.entries.iter().find(|e| e.name == "println").unwrap();
    assert!(matches!(m.occs[0].info, Infoitem::Macro { .. }));
    assert!(matches!(m.occs[0].rap, Rap::Function { .. }));
}

#[test]
fn scenario_undefined_reference() {
    // &q with no prior q: reported, no occurrence, run completes
    let items = vec![main_fn(vec![
        Stmt::Expr(Expr::Reference { is_mut: false, target: Some(vec!["q".to_string()]) }),
        Stmt::Let { name: "x".to_string(), is_mut: false, span: sp(3, 8, 9), init: None },
    ])];
    let res = syn_parse(&items);
    assert!(res.reports.iter().any(|r| matches!(
        r,
        Report::UndefinedIdentifier { name } if name == "q"
    )));
    for frame in &res.trace {
        assert!(frame.entries.iter().all(|e| e.name != "q"));
    }
    // the rest of the body was still analyzed
    let (header, _) = header_gen_str(&res.registry);
    assert!(header.contains("Owner x;\n"));
}

#[test]
fn shadowing_appends_and_resolves_to_latest() {
    // let a = ...; let a = ...; println!("{}", a);
    let items = vec![main_fn(vec![
        Stmt::Let { name: "a".to_string(), is_mut: false, span: sp(2, 8, 9), init: Some(Expr::Other) },
        Stmt::Let { name: "a".to_string(), is_mut: true, span: sp(3, 12, 13), init: Some(Expr::Other) },
        Stmt::Expr(Expr::MacroCall {
            name: "println".to_string(),
            span: sp(4, 4, 11),
            tokens: vec![
                Token::Literal,
                Token::Punct { ch: ',' },
                Token::Ident { name: "a".to_string(), span: sp(4, 19, 20) },
            ],
        }),
    ])];
    let res = syn_parse(&items);
    let a_entry = res.registry.iter().find(|e| e.name == "a").unwrap();
    assert_eq!(a_entry.raps.len(), 2);
    let latest_id = a_entry.raps[1].id();
    let body = &res.trace[1];
    let a_occs = &body.entries.iter().find(|e| e.name == "a").unwrap().occs;
    let use_occ = a_occs.last().unwrap();
    assert!(matches!(use_occ.info, Infoitem::Ident { .. }));
    assert_eq!(use_occ.rap.id(), latest_id);
}

#[test]
fn nested_block_opens_new_frame() {
    let items = vec![main_fn(vec![
        Stmt::Let { name: "a".to_string(), is_mut: false, span: sp(2, 8, 9), init: None },
        Stmt::Expr(Expr::Block {
            stmts: vec![Stmt::Let {
                name: "inner".to_string(),
                is_mut: false,
                span: sp(4, 12, 17),
                init: None,
            }],
        }),
    ])];
    let res = syn_parse(&items);
    assert_eq!(res.trace.len(), 3);
    assert!(res.trace[1].entries.iter().any(|e| e.name == "a"));
    assert!(res.trace[2].entries.iter().any(|e| e.name == "inner"));
}

#[test]
fn nested_function_item() {
    let items = vec![main_fn(vec![Stmt::Item(Item::Func {
        name: "helper".to_string(),
        span: sp(2, 7, 13),
        params: vec![Param {
            name: "x".to_string(),
            is_mut: false,
            ty: ParamTy::Ref,
            span: sp(2, 14, 21),
        }],
        body: Vec::new(),
    })])];
    let res = syn_parse(&items);
    let (header, _) = header_gen_str(&res.registry);
    assert!(header.contains("Function helper();\n"));
    assert!(header.contains("StaticRef x;\n"));
    // helper's name occurrence sits in main's body frame; x in helper's own
    assert!(res.trace[1].entries.iter().any(|e| e.name == "helper"));
    assert!(res.trace[2].entries.iter().any(|e| e.name == "x"));
}

#[test]
fn parameter_classification_by_type_shape() {
    let items = vec![Item::Func {
        name: "f".to_string(),
        span: sp(1, 3, 4),
        params: vec![
            Param { name: "a".to_string(), is_mut: false, ty: ParamTy::Plain, span: sp(1, 5, 11) },
            Param { name: "b".to_string(), is_mut: false, ty: ParamTy::Ref, span: sp(1, 13, 20) },
            Param {
                name: "c".to_string(),
                is_mut: true,
                ty: ParamTy::RefMut,
                span: sp(1, 22, 35),
            },
        ],
        body: Vec::new(),
    }];
    let res = syn_parse(&items);
    let (header, _) = header_gen_str(&res.registry);
    assert_eq!(
        header,
        format!("{}Function f();\nOwner a;\nStaticRef b;\nMutRef c;\n{}", BEGIN, END)
    );
}

#[test]
fn let_without_initializer_is_owner() {
    let items = vec![main_fn(vec![
        Stmt::Let { name: "x".to_string(), is_mut: false, span: sp(2, 8, 9), init: None },
        Stmt::Let { name: "y".to_string(), is_mut: true, span: sp(3, 12, 13), init: None },
    ])];
    let res = syn_parse(&items);
    let (header, _) = header_gen_str(&res.registry);
    assert_eq!(header, format!("{}Owner x;\nOwner mut y;\n{}", BEGIN, END));
}

#[test]
fn allocated_ids_are_unique() {
    let items = vec![
        Item::StructDef {
            ty_name: "P".to_string(),
            fields: vec![
                FieldDef { name: "x".to_string(), span: sp(1, 11, 12) },
                FieldDef { name: "y".to_string(), span: sp(1, 19, 20) },
            ],
        },
        main_fn(vec![
            Stmt::Let {
                name: "p".to_string(),
                is_mut: false,
                span: sp(3, 8, 9),
                init: Some(Expr::StructLit {
                    ty_name: "P".to_string(),
                    fields: vec![
                        FieldInit { name: "x".to_string(), span: sp(3, 16, 17) },
                        FieldInit { name: "y".to_string(), span: sp(3, 22, 23) },
                    ],
                }),
            },
            Stmt::Let {
                name: "q".to_string(),
                is_mut: false,
                span: sp(4, 8, 9),
                init: Some(Expr::Call { path: vec!["g".to_string()], span: sp(4, 12, 15) }),
            },
        ]),
    ];
    let res = syn_parse(&items);
    let mut ids: Vec<usize> = res.arena.iter().map(|r| r.id()).collect();
    let n = ids.len();
    ids.sort();
    ids.dedup();
    assert_eq!(ids.len(), n);
    assert!(n >= 7);
    // ids are assigned in allocation order starting at 1
    for (k, r) in res.arena.iter().enumerate() {
        assert_eq!(r.id(), k + 1);
    }
}

#[test]
fn binding_id_reserved_before_initializer() {
    // let s = String::from("hello"); — the binding takes its id before
    // the initializer registers its callee
    let items = vec![main_fn(vec![Stmt::Let {
        name: "s".to_string(),
        is_mut: false,
        span: sp(2, 8, 9),
        init: Some(Expr::Call {
            path: vec!["String".to_string(), "from".to_string()],
            span: sp(2, 12, 24),
        }),
    }])];
    let res = syn_parse(&items);
    let id_of = |name: &str| -> usize {
        res.registry.iter().find(|e| e.name == name).unwrap().raps[0].id()
    };
    assert_eq!(id_of("main"), 1);
    assert_eq!(id_of("s"), 2);
    assert_eq!(id_of("String::from"), 3);
}
