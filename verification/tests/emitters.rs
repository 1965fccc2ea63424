//! The two projection emitters and the text helpers.

use rap_trace::annotate::asource_gen;
use rap_trace::ast::{Expr, FieldDef, FieldInit, Item, Stmt, Token};
use rap_trace::header::header_gen_str;
use rap_trace::model::{Infoitem, Rap, Report, Span, StackItem};
use rap_trace::state::{Frame, NameOccs, RegEntry};
use rap_trace::strutil::{path_fmt, u64_to_string};
use rap_trace::walker::syn_parse;

fn sp(line: usize, c0: usize, c1: usize) -> Span {
    Span { start_line: line, start_col: c0, end_line: line, end_col: c1 }
}

#[test]
fn annotate_round_trip_on_empty_trace() {
    let source = "fn main() {\n    let mut b = 5;\n    let c = &b;\n}\n";
    let trace: Vec<Frame> = Vec::new();
    assert_eq!(asource_gen(source, &trace), source);
}

#[test]
fn annotate_round_trip_without_trailing_newline() {
    let source = "a\nbc";
    let trace: Vec<Frame> = Vec::new();
    assert_eq!(asource_gen(source, &trace), source);
}

#[test]
fn annotate_round_trip_untagged_occurrences_only() {
    // method-call and reference occurrences are traced but never tagged
    let items = vec![Item::Func {
        name: "main".to_string(),
        span: sp(10, 0, 0),
        params: Vec::new(),
        body: vec![
            Stmt::Expr(Expr::MethodCall { name: "len".to_string() }),
        ],
    }];
    let mut res = syn_parse(&items);
    // strip the taggable occurrences, keeping only the method-call one
    for frame in &mut res.trace {
        for entry in &mut frame.entries {
            entry.occs.retain(|o| matches!(o.info, rap_trace::model::Infoitem::MethodCall));
        }
    }
    let source = "one\ntwo\nthree\n";
    assert_eq!(asource_gen(source, &res.trace), source);
}

#[test]
fn annotate_inserts_tags_at_recorded_spans() {
    let source = "fn main() {\n    let mut b = 5;\n    let c = &b;\n}\n";
    let items = vec![Item::Func {
        name: "main".to_string(),
        span: sp(1, 3, 7),
        params: Vec::new(),
        body: vec![
            Stmt::Let {
                name: "b".to_string(),
                is_mut: true,
                span: sp(2, 12, 13),
                init: Some(Expr::Other),
            },
            Stmt::Let {
                name: "c".to_string(),
                is_mut: false,
                span: sp(3, 8, 9),
                init: Some(Expr::Reference {
                    is_mut: false,
                    target: Some(vec!["b".to_string()]),
                }),
            },
        ],
    }];
    let res = syn_parse(&items);
    let out = asource_gen(source, &res.trace);
    let expected = "fn <tspan class=\"fn\" data-hash=\"0\" hash=\"1\">main</tspan>() {\n    let mut <tspan data-hash=\"2\">b</tspan> = 5;\n    let <tspan data-hash=\"3\">c</tspan> = &b;\n}\n";
    assert_eq!(out, expected);
}

#[test]
fn annotate_skips_positions_outside_the_text() {
    let source = "short\n";
    let items = vec![Item::Func {
        name: "main".to_string(),
        span: sp(40, 2, 6),
        params: Vec::new(),
        body: Vec::new(),
    }];
    let res = syn_parse(&items);
    assert_eq!(asource_gen(source, &res.trace), source);
}

#[test]
fn header_reports_instance_without_members() {
    let reg = vec![RegEntry {
        name: "r".to_string(),
        raps: vec![Rap::Struct {
            name: "r".to_string(),
            id: 0,
            owner_id: 0,
            is_mut: false,
            is_member: false,
        }],
    }];
    let (header, issues) = header_gen_str(&reg);
    assert!(header.contains("Struct r{};\n"));
    assert_eq!(issues.len(), 1);
    assert!(matches!(&issues[0], Report::InconsistentStruct { name } if name == "r"));
}

#[test]
fn header_suppresses_main_function_line() {
    let reg = vec![
        RegEntry {
            name: "main".to_string(),
            raps: vec![Rap::Function { name: "main".to_string(), id: 0 }],
        },
        RegEntry {
            name: "f".to_string(),
            raps: vec![Rap::Function { name: "f".to_string(), id: 1 }],
        },
    ];
    let (header, _) = header_gen_str(&reg);
    assert!(!header.contains("main"));
    assert!(header.contains("Function f();\n"));
}

#[test]
fn template_miss_is_reported_and_field_skipped() {
    let items = vec![
        Item::StructDef {
            ty_name: "Rect".to_string(),
            fields: vec![FieldDef { name: "w".to_string(), span: sp(1, 14, 15) }],
        },
        Item::Func {
            name: "main".to_string(),
            span: sp(2, 3, 7),
            params: Vec::new(),
            body: vec![Stmt::Let {
                name: "r".to_string(),
                is_mut: false,
                span: sp(3, 8, 9),
                init: Some(Expr::StructLit {
                    ty_name: "Rect".to_string(),
                    fields: vec![
                        FieldInit { name: "w".to_string(), span: sp(3, 16, 17) },
                        FieldInit { name: "z".to_string(), span: sp(3, 22, 23) },
                    ],
                }),
            }],
        },
    ];
    let res = syn_parse(&items);
    assert!(res.reports.iter().any(|r| matches!(
        r,
        Report::TemplateMiss { ty_name, field } if ty_name == "Rect" && field == "z"
    )));
    let (header, _) = header_gen_str(&res.registry);
    assert!(header.contains("Struct r{w};\n"));
}

#[test]
fn unsupported_constructs_are_reported_and_skipped() {
    let items = vec![
        Item::Other,
        Item::Func {
            name: "main".to_string(),
            span: sp(2, 3, 7),
            params: Vec::new(),
            body: vec![Stmt::Other, Stmt::Expr(Expr::Other)],
        },
    ];
    let res = syn_parse(&items);
    let n = res.reports.iter().filter(|r| matches!(r, Report::Unsupported)).count();
    assert_eq!(n, 3);
    let (header, _) = header_gen_str(&res.registry);
    assert_eq!(
        header,
        "/* --- BEGIN Variable Definitions ---\n--- END Variable Definitions --- */\n"
    );
}

#[test]
fn unrecognized_macro_is_skipped_entirely() {
    let items = vec![Item::Func {
        name: "main".to_string(),
        span: sp(1, 3, 7),
        params: Vec::new(),
        body: vec![Stmt::Expr(Expr::MacroCall {
            name: "vec".to_string(),
            span: sp(2, 4, 7),
            tokens: vec![Token::Literal],
        })],
    }];
    let res = syn_parse(&items);
    assert!(res.reports.iter().any(|r| matches!(r, Report::Unsupported)));
    let (header, _) = header_gen_str(&res.registry);
    assert!(!header.contains("vec"));
}

#[test]
fn assert_macro_classifies_call_segment() {
    // assert!(check(x), "msg")
    let items = vec![Item::Func {
        name: "main".to_string(),
        span: sp(1, 3, 7),
        params: Vec::new(),
        body: vec![Stmt::Expr(Expr::MacroCall {
            name: "assert".to_string(),
            span: sp(2, 4, 10),
            tokens: vec![
                Token::Ident { name: "check".to_string(), span: sp(2, 12, 17) },
                Token::Group { delim: rap_trace::ast::Delim::Paren, tokens: vec![
                    Token::Ident { name: "x".to_string(), span: sp(2, 18, 19) },
                ] },
                Token::Punct { ch: ',' },
                Token::Literal,
            ],
        })],
    }];
    let res = syn_parse(&items);
    let (header, _) = header_gen_str(&res.registry);
    assert!(header.contains("Function assert();\n"));
    assert!(header.contains("Function check();\n"));
    // the literal segment does not parse as an expression: reported
    assert!(res.reports.iter().any(|r| matches!(r, Report::MacroArgSkipped)));
    // call arguments themselves are not walked
    assert!(!header.contains("Owner x"));
}

#[test]
fn annotate_tags_span_across_lines() {
    let trace = vec![Frame {
        entries: vec![NameOccs {
            name: "w".to_string(),
            occs: vec![StackItem {
                info: Infoitem::Local {
                    span: Span { start_line: 1, start_col: 0, end_line: 2, end_col: 1 },
                },
                rap: Rap::Owner { name: "w".to_string(), id: 5, is_mut: false },
            }],
        }],
    }];
    let out = asource_gen("ab\ncd\n", &trace);
    assert_eq!(out, "<tspan data-hash=\"5\">ab\nc</tspan>d\n");
}

#[test]
fn color_gen_orders_insertions_by_position() {
    let items = vec![Item::Func {
        name: "main".to_string(),
        span: sp(1, 3, 7),
        params: Vec::new(),
        body: vec![
            Stmt::Let { name: "b".to_string(), is_mut: true, span: sp(2, 12, 13), init: None },
            Stmt::Let { name: "c".to_string(), is_mut: false, span: sp(3, 8, 9), init: None },
        ],
    }];
    let res = syn_parse(&items);
    let inserts = rap_trace::annotate::color_gen(&res.trace);
    // an opening and a closing tag for each of the three occurrences
    assert_eq!(inserts.len(), 6);
    for w in inserts.windows(2) {
        assert!(w[0].row < w[1].row || (w[0].row == w[1].row && w[0].col < w[1].col));
    }
    assert_eq!(inserts[0].row, 1);
    assert_eq!(inserts[0].col, 3);
    assert!(inserts[0].text.contains("class=\"fn\""));
    assert_eq!(inserts[1].text, "</tspan>");
}

#[test]
fn decimal_rendering() {
    assert_eq!(u64_to_string(0), "0");
    assert_eq!(u64_to_string(7), "7");
    assert_eq!(u64_to_string(10), "10");
    assert_eq!(u64_to_string(1234567890), "1234567890");
    assert_eq!(u64_to_string(u64::MAX), "18446744073709551615");
}

#[test]
fn path_formatting() {
    assert_eq!(path_fmt(&vec!["a".to_string()]), "a");
    assert_eq!(
        path_fmt(&vec!["std".to_string(), "mem".to_string(), "swap".to_string()]),
        "std::mem::swap"
    );
    assert_eq!(path_fmt(&Vec::new()), "");
}
