use hax_frontend_exporter::adt::{
    get_variant_information, AdtDescriptor, AdtKind, FieldDef, VariantDef, Visibility,
};
use hax_frontend_exporter::ast::{
    Attribute, AttrKind, AttrStyle, BlockSafety, BorrowKind, CommentKind, ConstantKind, Edition,
    ExpnData, ExpnKind, ExprKind, FnHeader, Generics, IntTy, IsAsync, ItemKind, LitIntType,
    LitKind, MacroKind, PatKind, Scope, ScopeData, StrStyle, Ty, UintTy, Unsafety, Constness,
    VariantDiscr,
};
use hax_frontend_exporter::constant::scalar_int_to_literal;
use hax_frontend_exporter::host::{
    Ctx, FatalReason, HostBlock, HostConstant, HostExpr, HostExprKind, HostFieldExpr,
    HostFieldPat, HostFn, HostItem, HostItemKind, HostParam, HostPat, HostPatKind, MacroCall,
    ScalarInt, State, TyShape,
};
use hax_frontend_exporter::ids::{path_of_def_id, DefId, DefPathItem, DisambiguatedDefPathItem, HirId};
use hax_frontend_exporter::item::{inline_macro_invocations, lower_item};
use hax_frontend_exporter::lower::{lower_expr, lower_pat};
use hax_frontend_exporter::namespace::{Namespace, NamespaceChunk, Options, Glob};
use hax_frontend_exporter::span::{
    read_span_from_file, FileName, Loc, ReadSpanErr, RealFileName, SourceFile, Span, Spanned,
};

const FILE: &str = "/src/lib.rs";

fn span_in(path: &str, l1: usize, c1: usize, l2: usize, c2: usize) -> Span {
    Span {
        lo: Loc { line: l1, col: c1 },
        hi: Loc { line: l2, col: c2 },
        filename: FileName::Real(RealFileName::LocalPath(path.to_string())),
    }
}

fn sp(l1: usize, c1: usize, l2: usize, c2: usize) -> Span {
    span_in(FILE, l1, c1, l2, c2)
}

fn seg(data: DefPathItem) -> DisambiguatedDefPathItem {
    DisambiguatedDefPathItem { data, disambiguator: 0 }
}

fn def_id(krate: &str, names: &[&str]) -> DefId {
    DefId {
        krate: krate.to_string(),
        path: names.iter().map(|n| seg(DefPathItem::TypeNs(n.to_string()))).collect(),
    }
}

fn hir(local_id: usize) -> HirId {
    HirId { owner: def_id("k", &["f"]), local_id }
}

fn no_options() -> Options {
    Options { inline_macro_calls: vec![] }
}

fn ctx_with(options: Options, adts: Vec<AdtDescriptor>) -> Ctx {
    Ctx {
        options,
        macro_calls: vec![],
        files: vec![],
        adts,
        pointer_bytes: 8,
        dummy_span: sp(0, 0, 0, 0),
    }
}

fn node(ty: Ty, shape: TyShape, span: Span, kind: HostExprKind) -> HostExpr {
    HostExpr { ty, shape, span, backtrace: vec![], kind }
}

fn var_ref(var: usize, span: Span) -> HostExpr {
    node(Ty::Bool, TyShape::Other, span, HostExprKind::VarRef { var, hir_id: hir(var) })
}

fn binding(name: &str, var: usize, span: Span) -> HostPat {
    HostPat {
        ty: Ty::Bool,
        shape: TyShape::Other,
        span,
        kind: HostPatKind::Binding {
            mutability: false,
            name: name.to_string(),
            mode: hax_frontend_exporter::ast::BindingMode::ByValue,
            var,
            hir_id: hir(var),
            ty: Ty::Bool,
            subpattern: None,
            is_primary: true,
        },
    }
}

fn field(name: &str, owner: &str) -> FieldDef {
    FieldDef { did: def_id("k", &[owner, name]), name: name.to_string(), vis: Visibility::Public }
}

fn variant(owner: &str, fields: Vec<FieldDef>) -> VariantDef {
    VariantDef {
        def_id: def_id("k", &[owner]),
        ctor: None,
        name: owner.to_string(),
        discr: VariantDiscr::Relative(0),
        fields,
    }
}

fn record_p() -> AdtDescriptor {
    AdtDescriptor {
        did: def_id("k", &["m", "P"]),
        kind: AdtKind::Struct,
        variants: vec![variant("P", vec![field("a", "P"), field("b", "P")])],
    }
}

fn dbg<T: std::fmt::Debug>(x: &T) -> String {
    format!("{:?}", x)
}

#[test]
fn namespace_star_matches_one_segment() {
    let p = Namespace::parse("a::*::c");
    let yes: Vec<String> = vec!["a".into(), "b".into(), "c".into()];
    let no: Vec<String> = vec!["a".into(), "c".into()];
    assert!(p.matches(&yes));
    assert!(!p.matches(&no));
}

#[test]
fn namespace_double_star_matches_zero_or_more() {
    let p = Namespace::parse("A::**::D::*");
    let one: Vec<String> = ["A", "B", "C", "D", "X"].iter().map(|s| s.to_string()).collect();
    let two: Vec<String> = ["A", "E", "F", "D", "Y"].iter().map(|s| s.to_string()).collect();
    let zero: Vec<String> = ["A", "D", "Z"].iter().map(|s| s.to_string()).collect();
    let bad: Vec<String> = ["A", "D"].iter().map(|s| s.to_string()).collect();
    assert!(p.matches(&one));
    assert!(p.matches(&two));
    assert!(p.matches(&zero));
    assert!(!p.matches(&bad));
}

#[test]
fn namespace_parse_drops_empty_parts() {
    let p = Namespace::parse("::a::::**::");
    assert_eq!(p.chunks.len(), 2);
    assert!(matches!(&p.chunks[0], NamespaceChunk::Exact(s) if s == "a"));
    assert!(matches!(&p.chunks[1], NamespaceChunk::Glob(Glob::Many)));
}

#[test]
fn path_skips_structural_segments() {
    let id = DefId {
        krate: "k".to_string(),
        path: vec![
            seg(DefPathItem::TypeNs("m".to_string())),
            seg(DefPathItem::Impl),
            seg(DefPathItem::ValueNs("f".to_string())),
        ],
    };
    assert_eq!(path_of_def_id(&id), vec!["k".to_string(), "m".to_string(), "f".to_string()]);
}

fn lines_file(lines: &[&str]) -> Vec<SourceFile> {
    vec![SourceFile { path: FILE.to_string(), lines: lines.iter().map(|l| l.to_string()).collect() }]
}

#[test]
fn read_span_single_line() {
    let files = lines_file(&["let x = helper_macro!(1, 2, 3);"]);
    let r = read_span_from_file(&sp(1, 22, 1, 29), &files).unwrap();
    assert_eq!(r, "1, 2, 3");
}

#[test]
fn read_span_several_lines() {
    let files = lines_file(&["zero", "abcdef", "middle", "uvwxyz", "after"]);
    let r = read_span_from_file(&sp(2, 3, 4, 2), &files).unwrap();
    assert_eq!(r, "def\nmiddle\nuv");
}

#[test]
fn read_span_errors() {
    let files = lines_file(&["one"]);
    let anon = Span { lo: Loc { line: 1, col: 0 }, hi: Loc { line: 1, col: 1 }, filename: FileName::Anon(3) };
    assert!(matches!(read_span_from_file(&anon, &files), Err(ReadSpanErr::NotRealFileName(FileName::Anon(3)))));
    let other = span_in("/elsewhere.rs", 1, 0, 1, 1);
    assert!(matches!(read_span_from_file(&other, &files), Err(ReadSpanErr::WhileReading(p)) if p == "/elsewhere.rs"));
    assert!(matches!(read_span_from_file(&sp(5, 0, 6, 1), &files), Err(ReadSpanErr::NotEnoughLines { .. })));
}

#[test]
fn struct_record_variant_information() {
    let adt = AdtDescriptor {
        did: def_id("k", &["m", "P"]),
        kind: AdtKind::Struct,
        variants: vec![variant("P", vec![field("x", "P")])],
    };
    let info = get_variant_information(&adt, 0).unwrap();
    assert!(info.typ_is_struct);
    assert!(info.typ_is_record);
    assert!(info.variant_is_record);
    assert_eq!(dbg(&info.type_namespace), dbg(&def_id("k", &["m"])));
}

#[test]
fn tuple_struct_is_not_record() {
    let adt = AdtDescriptor {
        did: def_id("k", &["T"]),
        kind: AdtKind::Struct,
        variants: vec![variant("T", vec![field("0", "T"), field("1", "T")])],
    };
    let info = get_variant_information(&adt, 0).unwrap();
    assert!(info.typ_is_struct);
    assert!(!info.typ_is_record);
    assert!(!info.variant_is_record);
}

#[test]
fn enum_variant_information() {
    let adt = AdtDescriptor {
        did: def_id("k", &["E"]),
        kind: AdtKind::Enum,
        variants: vec![variant("A", vec![field("0", "A")]), variant("B", vec![field("n", "B")])],
    };
    let a = get_variant_information(&adt, 0).unwrap();
    let b = get_variant_information(&adt, 1).unwrap();
    assert!(!a.typ_is_struct && !a.typ_is_record && !a.variant_is_record);
    assert!(!b.typ_is_struct && !b.typ_is_record && b.variant_is_record);
    assert_eq!(dbg(&b.variant), dbg(&def_id("k", &["B"])));
    assert!(get_variant_information(&adt, 2).is_err());
}

#[test]
fn type_without_path_is_refused() {
    let adt = AdtDescriptor { did: def_id("k", &[]), kind: AdtKind::Struct, variants: vec![variant("P", vec![])] };
    assert!(matches!(
        get_variant_information(&adt, 0),
        Err(hax_frontend_exporter::adt::AdtError::TypeWithoutPath)
    ));
}

#[test]
fn struct_construction_scenario() {
    let adt = AdtDescriptor {
        did: def_id("k", &["m", "P"]),
        kind: AdtKind::Struct,
        variants: vec![variant("P", vec![field("x", "P")])],
    };
    let cx = ctx_with(no_options(), vec![adt]);
    let lit = node(
        Ty::Bool,
        TyShape::Other,
        sp(1, 10, 1, 14),
        HostExprKind::Literal { lit: Spanned { node: LitKind::Bool(true), span: sp(1, 10, 1, 14) }, neg: false },
    );
    let e = node(
        Ty::Bool,
        TyShape::Other,
        sp(1, 0, 1, 16),
        HostExprKind::Adt {
            adt: 0,
            variant_index: 0,
            user_ty: None,
            fields: vec![HostFieldExpr { field: 0, expr: lit }],
            base: None,
        },
    );
    let mut st = State::new();
    let r = lower_expr(&cx, &mut st, e).unwrap();
    match *r.contents {
        ExprKind::Adt(a) => {
            assert!(a.info.typ_is_struct);
            assert!(a.info.typ_is_record);
            assert!(a.info.variant_is_record);
            assert_eq!(a.fields.len(), 1);
            assert_eq!(dbg(&a.fields[0].field), dbg(&def_id("k", &["P", "x"])));
        }
        other => panic!("unexpected {:?}", other),
    }
}

#[test]
fn field_resolution_round_trip() {
    let cx = ctx_with(no_options(), vec![record_p()]);
    let one = node(Ty::Int(IntTy::I32), TyShape::Other, sp(1, 0, 1, 1), HostExprKind::NonHirLiteral { lit: ScalarInt { data: 1, size: 4 } });
    let two = node(Ty::Int(IntTy::I32), TyShape::Other, sp(1, 2, 1, 3), HostExprKind::NonHirLiteral { lit: ScalarInt { data: 2, size: 4 } });
    let build = node(
        Ty::Bool,
        TyShape::Other,
        sp(1, 0, 1, 9),
        HostExprKind::Adt {
            adt: 0,
            variant_index: 0,
            user_ty: None,
            fields: vec![HostFieldExpr { field: 0, expr: one }, HostFieldExpr { field: 1, expr: two }],
            base: None,
        },
    );
    let pat = HostPat {
        ty: Ty::Bool,
        shape: TyShape::Adt { adt: 0, substs: vec![] },
        span: sp(2, 0, 2, 9),
        kind: HostPatKind::Leaf {
            subpatterns: vec![
                HostFieldPat { field: 0, pattern: binding("a", 1, sp(2, 1, 2, 2)) },
                HostFieldPat { field: 1, pattern: binding("b", 2, sp(2, 3, 2, 4)) },
            ],
        },
    };
    let mut st = State::new();
    let built = lower_expr(&cx, &mut st, build).unwrap();
    let matched = lower_pat(&cx, &mut st, pat).unwrap();
    let built_a = match &*built.contents {
        ExprKind::Adt(a) => dbg(&a.fields[0].field),
        other => panic!("unexpected {:?}", other),
    };
    let matched_a = match &*matched.contents {
        PatKind::Variant { subpatterns, info, .. } => {
            assert!(info.typ_is_record);
            dbg(&subpatterns[0].field)
        }
        other => panic!("unexpected {:?}", other),
    };
    assert_eq!(built_a, matched_a);
    assert_eq!(built_a, dbg(&def_id("k", &["P", "a"])));
    assert_ne!(built_a, dbg(&def_id("k", &["m", "P"])));
}

#[test]
fn tuple_leaf_pattern_is_positional() {
    let cx = ctx_with(no_options(), vec![]);
    let pat = HostPat {
        ty: Ty::Tuple(vec![]),
        shape: TyShape::Tuple,
        span: sp(1, 0, 1, 6),
        kind: HostPatKind::Leaf {
            subpatterns: vec![HostFieldPat { field: 0, pattern: binding("a", 1, sp(1, 1, 1, 2)) }],
        },
    };
    let mut st = State::new();
    let p = lower_pat(&cx, &mut st, pat).unwrap();
    assert!(matches!(&*p.contents, PatKind::Tuple { subpatterns } if subpatterns.len() == 1));
}

fn identity_fn_item() -> HostItem {
    let body = node(
        Ty::Param(hax_frontend_exporter::ast::ParamTy { index: 0, name: "T".to_string() }),
        TyShape::Other,
        sp(1, 22, 1, 27),
        HostExprKind::Scope {
            region_scope: Scope { id: 3, data: ScopeData::Node },
            lint_level: hax_frontend_exporter::ast::LintLevel::Inherited,
            value: Box::new(node(
                Ty::Bool,
                TyShape::Other,
                sp(1, 22, 1, 27),
                HostExprKind::Block {
                    block: HostBlock {
                        targeted_by_break: false,
                        region_scope: Scope { id: 4, data: ScopeData::Node },
                        opt_destruction_scope: None,
                        span: sp(1, 22, 1, 27),
                        stmts: vec![],
                        expr: Some(Box::new(var_ref(7, sp(1, 24, 1, 25)))),
                        safety_mode: BlockSafety::Safe,
                    },
                },
            )),
            hir_id: None,
            attributes: vec![],
        },
    );
    HostItem {
        name: "f".to_string(),
        owner_id: DefId { krate: "k".to_string(), path: vec![seg(DefPathItem::ValueNs("f".to_string()))] },
        span: sp(1, 0, 1, 27),
        backtrace: vec![],
        vis_span: sp(1, 0, 1, 0),
        attributes: vec![],
        kind: HostItemKind::Fn {
            generics: Generics {
                params: vec![],
                predicates: vec![],
                has_where_clause_predicates: false,
                where_clause_span: sp(1, 20, 1, 20),
                span: sp(1, 4, 1, 7),
            },
            def: HostFn {
                header: FnHeader {
                    unsafety: Unsafety::Normal,
                    constness: Constness::NotConst,
                    asyncness: IsAsync::NotAsync,
                    abi: "Rust".to_string(),
                },
                params: vec![HostParam {
                    pat: Some(binding("x", 7, sp(1, 5, 1, 6))),
                    ty: Ty::Bool,
                    ty_span: Some(sp(1, 8, 1, 9)),
                    self_kind: None,
                    hir_id: None,
                    attributes: vec![],
                }],
                ret: Ty::Bool,
                body,
                sig_span: sp(1, 0, 1, 20),
            },
        },
    }
}

#[test]
fn identity_function_scenario() {
    let cx = ctx_with(no_options(), vec![]);
    let mut st = State::new();
    let item = lower_item(&cx, &mut st, identity_fn_item()).unwrap();
    assert!(item.def_id.is_some());
    match item.kind {
        ItemKind::Fn(_, def) => {
            assert_eq!(def.params.len(), 1);
            match def.params[0].pat.as_ref().map(|p| &*p.contents) {
                Some(PatKind::Binding { var, .. }) => assert_eq!(var.name, "x"),
                other => panic!("unexpected {:?}", other),
            }
            match &*def.body.contents {
                ExprKind::VarRef { id } => assert_eq!(id.name, "x"),
                other => panic!("unexpected {:?}", other),
            }
            let text = dbg(&def.body);
            assert!(!text.contains("MacroInvokation"));
            assert!(!text.contains("Todo"));
        }
        other => panic!("unexpected {:?}", other),
    }
}

#[test]
fn lowering_is_deterministic() {
    let cx = ctx_with(no_options(), vec![]);
    let mut st1 = State::new();
    let mut st2 = State::new();
    let a = lower_item(&cx, &mut st1, identity_fn_item()).unwrap();
    let b = lower_item(&cx, &mut st2, identity_fn_item()).unwrap();
    assert_eq!(dbg(&a), dbg(&b));
    assert_eq!(dbg(&st1.exported.spans), dbg(&st2.exported.spans));
}

fn macro_expn(krate: &str, name: &str, call_site: Span) -> ExpnData {
    ExpnData {
        kind: ExpnKind::Macro(MacroKind::Bang, name.to_string()),
        call_site,
        def_site: sp(9, 0, 9, 1),
        allow_internal_unstable: None,
        edition: Edition::Edition2021,
        macro_def_id: Some(DefId { krate: krate.to_string(), path: vec![seg(DefPathItem::MacroNs(name.to_string()))] }),
        parent_module: None,
        allow_internal_unsafe: false,
        local_inner_macros: false,
        collapse_debuginfo: false,
    }
}

fn macro_ctx(pattern: &str) -> Ctx {
    let mut cx = ctx_with(Options { inline_macro_calls: vec![Namespace::parse(pattern)] }, vec![]);
    cx.files = lines_file(&["let x = helper_macro!(1, 2, 3);"]);
    cx.macro_calls = vec![MacroCall { call_site: sp(1, 8, 1, 30), argument: sp(1, 22, 1, 29) }];
    cx
}

#[test]
fn allowlisted_macro_call_folds() {
    let cx = macro_ctx("mod::helper_macro");
    let mut e = node(Ty::Int(IntTy::I32), TyShape::Other, sp(1, 8, 1, 30), HostExprKind::Unmodeled { debug: "expansion".to_string() });
    e.backtrace = vec![macro_expn("mod", "helper_macro", sp(1, 8, 1, 30))];
    let mut st = State::new();
    let r = lower_expr(&cx, &mut st, e).unwrap();
    match &*r.contents {
        ExprKind::MacroInvokation(m) => {
            assert_eq!(m.argument, "1, 2, 3");
            assert_eq!(dbg(&m.span), dbg(&sp(1, 8, 1, 30)));
            assert_eq!(path_of_def_id(&m.macro_ident), vec!["mod".to_string(), "helper_macro".to_string()]);
        }
        other => panic!("unexpected {:?}", other),
    }
}

#[test]
fn macro_call_outside_allowlist_stays_expanded() {
    let cx = macro_ctx("other::helper_macro");
    let mut e = node(Ty::Int(IntTy::I32), TyShape::Other, sp(1, 8, 1, 30), HostExprKind::Unmodeled { debug: "expansion".to_string() });
    e.backtrace = vec![macro_expn("mod", "helper_macro", sp(1, 8, 1, 30))];
    let mut st = State::new();
    let r = lower_expr(&cx, &mut st, e).unwrap();
    assert!(matches!(&*r.contents, ExprKind::Todo(d) if d == "expansion"));
}

#[test]
fn unreadable_macro_argument_is_fatal() {
    let mut cx = macro_ctx("mod::helper_macro");
    cx.files = vec![];
    let mut e = node(Ty::Bool, TyShape::Other, sp(1, 8, 1, 30), HostExprKind::Unmodeled { debug: "e".to_string() });
    e.backtrace = vec![macro_expn("mod", "helper_macro", sp(1, 8, 1, 30))];
    let mut st = State::new();
    let r = lower_expr(&cx, &mut st, e);
    assert!(matches!(r, Err(f) if matches!(f.reason, FatalReason::MacroArgumentUnreadable(ReadSpanErr::WhileReading(_)))));
}

fn const_item(name: &str, backtrace: Vec<ExpnData>) -> HostItem {
    HostItem {
        name: name.to_string(),
        owner_id: def_id("k", &[name]),
        span: sp(1, 8, 1, 30),
        backtrace,
        vis_span: sp(1, 8, 1, 8),
        attributes: vec![],
        kind: HostItemKind::Const {
            ty: Ty::Bool,
            body: node(Ty::Bool, TyShape::Other, sp(1, 8, 1, 30), HostExprKind::Literal {
                lit: Spanned { node: LitKind::Bool(true), span: sp(1, 8, 1, 30) },
                neg: false,
            }),
        },
    }
}

#[test]
fn adjacent_items_from_one_call_fold_once() {
    let cx = macro_ctx("mod::helper_macro");
    let bt = || vec![macro_expn("mod", "helper_macro", sp(1, 8, 1, 30))];
    let items = vec![
        const_item("before", vec![]),
        const_item("a", bt()),
        const_item("b", bt()),
        const_item("c", bt()),
        const_item("after", vec![]),
    ];
    let mut st = State::new();
    let out = inline_macro_invocations(&cx, &mut st, items);
    assert_eq!(out.len(), 3);
    assert!(matches!(&out[0].kind, ItemKind::Const(..)));
    match &out[1].kind {
        ItemKind::MacroInvokation(m) => assert_eq!(m.argument, "1, 2, 3"),
        other => panic!("unexpected {:?}", other),
    }
    assert!(out[1].def_id.is_none());
    assert!(matches!(&out[2].kind, ItemKind::Const(..)));
}

#[test]
fn scope_marker_forwards_attributes_and_keeps_span() {
    let cx = ctx_with(no_options(), vec![]);
    let attr = Attribute {
        kind: AttrKind::DocComment(CommentKind::Line, "doc".to_string()),
        id: 5,
        style: AttrStyle::Outer,
        span: sp(1, 0, 1, 5),
    };
    let inner = node(Ty::Bool, TyShape::Other, sp(2, 0, 2, 4), HostExprKind::Unmodeled { debug: "u".to_string() });
    let outer = node(
        Ty::Bool,
        TyShape::Other,
        sp(2, 0, 2, 9),
        HostExprKind::Scope {
            region_scope: Scope { id: 1, data: ScopeData::Node },
            lint_level: hax_frontend_exporter::ast::LintLevel::Inherited,
            value: Box::new(node(Ty::Bool, TyShape::Other, sp(2, 0, 2, 8), HostExprKind::Scope {
                region_scope: Scope { id: 2, data: ScopeData::Destruction },
                lint_level: hax_frontend_exporter::ast::LintLevel::Inherited,
                value: Box::new(inner),
                hir_id: Some((4, 4)),
                attributes: vec![],
            })),
            hir_id: Some((3, 9)),
            attributes: vec![attr],
        },
    );
    let mut st = State::new();
    let r = lower_expr(&cx, &mut st, outer).unwrap();
    assert_eq!(r.hir_id, Some((3, 9)));
    assert_eq!(r.attributes.len(), 1);
    assert_eq!(dbg(&r.span), dbg(&sp(2, 0, 2, 4)));
    assert_eq!(dbg(&st.exported.spans), dbg(&vec![sp(2, 0, 2, 4)]));
}

#[test]
fn unbound_variable_is_fatal() {
    let cx = ctx_with(no_options(), vec![]);
    let mut st = State::new();
    let r = lower_expr(&cx, &mut st, var_ref(3, sp(1, 0, 1, 1)));
    assert!(matches!(r, Err(f) if matches!(f.reason, FatalReason::UnboundVariable)));
}

#[test]
fn field_of_non_adt_is_fatal() {
    let cx = ctx_with(no_options(), vec![]);
    let lhs = node(Ty::Bool, TyShape::Other, sp(1, 0, 1, 1), HostExprKind::Unmodeled { debug: "x".to_string() });
    let e = node(Ty::Bool, TyShape::Other, sp(1, 0, 1, 3), HostExprKind::Field { lhs: Box::new(lhs), variant_index: 0, name: 0 });
    let mut st = State::new();
    assert!(matches!(lower_expr(&cx, &mut st, e), Err(f) if matches!(f.reason, FatalReason::FieldOfNonAdt)));
}

#[test]
fn tuple_field_access_is_positional() {
    let cx = ctx_with(no_options(), vec![]);
    let lhs = node(Ty::Tuple(vec![]), TyShape::Tuple, sp(1, 0, 1, 1), HostExprKind::Unmodeled { debug: "t".to_string() });
    let e = node(Ty::Bool, TyShape::Other, sp(1, 0, 1, 3), HostExprKind::Field { lhs: Box::new(lhs), variant_index: 0, name: 1 });
    let mut st = State::new();
    let r = lower_expr(&cx, &mut st, e).unwrap();
    assert!(matches!(&*r.contents, ExprKind::TupleField { field: 1, .. }));
}

#[test]
fn call_of_function_item_names_it() {
    let cx = ctx_with(no_options(), vec![]);
    let callee = node(Ty::Bool, TyShape::Other, sp(1, 0, 1, 1), HostExprKind::ZstLiteral { user_ty: None });
    let e = node(Ty::Bool, TyShape::Other, sp(1, 0, 1, 3), HostExprKind::Call {
        ty: Ty::Bool,
        ty_shape: TyShape::FnDef { def: def_id("k", &["g"]) },
        fun: Box::new(callee),
        args: vec![var_ref(1, sp(1, 2, 1, 3))],
        from_hir_call: true,
        fn_span: sp(1, 0, 1, 3),
    });
    let mut st = State::new();
    st.bind(1, "y".to_string());
    let r = lower_expr(&cx, &mut st, e).unwrap();
    match &*r.contents {
        ExprKind::Call { fun, args, .. } => {
            assert!(matches!(&*fun.contents, ExprKind::GlobalName { id } if dbg(id) == dbg(&def_id("k", &["g"]))));
            assert!(matches!(&*args[0].contents, ExprKind::VarRef { id } if id.name == "y"));
        }
        other => panic!("unexpected {:?}", other),
    }
}

#[test]
fn call_through_non_function_is_fatal() {
    let cx = ctx_with(no_options(), vec![]);
    let callee = node(Ty::Bool, TyShape::Other, sp(1, 0, 1, 1), HostExprKind::Unmodeled { debug: "c".to_string() });
    let e = node(Ty::Bool, TyShape::Other, sp(1, 0, 1, 3), HostExprKind::Call {
        ty: Ty::Bool,
        ty_shape: TyShape::Other,
        fun: Box::new(callee),
        args: vec![],
        from_hir_call: true,
        fn_span: sp(1, 0, 1, 3),
    });
    let mut st = State::new();
    assert!(matches!(lower_expr(&cx, &mut st, e), Err(f) if matches!(f.reason, FatalReason::CallNotZstLiteral)));
}

#[test]
fn non_trivial_block_is_kept() {
    let cx = ctx_with(no_options(), vec![]);
    let e = node(Ty::Bool, TyShape::Other, sp(1, 0, 1, 9), HostExprKind::Block {
        block: HostBlock {
            targeted_by_break: true,
            region_scope: Scope { id: 1, data: ScopeData::Node },
            opt_destruction_scope: None,
            span: sp(1, 0, 1, 9),
            stmts: vec![],
            expr: Some(Box::new(node(Ty::Bool, TyShape::Other, sp(1, 2, 1, 3), HostExprKind::Unmodeled { debug: "v".to_string() }))),
            safety_mode: BlockSafety::Safe,
        },
    });
    let mut st = State::new();
    let r = lower_expr(&cx, &mut st, e).unwrap();
    assert!(matches!(&*r.contents, ExprKind::Block { block } if block.targeted_by_break && block.expr.is_some()));
}

#[test]
fn scalar_literals_decode_by_type() {
    assert!(matches!(scalar_int_to_literal(8, ScalarInt { data: 1, size: 1 }, &Ty::Bool), Ok(LitKind::Bool(true))));
    assert!(matches!(scalar_int_to_literal(8, ScalarInt { data: 0x41, size: 4 }, &Ty::Char), Ok(LitKind::Char('A'))));
    assert!(matches!(
        scalar_int_to_literal(8, ScalarInt { data: 0xff, size: 1 }, &Ty::Int(IntTy::I8)),
        Ok(LitKind::Int(0xff, LitIntType::Signed(IntTy::I8)))
    ));
    assert!(matches!(
        scalar_int_to_literal(8, ScalarInt { data: 7, size: 8 }, &Ty::Uint(UintTy::Usize)),
        Ok(LitKind::Int(7, LitIntType::Unsigned(UintTy::Usize)))
    ));
    assert!(matches!(scalar_int_to_literal(8, ScalarInt { data: 7, size: 4 }, &Ty::Uint(UintTy::U64)), Err(FatalReason::BadScalar)));
    assert!(matches!(scalar_int_to_literal(8, ScalarInt { data: 0xD800, size: 4 }, &Ty::Char), Err(FatalReason::BadScalar)));
    assert!(matches!(scalar_int_to_literal(8, ScalarInt { data: 2, size: 1 }, &Ty::Bool), Err(FatalReason::BadScalar)));
    assert!(matches!(scalar_int_to_literal(8, ScalarInt { data: 0, size: 1 }, &Ty::Str), Err(FatalReason::NotALiteral)));
}

#[test]
fn unevaluable_constants_degrade_to_placeholders() {
    let cx = ctx_with(no_options(), vec![]);
    let mut st = State::new();
    let p = HostPat {
        ty: Ty::Str,
        shape: TyShape::Other,
        span: sp(1, 0, 1, 1),
        kind: HostPatKind::Constant { ty: Ty::Str, value: HostConstant::Scalar { lit: ScalarInt { data: 1, size: 1 }, debug: "c".to_string() } },
    };
    let r = lower_pat(&cx, &mut st, p).unwrap();
    assert!(matches!(&*r.contents, PatKind::Constant { value } if matches!(&value.constant_kind, ConstantKind::Todo(d) if d == "c")));
    let q = HostPat {
        ty: Ty::Str,
        shape: TyShape::Other,
        span: sp(1, 0, 1, 1),
        kind: HostPatKind::Constant { ty: Ty::Uint(UintTy::U8), value: HostConstant::Scalar { lit: ScalarInt { data: 9, size: 1 }, debug: "d".to_string() } },
    };
    let r = lower_pat(&cx, &mut st, q).unwrap();
    assert!(matches!(&*r.contents, PatKind::Constant { value } if matches!(&value.constant_kind, ConstantKind::Lit(LitKind::Int(9, _)))));
}

#[test]
fn unwrap_borrow_takes_the_borrowed_expression() {
    let cx = ctx_with(no_options(), vec![]);
    let inner = node(Ty::Str, TyShape::Other, sp(1, 1, 1, 4), HostExprKind::Literal {
        lit: Spanned { node: LitKind::Str("s".to_string(), StrStyle::Cooked), span: sp(1, 1, 1, 4) },
        neg: false,
    });
    let e = node(Ty::Bool, TyShape::Other, sp(1, 0, 1, 4), HostExprKind::Borrow { borrow_kind: BorrowKind::Shared, arg: Box::new(inner) });
    let mut st = State::new();
    let r = lower_expr(&cx, &mut st, e).unwrap();
    let u = r.unwrap_borrow();
    assert!(matches!(&*u.contents, ExprKind::Literal { .. }));
    assert_eq!(dbg(&u.span), dbg(&sp(1, 1, 1, 4)));
    let again = u.unwrap_borrow();
    assert!(matches!(&*again.contents, ExprKind::Literal { .. }));
}

#[test]
fn unreadable_run_fails_alone() {
    let mut cx = macro_ctx("mod::helper_macro");
    cx.files = vec![];
    let bt = || vec![macro_expn("mod", "helper_macro", sp(1, 8, 1, 30))];
    let items = vec![const_item("a", bt()), const_item("b", bt()), const_item("after", vec![])];
    let mut st = State::new();
    let out = inline_macro_invocations(&cx, &mut st, items);
    assert_eq!(out.len(), 1);
    assert!(matches!(&out[0].kind, ItemKind::Const(..)));
    assert_eq!(st.fatals.len(), 1);
    assert!(matches!(st.fatals[0].reason, FatalReason::MacroArgumentUnreadable(_)));
    assert_eq!(dbg(&st.fatals[0].span), dbg(&sp(1, 8, 1, 30)));
}

#[test]
fn nested_binding_keeps_its_name() {
    let cx = ctx_with(no_options(), vec![]);
    let inner = binding("y", 2, sp(1, 2, 1, 3));
    let outer = HostPat {
        ty: Ty::Bool,
        shape: TyShape::Other,
        span: sp(1, 0, 1, 4),
        kind: HostPatKind::Deref { subpattern: Box::new(inner) },
    };
    let mut st = State::new();
    let p = lower_pat(&cx, &mut st, outer).unwrap();
    match &*p.contents {
        PatKind::Deref { subpattern } => {
            assert!(matches!(&*subpattern.contents, PatKind::Binding { var, .. } if var.name == "y"))
        }
        other => panic!("unexpected {:?}", other),
    }
    assert_eq!(st.locals.entries.len(), 1);
}
