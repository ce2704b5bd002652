use nickel_pretty::ast::{
    BinaryOp, Destruct, Match, MergePriority, MetaValue, Number, RecordAttrs, StrChunk, Term,
    Types, UnaryOp,
};
use nickel_pretty::printer::{print_term, print_types, PrettyError};

fn num(m: i64) -> Term {
    Term::Num(Number { mantissa: m, scale: 0 })
}

fn var(s: &str) -> Term {
    Term::Var(s.to_string())
}

fn bx<T>(t: T) -> Box<T> {
    Box::new(t)
}

fn record(fields: Vec<(&str, Term)>) -> Term {
    Term::Record(
        fields.into_iter().map(|(k, v)| (k.to_string(), v)).collect(),
        RecordAttrs { open: false },
    )
}

fn show(t: &Term, width: usize) -> String {
    print_term(t, width).unwrap()
}

fn show_ty(ty: &Types) -> String {
    print_types(ty, 80).unwrap()
}

#[test]
fn same_input_prints_same_text() {
    let t = record(vec![("b", num(1)), ("a", bx_fun())]);
    assert_eq!(show(&t, 80), show(&t, 80));
    assert_eq!(show(&t, 5), show(&t, 5));
}

fn bx_fun() -> Term {
    Term::Fun("x".to_string(), bx(var("x")))
}

#[test]
fn record_fields_in_name_order() {
    let t = record(vec![("b", num(1)), ("a", num(2))]);
    let out = show(&t, 80);
    assert_eq!(out, "{ a = 2, b = 1, }");
    assert!(out.find('a').unwrap() < out.find('b').unwrap());
}

#[test]
fn narrow_record_breaks_per_field() {
    let t = record(vec![("a", num(1)), ("b", num(2))]);
    assert_eq!(show(&t, 80), "{ a = 1, b = 2, }");
    assert_eq!(show(&t, 10), "{\n  a = 1,\n  b = 2,\n}");
    assert_eq!(show(&t, 5), "{\n  a =\n    1,\n  b =\n    2,\n}");
}

#[test]
fn open_record_ends_with_ellipsis() {
    let t = Term::Record(vec![("a".to_string(), num(1))], RecordAttrs { open: true });
    assert_eq!(show(&t, 80), "{ a = 1, .. }");
}

#[test]
fn string_escapes_backslash_quote_and_marker() {
    let t = Term::Str(r#"a\b"c%{d"#.to_string());
    assert_eq!(show(&t, 80), r#""a\\b\"c\%{d""#);
}

#[test]
fn interpolated_string_uses_marker_delimiters() {
    let t = Term::StrChunks(vec![
        StrChunk::Literal("b".to_string()),
        StrChunk::Expr(bx(var("x")), 0),
        StrChunk::Literal("a ".to_string()),
    ]);
    assert_eq!(show(&t, 80), r#"m%"a %{x}b"%m"#);
}

#[test]
fn interpolated_string_widens_marker_past_literal_runs() {
    let t = Term::StrChunks(vec![
        StrChunk::Expr(bx(var("x")), 0),
        StrChunk::Literal("50%{".to_string()),
    ]);
    assert_eq!(show(&t, 80), r#"m%%"50%{%%{x}"%%m"#);
}

#[test]
fn arrow_domain_is_parenthesized() {
    let left = Types::Arrow(bx(Types::Arrow(bx(Types::Num), bx(Types::Num))), bx(Types::Str));
    assert_eq!(show_ty(&left), "(Num -> Num) -> Str");
    let right = Types::Arrow(bx(Types::Num), bx(Types::Arrow(bx(Types::Num), bx(Types::Str))));
    assert_eq!(show_ty(&right), "Num -> Num -> Str");
}

#[test]
fn nested_foralls_coalesce() {
    let body = Types::Arrow(bx(Types::Var("a".to_string())), bx(Types::Var("b".to_string())));
    let ty = Types::Forall("a".to_string(), bx(Types::Forall("b".to_string(), bx(body))));
    assert_eq!(show_ty(&ty), "forall a b. a -> b");
}

#[test]
fn subtraction_from_zero_prints_as_negation() {
    let t = Term::Op2(BinaryOp::Sub, bx(num(0)), bx(var("x")));
    assert_eq!(show(&t, 80), "-x");
    let t = Term::Op2(BinaryOp::Sub, bx(num(1)), bx(var("x")));
    assert_eq!(show(&t, 80), "1 - x");
}

#[test]
fn curried_function_has_one_header() {
    let t = Term::Fun("x".to_string(), bx(Term::Fun("y".to_string(), bx(var("x")))));
    assert_eq!(show(&t, 80), "fun x y => x");
}

#[test]
fn let_binding_on_one_line() {
    let t = Term::Let("x".to_string(), bx(num(1)), bx(var("x")));
    assert_eq!(show(&t, 80), "let x = 1 in x");
}

#[test]
fn conditional_is_resugared() {
    let cond = Term::Op1(UnaryOp::Ite, bx(Term::Bool(true)));
    let t = Term::App(bx(Term::App(bx(cond), bx(num(1)))), bx(num(2)));
    assert_eq!(show(&t, 80), "if true then 1 else 2");
}

#[test]
fn application_wraps_compound_argument() {
    let t = Term::App(bx(var("f")), bx(Term::App(bx(var("g")), bx(var("x")))));
    assert_eq!(show(&t, 80), "f (g x)");
}

#[test]
fn array_items_separated_by_commas() {
    let t = Term::Array(vec![num(1), num(2)]);
    assert_eq!(show(&t, 80), "[ 1, 2 ]");
}

#[test]
fn switch_branches_sorted_with_default_last() {
    let t = Term::Switch(
        bx(var("x")),
        vec![("b".to_string(), num(2)), ("a".to_string(), num(1))],
        bx(num(0)),
    );
    assert_eq!(show(&t, 80), "switch {`a => 1, `b => 2, _ => 0} x");
}

#[test]
fn binary_operator_with_operands() {
    let t = Term::Op2(BinaryOp::Plus, bx(num(1)), bx(Term::Op2(BinaryOp::Mult, bx(num(2)), bx(num(3)))));
    assert_eq!(show(&t, 80), "1 + (2 * 3)");
}

#[test]
fn dynamic_access_puts_container_first() {
    let t = Term::Op2(BinaryOp::DynAccess, bx(var("f")), bx(var("r")));
    assert_eq!(show(&t, 80), "r.f");
}

#[test]
fn static_access_is_postfix() {
    let t = Term::Op1(UnaryOp::StaticAccess("f".to_string()), bx(var("r")));
    assert_eq!(show(&t, 80), "r.f");
}

#[test]
fn decimal_numbers_print_with_point() {
    let t = Term::Num(Number { mantissa: -15, scale: 1 });
    assert_eq!(show(&t, 80), "-1.5");
    let t = Term::Num(Number { mantissa: 5, scale: 3 });
    assert_eq!(show(&t, 80), "0.005");
}

#[test]
fn array_type_parenthesizes_compound_element() {
    let ty = Types::Array(bx(Types::Arrow(bx(Types::Num), bx(Types::Num))));
    assert_eq!(show_ty(&ty), "Array (Num -> Num)");
    assert_eq!(show_ty(&Types::Array(bx(Types::Num))), "Array Num");
}

#[test]
fn row_separators_follow_the_tail() {
    let closed = Types::StaticRecord(bx(Types::RowExtend(
        "a".to_string(),
        Some(bx(Types::Num)),
        bx(Types::RowExtend("b".to_string(), Some(bx(Types::Str)), bx(Types::RowEmpty))),
    )));
    assert_eq!(show_ty(&closed), "{{a: Num, b: Str}}");
    let open = Types::RowExtend("a".to_string(), Some(bx(Types::Num)), bx(Types::Var("r".to_string())));
    assert_eq!(show_ty(&open), "a: Num ; r");
    let dynamic = Types::RowExtend("a".to_string(), Some(bx(Types::Num)), bx(Types::Dyn));
    assert_eq!(show_ty(&dynamic), "a: Num ; Dyn");
    let tags = Types::Enum(bx(Types::RowExtend(
        "foo".to_string(),
        None,
        bx(Types::RowExtend("bar".to_string(), None, bx(Types::RowEmpty))),
    )));
    assert_eq!(show_ty(&tags), "[|foo, bar|]");
}

#[test]
fn annotated_value_prints_its_contract() {
    let mv = MetaValue {
        doc: None,
        types: None,
        contracts: vec![Types::Num],
        priority: MergePriority::Normal,
        value: Some(bx(num(1))),
    };
    assert_eq!(show(&Term::MetaValue(mv), 80), "1 | Num");
}

#[test]
fn special_unary_operator_is_unsupported() {
    let t = Term::Op1(UnaryOp::ChunksConcat, bx(var("x")));
    match print_term(&t, 80) {
        Err(PrettyError::UnsupportedConstruct(name)) => assert_eq!(name, "%chunksconcat%"),
        Ok(_) => panic!("printed an operator without syntax"),
        Err(other) => panic!("unexpected error {:?}", other),
    }
}

#[test]
fn nested_pattern_is_unsupported() {
    let meta = MetaValue {
        doc: None,
        types: None,
        contracts: vec![],
        priority: MergePriority::Normal,
        value: None,
    };
    let inner = MetaValue { doc: None, types: None, contracts: vec![], priority: MergePriority::Normal, value: None };
    let dst = Destruct::Record {
        matches: vec![Match::Assign("a".to_string(), meta, None, bx(Destruct::Record { matches: vec![Match::Simple("b".to_string(), inner)], open: false, rest: None }))],
        open: false,
        rest: None,
    };
    let t = Term::FunPattern(None, dst, bx(var("a")));
    assert!(matches!(print_term(&t, 80), Err(PrettyError::UnsupportedConstruct(_))));
}

#[test]
fn unsupported_construct_deep_inside_is_reported() {
    let bad = Term::Op1(UnaryOp::ChunksConcat, bx(var("x")));
    let t = record(vec![("a", num(1)), ("b", Term::Array(vec![bad]))]);
    assert!(print_term(&t, 80).is_err());
}

#[test]
fn recursive_record_lists_computed_names_last() {
    let t = Term::RecRecord(
        vec![("b".to_string(), num(1))],
        vec![(Term::Str("x".to_string()), num(2))],
        RecordAttrs { open: false },
    );
    assert_eq!(show(&t, 80), r#"{ b = 1, "x" = 2, }"#);
}

#[test]
fn import_prints_quoted_path() {
    let t = Term::Import("lib.ncl".to_string());
    assert_eq!(show(&t, 80), r#"import "lib.ncl""#);
}

#[test]
fn internal_symbol_prints_as_comment() {
    assert_eq!(show(&Term::Sym(3), 80), "# <symbol: 3>\n");
}

#[test]
fn pattern_function_names_its_pattern() {
    let meta = MetaValue {
        doc: None,
        types: None,
        contracts: vec![],
        priority: MergePriority::Normal,
        value: None,
    };
    let dst = Destruct::Record { matches: vec![Match::Simple("a".to_string(), meta)], open: false, rest: None };
    let t = Term::FunPattern(Some("x".to_string()), dst, bx(var("a")));
    assert_eq!(show(&t, 80), "fun x @ {a } => a");
}

fn no_meta() -> MetaValue {
    MetaValue { doc: None, types: None, contracts: vec![], priority: MergePriority::Normal, value: None }
}

#[test]
fn open_pattern_keeps_its_ellipsis() {
    let dst = Destruct::Record { matches: vec![Match::Simple("a".to_string(), no_meta())], open: true, rest: None };
    let t = Term::FunPattern(None, dst, bx(var("a")));
    assert_eq!(show(&t, 80), "fun {a , ..} => a");
    let empty = Destruct::Record { matches: vec![], open: true, rest: None };
    let t = Term::FunPattern(None, empty, bx(var("a")));
    assert_eq!(show(&t, 80), "fun {..} => a");
}

#[test]
fn pattern_rest_binder_is_printed() {
    let dst = Destruct::Record { matches: vec![Match::Simple("a".to_string(), no_meta())], open: true, rest: Some("others".to_string()) };
    let t = Term::FunPattern(None, dst, bx(var("a")));
    assert_eq!(show(&t, 80), "fun {a , ..others} => a");
}

#[test]
fn switch_without_branches_has_default_only() {
    let t = Term::Switch(bx(var("x")), vec![], bx(num(0)));
    assert_eq!(show(&t, 80), "switch { _ => 0} x");
}

fn negations(depth: usize) -> Term {
    let mut t = var("x");
    for _ in 0..depth {
        t = Term::Op1(UnaryOp::BoolNot, bx(t));
    }
    t
}

#[test]
fn too_deep_term_is_refused() {
    assert!(matches!(print_term(&negations(200), 80), Err(PrettyError::TooDeep)));
}

#[test]
fn moderately_deep_term_prints() {
    assert!(print_term(&negations(100), 80).is_ok());
    assert_eq!(show(&negations(2), 80), "!(!x)");
}

#[test]
fn too_deep_type_is_refused() {
    let mut ty = Types::Num;
    for _ in 0..200 {
        ty = Types::Array(bx(ty));
    }
    assert!(matches!(print_types(&ty, 80), Err(PrettyError::TooDeep)));
}
