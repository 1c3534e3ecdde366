use safe_migrate::expr_ir::ExprIr;
use safe_migrate::expr_visitor::{ExprVisitor, SyntaxExpr, WhenSyntax};

fn name(text: &str) -> Option<Box<SyntaxExpr>> {
    Some(Box::new(SyntaxExpr::NameRef(text.to_string())))
}

fn call(name: &str, args: Vec<ExprIr>) -> ExprIr {
    ExprIr::FunctionCall { name: name.to_string(), args }
}

fn column(text: &str) -> ExprIr {
    ExprIr::ColumnRef(text.to_string())
}

fn literal(text: &str) -> ExprIr {
    ExprIr::Literal(text.to_string())
}

#[test]
fn open_slice_keeps_its_positions() {
    let slice = SyntaxExpr::Slice { base: name("arr"), start: Some(Box::new(SyntaxExpr::Literal("2".to_string()))), end: None };
    assert_eq!(ExprVisitor::convert(&slice), call("<slice>", vec![column("arr"), literal("2"), ExprIr::Omitted]));
}

#[test]
fn case_keeps_base_branches_and_default_in_place() {
    let case = SyntaxExpr::Case {
        expr: None,
        when_clauses: vec![WhenSyntax { condition: name("a"), result: name("b") }, WhenSyntax { condition: name("c"), result: None }],
        else_expr: name("d"),
    };
    assert_eq!(
        ExprVisitor::convert(&case),
        call("<case>", vec![ExprIr::Omitted, column("a"), column("b"), column("c"), ExprIr::Omitted, column("d")])
    );
}

#[test]
fn missing_parts_of_an_operator_are_shown() {
    let binary = SyntaxExpr::Binary { lhs: name("a"), op: None, rhs: None };
    assert_eq!(
        ExprVisitor::convert(&binary),
        ExprIr::BinaryOp { left: Box::new(column("a")), op: "<op>".to_string(), right: Box::new(literal("<rhs>")) }
    );
    assert_eq!(ExprVisitor::convert(&SyntaxExpr::Other), literal("<complex>"));
    assert_eq!(ExprVisitor::convert(&SyntaxExpr::Paren(None)), literal("<paren>"));
    assert_eq!(ExprVisitor::convert(&SyntaxExpr::Prefix(name("a"))), column("a"));
    assert_eq!(
        ExprVisitor::convert(&SyntaxExpr::Cast { expr: None, ty: None }),
        ExprIr::Cast { expr: Box::new(literal("<cast_inner>")), target_type: "<type>".to_string() }
    );
    assert_eq!(ExprVisitor::convert(&SyntaxExpr::Call { callee: None, args: None }), call("<fn>", Vec::new()));
}

#[test]
fn field_and_array_forms() {
    let field = SyntaxExpr::Field { base: name("t"), field: Some("c".to_string()) };
    assert_eq!(ExprVisitor::convert(&field), call("<field>", vec![column("t"), literal("c")]));
    let array = SyntaxExpr::Array(vec![SyntaxExpr::Literal("1".to_string()), SyntaxExpr::NameRef("b".to_string())]);
    assert_eq!(ExprVisitor::convert(&array), call("<array>", vec![literal("1"), column("b")]));
}

#[test]
fn volatile_calls_are_found_in_any_case_and_at_any_depth() {
    assert!(call("NOW", Vec::new()).is_volatile());
    assert!(call("<case>", vec![ExprIr::Omitted, call("Random", Vec::new())]).is_volatile());
    assert!(ExprIr::Cast { expr: Box::new(call("nextval", Vec::new())), target_type: "int".to_string() }.is_volatile());
    let sum = ExprIr::BinaryOp { left: Box::new(literal("1")), op: "+".to_string(), right: Box::new(call("random", Vec::new())) };
    assert!(sum.is_volatile());
    assert!(!call("lower", vec![call("now", Vec::new())]).is_volatile());
    assert!(!column("now").is_volatile());
    assert!(!ExprIr::Omitted.is_volatile());
}
