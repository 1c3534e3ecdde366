//! From the syntax of an expression to the form that the analysis keeps.
use crate::expr_ir::{args_view, expr_view, lemma_args_view, ExprIr, ExprIrView};
use vstd::prelude::*;

verus! {

/// The parts of an expression that the syntax tree of a statement gives. A
/// part that is missing from an incomplete statement is `None`.
#[derive(Debug)]
pub enum SyntaxExpr {
    Literal(String),
    NameRef(String),
    /// A call: the text of what is called, and the arguments.
    Call {
        callee: Option<String>,
        args: Option<Vec<SyntaxExpr>>,
    },
    Binary {
        lhs: Option<Box<SyntaxExpr>>,
        op: Option<String>,
        rhs: Option<Box<SyntaxExpr>>,
    },
    Cast {
        expr: Option<Box<SyntaxExpr>>,
        ty: Option<String>,
    },
    Prefix(Option<Box<SyntaxExpr>>),
    Paren(Option<Box<SyntaxExpr>>),
    Case {
        expr: Option<Box<SyntaxExpr>>,
        when_clauses: Vec<WhenSyntax>,
        else_expr: Option<Box<SyntaxExpr>>,
    },
    Array(Vec<SyntaxExpr>),
    Between {
        target: Option<Box<SyntaxExpr>>,
        start: Option<Box<SyntaxExpr>>,
        end: Option<Box<SyntaxExpr>>,
    },
    Index {
        base: Option<Box<SyntaxExpr>>,
        index: Option<Box<SyntaxExpr>>,
    },
    Slice {
        base: Option<Box<SyntaxExpr>>,
        start: Option<Box<SyntaxExpr>>,
        end: Option<Box<SyntaxExpr>>,
    },
    Field {
        base: Option<Box<SyntaxExpr>>,
        field: Option<String>,
    },
    /// A postfix operator on the expressions before it.
    Postfix(Vec<SyntaxExpr>),
    Other,
}

/// One `WHEN .. THEN ..`.
#[derive(Debug)]
pub struct WhenSyntax {
    pub condition: Option<Box<SyntaxExpr>>,
    pub result: Option<Box<SyntaxExpr>>,
}

pub open spec fn text_or(text: Option<String>, missing: Seq<char>) -> Seq<char> {
    match text {
        Some(t) => t@,
        None => missing,
    }
}

pub open spec fn field_view(field: Option<String>) -> ExprIrView {
    match field {
        Some(name) => ExprIrView::Literal(name@),
        None => ExprIrView::Omitted,
    }
}

/// A form of expression as a call of a function that stands for it.
pub open spec fn form(name: Seq<char>, args: Seq<ExprIrView>) -> ExprIrView {
    ExprIrView::FunctionCall { name, args }
}

/// What an expression is kept as.
pub open spec fn converted(e: SyntaxExpr) -> ExprIrView
    decreases e, 0nat,
{
    match e {
        SyntaxExpr::Literal(text) => ExprIrView::Literal(text@),
        SyntaxExpr::NameRef(name) => ExprIrView::ColumnRef(name@),
        SyntaxExpr::Call { callee, args } => form(
            text_or(callee, "<fn>"@),
            match args {
                Some(args) => converted_all(args, args.len() as nat),
                None => Seq::empty(),
            },
        ),
        SyntaxExpr::Binary { lhs, op, rhs } => ExprIrView::BinaryOp {
            left: Box::new(converted_or(lhs, ExprIrView::Literal("<lhs>"@))),
            op: text_or(op, "<op>"@),
            right: Box::new(converted_or(rhs, ExprIrView::Literal("<rhs>"@))),
        },
        SyntaxExpr::Cast { expr, ty } => ExprIrView::Cast {
            expr: Box::new(converted_or(expr, ExprIrView::Literal("<cast_inner>"@))),
            target_type: text_or(ty, "<type>"@),
        },
        SyntaxExpr::Prefix(inner) => converted_or(inner, ExprIrView::Literal("<prefix>"@)),
        SyntaxExpr::Paren(inner) => converted_or(inner, ExprIrView::Literal("<paren>"@)),
        SyntaxExpr::Case { expr, when_clauses, else_expr } => form(
            "<case>"@,
            seq![converted_or(expr, ExprIrView::Omitted)] + converted_whens(when_clauses, when_clauses.len() as nat) + seq![
                converted_or(else_expr, ExprIrView::Omitted),
            ],
        ),
        SyntaxExpr::Array(elements) => form("<array>"@, converted_all(elements, elements.len() as nat)),
        SyntaxExpr::Between { target, start, end } => form(
            "<between>"@,
            seq![converted_or(target, ExprIrView::Omitted), converted_or(start, ExprIrView::Omitted), converted_or(end, ExprIrView::Omitted)],
        ),
        SyntaxExpr::Index { base, index } => form(
            "<index>"@,
            seq![converted_or(base, ExprIrView::Omitted), converted_or(index, ExprIrView::Omitted)],
        ),
        SyntaxExpr::Slice { base, start, end } => form(
            "<slice>"@,
            seq![converted_or(base, ExprIrView::Omitted), converted_or(start, ExprIrView::Omitted), converted_or(end, ExprIrView::Omitted)],
        ),
        SyntaxExpr::Field { base, field } => form(
            "<field>"@,
            seq![
                converted_or(base, ExprIrView::Omitted),
                field_view(field),
            ],
        ),
        SyntaxExpr::Postfix(operands) => form("<postfix>"@, converted_all(operands, operands.len() as nat)),
        SyntaxExpr::Other => ExprIrView::Literal("<complex>"@),
    }
}

/// What a part is kept as, or what stands for it where it is missing.
pub open spec fn converted_or(part: Option<Box<SyntaxExpr>>, missing: ExprIrView) -> ExprIrView
    decreases part, 0nat,
{
    match part {
        Some(e) => converted(*e),
        None => missing,
    }
}

/// What the first `n` expressions are kept as.
pub open spec fn converted_all(list: Vec<SyntaxExpr>, n: nat) -> Seq<ExprIrView>
    decreases list, n,
{
    if n == 0 || n > list.len() {
        Seq::empty()
    } else {
        converted_all(list, (n - 1) as nat).push(converted(list@[n - 1]))
    }
}

/// What the first `n` clauses are kept as: a condition and a result each.
pub open spec fn converted_whens(list: Vec<WhenSyntax>, n: nat) -> Seq<ExprIrView>
    decreases list, n,
{
    if n == 0 || n > list.len() {
        Seq::empty()
    } else {
        converted_whens(list, (n - 1) as nat).push(converted_or(list@[n - 1].condition, ExprIrView::Omitted)).push(
            converted_or(list@[n - 1].result, ExprIrView::Omitted),
        )
    }
}

/// Every clause of a `CASE` keeps its place: the operand, then a condition and
/// a result for each clause, then the default.
pub proof fn law_case_keeps_positions(expr: Option<Box<SyntaxExpr>>, when_clauses: Vec<WhenSyntax>, else_expr: Option<Box<SyntaxExpr>>)
    ensures
        ({
            let e = converted(SyntaxExpr::Case { expr, when_clauses, else_expr });
            e->args.len() == 2 * when_clauses.len() + 2
        }),
{
    lemma_whens_len(when_clauses, when_clauses.len() as nat);
}

proof fn lemma_whens_len(list: Vec<WhenSyntax>, n: nat)
    requires
        n <= list.len(),
    ensures
        converted_whens(list, n).len() == 2 * n,
    decreases n,
{
    if n > 0 {
        lemma_whens_len(list, (n - 1) as nat);
    }
}

proof fn lemma_args_are(v: Vec<ExprIr>, s: Seq<ExprIrView>)
    requires
        v.len() == s.len(),
        forall|i: int| 0 <= i < s.len() ==> expr_view(#[trigger] v@[i]) == s[i],
    ensures
        args_view(v, v.len() as nat) == s,
{
    lemma_args_view(v, v.len() as nat);
    let w = args_view(v, v.len() as nat);
    assert forall|i: int| 0 <= i < s.len() implies w[i] == s[i] by {
        assert(expr_view(v@[i]) == s[i]);
    }
    assert(w =~= s);
}

fn owned_or(text: &Option<String>, missing: &str) -> (r: String)
    ensures
        r@ == text_or(*text, missing@),
{
    match text {
        Some(t) => t.clone(),
        None => missing.to_owned(),
    }
}

fn call(name: String, args: Vec<ExprIr>, Ghost(s): Ghost<Seq<ExprIrView>>) -> (r: ExprIr)
    requires
        args.len() == s.len(),
        forall|i: int| 0 <= i < s.len() ==> expr_view(#[trigger] args@[i]) == s[i],
    ensures
        expr_view(r) == form(name@, s),
{
    proof {
        lemma_args_are(args, s);
    }
    ExprIr::FunctionCall { name, args }
}

fn convert_expr(e: &SyntaxExpr) -> (r: ExprIr)
    ensures
        expr_view(r) == converted(*e),
    decreases *e, 0nat,
{
    match e {
        SyntaxExpr::Literal(text) => ExprIr::Literal(text.clone()),
        SyntaxExpr::NameRef(name) => ExprIr::ColumnRef(name.clone()),
        SyntaxExpr::Call { callee, args } => {
            let name = owned_or(callee, "<fn>");
            match args {
                Some(args) => {
                    let list = convert_all(args);
                    call(name, list, Ghost(converted_all(*args, args.len() as nat)))
                },
                None => {
                    let list: Vec<ExprIr> = Vec::new();
                    call(name, list, Ghost(Seq::empty()))
                },
            }
        },
        SyntaxExpr::Binary { lhs, op, rhs } => ExprIr::BinaryOp {
            left: Box::new(convert_or(lhs, ExprIr::Literal("<lhs>".to_owned()))),
            op: owned_or(op, "<op>"),
            right: Box::new(convert_or(rhs, ExprIr::Literal("<rhs>".to_owned()))),
        },
        SyntaxExpr::Cast { expr, ty } => ExprIr::Cast {
            expr: Box::new(convert_or(expr, ExprIr::Literal("<cast_inner>".to_owned()))),
            target_type: owned_or(ty, "<type>"),
        },
        SyntaxExpr::Prefix(inner) => convert_or(inner, ExprIr::Literal("<prefix>".to_owned())),
        SyntaxExpr::Paren(inner) => convert_or(inner, ExprIr::Literal("<paren>".to_owned())),
        SyntaxExpr::Case { expr, when_clauses, else_expr } => {
            let mut list: Vec<ExprIr> = Vec::new();
            list.push(convert_or(expr, ExprIr::Omitted));
            convert_whens(&mut list, when_clauses);
            list.push(convert_or(else_expr, ExprIr::Omitted));
            let ghost parts = seq![converted_or(*expr, ExprIrView::Omitted)] + converted_whens(*when_clauses, when_clauses.len() as nat) + seq![
                        converted_or(*else_expr, ExprIrView::Omitted),
                    ];
            call("<case>".to_owned(), list, Ghost(parts))
        },
        SyntaxExpr::Array(elements) => {
            let list = convert_all(elements);
            call("<array>".to_owned(), list, Ghost(converted_all(*elements, elements.len() as nat)))
        },
        SyntaxExpr::Between { target, start, end } => {
            let list = vec![convert_or(target, ExprIr::Omitted), convert_or(start, ExprIr::Omitted), convert_or(end, ExprIr::Omitted)];
            let ghost parts = seq![converted_or(*target, ExprIrView::Omitted), converted_or(*start, ExprIrView::Omitted), converted_or(*end, ExprIrView::Omitted)];
            call("<between>".to_owned(), list, Ghost(parts))
        },
        SyntaxExpr::Index { base, index } => {
            let list = vec![convert_or(base, ExprIr::Omitted), convert_or(index, ExprIr::Omitted)];
            let ghost parts = seq![converted_or(*base, ExprIrView::Omitted), converted_or(*index, ExprIrView::Omitted)];
            call("<index>".to_owned(), list, Ghost(parts))
        },
        SyntaxExpr::Slice { base, start, end } => {
            let list = vec![convert_or(base, ExprIr::Omitted), convert_or(start, ExprIr::Omitted), convert_or(end, ExprIr::Omitted)];
            let ghost parts = seq![converted_or(*base, ExprIrView::Omitted), converted_or(*start, ExprIrView::Omitted), converted_or(*end, ExprIrView::Omitted)];
            call("<slice>".to_owned(), list, Ghost(parts))
        },
        SyntaxExpr::Field { base, field } => {
            let name = match field {
                Some(name) => ExprIr::Literal(name.clone()),
                None => ExprIr::Omitted,
            };
            assert(expr_view(name) == field_view(*field));
            let list = vec![convert_or(base, ExprIr::Omitted), name];
            let ghost parts = seq![converted_or(*base, ExprIrView::Omitted), field_view(*field)];
            call("<field>".to_owned(), list, Ghost(parts))
        },
        SyntaxExpr::Postfix(operands) => {
            let list = convert_all(operands);
            call("<postfix>".to_owned(), list, Ghost(converted_all(*operands, operands.len() as nat)))
        },
        SyntaxExpr::Other => ExprIr::Literal("<complex>".to_owned()),
    }
}

fn convert_or(part: &Option<Box<SyntaxExpr>>, missing: ExprIr) -> (r: ExprIr)
    ensures
        expr_view(r) == converted_or(*part, expr_view(missing)),
    decreases *part, 0nat,
{
    match part {
        Some(e) => convert_expr(e),
        None => missing,
    }
}

fn convert_all(list: &Vec<SyntaxExpr>) -> (r: Vec<ExprIr>)
    ensures
        r.len() == converted_all(*list, list.len() as nat).len(),
        forall|i: int| 0 <= i < r.len() ==> expr_view(#[trigger] r@[i]) == converted_all(*list, list.len() as nat)[i],
    decreases *list, 0nat,
{
    let mut out: Vec<ExprIr> = Vec::new();
    let mut i: usize = 0;
    while i < list.len()
        invariant
            i <= list.len(),
            out.len() == converted_all(*list, i as nat).len(),
            forall|j: int| 0 <= j < out.len() ==> expr_view(#[trigger] out@[j]) == converted_all(*list, i as nat)[j],
        decreases list.len() - i,
    {
        proof {
            assert(decreases_to!(*list => list@));
            assert(decreases_to!(list@ => list@[i as int]));
        }
        out.push(convert_expr(&list[i]));
        i = i + 1;
    }
    out
}

fn convert_whens(out: &mut Vec<ExprIr>, list: &Vec<WhenSyntax>)
    ensures
        final(out).len() == old(out).len() + converted_whens(*list, list.len() as nat).len(),
        forall|i: int| 0 <= i < old(out).len() ==> #[trigger] final(out)@[i] == old(out)@[i],
        forall|i: int|
            old(out).len() <= i < final(out).len() ==> expr_view(#[trigger] final(out)@[i]) == converted_whens(*list, list.len() as nat)[i - old(out).len()],
    decreases *list, 0nat,
{
    let ghost n = out.len();
    let ghost before = out@;
    let mut i: usize = 0;
    while i < list.len()
        invariant
            i <= list.len(),
            before == old(out)@,
            n == before.len(),
            out.len() == n + converted_whens(*list, i as nat).len(),
            forall|j: int| 0 <= j < n ==> #[trigger] out@[j] == before[j],
            forall|j: int| n <= j < out.len() ==> expr_view(#[trigger] out@[j]) == converted_whens(*list, i as nat)[j - n],
        decreases list.len() - i,
    {
        proof {
            assert(decreases_to!(*list => list@));
            assert(decreases_to!(list@ => list@[i as int]));
            assert(decreases_to!(list@[i as int] => list@[i as int].condition));
            assert(decreases_to!(list@[i as int] => list@[i as int].result));
        }
        out.push(convert_or(&list[i].condition, ExprIr::Omitted));
        out.push(convert_or(&list[i].result, ExprIr::Omitted));
        i = i + 1;
    }
}

/// Converts expressions.
pub struct ExprVisitor;

impl ExprVisitor {
    /// The form in which the analysis keeps an expression.
    pub fn convert(expr: &SyntaxExpr) -> (r: ExprIr)
        ensures
            r@ == converted(*expr),
    {
        convert_expr(expr)
    }
}

} // verus!
