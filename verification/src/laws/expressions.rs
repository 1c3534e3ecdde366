//! Expressions: what is kept of them, and which of them are volatile.
use crate::expr_ir::{some_volatile, volatile, ExprIrView};
use crate::expr_visitor::{converted, converted_all, converted_or, converted_whens, SyntaxExpr, WhenSyntax};
use crate::text::lowercase_of;
use vstd::prelude::*;

verus! {

proof fn lemma_all(list: Vec<SyntaxExpr>, n: nat, i: int)
    requires
        n <= list.len(),
    ensures
        converted_all(list, n).len() == n,
        0 <= i < n ==> converted_all(list, n)[i] == converted(list@[i]),
    decreases n,
{
    if n > 0 {
        lemma_all(list, (n - 1) as nat, i);
    }
}

proof fn lemma_whens(list: Vec<WhenSyntax>, n: nat, i: int)
    requires
        n <= list.len(),
    ensures
        converted_whens(list, n).len() == 2 * n,
        0 <= i < n ==> is_kept_as(list@[i].condition, converted_whens(list, n)[2 * i]) && is_kept_as(list@[i].result, converted_whens(list, n)[2 * i + 1]),
    decreases n,
{
    if n > 0 {
        lemma_whens(list, (n - 1) as nat, i);
        let last = list@[n - 1];
        let before = converted_whens(list, (n - 1) as nat);
        let after = converted_whens(list, n);
        assert(after == before.push(converted_or(last.condition, ExprIrView::Omitted)).push(converted_or(last.result, ExprIrView::Omitted)));
        assert(is_kept_as(last.condition, converted_or(last.condition, ExprIrView::Omitted)));
        assert(is_kept_as(last.result, converted_or(last.result, ExprIrView::Omitted)));
        if 0 <= i < n - 1 {
            assert(after[2 * i] == before[2 * i]);
            assert(after[2 * i + 1] == before[2 * i + 1]);
        } else if i == n - 1 {
            assert(after[2 * i] == converted_or(last.condition, ExprIrView::Omitted));
            assert(after[2 * i + 1] == converted_or(last.result, ExprIrView::Omitted));
        }
    }
}

/// Whether a part of an expression is kept as what it is, or as missing.
pub open spec fn is_kept_as(part: Option<Box<SyntaxExpr>>, kept: ExprIrView) -> bool {
    match part {
        Some(e) => kept == converted(*e),
        None => kept is Omitted,
    }
}

/// A call keeps its name and its arguments in their places; so do an array and a
/// postfix operator.
pub proof fn law_arguments_keep_their_places(e: SyntaxExpr, i: int)
    ensures
        match e {
            SyntaxExpr::Call { callee, args } => {
                &&& converted(e) is FunctionCall
                &&& callee is Some ==> converted(e)->name == callee->0@
                &&& args is Some ==> converted(e)->args.len() == args->0@.len()
                &&& args is None ==> converted(e)->args.len() == 0
                &&& args is Some && 0 <= i < args->0@.len() ==> converted(e)->args[i] == converted(args->0@[i])
            },
            SyntaxExpr::Array(list) => converted(e) is FunctionCall && converted(e)->name == "<array>"@ && converted(e)->args.len() == list@.len() && (0
                <= i < list@.len() ==> converted(e)->args[i] == converted(list@[i])),
            SyntaxExpr::Postfix(list) => converted(e) is FunctionCall && converted(e)->name == "<postfix>"@ && converted(e)->args.len() == list@.len() && (0
                <= i < list@.len() ==> converted(e)->args[i] == converted(list@[i])),
            _ => true,
        },
{
    match e {
        SyntaxExpr::Call { callee, args } => {
            if args is Some {
                lemma_all(args->0, args->0.len() as nat, i);
            }
        },
        SyntaxExpr::Array(list) => {
            lemma_all(list, list.len() as nat, i);
        },
        SyntaxExpr::Postfix(list) => {
            lemma_all(list, list.len() as nat, i);
        },
        _ => {},
    }
}

/// Operands keep their sides, and bounds, indexes and clauses their places. A
/// part that is missing is marked as missing where the place of others counts.
pub proof fn law_parts_keep_their_places(e: SyntaxExpr, i: int)
    ensures
        match e {
            SyntaxExpr::Literal(text) => converted(e) == ExprIrView::Literal(text@),
            SyntaxExpr::NameRef(name) => converted(e) == ExprIrView::ColumnRef(name@),
            SyntaxExpr::Binary { lhs, op, rhs } => {
                &&& converted(e) is BinaryOp
                &&& lhs is Some ==> *converted(e)->left == converted(*lhs->0)
                &&& rhs is Some ==> *converted(e)->right == converted(*rhs->0)
                &&& op is Some ==> converted(e)->op == op->0@
            },
            SyntaxExpr::Cast { expr, ty } => {
                &&& converted(e) is Cast
                &&& expr is Some ==> *converted(e)->expr == converted(*expr->0)
                &&& ty is Some ==> converted(e)->target_type == ty->0@
            },
            SyntaxExpr::Prefix(inner) => inner is Some ==> converted(e) == converted(*inner->0),
            SyntaxExpr::Paren(inner) => inner is Some ==> converted(e) == converted(*inner->0),
            SyntaxExpr::Case { expr, when_clauses, else_expr } => {
                let args = converted(e)->args;
                &&& converted(e) is FunctionCall && converted(e)->name == "<case>"@
                &&& args.len() == 2 * when_clauses@.len() + 2
                &&& is_kept_as(expr, args[0])
                &&& 0 <= i < when_clauses@.len() ==> is_kept_as(when_clauses@[i].condition, args[1 + 2 * i]) && is_kept_as(
                    when_clauses@[i].result,
                    args[2 + 2 * i],
                )
                &&& is_kept_as(else_expr, args[args.len() - 1])
            },
            SyntaxExpr::Between { target, start, end } => {
                let args = converted(e)->args;
                &&& converted(e) is FunctionCall && converted(e)->name == "<between>"@ && args.len() == 3
                &&& is_kept_as(target, args[0]) && is_kept_as(start, args[1]) && is_kept_as(end, args[2])
            },
            SyntaxExpr::Index { base, index } => {
                let args = converted(e)->args;
                &&& converted(e) is FunctionCall && converted(e)->name == "<index>"@ && args.len() == 2
                &&& is_kept_as(base, args[0]) && is_kept_as(index, args[1])
            },
            SyntaxExpr::Slice { base, start, end } => {
                let args = converted(e)->args;
                &&& converted(e) is FunctionCall && converted(e)->name == "<slice>"@ && args.len() == 3
                &&& is_kept_as(base, args[0]) && is_kept_as(start, args[1]) && is_kept_as(end, args[2])
            },
            SyntaxExpr::Field { base, field } => {
                let args = converted(e)->args;
                &&& converted(e) is FunctionCall && converted(e)->name == "<field>"@ && args.len() == 2
                &&& is_kept_as(base, args[0])
                &&& field is Some ==> args[1] == ExprIrView::Literal(field->0@)
                &&& field is None ==> args[1] is Omitted
            },
            _ => true,
        },
{
    match e {
        SyntaxExpr::Case { expr, when_clauses, else_expr } => {
            let n = when_clauses.len() as nat;
            lemma_whens(when_clauses, n, i);
            let whens = converted_whens(when_clauses, n);
            let args = converted(e)->args;
            assert(args == seq![converted_or(expr, ExprIrView::Omitted)] + whens + seq![converted_or(else_expr, ExprIrView::Omitted)]);
            if 0 <= i < n {
                assert(args[1 + 2 * i] == whens[2 * i]);
                assert(args[2 + 2 * i] == whens[2 * i + 1]);
            }
        },
        _ => {},
    }
}

// ---------------------------------------------------------------------------
// Volatility
// ---------------------------------------------------------------------------

proof fn lemma_some(args: Seq<ExprIrView>, n: nat)
    requires
        n <= args.len(),
    ensures
        some_volatile(args, n) <==> exists|i: int| 0 <= i < n && volatile(#[trigger] args[i]),
    decreases n,
{
    if n > 0 {
        lemma_some(args, (n - 1) as nat);
        if volatile(args[n - 1]) {
            assert(some_volatile(args, n));
        }
    }
}

/// What an expression is made of decides whether it is volatile: an operation or
/// a cast is where an operand is, a form of expression where one of its parts
/// is. A literal and a column are not.
pub proof fn law_volatile_by_its_parts(e: ExprIrView)
    ensures
        match e {
            ExprIrView::Literal(_) | ExprIrView::ColumnRef(_) | ExprIrView::Omitted => !volatile(e),
            ExprIrView::BinaryOp { left, op, right } => volatile(e) <==> volatile(*left) || volatile(*right),
            ExprIrView::Cast { expr, target_type } => volatile(e) <==> volatile(*expr),
            ExprIrView::FunctionCall { name, args } => name.len() > 0 && name[0] == '<' && name.last() == '>' ==> (volatile(e) <==> exists|i: int|
                0 <= i < args.len() && volatile(#[trigger] args[i])),
        },
{
    match e {
        ExprIrView::FunctionCall { name, args } => {
            lemma_some(args, args.len());
        },
        _ => {},
    }
}

/// Whether a call of a function is volatile rests on the name of the function
/// alone, in any case: not on its arguments.
pub proof fn law_call_is_volatile_by_name(name: Seq<char>, other: Seq<char>, args: Seq<ExprIrView>, others: Seq<ExprIrView>)
    requires
        lowercase_of(name) == lowercase_of(other),
        name.len() > 0 ==> name[0] != '<',
        other.len() > 0 ==> other[0] != '<',
    ensures
        volatile(ExprIrView::FunctionCall { name, args }) == volatile(ExprIrView::FunctionCall { name: other, args: others }),
{
}

} // verus!
