//! Expressions as the analysis sees them.
use crate::collections::Dup;
use crate::text::{chars_of, lowercase_of, text_eq, to_lowercase};
use vstd::prelude::*;

verus! {

#[derive(Debug, PartialEq)]
pub enum ExprIr {
    Literal(String),
    ColumnRef(String),
    FunctionCall {
        name: String,
        args: Vec<ExprIr>,
    },
    BinaryOp {
        left: Box<ExprIr>,
        op: String,
        right: Box<ExprIr>,
    },
    Cast {
        expr: Box<ExprIr>,
        target_type: String,
    },
    /// Keeps the positions of the other arguments in an incomplete
    /// expression, such as `arr[2:]`.
    Omitted,
}

pub enum ExprIrView {
    Literal(Seq<char>),
    ColumnRef(Seq<char>),
    FunctionCall {
        name: Seq<char>,
        args: Seq<ExprIrView>,
    },
    BinaryOp {
        left: Box<ExprIrView>,
        op: Seq<char>,
        right: Box<ExprIrView>,
    },
    Cast {
        expr: Box<ExprIrView>,
        target_type: Seq<char>,
    },
    Omitted,
}

pub open spec fn expr_view(e: ExprIr) -> ExprIrView
    decreases e, 0nat,
{
    match e {
        ExprIr::Literal(text) => ExprIrView::Literal(text@),
        ExprIr::ColumnRef(name) => ExprIrView::ColumnRef(name@),
        ExprIr::FunctionCall { name, args } => ExprIrView::FunctionCall { name: name@, args: args_view(args, args.len() as nat) },
        ExprIr::BinaryOp { left, op, right } => ExprIrView::BinaryOp {
            left: Box::new(expr_view(*left)),
            op: op@,
            right: Box::new(expr_view(*right)),
        },
        ExprIr::Cast { expr, target_type } => ExprIrView::Cast { expr: Box::new(expr_view(*expr)), target_type: target_type@ },
        ExprIr::Omitted => ExprIrView::Omitted,
    }
}

/// The views of the first `n` arguments.
pub open spec fn args_view(args: Vec<ExprIr>, n: nat) -> Seq<ExprIrView>
    decreases args, n,
{
    if n == 0 || n > args.len() {
        Seq::empty()
    } else {
        args_view(args, (n - 1) as nat).push(expr_view(args@[n - 1]))
    }
}

impl View for ExprIr {
    type V = ExprIrView;

    open spec fn view(&self) -> ExprIrView {
        expr_view(*self)
    }
}

impl DeepView for ExprIr {
    type V = ExprIrView;

    open spec fn deep_view(&self) -> ExprIrView {
        self@
    }
}

fn dup_expr(e: &ExprIr) -> (r: ExprIr)
    ensures
        expr_view(r) == expr_view(*e),
    decreases *e,
{
    match e {
        ExprIr::Literal(text) => ExprIr::Literal(text.clone()),
        ExprIr::ColumnRef(name) => ExprIr::ColumnRef(name.clone()),
        ExprIr::FunctionCall { name, args } => {
            let mut out: Vec<ExprIr> = Vec::new();
            let mut i: usize = 0;
            while i < args.len()
                invariant
                    i <= args.len(),
                    out.len() == i,
                    args_view(out, i as nat) == args_view(*args, i as nat),
                    *e == (ExprIr::FunctionCall { name: *name, args: *args }),
                decreases args.len() - i,
            {
                let ghost before = out;
                proof {
                    assert(decreases_to!(*e => e->args));
                    assert(decreases_to!(e->args => e->args@));
                    assert(decreases_to!(e->args@ => e->args@[i as int]));
                }
                let copy = dup_expr(&args[i]);
                out.push(copy);
                proof {
                    lemma_args_view_prefix(before, out, i as nat);
                }
                i = i + 1;
            }
            ExprIr::FunctionCall { name: name.clone(), args: out }
        },
        ExprIr::BinaryOp { left, op, right } => ExprIr::BinaryOp {
            left: Box::new(dup_expr(left)),
            op: op.clone(),
            right: Box::new(dup_expr(right)),
        },
        ExprIr::Cast { expr, target_type } => ExprIr::Cast { expr: Box::new(dup_expr(expr)), target_type: target_type.clone() },
        ExprIr::Omitted => ExprIr::Omitted,
    }
}

proof fn lemma_args_view_prefix(a: Vec<ExprIr>, b: Vec<ExprIr>, n: nat)
    requires
        n <= a.len(),
        n <= b.len(),
        forall|i: int| 0 <= i < n ==> a@[i] == b@[i],
    ensures
        args_view(a, n) == args_view(b, n),
    decreases n,
{
    if n > 0 {
        lemma_args_view_prefix(a, b, (n - 1) as nat);
    }
}

/// The view of arguments, argument by argument.
pub proof fn lemma_args_view(args: Vec<ExprIr>, n: nat)
    requires
        n <= args.len(),
    ensures
        args_view(args, n).len() == n,
        forall|i: int| 0 <= i < n ==> #[trigger] args_view(args, n)[i] == expr_view(args@[i]),
    decreases n,
{
    if n > 0 {
        lemma_args_view(args, (n - 1) as nat);
    }
}

impl Clone for ExprIr {
    fn clone(&self) -> (r: Self)
        ensures
            r@ == self@,
    {
        dup_expr(self)
    }
}

impl Dup for ExprIr {
    fn dup(&self) -> (r: Self) {
        dup_expr(self)
    }
}

/// The names of functions whose result changes from call to call.
pub open spec fn is_volatile_name(name: Seq<char>) -> bool {
    let n = lowercase_of(name);
    n == "now"@ || n == "clock_timestamp"@ || n == "transaction_timestamp"@ || n == "statement_timestamp"@ || n == "timeofday"@
        || n == "random"@ || n == "setseed"@ || n == "txid_current"@ || n == "txid_current_snapshot"@ || n == "txid_snapshot_xip"@
        || n == "txid_snapshot_xmax"@ || n == "txid_snapshot_xmin"@ || n == "nextval"@ || n == "currval"@ || n == "lastval"@
        || n == "setval"@ || n == "gen_random_uuid"@ || n == "uuid_generate_v1"@ || n == "uuid_generate_v1mc"@
        || n == "uuid_generate_v4"@
}

/// Whether a function stands for a form of expression rather than for a
/// function, such as `<case>`.
pub open spec fn is_synthetic(name: Seq<char>) -> bool {
    name.len() > 0 && name[0] == '<' && name[name.len() - 1] == '>'
}

/// Whether an expression calls a volatile function. The arguments of a real
/// function do not count.
pub open spec fn volatile(e: ExprIrView) -> bool
    decreases e, 0nat,
{
    match e {
        ExprIrView::FunctionCall { name, args } => if is_synthetic(name) {
            some_volatile(args, args.len())
        } else {
            is_volatile_name(name)
        },
        ExprIrView::BinaryOp { left, right, .. } => volatile(*left) || volatile(*right),
        ExprIrView::Cast { expr, .. } => volatile(*expr),
        _ => false,
    }
}

/// Whether one of the first `n` arguments is volatile.
pub open spec fn some_volatile(args: Seq<ExprIrView>, n: nat) -> bool
    decreases args, n,
{
    if n == 0 || n > args.len() {
        false
    } else {
        some_volatile(args, (n - 1) as nat) || volatile(args[n - 1])
    }
}

fn name_is_volatile(name: &String) -> (r: bool)
    ensures
        r == is_volatile_name(name@),
{
    let n = to_lowercase(name);
    text_eq(&n, "now") || text_eq(&n, "clock_timestamp") || text_eq(&n, "transaction_timestamp")
        || text_eq(&n, "statement_timestamp") || text_eq(&n, "timeofday") || text_eq(&n, "random") || text_eq(&n, "setseed")
        || text_eq(&n, "txid_current") || text_eq(&n, "txid_current_snapshot") || text_eq(&n, "txid_snapshot_xip")
        || text_eq(&n, "txid_snapshot_xmax") || text_eq(&n, "txid_snapshot_xmin") || text_eq(&n, "nextval")
        || text_eq(&n, "currval") || text_eq(&n, "lastval") || text_eq(&n, "setval") || text_eq(&n, "gen_random_uuid")
        || text_eq(&n, "uuid_generate_v1") || text_eq(&n, "uuid_generate_v1mc") || text_eq(&n, "uuid_generate_v4")
}

fn name_is_synthetic(name: &String) -> (r: bool)
    ensures
        r == is_synthetic(name@),
{
    let v = chars_of(name);
    let n = v.len();
    n > 0 && v[0] == '<' && v[n - 1] == '>'
}

fn find_volatile(e: &ExprIr) -> (r: bool)
    ensures
        r == volatile(expr_view(*e)),
    decreases *e,
{
    match e {
        ExprIr::FunctionCall { name, args } => {
            if !name_is_synthetic(name) {
                return name_is_volatile(name);
            }
            let ghost view = args_view(*args, args.len() as nat);
            proof {
                lemma_args_view(*args, args.len() as nat);
            }
            let mut found = false;
            let mut i: usize = 0;
            while i < args.len()
                invariant
                    i <= args.len(),
                    view == args_view(*args, args.len() as nat),
                    view.len() == args.len(),
                    forall|j: int| 0 <= j < view.len() ==> #[trigger] view[j] == expr_view(args@[j]),
                    found == some_volatile(view, i as nat),
                    *e == (ExprIr::FunctionCall { name: *name, args: *args }),
                decreases args.len() - i,
            {
                proof {
                    assert(decreases_to!(*e => e->args));
                    assert(decreases_to!(e->args => e->args@));
                    assert(decreases_to!(e->args@ => e->args@[i as int]));
                    assert(view[i as int] == expr_view(args@[i as int]));
                }
                let here = find_volatile(&args[i]);
                found = found || here;
                i = i + 1;
            }
            found
        },
        ExprIr::BinaryOp { left, right, .. } => find_volatile(left) || find_volatile(right),
        ExprIr::Cast { expr, .. } => find_volatile(expr),
        _ => false,
    }
}

impl ExprIr {
    /// Whether the expression calls a volatile function.
    pub fn is_volatile(&self) -> (r: bool)
        ensures
            r == volatile(self@),
    {
        find_volatile(self)
    }
}

} // verus!
