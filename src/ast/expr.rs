//! The arithmetic expression tree over field elements and signal queries.
use vstd::prelude::*;
use vstd::string::StringExecFns;

use crate::ast::query::{query_text, Queriable};
use crate::util::{decimal, push_decimal};

verus! {

/// An arithmetic expression. Field elements are carried as `u64`.
#[derive(Debug)]
pub enum Expr {
    Const(u64),
    Sum(Vec<Expr>),
    Mul(Vec<Expr>),
    Neg(Box<Expr>),
    Pow(Box<Expr>, u32),
    Query(Queriable),
}

/// The mathematical value of an [`Expr`]: the same tree, with sequences for
/// the operand lists.
pub enum ExprV {
    Const(u64),
    Sum(Seq<ExprV>),
    Mul(Seq<ExprV>),
    Neg(Box<ExprV>),
    Pow(Box<ExprV>, u32),
    Query(Queriable),
}

pub open spec fn expr_view(e: Expr) -> ExprV
    decreases e,
{
    match e {
        Expr::Const(c) => ExprV::Const(c),
        Expr::Sum(v) => ExprV::Sum(exprs_view(v@)),
        Expr::Mul(v) => ExprV::Mul(exprs_view(v@)),
        Expr::Neg(b) => ExprV::Neg(Box::new(expr_view(*b))),
        Expr::Pow(b, n) => ExprV::Pow(Box::new(expr_view(*b)), n),
        Expr::Query(q) => ExprV::Query(q),
    }
}

pub open spec fn exprs_view(s: Seq<Expr>) -> Seq<ExprV>
    decreases s,
{
    if s.len() == 0 {
        Seq::empty()
    } else {
        exprs_view(s.drop_last()).push(expr_view(s.last()))
    }
}

impl View for Expr {
    type V = ExprV;

    open spec fn view(&self) -> ExprV {
        expr_view(*self)
    }
}

/// The view of a list of expressions has the same length and the view of
/// each element at the same place.
pub proof fn lemma_exprs_view(s: Seq<Expr>)
    ensures
        exprs_view(s).len() == s.len(),
        forall|i: int| 0 <= i < s.len() ==> #[trigger] exprs_view(s)[i] == expr_view(s[i]),
    decreases s.len(),
{
    if s.len() > 0 {
        lemma_exprs_view(s.drop_last());
    }
}

/// The diagnostic text of an expression.
pub open spec fn expr_text(e: ExprV) -> Seq<char>
    decreases e,
{
    match e {
        ExprV::Const(c) => decimal(c as nat),
        ExprV::Sum(es) => seq!['('] + join_text(es, seq![' ', '+', ' ']) + seq![')'],
        ExprV::Mul(es) => seq!['('] + join_text(es, seq![' ', '*', ' ']) + seq![')'],
        ExprV::Neg(b) => seq!['-'] + expr_text(*b),
        ExprV::Pow(b, n) => seq!['('] + expr_text(*b) + seq![')', '^'] + decimal(n as nat),
        ExprV::Query(q) => query_text(q),
    }
}

/// The texts of `es`, separated by `sep`.
pub open spec fn join_text(es: Seq<ExprV>, sep: Seq<char>) -> Seq<char>
    decreases es,
{
    if es.len() == 0 {
        Seq::empty()
    } else if es.len() == 1 {
        expr_text(es[0])
    } else {
        join_text(es.drop_last(), sep) + sep + expr_text(es.last())
    }
}

impl Expr {
    /// A copy of this expression, with the same view.
    pub fn duplicate(&self) -> (r: Expr)
        ensures
            r@ == self@,
        decreases self, 1int,
    {
        match self {
            Expr::Const(c) => Expr::Const(*c),
            Expr::Sum(v) => Expr::Sum(self.duplicate_operands()),
            Expr::Mul(v) => Expr::Mul(self.duplicate_operands()),
            Expr::Neg(b) => Expr::Neg(Box::new(b.duplicate())),
            Expr::Pow(b, n) => Expr::Pow(Box::new(b.duplicate()), *n),
            Expr::Query(q) => Expr::Query(q.duplicate()),
        }
    }

    /// A copy of the operand list of a sum or a product.
    fn duplicate_operands(&self) -> (r: Vec<Expr>)
        requires
            self is Sum || self is Mul,
        ensures
            self is Sum ==> exprs_view(r@) == exprs_view(self->Sum_0@),
            self is Mul ==> exprs_view(r@) == exprs_view(self->Mul_0@),
        decreases self, 0int,
    {
        let v = match self {
            Expr::Sum(v) => v,
            Expr::Mul(v) => v,
            _ => { return Vec::new(); },
        };
        let mut out: Vec<Expr> = Vec::new();
        let mut i: usize = 0;
        while i < v.len()
            invariant
                self is Sum ==> self->Sum_0 == *v,
                self is Mul ==> self->Mul_0 == *v,
                self is Sum || self is Mul,
                i <= v@.len(),
                out@.len() == i,
                forall|j: int| 0 <= j < i ==> (#[trigger] out@[j])@ == v@[j]@,
            decreases v@.len() - i,
        {
            proof {
                if self is Sum {
                    assert(decreases_to!(*self => (*self)->Sum_0));
                    assert(decreases_to!((*self)->Sum_0 => ((*self)->Sum_0)@));
                    assert(decreases_to!(((*self)->Sum_0)@ => ((*self)->Sum_0)@[i as int]));
                } else {
                    assert(decreases_to!(*self => (*self)->Mul_0));
                    assert(decreases_to!((*self)->Mul_0 => ((*self)->Mul_0)@));
                    assert(decreases_to!(((*self)->Mul_0)@ => ((*self)->Mul_0)@[i as int]));
                }
            }
            let c = v[i].duplicate();
            out.push(c);
            i = i + 1;
        }
        proof {
            lemma_exprs_view(out@);
            lemma_exprs_view(v@);
            assert(exprs_view(out@) =~= exprs_view(v@));
        }
        out
    }

    /// The diagnostic text of this expression.
    pub fn text(&self) -> (r: String)
        ensures
            r@ == expr_text(self@),
        decreases self, 1int,
    {
        match self {
            Expr::Const(c) => {
                let mut out = String::new();
                push_decimal(&mut out, *c);
                assert(out@ =~= decimal(*c as nat));
                assert(self@ == ExprV::Const(*c));
                assert(expr_text(self@) == decimal(*c as nat));
                out
            },
            Expr::Sum(_) => {
                proof { reveal_strlit("("); reveal_strlit(")"); reveal_strlit(" + "); }
                let mut out = String::from_str("(");
                self.push_joined(&mut out, " + ");
                assert(" + "@ =~= seq![' ', '+', ' ']);
                out.append(")");
                assert(out@ =~= expr_text(self@));
                out
            },
            Expr::Mul(_) => {
                proof { reveal_strlit("("); reveal_strlit(")"); reveal_strlit(" * "); }
                let mut out = String::from_str("(");
                self.push_joined(&mut out, " * ");
                assert(" * "@ =~= seq![' ', '*', ' ']);
                out.append(")");
                assert(out@ =~= expr_text(self@));
                out
            },
            Expr::Neg(b) => {
                proof { reveal_strlit("-"); }
                let out = String::from_str("-");
                let t = b.text();
                let r = out.concat(t.as_str());
                assert(r@ =~= expr_text(self@));
                r
            },
            Expr::Pow(b, n) => {
                proof { reveal_strlit("("); reveal_strlit(")^"); }
                let mut out = String::from_str("(");
                let t = b.text();
                out.append(t.as_str());
                out.append(")^");
                push_decimal(&mut out, *n as u64);
                assert(out@ =~= expr_text(self@));
                out
            },
            Expr::Query(q) => q.annotation(),
        }
    }

    /// Appends the texts of the operands of a sum or product, separated by `sep`.
    fn push_joined(&self, out: &mut String, sep: &str)
        requires
            self is Sum || self is Mul,
        ensures
            self is Sum ==> final(out)@ == old(out)@ + join_text(exprs_view(self->Sum_0@), sep@),
            self is Mul ==> final(out)@ == old(out)@ + join_text(exprs_view(self->Mul_0@), sep@),
        decreases self, 0int,
    {
        let v = match self {
            Expr::Sum(v) => v,
            Expr::Mul(v) => v,
            _ => { return; },
        };
        proof { lemma_exprs_view(v@); }
        let ghost start = out@;
        let ghost views = exprs_view(v@);
        let mut i: usize = 0;
        while i < v.len()
            invariant
                self is Sum ==> self->Sum_0 == *v,
                self is Mul ==> self->Mul_0 == *v,
                self is Sum || self is Mul,
                views == exprs_view(v@),
                views.len() == v@.len(),
                forall|j: int| 0 <= j < v@.len() ==> #[trigger] views[j] == expr_view(v@[j]),
                i <= v@.len(),
                out@ == start + join_text(views.subrange(0, i as int), sep@),
            decreases v@.len() - i,
        {
            proof {
                if self is Sum {
                    assert(decreases_to!(*self => (*self)->Sum_0));
                    assert(decreases_to!((*self)->Sum_0 => ((*self)->Sum_0)@));
                    assert(decreases_to!(((*self)->Sum_0)@ => ((*self)->Sum_0)@[i as int]));
                } else {
                    assert(decreases_to!(*self => (*self)->Mul_0));
                    assert(decreases_to!((*self)->Mul_0 => ((*self)->Mul_0)@));
                    assert(decreases_to!(((*self)->Mul_0)@ => ((*self)->Mul_0)@[i as int]));
                }
            }
            let t = v[i].text();
            let ghost before = out@;
            if i > 0 {
                out.append(sep);
            }
            out.append(t.as_str());
            proof {
                let pre = views.subrange(0, i as int);
                let cur = views.subrange(0, i + 1);
                assert(cur.drop_last() =~= pre);
                assert(cur.last() == views[i as int]);
                if i == 0 {
                    assert(join_text(pre, sep@) =~= Seq::<char>::empty());
                    assert(join_text(cur, sep@) == expr_text(cur[0]));
                    assert(out@ =~= start + join_text(cur, sep@));
                } else {
                    assert(join_text(cur, sep@) == join_text(pre, sep@) + sep@ + expr_text(cur.last()));
                    assert(out@ =~= start + join_text(cur, sep@));
                }
            }
            i = i + 1;
        }
        assert(views.subrange(0, v@.len() as int) =~= views);
    }
}

/// Every sum and product that lowering reaches has at least one operand;
/// the base of a power with exponent zero is not reached.
pub open spec fn operands_nonempty(e: ExprV) -> bool
    decreases e,
{
    match e {
        ExprV::Sum(es) => es.len() > 0 && all_operands_nonempty(es),
        ExprV::Mul(es) => es.len() > 0 && all_operands_nonempty(es),
        ExprV::Neg(b) => operands_nonempty(*b),
        ExprV::Pow(b, n) => n == 0 || operands_nonempty(*b),
        _ => true,
    }
}

pub open spec fn all_operands_nonempty(es: Seq<ExprV>) -> bool
    decreases es,
{
    if es.len() == 0 {
        true
    } else {
        all_operands_nonempty(es.drop_last()) && operands_nonempty(es.last())
    }
}

/// `all_operands_nonempty` holds of a list exactly when it holds of each element.
pub proof fn lemma_all_operands_nonempty(es: Seq<ExprV>)
    ensures
        all_operands_nonempty(es) <==> forall|i: int| 0 <= i < es.len() ==> operands_nonempty(#[trigger] es[i]),
    decreases es.len(),
{
    if es.len() > 0 {
        lemma_all_operands_nonempty(es.drop_last());
        assert forall|i: int| 0 <= i < es.len() - 1 implies es.drop_last()[i] == es[i] by {}
        if all_operands_nonempty(es) {
            assert forall|i: int| 0 <= i < es.len() implies operands_nonempty(#[trigger] es[i]) by {
                if i < es.len() - 1 {
                    assert(es.drop_last()[i] == es[i]);
                }
            }
        }
        if forall|i: int| 0 <= i < es.len() ==> operands_nonempty(#[trigger] es[i]) {
            assert forall|i: int| 0 <= i < es.drop_last().len() implies operands_nonempty(#[trigger] es.drop_last()[i]) by {
                assert(es.drop_last()[i] == es[i]);
            }
        }
    }
}

impl Expr {
    /// Whether every sum and product that lowering reaches has an operand.
    pub fn has_operands(&self) -> (r: bool)
        ensures
            r == operands_nonempty(self@),
        decreases self, 1int,
    {
        match self {
            Expr::Sum(v) => {
                proof { lemma_exprs_view(v@); }
                v.len() > 0 && self.operands_have_operands()
            },
            Expr::Mul(v) => {
                proof { lemma_exprs_view(v@); }
                v.len() > 0 && self.operands_have_operands()
            },
            Expr::Neg(b) => b.has_operands(),
            Expr::Pow(b, n) => *n == 0 || b.has_operands(),
            _ => true,
        }
    }

    fn operands_have_operands(&self) -> (r: bool)
        requires
            self is Sum || self is Mul,
        ensures
            self is Sum ==> r == all_operands_nonempty(exprs_view(self->Sum_0@)),
            self is Mul ==> r == all_operands_nonempty(exprs_view(self->Mul_0@)),
        decreases self, 0int,
    {
        let v = match self {
            Expr::Sum(v) => v,
            Expr::Mul(v) => v,
            _ => { return true; },
        };
        proof { lemma_exprs_view(v@); lemma_all_operands_nonempty(exprs_view(v@)); }
        let mut i: usize = 0;
        while i < v.len()
            invariant
                self is Sum ==> self->Sum_0 == *v,
                self is Mul ==> self->Mul_0 == *v,
                self is Sum || self is Mul,
                i <= v@.len(),
                exprs_view(v@).len() == v@.len(),
                forall|j: int| 0 <= j < v@.len() ==> #[trigger] exprs_view(v@)[j] == expr_view(v@[j]),
                forall|j: int| 0 <= j < i ==> operands_nonempty(#[trigger] exprs_view(v@)[j]),
                all_operands_nonempty(exprs_view(v@)) <==> forall|j: int|
                    0 <= j < exprs_view(v@).len() ==> operands_nonempty(#[trigger] exprs_view(v@)[j]),
            decreases v@.len() - i,
        {
            proof {
                if self is Sum {
                    assert(decreases_to!(*self => (*self)->Sum_0));
                    assert(decreases_to!((*self)->Sum_0 => ((*self)->Sum_0)@));
                    assert(decreases_to!(((*self)->Sum_0)@ => ((*self)->Sum_0)@[i as int]));
                } else {
                    assert(decreases_to!(*self => (*self)->Mul_0));
                    assert(decreases_to!((*self)->Mul_0 => ((*self)->Mul_0)@));
                    assert(decreases_to!(((*self)->Mul_0)@ => ((*self)->Mul_0)@[i as int]));
                }
            }
            if !v[i].has_operands() {
                assert(exprs_view(v@)[i as int] == expr_view(v@[i as int]));
                assert(!operands_nonempty(exprs_view(v@)[i as int]));
                return false;
            }
            i = i + 1;
        }
        true
    }
}

} // verus!
