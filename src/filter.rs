use vstd::prelude::*;

use crate::text::{decimal, join_seqs, join_strings, push_decimal};
use crate::value::SqlValue;

verus! {

/// A column of a table, named by table and field.
#[derive(Debug)]
pub struct ColExpr {
    pub table: String,
    pub field: String,
}

/// The test that a predicate applies to its column.
#[derive(Debug)]
pub enum Condition {
    Eq(SqlValue),
    Neq(SqlValue),
    Gt(SqlValue),
    GtEq(SqlValue),
    Lt(SqlValue),
    LtEq(SqlValue),
    IsNull,
    IsNotNull,
    IsIn(Vec<SqlValue>),
    Contains(String),
    StartsWith(String),
    EndsWith(String),
    Between(SqlValue, SqlValue),
}

/// One column tested by one condition.
#[derive(Debug)]
pub struct Predicate {
    pub col: ColExpr,
    pub cond: Condition,
}

/// A predicate together with the alternates joined to it by `OR`.
#[derive(Debug)]
pub struct FilterExpr {
    pub head: Predicate,
    pub alternates: Vec<Predicate>,
}

/// `table.field`.
pub open spec fn qualified(table: Seq<char>, field: Seq<char>) -> Seq<char> {
    table + "."@ + field
}

/// The placeholder that stands for parameter number `n` (counted from 1).
pub open spec fn placeholder(n: nat) -> Seq<char> {
    "@p"@ + decimal(n)
}

/// The `k` placeholders that follow the first `base` ones, comma-separated.
pub open spec fn in_list(k: nat, base: nat) -> Seq<char> {
    join_seqs(in_items(k, base), ","@)
}

/// The operator of a comparison.
pub open spec fn op_symbol(c: Condition) -> Seq<char> {
    match c {
        Condition::Eq(_) => "="@,
        Condition::Neq(_) => "<>"@,
        Condition::Gt(_) => ">"@,
        Condition::GtEq(_) => ">="@,
        Condition::Lt(_) => "<"@,
        Condition::LtEq(_) => "<="@,
        _ => Seq::empty(),
    }
}

pub open spec fn is_comparison(c: Condition) -> bool {
    ||| c is Eq
    ||| c is Neq
    ||| c is Gt
    ||| c is GtEq
    ||| c is Lt
    ||| c is LtEq
}

/// The SQL text of a condition on column `col`, after `base` parameters were bound.
pub open spec fn cond_sql(col: Seq<char>, c: Condition, base: nat) -> Seq<char> {
    match c {
        Condition::IsNull => col + " IS NULL"@,
        Condition::IsNotNull => col + " IS NOT NULL"@,
        Condition::Contains(v) => col + " LIKE '%"@ + v@ + "%' "@,
        Condition::StartsWith(v) => col + " LIKE '"@ + v@ + "%' "@,
        Condition::EndsWith(v) => col + " LIKE '%"@ + v@ + "' "@,
        Condition::IsIn(vs) => col + " IN ("@ + in_list(vs@.len(), base) + ")"@,
        Condition::Between(_, _) => col + " BETWEEN "@ + placeholder(base + 1) + " AND "@
            + placeholder(base + 2),
        _ => " "@ + col + " "@ + op_symbol(c) + " "@ + placeholder(base + 1),
    }
}

/// The values that a condition binds, in the order of its placeholders.
pub open spec fn cond_params(c: Condition) -> Seq<SqlValue> {
    match c {
        Condition::Eq(v) => seq![v],
        Condition::Neq(v) => seq![v],
        Condition::Gt(v) => seq![v],
        Condition::GtEq(v) => seq![v],
        Condition::Lt(v) => seq![v],
        Condition::LtEq(v) => seq![v],
        Condition::IsIn(vs) => vs@,
        Condition::Between(lo, hi) => seq![lo, hi],
        _ => Seq::empty(),
    }
}

/// Each placeholder that a condition emits, in text order, with the value bound to it.
pub open spec fn cond_slots(c: Condition, base: nat) -> Seq<(nat, SqlValue)> {
    match c {
        Condition::IsIn(vs) => Seq::new(vs@.len(), |i: int| ((base + i + 1) as nat, vs@[i])),
        Condition::Between(lo, hi) => seq![((base + 1) as nat, lo), ((base + 2) as nat, hi)],
        _ => if is_comparison(c) {
            seq![((base + 1) as nat, cond_params(c)[0])]
        } else {
            Seq::empty()
        },
    }
}

pub open spec fn pred_sql(p: Predicate, base: nat) -> Seq<char> {
    cond_sql(qualified(p.col.table@, p.col.field@), p.cond, base)
}

/// The predicates of a disjunction group, the head first.
pub open spec fn terms(e: FilterExpr) -> Seq<Predicate> {
    seq![e.head] + e.alternates@
}

pub open spec fn terms_params(ts: Seq<Predicate>) -> Seq<SqlValue>
    decreases ts.len(),
{
    if ts.len() == 0 {
        Seq::empty()
    } else {
        terms_params(ts.drop_last()) + cond_params(ts.last().cond)
    }
}

/// The text of each predicate, each numbering its placeholders after those before it.
pub open spec fn terms_items(ts: Seq<Predicate>, base: nat) -> Seq<Seq<char>>
    decreases ts.len(),
{
    if ts.len() == 0 {
        Seq::empty()
    } else {
        terms_items(ts.drop_last(), base).push(
            pred_sql(ts.last(), base + terms_params(ts.drop_last()).len()),
        )
    }
}

pub open spec fn terms_slots(ts: Seq<Predicate>, base: nat) -> Seq<(nat, SqlValue)>
    decreases ts.len(),
{
    if ts.len() == 0 {
        Seq::empty()
    } else {
        terms_slots(ts.drop_last(), base) + cond_slots(
            ts.last().cond,
            base + terms_params(ts.drop_last()).len(),
        )
    }
}

/// The condition is no `IN` test over an empty list.
pub open spec fn cond_ok(c: Condition) -> bool {
    c is IsIn ==> c->IsIn_0@.len() > 0
}

/// No predicate of the expression is an `IN` test over an empty list.
pub open spec fn expr_ok(e: FilterExpr) -> bool {
    forall|i: int| 0 <= i < terms(e).len() ==> cond_ok(#[trigger] terms(e)[i].cond)
}

/// The SQL text of a filter expression, after `base` parameters were bound.
pub open spec fn expr_sql(e: FilterExpr, base: nat) -> Seq<char> {
    if e.alternates@.len() == 0 {
        pred_sql(e.head, base)
    } else {
        "( "@ + join_seqs(terms_items(terms(e), base), " OR "@) + " )"@
    }
}

/// The values that a filter expression binds, in the order of its placeholders.
pub open spec fn expr_params(e: FilterExpr) -> Seq<SqlValue> {
    terms_params(terms(e))
}

pub open spec fn expr_slots(e: FilterExpr, base: nat) -> Seq<(nat, SqlValue)> {
    terms_slots(terms(e), base)
}

impl ColExpr {
    pub fn new(table: &str, field: &str) -> (r: ColExpr)
        ensures
            r.table@ == table@,
            r.field@ == field@,
    {
        ColExpr { table: String::from_str(table), field: String::from_str(field) }
    }

    /// The column written as `table.field`.
    pub fn full_column_name(&self) -> (r: String)
        ensures
            r@ == qualified(self.table@, self.field@),
    {
        let mut r = self.table.clone();
        r.append(".");
        r.append(self.field.as_str());
        r
    }

    fn expr_wrapper(self, cond: Condition) -> (r: FilterExpr)
        ensures
            r.head.col == self,
            r.head.cond == cond,
            r.alternates@.len() == 0,
    {
        FilterExpr { head: Predicate { col: self, cond }, alternates: Vec::new() }
    }

    /// The column equals `v`.
    pub fn eq(self, v: SqlValue) -> (r: FilterExpr)
        ensures
            r.head.col == self,
            r.head.cond == Condition::Eq(v),
            r.alternates@.len() == 0,
    {
        self.expr_wrapper(Condition::Eq(v))
    }

    /// The column differs from `v`.
    pub fn neq(self, v: SqlValue) -> (r: FilterExpr)
        ensures
            r.head.col == self,
            r.head.cond == Condition::Neq(v),
            r.alternates@.len() == 0,
    {
        self.expr_wrapper(Condition::Neq(v))
    }

    /// The column is less than `v`.
    pub fn lt(self, v: SqlValue) -> (r: FilterExpr)
        ensures
            r.head.col == self,
            r.head.cond == Condition::Lt(v),
            r.alternates@.len() == 0,
    {
        self.expr_wrapper(Condition::Lt(v))
    }

    /// The column is at most `v`.
    pub fn lt_eq(self, v: SqlValue) -> (r: FilterExpr)
        ensures
            r.head.col == self,
            r.head.cond == Condition::LtEq(v),
            r.alternates@.len() == 0,
    {
        self.expr_wrapper(Condition::LtEq(v))
    }

    /// The column is greater than `v`.
    pub fn gt(self, v: SqlValue) -> (r: FilterExpr)
        ensures
            r.head.col == self,
            r.head.cond == Condition::Gt(v),
            r.alternates@.len() == 0,
    {
        self.expr_wrapper(Condition::Gt(v))
    }

    /// The column is at least `v`.
    pub fn gt_eq(self, v: SqlValue) -> (r: FilterExpr)
        ensures
            r.head.col == self,
            r.head.cond == Condition::GtEq(v),
            r.alternates@.len() == 0,
    {
        self.expr_wrapper(Condition::GtEq(v))
    }

    /// The column is null.
    pub fn is_null(self) -> (r: FilterExpr)
        ensures
            r.head.col == self,
            r.head.cond == Condition::IsNull,
            r.alternates@.len() == 0,
    {
        self.expr_wrapper(Condition::IsNull)
    }

    /// The column is not null.
    pub fn is_not_null(self) -> (r: FilterExpr)
        ensures
            r.head.col == self,
            r.head.cond == Condition::IsNotNull,
            r.alternates@.len() == 0,
    {
        self.expr_wrapper(Condition::IsNotNull)
    }

    /// The column contains `pattern`; the pattern is written into the SQL text.
    pub fn contains(self, pattern: &str) -> (r: FilterExpr)
        ensures
            r.head.col == self,
            r.head.cond is Contains,
            r.head.cond->Contains_0@ == pattern@,
            r.alternates@.len() == 0,
    {
        self.expr_wrapper(Condition::Contains(String::from_str(pattern)))
    }

    /// The column starts with `pattern`; the pattern is written into the SQL text.
    pub fn startswith(self, pattern: &str) -> (r: FilterExpr)
        ensures
            r.head.col == self,
            r.head.cond is StartsWith,
            r.head.cond->StartsWith_0@ == pattern@,
            r.alternates@.len() == 0,
    {
        self.expr_wrapper(Condition::StartsWith(String::from_str(pattern)))
    }

    /// The column ends with `pattern`; the pattern is written into the SQL text.
    pub fn endswith(self, pattern: &str) -> (r: FilterExpr)
        ensures
            r.head.col == self,
            r.head.cond is EndsWith,
            r.head.cond->EndsWith_0@ == pattern@,
            r.alternates@.len() == 0,
    {
        self.expr_wrapper(Condition::EndsWith(String::from_str(pattern)))
    }

    /// The column is one of `values`. A query refuses the filter when `values` is empty.
    pub fn is_in(self, values: Vec<SqlValue>) -> (r: FilterExpr)
        ensures
            r.head.col == self,
            r.head.cond == Condition::IsIn(values),
            r.alternates@.len() == 0,
    {
        self.expr_wrapper(Condition::IsIn(values))
    }

    /// The column is one of `values`, which are copied.
    pub fn is_in_ref(self, values: &[SqlValue]) -> (r: FilterExpr)
        ensures
            r.head.col == self,
            r.head.cond is IsIn,
            r.head.cond->IsIn_0@.len() == values@.len(),
            forall|i: int|
                0 <= i < values@.len() ==> (#[trigger] r.head.cond->IsIn_0@[i])@ == values@[i]@,
            r.alternates@.len() == 0,
    {
        let mut v: Vec<SqlValue> = Vec::new();
        let mut i: usize = 0;
        while i < values.len()
            invariant
                i <= values@.len(),
                v@.len() == i,
                forall|j: int| 0 <= j < i ==> (#[trigger] v@[j])@ == values@[j]@,
            decreases values@.len() - i,
        {
            v.push(values[i].copy_value());
            i = i + 1;
        }
        self.expr_wrapper(Condition::IsIn(v))
    }

    /// The column lies between `lo` and `hi`, both included.
    pub fn between(self, lo: SqlValue, hi: SqlValue) -> (r: FilterExpr)
        ensures
            r.head.col == self,
            r.head.cond == Condition::Between(lo, hi),
            r.alternates@.len() == 0,
    {
        self.expr_wrapper(Condition::Between(lo, hi))
    }
}

fn op_str(c: &Condition) -> (r: &'static str)
    requires
        is_comparison(*c),
    ensures
        r@ == op_symbol(*c),
{
    match c {
        Condition::Eq(_) => "=",
        Condition::Neq(_) => "<>",
        Condition::Gt(_) => ">",
        Condition::GtEq(_) => ">=",
        Condition::Lt(_) => "<",
        _ => "<=",
    }
}

fn push_placeholder(s: &mut String, n: usize)
    ensures
        final(s)@ == old(s)@ + placeholder(n as nat),
{
    s.append("@p");
    push_decimal(s, n);
    assert(final(s)@ =~= old(s)@ + placeholder(n as nat));
}

/// The placeholders of the `k` parameters that follow the first `base` ones.
pub open spec fn in_items(k: nat, base: nat) -> Seq<Seq<char>> {
    Seq::new(k, |i: int| placeholder((base + i + 1) as nat))
}

/// Binds the values of `vs` after those in `params`; returns their placeholders.
fn bind_list(vs: Vec<SqlValue>, params: &mut Vec<SqlValue>) -> (r: String)
    requires
        vs@.len() > 0,
    ensures
        final(params)@ == old(params)@ + vs@,
        r@ == in_list(vs@.len(), old(params)@.len()),
{
    let ghost base = old(params)@.len();
    let k = vs.len();
    let mut vs = vs;
    let start = params.len();
    params.append(&mut vs);
    let total = params.len();
    let mut r = String::new();
    let mut i: usize = 0;
    assert(join_seqs(in_items(0, base as nat), ","@) =~= Seq::<char>::empty());
    while i < k
        invariant
            i <= k,
            start == base,
            start + k == total,
            r@ == join_seqs(in_items(i as nat, base as nat), ","@),
        decreases k - i,
    {
        if i > 0 {
            r.append(",");
        }
        push_placeholder(&mut r, start + i + 1);
        proof {
            let next = in_items((i + 1) as nat, base as nat);
            assert(next.drop_last() =~= in_items(i as nat, base as nat));
            assert(next.last() == placeholder((base + i + 1) as nat));
            assert(r@ =~= join_seqs(next, ","@));
        }
        i = i + 1;
    }
    r
}

/// Compiles one predicate, binding its values after those in `params`.
pub fn compile_predicate(p: Predicate, params: &mut Vec<SqlValue>) -> (r: String)
    requires
        cond_ok(p.cond),
    ensures
        r@ == pred_sql(p, old(params)@.len()),
        final(params)@ == old(params)@ + cond_params(p.cond),
{
    let col = p.col.full_column_name();
    let ghost base = old(params)@.len();
    let ghost c = p.cond;
    let mut r = String::new();
    match p.cond {
        Condition::IsNull => {
            r.append(col.as_str());
            r.append(" IS NULL");
        },
        Condition::IsNotNull => {
            r.append(col.as_str());
            r.append(" IS NOT NULL");
        },
        Condition::Contains(v) => {
            r.append(col.as_str());
            r.append(" LIKE '%");
            r.append(v.as_str());
            r.append("%' ");
        },
        Condition::StartsWith(v) => {
            r.append(col.as_str());
            r.append(" LIKE '");
            r.append(v.as_str());
            r.append("%' ");
        },
        Condition::EndsWith(v) => {
            r.append(col.as_str());
            r.append(" LIKE '%");
            r.append(v.as_str());
            r.append("' ");
        },
        Condition::IsIn(vs) => {
            r.append(col.as_str());
            r.append(" IN (");
            let list = bind_list(vs, params);
            r.append(list.as_str());
            r.append(")");
        },
        Condition::Between(lo, hi) => {
            r.append(col.as_str());
            r.append(" BETWEEN ");
            params.push(lo);
            push_placeholder(&mut r, params.len());
            r.append(" AND ");
            params.push(hi);
            push_placeholder(&mut r, params.len());
        },
        cond => {
            let op = op_str(&cond);
            let v = match cond {
                Condition::Eq(v) => v,
                Condition::Neq(v) => v,
                Condition::Gt(v) => v,
                Condition::GtEq(v) => v,
                Condition::Lt(v) => v,
                Condition::LtEq(v) => v,
                _ => SqlValue::Null,
            };
            r.append(" ");
            r.append(col.as_str());
            r.append(" ");
            r.append(op);
            r.append(" ");
            params.push(v);
            push_placeholder(&mut r, params.len());
        },
    }
    assert(r@ =~= pred_sql(p, base));
    assert(params@ =~= old(params)@ + cond_params(c));
    r
}

impl FilterExpr {
    /// Adds `rhs`, with its own alternates, as alternates of this expression.
    pub fn or(self, rhs: FilterExpr) -> (r: FilterExpr)
        ensures
            terms(r) == terms(self) + terms(rhs),
    {
        let FilterExpr { head, alternates } = self;
        let FilterExpr { head: rhead, alternates: ralts } = rhs;
        let mut alternates = alternates;
        let mut ralts = ralts;
        alternates.push(rhead);
        alternates.append(&mut ralts);
        let r = FilterExpr { head, alternates };
        assert(terms(r) =~= terms(self) + terms(rhs));
        r
    }

    /// The qualified column of the first `IN` test over an empty list, if any.
    pub fn empty_in_list(&self) -> (r: Option<String>)
        ensures
            r is None <==> expr_ok(*self),
    {
        if !Self::cond_has_values(&self.head.cond) {
            assert(terms(*self)[0] == self.head);
            return Some(self.head.col.full_column_name());
        }
        let mut i: usize = 0;
        while i < self.alternates.len()
            invariant
                i <= self.alternates@.len(),
                cond_ok(self.head.cond),
                forall|k: int| 0 <= k < i ==> cond_ok(#[trigger] self.alternates@[k].cond),
            decreases self.alternates@.len() - i,
        {
            if !Self::cond_has_values(&self.alternates[i].cond) {
                assert(terms(*self)[i + 1] == self.alternates@[i as int]);
                return Some(self.alternates[i].col.full_column_name());
            }
            i = i + 1;
        }
        assert forall|k: int| 0 <= k < terms(*self).len() implies cond_ok(
            #[trigger] terms(*self)[k].cond,
        ) by {
            if k > 0 {
                assert(terms(*self)[k] == self.alternates@[k - 1]);
            }
        }
        None
    }

    fn cond_has_values(c: &Condition) -> (r: bool)
        ensures
            r == cond_ok(*c),
    {
        match c {
            Condition::IsIn(vs) => vs.len() > 0,
            _ => true,
        }
    }

    /// Compiles the expression, binding its values after those in `params`.
    pub fn to_sql(self, params: &mut Vec<SqlValue>) -> (r: String)
        requires
            expr_ok(self),
        ensures
            r@ == expr_sql(self, old(params)@.len()),
            final(params)@ == old(params)@ + expr_params(self),
    {
        let ghost p0 = params@;
        let ghost base = p0.len();
        let ghost ts = terms(self);
        let FilterExpr { head, alternates } = self;
        if alternates.len() == 0 {
            assert(cond_ok(terms(self)[0].cond));
            let r = compile_predicate(head, params);
            proof {
                assert(ts =~= seq![self.head]);
                assert(ts.drop_last() =~= Seq::<Predicate>::empty());
                assert(terms_params(ts.drop_last()) =~= Seq::<SqlValue>::empty());
                assert(params@ =~= p0 + expr_params(self));
            }
            return r;
        }
        let mut items: Vec<String> = Vec::new();
        assert(cond_ok(terms(self)[0].cond));
        let first = compile_predicate(head, params);
        items.push(first);
        proof {
            let t1 = ts.take(1);
            assert(t1.drop_last() =~= Seq::<Predicate>::empty());
            assert(t1.last() == self.head);
            assert(terms_params(t1.drop_last()).len() == 0);
            assert(terms_items(t1.drop_last(), base) =~= Seq::<Seq<char>>::empty());
            assert(terms_items(t1, base) == seq![pred_sql(self.head, base)]);
            assert(items@.map_values(|x: String| x@) =~= terms_items(t1, base));
            assert(params@ =~= p0 + terms_params(t1));
        }
        let mut rest = alternates;
        let ghost alts = self.alternates@;
        let mut i: usize = 0;
        let n = rest.len();
        while i < n
            invariant
                n == alts.len(),
                i <= n,
                ts == seq![self.head] + alts,
                ts == terms(self),
                expr_ok(self),
                rest@ == alts.subrange(i as int, n as int),
                items@.map_values(|x: String| x@) == terms_items(ts.take(i + 1), base),
                base == p0.len(),
                params@ == p0 + terms_params(ts.take(i + 1)),
            decreases n - i,
        {
            let p = rest.remove(0);
            assert(p == ts[i + 1]);
            assert(cond_ok(ts[i + 1].cond));
            let s = compile_predicate(p, params);
            items.push(s);
            proof {
                let next = ts.take(i + 2);
                assert(next.drop_last() =~= ts.take(i + 1));
                assert(next.last() == p);
                assert(items@.map_values(|x: String| x@) =~= terms_items(next, base));
                assert(params@ =~= p0 + terms_params(next));
            }
            i = i + 1;
        }
        assert(ts.take(n + 1) =~= ts);
        let joined = join_strings(&items, " OR ");
        let mut r = String::new();
        r.append("( ");
        r.append(joined.as_str());
        r.append(" )");
        assert(r@ =~= expr_sql(self, base));
        r
    }
}

/// The placeholders of a condition are the `base + 1`, `base + 2`, ... in text order,
/// each bound to the value at the same position among the condition's parameters.
pub proof fn lemma_cond_slots(c: Condition, base: nat)
    ensures
        cond_slots(c, base).len() == cond_params(c).len(),
        forall|i: int|
            0 <= i < cond_params(c).len() ==> #[trigger] cond_slots(c, base)[i] == (
                (base + i + 1) as nat,
                cond_params(c)[i],
            ),
{
}

/// The placeholders of a sequence of predicates are numbered on from `base` without gap,
/// each bound to the value at the same position among their parameters.
pub proof fn lemma_terms_slots(ts: Seq<Predicate>, base: nat)
    ensures
        terms_slots(ts, base).len() == terms_params(ts).len(),
        forall|i: int|
            0 <= i < terms_params(ts).len() ==> #[trigger] terms_slots(ts, base)[i] == (
                (base + i + 1) as nat,
                terms_params(ts)[i],
            ),
    decreases ts.len(),
{
    if ts.len() > 0 {
        let d = ts.drop_last();
        let c = ts.last().cond;
        let k = terms_params(d).len();
        lemma_terms_slots(d, base);
        lemma_cond_slots(c, base + k);
        assert forall|i: int| 0 <= i < terms_params(ts).len() implies #[trigger] terms_slots(
            ts,
            base,
        )[i] == ((base + i + 1) as nat, terms_params(ts)[i]) by {
            if i < k {
                assert(terms_slots(ts, base)[i] == terms_slots(d, base)[i]);
                assert(terms_params(ts)[i] == terms_params(d)[i]);
            } else {
                assert(terms_slots(ts, base)[i] == cond_slots(c, base + k)[i - k]);
                assert(terms_params(ts)[i] == cond_params(c)[i - k]);
            }
        }
    }
}

/// The placeholders that a filter expression emits are numbered on from `base` without gap,
/// and the one numbered `base + i + 1` is bound to the expression's parameter `i`.
pub proof fn lemma_expr_slots(e: FilterExpr, base: nat)
    ensures
        expr_slots(e, base).len() == expr_params(e).len(),
        forall|i: int|
            0 <= i < expr_params(e).len() ==> #[trigger] expr_slots(e, base)[i] == (
                (base + i + 1) as nat,
                expr_params(e)[i],
            ),
{
    lemma_terms_slots(terms(e), base);
}

} // verus!
