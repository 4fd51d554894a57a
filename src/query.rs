use vstd::prelude::*;

use crate::descriptor::{field_names, find_relation, on_clause, rel_views, Relation, TableDescriptor};
use crate::error::SsqlError;
use crate::filter::{expr_ok, expr_params, expr_slots, expr_sql, lemma_expr_slots, qualified, ColExpr, FilterExpr};
use crate::text::{join_seqs, join_strings, lemma_join_push};
use crate::value::{vals, SqlValue};
use crate::JoinArg;

verus! {

/// A table taking part in a query, with the fields it contributes.
#[derive(Debug)]
pub struct TableEntry {
    pub name: String,
    pub fields: Vec<String>,
}

/// Hand-written SQL with its parameters, run instead of the composed statement.
#[derive(Debug)]
pub struct RawStatement {
    pub sql: String,
    pub params: Vec<SqlValue>,
}

/// The state of one query under construction.
///
/// `params` holds the bound values in placeholder order: value `i` backs `@p{i+1}`,
/// so the placeholder counter is the length of `params`.
pub struct QueryCore {
    pub main_table: String,
    pub relations: Vec<Relation>,
    pub tables: Vec<TableEntry>,
    pub join: String,
    pub filters: Vec<String>,
    pub order: Vec<String>,
    pub params: Vec<SqlValue>,
    pub raw: Option<RawStatement>,
    /// The filter expressions attached so far, in order.
    pub attached: Ghost<Seq<FilterExpr>>,
}

pub open spec fn strs(s: Seq<String>) -> Seq<Seq<char>> {
    s.map_values(|x: String| x@)
}

pub open spec fn table_names(ts: Seq<TableEntry>) -> Seq<Seq<char>> {
    ts.map_values(|t: TableEntry| t.name@)
}

/// The parameters bound by a sequence of filters, in order.
pub open spec fn filters_params(es: Seq<FilterExpr>) -> Seq<SqlValue>
    decreases es.len(),
{
    if es.len() == 0 {
        Seq::empty()
    } else {
        filters_params(es.drop_last()) + expr_params(es.last())
    }
}

/// The text of each filter, each numbering its placeholders after those of the filters before it.
pub open spec fn filters_sql(es: Seq<FilterExpr>) -> Seq<Seq<char>>
    decreases es.len(),
{
    if es.len() == 0 {
        Seq::empty()
    } else {
        filters_sql(es.drop_last()).push(
            expr_sql(es.last(), filters_params(es.drop_last()).len()),
        )
    }
}

/// Each placeholder that a sequence of filters emits, in text order, with the value bound to it.
pub open spec fn filters_slots(es: Seq<FilterExpr>) -> Seq<(nat, SqlValue)>
    decreases es.len(),
{
    if es.len() == 0 {
        Seq::empty()
    } else {
        filters_slots(es.drop_last()) + expr_slots(
            es.last(),
            filters_params(es.drop_last()).len(),
        )
    }
}

pub open spec fn join_keyword(kind: JoinArg) -> Seq<char> {
    match kind {
        JoinArg::Left => "LEFT"@,
        JoinArg::Right => "RIGHT"@,
        JoinArg::Outer => "OUTER"@,
        JoinArg::Inner => "INNER"@,
    }
}

/// ` <KIND> JOIN <table> ON <condition>`.
pub open spec fn join_fragment(kind: JoinArg, table: Seq<char>, cond: Seq<char>) -> Seq<char> {
    " "@ + join_keyword(kind) + " JOIN "@ + table + " ON "@ + cond
}

/// `table.field AS "table.field"`.
pub open spec fn alias(table: Seq<char>, field: Seq<char>) -> Seq<char> {
    qualified(table, field) + " AS \""@ + qualified(table, field) + "\""@
}

pub open spec fn field_items(t: TableEntry) -> Seq<Seq<char>> {
    Seq::new(t.fields@.len(), |j: int| alias(t.name@, t.fields@[j]@))
}

/// The select items of all fields of all tables, in registry order.
pub open spec fn select_items(ts: Seq<TableEntry>) -> Seq<Seq<char>>
    decreases ts.len(),
{
    if ts.len() == 0 {
        Seq::empty()
    } else {
        select_items(ts.drop_last()) + field_items(ts.last())
    }
}

pub open spec fn where_text(filters: Seq<Seq<char>>) -> Seq<char> {
    if filters.len() == 0 {
        Seq::empty()
    } else {
        " WHERE "@ + join_seqs(filters, " AND "@)
    }
}

pub open spec fn order_text(order: Seq<Seq<char>>) -> Seq<char> {
    if order.len() == 0 {
        Seq::empty()
    } else {
        " ORDER BY "@ + join_seqs(order, ", "@)
    }
}

/// The statement that a query runs.
pub open spec fn compiled_sql(q: QueryCore) -> Seq<char> {
    match q.raw {
        Some(raw) => raw.sql@,
        None => "SELECT "@ + join_seqs(select_items(q.tables@), ","@) + " FROM "@ + q.main_table@
            + q.join@ + where_text(strs(q.filters@)) + order_text(strs(q.order@)),
    }
}

/// The parameters that a query binds.
pub open spec fn bound_params(q: QueryCore) -> Seq<SqlValue> {
    match q.raw {
        Some(raw) => raw.params@,
        None => q.params@,
    }
}

fn copy_relations(v: &Vec<Relation>) -> (r: Vec<Relation>)
    ensures
        rel_views(r@) == rel_views(v@),
{
    let mut r: Vec<Relation> = Vec::new();
    let mut i: usize = 0;
    while i < v.len()
        invariant
            i <= v@.len(),
            rel_views(r@) == rel_views(v@).take(i as int),
        decreases v@.len() - i,
    {
        let ghost before = r@;
        r.push(Relation { table: v[i].table.clone(), condition: v[i].condition.clone() });
        assert(rel_views(before).len() == i);
        assert(rel_views(r@) =~= rel_views(v@).take(i + 1));
        i = i + 1;
    }
    assert(rel_views(v@).take(i as int) =~= rel_views(v@));
    r
}

fn copy_values(v: &Vec<SqlValue>) -> (r: Vec<SqlValue>)
    ensures
        vals(r@) == vals(v@),
{
    let mut r: Vec<SqlValue> = Vec::new();
    let mut i: usize = 0;
    while i < v.len()
        invariant
            i <= v@.len(),
            vals(r@) == vals(v@).take(i as int),
        decreases v@.len() - i,
    {
        let ghost before = r@;
        r.push(v[i].copy_value());
        assert(vals(before).len() == i);
        assert(vals(r@) =~= vals(v@).take(i + 1));
        i = i + 1;
    }
    assert(vals(v@).take(i as int) =~= vals(v@));
    r
}

fn alias_text(table: &String, field: &String) -> (r: String)
    ensures
        r@ == alias(table@, field@),
{
    let mut q = table.clone();
    q.append(".");
    q.append(field.as_str());
    let mut r = q.clone();
    r.append(" AS \"");
    r.append(q.as_str());
    r.append("\"");
    assert(r@ =~= alias(table@, field@));
    r
}

fn keyword_text(kind: &JoinArg) -> (r: &'static str)
    ensures
        r@ == join_keyword(*kind),
{
    match kind {
        JoinArg::Left => "LEFT",
        JoinArg::Right => "RIGHT",
        JoinArg::Outer => "OUTER",
        JoinArg::Inner => "INNER",
    }
}

/// What joining `target` with `kind` does to query `o`, giving `n` and `r`.
///
/// A table already in the query gives `AlreadyJoined`; a table to which the root table declares
/// no relation gives `UnknownRelation`; both leave the query unchanged. Otherwise the join text
/// grows by ` KIND JOIN target ON condition`, the table with its fields is appended to the
/// registry, and nothing else changes.
pub open spec fn join_done(
    o: QueryCore,
    n: QueryCore,
    target: TableDescriptor,
    kind: JoinArg,
    r: Result<(), SsqlError>,
) -> bool {
    let cond = on_clause(rel_views(o.relations@), target.name@);
    &&& o.joined(target.name@) ==> {
        &&& r matches Err(SsqlError::AlreadyJoined { table }) && table@ == target.name@
        &&& n == o
    }
    &&& !o.joined(target.name@) && cond is None ==> {
        &&& r matches Err(SsqlError::UnknownRelation { table }) && table@ == target.name@
        &&& n == o
    }
    &&& r is Ok <==> !o.joined(target.name@) && cond is Some
    &&& r is Ok ==> {
        &&& n.join@ == o.join@ + join_fragment(kind, target.name@, cond->0)
        &&& n.tables@.len() == o.tables@.len() + 1
        &&& n.tables@.drop_last() == o.tables@
        &&& n.tables@.last().name@ == target.name@
        &&& strs(n.tables@.last().fields@) == field_names(target.fields@)
        &&& n.joined(target.name@)
        &&& n.main_table == o.main_table
        &&& n.relations == o.relations
        &&& n.filters == o.filters
        &&& n.order == o.order
        &&& n.params == o.params
        &&& n.raw == o.raw
        &&& n.attached == o.attached
    }
}

/// What ordering by `col` does to query `o`, giving `n` and `r`.
///
/// A column of a table not in the query gives `TableNotJoined` and leaves the query unchanged.
/// Otherwise `table.field ASC` (or `DESC`) is appended to the orderings and nothing else changes.
pub open spec fn order_done(o: QueryCore, n: QueryCore, col: ColExpr, asc: bool, r: Result<(), SsqlError>) -> bool {
    &&& r is Ok <==> o.joined(col.table@)
    &&& r is Err ==> {
        &&& r matches Err(SsqlError::TableNotJoined { table }) && table@ == col.table@
        &&& n == o
    }
    &&& r is Ok ==> {
        &&& strs(n.order@) == strs(o.order@).push(
            qualified(col.table@, col.field@) + if asc {
                " ASC"@
            } else {
                " DESC"@
            },
        )
        &&& n.main_table == o.main_table
        &&& n.relations == o.relations
        &&& n.tables == o.tables
        &&& n.join == o.join
        &&& n.filters == o.filters
        &&& n.params == o.params
        &&& n.raw == o.raw
        &&& n.attached == o.attached
    }
}

impl QueryCore {
    /// The registry holds each table once, and the compiled filters and parameters are
    /// those of the attached filter expressions.
    pub open spec fn wf(&self) -> bool {
        &&& forall|i: int, j: int|
            0 <= i < j < self.tables@.len() ==> self.tables@[i].name@ != self.tables@[j].name@
        &&& self.params@ == filters_params(self.attached@)
        &&& strs(self.filters@) == filters_sql(self.attached@)
    }

    /// Whether table `t` takes part in the query.
    pub open spec fn joined(&self, t: Seq<char>) -> bool {
        table_names(self.tables@).contains(t)
    }

    /// A query on the root table `table`.
    pub fn new(table: &TableDescriptor) -> (r: QueryCore)
        ensures
            r.wf(),
            r.main_table@ == table.name@,
            rel_views(r.relations@) == rel_views(table.relations@),
            r.tables@.len() == 1,
            r.tables@[0].name@ == table.name@,
            strs(r.tables@[0].fields@) == field_names(table.fields@),
            r.join@.len() == 0,
            r.filters@.len() == 0,
            r.order@.len() == 0,
            r.params@.len() == 0,
            r.raw is None,
            r.attached@.len() == 0,
    {
        let fields = table.field_names();
        let mut tables: Vec<TableEntry> = Vec::new();
        tables.push(TableEntry { name: table.name.clone(), fields });
        let r = QueryCore {
            main_table: table.name.clone(),
            relations: copy_relations(&table.relations),
            tables,
            join: String::new(),
            filters: Vec::new(),
            order: Vec::new(),
            params: Vec::new(),
            raw: None,
            attached: Ghost(Seq::empty()),
        };
        assert(strs(r.filters@) =~= filters_sql(Seq::empty()));
        r
    }

    /// A query that runs `sql` with `params` as they are.
    pub fn raw_query(sql: &str, params: Vec<SqlValue>) -> (r: QueryCore)
        ensures
            r.wf(),
            r.raw is Some,
            r.raw->0.sql@ == sql@,
            r.raw->0.params == params,
            compiled_sql(r) == sql@,
            bound_params(r) == params@,
            r.main_table@.len() == 0,
            r.relations@.len() == 0,
            r.tables@.len() == 0,
            r.join@.len() == 0,
            r.filters@.len() == 0,
            r.order@.len() == 0,
            r.params@.len() == 0,
            r.attached@.len() == 0,
    {
        let r = QueryCore {
            main_table: String::new(),
            relations: Vec::new(),
            tables: Vec::new(),
            join: String::new(),
            filters: Vec::new(),
            order: Vec::new(),
            params: Vec::new(),
            raw: Some(RawStatement { sql: String::from_str(sql), params }),
            attached: Ghost(Seq::empty()),
        };
        assert(strs(r.filters@) =~= filters_sql(Seq::empty()));
        r
    }

    /// Whether the table named `t` takes part in the query.
    pub fn is_joined(&self, t: &String) -> (r: bool)
        ensures
            r == self.joined(t@),
    {
        let mut i: usize = 0;
        while i < self.tables.len()
            invariant
                i <= self.tables@.len(),
                forall|j: int| 0 <= j < i ==> self.tables@[j].name@ != t@,
            decreases self.tables@.len() - i,
        {
            if self.tables[i].name == *t {
                assert(table_names(self.tables@)[i as int] == t@);
                return true;
            }
            i = i + 1;
        }
        assert(!table_names(self.tables@).contains(t@)) by {
            if table_names(self.tables@).contains(t@) {
                let j = choose|j: int|
                    0 <= j < table_names(self.tables@).len() && table_names(self.tables@)[j] == t@;
                assert(self.tables@[j].name@ == t@);
            }
        }
        false
    }

    /// Joins the table `target` on the relation that the root table declares to it.
    pub fn join(&mut self, target: &TableDescriptor, kind: JoinArg) -> (r: Result<(), SsqlError>)
        requires
            old(self).wf(),
        ensures
            final(self).wf(),
            join_done(*old(self), *final(self), *target, kind, r),
    {
        if self.is_joined(&target.name) {
            return Err(SsqlError::AlreadyJoined { table: target.name.clone() });
        }
        let lookup = find_relation(&self.relations, &target.name);
        let cond = match lookup {
            None => {
                return Err(SsqlError::UnknownRelation { table: target.name.clone() });
            },
            Some(c) => c,
        };
        let ghost old_tables = self.tables@;
        self.join.append(" ");
        self.join.append(keyword_text(&kind));
        self.join.append(" JOIN ");
        self.join.append(target.name.as_str());
        self.join.append(" ON ");
        self.join.append(cond.as_str());
        let entry = TableEntry { name: target.name.clone(), fields: target.field_names() };
        self.tables.push(entry);
        proof {
            assert(self.join@ =~= old(self).join@ + join_fragment(kind, target.name@, cond@));
            assert(self.tables@.drop_last() =~= old_tables);
            assert(table_names(self.tables@)[old_tables.len() as int] == target.name@);
            assert forall|a: int, b: int| 0 <= a < b < self.tables@.len() implies self.tables@[a].name@
                != self.tables@[b].name@ by {
                if b == old_tables.len() {
                    assert(table_names(old_tables)[a] == old_tables[a].name@);
                }
            }
        }
        Ok(())
    }

    /// Joins `target` with `LEFT JOIN`; see [`QueryCore::join`].
    pub fn left_join(&mut self, target: &TableDescriptor) -> (r: Result<(), SsqlError>)
        requires
            old(self).wf(),
        ensures
            final(self).wf(),
            join_done(*old(self), *final(self), *target, JoinArg::Left, r),
    {
        self.join(target, JoinArg::Left)
    }

    /// Joins `target` with `RIGHT JOIN`; see [`QueryCore::join`].
    pub fn right_join(&mut self, target: &TableDescriptor) -> (r: Result<(), SsqlError>)
        requires
            old(self).wf(),
        ensures
            final(self).wf(),
            join_done(*old(self), *final(self), *target, JoinArg::Right, r),
    {
        self.join(target, JoinArg::Right)
    }

    /// Joins `target` with `INNER JOIN`; see [`QueryCore::join`].
    pub fn inner_join(&mut self, target: &TableDescriptor) -> (r: Result<(), SsqlError>)
        requires
            old(self).wf(),
        ensures
            final(self).wf(),
            join_done(*old(self), *final(self), *target, JoinArg::Inner, r),
    {
        self.join(target, JoinArg::Inner)
    }

    /// Joins `target` with `OUTER JOIN`; see [`QueryCore::join`].
    pub fn outer_join(&mut self, target: &TableDescriptor) -> (r: Result<(), SsqlError>)
        requires
            old(self).wf(),
        ensures
            final(self).wf(),
            join_done(*old(self), *final(self), *target, JoinArg::Outer, r),
    {
        self.join(target, JoinArg::Outer)
    }

    /// Attaches a filter; its placeholders are numbered after the parameters bound so far.
    ///
    /// Only the table of the head predicate is checked; alternates are compiled as given.
    /// An `IN` test with no values is refused.
    pub fn filter(&mut self, e: FilterExpr) -> (r: Result<(), SsqlError>)
        requires
            old(self).wf(),
        ensures
            final(self).wf(),
            r is Ok <==> old(self).joined(e.head.col.table@) && expr_ok(e),
            !old(self).joined(e.head.col.table@) ==> (r matches Err(SsqlError::TableNotJoined { table })
                && table@ == e.head.col.table@),
            old(self).joined(e.head.col.table@) && !expr_ok(e) ==> r matches Err(
                SsqlError::EmptyInList { .. },
            ),
            r is Err ==> *final(self) == *old(self),
            r is Ok ==> {
                &&& strs(final(self).filters@) == strs(old(self).filters@).push(
                    expr_sql(e, old(self).params@.len()),
                )
                &&& final(self).params@ == old(self).params@ + expr_params(e)
                &&& final(self).attached@ == old(self).attached@.push(e)
                &&& final(self).main_table == old(self).main_table
                &&& final(self).relations == old(self).relations
                &&& final(self).tables == old(self).tables
                &&& final(self).join == old(self).join
                &&& final(self).order == old(self).order
                &&& final(self).raw == old(self).raw
            },
    {
        if !self.is_joined(&e.head.col.table) {
            return Err(SsqlError::TableNotJoined { table: e.head.col.table });
        }
        if let Some(column) = e.empty_in_list() {
            return Err(SsqlError::EmptyInList { column });
        }
        let ghost ge = e;
        let ghost es = self.attached@;
        let ghost old_filters = self.filters@;
        let sql = e.to_sql(&mut self.params);
        self.filters.push(sql);
        self.attached = Ghost(es.push(ge));
        proof {
            assert(es.push(ge).drop_last() =~= es);
            assert(strs(self.filters@) =~= strs(old_filters).push(expr_sql(ge, old(self).params@.len())));
        }
        Ok(())
    }

    /// Orders the output by `col`, ascending or descending, after any earlier ordering.
    pub fn order_by(&mut self, col: ColExpr, asc: bool) -> (r: Result<(), SsqlError>)
        requires
            old(self).wf(),
        ensures
            final(self).wf(),
            order_done(*old(self), *final(self), col, asc, r),
    {
        if !self.is_joined(&col.table) {
            return Err(SsqlError::TableNotJoined { table: col.table });
        }
        let mut s = col.full_column_name();
        if asc {
            s.append(" ASC");
        } else {
            s.append(" DESC");
        }
        let ghost old_order = self.order@;
        self.order.push(s);
        assert(strs(self.order@) =~= strs(old_order).push(s@));
        Ok(())
    }

    /// Orders the output by `col`, ascending; see [`QueryCore::order_by`].
    pub fn order_by_asc(&mut self, col: ColExpr) -> (r: Result<(), SsqlError>)
        requires
            old(self).wf(),
        ensures
            final(self).wf(),
            order_done(*old(self), *final(self), col, true, r),
    {
        self.order_by(col, true)
    }

    /// Orders the output by `col`, descending; see [`QueryCore::order_by`].
    pub fn order_by_desc(&mut self, col: ColExpr) -> (r: Result<(), SsqlError>)
        requires
            old(self).wf(),
        ensures
            final(self).wf(),
            order_done(*old(self), *final(self), col, false, r),
    {
        self.order_by(col, false)
    }

    /// The select list: every field of every table, aliased by its qualified name.
    pub fn select_list(&self) -> (r: String)
        ensures
            r@ == join_seqs(select_items(self.tables@), ","@),
    {
        let ghost ts = self.tables@;
        let mut r = String::new();
        let mut any = false;
        let mut i: usize = 0;
        while i < self.tables.len()
            invariant
                ts == self.tables@,
                i <= ts.len(),
                r@ == join_seqs(select_items(ts.take(i as int)), ","@),
                any == (select_items(ts.take(i as int)).len() > 0),
            decreases ts.len() - i,
        {
            let t = &self.tables[i];
            let ghost done = select_items(ts.take(i as int));
            let mut j: usize = 0;
            while j < t.fields.len()
                invariant
                    ts == self.tables@,
                    i < ts.len(),
                    *t == ts[i as int],
                    j <= t.fields@.len(),
                    done == select_items(ts.take(i as int)),
                    r@ == join_seqs(done + field_items(*t).take(j as int), ","@),
                    any == ((done + field_items(*t).take(j as int)).len() > 0),
                decreases t.fields@.len() - j,
            {
                let item = alias_text(&t.name, &t.fields[j]);
                let ghost acc = done + field_items(*t).take(j as int);
                proof {
                    lemma_join_push(acc, item@, ","@);
                    assert(done + field_items(*t).take(j + 1) =~= acc.push(item@));
                }
                if any {
                    r.append(",");
                }
                r.append(item.as_str());
                any = true;
                j = j + 1;
            }
            proof {
                assert(field_items(*t).take(j as int) =~= field_items(*t));
                assert(ts.take(i + 1).drop_last() =~= ts.take(i as int));
                assert(ts.take(i + 1).last() == ts[i as int]);
            }
            i = i + 1;
        }
        assert(ts.take(i as int) =~= ts);
        r
    }

    /// ` WHERE f1 AND f2 ...`, or nothing when no filter is attached.
    pub fn where_clause(&self) -> (r: String)
        ensures
            r@ == where_text(strs(self.filters@)),
    {
        if self.filters.len() == 0 {
            return String::new();
        }
        let body = join_strings(&self.filters, " AND ");
        let mut r = String::new();
        r.append(" WHERE ");
        r.append(body.as_str());
        r
    }

    /// ` ORDER BY o1, o2 ...`, or nothing when no ordering is given.
    pub fn order_clause(&self) -> (r: String)
        ensures
            r@ == order_text(strs(self.order@)),
    {
        if self.order.len() == 0 {
            return String::new();
        }
        let body = join_strings(&self.order, ", ");
        let mut r = String::new();
        r.append(" ORDER BY ");
        r.append(body.as_str());
        r
    }

    /// The statement to run.
    pub fn sql(&self) -> (r: String)
        ensures
            r@ == compiled_sql(*self),
    {
        match &self.raw {
            Some(raw) => raw.sql.clone(),
            None => {
                let mut r = String::new();
                r.append("SELECT ");
                let sel = self.select_list();
                r.append(sel.as_str());
                r.append(" FROM ");
                r.append(self.main_table.as_str());
                r.append(self.join.as_str());
                let w = self.where_clause();
                r.append(w.as_str());
                let o = self.order_clause();
                r.append(o.as_str());
                assert(r@ =~= compiled_sql(*self));
                r
            },
        }
    }

    /// The values to bind, in placeholder order.
    pub fn parameters(&self) -> (r: Vec<SqlValue>)
        ensures
            vals(r@) == vals(bound_params(*self)),
    {
        match &self.raw {
            Some(raw) => copy_values(&raw.params),
            None => copy_values(&self.params),
        }
    }
}

/// The placeholders of a sequence of filters are numbered 1, 2, ... without gap in the order
/// in which they are emitted, and the one numbered `i + 1` is bound to parameter `i`.
proof fn lemma_filters_slots(es: Seq<FilterExpr>)
    ensures
        filters_slots(es).len() == filters_params(es).len(),
        forall|i: int|
            0 <= i < filters_params(es).len() ==> #[trigger] filters_slots(es)[i] == (
                (i + 1) as nat,
                filters_params(es)[i],
            ),
    decreases es.len(),
{
    if es.len() > 0 {
        let d = es.drop_last();
        let e = es.last();
        let k = filters_params(d).len();
        lemma_filters_slots(d);
        lemma_expr_slots(e, k);
        assert forall|i: int| 0 <= i < filters_params(es).len() implies #[trigger] filters_slots(
            es,
        )[i] == ((i + 1) as nat, filters_params(es)[i]) by {
            if i < k {
                assert(filters_slots(es)[i] == filters_slots(d)[i]);
                assert(filters_params(es)[i] == filters_params(d)[i]);
            } else {
                assert(filters_slots(es)[i] == expr_slots(e, k)[i - k]);
                assert(filters_params(es)[i] == expr_params(e)[i - k]);
            }
        }
    }
}

/// For any filters attached to a builder, the placeholders emitted are numbered 1, 2, ... in
/// emission order, and the value bound to placeholder `i + 1` is the builder's parameter `i`.
pub proof fn lemma_placeholders_match_parameters(q: QueryCore)
    requires
        q.wf(),
    ensures
        filters_slots(q.attached@).len() == q.params@.len(),
        forall|i: int|
            0 <= i < q.params@.len() ==> #[trigger] filters_slots(q.attached@)[i] == (
                (i + 1) as nat,
                q.params@[i],
            ),
{
    lemma_filters_slots(q.attached@);
}

} // verus!
