use vstd::prelude::*;

use crate::error::SsqlError;
use crate::filter::ColExpr;

verus! {

/// The kind of scalar that a field holds.
#[derive(Debug, Clone, Copy, PartialEq, Eq, Structural)]
pub enum ScalarKind {
    Bool,
    Int,
    Text,
}

/// A declared field of a table.
#[derive(Debug)]
pub struct FieldDef {
    pub name: String,
    pub kind: ScalarKind,
    pub nullable: bool,
}

/// A foreign-key relation from the owning table to `table`, joined on `condition`.
#[derive(Debug)]
pub struct Relation {
    pub table: String,
    pub condition: String,
}

/// What the query engine knows of one table.
#[derive(Debug)]
pub struct TableDescriptor {
    pub name: String,
    pub fields: Vec<FieldDef>,
    pub relations: Vec<Relation>,
    pub primary_key: Option<String>,
}

/// Each relation as the pair of its target table and its condition.
pub open spec fn rel_views(rels: Seq<Relation>) -> Seq<(Seq<char>, Seq<char>)> {
    rels.map_values(|r: Relation| (r.table@, r.condition@))
}

/// The condition of the first relation to table `t`, if any.
pub open spec fn on_clause(rels: Seq<(Seq<char>, Seq<char>)>, t: Seq<char>) -> Option<Seq<char>>
    decreases rels.len(),
{
    if rels.len() == 0 {
        None
    } else if rels[0].0 == t {
        Some(rels[0].1)
    } else {
        on_clause(rels.drop_first(), t)
    }
}

/// The names of the fields.
pub open spec fn field_names(fs: Seq<FieldDef>) -> Seq<Seq<char>> {
    fs.map_values(|f: FieldDef| f.name@)
}

/// The condition of the first relation in `rels` to the table named `target`.
pub fn find_relation(rels: &Vec<Relation>, target: &String) -> (r: Option<String>)
    ensures
        r is Some <==> on_clause(rel_views(rels@), target@) is Some,
        r is Some ==> r->0@ == on_clause(rel_views(rels@), target@)->0,
{
    let ghost views = rel_views(rels@);
    let mut i: usize = 0;
    assert(views.subrange(0, views.len() as int) =~= views);
    while i < rels.len()
        invariant
            i <= views.len(),
            views == rel_views(rels@),
            on_clause(views, target@) == on_clause(views.subrange(i as int, views.len() as int), target@),
        decreases views.len() - i,
    {
        let ghost rest = views.subrange(i as int, views.len() as int);
        if rels[i].table == *target {
            return Some(rels[i].condition.clone());
        }
        assert(rest.drop_first() =~= views.subrange(i + 1, views.len() as int));
        i = i + 1;
    }
    None
}

impl Relation {
    pub fn new(table: &str, condition: &str) -> (r: Relation)
        ensures
            r.table@ == table@,
            r.condition@ == condition@,
    {
        Relation { table: String::from_str(table), condition: String::from_str(condition) }
    }
}

impl FieldDef {
    pub fn new(name: &str, kind: ScalarKind, nullable: bool) -> (r: FieldDef)
        ensures
            r.name@ == name@,
            r.kind == kind,
            r.nullable == nullable,
    {
        FieldDef { name: String::from_str(name), kind, nullable }
    }
}

impl TableDescriptor {
    /// Each field name is declared once.
    pub open spec fn wf(&self) -> bool {
        forall|i: int, j: int|
            0 <= i < j < self.fields@.len() ==> self.fields@[i].name@ != self.fields@[j].name@
    }

    pub fn new(name: &str) -> (r: TableDescriptor)
        ensures
            r.wf(),
            r.name@ == name@,
            r.fields@.len() == 0,
            r.relations@.len() == 0,
            r.primary_key is None,
    {
        TableDescriptor {
            name: String::from_str(name),
            fields: Vec::new(),
            relations: Vec::new(),
            primary_key: None,
        }
    }

    /// Declares one more field.
    pub fn add_field(&mut self, field: FieldDef)
        requires
            old(self).wf(),
            !field_names(old(self).fields@).contains(field.name@),
        ensures
            final(self).wf(),
            final(self).fields@ == old(self).fields@.push(field),
            final(self).name == old(self).name,
            final(self).relations == old(self).relations,
            final(self).primary_key == old(self).primary_key,
    {
        let ghost before = self.fields@;
        self.fields.push(field);
        assert forall|i: int, j: int| 0 <= i < j < self.fields@.len() implies self.fields@[i].name@
            != self.fields@[j].name@ by {
            if j == before.len() {
                assert(field_names(before)[i] == before[i].name@);
            }
        }
    }

    /// Declares one more relation of this table.
    pub fn add_relation(&mut self, relation: Relation)
        ensures
            final(self).relations@ == old(self).relations@.push(relation),
            final(self).wf() == old(self).wf(),
            final(self).name == old(self).name,
            final(self).fields == old(self).fields,
            final(self).primary_key == old(self).primary_key,
    {
        self.relations.push(relation);
    }

    /// Declares the primary key.
    pub fn set_primary_key(&mut self, field: &str)
        ensures
            final(self).primary_key is Some,
            final(self).primary_key->0@ == field@,
            final(self).wf() == old(self).wf(),
            final(self).name == old(self).name,
            final(self).fields == old(self).fields,
            final(self).relations == old(self).relations,
    {
        self.primary_key = Some(String::from_str(field));
    }

    /// The table's name.
    pub fn table_name(&self) -> (r: String)
        ensures
            r@ == self.name@,
    {
        self.name.clone()
    }

    /// The names of the fields, in declaration order.
    pub fn field_names(&self) -> (r: Vec<String>)
        ensures
            r@.map_values(|x: String| x@) == field_names(self.fields@),
    {
        let mut r: Vec<String> = Vec::new();
        let mut i: usize = 0;
        while i < self.fields.len()
            invariant
                i <= self.fields@.len(),
                r@.map_values(|x: String| x@) == field_names(self.fields@).take(i as int),
            decreases self.fields@.len() - i,
        {
            let ghost before = r@;
            r.push(self.fields[i].name.clone());
            assert(before.map_values(|x: String| x@).len() == i);
            assert(r@.len() == i + 1);
            assert(r@[i as int]@ == self.fields@[i as int].name@);
            assert(r@.map_values(|x: String| x@) =~= field_names(self.fields@).take(i + 1));
            i = i + 1;
        }
        assert(field_names(self.fields@).take(i as int) =~= field_names(self.fields@));
        r
    }

    /// The condition on which the table named `target` joins this one.
    pub fn relation_lookup(&self, target: &String) -> (r: Option<String>)
        ensures
            r is Some <==> on_clause(rel_views(self.relations@), target@) is Some,
            r is Some ==> r->0@ == on_clause(rel_views(self.relations@), target@)->0,
    {
        find_relation(&self.relations, target)
    }

    /// The column `field` of this table, if the table declares it.
    pub fn col(&self, field: &str) -> (r: Result<ColExpr, SsqlError>)
        ensures
            r is Ok <==> field_names(self.fields@).contains(field@),
            r matches Ok(c) ==> c.table@ == self.name@ && c.field@ == field@,
            r matches Err(e) ==> e matches SsqlError::ColumnNotFound { table, field: f }
                && table@ == self.name@ && f@ == field@,
    {
        let wanted = String::from_str(field);
        let mut i: usize = 0;
        while i < self.fields.len()
            invariant
                i <= self.fields@.len(),
                wanted@ == field@,
                forall|j: int| 0 <= j < i ==> self.fields@[j].name@ != field@,
            decreases self.fields@.len() - i,
        {
            if self.fields[i].name == wanted {
                assert(field_names(self.fields@)[i as int] == field@);
                return Ok(ColExpr { table: self.name.clone(), field: wanted });
            }
            i = i + 1;
        }
        assert(!field_names(self.fields@).contains(field@)) by {
            if field_names(self.fields@).contains(field@) {
                let j = choose|j: int| 0 <= j < field_names(self.fields@).len()
                    && field_names(self.fields@)[j] == field@;
                assert(self.fields@[j].name@ == field@);
            }
        }
        Err(SsqlError::ColumnNotFound { table: self.name.clone(), field: wanted })
    }
}

} // verus!
