use vstd::prelude::*;

use crate::descriptor::{FieldDef, ScalarKind, TableDescriptor};
use crate::error::SsqlError;
use crate::filter::qualified;
use crate::value::{vals, SqlValue, Val};

verus! {

/// One column of a result row, under its qualified name.
#[derive(Debug)]
pub struct Column {
    pub name: String,
    pub value: SqlValue,
}

/// One physical result row.
#[derive(Debug)]
pub struct Row {
    pub columns: Vec<Column>,
}

/// A table's record: one value per declared field, in declaration order.
#[derive(Debug, PartialEq, Eq)]
pub struct Record {
    pub values: Vec<SqlValue>,
}

/// One key of a field map.
#[derive(Debug, PartialEq, Eq)]
pub struct MapEntry {
    pub key: String,
    pub value: SqlValue,
}

/// A table's record keyed by field name, in declaration order.
#[derive(Debug, PartialEq, Eq)]
pub struct FieldMap {
    pub entries: Vec<MapEntry>,
}

pub open spec fn col_views(cols: Seq<Column>) -> Seq<(Seq<char>, Val)> {
    cols.map_values(|c: Column| (c.name@, c.value@))
}

/// The value of the first column named `key`, if any.
pub open spec fn lookup(cols: Seq<(Seq<char>, Val)>, key: Seq<char>) -> Option<Val>
    decreases cols.len(),
{
    if cols.len() == 0 {
        None
    } else if cols[0].0 == key {
        Some(cols[0].1)
    } else {
        lookup(cols.drop_first(), key)
    }
}

/// Whether a field of the given declaration can hold `v`.
pub open spec fn accepts(f: FieldDef, v: Val) -> bool {
    match v {
        Val::Null => f.nullable,
        Val::Bool(_) => f.kind == ScalarKind::Bool,
        Val::Int(_) => f.kind == ScalarKind::Int,
        Val::Text(_) => f.kind == ScalarKind::Text,
    }
}

/// The name under which field `j` of table `t` appears in a row.
pub open spec fn field_key(t: TableDescriptor, j: int) -> Seq<char> {
    qualified(t.name@, t.fields@[j].name@)
}

pub open spec fn row_value(t: TableDescriptor, row: Row, j: int) -> Option<Val> {
    lookup(col_views(row.columns@), field_key(t, j))
}

/// Field `j` of `t` is present in `row` with a value that the field accepts.
pub open spec fn field_ok(t: TableDescriptor, row: Row, j: int) -> bool {
    row_value(t, row, j) matches Some(v) && accepts(t.fields@[j], v)
}

pub open spec fn decodable(t: TableDescriptor, row: Row) -> bool {
    forall|j: int| 0 <= j < t.fields@.len() ==> #[trigger] field_ok(t, row, j)
}

/// The values of `t`'s fields in `row`, in declaration order.
pub open spec fn decoded(t: TableDescriptor, row: Row) -> Seq<Val> {
    Seq::new(t.fields@.len(), |j: int| row_value(t, row, j)->0)
}

impl Row {
    /// The value of the first column named `key`.
    pub fn get(&self, key: &String) -> (r: Option<SqlValue>)
        ensures
            r is Some <==> lookup(col_views(self.columns@), key@) is Some,
            r matches Some(v) ==> lookup(col_views(self.columns@), key@) == Some(v@),
    {
        let ghost cols = col_views(self.columns@);
        let mut i: usize = 0;
        assert(cols.subrange(0, cols.len() as int) =~= cols);
        while i < self.columns.len()
            invariant
                i <= cols.len(),
                cols == col_views(self.columns@),
                lookup(cols, key@) == lookup(cols.subrange(i as int, cols.len() as int), key@),
            decreases cols.len() - i,
        {
            let ghost rest = cols.subrange(i as int, cols.len() as int);
            if self.columns[i].name == *key {
                return Some(self.columns[i].value.copy_value());
            }
            assert(rest.drop_first() =~= cols.subrange(i + 1, cols.len() as int));
            i = i + 1;
        }
        None
    }
}

fn field_accepts(f: &FieldDef, v: &SqlValue) -> (r: bool)
    ensures
        r == accepts(*f, v@),
{
    match v {
        SqlValue::Null => f.nullable,
        SqlValue::Bool(_) => f.kind == ScalarKind::Bool,
        SqlValue::Int(_) => f.kind == ScalarKind::Int,
        SqlValue::Text(_) => f.kind == ScalarKind::Text,
    }
}

fn key_text(t: &TableDescriptor, j: usize) -> (r: String)
    requires
        j < t.fields@.len(),
    ensures
        r@ == field_key(*t, j as int),
{
    let mut r = t.name.clone();
    r.append(".");
    r.append(t.fields[j].name.as_str());
    r
}

impl TableDescriptor {
    /// Reads each declared field from `row` under its qualified name.
    ///
    /// Fails on the first field that is missing or holds a value of another kind than
    /// declared (null only where the field is nullable).
    pub fn to_record(&self, row: &Row) -> (r: Result<Record, SsqlError>)
        ensures
            r is Ok <==> decodable(*self, *row),
            r matches Ok(rec) ==> vals(rec.values@) == decoded(*self, *row),
            r matches Err(e) ==> exists|j: int|
                0 <= j < self.fields@.len() && !field_ok(*self, *row, j) && (forall|k: int|
                    0 <= k < j ==> field_ok(*self, *row, k)) && (e matches SsqlError::DecodeError {
                    column,
                } && column@ == field_key(*self, j)),
    {
        let mut values: Vec<SqlValue> = Vec::new();
        let mut j: usize = 0;
        while j < self.fields.len()
            invariant
                j <= self.fields@.len(),
                forall|k: int| 0 <= k < j ==> field_ok(*self, *row, k),
                vals(values@) == decoded(*self, *row).take(j as int),
            decreases self.fields@.len() - j,
        {
            let key = key_text(self, j);
            match row.get(&key) {
                None => {
                    assert(!field_ok(*self, *row, j as int));
                    return Err(SsqlError::DecodeError { column: key });
                },
                Some(v) => {
                    if !field_accepts(&self.fields[j], &v) {
                        assert(!field_ok(*self, *row, j as int));
                        return Err(SsqlError::DecodeError { column: key });
                    }
                    let ghost before = values@;
                    values.push(v);
                    assert(vals(before).len() == j);
                    assert(vals(values@) =~= decoded(*self, *row).take(j + 1));
                },
            }
            j = j + 1;
        }
        assert(decoded(*self, *row).take(j as int) =~= decoded(*self, *row));
        Ok(Record { values })
    }

    /// The record of `row` keyed by field name.
    pub fn to_map(&self, row: &Row) -> (r: Result<FieldMap, SsqlError>)
        ensures
            r is Ok <==> decodable(*self, *row),
            r matches Ok(m) ==> m.entries@.len() == self.fields@.len() && forall|j: int|
                0 <= j < self.fields@.len() ==> (#[trigger] m.entries@[j]).key@
                    == self.fields@[j].name@ && m.entries@[j].value@ == decoded(*self, *row)[j],
            r matches Err(e) ==> e is DecodeError,
    {
        let rec = self.to_record(row);
        match rec {
            Err(e) => Err(e),
            Ok(rec) => {
                let Record { values } = rec;
                let ghost vs = values@;
                let mut values = values;
                let mut entries: Vec<MapEntry> = Vec::new();
                let n = self.fields.len();
                let mut j: usize = 0;
                assert(vals(vs).len() == n);
                assert(vs.subrange(0, n as int) =~= vs);
                while j < n
                    invariant
                        n == self.fields@.len(),
                        vs.len() == n,
                        vals(vs) == decoded(*self, *row),
                        j <= n,
                        values@ == vs.subrange(j as int, n as int),
                        entries@.len() == j,
                        forall|k: int|
                            0 <= k < j ==> (#[trigger] entries@[k]).key@ == self.fields@[k].name@
                                && entries@[k].value@ == decoded(*self, *row)[k],
                    decreases n - j,
                {
                    let v = values.remove(0);
                    assert(v@ == vals(vs)[j as int]);
                    entries.push(MapEntry { key: self.fields[j].name.clone(), value: v });
                    assert(values@ =~= vs.subrange(j + 1, n as int));
                    j = j + 1;
                }
                Ok(FieldMap { entries })
            },
        }
    }

    /// Each field's values across `rows`: buffer `j` holds field `j` of every row, in order.
    pub fn to_column_buffers(&self, rows: &Vec<Row>) -> (r: Result<Vec<Vec<SqlValue>>, SsqlError>)
        ensures
            r is Ok <==> forall|i: int| 0 <= i < rows@.len() ==> decodable(*self, #[trigger] rows@[i]),
            r matches Ok(bufs) ==> bufs@.len() == self.fields@.len() && forall|j: int|
                0 <= j < self.fields@.len() ==> (#[trigger] bufs@[j])@.len() == rows@.len() && forall|
                    i: int,
                |
                    0 <= i < rows@.len() ==> (#[trigger] bufs@[j]@[i])@ == decoded(
                        *self,
                        rows@[i],
                    )[j],
            r matches Err(e) ==> e is DecodeError,
    {
        let mut records: Vec<Record> = Vec::new();
        let mut i: usize = 0;
        while i < rows.len()
            invariant
                i <= rows@.len(),
                records@.len() == i,
                forall|k: int| 0 <= k < i ==> decodable(*self, #[trigger] rows@[k]),
                forall|k: int|
                    0 <= k < i ==> vals((#[trigger] records@[k]).values@) == decoded(
                        *self,
                        rows@[k],
                    ),
            decreases rows@.len() - i,
        {
            match self.to_record(&rows[i]) {
                Err(e) => {
                    return Err(e);
                },
                Ok(rec) => {
                    records.push(rec);
                },
            }
            i = i + 1;
        }
        let n = self.fields.len();
        let mut bufs: Vec<Vec<SqlValue>> = Vec::new();
        let mut j: usize = 0;
        while j < n
            invariant
                n == self.fields@.len(),
                j <= n,
                records@.len() == rows@.len(),
                forall|k: int|
                    0 <= k < rows@.len() ==> vals((#[trigger] records@[k]).values@) == decoded(
                        *self,
                        rows@[k],
                    ),
                bufs@.len() == j,
                forall|jj: int|
                    0 <= jj < j ==> (#[trigger] bufs@[jj])@.len() == rows@.len() && forall|ii: int|
                        0 <= ii < rows@.len() ==> (#[trigger] bufs@[jj]@[ii])@ == decoded(
                            *self,
                            rows@[ii],
                        )[jj],
            decreases n - j,
        {
            let mut buf: Vec<SqlValue> = Vec::new();
            let mut i: usize = 0;
            while i < records.len()
                invariant
                    n == self.fields@.len(),
                    j < n,
                    i <= records@.len(),
                    records@.len() == rows@.len(),
                    forall|k: int|
                        0 <= k < rows@.len() ==> vals((#[trigger] records@[k]).values@) == decoded(
                            *self,
                            rows@[k],
                        ),
                    buf@.len() == i,
                    forall|ii: int|
                        0 <= ii < i ==> (#[trigger] buf@[ii])@ == decoded(*self, rows@[ii])[j as int],
                decreases records@.len() - i,
            {
                let rec = &records[i];
                assert(vals(rec.values@) == decoded(*self, rows@[i as int]));
                assert(vals(rec.values@).len() == n);
                assert(vals(rec.values@)[j as int] == rec.values@[j as int]@);
                buf.push(rec.values[j].copy_value());
                i = i + 1;
            }
            bufs.push(buf);
            j = j + 1;
        }
        Ok(bufs)
    }
}

/// Every table of a joined query can be read from `row`.
pub open spec fn all_decodable(ts: Seq<TableDescriptor>, row: Row) -> bool {
    forall|k: int| 0 <= k < ts.len() ==> decodable(#[trigger] ts[k], row)
}

/// `r` is what reading `row` for the tables `ts` gives: a record per table when every
/// table can be read, a decoding error otherwise.
pub open spec fn decodes_to(ts: Seq<TableDescriptor>, row: Row, r: Result<Vec<Record>, SsqlError>) -> bool {
    &&& r is Ok <==> all_decodable(ts, row)
    &&& r matches Ok(recs) ==> recs@.len() == ts.len() && forall|k: int|
        0 <= k < ts.len() ==> vals((#[trigger] recs@[k]).values@) == decoded(ts[k], row)
    &&& r matches Err(e) ==> e is DecodeError
}

/// Reads one record per table from the same physical row, in table order.
pub fn decode_joined(tables: &Vec<TableDescriptor>, row: &Row) -> (r: Result<Vec<Record>, SsqlError>)
    ensures
        decodes_to(tables@, *row, r),
{
    let mut recs: Vec<Record> = Vec::new();
    let mut k: usize = 0;
    while k < tables.len()
        invariant
            k <= tables@.len(),
            recs@.len() == k,
            forall|m: int| 0 <= m < k ==> decodable(#[trigger] tables@[m], *row),
            forall|m: int|
                0 <= m < k ==> vals((#[trigger] recs@[m]).values@) == decoded(tables@[m], *row),
        decreases tables@.len() - k,
    {
        match tables[k].to_record(row) {
            Err(e) => {
                return Err(e);
            },
            Ok(rec) => {
                recs.push(rec);
            },
        }
        k = k + 1;
    }
    Ok(recs)
}

} // verus!
