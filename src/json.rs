use vstd::prelude::*;

use crate::descriptor::TableDescriptor;
use crate::error::SsqlError;
use crate::row::{decodable, decoded, Row};
use crate::value::{SqlValue, Val};
use serde_json::Value as JsonValue;

verus! {

/// A JSON object.
pub type JsonObject = serde_json::Map<String, JsonValue>;

#[verifier::external_type_specification]
#[verifier::external_body]
pub struct ExJsonValue(serde_json::Value);

#[verifier::external_type_specification]
#[verifier::external_body]
#[verifier::reject_recursive_types(K)]
#[verifier::reject_recursive_types(V)]
pub struct ExJsonMap<K, V>(serde_json::Map<K, V>);

/// What a JSON object holds: each key with the scalar that its JSON value encodes.
pub uninterp spec fn json_contents(m: JsonObject) -> Map<
    Seq<char>,
    Val,
>;

/// Relies on serde_json::Map::new: the new object has no key.
#[verifier::external_body]
fn json_object_new() -> (r: JsonObject)
    ensures
        json_contents(r) =~= Map::empty(),
{
    serde_json::Map::new()
}

/// Relies on serde_json::Map::insert: the key afterwards holds the JSON form of `value`
/// (null, a boolean, a number or a string), replacing what it held before.
#[verifier::external_body]
fn json_object_insert(
    m: &mut JsonObject,
    key: &String,
    value: &SqlValue,
)
    ensures
        json_contents(*final(m)) == json_contents(*old(m)).insert(key@, value@),
{
    let v = match value {
        SqlValue::Null => serde_json::Value::Null,
        SqlValue::Bool(b) => serde_json::Value::Bool(*b),
        SqlValue::Int(i) => serde_json::Value::from(*i),
        SqlValue::Text(s) => serde_json::Value::String(s.clone()),
    };
    m.insert(key.clone(), v);
}

/// The object that holds the `j`-th value under the `j`-th name, later names winning.
pub open spec fn object_of(names: Seq<Seq<char>>, values: Seq<Val>) -> Map<Seq<char>, Val>
    decreases names.len(),
{
    if names.len() == 0 || values.len() != names.len() {
        Map::empty()
    } else {
        object_of(names.drop_last(), values.drop_last()).insert(names.last(), values.last())
    }
}

impl TableDescriptor {
    /// The record of `row` as a JSON object keyed by field name.
    pub fn to_json(&self, row: &Row) -> (r: Result<
        JsonObject,
        SsqlError,
    >)
        ensures
            r is Ok <==> decodable(*self, *row),
            r matches Ok(m) ==> json_contents(m) == object_of(
                self.fields@.map_values(|f: crate::descriptor::FieldDef| f.name@),
                decoded(*self, *row),
            ),
            r matches Err(e) ==> e is DecodeError,
    {
        let ghost names = self.fields@.map_values(|f: crate::descriptor::FieldDef| f.name@);
        let ghost vs = decoded(*self, *row);
        let rec = match self.to_record(row) {
            Err(e) => {
                return Err(e);
            },
            Ok(rec) => rec,
        };
        let mut m = json_object_new();
        let n = self.fields.len();
        let mut j: usize = 0;
        assert(object_of(names.take(0), vs.take(0)) == Map::<Seq<char>, Val>::empty());
        assert(crate::value::vals(rec.values@).len() == n);
        while j < n
            invariant
                n == self.fields@.len(),
                j <= n,
                names == self.fields@.map_values(|f: crate::descriptor::FieldDef| f.name@),
                vs == decoded(*self, *row),
                crate::value::vals(rec.values@) == vs,
                rec.values@.len() == n,
                json_contents(m) == object_of(names.take(j as int), vs.take(j as int)),
            decreases n - j,
        {
            assert(crate::value::vals(rec.values@)[j as int] == rec.values@[j as int]@);
            json_object_insert(&mut m, &self.fields[j].name, &rec.values[j]);
            proof {
                let nn = names.take(j + 1);
                let vv = vs.take(j + 1);
                assert(nn.drop_last() =~= names.take(j as int));
                assert(vv.drop_last() =~= vs.take(j as int));
                assert(nn.last() == self.fields@[j as int].name@);
                assert(vv.last() == vs[j as int]);
            }
            j = j + 1;
        }
        assert(names.take(n as int) =~= names);
        assert(vs.take(n as int) =~= vs);
        Ok(m)
    }
}

} // verus!
