//! Row parsing: an abstract fetched row with column-keyed typed
//! extraction, the per-naming-table parsers, and the result/relational
//! wrappers around them.
//!
//! A parse never aborts on a single column: a missing column, like a
//! kind mismatch, leaves that field unset.  "Not found" is raised only
//! when the fetch itself failed or the parsed entity is structurally
//! empty.

use vstd::prelude::*;

use crate::entity::{all_undefined, entity_wf, Entity};
use crate::schema::{
    attr_fields,
    field_models,
    schema_wf,
    spec_not_found,
    EntitySchema,
    FieldModel,
};
use crate::text::views_of;
use crate::tristate::{Null, NullModel};
use crate::value::{kind_of, Value, ValueKind, ValueModel};

verus! {

/// One fetched column: its name key and its decoded value.
#[derive(Clone, PartialEq, Debug)]
pub struct Column {
    pub name: String,
    pub value: Value,
}

impl View for Column {
    type V = (Seq<char>, ValueModel);

    open spec fn view(&self) -> (Seq<char>, ValueModel) {
        (self.name@, self.value@)
    }
}

/// An already-fetched row: named, decoded columns in select-list order.
#[derive(Clone, PartialEq, Debug)]
pub struct Row {
    pub columns: Vec<Column>,
}

impl View for Row {
    type V = Seq<(Seq<char>, ValueModel)>;

    open spec fn view(&self) -> Seq<(Seq<char>, ValueModel)> {
        self.columns@.map_values(|c: Column| c@)
    }
}

/// The first column keyed `key`, if any.
pub open spec fn spec_find(
    cols: Seq<(Seq<char>, ValueModel)>,
    key: Seq<char>,
) -> Option<(Seq<char>, ValueModel)>
    decreases cols.len(),
{
    if cols.len() == 0 {
        Option::None
    } else if cols[0].0 == key {
        Option::Some(cols[0])
    } else {
        spec_find(cols.drop_first(), key)
    }
}

/// Typed extraction: the value of the first column keyed `key`, provided
/// that value is of kind `kind`; a missing key and a kind mismatch both
/// yield nothing.
pub open spec fn spec_extract(
    cols: Seq<(Seq<char>, ValueModel)>,
    key: Seq<char>,
    kind: ValueKind,
) -> Option<ValueModel> {
    match spec_find(cols, key) {
        Option::Some(c) => if kind_of(c.1) == kind {
            Option::Some(c.1)
        } else {
            Option::None
        },
        Option::None => Option::None,
    }
}

/// What extraction leaves in a slot: the value as present, or unset on
/// any per-column failure.
pub open spec fn extract_slot(
    cols: Seq<(Seq<char>, ValueModel)>,
    key: Seq<char>,
    kind: ValueKind,
) -> NullModel<ValueModel> {
    match spec_extract(cols, key, kind) {
        Option::Some(m) => NullModel::Value(m),
        Option::None => NullModel::Undefined,
    }
}

/// The attributed position of field `i`: how many attributed fields
/// precede it.
pub open spec fn attr_pos(fields: Seq<FieldModel>, i: int) -> int {
    attr_fields(fields.take(i)).len() as int
}

/// What parsing a row against a naming table's `keys` yields, slot by
/// slot: each attributed field is extracted by its key at the field's
/// attributed position, every other field stays unset.
pub open spec fn parse_model(
    fields: Seq<FieldModel>,
    keys: Seq<Seq<char>>,
    cols: Seq<(Seq<char>, ValueModel)>,
) -> Seq<NullModel<ValueModel>> {
    Seq::new(
        fields.len(),
        |i: int|
            if fields[i].is_attributed {
                extract_slot(cols, keys[attr_pos(fields, i)], fields[i].kind)
            } else {
                NullModel::Undefined
            },
    )
}

/// A first-match scan that passed `i` non-matching columns continues in
/// the remainder.
pub proof fn lemma_find_skip(cols: Seq<(Seq<char>, ValueModel)>, key: Seq<char>, i: int)
    requires
        0 <= i <= cols.len(),
        forall|j: int| 0 <= j < i ==> (#[trigger] cols[j]).0 != key,
    ensures
        spec_find(cols, key) == spec_find(cols.skip(i), key),
    decreases i,
{
    if i > 0 {
        assert(cols.drop_first().skip(i - 1) =~= cols.skip(i));
        lemma_find_skip(cols.drop_first(), key, i - 1);
    } else {
        assert(cols.skip(0) =~= cols);
    }
}

/// The typed extraction of the first column keyed `key`, or `None` when
/// the key is missing or the found value is not of kind `kind`.
pub fn try_get(row: &Row, key: &String, kind: ValueKind) -> (r: Option<Value>)
    ensures
        match r {
            Option::Some(v) => spec_extract(row@, key@, kind) == Option::Some(v@),
            Option::None => spec_extract(row@, key@, kind) is None,
        },
{
    let n = row.columns.len();
    let mut i: usize = 0;
    while i < n
        invariant
            i <= n,
            n == row@.len(),
            forall|j: int| 0 <= j < i ==> (#[trigger] row@[j]).0 != key@,
        decreases n - i,
    {
        if row.columns[i].name == *key {
            proof {
                lemma_find_skip(row@, key@, i as int);
                assert(row@.skip(i as int)[0] == row@[i as int]);
            }
            let v = &row.columns[i].value;
            if v.kind() == kind {
                return Option::Some(v.dup());
            } else {
                return Option::None;
            }
        }
        i = i + 1;
    }
    proof {
        lemma_find_skip(row@, key@, n as int);
        assert(row@.skip(n as int) =~= Seq::<(Seq<char>, ValueModel)>::empty());
    }
    Option::None
}

/// Parses `row` against the naming table whose disambiguated column
/// names are `keys` (one per attributed field, in declaration order):
/// each attributed field is extracted by its key, with the unset state
/// substituted on a per-column failure; unattributed fields stay unset.
pub fn parse_with_keys(schema: &EntitySchema, keys: &Vec<String>, row: &Row) -> (e: Entity)
    requires
        keys@.len() == attr_fields(field_models(schema.fields@)).len(),
    ensures
        entity_wf(e, *schema),
        e@ == parse_model(field_models(schema.fields@), views_of(keys@), row@),
{
    let ghost fields = field_models(schema.fields@);
    let mut slots: Vec<Null<Value>> = Vec::new();
    let mut k: usize = 0;
    let mut i: usize = 0;
    while i < schema.fields.len()
        invariant
            i <= schema.fields@.len(),
            fields == field_models(schema.fields@),
            keys@.len() == attr_fields(fields).len(),
            k as int == attr_pos(fields, i as int),
            k <= keys@.len(),
            slots@.len() == i,
            forall|j: int|
                0 <= j < i ==> (#[trigger] slots@[j])@ == parse_model(
                    fields,
                    views_of(keys@),
                    row@,
                )[j],
        decreases schema.fields@.len() - i,
    {
        proof {
            reveal_with_fuel(Seq::<FieldModel>::filter, 2);
            assert(fields.take(i + 1).drop_last() =~~= fields.take(i as int));
            assert(fields.take(i + 1).last() == fields[i as int]);
            if fields[i as int].is_attributed {
                assert(attr_fields(fields.take(i + 1)) =~~= attr_fields(
                    fields.take(i as int),
                ).push(fields[i as int]));
            } else {
                assert(attr_fields(fields.take(i + 1)) =~~= attr_fields(fields.take(i as int)));
            }
            assert(attr_fields(fields.take(fields.len() as int)).len() == attr_fields(
                fields,
            ).len()) by {
                assert(fields.take(fields.len() as int) =~= fields);
            }
            if fields[i as int].is_attributed {
                assert(attr_pos(fields, i as int) < attr_fields(fields).len()) by {
                    lemma_attr_count_mono(fields, i + 1, fields.len() as int);
                }
            }
        }
        if schema.fields[i].is_attributed {
            let extracted = try_get(row, &keys[k], schema.fields[i].kind);
            match extracted {
                Option::Some(v) => {
                    slots.push(Null::Value(v));
                },
                Option::None => {
                    slots.push(Null::Undefined);
                },
            }
            k = k + 1;
        } else {
            slots.push(Null::Undefined);
        }
        i = i + 1;
    }
    let e = Entity { slots };
    proof {
        assert(e@ =~~= parse_model(fields, views_of(keys@), row@));
    }
    e
}

/// Spec-level model of a query failure.
#[verifier::ext_equal]
pub enum QueryErrorModel {
    NotFound(Seq<char>),
    Query(Seq<char>),
}

/// A typed query failure: the fetch itself failed, or nothing matched.
#[derive(Clone, PartialEq, Debug)]
pub enum QueryError {
    NotFound(String),
    Query(String),
}

impl View for QueryError {
    type V = QueryErrorModel;

    open spec fn view(&self) -> QueryErrorModel {
        match self {
            QueryError::NotFound(m) => QueryErrorModel::NotFound(m@),
            QueryError::Query(m) => QueryErrorModel::Query(m@),
        }
    }
}

/// The keys of the base projection cover the attributed fields.
proof fn lemma_base_keys_len(schema: &EntitySchema)
    requires
        schema_wf(*schema),
    ensures
        schema.proj.renamed@.len() == attr_fields(field_models(schema.fields@)).len(),
{
}

/// Parses a row of the base table: each attributed field is extracted by
/// its table-disambiguated (`renamed`) column name, with the unset state
/// substituted on a per-column failure.
pub fn parse(schema: &EntitySchema, row: &Row) -> (e: Entity)
    requires
        schema_wf(*schema),
    ensures
        entity_wf(e, *schema),
        e@ == parse_model(field_models(schema.fields@), views_of(schema.proj.renamed@), row@),
{
    proof {
        lemma_base_keys_len(schema);
    }
    parse_with_keys(schema, &schema.proj.renamed, row)
}

/// Parses a row of the join whose alias group is `g`: extraction is
/// keyed by the group's alias-disambiguated column names.
pub fn parse_alias(schema: &EntitySchema, g: usize, row: &Row) -> (e: Entity)
    requires
        schema_wf(*schema),
        g < schema.groups@.len(),
    ensures
        entity_wf(e, *schema),
        e@ == parse_model(
            field_models(schema.fields@),
            views_of(schema.groups@[g as int].proj.renamed@),
            row@,
        ),
{
    parse_with_keys(schema, &schema.groups[g].proj.renamed, row)
}

/// What the result wrapper answers for a fetch outcome: the fetch error
/// becomes a typed query failure, a structurally empty parse becomes the
/// table's not-found failure, and anything else is the parsed entity.
pub open spec fn result_model(
    schema: EntitySchema,
    keys: Seq<Seq<char>>,
    fetched: Result<Row, String>,
    r: Result<Entity, QueryError>,
) -> bool {
    match fetched {
        Result::Err(m) => match r {
            Result::Err(e) => e@ == QueryErrorModel::Query(m@),
            Result::Ok(_) => false,
        },
        Result::Ok(row) => {
            let pm = parse_model(field_models(schema.fields@), keys, row@);
            if all_undefined(pm) {
                match r {
                    Result::Err(e) => e@ == QueryErrorModel::NotFound(
                        spec_not_found(schema.table_name@),
                    ),
                    Result::Ok(_) => false,
                }
            } else {
                match r {
                    Result::Ok(e) => e@ == pm,
                    Result::Err(_) => false,
                }
            }
        },
    }
}

/// Takes a fallible row fetch for the base table: a fetch failure is
/// surfaced as a typed query failure, a fetched row is parsed, and a
/// structurally empty parse is answered with the table's not-found
/// failure.
pub fn parse_result(schema: &EntitySchema, fetched: Result<Row, String>) -> (r: Result<
    Entity,
    QueryError,
>)
    requires
        schema_wf(*schema),
    ensures
        result_model(*schema, views_of(schema.proj.renamed@), fetched, r),
{
    match fetched {
        Result::Err(m) => Result::Err(QueryError::Query(m)),
        Result::Ok(row) => {
            let e = parse(schema, &row);
            if e.is_empty() {
                Result::Err(QueryError::NotFound(schema.not_found_message.clone()))
            } else {
                Result::Ok(e)
            }
        },
    }
}

/// The result wrapper of the alias group `g`, keyed by that group's
/// column names.
pub fn parse_result_alias(schema: &EntitySchema, g: usize, fetched: Result<Row, String>) -> (r:
    Result<Entity, QueryError>)
    requires
        schema_wf(*schema),
        g < schema.groups@.len(),
    ensures
        result_model(*schema, views_of(schema.groups@[g as int].proj.renamed@), fetched, r),
{
    match fetched {
        Result::Err(m) => Result::Err(QueryError::Query(m)),
        Result::Ok(row) => {
            let e = parse_alias(schema, g, &row);
            if e.is_empty() {
                Result::Err(QueryError::NotFound(schema.not_found_message.clone()))
            } else {
                Result::Ok(e)
            }
        },
    }
}

/// What the relational wrapper answers: the unset state for a
/// structurally empty parse, the parsed entity as present otherwise.
pub open spec fn relational_model(
    schema: EntitySchema,
    keys: Seq<Seq<char>>,
    cols: Seq<(Seq<char>, ValueModel)>,
    r: Null<Entity>,
) -> bool {
    let pm = parse_model(field_models(schema.fields@), keys, cols);
    match r@ {
        NullModel::Undefined => all_undefined(pm),
        NullModel::Value(m) => m == pm && !all_undefined(pm),
        NullModel::Absent => false,
    }
}

/// Maps a base-table parse into an explicit present/absent wrapper, for
/// embedding as an optional related sub-object: a structurally empty
/// parse is the unset state.
pub fn relational(schema: &EntitySchema, row: &Row) -> (r: Null<Entity>)
    requires
        schema_wf(*schema),
    ensures
        relational_model(*schema, views_of(schema.proj.renamed@), row@, r),
{
    let e = parse(schema, row);
    if e.is_empty() {
        Null::Undefined
    } else {
        Null::Value(e)
    }
}

/// The relational wrapper of the alias group `g`.
pub fn relational_alias(schema: &EntitySchema, g: usize, row: &Row) -> (r: Null<Entity>)
    requires
        schema_wf(*schema),
        g < schema.groups@.len(),
    ensures
        relational_model(*schema, views_of(schema.groups@[g as int].proj.renamed@), row@, r),
{
    let e = parse_alias(schema, g, row);
    if e.is_empty() {
        Null::Undefined
    } else {
        Null::Value(e)
    }
}

/// The attributed-field count over a prefix grows with the prefix.
proof fn lemma_attr_count_mono(fields: Seq<FieldModel>, i: int, j: int)
    requires
        0 <= i <= j <= fields.len(),
    ensures
        attr_fields(fields.take(i)).len() <= attr_fields(fields.take(j)).len(),
    decreases j - i,
{
    if i < j {
        lemma_attr_count_mono(fields, i + 1, j);
        reveal_with_fuel(Seq::<FieldModel>::filter, 2);
        assert(fields.take(i + 1).drop_last() =~~= fields.take(i));
    }
}

} // verus!
