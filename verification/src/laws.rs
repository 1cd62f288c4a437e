//! The library's cross-cutting laws, stated over the spec models that
//! the functions' own contracts use and proved once for all schemas.

use vstd::prelude::*;

use crate::entity::{
    all_undefined,
    class_len,
    id_assigned,
    id_present,
    insert_id_rel,
    is_first_index,
    no_index,
    Entity,
    entity_wf,
};
use crate::naming::{aliased_model, renamed_model, tabled_model};
use crate::row::{attr_pos, extract_slot, lemma_find_skip, parse_model, spec_find};
use crate::schema::{
    attr_fields,
    field_models,
    plains_of,
    schema_named,
    schema_wf,
    EntitySchema,
    FieldModel,
};
use crate::text::spec_snake;
use crate::tristate::{model_is_value, NullModel};
use crate::value::{kind_of, ValueModel};

verus! {

/// For every well-formed schema with table `T` and attributed fields
/// `F1..Fn`, the four global naming tables hold, position by position,
/// `plain = snake_case(F)`, `tabled = "T.plain"`, `renamed = "T_plain"`
/// and `aliased = "T.plain AS T_plain"`.
pub proof fn lemma_naming_projection(s: EntitySchema, i: int)
    requires
        schema_wf(s),
        schema_named(s),
        0 <= i < plains_of(field_models(s.fields@)).len(),
    ensures
        ({
            let plains = plains_of(field_models(s.fields@));
            let t = s.table_name@;
            &&& (s.proj.plain@[i])@ == plains[i]
            &&& plains[i] == spec_snake(attr_fields(field_models(s.fields@))[i].name)
            &&& (s.proj.tabled@[i])@ == tabled_model(t, plains[i])
            &&& (s.proj.renamed@[i])@ == renamed_model(t, plains[i])
            &&& (s.proj.aliased@[i])@ == aliased_model(t, t, plains[i])
        }),
{
}

/// Dropping an equal prefix of two equal concatenations leaves equal
/// remainders.
proof fn lemma_concat_left_cancel(x: Seq<char>, a: Seq<char>, b: Seq<char>)
    requires
        x + a == x + b,
    ensures
        a == b,
{
    assert(a =~= (x + a).skip(x.len() as int));
    assert(b =~= (x + b).skip(x.len() as int));
}

/// Different disambiguating prefixes give different disambiguated
/// column names.
proof fn lemma_renamed_distinct(a: Seq<char>, t: Seq<char>, p: Seq<char>)
    requires
        a != t,
    ensures
        renamed_model(a, p) != renamed_model(t, p),
{
    if renamed_model(a, p) == renamed_model(t, p) {
        assert(((a + "_"@) + p).len() == ((t + "_"@) + p).len());
        assert(a.len() == t.len());
        assert(a =~= ((a + "_"@) + p).take(a.len() as int));
        assert(t =~= ((t + "_"@) + p).take(t.len() as int));
        assert(a =~= t);
    }
}

/// For every declared alias `A` other than the table name `T` and every
/// attributed field, the alias-scoped select expression is
/// `"T.plain AS A_plain"`, and it differs from the base table's select
/// expression `"T.plain AS T_plain"` for the same field.
pub proof fn lemma_alias_select_distinct(s: EntitySchema, g: int, i: int)
    requires
        schema_wf(s),
        schema_named(s),
        0 <= g < s.groups@.len(),
        0 <= i < plains_of(field_models(s.fields@)).len(),
        s.groups@[g].name@ != s.table_name@,
    ensures
        ({
            let plains = plains_of(field_models(s.fields@));
            let t = s.table_name@;
            let a = s.groups@[g].name@;
            &&& (s.groups@[g].proj.aliased@[i])@ == tabled_model(t, plains[i]) + " AS "@
                + renamed_model(a, plains[i])
            &&& (s.groups@[g].proj.aliased@[i])@ != (s.proj.aliased@[i])@
        }),
{
    let plains = plains_of(field_models(s.fields@));
    let t = s.table_name@;
    let a = s.groups@[g].name@;
    lemma_renamed_distinct(a, t, plains[i]);
    if (s.groups@[g].proj.aliased@[i])@ == (s.proj.aliased@[i])@ {
        lemma_concat_left_cancel(
            tabled_model(t, plains[i]) + " AS "@,
            renamed_model(a, plains[i]),
            renamed_model(t, plains[i]),
        );
    }
}

/// Parsing a row that holds exactly the given keys, in order and with
/// values of the fields' kinds, hands every attributed field its stored
/// value back: with `Entity::get`'s contract, re-reading each field via
/// its getter returns what the row held, and unattributed fields stay
/// unset.
pub proof fn lemma_parse_round_trip(
    fields: Seq<FieldModel>,
    keys: Seq<Seq<char>>,
    values: Seq<ValueModel>,
    i: int,
)
    requires
        keys.len() == attr_fields(fields).len(),
        values.len() == keys.len(),
        forall|k: int|
            0 <= k < values.len() ==> kind_of(#[trigger] values[k]) == attr_fields(
                fields,
            )[k].kind,
        forall|k1: int, k2: int|
            0 <= k1 < k2 < keys.len() ==> (#[trigger] keys[k1]) != (#[trigger] keys[k2]),
        0 <= i < fields.len(),
    ensures
        ({
            let cols = Seq::new(keys.len(), |k: int| (keys[k], values[k]));
            let parsed = parse_model(fields, keys, cols);
            &&& parsed.len() == fields.len()
            &&& (fields[i].is_attributed ==> parsed[i] == NullModel::Value(
                values[attr_pos(fields, i)],
            ))
            &&& (!fields[i].is_attributed ==> parsed[i] is Undefined)
        }),
{
    let cols = Seq::new(keys.len(), |k: int| (keys[k], values[k]));
    let parsed = parse_model(fields, keys, cols);
    if fields[i].is_attributed {
        lemma_attr_pos(fields, i);
        let ap = attr_pos(fields, i);
        assert(forall|j: int| 0 <= j < ap ==> (#[trigger] cols[j]).0 != keys[ap]);
        lemma_find_skip(cols, keys[ap], ap);
        assert(cols.skip(ap)[0] == cols[ap]);
        assert(spec_find(cols, keys[ap]) == Option::Some(cols[ap]));
        assert(kind_of(values[ap]) == attr_fields(fields)[ap].kind);
        assert(parsed[i] == extract_slot(cols, keys[ap], fields[i].kind));
    }
}

/// A filtered prefix is a prefix of the longer filtered prefix.
proof fn lemma_attr_prefix(fields: Seq<FieldModel>, m: int, j: int)
    requires
        0 <= m <= j <= fields.len(),
    ensures
        attr_fields(fields.take(m)).is_prefix_of(attr_fields(fields.take(j))),
    decreases j - m,
{
    if m < j {
        lemma_attr_prefix(fields, m + 1, j);
        reveal_with_fuel(Seq::<FieldModel>::filter, 2);
        assert(fields.take(m + 1).drop_last() =~~= fields.take(m));
        assert(attr_fields(fields.take(m)).is_prefix_of(attr_fields(fields.take(m + 1))));
    } else {
        assert(attr_fields(fields.take(m)).is_prefix_of(attr_fields(fields.take(j))));
    }
}

/// An attributed field stands in the attributed list at its attributed
/// position.
pub proof fn lemma_attr_pos(fields: Seq<FieldModel>, i: int)
    requires
        0 <= i < fields.len(),
        fields[i].is_attributed,
    ensures
        0 <= attr_pos(fields, i) < attr_fields(fields).len(),
        attr_fields(fields)[attr_pos(fields, i)] == fields[i],
{
    reveal_with_fuel(Seq::<FieldModel>::filter, 2);
    assert(fields.take(i + 1).drop_last() =~~= fields.take(i));
    assert(fields.take(i + 1).last() == fields[i]);
    assert(attr_fields(fields.take(i + 1)) =~~= attr_fields(fields.take(i)).push(fields[i]));
    lemma_attr_prefix(fields, i + 1, fields.len() as int);
    assert(fields.take(fields.len() as int) =~= fields);
    let ap = attr_pos(fields, i);
    assert(attr_fields(fields.take(i + 1))[ap] == fields[i]);
    assert(attr_fields(fields)[ap] == attr_fields(fields.take(i + 1))[ap]);
}

/// Clearing a nullable field leaves that slot unset and every other
/// slot as it was: with `Entity::get`'s contract the cleared field's
/// getter answers nothing, and once every slot is unset,
/// `Entity::is_empty`'s structural default comparison answers true.
pub proof fn lemma_clear_reads_unset(
    s: EntitySchema,
    pre: Entity,
    post: Seq<NullModel<ValueModel>>,
    i: int,
)
    requires
        entity_wf(pre, s),
        0 <= i < pre@.len(),
        field_models(s.fields@)[i].nullable,
        post == pre@.update(i, NullModel::<ValueModel>::Undefined),
    ensures
        !model_is_value(post[i]),
        post[i] is Undefined,
        forall|j: int| 0 <= j < post.len() && j != i ==> post[j] == pre@[j],
        all_undefined(pre@) ==> all_undefined(post),
{
}

/// A field list either has no `id` field or a first one.
proof fn lemma_first_id_exists(fields: Seq<FieldModel>, name: Seq<char>)
    requires
        !no_index(fields, name),
    ensures
        exists|ix: int| #[trigger] is_first_index(fields, name, ix),
    decreases fields.len(),
{
    if fields.len() > 0 {
        if fields[0].name == name {
            assert(is_first_index(fields, name, 0));
        } else {
            assert(!no_index(fields.drop_first(), name)) by {
                let w = choose|j: int|
                    0 <= j < fields.len() && (#[trigger] fields[j]).name == name;
                assert(fields.drop_first()[w - 1].name == name);
            }
            lemma_first_id_exists(fields.drop_first(), name);
            let ix = choose|ix: int| #[trigger] is_first_index(fields.drop_first(), name, ix);
            assert(fields[ix + 1].name == name);
            assert forall|j: int| 0 <= j < ix + 1 implies (#[trigger] fields[j]).name
                != name by {
                if j > 0 {
                    assert(fields.drop_first()[j - 1].name != name);
                }
            }
            assert(is_first_index(fields, name, ix + 1));
        }
    }
}

/// Assigning an identifier is conditional on absence, so doing it twice
/// in sequence with the same size word changes nothing the second time:
/// the identifier read after the second call is the identifier assigned
/// by the first.  `insert_id_rel` is exactly what `Entity::set_insert_id`
/// ensures of one call.
pub proof fn lemma_insert_id_idempotent(
    fields: Seq<FieldModel>,
    size: Seq<char>,
    e0: Seq<NullModel<ValueModel>>,
    e1: Seq<NullModel<ValueModel>>,
    e2: Seq<NullModel<ValueModel>>,
)
    requires
        insert_id_rel(fields, size, e0, e1),
        insert_id_rel(fields, size, e1, e2),
    ensures
        e2 == e1,
{
    if no_index(fields, "id"@) {
    } else {
        lemma_first_id_exists(fields, "id"@);
        let ix = choose|ix: int| #[trigger] is_first_index(fields, "id"@, ix);
        if id_present(e0[ix]) {
            assert(e1 == e0);
            assert(id_present(e1[ix]));
        } else {
            assert(id_assigned(e1[ix], class_len(size)));
            assert(class_len(size) >= 8);
            assert(id_present(e1[ix]));
        }
    }
}

} // verus!
