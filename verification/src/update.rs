//! The partial-update statement builder: one parameterized `UPDATE`
//! statement per entity instance, binding every non-identifier
//! attributed field in declaration order and the identifier last.
//!
//! Every non-identifier attributed field is included unconditionally —
//! also one whose slot the caller left unset; its bind is then the
//! absent parameter.  The single round trip that executes the statement
//! is the surrounding application's concern; the returned row comes back
//! through the base row parser.

use vstd::prelude::*;

use crate::entity::{entity_wf, Entity};
use crate::schema::{field_models, schema_wf, EntitySchema, FieldModel};
use crate::text::{dec_string, join, spec_dec, spec_join, spec_snake, views_of};
use crate::tristate::NullModel;
use crate::value::{Value, ValueModel};

verus! {

/// Whether a field is bound by the update: attributed and not the
/// identifier.
pub open spec fn is_update_field(f: FieldModel) -> bool {
    f.is_attributed && f.name != "id"@
}

/// The fields the update binds, in declaration order.
pub open spec fn update_fields(fields: Seq<FieldModel>) -> Seq<FieldModel> {
    fields.filter(|f: FieldModel| is_update_field(f))
}

/// `"{plain} = ${pos}"`: one assignment fragment of the SET clause.
pub open spec fn set_fragment(plain: Seq<char>, pos: int) -> Seq<char> {
    plain + " = $"@ + spec_dec(pos as nat)
}

/// The assignment fragments of the SET clause, with placeholder
/// positions counted from `$1` in declaration order.
pub open spec fn set_fragments(fields: Seq<FieldModel>) -> Seq<Seq<char>> {
    Seq::new(
        update_fields(fields).len(),
        |j: int| set_fragment(spec_snake(update_fields(fields)[j].name), j + 1),
    )
}

/// The whole statement: `UPDATE <table> SET <fragments> WHERE id = $<n>
/// RETURNING <select list>`, where `n` is one past the update-field
/// count and the select list is the base projection's aliased "all
/// columns" string.
pub open spec fn update_sql_model(schema: EntitySchema) -> Seq<char> {
    let fields = field_models(schema.fields@);
    "UPDATE "@ + schema.table_name@ + " SET "@ + spec_join(set_fragments(fields), ", "@)
        + " WHERE id = $"@ + spec_dec((update_fields(fields).len() + 1) as nat) + " RETURNING "@
        + schema.proj.aliased_all@
}

/// A slot as a bind parameter: its value when present, absent otherwise.
pub open spec fn opt_of(m: NullModel<ValueModel>) -> Option<ValueModel> {
    match m {
        NullModel::Value(v) => Option::Some(v),
        _ => Option::None,
    }
}

/// The bind parameters of the update fields, in declaration order.
pub open spec fn binds_of(
    fields: Seq<FieldModel>,
    slots: Seq<NullModel<ValueModel>>,
) -> Seq<Option<ValueModel>>
    decreases fields.len(),
{
    if fields.len() == 0 {
        Seq::<Option<ValueModel>>::empty()
    } else {
        binds_of(fields.drop_last(), slots.drop_last()) + if is_update_field(fields.last()) {
            seq![opt_of(slots.last())]
        } else {
            Seq::<Option<ValueModel>>::empty()
        }
    }
}

/// The identifier bind: the slot of the first field named `id`, absent
/// when no field is.
pub open spec fn id_slot(
    fields: Seq<FieldModel>,
    slots: Seq<NullModel<ValueModel>>,
) -> Option<ValueModel>
    decreases fields.len(),
{
    if fields.len() == 0 {
        Option::None
    } else if fields[0].name == "id"@ {
        opt_of(slots[0])
    } else {
        id_slot(fields.drop_first(), slots.drop_first())
    }
}

/// The views of a bind list.
pub open spec fn opt_views(binds: Seq<Option<Value>>) -> Seq<Option<ValueModel>> {
    binds.map_values(
        |o: Option<Value>|
            match o {
                Option::Some(v) => Option::<ValueModel>::Some(v@),
                Option::None => Option::<ValueModel>::None,
            },
    )
}

/// One built update: the parameterized statement and its bind
/// parameters, the update fields in declaration order and the
/// identifier last.
pub struct UpdateStatement {
    pub sql: String,
    pub binds: Vec<Option<Value>>,
}

/// An id scan that passed `i` fields named otherwise continues in the
/// remainder.
proof fn lemma_id_slot_skip(
    fields: Seq<FieldModel>,
    slots: Seq<NullModel<ValueModel>>,
    i: int,
)
    requires
        0 <= i <= fields.len(),
        fields.len() == slots.len(),
        forall|j: int| 0 <= j < i ==> (#[trigger] fields[j]).name != "id"@,
    ensures
        id_slot(fields, slots) == id_slot(fields.skip(i), slots.skip(i)),
    decreases i,
{
    if i > 0 {
        assert(fields.drop_first().skip(i - 1) =~= fields.skip(i));
        assert(slots.drop_first().skip(i - 1) =~= slots.skip(i));
        lemma_id_slot_skip(fields.drop_first(), slots.drop_first(), i - 1);
    } else {
        assert(fields.skip(0) =~= fields);
        assert(slots.skip(0) =~= slots);
    }
}

/// The identifier bind of `entity`: the value of its first `id` field,
/// absent when the schema has none or the slot holds no value.
fn id_bind(schema: &EntitySchema, entity: &Entity) -> (r: Option<Value>)
    requires
        entity_wf(*entity, *schema),
    ensures
        ({
            let fields = field_models(schema.fields@);
            match r {
                Option::Some(v) => id_slot(fields, entity@) == Option::Some(v@),
                Option::None => id_slot(fields, entity@) is None,
            }
        }),
{
    let ghost fields = field_models(schema.fields@);
    let n = schema.fields.len();
    let mut i: usize = 0;
    while i < n
        invariant
            i <= n,
            n == schema.fields@.len(),
            entity@.len() == n,
            fields == field_models(schema.fields@),
            forall|j: int| 0 <= j < i ==> (#[trigger] fields[j]).name != "id"@,
        decreases n - i,
    {
        let is_id = {
            let mut id: String = String::new();
            id.append("id");
            proof {
                assert(Seq::<char>::empty() + "id"@ =~= "id"@);
            }
            schema.fields[i].name == id
        };
        if is_id {
            proof {
                lemma_id_slot_skip(fields, entity@, i as int);
                assert(fields.skip(i as int)[0] == fields[i as int]);
                assert(entity@.skip(i as int)[0] == entity@[i as int]);
            }
            return entity.get(i);
        }
        i = i + 1;
    }
    proof {
        lemma_id_slot_skip(fields, entity@, n as int);
        assert(fields.skip(n as int) =~= Seq::<FieldModel>::empty());
    }
    Option::None
}

/// Builds the parameterized partial-update statement for `entity`: every
/// non-identifier attributed field is assigned its placeholder in
/// declaration order, the identifier placeholder comes last, and the
/// bind list carries the slots' values in the same order.
pub fn build_update(schema: &EntitySchema, entity: &Entity) -> (u: UpdateStatement)
    requires
        schema_wf(*schema),
        entity_wf(*entity, *schema),
        schema.fields@.len() < usize::MAX,
    ensures
        u.sql@ == update_sql_model(*schema),
        opt_views(u.binds@) == binds_of(field_models(schema.fields@), entity@).push(
            id_slot(field_models(schema.fields@), entity@),
        ),
{
    let ghost fields = field_models(schema.fields@);
    let n = schema.fields.len();
    let mut fragments: Vec<String> = Vec::new();
    let mut binds: Vec<Option<Value>> = Vec::new();
    let mut i: usize = 0;
    while i < n
        invariant
            i <= n,
            n == schema.fields@.len(),
            entity@.len() == n,
            fields == field_models(schema.fields@),
            binds@.len() == update_fields(fields.take(i as int)).len(),
            binds@.len() <= i,
            fragments@.len() == binds@.len(),
            opt_views(binds@) == binds_of(fields.take(i as int), entity@.take(i as int)),
            views_of(fragments@) =~~= set_fragments(fields.take(i as int)),
        decreases n - i,
    {
        proof {
            reveal_with_fuel(Seq::<FieldModel>::filter, 2);
            assert(fields.take(i + 1).drop_last() =~~= fields.take(i as int));
            assert(entity@.take(i + 1).drop_last() =~= entity@.take(i as int));
            assert(fields.take(i + 1).last() == fields[i as int]);
            assert(entity@.take(i + 1).last() == entity@[i as int]);
            if is_update_field(fields[i as int]) {
                assert(update_fields(fields.take(i + 1)) =~~= update_fields(
                    fields.take(i as int),
                ).push(fields[i as int]));
            } else {
                assert(update_fields(fields.take(i + 1)) =~~= update_fields(fields.take(i as int)));
            }
        }
        let is_id = {
            let mut id: String = String::new();
            id.append("id");
            proof {
                assert(Seq::<char>::empty() + "id"@ =~= "id"@);
            }
            schema.fields[i].name == id
        };
        if schema.fields[i].is_attributed && !is_id {
            let ghost k = binds@.len() as int;
            let plain = crate::text::snake_case(&schema.fields[i].name);
            let pos = binds.len() + 1;
            let mut frag = plain;
            frag.append(" = $");
            let num = dec_string(pos as u64);
            frag.append(num.as_str());
            proof {
                assert(frag@ == set_fragment(spec_snake(fields[i as int].name), k + 1));
            }
            fragments.push(frag);
            binds.push(entity.get(i));
            proof {
                let uf0 = update_fields(fields.take(i as int));
                let uf1 = update_fields(fields.take(i + 1));
                assert(uf1 == uf0.push(fields[i as int]));
                assert(forall|j: int| 0 <= j < k ==> uf1[j] == uf0[j]);
                assert(opt_views(binds@) =~~= binds_of(
                    fields.take(i + 1),
                    entity@.take(i + 1),
                ));
                assert(views_of(fragments@).len() == k + 1);
                assert(set_fragments(fields.take(i + 1)).len() == k + 1);
                assert forall|j: int| 0 <= j < k + 1 implies views_of(fragments@)[j]
                    == set_fragments(fields.take(i + 1))[j] by {
                    assert(set_fragments(fields.take(i + 1))[j] == set_fragment(
                        spec_snake(uf1[j].name),
                        j + 1,
                    ));
                    if j < k {
                        assert(views_of(fragments@)[j] == set_fragments(
                            fields.take(i as int),
                        )[j]);
                        assert(set_fragments(fields.take(i as int))[j] == set_fragment(
                            spec_snake(uf0[j].name),
                            j + 1,
                        ));
                    }
                }
                assert(views_of(fragments@) =~~= set_fragments(fields.take(i + 1)));
            }
        } else {
            proof {
                assert(opt_views(binds@) =~~= binds_of(
                    fields.take(i + 1),
                    entity@.take(i + 1),
                ));
                assert(views_of(fragments@) =~~= set_fragments(fields.take(i + 1)));
            }
        }
        i = i + 1;
    }
    proof {
        assert(fields.take(n as int) =~= fields);
        assert(entity@.take(n as int) =~= entity@);
    }
    let set_clause = join(&fragments, ", ");
    let mut sql: String = String::new();
    sql.append("UPDATE ");
    sql.append(schema.table_name.as_str());
    sql.append(" SET ");
    sql.append(set_clause.as_str());
    sql.append(" WHERE id = $");
    let last_pos = dec_string((binds.len() + 1) as u64);
    sql.append(last_pos.as_str());
    sql.append(" RETURNING ");
    sql.append(schema.proj.aliased_all.as_str());
    proof {
        assert(Seq::<char>::empty() + "UPDATE "@ =~= "UPDATE "@);
        assert(sql@ == update_sql_model(*schema));
    }
    let id_value = id_bind(schema, entity);
    let mut binds = binds;
    binds.push(id_value);
    let u = UpdateStatement { sql, binds };
    proof {
        assert(opt_views(u.binds@) =~~= binds_of(fields, entity@).push(id_slot(fields, entity@)));
    }
    u
}

} // verus!
