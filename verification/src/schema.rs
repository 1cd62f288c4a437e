//! The compiled entity schema: field descriptors, the base naming
//! projection, and one alias-scoped projection group per declared join
//! alias.  A schema is built once per entity and never mutated.

use vstd::prelude::*;

use crate::naming::{build_projection, projection_wf, Projection};
use crate::text::{snake_case, spec_snake, views_of};
use crate::value::ValueKind;

verus! {

/// Spec-level model of a field descriptor.
#[verifier::ext_equal]
pub struct FieldModel {
    pub name: Seq<char>,
    pub declared_ty: Seq<char>,
    pub inner_ty: Seq<char>,
    pub kind: ValueKind,
    pub is_attributed: bool,
    pub nullable: bool,
}

/// One field of an entity, as introspection describes it: its identifier,
/// declared type, the inner type unwrapped from the tri-state wrapper (or
/// the declared type itself when not wrapped), the value kind used for
/// typed row extraction, whether the field participates in table storage
/// and selection, and whether its wrapper has a distinguishable unset
/// state.
pub struct FieldDescriptor {
    pub name: String,
    pub declared_ty: String,
    pub inner_ty: String,
    pub kind: ValueKind,
    pub is_attributed: bool,
    pub nullable: bool,
}

impl View for FieldDescriptor {
    type V = FieldModel;

    open spec fn view(&self) -> FieldModel {
        FieldModel {
            name: self.name@,
            declared_ty: self.declared_ty@,
            inner_ty: self.inner_ty@,
            kind: self.kind,
            is_attributed: self.is_attributed,
            nullable: self.nullable,
        }
    }
}

/// The models of a descriptor list.
pub open spec fn field_models(fields: Seq<FieldDescriptor>) -> Seq<FieldModel> {
    fields.map_values(|f: FieldDescriptor| f@)
}

/// The attributed fields, in declaration order.
pub open spec fn attr_fields(fields: Seq<FieldModel>) -> Seq<FieldModel> {
    fields.filter(|f: FieldModel| f.is_attributed)
}

/// The plain column names of the attributed fields: the snake-case form
/// of each field identifier, in declaration order.
pub open spec fn plains_of(fields: Seq<FieldModel>) -> Seq<Seq<char>> {
    attr_fields(fields).map_values(|f: FieldModel| spec_snake(f.name))
}

/// One alias group: a join-alias name together with the projection scoped
/// to it.  Rows of that join are keyed by the group's `renamed` column
/// names, and its select list is the group's `aliased_all`.
pub struct AliasGroup {
    pub name: String,
    pub proj: Projection,
}

/// The declared alias names of a group list.
pub open spec fn group_names(groups: Seq<AliasGroup>) -> Seq<Seq<char>> {
    groups.map_values(|g: AliasGroup| g.name@)
}

/// The diagnostic used when a fetch for this table finds nothing.
pub open spec fn spec_not_found(table: Seq<char>) -> Seq<char> {
    "No matching record(s) found in "@ + table + " table"@
}

/// A compiled entity schema.  Immutable once assembled.
pub struct EntitySchema {
    pub entity_name: String,
    pub table_name: String,
    pub fields: Vec<FieldDescriptor>,
    pub proj: Projection,
    pub groups: Vec<AliasGroup>,
    pub not_found_message: String,
}

/// Well-formedness of a compiled schema: the base projection holds one
/// plain column name per attributed field and is built for the table
/// with the table name as disambiguating prefix; every alias group's
/// projection is built over the same plain names with the alias as
/// prefix; and the not-found diagnostic names the table.
pub open spec fn schema_wf(s: EntitySchema) -> bool {
    &&& s.proj.plain@.len() == attr_fields(field_models(s.fields@)).len()
    &&& projection_wf(s.proj, s.table_name@, s.table_name@, views_of(s.proj.plain@))
    &&& (forall|i: int|
        0 <= i < s.groups@.len() ==> projection_wf(
            (#[trigger] s.groups@[i]).proj,
            s.table_name@,
            s.groups@[i].name@,
            views_of(s.proj.plain@),
        ))
    &&& s.not_found_message@ == spec_not_found(s.table_name@)
}

/// The naming relation of a compiled schema: each plain column name is
/// the snake-case, lower-case form of its attributed field's identifier,
/// in declaration order.
pub open spec fn schema_named(s: EntitySchema) -> bool {
    views_of(s.proj.plain@) == plains_of(field_models(s.fields@))
}

/// `ix` is the position of the first alias group named `name`.
pub open spec fn group_found(groups: Seq<AliasGroup>, name: Seq<char>, ix: int) -> bool {
    &&& 0 <= ix < groups.len()
    &&& groups[ix].name@ == name
    &&& forall|j: int| 0 <= j < ix ==> (#[trigger] groups[j]).name@ != name
}

impl EntitySchema {
    /// Looks an alias group up by its alias name: the registry a
    /// consumer of a multi-way join selects the right projection and
    /// parser through.
    pub fn group_index(&self, name: &String) -> (r: Option<usize>)
        ensures
            match r {
                Option::Some(ix) => group_found(self.groups@, name@, ix as int),
                Option::None => forall|j: int|
                    0 <= j < self.groups@.len() ==> (#[trigger] self.groups@[j]).name@ != name@,
            },
    {
        let n = self.groups.len();
        let mut i: usize = 0;
        while i < n
            invariant
                i <= n,
                n == self.groups@.len(),
                forall|j: int| 0 <= j < i ==> (#[trigger] self.groups@[j]).name@ != name@,
            decreases n - i,
        {
            if self.groups[i].name == *name {
                return Option::Some(i);
            }
            i = i + 1;
        }
        Option::None
    }
}

/// Computes the plain column names of the attributed fields.
fn attributed_plains(fields: &Vec<FieldDescriptor>) -> (plains: Vec<String>)
    ensures
        views_of(plains@) == plains_of(field_models(fields@)),
{
    let mut plains: Vec<String> = Vec::new();
    let mut i: usize = 0;
    while i < fields.len()
        invariant
            i <= fields.len(),
            views_of(plains@) == plains_of(field_models(fields@.take(i as int))),
        decreases fields.len() - i,
    {
        proof {
            reveal_with_fuel(Seq::<FieldModel>::filter, 2);
            assert(fields@.take(i + 1).drop_last() =~= fields@.take(i as int));
            assert(field_models(fields@.take(i + 1)).drop_last() =~~= field_models(
                fields@.take(i as int),
            ));
            assert(field_models(fields@.take(i + 1)).last() == fields@[i as int]@);
        }
        if fields[i].is_attributed {
            let p = snake_case(&fields[i].name);
            plains.push(p);
            proof {
                let m0 = field_models(fields@.take(i as int));
                let m1 = field_models(fields@.take(i + 1));
                assert(attr_fields(m1) =~~= attr_fields(m0).push(fields@[i as int]@));
                assert(plains_of(m1) =~~= plains_of(m0).push(
                    spec_snake(fields@[i as int]@.name),
                ));
                assert(views_of(plains@) =~~= plains_of(m1));
            }
        } else {
            proof {
                let m0 = field_models(fields@.take(i as int));
                let m1 = field_models(fields@.take(i + 1));
                assert(attr_fields(m1) =~~= attr_fields(m0));
                assert(views_of(plains@) =~~= plains_of(m1));
            }
        }
        i = i + 1;
    }
    proof {
        assert(fields@.take(fields@.len() as int) =~= fields@);
    }
    plains
}

/// Assembles a compiled schema from the introspected table name, field
/// descriptors, and declared alias names.  This is the generation step
/// that the naming tables and alias groups come out of; it runs once per
/// entity.
pub fn assemble(
    entity_name: String,
    table_name: String,
    fields: Vec<FieldDescriptor>,
    aliases: Vec<String>,
) -> (s: EntitySchema)
    ensures
        schema_wf(s),
        schema_named(s),
        s.entity_name == entity_name,
        s.table_name == table_name,
        s.fields == fields,
        group_names(s.groups@) == views_of(aliases@),
{
    let plains = attributed_plains(&fields);
    let proj = build_projection(&table_name, &table_name, &plains);
    let mut groups: Vec<AliasGroup> = Vec::new();
    let mut i: usize = 0;
    while i < aliases.len()
        invariant
            i <= aliases.len(),
            views_of(plains@) == plains_of(field_models(fields@)),
            groups@.len() == i,
            forall|j: int|
                0 <= j < i ==> (#[trigger] groups@[j]).name@ == (aliases@[j])@,
            forall|j: int|
                0 <= j < i ==> projection_wf(
                    (#[trigger] groups@[j]).proj,
                    table_name@,
                    (aliases@[j])@,
                    plains_of(field_models(fields@)),
                ),
        decreases aliases.len() - i,
    {
        let alias = aliases[i].clone();
        let gproj = build_projection(&table_name, &alias, &plains);
        groups.push(AliasGroup { name: alias, proj: gproj });
        i = i + 1;
    }
    let mut not_found_message = String::new();
    not_found_message.append("No matching record(s) found in ");
    not_found_message.append(table_name.as_str());
    not_found_message.append(" table");
    proof {
        assert(Seq::<char>::empty() + "No matching record(s) found in "@ =~= "No matching record(s) found in "@);
    }
    let s = EntitySchema { entity_name, table_name, fields, proj, groups, not_found_message };
    proof {
        assert(group_names(s.groups@) =~~= views_of(aliases@));
    }
    s
}

} // verus!
