//! Entity instances and their generated accessors: getters that
//! normalize the tri-state wrapper, setters, clearers, with-slot builder
//! methods, and the conditional identifier generator.
//!
//! An instance holds one tri-state slot per declared field, in
//! declaration order; the schema it was built for supplies names, kinds
//! and nullability.

use vstd::prelude::*;
use vstd::pervasive::VecAdditionalExecFns;

use crate::ident::{
    random_alphanumeric,
    ID_LEN_LARGE,
    ID_LEN_MAXIMAL,
    ID_LEN_MEDIUM,
    ID_LEN_SMALL,
};
use crate::schema::{field_models, EntitySchema, FieldModel};
use crate::text::{ascii_lower, spec_lower, views_of};
use crate::tristate::{model_is_value, Null, NullModel};
use crate::value::{default_model, Value, ValueModel};

verus! {

/// One populated entity instance: a tri-state slot per declared field.
#[derive(Clone, PartialEq, Debug)]
pub struct Entity {
    pub slots: Vec<Null<Value>>,
}

impl View for Entity {
    type V = Seq<NullModel<ValueModel>>;

    open spec fn view(&self) -> Seq<NullModel<ValueModel>> {
        self.slots@.map_values(|n: Null<Value>| n@)
    }
}

/// An instance belongs to a schema when it has one slot per field.
pub open spec fn entity_wf(e: Entity, s: EntitySchema) -> bool {
    e@.len() == s.fields@.len()
}

/// Whether every slot is unset: the all-unset default that "structurally
/// empty" compares against.
pub open spec fn all_undefined(m: Seq<NullModel<ValueModel>>) -> bool {
    forall|i: int| 0 <= i < m.len() ==> (#[trigger] m[i]) is Undefined
}

/// What storing a value does to it: a text list drops its empty entries,
/// everything else is stored as given.
pub open spec fn norm_value(m: ValueModel) -> ValueModel {
    match m {
        ValueModel::TextList(l) => ValueModel::TextList(
            l.filter(|s: Seq<char>| s.len() != 0),
        ),
        _ => m,
    }
}

/// Whether a slot holds a non-empty text: the condition under which the
/// identifier is considered already assigned.
pub open spec fn id_present(m: NullModel<ValueModel>) -> bool {
    match m {
        NullModel::Value(ValueModel::Text(t)) => t.len() > 0,
        _ => false,
    }
}

/// Whether a slot holds a text of length `n`: what a freshly generated
/// identifier looks like.
pub open spec fn id_assigned(m: NullModel<ValueModel>, n: nat) -> bool {
    match m {
        NullModel::Value(ValueModel::Text(t)) => t.len() == n,
        _ => false,
    }
}

/// `ix` is the position of the first field named `name`.
pub open spec fn is_first_index(fields: Seq<FieldModel>, name: Seq<char>, ix: int) -> bool {
    &&& 0 <= ix < fields.len()
    &&& fields[ix].name == name
    &&& forall|j: int| 0 <= j < ix ==> (#[trigger] fields[j]).name != name
}

/// No field bears `name`.
pub open spec fn no_index(fields: Seq<FieldModel>, name: Seq<char>) -> bool {
    forall|j: int| 0 <= j < fields.len() ==> (#[trigger] fields[j]).name != name
}

/// The identifier length selected by a size word: `"sm"`, `"md"` and
/// `"lg"` (compared after ASCII case folding) pick the small, medium and
/// large classes, anything else the maximal one.
pub open spec fn class_len(size: Seq<char>) -> nat {
    if spec_lower(size) == "sm"@ {
        ID_LEN_SMALL as nat
    } else if spec_lower(size) == "md"@ {
        ID_LEN_MEDIUM as nat
    } else if spec_lower(size) == "lg"@ {
        ID_LEN_LARGE as nat
    } else {
        ID_LEN_MAXIMAL as nat
    }
}

/// The relation one call of `Entity::set_insert_id` with size word
/// `size` establishes between the slots before and after it: without an
/// `id` field, and with an identifier already present, nothing changes;
/// otherwise the `id` slot alone is given a fresh text of the selected
/// length.
pub open spec fn insert_id_rel(
    fields: Seq<FieldModel>,
    size: Seq<char>,
    pre: Seq<NullModel<ValueModel>>,
    post: Seq<NullModel<ValueModel>>,
) -> bool {
    &&& post.len() == pre.len()
    &&& (no_index(fields, "id"@) ==> post == pre)
    &&& (forall|ix: int|
        is_first_index(fields, "id"@, ix) ==> if id_present(pre[ix]) {
            post == pre
        } else {
            (forall|j: int| 0 <= j < pre.len() && j != ix ==> post[j] == pre[j]) && id_assigned(
                post[ix],
                class_len(size),
            )
        })
}

/// The position of the first field of `schema` named `name`, if any.
pub fn field_index(schema: &EntitySchema, name: &String) -> (r: Option<usize>)
    ensures
        match r {
            Option::Some(ix) => is_first_index(field_models(schema.fields@), name@, ix as int),
            Option::None => no_index(field_models(schema.fields@), name@),
        },
{
    let mut i: usize = 0;
    while i < schema.fields.len()
        invariant
            i <= schema.fields@.len(),
            forall|j: int|
                0 <= j < i ==> (#[trigger] field_models(schema.fields@)[j]).name != name@,
        decreases schema.fields@.len() - i,
    {
        if schema.fields[i].name == *name {
            return Option::Some(i);
        }
        i = i + 1;
    }
    Option::None
}

impl Entity {
    /// The all-unset instance of a schema: one unset slot per field.
    pub fn empty(schema: &EntitySchema) -> (e: Entity)
        ensures
            entity_wf(e, *schema),
            all_undefined(e@),
    {
        let mut slots: Vec<Null<Value>> = Vec::new();
        let n = schema.fields.len();
        let mut i: usize = 0;
        while i < n
            invariant
                i <= n,
                slots@.len() == i,
                forall|j: int| 0 <= j < i ==> (#[trigger] slots@[j]) is Undefined,
            decreases n - i,
        {
            slots.push(Null::Undefined);
            i = i + 1;
        }
        Entity { slots }
    }

    /// Whether this instance equals the all-unset default.
    pub fn is_empty(&self) -> (r: bool)
        ensures
            r == all_undefined(self@),
    {
        let mut i: usize = 0;
        while i < self.slots.len()
            invariant
                i <= self.slots@.len(),
                forall|j: int| 0 <= j < i ==> (#[trigger] self.slots@[j]@) is Undefined,
            decreases self.slots@.len() - i,
        {
            match &self.slots[i] {
                Null::Undefined => {},
                _ => {
                    proof {
                        assert(self@[i as int] == self.slots@[i as int]@);
                        assert(!(self@[i as int] is Undefined));
                    }
                    return false;
                },
            }
            i = i + 1;
        }
        true
    }

    /// The value of slot `i`, or `None` when the slot is unset or absent.
    pub fn get(&self, i: usize) -> (r: Option<Value>)
        requires
            i < self@.len(),
        ensures
            match r {
                Option::Some(v) => self@[i as int] == NullModel::<ValueModel>::Value(v@),
                Option::None => !model_is_value(self@[i as int]),
            },
    {
        match &self.slots[i] {
            Null::Value(v) => Option::Some(v.dup()),
            _ => Option::None,
        }
    }

    /// The value of slot `i`, or the type-appropriate default of the
    /// field's kind when the slot is unset or absent.
    pub fn get_or_default(&self, schema: &EntitySchema, i: usize) -> (r: Value)
        requires
            entity_wf(*self, *schema),
            i < self@.len(),
        ensures
            r@ == match self@[i as int] {
                NullModel::Value(m) => m,
                _ => default_model(field_models(schema.fields@)[i as int].kind),
            },
    {
        match self.get(i) {
            Option::Some(v) => v,
            Option::None => Value::default_of(schema.fields[i].kind),
        }
    }

    /// Stores `value` in slot `i` as present.  A text list drops its
    /// empty entries on the way in; every other value is stored as given.
    pub fn set(self, i: usize, value: Value) -> (r: Entity)
        requires
            i < self@.len(),
        ensures
            r@ == self@.update(i as int, NullModel::Value(norm_value(value@))),
    {
        let stored = normalize_value(value);
        let mut slots = self.slots;
        slots.set(i, Null::Value(stored));
        let r = Entity { slots };
        proof {
            assert(r@ =~~= self@.update(i as int, NullModel::Value(norm_value(value@))));
        }
        r
    }

    /// Stores the value of `value` in slot `i` when one is there; an
    /// absent input leaves the slot untouched.
    pub fn set_opt(self, i: usize, value: &Option<Value>) -> (r: Entity)
        requires
            i < self@.len(),
        ensures
            r@ == match value {
                Option::Some(v) => self@.update(i as int, NullModel::Value(v@)),
                Option::None => self@,
            },
    {
        match value {
            Option::Some(v) => {
                let mut slots = self.slots;
                slots.set(i, Null::Value(v.dup()));
                let r = Entity { slots };
                proof {
                    assert(r@ =~~= self@.update(i as int, NullModel::Value(v@)));
                }
                r
            },
            Option::None => self,
        }
    }

    /// Replaces slot `i` with the given wrapper state as-is: the
    /// with-field builder form.
    pub fn with_slot(self, i: usize, slot: Null<Value>) -> (r: Entity)
        requires
            i < self@.len(),
        ensures
            r@ == self@.update(i as int, slot@),
    {
        let ghost sm = slot@;
        let mut slots = self.slots;
        slots.set(i, slot);
        let r = Entity { slots };
        proof {
            assert(r@ =~~= self@.update(i as int, sm));
        }
        r
    }

    /// Resets slot `i` to unset, provided the field's wrapper has a
    /// distinguishable unset state; other fields are left as they are.
    pub fn clear(self, schema: &EntitySchema, i: usize) -> (r: Entity)
        requires
            entity_wf(self, *schema),
            i < self@.len(),
        ensures
            r@ == if field_models(schema.fields@)[i as int].nullable {
                self@.update(i as int, NullModel::<ValueModel>::Undefined)
            } else {
                self@
            },
    {
        if schema.fields[i].nullable {
            let mut slots = self.slots;
            slots.set(i, Null::Undefined);
            let r = Entity { slots };
            proof {
                assert(r@ =~~= self@.update(i as int, NullModel::<ValueModel>::Undefined));
            }
            r
        } else {
            self
        }
    }

    /// Resets every nullable field that holds no value to unset; fields
    /// holding values, and fields without a distinguishable unset state,
    /// are kept.
    pub fn clear_all(self, schema: &EntitySchema) -> (r: Entity)
        requires
            entity_wf(self, *schema),
        ensures
            r@.len() == self@.len(),
            forall|j: int|
                0 <= j < self@.len() ==> (#[trigger] r@[j]) == if field_models(
                    schema.fields@,
                )[j].nullable && !model_is_value(self@[j]) {
                    NullModel::<ValueModel>::Undefined
                } else {
                    self@[j]
                },
    {
        let ghost orig = self@;
        let mut slots = self.slots;
        let mut i: usize = 0;
        while i < slots.len()
            invariant
                i <= slots@.len(),
                slots@.len() == orig.len(),
                orig.len() == schema.fields@.len(),
                forall|j: int| i <= j < orig.len() ==> (#[trigger] slots@[j])@ == orig[j],
                forall|j: int|
                    0 <= j < i ==> (#[trigger] slots@[j])@ == if field_models(
                        schema.fields@,
                    )[j].nullable && !model_is_value(orig[j]) {
                        NullModel::<ValueModel>::Undefined
                    } else {
                        orig[j]
                    },
            decreases slots@.len() - i,
        {
            if schema.fields[i].nullable {
                let keep = match &slots[i] {
                    Null::Value(_) => true,
                    _ => false,
                };
                if !keep {
                    slots.set(i, Null::Undefined);
                }
            }
            i = i + 1;
        }
        Entity { slots }
    }

    /// Assigns a fresh identifier to the field named `id` when its slot
    /// does not yet hold a non-empty text, choosing the length class that
    /// `size` selects; an already assigned identifier, and an entity
    /// without an `id` field, are left unchanged.
    pub fn set_insert_id(self, schema: &EntitySchema, size: &String) -> (r: Entity)
        requires
            entity_wf(self, *schema),
        ensures
            insert_id_rel(field_models(schema.fields@), size@, self@, r@),
    {
        let target = id_name();
        let found = field_index(schema, &target);
        match found {
            Option::None => self,
            Option::Some(ix) => {
                let present = match &self.slots[ix] {
                    Null::Value(Value::Text(t)) => !t.as_str().is_empty(),
                    _ => false,
                };
                if present {
                    self
                } else {
                    let folded = ascii_lower(size);
                    let len = if folded == small_name() {
                        ID_LEN_SMALL
                    } else if folded == medium_name() {
                        ID_LEN_MEDIUM
                    } else if folded == large_name() {
                        ID_LEN_LARGE
                    } else {
                        ID_LEN_MAXIMAL
                    };
                    let fresh = random_alphanumeric(len);
                    let mut slots = self.slots;
                    slots.set(ix, Null::Value(Value::Text(fresh)));
                    let r = Entity { slots };
                    proof {
                        assert(r@ =~~= self@.update(
                            ix as int,
                            NullModel::Value(ValueModel::Text(fresh@)),
                        ));
                    }
                    r
                }
            },
        }
    }
}

/// The literal `"id"` as an owned string.
fn id_name() -> (r: String)
    ensures
        r@ == "id"@,
{
    let mut r: String = String::new();
    r.append("id");
    proof {
        assert(Seq::<char>::empty() + "id"@ =~= "id"@);
    }
    r
}

/// The literal `"sm"` as an owned string.
fn small_name() -> (r: String)
    ensures
        r@ == "sm"@,
{
    let mut r: String = String::new();
    r.append("sm");
    proof {
        assert(Seq::<char>::empty() + "sm"@ =~= "sm"@);
    }
    r
}

/// The literal `"md"` as an owned string.
fn medium_name() -> (r: String)
    ensures
        r@ == "md"@,
{
    let mut r: String = String::new();
    r.append("md");
    proof {
        assert(Seq::<char>::empty() + "md"@ =~= "md"@);
    }
    r
}

/// The literal `"lg"` as an owned string.
fn large_name() -> (r: String)
    ensures
        r@ == "lg"@,
{
    let mut r: String = String::new();
    r.append("lg");
    proof {
        assert(Seq::<char>::empty() + "lg"@ =~= "lg"@);
    }
    r
}

/// Applies the storage normalization: a text list drops its empty
/// entries, every other value passes through unchanged.
fn normalize_value(value: Value) -> (r: Value)
    ensures
        r@ == norm_value(value@),
{
    match value {
        Value::TextList(xs) => {
            let mut kept: Vec<String> = Vec::new();
            let mut i: usize = 0;
            while i < xs.len()
                invariant
                    i <= xs@.len(),
                    views_of(kept@) == views_of(xs@.take(i as int)).filter(
                        |s: Seq<char>| s.len() != 0,
                    ),
                decreases xs@.len() - i,
            {
                proof {
                    reveal_with_fuel(Seq::<Seq<char>>::filter, 2);
                    assert(xs@.take(i + 1).drop_last() =~= xs@.take(i as int));
                    assert(views_of(xs@.take(i + 1)).drop_last() =~~= views_of(
                        xs@.take(i as int),
                    ));
                }
                if !xs[i].as_str().is_empty() {
                    kept.push(xs[i].clone());
                }
                proof {
                    assert(views_of(kept@) =~~= views_of(xs@.take(i + 1)).filter(
                        |s: Seq<char>| s.len() != 0,
                    ));
                }
                i = i + 1;
            }
            proof {
                assert(xs@.take(xs@.len() as int) =~= xs@);
            }
            let r = Value::TextList(kept);
            proof {
                assert(r@ =~~= norm_value(ValueModel::TextList(views_of(xs@))));
            }
            r
        },
        v => v,
    }
}

} // verus!
