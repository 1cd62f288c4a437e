//! Plain values as a datastore row holds them, with their spec-level
//! models and per-kind defaults.

use vstd::prelude::*;

verus! {

/// Spec-level shape of a stored value.
#[verifier::ext_equal]
pub enum ValueModel {
    Text(Seq<char>),
    Int(i64),
    Flag(bool),
    TextList(Seq<Seq<char>>),
}

/// The kind of a stored value; field descriptors carry one to type row
/// extraction and getter defaults.
#[derive(Clone, Copy, PartialEq, Eq, Structural, Debug)]
pub enum ValueKind {
    Text,
    Int,
    Flag,
    TextList,
}

/// A plain value: what a row column or a populated field holds.
#[derive(Clone, PartialEq, Debug)]
pub enum Value {
    Text(String),
    Int(i64),
    Flag(bool),
    TextList(Vec<String>),
}

impl View for Value {
    type V = ValueModel;

    open spec fn view(&self) -> ValueModel {
        match self {
            Value::Text(s) => ValueModel::Text(s@),
            Value::Int(i) => ValueModel::Int(*i),
            Value::Flag(b) => ValueModel::Flag(*b),
            Value::TextList(v) => ValueModel::TextList(v@.map_values(|s: String| s@)),
        }
    }
}

/// The kind of a spec-level value.
pub open spec fn kind_of(m: ValueModel) -> ValueKind {
    match m {
        ValueModel::Text(_) => ValueKind::Text,
        ValueModel::Int(_) => ValueKind::Int,
        ValueModel::Flag(_) => ValueKind::Flag,
        ValueModel::TextList(_) => ValueKind::TextList,
    }
}

/// The type-appropriate default of each kind: empty text, zero, false, or
/// an empty list.
pub open spec fn default_model(k: ValueKind) -> ValueModel {
    match k {
        ValueKind::Text => ValueModel::Text(Seq::<char>::empty()),
        ValueKind::Int => ValueModel::Int(0i64),
        ValueKind::Flag => ValueModel::Flag(false),
        ValueKind::TextList => ValueModel::TextList(Seq::<Seq<char>>::empty()),
    }
}

impl Value {
    /// The kind tag of this value.
    pub fn kind(&self) -> (k: ValueKind)
        ensures
            k == kind_of(self@),
    {
        match self {
            Value::Text(_) => ValueKind::Text,
            Value::Int(_) => ValueKind::Int,
            Value::Flag(_) => ValueKind::Flag,
            Value::TextList(_) => ValueKind::TextList,
        }
    }

    /// An equal copy of this value.
    pub fn dup(&self) -> (r: Value)
        ensures
            r@ == self@,
    {
        match self {
            Value::Text(s) => Value::Text(s.clone()),
            Value::Int(i) => Value::Int(*i),
            Value::Flag(b) => Value::Flag(*b),
            Value::TextList(v) => {
                let w = v.clone();
                proof {
                    assert(w@ =~= v@);
                }
                Value::TextList(w)
            },
        }
    }

    /// The type-appropriate default value of kind `k`.
    pub fn default_of(k: ValueKind) -> (r: Value)
        ensures
            r@ == default_model(k),
    {
        let r = match k {
            ValueKind::Text => Value::Text(String::new()),
            ValueKind::Int => Value::Int(0i64),
            ValueKind::Flag => Value::Flag(false),
            ValueKind::TextList => Value::TextList(Vec::new()),
        };
        proof {
            assert(r@ =~~= default_model(k));
        }
        r
    }
}

} // verus!
