//! The tri-state field wrapper: a field of a parsed entity is unset,
//! explicitly absent, or present with a value.  "Unset" is omitted from
//! any external representation, while "absent" stands for an explicit
//! null; the two must not be collapsed into one optional state.

use vstd::prelude::*;

verus! {

/// Spec-level model of the wrapper.
#[verifier::ext_equal]
pub enum NullModel<M> {
    Undefined,
    Absent,
    Value(M),
}

/// The tri-state wrapper around a field's value: `Undefined` (unset),
/// `Absent` (explicit null), or `Value` (present).
#[derive(Clone, PartialEq, Debug)]
pub enum Null<T> {
    Undefined,
    Absent,
    Value(T),
}

impl<T: View> View for Null<T> {
    type V = NullModel<T::V>;

    open spec fn view(&self) -> NullModel<T::V> {
        match self {
            Null::Undefined => NullModel::Undefined,
            Null::Absent => NullModel::Absent,
            Null::Value(t) => NullModel::Value(t@),
        }
    }
}

/// Whether a wrapper model holds a value.
pub open spec fn model_is_value<M>(m: NullModel<M>) -> bool {
    m is Value
}

/// Whether a wrapper model is the unset state.
pub open spec fn model_is_undefined<M>(m: NullModel<M>) -> bool {
    m is Undefined
}

impl<T: View> Null<T> {
    /// A wrapper holding `value` as present.
    pub fn new(value: T) -> (r: Null<T>)
        ensures
            r@ == NullModel::Value(value@),
    {
        Null::Value(value)
    }

    /// The unset wrapper.
    pub fn undefined() -> (r: Null<T>)
        ensures
            r@ == NullModel::<T::V>::Undefined,
    {
        Null::Undefined
    }

    /// Whether this wrapper holds a value.
    pub fn is_some(&self) -> (r: bool)
        ensures
            r == model_is_value(self@),
    {
        match self {
            Null::Value(_) => true,
            _ => false,
        }
    }

    /// Whether this wrapper holds no value: the unset or the explicitly
    /// absent state.
    pub fn is_none(&self) -> (r: bool)
        ensures
            r == !model_is_value(self@),
    {
        !self.is_some()
    }

    /// The held value, or `None` for the unset and absent states.
    pub fn take(self) -> (r: Option<T>)
        ensures
            match r {
                Option::Some(t) => self@ == NullModel::Value(t@),
                Option::None => !model_is_value(self@),
            },
    {
        match self {
            Null::Value(t) => Option::Some(t),
            _ => Option::None,
        }
    }
}

} // verus!
