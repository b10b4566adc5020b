//! Bind-group handles: a process-unique identity and shared ownership of the
//! native object.
use std::sync::Arc;
use vstd::prelude::*;

verus! {

/// The identity of a [`BindGroup`]. Handles compare and hash by it, never by
/// the address of the native object.
#[derive(Clone, Copy, Debug, PartialEq, Eq, Hash, Structural)]
pub struct BindGroupId(pub u128);

/// A handle to a native bind group. Cloning the handle shares the native
/// object, which is released when the last handle is dropped.
#[derive(Debug)]
pub struct BindGroup<V> {
    id: BindGroupId,
    value: Arc<V>,
}

/// Relies on `Uuid::new_v4` of the uuid crate (re-exported by bevy_reflect): a
/// freshly drawn random identifier. Nothing is promised of its value.
#[verifier::external_body]
fn fresh_id() -> (r: u128) {
    bevy_reflect::Uuid::new_v4().as_u128()
}

/// Relies on `Arc::clone`: the new pointer refers to the same allocation and
/// so to the same value.
#[verifier::external_body]
fn share<V>(a: &Arc<V>) -> (r: Arc<V>)
    ensures
        r == *a,
{
    Arc::clone(a)
}

impl<V> BindGroup<V> {
    /// The identity of this handle.
    pub closed spec fn spec_id(&self) -> BindGroupId {
        self.id
    }

    /// The native object this handle refers to.
    pub closed spec fn spec_value(&self) -> V {
        *self.value
    }

    /// Wraps a native object under a fresh identity.
    pub fn new(value: V) -> (r: Self)
        ensures
            r.spec_value() == value,
    {
        BindGroup { id: BindGroupId(fresh_id()), value: Arc::new(value) }
    }

    /// Returns the identity of this handle.
    pub fn id(&self) -> (r: BindGroupId)
        ensures
            r == self.spec_id(),
    {
        self.id
    }

    /// Returns the native object.
    pub fn value(&self) -> (r: &V)
        ensures
            *r == self.spec_value(),
    {
        &*self.value
    }
}

impl<V> Clone for BindGroup<V> {
    /// Another handle to the same native object, with the same identity.
    fn clone(&self) -> (r: Self)
        ensures
            r.spec_id() == self.spec_id(),
            r.spec_value() == self.spec_value(),
    {
        BindGroup { id: self.id, value: share(&self.value) }
    }
}

impl<V> From<V> for BindGroup<V> {
    /// Wraps a native object under a fresh identity.
    fn from(value: V) -> (r: Self)
        ensures
            r.spec_value() == value,
    {
        Self::new(value)
    }
}

impl<V> vstd::std_specs::convert::FromSpecImpl<V> for BindGroup<V> {
    open spec fn obeys_from_spec() -> bool {
        false
    }

    open spec fn from_spec(v: V) -> BindGroup<V> {
        arbitrary()
    }
}

} // verus!
