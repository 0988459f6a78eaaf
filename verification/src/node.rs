use vstd::prelude::*;

verus! {

/// A value built around a kind it can hand out.
pub trait Kind<K> {
    /// The kind, as contracts speak of it.
    spec fn spec_kind(&self) -> K;

    /// A view of the kind.
    fn kind(&self) -> (r: &K)
        ensures
            *r == self.spec_kind(),
    ;
}

/// A single node wrapping one kind value.
#[derive(Debug)]
pub struct Node<K> {
    kind: K,
}

impl<K> Kind<K> for Node<K> {
    closed spec fn spec_kind(&self) -> K {
        self.kind
    }

    fn kind(&self) -> (r: &K) {
        &self.kind
    }
}

} // verus!
