//! Identifier allocators for turns and contexts.

use vstd::prelude::*;

verus! {

/// Identifies one turn of a transcript. Doubles as the allocator that mints
/// such identifiers: the value of an allocator is the next identifier it will
/// hand out.
#[derive(Copy, Clone, PartialEq, Eq, Structural, Debug)]
pub struct MessageId(pub usize);

/// Identifies one context attached to a user turn. Doubles as its own
/// allocator, like [`MessageId`].
#[derive(Copy, Clone, PartialEq, Eq, Structural, Debug)]
pub struct ContextId(pub usize);

impl MessageId {
    /// The identifier minted right after this one.
    pub open spec fn successor(self) -> MessageId {
        MessageId((self.0 + 1) as usize)
    }

    /// Hands out the current identifier and advances the allocator by one.
    pub fn post_inc(&mut self) -> (id: Self)
        requires
            old(self).0 < usize::MAX,
        ensures
            id == *old(self),
            *final(self) == old(self).successor(),
    {
        let id = *self;
        self.0 += 1;
        id
    }
}

impl ContextId {
    /// The identifier minted right after this one.
    pub open spec fn successor(self) -> ContextId {
        ContextId((self.0 + 1) as usize)
    }

    /// Hands out the current identifier and advances the allocator by one.
    pub fn post_inc(&mut self) -> (id: Self)
        requires
            old(self).0 < usize::MAX,
        ensures
            id == *old(self),
            *final(self) == old(self).successor(),
    {
        let id = *self;
        self.0 += 1;
        id
    }
}

} // verus!
