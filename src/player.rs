use vstd::prelude::*;

verus! {

/// The identity of a player. Ownership is decided by this identity alone:
/// two players are interchangeable only when their identities are equal,
/// whatever names or colours they are shown with.
#[derive(Debug, PartialEq, Eq, Structural, Hash, Clone, Copy)]
pub struct PlayerId(pub usize);

/// A value tagged with the player it belongs to, such as an order and the
/// player who issued it.
#[derive(Debug, Clone, Copy)]
pub struct Owned<T>(pub PlayerId, pub T);

} // verus!
