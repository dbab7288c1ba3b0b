use vstd::prelude::*;

verus! {

/// The lifecycle of an adapter's transport slot.
///
/// An adapter owns its transport exactly while it is `Open`; the transition
/// to `Closed` happens once, by a graceful close, by an abandon, or by the
/// implicit abandon that follows a transport fault. A two-variant tag is
/// used rather than an optional value so that the closed state is
/// self-documenting and a logically dead transport can never be reused.
pub enum Lifecycle<Inner> {
    /// The adapter still owns its transport.
    Open(Inner),
    /// The stream has permanently ended; the transport is gone.
    Closed,
}

} // verus!
