use vstd::prelude::*;

verus! {

/// What is known about a stream's future.
///
/// A `Status` is returned alongside a transfer count by every status-aware
/// read, so that a zero count is never the only way to learn that a stream
/// has finished.
#[derive(Copy, Clone, Eq, PartialEq, Structural, Debug)]
pub enum Status {
    /// The stream is open: more bytes may yet be transmitted.
    Open(Activity),
    /// The stream has ended. No more bytes will be transmitted.
    End,
}

/// Whether the data produced so far is actionable.
///
/// Writers use `Push` to tell buffering layers that the data written so far
/// forms a complete, actionable unit and should be flushed downstream now,
/// without closing the stream. Consumers that do no buffering may ignore it.
#[derive(Copy, Clone, Eq, PartialEq, Structural, Debug)]
pub enum Activity {
    /// The producer is actively writing; data may be buffered.
    Active,
    /// The producer has completed something actionable; buffering layers
    /// should flush at this point.
    Push,
}

impl Status {
    /// `Status::Open` with activity state `Active`.
    pub fn active() -> (r: Self)
        ensures
            r == Status::Open(Activity::Active),
    {
        Status::Open(Activity::Active)
    }

    /// `Status::Open` with activity state `Push`.
    pub fn push() -> (r: Self)
        ensures
            r == Status::Open(Activity::Push),
    {
        Status::Open(Activity::Push)
    }

    /// Shorthand for testing equality with `Status::End`.
    pub fn is_end(self) -> (r: bool)
        ensures
            r == (self is End),
    {
        self == Status::End
    }

    /// Shorthand for testing equality with `Status::Open(Activity::Push)`.
    pub fn is_push(self) -> (r: bool)
        ensures
            r == (self == Status::Open(Activity::Push)),
    {
        self == Status::Open(Activity::Push)
    }
}

} // verus!
