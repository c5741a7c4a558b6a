use vstd::prelude::*;

verus! {

/// The state of one single-use result channel.
///
/// The producer end belongs to a spawned task, the consumer end to its handle.
pub enum Slot<T> {
    /// The producer is alive and has sent nothing yet.
    Open,
    /// The producer is alive and will never send: it belongs to a task that
    /// only waits for the scope to be torn down.
    Never,
    /// The producer sent a value that nobody has received yet.
    Filled(T),
    /// The consumer received the value.
    Taken,
    /// The producer was dropped without sending.
    Dropped,
}

/// What a consumer sees when it asks its channel for the value.
pub enum Received<T> {
    /// Nothing was sent yet and the producer is still alive.
    Waiting,
    /// The value sent by the producer.
    Ready(T),
    /// No value will ever come: the producer was dropped without sending,
    /// or the value was already received.
    Abandoned,
}

impl<T> Slot<T> {
    /// Whether the slot's task is still pending.
    pub open spec fn pending(self) -> bool {
        self is Open || self is Never
    }

    /// The slot after the producer sends `v`: only an open slot accepts it.
    pub open spec fn sent(self, v: T) -> Slot<T> {
        match self {
            Slot::Open => Slot::Filled(v),
            _ => self,
        }
    }

    /// The slot after its producer is dropped.
    pub open spec fn closed(self) -> Slot<T> {
        match self {
            Slot::Open | Slot::Never => Slot::Dropped,
            _ => self,
        }
    }

    /// The slot after one receive, with what the consumer gets.
    pub open spec fn received(self) -> (Slot<T>, Received<T>) {
        match self {
            Slot::Open | Slot::Never => (self, Received::Waiting),
            Slot::Filled(v) => (Slot::Taken, Received::Ready(v)),
            _ => (self, Received::Abandoned),
        }
    }

    /// Best-effort send: a slot whose producer already finished, or whose
    /// consumer already took a value, ignores the new value.
    pub fn send(self, v: T) -> (r: Slot<T>)
        ensures
            r == self.sent(v),
    {
        match self {
            Slot::Open => Slot::Filled(v),
            other => other,
        }
    }

    /// Drops the producer end.
    pub fn close(self) -> (r: Slot<T>)
        ensures
            r == self.closed(),
    {
        match self {
            Slot::Open | Slot::Never => Slot::Dropped,
            other => other,
        }
    }

    /// Receives the value, if one was sent and not yet received.
    pub fn receive(self) -> (r: (Slot<T>, Received<T>))
        ensures
            r == self.received(),
    {
        match self {
            Slot::Open => (Slot::Open, Received::Waiting),
            Slot::Never => (Slot::Never, Received::Waiting),
            Slot::Filled(v) => (Slot::Taken, Received::Ready(v)),
            Slot::Taken => (Slot::Taken, Received::Abandoned),
            Slot::Dropped => (Slot::Dropped, Received::Abandoned),
        }
    }

    /// Whether the slot's task is still pending.
    pub fn is_pending(&self) -> (r: bool)
        ensures
            r == self.pending(),
    {
        match self {
            Slot::Open | Slot::Never => true,
            _ => false,
        }
    }

    /// Whether the producer is alive and may still send.
    pub fn is_open(&self) -> (r: bool)
        ensures
            r == (*self is Open),
    {
        match self {
            Slot::Open => true,
            _ => false,
        }
    }
}

} // verus!
