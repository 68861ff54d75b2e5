//! The decisions of one relay between a process stream and a channel: forward each
//! chunk read, in order, until the stream ends or fails, or the far side is gone.
use vstd::prelude::*;

verus! {

/// What one read from a stream gave.
#[derive(PartialEq, Eq, Debug)]
pub enum ReadEvent {
    /// Bytes were read; none means the stream has ended.
    Data(Vec<u8>),
    /// The stream reported its end.
    End,
    /// The read failed.
    Failed,
}

impl View for ReadEvent {
    /// The bytes read, or `None` where the stream is over.
    type V = Option<Seq<u8>>;

    open spec fn view(&self) -> Option<Seq<u8>> {
        match self {
            ReadEvent::Data(d) => if d@.len() > 0 {
                Some(d@)
            } else {
                None
            },
            _ => None,
        }
    }
}

/// What the relay does with a read.
#[derive(PartialEq, Eq, Debug)]
pub enum RelayAction {
    /// Write these bytes to the far side.
    Forward(Vec<u8>),
    /// Stop relaying.
    Stop,
}

/// The relay's state: whether it still runs, and every byte it has forwarded.
pub open spec fn relay_step(state: (bool, Seq<u8>), event: Option<Seq<u8>>) -> (bool, Seq<u8>) {
    match event {
        Some(d) => if state.0 {
            (true, state.1 + d)
        } else {
            state
        },
        None => (false, state.1),
    }
}

/// The state after `events`, from a fresh relay.
pub open spec fn relay_run(events: Seq<Option<Seq<u8>>>) -> (bool, Seq<u8>)
    decreases events.len(),
{
    if events.len() == 0 {
        (true, Seq::empty())
    } else {
        relay_step(relay_run(events.drop_last()), events.last())
    }
}

/// One relay, from a stream to a channel or from a channel to a process.
pub struct Relay {
    running: bool,
    forwarded: Ghost<Seq<u8>>,
}

impl Relay {
    /// The state that `relay_step` describes.
    pub closed spec fn state(&self) -> (bool, Seq<u8>) {
        (self.running, self.forwarded@)
    }

    pub fn new() -> (r: Relay)
        ensures
            r.state() == (true, Seq::<u8>::empty()),
    {
        Relay { running: true, forwarded: Ghost(Seq::empty()) }
    }

    pub fn is_running(&self) -> (r: bool)
        ensures
            r == self.state().0,
    {
        self.running
    }

    /// Decides on one read: a running relay forwards the bytes read, unchanged, and
    /// stops on an end, an empty read or a failure. A stopped relay forwards nothing.
    pub fn on_read(&mut self, event: ReadEvent) -> (r: RelayAction)
        ensures
            final(self).state() == relay_step(old(self).state(), event@),
            match r {
                RelayAction::Forward(d) => old(self).state().0 && event@ == Some(d@),
                RelayAction::Stop => !(old(self).state().0 && event@ is Some),
            },
    {
        match event {
            ReadEvent::Data(d) => {
                if d.len() == 0 {
                    self.running = false;
                    RelayAction::Stop
                } else if self.running {
                    self.forwarded = Ghost(self.forwarded@ + d@);
                    RelayAction::Forward(d)
                } else {
                    RelayAction::Stop
                }
            },
            _ => {
                self.running = false;
                RelayAction::Stop
            },
        }
    }

    /// The far side refused a write: the relay stops.
    pub fn on_write_failed(&mut self)
        ensures
            final(self).state() == (false, old(self).state().1),
    {
        self.running = false;
    }
}

/// Chunks read before the end are forwarded in the order read, each exactly once and
/// whole: what a fresh relay forwards is their concatenation, and it is still running.
pub proof fn lemma_relay_forwards_in_order(chunks: Seq<Seq<u8>>)
    requires
        forall|i: int| 0 <= i < chunks.len() ==> #[trigger] chunks[i].len() > 0,
    ensures
        relay_run(chunks.map_values(|c: Seq<u8>| Some(c))) == (true, chunks.flatten()),
    decreases chunks.len(),
{
    chunks.lemma_flatten_and_flatten_alt_are_equivalent();
    if chunks.len() > 0 {
        let p = chunks.drop_last();
        lemma_relay_forwards_in_order(p);
        p.lemma_flatten_and_flatten_alt_are_equivalent();
        assert(chunks.map_values(|c: Seq<u8>| Some(c)).drop_last() =~= p.map_values(
            |c: Seq<u8>| Some(c),
        ));
    }
}

/// Once a relay has stopped, further reads forward nothing.
pub proof fn lemma_stopped_relay_forwards_nothing(
    events: Seq<Option<Seq<u8>>>,
    later: Seq<Option<Seq<u8>>>,
)
    requires
        !relay_run(events).0,
    ensures
        relay_run(events + later) == relay_run(events),
    decreases later.len(),
{
    if later.len() == 0 {
        assert(events + later =~= events);
    } else {
        lemma_stopped_relay_forwards_nothing(events, later.drop_last());
        assert((events + later).drop_last() =~= events + later.drop_last());
    }
}

} // verus!
