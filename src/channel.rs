//! Per-connection channel bookkeeping: each channel's lifecycle phase and the table
//! from channel to the input sink of the process bound to it.
use vstd::hash_map::HashMapWithView;
use vstd::prelude::*;

verus! {

broadcast use vstd::std_specs::hash::group_hash_axioms;

/// Where a channel is in its life.
#[derive(PartialEq, Eq, Structural, Debug, Clone, Copy)]
pub enum ChannelPhase {
    /// Opened; no command yet.
    Open,
    /// An exec request was accepted; its process is being prepared.
    Dispatched,
    /// A process is bound and the client's bytes are forwarded to its input.
    Streaming,
    /// A process is bound, but the client has ended its input.
    InputClosed,
    /// Torn down, or finished; nothing is bound to it again.
    Closed,
}

/// The map from channel to the sink that takes bytes for its process's input.
#[verifier::reject_recursive_types(S)]
pub struct ChannelTable<S> {
    sinks: HashMapWithView<u32, S>,
}

impl<S> View for ChannelTable<S> {
    type V = Map<u32, S>;

    closed spec fn view(&self) -> Map<u32, S> {
        self.sinks@
    }
}

impl<S> ChannelTable<S> {
    pub fn new() -> (r: Self)
        ensures
            r@ == Map::<u32, S>::empty(),
    {
        ChannelTable { sinks: HashMapWithView::new() }
    }

    /// Binds `sink` to `channel`, replacing any sink bound before.
    pub fn register(&mut self, channel: u32, sink: S)
        ensures
            final(self)@ == old(self)@.insert(channel, sink),
    {
        self.sinks.insert(channel, sink);
    }

    /// The sink bound to `channel`; `None` where there is none, and bytes for the
    /// channel are then dropped.
    pub fn sink(&self, channel: u32) -> (r: Option<&S>)
        ensures
            match r {
                Some(s) => self@.contains_key(channel) && *s == self@[channel],
                None => !self@.contains_key(channel),
            },
    {
        self.sinks.get(&channel)
    }

    pub fn contains(&self, channel: u32) -> (r: bool)
        ensures
            r == self@.contains_key(channel),
    {
        self.sinks.contains_key(&channel)
    }

    /// Unbinds `channel` and hands back its sink; where none is bound, nothing changes.
    pub fn remove(&mut self, channel: u32) -> (r: Option<S>)
        ensures
            final(self)@ == old(self)@.remove(channel),
            match r {
                Some(s) => old(self)@.contains_key(channel) && s == old(self)@[channel],
                None => !old(self)@.contains_key(channel),
            },
    {
        let r = self.sinks.remove(&channel);
        proof {
            if r is None {
                assert(old(self)@.remove(channel) =~= old(self)@);
            }
        }
        r
    }
}

/// The channels of one connection and the input sinks of their processes.
#[verifier::reject_recursive_types(S)]
pub struct Channels<S> {
    phases: HashMapWithView<u32, ChannelPhase>,
    table: ChannelTable<S>,
}

/// The phases after `channel` is closed: a known channel becomes `Closed`.
pub open spec fn closed_phases(phases: Map<u32, ChannelPhase>, channel: u32) -> Map<
    u32,
    ChannelPhase,
> {
    if phases.contains_key(channel) {
        phases.insert(channel, ChannelPhase::Closed)
    } else {
        phases
    }
}

impl<S> Channels<S> {
    pub closed spec fn phases(&self) -> Map<u32, ChannelPhase> {
        self.phases@
    }

    pub closed spec fn sinks(&self) -> Map<u32, S> {
        self.table@
    }

    /// A channel has a sink exactly while it is `Streaming`.
    pub open spec fn wf(&self) -> bool {
        forall|c: u32|
            #![trigger self.sinks().contains_key(c)]
            #![trigger self.phases().contains_key(c)]
            self.sinks().contains_key(c) <==> (self.phases().contains_key(c)
                && self.phases()[c] == ChannelPhase::Streaming)
    }

    pub fn new() -> (r: Self)
        ensures
            r.wf(),
            r.phases() == Map::<u32, ChannelPhase>::empty(),
            r.sinks() == Map::<u32, S>::empty(),
    {
        Channels { phases: HashMapWithView::new(), table: ChannelTable::new() }
    }

    fn phase(&self, channel: u32) -> (r: Option<ChannelPhase>)
        ensures
            match r {
                Some(p) => self.phases().contains_key(channel) && p == self.phases()[channel],
                None => !self.phases().contains_key(channel),
            },
    {
        match self.phases.get(&channel) {
            Some(p) => Some(*p),
            None => None,
        }
    }

    /// Records a newly opened channel; a channel already known is left as it is.
    pub fn open(&mut self, channel: u32) -> (r: bool)
        requires
            old(self).wf(),
        ensures
            final(self).wf(),
            r == !old(self).phases().contains_key(channel),
            final(self).phases() == if r {
                old(self).phases().insert(channel, ChannelPhase::Open)
            } else {
                old(self).phases()
            },
            final(self).sinks() == old(self).sinks(),
    {
        if self.phases.contains_key(&channel) {
            return false;
        }
        self.phases.insert(channel, ChannelPhase::Open);
        true
    }

    /// Accepts an exec request on an `Open` channel; on any other channel it is refused
    /// and nothing changes.
    pub fn begin_exec(&mut self, channel: u32) -> (r: bool)
        requires
            old(self).wf(),
        ensures
            final(self).wf(),
            r == (old(self).phases().contains_key(channel) && old(self).phases()[channel]
                == ChannelPhase::Open),
            final(self).phases() == if r {
                old(self).phases().insert(channel, ChannelPhase::Dispatched)
            } else {
                old(self).phases()
            },
            final(self).sinks() == old(self).sinks(),
    {
        match self.phase(channel) {
            Some(ChannelPhase::Open) => {
                self.phases.insert(channel, ChannelPhase::Dispatched);
                true
            },
            _ => false,
        }
    }

    /// Binds the input sink of a started process to a `Dispatched` channel, which then
    /// streams. On any other channel the sink is handed back and nothing changes.
    pub fn bind(&mut self, channel: u32, sink: S) -> (r: Option<S>)
        requires
            old(self).wf(),
        ensures
            final(self).wf(),
            ({
                let bound = old(self).phases().contains_key(channel) && old(self).phases()[channel]
                    == ChannelPhase::Dispatched;
                &&& bound <==> r is None
                &&& bound ==> final(self).phases() == old(self).phases().insert(
                    channel,
                    ChannelPhase::Streaming,
                ) && final(self).sinks() == old(self).sinks().insert(channel, sink)
                &&& !bound ==> final(self).phases() == old(self).phases() && final(self).sinks()
                    == old(self).sinks() && r == Some(sink)
            }),
    {
        match self.phase(channel) {
            Some(ChannelPhase::Dispatched) => {
                self.phases.insert(channel, ChannelPhase::Streaming);
                self.table.register(channel, sink);
                None
            },
            _ => Some(sink),
        }
    }

    /// The sink that takes the client's bytes on `channel`; `None` where no process
    /// takes them, and the bytes are then dropped.
    pub fn input_sink(&self, channel: u32) -> (r: Option<&S>)
        ensures
            match r {
                Some(s) => self.sinks().contains_key(channel) && *s == self.sinks()[channel],
                None => !self.sinks().contains_key(channel),
            },
    {
        self.table.sink(channel)
    }

    /// The client ended its input on `channel`: a streaming channel's sink is removed
    /// and handed back, so that dropping it ends the process's input once. Elsewhere
    /// nothing changes.
    pub fn end_input(&mut self, channel: u32) -> (r: Option<S>)
        requires
            old(self).wf(),
        ensures
            final(self).wf(),
            final(self).sinks() == old(self).sinks().remove(channel),
            match r {
                Some(s) => old(self).sinks().contains_key(channel) && s == old(self).sinks()[channel]
                    && final(self).phases() == old(self).phases().insert(
                    channel,
                    ChannelPhase::InputClosed,
                ),
                None => !old(self).sinks().contains_key(channel) && final(self).phases()
                    == old(self).phases(),
            },
    {
        let r = self.table.remove(channel);
        if r.is_some() {
            self.phases.insert(channel, ChannelPhase::InputClosed);
        }
        proof {
            if r is None {
                assert(old(self).sinks().remove(channel) =~= old(self).sinks());
            }
        }
        r
    }

    /// Closes `channel`, whether the client closed it or its work finished: a known
    /// channel becomes `Closed` and any sink is removed and handed back. Closing an
    /// unknown or already closed channel changes nothing.
    pub fn close(&mut self, channel: u32) -> (r: Option<S>)
        requires
            old(self).wf(),
        ensures
            final(self).wf(),
            final(self).phases() == closed_phases(old(self).phases(), channel),
            final(self).sinks() == old(self).sinks().remove(channel),
            match r {
                Some(s) => old(self).sinks().contains_key(channel) && s == old(self).sinks()[channel],
                None => !old(self).sinks().contains_key(channel),
            },
    {
        let r = self.table.remove(channel);
        if self.phases.contains_key(&channel) {
            self.phases.insert(channel, ChannelPhase::Closed);
        }
        r
    }
}

/// Closing a channel that has no sink leaves the sinks as they were, and closing a
/// channel twice is the same as closing it once.
pub proof fn lemma_close_is_idempotent<S>(
    phases: Map<u32, ChannelPhase>,
    sinks: Map<u32, S>,
    channel: u32,
)
    ensures
        !sinks.contains_key(channel) ==> sinks.remove(channel) == sinks,
        sinks.remove(channel).remove(channel) == sinks.remove(channel),
        closed_phases(closed_phases(phases, channel), channel) == closed_phases(phases, channel),
{
    assert(!sinks.contains_key(channel) ==> sinks.remove(channel) =~= sinks);
    assert(sinks.remove(channel).remove(channel) =~= sinks.remove(channel));
    if phases.contains_key(channel) {
        assert(closed_phases(closed_phases(phases, channel), channel) =~= closed_phases(
            phases,
            channel,
        ));
    }
}

} // verus!
