//! Bookkeeping decisions around the event loop: classifying inbound
//! messages for counting, and tracking per-shard connection states with
//! one count per state. The counts here are plain integers; exporting
//! them to a metrics backend is the embedding's business.

use vstd::prelude::*;

verus! {

/// How one inbound message is counted.
#[derive(Clone, Copy, PartialEq, Eq, Structural, Debug)]
pub enum MessageKind {
    UserMessage,
    OwnMessage,
    WebhookMessage,
    OtherBotMessage,
}

/// How a message is counted: our own messages, webhook messages and
/// other bots' messages are told apart; everything else is a user
/// message.
pub open spec fn spec_classify(author_is_bot: bool, is_own: bool, has_webhook_id: bool) -> MessageKind {
    if author_is_bot {
        if is_own {
            MessageKind::OwnMessage
        } else if has_webhook_id {
            MessageKind::WebhookMessage
        } else {
            MessageKind::OtherBotMessage
        }
    } else {
        MessageKind::UserMessage
    }
}

/// Classify a message for the message counters.
pub fn classify_message(author_is_bot: bool, is_own: bool, has_webhook_id: bool) -> (r:
    MessageKind)
    ensures
        r == spec_classify(author_is_bot, is_own, has_webhook_id),
{
    if author_is_bot {
        if is_own {
            MessageKind::OwnMessage
        } else if has_webhook_id {
            MessageKind::WebhookMessage
        } else {
            MessageKind::OtherBotMessage
        }
    } else {
        MessageKind::UserMessage
    }
}

/// One count per message kind.
#[derive(Clone, Copy, PartialEq, Eq, Structural, Debug)]
pub struct MessageCounters {
    pub user_messages: u64,
    pub other_bot_messages: u64,
    pub own_messages: u64,
    pub webhook_messages: u64,
}

pub open spec fn message_count_of(c: MessageCounters, kind: MessageKind) -> u64 {
    match kind {
        MessageKind::UserMessage => c.user_messages,
        MessageKind::OtherBotMessage => c.other_bot_messages,
        MessageKind::OwnMessage => c.own_messages,
        MessageKind::WebhookMessage => c.webhook_messages,
    }
}

impl MessageCounters {
    pub fn new() -> (r: Self)
        ensures
            forall|kind: MessageKind| message_count_of(r, kind) == 0u64,
    {
        MessageCounters {
            user_messages: 0,
            other_bot_messages: 0,
            own_messages: 0,
            webhook_messages: 0,
        }
    }

    /// Count one inbound message: exactly the counter of its kind goes
    /// up by one.
    pub fn new_message(&mut self, author_is_bot: bool, is_own: bool, has_webhook_id: bool)
        requires
            message_count_of(*old(self), spec_classify(author_is_bot, is_own, has_webhook_id))
                < u64::MAX,
        ensures
            message_count_of(
                *final(self),
                spec_classify(author_is_bot, is_own, has_webhook_id),
            ) == message_count_of(
                *old(self),
                spec_classify(author_is_bot, is_own, has_webhook_id),
            ) + 1,
            forall|kind: MessageKind|
                kind != spec_classify(author_is_bot, is_own, has_webhook_id)
                    ==> message_count_of(*final(self), kind) == message_count_of(
                    *old(self),
                    kind,
                ),
    {
        match classify_message(author_is_bot, is_own, has_webhook_id) {
            MessageKind::UserMessage => self.user_messages = self.user_messages + 1,
            MessageKind::OtherBotMessage => self.other_bot_messages = self.other_bot_messages + 1,
            MessageKind::OwnMessage => self.own_messages = self.own_messages + 1,
            MessageKind::WebhookMessage => self.webhook_messages = self.webhook_messages + 1,
        }
    }
}

/// The lifecycle state of one gateway shard.
#[derive(Clone, Copy, PartialEq, Eq, Structural, Debug, Hash)]
pub enum ShardState {
    PendingCreation,
    Connecting,
    Identifying,
    Connected,
    Ready,
    Resuming,
    Reconnecting,
    Disconnected,
}

/// One count per shard state, mirroring a gauge per state.
#[derive(Clone, Copy, PartialEq, Eq, Structural, Debug)]
pub struct ShardStats {
    pub pending: u64,
    pub connecting: u64,
    pub identifying: u64,
    pub connected: u64,
    pub ready: u64,
    pub resuming: u64,
    pub reconnecting: u64,
    pub disconnected: u64,
}

pub open spec fn count_of(c: ShardStats, s: ShardState) -> u64 {
    match s {
        ShardState::PendingCreation => c.pending,
        ShardState::Connecting => c.connecting,
        ShardState::Identifying => c.identifying,
        ShardState::Connected => c.connected,
        ShardState::Ready => c.ready,
        ShardState::Resuming => c.resuming,
        ShardState::Reconnecting => c.reconnecting,
        ShardState::Disconnected => c.disconnected,
    }
}

/// How many tracked shards are in state `s`.
pub open spec fn count_in(states: Seq<(u64, ShardState)>, s: ShardState) -> int
    decreases states.len(),
{
    if states.len() == 0 {
        0
    } else {
        count_in(states.drop_last(), s) + if states.last().1 == s {
            1int
        } else {
            0int
        }
    }
}

/// The state recorded for one shard, if any.
pub open spec fn state_of(states: Seq<(u64, ShardState)>, shard: u64) -> Option<ShardState>
    decreases states.len(),
{
    if states.len() == 0 {
        None
    } else if states.first().0 == shard {
        Some(states.first().1)
    } else {
        state_of(states.drop_first(), shard)
    }
}

proof fn lemma_count_in_update(
    states: Seq<(u64, ShardState)>,
    i: int,
    p: (u64, ShardState),
    s: ShardState,
)
    requires
        0 <= i < states.len(),
    ensures
        count_in(states.update(i, p), s) == count_in(states, s) - (if states[i].1 == s {
            1int
        } else {
            0int
        }) + (if p.1 == s {
            1int
        } else {
            0int
        }),
    decreases states.len(),
{
    if i == states.len() - 1 {
        assert(states.update(i, p).drop_last() =~= states.drop_last());
        assert(states.update(i, p).last() == p);
    } else {
        assert(states.update(i, p).drop_last() =~= states.drop_last().update(i, p));
        assert(states.update(i, p).last() == states.last());
        lemma_count_in_update(states.drop_last(), i, p, s);
    }
}

proof fn lemma_count_in_member(states: Seq<(u64, ShardState)>, i: int)
    requires
        0 <= i < states.len(),
    ensures
        count_in(states, states[i].1) >= 1,
    decreases states.len(),
{
    if i == states.len() - 1 {
        assert(count_in(states.drop_last(), states[i].1) >= 0) by {
            lemma_count_in_nonneg(states.drop_last(), states[i].1);
        }
    } else {
        lemma_count_in_member(states.drop_last(), i);
        assert(states.drop_last()[i] == states[i]);
    }
}

proof fn lemma_count_in_nonneg(states: Seq<(u64, ShardState)>, s: ShardState)
    ensures
        count_in(states, s) >= 0,
    decreases states.len(),
{
    if states.len() > 0 {
        lemma_count_in_nonneg(states.drop_last(), s);
    }
}

proof fn lemma_count_in_bounded(states: Seq<(u64, ShardState)>, s: ShardState)
    ensures
        0 <= count_in(states, s) <= states.len(),
    decreases states.len(),
{
    if states.len() > 0 {
        lemma_count_in_bounded(states.drop_last(), s);
    }
}

proof fn lemma_state_of_update(states: Seq<(u64, ShardState)>, i: int, p: (u64, ShardState))
    requires
        0 <= i < states.len(),
        states[i].0 == p.0,
    ensures
        state_of(states.update(i, p), p.0) == if exists|t: int|
            0 <= t < i && (#[trigger] states[t]).0 == p.0 {
            state_of(states, p.0)
        } else {
            Some(p.1)
        },
        forall|other: u64|
            other != p.0 ==> state_of(states.update(i, p), other) == state_of(states, other),
    decreases states.len(),
{
    if i == 0 {
        assert(states.update(0, p).first() == p);
        assert(states.update(0, p).drop_first() =~= states.drop_first());
        assert forall|other: u64|
            other != p.0 implies state_of(states.update(0, p), other) == state_of(
            states,
            other,
        ) by {
            assert(states.first().0 == p.0);
        }
    } else {
        assert(states.update(i, p).first() == states.first());
        assert(states.update(i, p).drop_first() =~= states.drop_first().update(i - 1, p));
        lemma_state_of_update(states.drop_first(), i - 1, p);
        if states.first().0 == p.0 {
        } else {
            if exists|t: int| 0 <= t < i && (#[trigger] states[t]).0 == p.0 {
                let t = choose|t: int| 0 <= t < i && (#[trigger] states[t]).0 == p.0;
                assert(t >= 1);
                assert(states.drop_first()[t - 1] == states[t]);
            }
            if exists|t: int| 0 <= t < i - 1 && (#[trigger] states.drop_first()[t]).0 == p.0 {
                let t = choose|t: int| 0 <= t < i - 1 && (#[trigger] states.drop_first()[t]).0 == p.0;
                assert(states[t + 1] == states.drop_first()[t]);
            }
        }
        assert forall|other: u64|
            other != p.0 implies state_of(states.update(i, p), other) == state_of(
            states,
            other,
        ) by {
            if states.first().0 != other {
                assert(state_of(states.drop_first().update(i - 1, p), other) == state_of(
                    states.drop_first(),
                    other,
                ));
            }
        }
    }
}

proof fn lemma_state_of_push(states: Seq<(u64, ShardState)>, p: (u64, ShardState))
    requires
        state_of(states, p.0) is None,
    ensures
        state_of(states.push(p), p.0) == Some(p.1),
        forall|other: u64|
            other != p.0 ==> state_of(states.push(p), other) == state_of(states, other),
    decreases states.len(),
{
    if states.len() == 0 {
        assert(states.push(p).first() == p);
        assert forall|other: u64|
            other != p.0 implies state_of(states.push(p), other) == state_of(states, other) by {
            assert(states.push(p).drop_first() =~= Seq::<(u64, ShardState)>::empty());
            assert(state_of(Seq::<(u64, ShardState)>::empty(), other) is None);
            assert(state_of(states.push(p), other) is None);
        }
    } else {
        assert(states.push(p).first() == states.first());
        assert(states.push(p).drop_first() =~= states.drop_first().push(p));
        lemma_state_of_push(states.drop_first(), p);
        assert forall|other: u64|
            other != p.0 implies state_of(states.push(p), other) == state_of(states, other) by {
            if states.first().0 != other {
                assert(state_of(states.drop_first().push(p), other) == state_of(
                    states.drop_first(),
                    other,
                ));
            }
        }
    }
}

proof fn lemma_count_in_push(states: Seq<(u64, ShardState)>, p: (u64, ShardState), s: ShardState)
    ensures
        count_in(states.push(p), s) == count_in(states, s) + (if p.1 == s {
            1int
        } else {
            0int
        }),
{
    assert(states.push(p).drop_last() =~= states);
    assert(states.push(p).last() == p);
}

/// Tracks which lifecycle state each shard is in, with one count per
/// state kept in step with the recorded states.
pub struct ShardTracker {
    states: Vec<(u64, ShardState)>,
    counts: ShardStats,
}

impl ShardTracker {
    pub closed spec fn states_view(self) -> Seq<(u64, ShardState)> {
        self.states@
    }

    pub closed spec fn counts_view(self) -> ShardStats {
        self.counts
    }

    /// Each shard is recorded at most once, and every per-state count
    /// equals the number of shards recorded in that state.
    pub closed spec fn wf(self) -> bool {
        &&& forall|a: int, b: int|
            0 <= a < b < self.states@.len() ==> (#[trigger] self.states@[a]).0 != (
            #[trigger] self.states@[b]).0
        &&& forall|s: ShardState| count_of(self.counts, s) == #[trigger] count_in(self.states@, s)
    }

    /// The state currently recorded for `shard`.
    pub open spec fn spec_state_of(self, shard: u64) -> Option<ShardState> {
        state_of(self.states_view(), shard)
    }

    pub fn new() -> (r: Self)
        ensures
            r.wf(),
            r.states_view() == Seq::<(u64, ShardState)>::empty(),
            r.counts_view() == (ShardStats {
                pending: 0,
                connecting: 0,
                identifying: 0,
                connected: 0,
                ready: 0,
                resuming: 0,
                reconnecting: 0,
                disconnected: 0,
            }),
    {
        let states: Vec<(u64, ShardState)> = Vec::new();
        ShardTracker {
            states,
            counts: ShardStats {
                pending: 0,
                connecting: 0,
                identifying: 0,
                connected: 0,
                ready: 0,
                resuming: 0,
                reconnecting: 0,
                disconnected: 0,
            },
        }
    }

    /// The current count of shards in `state`.
    pub fn get_state_metric(&self, state: ShardState) -> (r: u64)
        ensures
            r == count_of(self.counts_view(), state),
    {
        match state {
            ShardState::PendingCreation => self.counts.pending,
            ShardState::Connecting => self.counts.connecting,
            ShardState::Identifying => self.counts.identifying,
            ShardState::Connected => self.counts.connected,
            ShardState::Ready => self.counts.ready,
            ShardState::Resuming => self.counts.resuming,
            ShardState::Reconnecting => self.counts.reconnecting,
            ShardState::Disconnected => self.counts.disconnected,
        }
    }

    fn set_count(&mut self, state: ShardState, value: u64)
        ensures
            count_of(final(self).counts, state) == value,
            forall|t: ShardState|
                t != state ==> count_of(final(self).counts, t) == count_of(old(self).counts, t),
            final(self).states@ == old(self).states@,
    {
        match state {
            ShardState::PendingCreation => self.counts.pending = value,
            ShardState::Connecting => self.counts.connecting = value,
            ShardState::Identifying => self.counts.identifying = value,
            ShardState::Connected => self.counts.connected = value,
            ShardState::Ready => self.counts.ready = value,
            ShardState::Resuming => self.counts.resuming = value,
            ShardState::Reconnecting => self.counts.reconnecting = value,
            ShardState::Disconnected => self.counts.disconnected = value,
        }
    }

    /// Record that `shard` moved to `new_state`: the old state's count
    /// goes down, the new state's count goes up, and the recorded state
    /// is replaced — other shards are untouched.
    pub fn shard_state_change(&mut self, shard: u64, new_state: ShardState)
        requires
            old(self).wf(),
            old(self).states_view().len() < 0xFFFF_FFFFu64,
        ensures
            final(self).wf(),
            final(self).states_view().len() <= old(self).states_view().len() + 1,
            final(self).spec_state_of(shard) == Some(new_state),
            forall|other: u64|
                other != shard ==> final(self).spec_state_of(other) == old(self).spec_state_of(
                    other,
                ),
    {
        let n = self.states.len();
        let mut i: usize = 0;
        while i < n
            invariant
                *self == *old(self),
                old(self).wf(),
                n == self.states@.len(),
                n < 0xFFFF_FFFFu64,
                i <= n,
                forall|t: int| 0 <= t < i ==> (#[trigger] self.states@[t]).0 != shard,
            decreases n - i,
        {
            if self.states[i].0 == shard {
                let old_state = self.states[i].1;
                let ghost prev = self.states@;
                let ghost c0 = self.counts;
                proof {
                    lemma_count_in_member(prev, i as int);
                    lemma_count_in_bounded(prev, new_state);
                    assert(count_of(c0, old_state) == count_in(prev, old_state));
                    assert(count_of(c0, new_state) == count_in(prev, new_state));
                    lemma_state_of_update(prev, i as int, (shard, new_state));
                }
                let dec = self.get_state_metric(old_state) - 1;
                self.set_count(old_state, dec);
                let inc = self.get_state_metric(new_state) + 1;
                self.set_count(new_state, inc);
                self.states.set(i, (shard, new_state));
                proof {
                    assert(self.states@ == prev.update(i as int, (shard, new_state)));
                    assert forall|s: ShardState| count_of(self.counts, s) == #[trigger] count_in(
                        self.states@,
                        s,
                    ) by {
                        lemma_count_in_update(prev, i as int, (shard, new_state), s);
                        assert(count_of(c0, s) == count_in(prev, s));
                    }
                    assert forall|a: int, b: int|
                        0 <= a < b < self.states@.len() implies (#[trigger] self.states@[a]).0 != (
                    #[trigger] self.states@[b]).0 by {
                        assert(prev[a].0 != prev[b].0);
                    }
                }
                return ;
            }
            i = i + 1;
        }
        let ghost prev = self.states@;
        let ghost c0 = self.counts;
        proof {
            lemma_count_in_bounded(prev, new_state);
            assert(count_of(c0, new_state) == count_in(prev, new_state));
            lemma_state_of_none(prev, shard);
            lemma_state_of_push(prev, (shard, new_state));
        }
        let inc = self.get_state_metric(new_state) + 1;
        self.set_count(new_state, inc);
        self.states.push((shard, new_state));
        proof {
            assert(self.states@ == prev.push((shard, new_state)));
            assert forall|s: ShardState| count_of(self.counts, s) == #[trigger] count_in(
                self.states@,
                s,
            ) by {
                lemma_count_in_push(prev, (shard, new_state), s);
                assert(count_of(c0, s) == count_in(prev, s));
            }
            assert forall|a: int, b: int|
                0 <= a < b < self.states@.len() implies (#[trigger] self.states@[a]).0 != (
            #[trigger] self.states@[b]).0 by {
                if b < prev.len() {
                    assert(prev[a].0 != prev[b].0);
                } else {
                    assert(self.states@[b] == (shard, new_state));
                    assert(prev[a].0 != shard);
                }
            }
        }
    }
}

/// A shard none of whose entries match is not recorded.
proof fn lemma_state_of_none(states: Seq<(u64, ShardState)>, shard: u64)
    requires
        forall|t: int| 0 <= t < states.len() ==> (#[trigger] states[t]).0 != shard,
    ensures
        state_of(states, shard) is None,
    decreases states.len(),
{
    if states.len() > 0 {
        assert(states[0] == states.first());
        assert forall|t: int| 0 <= t < states.drop_first().len() implies (#[trigger] states
            .drop_first()[t]).0 != shard by {
            assert(states.drop_first()[t] == states[t + 1]);
        }
        lemma_state_of_none(states.drop_first(), shard);
    }
}

/// The shape of one gateway event, as far as the bookkeeping cares:
/// shard lifecycle events move a shard's recorded state, everything
/// else is only counted.
#[derive(Clone, Copy, PartialEq, Eq, Structural, Debug)]
pub enum GatewayEvent {
    ShardConnecting,
    ShardIdentifying,
    ShardConnected,
    Ready,
    Resumed,
    ShardResuming,
    ShardReconnecting,
    ShardDisconnected,
    Other,
}

/// Which shard-state transition a gateway event announces, if any.
/// Both `Ready` and `Resumed` land a shard in the ready state.
pub open spec fn spec_shard_transition(event: GatewayEvent) -> Option<ShardState> {
    match event {
        GatewayEvent::ShardConnecting => Some(ShardState::Connecting),
        GatewayEvent::ShardIdentifying => Some(ShardState::Identifying),
        GatewayEvent::ShardConnected => Some(ShardState::Connected),
        GatewayEvent::Ready => Some(ShardState::Ready),
        GatewayEvent::Resumed => Some(ShardState::Ready),
        GatewayEvent::ShardResuming => Some(ShardState::Resuming),
        GatewayEvent::ShardReconnecting => Some(ShardState::Reconnecting),
        GatewayEvent::ShardDisconnected => Some(ShardState::Disconnected),
        GatewayEvent::Other => None,
    }
}

pub fn shard_transition(event: GatewayEvent) -> (r: Option<ShardState>)
    ensures
        r == spec_shard_transition(event),
{
    match event {
        GatewayEvent::ShardConnecting => Some(ShardState::Connecting),
        GatewayEvent::ShardIdentifying => Some(ShardState::Identifying),
        GatewayEvent::ShardConnected => Some(ShardState::Connected),
        GatewayEvent::Ready => Some(ShardState::Ready),
        GatewayEvent::Resumed => Some(ShardState::Ready),
        GatewayEvent::ShardResuming => Some(ShardState::Resuming),
        GatewayEvent::ShardReconnecting => Some(ShardState::Reconnecting),
        GatewayEvent::ShardDisconnected => Some(ShardState::Disconnected),
        GatewayEvent::Other => None,
    }
}

impl ShardTracker {
    /// Apply one gateway event to the shard bookkeeping: a lifecycle
    /// event moves the shard to the announced state, anything else
    /// leaves the tracker untouched.
    pub fn update_stats(&mut self, shard_id: u64, event: GatewayEvent)
        requires
            old(self).wf(),
            old(self).states_view().len() < 0xFFFF_FFFFu64,
        ensures
            final(self).wf(),
            final(self).states_view().len() <= old(self).states_view().len() + 1,
            spec_shard_transition(event) matches Some(s) ==> final(self).spec_state_of(shard_id)
                == Some(s),
            spec_shard_transition(event) is None ==> *final(self) == *old(self),
            forall|other: u64|
                other != shard_id ==> final(self).spec_state_of(other) == old(
                    self,
                ).spec_state_of(other),
    {
        match shard_transition(event) {
            Option::Some(state) => self.shard_state_change(shard_id, state),
            Option::None => (),
        }
    }
}

/// Progress of an initial guild load.
#[derive(Clone, Copy, PartialEq, Eq, Structural, Debug)]
pub struct LoadingState {
    pub to_load: u32,
    pub loaded: u32,
}

} // verus!
