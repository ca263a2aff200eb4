//! Live fan-out decisions: which tenants have subscribed sessions (the
//! first subscriber starts the tenant's live task, the last one's exit
//! stops it), the retry schedule of a tenant's live stream, the events
//! sent to sessions, and what a session does on each socket event.
use vstd::prelude::*;

use crate::api::error::{plain_api_error, ApiError, STATUS_UNAUTHORIZED};
use crate::domain::live::{ChangeAction, LiveChange};
use crate::json::JsonValue;
use crate::text::str_eq;

verus! {

/// Entries with distinct keys.
pub open spec fn keys_unique(s: Seq<(Seq<char>, usize)>) -> bool {
    forall|i: int, j: int| 0 <= i < j < s.len() ==> (#[trigger] s[i]).0 != (#[trigger] s[j]).0
}

pub open spec fn has_entry(s: Seq<(Seq<char>, usize)>, k: Seq<char>) -> bool {
    exists|i: int| 0 <= i < s.len() && (#[trigger] s[i]).0 == k
}

pub open spec fn entry_of(s: Seq<(Seq<char>, usize)>, k: Seq<char>) -> int {
    choose|i: int| 0 <= i < s.len() && (#[trigger] s[i]).0 == k
}

/// The map an entry list stands for.
pub open spec fn entries_map(s: Seq<(Seq<char>, usize)>) -> Map<Seq<char>, nat> {
    Map::new(|k: Seq<char>| has_entry(s, k), |k: Seq<char>| s[entry_of(s, k)].1 as nat)
}

proof fn lemma_entry_of(s: Seq<(Seq<char>, usize)>, i: int)
    requires
        keys_unique(s),
        0 <= i < s.len(),
    ensures
        has_entry(s, s[i].0),
        entry_of(s, s[i].0) == i,
{
    let k = s[i].0;
    assert(has_entry(s, k));
    let j = entry_of(s, k);
    if j != i {
        if j < i {
            assert(s[j].0 != s[i].0);
        } else {
            assert(s[i].0 != s[j].0);
        }
    }
}

proof fn lemma_map_update(s: Seq<(Seq<char>, usize)>, i: int, v: usize)
    requires
        keys_unique(s),
        0 <= i < s.len(),
    ensures
        keys_unique(s.update(i, (s[i].0, v))),
        entries_map(s.update(i, (s[i].0, v))) == entries_map(s).insert(s[i].0, v as nat),
{
    let t = s.update(i, (s[i].0, v));
    assert forall|a: int, b: int| 0 <= a < b < t.len() implies (#[trigger] t[a]).0 != (#[trigger] t[b]).0 by {
        assert(s[a].0 != s[b].0);
    }
    assert forall|k: Seq<char>| #[trigger] has_entry(t, k) == has_entry(s, k) by {
        if has_entry(t, k) {
            let j = choose|j: int| 0 <= j < t.len() && (#[trigger] t[j]).0 == k;
            assert(s[j].0 == k);
        }
        if has_entry(s, k) {
            let j = choose|j: int| 0 <= j < s.len() && (#[trigger] s[j]).0 == k;
            assert(t[j].0 == k);
        }
    }
    assert forall|k: Seq<char>| has_entry(t, k) implies t[entry_of(t, k)].1 as nat == (if k == s[i].0 {
        v as nat
    } else {
        s[entry_of(s, k)].1 as nat
    }) by {
        let j = entry_of(t, k);
        lemma_entry_of(t, j);
        lemma_entry_of(s, j);
    }
    assert(entries_map(t) =~= entries_map(s).insert(s[i].0, v as nat));
}

proof fn lemma_map_push(s: Seq<(Seq<char>, usize)>, k: Seq<char>, v: usize)
    requires
        keys_unique(s),
        !has_entry(s, k),
    ensures
        keys_unique(s.push((k, v))),
        entries_map(s.push((k, v))) == entries_map(s).insert(k, v as nat),
{
    let t = s.push((k, v));
    assert forall|a: int, b: int| 0 <= a < b < t.len() implies (#[trigger] t[a]).0 != (#[trigger] t[b]).0 by {
        if b == s.len() {
            assert(s[a].0 != k);
        } else {
            assert(s[a].0 != s[b].0);
        }
    }
    assert forall|q: Seq<char>| #[trigger] has_entry(t, q) == (has_entry(s, q) || q == k) by {
        if has_entry(t, q) {
            let j = choose|j: int| 0 <= j < t.len() && (#[trigger] t[j]).0 == q;
            if j < s.len() {
                assert(s[j].0 == q);
            }
        }
        if has_entry(s, q) {
            let j = choose|j: int| 0 <= j < s.len() && (#[trigger] s[j]).0 == q;
            assert(t[j].0 == q);
        }
        if q == k {
            assert(t[s.len() as int].0 == q);
        }
    }
    assert forall|q: Seq<char>| has_entry(t, q) implies t[entry_of(t, q)].1 as nat == (if q == k {
        v as nat
    } else {
        s[entry_of(s, q)].1 as nat
    }) by {
        let j = entry_of(t, q);
        lemma_entry_of(t, j);
        if j < s.len() {
            lemma_entry_of(s, j);
        }
    }
    assert(entries_map(t) =~= entries_map(s).insert(k, v as nat));
}

proof fn lemma_map_remove(s: Seq<(Seq<char>, usize)>, i: int)
    requires
        keys_unique(s),
        0 <= i < s.len(),
    ensures
        keys_unique(s.remove(i)),
        entries_map(s.remove(i)) == entries_map(s).remove(s[i].0),
{
    let t = s.remove(i);
    let k = s[i].0;
    assert forall|a: int| 0 <= a < t.len() implies #[trigger] t[a] == if a < i {
        s[a]
    } else {
        s[a + 1]
    } by {}
    assert forall|a: int, b: int| 0 <= a < b < t.len() implies (#[trigger] t[a]).0 != (#[trigger] t[b]).0 by {
        let a2 = if a < i { a } else { a + 1 };
        let b2 = if b < i { b } else { b + 1 };
        assert(t[a] == s[a2]);
        assert(t[b] == s[b2]);
        assert(s[a2].0 != s[b2].0);
    }
    assert forall|q: Seq<char>| #[trigger] has_entry(t, q) == (has_entry(s, q) && q != k) by {
        if has_entry(t, q) {
            let j = choose|j: int| 0 <= j < t.len() && (#[trigger] t[j]).0 == q;
            let j2 = if j < i { j } else { j + 1 };
            assert(t[j] == s[j2]);
            assert(s[j2].0 == q);
            assert(s[j2].0 != s[i].0) by {
                if j2 < i {
                } else {
                    assert(i < j2);
                }
            }
        }
        if has_entry(s, q) && q != k {
            let j = choose|j: int| 0 <= j < s.len() && (#[trigger] s[j]).0 == q;
            if j < i {
                assert(t[j] == s[j]);
            } else {
                assert(j != i);
                assert(t[j - 1] == s[j]);
            }
        }
    }
    assert forall|q: Seq<char>| has_entry(t, q) implies t[entry_of(t, q)].1 == s[entry_of(s, q)].1 by {
        let j = entry_of(t, q);
        lemma_entry_of(t, j);
        let j2 = if j < i { j } else { j + 1 };
        assert(t[j] == s[j2]);
        lemma_entry_of(s, j2);
    }
    assert(entries_map(t) =~= entries_map(s).remove(k));
}

/// The subscribed sessions per tenant.
pub struct HubState {
    entries: Vec<(String, usize)>,
}

pub open spec fn entries_view(v: Seq<(String, usize)>) -> Seq<(Seq<char>, usize)> {
    v.map_values(|e: (String, usize)| (e.0@, e.1))
}

impl View for HubState {
    type V = Map<Seq<char>, nat>;

    closed spec fn view(&self) -> Map<Seq<char>, nat> {
        entries_map(entries_view(self.entries@))
    }
}

/// What a subscribe asks of the caller: nothing more, or start the
/// tenant's live task (its first subscriber).
#[derive(Debug, Clone, Copy, PartialEq, Eq, Structural)]
pub enum SubscribeAction {
    Joined,
    Spawn,
}

/// What an unsubscribe asks of the caller: nothing (the tenant had no
/// subscriber), nothing more, or stop the tenant's live task (its last
/// subscriber left).
#[derive(Debug, Clone, Copy, PartialEq, Eq, Structural)]
pub enum UnsubscribeAction {
    Ignored,
    Left,
    Abort,
}

/// The number of sessions subscribed to `tenant`.
pub open spec fn subscribers_of(m: Map<Seq<char>, nat>, tenant: Seq<char>) -> nat {
    if m.dom().contains(tenant) {
        m[tenant]
    } else {
        0
    }
}

/// Every tenant in the map has at least one subscriber.
pub open spec fn counts_positive(m: Map<Seq<char>, nat>) -> bool {
    forall|t: Seq<char>| #[trigger] m.dom().contains(t) ==> m[t] >= 1
}

/// The state after a session subscribes to `tenant`.
pub open spec fn after_subscribe(m: Map<Seq<char>, nat>, tenant: Seq<char>) -> Map<Seq<char>, nat> {
    m.insert(tenant, subscribers_of(m, tenant) + 1)
}

/// The state after a session of `tenant` leaves.
pub open spec fn after_unsubscribe(m: Map<Seq<char>, nat>, tenant: Seq<char>) -> Map<Seq<char>, nat> {
    let c = subscribers_of(m, tenant);
    if c == 0 {
        m
    } else if c == 1 {
        m.remove(tenant)
    } else {
        m.insert(tenant, (c - 1) as nat)
    }
}

impl HubState {
    /// Entries have distinct tenants and positive counts.
    pub closed spec fn wf(&self) -> bool {
        &&& keys_unique(entries_view(self.entries@))
        &&& forall|i: int| 0 <= i < self.entries@.len() ==> (#[trigger] self.entries@[i]).1 >= 1
    }

    pub fn new() -> (r: HubState)
        ensures
            r.wf(),
            r@ == Map::<Seq<char>, nat>::empty(),
    {
        let r = HubState { entries: Vec::new() };
        assert(r@ =~= Map::<Seq<char>, nat>::empty());
        r
    }

    pub proof fn lemma_wf_counts(&self)
        requires
            self.wf(),
        ensures
            counts_positive(self@),
            self@.dom().finite(),
    {
        let s = entries_view(self.entries@);
        assert forall|t: Seq<char>| #[trigger] self@.dom().contains(t) implies self@[t] >= 1 by {
            let j = entry_of(s, t);
            assert(self.entries@[j].1 >= 1);
        }
        let keys = Set::new(|k: Seq<char>| has_entry(s, k));
        let ks = s.map_values(|e: (Seq<char>, usize)| e.0);
        assert forall|k: Seq<char>| #[trigger] keys.contains(k) == ks.to_set().contains(k) by {
            if keys.contains(k) {
                let j = entry_of(s, k);
                assert(ks[j] == k);
            }
            if ks.contains(k) {
                let j = choose|j: int| 0 <= j < ks.len() && #[trigger] ks[j] == k;
                assert(s[j].0 == k);
            }
        }
        assert(keys =~= ks.to_set());
        vstd::seq_lib::seq_to_set_is_finite(ks);
        assert(self@.dom() =~= keys);
    }

    /// Position of `tenant`'s entry.
    fn find(&self, tenant: &str) -> (r: Option<usize>)
        requires
            self.wf(),
        ensures
            match r {
                Some(i) => i < self.entries@.len() && self.entries@[i as int].0@ == tenant@,
                None => !has_entry(entries_view(self.entries@), tenant@),
            },
    {
        let mut i: usize = 0;
        while i < self.entries.len()
            invariant
                i <= self.entries@.len(),
                forall|j: int| 0 <= j < i ==> (#[trigger] self.entries@[j]).0@ != tenant@,
            decreases self.entries.len() - i,
        {
            if str_eq(self.entries[i].0.as_str(), tenant) {
                return Some(i);
            }
            i += 1;
        }
        assert forall|j: int| 0 <= j < entries_view(self.entries@).len() implies (#[trigger] entries_view(
            self.entries@,
        )[j]).0 != tenant@ by {
            assert(self.entries@[j].0@ != tenant@);
        }
        None
    }

    /// The number of sessions subscribed to `tenant`.
    pub fn subscribers(&self, tenant: &str) -> (r: usize)
        requires
            self.wf(),
        ensures
            r == subscribers_of(self@, tenant@),
    {
        match self.find(tenant) {
            Some(i) => {
                proof {
                    lemma_entry_of(entries_view(self.entries@), i as int);
                }
                self.entries[i].1
            },
            None => 0,
        }
    }

    /// No tenant has a subscriber.
    pub fn is_empty(&self) -> (r: bool)
        requires
            self.wf(),
        ensures
            r == (self@.dom() =~= Set::empty()),
    {
        let r = self.entries.len() == 0;
        proof {
            let s = entries_view(self.entries@);
            if !r {
                assert(s[0].0 == self.entries@[0].0@);
                assert(has_entry(s, s[0].0));
                assert(self@.dom().contains(s[0].0));
            } else {
                assert(self@.dom() =~= Set::empty());
            }
        }
        r
    }

    /// Registers a session of `tenant`; its first session starts the
    /// tenant's live task.
    pub fn subscribe(&mut self, tenant: &str) -> (r: SubscribeAction)
        requires
            old(self).wf(),
            subscribers_of(old(self)@, tenant@) < usize::MAX,
        ensures
            final(self).wf(),
            final(self)@ == after_subscribe(old(self)@, tenant@),
            r == (if subscribers_of(old(self)@, tenant@) == 0 {
                SubscribeAction::Spawn
            } else {
                SubscribeAction::Joined
            }),
    {
        let ghost s = entries_view(self.entries@);
        match self.find(tenant) {
            Some(i) => {
                proof {
                    lemma_entry_of(s, i as int);
                    lemma_map_update(s, i as int, (self.entries@[i as int].1 + 1) as usize);
                }
                let c = self.entries[i].1;
                let key = self.entries[i].0.clone();
                self.entries.set(i, (key, c + 1));
                assert(entries_view(self.entries@) =~= s.update(i as int, (s[i as int].0, (c + 1) as usize)));
                SubscribeAction::Joined
            },
            None => {
                proof {
                    lemma_map_push(s, tenant@, 1);
                }
                self.entries.push((crate::text::owned(tenant), 1));
                assert(entries_view(self.entries@) =~= s.push((tenant@, 1usize)));
                SubscribeAction::Spawn
            },
        }
    }

    /// Releases a session of `tenant`; the last one's exit stops the
    /// tenant's live task. A tenant without sessions is left alone.
    pub fn unsubscribe(&mut self, tenant: &str) -> (r: UnsubscribeAction)
        requires
            old(self).wf(),
        ensures
            final(self).wf(),
            final(self)@ == after_unsubscribe(old(self)@, tenant@),
            r == (if subscribers_of(old(self)@, tenant@) == 0 {
                UnsubscribeAction::Ignored
            } else if subscribers_of(old(self)@, tenant@) == 1 {
                UnsubscribeAction::Abort
            } else {
                UnsubscribeAction::Left
            }),
    {
        let ghost s = entries_view(self.entries@);
        match self.find(tenant) {
            Some(i) => {
                proof {
                    lemma_entry_of(s, i as int);
                }
                let c = self.entries[i].1;
                if c == 1 {
                    proof {
                        lemma_map_remove(s, i as int);
                    }
                    self.entries.remove(i);
                    assert(entries_view(self.entries@) =~= s.remove(i as int));
                    UnsubscribeAction::Abort
                } else {
                    proof {
                        lemma_map_update(s, i as int, (c - 1) as usize);
                    }
                    let key = self.entries[i].0.clone();
                    self.entries.set(i, (key, c - 1));
                    assert(entries_view(self.entries@) =~= s.update(i as int, (s[i as int].0, (c - 1) as usize)));
                    UnsubscribeAction::Left
                }
            },
            None => UnsubscribeAction::Ignored,
        }
    }
}

/// A subscribe followed by an unsubscribe of the same tenant leaves the
/// subscriber counts as they were.
pub proof fn lemma_subscribe_then_unsubscribe(m: Map<Seq<char>, nat>, tenant: Seq<char>)
    requires
        counts_positive(m),
    ensures
        after_unsubscribe(after_subscribe(m, tenant), tenant) == m,
{
    let m1 = after_subscribe(m, tenant);
    if m.dom().contains(tenant) {
        assert(after_unsubscribe(m1, tenant) =~= m);
    } else {
        assert(after_unsubscribe(m1, tenant) =~= m);
    }
}

/// Subscribing and unsubscribing keep every count positive.
pub proof fn lemma_counts_stay_positive(m: Map<Seq<char>, nat>, tenant: Seq<char>)
    requires
        counts_positive(m),
    ensures
        counts_positive(after_subscribe(m, tenant)),
        counts_positive(after_unsubscribe(m, tenant)),
{
}

/// Other tenants' counts are untouched by a subscribe or unsubscribe.
pub proof fn lemma_other_tenants_untouched(m: Map<Seq<char>, nat>, tenant: Seq<char>, other: Seq<char>)
    requires
        other != tenant,
    ensures
        subscribers_of(after_subscribe(m, tenant), other) == subscribers_of(m, other),
        subscribers_of(after_unsubscribe(m, tenant), other) == subscribers_of(m, other),
{
}

/// Capacity of a tenant's broadcast channel.
pub const BROADCAST_CAPACITY: usize = 256;
/// First retry delay of a tenant's live stream, in milliseconds.
pub const RETRY_INITIAL_MS: u64 = 500;
/// Longest retry delay, in milliseconds.
pub const RETRY_MAX_MS: u64 = 5000;
/// Interval between keep-alive pings to a session, in seconds.
pub const PING_INTERVAL_SECS: u64 = 30;
pub const PING_FRAME: &'static str = "{\"type\":\"ping\"}";
pub const RESYNC_FRAME: &'static str = "{\"type\":\"resync\"}";

/// What sessions are sent: a change to an entity, or a request to refetch.
#[derive(Debug, PartialEq)]
pub enum ServerEvent {
    Change { entity: &'static str, action: &'static str, id: String, data: Option<JsonValue> },
    Resync,
}

pub open spec fn action_key(a: ChangeAction) -> Seq<char> {
    match a {
        ChangeAction::Create => "create"@,
        ChangeAction::Update => "update"@,
        ChangeAction::Delete => "delete"@,
    }
}

pub fn action_name(a: ChangeAction) -> (r: &'static str)
    ensures
        r@ == action_key(a),
{
    match a {
        ChangeAction::Create => "create",
        ChangeAction::Update => "update",
        ChangeAction::Delete => "delete",
    }
}

pub open spec fn entity_key(c: LiveChange) -> Seq<char> {
    match c {
        LiveChange::Customer(_) => "customer"@,
        LiveChange::Order(_) => "order"@,
        LiveChange::Invoice(_) => "invoice"@,
        LiveChange::Quote(_) => "quote"@,
    }
}

/// The entity name a change is announced under.
pub fn entity_name(c: &LiveChange) -> (r: &'static str)
    ensures
        r@ == entity_key(*c),
{
    match c {
        LiveChange::Customer(_) => "customer",
        LiveChange::Order(_) => "order",
        LiveChange::Invoice(_) => "invoice",
        LiveChange::Quote(_) => "quote",
    }
}

/// The change envelope: the entity, the action's name, the id, and the
/// entity's data as JSON (none for a delete, or when it did not serialise).
pub fn envelope(entity: &'static str, action: ChangeAction, id: String, data: Option<JsonValue>) -> (r: ServerEvent)
    ensures
        r matches ServerEvent::Change { entity: e, action: a, id: i, data: d } && e == entity && a@
            == action_key(action) && i == id && d == data,
{
    ServerEvent::Change { entity, action: action_name(action), id, data }
}

/// The retry state of a tenant's live stream: the next delay, and whether
/// the stream was opened before (so a new opening may have missed events).
#[derive(Debug, Clone, Copy, PartialEq, Eq, Structural)]
pub struct Reconnect {
    pub backoff_ms: u64,
    pub reopening: bool,
}

/// The delay after `k` waits since the last successful opening.
pub open spec fn backoff_after(k: nat) -> u64
    decreases k,
{
    if k == 0 {
        RETRY_INITIAL_MS
    } else {
        let prev = backoff_after((k - 1) as nat);
        if prev * 2 < RETRY_MAX_MS {
            (prev * 2) as u64
        } else {
            RETRY_MAX_MS
        }
    }
}

impl Reconnect {
    pub open spec fn wf(self) -> bool {
        RETRY_INITIAL_MS <= self.backoff_ms <= RETRY_MAX_MS
    }

    /// Before the first attempt.
    pub fn new() -> (r: Reconnect)
        ensures
            r.wf(),
            r.backoff_ms == RETRY_INITIAL_MS,
            !r.reopening,
    {
        Reconnect { backoff_ms: RETRY_INITIAL_MS, reopening: false }
    }

    /// The stream opened: the delay starts over, and sessions are told to
    /// refetch iff this is not the first opening.
    pub fn opened(&mut self) -> (resync: bool)
        ensures
            resync == old(self).reopening,
            final(self).backoff_ms == RETRY_INITIAL_MS,
            final(self).reopening,
    {
        let resync = self.reopening;
        self.backoff_ms = RETRY_INITIAL_MS;
        self.reopening = true;
        resync
    }

    /// Opening the stream failed: the next opening counts as a reopening.
    pub fn open_failed(&mut self)
        ensures
            final(self).backoff_ms == old(self).backoff_ms,
            final(self).reopening,
    {
        self.reopening = true;
    }

    /// The delay to wait before the next attempt; the delay after it is
    /// doubled, up to the cap.
    pub fn next_delay(&mut self) -> (d: u64)
        requires
            old(self).wf(),
        ensures
            d == old(self).backoff_ms,
            final(self).wf(),
            final(self).reopening == old(self).reopening,
            final(self).backoff_ms == if old(self).backoff_ms * 2 < RETRY_MAX_MS {
                (old(self).backoff_ms * 2) as u64
            } else {
                RETRY_MAX_MS
            },
    {
        let d = self.backoff_ms;
        self.backoff_ms = if d < RETRY_MAX_MS / 2 {
            d * 2
        } else {
            RETRY_MAX_MS
        };
        d
    }
}

/// The retry delay starts at the initial delay, doubles per wait and never
/// exceeds the cap.
pub proof fn lemma_backoff_bounded(k: nat)
    ensures
        RETRY_INITIAL_MS <= backoff_after(k) <= RETRY_MAX_MS,
        backoff_after(k + 1) >= backoff_after(k),
    decreases k,
{
    if k > 0 {
        lemma_backoff_bounded((k - 1) as nat);
    }
}

/// The waits since an opening run 500, 1000, 2000, 4000 ms and then stay at
/// 5000 ms.
pub proof fn lemma_backoff_schedule()
    ensures
        backoff_after(0) == 500,
        backoff_after(1) == 1000,
        backoff_after(2) == 2000,
        backoff_after(3) == 4000,
        backoff_after(4) == 5000,
        forall|k: nat| k >= 4 ==> #[trigger] backoff_after(k) == 5000,
{
    assert(backoff_after(0) == 500);
    assert(backoff_after(1) == 1000);
    assert(backoff_after(2) == 2000);
    assert(backoff_after(3) == 4000);
    assert(backoff_after(4) == 5000);
    assert forall|k: nat| k >= 4 implies #[trigger] backoff_after(k) == 5000 by {
        lemma_backoff_capped(k);
    }
}

proof fn lemma_backoff_capped(k: nat)
    requires
        k >= 4,
    ensures
        backoff_after(k) == 5000,
    decreases k,
{
    if k > 4 {
        lemma_backoff_capped((k - 1) as nat);
    } else {
        assert(backoff_after(0) == 500);
        assert(backoff_after(1) == 1000);
        assert(backoff_after(2) == 2000);
        assert(backoff_after(3) == 4000);
    }
}

/// What a session sees: a broadcast event, a notice that it fell behind
/// the broadcast buffer, the channel's end, a ping tick, or a message from
/// the client.
#[derive(Debug, Clone, Copy, PartialEq, Eq, Structural)]
pub enum SessionInput {
    Event,
    Lagged,
    ChannelClosed,
    PingTick,
    ClientClose,
    ClientError,
    ClientGone,
    ClientOther,
}

/// What a session does in response.
#[derive(Debug, Clone, Copy, PartialEq, Eq, Structural)]
pub enum SessionAction {
    SendEvent,
    SendResync,
    SendPing,
    Stop,
    Ignore,
}

/// A session forwards events, asks a lagging client to refetch instead of
/// dropping it, pings on each tick, stops when the channel or the client
/// goes away, and ignores any other client message.
pub fn session_step(input: SessionInput) -> (r: SessionAction)
    ensures
        r == match input {
            SessionInput::Event => SessionAction::SendEvent,
            SessionInput::Lagged => SessionAction::SendResync,
            SessionInput::PingTick => SessionAction::SendPing,
            SessionInput::ChannelClosed | SessionInput::ClientClose | SessionInput::ClientError
            | SessionInput::ClientGone => SessionAction::Stop,
            SessionInput::ClientOther => SessionAction::Ignore,
        },
{
    match input {
        SessionInput::Event => SessionAction::SendEvent,
        SessionInput::Lagged => SessionAction::SendResync,
        SessionInput::PingTick => SessionAction::SendPing,
        SessionInput::ChannelClosed | SessionInput::ClientClose | SessionInput::ClientError
        | SessionInput::ClientGone => SessionAction::Stop,
        SessionInput::ClientOther => SessionAction::Ignore,
    }
}

/// The query of a session's upgrade request.
#[derive(Debug, Clone, PartialEq)]
pub struct WsQuery {
    pub token: Option<String>,
}

/// A session authenticates with the token in its query (browsers cannot
/// set headers on the upgrade request); without one it is refused.
pub fn ws_token(query: WsQuery) -> (r: Result<String, ApiError>)
    ensures
        match query.token {
            Some(t) => r == Ok::<String, ApiError>(t),
            None => r matches Err(e) && e@ == plain_api_error(STATUS_UNAUTHORIZED, "unauthorized"@, "missing token"@),
        },
{
    match query.token {
        Some(t) => Ok(t),
        None => Err(ApiError::unauthorized("missing token")),
    }
}

} // verus!
