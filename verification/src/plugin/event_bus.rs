//! Messages between plugins and the event bus that routes them: which
//! subscriber receives which message, how topic filters match, how the bus
//! counts its traffic and how its history is bounded. Each subscriber's
//! pending messages wait in a bounded queue inside the bus; a caller that
//! shares the bus between threads wraps it in a lock.
use vstd::prelude::*;
use crate::plugin::api::opt_view;
use crate::process::env_views;
use crate::plugin::error::PluginError;
use crate::text::{chars_of, matches_at, owned, push_str, starts_with, str_eq, string_of};

verus! {

/// Message priority levels, from lowest to highest.
#[derive(Debug, Clone, Copy, PartialEq, Eq, PartialOrd, Ord, Hash)]
pub enum MessagePriority {
    /// Low priority (processed last).
    Low,
    /// Normal priority.
    Normal,
    /// High priority (processed first).
    High,
    /// Critical priority (immediate processing).
    Critical,
}

/// Numeric level of a priority: 0 for low up to 3 for critical.
pub open spec fn priority_level(p: MessagePriority) -> u8 {
    match p {
        MessagePriority::Low => 0,
        MessagePriority::Normal => 1,
        MessagePriority::High => 2,
        MessagePriority::Critical => 3,
    }
}

impl MessagePriority {
    /// Numeric level of the priority.
    pub fn level(&self) -> (r: u8)
        ensures
            r == priority_level(*self),
    {
        match self {
            MessagePriority::Low => 0,
            MessagePriority::Normal => 1,
            MessagePriority::High => 2,
            MessagePriority::Critical => 3,
        }
    }

    /// Whether this priority is above `other`.
    pub fn is_above(&self, other: &MessagePriority) -> (r: bool)
        ensures
            r == (priority_level(*self) > priority_level(*other)),
    {
        self.level() > other.level()
    }
}

/// Message payload types.
#[derive(Debug, Clone)]
pub enum MessagePayload {
    /// Empty payload.
    Empty,
    /// Text payload.
    Text(String),
    /// JSON payload, as JSON text.
    Json(String),
    /// Binary payload.
    Binary(Vec<u8>),
    /// Key-value pairs.
    KeyValue(Vec<(String, String)>),
}

impl MessagePayload {
    /// The text of a text payload.
    pub fn as_text(&self) -> (r: Option<&str>)
        ensures
            match *self {
                MessagePayload::Text(t) => r matches Some(s) && s@ == t@,
                _ => r is None,
            },
    {
        match self {
            MessagePayload::Text(t) => Some(t.as_str()),
            _ => None,
        }
    }

    /// The bytes of a binary payload.
    pub fn as_binary(&self) -> (r: Option<&[u8]>)
        ensures
            match *self {
                MessagePayload::Binary(b) => r matches Some(s) && s@ == b@,
                _ => r is None,
            },
    {
        match self {
            MessagePayload::Binary(b) => Some(b.as_slice()),
            _ => None,
        }
    }

    /// The JSON text of a JSON or text payload; any other payload is not
    /// JSON.
    pub fn json_source(&self) -> (r: Result<&str, PluginError>)
        ensures
            match *self {
                MessagePayload::Json(t) => r matches Ok(s) && s@ == t@,
                MessagePayload::Text(t) => r matches Ok(s) && s@ == t@,
                _ => r matches Err(PluginError::ChannelReceive(m)) && m@ == "payload is not JSON"@,
            },
    {
        match self {
            MessagePayload::Json(t) => Ok(t.as_str()),
            MessagePayload::Text(t) => Ok(t.as_str()),
            _ => {
                proof {
                    reveal_strlit("payload is not JSON");
                }
                Err(PluginError::ChannelReceive(owned("payload is not JSON")))
            },
        }
    }

    /// The pairs of a map payload.
    pub fn as_map(&self) -> (r: Option<&Vec<(String, String)>>)
        ensures
            match *self {
                MessagePayload::KeyValue(m) => r matches Some(s) && s@ == m@,
                _ => r is None,
            },
    {
        match self {
            MessagePayload::KeyValue(m) => Some(m),
            _ => None,
        }
    }
}

#[verifier::external_type_specification]
#[verifier::external_body]
pub struct ExInstant(std::time::Instant);

/// `Instant` is `Copy`; its `clone` returns the same instant.
pub assume_specification[ <std::time::Instant as Clone>::clone ](i: &std::time::Instant) -> (r: std::time::Instant)
    ensures
        r == *i,
;

/// `Instant::now`: the current time; nothing is stated of it.
#[verifier::external_body]
fn instant_now() -> std::time::Instant {
    std::time::Instant::now()
}

/// Event message that can be passed between plugins.
#[derive(Debug, Clone)]
pub struct EventMessage {
    /// Unique message ID.
    pub id: u64,
    /// Source plugin ID.
    pub source: String,
    /// Target plugin ID (None for broadcast).
    pub target: Option<String>,
    /// Message topic.
    pub topic: String,
    /// Message payload.
    pub payload: MessagePayload,
    /// When the message was created.
    pub timestamp: std::time::Instant,
    /// Correlation ID for request-response patterns.
    pub correlation_id: Option<u64>,
    /// Message priority.
    pub priority: MessagePriority,
}

/// The topic of the response to a message on `topic`.
pub open spec fn response_topic(topic: Seq<char>) -> Seq<char> {
    topic + seq!['.', 'r', 'e', 's', 'p', 'o', 'n', 's', 'e']
}

impl EventMessage {
    /// Create a new broadcast message with normal priority; `id` is the
    /// message's unique ID.
    pub fn new(id: u64, source: &str, topic: &str, payload: MessagePayload) -> (r: Self)
        ensures
            r.id == id,
            r.source@ == source@,
            r.target is None,
            r.topic@ == topic@,
            r.payload == payload,
            r.correlation_id is None,
            r.priority == MessagePriority::Normal,
    {
        EventMessage {
            id,
            source: owned(source),
            target: None,
            topic: owned(topic),
            payload,
            timestamp: instant_now(),
            correlation_id: None,
            priority: MessagePriority::Normal,
        }
    }

    /// Create a broadcast message.
    pub fn broadcast(id: u64, source: &str, topic: &str, payload: MessagePayload) -> (r: Self)
        ensures
            r.id == id,
            r.source@ == source@,
            r.target is None,
            r.topic@ == topic@,
            r.payload == payload,
            r.correlation_id is None,
            r.priority == MessagePriority::Normal,
    {
        Self::new(id, source, topic, payload)
    }

    /// Create a direct message to a specific plugin.
    pub fn direct(id: u64, source: &str, target: &str, topic: &str, payload: MessagePayload) -> (r: Self)
        ensures
            r.id == id,
            r.source@ == source@,
            opt_view(r.target) == Some(target@),
            r.topic@ == topic@,
            r.payload == payload,
            r.correlation_id is None,
            r.priority == MessagePriority::Normal,
    {
        let mut msg = Self::new(id, source, topic, payload);
        msg.target = Some(owned(target));
        msg
    }

    /// Create the response to `original`: addressed to its source, on its
    /// topic followed by `.response`, correlated with its ID.
    pub fn response(original: &Self, id: u64, source: &str, payload: MessagePayload) -> (r: Self)
        ensures
            r.id == id,
            r.source@ == source@,
            opt_view(r.target) == Some(original.source@),
            r.topic@ == response_topic(original.topic@),
            r.payload == payload,
            r.correlation_id == Some(original.id),
            r.priority == MessagePriority::Normal,
    {
        let mut t: Vec<char> = Vec::new();
        push_str(&mut t, original.topic.as_str());
        let suffix: Vec<char> = vec!['.', 'r', 'e', 's', 'p', 'o', 'n', 's', 'e'];
        crate::text::push_all(&mut t, suffix.as_slice());
        assert(t@ =~= response_topic(original.topic@));
        let topic = string_of(t.as_slice());
        let mut msg = Self::new(id, source, topic.as_str(), payload);
        msg.target = Some(owned(original.source.as_str()));
        msg.correlation_id = Some(original.id);
        msg
    }

    /// Set message priority.
    pub fn with_priority(self, priority: MessagePriority) -> (r: Self)
        ensures
            r == (EventMessage { priority, ..self }),
    {
        let mut m = self;
        m.priority = priority;
        m
    }

    /// Check if this is a broadcast message.
    pub fn is_broadcast(&self) -> (r: bool)
        ensures
            r == self.target is None,
    {
        self.target.is_none()
    }

    /// Check if this message is for a specific plugin: a broadcast is for
    /// everyone, a direct message for its target only.
    pub fn is_for(&self, plugin_id: &str) -> (r: bool)
        ensures
            r == (match self.target {
                Some(t) => t@ == plugin_id@,
                None => true,
            }),
    {
        match &self.target {
            Some(t) => str_eq(t.as_str(), plugin_id),
            None => true,
        }
    }

    /// Check if this is a response to a previous message.
    pub fn is_response(&self) -> (r: bool)
        ensures
            r == self.correlation_id is Some,
    {
        self.correlation_id.is_some()
    }
}

/// Whether a topic matches a subscription filter: an empty filter or `*`
/// matches everything, a filter ending in `*` matches the topics that start
/// with what precedes it, any other filter matches only itself.
pub open spec fn topic_match(topic: Seq<char>, filter: Seq<char>) -> bool {
    if filter.len() == 0 || filter == seq!['*'] {
        true
    } else if filter.last() == '*' {
        starts_with(topic, filter.drop_last())
    } else {
        topic == filter
    }
}

/// Check if a topic matches a filter.
pub fn topic_matches(topic: &str, filter: &str) -> (r: bool)
    ensures
        r == topic_match(topic@, filter@),
{
    let f = chars_of(filter);
    let t = chars_of(topic);
    if f.len() == 0 || (f.len() == 1 && f[0] == '*') {
        assert(f@.len() == 1 ==> f@ =~= seq![f@[0]]);
        return true;
    }
    if f[f.len() - 1] == '*' {
        let prefix = crate::text::slice_chars(f.as_slice(), 0, f.len() - 1);
        assert(prefix@ =~= f@.drop_last());
        let r = matches_at(t.as_slice(), prefix.as_slice(), 0);
        proof {
            if r {
                assert(t@.subrange(0, prefix@.len() as int) == prefix@);
            }
            if starts_with(t@, prefix@) {
                assert(crate::text::occurs_at(t@, prefix@, 0));
            }
        }
        return r;
    }
    proof {
        if f@.len() == 1 {
            assert(f@ != seq!['*']) by {
                assert(f@[0] != '*');
            }
        }
    }
    crate::text::chars_eq(t.as_slice(), f.as_slice())
}

/// Whether the bus hands a message to a subscriber: the message must be
/// addressed to the subscriber or broadcast, must not come from the
/// subscriber itself, and must match the subscriber's topic filter.
pub open spec fn delivers(
    source: Seq<char>,
    target: Option<Seq<char>>,
    topic: Seq<char>,
    subscriber: Seq<char>,
    filter: Option<Seq<char>>,
) -> bool {
    &&& match target {
        Some(t) => t == subscriber,
        None => true,
    }
    &&& source != subscriber
    &&& match filter {
        Some(f) => topic_match(topic, f),
        None => true,
    }
}

/// Check if a message should be delivered to a subscriber with the given
/// plugin ID and topic filter.
pub fn should_deliver(message: &EventMessage, subscriber: &str, filter: Option<&str>) -> (r: bool)
    ensures
        r == delivers(
            message.source@,
            opt_view(message.target),
            message.topic@,
            subscriber@,
            match filter { Some(f) => Some(f@), None => None },
        ),
{
    match &message.target {
        Some(t) => {
            if !str_eq(t.as_str(), subscriber) {
                return false;
            }
        },
        None => {},
    }
    if str_eq(message.source.as_str(), subscriber) {
        return false;
    }
    match filter {
        Some(f) => topic_matches(message.topic.as_str(), f),
        None => true,
    }
}

/// Event bus statistics. The counters wrap around at `u64::MAX`.
#[derive(Debug, Clone, Copy, Default, PartialEq, Eq)]
pub struct EventBusStats {
    /// Total messages published.
    pub messages_published: u64,
    /// Total messages delivered.
    pub messages_delivered: u64,
    /// Dropped messages (no subscribers).
    pub messages_dropped: u64,
    /// Active subscribers.
    pub active_subscribers: u64,
}

/// `a + b` modulo 2^64.
pub open spec fn wrapping(a: u64, b: u64) -> u64 {
    ((a as int + b as int) % 0x1_0000_0000_0000_0000int) as u64
}

impl EventBusStats {
    /// Count a published message that reached `delivered` subscribers; a
    /// message that reached nobody counts as dropped.
    pub fn record_publish(&mut self, delivered: u64)
        ensures
            final(self).messages_published == wrapping(old(self).messages_published, 1),
            final(self).messages_delivered == wrapping(old(self).messages_delivered, delivered),
            final(self).messages_dropped == wrapping(
                old(self).messages_dropped,
                if delivered == 0 { 1 } else { 0 },
            ),
            final(self).active_subscribers == old(self).active_subscribers,
    {
        self.messages_published = self.messages_published.wrapping_add(1);
        self.messages_delivered = self.messages_delivered.wrapping_add(delivered);
        if delivered == 0 {
            self.messages_dropped = self.messages_dropped.wrapping_add(1);
        }
    }

    /// Count a new subscriber.
    pub fn record_subscribe(&mut self)
        ensures
            final(self).active_subscribers == wrapping(old(self).active_subscribers, 1),
            final(self).messages_published == old(self).messages_published,
            final(self).messages_delivered == old(self).messages_delivered,
            final(self).messages_dropped == old(self).messages_dropped,
    {
        self.active_subscribers = self.active_subscribers.wrapping_add(1);
    }

    /// Count a subscriber that left.
    pub fn record_unsubscribe(&mut self)
        ensures
            final(self).active_subscribers == (if old(self).active_subscribers == 0 {
                u64::MAX
            } else {
                (old(self).active_subscribers - 1) as u64
            }),
            final(self).messages_published == old(self).messages_published,
            final(self).messages_delivered == old(self).messages_delivered,
            final(self).messages_dropped == old(self).messages_dropped,
    {
        self.active_subscribers = self.active_subscribers.wrapping_sub(1);
    }

    /// All subscribers removed.
    pub fn record_clear(&mut self)
        ensures
            final(self).active_subscribers == 0,
            final(self).messages_published == old(self).messages_published,
            final(self).messages_delivered == old(self).messages_delivered,
            final(self).messages_dropped == old(self).messages_dropped,
    {
        self.active_subscribers = 0;
    }
}

/// The history after appending an item and keeping the last `limit`.
pub open spec fn bounded_push<T>(history: Seq<T>, item: T, limit: nat) -> Seq<T> {
    let h = history.push(item);
    if h.len() > limit {
        h.subrange(h.len() - limit, h.len() as int)
    } else {
        h
    }
}

/// Append a message to a history and drop the oldest entries beyond
/// `limit`.
pub fn push_history<T>(history: &mut Vec<T>, item: T, limit: usize)
    ensures
        final(history)@ == bounded_push(old(history)@, item, limit as nat),
{
    history.push(item);
    let ghost full = history@;
    if history.len() > limit {
        let excess = history.len() - limit;
        let mut k: usize = 0;
        while k < excess
            invariant
                k <= excess,
                excess == full.len() - limit,
                history@ == full.subrange(k as int, full.len() as int),
            decreases excess - k,
        {
            history.remove(0);
            k = k + 1;
            assert(history@ =~= full.subrange(k as int, full.len() as int));
        }
    }
}

/// The history never holds more than its limit and always ends with the
/// newest message.
pub proof fn lemma_history_bounded<T>(history: Seq<T>, item: T, limit: nat)
    requires
        limit >= 1,
    ensures
        bounded_push(history, item, limit).len() <= limit || bounded_push(history, item, limit).len()
            == history.len() + 1,
        bounded_push(history, item, limit).len() <= limit || history.len() < limit,
        bounded_push(history, item, limit).last() == item,
{
}

/// The contents of a payload, as values.
pub ghost enum PayloadView {
    Empty,
    Text(Seq<char>),
    Json(Seq<char>),
    Binary(Seq<u8>),
    KeyValue(Seq<(Seq<char>, Seq<char>)>),
}

impl View for MessagePayload {
    type V = PayloadView;

    open spec fn view(&self) -> PayloadView {
        match *self {
            MessagePayload::Empty => PayloadView::Empty,
            MessagePayload::Text(t) => PayloadView::Text(t@),
            MessagePayload::Json(t) => PayloadView::Json(t@),
            MessagePayload::Binary(b) => PayloadView::Binary(b@),
            MessagePayload::KeyValue(m) => PayloadView::KeyValue(env_views(m@)),
        }
    }
}

/// The contents of a message, as values; when it was created is not part
/// of them.
pub ghost struct MessageView {
    pub id: u64,
    pub source: Seq<char>,
    pub target: Option<Seq<char>>,
    pub topic: Seq<char>,
    pub payload: PayloadView,
    pub correlation_id: Option<u64>,
    pub priority: MessagePriority,
}

impl View for EventMessage {
    type V = MessageView;

    open spec fn view(&self) -> MessageView {
        MessageView {
            id: self.id,
            source: self.source@,
            target: opt_view(self.target),
            topic: self.topic@,
            payload: self.payload@,
            correlation_id: self.correlation_id,
            priority: self.priority,
        }
    }
}

/// The contents of a list of messages.
pub open spec fn messages_view(q: Seq<EventMessage>) -> Seq<MessageView> {
    q.map_values(|m: EventMessage| m@)
}

pub(crate) fn copy_bytes(b: &Vec<u8>) -> (r: Vec<u8>)
    ensures
        r@ == b@,
{
    let mut out: Vec<u8> = Vec::new();
    let mut i: usize = 0;
    while i < b.len()
        invariant
            i <= b@.len(),
            out@ == b@.subrange(0, i as int),
        decreases b.len() - i,
    {
        out.push(b[i]);
        i = i + 1;
        assert(out@ =~= b@.subrange(0, i as int));
    }
    assert(b@.subrange(0, b@.len() as int) =~= b@);
    out
}

fn copy_pairs(m: &Vec<(String, String)>) -> (r: Vec<(String, String)>)
    ensures
        env_views(r@) == env_views(m@),
{
    let mut out: Vec<(String, String)> = Vec::new();
    let mut i: usize = 0;
    while i < m.len()
        invariant
            i <= m@.len(),
            env_views(out@) == env_views(m@.subrange(0, i as int)),
        decreases m.len() - i,
    {
        let ghost prev = out@;
        out.push((m[i].0.clone(), m[i].1.clone()));
        assert(env_views(out@) =~= env_views(prev).push((m@[i as int].0@, m@[i as int].1@)));
        i = i + 1;
        assert(env_views(m@.subrange(0, i as int)) =~= env_views(m@.subrange(0, i - 1)).push(
            (m@[i - 1].0@, m@[i - 1].1@),
        ));
    }
    assert(m@.subrange(0, m@.len() as int) =~= m@);
    out
}

fn copy_payload(p: &MessagePayload) -> (r: MessagePayload)
    ensures
        r@ == p@,
{
    match p {
        MessagePayload::Empty => MessagePayload::Empty,
        MessagePayload::Text(t) => MessagePayload::Text(t.clone()),
        MessagePayload::Json(t) => MessagePayload::Json(t.clone()),
        MessagePayload::Binary(b) => MessagePayload::Binary(copy_bytes(b)),
        MessagePayload::KeyValue(m) => MessagePayload::KeyValue(copy_pairs(m)),
    }
}

fn copy_message(m: &EventMessage) -> (r: EventMessage)
    ensures
        r@ == m@,
        r.timestamp == m.timestamp,
{
    let target = match &m.target {
        Some(t) => Some(t.clone()),
        None => None,
    };
    EventMessage {
        id: m.id,
        source: m.source.clone(),
        target,
        topic: m.topic.clone(),
        payload: copy_payload(&m.payload),
        timestamp: m.timestamp,
        correlation_id: m.correlation_id,
        priority: m.priority,
    }
}

/// Default event bus capacity.
pub const DEFAULT_CAPACITY: usize = 1000;

/// Number of published messages the bus remembers.
pub const HISTORY_LIMIT: usize = 100;

/// A handle on a subscription: its ID, the plugin it belongs to and its
/// topic filter. Its pending messages are taken from the bus with
/// `EventBus::try_recv` and `EventBus::drain`.
#[derive(Debug, Clone)]
pub struct EventSubscription {
    /// Subscriber ID.
    pub id: u64,
    /// Plugin ID.
    pub plugin_id: String,
    /// Topic filter (None for all topics).
    pub topic_filter: Option<String>,
}

impl EventSubscription {
    /// A subscription stays usable for as long as its handle exists.
    pub fn is_active(&self) -> (r: bool)
        ensures
            r,
    {
        true
    }
}

/// A registered subscriber and the messages waiting for it.
#[derive(Debug)]
struct Subscriber {
    id: u64,
    plugin_id: String,
    topic_filter: Option<String>,
    queue: Vec<EventMessage>,
}

/// A subscriber as the bus sees it.
pub ghost struct SubscriberView {
    pub id: u64,
    pub plugin_id: Seq<char>,
    pub filter: Option<Seq<char>>,
    pub pending: Seq<MessageView>,
}

impl Subscriber {
    spec fn view_of(self) -> SubscriberView {
        SubscriberView {
            id: self.id,
            plugin_id: self.plugin_id@,
            filter: opt_view(self.topic_filter),
            pending: messages_view(self.queue@),
        }
    }
}

/// The state of an event bus, as values.
pub ghost struct EventBusView {
    pub subscribers: Seq<SubscriberView>,
    pub next_id: u64,
    pub history: Seq<MessageView>,
    pub capacity: nat,
    pub stats: EventBusStats,
}

/// Event bus for plugin communication: subscribers register with an
/// optional topic filter, and each published message is queued for every
/// subscriber that it is routed to and whose queue has room.
#[derive(Debug)]
pub struct EventBus {
    subscribers: Vec<Subscriber>,
    next_id: u64,
    history: Vec<EventMessage>,
    capacity: usize,
    stats: EventBusStats,
}

/// Whether a subscriber takes a message: the message is routed to it and
/// its queue has room.
pub open spec fn accepts(s: SubscriberView, m: MessageView, capacity: nat) -> bool {
    delivers(m.source, m.target, m.topic, s.plugin_id, s.filter) && s.pending.len() < capacity
}

/// A subscriber after a message was offered to it.
pub open spec fn offer(s: SubscriberView, m: MessageView, capacity: nat) -> SubscriberView {
    if accepts(s, m, capacity) {
        SubscriberView { pending: s.pending.push(m), ..s }
    } else {
        s
    }
}

/// The number of subscribers that take a message.
pub open spec fn accepted_count(subs: Seq<SubscriberView>, m: MessageView, capacity: nat) -> nat
    decreases subs.len(),
{
    if subs.len() == 0 {
        0
    } else {
        accepted_count(subs.drop_last(), m, capacity) + if accepts(subs.last(), m, capacity) {
            1nat
        } else {
            0nat
        }
    }
}

/// Position of the subscriber with the given ID, if any.
pub open spec fn subscriber_position(subs: Seq<SubscriberView>, id: u64) -> Option<int>
    decreases subs.len(),
{
    if subs.len() == 0 {
        None
    } else if subs.last().id == id {
        Some(subs.len() - 1)
    } else {
        subscriber_position(subs.drop_last(), id)
    }
}

proof fn lemma_position_bounds(subs: Seq<SubscriberView>, id: u64)
    ensures
        match subscriber_position(subs, id) {
            Some(k) => 0 <= k < subs.len() && subs[k].id == id,
            None => forall|j: int| 0 <= j < subs.len() ==> subs[j].id != id,
        },
    decreases subs.len(),
{
    if subs.len() > 0 && subs.last().id != id {
        let rest = subs.drop_last();
        lemma_position_bounds(rest, id);
        assert(subscriber_position(subs, id) == subscriber_position(rest, id));
        match subscriber_position(rest, id) {
            Some(k) => {
                assert(subs[k] == rest[k]);
            },
            None => {
                assert forall|j: int| 0 <= j < subs.len() implies subs[j].id != id by {
                    if j < subs.len() - 1 {
                        assert(subs[j] == rest[j]);
                    }
                }
            },
        }
    }
}

/// A publication is counted as delivered at most once per subscriber.
pub proof fn lemma_accepted_count_bound(subs: Seq<SubscriberView>, m: MessageView, capacity: nat)
    ensures
        accepted_count(subs, m, capacity) <= subs.len(),
    decreases subs.len(),
{
    if subs.len() > 0 {
        lemma_accepted_count_bound(subs.drop_last(), m, capacity);
    }
}

/// The stats after publishing a message that `count` subscribers took.
pub open spec fn stats_after_publish(s: EventBusStats, count: nat) -> EventBusStats {
    EventBusStats {
        messages_published: wrapping(s.messages_published, 1),
        messages_delivered: wrapping(s.messages_delivered, count as u64),
        messages_dropped: wrapping(s.messages_dropped, if count == 0 { 1 } else { 0 }),
        active_subscribers: s.active_subscribers,
    }
}

impl View for EventBus {
    type V = EventBusView;

    closed spec fn view(&self) -> EventBusView {
        EventBusView {
            subscribers: self.subscribers@.map_values(|s: Subscriber| s.view_of()),
            next_id: self.next_id,
            history: messages_view(self.history@),
            capacity: self.capacity as nat,
            stats: self.stats,
        }
    }
}

impl EventBus {
    /// Subscriber IDs are distinct and below the next ID to hand out.
    #[verifier::type_invariant]
    closed spec fn ids_fresh(&self) -> bool {
        &&& forall|i: int|
            0 <= i < self.subscribers@.len() ==> #[trigger] self.subscribers@[i].id < self.next_id
        &&& forall|i: int, j: int|
            0 <= i < j < self.subscribers@.len() ==> #[trigger] self.subscribers@[i].id
                != #[trigger] self.subscribers@[j].id
    }

    /// Create a new event bus whose subscriber queues hold up to
    /// `capacity` messages each.
    pub fn new(capacity: usize) -> (r: Self)
        ensures
            r@.subscribers.len() == 0,
            r@.next_id == 1,
            r@.history.len() == 0,
            r@.capacity == capacity,
            r@.stats == (EventBusStats {
                messages_published: 0,
                messages_delivered: 0,
                messages_dropped: 0,
                active_subscribers: 0,
            }),
    {
        let r = EventBus {
            subscribers: Vec::new(),
            next_id: 1,
            history: Vec::new(),
            capacity,
            stats: EventBusStats {
                messages_published: 0,
                messages_delivered: 0,
                messages_dropped: 0,
                active_subscribers: 0,
            },
        };
        assert(r@.subscribers =~= Seq::<SubscriberView>::empty());
        assert(r@.history =~= Seq::<MessageView>::empty());
        r
    }
}

/// The view of a message history after pushing a message and trimming it.
proof fn lemma_view_bounded_push(h: Seq<EventMessage>, m: EventMessage, limit: nat)
    ensures
        messages_view(bounded_push(h, m, limit)) == bounded_push(messages_view(h), m@, limit),
{
    let full = h.push(m);
    assert(messages_view(full) =~= messages_view(h).push(m@));
    if full.len() > limit {
        assert(messages_view(full.subrange(full.len() - limit, full.len() as int)) =~= messages_view(
            full,
        ).subrange(full.len() - limit, full.len() as int));
    }
}

/// The message `EventBus::broadcast` publishes.
pub open spec fn broadcast_view(id: u64, source: Seq<char>, topic: Seq<char>, payload: PayloadView) -> MessageView {
    MessageView {
        id,
        source,
        target: None,
        topic,
        payload,
        correlation_id: None,
        priority: MessagePriority::Normal,
    }
}

impl EventBus {
    /// Subscribe with an optional topic filter. The subscription gets the
    /// next subscriber ID and starts with no pending messages.
    pub fn subscribe_filtered(&mut self, plugin_id: &str, topic_filter: Option<&str>) -> (r: EventSubscription)
        requires
            old(self)@.next_id < u64::MAX,
        ensures
            r.id == old(self)@.next_id,
            forall|j: int|
                0 <= j < old(self)@.subscribers.len() ==> #[trigger] old(self)@.subscribers[j].id != r.id,
            r.plugin_id@ == plugin_id@,
            opt_view(r.topic_filter) == (match topic_filter {
                Some(f) => Some(f@),
                None => None::<Seq<char>>,
            }),
            final(self)@.subscribers == old(self)@.subscribers.push(
                SubscriberView {
                    id: r.id,
                    plugin_id: plugin_id@,
                    filter: opt_view(r.topic_filter),
                    pending: Seq::empty(),
                },
            ),
            final(self)@.next_id == old(self)@.next_id + 1,
            final(self)@.history == old(self)@.history,
            final(self)@.capacity == old(self)@.capacity,
            final(self)@.stats == (EventBusStats {
                active_subscribers: wrapping(old(self)@.stats.active_subscribers, 1),
                ..old(self)@.stats
            }),
    {
        proof {
            use_type_invariant(&*self);
        }
        let id = self.next_id;
        assert(forall|j: int|
            0 <= j < old(self)@.subscribers.len() ==> #[trigger] old(self)@.subscribers[j].id
                == self.subscribers@[j].id);
        let filter: Option<String> = match topic_filter {
            Some(f) => Some(owned(f)),
            None => None,
        };
        let filter_copy: Option<String> = match &filter {
            Some(f) => Some(f.clone()),
            None => None,
        };
        let sub = Subscriber { id, plugin_id: owned(plugin_id), topic_filter: filter, queue: Vec::new() };
        assert(sub.view_of().pending =~= Seq::<MessageView>::empty());
        let mut subs: Vec<Subscriber> = Vec::new();
        std::mem::swap(&mut subs, &mut self.subscribers);
        subs.push(sub);
        self.next_id = id + 1;
        self.subscribers = subs;
        let mut stats = self.stats;
        stats.record_subscribe();
        self.stats = stats;
        assert(self@.subscribers =~= old(self)@.subscribers.push(
            SubscriberView {
                id,
                plugin_id: plugin_id@,
                filter: opt_view(filter_copy),
                pending: Seq::empty(),
            },
        ));
        EventSubscription { id, plugin_id: owned(plugin_id), topic_filter: filter_copy }
    }
}

impl EventBus {
    /// Subscribe to all messages, with an empty plugin ID.
    pub fn subscribe(&mut self) -> (r: EventSubscription)
        requires
            old(self)@.next_id < u64::MAX,
        ensures
            r.id == old(self)@.next_id,
            r.plugin_id@ == Seq::<char>::empty(),
            r.topic_filter is None,
            final(self)@.subscribers == old(self)@.subscribers.push(
                SubscriberView { id: r.id, plugin_id: Seq::empty(), filter: None, pending: Seq::empty() },
            ),
            final(self)@.next_id == old(self)@.next_id + 1,
            final(self)@.history == old(self)@.history,
            final(self)@.capacity == old(self)@.capacity,
            final(self)@.stats == (EventBusStats {
                active_subscribers: wrapping(old(self)@.stats.active_subscribers, 1),
                ..old(self)@.stats
            }),
    {
        let empty = "";
        proof {
            reveal_strlit("");
        }
        assert(empty@ =~= Seq::<char>::empty());
        let r = self.subscribe_filtered(empty, None);
        assert(self@.subscribers =~= old(self)@.subscribers.push(
            SubscriberView { id: r.id, plugin_id: Seq::empty(), filter: None, pending: Seq::empty() },
        ));
        r
    }

    /// Subscribe a plugin to the topics that match `topic`.
    pub fn subscribe_to_topic(&mut self, plugin_id: &str, topic: &str) -> (r: EventSubscription)
        requires
            old(self)@.next_id < u64::MAX,
        ensures
            r.id == old(self)@.next_id,
            r.plugin_id@ == plugin_id@,
            opt_view(r.topic_filter) == Some(topic@),
            final(self)@.subscribers == old(self)@.subscribers.push(
                SubscriberView {
                    id: r.id,
                    plugin_id: plugin_id@,
                    filter: Some(topic@),
                    pending: Seq::empty(),
                },
            ),
            final(self)@.next_id == old(self)@.next_id + 1,
            final(self)@.history == old(self)@.history,
            final(self)@.capacity == old(self)@.capacity,
            final(self)@.stats == (EventBusStats {
                active_subscribers: wrapping(old(self)@.stats.active_subscribers, 1),
                ..old(self)@.stats
            }),
    {
        self.subscribe_filtered(plugin_id, Some(topic))
    }

    /// Position of a subscriber in the table.
    fn position_of(&self, id: u64) -> (r: Option<usize>)
        ensures
            match subscriber_position(self@.subscribers, id) {
                Some(k) => r matches Some(x) && x == k,
                None => r is None,
            },
    {
        let ghost subs = self@.subscribers;
        let mut found: Option<usize> = None;
        let mut i: usize = 0;
        while i < self.subscribers.len()
            invariant
                i <= self.subscribers@.len(),
                subs == self@.subscribers,
                match subscriber_position(subs.subrange(0, i as int), id) {
                    Some(k) => found matches Some(x) && x == k,
                    None => found is None,
                },
            decreases self.subscribers.len() - i,
        {
            assert(subs.subrange(0, i + 1).drop_last() =~= subs.subrange(0, i as int));
            assert(subs.subrange(0, i + 1).last() == subs[i as int]);
            if self.subscribers[i].id == id {
                found = Some(i);
            }
            i = i + 1;
        }
        assert(subs.subrange(0, subs.len() as int) =~= subs);
        found
    }

    /// Remove a subscription; pending messages of the subscriber are
    /// discarded. Nothing happens for an unknown ID.
    pub fn unsubscribe(&mut self, subscription_id: u64)
        ensures
            match subscriber_position(old(self)@.subscribers, subscription_id) {
                Some(k) => {
                    &&& final(self)@.subscribers == old(self)@.subscribers.remove(k)
                    &&& final(self)@.stats == (EventBusStats {
                        active_subscribers: if old(self)@.stats.active_subscribers == 0 {
                            u64::MAX
                        } else {
                            (old(self)@.stats.active_subscribers - 1) as u64
                        },
                        ..old(self)@.stats
                    })
                },
                None => final(self)@ == old(self)@,
            },
            final(self)@.next_id == old(self)@.next_id,
            final(self)@.history == old(self)@.history,
            final(self)@.capacity == old(self)@.capacity,
    {
        proof {
            use_type_invariant(&*self);
        }
        match self.position_of(subscription_id) {
            Some(k) => {
                proof {
                    lemma_position_bounds(self@.subscribers, subscription_id);
                }
                assert(subscriber_position(old(self)@.subscribers, subscription_id) == Some(k as int));
                let mut subs: Vec<Subscriber> = Vec::new();
                std::mem::swap(&mut subs, &mut self.subscribers);
                let ghost before = subs@;
                let _gone = subs.remove(k);
                assert(subs@ =~= before.remove(k as int));
                assert(subs@.map_values(|s: Subscriber| s.view_of()) =~= before.map_values(
                    |s: Subscriber| s.view_of(),
                ).remove(k as int));
                assert forall|i: int, j: int| 0 <= i < j < subs@.len() implies #[trigger] subs@[i].id
                    != #[trigger] subs@[j].id by {
                    let bi = if i < k { i } else { i + 1 };
                    let bj = if j < k { j } else { j + 1 };
                    assert(subs@[i] == before[bi]);
                    assert(subs@[j] == before[bj]);
                }
                assert forall|i: int| 0 <= i < subs@.len() implies #[trigger] subs@[i].id < self.next_id by {
                    let bi = if i < k { i } else { i + 1 };
                    assert(subs@[i] == before[bi]);
                }
                self.subscribers = subs;
                let mut stats = self.stats;
                stats.record_unsubscribe();
                self.stats = stats;
                assert(self@.subscribers =~= old(self)@.subscribers.remove(k as int));
            },
            None => {},
        }
    }

    /// The ID the next subscription gets.
    pub fn next_subscriber_id(&self) -> (r: u64)
        ensures
            r == self@.next_id,
    {
        self.next_id
    }

    /// Number of subscribers.
    pub fn subscriber_count(&self) -> (r: usize)
        ensures
            r == self@.subscribers.len(),
    {
        self.subscribers.len()
    }

    /// Remove all subscribers.
    pub fn clear(&mut self)
        ensures
            final(self)@.subscribers.len() == 0,
            final(self)@.stats == (EventBusStats { active_subscribers: 0, ..old(self)@.stats }),
            final(self)@.next_id == old(self)@.next_id,
            final(self)@.history == old(self)@.history,
            final(self)@.capacity == old(self)@.capacity,
    {
        self.subscribers = Vec::new();
        let mut stats = self.stats;
        stats.record_clear();
        self.stats = stats;
    }

    /// The statistics.
    pub fn stats(&self) -> (r: EventBusStats)
        ensures
            r == self@.stats,
    {
        self.stats
    }

    /// The message history, oldest first.
    pub fn history(&self) -> (r: Vec<EventMessage>)
        ensures
            messages_view(r@) == self@.history,
    {
        let mut out: Vec<EventMessage> = Vec::new();
        let mut i: usize = 0;
        while i < self.history.len()
            invariant
                i <= self.history@.len(),
                messages_view(out@) == messages_view(self.history@.subrange(0, i as int)),
            decreases self.history.len() - i,
        {
            let ghost prev = out@;
            let m = copy_message(&self.history[i]);
            out.push(m);
            assert(messages_view(out@) =~= messages_view(prev).push(self.history@[i as int]@));
            i = i + 1;
            assert(messages_view(self.history@.subrange(0, i as int)) =~= messages_view(
                self.history@.subrange(0, i - 1),
            ).push(self.history@[i - 1]@));
        }
        assert(self.history@.subrange(0, self.history@.len() as int) =~= self.history@);
        out
    }
}

impl EventBus {
    /// Publish a message: every subscriber that the message is routed to
    /// (see `delivers`) and whose queue holds fewer than `capacity`
    /// messages gets a copy; the statistics count the message and the
    /// copies handed out (a message that nobody took counts as dropped);
    /// the history keeps the last `HISTORY_LIMIT` messages.
    pub fn publish(&mut self, message: EventMessage) -> (r: Result<(), PluginError>)
        ensures
            r is Ok,
            final(self)@.subscribers == old(self)@.subscribers.map_values(
                |s: SubscriberView| offer(s, message@, old(self)@.capacity),
            ),
            final(self)@.stats == stats_after_publish(
                old(self)@.stats,
                accepted_count(old(self)@.subscribers, message@, old(self)@.capacity),
            ),
            final(self)@.history == bounded_push(old(self)@.history, message@, HISTORY_LIMIT as nat),
            final(self)@.next_id == old(self)@.next_id,
            final(self)@.capacity == old(self)@.capacity,
    {
        proof {
            use_type_invariant(&*self);
        }
        let ghost old_view = self@.subscribers;
        let ghost m = message@;
        let cap = self.capacity;
        let mut subs: Vec<Subscriber> = Vec::new();
        std::mem::swap(&mut subs, &mut self.subscribers);
        let ghost ids = subs@.map_values(|s: Subscriber| s.id);
        let n = subs.len();
        let mut delivered: u64 = 0;
        let mut i: usize = 0;
        while i < subs.len()
            invariant
                i <= subs@.len(),
                subs@.len() == old_view.len(),
                n == subs@.len(),
                m == message@,
                forall|j: int| 0 <= j < i ==> #[trigger] subs@[j].view_of() == offer(old_view[j], m, cap as nat),
                forall|j: int| i <= j < subs@.len() ==> #[trigger] subs@[j].view_of() == old_view[j],
                forall|j: int| 0 <= j < subs@.len() ==> #[trigger] subs@[j].id == ids[j],
                ids.len() == subs@.len(),
                delivered == accepted_count(old_view.subrange(0, i as int), m, cap as nat),
                delivered <= i,
            decreases subs.len() - i,
        {
            let ghost before = subs@[i as int].view_of();
            assert(old_view.subrange(0, i + 1).drop_last() =~= old_view.subrange(0, i as int));
            let ok = {
                let f: Option<&str> = match &subs[i].topic_filter {
                    Some(t) => Some(t.as_str()),
                    None => None,
                };
                should_deliver(&message, subs[i].plugin_id.as_str(), f) && subs[i].queue.len() < cap
            };
            if ok {
                let c = copy_message(&message);
                let ghost q = subs@[i as int].queue@;
                subs[i].queue.push(c);
                assert(messages_view(subs@[i as int].queue@) =~= messages_view(q).push(m));
                delivered = delivered + 1;
            }
            assert(subs@[i as int].view_of() == offer(old_view[i as int], m, cap as nat));
            i = i + 1;
        }
        assert(old_view.subrange(0, old_view.len() as int) =~= old_view);
        proof {
            assert forall|a: int, b: int| 0 <= a < b < subs@.len() implies #[trigger] subs@[a].id
                != #[trigger] subs@[b].id by {
                assert(old_view[a].id == subs@[a].id);
            }
        }
        self.subscribers = subs;
        let mut stats = self.stats;
        stats.record_publish(delivered);
        self.stats = stats;
        let mut history: Vec<EventMessage> = Vec::new();
        std::mem::swap(&mut history, &mut self.history);
        let ghost old_history = history@;
        push_history(&mut history, message, HISTORY_LIMIT);
        self.history = history;
        proof {
            lemma_view_bounded_push(old_history, message, HISTORY_LIMIT as nat);
        }
        assert(self@.subscribers =~= old_view.map_values(|s: SubscriberView| offer(s, m, cap as nat)));
        Ok(())
    }
}

impl EventBus {
    /// Take the oldest pending message of a subscription, if there is one.
    /// A subscription that was removed from the bus receives nothing.
    pub fn try_recv(&mut self, subscription: &EventSubscription) -> (r: Option<EventMessage>)
        ensures
            match subscriber_position(old(self)@.subscribers, subscription.id) {
                Some(k) => if old(self)@.subscribers[k].pending.len() > 0 {
                    &&& r matches Some(m) && m@ == old(self)@.subscribers[k].pending[0]
                    &&& final(self)@.subscribers == old(self)@.subscribers.update(
                        k,
                        SubscriberView {
                            pending: old(self)@.subscribers[k].pending.drop_first(),
                            ..old(self)@.subscribers[k]
                        },
                    )
                } else {
                    r is None && final(self)@.subscribers == old(self)@.subscribers
                },
                None => r is None && final(self)@.subscribers == old(self)@.subscribers,
            },
            final(self)@.next_id == old(self)@.next_id,
            final(self)@.history == old(self)@.history,
            final(self)@.capacity == old(self)@.capacity,
            final(self)@.stats == old(self)@.stats,
    {
        proof {
            use_type_invariant(&*self);
        }
        match self.position_of(subscription.id) {
            Some(k) => {
                proof {
                    lemma_position_bounds(self@.subscribers, subscription.id);
                }
                if self.subscribers[k].queue.len() == 0 {
                    return None;
                }
                let mut subs: Vec<Subscriber> = Vec::new();
                std::mem::swap(&mut subs, &mut self.subscribers);
                let ghost before = subs@;
                let ghost q = subs@[k as int].queue@;
                let m = subs[k].queue.remove(0);
                assert(messages_view(subs@[k as int].queue@) =~= messages_view(q).drop_first());
                assert forall|j: int| 0 <= j < subs@.len() && j != k implies #[trigger] subs@[j] == before[j] by {}
                self.subscribers = subs;
                assert(self@.subscribers =~= old(self)@.subscribers.update(
                    k as int,
                    SubscriberView {
                        pending: old(self)@.subscribers[k as int].pending.drop_first(),
                        ..old(self)@.subscribers[k as int]
                    },
                ));
                Some(m)
            },
            None => None,
        }
    }

    /// Take all pending messages of a subscription, oldest first.
    pub fn drain(&mut self, subscription: &EventSubscription) -> (r: Vec<EventMessage>)
        ensures
            match subscriber_position(old(self)@.subscribers, subscription.id) {
                Some(k) => {
                    &&& messages_view(r@) == old(self)@.subscribers[k].pending
                    &&& final(self)@.subscribers == old(self)@.subscribers.update(
                        k,
                        SubscriberView { pending: Seq::empty(), ..old(self)@.subscribers[k] },
                    )
                },
                None => r@.len() == 0 && final(self)@.subscribers == old(self)@.subscribers,
            },
            final(self)@.next_id == old(self)@.next_id,
            final(self)@.history == old(self)@.history,
            final(self)@.capacity == old(self)@.capacity,
            final(self)@.stats == old(self)@.stats,
    {
        proof {
            use_type_invariant(&*self);
        }
        match self.position_of(subscription.id) {
            Some(k) => {
                proof {
                    lemma_position_bounds(self@.subscribers, subscription.id);
                }
                let mut subs: Vec<Subscriber> = Vec::new();
                std::mem::swap(&mut subs, &mut self.subscribers);
                let ghost before = subs@;
                let mut taken: Vec<EventMessage> = Vec::new();
                std::mem::swap(&mut taken, &mut subs[k].queue);
                assert(messages_view(subs@[k as int].queue@) =~= Seq::<MessageView>::empty());
                assert forall|j: int| 0 <= j < subs@.len() && j != k implies #[trigger] subs@[j] == before[j] by {}
                self.subscribers = subs;
                assert(self@.subscribers =~= old(self)@.subscribers.update(
                    k as int,
                    SubscriberView { pending: Seq::empty(), ..old(self)@.subscribers[k as int] },
                ));
                taken
            },
            None => Vec::new(),
        }
    }

    /// Broadcast a message with the given ID to all subscribers.
    pub fn broadcast(&mut self, id: u64, source: &str, topic: &str, payload: MessagePayload) -> (r: Result<(), PluginError>)
        ensures
            r is Ok,
            final(self)@.subscribers == old(self)@.subscribers.map_values(
                |s: SubscriberView| offer(s, broadcast_view(id, source@, topic@, payload@), old(self)@.capacity),
            ),
            final(self)@.stats == stats_after_publish(
                old(self)@.stats,
                accepted_count(old(self)@.subscribers, broadcast_view(id, source@, topic@, payload@), old(self)@.capacity),
            ),
            final(self)@.history == bounded_push(
                old(self)@.history,
                broadcast_view(id, source@, topic@, payload@),
                HISTORY_LIMIT as nat,
            ),
            final(self)@.next_id == old(self)@.next_id,
            final(self)@.capacity == old(self)@.capacity,
    {
        let ghost pv = payload@;
        let message = EventMessage::broadcast(id, source, topic, payload);
        assert(message@ == broadcast_view(id, source@, topic@, pv));
        self.publish(message)
    }

    /// Send a message with the given ID to one plugin.
    pub fn send_direct(
        &mut self,
        id: u64,
        source: &str,
        target: &str,
        topic: &str,
        payload: MessagePayload,
    ) -> (r: Result<(), PluginError>)
        ensures
            r is Ok,
            final(self)@.subscribers == old(self)@.subscribers.map_values(
                |s: SubscriberView|
                    offer(
                        s,
                        MessageView { target: Some(target@), ..broadcast_view(id, source@, topic@, payload@) },
                        old(self)@.capacity,
                    ),
            ),
            final(self)@.stats == stats_after_publish(
                old(self)@.stats,
                accepted_count(
                    old(self)@.subscribers,
                    MessageView { target: Some(target@), ..broadcast_view(id, source@, topic@, payload@) },
                    old(self)@.capacity,
                ),
            ),
            final(self)@.history == bounded_push(
                old(self)@.history,
                MessageView { target: Some(target@), ..broadcast_view(id, source@, topic@, payload@) },
                HISTORY_LIMIT as nat,
            ),
            final(self)@.next_id == old(self)@.next_id,
            final(self)@.capacity == old(self)@.capacity,
    {
        let ghost pv = payload@;
        let message = EventMessage::direct(id, source, target, topic, payload);
        assert(message@ == MessageView { target: Some(target@), ..broadcast_view(id, source@, topic@, pv) });
        self.publish(message)
    }
}

impl Default for EventBus {
    fn default() -> (r: Self)
        ensures
            r@.subscribers.len() == 0,
            r@.next_id == 1,
            r@.history.len() == 0,
            r@.capacity == DEFAULT_CAPACITY,
            r@.stats == (EventBusStats {
                messages_published: 0,
                messages_delivered: 0,
                messages_dropped: 0,
                active_subscribers: 0,
            }),
    {
        Self::new(DEFAULT_CAPACITY)
    }
}

/// A subscriber never receives a message that it sent itself.
pub proof fn lemma_no_self_delivery(s: SubscriberView, m: MessageView, capacity: nat)
    requires
        s.plugin_id == m.source,
    ensures
        offer(s, m, capacity) == s,
{
}

/// A message addressed to one plugin reaches no subscriber of another.
pub proof fn lemma_direct_only_to_target(s: SubscriberView, m: MessageView, capacity: nat)
    requires
        m.target is Some,
        m.target != Some(s.plugin_id),
    ensures
        offer(s, m, capacity) == s,
{
}

/// A subscriber with a topic filter receives only messages whose topic
/// matches it.
pub proof fn lemma_filter_respected(s: SubscriberView, m: MessageView, capacity: nat)
    requires
        s.filter matches Some(f) && !topic_match(m.topic, f),
    ensures
        offer(s, m, capacity) == s,
{
}

/// A broadcast from another plugin reaches every subscriber without a
/// filter whose queue has room, at the end of its queue.
pub proof fn lemma_broadcast_reaches_unfiltered(s: SubscriberView, m: MessageView, capacity: nat)
    requires
        m.target is None,
        m.source != s.plugin_id,
        s.filter is None,
        s.pending.len() < capacity,
    ensures
        offer(s, m, capacity).pending == s.pending.push(m),
        offer(s, m, capacity).id == s.id,
{
}

/// Queues never grow beyond the capacity.
pub proof fn lemma_queue_bounded(s: SubscriberView, m: MessageView, capacity: nat)
    requires
        s.pending.len() <= capacity,
    ensures
        offer(s, m, capacity).pending.len() <= capacity,
{
}

} // verus!
