//! Multiplexing engine: lifecycle state, inbound queue, muxer registry,
//! cache fallback, and fan-out to every registered muxer.
//!
//! The engine owns its muxers outright and a muxer is addressed through the
//! index returned at registration, so no back-reference from a muxer to its
//! engine exists and no retain cycle can form. A muxer's own `publish`
//! appends to the muxer's private queue only: the feedback path into the
//! engine's central queue is deliberately disabled, so a muxer-originated
//! event never re-enters the fan-out.

use vstd::prelude::*;

verus! {

/// An opaque, shareable handle to one monitoring event. The core never
/// inspects the event's contents; the identifier stands for the shared
/// handle and is only copied and enqueued.
#[derive(Clone, Copy, PartialEq, Eq, Structural, Debug)]
pub struct Event {
    pub id: u64,
}

/// The engine's lifecycle state. Transitions are host-controlled:
/// `NotStarted` to `Running` to `Stopped`, and back to `Running` through
/// an explicit resume that replays the cache.
#[derive(Clone, Copy, PartialEq, Eq, Structural, Debug)]
pub enum State {
    NotStarted,
    Running,
    Stopped,
}

/// The cache-fallback collaborator, seen through its `add` contract alone:
/// while the engine is stopped, every published event is handed to it, and
/// it loses none. The recorded sequence is this model's view of the
/// collaborator; the persistent file format itself is out of scope.
pub struct CacheFile {
    pub name: String,
    pub events: Vec<Event>,
}

impl View for CacheFile {
    type V = Seq<Event>;

    /// The cache's view: the events accepted so far, oldest first.
    open spec fn view(&self) -> Seq<Event> {
        self.events@
    }
}

impl CacheFile {
    /// An empty cache under the given name.
    pub fn new(name: &str) -> (r: CacheFile)
        ensures
            r@ == Seq::<Event>::empty(),
            r.name@ == name@,
    {
        CacheFile { name: name.to_owned(), events: Vec::new() }
    }

    /// Accepts one event for persistence; nothing already accepted is lost.
    pub fn add(&mut self, d: &Event)
        ensures
            final(self)@ == old(self)@.push(*d),
            final(self).name@ == old(self).name@,
    {
        self.events.push(*d);
    }

    /// How many events the cache holds.
    pub fn len(&self) -> (r: usize)
        ensures
            r == self@.len(),
    {
        self.events.len()
    }

    /// The accepted events, oldest first.
    pub fn events(&self) -> (r: &Vec<Event>)
        ensures
            r@ == self@,
    {
        &self.events
    }

    /// Hands every accepted event back for replay and leaves the cache
    /// empty.
    pub fn drain(&mut self) -> (r: Vec<Event>)
        ensures
            r@ == old(self)@,
            final(self)@ == Seq::<Event>::empty(),
            final(self).name@ == old(self).name@,
    {
        let mut drained: Vec<Event> = Vec::new();
        core::mem::swap(&mut self.events, &mut drained);
        drained
    }
}

/// One named subscriber: a private, ordered delivery queue.
pub struct Muxer {
    pub name: String,
    pub queue: Vec<Event>,
}

impl Muxer {
    /// Appends one event to this muxer's private queue.
    pub fn write(&mut self, d: &Event)
        ensures
            final(self).queue@ == old(self).queue@.push(*d),
            final(self).name@ == old(self).name@,
    {
        self.queue.push(*d);
    }

    /// Appends one event to this muxer's private queue. The feedback path
    /// into the engine is disabled: a muxer-originated publish stays local.
    pub fn publish(&mut self, d: &Event)
        ensures
            final(self).queue@ == old(self).queue@.push(*d),
            final(self).name@ == old(self).name@,
    {
        self.queue.push(*d);
    }

    /// Appends a whole delivery snapshot to this muxer's queue, preserving
    /// the snapshot order.
    pub fn publish_vd(&mut self, d: &Vec<Event>)
        ensures
            final(self).queue@ == old(self).queue@ + d@,
            final(self).name@ == old(self).name@,
    {
        let mut i: usize = 0;
        while i < d.len()
            invariant
                i <= d@.len(),
                self.queue@ == old(self).queue@ + d@.take(i as int),
                self.name@ == old(self).name@,
            decreases d@.len() - i,
        {
            self.queue.push(d[i]);
            proof {
                assert(d@.take(i + 1) =~= d@.take(i as int).push(d@[i as int]));
                assert(self.queue@ =~= old(self).queue@ + d@.take(i + 1));
            }
            i = i + 1;
        }
        proof {
            assert(d@.take(d@.len() as int) =~= d@);
        }
    }
}

/// The central queue together with the muxer registry, grouped as the
/// two-level locking discipline of the host layer guards them.
pub struct EventQueue {
    pub muxers: Vec<Muxer>,
    pub queue: Vec<Event>,
}

/// The name a registration falls back to when the provided subscriber name
/// cannot be interpreted as valid text.
pub open spec fn fallback_muxer_name() -> Seq<char> {
    "BrokerBadMuxerName"@
}

/// The name under which a muxer is registered: the provided name, or the
/// fixed fallback when none could be interpreted.
pub open spec fn registered_muxer_name(name: Option<&str>) -> Seq<char> {
    match name {
        Some(s) => s@,
        None => fallback_muxer_name(),
    }
}

/// The multiplexing engine: lifecycle state, cache fallback, inbound queue
/// with the muxer registry, and the count of events diverted to the cache.
pub struct Engine {
    pub state: State,
    pub cache_file: CacheFile,
    pub event_queue: EventQueue,
    pub unprocessed_events: usize,
}

impl Engine {
    /// The engine's invariant: events are diverted to the cache only in
    /// lock-step with the unprocessed-event counter.
    pub open spec fn wf(self) -> bool {
        self.unprocessed_events == self.cache_file@.len()
    }

    /// The muxer registry is untouched: same muxers, same queues.
    pub open spec fn muxers_unchanged(pre: Engine, post: Engine) -> bool {
        post.event_queue.muxers@ == pre.event_queue.muxers@
    }

    /// Every muxer kept its name and received exactly `delivered`, appended
    /// in order behind its previous queue.
    pub open spec fn muxers_received(pre: Engine, post: Engine, delivered: Seq<Event>) -> bool {
        &&& post.event_queue.muxers@.len() == pre.event_queue.muxers@.len()
        &&& forall|i: int|
            0 <= i < pre.event_queue.muxers@.len() ==> {
                &&& (#[trigger] post.event_queue.muxers@[i]).name@
                    == pre.event_queue.muxers@[i].name@
                &&& post.event_queue.muxers@[i].queue@ == pre.event_queue.muxers@[i].queue@
                    + delivered
            }
    }

    /// Host-controlled transition out of `NotStarted`: live fan-out begins.
    pub fn start(&mut self)
        requires
            old(self).state == State::NotStarted,
        ensures
            final(self).state == State::Running,
            final(self).cache_file == old(self).cache_file,
            final(self).event_queue.queue@ == old(self).event_queue.queue@,
            Engine::muxers_unchanged(*old(self), *final(self)),
            final(self).unprocessed_events == old(self).unprocessed_events,
    {
        self.state = State::Running;
    }

    /// Host-controlled transition out of `Running`: from here on, published
    /// events are diverted to the cache fallback instead of being queued.
    pub fn stop(&mut self)
        requires
            old(self).state == State::Running,
        ensures
            final(self).state == State::Stopped,
            final(self).cache_file == old(self).cache_file,
            final(self).event_queue.queue@ == old(self).event_queue.queue@,
            Engine::muxers_unchanged(*old(self), *final(self)),
            final(self).unprocessed_events == old(self).unprocessed_events,
    {
        self.state = State::Stopped;
    }

    /// Host-controlled re-entry from `Stopped` to `Running`: every cached
    /// event is replayed into the inbound queue, in cache order, before
    /// live fan-out resumes, so stopping the engine loses no event.
    pub fn resume(&mut self)
        requires
            old(self).state == State::Stopped,
        ensures
            final(self).state == State::Running,
            final(self).event_queue.queue@ == old(self).event_queue.queue@ + old(self).cache_file@,
            final(self).cache_file@ == Seq::<Event>::empty(),
            final(self).cache_file.name@ == old(self).cache_file.name@,
            Engine::muxers_unchanged(*old(self), *final(self)),
            final(self).unprocessed_events == 0,
            final(self).wf(),
    {
        let replayed = self.cache_file.drain();
        self.publish_v(&replayed);
        self.unprocessed_events = 0;
        self.state = State::Running;
    }

    /// Publishes one event.
    ///
    /// While the engine has not started, the event is buffered in the
    /// inbound queue. While it runs, the event is buffered and a fan-out
    /// round follows at once: every muxer receives the whole queue
    /// snapshot, the new event included exactly once, and the central
    /// queue keeps its contents (the muxers get copies). While it is
    /// stopped, the event goes to the cache-fallback collaborator with
    /// exactly one `add` call and the unprocessed-event counter grows by
    /// exactly one; no queue changes.
    pub fn publish(&mut self, d: &Event)
        requires
            old(self).wf(),
        ensures
            final(self).wf(),
            final(self).state == old(self).state,
            final(self).cache_file.name@ == old(self).cache_file.name@,
            match old(self).state {
                State::NotStarted => {
                    &&& final(self).event_queue.queue@ == old(self).event_queue.queue@.push(*d)
                    &&& Engine::muxers_unchanged(*old(self), *final(self))
                    &&& final(self).cache_file@ == old(self).cache_file@
                    &&& final(self).unprocessed_events == old(self).unprocessed_events
                },
                State::Running => {
                    &&& final(self).event_queue.queue@ == old(self).event_queue.queue@.push(*d)
                    &&& Engine::muxers_received(
                        *old(self),
                        *final(self),
                        old(self).event_queue.queue@.push(*d),
                    )
                    &&& final(self).cache_file@ == old(self).cache_file@
                    &&& final(self).unprocessed_events == old(self).unprocessed_events
                },
                State::Stopped => {
                    &&& final(self).event_queue.queue@ == old(self).event_queue.queue@
                    &&& Engine::muxers_unchanged(*old(self), *final(self))
                    &&& final(self).cache_file@ == old(self).cache_file@.push(*d)
                    &&& final(self).unprocessed_events == old(self).unprocessed_events + 1
                },
            },
    {
        let trigger_fan_out: bool = match self.state {
            State::Stopped => {
                self.cache_file.add(d);
                self.unprocessed_events = self.cache_file.len();
                false
            },
            State::Running => {
                self.event_queue.queue.push(*d);
                true
            },
            State::NotStarted => {
                self.event_queue.queue.push(*d);
                false
            },
        };
        if trigger_fan_out {
            self.send_to_subscribers();
        }
    }

    /// Appends an ordered batch of events to the inbound queue, with no
    /// side effect beyond the enqueue: no fan-out, whatever the state.
    pub fn publish_v(&mut self, v: &Vec<Event>)
        ensures
            final(self).event_queue.queue@ == old(self).event_queue.queue@ + v@,
            final(self).state == old(self).state,
            final(self).cache_file == old(self).cache_file,
            Engine::muxers_unchanged(*old(self), *final(self)),
            final(self).unprocessed_events == old(self).unprocessed_events,
    {
        let mut i: usize = 0;
        while i < v.len()
            invariant
                i <= v@.len(),
                self.event_queue.queue@ == old(self).event_queue.queue@ + v@.take(i as int),
                self.state == old(self).state,
                self.cache_file == old(self).cache_file,
                self.event_queue.muxers@ == old(self).event_queue.muxers@,
                self.unprocessed_events == old(self).unprocessed_events,
            decreases v@.len() - i,
        {
            self.event_queue.queue.push(v[i]);
            proof {
                assert(v@.take(i + 1) =~= v@.take(i as int).push(v@[i as int]));
                assert(self.event_queue.queue@ =~= old(self).event_queue.queue@ + v@.take(i + 1));
            }
            i = i + 1;
        }
        proof {
            assert(v@.take(v@.len() as int) =~= v@);
        }
    }

    /// Delivers a snapshot to the muxer registered under `idx`, leaving
    /// every other part of the engine untouched.
    pub fn deliver_to_muxer(&mut self, idx: usize, events: &Vec<Event>)
        requires
            idx < old(self).event_queue.muxers@.len(),
        ensures
            final(self).event_queue.muxers@.len() == old(self).event_queue.muxers@.len(),
            final(self).event_queue.muxers@[idx as int].name@ == old(self).event_queue.muxers@[idx as int].name@,
            final(self).event_queue.muxers@[idx as int].queue@ == old(self).event_queue.muxers@[idx as int].queue@ + events@,
            forall|j: int|
                0 <= j < old(self).event_queue.muxers@.len() && j != idx ==> final(self).event_queue.muxers@[j] == old(self).event_queue.muxers@[j],
            final(self).event_queue.queue@ == old(self).event_queue.queue@,
            final(self).state == old(self).state,
            final(self).cache_file == old(self).cache_file,
            final(self).unprocessed_events == old(self).unprocessed_events,
    {
        let m = &mut self.event_queue.muxers[idx];
        m.publish_vd(events);
    }

    /// One fan-out round: takes a snapshot of the inbound queue's current
    /// contents and delivers it to every registered muxer, preserving
    /// per-muxer delivery order equal to snapshot order. The central queue
    /// is unaffected by the muxers' copies.
    pub fn send_to_subscribers(&mut self)
        ensures
            Engine::muxers_received(*old(self), *final(self), old(self).event_queue.queue@),
            final(self).event_queue.queue@ == old(self).event_queue.queue@,
            final(self).state == old(self).state,
            final(self).cache_file == old(self).cache_file,
            final(self).unprocessed_events == old(self).unprocessed_events,
    {
        let snapshot = clone_events(&self.event_queue.queue);
        let n = self.event_queue.muxers.len();
        let mut i: usize = 0;
        while i < n
            invariant
                i <= n,
                n == self.event_queue.muxers@.len(),
                n == old(self).event_queue.muxers@.len(),
                snapshot@ == old(self).event_queue.queue@,
                forall|j: int|
                    0 <= j < i ==> {
                        &&& (#[trigger] self.event_queue.muxers@[j]).name@ == old(self).event_queue.muxers@[j].name@
                        &&& self.event_queue.muxers@[j].queue@ == old(self).event_queue.muxers@[j].queue@ + snapshot@
                    },
                forall|j: int|
                    i <= j < n ==> #[trigger] self.event_queue.muxers@[j] == old(self).event_queue.muxers@[j],
                self.event_queue.queue@ == old(self).event_queue.queue@,
                self.state == old(self).state,
                self.cache_file == old(self).cache_file,
                self.unprocessed_events == old(self).unprocessed_events,
            decreases n - i,
        {
            self.deliver_to_muxer(i, &snapshot);
            i = i + 1;
        }
    }

    /// Registers a new subscriber and returns the index that addresses it:
    /// the explicit handle through which the host reaches the muxer. The
    /// new muxer enters the registry fully constructed, with its name set
    /// and an empty queue, and no existing muxer is disturbed. A name that
    /// could not be interpreted as valid text arrives as `None` and falls
    /// back to a fixed default rather than failing the registration.
    pub fn add_muxer(&mut self, name: Option<&str>) -> (idx: usize)
        ensures
            idx == old(self).event_queue.muxers@.len(),
            final(self).event_queue.muxers@.len() == old(self).event_queue.muxers@.len() + 1,
            forall|j: int|
                0 <= j < old(self).event_queue.muxers@.len() ==> final(self).event_queue.muxers@[j] == old(self).event_queue.muxers@[j],
            final(self).event_queue.muxers@[idx as int].name@ == registered_muxer_name(name),
            final(self).event_queue.muxers@[idx as int].queue@ == Seq::<Event>::empty(),
            final(self).event_queue.queue@ == old(self).event_queue.queue@,
            final(self).state == old(self).state,
            final(self).cache_file == old(self).cache_file,
            final(self).unprocessed_events == old(self).unprocessed_events,
    {
        let name_rs: String = match name {
            Some(s) => s.to_owned(),
            None => "BrokerBadMuxerName".to_owned(),
        };
        let idx = self.event_queue.muxers.len();
        let new_muxer = Muxer { name: name_rs, queue: Vec::new() };
        self.event_queue.muxers.push(new_muxer);
        idx
    }
}

fn clone_events(v: &Vec<Event>) -> (r: Vec<Event>)
    ensures
        r@ == v@,
{
    let mut r: Vec<Event> = Vec::new();
    let mut i: usize = 0;
    while i < v.len()
        invariant
            i <= v@.len(),
            r@ == v@.take(i as int),
        decreases v@.len() - i,
    {
        r.push(v[i]);
        proof {
            assert(v@.take(i + 1) =~= v@.take(i as int).push(v@[i as int]));
        }
        i = i + 1;
    }
    proof {
        assert(v@.take(v@.len() as int) =~= v@);
    }
    r
}

/// A fresh engine: not started, with an empty inbound queue, no muxers, an
/// empty cache and a zero unprocessed-event counter.
pub fn new_engine() -> (r: Engine)
    ensures
        r.state == State::NotStarted,
        r.event_queue.queue@ == Seq::<Event>::empty(),
        r.event_queue.muxers@ == Seq::<Muxer>::empty(),
        r.cache_file@ == Seq::<Event>::empty(),
        r.cache_file.name@ == "Cache-tst"@,
        r.unprocessed_events == 0,
        r.wf(),
{
    Engine {
        state: State::NotStarted,
        cache_file: CacheFile::new("Cache-tst"),
        unprocessed_events: 0,
        event_queue: EventQueue { muxers: Vec::new(), queue: Vec::new() },
    }
}

} // verus!
