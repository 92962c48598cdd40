//! The registry of active receivers.
//!
//! The registry maps a source's name to the handle through which its
//! shared record is reached. It is a plain sequential structure: whoever
//! shares it among threads guards it with one lock, and every operation
//! here is one critical section of that lock.
//!
//! Creating a receiver needs the native runtime and a thread, which the
//! registry cannot provide. So `get_or_create` only decides: it hands out
//! the existing handle, or the plan by which the caller creates one and
//! then registers it, all under the same lock.

use vstd::prelude::*;
use vstd::string::StringExecFns;

use crate::receiver::CHANNEL_CAPACITY;
use crate::types::{RecvBandwidth, RecvColorFormat, Source};

verus! {

/// How the receiver and worker of a source are to be set up.
pub struct ReceiverPlan {
    /// Bandwidth to ask of the source.
    pub bandwidth: RecvBandwidth,
    /// Pixel layouts to ask of the source.
    pub color_format: RecvColorFormat,
    /// Capacity of the broadcast channel, in frames.
    pub channel_capacity: usize,
    /// Name of the worker's thread.
    pub thread_name: String,
    /// JPEG quality the worker encodes with.
    pub jpeg_quality: i32,
    /// Frame-rate cap the worker enforces; zero is no cap.
    pub max_fps: u32,
}

/// What `get_or_create` found.
pub enum Lookup<'a, H> {
    /// The source has a receiver: share it.
    Existing(&'a H),
    /// The source has none: create one by this plan and register it.
    Create(ReceiverPlan),
}

/// One registered receiver.
struct Entry<H> {
    name: String,
    handle: H,
}

/// Registry of the active receivers, keyed by source name, together with
/// the settings every worker is started with.
pub struct ReceiverManager<H> {
    receivers: Vec<Entry<H>>,
    jpeg_quality: i32,
    max_fps: u32,
}

/// The name of the worker thread of the source called `name`.
pub open spec fn thread_name_of(name: Seq<char>) -> Seq<char> {
    "ndi-recv-"@ + name
}

impl<H> ReceiverManager<H> {
    spec fn name_at(&self, i: int) -> Seq<char> {
        self.receivers@[i].name@
    }

    spec fn has(&self, name: Seq<char>) -> bool {
        exists|i: int| 0 <= i < self.receivers@.len() && self.name_at(i) == name
    }

    spec fn slot(&self, name: Seq<char>) -> int {
        choose|i: int| 0 <= i < self.receivers@.len() && self.name_at(i) == name
    }

    /// No name is registered twice.
    pub closed spec fn wf(&self) -> bool {
        forall|i: int, j: int|
            0 <= i < j < self.receivers@.len() ==> self.name_at(i) != self.name_at(j)
    }

    /// The registered handles by source name.
    pub closed spec fn view(&self) -> Map<Seq<char>, H> {
        Map::new(|name: Seq<char>| self.has(name), |name: Seq<char>| self.receivers@[self.slot(name)].handle)
    }

    /// Number of registered receivers.
    pub closed spec fn count(&self) -> nat {
        self.receivers@.len()
    }

    /// JPEG quality the workers encode with.
    pub closed spec fn quality(&self) -> i32 {
        self.jpeg_quality
    }

    /// Frame-rate cap of the workers.
    pub closed spec fn fps_cap(&self) -> u32 {
        self.max_fps
    }

    /// The plan by which the receiver of the source called `name` is set up:
    /// highest bandwidth, fastest colour format, a channel of
    /// [`CHANNEL_CAPACITY`] frames, and this registry's settings.
    pub open spec fn plan_matches(&self, plan: ReceiverPlan, name: Seq<char>) -> bool {
        &&& plan.bandwidth == RecvBandwidth::Highest
        &&& plan.color_format == RecvColorFormat::Fastest
        &&& plan.channel_capacity == CHANNEL_CAPACITY
        &&& plan.thread_name@ == thread_name_of(name)
        &&& plan.jpeg_quality == self.quality()
        &&& plan.max_fps == self.fps_cap()
    }

    /// The registry counts each registered name once: its count is the
    /// number of keys of its map.
    pub proof fn lemma_count_is_number_of_keys(&self)
        requires
            self.wf(),
        ensures
            self@.dom().finite(),
            self@.dom().len() == self.count(),
    {
        let names = Seq::new(self.receivers@.len(), |i: int| self.name_at(i));
        assert(names.no_duplicates());
        assert forall|name: Seq<char>| names.to_set().contains(name) <==> self@.dom().contains(
            name,
        ) by {
            if names.contains(name) {
                let i = choose|i: int| 0 <= i < names.len() && names[i] == name;
                assert(self.name_at(i) == name);
            }
            if self.has(name) {
                assert(names[self.slot(name)] == name);
            }
        }
        assert(names.to_set() =~= self@.dom());
        vstd::seq_lib::seq_to_set_is_finite(names);
        names.unique_seq_to_set();
    }

    /// An empty registry whose workers encode at `jpeg_quality` and publish
    /// at most `max_fps` frames per second.
    pub fn new(jpeg_quality: i32, max_fps: u32) -> (manager: Self)
        ensures
            manager.wf(),
            manager@ == Map::<Seq<char>, H>::empty(),
            manager.count() == 0,
            manager.quality() == jpeg_quality,
            manager.fps_cap() == max_fps,
    {
        let manager = ReceiverManager { receivers: Vec::new(), jpeg_quality, max_fps };
        assert(manager@ =~= Map::<Seq<char>, H>::empty());
        manager
    }

    /// JPEG quality the workers encode with.
    pub fn jpeg_quality(&self) -> (quality: i32)
        ensures
            quality == self.quality(),
    {
        self.jpeg_quality
    }

    /// Frame-rate cap of the workers; zero is no cap.
    pub fn max_fps(&self) -> (cap: u32)
        ensures
            cap == self.fps_cap(),
    {
        self.max_fps
    }

    /// Number of registered receivers.
    pub fn len(&self) -> (len: usize)
        ensures
            len == self.count(),
    {
        self.receivers.len()
    }

    /// The position of the entry called `name`.
    fn find(&self, name: &String) -> (found: Option<usize>)
        requires
            self.wf(),
        ensures
            match found {
                Some(i) => i < self.receivers@.len() && self.name_at(i as int) == name@
                    && self.has(name@) && self.slot(name@) == i,
                None => !self.has(name@),
            },
    {
        let mut i: usize = 0;
        while i < self.receivers.len()
            invariant
                self.wf(),
                i <= self.receivers@.len(),
                forall|k: int| 0 <= k < i ==> self.name_at(k) != name@,
            decreases self.receivers@.len() - i,
        {
            if self.receivers[i].name == *name {
                proof {
                    assert(self.name_at(i as int) == name@);
                    assert(self.has(name@));
                    let s = self.slot(name@);
                    assert(self.name_at(s) == name@);
                    assert(s == i);
                }
                return Some(i);
            }
            i += 1;
        }
        None
    }

    /// The handle registered for `name`, if there is one.
    pub fn get(&self, name: &str) -> (handle: Option<&H>)
        requires
            self.wf(),
        ensures
            match handle {
                Some(h) => self@.contains_key(name@) && *h == self@[name@],
                None => !self@.contains_key(name@),
            },
    {
        let key = String::from_str(name);
        match self.find(&key) {
            Some(i) => Some(&self.receivers[i].handle),
            None => None,
        }
    }

    /// Decides how a subscriber gets the receiver of `source`: the handle
    /// already registered under the source's name, or else the plan for
    /// creating one. The registry itself does not change; the caller
    /// registers what it created before it lets go of the registry.
    pub fn get_or_create(&self, source: &Source) -> (found: Lookup<'_, H>)
        requires
            self.wf(),
        ensures
            match found {
                Lookup::Existing(h) => self@.contains_key(source.name@) && *h == self@[source.name@],
                Lookup::Create(plan) => !self@.contains_key(source.name@) && self.plan_matches(
                    plan,
                    source.name@,
                ),
            },
    {
        match self.find(&source.name) {
            Some(i) => Lookup::Existing(&self.receivers[i].handle),
            None => {
                let thread_name = String::from_str("ndi-recv-").concat(source.name.as_str());
                Lookup::Create(
                    ReceiverPlan {
                        bandwidth: RecvBandwidth::Highest,
                        color_format: RecvColorFormat::Fastest,
                        channel_capacity: CHANNEL_CAPACITY,
                        thread_name,
                        jpeg_quality: self.jpeg_quality,
                        max_fps: self.max_fps,
                    },
                )
            },
        }
    }

    /// Registers `handle` under `name`. A handle already registered under
    /// that name is replaced and handed back.
    pub fn register(&mut self, name: String, handle: H) -> (replaced: Option<H>)
        requires
            old(self).wf(),
        ensures
            final(self).wf(),
            final(self)@ == old(self)@.insert(name@, handle),
            replaced == (if old(self)@.contains_key(name@) {
                Some(old(self)@[name@])
            } else {
                None
            }),
            final(self).quality() == old(self).quality(),
            final(self).fps_cap() == old(self).fps_cap(),
            final(self).count() == (if old(self)@.contains_key(name@) {
                old(self).count()
            } else {
                old(self).count() + 1
            }),
    {
        let replaced = self.take(&name);
        let ghost mid = *self;
        self.receivers.push(Entry { name, handle });
        proof {
            let last = mid.receivers@.len() as int;
            assert(self.name_at(last) == name@);
            assert forall|k: int| 0 <= k < last implies #[trigger] self.name_at(k)
                == mid.name_at(k) && self.name_at(k) != name@ by {
                if mid.name_at(k) == name@ {
                    assert(mid.has(name@));
                }
            }
            assert(self.receivers@.len() == last + 1);
            assert forall|i: int, j: int| 0 <= i < j < self.receivers@.len() implies self.name_at(
                i,
            ) != self.name_at(j) by {
                if j < last {
                    assert(mid.name_at(i) != mid.name_at(j));
                }
            }
            assert(self.wf());
            assert forall|key: Seq<char>| self.has(key) <==> (key == name@ || mid.has(key)) by {
                if mid.has(key) {
                    assert(self.name_at(mid.slot(key)) == key);
                }
                if self.has(key) {
                    let s = self.slot(key);
                    if s != last {
                        assert(mid.name_at(s) == key);
                    }
                }
            }
            assert forall|key: Seq<char>| self.has(key) implies #[trigger] self@[key] == (
            if key == name@ {
                handle
            } else {
                mid@[key]
            }) by {
                let s = self.slot(key);
                if key == name@ {
                    assert(s == last);
                } else {
                    assert(s != last);
                    assert(mid.name_at(s) == key);
                    assert(mid.slot(key) == s);
                }
            }
            let want = old(self)@.insert(name@, handle);
            assert(mid@ == old(self)@.remove(name@));
            assert forall|key: Seq<char>| self@.contains_key(key) <==> want.contains_key(key) by {
                assert(self.has(key) <==> (key == name@ || mid.has(key)));
                assert(mid@.contains_key(key) <==> mid.has(key));
            }
            assert forall|key: Seq<char>| self@.contains_key(key) implies self@[key] == want[key] by {
                assert(self.has(key));
                if key != name@ {
                    assert(mid.has(key));
                    assert(mid@.contains_key(key));
                    assert(mid@[key] == old(self)@[key]);
                }
            }
            assert(self@ =~= want);
        }
        replaced
    }

    /// Takes the entry called `name` out, whoever asks.
    fn take(&mut self, name: &String) -> (taken: Option<H>)
        requires
            old(self).wf(),
        ensures
            final(self).wf(),
            final(self)@ == old(self)@.remove(name@),
            !final(self).has(name@),
            taken == (if old(self)@.contains_key(name@) {
                Some(old(self)@[name@])
            } else {
                None
            }),
            final(self).jpeg_quality == old(self).jpeg_quality,
            final(self).max_fps == old(self).max_fps,
            final(self).count() == (if old(self)@.contains_key(name@) {
                old(self).count() - 1
            } else {
                old(self).count() as int
            }),
    {
        match self.find(name) {
            Some(i) => {
                let entry = self.receivers.remove(i);
                proof {
                    let before = *old(self);
                    let at = i as int;
                    assert forall|k: int| 0 <= k < self.receivers@.len() implies self.name_at(k)
                        == before.name_at(if k < at {
                        k
                    } else {
                        k + 1
                    }) by {}
                    assert(self.wf());
                    assert forall|key: Seq<char>| self.has(key) <==> (key != name@ && before.has(
                        key,
                    )) by {
                        if self.has(key) {
                            let k = self.slot(key);
                            let b = if k < at {
                                k
                            } else {
                                k + 1
                            };
                            assert(before.name_at(b) == key);
                        }
                        if key != name@ && before.has(key) {
                            let b = before.slot(key);
                            let k = if b < at {
                                b
                            } else {
                                b - 1
                            };
                            assert(self.name_at(k) == key);
                        }
                    }
                    assert forall|key: Seq<char>| self.has(key) implies #[trigger] self@[key]
                        == before@[key] by {
                        let k = self.slot(key);
                        let b = if k < at {
                            k
                        } else {
                            k + 1
                        };
                        assert(before.name_at(b) == key);
                        assert(before.slot(key) == b);
                    }
                    assert(self@ =~= old(self)@.remove(name@));
                }
                Some(entry.handle)
            },
            None => {
                assert(self@ =~= old(self)@.remove(name@));
                None
            },
        }
    }

    /// Removes the entry called `source_name`, as a worker does for its own
    /// source on every way out of its loop. The handle is handed back so
    /// that the caller decides where it is dropped.
    pub fn remove(&mut self, source_name: &str) -> (removed: Option<H>)
        requires
            old(self).wf(),
        ensures
            final(self).wf(),
            final(self)@ == old(self)@.remove(source_name@),
            removed == (if old(self)@.contains_key(source_name@) {
                Some(old(self)@[source_name@])
            } else {
                None
            }),
            final(self).quality() == old(self).quality(),
            final(self).fps_cap() == old(self).fps_cap(),
            final(self).count() == (if old(self)@.contains_key(source_name@) {
                old(self).count() - 1
            } else {
                old(self).count() as int
            }),
    {
        let key = String::from_str(source_name);
        self.take(&key)
    }

    /// Removes the entry called `source_name` if it exists and `clients`,
    /// the client count read off its record, is zero. With clients left,
    /// or without such an entry, nothing changes.
    pub fn maybe_remove(&mut self, source_name: &str, clients: u64) -> (removed: Option<H>)
        requires
            old(self).wf(),
        ensures
            final(self).wf(),
            final(self).quality() == old(self).quality(),
            final(self).fps_cap() == old(self).fps_cap(),
            clients == 0 ==> final(self)@ == old(self)@.remove(source_name@),
            clients != 0 ==> final(self)@ == old(self)@,
            removed == (if clients == 0 && old(self)@.contains_key(source_name@) {
                Some(old(self)@[source_name@])
            } else {
                None
            }),
            final(self).count() == (if clients == 0 && old(self)@.contains_key(source_name@) {
                old(self).count() - 1
            } else {
                old(self).count() as int
            }),
    {
        if clients == 0 {
            self.remove(source_name)
        } else {
            None
        }
    }

    /// The registered receivers, each name with its handle, one entry per
    /// name.
    pub fn active_stats(&self) -> (active: Vec<(String, &H)>)
        requires
            self.wf(),
        ensures
            active@.len() == self.count(),
            forall|i: int|
                0 <= i < active@.len() ==> self@.contains_key(#[trigger] active@[i].0@)
                    && self@[active@[i].0@] == *active@[i].1,
            forall|i: int, j: int|
                0 <= i < j < active@.len() ==> active@[i].0@ != active@[j].0@,
            forall|name: Seq<char>|
                self@.contains_key(name) ==> exists|i: int|
                    0 <= i < active@.len() && #[trigger] active@[i].0@ == name,
    {
        let mut active: Vec<(String, &H)> = Vec::new();
        let mut i: usize = 0;
        while i < self.receivers.len()
            invariant
                self.wf(),
                i <= self.receivers@.len(),
                active@.len() == i,
                forall|k: int|
                    0 <= k < i ==> (#[trigger] active@[k]).0@ == self.name_at(k) && *active@[k].1
                        == self.receivers@[k].handle,
            decreases self.receivers@.len() - i,
        {
            let entry = &self.receivers[i];
            active.push((entry.name.clone(), &entry.handle));
            i += 1;
        }
        proof {
            assert forall|k: int| 0 <= k < active@.len() implies self@.contains_key(
                #[trigger] active@[k].0@,
            ) && self@[active@[k].0@] == *active@[k].1 by {
                assert(self.name_at(k) == active@[k].0@);
                assert(self.has(active@[k].0@));
                assert(self.slot(active@[k].0@) == k);
            }
            assert forall|name: Seq<char>| self@.contains_key(name) implies exists|k: int|
                0 <= k < active@.len() && #[trigger] active@[k].0@ == name by {
                let s = self.slot(name);
                assert(active@[s].0@ == name);
            }
        }
        active
    }
}

/// What a run of subscriber requests for one source leaves behind.
pub struct Served<H> {
    /// The registry after the last request.
    pub registry: Map<Seq<char>, H>,
    /// How many receivers were created.
    pub created: nat,
    /// The handle each request was given, in order.
    pub shared: Seq<H>,
}

/// Serves one request after the other for the source called `name`: each
/// takes the registered handle, or, finding none, creates the receiver it
/// brought along (`fresh[i]` for request `i`) and registers it.
pub open spec fn serve_all<H>(registry: Map<Seq<char>, H>, name: Seq<char>, fresh: Seq<H>) -> Served<
    H,
>
    decreases fresh.len(),
{
    if fresh.len() == 0 {
        Served { registry, created: 0, shared: Seq::empty() }
    } else {
        let before = serve_all(registry, name, fresh.drop_last());
        if before.registry.contains_key(name) {
            Served {
                registry: before.registry,
                created: before.created,
                shared: before.shared.push(before.registry[name]),
            }
        } else {
            Served {
                registry: before.registry.insert(name, fresh.last()),
                created: before.created + 1,
                shared: before.shared.push(fresh.last()),
            }
        }
    }
}

/// Singleton worker: however many requests come for one source, at most
/// one receiver is created for it, none if one was registered before; the
/// registry ends with one entry under the name, every request is given
/// that entry's handle, and the other sources' entries are untouched.
pub proof fn lemma_one_receiver_per_source<H>(
    registry: Map<Seq<char>, H>,
    name: Seq<char>,
    fresh: Seq<H>,
)
    requires
        fresh.len() > 0,
    ensures
        ({
            let served = serve_all(registry, name, fresh);
            &&& served.created == (if registry.contains_key(name) {
                0nat
            } else {
                1nat
            })
            &&& served.registry == (if registry.contains_key(name) {
                registry
            } else {
                registry.insert(name, fresh[0])
            })
            &&& served.shared.len() == fresh.len()
            &&& forall|i: int|
                0 <= i < fresh.len() ==> #[trigger] served.shared[i] == served.registry[name]
        }),
    decreases fresh.len(),
{
    if fresh.len() > 1 {
        lemma_one_receiver_per_source(registry, name, fresh.drop_last());
        assert(fresh.drop_last()[0] == fresh[0]);
    } else {
        reveal_with_fuel(serve_all, 2);
        assert(fresh.drop_last().len() == 0);
        assert(fresh.last() == fresh[0]);
    }
}


} // verus!
