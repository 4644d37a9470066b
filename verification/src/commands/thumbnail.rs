//! The thumbnail service: a cache in front of an admission controller.
//!
//! A request is answered from the cache where that is possible, and then
//! costs no permit. Otherwise it takes a ticket and waits for a permit; the
//! caller makes the thumbnail while it holds the permit and reports how that
//! ended. A thumbnail that was made is stored in the cache.

use crate::models::error::{ErrorKind, PipelineError};
use crate::utils::admission::{
    lemma_apply_keeps_valid,
    AdmissionController,
    AdmissionEvent,
    AdmissionView,
    DEFAULT_MAX_CONCURRENT,
};
use crate::utils::lru_cache::{
    after_get,
    after_put,
    distinct_keys,
    has_key,
    key_at,
    lemma_get_keeps_entries,
    lemma_position_of,
    lemma_put_stores,
    position_of,
    size_bound,
    total_bytes,
    LruCache,
};
use vstd::prelude::*;

verus! {

/// The number of thumbnails that the default cache holds.
pub const DEFAULT_CACHE_SIZE: usize = 200;

/// The state of the service at one moment.
#[derive(Debug, Clone, Copy, PartialEq, Eq, Structural)]
pub struct ThumbnailStatus {
    pub max_concurrent: usize,
    pub current_waiting: usize,
    pub current_processing: usize,
    pub available_slots: usize,
    pub cache_size: usize,
    pub cache_max_size: usize,
    pub cache_memory_usage: usize,
}

/// What becomes of a request.
#[derive(Debug)]
pub enum ThumbnailStep {
    /// The thumbnail was in the cache: here it is.
    Hit(Vec<u8>),
    /// The thumbnail has to be made. The request waits under this ticket
    /// until the ticket is granted a permit.
    Wait(u64),
    /// No ticket could be had.
    Refused(PipelineError),
}

/// The thumbnail service.
pub struct ThumbnailService {
    cache: LruCache<Vec<u8>>,
    admission: AdmissionController,
}

/// The entries of a cache of byte vectors, each value as its bytes.
pub open spec fn contents(entries: Seq<(Seq<char>, Vec<u8>)>) -> Seq<(Seq<char>, Seq<u8>)> {
    Seq::new(entries.len(), |i: int| (entries[i].0, entries[i].1@))
}

/// The bytes that the thumbnails hold in all.
pub open spec fn stored_bytes(entries: Seq<(Seq<char>, Seq<u8>)>) -> nat
    decreases entries.len(),
{
    if entries.len() == 0 {
        0
    } else {
        stored_bytes(entries.drop_last()) + entries.last().1.len()
    }
}

proof fn lemma_contents_bytes(entries: Seq<(Seq<char>, Vec<u8>)>)
    ensures
        stored_bytes(contents(entries)) == total_bytes(entries),
    decreases entries.len(),
{
    if entries.len() > 0 {
        lemma_contents_bytes(entries.drop_last());
        assert(contents(entries).drop_last() =~= contents(entries.drop_last()));
    }
}

proof fn lemma_contents_keys(entries: Seq<(Seq<char>, Vec<u8>)>, key: Seq<char>)
    requires
        distinct_keys(entries),
    ensures
        distinct_keys(contents(entries)),
        has_key(contents(entries), key) == has_key(entries, key),
        has_key(entries, key) ==> position_of(contents(entries), key) == position_of(entries, key),
{
    let mapped = contents(entries);
    if has_key(entries, key) {
        let at = position_of(entries, key);
        assert(key_at(mapped, key, at));
        lemma_position_of(mapped, key, at);
    }
    if has_key(mapped, key) {
        let at = position_of(mapped, key);
        assert(key_at(entries, key, at));
    }
}

proof fn lemma_contents_after_get(entries: Seq<(Seq<char>, Vec<u8>)>, key: Seq<char>)
    requires
        distinct_keys(entries),
    ensures
        contents(after_get(entries, key)) == after_get(contents(entries), key),
{
    lemma_contents_keys(entries, key);
    assert(contents(after_get(entries, key)) =~= after_get(contents(entries), key));
}

proof fn lemma_contents_after_put(
    entries: Seq<(Seq<char>, Vec<u8>)>,
    max_size: nat,
    key: Seq<char>,
    value: Vec<u8>,
)
    requires
        distinct_keys(entries),
    ensures
        contents(after_put(entries, max_size, key, value)) == after_put(
            contents(entries),
            max_size,
            key,
            value@,
        ),
{
    lemma_contents_keys(entries, key);
    assert(contents(after_put(entries, max_size, key, value)) =~= after_put(
        contents(entries),
        max_size,
        key,
        value@,
    ));
}

/// A thumbnail is made once. After the thumbnail of `path` has been stored, a
/// request for `path` finds it in the cache: it is handed the bytes that were
/// stored, and, being a hit, takes neither ticket nor permit and leaves the
/// cache as it is.
pub proof fn lemma_stored_thumbnail_is_hit(
    entries: Seq<(Seq<char>, Seq<u8>)>,
    max_size: nat,
    path: Seq<char>,
    bytes: Seq<u8>,
)
    requires
        distinct_keys(entries),
    ensures
        distinct_keys(after_put(entries, max_size, path, bytes)),
        has_key(after_put(entries, max_size, path, bytes), path),
        after_put(entries, max_size, path, bytes)[position_of(
            after_put(entries, max_size, path, bytes),
            path,
        )].1 == bytes,
        after_get(after_put(entries, max_size, path, bytes), path) == after_put(
            entries,
            max_size,
            path,
            bytes,
        ),
{
    lemma_put_stores(entries, max_size, path, bytes);
}

/// The service as plain values.
pub struct ServiceView {
    /// The thumbnails in the cache, the least recently used one first.
    pub cached: Seq<(Seq<char>, Seq<u8>)>,
    /// The number of thumbnails that the cache is meant to hold.
    pub capacity: nat,
    /// The admission controller.
    pub admission: AdmissionView,
}

/// What can happen to the service.
pub enum ServiceEvent {
    /// A request for the thumbnail of a path arrives.
    Request(Seq<char>),
    /// The request that has waited longest is granted a permit.
    Grant,
    /// The making of the thumbnail of a path has ended, with these bytes or
    /// with a failure.
    Complete(Seq<char>, Option<Seq<u8>>),
    /// A request gives up its ticket.
    Withdraw(u64),
    /// The cache is emptied.
    Clear,
}

impl ServiceView {
    /// The service after an event. A request that finds its thumbnail makes
    /// it the most recently used one; any other request takes a ticket. The
    /// end of the making of a thumbnail gives a permit back and stores the
    /// thumbnail, if there is one.
    pub open spec fn apply(self, event: ServiceEvent) -> ServiceView {
        match event {
            ServiceEvent::Request(path) => if has_key(self.cached, path) {
                ServiceView { cached: after_get(self.cached, path), ..self }
            } else {
                ServiceView { admission: self.admission.apply(AdmissionEvent::Enqueue), ..self }
            },
            ServiceEvent::Grant => ServiceView {
                admission: self.admission.apply(AdmissionEvent::Grant),
                ..self
            },
            ServiceEvent::Complete(path, outcome) => ServiceView {
                admission: self.admission.apply(AdmissionEvent::Release),
                cached: match outcome {
                    Some(bytes) => after_put(self.cached, self.capacity, path, bytes),
                    None => self.cached,
                },
                ..self
            },
            ServiceEvent::Withdraw(ticket) => ServiceView {
                admission: self.admission.apply(AdmissionEvent::Withdraw(ticket)),
                ..self
            },
            ServiceEvent::Clear => ServiceView { cached: Seq::empty(), ..self },
        }
    }

    /// The service after a run of events.
    pub open spec fn replay(self, events: Seq<ServiceEvent>) -> ServiceView
        decreases events.len(),
    {
        if events.len() == 0 {
            self
        } else {
            self.replay(events.drop_last()).apply(events.last())
        }
    }

    /// Whether the permits are sound and no path is cached twice.
    pub open spec fn valid(self) -> bool {
        self.admission.valid() && distinct_keys(self.cached)
    }

    /// Whether no request waits or holds a permit.
    pub open spec fn idle(self) -> bool {
        &&& self.admission.waiting.len() == 0
        &&& self.admission.processing == 0
        &&& self.admission.available() == self.admission.max_concurrent
    }
}

/// Whether `event` is part of the handling of requests for `path`, each of
/// which ends with a thumbnail: a request for `path`, the grant of a permit,
/// or the end of the making of its thumbnail with success.
pub open spec fn concerns(event: ServiceEvent, path: Seq<char>) -> bool {
    match event {
        ServiceEvent::Request(p) => p == path,
        ServiceEvent::Grant => true,
        ServiceEvent::Complete(p, outcome) => p == path && outcome is Some,
        _ => false,
    }
}

/// Requests for one path, however many and in whatever order their steps
/// interleave. The permits stay sound and no path is cached twice. Once a
/// thumbnail of the path has been made, or if one was cached before, the
/// cache holds exactly one entry for the path. And when every request has
/// returned, so that no ticket is out, nobody waits, no permit is held, and
/// every permit is free: each was released once and none twice.
pub proof fn lemma_requests_for_one_path(
    start: ServiceView,
    path: Seq<char>,
    events: Seq<ServiceEvent>,
)
    requires
        start.valid(),
        forall|i: int| 0 <= i < events.len() ==> concerns(#[trigger] events[i], path),
    ensures
        start.replay(events).valid(),
        start.replay(events).capacity == start.capacity,
        start.replay(events).admission.max_concurrent == start.admission.max_concurrent,
        start.replay(events).admission.processing <= start.admission.max_concurrent,
        start.replay(events).admission.in_flight() == 0 ==> start.replay(events).idle(),
        has_key(start.cached, path) || (exists|i: int|
            0 <= i < events.len() && #[trigger] events[i] is Complete) ==> has_key(
            start.replay(events).cached,
            path,
        ),
        forall|i: int, j: int|
            key_at(start.replay(events).cached, path, i) && key_at(
                start.replay(events).cached,
                path,
                j,
            ) ==> i == j,
        start.cached.len() == 0 ==> forall|i: int|
            0 <= i < start.replay(events).cached.len() ==> (#[trigger] start.replay(
                events,
            ).cached[i]).0 == path,
    decreases events.len(),
{
    if events.len() > 0 {
        let before = start.replay(events.drop_last());
        let last = events.last();
        lemma_requests_for_one_path(start, path, events.drop_last());
        assert(concerns(last, path));
        assert forall|i: int| 0 <= i < events.len() - 1 && events[i] is Complete implies (exists|
            k: int,
        |
            0 <= k < events.drop_last().len() && #[trigger] events.drop_last()[k] is Complete) by {
            assert(events.drop_last()[i] is Complete);
        }
        match last {
            ServiceEvent::Request(p) => {
                lemma_get_keeps_entries(before.cached, p);
                lemma_apply_keeps_valid(before.admission, AdmissionEvent::Enqueue);
            },
            ServiceEvent::Grant => {
                lemma_apply_keeps_valid(before.admission, AdmissionEvent::Grant);
            },
            ServiceEvent::Complete(p, outcome) => {
                lemma_apply_keeps_valid(before.admission, AdmissionEvent::Release);
                lemma_put_stores(before.cached, before.capacity, p, outcome->0);
            },
            _ => {},
        }
        let end = start.replay(events);
        if start.cached.len() == 0 {
            assert forall|i: int| 0 <= i < end.cached.len() implies (#[trigger] end.cached[i]).0
                == path by {
                let k = end.cached[i].0;
                assert(key_at(end.cached, k, i));
                if k != path {
                    assert(has_key(before.cached, k));
                    let p = position_of(before.cached, k);
                    assert(before.cached[p].0 == path);
                }
            }
        }
    }
}

/// Two requests for one path, made of an idle service that has not cached
/// the path, each ending with a thumbnail, their steps in any order: once
/// both have returned, every permit is free, nobody waits, and the cache
/// holds exactly one entry, that of the path.
pub proof fn lemma_two_requests_for_one_path(
    start: ServiceView,
    path: Seq<char>,
    events: Seq<ServiceEvent>,
)
    requires
        start.valid(),
        start.cached.len() == 0,
        start.admission.in_flight() == 0,
        forall|i: int| 0 <= i < events.len() ==> concerns(#[trigger] events[i], path),
        exists|i: int| 0 <= i < events.len() && #[trigger] events[i] is Complete,
        start.replay(events).admission.in_flight() == 0,
    ensures
        start.replay(events).idle(),
        start.replay(events).cached.len() == 1,
        start.replay(events).cached[0].0 == path,
{
    lemma_requests_for_one_path(start, path, events);
    let end = start.replay(events);
    let at = position_of(end.cached, path);
    assert(key_at(end.cached, path, at));
    if end.cached.len() > 1 {
        assert(end.cached[0].0 == path && end.cached[1].0 == path);
    }
}

impl ThumbnailService {
    /// The thumbnails in the cache, the least recently used one first.
    pub closed spec fn cached(&self) -> Seq<(Seq<char>, Seq<u8>)> {
        contents(self.cache@)
    }

    /// The number of thumbnails that the cache is meant to hold.
    pub closed spec fn cache_capacity(&self) -> nat {
        self.cache.capacity()
    }

    /// The admission controller as plain values.
    pub closed spec fn admission(&self) -> AdmissionView {
        self.admission@
    }

    /// The service as plain values.
    pub open spec fn view(&self) -> ServiceView {
        ServiceView {
            cached: self.cached(),
            capacity: self.cache_capacity(),
            admission: self.admission(),
        }
    }

    /// A service with an empty cache of `cache_size` thumbnails and
    /// `max_concurrent` permits.
    pub fn new(cache_size: usize, max_concurrent: usize) -> (service: Self)
        ensures
            service.cached() == Seq::<(Seq<char>, Seq<u8>)>::empty(),
            service.cache_capacity() == cache_size,
            service.admission() == AdmissionView::initial(max_concurrent as nat),
            distinct_keys(service.cached()),
    {
        let service = ThumbnailService {
            cache: LruCache::new(cache_size),
            admission: AdmissionController::new(max_concurrent),
        };
        assert(service.cached() =~= Seq::<(Seq<char>, Seq<u8>)>::empty());
        service
    }

    /// The service as the application runs it: 200 thumbnails, 5 permits.
    pub fn with_defaults() -> (service: Self)
        ensures
            service.cached() == Seq::<(Seq<char>, Seq<u8>)>::empty(),
            service.cache_capacity() == DEFAULT_CACHE_SIZE,
            service.admission() == AdmissionView::initial(DEFAULT_MAX_CONCURRENT as nat),
            distinct_keys(service.cached()),
    {
        Self::new(DEFAULT_CACHE_SIZE, DEFAULT_MAX_CONCURRENT)
    }

    /// Takes in a request for the thumbnail of `path`. A thumbnail that is in
    /// the cache is handed out, becomes the most recently used one, and the
    /// admission controller is left alone. Otherwise the cache stays as it is
    /// and the request takes a ticket, which is refused only once the ticket
    /// numbers have run out.
    pub fn request(&mut self, path: &String) -> (step: ThumbnailStep)
        ensures
            final(self)@ == old(self)@.apply(ServiceEvent::Request(path@)),
            final(self).cached() == after_get(old(self).cached(), path@),
            final(self).cache_capacity() == old(self).cache_capacity(),
            distinct_keys(old(self).cached()),
            distinct_keys(final(self).cached()),
            has_key(old(self).cached(), path@) ==> step is Hit && step->Hit_0@ == old(
                self,
            ).cached()[position_of(old(self).cached(), path@)].1 && final(self).admission() == old(
                self,
            ).admission(),
            !has_key(old(self).cached(), path@) ==> final(self).admission() == old(
                self,
            ).admission().apply(AdmissionEvent::Enqueue) && match step {
                ThumbnailStep::Hit(_) => false,
                ThumbnailStep::Wait(ticket) => old(self).admission().can_enqueue() && ticket == old(
                    self,
                ).admission().issued,
                ThumbnailStep::Refused(error) => !old(self).admission().can_enqueue() && error.kind
                    == ErrorKind::ResourceError,
            },
    {
        let ghost before = self.cache@;
        let found = self.cache.get(path);
        proof {
            lemma_contents_after_get(before, path@);
            lemma_contents_keys(before, path@);
        }
        match found {
            Some(bytes) => ThumbnailStep::Hit(bytes),
            None => match self.admission.enqueue() {
                Some(ticket) => ThumbnailStep::Wait(ticket),
                None => ThumbnailStep::Refused(
                    PipelineError::new(ErrorKind::ResourceError, "获取缩略图请求许可失败"),
                ),
            },
        }
    }

    /// Grants a permit to the request that has waited longest and gives its
    /// ticket: the caller lets that request go on. `None` where no permit is
    /// free or no request waits.
    pub fn grant_next(&mut self) -> (ticket: Option<u64>)
        ensures
            final(self)@ == old(self)@.apply(ServiceEvent::Grant),
            final(self).admission() == old(self).admission().apply(AdmissionEvent::Grant),
            final(self).cached() == old(self).cached(),
            final(self).cache_capacity() == old(self).cache_capacity(),
            match ticket {
                Some(t) => old(self).admission().can_grant() && t == old(self).admission().waiting[0],
                None => !old(self).admission().can_grant(),
            },
    {
        self.admission.grant()
    }

    /// Takes a request that gives up while it waits out of the queue.
    pub fn withdraw(&mut self, ticket: u64) -> (withdrawn: bool)
        ensures
            final(self)@ == old(self)@.apply(ServiceEvent::Withdraw(ticket)),
            final(self).admission() == old(self).admission().apply(
                AdmissionEvent::Withdraw(ticket),
            ),
            final(self).cached() == old(self).cached(),
            final(self).cache_capacity() == old(self).cache_capacity(),
            withdrawn == old(self).admission().waiting.contains(ticket),
    {
        self.admission.withdraw(ticket)
    }

    /// Takes in how the making of the thumbnail of `path` ended, and hands
    /// the outcome on. The permit of the request is released, whatever the
    /// outcome. A thumbnail that was made is stored in the cache; a failure
    /// leaves the cache as it is.
    pub fn complete(&mut self, path: String, outcome: Result<Vec<u8>, PipelineError>) -> (result:
        Result<Vec<u8>, PipelineError>)
        ensures
            result == outcome,
            final(self)@ == old(self)@.apply(
                ServiceEvent::Complete(
                    path@,
                    match outcome {
                        Ok(bytes) => Some(bytes@),
                        Err(_) => None,
                    },
                ),
            ),
            final(self).admission() == old(self).admission().apply(AdmissionEvent::Release),
            final(self).admission().valid(),
            final(self).cache_capacity() == old(self).cache_capacity(),
            match outcome {
                Ok(bytes) => final(self).cached() == after_put(
                    old(self).cached(),
                    old(self).cache_capacity(),
                    path@,
                    bytes@,
                ) && distinct_keys(old(self).cached()) && distinct_keys(final(self).cached()),
                Err(_) => final(self).cached() == old(self).cached(),
            },
    {
        let _ = self.admission.release();
        match outcome {
            Ok(bytes) => {
                let ghost before = self.cache@;
                let stored = bytes.clone();
                self.cache.put(path, stored);
                proof {
                    lemma_contents_after_put(before, self.cache.capacity(), path@, stored);
                }
                Ok(bytes)
            },
            Err(error) => Err(error),
        }
    }

    /// The state of the service at this moment.
    pub fn get_thumbnail_status(&self) -> (status: ThumbnailStatus)
        ensures
            status.max_concurrent == self.admission().max_concurrent,
            status.current_waiting == self.admission().waiting.len(),
            status.current_processing == self.admission().processing,
            status.available_slots == self.admission().available(),
            status.cache_size == self.cached().len(),
            status.cache_max_size == self.cache_capacity(),
            status.cache_memory_usage == if stored_bytes(self.cached()) <= usize::MAX {
                stored_bytes(self.cached())
            } else {
                usize::MAX as nat
            },
            status.current_processing <= status.max_concurrent,
            status.cache_size <= size_bound(self.cache_capacity()),
            self.admission().valid(),
            distinct_keys(self.cached()),
    {
        let admission = self.admission.status();
        let cache_size = self.cache.len();
        proof {
            lemma_contents_bytes(self.cache@);
            lemma_contents_keys(self.cache@, Seq::empty());
        }
        ThumbnailStatus {
            max_concurrent: admission.max,
            current_waiting: admission.waiting,
            current_processing: admission.processing,
            available_slots: admission.available,
            cache_size,
            cache_max_size: self.cache.max_size(),
            cache_memory_usage: self.cache.memory_usage(),
        }
    }

    /// Empties the cache.
    pub fn clear_thumbnail_cache(&mut self)
        ensures
            final(self)@ == old(self)@.apply(ServiceEvent::Clear),
            final(self).cached() == Seq::<(Seq<char>, Seq<u8>)>::empty(),
            final(self).cache_capacity() == old(self).cache_capacity(),
            final(self).admission() == old(self).admission(),
    {
        self.cache.clear();
        assert(self.cached() =~= Seq::<(Seq<char>, Seq<u8>)>::empty());
    }
}

} // verus!
