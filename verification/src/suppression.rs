//! Recognising the file events caused by the application's own writes and
//! deletes, so that the watcher can skip them.
//!
//! Writes are remembered by `(path, size, mtime_ns)`, deletes by path. An
//! entry is forgotten when an event consumes it or when it is older than the
//! time-to-live. Times are nanoseconds of a monotonic clock.

use std::collections::VecDeque;

use vstd::prelude::*;

use crate::text::str_eq;

verus! {

/// How long a recorded write or delete waits for its event, in nanoseconds.
pub const TTL_NS: u64 = 2_000_000_000;

/// A write of the application, as the watcher will see it.
#[derive(Debug, Clone, PartialEq, Eq)]
pub struct WriteFingerprint {
    pub path: String,
    pub size: u64,
    pub mtime_ns: i128,
    pub recorded_at_ns: u64,
}

/// A delete of the application.
#[derive(Debug, Clone, PartialEq, Eq)]
pub struct DeleteFingerprint {
    pub path: String,
    pub recorded_at_ns: u64,
}

/// A write fingerprint as plain values: `(path, size, mtime_ns, recorded_at)`.
pub type WriteView = (Seq<char>, u64, i128, u64);

/// A delete fingerprint as plain values: `(path, recorded_at)`.
pub type DeleteView = (Seq<char>, u64);

pub open spec fn write_views(q: Seq<WriteFingerprint>) -> Seq<WriteView> {
    q.map_values(|f: WriteFingerprint| (f.path@, f.size, f.mtime_ns, f.recorded_at_ns))
}

pub open spec fn delete_views(q: Seq<DeleteFingerprint>) -> Seq<DeleteView> {
    q.map_values(|f: DeleteFingerprint| (f.path@, f.recorded_at_ns))
}

/// An entry recorded at `at` has expired at `now`.
pub open spec fn expired(at: u64, now: u64) -> bool {
    now > at && now - at > TTL_NS
}

/// `q` without its leading expired write entries.
pub open spec fn drain_writes(q: Seq<WriteView>, now: u64) -> Seq<WriteView>
    decreases q.len(),
{
    if q.len() > 0 && expired(q[0].3, now) {
        drain_writes(q.drop_first(), now)
    } else {
        q
    }
}

/// `q` without its leading expired delete entries.
pub open spec fn drain_deletes(q: Seq<DeleteView>, now: u64) -> Seq<DeleteView>
    decreases q.len(),
{
    if q.len() > 0 && expired(q[0].1, now) {
        drain_deletes(q.drop_first(), now)
    } else {
        q
    }
}

/// Position of the first write entry with the given fingerprint at or after `i`.
pub open spec fn first_write_match(
    q: Seq<WriteView>,
    path: Seq<char>,
    size: u64,
    mtime: i128,
    i: int,
) -> Option<int>
    decreases q.len() - i,
{
    if i < 0 || i >= q.len() {
        None
    } else if q[i].0 == path && q[i].1 == size && q[i].2 == mtime {
        Some(i)
    } else {
        first_write_match(q, path, size, mtime, i + 1)
    }
}

/// Position of the first delete entry for `path` at or after `i`.
pub open spec fn first_delete_match(q: Seq<DeleteView>, path: Seq<char>, i: int) -> Option<int>
    decreases q.len() - i,
{
    if i < 0 || i >= q.len() {
        None
    } else if q[i].0 == path {
        Some(i)
    } else {
        first_delete_match(q, path, i + 1)
    }
}

/// The write queue after an event with fingerprint `(path, size, mtime)` at
/// `now`, and whether the event was the application's own.
pub open spec fn consume_write(
    q: Seq<WriteView>,
    path: Seq<char>,
    size: u64,
    mtime: i128,
    now: u64,
) -> (Seq<WriteView>, bool) {
    let d = drain_writes(q, now);
    match first_write_match(d, path, size, mtime, 0) {
        Some(k) => (d.remove(k), true),
        None => (d, false),
    }
}

/// The delete queue after a removal event for `path` at `now`, and whether
/// the removal was the application's own.
pub open spec fn consume_delete(q: Seq<DeleteView>, path: Seq<char>, now: u64) -> (
    Seq<DeleteView>,
    bool,
) {
    let d = drain_deletes(q, now);
    match first_delete_match(d, path, 0) {
        Some(k) => (d.remove(k), true),
        None => (d, false),
    }
}

/// The two queues of recorded writes and deletes, oldest first.
pub struct SelfWriteSuppression {
    writes: VecDeque<WriteFingerprint>,
    deletes: VecDeque<DeleteFingerprint>,
}

impl SelfWriteSuppression {
    /// The recorded writes, oldest first.
    pub closed spec fn writes_view(&self) -> Seq<WriteView> {
        write_views(self.writes@)
    }

    /// The recorded deletes, oldest first.
    pub closed spec fn deletes_view(&self) -> Seq<DeleteView> {
        delete_views(self.deletes@)
    }

    /// Nothing recorded.
    pub fn new() -> (r: Self)
        ensures
            r.writes_view() == Seq::<WriteView>::empty(),
            r.deletes_view() == Seq::<DeleteView>::empty(),
    {
        let r = SelfWriteSuppression { writes: VecDeque::new(), deletes: VecDeque::new() };
        assert(r.writes_view() =~= Seq::<WriteView>::empty());
        assert(r.deletes_view() =~= Seq::<DeleteView>::empty());
        r
    }

    /// Remembers a write of the application, stat'ed as `(size, mtime_ns)`.
    pub fn record_write(&mut self, path: &str, size: u64, mtime_ns: i128, now_ns: u64)
        ensures
            final(self).writes_view() == old(self).writes_view().push(
                (path@, size, mtime_ns, now_ns),
            ),
            final(self).deletes_view() == old(self).deletes_view(),
    {
        let ghost before = write_views(self.writes@);
        self.writes.push_back(
            WriteFingerprint {
                path: crate::text::string_of(crate::text::chars_of(path).as_slice()),
                size,
                mtime_ns,
                recorded_at_ns: now_ns,
            },
        );
        assert(write_views(self.writes@) =~= before.push((path@, size, mtime_ns, now_ns)));
    }

    /// Remembers a delete of the application.
    pub fn record_delete(&mut self, path: &str, now_ns: u64)
        ensures
            final(self).deletes_view() == old(self).deletes_view().push((path@, now_ns)),
            final(self).writes_view() == old(self).writes_view(),
    {
        let ghost before = delete_views(self.deletes@);
        self.deletes.push_back(
            DeleteFingerprint {
                path: crate::text::string_of(crate::text::chars_of(path).as_slice()),
                recorded_at_ns: now_ns,
            },
        );
        assert(delete_views(self.deletes@) =~= before.push((path@, now_ns)));
    }

    /// Handles a create or modify event at `now_ns` for `path` (the event's
    /// first path, if any) whose file stats as `stat` (`None` when the stat
    /// failed). `true` means the event is the application's own write, whose
    /// entry is then forgotten; expired entries are dropped first.
    pub fn check_and_consume_write(
        &mut self,
        path: Option<&str>,
        stat: Option<(u64, i128)>,
        now_ns: u64,
    ) -> (r: bool)
        ensures
            (path is None || stat is None) ==> !r && final(self).writes_view() == old(
                self,
            ).writes_view(),
            path is Some && stat is Some ==> (final(self).writes_view(), r) == consume_write(
                old(self).writes_view(),
                path.unwrap()@,
                stat.unwrap().0,
                stat.unwrap().1,
                now_ns,
            ),
            final(self).deletes_view() == old(self).deletes_view(),
    {
        let p = match path {
            Some(p) => p,
            None => return false,
        };
        let (size, mtime) = match stat {
            Some(s) => s,
            None => return false,
        };
        drain_expired_writes(&mut self.writes, now_ns);
        let ghost d = write_views(self.writes@);
        let mut i: usize = 0;
        while i < self.writes.len()
            invariant
                i <= self.writes.len(),
                d == write_views(self.writes@),
                d == drain_writes(write_views(old(self).writes@), now_ns),
                self.deletes@ == old(self).deletes@,
                path == Some(p),
                stat == Some((size, mtime)),
                first_write_match(d, p@, size, mtime, 0) == first_write_match(
                    d,
                    p@,
                    size,
                    mtime,
                    i as int,
                ),
            decreases self.writes.len() - i,
        {
            let f = &self.writes[i];
            if f.size == size && f.mtime_ns == mtime && str_eq(f.path.as_str(), p) {
                assert(first_write_match(d, p@, size, mtime, i as int) == Some(i as int));
                let _ = self.writes.remove(i);
                assert(write_views(self.writes@) =~= d.remove(i as int));
                return true;
            }
            i = i + 1;
        }
        false
    }

    /// Handles a removal event at `now_ns` for `path` (the event's first
    /// path, if any). `true` means the removal is the application's own
    /// delete, whose entry is then forgotten; expired entries are dropped
    /// first.
    pub fn check_and_consume_delete(&mut self, path: Option<&str>, now_ns: u64) -> (r: bool)
        ensures
            path is None ==> !r && final(self).deletes_view() == old(self).deletes_view(),
            path is Some ==> (final(self).deletes_view(), r) == consume_delete(
                old(self).deletes_view(),
                path.unwrap()@,
                now_ns,
            ),
            final(self).writes_view() == old(self).writes_view(),
    {
        let p = match path {
            Some(p) => p,
            None => return false,
        };
        drain_expired_deletes(&mut self.deletes, now_ns);
        let ghost d = delete_views(self.deletes@);
        let mut i: usize = 0;
        while i < self.deletes.len()
            invariant
                i <= self.deletes.len(),
                d == delete_views(self.deletes@),
                d == drain_deletes(delete_views(old(self).deletes@), now_ns),
                self.writes@ == old(self).writes@,
                path == Some(p),
                first_delete_match(d, p@, 0) == first_delete_match(d, p@, i as int),
            decreases self.deletes.len() - i,
        {
            if str_eq(self.deletes[i].path.as_str(), p) {
                assert(first_delete_match(d, p@, i as int) == Some(i as int));
                let _ = self.deletes.remove(i);
                assert(delete_views(self.deletes@) =~= d.remove(i as int));
                return true;
            }
            i = i + 1;
        }
        false
    }
}

/// Drops the expired entries at the front of the write queue.
pub fn drain_expired_writes(queue: &mut VecDeque<WriteFingerprint>, now_ns: u64)
    ensures
        write_views(final(queue)@) == drain_writes(write_views(old(queue)@), now_ns),
{
    let ghost q0 = write_views(queue@);
    while queue.len() > 0 && now_ns > queue[0].recorded_at_ns && now_ns - queue[0].recorded_at_ns
        > TTL_NS
        invariant
            drain_writes(write_views(queue@), now_ns) == drain_writes(q0, now_ns),
        decreases queue.len(),
    {
        let ghost before = write_views(queue@);
        let ghost q = queue@;
        let _ = queue.pop_front();
        assert(queue@ =~= q.drop_first());
        assert(write_views(queue@) =~= before.drop_first());
    }
}

/// Drops the expired entries at the front of the delete queue.
pub fn drain_expired_deletes(queue: &mut VecDeque<DeleteFingerprint>, now_ns: u64)
    ensures
        delete_views(final(queue)@) == drain_deletes(delete_views(old(queue)@), now_ns),
{
    let ghost q0 = delete_views(queue@);
    while queue.len() > 0 && now_ns > queue[0].recorded_at_ns && now_ns - queue[0].recorded_at_ns
        > TTL_NS
        invariant
            drain_deletes(delete_views(queue@), now_ns) == drain_deletes(q0, now_ns),
        decreases queue.len(),
    {
        let ghost before = delete_views(queue@);
        let ghost q = queue@;
        let _ = queue.pop_front();
        assert(queue@ =~= q.drop_first());
        assert(delete_views(queue@) =~= before.drop_first());
    }
}

// ---------------------------------------------------------------------------
// Laws
// ---------------------------------------------------------------------------

proof fn lemma_drain_writes_suffix(q: Seq<WriteView>, now: u64)
    ensures
        exists|k: int| 0 <= k <= q.len() && drain_writes(q, now) == q.skip(k),
    decreases q.len(),
{
    if q.len() > 0 && expired(q[0].3, now) {
        lemma_drain_writes_suffix(q.drop_first(), now);
        let k = choose|k: int|
            0 <= k <= q.drop_first().len() && drain_writes(q.drop_first(), now)
                == q.drop_first().skip(k);
        assert(q.drop_first().skip(k) =~= q.skip(k + 1));
    } else {
        assert(q.skip(0) =~= q);
    }
}

proof fn lemma_drain_keeps_fresh_last(q: Seq<WriteView>, e: WriteView, now: u64)
    requires
        !expired(e.3, now),
    ensures
        drain_writes(q.push(e), now).len() > 0,
        drain_writes(q.push(e), now).last() == e,
    decreases q.len(),
{
    if q.len() > 0 && expired(q[0].3, now) {
        assert(q.push(e).drop_first() =~= q.drop_first().push(e));
        lemma_drain_keeps_fresh_last(q.drop_first(), e, now);
    } else if q.len() == 0 {
        assert(q.push(e).drop_first() =~= Seq::<WriteView>::empty());
    }
}

proof fn lemma_first_write_match_found(
    q: Seq<WriteView>,
    path: Seq<char>,
    size: u64,
    mtime: i128,
    i: int,
    j: int,
)
    requires
        0 <= i <= j < q.len(),
        q[j].0 == path && q[j].1 == size && q[j].2 == mtime,
    ensures
        first_write_match(q, path, size, mtime, i) is Some,
    decreases j - i,
{
    if !(q[i].0 == path && q[i].1 == size && q[i].2 == mtime) {
        lemma_first_write_match_found(q, path, size, mtime, i + 1, j);
    }
}

/// A write the application records is recognised by an event with its
/// fingerprint that arrives before it expires.
pub proof fn law_recorded_write_is_recognised(
    q: Seq<WriteView>,
    path: Seq<char>,
    size: u64,
    mtime: i128,
    at: u64,
    now: u64,
)
    requires
        at <= now,
        now - at <= TTL_NS,
    ensures
        consume_write(q.push((path, size, mtime, at)), path, size, mtime, now).1,
{
    let e = (path, size, mtime, at);
    lemma_drain_keeps_fresh_last(q, e, now);
    let d = drain_writes(q.push(e), now);
    lemma_first_write_match_found(d, path, size, mtime, 0, d.len() - 1);
}

proof fn lemma_no_write_match(
    q: Seq<WriteView>,
    path: Seq<char>,
    size: u64,
    mtime: i128,
    i: int,
)
    requires
        0 <= i,
        forall|j: int| i <= j < q.len() ==> !(q[j].0 == path && q[j].1 == size && q[j].2 == mtime),
    ensures
        first_write_match(q, path, size, mtime, i) is None,
    decreases q.len() - i,
{
    if i < q.len() {
        lemma_no_write_match(q, path, size, mtime, i + 1);
    }
}

proof fn lemma_first_write_match_is_first(
    q: Seq<WriteView>,
    path: Seq<char>,
    size: u64,
    mtime: i128,
    i: int,
)
    requires
        0 <= i,
    ensures
        first_write_match(q, path, size, mtime, i) matches Some(k) ==> i <= k < q.len() && q[k].0
            == path && q[k].1 == size && q[k].2 == mtime && forall|j: int|
            i <= j < k ==> !(q[j].0 == path && q[j].1 == size && q[j].2 == mtime),
    decreases q.len() - i,
{
    if i < q.len() && !(q[i].0 == path && q[i].1 == size && q[i].2 == mtime) {
        lemma_first_write_match_is_first(q, path, size, mtime, i + 1);
    }
}

/// An event consumes one recorded write only: when a single entry with its
/// fingerprint was recorded, a second event with that fingerprint is not
/// taken for the application's own.
pub proof fn law_write_consumed_once(
    q: Seq<WriteView>,
    path: Seq<char>,
    size: u64,
    mtime: i128,
    at: u64,
    now: u64,
    later: u64,
)
    requires
        at <= now,
        now - at <= TTL_NS,
        forall|j: int| 0 <= j < q.len() ==> !(q[j].0 == path && q[j].1 == size && q[j].2 == mtime),
    ensures
        ({
            let first = consume_write(q.push((path, size, mtime, at)), path, size, mtime, now);
            first.1 && !consume_write(first.0, path, size, mtime, later).1
        }),
{
    let e = (path, size, mtime, at);
    law_recorded_write_is_recognised(q, path, size, mtime, at, now);
    let d = drain_writes(q.push(e), now);
    lemma_drain_writes_suffix(q.push(e), now);
    let k0 = choose|k: int| 0 <= k <= q.push(e).len() && d == q.push(e).skip(k);
    lemma_first_write_match_is_first(d, path, size, mtime, 0);
    let k = first_write_match(d, path, size, mtime, 0).unwrap();
    // every matching entry of d is the pushed one, the last
    assert forall|j: int| 0 <= j < d.len() && d[j].0 == path && d[j].1 == size && d[j].2
        == mtime implies j == d.len() - 1 by {
        assert(d[j] == q.push(e)[j + k0]);
        if j + k0 < q.len() {
            assert(q.push(e)[j + k0] == q[j + k0]);
        }
    }
    let rest = d.remove(k);
    assert forall|j: int| 0 <= j < rest.len() implies !(rest[j].0 == path && rest[j].1 == size
        && rest[j].2 == mtime) by {
        assert(rest[j] == d[j]);
    }
    lemma_drain_writes_suffix(rest, later);
    let k1 = choose|k: int| 0 <= k <= rest.len() && drain_writes(rest, later) == rest.skip(k);
    let d2 = drain_writes(rest, later);
    assert forall|j: int| 0 <= j < d2.len() implies !(d2[j].0 == path && d2[j].1 == size
        && d2[j].2 == mtime) by {
        assert(d2[j] == rest[j + k1]);
    }
    lemma_no_write_match(d2, path, size, mtime, 0);
}

/// With nothing recorded, no event is taken for the application's own.
pub proof fn law_empty_queues_recognise_nothing(
    path: Seq<char>,
    size: u64,
    mtime: i128,
    now: u64,
)
    ensures
        !consume_write(Seq::empty(), path, size, mtime, now).1,
        !consume_delete(Seq::empty(), path, now).1,
{
}

proof fn lemma_drain_deletes_keeps_fresh_last(q: Seq<DeleteView>, e: DeleteView, now: u64)
    requires
        !expired(e.1, now),
    ensures
        drain_deletes(q.push(e), now).len() > 0,
        drain_deletes(q.push(e), now).last() == e,
    decreases q.len(),
{
    if q.len() > 0 && expired(q[0].1, now) {
        assert(q.push(e).drop_first() =~= q.drop_first().push(e));
        lemma_drain_deletes_keeps_fresh_last(q.drop_first(), e, now);
    } else if q.len() == 0 {
        assert(q.push(e).drop_first() =~= Seq::<DeleteView>::empty());
    }
}

proof fn lemma_first_delete_match_found(q: Seq<DeleteView>, path: Seq<char>, i: int, j: int)
    requires
        0 <= i <= j < q.len(),
        q[j].0 == path,
    ensures
        first_delete_match(q, path, i) is Some,
    decreases j - i,
{
    if q[i].0 != path {
        lemma_first_delete_match_found(q, path, i + 1, j);
    }
}

/// A delete the application records is recognised by a removal event for
/// its path that arrives before it expires.
pub proof fn law_recorded_delete_is_recognised(
    q: Seq<DeleteView>,
    path: Seq<char>,
    at: u64,
    now: u64,
)
    requires
        at <= now,
        now - at <= TTL_NS,
    ensures
        consume_delete(q.push((path, at)), path, now).1,
{
    let e = (path, at);
    lemma_drain_deletes_keeps_fresh_last(q, e, now);
    let d = drain_deletes(q.push(e), now);
    lemma_first_delete_match_found(d, path, 0, d.len() - 1);
}

} // verus!
