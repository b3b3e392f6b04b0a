//! Coordination of work on the store: running jobs a few at a time, counting the
//! holders of per-key locks, and files held under such a lock.
use vstd::prelude::*;

verus! {

// ---------------------------------------------------------------------------
// Running jobs a few at a time
// ---------------------------------------------------------------------------

/// The scheduler of `count` jobs numbered from 0, at most `jobs` of them running
/// at once. Jobs start in order: those before `next` have started, the others wait.
/// `running` holds the started jobs that have not finished.
pub struct Parallel {
    pub count: usize,
    pub jobs: usize,
    pub next: usize,
    pub running: Vec<usize>,
}

impl Parallel {
    pub open spec fn wf(&self) -> bool {
        &&& self.next <= self.count
        &&& forall|i: int| 0 <= i < self.running.len() ==> #[trigger] self.running@[i] < self.next
        &&& forall|i: int, j: int|
            0 <= i < j < self.running.len() ==> self.running@[i] != self.running@[j]
    }

    /// The jobs that have finished: started and no longer running.
    pub open spec fn finished(&self) -> Set<usize> {
        Set::new(|k: usize| k < self.next && !self.running@.contains(k))
    }

    pub fn new(count: usize, jobs: usize) -> (r: Parallel)
        ensures
            r.wf(),
            r.count == count,
            r.jobs == jobs,
            r.next == 0,
            r.running@ == Seq::<usize>::empty(),
    {
        Parallel { count, jobs, next: 0, running: Vec::new() }
    }

    /// Starts waiting jobs, in order, while fewer than `jobs` are running.
    pub fn fill(&mut self)
        requires
            old(self).wf(),
        ensures
            final(self).wf(),
            final(self).count == old(self).count,
            final(self).jobs == old(self).jobs,
            old(self).next <= final(self).next,
            final(self).running@ == old(self).running@ + Seq::new(
                (final(self).next - old(self).next) as nat,
                |i: int| (old(self).next + i) as usize,
            ),
            final(self).running.len() >= final(self).jobs || final(self).next == final(self).count
                || old(self).running.len() >= old(self).jobs,
            old(self).running.len() < old(self).jobs ==> final(self).running.len() <= final(self).jobs,
            old(self).running.len() >= old(self).jobs ==> final(self).next == old(self).next,
    {
        let ghost start = self.next;
        let ghost before = self.running@;
        while self.running.len() < self.jobs && self.next < self.count
            invariant
                self.wf(),
                self.count == old(self).count,
                self.jobs == old(self).jobs,
                start == old(self).next,
                before == old(self).running@,
                start <= self.next,
                self.running@ == before + Seq::new(
                    (self.next - start) as nat,
                    |i: int| (start + i) as usize,
                ),
                old(self).running.len() < old(self).jobs ==> self.running.len() <= self.jobs,
                old(self).running.len() >= old(self).jobs ==> self.next == start,
            decreases self.count - self.next,
        {
            let n = self.next;
            self.running.push(n);
            self.next = n + 1;
            proof {
                assert(self.running@ =~= before + Seq::new(
                    (self.next - start) as nat,
                    |i: int| (start + i) as usize,
                ));
            }
        }
    }

    /// After the job at `index` of `running` was polled: a finished job's slot goes
    /// to the next waiting job, or is removed when none waits. Returns the index to
    /// poll next: the same slot when it was given to a new job or to the last
    /// running job, the following one when the job is still running.
    pub fn on_polled(&mut self, index: usize, ready: bool) -> (r: usize)
        requires
            old(self).wf(),
            index < old(self).running.len(),
        ensures
            final(self).wf(),
            final(self).count == old(self).count,
            final(self).jobs == old(self).jobs,
            !ready ==> *final(self) == *old(self) && r == index + 1,
            ready && old(self).next < old(self).count ==> final(self).running@ == old(self).running@.update(index as int, old(self).next) && final(self).next == old(self).next
                + 1 && r == index,
            ready && old(self).next == old(self).count ==> final(self).running@ == old(self).running@.update(index as int, old(self).running@.last()).drop_last()
                && final(self).next == old(self).next && r == index,
            final(self).running.len() <= old(self).running.len(),
            final(self).finished() == (if ready {
                old(self).finished().insert(old(self).running@[index as int])
            } else {
                old(self).finished()
            }),
    {
        let ghost old_finished = self.finished();
        let ghost done_job = self.running@[index as int];
        if !ready {
            return index + 1;
        }
        if self.next < self.count {
            let n = self.next;
            self.running.set(index, n);
            self.next = n + 1;
            proof {
                assert forall|k: usize| #![auto]
                    self.finished().contains(k) == old_finished.insert(done_job).contains(k) by {
                    if k < old(self).next && k != done_job {
                        if old(self).running@.contains(k) {
                            let i = choose|i: int|
                                0 <= i < old(self).running.len() && old(self).running@[i] == k;
                            assert(self.running@[i] == k);
                        }
                        if self.running@.contains(k) {
                            let i = choose|i: int|
                                0 <= i < self.running.len() && self.running@[i] == k;
                            assert(old(self).running@[i] == k);
                        }
                    }
                    if k == done_job {
                        if self.running@.contains(k) {
                            let i = choose|i: int|
                                0 <= i < self.running.len() && self.running@[i] == k;
                            assert(i != index);
                            assert(old(self).running@[i] == k);
                        }
                    }
                    if k == n {
                        assert(self.running@[index as int] == n);
                    }
                }
                assert(self.finished() =~= old_finished.insert(done_job));
            }
        } else {
            self.running.swap_remove(index);
            proof {
                let o = old(self).running@;
                assert(self.running@ =~= o.update(index as int, o.last()).drop_last());
                assert forall|k: usize| #![auto]
                    self.finished().contains(k) == old_finished.insert(done_job).contains(k) by {
                    if k < self.next && k != done_job {
                        if o.contains(k) {
                            let i = choose|i: int| 0 <= i < o.len() && o[i] == k;
                            if i == o.len() - 1 {
                                assert(self.running@[index as int] == k);
                            } else {
                                assert(i != index);
                                assert(self.running@[i] == k);
                            }
                        }
                        if self.running@.contains(k) {
                            let i = choose|i: int|
                                0 <= i < self.running.len() && self.running@[i] == k;
                            if i == index {
                                assert(o[o.len() - 1] == k);
                            } else {
                                assert(o[i] == k);
                            }
                        }
                    }
                    if k == done_job {
                        if self.running@.contains(k) {
                            let i = choose|i: int|
                                0 <= i < self.running.len() && self.running@[i] == k;
                            if i == index {
                                assert(o[o.len() - 1] == k);
                            } else {
                                assert(o[i] == k);
                            }
                        }
                    }
                }
                assert(self.finished() =~= old_finished.insert(done_job));
            }
        }
        index
    }

    /// The scheduler is done when no job waits and none runs.
    pub fn done(&self) -> (r: bool)
        ensures
            r == (self.next == self.count && self.running.len() == 0),
    {
        self.next == self.count && self.running.len() == 0
    }
}

/// When the scheduler is done, every job has run to the end.
pub proof fn lemma_done_all_finished(p: Parallel)
    requires
        p.wf(),
        p.next == p.count,
        p.running.len() == 0,
    ensures
        p.finished() == Set::new(|k: usize| k < p.count),
{
    assert(p.finished() =~= Set::new(|k: usize| k < p.count));
}

// ---------------------------------------------------------------------------
// Counting lock holders
// ---------------------------------------------------------------------------

/// For every key that has a lock, the number of guards that hold it.
pub struct LockCounts {
    pub entries: Vec<(String, usize)>,
}

pub open spec fn entry_keys(e: Seq<(String, usize)>) -> Seq<Seq<char>> {
    e.map_values(|p: (String, usize)| p.0@)
}

impl LockCounts {
    pub open spec fn wf(&self) -> bool {
        &&& forall|i: int, j: int|
            0 <= i < j < self.entries.len() ==> self.entries@[i].0@ != self.entries@[j].0@
        &&& forall|i: int| 0 <= i < self.entries.len() ==> #[trigger] self.entries@[i].1 >= 1
    }

    /// The count of each key that has a lock.
    pub open spec fn view_map(&self) -> Map<Seq<char>, nat> {
        Map::new(
            |k: Seq<char>| exists|i: int| 0 <= i < self.entries.len() && self.entries@[i].0@ == k,
            |k: Seq<char>|
                self.entries@[choose|i: int|
                    0 <= i < self.entries.len() && self.entries@[i].0@ == k].1 as nat,
        )
    }

    pub fn new() -> (r: LockCounts)
        ensures
            r.wf(),
            r.view_map() == Map::<Seq<char>, nat>::empty(),
    {
        let r = LockCounts { entries: Vec::new() };
        assert(r.view_map() =~= Map::<Seq<char>, nat>::empty());
        r
    }

    fn position(&self, key: &str) -> (r: Option<usize>)
        requires
            self.wf(),
        ensures
            match r {
                Some(i) => i < self.entries.len() && self.entries@[i as int].0@ == key@,
                None => forall|i: int|
                    0 <= i < self.entries.len() ==> self.entries@[i].0@ != key@,
            },
    {
        let target = crate::text::to_chars(key);
        let mut i: usize = 0;
        while i < self.entries.len()
            invariant
                i <= self.entries.len(),
                target@ == key@,
                forall|j: int| 0 <= j < i ==> self.entries@[j].0@ != key@,
            decreases self.entries.len() - i,
        {
            let k = crate::text::to_chars(self.entries[i].0.as_str());
            if crate::text::chars_eq(k.as_slice(), target.as_slice()) {
                return Some(i);
            }
            i = i + 1;
        }
        None
    }

    proof fn lemma_lookup(&self, i: int)
        requires
            self.wf(),
            0 <= i < self.entries.len(),
        ensures
            self.view_map().contains_key(self.entries@[i].0@),
            self.view_map()[self.entries@[i].0@] == self.entries@[i].1 as nat,
    {
        let k = self.entries@[i].0@;
        let j = choose|j: int| 0 <= j < self.entries.len() && self.entries@[j].0@ == k;
        assert(j == i);
    }

    /// A guard for `key` is being made: its count goes up, or it gets a lock with a
    /// count of one. Returns whether the lock is new.
    pub fn acquire(&mut self, key: &str) -> (created: bool)
        requires
            old(self).wf(),
            old(self).view_map().contains_key(key@) ==> old(self).view_map()[key@] < usize::MAX,
        ensures
            final(self).wf(),
            created == !old(self).view_map().contains_key(key@),
            final(self).view_map() == acquired(old(self).view_map(), key@),
    {
        match self.position(key) {
            Some(i) => {
                proof {
                    old(self).lemma_lookup(i as int);
                }
                let k = self.entries[i].0.clone();
        let c = self.entries[i].1;
                proof {
                    assert(k@ == key@);
                }
                self.entries.set(i, (k, c + 1));
                proof {
                    let m = old(self).view_map().insert(key@, old(self).view_map()[key@] + 1);
                    assert forall|x: Seq<char>| #[trigger]
                        self.view_map().contains_key(x) == m.contains_key(x) by {
                        if m.contains_key(x) && x != key@ {
                            let j = choose|j: int|
                                0 <= j < old(self).entries.len() && old(self).entries@[j].0@ == x;
                            assert(self.entries@[j].0@ == x);
                        }
                        if x == key@ {
                            assert(self.entries@[i as int].0@ == x);
                        }
                        if self.view_map().contains_key(x) {
                            let j = choose|j: int|
                                0 <= j < self.entries.len() && self.entries@[j].0@ == x;
                            assert(old(self).entries@[j].0@ == x || j == i);
                        }
                    }
                    assert forall|x: Seq<char>| #[trigger]
                        self.view_map().contains_key(x) implies self.view_map()[x] == m[x] by {
                        let j = choose|j: int|
                            0 <= j < self.entries.len() && self.entries@[j].0@ == x;
                        self.lemma_lookup(j);
                        if j != i {
                            old(self).lemma_lookup(j);
                        }
                    }
                    assert(self.view_map() =~= m);
                }
                false
            },
            None => {
                self.entries.push((key.to_owned(), 1));
                proof {
                    let m = old(self).view_map().insert(key@, 1);
                    let n = old(self).entries.len() as int;
                    assert forall|x: Seq<char>| #[trigger]
                        self.view_map().contains_key(x) == m.contains_key(x) by {
                        if m.contains_key(x) && x != key@ {
                            let j = choose|j: int|
                                0 <= j < old(self).entries.len() && old(self).entries@[j].0@ == x;
                            assert(self.entries@[j].0@ == x);
                        }
                        if x == key@ {
                            assert(self.entries@[n].0@ == x);
                        }
                        if self.view_map().contains_key(x) {
                            let j = choose|j: int|
                                0 <= j < self.entries.len() && self.entries@[j].0@ == x;
                            if j < n {
                                assert(old(self).entries@[j].0@ == x);
                            }
                        }
                    }
                    assert forall|x: Seq<char>| #[trigger]
                        self.view_map().contains_key(x) implies self.view_map()[x] == m[x] by {
                        let j = choose|j: int|
                            0 <= j < self.entries.len() && self.entries@[j].0@ == x;
                        self.lemma_lookup(j);
                        if j < n {
                            old(self).lemma_lookup(j);
                        }
                    }
                    assert(self.view_map() =~= m);
                }
                true
            },
        }
    }

    /// A guard for `key` is dropped: its count goes down, and the lock goes away
    /// with its last guard. Returns whether the lock went away.
    pub fn release(&mut self, key: &str) -> (removed: bool)
        requires
            old(self).wf(),
            old(self).view_map().contains_key(key@),
        ensures
            final(self).wf(),
            removed == (old(self).view_map()[key@] == 1),
            final(self).view_map() == released(old(self).view_map(), key@),
    {
        let i = match self.position(key) {
            Some(i) => i,
            None => {
                proof {
                    let j = choose|j: int|
                        0 <= j < old(self).entries.len() && old(self).entries@[j].0@ == key@;
                }
                return false;
            },
        };
        proof {
            old(self).lemma_lookup(i as int);
        }
        let k = self.entries[i].0.clone();
        let c = self.entries[i].1;
        if c > 1 {
            self.entries.set(i, (k, c - 1));
            proof {
                let m = old(self).view_map().insert(key@, (old(self).view_map()[key@] - 1) as nat);
                assert forall|x: Seq<char>| #[trigger]
                    self.view_map().contains_key(x) == m.contains_key(x) by {
                    if m.contains_key(x) && x != key@ {
                        let j = choose|j: int|
                            0 <= j < old(self).entries.len() && old(self).entries@[j].0@ == x;
                        assert(self.entries@[j].0@ == x);
                    }
                    if x == key@ {
                        assert(self.entries@[i as int].0@ == x);
                    }
                    if self.view_map().contains_key(x) {
                        let j = choose|j: int|
                            0 <= j < self.entries.len() && self.entries@[j].0@ == x;
                        assert(old(self).entries@[j].0@ == x || j == i);
                    }
                }
                assert forall|x: Seq<char>| #[trigger]
                    self.view_map().contains_key(x) implies self.view_map()[x] == m[x] by {
                    let j = choose|j: int| 0 <= j < self.entries.len() && self.entries@[j].0@ == x;
                    self.lemma_lookup(j);
                    if j != i {
                        old(self).lemma_lookup(j);
                    }
                }
                assert(self.view_map() =~= m);
            }
            false
        } else {
            self.entries.swap_remove(i);
            proof {
                let o = old(self).entries@;
                let m = old(self).view_map().remove(key@);
                assert forall|x: Seq<char>| #[trigger]
                    self.view_map().contains_key(x) == m.contains_key(x) by {
                    if m.contains_key(x) {
                        let j = choose|j: int| 0 <= j < o.len() && o[j].0@ == x;
                        assert(j != i);
                        if j == o.len() - 1 {
                            assert(self.entries@[i as int].0@ == x);
                        } else {
                            assert(self.entries@[j].0@ == x);
                        }
                    }
                    if self.view_map().contains_key(x) {
                        let j = choose|j: int|
                            0 <= j < self.entries.len() && self.entries@[j].0@ == x;
                        if j == i {
                            assert(o[o.len() - 1].0@ == x);
                        } else {
                            assert(o[j].0@ == x);
                        }
                    }
                }
                assert forall|x: Seq<char>| #[trigger]
                    self.view_map().contains_key(x) implies self.view_map()[x] == m[x] by {
                    let j = choose|j: int| 0 <= j < self.entries.len() && self.entries@[j].0@ == x;
                    self.lemma_lookup(j);
                    if j == i {
                        old(self).lemma_lookup(o.len() - 1);
                    } else {
                        old(self).lemma_lookup(j);
                    }
                }
                assert(self.view_map() =~= m);
            }
            true
        }
    }
}

/// The counts after a guard for `k` is made.
pub open spec fn acquired(m: Map<Seq<char>, nat>, k: Seq<char>) -> Map<Seq<char>, nat> {
    m.insert(
        k,
        if m.contains_key(k) {
            m[k] + 1
        } else {
            1
        },
    )
}

/// The counts after a guard for `k` is dropped.
pub open spec fn released(m: Map<Seq<char>, nat>, k: Seq<char>) -> Map<Seq<char>, nat> {
    if m[k] == 1 {
        m.remove(k)
    } else {
        m.insert(k, (m[k] - 1) as nat)
    }
}

/// Every lock has at least one guard.
pub open spec fn counts_valid(m: Map<Seq<char>, nat>) -> bool {
    forall|k: Seq<char>| #[trigger] m.contains_key(k) ==> m[k] >= 1
}

/// Dropping a guard right after making one leaves every lock count as it was, and
/// the counts stay valid throughout.
pub proof fn lemma_release_undoes_acquire(m: Map<Seq<char>, nat>, k: Seq<char>)
    requires
        counts_valid(m),
    ensures
        counts_valid(acquired(m, k)),
        released(acquired(m, k), k) == m,
{
    let a = acquired(m, k);
    assert(released(a, k) =~= m);
}

// ---------------------------------------------------------------------------
// Files held under a lock
// ---------------------------------------------------------------------------

/// Operations on the store that could not get their lock in time.
#[derive(Debug, Clone, Copy, PartialEq, Eq, Structural)]
pub struct Timeout;

/// The last component of a path, as `std::path::Path::file_name` reads it.
pub uninterp spec fn path_file_name(p: Seq<char>) -> Option<Seq<char>>;

/// The stem of a file name: the part before its last `.`, or the whole name when it
/// has no `.` other than a leading one.
pub open spec fn stem_of(name: Seq<char>) -> Seq<char> {
    if name == ".."@ {
        name
    } else {
        match last_dot(name, name.len() as int) {
            None => name,
            Some(i) => if i == 0 {
                name
            } else {
                name.take(i)
            },
        }
    }
}

/// The index of the last `.` before `end`.
pub open spec fn last_dot(name: Seq<char>, end: int) -> Option<int>
    decreases end,
{
    if end <= 0 {
        None
    } else if name[end - 1] == '.' {
        Some(end - 1)
    } else {
        last_dot(name, end - 1)
    }
}

/// Calls `std::path::Path::file_stem` and reads the stem as text. The
/// documentation says that the stem is taken from `file_name`: none without a file
/// name; the whole name when it has no `.` or only a leading one; the part before
/// its last `.` otherwise. Which component `file_name` picks is left to the name
/// `path_file_name`.
#[verifier::external_body]
fn path_file_stem(p: &str) -> (r: Option<&str>)
    ensures
        match path_file_name(p@) {
            None => r is None,
            Some(name) => r matches Some(s) && s@ == stem_of(name),
        },
{
    std::path::Path::new(p).file_stem().and_then(|s| s.to_str())
}

/// A file in the store, held under a read lock. The lock itself stays with the
/// code that opens files.
pub struct LockedFile {
    pub path: String,
}

impl LockedFile {
    pub fn new(path: String) -> (r: LockedFile)
        ensures
            r.path == path,
    {
        LockedFile { path }
    }

    /// The stem of the file's name; there must be a file name.
    pub fn file_name(&self) -> (r: &str)
        requires
            path_file_name(self.path@) is Some,
        ensures
            r@ == stem_of(path_file_name(self.path@)->0),
    {
        match path_file_stem(self.path.as_str()) {
            Some(s) => s,
            None => "",
        }
    }

    /// The stem of the file's name, `None` when the path has no file name.
    pub fn try_file_name(&self) -> (r: Option<&str>)
        ensures
            match path_file_name(self.path@) {
                None => r is None,
                Some(name) => r matches Some(s) && s@ == stem_of(name),
            },
    {
        match path_file_stem(self.path.as_str()) {
            Some(_) => Some(self.file_name()),
            None => None,
        }
    }
}

} // verus!
