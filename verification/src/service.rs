//! Rules of the progress service: who holds the lock on a reading progress,
//! and where files are kept.

use vstd::prelude::*;
use vstd::string::*;

use crate::text::chars_of;

verus! {

broadcast use vstd::string::group_string_axioms;

// ---------------------------------------------------------------------------
// Files
// ---------------------------------------------------------------------------

/// The part of a path after its last `/` (the whole path when it has none).
pub open spec fn last_segment(s: Seq<char>) -> Seq<char>
    decreases s.len(),
{
    if s.len() == 0 {
        s
    } else if s.last() == '/' {
        Seq::empty()
    } else {
        last_segment(s.drop_last()).push(s.last())
    }
}

proof fn lemma_last_segment_from(s: Seq<char>, k: int)
    requires
        0 <= k <= s.len(),
        forall|j: int| k <= j < s.len() ==> s[j] != '/',
        k == 0 || s[k - 1] == '/',
    ensures
        last_segment(s) == s.skip(k),
    decreases s.len(),
{
    if s.len() > k {
        lemma_last_segment_from(s.drop_last(), k);
        assert(s.skip(k) =~= s.drop_last().skip(k).push(s.last()));
    } else if k > 0 {
        assert(s.skip(k) =~= Seq::<char>::empty());
    } else {
        assert(s.skip(k) =~= s);
    }
}

/// The file name that the service keeps a file under: what follows the last
/// `/` of the requested path, so that no request reaches outside the data
/// directory.
pub fn safe_file_name(path: &str) -> (r: String)
    ensures
        r@ == last_segment(path@),
{
    let cs = chars_of(path);
    let mut k: usize = cs.len();
    while k > 0 && cs[k - 1] != '/'
        invariant
            cs@ == path@,
            k <= cs.len(),
            forall|j: int| k <= j < cs.len() ==> cs@[j] != '/',
        decreases k,
    {
        k = k - 1;
    }
    proof {
        lemma_last_segment_from(path@, k as int);
    }
    let name = path.substring_char(k, cs.len());
    assert(name@ =~= path@.skip(k as int));
    name.to_owned()
}

/// Where the service keeps a file: `test-data/` and the file's safe name.
pub fn safe_data_path(path: &str) -> (r: String)
    ensures
        r@ == "test-data/"@ + last_segment(path@),
{
    let name = safe_file_name(path);
    let mut r = String::new();
    r.append("test-data/");
    r.append(name.as_str());
    r
}

/// A safe file name holds no `/` and ends the requested path.
pub proof fn law_safe_name_has_no_separator(path: Seq<char>)
    ensures
        !last_segment(path).contains('/'),
        path.len() >= last_segment(path).len(),
        path.skip(path.len() - last_segment(path).len()) == last_segment(path),
    decreases path.len(),
{
    if path.len() > 0 {
        law_safe_name_has_no_separator(path.drop_last());
        let r = last_segment(path.drop_last());
        if path.last() != '/' {
            assert forall|j: int| 0 <= j < r.len() + 1 implies r.push(path.last())[j] != '/' by {
                if j < r.len() {
                    assert(r.push(path.last())[j] == r[j]);
                    assert(!r.contains('/'));
                    if r[j] == '/' {
                        assert(r.contains(r[j]));
                    }
                }
            }
            assert(path.skip(path.len() - r.len() - 1) =~= path.drop_last().skip(
                path.drop_last().len() - r.len(),
            ).push(path.last()));
        } else {
            assert(path.skip(path.len() as int) =~= Seq::<char>::empty());
        }
    } else {
        assert(path.skip(0) =~= path);
    }
}

// ---------------------------------------------------------------------------
// Locks on reading progress
// ---------------------------------------------------------------------------

/// How long a lock lasts: 15 minutes, in nanoseconds.
pub const LOCK_DURATION: i64 = 900_000_000_000i64;

/// A lock: the progress it is on, who holds it, and until when (nanoseconds
/// since the Unix epoch).
pub struct LockEntry {
    pub progress_id: u128,
    pub holder: String,
    pub expiry: i64,
}

/// The locks the service has granted.
pub struct LockTable {
    pub locks: Vec<LockEntry>,
}

/// The locks that have not expired at `now`, in order.
pub open spec fn live_locks(s: Seq<LockEntry>, now: i64) -> Seq<LockEntry>
    decreases s.len(),
{
    if s.len() == 0 {
        s
    } else if s.last().expiry > now {
        live_locks(s.drop_last(), now).push(s.last())
    } else {
        live_locks(s.drop_last(), now)
    }
}

/// The first lock on a progress at or after position `i`.
pub open spec fn first_lock_from(s: Seq<LockEntry>, id: u128, i: int) -> Option<int>
    decreases s.len() - i,
{
    if i < 0 || i >= s.len() {
        None
    } else if s[i].progress_id == id {
        Some(i)
    } else {
        first_lock_from(s, id, i + 1)
    }
}

/// The first lock on a progress.
pub open spec fn lock_index(s: Seq<LockEntry>, id: u128) -> Option<int> {
    first_lock_from(s, id, 0)
}

/// The first lock on a progress held by `holder`, at or after position `i`.
pub open spec fn held_lock_from(s: Seq<LockEntry>, id: u128, holder: Seq<char>, i: int) -> Option<
    int,
>
    decreases s.len() - i,
{
    if i < 0 || i >= s.len() {
        None
    } else if s[i].progress_id == id && s[i].holder@ == holder {
        Some(i)
    } else {
        held_lock_from(s, id, holder, i + 1)
    }
}

/// The first lock on a progress held by `holder`.
pub open spec fn held_lock(s: Seq<LockEntry>, id: u128, holder: Seq<char>) -> Option<int> {
    held_lock_from(s, id, holder, 0)
}

/// The locks without those on a progress held by `holder`.
pub open spec fn without_lock(s: Seq<LockEntry>, id: u128, holder: Seq<char>) -> Seq<LockEntry>
    decreases s.len(),
{
    if s.len() == 0 {
        s
    } else if s.last().progress_id == id && s.last().holder@ == holder {
        without_lock(s.drop_last(), id, holder)
    } else {
        without_lock(s.drop_last(), id, holder).push(s.last())
    }
}

/// No progress has two locks.
pub open spec fn one_lock_per_progress(s: Seq<LockEntry>) -> bool {
    forall|i: int, j: int|
        0 <= i < s.len() && 0 <= j < s.len() && i != j ==> s[i].progress_id != s[j].progress_id
}

/// The locks after a request by `user` for the lock on progress `id` at
/// `now`, and the answer: the new lock's expiry, or the holder who has it.
/// Expired locks are dropped first; a user who holds the lock gets it again.
pub open spec fn acquire_step(s: Seq<LockEntry>, id: u128, user: String, now: i64) -> (
    Seq<LockEntry>,
    Result<i64, String>,
) {
    let live = live_locks(s, now);
    let expiry = (now + LOCK_DURATION) as i64;
    let fresh = LockEntry { progress_id: id, holder: user, expiry };
    match lock_index(live, id) {
        Some(k) => if live[k].holder@ != user@ {
            (live, Err(live[k].holder))
        } else {
            (without_lock(live, id, user@).push(fresh), Ok(expiry))
        },
        None => (live.push(fresh), Ok(expiry)),
    }
}

proof fn lemma_live_locks(s: Seq<LockEntry>, now: i64)
    ensures
        forall|i: int|
            #![trigger live_locks(s, now)[i]]
            0 <= i < live_locks(s, now).len() ==> live_locks(s, now)[i].expiry > now && s.contains(
                live_locks(s, now)[i],
            ),
        forall|i: int| 0 <= i < s.len() && s[i].expiry > now ==> live_locks(s, now).contains(
            #[trigger] s[i],
        ),
        one_lock_per_progress(s) ==> one_lock_per_progress(live_locks(s, now)),
    decreases s.len(),
{
    if s.len() > 0 {
        let d = s.drop_last();
        lemma_live_locks(d, now);
        let r = live_locks(d, now);
        assert forall|i: int|
            #![trigger live_locks(s, now)[i]]
            0 <= i < live_locks(s, now).len() implies live_locks(s, now)[i].expiry > now
                && s.contains(live_locks(s, now)[i]) by {
            if i < r.len() {
                assert(live_locks(s, now)[i] == r[i]);
                assert(r[i] == live_locks(d, now)[i]);
                assert(d.contains(r[i]));
                let k = choose|k: int| 0 <= k < d.len() && d[k] == r[i];
                assert(s[k] == d[k]);
            } else {
                assert(s[s.len() - 1] == s.last());
            }
        }
        assert forall|i: int| 0 <= i < s.len() && s[i].expiry > now implies live_locks(
            s,
            now,
        ).contains(#[trigger] s[i]) by {
            if i < s.len() - 1 {
                assert(s[i] == d[i]);
                let k = choose|k: int| 0 <= k < r.len() && r[k] == d[i];
                if s.last().expiry > now {
                    assert(r.push(s.last())[k] == r[k]);
                }
            } else {
                assert(r.push(s.last())[r.len() as int] == s.last());
            }
        }
        if one_lock_per_progress(s) {
            assert(one_lock_per_progress(d)) by {
                assert forall|i: int, j: int|
                    0 <= i < d.len() && 0 <= j < d.len() && i != j implies d[i].progress_id
                    != d[j].progress_id by {
                    assert(d[i] == s[i] && d[j] == s[j]);
                }
            }
            if s.last().expiry > now {
                let l = r.push(s.last());
                assert forall|i: int, j: int|
                    0 <= i < l.len() && 0 <= j < l.len() && i != j implies l[i].progress_id
                    != l[j].progress_id by {
                    if i < r.len() && j < r.len() {
                        assert(l[i] == r[i] && l[j] == r[j]);
                    } else if i < r.len() {
                        assert(l[i] == r[i]);
                        let k = choose|k: int| 0 <= k < d.len() && d[k] == r[i];
                        assert(s[k] == d[k]);
                        assert(l[j] == s[s.len() - 1]);
                    } else if j < r.len() {
                        assert(l[j] == r[j]);
                        let k = choose|k: int| 0 <= k < d.len() && d[k] == r[j];
                        assert(s[k] == d[k]);
                        assert(l[i] == s[s.len() - 1]);
                    }
                }
            }
        }
    }
}

proof fn lemma_first_lock_from(s: Seq<LockEntry>, id: u128, i: int)
    requires
        0 <= i,
    ensures
        first_lock_from(s, id, i) matches Some(k) ==> i <= k < s.len() && s[k].progress_id == id
            && forall|j: int| i <= j < k ==> s[j].progress_id != id,
        first_lock_from(s, id, i) is None ==> forall|j: int|
            i <= j < s.len() ==> s[j].progress_id != id,
    decreases s.len() - i,
{
    if i < s.len() && s[i].progress_id != id {
        lemma_first_lock_from(s, id, i + 1);
    }
}

proof fn lemma_held_lock_from(s: Seq<LockEntry>, id: u128, holder: Seq<char>, i: int)
    requires
        0 <= i,
    ensures
        held_lock_from(s, id, holder, i) matches Some(k) ==> i <= k < s.len() && s[k].progress_id
            == id && s[k].holder@ == holder,
        held_lock_from(s, id, holder, i) is None ==> forall|j: int|
            i <= j < s.len() ==> !(s[j].progress_id == id && s[j].holder@ == holder),
    decreases s.len() - i,
{
    if i < s.len() && !(s[i].progress_id == id && s[i].holder@ == holder) {
        lemma_held_lock_from(s, id, holder, i + 1);
    }
}

proof fn lemma_without_lock(s: Seq<LockEntry>, id: u128, holder: Seq<char>)
    ensures
        forall|i: int|
            #![trigger without_lock(s, id, holder)[i]]
            0 <= i < without_lock(s, id, holder).len() ==> s.contains(without_lock(s, id, holder)[i])
                && !(without_lock(s, id, holder)[i].progress_id == id && without_lock(
                s,
                id,
                holder,
            )[i].holder@ == holder),
        one_lock_per_progress(s) ==> one_lock_per_progress(without_lock(s, id, holder)),
    decreases s.len(),
{
    if s.len() > 0 {
        let d = s.drop_last();
        lemma_without_lock(d, id, holder);
        let r = without_lock(d, id, holder);
        assert forall|i: int|
            #![trigger without_lock(s, id, holder)[i]]
            0 <= i < without_lock(s, id, holder).len() implies s.contains(
                without_lock(s, id, holder)[i],
            ) && !(without_lock(s, id, holder)[i].progress_id == id && without_lock(
                s,
                id,
                holder,
            )[i].holder@ == holder) by {
            if i < r.len() {
                assert(without_lock(s, id, holder)[i] == r[i]);
                assert(r[i] == without_lock(d, id, holder)[i]);
                assert(d.contains(r[i]));
                let k = choose|k: int| 0 <= k < d.len() && d[k] == r[i];
                assert(s[k] == d[k]);
            } else {
                assert(s[s.len() - 1] == s.last());
            }
        }
        if one_lock_per_progress(s) {
            assert(one_lock_per_progress(d)) by {
                assert forall|i: int, j: int|
                    0 <= i < d.len() && 0 <= j < d.len() && i != j implies d[i].progress_id
                    != d[j].progress_id by {
                    assert(d[i] == s[i] && d[j] == s[j]);
                }
            }
            if !(s.last().progress_id == id && s.last().holder@ == holder) {
                let l = r.push(s.last());
                assert forall|i: int, j: int|
                    0 <= i < l.len() && 0 <= j < l.len() && i != j implies l[i].progress_id
                    != l[j].progress_id by {
                    if i < r.len() && j < r.len() {
                        assert(l[i] == r[i] && l[j] == r[j]);
                    } else if i < r.len() {
                        assert(l[i] == r[i]);
                        let k = choose|k: int| 0 <= k < d.len() && d[k] == r[i];
                        assert(s[k] == d[k]);
                        assert(l[j] == s[s.len() - 1]);
                    } else if j < r.len() {
                        assert(l[j] == r[j]);
                        let k = choose|k: int| 0 <= k < d.len() && d[k] == r[j];
                        assert(s[k] == d[k]);
                        assert(l[i] == s[s.len() - 1]);
                    }
                }
            }
        }
    }
}

fn copy_entry(e: &LockEntry) -> (r: LockEntry)
    ensures
        r == *e,
{
    LockEntry { progress_id: e.progress_id, holder: e.holder.clone(), expiry: e.expiry }
}

impl LockTable {
    /// A table without locks.
    pub fn new() -> (t: Self)
        ensures
            t.locks@.len() == 0,
    {
        LockTable { locks: Vec::new() }
    }

    pub open spec fn wf(&self) -> bool {
        one_lock_per_progress(self.locks@)
    }

    fn drop_expired(&mut self, now: i64)
        ensures
            final(self).locks@ == live_locks(old(self).locks@, now),
    {
        let mut kept: Vec<LockEntry> = Vec::new();
        let mut i: usize = 0;
        while i < self.locks.len()
            invariant
                i <= self.locks.len(),
                self.locks@ == old(self).locks@,
                kept@ == live_locks(self.locks@.take(i as int), now),
            decreases self.locks.len() - i,
        {
            assert(self.locks@.take(i + 1).drop_last() =~= self.locks@.take(i as int));
            if self.locks[i].expiry > now {
                kept.push(copy_entry(&self.locks[i]));
            }
            i = i + 1;
        }
        assert(self.locks@.take(self.locks.len() as int) =~= self.locks@);
        self.locks = kept;
    }

    fn find_lock(&self, progress_id: u128) -> (r: Option<usize>)
        ensures
            r is None <==> lock_index(self.locks@, progress_id) is None,
            r matches Some(k) ==> lock_index(self.locks@, progress_id) == Some(k as int),
    {
        proof {
            lemma_first_lock_from(self.locks@, progress_id, 0);
        }
        let mut i: usize = 0;
        while i < self.locks.len()
            invariant
                i <= self.locks.len(),
                lock_index(self.locks@, progress_id) == first_lock_from(
                    self.locks@,
                    progress_id,
                    i as int,
                ),
            decreases self.locks.len() - i,
        {
            if self.locks[i].progress_id == progress_id {
                return Some(i);
            }
            i = i + 1;
        }
        None
    }

    fn find_held(&self, progress_id: u128, user: &String) -> (r: Option<usize>)
        ensures
            r is None <==> held_lock(self.locks@, progress_id, user@) is None,
            r matches Some(k) ==> held_lock(self.locks@, progress_id, user@) == Some(k as int),
    {
        let mut i: usize = 0;
        while i < self.locks.len()
            invariant
                i <= self.locks.len(),
                held_lock(self.locks@, progress_id, user@) == held_lock_from(
                    self.locks@,
                    progress_id,
                    user@,
                    i as int,
                ),
            decreases self.locks.len() - i,
        {
            if self.locks[i].progress_id == progress_id && self.locks[i].holder == *user {
                return Some(i);
            }
            i = i + 1;
        }
        None
    }

    fn drop_held(&mut self, progress_id: u128, user: &String)
        ensures
            final(self).locks@ == without_lock(old(self).locks@, progress_id, user@),
    {
        let mut kept: Vec<LockEntry> = Vec::new();
        let mut i: usize = 0;
        while i < self.locks.len()
            invariant
                i <= self.locks.len(),
                self.locks@ == old(self).locks@,
                kept@ == without_lock(self.locks@.take(i as int), progress_id, user@),
            decreases self.locks.len() - i,
        {
            assert(self.locks@.take(i + 1).drop_last() =~= self.locks@.take(i as int));
            if !(self.locks[i].progress_id == progress_id && self.locks[i].holder == *user) {
                kept.push(copy_entry(&self.locks[i]));
            }
            i = i + 1;
        }
        assert(self.locks@.take(self.locks.len() as int) =~= self.locks@);
        self.locks = kept;
    }

    /// A request by `user` at `now` for the lock on a progress: expired locks
    /// are dropped; when another user holds the lock the answer is that
    /// holder; else the user gets the lock for 15 minutes and the answer is
    /// its expiry.
    pub fn acquire(&mut self, progress_id: u128, user: &String, now: i64) -> (r: Result<
        i64,
        String,
    >)
        requires
            old(self).wf(),
            now <= i64::MAX - LOCK_DURATION,
        ensures
            final(self).wf(),
            (final(self).locks@, r) == acquire_step(old(self).locks@, progress_id, *user, now),
    {
        self.drop_expired(now);
        let ghost live = self.locks@;
        proof {
            lemma_live_locks(old(self).locks@, now);
            lemma_first_lock_from(live, progress_id, 0);
        }
        let expiry = now + LOCK_DURATION;
        match self.find_lock(progress_id) {
            Some(k) => {
                assert(lock_index(live, progress_id) == Some(k as int));
                if self.locks[k].holder != *user {
                    let h = self.locks[k].holder.clone();
                    assert(live[k as int].holder@ != user@);
                    assert(h == live[k as int].holder);
                    return Err(h);
                }
                proof {
                    lemma_without_lock(live, progress_id, user@);
                }
                self.drop_held(progress_id, user);
                let ghost before = self.locks@;
                assert(before == without_lock(live, progress_id, user@));
                self.locks.push(LockEntry { progress_id, holder: user.clone(), expiry });
                proof {
                    assert forall|i: int, j: int|
                        0 <= i < self.locks@.len() && 0 <= j < self.locks@.len() && i != j
                            implies self.locks@[i].progress_id != self.locks@[j].progress_id by {
                        if i < before.len() && j < before.len() {
                            assert(self.locks@[i] == before[i] && self.locks@[j] == before[j]);
                        } else {
                            let o = if i < before.len() {
                                i
                            } else {
                                j
                            };
                            assert(self.locks@[o] == before[o]);
                            assert(before[o] == without_lock(live, progress_id, user@)[o]);
                            assert(live.contains(before[o]));
                            let q = choose|q: int| 0 <= q < live.len() && live[q] == before[o];
                            if before[o].progress_id == progress_id {
                                assert(q != k);
                                assert(live[q].progress_id == live[k as int].progress_id);
                            }
                        }
                    }
                }
                Ok(expiry)
            },
            None => {
                let ghost before = self.locks@;
                self.locks.push(LockEntry { progress_id, holder: user.clone(), expiry });
                proof {
                    assert forall|i: int, j: int|
                        0 <= i < self.locks@.len() && 0 <= j < self.locks@.len() && i != j
                            implies self.locks@[i].progress_id != self.locks@[j].progress_id by {
                        if i < before.len() && j < before.len() {
                            assert(self.locks@[i] == before[i] && self.locks@[j] == before[j]);
                        } else if i < before.len() {
                            assert(self.locks@[i] == before[i]);
                        } else {
                            assert(self.locks@[j] == before[j]);
                        }
                    }
                }
                Ok(expiry)
            },
        }
    }

    /// Gives up the lock that `user` holds on a progress; says whether the
    /// user held it.
    pub fn release(&mut self, progress_id: u128, user: &String) -> (r: bool)
        requires
            old(self).wf(),
        ensures
            final(self).wf(),
            match held_lock(old(self).locks@, progress_id, user@) {
                Some(k) => r && final(self).locks@ == old(self).locks@.remove(k),
                None => !r && final(self).locks@ == old(self).locks@,
            },
    {
        proof {
            lemma_held_lock_from(self.locks@, progress_id, user@, 0);
        }
        match self.find_held(progress_id, user) {
            Some(k) => {
                let ghost before = self.locks@;
                self.locks.remove(k);
                assert(self.locks@ == before.remove(k as int));
                proof {
                    assert forall|i: int, j: int|
                        0 <= i < self.locks@.len() && 0 <= j < self.locks@.len() && i != j
                            implies self.locks@[i].progress_id != self.locks@[j].progress_id by {
                        let bi = if i < k {
                            i
                        } else {
                            i + 1
                        };
                        let bj = if j < k {
                            j
                        } else {
                            j + 1
                        };
                        assert(self.locks@[i] == before[bi] && self.locks@[j] == before[bj]);
                    }
                }
                true
            },
            None => false,
        }
    }

    /// Whether `user` holds a lock on the progress.
    pub fn holds_lock(&self, progress_id: u128, user: &String) -> (r: bool)
        ensures
            r == (held_lock(self.locks@, progress_id, user@) is Some),
    {
        self.find_held(progress_id, user).is_some()
    }
}

// ---------------------------------------------------------------------------
// Laws
// ---------------------------------------------------------------------------

proof fn lemma_no_held_lock(s: Seq<LockEntry>, id: u128, holder: Seq<char>, i: int)
    requires
        0 <= i,
        forall|j: int| i <= j < s.len() ==> s[j].progress_id != id,
    ensures
        held_lock_from(s, id, holder, i) is None,
    decreases s.len() - i,
{
    if i < s.len() {
        lemma_no_held_lock(s, id, holder, i + 1);
    }
}

/// After a granted request, the new lock is the last entry and the only one
/// on its progress.
proof fn lemma_granted_lock_is_last(s: Seq<LockEntry>, id: u128, owner: String, now: i64)
    requires
        one_lock_per_progress(s),
        acquire_step(s, id, owner, now).1 is Ok,
    ensures
        ({
            let s1 = acquire_step(s, id, owner, now).0;
            &&& s1.len() > 0
            &&& s1.last() == LockEntry {
                progress_id: id,
                holder: owner,
                expiry: (now + LOCK_DURATION) as i64,
            }
            &&& forall|j: int| 0 <= j < s1.len() - 1 ==> s1[j].progress_id != id
        }),
{
    let s1 = acquire_step(s, id, owner, now).0;
    let live = live_locks(s, now);
    lemma_live_locks(s, now);
    lemma_first_lock_from(live, id, 0);
    let fresh = LockEntry { progress_id: id, holder: owner, expiry: (now + LOCK_DURATION) as i64 };
    let base = if lock_index(live, id) is Some {
        without_lock(live, id, owner@)
    } else {
        live
    };
    if lock_index(live, id) is Some {
        lemma_without_lock(live, id, owner@);
    }
    assert(s1 == base.push(fresh));
    assert forall|j: int| 0 <= j < s1.len() - 1 implies s1[j].progress_id != id by {
        assert(s1[j] == base[j]);
        if lock_index(live, id) is Some {
            let k = lock_index(live, id)->0;
            assert(live.contains(base[j]));
            let q = choose|q: int| 0 <= q < live.len() && live[q] == base[j];
            if base[j].progress_id == id {
                assert(q != k);
            }
        } else {
            assert(base[j] == live[j]);
        }
    }
}

/// The locks without any lock on progress `id`.
pub open spec fn without_progress(s: Seq<LockEntry>, id: u128) -> Seq<LockEntry>
    decreases s.len(),
{
    if s.len() == 0 {
        s
    } else if s.last().progress_id == id {
        without_progress(s.drop_last(), id)
    } else {
        without_progress(s.drop_last(), id).push(s.last())
    }
}

proof fn lemma_without_lock_of_holder(s: Seq<LockEntry>, id: u128, holder: Seq<char>)
    requires
        forall|j: int| 0 <= j < s.len() && s[j].progress_id == id ==> s[j].holder@ == holder,
    ensures
        without_lock(s, id, holder) == without_progress(s, id),
    decreases s.len(),
{
    if s.len() > 0 {
        assert forall|j: int|
            0 <= j < s.drop_last().len() && s.drop_last()[j].progress_id == id implies s.drop_last()[j].holder@
            == holder by {
            assert(s.drop_last()[j] == s[j]);
        }
        lemma_without_lock_of_holder(s.drop_last(), id, holder);
        assert(s.last() == s[s.len() - 1]);
    }
}

proof fn lemma_without_progress_absent(s: Seq<LockEntry>, id: u128)
    requires
        forall|j: int| 0 <= j < s.len() ==> s[j].progress_id != id,
    ensures
        without_progress(s, id) == s,
    decreases s.len(),
{
    if s.len() > 0 {
        assert forall|j: int| 0 <= j < s.drop_last().len() implies s.drop_last()[j].progress_id
            != id by {
            assert(s.drop_last()[j] == s[j]);
        }
        lemma_without_progress_absent(s.drop_last(), id);
        assert(s.last() == s[s.len() - 1]);
        assert(s.drop_last().push(s.last()) =~= s);
    } else {
        assert(without_progress(s, id) =~= s);
    }
}

/// A granted request leaves the live locks without any lock on the progress,
/// plus the new lock for the user, 15 minutes from `now`; the answer is that
/// expiry, and still no progress has two locks.
pub proof fn law_acquire_grants_one_lock(s: Seq<LockEntry>, id: u128, user: String, now: i64)
    requires
        one_lock_per_progress(s),
        acquire_step(s, id, user, now).1 is Ok,
    ensures
        acquire_step(s, id, user, now).0 == without_progress(live_locks(s, now), id).push(
            LockEntry { progress_id: id, holder: user, expiry: (now + LOCK_DURATION) as i64 },
        ),
        acquire_step(s, id, user, now).1 == Ok::<i64, String>((now + LOCK_DURATION) as i64),
        one_lock_per_progress(acquire_step(s, id, user, now).0),
{
    let s1 = acquire_step(s, id, user, now).0;
    let live = live_locks(s, now);
    lemma_live_locks(s, now);
    lemma_first_lock_from(live, id, 0);
    lemma_granted_lock_is_last(s, id, user, now);
    match lock_index(live, id) {
        Some(k) => {
            assert forall|j: int| 0 <= j < live.len() && live[j].progress_id == id implies live[j].holder@
                == user@ by {
                if j != k {
                    assert(live[j].progress_id != live[k].progress_id);
                }
            }
            lemma_without_lock_of_holder(live, id, user@);
            lemma_without_lock(live, id, user@);
        },
        None => {
            lemma_without_progress_absent(live, id);
        },
    }
    let base = s1.drop_last();
    assert(s1 == base.push(s1.last()));
    assert(one_lock_per_progress(base)) by {
        assert forall|i: int, j: int|
            0 <= i < base.len() && 0 <= j < base.len() && i != j implies base[i].progress_id
            != base[j].progress_id by {
            if lock_index(live, id) is Some {
                let w = without_lock(live, id, user@);
                assert(s1 == w.push(s1.last()));
                assert(base =~= w);
            } else {
                assert(base =~= live);
            }
        }
    }
    assert forall|i: int, j: int|
        0 <= i < s1.len() && 0 <= j < s1.len() && i != j implies s1[i].progress_id
        != s1[j].progress_id by {
        if i < base.len() && j < base.len() {
            assert(s1[i] == base[i] && s1[j] == base[j]);
        }
    }
}

/// While a lock has not expired, nobody else gets it: the answer names the
/// holder.
pub proof fn law_lock_is_exclusive(
    s: Seq<LockEntry>,
    id: u128,
    owner: String,
    other: String,
    t1: i64,
    t2: i64,
)
    requires
        one_lock_per_progress(s),
        t1 <= i64::MAX - LOCK_DURATION,
        acquire_step(s, id, owner, t1).1 is Ok,
        t2 < t1 + LOCK_DURATION,
        other@ != owner@,
    ensures
        acquire_step(acquire_step(s, id, owner, t1).0, id, other, t2).1 matches Err(h) && h@
            == owner@,
{
    let s1 = acquire_step(s, id, owner, t1).0;
    lemma_granted_lock_is_last(s, id, owner, t1);
    let fresh = s1.last();
    assert(s1[s1.len() - 1] == fresh);
    let live2 = live_locks(s1, t2);
    lemma_live_locks(s1, t2);
    assert(live2.contains(fresh));
    lemma_first_lock_from(live2, id, 0);
    assert forall|j: int| 0 <= j < live2.len() && live2[j].progress_id == id implies live2[j]
        == fresh by {
        let q = choose|q: int| 0 <= q < s1.len() && s1[q] == live2[j];
        if q < s1.len() - 1 {
            assert(s1[q].progress_id != id);
        }
    }
    assert(lock_index(live2, id) is Some);
}

/// Whoever got a lock holds it: giving it up takes out that one entry, after
/// which the user holds no lock on the progress.
pub proof fn law_release_after_acquire(s: Seq<LockEntry>, id: u128, user: String, now: i64)
    requires
        one_lock_per_progress(s),
        acquire_step(s, id, user, now).1 is Ok,
    ensures
        ({
            let s1 = acquire_step(s, id, user, now).0;
            held_lock(s1, id, user@) == Some(s1.len() - 1) && held_lock(
                s1.remove(s1.len() - 1),
                id,
                user@,
            ) is None
        }),
{
    let s1 = acquire_step(s, id, user, now).0;
    lemma_granted_lock_is_last(s, id, user, now);
    let last = s1.len() - 1;
    assert(s1[last] == s1.last());
    lemma_held_lock_from(s1, id, user@, 0);
    let rest = s1.remove(last);
    assert forall|j: int| 0 <= j < rest.len() implies rest[j].progress_id != id by {
        assert(rest[j] == s1[j]);
    }
    lemma_no_held_lock(rest, id, user@, 0);
}

/// When every lock on a progress has expired, anyone gets it.
pub proof fn law_expired_lock_is_free(s: Seq<LockEntry>, id: u128, user: String, now: i64)
    requires
        forall|i: int| 0 <= i < s.len() && s[i].progress_id == id ==> s[i].expiry <= now,
    ensures
        acquire_step(s, id, user, now).1 is Ok,
{
    let live = live_locks(s, now);
    lemma_live_locks(s, now);
    lemma_first_lock_from(live, id, 0);
    if lock_index(live, id) is Some {
        let k = lock_index(live, id)->0;
        let q = choose|q: int| 0 <= q < s.len() && s[q] == live[k];
        assert(s[q].progress_id == id);
    }
}

} // verus!
