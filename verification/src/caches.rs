//! What is made in the background: which of it is there, and what is still to be made.
use crate::background::{
    copy_peaks, ProxyCache, ProxyCacheView, ProxyEntry, ProxyEntryView, ProxyJob, ProxyJobView,
    ProxyLookup, ProxyLookupView, ProxyStatus, WaveformCache, WaveformCacheView, WaveformEntry,
    WaveformEntryView, WaveformJob, WaveformJobView, WaveformLookup, WaveformLookupView,
    WaveformStatus,
};
use crate::clip::{Clip, ClipView};
use crate::copying::{copy_text, optional, views};
use crate::lists::{first, holds, lemma_first, lemma_first_is};
use crate::media_paths::{is_image_media_path, still_name};
use crate::paths::{is_joined, is_parent, join, parent, plain_name};
use crate::scalar::Scalar;
use crate::semantic::{mode_named, normalize_semantic_asset_mode};
use crate::state::{GlobalState, SelectionView, StateView};
use crate::text::{owned, text_is};
use crate::tracks::TimelineView;
use std::collections::VecDeque;
use vstd::prelude::*;

verus! {

broadcast use crate::copying::group_views;

// ---------------------------------------------------------------------------
// Smaller versions
// ---------------------------------------------------------------------------

/// Whether an entry has the key.
pub open spec fn is_proxy_entry(key: Seq<char>) -> spec_fn(ProxyEntryView) -> bool {
    |e: ProxyEntryView| e.key == key
}

/// The place of the entry with the key.
pub open spec fn proxy_place(entries: Seq<ProxyEntryView>, key: Seq<char>) -> int {
    first(entries, is_proxy_entry(key))
}

/// Whether one of the jobs has the key.
pub open spec fn proxy_queued(queue: Seq<ProxyJobView>, key: Seq<char>) -> bool {
    exists|i: int| 0 <= i < queue.len() && (#[trigger] queue[i]).key == key
}

impl ProxyCacheView {
    /// The entry with the key.
    pub open spec fn entry(self, key: Seq<char>) -> Option<ProxyEntryView> {
        let at = proxy_place(self.entries, key);
        if at < self.entries.len() {
            Some(self.entries[at])
        } else {
            None
        }
    }

    /// The cache with an entry, in place of the one with the same key.
    pub open spec fn with_entry(self, e: ProxyEntryView) -> ProxyCacheView {
        let at = proxy_place(self.entries, e.key);
        ProxyCacheView {
            entries: if at < self.entries.len() {
                self.entries.update(at, e)
            } else {
                self.entries.push(e)
            },
            ..self
        }
    }

    /// Whether a job with the key is being done or waits.
    pub open spec fn is_awaited(self, key: Seq<char>) -> bool {
        (self.active matches Some(job) && job.key == key) || proxy_queued(self.queue, key)
    }

    /// The cache with the next job being done, if none is and one waits.
    pub open spec fn next_taken(self) -> ProxyCacheView {
        if self.active is Some || self.queue.len() == 0 {
            self
        } else {
            ProxyCacheView {
                queue: self.queue.skip(1),
                active: Some(self.queue[0]),
                ..self
            }
        }
    }
}

fn find_proxy_entry(entries: &Vec<ProxyEntry>, key: &str) -> (at: usize)
    ensures
        at == proxy_place(views(entries@), key@),
        at <= entries.len(),
        at < entries.len() ==> entries@[at as int].key@ == key@,
{
    let ghost p = is_proxy_entry(key@);
    let mut i: usize = 0;
    while i < entries.len()
        invariant
            i <= entries.len(),
            p == is_proxy_entry(key@),
            forall|j: int| 0 <= j < i ==> !p(#[trigger] views(entries@)[j]),
        decreases entries.len() - i,
    {
        if text_is(entries[i].key.as_str(), key) {
            proof {
                assert(p(views(entries@)[i as int]));
                lemma_first_is(views(entries@), p, i as int);
            }
            return i;
        }
        assert(!p(views(entries@)[i as int]));
        i += 1;
    }
    proof {
        lemma_first_is(views(entries@), p, i as int);
    }
    i
}

fn is_proxy_queued(queue: &VecDeque<ProxyJob>, key: &str) -> (yes: bool)
    ensures
        yes == proxy_queued(views(queue@), key@),
{
    let mut i: usize = 0;
    while i < queue.len()
        invariant
            i <= queue.len(),
            forall|j: int| 0 <= j < i ==> (#[trigger] views(queue@)[j]).key != key@,
        decreases queue.len() - i,
    {
        if text_is(queue[i].key.as_str(), key) {
            assert(views(queue@)[i as int].key == key@);
            return true;
        }
        i += 1;
    }
    false
}

impl ProxyCache {
    fn put_entry(&mut self, e: ProxyEntry)
        ensures
            final(self)@ == old(self)@.with_entry(e@),
    {
        let ghost before = self.entries@;
        let at = find_proxy_entry(&self.entries, e.key.as_str());
        if at < self.entries.len() {
            self.entries.set(at, e);
            assert(views(self.entries@) =~= views(before).update(at as int, e@));
        } else {
            self.entries.push(e);
            assert(views(self.entries@) =~= views(before).push(e@));
        }
    }

    fn awaits(&self, key: &str) -> (yes: bool)
        ensures
            yes == self@.is_awaited(key@),
    {
        let doing = match &self.active {
            Some(job) => text_is(job.key.as_str(), key),
            None => false,
        };
        doing || is_proxy_queued(&self.queue, key)
    }

    fn enqueue(&mut self, job: ProxyJob)
        ensures
            final(self)@ == (ProxyCacheView { queue: old(self)@.queue.push(job@), ..old(self)@ }),
    {
        let ghost before = self.queue@;
        self.queue.push_back(job);
        assert(views(self.queue@) =~= views(before).push(job@));
    }

    /// Starts the next job, if none is being done and one waits; gives it.
    pub fn take_next(&mut self) -> (job: Option<ProxyJob>)
        ensures
            final(self)@ == old(self)@.next_taken(),
            optional(job) == if old(self)@.active is Some || old(self)@.queue.len() == 0 {
                None
            } else {
                Some(old(self)@.queue[0])
            },
    {
        if self.active.is_some() {
            return None;
        }
        let ghost before = self.queue@;
        match self.queue.pop_front() {
            Some(job) => {
                assert(views(self.queue@) =~= views(before).skip(1));
                self.active = Some(job.clone());
                Some(job)
            },
            None => None,
        }
    }

    /// Forgets all of it, if asked.
    pub fn clear_if(&mut self, yes: bool)
        ensures
            final(self)@ == if yes {
                ProxyCacheView::empty()
            } else {
                old(self)@
            },
    {
        if yes {
            *self = ProxyCache::new();
        }
    }
}

/// An entry that was put is found under its key, and others stay.
pub proof fn put_proxy_is_found(c: ProxyCacheView, e: ProxyEntryView, other: Seq<char>)
    ensures
        c.with_entry(e).entry(e.key) == Some(e),
        other != e.key ==> c.with_entry(e).entry(other) == c.entry(other),
{
    let after = c.with_entry(e).entries;
    let p = is_proxy_entry(e.key);
    let q = is_proxy_entry(other);
    lemma_first(c.entries, p);
    lemma_first(c.entries, q);
    let at = proxy_place(c.entries, e.key);
    assert(p(after[at]));
    assert forall|i: int| 0 <= i < at implies !p(#[trigger] after[i]) by {
        assert(after[i] == c.entries[i]);
    }
    lemma_first_is(after, p, at);
    if other != e.key {
        let k = proxy_place(c.entries, other);
        if k < c.entries.len() {
            assert(q(c.entries[k]));
            if at < c.entries.len() {
                assert(p(c.entries[at]));
            }
            assert(after[k] == c.entries[k]);
            assert forall|i: int| 0 <= i < k implies !q(#[trigger] after[i]) by {
                if i != at {
                    assert(after[i] == c.entries[i]);
                }
            }
            lemma_first_is(after, q, k);
        } else {
            assert forall|i: int| 0 <= i < after.len() implies !q(#[trigger] after[i]) by {
                if i != at {
                    assert(after[i] == c.entries[i]);
                }
            }
            lemma_first_is(after, q, after.len() as int);
        }
    }
}

/// What the files say of a smaller version: its key and where it goes, and which of the
/// source, that place and the place of its entry are there.
#[derive(Debug)]
pub struct ProxyFiles {
    pub key: String,
    pub src_path: String,
    pub dst_path: String,
    pub source_exists: bool,
    pub dst_exists: bool,
    pub entry_exists: bool,
}

/// What the files say of a smaller version.
pub ghost struct ProxyFilesView {
    pub key: Seq<char>,
    pub src_path: Seq<char>,
    pub dst_path: Seq<char>,
    pub source_exists: bool,
    pub dst_exists: bool,
    pub entry_exists: bool,
}

impl View for ProxyFiles {
    type V = ProxyFilesView;

    open spec fn view(&self) -> ProxyFilesView {
        ProxyFilesView {
            key: self.key@,
            src_path: self.src_path@,
            dst_path: self.dst_path@,
            source_exists: self.source_exists,
            dst_exists: self.dst_exists,
            entry_exists: self.entry_exists,
        }
    }
}

fn told(path: Option<String>, status: ProxyStatus) -> (l: ProxyLookup)
    ensures
        l@ == (ProxyLookupView { path: optional(path), status }),
{
    ProxyLookup { path, status }
}

impl ProxyCacheView {
    /// What an entry says by itself, if anything. A finished version whose file is gone says
    /// nothing, and a failure counts only if asked.
    pub open spec fn known(self, f: ProxyFilesView, count_failure: bool) -> Option<ProxyLookupView> {
        match self.entry(f.key) {
            Some(e) => match e.status {
                ProxyStatus::Ready => if f.entry_exists {
                    Some(ProxyLookupView { path: Some(e.path), status: ProxyStatus::Ready })
                } else {
                    None
                },
                ProxyStatus::Pending => Some(
                    ProxyLookupView { path: None, status: ProxyStatus::Pending },
                ),
                ProxyStatus::Failed => if count_failure {
                    Some(ProxyLookupView { path: None, status: ProxyStatus::Failed })
                } else {
                    None
                },
                ProxyStatus::Missing => None,
            },
            None => None,
        }
    }

    /// An entry for the version.
    pub open spec fn new_entry(f: ProxyFilesView, status: ProxyStatus) -> ProxyEntryView {
        ProxyEntryView { key: f.key, status, path: f.dst_path, error: None }
    }

    /// What is told of a smaller version, and the cache then: one that is neither there nor
    /// awaited is to be made.
    #[verifier::opaque]
    pub open spec fn ensured(self, f: ProxyFilesView, max_dim: u32) -> (
        ProxyCacheView,
        ProxyLookupView,
    ) {
        let pending = ProxyLookupView { path: None, status: ProxyStatus::Pending };
        if !f.source_exists {
            (self, ProxyLookupView { path: None, status: ProxyStatus::Failed })
        } else {
            match self.known(f, true) {
                Some(l) => (self, l),
                None => if f.dst_exists {
                    (
                        self.with_entry(ProxyCacheView::new_entry(f, ProxyStatus::Ready)),
                        ProxyLookupView { path: Some(f.dst_path), status: ProxyStatus::Ready },
                    )
                } else if self.is_awaited(f.key) {
                    (self, pending)
                } else {
                    let noted = self.with_entry(
                        ProxyCacheView::new_entry(f, ProxyStatus::Pending),
                    );
                    (
                        ProxyCacheView {
                            queue: noted.queue.push(
                                ProxyJobView {
                                    key: f.key,
                                    src_path: f.src_path,
                                    dst_path: f.dst_path,
                                    max_dim,
                                },
                            ),
                            ..noted
                        },
                        pending,
                    )
                },
            }
        }
    }

    /// What is told of a smaller version, and the cache then; nothing is to be made.
    #[verifier::opaque]
    pub open spec fn looked_up(self, f: ProxyFilesView) -> (ProxyCacheView, ProxyLookupView) {
        if !f.source_exists {
            (self, ProxyLookupView { path: None, status: ProxyStatus::Failed })
        } else {
            match self.known(f, false) {
                Some(l) => (self, l),
                None => if f.dst_exists {
                    (
                        self.with_entry(ProxyCacheView::new_entry(f, ProxyStatus::Ready)),
                        ProxyLookupView { path: Some(f.dst_path), status: ProxyStatus::Ready },
                    )
                } else {
                    (self, ProxyLookupView { path: None, status: ProxyStatus::Missing })
                },
            }
        }
    }

    /// The cache after a job was done.
    pub open spec fn finished(
        self,
        key: Seq<char>,
        status: ProxyStatus,
        error: Option<Seq<char>>,
    ) -> ProxyCacheView {
        let noted = match self.entry(key) {
            Some(e) => self.with_entry(ProxyEntryView { status, error, ..e }),
            None => self,
        };
        ProxyCacheView {
            active: match self.active {
                Some(job) => if job.key == key {
                    None
                } else {
                    Some(job)
                },
                None => None,
            },
            ..noted
        }
    }
}

/// Asking for a version again before anything has happened changes nothing more.
pub proof fn asking_again_queues_nothing(c: ProxyCacheView, f: ProxyFilesView, max_dim: u32)
    requires
        !f.dst_exists,
    ensures
        c.ensured(f, max_dim).0.ensured(f, max_dim).0 == c.ensured(f, max_dim).0,
        f.source_exists && c.known(f, true) is None ==> c.ensured(f, max_dim).0.is_awaited(f.key),
{
    reveal(ProxyCacheView::ensured);
    let (after, l) = c.ensured(f, max_dim);
    if f.source_exists && c.known(f, true) is None && !c.is_awaited(f.key) {
        let e = ProxyCacheView::new_entry(f, ProxyStatus::Pending);
        put_proxy_is_found(c, e, f.key);
        let noted = c.with_entry(e);
        assert(after.entries == noted.entries);
        assert(after.entry(f.key) == Some(e));
        assert(after.queue[after.queue.len() - 1].key == f.key);
    }
}

/// A job that was started and finished well leaves nothing being done, and its version is
/// there.
pub proof fn finished_job_is_ready(c: ProxyCacheView, error: Option<Seq<char>>)
    requires
        c.active is None,
        c.queue.len() > 0,
        c.entry(c.queue[0].key) is Some,
    ensures
        ({
            let key = c.queue[0].key;
            let after = c.next_taken().finished(key, ProxyStatus::Ready, error);
            &&& after.active is None
            &&& after.queue == c.queue.skip(1)
            &&& after.entry(key) is Some
            &&& after.entry(key)->0.status is Ready
        }),
{
    let key = c.queue[0].key;
    let t = c.next_taken();
    lemma_first(c.entries, is_proxy_entry(key));
    assert(is_proxy_entry(key)(c.entries[proxy_place(c.entries, key)]));
    let e = ProxyEntryView { status: ProxyStatus::Ready, error, ..t.entry(key)->0 };
    put_proxy_is_found(t, e, key);
}

impl ProxyCache {
    fn say_known(&self, f: &ProxyFiles, count_failure: bool) -> (l: Option<ProxyLookup>)
        ensures
            optional(l) == self@.known(f@, count_failure),
    {
        let at = find_proxy_entry(&self.entries, f.key.as_str());
        if at >= self.entries.len() {
            return None;
        }
        match self.entries[at].status {
            ProxyStatus::Ready => if f.entry_exists {
                Some(told(Some(owned(self.entries[at].path.as_str())), ProxyStatus::Ready))
            } else {
                None
            },
            ProxyStatus::Pending => Some(told(None, ProxyStatus::Pending)),
            ProxyStatus::Failed => if count_failure {
                Some(told(None, ProxyStatus::Failed))
            } else {
                None
            },
            ProxyStatus::Missing => None,
        }
    }

    fn note(&mut self, f: &ProxyFiles, status: ProxyStatus)
        ensures
            final(self)@ == old(self)@.with_entry(ProxyCacheView::new_entry(f@, status)),
    {
        self.put_entry(
            ProxyEntry {
                key: owned(f.key.as_str()),
                status,
                path: owned(f.dst_path.as_str()),
                error: None,
            },
        );
    }

    fn ensure(&mut self, f: &ProxyFiles, max_dim: u32) -> (l: ProxyLookup)
        ensures
            (final(self)@, l@) == old(self)@.ensured(f@, max_dim),
    {
        reveal(ProxyCacheView::ensured);
        if !f.source_exists {
            return told(None, ProxyStatus::Failed);
        }
        if let Some(l) = self.say_known(f, true) {
            return l;
        }
        if f.dst_exists {
            self.note(f, ProxyStatus::Ready);
            return told(Some(owned(f.dst_path.as_str())), ProxyStatus::Ready);
        }
        if self.awaits(f.key.as_str()) {
            return told(None, ProxyStatus::Pending);
        }
        self.note(f, ProxyStatus::Pending);
        self.enqueue(
            ProxyJob {
                key: owned(f.key.as_str()),
                src_path: owned(f.src_path.as_str()),
                dst_path: owned(f.dst_path.as_str()),
                max_dim,
            },
        );
        told(None, ProxyStatus::Pending)
    }

    fn look_up(&mut self, f: &ProxyFiles) -> (l: ProxyLookup)
        ensures
            (final(self)@, l@) == old(self)@.looked_up(f@),
    {
        reveal(ProxyCacheView::looked_up);
        if !f.source_exists {
            return told(None, ProxyStatus::Failed);
        }
        if let Some(l) = self.say_known(f, false) {
            return l;
        }
        if f.dst_exists {
            self.note(f, ProxyStatus::Ready);
            return told(Some(owned(f.dst_path.as_str())), ProxyStatus::Ready);
        }
        told(None, ProxyStatus::Missing)
    }

    fn finish(&mut self, key: &str, status: ProxyStatus, error: Option<String>)
        ensures
            final(self)@ == old(self)@.finished(key@, status, optional(error)),
    {
        let at = find_proxy_entry(&self.entries, key);
        if at < self.entries.len() {
            let e = ProxyEntry {
                key: owned(self.entries[at].key.as_str()),
                status,
                path: owned(self.entries[at].path.as_str()),
                error,
            };
            self.put_entry(e);
        }
        let done = match &self.active {
            Some(job) => text_is(job.key.as_str(), key),
            None => false,
        };
        if done {
            self.active = None;
        }
    }
}

/// What was removed.
#[derive(Debug, Clone, Copy, PartialEq, Eq, Structural)]
pub struct ProxyDeleteReport {
    pub deleted_files: usize,
    pub removed_jobs: usize,
    pub blocked_active_jobs: usize,
}

impl Default for ProxyDeleteReport {
    fn default() -> (r: ProxyDeleteReport)
        ensures
            r.deleted_files == 0,
            r.removed_jobs == 0,
            r.blocked_active_jobs == 0,
    {
        ProxyDeleteReport { deleted_files: 0, removed_jobs: 0, blocked_active_jobs: 0 }
    }
}

/// What is left to do to remove a smaller version.
#[derive(Debug)]
pub enum ProxyRemoval {
    /// It is being made and stays.
    Blocked,
    /// So many jobs were removed; the file is to be deleted.
    Delete { removed_jobs: usize, path: String },
}

/// Jobs without those with a key.
pub open spec fn jobs_without(queue: Seq<ProxyJobView>, key: Seq<char>) -> Seq<ProxyJobView>
    decreases queue.len(),
{
    if queue.len() == 0 {
        queue
    } else {
        let front = jobs_without(queue.drop_last(), key);
        if queue.last().key == key {
            front
        } else {
            front.push(queue.last())
        }
    }
}

impl ProxyCacheView {
    /// The cache without a version that is not being made.
    pub open spec fn without(self, key: Seq<char>) -> ProxyCacheView {
        let at = proxy_place(self.entries, key);
        ProxyCacheView {
            entries: if at < self.entries.len() {
                self.entries.remove(at)
            } else {
                self.entries
            },
            queue: jobs_without(self.queue, key),
            ..self
        }
    }

    /// Whether a version is being made.
    pub open spec fn is_making(self, key: Seq<char>) -> bool {
        self.active matches Some(job) && job.key == key
    }

    /// The cache without all versions but the one that is being made.
    pub open spec fn without_all(self) -> ProxyCacheView {
        ProxyCacheView {
            entries: self.entries.filter(|e: ProxyEntryView| self.is_making(e.key)),
            queue: seq![],
            ..self
        }
    }
}

proof fn lemma_jobs_without(queue: Seq<ProxyJobView>, key: Seq<char>)
    ensures
        jobs_without(queue, key).len() <= queue.len(),
        !proxy_queued(jobs_without(queue, key), key),
    decreases queue.len(),
{
    if queue.len() > 0 {
        lemma_jobs_without(queue.drop_last(), key);
        let front = jobs_without(queue.drop_last(), key);
        let after = jobs_without(queue, key);
        if proxy_queued(after, key) {
            let i = choose|i: int| 0 <= i < after.len() && (#[trigger] after[i]).key == key;
            if i < front.len() {
                assert(front[i].key == key);
            }
        }
    }
}

/// A version that was removed is no longer awaited, unless it is being made.
pub proof fn removed_proxy_is_not_awaited(c: ProxyCacheView, key: Seq<char>)
    requires
        !c.is_making(key),
    ensures
        !c.without(key).is_awaited(key),
{
    lemma_jobs_without(c.queue, key);
}

impl ProxyCache {
    fn drop_jobs(&mut self, key: &str) -> (removed: usize)
        ensures
            final(self)@ == (ProxyCacheView {
                queue: jobs_without(old(self)@.queue, key@),
                ..old(self)@
            }),
            removed == old(self)@.queue.len() - jobs_without(old(self)@.queue, key@).len(),
    {
        let ghost all = views(self.queue@);
        let ghost base = self@;
        let mut kept: VecDeque<ProxyJob> = VecDeque::new();
        let n: usize = self.queue.len();
        let mut i: usize = 0;
        assert(all.take(0) =~= seq![]);
        assert(views(kept@) =~= seq![]);
        while i < n
            invariant
                i <= n,
                n == all.len(),
                views(self.queue@) == all,
                self@ == base,
                views(kept@) == jobs_without(all.take(i as int), key@),
            decreases n - i,
        {
            assert(all.take(i + 1).drop_last() =~= all.take(i as int));
            assert(all.take(i + 1).last() == all[i as int]);
            if !text_is(self.queue[i].key.as_str(), key) {
                let ghost so_far = kept@;
                let job = self.queue[i].clone();
                kept.push_back(job);
                assert(views(kept@) =~= views(so_far).push(job@));
            }
            i += 1;
        }
        assert(all.take(n as int) =~= all);
        proof {
            lemma_jobs_without(all, key@);
        }
        let removed: usize = n - kept.len();
        self.queue = kept;
        removed
    }

    /// Removes a smaller version, unless it is being made; gives the file that is to be
    /// deleted, which is at the expected place where there is no entry.
    pub fn remove(&mut self, key: &str, expected_path: &str) -> (r: ProxyRemoval)
        ensures
            match r {
                ProxyRemoval::Blocked => old(self)@.is_making(key@) && final(self)@ == old(self)@,
                ProxyRemoval::Delete { removed_jobs, path } => {
                    &&& !old(self)@.is_making(key@)
                    &&& final(self)@ == old(self)@.without(key@)
                    &&& removed_jobs == old(self)@.queue.len() - jobs_without(
                        old(self)@.queue,
                        key@,
                    ).len()
                    &&& path@ == match old(self)@.entry(key@) {
                        Some(e) => e.path,
                        None => expected_path@,
                    }
                },
            },
    {
        let making = match &self.active {
            Some(job) => text_is(job.key.as_str(), key),
            None => false,
        };
        if making {
            return ProxyRemoval::Blocked;
        }
        let removed_jobs = self.drop_jobs(key);
        let ghost before = self.entries@;
        let at = find_proxy_entry(&self.entries, key);
        let path = if at < self.entries.len() {
            let e = self.entries.remove(at);
            assert(views(self.entries@) =~= views(before).remove(at as int));
            e.path
        } else {
            owned(expected_path)
        };
        ProxyRemoval::Delete { removed_jobs, path }
    }

    /// Removes all smaller versions but the one that is being made; gives the files that are to
    /// be deleted, how many jobs were removed and how many versions stay.
    pub fn remove_all(&mut self) -> (r: (Vec<String>, usize, usize))
        ensures
            final(self)@ == old(self)@.without_all(),
            views(r.0@) == old(self)@.entries.filter(
                |e: ProxyEntryView| !old(self)@.is_making(e.key),
            ).map_values(|e: ProxyEntryView| e.path),
            r.1 == old(self)@.queue.len(),
            r.2 == old(self)@.entries.filter(
                |e: ProxyEntryView| old(self)@.is_making(e.key),
            ).len(),
    {
        let ghost base = self@;
        let ghost stays = |e: ProxyEntryView| base.is_making(e.key);
        let ghost goes = |e: ProxyEntryView| !base.is_making(e.key);
        let jobs: usize = self.queue.len();
        let mut rest: Vec<ProxyEntry> = Vec::new();
        std::mem::swap(&mut rest, &mut self.entries);
        let ghost all = views(rest@);
        let mut kept: Vec<ProxyEntry> = Vec::new();
        let mut paths: Vec<String> = Vec::new();
        let mut i: usize = 0;
        proof {
            reveal(Seq::filter);
            assert(all.take(0) =~= seq![]);
            assert(views(kept@) =~= all.take(0).filter(stays));
            assert(views(paths@) =~= all.take(0).filter(goes).map_values(
                |e: ProxyEntryView| e.path,
            ));
        }
        while i < rest.len()
            invariant
                i <= rest.len(),
                all == views(rest@),
                optional(self.active) == base.active,
                stays == (|e: ProxyEntryView| base.is_making(e.key)),
                goes == (|e: ProxyEntryView| !base.is_making(e.key)),
                views(kept@) == all.take(i as int).filter(stays),
                views(paths@) == all.take(i as int).filter(goes).map_values(
                    |e: ProxyEntryView| e.path,
                ),
            decreases rest.len() - i,
        {
            proof {
                reveal(Seq::filter);
                assert(all.take(i + 1).drop_last() =~= all.take(i as int));
                assert(all.take(i + 1).last() == all[i as int]);
            }
            let making = match &self.active {
                Some(job) => text_is(job.key.as_str(), rest[i].key.as_str()),
                None => false,
            };
            if making {
                let ghost so_far = kept@;
                let e = rest[i].clone();
                kept.push(e);
                assert(views(kept@) =~= views(so_far).push(e@));
            } else {
                let ghost so_far = paths@;
                let path = owned(rest[i].path.as_str());
                paths.push(path);
                assert(views(paths@) =~= views(so_far).push(path@));
                assert(views(paths@) =~= all.take(i + 1).filter(goes).map_values(
                    |e: ProxyEntryView| e.path,
                ));
            }
            i += 1;
        }
        assert(all.take(i as int) =~= all);
        let stay: usize = kept.len();
        self.entries = kept;
        self.queue = VecDeque::new();
        assert(self@.queue =~= seq![]);
        (paths, jobs, stay)
    }
}

// ---------------------------------------------------------------------------
// Drawn sound
// ---------------------------------------------------------------------------

/// Whether an entry has the key.
pub open spec fn is_waveform_entry(key: Seq<char>) -> spec_fn(WaveformEntryView) -> bool {
    |e: WaveformEntryView| e.key == key
}

/// The place of the entry with the key.
pub open spec fn waveform_place(entries: Seq<WaveformEntryView>, key: Seq<char>) -> int {
    first(entries, is_waveform_entry(key))
}

/// Whether one of the jobs has the key.
pub open spec fn waveform_queued(queue: Seq<WaveformJobView>, key: Seq<char>) -> bool {
    exists|i: int| 0 <= i < queue.len() && (#[trigger] queue[i]).key == key
}

impl WaveformCacheView {
    /// The entry with the key.
    pub open spec fn entry(self, key: Seq<char>) -> Option<WaveformEntryView> {
        let at = waveform_place(self.entries, key);
        if at < self.entries.len() {
            Some(self.entries[at])
        } else {
            None
        }
    }

    /// The cache with an entry, in place of the one with the same key.
    pub open spec fn with_entry(self, e: WaveformEntryView) -> WaveformCacheView {
        let at = waveform_place(self.entries, e.key);
        WaveformCacheView {
            entries: if at < self.entries.len() {
                self.entries.update(at, e)
            } else {
                self.entries.push(e)
            },
            ..self
        }
    }

    /// Whether a job with the key is being done or waits.
    pub open spec fn is_awaited(self, key: Seq<char>) -> bool {
        (self.active matches Some(job) && job.key == key) || waveform_queued(self.queue, key)
    }

    /// The cache with the next job being done, if none is and one waits.
    pub open spec fn next_taken(self) -> WaveformCacheView {
        if self.active is Some || self.queue.len() == 0 {
            self
        } else {
            WaveformCacheView {
                queue: self.queue.skip(1),
                active: Some(self.queue[0]),
                ..self
            }
        }
    }
}

fn find_waveform_entry(entries: &Vec<WaveformEntry>, key: &str) -> (at: usize)
    ensures
        at == waveform_place(views(entries@), key@),
        at <= entries.len(),
        at < entries.len() ==> entries@[at as int].key@ == key@,
{
    let ghost p = is_waveform_entry(key@);
    let mut i: usize = 0;
    while i < entries.len()
        invariant
            i <= entries.len(),
            p == is_waveform_entry(key@),
            forall|j: int| 0 <= j < i ==> !p(#[trigger] views(entries@)[j]),
        decreases entries.len() - i,
    {
        if text_is(entries[i].key.as_str(), key) {
            proof {
                assert(p(views(entries@)[i as int]));
                lemma_first_is(views(entries@), p, i as int);
            }
            return i;
        }
        assert(!p(views(entries@)[i as int]));
        i += 1;
    }
    proof {
        lemma_first_is(views(entries@), p, i as int);
    }
    i
}

fn is_waveform_queued(queue: &VecDeque<WaveformJob>, key: &str) -> (yes: bool)
    ensures
        yes == waveform_queued(views(queue@), key@),
{
    let mut i: usize = 0;
    while i < queue.len()
        invariant
            i <= queue.len(),
            forall|j: int| 0 <= j < i ==> (#[trigger] views(queue@)[j]).key != key@,
        decreases queue.len() - i,
    {
        if text_is(queue[i].key.as_str(), key) {
            assert(views(queue@)[i as int].key == key@);
            return true;
        }
        i += 1;
    }
    false
}

impl WaveformCache {
    fn put_entry(&mut self, e: WaveformEntry)
        ensures
            final(self)@ == old(self)@.with_entry(e@),
    {
        let ghost before = self.entries@;
        let at = find_waveform_entry(&self.entries, e.key.as_str());
        if at < self.entries.len() {
            self.entries.set(at, e);
            assert(views(self.entries@) =~= views(before).update(at as int, e@));
        } else {
            self.entries.push(e);
            assert(views(self.entries@) =~= views(before).push(e@));
        }
    }

    fn awaits(&self, key: &str) -> (yes: bool)
        ensures
            yes == self@.is_awaited(key@),
    {
        let doing = match &self.active {
            Some(job) => text_is(job.key.as_str(), key),
            None => false,
        };
        doing || is_waveform_queued(&self.queue, key)
    }

    fn enqueue(&mut self, job: WaveformJob)
        ensures
            final(self)@ == (WaveformCacheView { queue: old(self)@.queue.push(job@), ..old(self)@ }),
    {
        let ghost before = self.queue@;
        self.queue.push_back(job);
        assert(views(self.queue@) =~= views(before).push(job@));
    }

    /// Starts the next job, if none is being done and one waits; gives it.
    pub fn take_next(&mut self) -> (job: Option<WaveformJob>)
        ensures
            final(self)@ == old(self)@.next_taken(),
            optional(job) == if old(self)@.active is Some || old(self)@.queue.len() == 0 {
                None
            } else {
                Some(old(self)@.queue[0])
            },
    {
        if self.active.is_some() {
            return None;
        }
        let ghost before = self.queue@;
        match self.queue.pop_front() {
            Some(job) => {
                assert(views(self.queue@) =~= views(before).skip(1));
                self.active = Some(job.clone());
                Some(job)
            },
            None => None,
        }
    }

    /// Forgets all of it, if asked.
    pub fn clear_if(&mut self, yes: bool)
        ensures
            final(self)@ == if yes {
                WaveformCacheView::empty()
            } else {
                old(self)@
            },
    {
        if yes {
            *self = WaveformCache::new();
        }
    }
}

/// An entry that was put is found under its key, and others stay.
pub proof fn put_waveform_is_found(c: WaveformCacheView, e: WaveformEntryView, other: Seq<char>)
    ensures
        c.with_entry(e).entry(e.key) == Some(e),
        other != e.key ==> c.with_entry(e).entry(other) == c.entry(other),
{
    let after = c.with_entry(e).entries;
    let p = is_waveform_entry(e.key);
    let q = is_waveform_entry(other);
    lemma_first(c.entries, p);
    lemma_first(c.entries, q);
    let at = waveform_place(c.entries, e.key);
    assert(p(after[at]));
    assert forall|i: int| 0 <= i < at implies !p(#[trigger] after[i]) by {
        assert(after[i] == c.entries[i]);
    }
    lemma_first_is(after, p, at);
    if other != e.key {
        let k = waveform_place(c.entries, other);
        if k < c.entries.len() {
            assert(q(c.entries[k]));
            if at < c.entries.len() {
                assert(p(c.entries[at]));
            }
            assert(after[k] == c.entries[k]);
            assert forall|i: int| 0 <= i < k implies !q(#[trigger] after[i]) by {
                if i != at {
                    assert(after[i] == c.entries[i]);
                }
            }
            lemma_first_is(after, q, k);
        } else {
            assert forall|i: int| 0 <= i < after.len() implies !q(#[trigger] after[i]) by {
                if i != at {
                    assert(after[i] == c.entries[i]);
                }
            }
            lemma_first_is(after, q, after.len() as int);
        }
    }
}

/// What the files say of drawn sound: its key and where it goes, whether the source is there,
/// and what was read at that place and at the place of its entry.
#[derive(Debug)]
pub struct WaveformFiles {
    pub key: String,
    pub src_path: String,
    pub dst_path: String,
    pub source_exists: bool,
    pub dst_peaks: Option<Vec<Scalar>>,
    pub entry_peaks: Option<Vec<Scalar>>,
}

/// What the files say of drawn sound.
pub ghost struct WaveformFilesView {
    pub key: Seq<char>,
    pub src_path: Seq<char>,
    pub dst_path: Seq<char>,
    pub source_exists: bool,
    pub dst_peaks: Option<Seq<Scalar>>,
    pub entry_peaks: Option<Seq<Scalar>>,
}

impl View for WaveformFiles {
    type V = WaveformFilesView;

    open spec fn view(&self) -> WaveformFilesView {
        WaveformFilesView {
            key: self.key@,
            src_path: self.src_path@,
            dst_path: self.dst_path@,
            source_exists: self.source_exists,
            dst_peaks: optional(self.dst_peaks),
            entry_peaks: optional(self.entry_peaks),
        }
    }
}

/// What is told of drawn sound without any of it.
pub open spec fn untold(status: WaveformStatus) -> WaveformLookupView {
    WaveformLookupView { peaks: None, status }
}

fn tell_status(status: WaveformStatus) -> (l: WaveformLookup)
    ensures
        l@ == untold(status),
{
    WaveformLookup { peaks: None, status }
}

impl WaveformCacheView {
    /// What is told of drawn sound without making any of it: still pictures have none.
    #[verifier::opaque]
    pub open spec fn looked_up(
        self,
        src_path: Seq<char>,
        source_exists: bool,
        key: Seq<char>,
        bucket_count: usize,
    ) -> WaveformLookupView {
        let awaited = if self.is_awaited(key) {
            untold(WaveformStatus::Pending)
        } else {
            untold(WaveformStatus::Missing)
        };
        if still_name(src_path) {
            untold(WaveformStatus::Missing)
        } else if !source_exists || bucket_count == 0 {
            untold(WaveformStatus::Failed)
        } else {
            match self.entry(key) {
                Some(e) => match e.status {
                    WaveformStatus::Ready => WaveformLookupView {
                        peaks: e.peaks,
                        status: WaveformStatus::Ready,
                    },
                    WaveformStatus::Pending => untold(WaveformStatus::Pending),
                    WaveformStatus::Failed => untold(WaveformStatus::Failed),
                    WaveformStatus::Missing => awaited,
                },
                None => awaited,
            }
        }
    }

    /// The entry with what was read for it, if it is finished and had none.
    pub open spec fn loaded(self, f: WaveformFilesView) -> WaveformCacheView {
        match self.entry(f.key) {
            Some(e) => match e.status {
                WaveformStatus::Ready => if e.peaks is None && f.entry_peaks is Some {
                    self.with_entry(WaveformEntryView { peaks: f.entry_peaks, ..e })
                } else {
                    self
                },
                _ => self,
            },
            None => self,
        }
    }

    /// What an entry says by itself, if anything.
    pub open spec fn known(self, key: Seq<char>) -> Option<WaveformLookupView> {
        match self.entry(key) {
            Some(e) => match e.status {
                WaveformStatus::Ready => match e.peaks {
                    Some(p) => Some(
                        WaveformLookupView { peaks: Some(p), status: WaveformStatus::Ready },
                    ),
                    None => None,
                },
                WaveformStatus::Pending => Some(untold(WaveformStatus::Pending)),
                WaveformStatus::Failed => Some(untold(WaveformStatus::Failed)),
                WaveformStatus::Missing => None,
            },
            None => None,
        }
    }

    /// What is told of drawn sound, and the cache then: what is neither there nor awaited is to
    /// be made.
    #[verifier::opaque]
    pub open spec fn ensured(self, f: WaveformFilesView, bucket_count: usize) -> (
        WaveformCacheView,
        WaveformLookupView,
    ) {
        if still_name(f.src_path) {
            (self, untold(WaveformStatus::Missing))
        } else if !f.source_exists || bucket_count == 0 {
            (self, untold(WaveformStatus::Failed))
        } else {
            let c = self.loaded(f);
            match c.known(f.key) {
                Some(l) => (c, l),
                None => match f.dst_peaks {
                    Some(p) => (
                        c.with_entry(
                            WaveformEntryView {
                                key: f.key,
                                status: WaveformStatus::Ready,
                                path: f.dst_path,
                                peaks: Some(p),
                                error: None,
                            },
                        ),
                        WaveformLookupView { peaks: Some(p), status: WaveformStatus::Ready },
                    ),
                    None => if c.is_awaited(f.key) {
                        (c, untold(WaveformStatus::Pending))
                    } else {
                        let noted = c.with_entry(
                            WaveformEntryView {
                                key: f.key,
                                status: WaveformStatus::Pending,
                                path: f.dst_path,
                                peaks: None,
                                error: None,
                            },
                        );
                        (
                            WaveformCacheView {
                                queue: noted.queue.push(
                                    WaveformJobView {
                                        key: f.key,
                                        src_path: f.src_path,
                                        dst_path: f.dst_path,
                                        bucket_count,
                                    },
                                ),
                                ..noted
                            },
                            untold(WaveformStatus::Pending),
                        )
                    },
                },
            }
        }
    }

    /// The cache after a job was done; what was drawn is kept only if it went well.
    pub open spec fn finished(
        self,
        key: Seq<char>,
        status: WaveformStatus,
        error: Option<Seq<char>>,
        peaks: Option<Seq<Scalar>>,
    ) -> WaveformCacheView {
        let noted = match self.entry(key) {
            Some(e) => self.with_entry(
                WaveformEntryView {
                    status,
                    error,
                    peaks: if status is Ready {
                        peaks
                    } else {
                        None
                    },
                    ..e
                },
            ),
            None => self,
        };
        WaveformCacheView {
            active: match self.active {
                Some(job) => if job.key == key {
                    None
                } else {
                    Some(job)
                },
                None => None,
            },
            ..noted
        }
    }
}

/// Asking for drawn sound again before anything has happened changes nothing more, and what is to
/// be made is awaited.
pub proof fn asking_again_draws_nothing(c: WaveformCacheView, f: WaveformFilesView, buckets: usize)
    ensures
        c.ensured(f, buckets).0.ensured(f, buckets).0 == c.ensured(f, buckets).0,
        c.ensured(f, buckets).0.ensured(f, buckets).1 == c.ensured(f, buckets).1,
        c.ensured(f, buckets).0.queue != c.queue ==> c.ensured(f, buckets).0.is_awaited(f.key),
{
    reveal(WaveformCacheView::ensured);
    let (after, l) = c.ensured(f, buckets);
    if !still_name(f.src_path) && f.source_exists && buckets > 0 {
        let at = c.loaded(f);
        if at.entry(f.key) != c.entry(f.key) || at != c {
            let e = c.entry(f.key)->0;
            lemma_first(c.entries, is_waveform_entry(f.key));
            assert(is_waveform_entry(f.key)(c.entries[waveform_place(c.entries, f.key)]));
            put_waveform_is_found(c, WaveformEntryView { peaks: f.entry_peaks, ..e }, f.key);
        }
        if at.known(f.key) is None {
            let pending = f.dst_peaks is None;
            let e = WaveformEntryView {
                key: f.key,
                status: if pending {
                    WaveformStatus::Pending
                } else {
                    WaveformStatus::Ready
                },
                path: f.dst_path,
                peaks: f.dst_peaks,
                error: None,
            };
            put_waveform_is_found(at, e, f.key);
            if pending && !at.is_awaited(f.key) {
                assert(after.entries == at.with_entry(e).entries);
                assert(after.entry(f.key) == Some(e));
                assert(after.queue[after.queue.len() - 1].key == f.key);
            }
        }
    }
}

impl WaveformCache {
    fn look_up(&self, src_path: &str, source_exists: bool, key: &str, bucket_count: usize) -> (l:
        WaveformLookup)
        ensures
            l@ == self@.looked_up(src_path@, source_exists, key@, bucket_count),
    {
        reveal(WaveformCacheView::looked_up);
        if is_image_media_path(src_path) {
            return tell_status(WaveformStatus::Missing);
        }
        if !source_exists || bucket_count == 0 {
            return tell_status(WaveformStatus::Failed);
        }
        let at = find_waveform_entry(&self.entries, key);
        if at < self.entries.len() {
            match self.entries[at].status {
                WaveformStatus::Ready => {
                    return WaveformLookup {
                        peaks: copy_peaks(&self.entries[at].peaks),
                        status: WaveformStatus::Ready,
                    };
                },
                WaveformStatus::Pending => {
                    return tell_status(WaveformStatus::Pending);
                },
                WaveformStatus::Failed => {
                    return tell_status(WaveformStatus::Failed);
                },
                WaveformStatus::Missing => {},
            }
        }
        if self.awaits(key) {
            tell_status(WaveformStatus::Pending)
        } else {
            tell_status(WaveformStatus::Missing)
        }
    }

    fn load(&mut self, f: &WaveformFiles)
        ensures
            final(self)@ == old(self)@.loaded(f@),
    {
        let at = find_waveform_entry(&self.entries, f.key.as_str());
        if at < self.entries.len() {
            let ready = matches!(self.entries[at].status, WaveformStatus::Ready);
            if ready && self.entries[at].peaks.is_none() && f.entry_peaks.is_some() {
                let e = WaveformEntry {
                    key: owned(self.entries[at].key.as_str()),
                    status: WaveformStatus::Ready,
                    path: owned(self.entries[at].path.as_str()),
                    peaks: copy_peaks(&f.entry_peaks),
                    error: copy_text(&self.entries[at].error),
                };
                self.put_entry(e);
            }
        }
    }

    fn say_known(&self, key: &str) -> (l: Option<WaveformLookup>)
        ensures
            optional(l) == self@.known(key@),
    {
        let at = find_waveform_entry(&self.entries, key);
        if at >= self.entries.len() {
            return None;
        }
        match self.entries[at].status {
            WaveformStatus::Ready => if self.entries[at].peaks.is_some() {
                Some(
                    WaveformLookup {
                        peaks: copy_peaks(&self.entries[at].peaks),
                        status: WaveformStatus::Ready,
                    },
                )
            } else {
                None
            },
            WaveformStatus::Pending => Some(tell_status(WaveformStatus::Pending)),
            WaveformStatus::Failed => Some(tell_status(WaveformStatus::Failed)),
            WaveformStatus::Missing => None,
        }
    }

    fn ensure(&mut self, f: &WaveformFiles, bucket_count: usize) -> (l: WaveformLookup)
        ensures
            (final(self)@, l@) == old(self)@.ensured(f@, bucket_count),
    {
        reveal(WaveformCacheView::ensured);
        if is_image_media_path(f.src_path.as_str()) {
            return tell_status(WaveformStatus::Missing);
        }
        if !f.source_exists || bucket_count == 0 {
            return tell_status(WaveformStatus::Failed);
        }
        self.load(f);
        if let Some(l) = self.say_known(f.key.as_str()) {
            return l;
        }
        if f.dst_peaks.is_some() {
            self.put_entry(
                WaveformEntry {
                    key: owned(f.key.as_str()),
                    status: WaveformStatus::Ready,
                    path: owned(f.dst_path.as_str()),
                    peaks: copy_peaks(&f.dst_peaks),
                    error: None,
                },
            );
            return WaveformLookup {
                peaks: copy_peaks(&f.dst_peaks),
                status: WaveformStatus::Ready,
            };
        }
        if self.awaits(f.key.as_str()) {
            return tell_status(WaveformStatus::Pending);
        }
        self.put_entry(
            WaveformEntry {
                key: owned(f.key.as_str()),
                status: WaveformStatus::Pending,
                path: owned(f.dst_path.as_str()),
                peaks: None,
                error: None,
            },
        );
        self.enqueue(
            WaveformJob {
                key: owned(f.key.as_str()),
                src_path: owned(f.src_path.as_str()),
                dst_path: owned(f.dst_path.as_str()),
                bucket_count,
            },
        );
        tell_status(WaveformStatus::Pending)
    }

    fn finish(
        &mut self,
        key: &str,
        status: WaveformStatus,
        error: Option<String>,
        peaks: Option<Vec<Scalar>>,
    )
        ensures
            final(self)@ == old(self)@.finished(key@, status, optional(error), optional(peaks)),
    {
        let at = find_waveform_entry(&self.entries, key);
        if at < self.entries.len() {
            let kept = if matches!(status, WaveformStatus::Ready) {
                peaks
            } else {
                None
            };
            let e = WaveformEntry {
                key: owned(self.entries[at].key.as_str()),
                status,
                path: owned(self.entries[at].path.as_str()),
                peaks: kept,
                error,
            };
            self.put_entry(e);
        }
        let done = match &self.active {
            Some(job) => text_is(job.key.as_str(), key),
            None => false,
        };
        if done {
            self.active = None;
        }
    }
}

// ---------------------------------------------------------------------------
// The state
// ---------------------------------------------------------------------------

/// The paths of the clips with the ids that are no still pictures, each once, behind those
/// before.
pub open spec fn proxy_sources_of(clips: Seq<ClipView>, ids: Seq<u64>, before: Seq<Seq<char>>) -> Seq<
    Seq<char>,
>
    decreases clips.len(),
{
    if clips.len() == 0 {
        before
    } else {
        let front = proxy_sources_of(clips.drop_last(), ids, before);
        let c = clips.last();
        if ids.contains(c.id) && !still_name(c.file_path) && !front.contains(c.file_path) {
            front.push(c.file_path)
        } else {
            front
        }
    }
}

impl TimelineView {
    /// The paths of the pictures with the ids, on the main track and the first `n` above it.
    pub open spec fn proxy_sources(self, ids: Seq<u64>, n: int) -> Seq<Seq<char>>
        decreases n,
    {
        if n <= 0 {
            proxy_sources_of(self.v1_clips, ids, seq![])
        } else {
            proxy_sources_of(
                self.video_tracks[n - 1].clips,
                ids,
                self.proxy_sources(ids, n - 1),
            )
        }
    }
}

impl SelectionView {
    /// The ids of the selected clips: the list, or the one where it is empty.
    pub open spec fn chosen_clips(self) -> Seq<u64> {
        if self.selected_clip_ids.len() > 0 {
            self.selected_clip_ids
        } else {
            match self.selected_clip_id {
                Some(id) => seq![id],
                None => seq![],
            }
        }
    }
}

fn has_path(paths: &Vec<String>, path: &str) -> (yes: bool)
    ensures
        yes == views(paths@).contains(path@),
{
    let mut i: usize = 0;
    while i < paths.len()
        invariant
            i <= paths.len(),
            forall|j: int| 0 <= j < i ==> #[trigger] views(paths@)[j] != path@,
        decreases paths.len() - i,
    {
        if text_is(paths[i].as_str(), path) {
            assert(views(paths@)[i as int] == path@);
            return true;
        }
        i += 1;
    }
    false
}

fn add_proxy_sources(paths: &mut Vec<String>, clips: &Vec<Clip>, ids: &Vec<u64>)
    ensures
        views(final(paths)@) == proxy_sources_of(views(clips@), ids@, views(old(paths)@)),
{
    let ghost before = views(paths@);
    let ghost all = views(clips@);
    let mut i: usize = 0;
    assert(all.take(0) =~= seq![]);
    while i < clips.len()
        invariant
            i <= clips.len(),
            all == views(clips@),
            views(paths@) == proxy_sources_of(all.take(i as int), ids@, before),
        decreases clips.len() - i,
    {
        assert(all.take(i + 1).drop_last() =~= all.take(i as int));
        assert(all.take(i + 1).last() == clips@[i as int]@);
        let c = &clips[i];
        if holds(ids, c.id) && !is_image_media_path(c.file_path.as_str()) && !has_path(
            paths,
            c.file_path.as_str(),
        ) {
            crate::export_settings::push_text(paths, c.file_path.as_str());
        }
        i += 1;
    }
    assert(all.take(i as int) =~= all);
}

impl GlobalState {
    /// The path of the entry for a smaller version, if there is one.
    pub fn proxy_entry_path(&self, key: &str) -> (path: Option<String>)
        ensures
            optional(path) == match self@.proxies.entry(key@) {
                Some(e) => Some(e.path),
                None => None,
            },
    {
        let at = find_proxy_entry(&self.proxies.entries, key);
        if at < self.proxies.entries.len() {
            Some(owned(self.proxies.entries[at].path.as_str()))
        } else {
            None
        }
    }

    /// The path of the entry for drawn sound, if there is one.
    pub fn waveform_entry_path(&self, key: &str) -> (path: Option<String>)
        ensures
            optional(path) == match self@.waveforms.entry(key@) {
                Some(e) => Some(e.path),
                None => None,
            },
    {
        let at = find_waveform_entry(&self.waveforms.entries, key);
        if at < self.waveforms.entries.len() {
            Some(owned(self.waveforms.entries[at].path.as_str()))
        } else {
            None
        }
    }

    /// Tells where the smaller version of a file is; one that is neither there nor awaited is
    /// to be made.
    pub fn ensure_proxy_for_path(&mut self, files: &ProxyFiles, max_dim: u32) -> (l: ProxyLookup)
        ensures
            ({
                let (cache, told) = old(self)@.proxies.ensured(files@, max_dim);
                l@ == told && final(self)@ == (StateView { proxies: cache, ..old(self)@ })
            }),
    {
        self.proxies.ensure(files, max_dim)
    }

    /// Tells where the smaller version of a file is.
    pub fn lookup_proxy_for_path(&mut self, files: &ProxyFiles) -> (l: ProxyLookup)
        ensures
            ({
                let (cache, told) = old(self)@.proxies.looked_up(files@);
                l@ == told && final(self)@ == (StateView { proxies: cache, ..old(self)@ })
            }),
    {
        self.proxies.look_up(files)
    }

    /// The files of the selected pictures that can have a smaller version, each once.
    pub fn selected_video_proxy_sources(&self) -> (paths: Vec<String>)
        ensures
            views(paths@) == self@.timeline.proxy_sources(
                self@.selection.chosen_clips(),
                self@.timeline.video_tracks.len() as int,
            ),
    {
        let mut ids = crate::copying::copy_list(&self.selection.selected_clip_ids);
        if ids.len() == 0 {
            if let Some(id) = self.selection.selected_clip_id {
                ids.push(id);
            }
        }
        assert(ids@ =~= self@.selection.chosen_clips());
        let mut paths: Vec<String> = Vec::new();
        assert(views(paths@) =~= seq![]);
        add_proxy_sources(&mut paths, &self.timeline.v1_clips, &ids);
        let mut i: usize = 0;
        while i < self.timeline.video_tracks.len()
            invariant
                i <= self.timeline.video_tracks.len(),
                views(paths@) == self@.timeline.proxy_sources(ids@, i as int),
            decreases self.timeline.video_tracks.len() - i,
        {
            add_proxy_sources(&mut paths, &self.timeline.video_tracks[i].clips, &ids);
            i += 1;
        }
        paths
    }

    /// Starts the next smaller version, if none is being made; gives it.
    pub fn take_next_proxy_job(&mut self) -> (job: Option<ProxyJob>)
        ensures
            final(self)@ == (StateView { proxies: old(self)@.proxies.next_taken(), ..old(self)@ }),
            optional(job) == if old(self)@.proxies.active is Some || old(
                self,
            )@.proxies.queue.len() == 0 {
                None
            } else {
                Some(old(self)@.proxies.queue[0])
            },
    {
        self.proxies.take_next()
    }

    /// Notes how making a smaller version went.
    pub fn finish_proxy_job(&mut self, key: &str, status: ProxyStatus, error: Option<String>)
        ensures
            final(self)@ == (StateView {
                proxies: old(self)@.proxies.finished(key@, status, optional(error)),
                ..old(self)@
            }),
    {
        self.proxies.finish(key, status, error);
    }

    /// Tells what is drawn of a sound.
    pub fn lookup_waveform_for_path(
        &self,
        src_path: &str,
        source_exists: bool,
        key: &str,
        bucket_count: usize,
    ) -> (l: WaveformLookup)
        ensures
            l@ == self@.waveforms.looked_up(src_path@, source_exists, key@, bucket_count),
    {
        self.waveforms.look_up(src_path, source_exists, key, bucket_count)
    }

    /// Tells what is drawn of a sound; what is neither there nor awaited is to be made.
    pub fn ensure_waveform_for_path(&mut self, files: &WaveformFiles, bucket_count: usize) -> (l:
        WaveformLookup)
        ensures
            ({
                let (cache, told) = old(self)@.waveforms.ensured(files@, bucket_count);
                l@ == told && final(self)@ == (StateView { waveforms: cache, ..old(self)@ })
            }),
    {
        self.waveforms.ensure(files, bucket_count)
    }

    /// Starts drawing the next sound, if none is being drawn; gives it.
    pub fn take_next_waveform_job(&mut self) -> (job: Option<WaveformJob>)
        ensures
            final(self)@ == (StateView {
                waveforms: old(self)@.waveforms.next_taken(),
                ..old(self)@
            }),
            optional(job) == if old(self)@.waveforms.active is Some || old(
                self,
            )@.waveforms.queue.len() == 0 {
                None
            } else {
                Some(old(self)@.waveforms.queue[0])
            },
    {
        self.waveforms.take_next()
    }

    /// Notes how drawing a sound went.
    pub fn finish_waveform_job(
        &mut self,
        key: &str,
        status: WaveformStatus,
        error: Option<String>,
        peaks: Option<Vec<Scalar>>,
    )
        ensures
            final(self)@ == (StateView {
                waveforms: old(self)@.waveforms.finished(
                    key@,
                    status,
                    optional(error),
                    optional(peaks),
                ),
                ..old(self)@
            }),
    {
        self.waveforms.finish(key, status, error, peaks);
    }

    /// Works on another project file; what was made for another one is forgotten.
    pub fn set_project_file_path(&mut self, path: Option<String>)
        ensures
            ({
                let changed = old(self)@.project_file_path != optional(path);
                final(self)@ == (StateView {
                    project_file_path: optional(path),
                    proxies: if changed {
                        ProxyCacheView::empty()
                    } else {
                        old(self)@.proxies
                    },
                    waveforms: if changed {
                        WaveformCacheView::empty()
                    } else {
                        old(self)@.waveforms
                    },
                    ..old(self)@
                })
            }),
    {
        let changed = !same_path(&self.project_file_path, &path);
        self.project_file_path = path;
        self.proxies.clear_if(changed);
        self.waveforms.clear_if(changed);
    }
}

fn same_path(a: &Option<String>, b: &Option<String>) -> (yes: bool)
    ensures
        yes == (optional(*a) == optional(*b)),
{
    match (a, b) {
        (Some(a), Some(b)) => text_is(a.as_str(), b.as_str()),
        (None, None) => true,
        _ => false,
    }
}

/// The folder for generated media of a kind.
pub fn generated_media_folder(mode: &str) -> (folder: &'static str)
    ensures
        folder@ == media_folder(mode@),
{
    if text_is(normalize_semantic_asset_mode(mode), "image") {
        "images_generated"
    } else {
        "videos_generated"
    }
}

/// The folder for generated media of a kind.
pub open spec fn media_folder(mode: Seq<char>) -> Seq<char> {
    if mode_named(mode) == "image"@ {
        "images_generated"@
    } else {
        "videos_generated"@
    }
}

/// Whether a folder is that of the project's file, or the usual one where the project has no file
/// or its file no folder.
pub open spec fn is_project_folder(
    project: Option<Seq<char>>,
    usual: Seq<char>,
    dir: Seq<char>,
) -> bool {
    match project {
        Some(path) => exists|parent: Option<Seq<char>>| #[trigger]
            is_parent(path, parent) && dir == match parent {
                Some(p) => p,
                None => usual,
            },
        None => dir == usual,
    }
}

proof fn lemma_folder_names_plain()
    ensures
        plain_name(".anica_cache"@),
        plain_name("images_generated"@),
        plain_name("videos_generated"@),
{
    reveal_strlit(".anica_cache");
    reveal_strlit("images_generated");
    reveal_strlit("videos_generated");
    assert(".anica_cache"@ =~= seq!['.', 'a', 'n', 'i', 'c', 'a', '_', 'c', 'a', 'c', 'h', 'e']);
    let generated = seq!['_', 'g', 'e', 'n', 'e', 'r', 'a', 't', 'e', 'd'];
    assert("images_generated"@ =~= seq!['i', 'm', 'a', 'g', 'e', 's'] + generated);
    assert("videos_generated"@ =~= seq!['v', 'i', 'd', 'e', 'o', 's'] + generated);
}

impl GlobalState {
    fn project_folder(&self) -> (dir: Option<String>)
        ensures
            match self@.project_file_path {
                Some(path) => is_parent(path, optional(dir)),
                None => dir is None,
            },
    {
        match &self.project_file_path {
            Some(path) => parent(path.as_str()),
            None => None,
        }
    }

    /// The folder of caches: in that of the project's file, else the usual one.
    pub fn cache_root_dir(&self, usual: &str) -> (dir: String)
        ensures
            match self@.project_file_path {
                Some(path) => exists|parent: Option<Seq<char>>| #[trigger]
                    is_parent(path, parent) && match parent {
                        Some(p) => is_joined(p, ".anica_cache"@, dir@),
                        None => dir@ == usual@,
                    },
                None => dir@ == usual@,
            },
    {
        proof {
            lemma_folder_names_plain();
        }
        let project = self.project_folder();
        match project {
            Some(p) => join(p.as_str(), ".anica_cache"),
            None => owned(usual),
        }
    }

    /// The folder that those for generated media are in: that of the project's file, else the
    /// usual one.
    pub fn generated_media_root_dir(&self, usual: &str) -> (dir: String)
        ensures
            is_project_folder(self@.project_file_path, usual@, dir@),
    {
        let project = self.project_folder();
        match project {
            Some(p) => p,
            None => owned(usual),
        }
    }

    /// The folder for generated media of a kind.
    pub fn generated_media_dir_for_semantic_mode(&self, mode: &str, usual: &str) -> (dir: String)
        ensures
            exists|root: Seq<char>| #[trigger]
                is_project_folder(self@.project_file_path, usual@, root) && is_joined(
                    root,
                    media_folder(mode@),
                    dir@,
                ),
    {
        proof {
            lemma_folder_names_plain();
        }
        let root = self.generated_media_root_dir(usual);
        join(root.as_str(), generated_media_folder(mode))
    }
}

} // verus!
