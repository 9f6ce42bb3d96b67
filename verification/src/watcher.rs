//! The filesystem event normalizer: raw, noisy notifications in; reliable
//! `Created` / `Deleted` / `Moved` / `Modified` events out.
//!
//! The OS watcher itself lives outside the library and hands over one
//! [`RawNotification`] per callback, with a millisecond clock reading.
//! Split renames are paired here through their correlation tokens; entries
//! older than the correlation timeout are evicted at the start of every
//! call, whether or not the call produces an event.

use vstd::prelude::*;
use crate::paths;
use crate::text;

verus! {

/// How long a rename's first half waits for its second, in milliseconds.
pub const RENAME_TIMEOUT_MS: u64 = 1000;

/// A normalized filesystem event.
#[derive(Debug, Clone, PartialEq, Eq)]
pub enum FileEvent {
    /// A file appeared in a watched directory.
    Created(String),
    /// A file left a watched directory.
    Deleted(String),
    /// A file moved between watched directories.
    Moved { from: String, to: String },
    /// A file's contents changed in a watched directory.
    Modified(String),
}

/// The shape of one raw notification.
#[derive(Debug, Clone, Copy, PartialEq, Eq, Structural)]
pub enum RawKind {
    /// A plain file creation.
    CreateFile,
    /// Some other creation; `is_file` tells whether the path is a file.
    CreateOther,
    /// A plain file removal.
    RemoveFile,
    /// Some other removal.
    RemoveOther,
    /// The source half of a split rename.
    RenameFrom,
    /// The destination half of a split rename.
    RenameTo,
    /// A rename carrying both paths at once.
    RenameBoth,
    /// A content modification.
    DataModified,
    /// Anything else; ignored.
    Other,
}

/// One raw notification, reduced to plain values.
#[derive(Debug, Clone)]
pub struct RawNotification {
    pub kind: RawKind,
    /// The paths the notification names, in its own order.
    pub paths: Vec<String>,
    /// The correlation token pairing a split rename's halves.
    pub tracker: Option<u64>,
    /// Whether the first path names a regular file on disk; consulted only
    /// for the catch-all creation kind.
    pub is_file: bool,
}

/// A buffered rename source is kept while it is younger than the timeout;
/// a clock that appears to run backwards keeps the entry.
pub open spec fn keep_at(queued: u64, now: u64) -> bool {
    now < queued || now - queued < RENAME_TIMEOUT_MS
}

/// The first `n` buffered entries that survive eviction at `now`.
pub open spec fn evicted_sp(p: Seq<(u64, String, u64)>, now: u64, n: int) -> Seq<
    (u64, String, u64),
>
    decreases n,
{
    if n <= 0 {
        Seq::empty()
    } else {
        evicted_sp(p, now, n - 1) + (if keep_at(p[n - 1].2, now) {
            seq![p[n - 1]]
        } else {
            Seq::empty()
        })
    }
}

/// The buffered source path and queue time of a token.
pub open spec fn tok_lookup(p: Seq<(u64, String, u64)>, tok: u64) -> Option<(String, u64)>
    decreases p.len(),
{
    if p.len() == 0 {
        None
    } else if p[0].0 == tok {
        Some((p[0].1, p[0].2))
    } else {
        tok_lookup(p.drop_first(), tok)
    }
}

/// No token is buffered twice.
pub open spec fn toks_unique(p: Seq<(u64, String, u64)>) -> bool {
    forall|i: int, j: int| 0 <= i < j < p.len() ==> p[i].0 != p[j].0
}

proof fn lemma_tok_lookup_at(p: Seq<(u64, String, u64)>, tok: u64, i: int)
    requires
        0 <= i < p.len(),
        p[i].0 == tok,
        forall|j: int| 0 <= j < i ==> p[j].0 != tok,
    ensures
        tok_lookup(p, tok) == Some((p[i].1, p[i].2)),
    decreases p.len(),
{
    if i > 0 {
        lemma_tok_lookup_at(p.drop_first(), tok, i - 1);
    }
}

proof fn lemma_tok_lookup_none(p: Seq<(u64, String, u64)>, tok: u64)
    requires
        forall|j: int| 0 <= j < p.len() ==> p[j].0 != tok,
    ensures
        tok_lookup(p, tok) is None,
    decreases p.len(),
{
    if p.len() > 0 {
        lemma_tok_lookup_none(p.drop_first(), tok);
    }
}

proof fn lemma_tok_update(p: Seq<(u64, String, u64)>, i: int, e: (u64, String, u64), t2: u64)
    requires
        0 <= i < p.len(),
        p[i].0 == e.0,
        forall|j: int| 0 <= j < i ==> p[j].0 != e.0,
    ensures
        tok_lookup(p.update(i, e), e.0) == Some((e.1, e.2)),
        t2 != e.0 ==> tok_lookup(p.update(i, e), t2) == tok_lookup(p, t2),
    decreases p.len(),
{
    let t = p.update(i, e);
    if i == 0 {
        assert(t[0] == e);
        assert(t.drop_first() =~= p.drop_first());
    } else {
        assert(t[0] == p[0]);
        assert(t.drop_first() =~= p.drop_first().update(i - 1, e));
        lemma_tok_update(p.drop_first(), i - 1, e, t2);
    }
}

proof fn lemma_tok_push(p: Seq<(u64, String, u64)>, e: (u64, String, u64), t2: u64)
    ensures
        tok_lookup(p, e.0) is None ==> tok_lookup(p.push(e), e.0) == Some((e.1, e.2)),
        t2 != e.0 ==> tok_lookup(p.push(e), t2) == tok_lookup(p, t2),
    decreases p.len(),
{
    let t = p.push(e);
    if p.len() == 0 {
        assert(t[0] == e);
        assert(t.drop_first() =~= Seq::<(u64, String, u64)>::empty());
        assert(tok_lookup(Seq::<(u64, String, u64)>::empty(), t2) is None);
        assert(tok_lookup(Seq::<(u64, String, u64)>::empty(), e.0) is None);
    } else {
        assert(t[0] == p[0]);
        assert(t.drop_first() =~= p.drop_first().push(e));
        lemma_tok_push(p.drop_first(), e, t2);
    }
}

proof fn lemma_tok_remove(p: Seq<(u64, String, u64)>, i: int, t2: u64)
    requires
        0 <= i < p.len(),
        forall|j: int| 0 <= j < i ==> p[j].0 != p[i].0,
        toks_unique(p),
    ensures
        tok_lookup(p.remove(i), p[i].0) is None,
        t2 != p[i].0 ==> tok_lookup(p.remove(i), t2) == tok_lookup(p, t2),
    decreases p.len(),
{
    let t = p.remove(i);
    if i == 0 {
        assert(t =~= p.drop_first());
        assert forall|j: int| 0 <= j < t.len() implies t[j].0 != p[0].0 by {
            assert(t[j] == p[j + 1]);
        }
        lemma_tok_lookup_none(t, p[0].0);
    } else {
        assert(t[0] == p[0]);
        assert(t.drop_first() =~= p.drop_first().remove(i - 1));
        assert(toks_unique(p.drop_first())) by {
            assert forall|a: int, b: int|
                0 <= a < b < p.drop_first().len() implies p.drop_first()[a].0 != p.drop_first()[
                b
            ].0 by {
                assert(p.drop_first()[a] == p[a + 1]);
                assert(p.drop_first()[b] == p[b + 1]);
            }
        }
        lemma_tok_remove(p.drop_first(), i - 1, t2);
        assert(p.drop_first()[i - 1] == p[i]);
    }
}

/// `p` sits directly in one of `dirs`.
pub open spec fn in_watched_sp(dirs: Seq<Seq<char>>, p: Seq<char>) -> bool {
    exists|i: int| 0 <= i < dirs.len() && #[trigger] paths::is_direct_child_of(p, dirs[i])
}

/// The event shapes the contracts speak of.
pub open spec fn is_created(r: Option<FileEvent>, p: Seq<char>) -> bool {
    r matches Some(FileEvent::Created(x)) && x@ == p
}

pub open spec fn is_deleted(r: Option<FileEvent>, p: Seq<char>) -> bool {
    r matches Some(FileEvent::Deleted(x)) && x@ == p
}

pub open spec fn is_moved(r: Option<FileEvent>, from: Seq<char>, to: Seq<char>) -> bool {
    r matches Some(FileEvent::Moved { from: f, to: t }) && f@ == from && t@ == to
}

pub open spec fn is_modified(r: Option<FileEvent>, p: Seq<char>) -> bool {
    r matches Some(FileEvent::Modified(x)) && x@ == p
}

/// The both-sided rename rule: both parents watched makes a move, only the
/// source's a deletion, only the destination's a creation, neither nothing.
pub open spec fn classified(
    r: Option<FileEvent>,
    dirs: Seq<Seq<char>>,
    from: Seq<char>,
    to: Seq<char>,
) -> bool {
    if in_watched_sp(dirs, from) && in_watched_sp(dirs, to) {
        is_moved(r, from, to)
    } else if in_watched_sp(dirs, from) {
        is_deleted(r, from)
    } else if in_watched_sp(dirs, to) {
        is_created(r, to)
    } else {
        r is None
    }
}

/// The normalizer's state: which directories are watched, and the rename
/// halves still waiting for their counterpart.
#[derive(Debug)]
pub struct EventNormalizer {
    watched_dirs: Vec<String>,
    pending_renames: Vec<(u64, String, u64)>,
}

impl EventNormalizer {
    /// The watched directories, as given to `watch`, in order.
    pub closed spec fn spec_dirs(self) -> Seq<Seq<char>> {
        self.watched_dirs@.map_values(|s: String| s@)
    }

    /// The buffered rename sources: token, source path, queue time.
    pub closed spec fn spec_pending(self) -> Seq<(u64, String, u64)> {
        self.pending_renames@
    }

    /// Buffered correlation tokens are unique.
    pub open spec fn wf(self) -> bool {
        toks_unique(self.spec_pending())
    }

    /// A normalizer watching nothing.
    pub fn new() -> (r: EventNormalizer)
        ensures
            r.wf(),
            r.spec_dirs() == Seq::<Seq<char>>::empty(),
            r.spec_pending() == Seq::<(u64, String, u64)>::empty(),
    {
        let r = EventNormalizer { watched_dirs: Vec::new(), pending_renames: Vec::new() };
        proof {
            assert(r.spec_dirs() =~= Seq::<Seq<char>>::empty());
        }
        r
    }

    /// Watch one more directory. Registration with the OS is the caller's
    /// business; here the directory only joins the membership rule.
    pub fn watch(&mut self, dir: String)
        requires
            old(self).wf(),
        ensures
            final(self).wf(),
            final(self).spec_dirs() == old(self).spec_dirs().push(dir@),
            final(self).spec_pending() == old(self).spec_pending(),
    {
        self.watched_dirs.push(dir);
        proof {
            assert(final(self).spec_dirs() =~= old(self).spec_dirs().push(dir@));
        }
    }

    /// The directories currently watched.
    pub fn watched_directories(&self) -> (r: Vec<String>)
        ensures
            r@.map_values(|s: String| s@) == self.spec_dirs(),
    {
        let r = text::clone_strings(&self.watched_dirs);
        proof {
            assert(r@.map_values(|s: String| s@) =~= self.spec_dirs());
        }
        r
    }

    /// Stop watching every directory with this exact name: the watched
    /// list keeps, in order, those directories that are not `dir`.
    pub fn unwatch(&mut self, dir: &str)
        requires
            old(self).wf(),
        ensures
            final(self).wf(),
            final(self).spec_pending() == old(self).spec_pending(),
            final(self).spec_dirs() == dirs_without(
                old(self).spec_dirs(),
                dir@,
                old(self).spec_dirs().len() as int,
            ),
    {
        let ghost odirs = self.spec_dirs();
        let n = self.watched_dirs.len();
        let mut kept: Vec<String> = Vec::new();
        let mut i: usize = 0;
        proof {
            assert(kept@.map_values(|s: String| s@) =~= dirs_without(odirs, dir@, 0));
        }
        while i < n
            invariant
                i <= n,
                n == self.watched_dirs@.len(),
                odirs == self.spec_dirs(),
                kept@.map_values(|s: String| s@) == dirs_without(odirs, dir@, i as int),
            decreases n - i,
        {
            let ghost pre = kept@.map_values(|s: String| s@);
            if !text::string_eq(&self.watched_dirs[i], dir) {
                kept.push(self.watched_dirs[i].clone());
                proof {
                    assert(kept@.map_values(|s: String| s@) =~= pre.push(odirs[i as int]));
                }
            }
            i += 1;
        }
        self.watched_dirs = kept;
    }

    /// Whether `path` sits directly in a watched directory; membership is
    /// by direct parent only, so subdirectories are not covered.
    pub fn is_in_watched_dir(&self, path: &str) -> (r: bool)
        ensures
            r == in_watched_sp(self.spec_dirs(), path@),
    {
        let pc = text::to_chars(path);
        let n = self.watched_dirs.len();
        let mut i: usize = 0;
        while i < n
            invariant
                i <= n,
                n == self.watched_dirs@.len(),
                pc@ == path@,
                forall|j: int|
                    0 <= j < i ==> !paths::is_direct_child_of(
                        path@,
                        #[trigger] self.spec_dirs()[j],
                    ),
            decreases n - i,
        {
            let dc = text::to_chars(self.watched_dirs[i].as_str());
            if paths::is_direct_child(&pc, &dc) {
                proof {
                    assert(paths::is_direct_child_of(path@, self.spec_dirs()[i as int]));
                }
                return true;
            }
            i += 1;
        }
        false
    }
}

impl EventNormalizer {
    /// Drop every buffered rename source older than the timeout.
    fn evict_expired(&mut self, now_ms: u64)
        requires
            old(self).wf(),
        ensures
            final(self).wf(),
            final(self).spec_dirs() == old(self).spec_dirs(),
            final(self).spec_pending() == evicted_sp(
                old(self).spec_pending(),
                now_ms,
                old(self).spec_pending().len() as int,
            ),
    {
        let ghost op = self.pending_renames@;
        let n = self.pending_renames.len();
        let mut kept: Vec<(u64, String, u64)> = Vec::new();
        let mut i: usize = 0;
        proof {
            assert(kept@ =~= evicted_sp(op, now_ms, 0));
        }
        while i < n
            invariant
                i <= n,
                n == self.pending_renames@.len(),
                op == self.pending_renames@,
                toks_unique(op),
                kept@ == evicted_sp(op, now_ms, i as int),
                forall|a: int|
                    0 <= a < kept@.len() ==> exists|b: int|
                        0 <= b < i && #[trigger] kept@[a] == op[b],
            decreases n - i,
        {
            let e = &self.pending_renames[i];
            let queued = e.2;
            if now_ms < queued || now_ms - queued < RENAME_TIMEOUT_MS {
                let copy = (e.0, e.1.clone(), e.2);
                proof {
                    assert(copy == op[i as int]);
                    assert(kept@.push(copy) =~= evicted_sp(op, now_ms, i + 1 as int));
                }
                kept.push(copy);
            }
            i += 1;
        }
        proof {
            assert forall|a: int, b: int| 0 <= a < b < kept@.len() implies kept@[a].0
                != kept@[b].0 by {
                let x = choose|x: int| 0 <= x < i && #[trigger] kept@[a] == op[x];
                let y = choose|y: int| 0 <= y < i && #[trigger] kept@[b] == op[y];
                if x == y {
                    assert(kept@[a] == kept@[b]);
                    assert(evicted_sp(op, now_ms, i as int)[a] == evicted_sp(
                        op,
                        now_ms,
                        i as int,
                    )[b]);
                    lemma_evicted_distinct(op, now_ms, i as int, a, b);
                }
            }
        }
        self.pending_renames = kept;
    }

    /// Buffer a rename source under its token, replacing any entry the
    /// token already has.
    fn pending_insert(&mut self, tok: u64, path: String, now_ms: u64)
        requires
            old(self).wf(),
        ensures
            final(self).wf(),
            final(self).spec_dirs() == old(self).spec_dirs(),
            tok_lookup(final(self).spec_pending(), tok) == Some((path, now_ms)),
            forall|t2: u64|
                t2 != tok ==> tok_lookup(final(self).spec_pending(), t2) == tok_lookup(
                    old(self).spec_pending(),
                    t2,
                ),
    {
        let ghost op = self.pending_renames@;
        let n = self.pending_renames.len();
        let mut i: usize = 0;
        while i < n
            invariant
                i <= n,
                n == self.pending_renames@.len(),
                op == self.pending_renames@,
                op == old(self).spec_pending(),
                self.watched_dirs@ == old(self).watched_dirs@,
                toks_unique(op),
                forall|j: int| 0 <= j < i ==> op[j].0 != tok,
            decreases n - i,
        {
            if self.pending_renames[i].0 == tok {
                let elem = &mut self.pending_renames[i];
                *elem = (tok, path, now_ms);
                proof {
                    let q = self.spec_pending();
                    assert forall|t2: u64| t2 != tok implies tok_lookup(q, t2) == tok_lookup(
                        op,
                        t2,
                    ) by {
                        lemma_tok_update(op, i as int, q[i as int], t2);
                    }
                    lemma_tok_update(op, i as int, q[i as int], tok);
                    assert forall|a: int, b: int| 0 <= a < b < q.len() implies q[a].0
                        != q[b].0 by {
                        assert(q[a].0 == op[a].0);
                        assert(q[b].0 == op[b].0);
                    }
                }
                return ;
            }
            i += 1;
        }
        proof {
            lemma_tok_lookup_none(op, tok);
        }
        let e = (tok, path, now_ms);
        self.pending_renames.push(e);
        proof {
            let q = self.spec_pending();
            assert forall|t2: u64| t2 != tok implies tok_lookup(q, t2) == tok_lookup(op, t2) by {
                lemma_tok_push(op, e, t2);
            }
            lemma_tok_push(op, e, tok);
            assert forall|a: int, b: int| 0 <= a < b < q.len() implies q[a].0 != q[b].0 by {
                if b == op.len() {
                    assert(q[b].0 == tok);
                    assert(q[a].0 == op[a].0);
                }
            }
        }
    }

    /// Take the buffered source of a token out of the buffer.
    fn pending_take(&mut self, tok: u64) -> (r: Option<String>)
        requires
            old(self).wf(),
        ensures
            final(self).wf(),
            final(self).spec_dirs() == old(self).spec_dirs(),
            match r {
                Some(p) => {
                    &&& tok_lookup(old(self).spec_pending(), tok) matches Some(pr) && pr.0 == p
                    &&& tok_lookup(final(self).spec_pending(), tok) is None
                    &&& forall|t2: u64|
                        t2 != tok ==> tok_lookup(final(self).spec_pending(), t2) == tok_lookup(
                            old(self).spec_pending(),
                            t2,
                        )
                },
                None => tok_lookup(old(self).spec_pending(), tok) is None && *final(self) == *old(
                    self,
                ),
            },
    {
        let ghost op = self.pending_renames@;
        let n = self.pending_renames.len();
        let mut i: usize = 0;
        while i < n
            invariant
                i <= n,
                n == self.pending_renames@.len(),
                op == self.pending_renames@,
                op == old(self).spec_pending(),
                *self == *old(self),
                toks_unique(op),
                forall|j: int| 0 <= j < i ==> op[j].0 != tok,
            decreases n - i,
        {
            if self.pending_renames[i].0 == tok {
                proof {
                    lemma_tok_lookup_at(op, tok, i as int);
                }
                let e = self.pending_renames.remove(i);
                proof {
                    let q = self.spec_pending();
                    assert forall|t2: u64| t2 != tok implies tok_lookup(q, t2) == tok_lookup(
                        op,
                        t2,
                    ) by {
                        lemma_tok_remove(op, i as int, t2);
                    }
                    lemma_tok_remove(op, i as int, tok);
                    assert forall|a: int, b: int| 0 <= a < b < q.len() implies q[a].0
                        != q[b].0 by {
                        assert(q =~= op.remove(i as int));
                        if a < i {
                            assert(q[a] == op[a]);
                        } else {
                            assert(q[a] == op[a + 1]);
                        }
                        if b < i {
                            assert(q[b] == op[b]);
                        } else {
                            assert(q[b] == op[b + 1]);
                        }
                    }
                }
                return Some(e.1);
            }
            i += 1;
        }
        proof {
            lemma_tok_lookup_none(op, tok);
        }
        None
    }

    /// Classify a rename by which of its two parents is watched.
    fn classify(&self, from: String, to: String) -> (r: Option<FileEvent>)
        ensures
            classified(r, self.spec_dirs(), from@, to@),
    {
        let fw = self.is_in_watched_dir(from.as_str());
        let tw = self.is_in_watched_dir(to.as_str());
        if fw && tw {
            Some(FileEvent::Moved { from, to })
        } else if fw {
            Some(FileEvent::Deleted(from))
        } else if tw {
            Some(FileEvent::Created(to))
        } else {
            None
        }
    }

    /// Turn one raw notification into at most one normalized event.
    ///
    /// Expired rename sources are evicted first, on every call. A plain
    /// creation, removal or content change in a watched directory passes
    /// through; a split rename's source is buffered under its token until
    /// its destination arrives or the timeout passes, and an unpairable
    /// half degrades to a deletion or creation; a rename carrying both
    /// paths is classified at once.
    pub fn process_event(&mut self, raw: RawNotification, now_ms: u64) -> (r: Option<FileEvent>)
        requires
            old(self).wf(),
        ensures
            final(self).wf(),
            final(self).spec_dirs() == old(self).spec_dirs(),
            ({
                let ev = evicted_sp(
                    old(self).spec_pending(),
                    now_ms,
                    old(self).spec_pending().len() as int,
                );
                let dirs = old(self).spec_dirs();
                match raw.kind {
                    RawKind::CreateFile => final(self).spec_pending() == ev && (if raw.paths@.len()
                        > 0 && in_watched_sp(dirs, raw.paths@[0]@) {
                        is_created(r, raw.paths@[0]@)
                    } else {
                        r is None
                    }),
                    RawKind::CreateOther => final(self).spec_pending() == ev && (if raw.paths@.len()
                        > 0 && raw.is_file && in_watched_sp(dirs, raw.paths@[0]@) {
                        is_created(r, raw.paths@[0]@)
                    } else {
                        r is None
                    }),
                    RawKind::RemoveFile => final(self).spec_pending() == ev && (if raw.paths@.len()
                        > 0 && in_watched_sp(dirs, raw.paths@[0]@) {
                        is_deleted(r, raw.paths@[0]@)
                    } else {
                        r is None
                    }),
                    RawKind::RemoveOther => final(self).spec_pending() == ev && (if raw.paths@.len()
                        > 0 && in_watched_sp(dirs, raw.paths@[0]@) {
                        is_deleted(r, raw.paths@[0]@)
                    } else {
                        r is None
                    }),
                    RawKind::DataModified => final(self).spec_pending() == ev && (
                    if raw.paths@.len() > 0 && in_watched_sp(dirs, raw.paths@[0]@) {
                        is_modified(r, raw.paths@[0]@)
                    } else {
                        r is None
                    }),
                    RawKind::RenameFrom => if raw.paths@.len() == 0 {
                        final(self).spec_pending() == ev && r is None
                    } else {
                        match raw.tracker {
                            Some(tok) => {
                                &&& r is None
                                &&& tok_lookup(final(self).spec_pending(), tok) matches Some(pr)
                                    && pr.0@ == raw.paths@[0]@ && pr.1 == now_ms
                                &&& forall|t2: u64|
                                    t2 != tok ==> tok_lookup(final(self).spec_pending(), t2)
                                        == tok_lookup(ev, t2)
                            },
                            None => final(self).spec_pending() == ev && (if in_watched_sp(
                                dirs,
                                raw.paths@[0]@,
                            ) {
                                is_deleted(r, raw.paths@[0]@)
                            } else {
                                r is None
                            }),
                        }
                    },
                    RawKind::RenameTo => if raw.paths@.len() == 0 {
                        final(self).spec_pending() == ev && r is None
                    } else {
                        match raw.tracker {
                            Some(tok) => match tok_lookup(ev, tok) {
                                Some(pr) => {
                                    &&& classified(r, dirs, pr.0@, raw.paths@[0]@)
                                    &&& tok_lookup(final(self).spec_pending(), tok) is None
                                    &&& forall|t2: u64|
                                        t2 != tok ==> tok_lookup(final(self).spec_pending(), t2)
                                            == tok_lookup(ev, t2)
                                },
                                None => final(self).spec_pending() == ev && (if in_watched_sp(
                                    dirs,
                                    raw.paths@[0]@,
                                ) {
                                    is_created(r, raw.paths@[0]@)
                                } else {
                                    r is None
                                }),
                            },
                            None => final(self).spec_pending() == ev && (if in_watched_sp(
                                dirs,
                                raw.paths@[0]@,
                            ) {
                                is_created(r, raw.paths@[0]@)
                            } else {
                                r is None
                            }),
                        }
                    },
                    RawKind::RenameBoth => final(self).spec_pending() == ev && (
                    if raw.paths@.len() >= 2 {
                        classified(r, dirs, raw.paths@[0]@, raw.paths@[1]@)
                    } else {
                        r is None
                    }),
                    RawKind::Other => final(self).spec_pending() == ev && r is None,
                }
            }),
    {
        self.evict_expired(now_ms);
        match raw.kind {
            RawKind::CreateFile => {
                if raw.paths.len() > 0 && self.is_in_watched_dir(raw.paths[0].as_str()) {
                    Some(FileEvent::Created(raw.paths[0].clone()))
                } else {
                    None
                }
            },
            RawKind::CreateOther => {
                if raw.paths.len() > 0 && raw.is_file && self.is_in_watched_dir(
                    raw.paths[0].as_str(),
                ) {
                    Some(FileEvent::Created(raw.paths[0].clone()))
                } else {
                    None
                }
            },
            RawKind::RemoveFile => {
                if raw.paths.len() > 0 && self.is_in_watched_dir(raw.paths[0].as_str()) {
                    Some(FileEvent::Deleted(raw.paths[0].clone()))
                } else {
                    None
                }
            },
            RawKind::RemoveOther => {
                if raw.paths.len() > 0 && self.is_in_watched_dir(raw.paths[0].as_str()) {
                    Some(FileEvent::Deleted(raw.paths[0].clone()))
                } else {
                    None
                }
            },
            RawKind::DataModified => {
                if raw.paths.len() > 0 && self.is_in_watched_dir(raw.paths[0].as_str()) {
                    Some(FileEvent::Modified(raw.paths[0].clone()))
                } else {
                    None
                }
            },
            RawKind::RenameFrom => {
                if raw.paths.len() == 0 {
                    return None;
                }
                match raw.tracker {
                    Some(tok) => {
                        self.pending_insert(tok, raw.paths[0].clone(), now_ms);
                        None
                    },
                    None => {
                        if self.is_in_watched_dir(raw.paths[0].as_str()) {
                            Some(FileEvent::Deleted(raw.paths[0].clone()))
                        } else {
                            None
                        }
                    },
                }
            },
            RawKind::RenameTo => {
                if raw.paths.len() == 0 {
                    return None;
                }
                let to = raw.paths[0].clone();
                match raw.tracker {
                    Some(tok) => {
                        match self.pending_take(tok) {
                            Some(from) => self.classify(from, to),
                            None => {
                                if self.is_in_watched_dir(to.as_str()) {
                                    Some(FileEvent::Created(to))
                                } else {
                                    None
                                }
                            },
                        }
                    },
                    None => {
                        if self.is_in_watched_dir(to.as_str()) {
                            Some(FileEvent::Created(to))
                        } else {
                            None
                        }
                    },
                }
            },
            RawKind::RenameBoth => {
                if raw.paths.len() >= 2 {
                    self.classify(raw.paths[0].clone(), raw.paths[1].clone())
                } else {
                    None
                }
            },
            RawKind::Other => None,
        }
    }
}

proof fn lemma_evicted_distinct(
    p: Seq<(u64, String, u64)>,
    now: u64,
    n: int,
    a: int,
    b: int,
)
    requires
        toks_unique(p),
        0 <= n <= p.len(),
        0 <= a < b < evicted_sp(p, now, n).len(),
    ensures
        evicted_sp(p, now, n)[a].0 != evicted_sp(p, now, n)[b].0,
    decreases n,
{
    if n > 0 {
        let prev = evicted_sp(p, now, n - 1);
        if keep_at(p[n - 1].2, now) {
            if b < prev.len() {
                lemma_evicted_distinct(p, now, n - 1, a, b);
            } else {
                // the last kept element comes from p[n-1]; earlier kept
                // elements come from earlier positions
                lemma_evicted_from(p, now, n - 1, a);
            }
        } else {
            lemma_evicted_distinct(p, now, n - 1, a, b);
        }
    }
}

/// Every surviving entry is one of the first `n` buffered entries.
proof fn lemma_evicted_from(p: Seq<(u64, String, u64)>, now: u64, n: int, a: int)
    requires
        0 <= n <= p.len(),
        0 <= a < evicted_sp(p, now, n).len(),
    ensures
        exists|k: int| 0 <= k < n && evicted_sp(p, now, n)[a] == p[k],
    decreases n,
{
    if n > 0 {
        let prev = evicted_sp(p, now, n - 1);
        if a < prev.len() {
            lemma_evicted_from(p, now, n - 1, a);
            let k = choose|k: int| 0 <= k < n - 1 && evicted_sp(p, now, n - 1)[a] == p[k];
            assert(evicted_sp(p, now, n)[a] == p[k]);
        } else {
            assert(keep_at(p[n - 1].2, now));
            assert(evicted_sp(p, now, n)[a] == p[n - 1]);
        }
    }
}

/// The directories among the first `n` that are not `dir`, in order.
pub open spec fn dirs_without(dirs: Seq<Seq<char>>, dir: Seq<char>, n: int) -> Seq<Seq<char>>
    decreases n,
{
    if n <= 0 {
        Seq::empty()
    } else {
        dirs_without(dirs, dir, n - 1) + (if dirs[n - 1] != dir {
            seq![dirs[n - 1]]
        } else {
            Seq::empty()
        })
    }
}

} // verus!
