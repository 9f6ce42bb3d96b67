//! The integration store: the persisted, identifier-keyed table of
//! currently integrated bundles, with its derived path index.
//!
//! The record list is the persisted truth; the path index is rebuilt from
//! it on every load and kept in lockstep by every mutation. Reading and
//! writing the persisted document is the caller's business: the store
//! itself is in-memory only.

use vstd::prelude::*;
use vstd::string::StringExecFns;
use crate::text;

verus! {

/// One integrated bundle.
#[derive(Debug)]
pub struct IntegratedAppImage {
    /// Digest of the bundle's original path; never changes once assigned.
    pub identifier: String,
    /// Where the bundle currently sits.
    pub appimage_path: String,
    /// The installed menu-entry file.
    pub desktop_path: String,
    /// The installed icon files.
    pub icon_paths: Vec<String>,
    /// Display name taken from the menu entry.
    pub name: Option<String>,
    /// When the bundle was integrated.
    pub integrated_at: u64,
    /// When this record last changed.
    pub updated_at: u64,
}

impl Clone for IntegratedAppImage {
    fn clone(&self) -> (res: Self)
        ensures
            res.identifier == self.identifier,
            res.appimage_path == self.appimage_path,
            res.desktop_path == self.desktop_path,
            res.icon_paths@ == self.icon_paths@,
            res.name == self.name,
            res.integrated_at == self.integrated_at,
            res.updated_at == self.updated_at,
    {
        IntegratedAppImage {
            identifier: self.identifier.clone(),
            appimage_path: self.appimage_path.clone(),
            desktop_path: self.desktop_path.clone(),
            icon_paths: text::clone_strings(&self.icon_paths),
            name: match &self.name {
                Some(s) => Some(s.clone()),
                None => None,
            },
            integrated_at: self.integrated_at,
            updated_at: self.updated_at,
        }
    }
}

/// The returned record carries the same data as the stored one.
pub open spec fn rec_like(a: IntegratedAppImage, b: IntegratedAppImage) -> bool {
    &&& a.identifier == b.identifier
    &&& a.appimage_path == b.appimage_path
    &&& a.desktop_path == b.desktop_path
    &&& a.icon_paths@ == b.icon_paths@
    &&& a.name == b.name
    &&& a.integrated_at == b.integrated_at
    &&& a.updated_at == b.updated_at
}

/// Identifiers and paths are unique across the records.
pub open spec fn records_wf(s: Seq<IntegratedAppImage>) -> bool {
    &&& forall|i: int, j: int|
        0 <= i < j < s.len() ==> s[i].identifier@ != s[j].identifier@
    &&& forall|i: int, j: int|
        0 <= i < j < s.len() ==> s[i].appimage_path@ != s[j].appimage_path@
}

/// The store: the record list and, aligned with it entry for entry, the
/// derived index from bundle path to identifier.
#[derive(Debug)]
pub struct State {
    integrated: Vec<IntegratedAppImage>,
    path_index: Vec<(String, String)>,
}

impl State {
    /// The records, in storage order.
    pub closed spec fn spec_records(self) -> Seq<IntegratedAppImage> {
        self.integrated@
    }

    /// The derived index: pairs of bundle path and identifier.
    pub closed spec fn spec_index(self) -> Seq<(String, String)> {
        self.path_index@
    }

    /// The index is exactly the records' path and identifier columns, and
    /// both keys are unique.
    pub open spec fn wf(self) -> bool {
        &&& records_wf(self.spec_records())
        &&& self.spec_index().len() == self.spec_records().len()
        &&& forall|i: int|
            0 <= i < self.spec_records().len() ==> (#[trigger] self.spec_index()[i]).0@
                == self.spec_records()[i].appimage_path@ && self.spec_index()[i].1@
                == self.spec_records()[i].identifier@
    }

    /// Some record carries this identifier.
    pub open spec fn spec_contains_id(self, id: Seq<char>) -> bool {
        exists|i: int|
            0 <= i < self.spec_records().len() && (#[trigger] self.spec_records()[i]).identifier@
                == id
    }

    /// Some record carries this bundle path.
    pub open spec fn spec_is_integrated(self, path: Seq<char>) -> bool {
        exists|i: int|
            0 <= i < self.spec_records().len() && (#[trigger] self.spec_records()[
                i
            ]).appimage_path@ == path
    }

    /// An empty store.
    pub fn new() -> (r: State)
        ensures
            r.wf(),
            r.spec_records() == Seq::<IntegratedAppImage>::empty(),
    {
        State { integrated: Vec::new(), path_index: Vec::new() }
    }

    /// The number of integrated bundles.
    pub fn count(&self) -> (r: usize)
        ensures
            r == self.spec_records().len(),
    {
        self.integrated.len()
    }

    /// Whether the bundle at `path` is integrated.
    pub fn is_integrated(&self, path: &str) -> (r: bool)
        requires
            self.wf(),
        ensures
            r == self.spec_is_integrated(path@),
    {
        let n = self.path_index.len();
        let mut i: usize = 0;
        while i < n
            invariant
                i <= n,
                n == self.spec_index().len(),
                self.wf(),
                forall|j: int| 0 <= j < i ==> self.spec_records()[j].appimage_path@ != path@,
            decreases n - i,
        {
            let p = &self.path_index[i];
            if text::string_eq(&p.0, path) {
                return true;
            }
            i += 1;
        }
        false
    }

    /// Find the position of a record by identifier.
    fn find_id(&self, identifier: &str) -> (r: Option<usize>)
        ensures
            match r {
                Some(i) => i < self.spec_records().len() && self.spec_records()[
                    i as int
                ].identifier@ == identifier@,
                None => !self.spec_contains_id(identifier@),
            },
    {
        let n = self.integrated.len();
        let mut i: usize = 0;
        while i < n
            invariant
                i <= n,
                n == self.spec_records().len(),
                forall|j: int| 0 <= j < i ==> self.spec_records()[j].identifier@ != identifier@,
            decreases n - i,
        {
            if text::string_eq(&self.integrated[i].identifier, identifier) {
                return Some(i);
            }
            i += 1;
        }
        None
    }

    /// Find the position of a record by bundle path.
    fn find_path(&self, path: &str) -> (r: Option<usize>)
        ensures
            match r {
                Some(i) => i < self.spec_records().len() && self.spec_records()[
                    i as int
                ].appimage_path@ == path@,
                None => !self.spec_is_integrated(path@),
            },
    {
        let n = self.integrated.len();
        let mut i: usize = 0;
        while i < n
            invariant
                i <= n,
                n == self.spec_records().len(),
                forall|j: int| 0 <= j < i ==> self.spec_records()[j].appimage_path@ != path@,
            decreases n - i,
        {
            if text::string_eq(&self.integrated[i].appimage_path, path) {
                return Some(i);
            }
            i += 1;
        }
        None
    }

    /// Add a record, or replace the record carrying the same identifier.
    /// A caller may not bind an existing path to a new identifier.
    pub fn add(&mut self, info: IntegratedAppImage)
        requires
            old(self).wf(),
            forall|i: int|
                0 <= i < old(self).spec_records().len() ==> ((#[trigger] old(self).spec_records()[
                    i
                ]).appimage_path@ == info.appimage_path@ ==> old(self).spec_records()[
                    i
                ].identifier@ == info.identifier@),
        ensures
            final(self).wf(),
            final(self).spec_contains_id(info.identifier@),
            !old(self).spec_contains_id(info.identifier@) ==> final(self).spec_records() == old(
                self,
            ).spec_records().push(info),
            old(self).spec_contains_id(info.identifier@) ==> exists|i: int|
                0 <= i < old(self).spec_records().len() && (#[trigger] old(self).spec_records()[
                    i
                ]).identifier@ == info.identifier@ && final(self).spec_records() == old(
                    self,
                ).spec_records().update(i, info),
    {
        let id_clone = info.identifier.clone();
        let path_clone = info.appimage_path.clone();
        match self.find_id(id_clone.as_str()) {
            Some(i) => {
                let elem = &mut self.integrated[i];
                *elem = info;
                let ix = &mut self.path_index[i];
                *ix = (path_clone, id_clone);
                proof {
                    assert(final(self).spec_records() =~= old(self).spec_records().update(
                        i as int,
                        info,
                    ));
                    assert(final(self).spec_records()[i as int].identifier@ == info.identifier@);
                }
            },
            None => {
                self.integrated.push(info);
                self.path_index.push((path_clone, id_clone));
                proof {
                    assert(final(self).spec_records() =~= old(self).spec_records().push(info));
                    assert(final(self).spec_records()[old(self).spec_records().len() as int].identifier@
                        == info.identifier@);
                }
            },
        }
    }
}

impl State {
    /// Remove the record carrying `identifier`, returning it.
    pub fn remove(&mut self, identifier: &str) -> (r: Option<IntegratedAppImage>)
        requires
            old(self).wf(),
        ensures
            final(self).wf(),
            match r {
                Some(rec) => exists|i: int|
                    0 <= i < old(self).spec_records().len() && (#[trigger] old(
                        self,
                    ).spec_records()[i]).identifier@ == identifier@ && rec == old(
                        self,
                    ).spec_records()[i] && final(self).spec_records() == old(
                        self,
                    ).spec_records().remove(i),
                None => !old(self).spec_contains_id(identifier@) && *final(self) == *old(self),
            },
    {
        match self.find_id(identifier) {
            Some(i) => {
                let rec = self.integrated.remove(i);
                let _ix = self.path_index.remove(i);
                proof {
                    let pre = old(self).spec_records();
                    assert(final(self).spec_records() =~= pre.remove(i as int));
                    assert(pre[i as int].identifier@ == identifier@);
                }
                Some(rec)
            },
            None => None,
        }
    }

    /// Remove the record at `path`, returning it.
    pub fn remove_by_path(&mut self, path: &str) -> (r: Option<IntegratedAppImage>)
        requires
            old(self).wf(),
        ensures
            final(self).wf(),
            match r {
                Some(rec) => exists|i: int|
                    0 <= i < old(self).spec_records().len() && (#[trigger] old(
                        self,
                    ).spec_records()[i]).appimage_path@ == path@ && rec == old(
                        self,
                    ).spec_records()[i] && final(self).spec_records() == old(
                        self,
                    ).spec_records().remove(i),
                None => !old(self).spec_is_integrated(path@) && *final(self) == *old(self),
            },
    {
        match self.find_path(path) {
            Some(i) => {
                let rec = self.integrated.remove(i);
                let _ix = self.path_index.remove(i);
                proof {
                    let pre = old(self).spec_records();
                    assert(final(self).spec_records() =~= pre.remove(i as int));
                    assert(pre[i as int].appimage_path@ == path@);
                }
                Some(rec)
            },
            None => None,
        }
    }

    /// A copy of the record carrying `identifier`, if any.
    pub fn get(&self, identifier: &str) -> (r: Option<IntegratedAppImage>)
        ensures
            match r {
                Some(rec) => exists|i: int|
                    0 <= i < self.spec_records().len() && (#[trigger] self.spec_records()[
                        i
                    ]).identifier@ == identifier@ && rec_like(rec, self.spec_records()[i]),
                None => !self.spec_contains_id(identifier@),
            },
    {
        match self.find_id(identifier) {
            Some(i) => {
                let rec = self.integrated[i].clone();
                proof {
                    assert(self.spec_records()[i as int].identifier@ == identifier@);
                }
                Some(rec)
            },
            None => None,
        }
    }

    /// A copy of the record at `path`, if any.
    pub fn get_by_path(&self, path: &str) -> (r: Option<IntegratedAppImage>)
        ensures
            match r {
                Some(rec) => exists|i: int|
                    0 <= i < self.spec_records().len() && (#[trigger] self.spec_records()[
                        i
                    ]).appimage_path@ == path@ && rec_like(rec, self.spec_records()[i]),
                None => !self.spec_is_integrated(path@),
            },
    {
        match self.find_path(path) {
            Some(i) => {
                let rec = self.integrated[i].clone();
                proof {
                    assert(self.spec_records()[i as int].appimage_path@ == path@);
                }
                Some(rec)
            },
            None => None,
        }
    }

    /// Re-key a moved bundle: only the record's path and update stamp
    /// change; the identifier and everything else stay. The new path may
    /// not belong to a different record. See [`moved_record`].
    pub fn update_path(&mut self, old_path: &str, new_path: &str, now: u64) -> (r: Option<
        IntegratedAppImage,
    >)
        requires
            old(self).wf(),
            forall|i: int|
                0 <= i < old(self).spec_records().len() ==> ((#[trigger] old(self).spec_records()[
                    i
                ]).appimage_path@ == new_path@ ==> old(self).spec_records()[i].appimage_path@
                    == old_path@),
        ensures
            final(self).wf(),
            match r {
                Some(rec) => exists|i: int|
                    {
                        &&& 0 <= i < old(self).spec_records().len()
                        &&& (#[trigger] old(self).spec_records()[i]).appimage_path@ == old_path@
                        &&& final(self).spec_records().len() == old(self).spec_records().len()
                        &&& (forall|j: int|
                            0 <= j < old(self).spec_records().len() && j != i
                                ==> #[trigger] final(self).spec_records()[j] == old(
                                self,
                            ).spec_records()[j])
                        &&& moved_record(
                            old(self).spec_records()[i],
                            final(self).spec_records()[i],
                            new_path@,
                            now,
                        )
                        &&& rec_like(rec, final(self).spec_records()[i])
                    },
                None => !old(self).spec_is_integrated(old_path@) && *final(self) == *old(self),
            },
    {
        match self.find_path(old_path) {
            Some(i) => {
                let idc = self.integrated[i].identifier.clone();
                let np1 = String::from_str(new_path);
                let np2 = np1.clone();
                let elem = &mut self.integrated[i];
                elem.appimage_path = np1;
                elem.updated_at = now;
                let ix = &mut self.path_index[i];
                *ix = (np2, idc);
                let rec = self.integrated[i].clone();
                proof {
                    assert(old(self).spec_records()[i as int].appimage_path@ == old_path@);
                }
                Some(rec)
            },
            None => None,
        }
    }

    /// Copies of all records, in storage order.
    pub fn all(&self) -> (r: Vec<IntegratedAppImage>)
        ensures
            r@.len() == self.spec_records().len(),
            forall|i: int|
                0 <= i < r@.len() ==> rec_like(#[trigger] r@[i], self.spec_records()[i]),
    {
        let n = self.integrated.len();
        let mut r: Vec<IntegratedAppImage> = Vec::new();
        let mut i: usize = 0;
        while i < n
            invariant
                i <= n,
                n == self.spec_records().len(),
                r@.len() == i,
                forall|j: int| 0 <= j < i ==> rec_like(#[trigger] r@[j], self.spec_records()[j]),
            decreases n - i,
        {
            r.push(self.integrated[i].clone());
            i += 1;
        }
        r
    }
}

/// A record after its bundle moved: the path is the new one and the update
/// stamp the given moment; the identifier and every other field are those
/// of the old record.
pub open spec fn moved_record(
    o: IntegratedAppImage,
    nrec: IntegratedAppImage,
    new_path: Seq<char>,
    now: u64,
) -> bool {
    &&& nrec.identifier == o.identifier
    &&& nrec.desktop_path == o.desktop_path
    &&& nrec.icon_paths == o.icon_paths
    &&& nrec.name == o.name
    &&& nrec.integrated_at == o.integrated_at
    &&& nrec.appimage_path@ == new_path
    &&& nrec.updated_at == now
}

/// The records among the first `n` whose bundle path is not in `existing`,
/// in storage order.
pub open spec fn orphans_sp(
    records: Seq<IntegratedAppImage>,
    existing: Seq<Seq<char>>,
    n: int,
) -> Seq<IntegratedAppImage>
    decreases n,
{
    if n <= 0 {
        Seq::empty()
    } else {
        orphans_sp(records, existing, n - 1) + (if !existing.contains(
            records[n - 1].appimage_path@,
        ) {
            seq![records[n - 1]]
        } else {
            Seq::empty()
        })
    }
}

/// Whether `s` occurs among the strings of `v`.
fn contains_string(v: &Vec<String>, s: &String) -> (r: bool)
    ensures
        r == v@.map_values(|x: String| x@).contains(s@),
{
    let ghost m = v@.map_values(|x: String| x@);
    let n = v.len();
    let mut i: usize = 0;
    while i < n
        invariant
            i <= n,
            n == v@.len(),
            m == v@.map_values(|x: String| x@),
            forall|j: int| 0 <= j < i ==> m[j] != s@,
        decreases n - i,
    {
        if text::string_eq(&v[i], s.as_str()) {
            proof {
                assert(m[i as int] == s@);
            }
            return true;
        }
        i += 1;
    }
    proof {
        assert(!m.contains(s@));
    }
    false
}

impl State {
    /// The records whose bundle path is not among `existing_paths`: the
    /// caller passes the record paths it found present on disk, and gets
    /// back copies of the orphaned records.
    pub fn find_orphaned(&self, existing_paths: &Vec<String>) -> (r: Vec<IntegratedAppImage>)
        ensures
            ({
                let o = orphans_sp(
                    self.spec_records(),
                    existing_paths@.map_values(|s: String| s@),
                    self.spec_records().len() as int,
                );
                r@.len() == o.len() && forall|i: int|
                    0 <= i < r@.len() ==> rec_like(#[trigger] r@[i], o[i])
            }),
    {
        let ghost ex = existing_paths@.map_values(|s: String| s@);
        let n = self.integrated.len();
        let mut r: Vec<IntegratedAppImage> = Vec::new();
        let mut i: usize = 0;
        while i < n
            invariant
                i <= n,
                n == self.spec_records().len(),
                ex == existing_paths@.map_values(|s: String| s@),
                ({
                    let o = orphans_sp(self.spec_records(), ex, i as int);
                    r@.len() == o.len() && forall|j: int|
                        0 <= j < r@.len() ==> rec_like(#[trigger] r@[j], o[j])
                }),
            decreases n - i,
        {
            if !contains_string(existing_paths, &self.integrated[i].appimage_path) {
                r.push(self.integrated[i].clone());
            }
            i += 1;
        }
        r
    }
}

/// The records among the first `n` whose bundle path is in `existing`, in
/// storage order: what survives an orphan cleanup.
pub open spec fn kept_sp(
    records: Seq<IntegratedAppImage>,
    existing: Seq<Seq<char>>,
    n: int,
) -> Seq<IntegratedAppImage>
    decreases n,
{
    if n <= 0 {
        Seq::empty()
    } else {
        kept_sp(records, existing, n - 1) + (if existing.contains(records[n - 1].appimage_path@) {
            seq![records[n - 1]]
        } else {
            Seq::empty()
        })
    }
}

proof fn lemma_kept_from(
    records: Seq<IntegratedAppImage>,
    existing: Seq<Seq<char>>,
    n: int,
    a: int,
)
    requires
        0 <= n <= records.len(),
        0 <= a < kept_sp(records, existing, n).len(),
    ensures
        exists|k: int| 0 <= k < n && kept_sp(records, existing, n)[a] == records[k],
    decreases n,
{
    if n > 0 {
        let prev = kept_sp(records, existing, n - 1);
        if a < prev.len() {
            lemma_kept_from(records, existing, n - 1, a);
            let k = choose|k: int| 0 <= k < n - 1 && kept_sp(records, existing, n - 1)[a]
                == records[k];
            assert(kept_sp(records, existing, n)[a] == records[k]);
        } else {
            assert(existing.contains(records[n - 1].appimage_path@));
            assert(kept_sp(records, existing, n)[a] == records[n - 1]);
        }
    }
}

proof fn lemma_kept_distinct(
    records: Seq<IntegratedAppImage>,
    existing: Seq<Seq<char>>,
    n: int,
    a: int,
    b: int,
)
    requires
        records_wf(records),
        0 <= n <= records.len(),
        0 <= a < b < kept_sp(records, existing, n).len(),
    ensures
        kept_sp(records, existing, n)[a].identifier@ != kept_sp(records, existing, n)[
            b
        ].identifier@,
        kept_sp(records, existing, n)[a].appimage_path@ != kept_sp(records, existing, n)[
            b
        ].appimage_path@,
    decreases n,
{
    if n > 0 {
        let prev = kept_sp(records, existing, n - 1);
        if b < prev.len() {
            lemma_kept_distinct(records, existing, n - 1, a, b);
        } else if kept_sp(records, existing, n).len() > prev.len() {
            lemma_kept_from(records, existing, n - 1, a);
            let k = choose|k: int| 0 <= k < n - 1 && kept_sp(records, existing, n - 1)[a]
                == records[k];
            assert(kept_sp(records, existing, n)[b] == records[n - 1]);
            assert(kept_sp(records, existing, n)[a] == records[k]);
        } else {
            lemma_kept_distinct(records, existing, n - 1, a, b);
        }
    }
}

impl State {
    /// Remove every record whose bundle path is not among
    /// `existing_paths`, returning the removed records — together with
    /// their installed menu-entry and icon paths — for the caller to
    /// clean up on disk.
    pub fn remove_orphaned(&mut self, existing_paths: &Vec<String>) -> (r: Vec<
        IntegratedAppImage,
    >)
        requires
            old(self).wf(),
        ensures
            final(self).wf(),
            final(self).spec_records() == kept_sp(
                old(self).spec_records(),
                existing_paths@.map_values(|s: String| s@),
                old(self).spec_records().len() as int,
            ),
            r@ == orphans_sp(
                old(self).spec_records(),
                existing_paths@.map_values(|s: String| s@),
                old(self).spec_records().len() as int,
            ),
    {
        let ghost op = self.integrated@;
        let ghost ex = existing_paths@.map_values(|s: String| s@);
        let n = self.integrated.len();
        let mut kept: Vec<IntegratedAppImage> = Vec::new();
        let mut kidx: Vec<(String, String)> = Vec::new();
        let mut orph: Vec<IntegratedAppImage> = Vec::new();
        let mut i: usize = 0;
        proof {
            assert(self.integrated@ =~= op.subrange(0, n as int));
        }
        while i < n
            invariant
                i <= n,
                n == op.len(),
                ex == existing_paths@.map_values(|s: String| s@),
                self.integrated@ == op.subrange(i as int, n as int),
                kept@ == kept_sp(op, ex, i as int),
                orph@ == orphans_sp(op, ex, i as int),
                kidx@.len() == kept@.len(),
                forall|k: int|
                    0 <= k < kept@.len() ==> (#[trigger] kidx@[k]).0@ == kept@[k].appimage_path@
                        && kidx@[k].1@ == kept@[k].identifier@,
            decreases n - i,
        {
            let rec = self.integrated.remove(0);
            proof {
                assert(rec == op[i as int]);
                assert(self.integrated@ =~= op.subrange(i + 1 as int, n as int));
            }
            if contains_string(existing_paths, &rec.appimage_path) {
                proof {
                    assert(kept@.push(rec) =~= kept_sp(op, ex, i + 1 as int));
                    assert(orph@ =~= orphans_sp(op, ex, i + 1 as int));
                }
                kidx.push((rec.appimage_path.clone(), rec.identifier.clone()));
                kept.push(rec);
            } else {
                proof {
                    assert(orph@.push(rec) =~= orphans_sp(op, ex, i + 1 as int));
                    assert(kept@ =~= kept_sp(op, ex, i + 1 as int));
                }
                orph.push(rec);
            }
            i += 1;
        }
        proof {
            assert forall|a: int, b: int| 0 <= a < b < kept@.len() implies kept@[a].identifier@
                != kept@[b].identifier@ && kept@[a].appimage_path@ != kept@[
                b
            ].appimage_path@ by {
                lemma_kept_distinct(op, ex, n as int, a, b);
            }
        }
        self.integrated = kept;
        self.path_index = kidx;
        orph
    }
}

/// The records among the first `n` whose bundle path lies in `dir`.
pub open spec fn in_directory_sp(
    records: Seq<IntegratedAppImage>,
    dir: Seq<char>,
    n: int,
) -> Seq<IntegratedAppImage>
    decreases n,
{
    if n <= 0 {
        Seq::empty()
    } else {
        in_directory_sp(records, dir, n - 1) + (if crate::paths::in_dir_sp(
            records[n - 1].appimage_path@,
            dir,
        ) {
            seq![records[n - 1]]
        } else {
            Seq::empty()
        })
    }
}

impl State {
    /// Copies of the records whose bundle sits in `dir` (itself or any
    /// level below it).
    pub fn find_in_directory(&self, dir: &str) -> (r: Vec<IntegratedAppImage>)
        ensures
            ({
                let o = in_directory_sp(
                    self.spec_records(),
                    dir@,
                    self.spec_records().len() as int,
                );
                r@.len() == o.len() && forall|i: int|
                    0 <= i < r@.len() ==> rec_like(#[trigger] r@[i], o[i])
            }),
    {
        let dc = text::to_chars(dir);
        let n = self.integrated.len();
        let mut r: Vec<IntegratedAppImage> = Vec::new();
        let mut i: usize = 0;
        while i < n
            invariant
                i <= n,
                n == self.spec_records().len(),
                dc@ == dir@,
                ({
                    let o = in_directory_sp(self.spec_records(), dir@, i as int);
                    r@.len() == o.len() && forall|j: int|
                        0 <= j < r@.len() ==> rec_like(#[trigger] r@[j], o[j])
                }),
            decreases n - i,
        {
            let pc = text::to_chars(self.integrated[i].appimage_path.as_str());
            if crate::paths::path_in_dir(&pc, &dc) {
                r.push(self.integrated[i].clone());
            }
            i += 1;
        }
        r
    }

    /// Rebuild a store from its persisted record list, deriving the path
    /// index anew. Refused when two records share an identifier or a
    /// bundle path.
    pub fn load_from_records(records: Vec<IntegratedAppImage>) -> (r: Option<State>)
        ensures
            match r {
                Some(st) => st.wf() && st.spec_records() == records@ && records_wf(records@),
                None => !records_wf(records@),
            },
    {
        let n = records.len();
        let mut idx: Vec<(String, String)> = Vec::new();
        let mut i: usize = 0;
        while i < n
            invariant
                i <= n,
                n == records@.len(),
                idx@.len() == i,
                forall|k: int|
                    0 <= k < i ==> (#[trigger] idx@[k]).0@ == records@[k].appimage_path@ && idx@[
                        k
                    ].1@ == records@[k].identifier@,
                forall|a: int, b: int|
                    0 <= a < b < i ==> records@[a].identifier@ != records@[b].identifier@,
                forall|a: int, b: int|
                    0 <= a < b < i ==> records@[a].appimage_path@ != records@[b].appimage_path@,
            decreases n - i,
        {
            let mut j: usize = 0;
            while j < i
                invariant
                    j <= i < n,
                    n == records@.len(),
                    forall|k: int|
                        0 <= k < j ==> records@[k].identifier@ != records@[i as int].identifier@
                            && records@[k].appimage_path@ != records@[i as int].appimage_path@,
                decreases i - j,
            {
                if text::string_eq(&records[j].identifier, records[i].identifier.as_str()) {
                    proof {
                        assert(records@[j as int].identifier@ == records@[i as int].identifier@);
                        assert(!records_wf(records@));
                    }
                    return None;
                }
                if text::string_eq(&records[j].appimage_path, records[i].appimage_path.as_str()) {
                    proof {
                        assert(records@[j as int].appimage_path@ == records@[
                            i as int
                        ].appimage_path@);
                        assert(!records_wf(records@));
                    }
                    return None;
                }
                j += 1;
            }
            idx.push((records[i].appimage_path.clone(), records[i].identifier.clone()));
            i += 1;
        }
        Some(State { integrated: records, path_index: idx })
    }
}

/// The derived index binds path `p` to identifier `id`.
pub open spec fn index_has(s: State, p: Seq<char>, id: Seq<char>) -> bool {
    exists|i: int|
        0 <= i < s.spec_index().len() && (#[trigger] s.spec_index()[i]).0@ == p && s.spec_index()[
            i
        ].1@ == id
}

/// Some record carries path `p` and identifier `id`.
pub open spec fn records_have(s: State, p: Seq<char>, id: Seq<char>) -> bool {
    exists|i: int|
        0 <= i < s.spec_records().len() && (#[trigger] s.spec_records()[i]).appimage_path@ == p
            && s.spec_records()[i].identifier@ == id
}

/// Law: in a well-formed store — as every load and every mutation leaves
/// it — the derived path index is exactly the inverse of the path column
/// of the record map: a path maps to an identifier in the index precisely
/// when a record carries both.
pub proof fn lemma_index_is_inverse(s: State)
    requires
        s.wf(),
    ensures
        s.spec_index().len() == s.spec_records().len(),
        forall|p: Seq<char>, id: Seq<char>|
            #![trigger index_has(s, p, id)]
            #![trigger records_have(s, p, id)]
            index_has(s, p, id) <==> records_have(s, p, id),
{
    assert forall|p: Seq<char>, id: Seq<char>| index_has(s, p, id) <==> records_have(
        s,
        p,
        id,
    ) by {
        if index_has(s, p, id) {
            let i = choose|i: int|
                0 <= i < s.spec_index().len() && (#[trigger] s.spec_index()[i]).0@ == p
                    && s.spec_index()[i].1@ == id;
            assert(s.spec_records()[i].appimage_path@ == p && s.spec_records()[i].identifier@
                == id);
        }
        if records_have(s, p, id) {
            let i = choose|i: int|
                0 <= i < s.spec_records().len() && (#[trigger] s.spec_records()[
                    i
                ]).appimage_path@ == p && s.spec_records()[i].identifier@ == id;
            assert(s.spec_index()[i].0@ == p && s.spec_index()[i].1@ == id);
        }
    }
}

/// Build a fresh record; both time stamps are the given moment.
pub fn create_entry(
    identifier: String,
    appimage_path: String,
    desktop_path: String,
    icon_paths: Vec<String>,
    name: Option<String>,
    now: u64,
) -> (r: IntegratedAppImage)
    ensures
        r.identifier == identifier,
        r.appimage_path == appimage_path,
        r.desktop_path == desktop_path,
        r.icon_paths == icon_paths,
        r.name == name,
        r.integrated_at == now,
        r.updated_at == now,
{
    IntegratedAppImage {
        identifier,
        appimage_path,
        desktop_path,
        icon_paths,
        name,
        integrated_at: now,
        updated_at: now,
    }
}

} // verus!
