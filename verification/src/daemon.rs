//! The integration coordinator: the debounce table, the dispatch rules,
//! and the decisions of the integrate and cleanup flows.
//!
//! Everything here works on plain values. The surrounding program runs the
//! loop: it polls the normalizer, reads headers, extracts bundles, copies
//! files, persists the store — and asks this module what to do next.

use vstd::prelude::*;
use vstd::string::StringExecFns;
use crate::appimage;
use crate::appimage::AppImageError;
use crate::config::Config;
use crate::desktop::DesktopError;
use crate::kv;
use crate::paths;
use crate::state::State;
use crate::text;
use crate::watcher::FileEvent;

verus! {

/// Failures surfaced by the coordinator's flows.
#[derive(Debug)]
pub enum DaemonError {
    /// Configuration could not be read or written.
    Config(String),
    /// The store could not be read or written.
    State(String),
    /// The filesystem watcher failed.
    Watcher(String),
    /// Bundle inspection or extraction failed.
    AppImage(AppImageError),
    /// Menu-entry handling failed.
    Desktop(DesktopError),
    /// Some other I/O failure.
    Io(String),
}

/// The coordinator's lifecycle. A stopped coordinator never runs again; a
/// fresh one must be constructed.
#[derive(Debug, Clone, Copy, PartialEq, Eq, Structural)]
pub enum DaemonPhase {
    Idle,
    Initializing,
    Running,
    Stopped,
}

/// What the completeness probe of a freshly created file reported.
#[derive(Debug, Clone, Copy, PartialEq, Eq, Structural)]
pub enum Completeness {
    /// The file is fully present.
    Complete,
    /// The file is still being written.
    Incomplete,
    /// The probe itself failed; integration proceeds as a best effort.
    Unknown,
}

/// How a move event is dispatched.
#[derive(Debug, Clone, Copy, PartialEq, Eq, Structural)]
pub enum MoveDecision {
    /// The source was integrated: re-key its record and rewrite its menu
    /// entry in place.
    UpdateExisting,
    /// The source was unknown but the destination looks like a bundle:
    /// integrate it afresh.
    IntegrateNew,
    /// Neither: nothing to do.
    Ignore,
}

/// The dispatch rule for `Moved` events.
pub open spec fn spec_decide_moved(from_integrated: bool, to_is_bundle: bool) -> MoveDecision {
    if from_integrated {
        MoveDecision::UpdateExisting
    } else if to_is_bundle {
        MoveDecision::IntegrateNew
    } else {
        MoveDecision::Ignore
    }
}

/// Dispatch a `Moved` event from what is known of its two sides.
pub fn decide_moved(from_integrated: bool, to_is_bundle: bool) -> (r: MoveDecision)
    ensures
        r == spec_decide_moved(from_integrated, to_is_bundle),
{
    if from_integrated {
        MoveDecision::UpdateExisting
    } else if to_is_bundle {
        MoveDecision::IntegrateNew
    } else {
        MoveDecision::Ignore
    }
}

/// The identifier a not-yet-integrated path would get, or nothing when the
/// store already holds that identifier.
pub open spec fn spec_needs_integration(s: State, path: Seq<char>) -> Option<Seq<char>> {
    if s.spec_contains_id(appimage::md5_hex_of(path)) {
        None
    } else {
        Some(appimage::md5_hex_of(path))
    }
}

/// Begin integrating `path`: derive its identifier and short-circuit when
/// the store already holds it.
pub fn needs_integration(state: &State, path: &String) -> (r: Option<String>)
    ensures
        match r {
            Some(id) => spec_needs_integration(*state, path@) == Some(id@) && id@
                == appimage::md5_hex_of(path@),
            None => spec_needs_integration(*state, path@) is None,
        },
{
    let id = appimage::generate_identifier(path.as_str());
    match state.get(id.as_str()) {
        Some(_) => None,
        None => Some(id),
    }
}

/// Law: integration is idempotent. As soon as the store holds a record
/// under a path's identifier — as it does right after that path was
/// integrated and until it is removed — a second integration of the same
/// path is refused before it begins, so it adds no second record.
pub proof fn lemma_integration_idempotent(s: State, path: Seq<char>)
    requires
        s.spec_contains_id(appimage::md5_hex_of(path)),
    ensures
        spec_needs_integration(s, path) is None,
{
}

/// An event's debounce window has passed: the clock reads at least the
/// queue time plus the interval. (A clock reading before the queue time
/// is ready only under a zero interval, mirroring saturating elapsed
/// time.)
pub open spec fn ready_at(queued: u64, now: u64, debounce_ms: u64) -> bool {
    if now >= queued {
        now - queued >= debounce_ms
    } else {
        debounce_ms == 0
    }
}

/// The coordinator: configuration, the store, the pending-event table and
/// the lifecycle phase. The OS watcher and all file I/O stay outside.
#[derive(Debug)]
pub struct Daemon {
    config: Config,
    state: State,
    pending_events: Vec<(String, (FileEvent, u64))>,
    phase: DaemonPhase,
}

impl Daemon {
    pub closed spec fn spec_config(self) -> Config {
        self.config
    }

    pub closed spec fn spec_state(self) -> State {
        self.state
    }

    /// The pending table: path, the event waiting there, its queue time.
    pub closed spec fn spec_pending(self) -> Seq<(String, (FileEvent, u64))> {
        self.pending_events@
    }

    pub closed spec fn spec_phase(self) -> DaemonPhase {
        self.phase
    }

    /// The store is well-formed and no path waits twice.
    pub open spec fn wf(self) -> bool {
        &&& self.spec_state().wf()
        &&& kv::kv_unique(self.spec_pending())
    }

    /// A coordinator over the given configuration and store, idle until
    /// initialized.
    pub fn with_config(config: Config, state: State) -> (r: Daemon)
        requires
            state.wf(),
        ensures
            r.wf(),
            r.spec_config() == config,
            r.spec_state() == state,
            r.spec_pending() == Seq::<(String, (FileEvent, u64))>::empty(),
            r.spec_phase() == DaemonPhase::Idle,
    {
        Daemon { config, state, pending_events: Vec::new(), phase: DaemonPhase::Idle }
    }

    /// Read the configuration.
    pub fn config(&self) -> (r: &Config)
        ensures
            *r == self.spec_config(),
    {
        &self.config
    }

    /// Read the store.
    pub fn state(&self) -> (r: &State)
        ensures
            *r == self.spec_state(),
    {
        &self.state
    }

    /// Work on the store; the rest of the coordinator is untouched.
    pub fn state_mut(&mut self) -> (r: &mut State)
        ensures
            *r == old(self).spec_state(),
            final(self).spec_state() == *final(r),
            final(self).spec_config() == old(self).spec_config(),
            final(self).spec_pending() == old(self).spec_pending(),
            final(self).spec_phase() == old(self).spec_phase(),
    {
        &mut self.state
    }

    /// Enter initialization; only an idle coordinator can.
    pub fn begin_init(&mut self)
        requires
            old(self).spec_phase() == DaemonPhase::Idle,
        ensures
            final(self).spec_phase() == DaemonPhase::Initializing,
            final(self).spec_config() == old(self).spec_config(),
            final(self).spec_state() == old(self).spec_state(),
            final(self).spec_pending() == old(self).spec_pending(),
    {
        self.phase = DaemonPhase::Initializing;
    }

    /// Enter the running phase; only from initialization, never after a
    /// stop.
    pub fn begin_running(&mut self)
        requires
            old(self).spec_phase() == DaemonPhase::Initializing,
        ensures
            final(self).spec_phase() == DaemonPhase::Running,
            final(self).spec_config() == old(self).spec_config(),
            final(self).spec_state() == old(self).spec_state(),
            final(self).spec_pending() == old(self).spec_pending(),
    {
        self.phase = DaemonPhase::Running;
    }

    /// Stop for good; no method leads out of this phase.
    pub fn stop(&mut self)
        ensures
            final(self).spec_phase() == DaemonPhase::Stopped,
            final(self).spec_config() == old(self).spec_config(),
            final(self).spec_state() == old(self).spec_state(),
            final(self).spec_pending() == old(self).spec_pending(),
    {
        self.phase = DaemonPhase::Stopped;
    }

    /// Whether the loop should keep polling.
    pub fn is_running(&self) -> (r: bool)
        ensures
            r == (self.spec_phase() == DaemonPhase::Running),
    {
        match self.phase {
            DaemonPhase::Running => true,
            _ => false,
        }
    }

    /// Queue one normalized event. Creations and content changes wait out
    /// the debounce window — a newer event for the same path replaces the
    /// older one and resets its timer; deletions and moves come straight
    /// back for immediate handling.
    pub fn queue_event(&mut self, event: FileEvent, now_ms: u64) -> (r: Option<FileEvent>)
        requires
            old(self).wf(),
        ensures
            final(self).wf(),
            final(self).spec_config() == old(self).spec_config(),
            final(self).spec_state() == old(self).spec_state(),
            final(self).spec_phase() == old(self).spec_phase(),
            match event {
                FileEvent::Created(p) => {
                    &&& r is None
                    &&& kv::kv_lookup(final(self).spec_pending(), p@) == Some((event, now_ms))
                    &&& forall|k2: Seq<char>|
                        k2 != p@ ==> kv::kv_lookup(final(self).spec_pending(), k2)
                            == kv::kv_lookup(old(self).spec_pending(), k2)
                },
                FileEvent::Modified(p) => {
                    &&& r is None
                    &&& kv::kv_lookup(final(self).spec_pending(), p@) == Some((event, now_ms))
                    &&& forall|k2: Seq<char>|
                        k2 != p@ ==> kv::kv_lookup(final(self).spec_pending(), k2)
                            == kv::kv_lookup(old(self).spec_pending(), k2)
                },
                FileEvent::Deleted(_) => r == Some(event) && final(self).spec_pending() == old(
                    self,
                ).spec_pending(),
                FileEvent::Moved { .. } => r == Some(event) && final(self).spec_pending() == old(
                    self,
                ).spec_pending(),
            },
    {
        match &event {
            FileEvent::Created(p) => {
                let key = p.clone();
                kv::kv_set(&mut self.pending_events, key.as_str(), (event, now_ms));
                None
            },
            FileEvent::Modified(p) => {
                let key = p.clone();
                kv::kv_set(&mut self.pending_events, key.as_str(), (event, now_ms));
                None
            },
            FileEvent::Deleted(_) => Some(event),
            FileEvent::Moved { .. } => Some(event),
        }
    }

    /// Dispatch a debounced creation. A non-bundle is dropped; a complete
    /// bundle — or one whose completeness could not be determined —
    /// integrates now; an incomplete one is re-queued with a fresh timer
    /// rather than dropped.
    pub fn handle_created(
        &mut self,
        path: &String,
        is_bundle: bool,
        completeness: Completeness,
        now_ms: u64,
    ) -> (r: bool)
        requires
            old(self).wf(),
        ensures
            final(self).wf(),
            final(self).spec_config() == old(self).spec_config(),
            final(self).spec_state() == old(self).spec_state(),
            final(self).spec_phase() == old(self).spec_phase(),
            r == (is_bundle && completeness != Completeness::Incomplete),
            (!is_bundle || completeness != Completeness::Incomplete)
                ==> final(self).spec_pending() == old(self).spec_pending(),
            (is_bundle && completeness == Completeness::Incomplete) ==> {
                &&& kv::kv_lookup(final(self).spec_pending(), path@) matches Some(e) && (
                e.0 matches FileEvent::Created(q) && q@ == path@) && e.1 == now_ms
                &&& forall|k2: Seq<char>|
                    k2 != path@ ==> kv::kv_lookup(final(self).spec_pending(), k2)
                        == kv::kv_lookup(old(self).spec_pending(), k2)
            },
    {
        if !is_bundle {
            return false;
        }
        match completeness {
            Completeness::Incomplete => {
                let ev = FileEvent::Created(path.clone());
                kv::kv_set(&mut self.pending_events, path.as_str(), (ev, now_ms));
                false
            },
            _ => true,
        }
    }
}

/// The events among the first `n` queued entries whose window has passed,
/// in storage order.
pub open spec fn ready_events_sp(
    q: Seq<(String, (FileEvent, u64))>,
    now: u64,
    db: u64,
    n: int,
) -> Seq<FileEvent>
    decreases n,
{
    if n <= 0 {
        Seq::empty()
    } else {
        ready_events_sp(q, now, db, n - 1) + (if ready_at(q[n - 1].1.1, now, db) {
            seq![q[n - 1].1.0]
        } else {
            Seq::empty()
        })
    }
}

/// The entries among the first `n` still waiting out their window.
pub open spec fn waiting_sp(q: Seq<(String, (FileEvent, u64))>, now: u64, db: u64, n: int) -> Seq<
    (String, (FileEvent, u64)),
>
    decreases n,
{
    if n <= 0 {
        Seq::empty()
    } else {
        waiting_sp(q, now, db, n - 1) + (if ready_at(q[n - 1].1.1, now, db) {
            Seq::empty()
        } else {
            seq![q[n - 1]]
        })
    }
}

proof fn lemma_waiting_from(q: Seq<(String, (FileEvent, u64))>, now: u64, db: u64, n: int, a: int)
    requires
        0 <= n <= q.len(),
        0 <= a < waiting_sp(q, now, db, n).len(),
    ensures
        exists|k: int| 0 <= k < n && waiting_sp(q, now, db, n)[a] == q[k],
    decreases n,
{
    if n > 0 {
        let prev = waiting_sp(q, now, db, n - 1);
        if a < prev.len() {
            lemma_waiting_from(q, now, db, n - 1, a);
            let k = choose|k: int| 0 <= k < n - 1 && waiting_sp(q, now, db, n - 1)[a] == q[k];
            assert(waiting_sp(q, now, db, n)[a] == q[k]);
        } else {
            assert(!ready_at(q[n - 1].1.1, now, db));
            assert(waiting_sp(q, now, db, n)[a] == q[n - 1]);
        }
    }
}

proof fn lemma_waiting_distinct(
    q: Seq<(String, (FileEvent, u64))>,
    now: u64,
    db: u64,
    n: int,
    a: int,
    b: int,
)
    requires
        kv::kv_unique(q),
        0 <= n <= q.len(),
        0 <= a < b < waiting_sp(q, now, db, n).len(),
    ensures
        waiting_sp(q, now, db, n)[a].0@ != waiting_sp(q, now, db, n)[b].0@,
    decreases n,
{
    if n > 0 {
        let prev = waiting_sp(q, now, db, n - 1);
        if b < prev.len() {
            lemma_waiting_distinct(q, now, db, n - 1, a, b);
        } else if waiting_sp(q, now, db, n).len() > prev.len() {
            lemma_waiting_from(q, now, db, n - 1, a);
            let k = choose|k: int| 0 <= k < n - 1 && waiting_sp(q, now, db, n - 1)[a] == q[k];
            assert(waiting_sp(q, now, db, n)[b] == q[n - 1]);
            assert(waiting_sp(q, now, db, n)[a] == q[k]);
        } else {
            lemma_waiting_distinct(q, now, db, n - 1, a, b);
        }
    }
}

impl Daemon {
    /// Remove and return, in order, every pending event whose debounce
    /// window has passed; the rest keep waiting.
    pub fn take_ready(&mut self, now_ms: u64) -> (r: Vec<FileEvent>)
        requires
            old(self).wf(),
        ensures
            final(self).wf(),
            final(self).spec_config() == old(self).spec_config(),
            final(self).spec_state() == old(self).spec_state(),
            final(self).spec_phase() == old(self).spec_phase(),
            final(self).spec_pending() == waiting_sp(
                old(self).spec_pending(),
                now_ms,
                old(self).spec_config().watch.debounce_ms,
                old(self).spec_pending().len() as int,
            ),
            r@ == ready_events_sp(
                old(self).spec_pending(),
                now_ms,
                old(self).spec_config().watch.debounce_ms,
                old(self).spec_pending().len() as int,
            ),
    {
        let db = self.config.watch.debounce_ms;
        let ghost q = self.pending_events@;
        let n = self.pending_events.len();
        let mut waiting: Vec<(String, (FileEvent, u64))> = Vec::new();
        let mut ready: Vec<FileEvent> = Vec::new();
        let mut i: usize = 0;
        proof {
            assert(self.pending_events@ =~= q.subrange(0, n as int));
        }
        while i < n
            invariant
                i <= n,
                n == q.len(),
                db == self.config.watch.debounce_ms,
                self.config == old(self).spec_config(),
                self.state == old(self).spec_state(),
                self.phase == old(self).spec_phase(),
                q == old(self).spec_pending(),
                kv::kv_unique(q),
                self.pending_events@ == q.subrange(i as int, n as int),
                waiting@ == waiting_sp(q, now_ms, db, i as int),
                ready@ == ready_events_sp(q, now_ms, db, i as int),
            decreases n - i,
        {
            let e = self.pending_events.remove(0);
            proof {
                assert(e == q[i as int]);
                assert(self.pending_events@ =~= q.subrange(i + 1 as int, n as int));
            }
            let queued = e.1.1;
            let is_ready = if now_ms >= queued {
                now_ms - queued >= db
            } else {
                db == 0
            };
            if is_ready {
                proof {
                    assert(ready@.push(e.1.0) =~= ready_events_sp(q, now_ms, db, i + 1 as int));
                    assert(waiting@ =~= waiting_sp(q, now_ms, db, i + 1 as int));
                }
                ready.push(e.1.0);
            } else {
                proof {
                    assert(waiting@.push(e) =~= waiting_sp(q, now_ms, db, i + 1 as int));
                    assert(ready@ =~= ready_events_sp(q, now_ms, db, i + 1 as int));
                }
                waiting.push(e);
            }
            i += 1;
        }
        proof {
            assert forall|a: int, b: int| 0 <= a < b < waiting@.len() implies waiting@[a].0@
                != waiting@[b].0@ by {
                lemma_waiting_distinct(q, now_ms, db, n as int, a, b);
            }
        }
        self.pending_events = waiting;
        ready
    }
}

/// The pixel size and lower-cased extension an icon is installed under:
/// the size its path encodes (128 when it encodes none), and its
/// extension (`png` when it has none).
pub fn determine_icon_info(path: &str) -> (r: (u32, String))
    ensures
        r.0 as int == match appimage::icon_size_sp(path@) {
            Some(v) => v,
            None => 128,
        },
        r.1@ == match paths::extension_sp(path@) {
            Some(e) => text::lower_seq(e),
            None => "png"@,
        },
{
    let pc = text::to_chars(path);
    let ext = match paths::extension_lower(&pc) {
        Some(e) => text::from_chars(&e),
        None => String::from_str("png"),
    };
    let size = match appimage::extract_icon_size(path) {
        Some(s) => s,
        None => 128,
    };
    (size, ext)
}

/// Where an icon goes under the theme root: the scalable directory for
/// vector icons, a size-keyed directory otherwise.
pub open spec fn icon_dest_dir_sp(icon_base: Seq<char>, size: int, ext: Seq<char>) -> Seq<char> {
    if ext == "svg"@ {
        paths::joined_sp(paths::joined_sp(icon_base, "scalable"@), "apps"@)
    } else {
        paths::joined_sp(
            paths::joined_sp(icon_base, text::dec_str(size) + seq!['x'] + text::dec_str(size)),
            "apps"@,
        )
    }
}

/// A planned icon installation: where the source icon is to be copied.
#[derive(Debug, Clone)]
pub struct IconPlan {
    /// The inferred pixel size.
    pub size: u32,
    /// The lower-cased extension the copy keeps.
    pub ext: String,
    /// The directory to create.
    pub dest_dir: String,
    /// The full destination path, deterministically named from the
    /// identifier.
    pub dest_path: String,
}

/// Plan where the chosen icon of the bundle named by `identifier` is
/// installed under `icon_base`.
pub fn plan_icon_install(icon_base: &String, src: &String, identifier: &str) -> (r: IconPlan)
    ensures
        r.size as int == match appimage::icon_size_sp(src@) {
            Some(v) => v,
            None => 128,
        },
        r.ext@ == match paths::extension_sp(src@) {
            Some(e) => text::lower_seq(e),
            None => "png"@,
        },
        r.dest_dir@ == icon_dest_dir_sp(icon_base@, r.size as int, r.ext@),
        r.dest_path@ == paths::joined_sp(
            r.dest_dir@,
            "appimage-"@ + identifier@ + seq!['.'] + r.ext@,
        ),
{
    let (size, ext) = determine_icon_info(src.as_str());
    let base_c = text::to_chars(icon_base.as_str());
    let svg_lit = text::to_chars("svg");
    let ext_c = text::to_chars(ext.as_str());
    let apps_lit = text::to_chars("apps");
    let dir_c = if text::chars_eq(&ext_c, &svg_lit) {
        let scalable = text::to_chars("scalable");
        let c1 = paths::join_path(&base_c, &scalable);
        paths::join_path(&c1, &apps_lit)
    } else {
        let mut seg: Vec<char> = Vec::new();
        text::push_dec(&mut seg, size);
        seg.push('x');
        text::push_dec(&mut seg, size);
        proof {
            assert(seg@ =~= text::dec_str(size as int) + seq!['x'] + text::dec_str(size as int));
        }
        let c1 = paths::join_path(&base_c, &seg);
        paths::join_path(&c1, &apps_lit)
    };
    let name = text::to_chars("appimage-");
    let idc = text::to_chars(identifier);
    let mut name = text::concat_chars(&name, &idc);
    name.push('.');
    let name = text::concat_chars(&name, &ext_c);
    proof {
        assert(name@ =~= "appimage-"@ + identifier@ + seq!['.'] + ext@);
    }
    let dest_c = paths::join_path(&dir_c, &name);
    IconPlan {
        size,
        ext,
        dest_dir: text::from_chars(&dir_c),
        dest_path: text::from_chars(&dest_c),
    }
}

} // verus!
