//! The persistence store: all Timer and Project rows, the toggle state
//! machine, and the query shapes used to rebuild per-tag history.
//!
//! The store owns its rows exclusively.  Its invariants: for a given tag at
//! most one Project is current, at most one Timer is current, a running
//! timer's duration is the zero sentinel, and a stopped timer's duration was
//! written exactly once, at stop time.

use vstd::prelude::*;
use vstd::multiset::Multiset;
use crate::uid::TagId;

verus! {

/// The failures a store operation can surface.
///
/// Every failure is returned to the caller; nothing is retried or swallowed.
#[derive(Debug, Clone, Copy, PartialEq, Eq, Structural)]
pub enum StoreError {
    /// No current Project or Timer exists for the tag.  Recoverable: callers
    /// may create a default project and try again.
    NotFound,
    /// A write would not have affected exactly the expected row, or the
    /// clock reading is older than a running timer's start: a consistency
    /// violation, fatal to the call.
    UpdateConflict,
}

/// A timer row.
#[derive(Debug)]
pub struct Timer {
    /// The ID of this timer.
    pub id: i64,
    /// The tag key this timer is associated with.
    pub unique_id: String,
    /// The project this timer is associated with.
    pub project_id: i64,
    /// When the timer was started, in UTC epoch seconds.
    pub start_time: i64,
    /// Whether this is the running timer for its tag.
    pub is_current: bool,
    /// How long the timer ran, in seconds.  Meaningful only once
    /// `is_current` is false; zero while running.
    pub duration: i64,
}

/// A project row.
#[derive(Debug)]
pub struct Project {
    /// The ID of the project.
    pub id: i64,
    /// The name of the project.
    pub name: String,
    /// Whether this is the current project for its tag.
    pub is_current: bool,
    /// The tag key this project is associated with.
    pub unique_id: String,
}

/// The mathematical image of a timer row.
pub struct TimerView {
    pub id: int,
    pub unique_id: Seq<char>,
    pub project_id: int,
    pub start_time: int,
    pub is_current: bool,
    pub duration: int,
}

/// The mathematical image of a project row.
pub struct ProjectView {
    pub id: int,
    pub name: Seq<char>,
    pub is_current: bool,
    pub unique_id: Seq<char>,
}

impl View for Timer {
    type V = TimerView;

    open spec fn view(&self) -> TimerView {
        TimerView {
            id: self.id as int,
            unique_id: self.unique_id@,
            project_id: self.project_id as int,
            start_time: self.start_time as int,
            is_current: self.is_current,
            duration: self.duration as int,
        }
    }
}

impl View for Project {
    type V = ProjectView;

    open spec fn view(&self) -> ProjectView {
        ProjectView {
            id: self.id as int,
            name: self.name@,
            is_current: self.is_current,
            unique_id: self.unique_id@,
        }
    }
}

impl Clone for Timer {
    fn clone(&self) -> (res: Self)
        ensures
            res == *self,
    {
        Timer {
            id: self.id,
            unique_id: self.unique_id.clone(),
            project_id: self.project_id,
            start_time: self.start_time,
            is_current: self.is_current,
            duration: self.duration,
        }
    }
}

impl Clone for Project {
    fn clone(&self) -> (res: Self)
        ensures
            res == *self,
    {
        Project {
            id: self.id,
            name: self.name.clone(),
            is_current: self.is_current,
            unique_id: self.unique_id.clone(),
        }
    }
}

impl Timer {
    /// When the timer ended: always derived from start and duration, never
    /// stored as authoritative.
    pub fn end_time(&self) -> (r: i64)
        requires
            i64::MIN <= self@.start_time + self@.duration <= i64::MAX,
        ensures
            r == self@.start_time + self@.duration,
    {
        self.start_time + self.duration
    }
}

/// The name given to the project created when a tag first requests a timer
/// without having chosen one.
pub open spec fn default_project_name() -> Seq<char> {
    "new-project"@
}

/// The abstract state of the store: the project and timer rows in insertion
/// order, and the next generated id of each table.
pub struct StoreView {
    pub projects: Seq<ProjectView>,
    pub timers: Seq<TimerView>,
    pub next_project_id: int,
    pub next_timer_id: int,
}

/// Whether `p` is the current project for `tag`.
pub open spec fn is_cur_proj(p: ProjectView, tag: Seq<char>) -> bool {
    p.unique_id == tag && p.is_current
}

/// Whether `t` is the running timer for `tag`.
pub open spec fn is_cur_timer(t: TimerView, tag: Seq<char>) -> bool {
    t.unique_id == tag && t.is_current
}

/// `p` with its current flag lowered, when it is the current project for
/// `tag`; unchanged otherwise.
pub open spec fn demote_entry(p: ProjectView, tag: Seq<char>) -> ProjectView {
    if is_cur_proj(p, tag) {
        ProjectView { is_current: false, ..p }
    } else {
        p
    }
}

/// Whether timer row `i` refers to a project row carrying its tag.
pub open spec fn timer_has_project(v: StoreView, i: int) -> bool {
    exists|j: int|
        0 <= j < v.projects.len() && (#[trigger] v.projects[j]).id == v.timers[i].project_id
            && v.projects[j].unique_id == v.timers[i].unique_id
}

impl StoreView {
    /// The store with no rows.
    pub open spec fn empty() -> StoreView {
        StoreView {
            projects: Seq::empty(),
            timers: Seq::empty(),
            next_project_id: 1,
            next_timer_id: 1,
        }
    }

    pub open spec fn has_current_project(self, tag: Seq<char>) -> bool {
        exists|i: int| 0 <= i < self.projects.len() && is_cur_proj(#[trigger] self.projects[i], tag)
    }

    pub open spec fn current_project_idx(self, tag: Seq<char>) -> int {
        choose|i: int| 0 <= i < self.projects.len() && is_cur_proj(#[trigger] self.projects[i], tag)
    }

    /// The single current project for `tag`; meaningful only when
    /// `has_current_project` holds.
    pub open spec fn current_project(self, tag: Seq<char>) -> ProjectView {
        self.projects[self.current_project_idx(tag)]
    }

    pub open spec fn has_current_timer(self, tag: Seq<char>) -> bool {
        exists|i: int| 0 <= i < self.timers.len() && is_cur_timer(#[trigger] self.timers[i], tag)
    }

    pub open spec fn current_timer_idx(self, tag: Seq<char>) -> int {
        choose|i: int| 0 <= i < self.timers.len() && is_cur_timer(#[trigger] self.timers[i], tag)
    }

    /// The single running timer for `tag`; meaningful only when
    /// `has_current_timer` holds.
    pub open spec fn current_timer(self, tag: Seq<char>) -> TimerView {
        self.timers[self.current_timer_idx(tag)]
    }

    /// The projects with `tag`'s current flag lowered.
    pub open spec fn demoted(self, tag: Seq<char>) -> Seq<ProjectView> {
        self.projects.map_values(|p: ProjectView| demote_entry(p, tag))
    }

    /// The store after creating a project named `name` for `tag`: the old
    /// current project (if any) is demoted, and the new row is current.
    pub open spec fn with_new_project(self, tag: Seq<char>, name: Seq<char>) -> StoreView {
        StoreView {
            projects: self.demoted(tag).push(
                ProjectView { id: self.next_project_id, name, is_current: true, unique_id: tag },
            ),
            next_project_id: self.next_project_id + 1,
            ..self
        }
    }

    /// The store after inserting a running timer for `tag` under project
    /// `pid`, started at `now`.
    pub open spec fn with_new_timer(self, tag: Seq<char>, pid: int, now: int) -> StoreView {
        StoreView {
            timers: self.timers.push(
                TimerView {
                    id: self.next_timer_id,
                    unique_id: tag,
                    project_id: pid,
                    start_time: now,
                    is_current: true,
                    duration: 0,
                },
            ),
            next_timer_id: self.next_timer_id + 1,
            ..self
        }
    }

    /// The store after the create half of a toggle: resolve `tag`'s current
    /// project — creating the default-named one if none exists — and insert
    /// a running timer under it.
    pub open spec fn create_timer_step(self, tag: Seq<char>, now: int) -> StoreView {
        if self.has_current_project(tag) {
            self.with_new_timer(tag, self.current_project(tag).id, now)
        } else {
            self.with_new_project(tag, default_project_name()).with_new_timer(
                tag,
                self.next_project_id,
                now,
            )
        }
    }

    /// The store after the stop half of a toggle: the running timer for
    /// `tag` gets duration `now - start_time` and its current flag lowered.
    pub open spec fn stop_timer_step(self, tag: Seq<char>, now: int) -> StoreView {
        let i = self.current_timer_idx(tag);
        StoreView {
            timers: self.timers.update(
                i,
                TimerView {
                    is_current: false,
                    duration: now - self.timers[i].start_time,
                    ..self.timers[i]
                },
            ),
            ..self
        }
    }

    /// The toggle state machine: stop the running timer if one exists, else
    /// create one.
    pub open spec fn toggle_step(self, tag: Seq<char>, now: int) -> StoreView {
        if self.has_current_timer(tag) {
            self.stop_timer_step(tag, now)
        } else {
            self.create_timer_step(tag, now)
        }
    }

    /// The id a toggle returns: the stopped timer's, or the created one's.
    pub open spec fn toggle_result(self, tag: Seq<char>) -> int {
        if self.has_current_timer(tag) {
            self.current_timer(tag).id
        } else {
            self.next_timer_id
        }
    }

    /// The store's invariants.
    pub open spec fn wf(self) -> bool {
        &&& 1 <= self.next_project_id <= i64::MAX
        &&& 1 <= self.next_timer_id <= i64::MAX
        // row ids are generated in insertion order, so strictly increasing
        // (and in particular unique)
        &&& forall|i: int, j: int|
            0 <= i < j < self.projects.len() ==> (#[trigger] self.projects[i]).id < (
            #[trigger] self.projects[j]).id
        &&& forall|i: int, j: int|
            0 <= i < j < self.timers.len() ==> (#[trigger] self.timers[i]).id < (
            #[trigger] self.timers[j]).id
        &&& forall|i: int|
            0 <= i < self.projects.len() ==> 1 <= (#[trigger] self.projects[i]).id
                < self.next_project_id
        &&& forall|i: int|
            0 <= i < self.timers.len() ==> 1 <= (#[trigger] self.timers[i]).id
                < self.next_timer_id
        // at most one current project per tag
        &&& forall|i: int, j: int|
            0 <= i < self.projects.len() && 0 <= j < self.projects.len() && (
            #[trigger] self.projects[i]).is_current && (#[trigger] self.projects[j]).is_current
                && self.projects[i].unique_id == self.projects[j].unique_id ==> i == j
        // at most one running timer per tag
        &&& forall|i: int, j: int|
            0 <= i < self.timers.len() && 0 <= j < self.timers.len() && (
            #[trigger] self.timers[i]).is_current && (#[trigger] self.timers[j]).is_current
                && self.timers[i].unique_id == self.timers[j].unique_id ==> i == j
        // a running timer's duration is the zero sentinel
        &&& forall|i: int|
            0 <= i < self.timers.len() && (#[trigger] self.timers[i]).is_current
                ==> self.timers[i].duration == 0
        // epochs and durations are nonnegative, and a stopped timer's end
        // time (its stop-time epoch) fits the row type
        &&& forall|i: int|
            0 <= i < self.timers.len() ==> 0 <= (#[trigger] self.timers[i]).start_time && 0
                <= self.timers[i].duration && self.timers[i].start_time + self.timers[i].duration
                <= i64::MAX
        // every timer belongs to a project row of the same tag
        &&& forall|i: int| 0 <= i < self.timers.len() ==> #[trigger] timer_has_project(self, i)
    }
}

/// If `i` points at a current project for `tag`, it is the index the spec
/// selector picks: under the invariants that index is unique.
pub proof fn lemma_current_project_at(v: StoreView, tag: Seq<char>, i: int)
    requires
        v.wf(),
        0 <= i < v.projects.len(),
        is_cur_proj(v.projects[i], tag),
    ensures
        v.has_current_project(tag),
        v.current_project_idx(tag) == i,
        v.current_project(tag) == v.projects[i],
{
    assert(v.has_current_project(tag));
    let j = v.current_project_idx(tag);
    assert(0 <= j < v.projects.len() && is_cur_proj(v.projects[j], tag));
    assert(j == i);
}

/// If `i` points at a running timer for `tag`, it is the index the spec
/// selector picks: under the invariants that index is unique.
pub proof fn lemma_current_timer_at(v: StoreView, tag: Seq<char>, i: int)
    requires
        v.wf(),
        0 <= i < v.timers.len(),
        is_cur_timer(v.timers[i], tag),
    ensures
        v.has_current_timer(tag),
        v.current_timer_idx(tag) == i,
        v.current_timer(tag) == v.timers[i],
{
    assert(v.has_current_timer(tag));
    let j = v.current_timer_idx(tag);
    assert(0 <= j < v.timers.len() && is_cur_timer(v.timers[j], tag));
    assert(j == i);
}

/// The in-memory store owning all Timer and Project rows.
pub struct DataStore {
    projects: Vec<Project>,
    timers: Vec<Timer>,
    next_project_id: i64,
    next_timer_id: i64,
}

impl View for DataStore {
    type V = StoreView;

    closed spec fn view(&self) -> StoreView {
        StoreView {
            projects: self.projects@.map_values(|p: Project| p@),
            timers: self.timers@.map_values(|t: Timer| t@),
            next_project_id: self.next_project_id as int,
            next_timer_id: self.next_timer_id as int,
        }
    }
}

impl DataStore {
    /// Whether the store's invariants hold.
    pub open spec fn well_formed(&self) -> bool {
        self@.wf()
    }

    /// A store with no rows.
    pub fn new() -> (s: DataStore)
        ensures
            s@ == StoreView::empty(),
            s.well_formed(),
    {
        let s = DataStore {
            projects: Vec::new(),
            timers: Vec::new(),
            next_project_id: 1,
            next_timer_id: 1,
        };
        proof {
            assert(s@.projects =~= Seq::<ProjectView>::empty());
            assert(s@.timers =~= Seq::<TimerView>::empty());
            assert(s@ == StoreView::empty());
        }
        s
    }

    /// Get the current project associated with the tag.
    ///
    /// Every project is associated with a single tag.  Fails with
    /// `NotFound` exactly when the tag has no current project; callers use
    /// that to decide whether to auto-create a default one.
    pub fn current_project(&self, uid: &TagId) -> (r: Result<Project, StoreError>)
        requires
            self.well_formed(),
        ensures
            self@.has_current_project(uid@) ==> (r matches Ok(p) && p@ == self@.current_project(
                uid@,
            )),
            !self@.has_current_project(uid@) ==> (r matches Err(e) && e == StoreError::NotFound),
    {
        let tag: String = uid.as_ref().to_owned();
        let n = self.projects.len();
        let mut i: usize = 0;
        while i < n
            invariant
                n == self.projects@.len(),
                0 <= i <= n,
                tag@ == uid@,
                self.well_formed(),
                forall|j: int| 0 <= j < i ==> !is_cur_proj(#[trigger] self@.projects[j], uid@),
            decreases n - i,
        {
            if self.projects[i].is_current && self.projects[i].unique_id == tag {
                proof {
                    lemma_current_project_at(self@, uid@, i as int);
                }
                return Ok(self.projects[i].clone());
            }
            i = i + 1;
        }
        proof {
            assert(forall|j: int|
                0 <= j < self@.projects.len() ==> !is_cur_proj(#[trigger] self@.projects[j], uid@));
        }
        Err(StoreError::NotFound)
    }

    /// Gets all projects associated with the tag, in insertion order.
    pub fn get_projects(&self, uid: &TagId) -> (r: Result<Vec<Project>, StoreError>)
        requires
            self.well_formed(),
        ensures
            r matches Ok(ps) && ps@.map_values(|p: Project| p@) == projects_of(self@, uid@),
    {
        let tag: String = uid.as_ref().to_owned();
        let n = self.projects.len();
        let mut out: Vec<Project> = Vec::new();
        let mut i: usize = 0;
        while i < n
            invariant
                n == self.projects@.len(),
                0 <= i <= n,
                tag@ == uid@,
                self.well_formed(),
                out@.map_values(|p: Project| p@) == projects_of_upto(self@, uid@, i as int),
            decreases n - i,
        {
            let ghost pre = out@.map_values(|p: Project| p@);
            if self.projects[i].unique_id == tag {
                out.push(self.projects[i].clone());
                proof {
                    assert(out@.map_values(|p: Project| p@) =~= pre.push(
                        self@.projects[i as int],
                    ));
                }
            }
            i = i + 1;
        }
        Ok(out)
    }

    /// Fetch a timer row by its id.  Fails with `NotFound` exactly when no
    /// row carries the id.
    pub fn get_timer(&self, timer_id: i64) -> (r: Result<Timer, StoreError>)
        requires
            self.well_formed(),
        ensures
            has_timer_id(self@, timer_id as int) ==> (r matches Ok(t) && t@ == timer_by_id(
                self@,
                timer_id as int,
            )),
            !has_timer_id(self@, timer_id as int) ==> (r matches Err(e) && e
                == StoreError::NotFound),
    {
        let n = self.timers.len();
        let mut i: usize = 0;
        while i < n
            invariant
                n == self.timers@.len(),
                0 <= i <= n,
                self.well_formed(),
                forall|j: int| 0 <= j < i ==> (#[trigger] self@.timers[j]).id != timer_id as int,
            decreases n - i,
        {
            if self.timers[i].id == timer_id {
                proof {
                    lemma_timer_id_at(self@, timer_id as int, i as int);
                }
                return Ok(self.timers[i].clone());
            }
            i = i + 1;
        }
        Err(StoreError::NotFound)
    }
}

/// Whether some timer row carries `id`.
pub open spec fn has_timer_id(v: StoreView, id: int) -> bool {
    exists|i: int| 0 <= i < v.timers.len() && (#[trigger] v.timers[i]).id == id
}

/// The timer row carrying `id`; meaningful only when `has_timer_id` holds.
pub open spec fn timer_by_id(v: StoreView, id: int) -> TimerView {
    v.timers[timer_idx_by_id(v, id)]
}

/// The index of the timer row carrying `id`.
pub open spec fn timer_idx_by_id(v: StoreView, id: int) -> int {
    choose|i: int| 0 <= i < v.timers.len() && (#[trigger] v.timers[i]).id == id
}

/// If row `i` carries `id`, it is the row the spec selector picks: ids are
/// unique under the invariants.
pub proof fn lemma_timer_id_at(v: StoreView, id: int, i: int)
    requires
        v.wf(),
        0 <= i < v.timers.len(),
        v.timers[i].id == id,
    ensures
        has_timer_id(v, id),
        timer_idx_by_id(v, id) == i,
        timer_by_id(v, id) == v.timers[i],
{
    assert(has_timer_id(v, id));
    let j = timer_idx_by_id(v, id);
    assert(0 <= j < v.timers.len() && v.timers[j].id == id);
    if i < j {
        assert(v.timers[i].id < v.timers[j].id);
    }
    if j < i {
        assert(v.timers[j].id < v.timers[i].id);
    }
}

/// The projects of `tag` among the first `n` rows, in insertion order.
pub open spec fn projects_of_upto(v: StoreView, tag: Seq<char>, n: int) -> Seq<ProjectView>
    decreases n,
{
    if n <= 0 {
        Seq::empty()
    } else {
        let pre = projects_of_upto(v, tag, n - 1);
        if v.projects[n - 1].unique_id == tag {
            pre.push(v.projects[n - 1])
        } else {
            pre
        }
    }
}

/// All projects of `tag`, in insertion order.
pub open spec fn projects_of(v: StoreView, tag: Seq<char>) -> Seq<ProjectView> {
    projects_of_upto(v, tag, v.projects.len() as int)
}

/// The store after the row carrying `id` got duration `dur` and its current
/// flag lowered; meaningful only when `has_timer_id` holds.
pub open spec fn stopped_at(v: StoreView, id: int, dur: int) -> StoreView {
    let i = timer_idx_by_id(v, id);
    StoreView {
        timers: v.timers.update(
            i,
            TimerView { is_current: false, duration: dur, ..v.timers[i] },
        ),
        ..v
    }
}

/// Relies on `std::time::SystemTime::now`: a reading of the server clock,
/// as UTC epoch seconds.  A clock before the epoch reads as a negative
/// sentinel and one beyond the row type saturates, so the call never
/// panics; nothing is assumed of the value.
#[verifier::external_body]
fn now_epoch() -> i64 {
    match std::time::SystemTime::now().duration_since(std::time::UNIX_EPOCH) {
        Ok(elapsed) => i64::try_from(elapsed.as_secs()).unwrap_or(i64::MAX),
        Err(_) => -1,
    }
}

impl DataStore {
    /// Creates a new project with the associated tag and makes it current.
    ///
    /// If the tag already has a current project, its current flag is lowered
    /// first, so the at-most-one-current invariant is kept.
    #[verifier::loop_isolation(false)]
    pub fn create_project(&mut self, uid: &TagId, project_name: &str) -> (r: Result<
        i64,
        StoreError,
    >)
        requires
            old(self).well_formed(),
            old(self)@.next_project_id < i64::MAX,
        ensures
            final(self).well_formed(),
            final(self)@ == old(self)@.with_new_project(uid@, project_name@),
            r matches Ok(id) && id == old(self)@.next_project_id,
    {
        let ghost v0 = self@;
        let tag: String = uid.as_ref().to_owned();
        let n = self.projects.len();
        let mut i: usize = 0;
        while i < n
            invariant
                n == self.projects@.len(),
                0 <= i <= n,
                tag@ == uid@,
                self@.timers == v0.timers,
                self@.next_project_id == v0.next_project_id,
                self@.next_timer_id == v0.next_timer_id,
                self@.projects.len() == v0.projects.len(),
                forall|j: int|
                    0 <= j < i ==> #[trigger] self@.projects[j] == demote_entry(
                        v0.projects[j],
                        uid@,
                    ),
                forall|j: int| i <= j < n ==> #[trigger] self@.projects[j] == v0.projects[j],
            decreases n - i,
        {
            let ghost before = self@;
            if self.projects[i].is_current && self.projects[i].unique_id == tag {
                self.projects[i].is_current = false;
                proof {
                    assert(is_cur_proj(before.projects[i as int], uid@));
                    assert(self@.projects[i as int] == demote_entry(v0.projects[i as int], uid@));
                    assert(forall|j: int|
                        0 <= j < n && j != i ==> #[trigger] self@.projects[j]
                            == before.projects[j]);
                }
            } else {
                proof {
                    assert(!is_cur_proj(before.projects[i as int], uid@));
                    assert(self@.projects[i as int] == demote_entry(v0.projects[i as int], uid@));
                }
            }
            i = i + 1;
        }
        proof {
            assert(self@.projects =~= v0.demoted(uid@));
        }
        let id = self.next_project_id;
        let new_project = Project {
            id,
            name: project_name.to_owned(),
            is_current: true,
            unique_id: tag,
        };
        self.projects.push(new_project);
        self.next_project_id = self.next_project_id + 1;
        proof {
            let v1 = v0.with_new_project(uid@, project_name@);
            assert(self@.projects =~= v1.projects);
            assert(self@ == v1);
            lemma_with_new_project_wf(v0, uid@, project_name@);
        }
        Ok(id)
    }

    /// The running timer for the tag, if any.  Fails with `NotFound` exactly
    /// when none is running.
    fn current_timer(&self, uid: &TagId) -> (r: Result<Timer, StoreError>)
        requires
            self.well_formed(),
        ensures
            self@.has_current_timer(uid@) ==> (r matches Ok(t) && t@ == self@.current_timer(uid@)),
            !self@.has_current_timer(uid@) ==> (r matches Err(e) && e == StoreError::NotFound),
    {
        let tag: String = uid.as_ref().to_owned();
        let n = self.timers.len();
        let mut i: usize = 0;
        while i < n
            invariant
                n == self.timers@.len(),
                0 <= i <= n,
                tag@ == uid@,
                self.well_formed(),
                forall|j: int| 0 <= j < i ==> !is_cur_timer(#[trigger] self@.timers[j], uid@),
            decreases n - i,
        {
            if self.timers[i].is_current && self.timers[i].unique_id == tag {
                proof {
                    lemma_current_timer_at(self@, uid@, i as int);
                }
                return Ok(self.timers[i].clone());
            }
            i = i + 1;
        }
        Err(StoreError::NotFound)
    }

    /// Write a stop: lower the row's current flag and record its duration.
    /// Returns whether exactly one row (the one carrying `timer.id`) was
    /// affected.
    #[verifier::loop_isolation(false)]
    fn update_timer(&mut self, timer: Timer) -> (r: Result<bool, StoreError>)
        requires
            old(self).well_formed(),
            timer@.duration >= 0,
            forall|i: int|
                0 <= i < old(self)@.timers.len() && (#[trigger] old(self)@.timers[i]).id
                    == timer@.id ==> old(self)@.timers[i].start_time + timer@.duration
                    <= i64::MAX,
        ensures
            final(self).well_formed(),
            has_timer_id(old(self)@, timer@.id) ==> (r matches Ok(b) && b == true) && final(self)@
                == stopped_at(old(self)@, timer@.id, timer@.duration),
            !has_timer_id(old(self)@, timer@.id) ==> (r matches Ok(b) && b == false) && final(self)@
                == old(self)@,
    {
        let ghost v0 = self@;
        let n = self.timers.len();
        let mut i: usize = 0;
        while i < n
            invariant
                n == self.timers@.len(),
                0 <= i <= n,
                self@ == v0,
                self.well_formed(),
                forall|j: int| 0 <= j < i ==> (#[trigger] self@.timers[j]).id != timer@.id,
            decreases n - i,
        {
            if self.timers[i].id == timer.id {
                proof {
                    lemma_timer_id_at(v0, timer@.id, i as int);
                }
                self.timers[i].is_current = false;
                self.timers[i].duration = timer.duration;
                proof {
                    let v1 = stopped_at(v0, timer@.id, timer@.duration);
                    assert(self@.timers =~= v1.timers);
                    assert(self@ == v1);
                    lemma_stopped_at_wf(v0, timer@.id, timer@.duration);
                }
                return Ok(true);
            }
            i = i + 1;
        }
        Ok(false)
    }

    /// The create half of a toggle: resolve the tag's current project —
    /// creating the default-named one if none exists yet — and insert a
    /// running timer under it, started at `now`.
    fn create_timer(&mut self, uid: &TagId, now: i64) -> (r: Result<i64, StoreError>)
        requires
            old(self).well_formed(),
            0 <= now,
            !old(self)@.has_current_timer(uid@),
            old(self)@.next_timer_id < i64::MAX,
            old(self)@.next_project_id < i64::MAX,
        ensures
            final(self).well_formed(),
            final(self)@ == old(self)@.create_timer_step(uid@, now as int),
            r matches Ok(id) && id == old(self)@.next_timer_id,
    {
        let ghost v0 = self@;
        let project = match self.current_project(uid) {
            Ok(p) => p,
            Err(_) => {
                let created = self.create_project(uid, "new-project");
                if created.is_err() {
                    // `create_project` always succeeds; this arm is dead
                    return Err(StoreError::UpdateConflict);
                }
                proof {
                    lemma_current_project_at(
                        self@,
                        uid@,
                        self@.projects.len() - 1,
                    );
                }
                match self.current_project(uid) {
                    Ok(p) => p,
                    Err(_) => {
                        return Err(StoreError::NotFound);
                    },
                }
            },
        };
        let ghost v1 = self@;
        let id = self.next_timer_id;
        let new_timer = Timer {
            id,
            unique_id: uid.as_ref().to_owned(),
            project_id: project.id,
            start_time: now,
            is_current: true,
            duration: 0,
        };
        self.timers.push(new_timer);
        self.next_timer_id = self.next_timer_id + 1;
        proof {
            let v2 = v1.with_new_timer(uid@, project@.id, now as int);
            assert(self@.timers =~= v2.timers);
            assert(self@ == v2);
            lemma_with_new_timer_wf(v1, uid@, project@.id, now as int);
            assert(self@ == v0.create_timer_step(uid@, now as int));
        }
        Ok(id)
    }

    /// Toggles the current timer for the given tag, with `now` the clock
    /// reading: stop the running timer — its duration becomes
    /// `now - start_time` — or start a new one at `now`.  Returns the
    /// affected timer's id.
    pub fn toggle_current_at(&mut self, uid: &TagId, now: i64) -> (r: Result<i64, StoreError>)
        requires
            old(self).well_formed(),
            0 <= now,
            old(self)@.has_current_timer(uid@) ==> old(self)@.current_timer(uid@).start_time
                <= now,
            old(self)@.next_timer_id < i64::MAX,
            old(self)@.next_project_id < i64::MAX,
        ensures
            final(self).well_formed(),
            final(self)@ == old(self)@.toggle_step(uid@, now as int),
            r matches Ok(id) && id == old(self)@.toggle_result(uid@),
    {
        let ghost v0 = self@;
        match self.current_timer(uid) {
            Ok(timer) => {
                let timer_id = timer.id;
                let duration = now - timer.start_time;
                let mut stopped = timer;
                stopped.duration = duration;
                proof {
                    let i = v0.current_timer_idx(uid@);
                    lemma_timer_id_at(v0, stopped@.id, i);
                }
                let updated = match self.update_timer(stopped) {
                    Ok(b) => b,
                    Err(e) => {
                        return Err(e);
                    },
                };
                if !updated {
                    return Err(StoreError::UpdateConflict);
                }
                proof {
                    let i = v0.current_timer_idx(uid@);
                    assert(timer_idx_by_id(v0, stopped@.id) == i);
                    assert(self@.timers =~= v0.stop_timer_step(uid@, now as int).timers);
                    assert(self@ == v0.toggle_step(uid@, now as int));
                }
                Ok(timer_id)
            },
            Err(_) => self.create_timer(uid, now),
        }
    }

    /// Toggles the current timer for the given tag at the server clock's
    /// current reading.  A clock reading that is negative or older than the
    /// running timer's start is a consistency violation, surfaced as
    /// `UpdateConflict` with the store unchanged.
    pub fn toggle_current(&mut self, uid: &TagId) -> (r: Result<i64, StoreError>)
        requires
            old(self).well_formed(),
            old(self)@.next_timer_id < i64::MAX,
            old(self)@.next_project_id < i64::MAX,
        ensures
            final(self).well_formed(),
            r matches Ok(id) ==> exists|now: int|
                {
                    &&& 0 <= now
                    &&& (old(self)@.has_current_timer(uid@) ==> old(self)@.current_timer(
                        uid@,
                    ).start_time <= now)
                    &&& final(self)@ == #[trigger] old(self)@.toggle_step(uid@, now)
                    &&& id == old(self)@.toggle_result(uid@)
                },
            r matches Err(e) ==> e == StoreError::UpdateConflict && final(self)@ == old(self)@,
    {
        let now = now_epoch();
        if now < 0 {
            return Err(StoreError::UpdateConflict);
        }
        match self.current_timer(uid) {
            Ok(t) => {
                if now < t.start_time {
                    return Err(StoreError::UpdateConflict);
                }
            },
            Err(_) => {},
        }
        let r = self.toggle_current_at(uid, now);
        proof {
            if r is Ok {
                assert(0 <= now as int && self@ == old(self)@.toggle_step(uid@, now as int));
            }
        }
        r
    }
}

/// Creating a project preserves the store's invariants.
pub proof fn lemma_with_new_project_wf(v: StoreView, tag: Seq<char>, name: Seq<char>)
    requires
        v.wf(),
        v.next_project_id < i64::MAX,
    ensures
        v.with_new_project(tag, name).wf(),
{
    let w = v.with_new_project(tag, name);
    let n = v.projects.len() as int;
    assert(forall|j: int| 0 <= j < n ==> #[trigger] w.projects[j] == demote_entry(
        v.projects[j],
        tag,
    ));
    assert forall|i: int| 0 <= i < w.timers.len() implies #[trigger] timer_has_project(w, i) by {
        assert(w.timers[i] == v.timers[i]);
        assert(timer_has_project(v, i));
        let j0 = choose|j: int|
            0 <= j < v.projects.len() && (#[trigger] v.projects[j]).id == v.timers[i].project_id
                && v.projects[j].unique_id == v.timers[i].unique_id;
        assert(w.projects[j0].id == v.projects[j0].id);
        assert(w.projects[j0].unique_id == v.projects[j0].unique_id);
    }
}

/// Stopping a row preserves the store's invariants.
pub proof fn lemma_stopped_at_wf(v: StoreView, id: int, dur: int)
    requires
        v.wf(),
        has_timer_id(v, id),
        dur >= 0,
        timer_by_id(v, id).start_time + dur <= i64::MAX,
    ensures
        stopped_at(v, id, dur).wf(),
{
    let w = stopped_at(v, id, dur);
    let k = timer_idx_by_id(v, id);
    assert forall|i: int| 0 <= i < w.timers.len() implies #[trigger] timer_has_project(w, i) by {
        assert(w.timers[i].project_id == v.timers[i].project_id);
        assert(w.timers[i].unique_id == v.timers[i].unique_id);
        assert(timer_has_project(v, i));
        let j0 = choose|j: int|
            0 <= j < v.projects.len() && (#[trigger] v.projects[j]).id == v.timers[i].project_id
                && v.projects[j].unique_id == v.timers[i].unique_id;
        assert(w.projects[j0] == v.projects[j0]);
    }
}

/// Starting a timer preserves the store's invariants.
pub proof fn lemma_with_new_timer_wf(v: StoreView, tag: Seq<char>, pid: int, now: int)
    requires
        v.wf(),
        v.next_timer_id < i64::MAX,
        0 <= now <= i64::MAX,
        !v.has_current_timer(tag),
        exists|j: int|
            0 <= j < v.projects.len() && (#[trigger] v.projects[j]).id == pid
                && v.projects[j].unique_id == tag,
    ensures
        v.with_new_timer(tag, pid, now).wf(),
{
    let w = v.with_new_timer(tag, pid, now);
    let n = v.timers.len() as int;
    assert forall|i: int, j: int|
        0 <= i < w.timers.len() && 0 <= j < w.timers.len() && (
        #[trigger] w.timers[i]).is_current && (#[trigger] w.timers[j]).is_current
            && w.timers[i].unique_id == w.timers[j].unique_id implies i == j by {
        if i < n && j == n {
            assert(is_cur_timer(v.timers[i], tag));
        }
        if j < n && i == n {
            assert(is_cur_timer(v.timers[j], tag));
        }
    }
    assert forall|i: int| 0 <= i < w.timers.len() implies #[trigger] timer_has_project(w, i) by {
        if i < n {
            assert(w.timers[i] == v.timers[i]);
            assert(timer_has_project(v, i));
            let j0 = choose|j: int|
                0 <= j < v.projects.len() && (#[trigger] v.projects[j]).id
                    == v.timers[i].project_id && v.projects[j].unique_id
                    == v.timers[i].unique_id;
            assert(w.projects[j0] == v.projects[j0]);
        } else {
            let j0 = choose|j: int|
                0 <= j < v.projects.len() && (#[trigger] v.projects[j]).id == pid
                    && v.projects[j].unique_id == tag;
            assert(w.projects[j0].id == pid && w.projects[j0].unique_id == tag);
            assert(w.timers[i].project_id == pid && w.timers[i].unique_id == tag);
        }
    }
}

/// The timers of project `pid` among the first `n` rows, in insertion order
/// (the join the per-tag display view is built from).
pub open spec fn project_timers_upto(v: StoreView, pid: int, n: int) -> Seq<TimerView>
    decreases n,
{
    if n <= 0 {
        Seq::empty()
    } else {
        let pre = project_timers_upto(v, pid, n - 1);
        if v.timers[n - 1].project_id == pid {
            pre.push(v.timers[n - 1])
        } else {
            pre
        }
    }
}

/// All timers of project `pid`, in insertion order.
pub open spec fn project_timers(v: StoreView, pid: int) -> Seq<TimerView> {
    project_timers_upto(v, pid, v.timers.len() as int)
}

/// The per-tag display view built from the first `n` project rows: each
/// project of `tag` paired with its timers.  Projects with no timers are
/// omitted, a documented asymmetry from the all-projects query.
pub open spec fn project_groups_upto(v: StoreView, tag: Seq<char>, n: int) -> Seq<
    (ProjectView, Seq<TimerView>),
>
    decreases n,
{
    if n <= 0 {
        Seq::empty()
    } else {
        let pre = project_groups_upto(v, tag, n - 1);
        let p = v.projects[n - 1];
        if p.unique_id == tag && project_timers(v, p.id).len() > 0 {
            pre.push((p, project_timers(v, p.id)))
        } else {
            pre
        }
    }
}

/// The full per-tag display view.
pub open spec fn project_groups(v: StoreView, tag: Seq<char>) -> Seq<
    (ProjectView, Seq<TimerView>),
> {
    project_groups_upto(v, tag, v.projects.len() as int)
}

/// The mathematical image of a grouped query result.
pub open spec fn groups_view(g: Seq<(Project, Vec<Timer>)>) -> Seq<(ProjectView, Seq<TimerView>)> {
    g.map_values(|pr: (Project, Vec<Timer>)| (pr.0@, pr.1@.map_values(|t: Timer| t@)))
}

/// The exportable rows for `tag` under project `pid` among the first `n`
/// rows: stopped timers only, in insertion order.
pub open spec fn exportable_upto(v: StoreView, tag: Seq<char>, pid: int, n: int) -> Seq<TimerView>
    decreases n,
{
    if n <= 0 {
        Seq::empty()
    } else {
        let pre = exportable_upto(v, tag, pid, n - 1);
        let t = v.timers[n - 1];
        if t.unique_id == tag && !t.is_current && t.project_id == pid {
            pre.push(t)
        } else {
            pre
        }
    }
}

/// All exportable rows for `tag` under project `pid`.
pub open spec fn exportable(v: StoreView, tag: Seq<char>, pid: int) -> Seq<TimerView> {
    exportable_upto(v, tag, pid, v.timers.len() as int)
}

/// Whether `s` is ordered by start time, newest first.
pub open spec fn sorted_desc(s: Seq<TimerView>) -> bool {
    forall|i: int, j: int| 0 <= i < j < s.len() ==> (#[trigger] s[i]).start_time >= (
    #[trigger] s[j]).start_time
}

impl DataStore {
    /// Returns the per-tag display view: each project of the tag paired
    /// with its timers, in insertion order.  Projects with no timers are
    /// omitted from this join.
    #[verifier::loop_isolation(false)]
    pub fn projects_by_tag(&self, timer_tag: &TagId) -> (r: Result<
        Vec<(Project, Vec<Timer>)>,
        StoreError,
    >)
        requires
            self.well_formed(),
        ensures
            r matches Ok(g) && groups_view(g@) == project_groups(self@, timer_tag@),
    {
        let tag: String = timer_tag.as_ref().to_owned();
        let np = self.projects.len();
        let mut out: Vec<(Project, Vec<Timer>)> = Vec::new();
        let mut i: usize = 0;
        while i < np
            invariant
                0 <= i <= np,
                groups_view(out@) == project_groups_upto(self@, timer_tag@, i as int),
            decreases np - i,
        {
            let ghost pre = groups_view(out@);
            if self.projects[i].unique_id == tag {
                let timers = self.timers_of_project(self.projects[i].id);
                if timers.len() > 0 {
                    out.push((self.projects[i].clone(), timers));
                    proof {
                        assert(groups_view(out@) =~= pre.push(
                            (
                                self@.projects[i as int],
                                project_timers(self@, self@.projects[i as int].id),
                            ),
                        ));
                    }
                }
            }
            i = i + 1;
        }
        Ok(out)
    }

    /// The timers joined to project `pid`, in insertion order.
    #[verifier::loop_isolation(false)]
    fn timers_of_project(&self, pid: i64) -> (r: Vec<Timer>)
        ensures
            r@.map_values(|t: Timer| t@) == project_timers(self@, pid as int),
    {
        let nt = self.timers.len();
        let mut out: Vec<Timer> = Vec::new();
        let mut j: usize = 0;
        while j < nt
            invariant
                0 <= j <= nt,
                out@.map_values(|t: Timer| t@) == project_timers_upto(self@, pid as int, j as int),
            decreases nt - j,
        {
            let ghost pre = out@.map_values(|t: Timer| t@);
            if self.timers[j].project_id == pid {
                out.push(self.timers[j].clone());
                proof {
                    assert(out@.map_values(|t: Timer| t@) =~= pre.push(self@.timers[j as int]));
                }
            }
            j = j + 1;
        }
        out
    }

    /// The completed timers of the tag's current project, newest first.
    ///
    /// Fails with `NotFound` exactly when the tag has no current project.
    /// Never returns a running timer.
    pub fn get_exportable_timers_by_tag(&self, timer_tag: &TagId) -> (r: Result<
        Vec<Timer>,
        StoreError,
    >)
        requires
            self.well_formed(),
        ensures
            !self@.has_current_project(timer_tag@) ==> (r matches Err(e) && e
                == StoreError::NotFound),
            self@.has_current_project(timer_tag@) ==> (r matches Ok(ts) && {
                let found = ts@.map_values(|t: Timer| t@);
                let rows = exportable(
                    self@,
                    timer_tag@,
                    self@.current_project(timer_tag@).id,
                );
                &&& found.to_multiset() == rows.to_multiset()
                &&& sorted_desc(found)
                &&& forall|i: int| 0 <= i < found.len() ==> !(#[trigger] found[i]).is_current
            }),
    {
        let current = match self.current_project(timer_tag) {
            Ok(p) => p,
            Err(e) => {
                return Err(e);
            },
        };
        let tag: String = timer_tag.as_ref().to_owned();
        let nt = self.timers.len();
        let mut rows: Vec<Timer> = Vec::new();
        let mut j: usize = 0;
        proof {
            assert(current@.id == self@.current_project(timer_tag@).id);
        }
        while j < nt
            invariant
                0 <= j <= nt,
                nt == self.timers@.len(),
                tag@ == timer_tag@,
                self.well_formed(),
                rows@.map_values(|t: Timer| t@) == exportable_upto(
                    self@,
                    timer_tag@,
                    current@.id,
                    j as int,
                ),
            decreases nt - j,
        {
            let ghost pre = rows@.map_values(|t: Timer| t@);
            if self.timers[j].unique_id == tag && !self.timers[j].is_current
                && self.timers[j].project_id == current.id {
                rows.push(self.timers[j].clone());
                proof {
                    assert(rows@.map_values(|t: Timer| t@) =~= pre.push(self@.timers[j as int]));
                }
            }
            j = j + 1;
        }
        let sorted = sort_timers_desc(rows);
        proof {
            assert(forall|i: int|
                0 <= i < exportable(self@, timer_tag@, current@.id).len() ==> !(
                #[trigger] exportable(self@, timer_tag@, current@.id)[i]).is_current) by {
                lemma_exportable_not_current(self@, timer_tag@, current@.id as int,
                    self@.timers.len() as int);
            }
            lemma_multiset_members_not_current(
                sorted@.map_values(|t: Timer| t@),
                exportable(self@, timer_tag@, current@.id),
            );
        }
        Ok(sorted)
    }
}

/// Every exportable row is a stopped timer.
pub proof fn lemma_exportable_not_current(v: StoreView, tag: Seq<char>, pid: int, n: int)
    requires
        n <= v.timers.len(),
    ensures
        forall|i: int| 0 <= i < exportable_upto(v, tag, pid, n).len() ==> !(
        #[trigger] exportable_upto(v, tag, pid, n)[i]).is_current,
    decreases n,
{
    if n > 0 {
        lemma_exportable_not_current(v, tag, pid, n - 1);
        let pre = exportable_upto(v, tag, pid, n - 1);
        let cur = exportable_upto(v, tag, pid, n);
        let t = v.timers[n - 1];
        assert forall|i: int| 0 <= i < cur.len() implies !(#[trigger] cur[i]).is_current by {
            if t.unique_id == tag && !t.is_current && t.project_id == pid {
                assert(cur == pre.push(t));
                if i < pre.len() {
                    assert(cur[i] == pre[i]);
                }
            } else {
                assert(cur == pre);
            }
        }
    }
}

/// If two sequences hold the same rows and none of the second is running,
/// none of the first is either.
pub proof fn lemma_multiset_members_not_current(a: Seq<TimerView>, b: Seq<TimerView>)
    requires
        a.to_multiset() == b.to_multiset(),
        forall|i: int| 0 <= i < b.len() ==> !(#[trigger] b[i]).is_current,
    ensures
        forall|i: int| 0 <= i < a.len() ==> !(#[trigger] a[i]).is_current,
{
    broadcast use vstd::seq_lib::group_to_multiset_ensures;

    assert forall|i: int| 0 <= i < a.len() implies !(#[trigger] a[i]).is_current by {
        assert(a.contains(a[i]));
        assert(a.to_multiset().count(a[i]) > 0);
        assert(b.to_multiset().count(a[i]) > 0);
        assert(b.contains(a[i]));
        let j = choose|j: int| 0 <= j < b.len() && b[j] == a[i];
        assert(!b[j].is_current);
    }
}

/// Inserting an element anywhere adds exactly it to the sequence's rows.
pub proof fn lemma_insert_to_multiset(s: Seq<TimerView>, k: int, x: TimerView)
    requires
        0 <= k <= s.len(),
    ensures
        s.insert(k, x).to_multiset() == s.to_multiset().insert(x),
{
    broadcast use vstd::seq_lib::group_to_multiset_ensures;

    let l = s.subrange(0, k);
    let rr = s.subrange(k, s.len() as int);
    assert(s =~= l + rr);
    assert(s.insert(k, x) =~= l + (seq![x] + rr));
    vstd::seq_lib::lemma_multiset_commutative(l, rr);
    vstd::seq_lib::lemma_multiset_commutative(l, seq![x] + rr);
    vstd::seq_lib::lemma_multiset_commutative(seq![x], rr);
    assert(seq![x] =~= Seq::<TimerView>::empty().push(x));
    assert(Seq::<TimerView>::empty().to_multiset() =~= Multiset::<TimerView>::empty());
    assert(seq![x].to_multiset() =~= Multiset::<TimerView>::empty().insert(x));
    assert(s.insert(k, x).to_multiset() =~= s.to_multiset().insert(x));
}

/// Sort rows by start time, newest first.  The result holds exactly the
/// rows given.
#[verifier::loop_isolation(false)]
fn sort_timers_desc(input: Vec<Timer>) -> (out: Vec<Timer>)
    ensures
        out@.map_values(|t: Timer| t@).to_multiset() == input@.map_values(
            |t: Timer| t@,
        ).to_multiset(),
        sorted_desc(out@.map_values(|t: Timer| t@)),
{
    broadcast use vstd::seq_lib::group_to_multiset_ensures;

    let n = input.len();
    let mut out: Vec<Timer> = Vec::new();
    let mut i: usize = 0;
    while i < n
        invariant
            0 <= i <= n,
            out@.map_values(|t: Timer| t@).to_multiset() == input@.map_values(
                |t: Timer| t@,
            ).take(i as int).to_multiset(),
            sorted_desc(out@.map_values(|t: Timer| t@)),
        decreases n - i,
    {
        let ghost outv = out@.map_values(|t: Timer| t@);
        let ghost inv = input@.map_values(|t: Timer| t@);
        let x = input[i].clone();
        let m = out.len();
        let mut k: usize = 0;
        while k < m && out[k].start_time >= x.start_time
            invariant
                0 <= k <= m,
                m == out@.len(),
                out@.map_values(|t: Timer| t@) == outv,
                x@ == inv[i as int],
                forall|j: int| 0 <= j < k ==> (#[trigger] outv[j]).start_time >= x@.start_time,
            decreases m - k,
        {
            k = k + 1;
        }
        out.insert(k, x);
        proof {
            assert(out@.map_values(|t: Timer| t@) =~= outv.insert(k as int, inv[i as int]));
            lemma_insert_to_multiset(outv, k as int, inv[i as int]);
            assert(inv.take(i + 1 as int).drop_last() == inv.take(i as int));
            assert(inv.take(i + 1 as int) =~= inv.take(i as int).push(inv[i as int]));
            let newv = outv.insert(k as int, inv[i as int]);
            assert forall|a: int, b: int| 0 <= a < b < newv.len() implies (
            #[trigger] newv[a]).start_time >= (#[trigger] newv[b]).start_time by {
                if a < k && b == k {
                    assert(newv[a] == outv[a]);
                } else if a == k && b > k {
                    assert(newv[b] == outv[b - 1]);
                    if k < outv.len() {
                        assert(outv[k as int].start_time < x@.start_time || k == outv.len());
                    }
                } else if a < k && b > k {
                    assert(newv[a] == outv[a] && newv[b] == outv[b - 1]);
                } else if a > k && b > k {
                    assert(newv[a] == outv[a - 1] && newv[b] == outv[b - 1]);
                }
            }
        }
        i = i + 1;
    }
    proof {
        assert(input@.map_values(|t: Timer| t@).take(n as int) =~= input@.map_values(
            |t: Timer| t@,
        ));
    }
    out
}

/// The store after a whole sequence of toggles for one tag, the `k`-th made
/// at clock reading `times[k]`.
pub open spec fn toggle_n(v: StoreView, tag: Seq<char>, times: Seq<int>) -> StoreView
    decreases times.len(),
{
    if times.len() == 0 {
        v
    } else {
        toggle_n(v, tag, times.drop_last()).toggle_step(tag, times.last())
    }
}

/// A toggle preserves the store's invariants.
pub proof fn lemma_toggle_step_wf(v: StoreView, tag: Seq<char>, now: int)
    requires
        v.wf(),
        0 <= now <= i64::MAX,
        v.has_current_timer(tag) ==> v.current_timer(tag).start_time <= now,
        v.next_timer_id < i64::MAX,
        v.next_project_id < i64::MAX,
    ensures
        v.toggle_step(tag, now).wf(),
{
    if v.has_current_timer(tag) {
        let i = v.current_timer_idx(tag);
        lemma_current_timer_at(v, tag, i);
        lemma_timer_id_at(v, v.timers[i].id, i);
        assert(v.stop_timer_step(tag, now).timers =~= stopped_at(
            v,
            v.timers[i].id,
            now - v.timers[i].start_time,
        ).timers);
        lemma_stopped_at_wf(v, v.timers[i].id, now - v.timers[i].start_time);
    } else {
        if v.has_current_project(tag) {
            let j = v.current_project_idx(tag);
            assert(0 <= j < v.projects.len() && is_cur_proj(v.projects[j], tag));
            assert(v.projects[j].id == v.current_project(tag).id && v.projects[j].unique_id
                == tag);
            lemma_with_new_timer_wf(v, tag, v.current_project(tag).id, now);
        } else {
            let v1 = v.with_new_project(tag, default_project_name());
            lemma_with_new_project_wf(v, tag, default_project_name());
            let j = v1.projects.len() - 1;
            assert(v1.projects[j].id == v.next_project_id && v1.projects[j].unique_id == tag);
            assert(v1.timers == v.timers);
            assert(!v1.has_current_timer(tag)) by {
                if v1.has_current_timer(tag) {
                    let i = v1.current_timer_idx(tag);
                    assert(is_cur_timer(v.timers[i], tag));
                }
            }
            lemma_with_new_timer_wf(v1, tag, v.next_project_id, now);
        }
    }
}

/// Law: repeated toggles alternate start and stop.  From a state with no
/// running timer for a tag, an odd number of toggles leaves exactly one
/// running timer for the tag — its duration still the unset sentinel, its
/// start the last clock reading — and an even, positive number leaves no
/// running timer, with the most recent row stopped and its duration exactly
/// the seconds between the last two toggles.  The clock-reading and id
/// bounds only keep every intermediate state within the row types.
pub proof fn lemma_toggle_parity(v: StoreView, tag: Seq<char>, times: Seq<int>)
    requires
        v.wf(),
        !v.has_current_timer(tag),
        forall|i: int| 0 <= i < times.len() ==> 0 <= #[trigger] times[i] <= i64::MAX,
        forall|i: int, j: int| 0 <= i < j < times.len() ==> times[i] <= times[j],
        v.next_timer_id + times.len() <= i64::MAX,
        v.next_project_id + times.len() <= i64::MAX,
    ensures
        ({
            let w = toggle_n(v, tag, times);
            &&& w.wf()
            &&& w.timers.len() == v.timers.len() + (times.len() + 1) / 2
            &&& forall|i: int| 0 <= i < v.timers.len() ==> #[trigger] w.timers[i] == v.timers[i]
            &&& forall|i: int|
                v.timers.len() <= i < w.timers.len() ==> (#[trigger] w.timers[i]).unique_id
                    == tag
            &&& times.len() % 2 == 1 ==> {
                &&& w.has_current_timer(tag)
                &&& w.current_timer_idx(tag) == w.timers.len() - 1
                &&& w.current_timer(tag).start_time == times.last()
                &&& w.current_timer(tag).duration == 0
            }
            &&& times.len() % 2 == 0 ==> !w.has_current_timer(tag)
            &&& times.len() % 2 == 0 && times.len() > 0 ==> {
                let last = w.timers[w.timers.len() - 1];
                &&& last.unique_id == tag
                &&& !last.is_current
                &&& last.start_time == times[times.len() - 2]
                &&& last.duration == times.last() - times[times.len() - 2]
            }
        }),
    decreases times.len(),
{
    let k = times.len() as int;
    if k == 0 {
        return ;
    }
    let prior = times.drop_last();
    let now = times.last();
    lemma_toggle_parity(v, tag, prior);
    let p = toggle_n(v, tag, prior);
    let w = toggle_n(v, tag, times);
    assert(w == p.toggle_step(tag, now));
    assert(p.next_timer_id < i64::MAX && p.next_project_id < i64::MAX) by {
        lemma_toggle_n_ids(v, tag, prior);
    }
    if (k - 1) % 2 == 1 {
        // the previous toggle left a running timer: this one stops it
        let i = p.current_timer_idx(tag);
        assert(i == p.timers.len() - 1);
        assert(p.current_timer(tag).start_time == prior.last());
        assert(prior.last() == times[k - 2]);
        assert(times[k - 2] <= now);
        lemma_toggle_step_wf(p, tag, now);
        assert(w == p.stop_timer_step(tag, now));
        assert(w.timers.len() == p.timers.len());
        assert(w.timers[w.timers.len() - 1] == TimerView {
            is_current: false,
            duration: now - p.timers[i].start_time,
            ..p.timers[i]
        });
        assert(!w.has_current_timer(tag)) by {
            if w.has_current_timer(tag) {
                let m = w.current_timer_idx(tag);
                assert(is_cur_timer(w.timers[m], tag));
                if m != i {
                    assert(w.timers[m] == p.timers[m]);
                    assert(p.has_current_timer(tag)) by {
                        lemma_current_timer_at(p, tag, m);
                    }
                    assert(p.current_timer_idx(tag) == m);
                }
            }
        }
        assert((k + 1) / 2 == (k - 1 + 1) / 2);
    } else {
        // no running timer: this toggle starts one
        assert(!p.has_current_timer(tag));
        lemma_toggle_step_wf(p, tag, now);
        assert(w == p.create_timer_step(tag, now));
        let nl = w.timers.len() - 1;
        assert(w.timers[nl] == TimerView {
            id: p.next_timer_id,
            unique_id: tag,
            project_id: if p.has_current_project(tag) {
                p.current_project(tag).id
            } else {
                p.next_project_id
            },
            start_time: now,
            is_current: true,
            duration: 0,
        });
        assert(w.timers.len() == p.timers.len() + 1);
        assert(forall|i: int| 0 <= i < p.timers.len() ==> #[trigger] w.timers[i] == p.timers[i]);
        lemma_current_timer_at(w, tag, nl);
        assert((k + 1) / 2 == (k - 1 + 1) / 2 + 1);
    }
}

/// Along a toggle sequence the generated ids grow by at most one per
/// toggle.
pub proof fn lemma_toggle_n_ids(v: StoreView, tag: Seq<char>, times: Seq<int>)
    ensures
        toggle_n(v, tag, times).next_timer_id <= v.next_timer_id + times.len(),
        toggle_n(v, tag, times).next_project_id <= v.next_project_id + times.len(),
    decreases times.len(),
{
    if times.len() > 0 {
        lemma_toggle_n_ids(v, tag, times.drop_last());
    }
}

} // verus!
