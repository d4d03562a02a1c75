//! Task identities, states and the notices that finished tasks raise.
use vstd::prelude::*;

use crate::detail::{tail_bytes_spec, tail_chars};
use crate::domain::{opt_view, Timestamp};
use crate::numbers::{byte_len, decimal, exceeds_bytes, format_u64};
use crate::text::{append_chars, chars_of, string_from_chars};

verus! {

/// The most detail a task keeps, in bytes.
pub const DETAIL_CAP: usize = 262144;

#[derive(Debug, Clone, Copy, PartialEq, Eq, PartialOrd, Ord, Hash, Structural)]
pub struct TaskId(pub u64);

impl TaskId {
    /// The task as it is shown: `task-` and its number.
    pub fn label(&self) -> (r: String)
        ensures
            r@ == "task-"@ + decimal(self.0 as nat),
    {
        let mut v = chars_of("task-");
        let d = format_u64(self.0);
        append_chars(&mut v, &d);
        string_from_chars(&v)
    }
}

#[derive(Debug, Clone, Copy, PartialEq, Eq, Structural)]
pub enum TaskState {
    Queued,
    Running,
    Cancelling,
    Succeeded,
    Failed,
    Cancelled,
    Interrupted,
}

impl TaskState {
    pub open spec fn is_terminal_spec(self) -> bool {
        self == TaskState::Succeeded || self == TaskState::Failed || self == TaskState::Cancelled
            || self == TaskState::Interrupted
    }

    /// A state that the task never leaves.
    pub fn is_terminal(self) -> (r: bool)
        ensures
            r == self.is_terminal_spec(),
    {
        match self {
            TaskState::Succeeded | TaskState::Failed | TaskState::Cancelled | TaskState::Interrupted => true,
            _ => false,
        }
    }

    pub open spec fn label_spec(self) -> Seq<char> {
        match self {
            TaskState::Queued => "queued"@,
            TaskState::Running => "running"@,
            TaskState::Cancelling => "cancelling"@,
            TaskState::Succeeded => "succeeded"@,
            TaskState::Failed => "failed"@,
            TaskState::Cancelled => "cancelled"@,
            TaskState::Interrupted => "interrupted"@,
        }
    }

    pub fn label(self) -> (r: &'static str)
        ensures
            r@ == self.label_spec(),
    {
        match self {
            TaskState::Queued => "queued",
            TaskState::Running => "running",
            TaskState::Cancelling => "cancelling",
            TaskState::Succeeded => "succeeded",
            TaskState::Failed => "failed",
            TaskState::Cancelled => "cancelled",
            TaskState::Interrupted => "interrupted",
        }
    }
}

/// Steps done out of steps in all.
#[derive(Debug, Clone, Copy, PartialEq, Eq, Structural)]
pub struct Progress {
    pub completed: u16,
    pub total: u16,
}

/// One field that a task changed.
#[derive(Debug, Clone, PartialEq, Eq)]
pub struct TaskChange {
    pub field: String,
    pub before: Option<String>,
    pub after: Option<String>,
}

#[derive(Debug, Clone, Copy, PartialEq, Eq, Structural)]
pub enum TaskResultKind {
    Success,
    Failure,
    Cancelled,
}

/// The notice that a finished task raises.
#[derive(Debug, Clone, PartialEq, Eq)]
pub struct Notification {
    pub task_id: TaskId,
    pub message: String,
    pub kind: TaskResultKind,
    pub expires_at: Timestamp,
}

/// How a finished state is reported; unfinished states raise no notice.
pub open spec fn result_kind(state: TaskState) -> Option<TaskResultKind> {
    match state {
        TaskState::Succeeded => Some(TaskResultKind::Success),
        TaskState::Failed => Some(TaskResultKind::Failure),
        TaskState::Cancelled => Some(TaskResultKind::Cancelled),
        TaskState::Interrupted => Some(TaskResultKind::Failure),
        _ => None,
    }
}

/// The notice for a task in `state` with the given label and summary, shown
/// for five seconds from `now`.
pub fn notification(task_id: TaskId, state: TaskState, target_label: &str, summary: &str, now: Timestamp) -> (r: Option<Notification>)
    ensures
        match result_kind(state) {
            None => r.is_none(),
            Some(kind) => r matches Some(n) && n.task_id == task_id && n.kind == kind
                && n.message@ == target_label@ + ": "@ + summary@
                && n.expires_at == (if now + 5 <= u64::MAX { (now + 5) as u64 } else { u64::MAX }),
        },
{
    let kind = match state {
        TaskState::Succeeded => TaskResultKind::Success,
        TaskState::Failed => TaskResultKind::Failure,
        TaskState::Cancelled => TaskResultKind::Cancelled,
        TaskState::Interrupted => TaskResultKind::Failure,
        _ => {
            return None;
        },
    };
    let mut v = chars_of(target_label);
    crate::text::append_str(&mut v, ": ");
    crate::text::append_str(&mut v, summary);
    Some(Notification { task_id, message: string_from_chars(&v), kind, expires_at: now.saturating_add(5) })
}

/// How long a cancelled task may take to wind down, in milliseconds.
pub fn grace_duration() -> (r: u64)
    ensures
        r == 1000,
{
    1000
}

/// The lasting identity of a task across runs: the 128 bits of a
/// time-ordered UUID.
#[derive(Debug, Clone, Copy, PartialEq, Eq, PartialOrd, Ord, Hash, Structural)]
pub struct TaskRecordId(pub u128);

/// Whether `v` is a version-7 UUID of the standard (RFC 9562) variant: the
/// version nibble (bits 76 to 79) is 7 and the two variant bits (62 and 63)
/// are `10`.
pub open spec fn is_uuid_v7(v: u128) -> bool {
    (v >> 76u128) & 0xfu128 == 7u128 && (v >> 62u128) & 0x3u128 == 2u128
}

/// How `uuid::Builder::from_unix_timestamp_millis(millis, bytes)` lays out
/// its 128 bits (`Uuid::as_u128`, big-endian): the low 48 bits of `millis`
/// on top, then the version nibble 7, the low four bits of `bytes[0]`,
/// `bytes[1]`, the variant bits `10`, the low six bits of `bytes[2]`, and
/// `bytes[3]` to `bytes[9]` in order.
pub open spec fn v7_layout(r: u128, millis: u64, bytes: Seq<u8>) -> bool {
    &&& r >> 80u128 == (millis as u128) & 0xffff_ffff_ffffu128
    &&& (r >> 76u128) & 0xfu128 == 7u128
    &&& (r >> 72u128) & 0xfu128 == (bytes[0] as u128) & 0xfu128
    &&& (r >> 64u128) & 0xffu128 == bytes[1] as u128
    &&& (r >> 62u128) & 0x3u128 == 2u128
    &&& (r >> 56u128) & 0x3fu128 == (bytes[2] as u128) & 0x3fu128
    &&& (r >> 48u128) & 0xffu128 == bytes[3] as u128
    &&& (r >> 40u128) & 0xffu128 == bytes[4] as u128
    &&& (r >> 32u128) & 0xffu128 == bytes[5] as u128
    &&& (r >> 24u128) & 0xffu128 == bytes[6] as u128
    &&& (r >> 16u128) & 0xffu128 == bytes[7] as u128
    &&& (r >> 8u128) & 0xffu128 == bytes[8] as u128
    &&& r & 0xffu128 == bytes[9] as u128
}

/// `uuid::Builder::from_unix_timestamp_millis(millis, bytes)` as its 128-bit
/// value. The crate's `encode_unix_timestamp_millis` places the bits as
/// `v7_layout` says; it reads no clock and no random source.
#[verifier::external_body]
fn v7_value(millis: u64, bytes: &[u8; 10]) -> (r: u128)
    ensures
        v7_layout(r, millis, bytes@),
{
    uuid::Builder::from_unix_timestamp_millis(millis, bytes).into_uuid().as_u128()
}

impl TaskRecordId {
    /// The identity made at `millis` (milliseconds since the Unix epoch)
    /// with ten random bytes: a version-7 UUID of the standard variant whose
    /// top 48 bits are the time.
    pub fn new(millis: u64, random_bytes: &[u8; 10]) -> (r: TaskRecordId)
        ensures
            v7_layout(r.0, millis, random_bytes@),
            is_uuid_v7(r.0),
    {
        TaskRecordId(v7_value(millis, random_bytes))
    }
}

/// A task: what it does, to what, how far it has got and what it changed.
#[derive(Debug, Clone, PartialEq, Eq)]
pub struct Task {
    pub id: TaskId,
    pub record_id: TaskRecordId,
    pub action_id: String,
    pub target_label: String,
    pub state: TaskState,
    pub started_at: Timestamp,
    pub finished_at: Option<Timestamp>,
    pub progress: Option<Progress>,
    pub summary: String,
    pub detail: String,
    pub cancellable: bool,
    pub requested_fields: Vec<String>,
    pub redacted_argv: Vec<String>,
    pub exit_status: Option<i32>,
    pub verification: Option<String>,
    pub changes: Vec<TaskChange>,
}

/// A task with its text and lists taken as sequences.
#[verifier::ext_equal]
pub struct TaskView {
    pub id: TaskId,
    pub record_id: TaskRecordId,
    pub action_id: Seq<char>,
    pub target_label: Seq<char>,
    pub state: TaskState,
    pub started_at: Timestamp,
    pub finished_at: Option<Timestamp>,
    pub progress: Option<Progress>,
    pub summary: Seq<char>,
    pub detail: Seq<char>,
    pub cancellable: bool,
    pub requested_fields: Seq<String>,
    pub redacted_argv: Seq<String>,
    pub exit_status: Option<i32>,
    pub verification: Option<Seq<char>>,
    pub changes: Seq<TaskChange>,
}

impl View for Task {
    type V = TaskView;

    open spec fn view(&self) -> TaskView {
        TaskView {
            id: self.id,
            record_id: self.record_id,
            action_id: self.action_id@,
            target_label: self.target_label@,
            state: self.state,
            started_at: self.started_at,
            finished_at: self.finished_at,
            progress: self.progress,
            summary: self.summary@,
            detail: self.detail@,
            cancellable: self.cancellable,
            requested_fields: self.requested_fields@,
            redacted_argv: self.redacted_argv@,
            exit_status: self.exit_status,
            verification: opt_view(self.verification),
            changes: self.changes@,
        }
    }
}

pub open spec fn tasks_view(v: Seq<Task>) -> Seq<TaskView> {
    v.map_values(|t: Task| t@)
}

fn clone_text(s: &String) -> (r: String)
    ensures
        r == *s,
{
    s.clone()
}

fn clone_opt_text(o: &Option<String>) -> (r: Option<String>)
    ensures
        r == *o,
{
    match o {
        Some(s) => Some(s.clone()),
        None => None,
    }
}

fn clone_texts(v: &Vec<String>) -> (r: Vec<String>)
    ensures
        r@ == v@,
{
    let mut out: Vec<String> = Vec::new();
    let mut i: usize = 0;
    while i < v.len()
        invariant
            i <= v.len(),
            out@ == v@.take(i as int),
        decreases v.len() - i,
    {
        out.push(clone_text(&v[i]));
        proof {
            assert(v@.take(i + 1) =~= v@.take(i as int).push(v@[i as int]));
        }
        i = i + 1;
    }
    proof {
        assert(v@.take(v.len() as int) =~= v@);
    }
    out
}

fn clone_changes(v: &Vec<TaskChange>) -> (r: Vec<TaskChange>)
    ensures
        r@ == v@,
{
    let mut out: Vec<TaskChange> = Vec::new();
    let mut i: usize = 0;
    while i < v.len()
        invariant
            i <= v.len(),
            out@ == v@.take(i as int),
        decreases v.len() - i,
    {
        let c = &v[i];
        out.push(
            TaskChange {
                field: clone_text(&c.field),
                before: clone_opt_text(&c.before),
                after: clone_opt_text(&c.after),
            },
        );
        proof {
            assert(v@.take(i + 1) =~= v@.take(i as int).push(v@[i as int]));
        }
        i = i + 1;
    }
    proof {
        assert(v@.take(v.len() as int) =~= v@);
    }
    out
}

/// A copy of `t`, equal to it in every field.
pub fn copy_task(t: &Task) -> (r: Task)
    ensures
        r@ == t@,
{
    Task {
        id: t.id,
        record_id: t.record_id,
        action_id: clone_text(&t.action_id),
        target_label: clone_text(&t.target_label),
        state: t.state,
        started_at: t.started_at,
        finished_at: t.finished_at,
        progress: t.progress,
        summary: clone_text(&t.summary),
        detail: clone_text(&t.detail),
        cancellable: t.cancellable,
        requested_fields: clone_texts(&t.requested_fields),
        redacted_argv: clone_texts(&t.redacted_argv),
        exit_status: t.exit_status,
        verification: clone_opt_text(&t.verification),
        changes: clone_changes(&t.changes),
    }
}

/// Whether a task with `id` is among `tasks`.
pub open spec fn holds_task(tasks: Seq<TaskView>, id: TaskId) -> bool {
    exists|i: int| 0 <= i < tasks.len() && #[trigger] tasks[i].id == id
}

/// `i` is the first place in `tasks` that holds `id`.
pub open spec fn is_first_with(tasks: Seq<TaskView>, id: TaskId, i: int) -> bool {
    &&& 0 <= i < tasks.len()
    &&& tasks[i].id == id
    &&& forall|j: int| 0 <= j < i ==> #[trigger] tasks[j].id != id
}

/// The first place in `tasks` that holds `id`, which is where the store looks.
pub open spec fn first_with(tasks: Seq<TaskView>, id: TaskId) -> int {
    choose|i: int| is_first_with(tasks, id, i)
}

pub proof fn lemma_first_with(tasks: Seq<TaskView>, id: TaskId, i: int)
    requires
        is_first_with(tasks, id, i),
    ensures
        first_with(tasks, id) == i,
{
    let c = first_with(tasks, id);
    assert(is_first_with(tasks, id, c));
    if c < i {
        assert(tasks[c].id != id);
    }
    if c > i {
        assert(tasks[i].id != id);
    }
}

pub proof fn lemma_first_exists(tasks: Seq<TaskView>, id: TaskId)
    requires
        holds_task(tasks, id),
    ensures
        is_first_with(tasks, id, first_with(tasks, id)),
    decreases tasks.len(),
{
    if tasks[0].id == id {
        assert(is_first_with(tasks, id, 0));
        lemma_first_with(tasks, id, 0);
    } else {
        let w = choose|i: int| 0 <= i < tasks.len() && #[trigger] tasks[i].id == id;
        let rest = tasks.drop_first();
        assert(rest[w - 1].id == id);
        lemma_first_exists(rest, id);
        let k = first_with(rest, id);
        assert forall|j: int| 0 <= j < k + 1 implies #[trigger] tasks[j].id != id by {
            if j > 0 {
                assert(tasks[j] == rest[j - 1]);
            }
        }
        assert(is_first_with(tasks, id, k + 1));
        lemma_first_with(tasks, id, k + 1);
    }
}

/// Adding `x` to a list unless it is there already leaves a list that holds
/// what it held and `x`.
proof fn lemma_insert_once<T>(before: Seq<T>, after: Seq<T>, x: T)
    requires
        (before.contains(x) && after == before) || (!before.contains(x) && after == before.push(x)),
    ensures
        forall|y: T| #[trigger] after.contains(y) == (before.contains(y) || y == x),
{
    assert forall|y: T| #[trigger] after.contains(y) == (before.contains(y) || y == x) by {
        if after.contains(y) {
            let j = choose|j: int| 0 <= j < after.len() && after[j] == y;
            if j < before.len() {
                assert(before[j] == y);
            }
        }
        if before.contains(y) {
            let j = choose|j: int| 0 <= j < before.len() && before[j] == y;
            assert(after[j] == y);
        }
        if y == x && !before.contains(x) {
            assert(after[before.len() as int] == x);
        }
    }
}

/// Changing one task of a list changes its view at that place alone.
proof fn lemma_view_update(before: Seq<Task>, after: Seq<Task>, i: int, t: Task)
    requires
        0 <= i < before.len(),
        after == before.update(i, t),
    ensures
        tasks_view(after) == tasks_view(before).update(i, t@),
{
    assert(tasks_view(after) =~= tasks_view(before).update(i, t@));
}

/// Where the first task with `id` stands in `tasks`.
fn find_task(tasks: &Vec<Task>, id: TaskId) -> (r: Option<usize>)
    ensures
        r is Some <==> holds_task(tasks_view(tasks@), id),
        r matches Some(i) ==> i < tasks.len() && is_first_with(tasks_view(tasks@), id, i as int)
            && first_with(tasks_view(tasks@), id) == i,
{
    let ghost tv = tasks_view(tasks@);
    let mut i: usize = 0;
    while i < tasks.len()
        invariant
            i <= tasks.len(),
            tv == tasks_view(tasks@),
            forall|j: int| 0 <= j < i ==> #[trigger] tv[j].id != id,
        decreases tasks.len() - i,
    {
        if tasks[i].id == id {
            proof {
                assert(tv[i as int].id == id);
                assert(is_first_with(tv, id, i as int));
                lemma_first_with(tv, id, i as int);
            }
            return Some(i);
        }
        proof {
            assert(tv[i as int].id != id);
        }
        i = i + 1;
    }
    None
}

/// Whether some task of `tasks` carries the record `record_id`.
pub open spec fn holds_record(tasks: Seq<TaskView>, record_id: TaskRecordId) -> bool {
    exists|i: int| 0 <= i < tasks.len() && #[trigger] tasks[i].record_id == record_id
}

fn has_record(tasks: &Vec<Task>, record_id: TaskRecordId) -> (r: bool)
    ensures
        r == holds_record(tasks_view(tasks@), record_id),
{
    let ghost tv = tasks_view(tasks@);
    let mut i: usize = 0;
    while i < tasks.len()
        invariant
            i <= tasks.len(),
            tv == tasks_view(tasks@),
            forall|j: int| 0 <= j < i ==> #[trigger] tv[j].record_id != record_id,
        decreases tasks.len() - i,
    {
        if tasks[i].record_id == record_id {
            proof {
                assert(tv[i as int].record_id == record_id);
            }
            return true;
        }
        proof {
            assert(tv[i as int].record_id != record_id);
        }
        i = i + 1;
    }
    false
}

/// The tasks of this run and of earlier runs, which ones still need saving,
/// which ones this run started, and which one is selected.
#[derive(Debug, Clone)]
pub struct TaskStore {
    tasks: Vec<Task>,
    next_id: u64,
    dirty: Vec<TaskRecordId>,
    session_task_ids: Vec<TaskId>,
    pub selected: Option<TaskId>,
}

/// A task store as a whole: its tasks in order, the number the next task
/// gets, the records that changed since they were last taken for saving, the
/// tasks started in this session, and the selection.
#[verifier::ext_equal]
pub struct TaskStoreView {
    pub tasks: Seq<TaskView>,
    pub next_id: u64,
    pub dirty: Set<u128>,
    pub session: Set<u64>,
    pub selected: Option<TaskId>,
}

impl View for TaskStore {
    type V = TaskStoreView;

    closed spec fn view(&self) -> TaskStoreView {
        TaskStoreView {
            tasks: tasks_view(self.tasks@),
            next_id: self.next_id,
            dirty: Set::new(|r: u128| self.dirty@.contains(TaskRecordId(r))),
            session: Set::new(|x: u64| self.session_task_ids@.contains(TaskId(x))),
            selected: self.selected,
        }
    }
}

/// `a + k`, stopping at the largest `u64`.
pub open spec fn saturating_plus(a: u64, k: nat) -> u64 {
    if a + k <= u64::MAX {
        (a + k) as u64
    } else {
        u64::MAX
    }
}

impl TaskStoreView {
    /// The task that the store finds for `id`.
    pub open spec fn task(self, id: TaskId) -> TaskView {
        self.tasks[first_with(self.tasks, id)]
    }

    /// The store after the task found for `id` became `t`, which is then
    /// marked for saving.
    pub open spec fn with_task(self, id: TaskId, t: TaskView) -> TaskStoreView {
        TaskStoreView {
            tasks: self.tasks.update(first_with(self.tasks, id), t),
            dirty: self.dirty.insert(t.record_id.0),
            ..self
        }
    }
}

/// The task that `create` adds.
pub open spec fn queued_task(
    id: TaskId,
    record_id: TaskRecordId,
    action_id: Seq<char>,
    target_label: Seq<char>,
    started_at: Timestamp,
    cancellable: bool,
) -> TaskView {
    TaskView {
        id,
        record_id,
        action_id,
        target_label,
        state: TaskState::Queued,
        started_at,
        finished_at: None,
        progress: None,
        summary: "queued"@,
        detail: Seq::empty(),
        cancellable,
        requested_fields: Seq::empty(),
        redacted_argv: Seq::empty(),
        exit_status: None,
        verification: None,
        changes: Seq::empty(),
    }
}

impl TaskStore {
    /// An empty store whose first task gets number 1.
    pub fn new() -> (r: TaskStore)
        ensures
            r@.tasks == Seq::<TaskView>::empty(),
            r@.next_id == 1,
            r@.dirty == Set::<u128>::empty(),
            r@.session == Set::<u64>::empty(),
            r@.selected is None,
    {
        let r = TaskStore {
            tasks: Vec::new(),
            next_id: 1,
            dirty: Vec::new(),
            session_task_ids: Vec::new(),
            selected: None,
        };
        proof {
            assert(r@.tasks =~= Seq::<TaskView>::empty());
            assert(r@.dirty =~= Set::<u128>::empty());
            assert(r@.session =~= Set::<u64>::empty());
        }
        r
    }

    /// Where the task with `id` stands, the first one if several share it.
    fn position(&self, id: TaskId) -> (r: Option<usize>)
        ensures
            r is Some <==> holds_task(self@.tasks, id),
            r matches Some(i) ==> i < self.tasks.len() && is_first_with(self@.tasks, id, i as int)
                && first_with(self@.tasks, id) == i,
    {
        find_task(&self.tasks, id)
    }

    /// The task with `id`, the first one if several share it.
    pub fn get(&self, id: TaskId) -> (r: Option<&Task>)
        ensures
            r is Some <==> holds_task(self@.tasks, id),
            r matches Some(t) ==> t@ == self@.task(id),
    {
        match self.position(id) {
            Some(i) => Some(&self.tasks[i]),
            None => None,
        }
    }

    /// The task with `id` to change in place, the first one if several
    /// share it; a change made through it is not marked for saving.
    pub fn get_mut(&mut self, id: TaskId) -> (r: Option<&mut Task>)
        ensures
            r is Some <==> holds_task(old(self)@.tasks, id),
            r matches Some(t) ==> (*t)@ == old(self)@.task(id) && final(self)@ == (TaskStoreView {
                tasks: old(self)@.tasks.update(first_with(old(self)@.tasks, id), (*final(t))@),
                ..old(self)@
            }),
            r is None ==> final(self)@ == old(self)@,
    {
        match find_task(&self.tasks, id) {
            Some(i) => Some(&mut self.tasks[i]),
            None => None,
        }
    }

    fn has_dirty(&self, record_id: TaskRecordId) -> (r: bool)
        ensures
            r == self@.dirty.contains(record_id.0),
    {
        let mut i: usize = 0;
        while i < self.dirty.len()
            invariant
                i <= self.dirty.len(),
                forall|j: int| 0 <= j < i ==> #[trigger] self.dirty@[j] != record_id,
            decreases self.dirty.len() - i,
        {
            if self.dirty[i] == record_id {
                proof {
                    assert(self.dirty@.contains(TaskRecordId(record_id.0)));
                }
                return true;
            }
            i = i + 1;
        }
        proof {
            assert(!self.dirty@.contains(TaskRecordId(record_id.0)));
        }
        false
    }

    fn note_dirty(&mut self, record_id: TaskRecordId)
        ensures
            final(self)@ == (TaskStoreView { dirty: old(self)@.dirty.insert(record_id.0), ..old(self)@ }),
    {
        let present = self.has_dirty(record_id);
        if !present {
            self.dirty.push(record_id);
        }
        proof {
            lemma_insert_once(old(self).dirty@, self.dirty@, record_id);
            assert(final(self)@.dirty =~= old(self)@.dirty.insert(record_id.0)) by {
                assert forall|r: u128| #[trigger] final(self)@.dirty.contains(r) == old(self)@.dirty.insert(record_id.0).contains(r) by {
                    assert(self.dirty@.contains(TaskRecordId(r)) == (old(self).dirty@.contains(TaskRecordId(r)) || TaskRecordId(r) == record_id));
                }
            }
            assert(final(self)@ =~= (TaskStoreView { dirty: old(self)@.dirty.insert(record_id.0), ..old(self)@ }));
        }
    }

    fn has_session(&self, id: TaskId) -> (r: bool)
        ensures
            r == self@.session.contains(id.0),
    {
        let mut i: usize = 0;
        while i < self.session_task_ids.len()
            invariant
                i <= self.session_task_ids.len(),
                forall|j: int| 0 <= j < i ==> #[trigger] self.session_task_ids@[j] != id,
            decreases self.session_task_ids.len() - i,
        {
            if self.session_task_ids[i] == id {
                proof {
                    assert(self.session_task_ids@.contains(TaskId(id.0)));
                }
                return true;
            }
            i = i + 1;
        }
        proof {
            assert(!self.session_task_ids@.contains(TaskId(id.0)));
        }
        false
    }

    fn note_session(&mut self, id: TaskId)
        ensures
            final(self)@ == (TaskStoreView { session: old(self)@.session.insert(id.0), ..old(self)@ }),
    {
        let present = self.has_session(id);
        if !present {
            self.session_task_ids.push(id);
        }
        proof {
            lemma_insert_once(old(self).session_task_ids@, self.session_task_ids@, id);
            assert(final(self)@.session =~= old(self)@.session.insert(id.0)) by {
                assert forall|x: u64| #[trigger] final(self)@.session.contains(x) == old(self)@.session.insert(id.0).contains(x) by {
                    assert(self.session_task_ids@.contains(TaskId(x)) == (old(self).session_task_ids@.contains(TaskId(x)) || TaskId(x) == id));
                }
            }
            assert(final(self)@ =~= (TaskStoreView { session: old(self)@.session.insert(id.0), ..old(self)@ }));
        }
    }

}

/// A running detail with one more line: the line alone when the detail was
/// empty, else the two joined by a line break.
pub open spec fn joined_detail(existing: Seq<char>, line: Seq<char>) -> Seq<char> {
    if existing.len() == 0 {
        line
    } else {
        existing + "\n"@ + line
    }
}

/// Detail kept within `cap` bytes: its latest part, the whole of it where it fits.
pub open spec fn bounded_detail_spec(value: Seq<char>, cap: nat) -> Seq<char> {
    tail_bytes_spec(value, cap)
}

/// A task's detail after `line` was reported: unchanged for an empty line,
/// else the joined text kept within `DETAIL_CAP` bytes.
pub open spec fn appended_detail(existing: Seq<char>, line: Seq<char>) -> Seq<char> {
    if line.len() == 0 {
        existing
    } else {
        bounded_detail_spec(joined_detail(existing, line), DETAIL_CAP as nat)
    }
}

/// `value` kept within `cap` bytes of UTF-8: its latest part.
pub fn bounded_detail(value: &str, cap: usize) -> (r: String)
    ensures
        r@ == bounded_detail_spec(value@, cap as nat),
{
    let c = chars_of(value);
    let t = tail_chars(&c, cap);
    string_from_chars(&t)
}

fn joined_chars(existing: &str, line: &str) -> (r: Vec<char>)
    ensures
        r@ == joined_detail(existing@, line@),
{
    let mut v = chars_of(existing);
    if v.len() > 0 {
        v.push('\n');
    }
    crate::text::append_str(&mut v, line);
    proof {
        reveal_strlit("\n");
        if existing@.len() > 0 {
            assert(v@ =~= existing@ + "\n"@ + line@);
        }
    }
    v
}

/// The limit past which `push_bounded` compacts: twice the cap, stopping at
/// the largest `usize`.
pub open spec fn compact_threshold(cap: usize) -> nat {
    if 2 * cap <= usize::MAX {
        (2 * cap) as nat
    } else {
        usize::MAX as nat
    }
}

/// A running detail after `push_bounded` added `value`.
pub open spec fn pushed_detail(existing: Seq<char>, value: Seq<char>, cap: usize) -> Seq<char> {
    if byte_len(joined_detail(existing, value)) > compact_threshold(cap) {
        bounded_detail_spec(joined_detail(existing, value), cap as nat)
    } else {
        joined_detail(existing, value)
    }
}

/// Appends one line to a running detail, and cuts the detail down to its
/// latest `cap` bytes only once it has grown past twice the cap, so that a
/// long stream is copied once per `cap` bytes and the detail never exceeds
/// twice the cap.
pub fn push_bounded(detail: &mut String, value: &str, cap: usize)
    ensures
        final(detail)@ == pushed_detail(old(detail)@, value@, cap),
{
    let j = joined_chars(detail.as_str(), value);
    let threshold: usize = if cap <= usize::MAX / 2 { cap * 2 } else { usize::MAX };
    if exceeds_bytes(&j, threshold) {
        let t = tail_chars(&j, cap);
        *detail = string_from_chars(&t);
    } else {
        *detail = string_from_chars(&j);
    }
}

/// Adds one line of detail to a task, keeping the detail within `DETAIL_CAP`
/// bytes; an empty line changes nothing.
fn append_detail(task: &mut Task, detail: &str)
    ensures
        final(task)@ == (TaskView { detail: appended_detail(old(task)@.detail, detail@), ..old(task)@ }),
{
    if detail.is_empty() {
        return;
    }
    let j = joined_chars(task.detail.as_str(), detail);
    let t = tail_chars(&j, DETAIL_CAP);
    task.detail = string_from_chars(&t);
}

/// Text kept as a task's detail: its latest `DETAIL_CAP` bytes.
pub fn bounded_task_detail(value: &str) -> (r: String)
    ensures
        r@ == bounded_detail_spec(value@, DETAIL_CAP as nat),
{
    bounded_detail(value, DETAIL_CAP)
}

/// A task detail with one more line, kept within `DETAIL_CAP` bytes.
pub fn append_bounded(existing: &str, value: &str) -> (r: String)
    ensures
        r@ == bounded_detail_spec(joined_detail(existing@, value@), DETAIL_CAP as nat),
{
    let j = joined_chars(existing, value);
    let t = tail_chars(&j, DETAIL_CAP);
    string_from_chars(&t)
}

/// The detail of a local change, with what the command wrote to standard
/// error where there was any.
pub fn mutation_detail(base: &str, stderr: Option<&str>) -> (r: String)
    ensures
        r@ == match stderr {
            None => base@,
            Some(e) => base@ + "; bounded stderr: "@ + e@,
        },
{
    match stderr {
        None => base.to_owned(),
        Some(e) => {
            let mut v = chars_of(base);
            crate::text::append_str(&mut v, "; bounded stderr: ");
            crate::text::append_str(&mut v, e);
            string_from_chars(&v)
        },
    }
}

/// What `start` makes of a task: a queued task runs.
pub open spec fn start_step(t: TaskView) -> Option<TaskView> {
    if t.state == TaskState::Queued {
        Some(TaskView { state: TaskState::Running, summary: "running"@, ..t })
    } else {
        None
    }
}

/// What `progress` makes of a task: a running or cancelling task takes the
/// progress and one more line of detail.
pub open spec fn progress_step(t: TaskView, progress: Progress, line: Seq<char>) -> Option<TaskView> {
    if t.state == TaskState::Running || t.state == TaskState::Cancelling {
        Some(TaskView { progress: Some(progress), detail: appended_detail(t.detail, line), ..t })
    } else {
        None
    }
}

/// What a cancel request makes of a task: a cancellable task that is queued
/// or running turns to cancelling.
pub open spec fn cancel_step(t: TaskView) -> Option<TaskView> {
    if (t.state == TaskState::Queued || t.state == TaskState::Running) && t.cancellable {
        Some(TaskView { state: TaskState::Cancelling, summary: "cancelling"@, ..t })
    } else {
        None
    }
}

/// What finishing makes of a task: one that has started and not finished
/// takes the final state, the time, the summary and one more line of detail.
pub open spec fn finish_step(
    t: TaskView,
    state: TaskState,
    finished_at: Timestamp,
    summary: Seq<char>,
    line: Seq<char>,
) -> Option<TaskView> {
    if t.state.is_terminal_spec() || t.state == TaskState::Queued {
        None
    } else {
        Some(
            TaskView {
                state,
                finished_at: Some(finished_at),
                summary,
                detail: appended_detail(t.detail, line),
                ..t
            },
        )
    }
}

impl TaskStore {
    /// Adds a queued task with the next number and the given lasting
    /// identity, marks it for saving and as
    /// started in this session, and selects it when nothing was selected.
    pub fn create(
        &mut self,
        record_id: TaskRecordId,
        action_id: String,
        target_label: String,
        started_at: Timestamp,
        cancellable: bool,
    ) -> (r: TaskId)
        ensures
            r == TaskId(old(self)@.next_id),
            final(self)@.next_id == saturating_plus(old(self)@.next_id, 1),
            final(self)@.tasks.len() == old(self)@.tasks.len() + 1,
            final(self)@.tasks.drop_last() == old(self)@.tasks,
            final(self)@.tasks.last() == queued_task(
                r,
                record_id,
                action_id@,
                target_label@,
                started_at,
                cancellable,
            ),
            final(self)@.dirty == old(self)@.dirty.insert(record_id.0),
            final(self)@.session == old(self)@.session.insert(r.0),
            final(self)@.selected == (if old(self)@.selected is None {
                Some(r)
            } else {
                old(self)@.selected
            }),
    {
        let id = TaskId(self.next_id);
        self.next_id = self.next_id.saturating_add(1);
        let task = Task {
            id,
            record_id,
            action_id,
            target_label,
            state: TaskState::Queued,
            started_at,
            finished_at: None,
            progress: None,
            summary: "queued".to_owned(),
            detail: String::new(),
            cancellable,
            requested_fields: Vec::new(),
            redacted_argv: Vec::new(),
            exit_status: None,
            verification: None,
            changes: Vec::new(),
        };
        let ghost tv = task@;
        self.tasks.push(task);
        proof {
            assert(tasks_view(self.tasks@) =~= old(self)@.tasks.push(tv));
            assert(tv.requested_fields =~= Seq::<String>::empty());
            assert(tv.redacted_argv =~= Seq::<String>::empty());
            assert(tv.changes =~= Seq::<TaskChange>::empty());
            assert(tv.detail =~= Seq::<char>::empty());
        }
        self.note_dirty(record_id);
        self.note_session(id);
        if self.selected.is_none() {
            self.selected = Some(id);
        }
        proof {
            assert(final(self)@.tasks.drop_last() =~= old(self)@.tasks);
        }
        id
    }

    /// Replaces the changes recorded for the task with `id`; `false` when
    /// there is no such task.
    pub fn set_changes(&mut self, id: TaskId, changes: Vec<TaskChange>) -> (r: bool)
        ensures
            r == holds_task(old(self)@.tasks, id),
            r ==> final(self)@ == old(self)@.with_task(id, TaskView { changes: changes@, ..old(self)@.task(id) }),
            !r ==> final(self)@ == old(self)@,
    {
        let i = match self.position(id) {
            Some(i) => i,
            None => {
                return false;
            },
        };
        let ghost before = self.tasks@;
        self.tasks[i].changes = changes;
        let record_id = self.tasks[i].record_id;
        proof {
            lemma_view_update(before, self.tasks@, i as int, self.tasks@[i as int]);
        }
        self.note_dirty(record_id);
        proof {
            assert(final(self)@ =~= old(self)@.with_task(id, TaskView { changes: changes@, ..old(self)@.task(id) }));
        }
        true
    }

    /// Records the fields a local command was asked for and its arguments as
    /// shown; `false` when there is no task with `id`.
    pub fn set_local_metadata(&mut self, id: TaskId, requested_fields: Vec<String>, redacted_argv: Vec<String>) -> (r: bool)
        ensures
            r == holds_task(old(self)@.tasks, id),
            r ==> final(self)@ == old(self)@.with_task(
                id,
                TaskView { requested_fields: requested_fields@, redacted_argv: redacted_argv@, ..old(self)@.task(id) },
            ),
            !r ==> final(self)@ == old(self)@,
    {
        let i = match self.position(id) {
            Some(i) => i,
            None => {
                return false;
            },
        };
        let ghost before = self.tasks@;
        let ghost rf = requested_fields@;
        let ghost ra = redacted_argv@;
        self.tasks[i].requested_fields = requested_fields;
        self.tasks[i].redacted_argv = redacted_argv;
        let record_id = self.tasks[i].record_id;
        proof {
            assert(self.tasks@ =~= before.update(i as int, self.tasks@[i as int]));
            lemma_view_update(before, self.tasks@, i as int, self.tasks@[i as int]);
        }
        self.note_dirty(record_id);
        proof {
            assert(final(self)@ =~= old(self)@.with_task(
                id,
                TaskView { requested_fields: rf, redacted_argv: ra, ..old(self)@.task(id) },
            ));
        }
        true
    }

    /// Records how the task's command exited; `false` when there is no task
    /// with `id`.
    pub fn set_exit_status(&mut self, id: TaskId, exit_status: Option<i32>) -> (r: bool)
        ensures
            r == holds_task(old(self)@.tasks, id),
            r ==> final(self)@ == old(self)@.with_task(id, TaskView { exit_status, ..old(self)@.task(id) }),
            !r ==> final(self)@ == old(self)@,
    {
        let i = match self.position(id) {
            Some(i) => i,
            None => {
                return false;
            },
        };
        let ghost before = self.tasks@;
        self.tasks[i].exit_status = exit_status;
        let record_id = self.tasks[i].record_id;
        proof {
            lemma_view_update(before, self.tasks@, i as int, self.tasks@[i as int]);
        }
        self.note_dirty(record_id);
        proof {
            assert(final(self)@ =~= old(self)@.with_task(id, TaskView { exit_status, ..old(self)@.task(id) }));
        }
        true
    }

    /// Records how the task's outcome was checked; `false` when there is no
    /// task with `id`.
    pub fn set_verification(&mut self, id: TaskId, verification: String) -> (r: bool)
        ensures
            r == holds_task(old(self)@.tasks, id),
            r ==> final(self)@ == old(self)@.with_task(id, TaskView { verification: Some(verification@), ..old(self)@.task(id) }),
            !r ==> final(self)@ == old(self)@,
    {
        let i = match self.position(id) {
            Some(i) => i,
            None => {
                return false;
            },
        };
        let ghost before = self.tasks@;
        let ghost v = verification@;
        self.tasks[i].verification = Some(verification);
        let record_id = self.tasks[i].record_id;
        proof {
            lemma_view_update(before, self.tasks@, i as int, self.tasks@[i as int]);
        }
        self.note_dirty(record_id);
        proof {
            assert(final(self)@ =~= old(self)@.with_task(id, TaskView { verification: Some(v), ..old(self)@.task(id) }));
        }
        true
    }
}

impl TaskStore {
    /// Starts a queued task; `false`, with nothing changed, when there is no
    /// task with `id` or it is not queued.
    pub fn start(&mut self, id: TaskId) -> (r: bool)
        ensures
            r == (holds_task(old(self)@.tasks, id) && start_step(old(self)@.task(id)) is Some),
            r ==> final(self)@ == old(self)@.with_task(id, start_step(old(self)@.task(id))->0),
            !r ==> final(self)@ == old(self)@,
    {
        let i = match self.position(id) {
            Some(i) => i,
            None => {
                return false;
            },
        };
        if self.tasks[i].state != TaskState::Queued {
            return false;
        }
        let ghost before = self.tasks@;
        self.tasks[i].state = TaskState::Running;
        self.tasks[i].summary = "running".to_owned();
        let record_id = self.tasks[i].record_id;
        proof {
            assert(self.tasks@ =~= before.update(i as int, self.tasks@[i as int]));
            lemma_view_update(before, self.tasks@, i as int, self.tasks@[i as int]);
        }
        self.note_dirty(record_id);
        proof {
            assert(final(self)@ =~= old(self)@.with_task(id, start_step(old(self)@.task(id))->0));
        }
        true
    }

    /// Records progress and one line of detail for a running or cancelling
    /// task; `false`, with nothing changed, for any other task or none.
    pub fn progress(&mut self, id: TaskId, progress: Progress, detail: &str) -> (r: bool)
        ensures
            r == (holds_task(old(self)@.tasks, id) && progress_step(old(self)@.task(id), progress, detail@) is Some),
            r ==> final(self)@ == old(self)@.with_task(id, progress_step(old(self)@.task(id), progress, detail@)->0),
            !r ==> final(self)@ == old(self)@,
    {
        let i = match self.position(id) {
            Some(i) => i,
            None => {
                return false;
            },
        };
        if !(self.tasks[i].state == TaskState::Running || self.tasks[i].state == TaskState::Cancelling) {
            return false;
        }
        let ghost before = self.tasks@;
        self.tasks[i].progress = Some(progress);
        append_detail(&mut self.tasks[i], detail);
        let record_id = self.tasks[i].record_id;
        proof {
            assert(self.tasks@ =~= before.update(i as int, self.tasks@[i as int]));
            lemma_view_update(before, self.tasks@, i as int, self.tasks@[i as int]);
        }
        self.note_dirty(record_id);
        proof {
            assert(final(self)@ =~= old(self)@.with_task(id, progress_step(old(self)@.task(id), progress, detail@)->0));
        }
        true
    }

    /// Asks a task to stop. A cancellable task that is queued or running
    /// turns to cancelling; the answer is whether the task is now cancelling.
    pub fn request_cancel(&mut self, id: TaskId) -> (r: bool)
        ensures
            r == (holds_task(old(self)@.tasks, id) && (cancel_step(old(self)@.task(id)) is Some
                || old(self)@.task(id).state == TaskState::Cancelling)),
            holds_task(old(self)@.tasks, id) && cancel_step(old(self)@.task(id)) is Some
                ==> final(self)@ == old(self)@.with_task(id, cancel_step(old(self)@.task(id))->0),
            !(holds_task(old(self)@.tasks, id) && cancel_step(old(self)@.task(id)) is Some)
                ==> final(self)@ == old(self)@,
    {
        let i = match self.position(id) {
            Some(i) => i,
            None => {
                return false;
            },
        };
        let state = self.tasks[i].state;
        if !((state == TaskState::Queued || state == TaskState::Running) && self.tasks[i].cancellable) {
            return state == TaskState::Cancelling;
        }
        let ghost before = self.tasks@;
        self.tasks[i].state = TaskState::Cancelling;
        self.tasks[i].summary = "cancelling".to_owned();
        let record_id = self.tasks[i].record_id;
        proof {
            assert(self.tasks@ =~= before.update(i as int, self.tasks@[i as int]));
            lemma_view_update(before, self.tasks@, i as int, self.tasks@[i as int]);
        }
        self.note_dirty(record_id);
        proof {
            assert(final(self)@ =~= old(self)@.with_task(id, cancel_step(old(self)@.task(id))->0));
        }
        true
    }

    fn finish(&mut self, id: TaskId, state: TaskState, finished_at: Timestamp, summary: &str, detail: &str) -> (r: bool)
        ensures
            r == (holds_task(old(self)@.tasks, id) && finish_step(old(self)@.task(id), state, finished_at, summary@, detail@) is Some),
            r ==> final(self)@ == old(self)@.with_task(
                id,
                finish_step(old(self)@.task(id), state, finished_at, summary@, detail@)->0,
            ),
            !r ==> final(self)@ == old(self)@,
    {
        let i = match self.position(id) {
            Some(i) => i,
            None => {
                return false;
            },
        };
        if self.tasks[i].state.is_terminal() || self.tasks[i].state == TaskState::Queued {
            return false;
        }
        let ghost before = self.tasks@;
        self.tasks[i].state = state;
        self.tasks[i].finished_at = Some(finished_at);
        self.tasks[i].summary = summary.to_owned();
        append_detail(&mut self.tasks[i], detail);
        let record_id = self.tasks[i].record_id;
        proof {
            assert(self.tasks@ =~= before.update(i as int, self.tasks@[i as int]));
            lemma_view_update(before, self.tasks@, i as int, self.tasks@[i as int]);
        }
        self.note_dirty(record_id);
        proof {
            assert(final(self)@ =~= old(self)@.with_task(
                id,
                finish_step(old(self)@.task(id), state, finished_at, summary@, detail@)->0,
            ));
        }
        true
    }

    /// Finishes a started task as succeeded; see `finish_step`.
    pub fn succeed(&mut self, id: TaskId, finished_at: Timestamp, summary: &str, detail: &str) -> (r: bool)
        ensures
            r == (holds_task(old(self)@.tasks, id) && finish_step(old(self)@.task(id), TaskState::Succeeded, finished_at, summary@, detail@) is Some),
            r ==> final(self)@ == old(self)@.with_task(
                id,
                finish_step(old(self)@.task(id), TaskState::Succeeded, finished_at, summary@, detail@)->0,
            ),
            !r ==> final(self)@ == old(self)@,
    {
        self.finish(id, TaskState::Succeeded, finished_at, summary, detail)
    }

    /// Finishes a started task as failed; see `finish_step`.
    pub fn fail(&mut self, id: TaskId, finished_at: Timestamp, summary: &str, detail: &str) -> (r: bool)
        ensures
            r == (holds_task(old(self)@.tasks, id) && finish_step(old(self)@.task(id), TaskState::Failed, finished_at, summary@, detail@) is Some),
            r ==> final(self)@ == old(self)@.with_task(
                id,
                finish_step(old(self)@.task(id), TaskState::Failed, finished_at, summary@, detail@)->0,
            ),
            !r ==> final(self)@ == old(self)@,
    {
        self.finish(id, TaskState::Failed, finished_at, summary, detail)
    }

    /// Finishes a started task as cancelled, with the summary `cancelled`;
    /// see `finish_step`.
    pub fn cancel(&mut self, id: TaskId, finished_at: Timestamp, detail: &str) -> (r: bool)
        ensures
            r == (holds_task(old(self)@.tasks, id) && finish_step(old(self)@.task(id), TaskState::Cancelled, finished_at, "cancelled"@, detail@) is Some),
            r ==> final(self)@ == old(self)@.with_task(
                id,
                finish_step(old(self)@.task(id), TaskState::Cancelled, finished_at, "cancelled"@, detail@)->0,
            ),
            !r ==> final(self)@ == old(self)@,
    {
        self.finish(id, TaskState::Cancelled, finished_at, "cancelled", detail)
    }
}

/// The tasks whose records are in `dirty`, in order.
pub open spec fn dirty_tasks(tasks: Seq<TaskView>, dirty: Set<u128>) -> Seq<TaskView>
    decreases tasks.len(),
{
    if tasks.len() == 0 {
        tasks
    } else {
        let rest = dirty_tasks(tasks.drop_last(), dirty);
        if dirty.contains(tasks.last().record_id.0) {
            rest.push(tasks.last())
        } else {
            rest
        }
    }
}

/// The tasks whose numbers are in `session`, in order.
pub open spec fn session_tasks(tasks: Seq<TaskView>, session: Set<u64>) -> Seq<TaskView>
    decreases tasks.len(),
{
    if tasks.len() == 0 {
        tasks
    } else {
        let rest = session_tasks(tasks.drop_last(), session);
        if session.contains(tasks.last().id.0) {
            rest.push(tasks.last())
        } else {
            rest
        }
    }
}

/// The tasks that have not finished, in order.
pub open spec fn active_tasks(tasks: Seq<TaskView>) -> Seq<TaskView>
    decreases tasks.len(),
{
    if tasks.len() == 0 {
        tasks
    } else {
        let rest = active_tasks(tasks.drop_last());
        if !tasks.last().state.is_terminal_spec() {
            rest.push(tasks.last())
        } else {
            rest
        }
    }
}

/// Whether a task can still be asked to stop.
pub open spec fn can_cancel(t: TaskView) -> bool {
    t.cancellable && (t.state == TaskState::Queued || t.state == TaskState::Running || t.state
        == TaskState::Cancelling)
}

proof fn lemma_take_step(v: Seq<TaskView>, i: int)
    requires
        0 <= i < v.len(),
    ensures
        v.take(i + 1).drop_last() == v.take(i),
        v.take(i + 1).last() == v[i],
        v.take(i + 1).len() > 0,
{
    assert(v.take(i + 1).drop_last() =~= v.take(i));
}

impl TaskStore {
    /// Copies of the tasks that changed since the last call, in order; the
    /// store then holds nothing to save.
    pub fn take_dirty(&mut self) -> (r: Vec<Task>)
        ensures
            tasks_view(r@) == dirty_tasks(old(self)@.tasks, old(self)@.dirty),
            final(self)@ == (TaskStoreView { dirty: Set::<u128>::empty(), ..old(self)@ }),
    {
        let ghost tv = self@.tasks;
        let mut out: Vec<Task> = Vec::new();
        let mut i: usize = 0;
        while i < self.tasks.len()
            invariant
                i <= self.tasks.len(),
                tv == tasks_view(self.tasks@),
                self@ == old(self)@,
                tasks_view(out@) == dirty_tasks(tv.take(i as int), old(self)@.dirty),
            decreases self.tasks.len() - i,
        {
            proof {
                lemma_take_step(tv, i as int);
            }
            if self.has_dirty(self.tasks[i].record_id) {
                let t = copy_task(&self.tasks[i]);
                let ghost o = out@;
                out.push(t);
                proof {
                    assert(tasks_view(out@) =~= tasks_view(o).push(t@));
                }
            }
            i = i + 1;
        }
        proof {
            assert(tv.take(tv.len() as int) =~= tv);
        }
        self.dirty = Vec::new();
        proof {
            assert(final(self)@.dirty =~= Set::<u128>::empty());
            assert(final(self)@ =~= (TaskStoreView { dirty: Set::<u128>::empty(), ..old(self)@ }));
        }
        out
    }

    /// Copies of the tasks started in this session, in order.
    pub fn session(&self) -> (r: Vec<Task>)
        ensures
            tasks_view(r@) == session_tasks(self@.tasks, self@.session),
    {
        let ghost tv = self@.tasks;
        let mut out: Vec<Task> = Vec::new();
        let mut i: usize = 0;
        while i < self.tasks.len()
            invariant
                i <= self.tasks.len(),
                tv == tasks_view(self.tasks@),
                tasks_view(out@) == session_tasks(tv.take(i as int), self@.session),
            decreases self.tasks.len() - i,
        {
            proof {
                lemma_take_step(tv, i as int);
            }
            if self.has_session(self.tasks[i].id) {
                let t = copy_task(&self.tasks[i]);
                let ghost o = out@;
                out.push(t);
                proof {
                    assert(tasks_view(out@) =~= tasks_view(o).push(t@));
                }
            }
            i = i + 1;
        }
        proof {
            assert(tv.take(tv.len() as int) =~= tv);
        }
        out
    }

    /// Copies of the tasks that have not finished, in order.
    pub fn active(&self) -> (r: Vec<Task>)
        ensures
            tasks_view(r@) == active_tasks(self@.tasks),
    {
        let ghost tv = self@.tasks;
        let mut out: Vec<Task> = Vec::new();
        let mut i: usize = 0;
        while i < self.tasks.len()
            invariant
                i <= self.tasks.len(),
                tv == tasks_view(self.tasks@),
                tasks_view(out@) == active_tasks(tv.take(i as int)),
            decreases self.tasks.len() - i,
        {
            proof {
                lemma_take_step(tv, i as int);
            }
            if !self.tasks[i].state.is_terminal() {
                let t = copy_task(&self.tasks[i]);
                let ghost o = out@;
                out.push(t);
                proof {
                    assert(tasks_view(out@) =~= tasks_view(o).push(t@));
                }
            }
            i = i + 1;
        }
        proof {
            assert(tv.take(tv.len() as int) =~= tv);
        }
        out
    }

    /// Whether any task has not finished.
    pub fn has_active(&self) -> (r: bool)
        ensures
            r == exists|i: int| 0 <= i < self@.tasks.len() && !(#[trigger] self@.tasks[i]).state.is_terminal_spec(),
    {
        let ghost tv = self@.tasks;
        let mut i: usize = 0;
        while i < self.tasks.len()
            invariant
                i <= self.tasks.len(),
                tv == tasks_view(self.tasks@),
                forall|j: int| 0 <= j < i ==> (#[trigger] tv[j]).state.is_terminal_spec(),
            decreases self.tasks.len() - i,
        {
            if !self.tasks[i].state.is_terminal() {
                proof {
                    assert(!tv[i as int].state.is_terminal_spec());
                }
                return true;
            }
            i = i + 1;
        }
        false
    }

    /// Every task, in order.
    pub fn all(&self) -> (r: &[Task])
        ensures
            tasks_view(r@) == self@.tasks,
    {
        self.tasks.as_slice()
    }

    /// Whether the selected task exists and can still be asked to stop.
    pub fn selected_can_cancel(&self) -> (r: bool)
        ensures
            r == (self@.selected matches Some(id) && holds_task(self@.tasks, id) && can_cancel(self@.task(id))),
    {
        match self.selected {
            Some(id) => match self.get(id) {
                Some(task) => task.cancellable && (task.state == TaskState::Queued || task.state
                    == TaskState::Running || task.state == TaskState::Cancelling),
                None => false,
            },
            None => false,
        }
    }

    /// The notice for the task with `id` once it has finished, shown for five
    /// seconds from `now`.
    pub fn notification_for(&self, id: TaskId, now: Timestamp) -> (r: Option<Notification>)
        ensures
            !holds_task(self@.tasks, id) ==> r is None,
            holds_task(self@.tasks, id) ==> match result_kind(self@.task(id).state) {
                None => r is None,
                Some(kind) => r matches Some(n) && n.task_id == id && n.kind == kind
                    && n.message@ == self@.task(id).target_label + ": "@ + self@.task(id).summary
                    && n.expires_at == saturating_plus(now, 5),
            },
    {
        match self.get(id) {
            Some(task) => notification(id, task.state, task.target_label.as_str(), task.summary.as_str(), now),
            None => None,
        }
    }
}

impl Default for TaskStore {
    fn default() -> (r: TaskStore)
        ensures
            r@.tasks == Seq::<TaskView>::empty(),
            r@.next_id == 1,
            r@.dirty == Set::<u128>::empty(),
            r@.session == Set::<u64>::empty(),
            r@.selected is None,
    {
        TaskStore::new()
    }
}

/// The restored tasks whose records `known` does not hold, in order.
pub open spec fn unknown_tasks(restored: Seq<TaskView>, known: Seq<TaskView>) -> Seq<TaskView>
    decreases restored.len(),
{
    if restored.len() == 0 {
        restored
    } else {
        let rest = unknown_tasks(restored.drop_last(), known);
        if holds_record(known, restored.last().record_id) {
            rest
        } else {
            rest.push(restored.last())
        }
    }
}

/// `tasks` numbered in order from `start`, the numbers stopping at the
/// largest `u64`.
pub open spec fn renumbered(tasks: Seq<TaskView>, start: u64) -> Seq<TaskView> {
    Seq::new(tasks.len(), |k: int| TaskView { id: TaskId(saturating_plus(start, k as nat)), ..tasks[k] })
}

/// The selection after the task list became `tasks`: kept where there was
/// one, else the last task.
pub open spec fn selection_or_last(selected: Option<TaskId>, tasks: Seq<TaskView>) -> Option<TaskId> {
    if selected is Some {
        selected
    } else if tasks.len() == 0 {
        None
    } else {
        Some(tasks.last().id)
    }
}

/// The number of finished tasks.
pub open spec fn terminal_count(tasks: Seq<TaskView>) -> nat
    decreases tasks.len(),
{
    if tasks.len() == 0 {
        0
    } else {
        terminal_count(tasks.drop_last()) + if tasks.last().state.is_terminal_spec() {
            1nat
        } else {
            0nat
        }
    }
}

/// `tasks` without its first `remove` finished tasks.
pub open spec fn evicted(tasks: Seq<TaskView>, remove: nat) -> Seq<TaskView>
    decreases tasks.len(),
{
    if tasks.len() == 0 {
        tasks
    } else {
        let rest = evicted(tasks.drop_last(), remove);
        if tasks.last().state.is_terminal_spec() && terminal_count(tasks.drop_last()) < remove {
            rest
        } else {
            rest.push(tasks.last())
        }
    }
}

/// How many finished tasks go so that at most `max_tasks` stay.
pub open spec fn eviction_count(tasks: Seq<TaskView>, max_tasks: usize) -> nat {
    if terminal_count(tasks) > max_tasks {
        (terminal_count(tasks) - max_tasks) as nat
    } else {
        0
    }
}

/// The store after the oldest finished tasks went so that at most
/// `max_tasks` finished tasks stay: the session forgets the tasks that went,
/// and a selection that went moves to the last task.
pub open spec fn evict_spec(v: TaskStoreView, max_tasks: usize) -> TaskStoreView {
    let remove = eviction_count(v.tasks, max_tasks);
    if remove == 0 {
        v
    } else {
        let kept = evicted(v.tasks, remove);
        TaskStoreView {
            tasks: kept,
            session: Set::new(|x: u64| v.session.contains(x) && holds_task(kept, TaskId(x))),
            selected: if v.selected matches Some(id) && !holds_task(kept, id) {
                if kept.len() == 0 {
                    None
                } else {
                    Some(kept.last().id)
                }
            } else {
                v.selected
            },
            ..v
        }
    }
}

/// The place `offset` steps from `current` in a list of `len`, held within it.
pub open spec fn stepped(current: int, offset: int, len: int) -> int {
    if current + offset < 0 {
        0
    } else if current + offset > len - 1 {
        len - 1
    } else {
        current + offset
    }
}

/// Where the selection stands in `tasks`, the first place when it is not there.
pub open spec fn selected_place(selected: Option<TaskId>, tasks: Seq<TaskView>) -> int {
    match selected {
        Some(id) => if holds_task(tasks, id) {
            first_with(tasks, id)
        } else {
            0
        },
        None => 0,
    }
}

proof fn lemma_push_contains<T>(s: Seq<T>, y: T)
    ensures
        forall|x: T| #[trigger] s.push(y).contains(x) == (s.contains(x) || x == y),
{
    assert forall|x: T| #[trigger] s.push(y).contains(x) == (s.contains(x) || x == y) by {
        if s.push(y).contains(x) {
            let j = choose|j: int| 0 <= j < s.push(y).len() && s.push(y)[j] == x;
            if j < s.len() {
                assert(s[j] == x);
            }
        }
        if s.contains(x) {
            let j = choose|j: int| 0 <= j < s.len() && s[j] == x;
            assert(s.push(y)[j] == x);
        }
        if x == y {
            assert(s.push(y)[s.len() as int] == x);
        }
    }
}

impl TaskStore {
    /// Takes in the tasks of earlier runs: those whose records are not known
    /// yet get the next numbers and go before the tasks already held; the
    /// last task is selected when nothing was.
    pub fn merge_restored(&mut self, restored: Vec<Task>)
        ensures
            final(self)@.tasks == renumbered(unknown_tasks(tasks_view(restored@), old(self)@.tasks), old(self)@.next_id)
                + old(self)@.tasks,
            final(self)@.next_id == saturating_plus(
                old(self)@.next_id,
                unknown_tasks(tasks_view(restored@), old(self)@.tasks).len(),
            ),
            final(self)@.dirty == old(self)@.dirty,
            final(self)@.session == old(self)@.session,
            final(self)@.selected == selection_or_last(old(self)@.selected, final(self)@.tasks),
    {
        let ghost rv = tasks_view(restored@);
        let ghost tv = old(self)@.tasks;
        let ghost start = self.next_id;
        let mut out: Vec<Task> = Vec::new();
        let mut i: usize = 0;
        while i < restored.len()
            invariant
                i <= restored.len(),
                rv == tasks_view(restored@),
                tv == tasks_view(self.tasks@),
                self.dirty == old(self).dirty,
                self.session_task_ids == old(self).session_task_ids,
                self.selected == old(self).selected,
                self.tasks == old(self).tasks,
                tasks_view(out@) == renumbered(unknown_tasks(rv.take(i as int), tv), start),
                self.next_id == saturating_plus(start, out@.len()),
            decreases restored.len() - i,
        {
            proof {
                lemma_take_step(rv, i as int);
            }
            if !has_record(&self.tasks, restored[i].record_id) {
                let mut t = copy_task(&restored[i]);
                let ghost o = out@;
                let ghost before_next = self.next_id;
                t.id = TaskId(self.next_id);
                self.next_id = self.next_id.saturating_add(1);
                out.push(t);
                proof {
                    let u = unknown_tasks(rv.take(i as int), tv);
                    assert(unknown_tasks(rv.take(i + 1), tv) == u.push(rv[i as int]));
                    assert(tasks_view(o).len() == u.len());
                    assert(rv[i as int] == restored@[i as int]@);
                    assert(t@ == TaskView { id: TaskId(saturating_plus(start, u.len())), ..rv[i as int] });
                    assert(tasks_view(out@) =~= tasks_view(o).push(t@));
                    assert(tasks_view(out@) =~= renumbered(u.push(rv[i as int]), start));
                }
            }
            i = i + 1;
        }
        proof {
            assert(rv.take(rv.len() as int) =~= rv);
        }
        let ghost fresh = out@;
        out.append(&mut self.tasks);
        self.tasks = out;
        proof {
            assert(tasks_view(self.tasks@) =~= tasks_view(fresh) + tv);
        }
        if self.selected.is_none() {
            let n = self.tasks.len();
            if n > 0 {
                self.selected = Some(self.tasks[n - 1].id);
            }
        }
        proof {
            assert(final(self)@.dirty =~= old(self)@.dirty);
            assert(final(self)@.session =~= old(self)@.session);
        }
    }

    /// Drops the oldest finished tasks so that at most `max_tasks` finished
    /// tasks stay; see `evict_spec`.
    pub fn evict_completed(&mut self, max_tasks: usize)
        ensures
            final(self)@ == evict_spec(old(self)@, max_tasks),
    {
        let ghost tv = self@.tasks;
        let mut completed: usize = 0;
        let mut i: usize = 0;
        while i < self.tasks.len()
            invariant
                i <= self.tasks.len(),
                tv == tasks_view(self.tasks@),
                completed as nat == terminal_count(tv.take(i as int)),
                completed <= i,
            decreases self.tasks.len() - i,
        {
            proof {
                lemma_take_step(tv, i as int);
            }
            if self.tasks[i].state.is_terminal() {
                completed = completed + 1;
            }
            i = i + 1;
        }
        proof {
            assert(tv.take(tv.len() as int) =~= tv);
        }
        if completed <= max_tasks {
            return;
        }
        let remove = completed - max_tasks;
        let mut kept: Vec<Task> = Vec::new();
        let mut seen: usize = 0;
        let mut i: usize = 0;
        while i < self.tasks.len()
            invariant
                i <= self.tasks.len(),
                tv == tasks_view(self.tasks@),
                seen as nat == terminal_count(tv.take(i as int)),
                seen <= i,
                tasks_view(kept@) == evicted(tv.take(i as int), remove as nat),
            decreases self.tasks.len() - i,
        {
            proof {
                lemma_take_step(tv, i as int);
            }
            let finished = self.tasks[i].state.is_terminal();
            if !(finished && seen < remove) {
                let t = copy_task(&self.tasks[i]);
                let ghost o = kept@;
                kept.push(t);
                proof {
                    assert(tasks_view(kept@) =~= tasks_view(o).push(t@));
                }
            }
            if finished {
                seen = seen + 1;
            }
            i = i + 1;
        }
        let ghost kv = tasks_view(kept@);
        let mut ids: Vec<TaskId> = Vec::new();
        let mut j: usize = 0;
        while j < self.session_task_ids.len()
            invariant
                j <= self.session_task_ids.len(),
                kv == tasks_view(kept@),
                forall|x: u64| #[trigger] ids@.contains(TaskId(x)) == (self.session_task_ids@.take(j as int).contains(TaskId(x))
                    && holds_task(kv, TaskId(x))),
            decreases self.session_task_ids.len() - j,
        {
            let sid = self.session_task_ids[j];
            let ghost before = ids@;
            proof {
                assert(self.session_task_ids@.take(j + 1) =~= self.session_task_ids@.take(j as int).push(sid));
                lemma_push_contains(self.session_task_ids@.take(j as int), sid);
            }
            if find_task(&kept, sid).is_some() {
                ids.push(sid);
                proof {
                    lemma_push_contains(before, sid);
                }
            }
            j = j + 1;
        }
        proof {
            assert(self.session_task_ids@.take(self.session_task_ids@.len() as int) =~= self.session_task_ids@);
        }
        let ghost old_view = old(self)@;
        self.tasks = kept;
        self.session_task_ids = ids;
        match self.selected {
            Some(id) => {
                if find_task(&self.tasks, id).is_none() {
                    let n = self.tasks.len();
                    self.selected = if n == 0 {
                        None
                    } else {
                        Some(self.tasks[n - 1].id)
                    };
                }
            },
            None => {},
        }
        proof {
            assert(final(self)@.session =~= evict_spec(old_view, max_tasks).session);
            assert(final(self)@ =~= evict_spec(old_view, max_tasks));
        }
    }

    /// Moves the selection `offset` places along the list, held within it;
    /// a selection that is not in the list counts from the first task.
    pub fn select_next(&mut self, offset: isize)
        ensures
            final(self)@.tasks == old(self)@.tasks,
            final(self)@.next_id == old(self)@.next_id,
            final(self)@.dirty == old(self)@.dirty,
            final(self)@.session == old(self)@.session,
            old(self)@.tasks.len() == 0 ==> final(self)@.selected is None,
            old(self)@.tasks.len() > 0 ==> final(self)@.selected == Some(
                old(self)@.tasks[stepped(
                    selected_place(old(self)@.selected, old(self)@.tasks),
                    offset as int,
                    old(self)@.tasks.len() as int,
                )].id,
            ),
    {
        let n = self.tasks.len();
        if n == 0 {
            self.selected = None;
            return;
        }
        let current: usize = match self.selected {
            Some(id) => match self.position(id) {
                Some(p) => p,
                None => 0,
            },
            None => 0,
        };
        let next: usize = if offset < 0 {
            let back: usize = (-(offset + 1)) as usize + 1;
            if back > current {
                0
            } else {
                current - back
            }
        } else {
            let ahead: usize = offset as usize;
            if ahead > n - 1 - current {
                n - 1
            } else {
                current + ahead
            }
        };
        self.selected = Some(self.tasks[next].id);
    }
}

/// A task's life runs from queued through running or cancelling to one
/// finished state, and a finished task never changes again: starting,
/// reporting progress, asking to cancel and finishing all refuse it. A queued
/// task cannot finish or report progress before it starts.
pub proof fn finished_tasks_stay_finished(
    t: TaskView,
    progress: Progress,
    state: TaskState,
    finished_at: Timestamp,
    summary: Seq<char>,
    line: Seq<char>,
)
    ensures
        t.state.is_terminal_spec() ==> start_step(t) is None && progress_step(t, progress, line) is None
            && cancel_step(t) is None && finish_step(t, state, finished_at, summary, line) is None,
        t.state == TaskState::Queued ==> progress_step(t, progress, line) is None && finish_step(
            t,
            state,
            finished_at,
            summary,
            line,
        ) is None,
        start_step(t) is Some <==> t.state == TaskState::Queued,
        start_step(t) matches Some(u) ==> u.state == TaskState::Running,
        cancel_step(t) matches Some(u) ==> u.state == TaskState::Cancelling,
        finish_step(t, state, finished_at, summary, line) is Some <==> (t.state == TaskState::Running
            || t.state == TaskState::Cancelling),
        finish_step(t, state, finished_at, summary, line) matches Some(u) ==> u.state == state
            && u.finished_at == Some(finished_at) && u.id == t.id && u.record_id == t.record_id,
{
}

/// What `selected_can_cancel` promises, `request_cancel` keeps: a task that
/// can be cancelled accepts a cancel request and is cancelling afterwards.
pub proof fn cancellable_tasks_accept_cancel_requests(t: TaskView)
    requires
        can_cancel(t),
    ensures
        cancel_step(t) is Some || t.state == TaskState::Cancelling,
        cancel_step(t) matches Some(u) ==> u.state == TaskState::Cancelling,
{
}

/// A task's detail never grows past `DETAIL_CAP` bytes once a line was added,
/// and ends with the latest text.
pub proof fn task_detail_stays_within_cap(existing: Seq<char>, line: Seq<char>)
    ensures
        line.len() > 0 ==> byte_len(appended_detail(existing, line)) <= DETAIL_CAP,
        line.len() > 0 && byte_len(joined_detail(existing, line)) <= DETAIL_CAP ==> appended_detail(existing, line)
            == joined_detail(existing, line),
{
    crate::detail::tails_fit_their_limit(joined_detail(existing, line), DETAIL_CAP as nat);
}

/// A running detail that `push_bounded` feeds never exceeds twice its cap.
pub proof fn pushed_detail_stays_within_twice_its_cap(existing: Seq<char>, value: Seq<char>, cap: usize)
    ensures
        byte_len(pushed_detail(existing, value, cap)) <= compact_threshold(cap),
        byte_len(joined_detail(existing, value)) <= compact_threshold(cap) ==> pushed_detail(existing, value, cap)
            == joined_detail(existing, value),
{
    crate::detail::tails_fit_their_limit(joined_detail(existing, value), cap as nat);
}

proof fn lemma_push_last<T>(s: Seq<T>, x: T)
    ensures
        s.push(x).drop_last() == s,
        s.push(x).last() == x,
        s.push(x).len() > 0,
{
    assert(s.push(x).drop_last() =~= s);
}

proof fn lemma_evicted(tasks: Seq<TaskView>, remove: nat)
    ensures
        active_tasks(evicted(tasks, remove)) == active_tasks(tasks),
        terminal_count(evicted(tasks, remove)) == terminal_count(tasks) - (if remove < terminal_count(tasks) {
            remove
        } else {
            terminal_count(tasks)
        }),
    decreases tasks.len(),
{
    if tasks.len() > 0 {
        let p = tasks.drop_last();
        let x = tasks.last();
        lemma_evicted(p, remove);
        let e = evicted(p, remove);
        if !(x.state.is_terminal_spec() && terminal_count(p) < remove) {
            lemma_push_last(e, x);
        }
    }
}

/// Evicting finished tasks keeps every unfinished task, in order, and leaves
/// exactly `max_tasks` finished tasks where there were more, all of them
/// where there were not.
pub proof fn eviction_keeps_unfinished_tasks(v: TaskStoreView, max_tasks: usize)
    ensures
        active_tasks(evict_spec(v, max_tasks).tasks) == active_tasks(v.tasks),
        terminal_count(evict_spec(v, max_tasks).tasks) == (if terminal_count(v.tasks) > max_tasks {
            max_tasks as nat
        } else {
            terminal_count(v.tasks)
        }),
{
    lemma_evicted(v.tasks, eviction_count(v.tasks, max_tasks));
}

proof fn lemma_nothing_dirty(tasks: Seq<TaskView>)
    ensures
        dirty_tasks(tasks, Set::<u128>::empty()) == Seq::<TaskView>::empty(),
    decreases tasks.len(),
{
    if tasks.len() > 0 {
        lemma_nothing_dirty(tasks.drop_last());
    }
}

/// Once the changed tasks were taken for saving, taking them again gives
/// nothing until a task changes.
pub proof fn dirty_tasks_are_taken_once(v: TaskStoreView)
    ensures
        dirty_tasks(v.tasks, (TaskStoreView { dirty: Set::<u128>::empty(), ..v }).dirty) == Seq::<TaskView>::empty(),
{
    lemma_nothing_dirty(v.tasks);
}

proof fn lemma_unknown_tasks(restored: Seq<TaskView>, known: Seq<TaskView>)
    ensures
        forall|k: int| 0 <= k < unknown_tasks(restored, known).len() ==> !holds_record(
            known,
            (#[trigger] unknown_tasks(restored, known)[k]).record_id,
        ),
    decreases restored.len(),
{
    if restored.len() > 0 {
        lemma_unknown_tasks(restored.drop_last(), known);
    }
}

/// Restoring never brings back a record that the store already holds: every
/// task that `merge_restored` adds carries a record that none of the tasks
/// held before carried.
pub proof fn restoring_never_duplicates_records(restored: Seq<TaskView>, v: TaskStoreView)
    ensures
        forall|k: int| 0 <= k < renumbered(unknown_tasks(restored, v.tasks), v.next_id).len() ==> !holds_record(
            v.tasks,
            (#[trigger] renumbered(unknown_tasks(restored, v.tasks), v.next_id)[k]).record_id,
        ),
{
    lemma_unknown_tasks(restored, v.tasks);
    let u = unknown_tasks(restored, v.tasks);
    assert forall|k: int| 0 <= k < renumbered(u, v.next_id).len() implies !holds_record(
        v.tasks,
        (#[trigger] renumbered(u, v.next_id)[k]).record_id,
    ) by {
        assert(renumbered(u, v.next_id)[k].record_id == u[k].record_id);
    }
}

/// Each finished state raises its own kind of notice: a task that succeeded
/// reports success, one the user cancelled reports a cancellation, and one
/// that failed or was interrupted reports a failure; a task still queued,
/// running or cancelling raises none. So a notice says `Cancelled` exactly for
/// cancelled tasks and `Success` exactly for tasks that succeeded.
pub proof fn notices_name_how_tasks_ended(state: TaskState)
    ensures
        result_kind(TaskState::Succeeded) == Some(TaskResultKind::Success),
        result_kind(TaskState::Failed) == Some(TaskResultKind::Failure),
        result_kind(TaskState::Cancelled) == Some(TaskResultKind::Cancelled),
        result_kind(TaskState::Interrupted) == Some(TaskResultKind::Failure),
        result_kind(TaskState::Queued) is None,
        result_kind(TaskState::Running) is None,
        result_kind(TaskState::Cancelling) is None,
        (result_kind(state) == Some(TaskResultKind::Cancelled)) <==> state == TaskState::Cancelled,
        (result_kind(state) == Some(TaskResultKind::Success)) <==> state == TaskState::Succeeded,
{
}

} // verus!
