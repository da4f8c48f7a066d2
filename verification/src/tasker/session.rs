//! The table of tasks: inserting, fetching and updating them, and the questions the
//! tasker and the progress reporter ask of it.
use crate::tasker::tasks::{ChatHex, CmdType, InsertTask, Model, TaskStatus};
use crate::assoc::{has_key, key_index, keys_distinct, lemma_key_index, lemma_put, lookup, put};
use crate::tasker::aborters::{TaskAborter, TaskAborterView, TaskAborters};
use crate::text::{chars_of, str_eq, string_from_chars};
use vstd::prelude::*;

verus! {

/// The record of a task, as plain values.
pub struct TaskView {
    pub id: i64,
    pub cmd_type: CmdType,
    pub filename: Seq<char>,
    pub root_path: Seq<char>,
    pub url: Option<Seq<char>>,
    pub upload_url: Seq<char>,
    pub current_length: i64,
    pub total_length: i64,
    pub chat_id: i64,
    pub chat_bot_hex: Seq<char>,
    pub chat_user_hex: Seq<char>,
    pub chat_origin_hex: Option<Seq<char>>,
    pub message_id: i32,
    pub message_indicator_id: i32,
    pub message_origin_id: Option<i32>,
    pub status: TaskStatus,
    pub auto_delete: bool,
}

/// The view of an optional string.
pub open spec fn opt_str_view(s: Option<String>) -> Option<Seq<char>> {
    match s {
        Some(t) => Some(t@),
        None => None,
    }
}

impl View for Model {
    type V = TaskView;

    open spec fn view(&self) -> TaskView {
        TaskView {
            id: self.id,
            cmd_type: self.cmd_type,
            filename: self.filename@,
            root_path: self.root_path@,
            url: opt_str_view(self.url),
            upload_url: self.upload_url@,
            current_length: self.current_length,
            total_length: self.total_length,
            chat_id: self.chat_id,
            chat_bot_hex: self.chat_bot_hex@,
            chat_user_hex: self.chat_user_hex@,
            chat_origin_hex: opt_str_view(self.chat_origin_hex),
            message_id: self.message_id,
            message_indicator_id: self.message_indicator_id,
            message_origin_id: self.message_origin_id,
            status: self.status,
            auto_delete: self.auto_delete,
        }
    }
}

fn copy_str(s: &String) -> (r: String)
    ensures
        r@ == s@,
{
    string_from_chars(chars_of(s.as_str()))
}

fn copy_opt(s: &Option<String>) -> (r: Option<String>)
    ensures
        opt_str_view(r) == opt_str_view(*s),
{
    match s {
        Some(t) => Some(copy_str(t)),
        None => None,
    }
}

impl Model {
    /// A copy of the record.
    pub fn duplicate(&self) -> (r: Model)
        ensures
            r@ == self@,
    {
        Model {
            id: self.id,
            cmd_type: self.cmd_type,
            filename: copy_str(&self.filename),
            root_path: copy_str(&self.root_path),
            url: copy_opt(&self.url),
            upload_url: copy_str(&self.upload_url),
            current_length: self.current_length,
            total_length: self.total_length,
            chat_id: self.chat_id,
            chat_bot_hex: copy_str(&self.chat_bot_hex),
            chat_user_hex: copy_str(&self.chat_user_hex),
            chat_origin_hex: copy_opt(&self.chat_origin_hex),
            message_id: self.message_id,
            message_indicator_id: self.message_indicator_id,
            message_origin_id: self.message_origin_id,
            status: self.status,
            auto_delete: self.auto_delete,
        }
    }
}

/// The record a new task gets: the given fields with the lengths stored signed, the id,
/// and the waiting status.
pub open spec fn inserted_view(t: InsertTask, id: i64) -> TaskView {
    TaskView {
        id,
        cmd_type: t.cmd_type,
        filename: t.filename@,
        root_path: t.root_path@,
        url: opt_str_view(t.url),
        upload_url: t.upload_url@,
        current_length: t.current_length as i64,
        total_length: t.total_length as i64,
        chat_id: t.chat_id,
        chat_bot_hex: t.chat_bot_hex@,
        chat_user_hex: t.chat_user_hex@,
        chat_origin_hex: opt_str_view(t.chat_origin_hex),
        message_id: t.message_id,
        message_indicator_id: t.message_indicator_id,
        message_origin_id: t.message_origin_id,
        status: TaskStatus::Waiting,
        auto_delete: t.auto_delete,
    }
}

/// The conditions the table is queried with.
pub enum TaskFilter {
    /// The task with this id.
    Id(i64),
    /// The tasks with this status.
    Status(TaskStatus),
    /// The tasks of a chat whose bot message is this one.
    ChatIndicator(i64, i32),
    /// The tasks of a chat whose message, or whose bot message, is this one.
    ChatMessageOrIndicator(i64, i32),
    /// The tasks of a chat whose message is this one.
    ChatMessage(i64, i32),
    /// The tasks, in any chat, whose message is this one.
    MessageId(i32),
    /// The waiting or fetched tasks of a chat, by the bot's hex of it.
    PendingInChat(String),
    /// The started tasks of a chat, by the bot's hex of it.
    StartedInChat(String),
    /// Every task.
    All,
}

/// A condition as plain values.
pub enum TaskQuery {
    Id(i64),
    Status(TaskStatus),
    ChatIndicator(i64, i32),
    ChatMessageOrIndicator(i64, i32),
    ChatMessage(i64, i32),
    MessageId(i32),
    PendingInChat(Seq<char>),
    StartedInChat(Seq<char>),
    All,
}

impl View for TaskFilter {
    type V = TaskQuery;

    open spec fn view(&self) -> TaskQuery {
        match self {
            TaskFilter::Id(id) => TaskQuery::Id(*id),
            TaskFilter::Status(s) => TaskQuery::Status(*s),
            TaskFilter::ChatIndicator(c, m) => TaskQuery::ChatIndicator(*c, *m),
            TaskFilter::ChatMessageOrIndicator(c, m) => TaskQuery::ChatMessageOrIndicator(*c, *m),
            TaskFilter::ChatMessage(c, m) => TaskQuery::ChatMessage(*c, *m),
            TaskFilter::MessageId(m) => TaskQuery::MessageId(*m),
            TaskFilter::PendingInChat(h) => TaskQuery::PendingInChat(h@),
            TaskFilter::StartedInChat(h) => TaskQuery::StartedInChat(h@),
            TaskFilter::All => TaskQuery::All,
        }
    }
}

/// Whether a task meets a condition.
pub open spec fn task_matches(f: TaskQuery, t: TaskView) -> bool {
    match f {
        TaskQuery::Id(id) => t.id == id,
        TaskQuery::Status(s) => t.status == s,
        TaskQuery::ChatIndicator(c, m) => t.chat_id == c && t.message_indicator_id == m,
        TaskQuery::ChatMessageOrIndicator(c, m) => t.chat_id == c && (t.message_indicator_id == m
            || t.message_id == m),
        TaskQuery::ChatMessage(c, m) => t.chat_id == c && t.message_id == m,
        TaskQuery::MessageId(m) => t.message_id == m,
        TaskQuery::PendingInChat(h) => t.chat_bot_hex == h && (t.status == TaskStatus::Waiting
            || t.status == TaskStatus::Fetched),
        TaskQuery::StartedInChat(h) => t.chat_bot_hex == h && t.status == TaskStatus::Started,
        TaskQuery::All => true,
    }
}

/// Whether a task meets a condition.
pub fn meets_filter(f: &TaskFilter, t: &Model) -> (r: bool)
    ensures
        r == task_matches(f@, t@),
{
    match f {
        TaskFilter::Id(id) => t.id == *id,
        TaskFilter::Status(s) => t.status == *s,
        TaskFilter::ChatIndicator(c, m) => t.chat_id == *c && t.message_indicator_id == *m,
        TaskFilter::ChatMessageOrIndicator(c, m) => t.chat_id == *c && (t.message_indicator_id
            == *m || t.message_id == *m),
        TaskFilter::ChatMessage(c, m) => t.chat_id == *c && t.message_id == *m,
        TaskFilter::MessageId(m) => t.message_id == *m,
        TaskFilter::PendingInChat(h) => str_eq(t.chat_bot_hex.as_str(), h.as_str()) && t.status.is_pending(),
        TaskFilter::StartedInChat(h) => str_eq(t.chat_bot_hex.as_str(), h.as_str()) && t.status
            == TaskStatus::Started,
        TaskFilter::All => true,
    }
}

/// The tasks that do not meet `f`, in order.
pub open spec fn remove_where(s: Seq<TaskView>, f: TaskQuery) -> Seq<TaskView>
    decreases s.len(),
{
    if s.len() == 0 {
        s
    } else if task_matches(f, s.last()) {
        remove_where(s.drop_last(), f)
    } else {
        remove_where(s.drop_last(), f).push(s.last())
    }
}

/// The tasks that meet `f`, in order.
pub open spec fn select_where(s: Seq<TaskView>, f: TaskQuery) -> Seq<TaskView>
    decreases s.len(),
{
    if s.len() == 0 {
        s
    } else if task_matches(f, s.last()) {
        select_where(s.drop_last(), f).push(s.last())
    } else {
        select_where(s.drop_last(), f)
    }
}

/// How many tasks meet `f`.
pub open spec fn count_where(s: Seq<TaskView>, f: TaskQuery) -> nat {
    select_where(s, f).len()
}

/// The first task that meets `f`.
pub open spec fn first_where(s: Seq<TaskView>, f: TaskQuery) -> Option<TaskView> {
    if select_where(s, f).len() > 0 {
        Some(select_where(s, f)[0])
    } else {
        None
    }
}

/// The tasks with the one of id `id` changed by `g`.
pub open spec fn update_id(s: Seq<TaskView>, id: i64, g: spec_fn(TaskView) -> TaskView) -> Seq<TaskView> {
    Seq::new(s.len(), |i: int| if s[i].id == id { g(s[i]) } else { s[i] })
}

/// Whether the first task of a chat with bot message `message_indicator_id` is the only
/// task of its message.
pub open spec fn last_task_of(s: Seq<TaskView>, chat_id: i64, message_indicator_id: i32) -> bool {
    match first_where(s, TaskQuery::ChatIndicator(chat_id, message_indicator_id)) {
        Some(t) => count_where(s, TaskQuery::MessageId(t.message_id)) == 1,
        None => false,
    }
}

/// The table of tasks, as plain values.
pub struct TaskTableView {
    pub tasks: Seq<TaskView>,
    /// The id the next task gets.
    pub next_id: i64,
}

impl TaskTableView {
    /// Each task has an id below the next one, and the ids grow along the table (so no two
    /// tasks share one).
    pub open spec fn wf(self) -> bool {
        &&& self.next_id >= 1
        &&& ids_below(self.tasks, self.next_id as int)
        &&& ids_increasing(self.tasks)
    }
}

/// Every task has an id below `bound`.
pub open spec fn ids_below(s: Seq<TaskView>, bound: int) -> bool {
    forall|i: int| 0 <= i < s.len() ==> #[trigger] s[i].id < bound
}

/// The ids grow along the sequence.
pub open spec fn ids_increasing(s: Seq<TaskView>) -> bool {
    forall|i: int, j: int| 0 <= i < j < s.len() ==> #[trigger] s[i].id < #[trigger] s[j].id
}

/// The tasks of the bot: a table in memory, emptied at each start.
pub struct TaskSession {
    tasks: Vec<Model>,
    next_id: i64,
}

/// The views of a sequence of task records.
pub open spec fn tasks_view(v: Seq<Model>) -> Seq<TaskView> {
    v.map_values(|m: Model| m@)
}

impl View for TaskSession {
    type V = TaskTableView;

    closed spec fn view(&self) -> TaskTableView {
        TaskTableView { tasks: tasks_view(self.tasks@), next_id: self.next_id }
    }
}

/// Removing tasks keeps the ids growing and below any bound they were below.
proof fn lemma_remove_where_ids(s: Seq<TaskView>, f: TaskQuery, bound: int)
    requires
        ids_increasing(s),
        ids_below(s, bound),
    ensures
        ids_increasing(remove_where(s, f)),
        ids_below(remove_where(s, f), bound),
    decreases s.len(),
{
    if s.len() > 0 {
        let p = s.drop_last();
        assert(ids_below(p, s.last().id as int)) by {
            assert forall|i: int| 0 <= i < p.len() implies #[trigger] p[i].id < s.last().id by {
                assert(s[i].id < s[s.len() - 1].id);
            }
        }
        assert(ids_increasing(p)) by {
            assert forall|i: int, j: int| 0 <= i < j < p.len() implies #[trigger] p[i].id < #[trigger] p[j].id by {
                assert(s[i].id < s[j].id);
            }
        }
        lemma_remove_where_ids(p, f, s.last().id as int);
        assert(s.last().id < bound) by {
            assert(s[s.len() - 1].id < bound);
        }
        let r = remove_where(p, f);
        if !task_matches(f, s.last()) {
            let t = r.push(s.last());
            assert forall|i: int, j: int| 0 <= i < j < t.len() implies #[trigger] t[i].id < #[trigger] t[j].id by {
                if j == t.len() - 1 {
                    assert(r[i].id < s.last().id);
                } else {
                    assert(r[i].id < r[j].id);
                }
            }
            assert forall|i: int| 0 <= i < t.len() implies #[trigger] t[i].id < bound by {
                if i < r.len() {
                    assert(r[i].id < s.last().id);
                }
            }
        }
    }
}

impl TaskSession {
    /// An empty table, whose first task gets id 1.
    pub fn new() -> (r: Self)
        ensures
            r@.tasks == Seq::<TaskView>::empty(),
            r@.next_id == 1,
            r@.wf(),
    {
        let r = TaskSession { tasks: Vec::new(), next_id: 1 };
        assert(tasks_view(r.tasks@) =~= Seq::<TaskView>::empty());
        r
    }

    /// Whether another task can be inserted: ids run up to `i64::MAX`.
    pub fn has_room(&self) -> (r: bool)
        ensures
            r == (self@.next_id < i64::MAX),
    {
        self.next_id < i64::MAX
    }

    /// Inserts a task, waiting to be fetched, and gives its id: a fresh one.
    pub fn insert_task(&mut self, task: InsertTask) -> (r: i64)
        requires
            old(self)@.wf(),
            old(self)@.next_id < i64::MAX,
        ensures
            r == old(self)@.next_id,
            final(self)@.tasks == old(self)@.tasks.push(inserted_view(task, r)),
            final(self)@.next_id == r + 1,
            final(self)@.wf(),
    {
        let id = self.next_id;
        let ghost tv = inserted_view(task, id);
        let model = Model {
            id,
            cmd_type: task.cmd_type,
            filename: task.filename,
            root_path: task.root_path,
            url: task.url,
            upload_url: task.upload_url,
            current_length: task.current_length as i64,
            total_length: task.total_length as i64,
            chat_id: task.chat_id,
            chat_bot_hex: task.chat_bot_hex,
            chat_user_hex: task.chat_user_hex,
            chat_origin_hex: task.chat_origin_hex,
            message_id: task.message_id,
            message_indicator_id: task.message_indicator_id,
            message_origin_id: task.message_origin_id,
            status: TaskStatus::Waiting,
            auto_delete: task.auto_delete,
        };
        assert(model@ == tv);
        let ghost before = self.tasks@;
        self.tasks.push(model);
        self.next_id = id + 1;
        assert(tasks_view(self.tasks@) =~= tasks_view(before).push(tv));
        id
    }

    fn position_where(&self, f: &TaskFilter) -> (r: Option<usize>)
        requires
            self@.wf(),
        ensures
            match r {
                Some(i) => i < self.tasks@.len() && first_where(self@.tasks, f@) == Some(
                    self@.tasks[i as int],
                ),
                None => first_where(self@.tasks, f@) is None,
            },
    {
        let ghost tv = self@.tasks;
        let mut i: usize = 0;
        while i < self.tasks.len()
            invariant
                i <= self.tasks.len(),
                tv == tasks_view(self.tasks@),
                select_where(tv.take(i as int), f@).len() == 0,
            decreases self.tasks.len() - i,
        {
            assert(tv.take(i + 1).drop_last() =~= tv.take(i as int));
            assert(tv[i as int] == self.tasks@[i as int]@);
            if meets_filter(f, &self.tasks[i]) {
                proof {
                    lemma_select_prefix(tv, f@, i as int);
                }
                return Some(i);
            }
            i = i + 1;
        }
        assert(tv.take(i as int) =~= tv);
        None
    }

    /// Fetches the first waiting task, marking it fetched so that it is dispatched once;
    /// the task is given as it was before the mark.
    pub fn fetch_task(&mut self) -> (r: Option<Model>)
        requires
            old(self)@.wf(),
        ensures
            match r {
                Some(t) => first_where(old(self)@.tasks, TaskQuery::Status(TaskStatus::Waiting))
                    == Some(t@) && final(self)@ == (TaskTableView {
                    tasks: update_id(
                        old(self)@.tasks,
                        t.id,
                        |x: TaskView| TaskView { status: TaskStatus::Fetched, ..x },
                    ),
                    ..old(self)@
                }) && not_waiting(final(self)@.tasks, t.id) && forall|i: int|
                    0 <= i < final(self)@.tasks.len() && (#[trigger] final(self)@.tasks[i]).id == t.id
                        ==> final(self)@.tasks[i].status == TaskStatus::Fetched,
                None => first_where(old(self)@.tasks, TaskQuery::Status(TaskStatus::Waiting))
                    is None && final(self)@ == old(self)@,
            },
            final(self)@.wf(),
    {
        match self.position_where(&TaskFilter::Status(TaskStatus::Waiting)) {
            None => None,
            Some(i) => {
                let task = self.tasks[i].duplicate();
                self.set_task_status(task.id, TaskStatus::Fetched);
                Some(task)
            },
        }
    }

    fn update_with<F: Fn(&Model) -> Model>(&mut self, id: i64, g: F, Ghost(gs): Ghost<spec_fn(TaskView) -> TaskView>)
        requires
            old(self)@.wf(),
            forall|m: Model| #[trigger] g.requires((&m,)),
            forall|m: Model, r: Model| g.ensures((&m,), r) ==> r@ == gs(m@),
            forall|x: TaskView| #[trigger] gs(x).id == x.id,
        ensures
            final(self)@ == (TaskTableView { tasks: update_id(old(self)@.tasks, id, gs), ..old(self)@ }),
            final(self)@.wf(),
    {
        let ghost old_tv = self@.tasks;
        let mut i: usize = 0;
        while i < self.tasks.len()
            invariant
                i <= self.tasks.len(),
                self.tasks@.len() == old_tv.len(),
                self.next_id == old(self).next_id,
                forall|k: int| 0 <= k < i ==> #[trigger] self.tasks@[k]@ == (if old_tv[k].id == id {
                    gs(old_tv[k])
                } else {
                    old_tv[k]
                }),
                forall|k: int| i <= k < old_tv.len() ==> #[trigger] self.tasks@[k]@ == old_tv[k],
                forall|m: Model| #[trigger] g.requires((&m,)),
                forall|m: Model, r: Model| g.ensures((&m,), r) ==> r@ == gs(m@),
            decreases self.tasks.len() - i,
        {
            if self.tasks[i].id == id {
                let updated = g(&self.tasks[i]);
                self.tasks.set(i, updated);
            }
            i = i + 1;
        }
        assert(tasks_view(self.tasks@) =~= update_id(old_tv, id, gs));
    }

    /// Sets the status of the task with id `id`.
    pub fn set_task_status(&mut self, id: i64, status: TaskStatus)
        requires
            old(self)@.wf(),
        ensures
            final(self)@ == (TaskTableView {
                tasks: update_id(old(self)@.tasks, id, |x: TaskView| TaskView { status, ..x }),
                ..old(self)@
            }),
            final(self)@.wf(),
    {
        let ghost gs = |x: TaskView| TaskView { status, ..x };
        let g = |m: &Model| -> (r: Model)
            ensures
                r@ == (TaskView { status, ..m@ }),
            {
                let mut c = m.duplicate();
                c.status = status;
                c
            };
        self.update_with(id, g, Ghost(gs));
    }

    /// Sets how much of the task with id `id` is transferred (stored signed).
    pub fn set_current_length(&mut self, id: i64, current_length: u64)
        requires
            old(self)@.wf(),
        ensures
            final(self)@ == (TaskTableView {
                tasks: update_id(
                    old(self)@.tasks,
                    id,
                    |x: TaskView| TaskView { current_length: current_length as i64, ..x },
                ),
                ..old(self)@
            }),
            final(self)@.wf(),
    {
        let ghost gs = |x: TaskView| TaskView { current_length: current_length as i64, ..x };
        let len = current_length as i64;
        let g = |m: &Model| -> (r: Model)
            ensures
                r@ == (TaskView { current_length: len, ..m@ }),
            {
                let mut c = m.duplicate();
                c.current_length = len;
                c
            };
        self.update_with(id, g, Ghost(gs));
    }

    /// Sets the file name of the task with id `id`.
    pub fn update_filename(&mut self, id: i64, filename: &str)
        requires
            old(self)@.wf(),
        ensures
            final(self)@ == (TaskTableView {
                tasks: update_id(
                    old(self)@.tasks,
                    id,
                    |x: TaskView| TaskView { filename: filename@, ..x },
                ),
                ..old(self)@
            }),
            final(self)@.wf(),
    {
        let ghost fv = filename@;
        let ghost gs = |x: TaskView| TaskView { filename: fv, ..x };
        let name = string_from_chars(chars_of(filename));
        let g = |m: &Model| -> (r: Model)
            ensures
                r@ == (TaskView { filename: name@, ..m@ }),
            {
                let mut c = m.duplicate();
                c.filename = copy_str(&name);
                c
            };
        self.update_with(id, g, Ghost(gs));
    }

    /// Removes the tasks that meet `f`.
    pub fn delete_where(&mut self, f: &TaskFilter)
        requires
            old(self)@.wf(),
        ensures
            final(self)@ == (TaskTableView { tasks: remove_where(old(self)@.tasks, f@), ..old(self)@ }),
            final(self)@.wf(),
    {
        let ghost tv = self@.tasks;
        let mut kept: Vec<Model> = Vec::new();
        let mut i: usize = 0;
        while i < self.tasks.len()
            invariant
                i <= self.tasks.len(),
                tv == tasks_view(self.tasks@),
                tasks_view(kept@) == remove_where(tv.take(i as int), f@),
            decreases self.tasks.len() - i,
        {
            assert(tv.take(i + 1).drop_last() =~= tv.take(i as int));
            assert(tv[i as int] == self.tasks@[i as int]@);
            if !meets_filter(f, &self.tasks[i]) {
                let ghost prev = kept@;
                let m = self.tasks[i].duplicate();
                kept.push(m);
                assert(tasks_view(kept@) =~= tasks_view(prev).push(tv[i as int]));
            }
            i = i + 1;
        }
        assert(tv.take(i as int) =~= tv);
        proof {
            lemma_remove_where_ids(tv, f@, self.next_id as int);
        }
        self.tasks = kept;
    }

    /// Removes the task with id `id`.
    pub fn delete_task(&mut self, id: i64)
        requires
            old(self)@.wf(),
        ensures
            final(self)@ == (TaskTableView {
                tasks: remove_where(old(self)@.tasks, TaskQuery::Id(id)),
                ..old(self)@
            }),
            final(self)@.wf(),
    {
        self.delete_where(&TaskFilter::Id(id));
    }

    /// Removes every task, and withdraws every task that can be cancelled, giving them back
    /// in order so that each is cancelled.
    pub fn clear(&mut self, aborters: &mut TaskAborters) -> (r: Vec<TaskAborter>)
        requires
            old(self)@.wf(),
            old(aborters).wf(),
        ensures
            final(self)@ == (TaskTableView { tasks: Seq::<TaskView>::empty(), ..old(self)@ }),
            final(self)@.wf(),
            final(aborters).wf(),
            final(aborters)@ == Seq::<((i64, i32), TaskAborterView)>::empty(),
            r@.map_values(|a: TaskAborter| a@) == old(aborters)@.map_values(
                |p: ((i64, i32), TaskAborterView)| p.1,
            ),
    {
        let r = aborters.take_all();
        let ghost before = self@.tasks;
        self.delete_where(&TaskFilter::All);
        proof {
            lemma_remove_all(before);
        }
        r
    }

    /// Removes the tasks of a chat whose bot message is `message_id`.
    pub fn delete_task_from_message_indicator_id_if_exists(&mut self, chat_id: i64, message_id: i32)
        requires
            old(self)@.wf(),
        ensures
            final(self)@ == (TaskTableView {
                tasks: remove_where(old(self)@.tasks, TaskQuery::ChatIndicator(chat_id, message_id)),
                ..old(self)@
            }),
            final(self)@.wf(),
    {
        self.delete_where(&TaskFilter::ChatIndicator(chat_id, message_id));
    }

    /// Removes the tasks of a chat whose message, or whose bot message, is `message_id`.
    pub fn delete_task_from_message_id_if_exists(&mut self, chat_id: i64, message_id: i32)
        requires
            old(self)@.wf(),
        ensures
            final(self)@ == (TaskTableView {
                tasks: remove_where(
                    old(self)@.tasks,
                    TaskQuery::ChatMessageOrIndicator(chat_id, message_id),
                ),
                ..old(self)@
            }),
            final(self)@.wf(),
    {
        self.delete_where(&TaskFilter::ChatMessageOrIndicator(chat_id, message_id));
    }

    /// The tasks that meet `f`, as copies, in order.
    pub fn find_all(&self, f: &TaskFilter) -> (r: Vec<Model>)
        requires
            self@.wf(),
        ensures
            tasks_view(r@) == select_where(self@.tasks, f@),
    {
        let ghost tv = self@.tasks;
        let mut out: Vec<Model> = Vec::new();
        let mut i: usize = 0;
        while i < self.tasks.len()
            invariant
                i <= self.tasks.len(),
                tv == tasks_view(self.tasks@),
                tasks_view(out@) == select_where(tv.take(i as int), f@),
            decreases self.tasks.len() - i,
        {
            assert(tv.take(i + 1).drop_last() =~= tv.take(i as int));
            assert(tv[i as int] == self.tasks@[i as int]@);
            if meets_filter(f, &self.tasks[i]) {
                let ghost prev = out@;
                let m = self.tasks[i].duplicate();
                out.push(m);
                assert(tasks_view(out@) =~= tasks_view(prev).push(tv[i as int]));
            }
            i = i + 1;
        }
        assert(tv.take(i as int) =~= tv);
        out
    }

    /// How many tasks meet `f`.
    pub fn count(&self, f: &TaskFilter) -> (r: u64)
        requires
            self@.wf(),
        ensures
            r == count_where(self@.tasks, f@),
    {
        let ghost tv = self@.tasks;
        let mut n: usize = 0;
        let mut i: usize = 0;
        while i < self.tasks.len()
            invariant
                i <= self.tasks.len(),
                tv == tasks_view(self.tasks@),
                n == count_where(tv.take(i as int), f@),
                n <= i,
            decreases self.tasks.len() - i,
        {
            assert(tv.take(i + 1).drop_last() =~= tv.take(i as int));
            assert(tv[i as int] == self.tasks@[i as int]@);
            if meets_filter(f, &self.tasks[i]) {
                n = n + 1;
            }
            i = i + 1;
        }
        assert(tv.take(i as int) =~= tv);
        n as u64
    }

    /// How many tasks of a chat wait to start (waiting or fetched).
    pub fn get_chat_pending_tasks_number(&self, chat_bot_hex: &str) -> (r: u64)
        requires
            self@.wf(),
        ensures
            r == count_where(
                self@.tasks,
                TaskQuery::PendingInChat(chat_bot_hex@),
            ),
    {
        let f = TaskFilter::PendingInChat(string_from_chars(chars_of(chat_bot_hex)));
        self.count(&f)
    }

    /// Whether a chat has a task being transferred.
    pub fn does_chat_has_started_tasks(&self, chat_bot_hex: &str) -> (r: bool)
        requires
            self@.wf(),
        ensures
            r == (count_where(
                self@.tasks,
                TaskQuery::StartedInChat(chat_bot_hex@),
            ) > 0),
    {
        let f = TaskFilter::StartedInChat(string_from_chars(chars_of(chat_bot_hex)));
        self.count(&f) > 0
    }

    /// Whether the task of a chat with bot message `message_indicator_id` is the only task
    /// left of its message (the last of a script or of a `/links`).
    pub fn is_last_task(&self, chat_id: i64, message_indicator_id: i32) -> (r: bool)
        requires
            self@.wf(),
        ensures
            r == last_task_of(self@.tasks, chat_id, message_indicator_id),
    {
        match self.position_where(&TaskFilter::ChatIndicator(chat_id, message_indicator_id)) {
            Some(i) => {
                let mid = self.tasks[i].message_id;
                self.count(&TaskFilter::MessageId(mid)) == 1
            },
            None => false,
        }
    }

    /// The bot messages of the tasks of a chat whose message is `message_id`.
    pub fn get_message_indicator_ids(&self, chat_id: i64, message_id: i32) -> (r: Vec<i32>)
        requires
            self@.wf(),
        ensures
            r@ == select_where(self@.tasks, TaskQuery::ChatMessage(chat_id, message_id)).map_values(
                |t: TaskView| t.message_indicator_id,
            ),
    {
        let tasks = self.find_all(&TaskFilter::ChatMessage(chat_id, message_id));
        let ghost sv = tasks_view(tasks@);
        let mut out: Vec<i32> = Vec::new();
        let mut i: usize = 0;
        while i < tasks.len()
            invariant
                i <= tasks.len(),
                sv == tasks_view(tasks@),
                out@ == sv.map_values(|t: TaskView| t.message_indicator_id).take(i as int),
            decreases tasks.len() - i,
        {
            out.push(tasks[i].message_indicator_id);
            assert(out@ =~= sv.map_values(|t: TaskView| t.message_indicator_id).take(i + 1));
            i = i + 1;
        }
        assert(sv.map_values(|t: TaskView| t.message_indicator_id).take(i as int) =~= sv.map_values(
            |t: TaskView| t.message_indicator_id,
        ));
        out
    }

    /// The started tasks grouped by chat (as the bot and the user pack it), the chats in
    /// the order of their first started task.
    pub fn get_chats_current_tasks(&self) -> (r: Vec<(ChatHex, Vec<Model>)>)
        requires
            self@.wf(),
        ensures
            groups_view(r@) == started_groups(self@.tasks),
    {
        let ghost tv = self@.tasks;
        let mut groups: Vec<(ChatHex, Vec<Model>)> = Vec::new();
        let mut i: usize = 0;
        assert(groups_view(groups@) =~= started_groups(tv.take(0)));
        while i < self.tasks.len()
            invariant
                i <= self.tasks.len(),
                tv == tasks_view(self.tasks@),
                groups_view(groups@) == started_groups(tv.take(i as int)),
                keys_distinct(groups_view(groups@)),
            decreases self.tasks.len() - i,
        {
            assert(tv.take(i + 1).drop_last() =~= tv.take(i as int));
            assert(tv[i as int] == self.tasks@[i as int]@);
            let t = &self.tasks[i];
            if t.status == TaskStatus::Started {
                let ghost g = groups_view(groups@);
                let ghost k = chat_key(t@);
                let pos = find_group(&groups, &t.chat_bot_hex, &t.chat_user_hex);
                match pos {
                    Some(j) => {
                        proof {
                            lemma_key_index(g, k, j as int);
                        }
                        let mut members = duplicate_tasks(&groups[j].1);
                        members.push(t.duplicate());
                        let key = ChatHex {
                            chat_bot_hex: copy_str(&t.chat_bot_hex),
                            chat_user_hex: copy_str(&t.chat_user_hex),
                        };
                        let ghost nv = tasks_view(members@);
                        assert(nv =~= g[j as int].1.push(t@));
                        groups.set(j, (key, members));
                        proof {
                            lemma_put(g, k, g[j as int].1.push(t@));
                        }
                        assert(groups_view(groups@) =~= put(g, k, g[j as int].1.push(t@)));
                    },
                    None => {
                        let mut members: Vec<Model> = Vec::new();
                        members.push(t.duplicate());
                        let key = ChatHex {
                            chat_bot_hex: copy_str(&t.chat_bot_hex),
                            chat_user_hex: copy_str(&t.chat_user_hex),
                        };
                        assert(tasks_view(members@) =~= seq![t@]);
                        groups.push((key, members));
                        proof {
                            lemma_put(g, k, seq![t@]);
                        }
                        assert(groups_view(groups@) =~= put(g, k, seq![t@]));
                    },
                }
            }
            i = i + 1;
        }
        assert(tv.take(i as int) =~= tv);
        groups
    }
}

/// The chat of a task, as the bot and the user pack it.
pub open spec fn chat_key(t: TaskView) -> (Seq<char>, Seq<char>) {
    (t.chat_bot_hex, t.chat_user_hex)
}

/// The started tasks grouped by chat, the chats in the order of their first started task.
pub open spec fn started_groups(s: Seq<TaskView>) -> Seq<((Seq<char>, Seq<char>), Seq<TaskView>)>
    decreases s.len(),
{
    if s.len() == 0 {
        seq![]
    } else {
        let g = started_groups(s.drop_last());
        let t = s.last();
        if t.status == TaskStatus::Started {
            put(
                g,
                chat_key(t),
                match lookup(g, chat_key(t)) {
                    Some(v) => v.push(t),
                    None => seq![t],
                },
            )
        } else {
            g
        }
    }
}

/// The view of groups of tasks.
pub open spec fn groups_view(v: Seq<(ChatHex, Vec<Model>)>) -> Seq<((Seq<char>, Seq<char>), Seq<TaskView>)> {
    v.map_values(|p: (ChatHex, Vec<Model>)| ((p.0.chat_bot_hex@, p.0.chat_user_hex@), tasks_view(p.1@)))
}

fn find_group(groups: &Vec<(ChatHex, Vec<Model>)>, bot: &String, user: &String) -> (r: Option<usize>)
    ensures
        match r {
            Some(j) => j < groups@.len() && groups_view(groups@)[j as int].0 == (bot@, user@),
            None => !has_key(groups_view(groups@), (bot@, user@)),
        },
{
    let ghost g = groups_view(groups@);
    let mut j: usize = 0;
    while j < groups.len()
        invariant
            j <= groups.len(),
            g == groups_view(groups@),
            forall|k: int| 0 <= k < j ==> #[trigger] g[k].0 != (bot@, user@),
        decreases groups.len() - j,
    {
        assert(g[j as int].0 == (groups@[j as int].0.chat_bot_hex@, groups@[j as int].0.chat_user_hex@));
        if str_eq(groups[j].0.chat_bot_hex.as_str(), bot.as_str()) && str_eq(
            groups[j].0.chat_user_hex.as_str(),
            user.as_str(),
        ) {
            return Some(j);
        }
        j = j + 1;
    }
    None
}

fn duplicate_tasks(v: &Vec<Model>) -> (r: Vec<Model>)
    ensures
        tasks_view(r@) == tasks_view(v@),
{
    let mut out: Vec<Model> = Vec::new();
    let mut i: usize = 0;
    while i < v.len()
        invariant
            i <= v.len(),
            tasks_view(out@) == tasks_view(v@).take(i as int),
        decreases v.len() - i,
    {
        let ghost prev = out@;
        let m = v[i].duplicate();
        out.push(m);
        assert(tasks_view(out@) =~= tasks_view(prev).push(v@[i as int]@));
        assert(tasks_view(v@).take(i + 1) =~= tasks_view(v@).take(i as int).push(v@[i as int]@));
        i = i + 1;
    }
    assert(tasks_view(v@).take(i as int) =~= tasks_view(v@));
    out
}

/// Removing a task after changing it (keeping its id) leaves the same table as removing it
/// straight away: a finished task leaves the table whatever status it was last given.
pub proof fn lemma_remove_after_update(s: Seq<TaskView>, id: i64, g: spec_fn(TaskView) -> TaskView)
    requires
        forall|x: TaskView| #[trigger] g(x).id == x.id,
    ensures
        remove_where(update_id(s, id, g), TaskQuery::Id(id)) == remove_where(s, TaskQuery::Id(id)),
    decreases s.len(),
{
    if s.len() > 0 {
        let u = update_id(s, id, g);
        assert(u.drop_last() =~= update_id(s.drop_last(), id, g));
        lemma_remove_after_update(s.drop_last(), id, g);
        assert(u.last() == (if s.last().id == id { g(s.last()) } else { s.last() }));
    } else {
        assert(update_id(s, id, g) =~= s);
    }
}

/// Removing every task leaves none.
proof fn lemma_remove_all(s: Seq<TaskView>)
    ensures
        remove_where(s, TaskQuery::All) == Seq::<TaskView>::empty(),
    decreases s.len(),
{
    if s.len() > 0 {
        lemma_remove_all(s.drop_last());
    }
}

/// Every task that `select_where` gives meets the condition.
proof fn lemma_select_all_match(s: Seq<TaskView>, f: TaskQuery)
    ensures
        forall|i: int| 0 <= i < select_where(s, f).len() ==> task_matches(f, #[trigger] select_where(s, f)[i]),
    decreases s.len(),
{
    if s.len() > 0 {
        lemma_select_all_match(s.drop_last(), f);
        let r = select_where(s.drop_last(), f);
        assert forall|i: int| 0 <= i < select_where(s, f).len() implies task_matches(f, #[trigger] select_where(s, f)[i]) by {
            if i < r.len() {
                assert(select_where(s, f)[i] == r[i]);
            }
        }
    }
}

/// When no task meets `f`, removing the tasks that meet it changes nothing.
proof fn lemma_remove_unmatched(s: Seq<TaskView>, f: TaskQuery)
    requires
        forall|i: int| 0 <= i < s.len() ==> !task_matches(f, #[trigger] s[i]),
    ensures
        remove_where(s, f) == s,
    decreases s.len(),
{
    if s.len() > 0 {
        assert(!task_matches(f, s[s.len() - 1]));
        lemma_remove_unmatched(s.drop_last(), f);
        assert(s.drop_last().push(s.last()) =~= s);
    }
}

/// After the tasks that meet a condition are removed, none is left that meets it.
pub proof fn lemma_removed_none_match(s: Seq<TaskView>, f: TaskQuery)
    ensures
        count_where(remove_where(s, f), f) == 0,
    decreases s.len(),
{
    if s.len() > 0 {
        lemma_removed_none_match(s.drop_last(), f);
        let r = remove_where(s.drop_last(), f);
        if !task_matches(f, s.last()) {
            assert(r.push(s.last()).drop_last() =~= r);
        }
    }
}

/// A task inserted and then deleted by its id leaves the table as it was.
pub proof fn lemma_insert_then_delete(s: Seq<TaskView>, t: InsertTask, id: i64)
    requires
        ids_below(s, id as int),
    ensures
        remove_where(s.push(inserted_view(t, id)), TaskQuery::Id(id)) == s,
{
    let u = s.push(inserted_view(t, id));
    assert(u.drop_last() =~= s);
    assert forall|i: int| 0 <= i < s.len() implies !task_matches(TaskQuery::Id(id), #[trigger] s[i]) by {
        assert(s[i].id < id);
    }
    lemma_remove_unmatched(s, TaskQuery::Id(id));
}

/// Inserting a task adds one to the tasks waiting to start in its chat.
pub proof fn lemma_insert_adds_pending(s: Seq<TaskView>, t: InsertTask, id: i64)
    ensures
        count_where(s.push(inserted_view(t, id)), TaskQuery::PendingInChat(t.chat_bot_hex@))
            == count_where(s, TaskQuery::PendingInChat(t.chat_bot_hex@)) + 1,
{
    assert(s.push(inserted_view(t, id)).drop_last() =~= s);
}

/// Marking a waiting task fetched keeps the number of tasks waiting to start in each chat.
pub proof fn lemma_fetch_keeps_pending(s: Seq<TaskView>, id: i64, h: Seq<char>)
    requires
        forall|i: int| 0 <= i < s.len() && (#[trigger] s[i]).id == id ==> s[i].status == TaskStatus::Waiting,
    ensures
        count_where(
            update_id(s, id, |x: TaskView| TaskView { status: TaskStatus::Fetched, ..x }),
            TaskQuery::PendingInChat(h),
        ) == count_where(s, TaskQuery::PendingInChat(h)),
    decreases s.len(),
{
    let g = |x: TaskView| TaskView { status: TaskStatus::Fetched, ..x };
    if s.len() > 0 {
        let u = update_id(s, id, g);
        assert(u.drop_last() =~= update_id(s.drop_last(), id, g));
        assert forall|i: int| 0 <= i < s.drop_last().len() && (#[trigger] s.drop_last()[i]).id == id implies s.drop_last()[i].status
            == TaskStatus::Waiting by {
            assert(s[i] == s.drop_last()[i]);
        }
        lemma_fetch_keeps_pending(s.drop_last(), id, h);
        assert(s[s.len() - 1] == s.last());
    }
}

/// A fetched task is not fetched again: after the mark, the first waiting task, if any,
/// has another id.
pub proof fn lemma_fetched_not_refetched(s: Seq<TaskView>, id: i64)
    ensures
        match first_where(
            update_id(s, id, |x: TaskView| TaskView { status: TaskStatus::Fetched, ..x }),
            TaskQuery::Status(TaskStatus::Waiting),
        ) {
            Some(u) => u.id != id,
            None => true,
        },
{
    let g = |x: TaskView| TaskView { status: TaskStatus::Fetched, ..x };
    let u = update_id(s, id, g);
    let f = TaskQuery::Status(TaskStatus::Waiting);
    lemma_select_all_match(u, f);
    lemma_select_members(u, f);
    if select_where(u, f).len() > 0 {
        let j = choose|j: int| 0 <= j < u.len() && u[j] == select_where(u, f)[0];
        assert(task_matches(f, u[j]));
    }
}

/// A task is handed out at most once: when a fetch gives `t1` and the next fetch, with
/// nothing changed in between, gives `t2`, they are different tasks.
pub proof fn lemma_two_fetches_differ(s: Seq<TaskView>, t1: TaskView, t2: TaskView)
    requires
        first_where(s, TaskQuery::Status(TaskStatus::Waiting)) == Some(t1),
        first_where(
            update_id(s, t1.id, |x: TaskView| TaskView { status: TaskStatus::Fetched, ..x }),
            TaskQuery::Status(TaskStatus::Waiting),
        ) == Some(t2),
    ensures
        t1.id != t2.id,
{
    lemma_fetched_not_refetched(s, t1.id);
}

/// No task with id `id` waits to be fetched.
pub open spec fn not_waiting(s: Seq<TaskView>, id: i64) -> bool {
    forall|i: int| 0 <= i < s.len() && (#[trigger] s[i]).id == id ==> s[i].status != TaskStatus::Waiting
}

/// A task that does not wait is not the one a fetch gives.
pub proof fn lemma_not_waiting_not_fetched(s: Seq<TaskView>, id: i64)
    requires
        not_waiting(s, id),
    ensures
        match first_where(s, TaskQuery::Status(TaskStatus::Waiting)) {
            Some(t) => t.id != id,
            None => true,
        },
{
    let f = TaskQuery::Status(TaskStatus::Waiting);
    lemma_select_all_match(s, f);
    lemma_select_members(s, f);
    if select_where(s, f).len() > 0 {
        let j = choose|j: int| 0 <= j < s.len() && s[j] == select_where(s, f)[0];
        assert(task_matches(f, s[j]));
    }
}

/// Changing tasks keeps a task from waiting, unless the change makes it wait again: the
/// change touches other tasks, or never turns a status into `Waiting`.
pub proof fn lemma_not_waiting_after_update(
    s: Seq<TaskView>,
    id: i64,
    changed: i64,
    g: spec_fn(TaskView) -> TaskView,
)
    requires
        not_waiting(s, id),
        forall|x: TaskView| #[trigger] g(x).id == x.id,
        changed != id || forall|x: TaskView|
            x.status != TaskStatus::Waiting ==> (#[trigger] g(x)).status != TaskStatus::Waiting,
    ensures
        not_waiting(update_id(s, changed, g), id),
{
    let u = update_id(s, changed, g);
    assert forall|i: int| 0 <= i < u.len() && (#[trigger] u[i]).id == id implies u[i].status
        != TaskStatus::Waiting by {
        if s[i].id == changed {
            assert(g(s[i]).id == s[i].id);
        }
    }
}

/// Removing tasks keeps a task from waiting.
pub proof fn lemma_not_waiting_after_remove(s: Seq<TaskView>, id: i64, f: TaskQuery)
    requires
        not_waiting(s, id),
    ensures
        not_waiting(remove_where(s, f), id),
    decreases s.len(),
{
    if s.len() > 0 {
        let p = s.drop_last();
        assert(not_waiting(p, id)) by {
            assert forall|i: int| 0 <= i < p.len() && (#[trigger] p[i]).id == id implies p[i].status
                != TaskStatus::Waiting by {
                assert(s[i] == p[i]);
            }
        }
        lemma_not_waiting_after_remove(p, id, f);
        let r = remove_where(p, f);
        if !task_matches(f, s.last()) {
            let t = r.push(s.last());
            assert(s[s.len() - 1] == s.last());
            assert forall|i: int| 0 <= i < t.len() && (#[trigger] t[i]).id == id implies t[i].status
                != TaskStatus::Waiting by {
                if i < r.len() {
                    assert(t[i] == r[i]);
                }
            }
        }
    }
}

/// Inserting another task keeps a task from waiting.
pub proof fn lemma_not_waiting_after_insert(s: Seq<TaskView>, id: i64, t: InsertTask, new_id: i64)
    requires
        not_waiting(s, id),
        new_id != id,
    ensures
        not_waiting(s.push(inserted_view(t, new_id)), id),
{
    let u = s.push(inserted_view(t, new_id));
    assert forall|i: int| 0 <= i < u.len() && (#[trigger] u[i]).id == id implies u[i].status
        != TaskStatus::Waiting by {
        if i < s.len() {
            assert(u[i] == s[i]);
        }
    }
}

/// A task that meets `f` makes the count at least one.
proof fn lemma_count_one(s: Seq<TaskView>, f: TaskQuery, i: int)
    requires
        0 <= i < s.len(),
        task_matches(f, s[i]),
    ensures
        count_where(s, f) >= 1,
    decreases s.len(),
{
    if i < s.len() - 1 {
        let p = s.drop_last();
        assert(p[i] == s[i]);
        lemma_count_one(p, f, i);
    }
}

/// Two tasks that meet `f` make the count at least two.
proof fn lemma_count_two(s: Seq<TaskView>, f: TaskQuery, i: int, j: int)
    requires
        0 <= i < j < s.len(),
        task_matches(f, s[i]),
        task_matches(f, s[j]),
    ensures
        count_where(s, f) >= 2,
    decreases s.len(),
{
    let p = s.drop_last();
    assert(p[i] == s[i]);
    if j < s.len() - 1 {
        assert(p[j] == s[j]);
        lemma_count_two(p, f, i, j);
    } else {
        lemma_count_one(p, f, i);
    }
}

/// No task of `s` meets `f`: `select_where` gives none.
proof fn lemma_select_none(s: Seq<TaskView>, f: TaskQuery)
    requires
        forall|k: int| 0 <= k < s.len() ==> !task_matches(f, #[trigger] s[k]),
    ensures
        select_where(s, f).len() == 0,
    decreases s.len(),
{
    if s.len() > 0 {
        let p = s.drop_last();
        assert(!task_matches(f, s[s.len() - 1]));
        assert forall|k: int| 0 <= k < p.len() implies !task_matches(f, #[trigger] p[k]) by {
            assert(p[k] == s[k]);
        }
        lemma_select_none(p, f);
    }
}

/// A task is not the last of its message while another task of that message is in the
/// table: when the first task of a chat with bot message `message_indicator_id` shares its
/// message with another task, the message is not the task's alone.
pub proof fn lemma_shared_message_not_last(
    s: Seq<TaskView>,
    chat_id: i64,
    message_indicator_id: i32,
    i: int,
    j: int,
)
    requires
        0 <= i < s.len(),
        0 <= j < s.len(),
        i != j,
        s[i].chat_id == chat_id,
        s[i].message_indicator_id == message_indicator_id,
        forall|k: int|
            0 <= k < i ==> !((#[trigger] s[k]).chat_id == chat_id && s[k].message_indicator_id
                == message_indicator_id),
        s[j].message_id == s[i].message_id,
    ensures
        !last_task_of(s, chat_id, message_indicator_id),
{
    let f = TaskQuery::ChatIndicator(chat_id, message_indicator_id);
    let t = s.take(i);
    assert forall|k: int| 0 <= k < t.len() implies !task_matches(f, #[trigger] t[k]) by {
        assert(t[k] == s[k]);
    }
    lemma_select_none(t, f);
    lemma_select_prefix(s, f, i);
    let g = TaskQuery::MessageId(s[i].message_id);
    if i < j {
        lemma_count_two(s, g, i, j);
    } else {
        lemma_count_two(s, g, j, i);
    }
}

/// Every task that `select_where` gives is one of the sequence.
proof fn lemma_select_members(s: Seq<TaskView>, f: TaskQuery)
    ensures
        forall|i: int| 0 <= i < select_where(s, f).len() ==> exists|j: int| 0 <= j < s.len() && s[j] == #[trigger] select_where(s, f)[i],
    decreases s.len(),
{
    if s.len() > 0 {
        lemma_select_members(s.drop_last(), f);
        let p = s.drop_last();
        let r = select_where(p, f);
        assert forall|i: int| 0 <= i < select_where(s, f).len() implies exists|j: int| 0 <= j < s.len() && s[j] == #[trigger] select_where(s, f)[i] by {
            if i < r.len() {
                let j = choose|j: int| 0 <= j < p.len() && p[j] == r[i];
                assert(s[j] == p[j]);
            } else {
                assert(s[s.len() - 1] == select_where(s, f)[i]);
            }
        }
    }
}

proof fn lemma_select_prefix(s: Seq<TaskView>, f: TaskQuery, i: int)
    requires
        0 <= i < s.len(),
        select_where(s.take(i), f).len() == 0,
        task_matches(f, s[i]),
    ensures
        first_where(s, f) == Some(s[i]),
    decreases s.len(),
{
    if i < s.len() - 1 {
        assert(s.drop_last().take(i) =~= s.take(i));
        lemma_select_prefix(s.drop_last(), f, i);
        assert(s.drop_last()[i] == s[i]);
    } else {
        assert(s.drop_last() =~= s.take(i));
    }
}

} // verus!
