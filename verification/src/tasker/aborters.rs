//! What can be cancelled: the tasks being transferred, by chat and bot message, and the
//! scripts and `/links` commands being worked through, by chat and message, with whether
//! each is still adding tasks. The cancellation tokens themselves live with the runtime;
//! these tables say which exist.
use crate::assoc::{delete, has_key, key_index, keys_distinct, lemma_delete, lemma_key_index, lemma_put, lookup, put};
use crate::text::{chars_of, string_from_chars};
use vstd::prelude::*;

verus! {

/// The batches being worked through, by (chat id, message id), each with whether it is
/// still adding tasks.
pub struct BatchAborters {
    entries: Vec<((i64, i32), bool)>,
}

impl View for BatchAborters {
    type V = Seq<((i64, i32), bool)>;

    closed spec fn view(&self) -> Seq<((i64, i32), bool)> {
        self.entries@
    }
}

impl BatchAborters {
    /// No two entries share a key.
    pub open spec fn wf(self) -> bool {
        keys_distinct(self@)
    }

    /// No batch.
    pub fn new() -> (r: Self)
        ensures
            r@ == Seq::<((i64, i32), bool)>::empty(),
            r.wf(),
    {
        BatchAborters { entries: Vec::new() }
    }

    fn find(&self, key: (i64, i32)) -> (r: Option<usize>)
        requires
            self.wf(),
        ensures
            match r {
                Some(i) => i < self@.len() && self@[i as int].0 == key && lookup(self@, key) == Some(
                    self@[i as int].1,
                ) && key_index(self@, key) == i,
                None => !has_key(self@, key),
            },
    {
        let mut i: usize = 0;
        while i < self.entries.len()
            invariant
                i <= self.entries.len(),
                self.wf(),
                forall|j: int| 0 <= j < i ==> self@[j].0 != key,
            decreases self.entries.len() - i,
        {
            if self.entries[i].0.0 == key.0 && self.entries[i].0.1 == key.1 {
                proof {
                    lemma_key_index(self@, key, i as int);
                }
                return Some(i);
            }
            i = i + 1;
        }
        None
    }

    /// Registers the batch of a message as adding tasks, unless it is registered already
    /// (a `/links` inside a script); says whether it was.
    pub fn open(&mut self, key: (i64, i32)) -> (r: bool)
        requires
            old(self).wf(),
        ensures
            final(self).wf(),
            r == has_key(old(self)@, key),
            final(self)@ == if r { old(self)@ } else { put(old(self)@, key, true) },
    {
        match self.find(key) {
            Some(_) => true,
            None => {
                let ghost s = self@;
                proof {
                    lemma_put(s, key, true);
                }
                self.entries.push((key, true));
                false
            },
        }
    }

    /// Notes that the batch of a message adds no more tasks, if it is registered.
    pub fn finish_adding(&mut self, key: (i64, i32))
        requires
            old(self).wf(),
        ensures
            final(self).wf(),
            final(self)@ == if has_key(old(self)@, key) { put(old(self)@, key, false) } else { old(self)@ },
    {
        match self.find(key) {
            Some(i) => {
                let ghost s = self@;
                proof {
                    lemma_put(s, key, false);
                }
                self.entries.set(i, (key, false));
            },
            None => {},
        }
    }

    /// Whether the batch of a message is registered and still adding tasks.
    pub fn is_processing(&self, key: (i64, i32)) -> (r: bool)
        requires
            self.wf(),
        ensures
            r == (lookup(self@, key) == Some(true)),
    {
        match self.find(key) {
            Some(i) => self.entries[i].1,
            None => false,
        }
    }

    /// Forgets the batch of a message.
    pub fn release(&mut self, key: (i64, i32))
        requires
            old(self).wf(),
        ensures
            final(self).wf(),
            final(self)@ == delete(old(self)@, key),
    {
        proof {
            lemma_delete(self@, key);
        }
        match self.find(key) {
            Some(i) => {
                self.entries.remove(i);
            },
            None => {},
        }
    }
}

/// A batch that stops adding tasks is no longer processing, and one that is released is
/// no longer known; other batches are untouched.
pub proof fn lemma_batch_lifecycle(s: Seq<((i64, i32), bool)>, key: (i64, i32), other: (i64, i32))
    requires
        keys_distinct(s),
        has_key(s, key),
        other != key,
    ensures
        lookup(put(s, key, false), key) != Some(true),
        lookup(delete(s, key), key) is None,
        lookup(put(s, key, false), other) == lookup(s, other),
        lookup(delete(s, key), other) == lookup(s, other),
{
    lemma_put(s, key, false);
    lemma_delete(s, key);
}


/// What is kept of a task that can be cancelled.
pub struct TaskAborter {
    pub id: i64,
    pub chat_user_hex: String,
    pub message_id: i32,
    filename: String,
}

/// A task that can be cancelled, as plain values.
pub struct TaskAborterView {
    pub id: i64,
    pub chat_user_hex: Seq<char>,
    pub message_id: i32,
    pub filename: Seq<char>,
}

impl View for TaskAborter {
    type V = TaskAborterView;

    closed spec fn view(&self) -> TaskAborterView {
        TaskAborterView {
            id: self.id,
            chat_user_hex: self.chat_user_hex@,
            message_id: self.message_id,
            filename: self.filename@,
        }
    }
}

impl TaskAborter {
    /// What is kept of the task `id` of message `message_id`, for its file `filename`.
    pub fn new(id: i64, chat_user_hex: &str, message_id: i32, filename: &str) -> (r: Self)
        ensures
            r@ == (TaskAborterView { id, chat_user_hex: chat_user_hex@, message_id, filename: filename@ }),
    {
        TaskAborter {
            id,
            chat_user_hex: string_from_chars(chars_of(chat_user_hex)),
            message_id,
            filename: string_from_chars(chars_of(filename)),
        }
    }

    /// The name of the file, for the note that the task was cancelled.
    pub fn filename(&self) -> (r: &str)
        ensures
            r@ == self@.filename,
    {
        self.filename.as_str()
    }
}

/// The tasks being transferred that can be cancelled, by (chat id, bot message id).
pub struct TaskAborters {
    entries: Vec<((i64, i32), TaskAborter)>,
}

/// The entries as plain values.
pub open spec fn aborters_view(v: Seq<((i64, i32), TaskAborter)>) -> Seq<((i64, i32), TaskAborterView)> {
    v.map_values(|p: ((i64, i32), TaskAborter)| (p.0, p.1@))
}

impl View for TaskAborters {
    type V = Seq<((i64, i32), TaskAborterView)>;

    closed spec fn view(&self) -> Seq<((i64, i32), TaskAborterView)> {
        aborters_view(self.entries@)
    }
}

impl TaskAborters {
    /// No two entries share a key.
    pub open spec fn wf(self) -> bool {
        keys_distinct(self@)
    }

    /// No task.
    pub fn new() -> (r: Self)
        ensures
            r@ == Seq::<((i64, i32), TaskAborterView)>::empty(),
            r.wf(),
    {
        let r = TaskAborters { entries: Vec::new() };
        assert(r@ =~= Seq::<((i64, i32), TaskAborterView)>::empty());
        r
    }

    fn find(&self, key: (i64, i32)) -> (r: Option<usize>)
        requires
            self.wf(),
        ensures
            match r {
                Some(i) => i < self@.len() && self@[i as int].0 == key && key_index(self@, key) == i
                    && lookup(self@, key) == Some(self@[i as int].1),
                None => !has_key(self@, key),
            },
    {
        let mut i: usize = 0;
        while i < self.entries.len()
            invariant
                i <= self.entries.len(),
                self.wf(),
                forall|j: int| 0 <= j < i ==> self@[j].0 != key,
            decreases self.entries.len() - i,
        {
            assert(self@[i as int].0 == self.entries@[i as int].0);
            if self.entries[i].0.0 == key.0 && self.entries[i].0.1 == key.1 {
                proof {
                    lemma_key_index(self@, key, i as int);
                }
                return Some(i);
            }
            i = i + 1;
        }
        None
    }

    /// Registers the task of a chat's bot message, replacing one registered before for it.
    pub fn insert(&mut self, key: (i64, i32), aborter: TaskAborter)
        requires
            old(self).wf(),
        ensures
            final(self).wf(),
            final(self)@ == put(old(self)@, key, aborter@),
    {
        let ghost s = self@;
        let ghost v = aborter@;
        proof {
            lemma_put(s, key, v);
        }
        match self.find(key) {
            Some(i) => {
                self.entries.set(i, (key, aborter));
                assert(self@ =~= s.update(i as int, (key, v)));
            },
            None => {
                self.entries.push((key, aborter));
                assert(self@ =~= s.push((key, v)));
            },
        }
    }

    /// Withdraws the task of a chat's bot message, giving it back if it was registered.
    pub fn remove(&mut self, key: (i64, i32)) -> (r: Option<TaskAborter>)
        requires
            old(self).wf(),
        ensures
            final(self).wf(),
            final(self)@ == delete(old(self)@, key),
            match r {
                Some(a) => lookup(old(self)@, key) == Some(a@),
                None => lookup(old(self)@, key) is None,
            },
    {
        let ghost s = self@;
        proof {
            lemma_delete(s, key);
        }
        match self.find(key) {
            Some(i) => {
                let (_, a) = self.entries.remove(i);
                assert(self@ =~= s.remove(i as int));
                Some(a)
            },
            None => None,
        }
    }

    /// Withdraws every task, giving them back in order so that each can be cancelled.
    pub fn take_all(&mut self) -> (r: Vec<TaskAborter>)
        requires
            old(self).wf(),
        ensures
            final(self).wf(),
            final(self)@ == Seq::<((i64, i32), TaskAborterView)>::empty(),
            r@.map_values(|a: TaskAborter| a@) == old(self)@.map_values(
                |p: ((i64, i32), TaskAborterView)| p.1,
            ),
    {
        let ghost s = self@;
        let mut taken: Vec<((i64, i32), TaskAborter)> = Vec::new();
        std::mem::swap(&mut taken, &mut self.entries);
        assert(self@ =~= Seq::<((i64, i32), TaskAborterView)>::empty());
        let mut out: Vec<TaskAborter> = Vec::new();
        let ghost all = taken@;
        while taken.len() > 0
            invariant
                aborters_view(all) == s,
                out@.len() + taken@.len() == all.len(),
                forall|k: int| 0 <= k < out@.len() ==> #[trigger] out@[k]@ == all[k].1@,
                forall|k: int| 0 <= k < taken@.len() ==> #[trigger] taken@[k] == all[k + out@.len()],
            decreases taken@.len(),
        {
            let (_, a) = taken.remove(0);
            out.push(a);
        }
        assert(out@.map_values(|a: TaskAborter| a@) =~= s.map_values(
            |p: ((i64, i32), TaskAborterView)| p.1,
        ));
        out
    }
}

} // verus!
