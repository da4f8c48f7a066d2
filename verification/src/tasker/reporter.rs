//! The progress message kept for each chat with tasks in progress, by the bot's hex of
//! the chat: added when the chat's tasks start, noted when a message is sent, and dropped
//! once the chat has no task in progress.
use crate::assoc::{has_key, keys_distinct, lemma_key_index, lemma_put, lookup, put};
use crate::assoc::find_string;
use crate::tasker::session::{count_where, TaskQuery, TaskSession, TaskView};
use crate::text::{chars_of, string_from_chars};
use vstd::prelude::*;

verus! {

/// The progress message of each chat: none yet, or the id of the one sent.
pub struct ChatMessages {
    entries: Vec<(String, Option<i32>)>,
}

/// The entries as plain values.
pub open spec fn entries_view(v: Seq<(String, Option<i32>)>) -> Seq<(Seq<char>, Option<i32>)> {
    v.map_values(|p: (String, Option<i32>)| (p.0@, p.1))
}

impl View for ChatMessages {
    type V = Seq<(Seq<char>, Option<i32>)>;

    closed spec fn view(&self) -> Seq<(Seq<char>, Option<i32>)> {
        entries_view(self.entries@)
    }
}

/// Whether a chat, by the bot's hex of it, has a task in progress.
pub open spec fn chat_has_started(tasks: Seq<TaskView>, chat_bot_hex: Seq<char>) -> bool {
    count_where(tasks, TaskQuery::StartedInChat(chat_bot_hex)) > 0
}

/// The entries whose chat has a task in progress (`keep`), or those whose chat has none
/// (`!keep`), in order.
pub open spec fn split_chats(
    s: Seq<(Seq<char>, Option<i32>)>,
    tasks: Seq<TaskView>,
    keep: bool,
) -> Seq<(Seq<char>, Option<i32>)>
    decreases s.len(),
{
    if s.len() == 0 {
        s
    } else if chat_has_started(tasks, s.last().0) == keep {
        split_chats(s.drop_last(), tasks, keep).push(s.last())
    } else {
        split_chats(s.drop_last(), tasks, keep)
    }
}

/// Every entry `split_chats` gives is one of `s`.
proof fn lemma_split_members(s: Seq<(Seq<char>, Option<i32>)>, tasks: Seq<TaskView>, keep: bool)
    ensures
        forall|i: int|
            0 <= i < split_chats(s, tasks, keep).len() ==> exists|j: int|
                0 <= j < s.len() && s[j] == #[trigger] split_chats(s, tasks, keep)[i],
    decreases s.len(),
{
    if s.len() > 0 {
        let p = s.drop_last();
        lemma_split_members(p, tasks, keep);
        let r = split_chats(p, tasks, keep);
        assert forall|i: int| 0 <= i < split_chats(s, tasks, keep).len() implies exists|j: int|
            0 <= j < s.len() && s[j] == #[trigger] split_chats(s, tasks, keep)[i] by {
            if i < r.len() {
                let j = choose|j: int| 0 <= j < p.len() && p[j] == r[i];
                assert(s[j] == p[j]);
            } else {
                assert(s[s.len() - 1] == split_chats(s, tasks, keep)[i]);
            }
        }
    }
}

/// Splitting keeps the keys distinct.
proof fn lemma_split_distinct(s: Seq<(Seq<char>, Option<i32>)>, tasks: Seq<TaskView>, keep: bool)
    requires
        keys_distinct(s),
    ensures
        keys_distinct(split_chats(s, tasks, keep)),
    decreases s.len(),
{
    if s.len() > 0 {
        let p = s.drop_last();
        assert(keys_distinct(p)) by {
            assert forall|i: int, j: int| 0 <= i < p.len() && 0 <= j < p.len() && i != j implies p[i].0 != p[j].0 by {
                assert(s[i] == p[i] && s[j] == p[j]);
            }
        }
        lemma_split_distinct(p, tasks, keep);
        lemma_split_members(p, tasks, keep);
        let r = split_chats(p, tasks, keep);
        if chat_has_started(tasks, s.last().0) == keep {
            let t = r.push(s.last());
            assert forall|i: int, j: int| 0 <= i < t.len() && 0 <= j < t.len() && i != j implies t[i].0 != t[j].0 by {
                if i < r.len() && j < r.len() {
                } else if i < r.len() {
                    let k = choose|k: int| 0 <= k < p.len() && p[k] == #[trigger] r[i];
                    assert(s[k] == p[k]);
                    assert(s[k].0 != s[s.len() - 1].0);
                } else {
                    let k = choose|k: int| 0 <= k < p.len() && p[k] == #[trigger] r[j];
                    assert(s[k] == p[k]);
                    assert(s[k].0 != s[s.len() - 1].0);
                }
            }
        }
    }
}

/// Why a progress message cannot be noted.
#[derive(Clone, Copy, Debug, PartialEq, Eq, Structural)]
pub enum ReporterError {
    /// The chat is not among those followed.
    ChatNotFollowed,
}

impl ReporterError {
    /// The text of the error.
    pub fn message(&self) -> (r: &'static str)
        ensures
            r@ == "chat_bot_hex not in chat_progress_message_id"@,
    {
        "chat_bot_hex not in chat_progress_message_id"
    }
}

impl ChatMessages {
    /// No chat is followed, and no two entries have the same chat.
    pub open spec fn wf(self) -> bool {
        keys_distinct(self@)
    }

    /// No chat followed.
    pub fn new() -> (r: Self)
        ensures
            r@ == Seq::<(Seq<char>, Option<i32>)>::empty(),
            r.wf(),
    {
        let r = ChatMessages { entries: Vec::new() };
        assert(r@ =~= Seq::<(Seq<char>, Option<i32>)>::empty());
        r
    }

    /// Follows a chat, with no message yet, unless it is followed already.
    pub fn follow(&mut self, chat_bot_hex: &str)
        requires
            old(self).wf(),
        ensures
            final(self).wf(),
            final(self)@ == if has_key(old(self)@, chat_bot_hex@) {
                old(self)@
            } else {
                old(self)@.push((chat_bot_hex@, None))
            },
    {
        let ghost s = self@;
        match find_string(&self.entries, chat_bot_hex) {
            Some(i) => {
                assert(s[i as int].0 == chat_bot_hex@);
            },
            None => {
                assert(!has_key(s, chat_bot_hex@)) by {
                    if has_key(s, chat_bot_hex@) {
                        let j = choose|j: int| 0 <= j < s.len() && s[j].0 == chat_bot_hex@;
                        assert(self.entries@[j].0@ == s[j].0);
                    }
                }
                self.entries.push((string_from_chars(chars_of(chat_bot_hex)), None));
                assert(self@ =~= s.push((chat_bot_hex@, None)));
                proof {
                    lemma_put(s, chat_bot_hex@, None);
                }
                assert(put(s, chat_bot_hex@, None::<i32>) == s.push((chat_bot_hex@, None)));
            },
        }
    }

    /// The progress message of a followed chat (`None` inside when none was sent yet), or
    /// `None` when the chat is not followed.
    pub fn message_id(&self, chat_bot_hex: &str) -> (r: Option<Option<i32>>)
        requires
            self.wf(),
        ensures
            r == lookup(self@, chat_bot_hex@),
    {
        let ghost s = self@;
        match find_string(&self.entries, chat_bot_hex) {
            Some(i) => {
                assert(s[i as int].0 == chat_bot_hex@);
                proof {
                    lemma_key_index(s, chat_bot_hex@, i as int);
                }
                Some(self.entries[i].1)
            },
            None => {
                assert(!has_key(s, chat_bot_hex@)) by {
                    if has_key(s, chat_bot_hex@) {
                        let j = choose|j: int| 0 <= j < s.len() && s[j].0 == chat_bot_hex@;
                        assert(self.entries@[j].0@ == s[j].0);
                    }
                }
                None
            },
        }
    }

    /// Notes the progress message sent to a followed chat; an error for a chat not followed.
    pub fn set_message_id(&mut self, chat_bot_hex: &str, id: i32) -> (r: Result<(), ReporterError>)
        requires
            old(self).wf(),
        ensures
            final(self).wf(),
            has_key(old(self)@, chat_bot_hex@) ==> r is Ok && final(self)@ == put(
                old(self)@,
                chat_bot_hex@,
                Some(id),
            ),
            !has_key(old(self)@, chat_bot_hex@) ==> r == Err::<(), ReporterError>(
                ReporterError::ChatNotFollowed,
            ) && final(self)@ == old(self)@,
    {
        let ghost s = self@;
        match find_string(&self.entries, chat_bot_hex) {
            Some(i) => {
                assert(s[i as int].0 == chat_bot_hex@);
                proof {
                    lemma_key_index(s, chat_bot_hex@, i as int);
                    lemma_put(s, chat_bot_hex@, Some(id));
                }
                let key = string_from_chars(chars_of(chat_bot_hex));
                self.entries.set(i, (key, Some(id)));
                assert(self@ =~= s.update(i as int, (chat_bot_hex@, Some(id))));
                Ok(())
            },
            None => {
                assert(!has_key(s, chat_bot_hex@)) by {
                    if has_key(s, chat_bot_hex@) {
                        let j = choose|j: int| 0 <= j < s.len() && s[j].0 == chat_bot_hex@;
                        assert(self.entries@[j].0@ == s[j].0);
                    }
                }
                Err(ReporterError::ChatNotFollowed)
            },
        }
    }

    /// Stops following the chats that have no task in progress, and gives them with their
    /// progress message, so that it can be deleted.
    pub fn prune(&mut self, table: &TaskSession) -> (r: Vec<(String, Option<i32>)>)
        requires
            old(self).wf(),
            table@.wf(),
        ensures
            final(self).wf(),
            final(self)@ == split_chats(old(self)@, table@.tasks, true),
            entries_view(r@) == split_chats(old(self)@, table@.tasks, false),
    {
        let ghost s = self@;
        let ghost tasks = table@.tasks;
        let mut kept: Vec<(String, Option<i32>)> = Vec::new();
        let mut dropped: Vec<(String, Option<i32>)> = Vec::new();
        let mut i: usize = 0;
        while i < self.entries.len()
            invariant
                i <= self.entries.len(),
                s == entries_view(self.entries@),
                tasks == table@.tasks,
                table@.wf(),
                entries_view(kept@) == split_chats(s.take(i as int), tasks, true),
                entries_view(dropped@) == split_chats(s.take(i as int), tasks, false),
            decreases self.entries.len() - i,
        {
            assert(s.take(i + 1).drop_last() =~= s.take(i as int));
            assert(s.take(i + 1).last() == s[i as int]);
            let started = table.does_chat_has_started_tasks(self.entries[i].0.as_str());
            let key = string_from_chars(chars_of(self.entries[i].0.as_str()));
            let entry = (key, self.entries[i].1);
            if started {
                let ghost prev = kept@;
                kept.push(entry);
                assert(entries_view(kept@) =~= entries_view(prev).push(s[i as int]));
            } else {
                let ghost prev = dropped@;
                dropped.push(entry);
                assert(entries_view(dropped@) =~= entries_view(prev).push(s[i as int]));
            }
            i = i + 1;
        }
        assert(s.take(i as int) =~= s);
        proof {
            lemma_split_distinct(s, tasks, true);
        }
        self.entries = kept;
        dropped
    }
}

/// After a prune, every chat still followed has a task in progress.
pub proof fn lemma_pruned_chats_started(s: Seq<(Seq<char>, Option<i32>)>, tasks: Seq<TaskView>)
    ensures
        forall|i: int|
            0 <= i < split_chats(s, tasks, true).len() ==> chat_has_started(
                tasks,
                #[trigger] split_chats(s, tasks, true)[i].0,
            ),
    decreases s.len(),
{
    if s.len() > 0 {
        lemma_pruned_chats_started(s.drop_last(), tasks);
        let r = split_chats(s.drop_last(), tasks, true);
        assert forall|i: int| 0 <= i < split_chats(s, tasks, true).len() implies chat_has_started(
            tasks,
            #[trigger] split_chats(s, tasks, true)[i].0,
        ) by {
            if i < r.len() {
                assert(split_chats(s, tasks, true)[i] == r[i]);
            }
        }
    }
}

} // verus!
