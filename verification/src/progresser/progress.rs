//! The progress of the transfers under way: one item per task, and one record per chat
//! with the progress message shown there.
use crate::assoc::{
    delete, find_i64, find_string, has_key, key_index, keys_distinct, lemma_delete,
    lemma_key_index, lemma_put, lookup, put,
};
use crate::text::{append_str, chars_of, string_from_chars};
use vstd::prelude::*;

verus! {

/// The progress of one task.
pub struct ProgressItem {
    pub current_length: u64,
    pub total_length: u64,
    pub chat_bot_hex: String,
    pub message_id: i32,
    pub filename: String,
}

/// The progress of one task, as plain values.
pub struct ProgressItemView {
    pub current_length: u64,
    pub total_length: u64,
    pub chat_bot_hex: Seq<char>,
    pub message_id: i32,
    pub filename: Seq<char>,
}

impl View for ProgressItem {
    type V = ProgressItemView;

    open spec fn view(&self) -> ProgressItemView {
        ProgressItemView {
            current_length: self.current_length,
            total_length: self.total_length,
            chat_bot_hex: self.chat_bot_hex@,
            message_id: self.message_id,
            filename: self.filename@,
        }
    }
}

/// A new item: nothing transferred yet.
pub open spec fn new_item_view(
    total_length: u64,
    chat_bot_hex: Seq<char>,
    message_id: i32,
    filename: Seq<char>,
) -> ProgressItemView {
    ProgressItemView {
        current_length: 0,
        total_length,
        chat_bot_hex,
        message_id,
        filename,
    }
}

fn copy_string(s: &String) -> (r: String)
    ensures
        r@ == s@,
{
    string_from_chars(chars_of(s.as_str()))
}

impl ProgressItem {
    /// A new item for a task of `total_length` bytes, of which nothing is transferred yet.
    pub fn new(total_length: u64, chat_bot_hex: &str, message_id: i32, filename: &str) -> (r: Self)
        ensures
            r@ == new_item_view(total_length, chat_bot_hex@, message_id, filename@),
    {
        ProgressItem {
            current_length: 0,
            total_length,
            chat_bot_hex: string_from_chars(chars_of(chat_bot_hex)),
            message_id,
            filename: string_from_chars(chars_of(filename)),
        }
    }

    /// A copy of the item.
    pub fn duplicate(&self) -> (r: Self)
        ensures
            r@ == self@,
    {
        ProgressItem {
            current_length: self.current_length,
            total_length: self.total_length,
            chat_bot_hex: copy_string(&self.chat_bot_hex),
            message_id: self.message_id,
            filename: copy_string(&self.filename),
        }
    }
}

/// What is known of the progress message of a chat.
pub struct ChatRecord {
    /// How many tasks of the chat are in progress.
    pub message_number: u8,
    /// The message that shows the progress, once sent.
    pub progress_message_id: Option<i32>,
    /// The text being put together for the next update.
    pub current_response: String,
    /// The text shown at the last update.
    pub last_response: String,
    pub chat_user_hex: String,
}

/// A chat record as plain values.
pub struct ChatRecordView {
    pub message_number: u8,
    pub progress_message_id: Option<i32>,
    pub current_response: Seq<char>,
    pub last_response: Seq<char>,
    pub chat_user_hex: Seq<char>,
}

impl View for ChatRecord {
    type V = ChatRecordView;

    open spec fn view(&self) -> ChatRecordView {
        ChatRecordView {
            message_number: self.message_number,
            progress_message_id: self.progress_message_id,
            current_response: self.current_response@,
            last_response: self.last_response@,
            chat_user_hex: self.chat_user_hex@,
        }
    }
}

impl ChatRecord {
    /// A copy of the record.
    pub fn duplicate(&self) -> (r: Self)
        ensures
            r@ == self@,
    {
        ChatRecord {
            message_number: self.message_number,
            progress_message_id: self.progress_message_id,
            current_response: copy_string(&self.current_response),
            last_response: copy_string(&self.last_response),
            chat_user_hex: copy_string(&self.chat_user_hex),
        }
    }
}

/// The record of a chat whose first task has just started.
pub open spec fn new_record_view(chat_user_hex: Seq<char>) -> ChatRecordView {
    ChatRecordView {
        message_number: 1,
        progress_message_id: None,
        current_response: seq![],
        last_response: seq![],
        chat_user_hex,
    }
}

/// The heading of a progress message.
pub const PROGRESS_HEADING: &'static str = "Progress:\n";

/// The progress of all tasks, as plain values: the items by task id and the records by
/// the hex of the bot's chat.
pub struct ProgressView {
    pub items: Seq<(i64, ProgressItemView)>,
    pub records: Seq<(Seq<char>, ChatRecordView)>,
}

impl ProgressView {
    /// No task id and no chat appears twice.
    pub open spec fn wf(self) -> bool {
        keys_distinct(self.items) && keys_distinct(self.records)
    }

    /// Inserting may raise the count of a chat: it must stay within a `u8`.
    pub open spec fn can_insert(self, chat_bot_hex: Seq<char>) -> bool {
        lookup(self.records, chat_bot_hex) matches Some(r) ==> r.message_number < 255
    }

    /// Removing a task lowers the count of its chat: it must not go below zero.
    pub open spec fn can_remove(self, task_id: i64) -> bool {
        lookup(self.items, task_id) matches Some(item) ==> (lookup(
            self.records,
            item.chat_bot_hex,
        ) matches Some(r) ==> r.message_number > 0)
    }

    /// The progress after a task starts: its item is set, and the count of its chat goes up
    /// by one, or a record is made for the chat.
    pub open spec fn inserted(
        self,
        task_id: i64,
        total_length: u64,
        chat_bot_hex: Seq<char>,
        chat_user_hex: Seq<char>,
        message_id: i32,
        filename: Seq<char>,
    ) -> ProgressView {
        ProgressView {
            items: put(
                self.items,
                task_id,
                new_item_view(total_length, chat_bot_hex, message_id, filename),
            ),
            records: match lookup(self.records, chat_bot_hex) {
                Some(r) => put(
                    self.records,
                    chat_bot_hex,
                    ChatRecordView { message_number: (r.message_number + 1) as u8, ..r },
                ),
                None => put(self.records, chat_bot_hex, new_record_view(chat_user_hex)),
            },
        }
    }

    /// The progress after a task ends: its item goes, and the count of its chat goes down.
    pub open spec fn removed(self, task_id: i64) -> ProgressView {
        match lookup(self.items, task_id) {
            None => self,
            Some(item) => ProgressView {
                items: delete(self.items, task_id),
                records: match lookup(self.records, item.chat_bot_hex) {
                    Some(r) => put(
                        self.records,
                        item.chat_bot_hex,
                        ChatRecordView { message_number: (r.message_number - 1) as u8, ..r },
                    ),
                    None => self.records,
                },
            },
        }
    }

    /// The progress with the transferred length of a task set (unchanged without the task).
    pub open spec fn with_current_length(self, task_id: i64, current_length: u64) -> ProgressView {
        match lookup(self.items, task_id) {
            None => self,
            Some(item) => ProgressView {
                items: put(
                    self.items,
                    task_id,
                    ProgressItemView { current_length, ..item },
                ),
                ..self
            },
        }
    }

    /// The record of a chat changed by `f` (unchanged without the record).
    pub open spec fn with_record(
        self,
        chat_bot_hex: Seq<char>,
        f: spec_fn(ChatRecordView) -> ChatRecordView,
    ) -> ProgressView {
        match lookup(self.records, chat_bot_hex) {
            None => self,
            Some(r) => ProgressView { records: put(self.records, chat_bot_hex, f(r)), ..self },
        }
    }

    /// The progress with `s` added to the text being put together for a chat, after the
    /// heading when that text is empty.
    pub open spec fn with_response_added(self, chat_bot_hex: Seq<char>, s: Seq<char>) -> ProgressView {
        self.with_record(
            chat_bot_hex,
            |r: ChatRecordView|
                ChatRecordView {
                    current_response: added_response(r.current_response, s),
                    ..r
                },
        )
    }

    /// The progress with the progress message of a chat set.
    pub open spec fn with_progress_message_id(self, chat_bot_hex: Seq<char>, id: i32) -> ProgressView {
        self.with_record(
            chat_bot_hex,
            |r: ChatRecordView| ChatRecordView { progress_message_id: Some(id), ..r },
        )
    }

    /// The progress after an update of a chat's message showed `current_response`.
    pub open spec fn with_last_response(self, chat_bot_hex: Seq<char>, current_response: Seq<char>) -> ProgressView {
        self.with_record(
            chat_bot_hex,
            |r: ChatRecordView|
                ChatRecordView {
                    last_response: current_response,
                    current_response: seq![],
                    ..r
                },
        )
    }

    /// The progress without the record of a chat.
    pub open spec fn without_record(self, chat_bot_hex: Seq<char>) -> ProgressView {
        ProgressView { records: delete(self.records, chat_bot_hex), ..self }
    }
}

/// The text being put together for a chat, after `s` is added.
pub open spec fn added_response(current: Seq<char>, s: Seq<char>) -> Seq<char> {
    if current.len() == 0 {
        PROGRESS_HEADING@ + s
    } else {
        current + s
    }
}

/// The progress of all tasks.
pub struct Progress {
    items: Vec<(i64, ProgressItem)>,
    records: Vec<(String, ChatRecord)>,
}

/// The view of the items of a progress.
pub open spec fn items_view(v: Seq<(i64, ProgressItem)>) -> Seq<(i64, ProgressItemView)> {
    v.map_values(|p: (i64, ProgressItem)| (p.0, p.1@))
}

/// The view of the records of a progress.
pub open spec fn records_view(v: Seq<(String, ChatRecord)>) -> Seq<(Seq<char>, ChatRecordView)> {
    v.map_values(|p: (String, ChatRecord)| (p.0@, p.1@))
}

impl View for Progress {
    type V = ProgressView;

    closed spec fn view(&self) -> ProgressView {
        ProgressView { items: items_view(self.items@), records: records_view(self.records@) }
    }
}

impl Progress {
    /// No task in progress.
    pub fn new() -> (r: Self)
        ensures
            r@.items == Seq::<(i64, ProgressItemView)>::empty(),
            r@.records == Seq::<(Seq<char>, ChatRecordView)>::empty(),
            r@.wf(),
    {
        let r = Progress { items: Vec::new(), records: Vec::new() };
        assert(items_view(r.items@) =~= Seq::<(i64, ProgressItemView)>::empty());
        assert(records_view(r.records@) =~= Seq::<(Seq<char>, ChatRecordView)>::empty());
        r
    }

    /// The position of the item of `task_id`.
    fn item_position(&self, task_id: i64) -> (r: Option<usize>)
        requires
            self@.wf(),
        ensures
            match r {
                Some(i) => i < self.items@.len() && has_key(self@.items, task_id) && key_index(
                    self@.items,
                    task_id,
                ) == i && self@.items[i as int] == (task_id, self.items@[i as int].1@),
                None => !has_key(self@.items, task_id),
            },
    {
        let r = find_i64(&self.items, task_id);
        proof {
            let iv = self@.items;
            match r {
                Some(i) => {
                    assert(iv[i as int] == (self.items@[i as int].0, self.items@[i as int].1@));
                    lemma_key_index(iv, task_id, i as int);
                },
                None => {
                    if has_key(iv, task_id) {
                        let j = key_index(iv, task_id);
                        assert(iv[j] == (self.items@[j].0, self.items@[j].1@));
                    }
                },
            }
        }
        r
    }

    /// The position of the record of `chat_bot_hex`.
    fn record_position(&self, chat_bot_hex: &str) -> (r: Option<usize>)
        requires
            self@.wf(),
        ensures
            match r {
                Some(i) => i < self.records@.len() && has_key(self@.records, chat_bot_hex@)
                    && key_index(self@.records, chat_bot_hex@) == i && self@.records[i as int] == (
                    chat_bot_hex@,
                    self.records@[i as int].1@,
                ),
                None => !has_key(self@.records, chat_bot_hex@),
            },
    {
        let r = find_string(&self.records, chat_bot_hex);
        proof {
            let rv = self@.records;
            match r {
                Some(i) => {
                    assert(rv[i as int] == (self.records@[i as int].0@, self.records@[i as int].1@));
                    lemma_key_index(rv, chat_bot_hex@, i as int);
                },
                None => {
                    if has_key(rv, chat_bot_hex@) {
                        let j = key_index(rv, chat_bot_hex@);
                        assert(rv[j] == (self.records@[j].0@, self.records@[j].1@));
                    }
                },
            }
        }
        r
    }

    /// How many tasks of the chat are counted in progress, if the chat has a record.
    pub fn message_number(&self, chat_bot_hex: &str) -> (r: Option<u8>)
        requires
            self@.wf(),
        ensures
            match r {
                Some(n) => lookup(self@.records, chat_bot_hex@) matches Some(rec) && rec.message_number == n,
                None => lookup(self@.records, chat_bot_hex@) is None,
            },
    {
        match self.record_position(chat_bot_hex) {
            Some(i) => Some(self.records[i].1.message_number),
            None => None,
        }
    }

    /// The chat of a task in progress.
    pub fn task_chat(&self, task_id: i64) -> (r: Option<String>)
        requires
            self@.wf(),
        ensures
            match r {
                Some(c) => lookup(self@.items, task_id) matches Some(item) && item.chat_bot_hex == c@,
                None => lookup(self@.items, task_id) is None,
            },
    {
        match self.item_position(task_id) {
            Some(i) => Some(copy_string(&self.items[i].1.chat_bot_hex)),
            None => None,
        }
    }

    fn set_item(&mut self, task_id: i64, item: ProgressItem)
        requires
            old(self)@.wf(),
        ensures
            final(self)@.items == put(old(self)@.items, task_id, item@),
            final(self)@.records == old(self)@.records,
            final(self)@.wf(),
    {
        proof {
            lemma_put(self@.items, task_id, item@);
        }
        let ghost iv = item@;
        match self.item_position(task_id) {
            Some(i) => {
                self.items.set(i, (task_id, item));
                proof {
                    assert(self@.items =~= put(old(self)@.items, task_id, iv));
                }
            },
            None => {
                self.items.push((task_id, item));
                proof {
                    assert(self@.items =~= put(old(self)@.items, task_id, iv));
                }
            },
        }
    }

    fn set_record(&mut self, chat_bot_hex: &str, record: ChatRecord)
        requires
            old(self)@.wf(),
        ensures
            final(self)@.records == put(old(self)@.records, chat_bot_hex@, record@),
            final(self)@.items == old(self)@.items,
            final(self)@.wf(),
    {
        proof {
            lemma_put(self@.records, chat_bot_hex@, record@);
        }
        let ghost rv = record@;
        match self.record_position(chat_bot_hex) {
            Some(i) => {
                let key = string_from_chars(chars_of(chat_bot_hex));
                self.records.set(i, (key, record));
                proof {
                    assert(self@.records =~= put(old(self)@.records, chat_bot_hex@, rv));
                }
            },
            None => {
                let key = string_from_chars(chars_of(chat_bot_hex));
                self.records.push((key, record));
                proof {
                    assert(self@.records =~= put(old(self)@.records, chat_bot_hex@, rv));
                }
            },
        }
    }

    /// Starts following a task: its item is set, and the count of its chat goes up by one
    /// (or the chat gets its first record).
    pub fn insert(
        &mut self,
        task_id: i64,
        total_length: u64,
        chat_bot_hex: &str,
        chat_user_hex: &str,
        message_id: i32,
        filename: &str,
    )
        requires
            old(self)@.wf(),
            old(self)@.can_insert(chat_bot_hex@),
        ensures
            final(self)@ == old(self)@.inserted(
                task_id,
                total_length,
                chat_bot_hex@,
                chat_user_hex@,
                message_id,
                filename@,
            ),
            final(self)@.wf(),
    {
        let item = ProgressItem::new(total_length, chat_bot_hex, message_id, filename);
        self.set_item(task_id, item);
        match self.record_position(chat_bot_hex) {
            Some(i) => {
                let mut record = self.records[i].1.duplicate();
                proof {
                    lemma_key_index(self@.records, chat_bot_hex@, i as int);
                }
                record.message_number = record.message_number + 1;
                self.set_record(chat_bot_hex, record);
            },
            None => {
                let record = ChatRecord {
                    message_number: 1,
                    progress_message_id: None,
                    current_response: string_from_chars(Vec::new()),
                    last_response: string_from_chars(Vec::new()),
                    chat_user_hex: string_from_chars(chars_of(chat_user_hex)),
                };
                self.set_record(chat_bot_hex, record);
            },
        }
        assert(self@ == old(self)@.inserted(
            task_id,
            total_length,
            chat_bot_hex@,
            chat_user_hex@,
            message_id,
            filename@,
        ));
    }

    /// Stops following a task: its item goes, and the count of its chat goes down by one.
    pub fn remove(&mut self, task_id: i64)
        requires
            old(self)@.wf(),
            old(self)@.can_remove(task_id),
        ensures
            final(self)@ == old(self)@.removed(task_id),
            final(self)@.wf(),
    {
        match self.item_position(task_id) {
            None => {},
            Some(i) => {
                let ghost old_items = self@.items;
                proof {
                    lemma_key_index(self@.items, task_id, i as int);
                    lemma_delete(self@.items, task_id);
                }
                let (_, item) = self.items.remove(i);
                proof {
                    assert(self@.items =~= delete(old_items, task_id));
                }
                match self.record_position(item.chat_bot_hex.as_str()) {
                    Some(j) => {
                        let mut record = self.records[j].1.duplicate();
                        proof {
                            lemma_key_index(self@.records, item.chat_bot_hex@, j as int);
                        }
                        record.message_number = record.message_number - 1;
                        self.set_record(item.chat_bot_hex.as_str(), record);
                    },
                    None => {},
                }
            },
        }
    }

    /// Sets how much of a task is transferred; fails when the task is not followed.
    pub fn set_current_length(&mut self, task_id: i64, current_length: u64) -> (r: Result<(), ProgressError>)
        requires
            old(self)@.wf(),
        ensures
            r is Ok <==> has_key(old(self)@.items, task_id),
            final(self)@ == old(self)@.with_current_length(task_id, current_length),
            final(self)@.wf(),
    {
        match self.item_position(task_id) {
            Some(i) => {
                let mut item = self.items[i].1.duplicate();
                proof {
                    lemma_key_index(self@.items, task_id, i as int);
                }
                item.current_length = current_length;
                self.set_item(task_id, item);
                Ok(())
            },
            None => Err(ProgressError::TaskNotFound),
        }
    }

    /// Copies of the items of all tasks, in the order in which they are kept.
    pub fn iter_item(&self) -> (r: Vec<ProgressItem>)
        requires
            self@.wf(),
        ensures
            r@.map_values(|it: ProgressItem| it@) == self@.items.map_values(
                |p: (i64, ProgressItemView)| p.1,
            ),
    {
        let mut out: Vec<ProgressItem> = Vec::new();
        let mut i: usize = 0;
        while i < self.items.len()
            invariant
                i <= self.items.len(),
                self@.items == items_view(self.items@),
                out@.map_values(|it: ProgressItem| it@) == self@.items.map_values(
                    |p: (i64, ProgressItemView)| p.1,
                ).take(i as int),
            decreases self.items.len() - i,
        {
            let ghost prev = out@;
            let it = self.items[i].1.duplicate();
            let ghost itv = it@;
            assert(self@.items[i as int] == (self.items@[i as int].0, self.items@[i as int].1@));
            out.push(it);
            assert(out@.map_values(|it: ProgressItem| it@) =~= prev.map_values(|it: ProgressItem| it@).push(itv));
            assert(out@.map_values(|it: ProgressItem| it@) =~= self@.items.map_values(
                |p: (i64, ProgressItemView)| p.1,
            ).take(i + 1));
            i = i + 1;
        }
        assert(self@.items.map_values(|p: (i64, ProgressItemView)| p.1).take(i as int)
            =~= self@.items.map_values(|p: (i64, ProgressItemView)| p.1));
        out
    }

    /// Adds `s` to the text being put together for a chat, after the heading when the text
    /// is empty; nothing happens without a record of the chat.
    pub fn add_to_current_response(&mut self, chat_bot_hex: &str, s: &str)
        requires
            old(self)@.wf(),
        ensures
            final(self)@ == old(self)@.with_response_added(chat_bot_hex@, s@),
            final(self)@.wf(),
    {
        match self.record_position(chat_bot_hex) {
            Some(i) => {
                let mut record = self.records[i].1.duplicate();
                proof {
                    lemma_key_index(self@.records, chat_bot_hex@, i as int);
                }
                let mut v = chars_of(record.current_response.as_str());
                if v.len() == 0 {
                    append_str(&mut v, PROGRESS_HEADING);
                }
                append_str(&mut v, s);
                record.current_response = string_from_chars(v);
                let ghost rv = record@;
                self.set_record(chat_bot_hex, record);
                assert(self@.records == put(old(self)@.records, chat_bot_hex@, rv));
            },
            None => {},
        }
    }

    /// Copies of the records of all chats, with the chat of each.
    pub fn iter_record(&self) -> (r: Vec<(String, ChatRecord)>)
        requires
            self@.wf(),
        ensures
            records_view(r@) == self@.records,
    {
        let mut out: Vec<(String, ChatRecord)> = Vec::new();
        let mut i: usize = 0;
        while i < self.records.len()
            invariant
                i <= self.records.len(),
                self@.records == records_view(self.records@),
                records_view(out@) == self@.records.take(i as int),
            decreases self.records.len() - i,
        {
            let k = copy_string(&self.records[i].0);
            let rec = self.records[i].1.duplicate();
            let ghost prev = out@;
            let ghost pair = (k@, rec@);
            assert(self@.records[i as int] == (self.records@[i as int].0@, self.records@[i as int].1@));
            out.push((k, rec));
            assert(records_view(out@) =~= records_view(prev).push(pair));
            assert(records_view(out@) =~= self@.records.take(i + 1));
            i = i + 1;
        }
        assert(self@.records.take(i as int) =~= self@.records);
        out
    }

    /// Notes the message that shows the progress of a chat.
    pub fn update_progress_message_id(&mut self, chat_bot_hex: &str, progress_message_id: i32)
        requires
            old(self)@.wf(),
        ensures
            final(self)@ == old(self)@.with_progress_message_id(chat_bot_hex@, progress_message_id),
            final(self)@.wf(),
    {
        match self.record_position(chat_bot_hex) {
            Some(i) => {
                let mut record = self.records[i].1.duplicate();
                proof {
                    lemma_key_index(self@.records, chat_bot_hex@, i as int);
                }
                record.progress_message_id = Some(progress_message_id);
                self.set_record(chat_bot_hex, record);
            },
            None => {},
        }
    }

    /// Notes that a chat's message now shows `current_response`, and starts a new text.
    pub fn update_last_response(&mut self, chat_bot_hex: &str, current_response: &str)
        requires
            old(self)@.wf(),
        ensures
            final(self)@ == old(self)@.with_last_response(chat_bot_hex@, current_response@),
            final(self)@.wf(),
    {
        match self.record_position(chat_bot_hex) {
            Some(i) => {
                let mut record = self.records[i].1.duplicate();
                proof {
                    lemma_key_index(self@.records, chat_bot_hex@, i as int);
                }
                record.last_response = string_from_chars(chars_of(current_response));
                record.current_response = string_from_chars(Vec::new());
                self.set_record(chat_bot_hex, record);
            },
            None => {},
        }
    }

    /// Forgets the record of a chat.
    pub fn remove_record(&mut self, chat_bot_hex: &str)
        requires
            old(self)@.wf(),
        ensures
            final(self)@ == old(self)@.without_record(chat_bot_hex@),
            final(self)@.wf(),
    {
        proof {
            lemma_delete(self@.records, chat_bot_hex@);
        }
        match self.record_position(chat_bot_hex) {
            Some(i) => {
                let ghost old_records = self@.records;
                proof {
                    lemma_key_index(self@.records, chat_bot_hex@, i as int);
                }
                self.records.remove(i);
                proof {
                    assert(self@.records =~= delete(old_records, chat_bot_hex@));
                    assert(self@ == old(self)@.without_record(chat_bot_hex@));
                }
            },
            None => {},
        }
    }
}

/// Why the length of a task cannot be set.
#[derive(Clone, Copy, Debug, PartialEq, Eq, Structural)]
pub enum ProgressError {
    /// No item is kept for the task.
    TaskNotFound,
}

/// The text of each progress error.
pub open spec fn progress_error_text(e: ProgressError) -> Seq<char> {
    match e {
        ProgressError::TaskNotFound => "task_id not found"@,
    }
}

impl ProgressError {
    /// The text that describes the error.
    pub fn message(&self) -> (r: &'static str)
        ensures
            r@ == progress_error_text(*self),
    {
        match self {
            ProgressError::TaskNotFound => "task_id not found",
        }
    }
}

// ---------------------------------------------------------------------------
// Laws
// ---------------------------------------------------------------------------

/// How many items belong to the chat `chat`.
pub open spec fn chat_count(items: Seq<(i64, ProgressItemView)>, chat: Seq<char>) -> nat
    decreases items.len(),
{
    if items.len() == 0 {
        0
    } else {
        chat_count(items.drop_last(), chat) + if items.last().1.chat_bot_hex == chat {
            1nat
        } else {
            0nat
        }
    }
}

/// The count kept in each chat record is the number of items of that chat, and a chat
/// without a record has no items.
pub open spec fn counts_consistent(v: ProgressView) -> bool {
    forall|c: Seq<char>| #[trigger]
        chat_count(v.items, c) == match lookup(v.records, c) {
            Some(r) => r.message_number as nat,
            None => 0nat,
        }
}

proof fn lemma_count_update(s: Seq<(i64, ProgressItemView)>, i: int, x: (i64, ProgressItemView), c: Seq<char>)
    requires
        0 <= i < s.len(),
        x.1.chat_bot_hex == s[i].1.chat_bot_hex,
    ensures
        chat_count(s.update(i, x), c) == chat_count(s, c),
    decreases s.len(),
{
    if i < s.len() - 1 {
        assert(s.update(i, x).drop_last() =~= s.drop_last().update(i, x));
        lemma_count_update(s.drop_last(), i, x, c);
    } else {
        assert(s.update(i, x).drop_last() =~= s.drop_last());
    }
}

proof fn lemma_count_remove(s: Seq<(i64, ProgressItemView)>, i: int, c: Seq<char>)
    requires
        0 <= i < s.len(),
    ensures
        chat_count(s, c) == chat_count(s.remove(i), c) + if s[i].1.chat_bot_hex == c {
            1nat
        } else {
            0nat
        },
    decreases s.len(),
{
    if i < s.len() - 1 {
        assert(s.remove(i).drop_last() =~= s.drop_last().remove(i));
        assert(s.remove(i).last() == s.last());
        lemma_count_remove(s.drop_last(), i, c);
    } else {
        assert(s.remove(i) =~= s.drop_last());
    }
}

/// Starting a task that is not followed yet keeps each chat's count equal to its number of
/// tasks.
pub proof fn lemma_inserted_consistent(
    v: ProgressView,
    task_id: i64,
    total_length: u64,
    chat_bot_hex: Seq<char>,
    chat_user_hex: Seq<char>,
    message_id: i32,
    filename: Seq<char>,
)
    requires
        v.wf(),
        counts_consistent(v),
        !has_key(v.items, task_id),
        v.can_insert(chat_bot_hex),
    ensures
        v.inserted(task_id, total_length, chat_bot_hex, chat_user_hex, message_id, filename).wf(),
        counts_consistent(
            v.inserted(task_id, total_length, chat_bot_hex, chat_user_hex, message_id, filename),
        ),
{
    let item = new_item_view(total_length, chat_bot_hex, message_id, filename);
    let w = v.inserted(task_id, total_length, chat_bot_hex, chat_user_hex, message_id, filename);
    lemma_put(v.items, task_id, item);
    assert(w.items == v.items.push((task_id, item)));
    assert(w.items.drop_last() =~= v.items);
    let newr = match lookup(v.records, chat_bot_hex) {
        Some(r) => ChatRecordView { message_number: (r.message_number + 1) as u8, ..r },
        None => new_record_view(chat_user_hex),
    };
    lemma_put(v.records, chat_bot_hex, newr);
    assert forall|c: Seq<char>| #[trigger]
        chat_count(w.items, c) == match lookup(w.records, c) {
            Some(r) => r.message_number as nat,
            None => 0nat,
        } by {
        assert(chat_count(v.items, c) == match lookup(v.records, c) {
            Some(r) => r.message_number as nat,
            None => 0nat,
        });
        if c != chat_bot_hex {
            assert(lookup(w.records, c) == lookup(v.records, c));
        }
    }
}

/// Ending a task keeps each chat's count equal to its number of tasks; in such a
/// progress, ending a task never takes a count below zero.
pub proof fn lemma_removed_consistent(v: ProgressView, task_id: i64)
    requires
        v.wf(),
        counts_consistent(v),
    ensures
        v.can_remove(task_id),
        v.removed(task_id).wf(),
        counts_consistent(v.removed(task_id)),
{
    if has_key(v.items, task_id) {
        let i = key_index(v.items, task_id);
        let item = v.items[i].1;
        let c0 = item.chat_bot_hex;
        lemma_delete(v.items, task_id);
        let w = v.removed(task_id);
        assert(w.items == v.items.remove(i));
        lemma_count_remove(v.items, i, c0);
        assert(chat_count(v.items, c0) == match lookup(v.records, c0) {
            Some(r) => r.message_number as nat,
            None => 0nat,
        });
        assert(has_key(v.records, c0));
        let r = lookup(v.records, c0).unwrap();
        assert(r.message_number > 0);
        let nr = ChatRecordView { message_number: (r.message_number - 1) as u8, ..r };
        lemma_put(v.records, c0, nr);
        assert forall|c: Seq<char>| #[trigger]
            chat_count(w.items, c) == match lookup(w.records, c) {
                Some(r) => r.message_number as nat,
                None => 0nat,
            } by {
            lemma_count_remove(v.items, i, c);
            assert(chat_count(v.items, c) == match lookup(v.records, c) {
                Some(r) => r.message_number as nat,
                None => 0nat,
            });
            if c != c0 {
                assert(lookup(w.records, c) == lookup(v.records, c));
            }
        }
    }
}

/// Dropping the record of a chat whose count is zero keeps the counts consistent.
pub proof fn lemma_without_record_consistent(v: ProgressView, chat_bot_hex: Seq<char>)
    requires
        v.wf(),
        counts_consistent(v),
        lookup(v.records, chat_bot_hex) matches Some(r) ==> r.message_number == 0,
    ensures
        v.without_record(chat_bot_hex).wf(),
        counts_consistent(v.without_record(chat_bot_hex)),
{
    lemma_delete(v.records, chat_bot_hex);
    let w = v.without_record(chat_bot_hex);
    assert forall|c: Seq<char>| #[trigger]
        chat_count(w.items, c) == match lookup(w.records, c) {
            Some(r) => r.message_number as nat,
            None => 0nat,
        } by {
        assert(chat_count(v.items, c) == match lookup(v.records, c) {
            Some(r) => r.message_number as nat,
            None => 0nat,
        });
        if c != chat_bot_hex {
            assert(lookup(w.records, c) == lookup(v.records, c));
        }
    }
}

/// Setting the length of a task, or changing the texts or the message of a chat, keeps the
/// counts consistent.
pub proof fn lemma_updates_consistent(
    v: ProgressView,
    task_id: i64,
    current_length: u64,
    chat_bot_hex: Seq<char>,
    s: Seq<char>,
    id: i32,
)
    requires
        v.wf(),
        counts_consistent(v),
    ensures
        counts_consistent(v.with_current_length(task_id, current_length)),
        counts_consistent(v.with_response_added(chat_bot_hex, s)),
        counts_consistent(v.with_progress_message_id(chat_bot_hex, id)),
        counts_consistent(v.with_last_response(chat_bot_hex, s)),
{
    if has_key(v.items, task_id) {
        let item = lookup(v.items, task_id).unwrap();
        let x = ProgressItemView { current_length, ..item };
        let w = v.with_current_length(task_id, current_length);
        assert forall|c: Seq<char>| #[trigger]
            chat_count(w.items, c) == match lookup(w.records, c) {
                Some(r) => r.message_number as nat,
                None => 0nat,
            } by {
            lemma_count_update(v.items, key_index(v.items, task_id), (task_id, x), c);
            assert(chat_count(v.items, c) == match lookup(v.records, c) {
                Some(r) => r.message_number as nat,
                None => 0nat,
            });
        }
    }
    if has_key(v.records, chat_bot_hex) {
        let r = lookup(v.records, chat_bot_hex).unwrap();
        let r1 = ChatRecordView { current_response: added_response(r.current_response, s), ..r };
        let r2 = ChatRecordView { progress_message_id: Some(id), ..r };
        let r3 = ChatRecordView { last_response: s, current_response: seq![], ..r };
        lemma_put(v.records, chat_bot_hex, r1);
        lemma_put(v.records, chat_bot_hex, r2);
        lemma_put(v.records, chat_bot_hex, r3);
        let w1 = v.with_response_added(chat_bot_hex, s);
        let w2 = v.with_progress_message_id(chat_bot_hex, id);
        let w3 = v.with_last_response(chat_bot_hex, s);
        assert forall|c: Seq<char>| #[trigger]
            chat_count(w1.items, c) == match lookup(w1.records, c) {
                Some(r) => r.message_number as nat,
                None => 0nat,
            } && chat_count(w2.items, c) == match lookup(w2.records, c) {
                Some(r) => r.message_number as nat,
                None => 0nat,
            } && chat_count(w3.items, c) == match lookup(w3.records, c) {
                Some(r) => r.message_number as nat,
                None => 0nat,
            } by {
            assert(chat_count(v.items, c) == match lookup(v.records, c) {
                Some(r) => r.message_number as nat,
                None => 0nat,
            });
        }
    }
}

/// After a task starts, setting its transferred length succeeds and is what its item then
/// holds, with the rest of the item as the start made it.
pub proof fn lemma_current_length_after_insert(
    v: ProgressView,
    task_id: i64,
    total_length: u64,
    chat_bot_hex: Seq<char>,
    chat_user_hex: Seq<char>,
    message_id: i32,
    filename: Seq<char>,
    current_length: u64,
)
    requires
        v.wf(),
    ensures
        has_key(
            v.inserted(task_id, total_length, chat_bot_hex, chat_user_hex, message_id, filename).items,
            task_id,
        ),
        lookup(
            v.inserted(
                task_id,
                total_length,
                chat_bot_hex,
                chat_user_hex,
                message_id,
                filename,
            ).with_current_length(task_id, current_length).items,
            task_id,
        ) == Some(
            ProgressItemView {
                current_length,
                ..new_item_view(total_length, chat_bot_hex, message_id, filename)
            },
        ),
{
    let item = new_item_view(total_length, chat_bot_hex, message_id, filename);
    lemma_put(v.items, task_id, item);
    let w = v.inserted(task_id, total_length, chat_bot_hex, chat_user_hex, message_id, filename);
    assert(lookup(w.items, task_id) == Some(item));
    lemma_put(w.items, task_id, ProgressItemView { current_length, ..item });
}

/// Starting a task that is not followed yet and ending it again leaves the record of a
/// chat that already had one as it was.
pub proof fn lemma_insert_then_remove(
    v: ProgressView,
    task_id: i64,
    total_length: u64,
    chat_bot_hex: Seq<char>,
    chat_user_hex: Seq<char>,
    message_id: i32,
    filename: Seq<char>,
)
    requires
        v.wf(),
        !has_key(v.items, task_id),
        v.can_insert(chat_bot_hex),
        has_key(v.records, chat_bot_hex),
    ensures
        lookup(
            v.inserted(
                task_id,
                total_length,
                chat_bot_hex,
                chat_user_hex,
                message_id,
                filename,
            ).removed(task_id).records,
            chat_bot_hex,
        ) == lookup(v.records, chat_bot_hex),
        v.inserted(
            task_id,
            total_length,
            chat_bot_hex,
            chat_user_hex,
            message_id,
            filename,
        ).removed(task_id).items == v.items,
{
    let item = new_item_view(total_length, chat_bot_hex, message_id, filename);
    let w = v.inserted(task_id, total_length, chat_bot_hex, chat_user_hex, message_id, filename);
    lemma_put(v.items, task_id, item);
    let r = lookup(v.records, chat_bot_hex).unwrap();
    let r1 = ChatRecordView { message_number: (r.message_number + 1) as u8, ..r };
    lemma_put(v.records, chat_bot_hex, r1);
    assert(lookup(w.items, task_id) == Some(item));
    assert(w.items == v.items.push((task_id, item)));
    lemma_key_index(w.items, task_id, v.items.len() as int);
    assert(w.items.remove(v.items.len() as int) =~= v.items);
    let r2 = ChatRecordView { message_number: (r1.message_number - 1) as u8, ..r1 };
    lemma_put(w.records, chat_bot_hex, r2);
    assert(r2 == r);
}

/// Once a chat's message shows a text, the next text put together starts with the heading.
pub proof fn lemma_response_restarts(v: ProgressView, chat_bot_hex: Seq<char>, shown: Seq<char>, s: Seq<char>)
    requires
        v.wf(),
        has_key(v.records, chat_bot_hex),
    ensures
        lookup(
            v.with_last_response(chat_bot_hex, shown).with_response_added(chat_bot_hex, s).records,
            chat_bot_hex,
        ).unwrap().current_response == PROGRESS_HEADING@ + s,
        lookup(
            v.with_last_response(chat_bot_hex, shown).with_response_added(chat_bot_hex, s).records,
            chat_bot_hex,
        ).unwrap().last_response == shown,
{
    let r = lookup(v.records, chat_bot_hex).unwrap();
    let r1 = ChatRecordView { last_response: shown, current_response: seq![], ..r };
    lemma_put(v.records, chat_bot_hex, r1);
    let w = v.with_last_response(chat_bot_hex, shown);
    let r2 = ChatRecordView { current_response: added_response(r1.current_response, s), ..r1 };
    lemma_put(w.records, chat_bot_hex, r2);
}

} // verus!
