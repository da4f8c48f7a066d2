//! The decisions of a transfer: which chunks are fetched together, which byte range each
//! part is uploaded as, when an upload is tried again, and where the file comes from.
use crate::tasker::tasks::{CmdType, Model};
use crate::text::{chars_of, string_from_chars};
use vstd::prelude::*;

verus! {

/// How many times a failed upload of a part is tried again, and a failed download of a
/// chunk too.
pub const MAX_RETRIES: i32 = 5;

/// How many bytes of a URL are gathered before they are uploaded as one part.
pub const URL_PART_SIZE: usize = 3276800;

/// How many chunks of a Telegram file are downloaded at once.
pub const WORKER_COUNT: i32 = 4;

/// The status OneDrive answers with when it already has the part.
pub const RANGE_NOT_SATISFIABLE: u16 = 416;

/// What to do after an attempt to upload a part failed.
#[derive(Clone, Copy, Debug, PartialEq, Eq, Structural)]
pub enum UploadStep {
    /// OneDrive already has the part: go on without a response.
    Done,
    /// Wait and try again.
    Retry,
    /// Give up with the error.
    Fail,
}

/// What to do after the `tries`-th attempt to upload a part failed, with the status code
/// of the answer if there was one.
pub open spec fn upload_step_spec(tries: i32, status: Option<u16>) -> UploadStep {
    if status == Some(RANGE_NOT_SATISFIABLE) {
        UploadStep::Done
    } else if tries < MAX_RETRIES {
        UploadStep::Retry
    } else {
        UploadStep::Fail
    }
}

/// What to do after the `tries`-th attempt to upload a part failed (see `upload_step_spec`):
/// a part is tried at most `MAX_RETRIES` times.
pub fn upload_step(tries: i32, status: Option<u16>) -> (r: UploadStep)
    ensures
        r == upload_step_spec(tries, status),
{
    match status {
        Some(code) => {
            if code == RANGE_NOT_SATISFIABLE {
                return UploadStep::Done;
            }
        },
        None => {},
    }
    if tries < MAX_RETRIES {
        UploadStep::Retry
    } else {
        UploadStep::Fail
    }
}

/// Whether a chunk whose download failed `retries` times before is tried again.
pub fn download_should_retry(retries: i32) -> (r: bool)
    ensures
        r == (retries <= MAX_RETRIES),
{
    retries <= MAX_RETRIES
}

/// The byte range a part of `len` bytes is uploaded as, when `current_length` bytes are
/// already uploaded.
pub fn part_range(current_length: u64, len: usize) -> (r: (u64, u64))
    requires
        current_length + len <= u64::MAX,
    ensures
        r.0 == current_length,
        r.1 == current_length + len,
{
    (current_length, current_length + len as u64)
}

/// Whether enough bytes of a URL are gathered to upload them as a part.
pub fn url_part_full(len: usize) -> (r: bool)
    ensures
        r == (len >= URL_PART_SIZE),
{
    len >= URL_PART_SIZE
}

/// How much is uploaded once a part of `len` bytes went up after `current_length`, and
/// whether that completes the `total_length` bytes of the file.
pub fn advance(current_length: u64, len: usize, total_length: u64) -> (r: (u64, bool))
    requires
        current_length + len <= u64::MAX,
    ensures
        r.0 == current_length + len,
        r.1 == (current_length + len >= total_length),
{
    let next = current_length + len as u64;
    (next, next >= total_length)
}

/// How far the upload of a file has gone: how many bytes OneDrive has, of how many, and
/// its answer to the last part, if a part went up.
pub struct UploadProgress {
    pub current_length: u64,
    pub total_length: u64,
    pub last_answer: Option<Option<String>>,
}

/// The byte ranges of parts of lengths `lens` uploaded one after the other from `start`.
pub open spec fn part_ranges(start: int, lens: Seq<int>) -> Seq<(int, int)>
    decreases lens.len(),
{
    if lens.len() == 0 {
        seq![]
    } else {
        let before = part_ranges(start, lens.drop_last());
        let from = if before.len() == 0 {
            start
        } else {
            before.last().1
        };
        before.push((from, from + lens.last()))
    }
}

/// The sum of the lengths.
pub open spec fn total_of(lens: Seq<int>) -> int
    decreases lens.len(),
{
    if lens.len() == 0 {
        0
    } else {
        total_of(lens.drop_last()) + lens.last()
    }
}

/// Parts uploaded one after the other go up in order as contiguous ranges: the first
/// starts where the upload stood, each starts where the one before ended, and the last
/// ends where the upload stands after them.
pub proof fn lemma_parts_contiguous(start: int, lens: Seq<int>)
    ensures
        part_ranges(start, lens).len() == lens.len(),
        lens.len() > 0 ==> part_ranges(start, lens)[0].0 == start,
        forall|k: int|
            0 <= k < lens.len() ==> #[trigger] part_ranges(start, lens)[k].1 == part_ranges(
                start,
                lens,
            )[k].0 + lens[k],
        forall|k: int|
            0 <= k && k + 1 < lens.len() ==> #[trigger] part_ranges(start, lens)[k].1 == part_ranges(
                start,
                lens,
            )[k + 1].0,
        lens.len() > 0 ==> part_ranges(start, lens).last().1 == start + total_of(lens),
    decreases lens.len(),
{
    if lens.len() > 0 {
        let p = lens.drop_last();
        lemma_parts_contiguous(start, p);
        let before = part_ranges(start, p);
        let r = part_ranges(start, lens);
        assert forall|k: int| 0 <= k < lens.len() implies #[trigger] r[k].1 == r[k].0 + lens[k] by {
            if k < p.len() {
                assert(r[k] == before[k]);
                assert(lens[k] == p[k]);
            }
        }
        assert forall|k: int| 0 <= k && k + 1 < lens.len() implies #[trigger] r[k].1 == r[k + 1].0 by {
            if k + 1 < p.len() {
                assert(r[k] == before[k]);
                assert(r[k + 1] == before[k + 1]);
            } else {
                assert(r[k] == before[k]);
                assert(before.last() == before[k]);
            }
        }
        if p.len() > 0 {
            assert(r[0] == before[0]);
        } else {
            assert(total_of(p) == 0);
        }
        assert(total_of(lens) == total_of(p) + lens.last());
        assert(r.last() == r[lens.len() - 1]);
    }
}

impl UploadProgress {
    /// An upload of `total_length` bytes, of which OneDrive already has `current_length`.
    pub fn new(current_length: u64, total_length: u64) -> (r: Self)
        ensures
            r.current_length == current_length,
            r.total_length == total_length,
            r.last_answer is None,
    {
        UploadProgress { current_length, total_length, last_answer: None }
    }

    /// The byte range the next part of `len` bytes goes up as: from where the upload
    /// stands.
    pub fn next_range(&self, len: usize) -> (r: (u64, u64))
        requires
            self.current_length + len <= u64::MAX,
        ensures
            r.0 == self.current_length,
            r.1 == self.current_length + len,
    {
        part_range(self.current_length, len)
    }

    /// Notes that a part of `len` bytes went up with OneDrive's answer, and says whether
    /// the file is complete.
    pub fn record_part(&mut self, len: usize, answer: Option<Option<String>>) -> (r: bool)
        requires
            old(self).current_length + len <= u64::MAX,
        ensures
            final(self).current_length == old(self).current_length + len,
            final(self).total_length == old(self).total_length,
            final(self).last_answer == answer,
            r == (final(self).current_length >= final(self).total_length),
    {
        let (next, done) = advance(self.current_length, len, self.total_length);
        self.current_length = next;
        self.last_answer = answer;
        done
    }

    /// The name OneDrive gave the file, from its answer to the last part (see
    /// `uploaded_name`).
    pub fn uploaded_name(self) -> (r: Result<String, TransferError>)
        ensures
            match self.last_answer {
                None => r == Err::<String, TransferError>(TransferError::DriveItemMissing),
                Some(None) => r == Err::<String, TransferError>(TransferError::DriveItemNameMissing),
                Some(Some(n)) => r == Ok::<String, TransferError>(n),
            },
    {
        uploaded_name(self.last_answer)
    }
}

/// How many batches the chunks of a file are fetched in.
pub open spec fn batch_count(total_chunks: int) -> int {
    if total_chunks <= 0 {
        0
    } else {
        (total_chunks + WORKER_COUNT - 1) / WORKER_COUNT as int
    }
}

/// The chunks of the `k`-th batch, from the first to the one after the last: `WORKER_COUNT`
/// of them, or what is left of the file.
pub open spec fn chunk_batch(total_chunks: int, k: int) -> (int, int) {
    (
        WORKER_COUNT * k,
        if WORKER_COUNT * k + WORKER_COUNT < total_chunks {
            WORKER_COUNT * k + WORKER_COUNT
        } else {
            total_chunks
        },
    )
}

/// The batches the chunks of a file are fetched in: chunks are downloaded together until
/// `WORKER_COUNT` of them are fetched or the file ends, then they are uploaded, in order,
/// as one part.
pub fn chunk_batches(total_chunks: i32) -> (r: Vec<(i32, i32)>)
    ensures
        r@.len() == batch_count(total_chunks as int),
        forall|k: int|
            0 <= k < r@.len() ==> r@[k].0 == chunk_batch(total_chunks as int, k).0 && r@[k].1
                == chunk_batch(total_chunks as int, k).1,
{
    let mut out: Vec<(i32, i32)> = Vec::new();
    let mut start: i32 = 0;
    let mut current: i32 = 0;
    while current < total_chunks
        invariant
            0 <= start <= current,
            current <= total_chunks || current == 0,
            current < total_chunks ==> start == WORKER_COUNT * out@.len() && current - start
                < WORKER_COUNT,
            current == total_chunks && total_chunks > 0 ==> out@.len() == batch_count(
                total_chunks as int,
            ),
            total_chunks <= 0 ==> out@.len() == 0,
            forall|k: int|
                0 <= k < out@.len() ==> out@[k].0 == chunk_batch(total_chunks as int, k).0
                    && out@[k].1 == chunk_batch(total_chunks as int, k).1,
        decreases total_chunks - current,
    {
        current = current + 1;
        if current % WORKER_COUNT == 0 || current == total_chunks {
            let ghost n = out@.len();
            assert(current - start <= 4);
            assert(current == total_chunks || current == start + 4);
            out.push((start, current));
            if current == total_chunks {
                assert((total_chunks + 3) / 4 == n + 1);
            }
            start = current;
        }
    }
    out
}

/// The batches cover the chunks of the file once each and in order: the first starts at
/// the first chunk, each starts where the one before ended, none holds more than
/// `WORKER_COUNT` chunks, the last ends with the file, and chunk `c` is in batch
/// `c / WORKER_COUNT`.
pub proof fn lemma_batches_cover(total_chunks: int)
    requires
        total_chunks > 0,
    ensures
        chunk_batch(total_chunks, 0).0 == 0,
        chunk_batch(total_chunks, batch_count(total_chunks) - 1).1 == total_chunks,
        forall|k: int|
            0 <= k < batch_count(total_chunks) ==> chunk_batch(total_chunks, k).0 < #[trigger] chunk_batch(
                total_chunks,
                k,
            ).1 <= chunk_batch(total_chunks, k).0 + WORKER_COUNT,
        forall|k: int|
            0 <= k && k + 1 < batch_count(total_chunks) ==> #[trigger] chunk_batch(total_chunks, k).1
                == chunk_batch(total_chunks, k + 1).0,
        forall|c: int|
            0 <= c < total_chunks ==> chunk_batch(total_chunks, #[trigger] (c / WORKER_COUNT as int)).0 <= c
                < chunk_batch(total_chunks, c / WORKER_COUNT as int).1,
{
    let n = batch_count(total_chunks);
    assert(4 * (n - 1) < total_chunks <= 4 * n);
    assert forall|c: int| 0 <= c < total_chunks implies chunk_batch(total_chunks, #[trigger] (c / WORKER_COUNT as int)).0 <= c
        < chunk_batch(total_chunks, c / WORKER_COUNT as int).1 by {
        assert(4 * (c / 4) <= c < 4 * (c / 4) + 4);
    }
}

/// Why a transfer cannot go on.
#[derive(Clone, Copy, Debug, PartialEq, Eq, Structural)]
pub enum TransferError {
    /// A `/url` task without its URL.
    UrlMissing,
    /// A link task without the chat of the linked message.
    OriginChatMissing,
    /// A link task without the linked message.
    OriginMessageMissing,
    /// A `/url` task handed to the Telegram uploader.
    InvalidCmdType,
    /// The upload ended without OneDrive describing the file.
    DriveItemMissing,
    /// OneDrive described the file without its name.
    DriveItemNameMissing,
}

/// The text of each transfer error.
pub open spec fn transfer_error_text(e: TransferError) -> Seq<char> {
    match e {
        TransferError::UrlMissing => "url is none"@,
        TransferError::OriginChatMissing => "chat_origin_hex is None"@,
        TransferError::OriginMessageMissing => "message_id_origin is None"@,
        TransferError::InvalidCmdType => "invalid cmd type"@,
        TransferError::DriveItemMissing => "failed to get drive item after upload"@,
        TransferError::DriveItemNameMissing => "drive item name not found"@,
    }
}

impl TransferError {
    /// The text of the error.
    pub fn message(&self) -> (r: &'static str)
        ensures
            r@ == transfer_error_text(*self),
    {
        match self {
            TransferError::UrlMissing => "url is none",
            TransferError::OriginChatMissing => "chat_origin_hex is None",
            TransferError::OriginMessageMissing => "message_id_origin is None",
            TransferError::InvalidCmdType => "invalid cmd type",
            TransferError::DriveItemMissing => "failed to get drive item after upload",
            TransferError::DriveItemNameMissing => "drive item name not found",
        }
    }
}

/// Where the file of a Telegram task is read from: the chat (as the user packs it) and the
/// message. A file sent to the bot is read from the task's own chat and message; a link's
/// file from the linked message.
pub open spec fn tg_source_spec(t: Model) -> Result<(Seq<char>, i32), TransferError> {
    match t.cmd_type {
        CmdType::File => Ok((t.chat_user_hex@, t.message_id)),
        CmdType::Link => match t.chat_origin_hex {
            None => Err(TransferError::OriginChatMissing),
            Some(h) => match t.message_origin_id {
                None => Err(TransferError::OriginMessageMissing),
                Some(m) => Ok((h@, m)),
            },
        },
        CmdType::Url => Err(TransferError::InvalidCmdType),
    }
}

/// Where the file of a Telegram task is read from (see `tg_source_spec`).
pub fn tg_source(task: &Model) -> (r: Result<(String, i32), TransferError>)
    ensures
        match (r, tg_source_spec(*task)) {
            (Ok((h, m)), Ok((hv, mv))) => h@ == hv && m == mv,
            (Err(e), Err(ev)) => e == ev,
            _ => false,
        },
{
    match task.cmd_type {
        CmdType::File => Ok((string_from_chars(chars_of(task.chat_user_hex.as_str())), task.message_id)),
        CmdType::Link => match &task.chat_origin_hex {
            None => Err(TransferError::OriginChatMissing),
            Some(h) => match task.message_origin_id {
                None => Err(TransferError::OriginMessageMissing),
                Some(m) => Ok((string_from_chars(chars_of(h.as_str())), m)),
            },
        },
        CmdType::Url => Err(TransferError::InvalidCmdType),
    }
}

/// The URL a `/url` task downloads.
pub fn url_source(task: &Model) -> (r: Result<String, TransferError>)
    ensures
        match task.url {
            Some(u) => r matches Ok(s) && s@ == u@,
            None => r == Err::<String, TransferError>(TransferError::UrlMissing),
        },
{
    match &task.url {
        Some(u) => Ok(string_from_chars(chars_of(u.as_str()))),
        None => Err(TransferError::UrlMissing),
    }
}

/// The name OneDrive gave the uploaded file, from its answer to the last part: the
/// description of the file, if it sent one, and the name in it, if any.
pub fn uploaded_name(response: Option<Option<String>>) -> (r: Result<String, TransferError>)
    ensures
        match response {
            None => r == Err::<String, TransferError>(TransferError::DriveItemMissing),
            Some(None) => r == Err::<String, TransferError>(TransferError::DriveItemNameMissing),
            Some(Some(n)) => r == Ok::<String, TransferError>(n),
        },
{
    match response {
        None => Err(TransferError::DriveItemMissing),
        Some(None) => Err(TransferError::DriveItemNameMissing),
        Some(Some(n)) => Ok(n),
    }
}

} // verus!
