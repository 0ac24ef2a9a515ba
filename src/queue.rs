//! The ingestion queue: pending jobs in arrival order, driven by a single worker.
use vstd::prelude::*;
use crate::text::{dec, push_all, push_decimal, push_range};

verus! {

/// The kind of a platform-native attachment.
pub enum MediaKind {
    Document,
    Photo,
    Video,
    Animation,
}

/// A platform-native attachment, as the messaging platform described it.
pub struct MediaRef {
    pub kind: MediaKind,
    pub file_id: String,
    pub file_size: u32,
    pub mime_type: Option<String>,
    /// The name the attachment came with (documents only).
    pub file_name: Option<String>,
}

/// Where a job's bytes come from: always exactly one source.
pub enum FileSource {
    Media(MediaRef),
    Url(String),
}

/// A job awaiting ingestion.
pub struct FileQueueItem {
    /// Chat of the originating request.
    pub chat_id: i64,
    /// The status message that reports this job's progress.
    pub queue_message_id: i32,
    pub source: FileSource,
    /// Display name chosen by the requester, if any.
    pub file_name: Option<String>,
}

/// Longest URL prefix shown in a summary.
pub const URL_SHOWN: usize = 48;

pub open spec fn summary_text(item: FileQueueItem) -> Seq<char> {
    match item.file_name {
        Some(name) => name@,
        None => match item.source {
            FileSource::Url(u) => "URL: "@ + if u@.len() > URL_SHOWN {
                u@.subrange(0, URL_SHOWN as int).push('\u{2026}')
            } else {
                u@
            },
            FileSource::Media(m) => "file_id: "@ + m.file_id@,
        },
    }
}

pub open spec fn snapshot_line(i: nat, item: FileQueueItem) -> Seq<char> {
    dec(i + 1) + ". "@ + summary_text(item)
}

/// What a snapshot with `limit` reports of the jobs `q`: their number, and the
/// lines of the first `limit` of them in queue order.
pub open spec fn snapshot_result(q: Seq<FileQueueItem>, limit: nat, total: usize, lines: Seq<String>) -> bool {
    &&& total == q.len()
    &&& lines.len() == min_nat(limit, q.len())
    &&& forall|i: int| 0 <= i < lines.len() ==> #[trigger] lines[i]@ == snapshot_line(i as nat, q[i])
}

pub open spec fn min_nat(a: nat, b: nat) -> nat {
    if a < b {
        a
    } else {
        b
    }
}

impl FileQueueItem {
    /// A job from exactly one source: `None` when both or neither are given.
    pub fn new(
        chat_id: i64,
        queue_message_id: i32,
        media: Option<MediaRef>,
        file_name: Option<String>,
        url: Option<String>,
    ) -> (r: Option<FileQueueItem>)
        ensures
            r is Some <==> (media is Some) != (url is Some),
            r matches Some(item) ==> {
                &&& item.chat_id == chat_id
                &&& item.queue_message_id == queue_message_id
                &&& item.file_name == file_name
                &&& (media matches Some(m) ==> item.source == FileSource::Media(m))
                &&& (url matches Some(u) ==> item.source == FileSource::Url(u))
            },
    {
        let source = match (media, url) {
            (Some(m), None) => FileSource::Media(m),
            (None, Some(u)) => FileSource::Url(u),
            _ => {
                return None;
            },
        };
        Some(FileQueueItem { chat_id, queue_message_id, source, file_name })
    }

    /// A short human-readable description for the queue listing.
    pub fn summary(&self) -> (r: String)
        ensures
            r@ == summary_text(*self),
    {
        let mut r = String::new();
        match &self.file_name {
            Some(name) => {
                push_all(&mut r, name.as_str());
            },
            None => match &self.source {
                FileSource::Url(u) => {
                    push_all(&mut r, "URL: ");
                    let n = u.as_str().unicode_len();
                    if n > URL_SHOWN {
                        push_range(&mut r, u.as_str(), 0, URL_SHOWN);
                        r.push('\u{2026}');
                    } else {
                        push_all(&mut r, u.as_str());
                    }
                },
                FileSource::Media(m) => {
                    push_all(&mut r, "file_id: ");
                    push_all(&mut r, m.file_id.as_str());
                },
            },
        }
        assert(r@ =~= summary_text(*self));
        r
    }
}

/// The pending jobs, oldest first, and the state of the single worker.
pub struct FileQueue {
    items: Vec<FileQueueItem>,
    busy: bool,
    head_live: bool,
}

impl View for FileQueue {
    type V = Seq<FileQueueItem>;

    closed spec fn view(&self) -> Seq<FileQueueItem> {
        self.items@
    }
}

impl FileQueue {
    /// An attempt is running.
    pub closed spec fn in_flight(&self) -> bool {
        self.busy
    }

    /// The job at the head is the one the running attempt works on.
    pub closed spec fn head_in_progress(&self) -> bool {
        self.busy && self.head_live
    }

    pub closed spec fn wf(&self) -> bool {
        self.head_live ==> self.busy && self.items@.len() > 0
    }
}

/// An attempt can start: none is running and a job waits.
pub open spec fn can_begin(q: FileQueue) -> bool {
    !q.in_flight() && q@.len() > 0
}

impl FileQueue {

    pub fn new() -> (r: FileQueue)
        ensures
            r.wf(),
            r@ == Seq::<FileQueueItem>::empty(),
            !r.in_flight(),
    {
        FileQueue { items: Vec::new(), busy: false, head_live: false }
    }

    pub fn len(&self) -> (r: usize)
        ensures
            r == self@.len(),
    {
        self.items.len()
    }

    /// Appends a job at the tail.
    pub fn enqueue(&mut self, item: FileQueueItem)
        requires
            old(self).wf(),
        ensures
            final(self).wf(),
            final(self)@ == old(self)@.push(item),
            final(self).in_flight() == old(self).in_flight(),
            final(self).head_in_progress() == old(self).head_in_progress(),
    {
        self.items.push(item);
    }

    /// The total number of jobs and the summaries of the first `limit`, in queue order.
    pub fn snapshot(&self, limit: usize) -> (r: (usize, Vec<String>))
        ensures
            snapshot_result(self@, limit as nat, r.0, r.1@),
    {
        let total = self.items.len();
        let mut lines: Vec<String> = Vec::new();
        let mut i: usize = 0;
        while i < total && i < limit
            invariant
                total == self@.len(),
                i <= total,
                i <= limit,
                lines@.len() == i,
                forall|j: int| 0 <= j < i ==> #[trigger] lines@[j]@ == snapshot_line(
                    j as nat,
                    self@[j],
                ),
            decreases total - i,
        {
            let mut line = String::new();
            push_decimal(&mut line, (i as u64) + 1);
            push_all(&mut line, ". ");
            let s = self.items[i].summary();
            push_all(&mut line, s.as_str());
            assert(line@ =~= snapshot_line(i as nat, self@[i as int]));
            lines.push(line);
            i = i + 1;
        }
        (total, lines)
    }

    /// Discards every job and returns how many there were. An attempt that is
    /// running goes on, but its job is no longer in the queue.
    pub fn clear_all(&mut self) -> (r: usize)
        requires
            old(self).wf(),
        ensures
            final(self).wf(),
            r == old(self)@.len(),
            final(self)@ == Seq::<FileQueueItem>::empty(),
            final(self).in_flight() == old(self).in_flight(),
            !final(self).head_in_progress(),
    {
        let n = self.items.len();
        self.items.clear();
        self.head_live = false;
        n
    }

    /// Starts an attempt on the head job, unless one is running or the queue is empty.
    /// The head stays in the queue while the attempt runs.
    pub fn begin_attempt(&mut self) -> (r: bool)
        requires
            old(self).wf(),
        ensures
            final(self).wf(),
            r == can_begin(*old(self)),
            final(self)@ == old(self)@,
            final(self).in_flight() == (old(self).in_flight() || r),
            r ==> final(self).head_in_progress(),
            !r ==> final(self).head_in_progress() == old(self).head_in_progress(),
    {
        if !self.busy && self.items.len() > 0 {
            self.busy = true;
            self.head_live = true;
            true
        } else {
            false
        }
    }

    /// The head job, the one that a running attempt works on.
    pub fn head(&self) -> (r: Option<&FileQueueItem>)
        ensures
            r is Some <==> self@.len() > 0,
            r matches Some(item) ==> *item == self@[0],
    {
        if self.items.len() > 0 {
            Some(&self.items[0])
        } else {
            None
        }
    }

    /// Ends the running attempt. On success its job leaves the queue; on failure
    /// it stays at the head, to be tried again on the next wake-up.
    /// Returns the number of jobs left when the job was removed.
    pub fn finish_attempt(&mut self, succeeded: bool) -> (r: Option<usize>)
        requires
            old(self).wf(),
        ensures
            final(self).wf(),
            !final(self).in_flight(),
            !final(self).head_in_progress(),
            (succeeded && old(self).head_in_progress()) ==> final(self)@ == old(self)@.drop_first()
                && r == Some((old(self)@.len() - 1) as usize),
            !(succeeded && old(self).head_in_progress()) ==> final(self)@ == old(self)@ && r
                is None,
    {
        let removed = if succeeded && self.busy && self.head_live {
            self.items.remove(0);
            Some(self.items.len())
        } else {
            None
        };
        self.busy = false;
        self.head_live = false;
        proof {
            if removed is Some {
                assert(self.items@ =~= old(self)@.drop_first());
            }
        }
        removed
    }
}

/// The first `n` snapshot lines, one per line.
pub open spec fn joined_lines(q: Seq<FileQueueItem>, n: nat) -> Seq<char>
    decreases n,
{
    if n == 0 {
        Seq::empty()
    } else if n == 1 {
        snapshot_line(0, q[0])
    } else {
        joined_lines(q, (n - 1) as nat) + "\n"@ + snapshot_line((n - 1) as nat, q[n - 1])
    }
}

pub open spec fn report_text(q: Seq<FileQueueItem>, limit: nat) -> Seq<char> {
    let n = min_nat(limit, q.len());
    "Queue size: "@ + dec(q.len()) + "\n"@ + if n == 0 {
        "(empty)"@
    } else {
        joined_lines(q, n)
    }
}

impl FileQueue {
    /// The queue as the requester reads it: its size, then up to `limit` jobs in order.
    pub fn report(&self, limit: usize) -> (r: String)
        ensures
            r@ == report_text(self@, limit as nat),
    {
        let (total, lines) = self.snapshot(limit);
        let mut r = String::new();
        push_all(&mut r, "Queue size: ");
        push_decimal(&mut r, total as u64);
        push_all(&mut r, "\n");
        let ghost head = r@;
        let n = lines.len();
        if n == 0 {
            push_all(&mut r, "(empty)");
            return r;
        }
        push_all(&mut r, lines[0].as_str());
        let mut i: usize = 1;
        while i < n
            invariant
                1 <= i <= n,
                n == lines@.len(),
                n == min_nat(limit as nat, self@.len()),
                forall|j: int| 0 <= j < n ==> #[trigger] lines@[j]@ == snapshot_line(
                    j as nat,
                    self@[j],
                ),
                r@ == head + joined_lines(self@, i as nat),
            decreases n - i,
        {
            push_all(&mut r, "\n");
            push_all(&mut r, lines[i].as_str());
            assert(r@ =~= head + joined_lines(self@, (i + 1) as nat));
            i = i + 1;
        }
        r
    }
}

/// The note shown on the next job once the head job is done.
pub fn remaining_text(remaining: usize) -> (r: String)
    ensures
        r@ == "File processed. Remaining files in queue: "@ + dec(remaining as nat),
{
    let mut r = String::new();
    push_all(&mut r, "File processed. Remaining files in queue: ");
    push_decimal(&mut r, remaining as u64);
    r
}

/// No attempt can start while one is running: `begin_attempt` starts one exactly
/// when none is in flight and a job is waiting, and once it has, it refuses every
/// further start until `finish_attempt`.
pub proof fn lemma_one_attempt_at_a_time(before: FileQueue, after: FileQueue)
    requires
        before.wf(),
        can_begin(before),
        after@ == before@,
        after.in_flight(),
    ensures
        !before.in_flight(),
        !can_begin(after),
{
}

/// After `clear_all`, a snapshot reports no jobs and no lines, whatever the limit.
pub proof fn lemma_snapshot_after_clear(
    after: FileQueue,
    limit: nat,
    total: usize,
    lines: Seq<String>,
)
    requires
        after@ == Seq::<FileQueueItem>::empty(),
        snapshot_result(after@, limit, total, lines),
    ensures
        total == 0,
        lines == Seq::<String>::empty(),
{
    assert(lines =~= Seq::<String>::empty());
}

/// Jobs are reported in arrival order: enqueueing a job leaves every earlier line
/// as it was and adds the new job's line after them.
pub proof fn lemma_enqueue_keeps_order(before: Seq<FileQueueItem>, item: FileQueueItem, i: int)
    requires
        0 <= i < before.len(),
    ensures
        snapshot_line(i as nat, before.push(item)[i]) == snapshot_line(i as nat, before[i]),
        snapshot_line(before.len(), before.push(item)[before.len() as int]) == snapshot_line(
            before.len(),
            item,
        ),
{
}

} // verus!
