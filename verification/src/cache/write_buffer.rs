//! Write buffering: data written to a file is collected in memory and sent
//! to storage in one upload, or, for large files, cut into multipart parts.
//!
//! The uploads themselves are performed by the program that does I/O. Each
//! operation here changes the buffers and says which upload is due; the
//! program performs it and reports success with the matching `finish_`
//! call.

use bytes::{Bytes, BytesMut};
use dashmap::DashMap;
use std::time::{Duration, Instant};
use vstd::prelude::*;

use crate::config::PerformanceConfig;
use crate::storage::multipart::{
    completed, parts_cut, written, MultipartConfig, MultipartUploadState, MultipartUploader, MultipartView,
};
use crate::utils::buf::{
    bytes_contents, bytes_mut_clear, bytes_mut_contents, bytes_mut_extend, bytes_mut_freeze, bytes_mut_len,
    bytes_mut_new, bytes_mut_split, bytes_mut_split_to, bytes_mut_to_vec,
};
use crate::utils::clock::{duration_from_secs, duration_nanos, exceeds, instant_elapsed, instant_now};
use crate::utils::metrics::{wrapped, Metrics};

verus! {

/// Write buffer configuration
#[derive(Debug, Clone, Copy)]
pub struct WriteBufferConfig {
    /// Buffer size per file
    pub buffer_size: usize,
    /// Auto-flush interval
    pub flush_interval: Duration,
    /// Threshold for multipart upload
    pub multipart_threshold: usize,
    /// Part size for multipart upload
    pub part_size: usize,
}

impl Default for WriteBufferConfig {
    /// 64 MiB buffers flushed every 30 seconds, multipart from 100 MiB in
    /// parts of 8 MiB.
    fn default() -> (r: Self)
        ensures
            r.buffer_size == 64 * 1024 * 1024,
            duration_nanos(r.flush_interval) == 30_000_000_000,
            r.multipart_threshold == 100 * 1024 * 1024,
            r.part_size == 8 * 1024 * 1024,
    {
        WriteBufferConfig {
            buffer_size: 64 * 1024 * 1024,
            flush_interval: duration_from_secs(30),
            multipart_threshold: 100 * 1024 * 1024,
            part_size: 8 * 1024 * 1024,
        }
    }
}

impl WriteBufferConfig {
    /// The write buffer settings of a performance configuration.
    pub fn from_performance(config: &PerformanceConfig) -> (r: Self)
        ensures
            r.buffer_size == config.write_buffer_size as usize,
            r.flush_interval == config.flush_interval,
            r.multipart_threshold == config.multipart_threshold as usize,
            r.part_size == config.multipart_part_size as usize,
    {
        WriteBufferConfig {
            buffer_size: config.write_buffer_size as usize,
            flush_interval: config.flush_interval,
            multipart_threshold: config.multipart_threshold as usize,
            part_size: config.multipart_part_size as usize,
        }
    }
}

/// Buffer for a single file
#[derive(Debug)]
pub struct FileWriteBuffer {
    /// Inode
    pub inode: u64,
    /// Object path
    pub path: String,
    /// Buffered data
    pub data: BytesMut,
    /// Whether buffer has been modified
    pub dirty: bool,
    /// Last write time
    pub last_write: Instant,
    /// File size (including unflushed data)
    pub size: u64,
    /// Original file size (before writes)
    pub original_size: u64,
    /// Multipart upload state (for large files)
    pub multipart: Option<MultipartUploadState>,
    /// Whether file is being written sequentially from start
    pub sequential_write: bool,
    /// Next expected write offset
    pub next_offset: u64,
}

/// What a file's write buffer records, apart from the time of its last
/// write.
pub struct FileBufferView {
    pub inode: u64,
    pub path: Seq<char>,
    pub data: Seq<u8>,
    pub dirty: bool,
    pub size: u64,
    pub original_size: u64,
    pub multipart: Option<MultipartView>,
    pub sequential_write: bool,
    pub next_offset: u64,
}

impl View for FileWriteBuffer {
    type V = FileBufferView;

    open spec fn view(&self) -> FileBufferView {
        FileBufferView {
            inode: self.inode,
            path: self.path@,
            data: bytes_mut_contents(self.data),
            dirty: self.dirty,
            size: self.size,
            original_size: self.original_size,
            multipart: match self.multipart {
                Some(m) => Some(m@),
                None => None,
            },
            sequential_write: self.sequential_write,
            next_offset: self.next_offset,
        }
    }
}

/// The buffer of a file not written to yet.
pub open spec fn fresh_buffer(inode: u64, path: Seq<char>, original_size: u64) -> FileBufferView {
    FileBufferView {
        inode,
        path,
        data: Seq::empty(),
        dirty: false,
        size: original_size,
        original_size,
        multipart: None,
        sequential_write: true,
        next_offset: 0,
    }
}

/// A multipart upload just started for `path`.
pub open spec fn fresh_upload(path: Seq<char>) -> MultipartView {
    MultipartView {
        path,
        parts: Seq::empty(),
        current_part: 1,
        buffer: Seq::empty(),
        total_bytes: 0,
        initiated: false,
    }
}

/// What a write asks of the caller.
#[derive(Debug, Clone, Copy, PartialEq, Eq, Structural)]
pub enum WriteStep {
    /// The write does not go through the buffer: flush the buffer, then
    /// upload the written data as the whole object.
    Direct,
    /// The data was buffered; when `flush_now`, the buffer is due for
    /// upload.
    Buffered { flush_now: bool },
}

/// The larger of two sizes.
pub open spec fn larger(a: u64, b: int) -> u64 {
    if a >= b {
        a
    } else {
        b as u64
    }
}

/// The file offset at which the buffered data starts: past the bytes
/// already handed to the multipart upload, if one is under way.
pub open spec fn buffer_base(b: FileBufferView) -> int {
    match b.multipart {
        Some(m) => m.total_bytes as int,
        None => 0,
    }
}

/// `s` with `d` written at position `at`: what lies before stays, a gap
/// past the end of `s` reads as zeros, `d` replaces the bytes it covers,
/// and what lies beyond it stays.
pub open spec fn splice(s: Seq<u8>, at: int, d: Seq<u8>) -> Seq<u8> {
    let keep = if at <= s.len() {
        at
    } else {
        s.len() as int
    };
    let resume = if at + d.len() < s.len() {
        at + d.len()
    } else {
        s.len() as int
    };
    s.subrange(0, keep) + Seq::new((at - keep) as nat, |i: int| 0u8) + d + s.subrange(resume, s.len() as int)
}

/// Whether a write of `d` at `offset` goes straight to storage: it does not
/// continue where the last one ended, and either the file had data before
/// or the write reaches back into bytes already handed to the multipart
/// upload.
pub open spec fn goes_direct(b: FileBufferView, offset: u64) -> bool {
    let sequential = b.sequential_write && offset == b.next_offset;
    !sequential && (b.original_size > 0 || offset < buffer_base(b))
}

/// The buffered data after a write of `d` at `offset` that stays in the
/// buffer: a write continuing the last one is appended; any other write
/// is placed at its offset, overwriting what it covers.
pub open spec fn written_data(b: FileBufferView, offset: u64, d: Seq<u8>) -> Seq<u8> {
    let sequential = b.sequential_write && offset == b.next_offset;
    if sequential || goes_direct(b, offset) {
        b.data + d
    } else {
        splice(b.data, offset - buffer_base(b), d)
    }
}

/// What writing `d` at `offset` does to buffer `b`. A write that does not
/// continue where the last one ended goes straight to storage when the
/// file had data before, or when it reaches back into bytes already handed
/// to the multipart upload; otherwise it is placed in the buffer at its
/// offset. A write that continues the last one is appended. Once the buffer
/// reaches the multipart threshold a multipart upload starts, and while one
/// is under way every full part at the front of the buffer goes to it. A
/// buffer of `buffer_size` bytes or more without multipart upload is due
/// for upload.
pub open spec fn write_plan(b: FileBufferView, offset: u64, d: Seq<u8>, c: WriteBufferConfig) -> (
    FileBufferView,
    WriteStep,
) {
    let sequential = b.sequential_write && offset == b.next_offset;
    let end = offset + d.len();
    let b1 = FileBufferView { sequential_write: sequential, next_offset: end as u64, ..b };
    if goes_direct(b, offset) {
        (b1, WriteStep::Direct)
    } else {
        let all = written_data(b, offset, d);
        let upload = if all.len() >= c.multipart_threshold && b.multipart is None {
            Some(fresh_upload(b.path))
        } else {
            b.multipart
        };
        let ps = c.part_size as int;
        let (data, multipart) = match upload {
            Some(m) => {
                let k = all.len() as int / ps;
                (all.subrange(k * ps, all.len() as int), Some(written(m, all.subrange(0, k * ps), ps)))
            },
            None => (all, None),
        };
        let b2 = FileBufferView {
            data,
            dirty: true,
            size: larger(b.size, end),
            multipart,
            ..b1
        };
        (b2, WriteStep::Buffered { flush_now: data.len() >= c.buffer_size && multipart is None })
    }
}

/// The bytes a buffer holds for its file: those still buffered, and those
/// handed to its multipart upload.
pub open spec fn held_bytes(b: FileBufferView) -> int {
    b.data.len() + match b.multipart {
        Some(m) => m.total_bytes as int,
        None => 0int,
    }
}

/// A write that continues the last one loses no byte and counts none twice:
/// the bytes the buffer holds for its file, in the buffer or handed to its
/// multipart upload, grow by exactly the bytes written.
pub proof fn lemma_buffered_write_keeps_every_byte(
    b: FileBufferView,
    offset: u64,
    d: Seq<u8>,
    c: WriteBufferConfig,
)
    requires
        write_fits(b, offset, d, c),
        b.sequential_write && offset == b.next_offset,
    ensures
        held_bytes(write_plan(b, offset, d, c).0) == held_bytes(b) + d.len(),
{
    let all = b.data + d;
    let upload = if all.len() >= c.multipart_threshold && b.multipart is None {
        Some(fresh_upload(b.path))
    } else {
        b.multipart
    };
    let ps = c.part_size as int;
    match upload {
        Some(m) => {
            let n = all.len() as int;
            let k = n / ps;
            assert(0 <= k * ps <= n) by (nonlinear_arith)
                requires
                    ps > 0,
                    n >= 0,
                    k == n / ps,
            ;
            let w = written(m, all.subrange(0, k * ps), ps);
            assert(w.total_bytes == m.total_bytes + k * ps);
            assert(all.subrange(k * ps, n).len() == n - k * ps);
        },
        None => {},
    }
}

/// A write placed in the buffer at its offset overwrites exactly the bytes
/// it covers: they read as the written bytes, bytes before and after it
/// read as before, and a gap before it reads as zeros.
pub proof fn lemma_in_place_write_overwrites(b: FileBufferView, offset: u64, d: Seq<u8>)
    requires
        !(b.sequential_write && offset == b.next_offset),
        !goes_direct(b, offset),
    ensures
        ({
            let w = written_data(b, offset, d);
            let at = offset - buffer_base(b);
            &&& w.len() == if at + d.len() > b.data.len() {
                at + d.len()
            } else {
                b.data.len() as int
            }
            &&& w.subrange(at, at + d.len()) == d
            &&& forall|i: int| 0 <= i < at && i < b.data.len() ==> w[i] == b.data[i]
            &&& forall|i: int| b.data.len() <= i < at ==> w[i] == 0u8
            &&& forall|i: int| at + d.len() <= i < b.data.len() ==> w[i] == b.data[i]
        }),
{
    let at = offset - buffer_base(b);
    let w = written_data(b, offset, d);
    assert(w.subrange(at, at + d.len()) =~= d);
}

/// Writing `d` at `offset` to `b` stays within the machine's limits: the
/// end offset, the buffer size, and, for a multipart upload, a positive
/// part size and the part numbers and byte count of the upload.
pub open spec fn write_fits(b: FileBufferView, offset: u64, d: Seq<u8>, c: WriteBufferConfig) -> bool {
    let all = written_data(b, offset, d);
    let upload = if all.len() >= c.multipart_threshold && b.multipart is None {
        Some(fresh_upload(b.path))
    } else {
        b.multipart
    };
    let ps = c.part_size as int;
    &&& offset + d.len() <= u64::MAX
    &&& all.len() <= isize::MAX
    &&& match upload {
        Some(m) => {
            let k = all.len() as int / ps;
            &&& ps > 0
            &&& m.total_bytes + k * ps <= u64::MAX
            &&& m.current_part + (m.buffer.len() + k * ps) / ps < u32::MAX
        },
        None => true,
    }
}

/// What flushing buffer `b` does when a multipart upload is under way: the
/// buffered data goes to the upload, which completes, and the upload is
/// done with.
pub open spec fn flushed_view(b: FileBufferView) -> FileBufferView {
    FileBufferView { data: Seq::empty(), dirty: false, original_size: b.size, multipart: None, ..b }
}

/// Flushing `b` through its multipart upload stays within the machine's
/// limits.
pub open spec fn flush_fits(b: FileBufferView, part_size: int) -> bool {
    match b.multipart {
        Some(m) => {
            let w = written(m, b.data, part_size);
            &&& part_size > 0
            &&& m.total_bytes + b.data.len() <= u64::MAX
            &&& m.current_part + (m.buffer.len() + b.data.len()) as int / part_size < u32::MAX
            &&& w.buffer.len() > 0 ==> w.current_part < u32::MAX
        },
        None => true,
    }
}

/// The number of parts a flush through a multipart upload records.
pub open spec fn flush_parts(m: MultipartView, data: Seq<u8>, part_size: int) -> int {
    let w = written(m, data, part_size);
    parts_cut(m, data, part_size) + if w.buffer.len() > 0 {
        1int
    } else {
        0int
    }
}

proof fn lemma_wrapped_add(a: u64, k: nat, c: nat)
    requires
        k + c < 0x1_0000_0000_0000_0000,
    ensures
        wrapped(wrapped(a, k as u64), c as u64) == wrapped(a, (k + c) as u64),
{
    let m: int = 0x1_0000_0000_0000_0000;
    vstd::arithmetic::div_mod::lemma_add_mod_noop(a as int + k as int, c as int, m);
    vstd::arithmetic::div_mod::lemma_small_mod(c, m as nat);
    vstd::arithmetic::div_mod::lemma_mod_twice(a as int + k as int, m);
}

/// `cur` with `d` written at position `at` (see `splice`).
fn spliced(cur: &Vec<u8>, at: usize, d: &[u8]) -> (r: Vec<u8>)
    requires
        at + d@.len() <= usize::MAX,
    ensures
        r@ == splice(cur@, at as int, d@),
{
    let n = cur.len();
    let keep = if at <= n {
        at
    } else {
        n
    };
    let resume = if at + d.len() < n {
        at + d.len()
    } else {
        n
    };
    let mut r: Vec<u8> = Vec::new();
    let mut i: usize = 0;
    while i < keep
        invariant
            keep <= n == cur@.len(),
            i <= keep,
            r@ == cur@.subrange(0, i as int),
        decreases keep - i,
    {
        r.push(cur[i]);
        i = i + 1;
        proof {
            assert(r@ =~= cur@.subrange(0, i as int));
        }
    }
    let ghost zeros_start = r@;
    while i < at
        invariant
            keep <= i <= at,
            zeros_start == cur@.subrange(0, keep as int),
            r@ == zeros_start + Seq::new((i - keep) as nat, |j: int| 0u8),
        decreases at - i,
    {
        r.push(0u8);
        i = i + 1;
        proof {
            assert(r@ =~= zeros_start + Seq::new((i - keep) as nat, |j: int| 0u8));
        }
    }
    let ghost data_start = r@;
    let mut j: usize = 0;
    while j < d.len()
        invariant
            j <= d@.len(),
            r@ == data_start + d@.subrange(0, j as int),
        decreases d@.len() - j,
    {
        r.push(d[j]);
        j = j + 1;
        proof {
            assert(r@ =~= data_start + d@.subrange(0, j as int));
        }
    }
    let ghost tail_start = r@;
    let mut k = resume;
    while k < n
        invariant
            resume <= k <= n == cur@.len(),
            r@ == tail_start + cur@.subrange(resume as int, k as int),
        decreases n - k,
    {
        r.push(cur[k]);
        k = k + 1;
        proof {
            assert(r@ =~= tail_start + cur@.subrange(resume as int, k as int));
        }
    }
    proof {
        assert(d@.subrange(0, d@.len() as int) =~= d@);
        assert(r@ =~= splice(cur@, at as int, d@));
    }
    r
}

impl FileWriteBuffer {
    /// Create a new file write buffer
    pub fn new(inode: u64, path: String, original_size: u64) -> (r: Self)
        ensures
            r@ == fresh_buffer(inode, path@, original_size),
    {
        let r = FileWriteBuffer {
            inode,
            path,
            data: bytes_mut_new(),
            dirty: false,
            last_write: instant_now(),
            size: original_size,
            original_size,
            multipart: None,
            sequential_write: true,
            next_offset: 0,
        };
        assert(r@ =~= fresh_buffer(inode, path@, original_size));
        r
    }

    /// Check if buffer needs flush based on size
    pub fn needs_flush(&self, threshold: usize) -> (r: bool)
        ensures
            r == (self@.data.len() >= threshold),
    {
        bytes_mut_len(&self.data) >= threshold
    }

    /// How long ago the buffer was last written. The length depends on the
    /// clock and is not stated.
    pub fn write_age(&self) -> Duration {
        instant_elapsed(&self.last_write)
    }

    /// Whether the buffer, last written `age` ago, needs a flush based on
    /// time: it is dirty and `age` is longer than `interval`.
    pub fn needs_time_flush_after(&self, interval: Duration, age: Duration) -> (r: bool)
        ensures
            r == (self.dirty && duration_nanos(age) > duration_nanos(interval)),
    {
        self.dirty && exceeds(age, interval)
    }

    /// Check if buffer needs flush based on time: it is dirty and was last
    /// written more than `interval` ago (see `needs_time_flush_after`, which
    /// is handed the time since the last write).
    pub fn needs_time_flush(&self, interval: Duration) -> (r: bool)
        ensures
            r ==> self.dirty,
    {
        self.needs_time_flush_after(interval, self.write_age())
    }

    /// Get current buffer size
    pub fn buffer_size(&self) -> (r: usize)
        ensures
            r == self@.data.len(),
    {
        bytes_mut_len(&self.data)
    }

    /// Whether writing `len` bytes of `data` at `offset` stays within the
    /// machine's limits (see `write_fits`).
    pub fn write_fits_exec(&self, offset: u64, data: &[u8], config: &WriteBufferConfig) -> (r: bool)
        ensures
            r == write_fits(self@, offset, data@, *config),
    {
        let len = bytes_mut_len(&self.data);
        if offset > u64::MAX - data.len() as u64 {
            return false;
        }
        if len > isize::MAX as usize {
            return false;
        }
        let sequential = self.sequential_write && offset == self.next_offset;
        let base: u64 = match &self.multipart {
            Some(m) => m.total_bytes,
            None => 0,
        };
        let in_place = !sequential && self.original_size == 0 && offset >= base;
        let total: usize = if in_place {
            let at = offset - base;
            if at > isize::MAX as u64 || data.len() > isize::MAX as usize - at as usize {
                return false;
            }
            let end = at as usize + data.len();
            proof {
                assert(written_data(self@, offset, data@).len() == if end > len {
                    end as int
                } else {
                    len as int
                });
            }
            if end > len {
                end
            } else {
                len
            }
        } else {
            if data.len() > isize::MAX as usize - len {
                return false;
            }
            len + data.len()
        };
        let starts = total >= config.multipart_threshold && self.multipart.is_none();
        let ps = config.part_size;
        if !starts && self.multipart.is_none() {
            return true;
        }
        if ps == 0 {
            return false;
        }
        proof {
            assert((total / ps) * ps <= total) by (nonlinear_arith)
                requires
                    ps > 0,
            ;
        }
        let k_bytes = (total / ps) * ps;
        let (total_bytes, current_part, pending) = match &self.multipart {
            Some(m) => (m.total_bytes, m.current_part, m.buffer.len()),
            None => (0u64, 1u32, 0usize),
        };
        if total_bytes > u64::MAX - k_bytes as u64 {
            return false;
        }
        let parts = (pending as u128 + k_bytes as u128) / (ps as u128);
        parts < (u32::MAX - current_part) as u128
    }

    /// Whether flushing this buffer through its multipart upload stays
    /// within the machine's limits (see `flush_fits`).
    pub fn flush_fits_exec(&self, part_size: usize) -> (r: bool)
        ensures
            r == flush_fits(self@, part_size as int),
    {
        match &self.multipart {
            None => true,
            Some(m) => {
                if part_size == 0 {
                    return false;
                }
                let dl = bytes_mut_len(&self.data);
                let bl = m.buffer.len();
                if m.total_bytes as u128 + dl as u128 > u64::MAX as u128 {
                    return false;
                }
                let all = bl as u128 + dl as u128;
                let k = all / (part_size as u128);
                proof {
                    assert(all == m@.buffer.len() + bytes_mut_contents(self.data).len());
                    assert(k == (m@.buffer.len() + bytes_mut_contents(self.data).len()) as int / (part_size as int));
                }
                m.current_part as u128 + k < u32::MAX as u128
            },
        }
    }

    /// Apply a write of `data` at `offset` (see `write_plan`).
    pub fn begin_write(
        &mut self,
        offset: u64,
        data: &[u8],
        config: &WriteBufferConfig,
        uploader: &MultipartUploader,
        metrics: &mut Metrics,
    ) -> (r: WriteStep)
        requires
            write_fits(old(self)@, offset, data@, *config),
            uploader.config().part_size == config.part_size,
        ensures
            (final(self)@, r) == write_plan(old(self)@, offset, data@, *config),
            final(self).multipart is Some ==> (*final(metrics)).same_except(&*old(metrics), 13),
            final(self).multipart is None ==> *final(metrics) == *old(metrics),
    {
        let sequential = self.sequential_write && offset == self.next_offset;
        if offset != self.next_offset {
            self.sequential_write = false;
        }
        self.next_offset = offset + data.len() as u64;
        if sequential {
            bytes_mut_extend(&mut self.data, data);
        } else {
            let base: u64 = match &self.multipart {
                Some(m) => m.total_bytes,
                None => 0,
            };
            if self.original_size > 0 || offset < base {
                return WriteStep::Direct;
            }
            let cur = bytes_mut_to_vec(&self.data);
            let v = spliced(&cur, (offset - base) as usize, data);
            bytes_mut_clear(&mut self.data);
            bytes_mut_extend(&mut self.data, v.as_slice());
        }
        self.dirty = true;
        self.last_write = instant_now();
        let end = offset + data.len() as u64;
        if end > self.size {
            self.size = end;
        }
        if bytes_mut_len(&self.data) >= config.multipart_threshold && self.multipart.is_none() {
            self.multipart = Some(MultipartUploadState::new(self.path.clone()));
        }
        let ghost all = bytes_mut_contents(self.data);
        match self.multipart.take() {
            Some(mut m) => {
                let ps = config.part_size;
                let total = bytes_mut_len(&self.data);
                proof {
                    assert((total / ps) * ps <= total) by (nonlinear_arith)
                        requires
                            ps > 0,
                    ;
                }
                let k_bytes = (total / ps) * ps;
                let head = bytes_mut_split_to(&mut self.data, k_bytes);
                let part_data = bytes_mut_to_vec(&head);
                proof {
                    assert((m.buffer@.len() + part_data@.len()) as int / (ps as int) == (m.buffer@.len() + k_bytes) as int
                        / (ps as int));
                }
                let _ = uploader.write(&mut m, &part_data, metrics);
                self.multipart = Some(m);
            },
            None => {},
        }
        let flush_now = self.needs_flush(config.buffer_size) && self.multipart.is_none();
        proof {
            assert(self@ =~= write_plan(old(self)@, offset, data@, *config).0);
        }
        WriteStep::Buffered { flush_now }
    }

    /// Take what a flush must upload. Nothing is due for a clean or empty
    /// buffer. With a multipart upload under way, the buffered data goes to
    /// it, the upload completes and the buffer counts as flushed. Otherwise
    /// the buffered data is handed out for one upload, and `mark_flushed`
    /// is called once it succeeded.
    pub fn take_flush(&mut self, uploader: &MultipartUploader, metrics: &mut Metrics) -> (r: Option<Bytes>)
        requires
            flush_fits(old(self)@, uploader.config().part_size as int),
        ensures
            !old(self).dirty || old(self)@.data.len() == 0 ==> {
                &&& r is None
                &&& final(self)@ == old(self)@
                &&& *final(metrics) == *old(metrics)
            },
            old(self).dirty && old(self)@.data.len() > 0 && old(self)@.multipart is Some ==> {
                &&& r is None
                &&& final(self)@ == flushed_view(old(self)@)
                &&& (*final(metrics)).same_except_pair(&*old(metrics), 6, 13)
                &&& final(metrics).write_buffer_flushes == wrapped(old(metrics).write_buffer_flushes, 1)
                &&& final(metrics).obs_put_ops == wrapped(
                    old(metrics).obs_put_ops,
                    flush_parts(
                        old(self)@.multipart->0,
                        old(self)@.data,
                        uploader.config().part_size as int,
                    ) as u64,
                )
            },
            old(self).dirty && old(self)@.data.len() > 0 && old(self)@.multipart is None ==> {
                &&& r is Some
                &&& bytes_contents(r->0) == old(self)@.data
                &&& final(self)@ == FileBufferView { data: Seq::empty(), ..old(self)@ }
                &&& *final(metrics) == *old(metrics)
            },
    {
        if !self.dirty || bytes_mut_len(&self.data) == 0 {
            return None;
        }
        match self.multipart.take() {
            Some(mut m) => {
                let chunk = bytes_mut_split(&mut self.data);
                let remaining = bytes_mut_to_vec(&chunk);
                let ghost m0 = m@;
                let ghost put0 = metrics.obs_put_ops;
                let _ = uploader.write(&mut m, &remaining, metrics);
                let ghost put1 = metrics.obs_put_ops;
                let _ = uploader.complete(&mut m, metrics);
                proof {
                    let k = parts_cut(m0, remaining@, uploader.config().part_size as int);
                    let c: int = if written(m0, remaining@, uploader.config().part_size as int).buffer.len() > 0 {
                        1
                    } else {
                        0
                    };
                    assert(0 <= k < 0x1_0000_0000);
                    lemma_wrapped_add(put0, k as nat, c as nat);
                }
                self.dirty = false;
                self.original_size = self.size;
                metrics.inc_write_buffer_flush();
                proof {
                    assert(self@ =~= flushed_view(old(self)@));
                }
                None
            },
            None => {
                let chunk = bytes_mut_split(&mut self.data);
                let data = bytes_mut_freeze(chunk);
                proof {
                    assert(self@ =~= FileBufferView { data: Seq::empty(), ..old(self)@ });
                }
                Some(data)
            },
        }
    }

    /// Record that the buffer's upload succeeded: it is clean, and its size
    /// is now what storage holds.
    pub fn mark_flushed(&mut self, metrics: &mut Metrics)
        ensures
            final(self)@ == (FileBufferView { dirty: false, original_size: old(self).size, ..old(self)@ }),
            (*final(metrics)).same_except(&*old(metrics), 6),
            final(metrics).write_buffer_flushes == wrapped(old(metrics).write_buffer_flushes, 1),
    {
        self.dirty = false;
        self.original_size = self.size;
        metrics.inc_write_buffer_flush();
    }

    /// Record that bytes up to `end` were written straight to storage.
    pub fn grow(&mut self, end: u64)
        ensures
            final(self)@ == (FileBufferView { size: larger(old(self).size, end as int), ..old(self)@ }),
    {
        if end > self.size {
            self.size = end;
        }
    }

    /// Truncate to `size`: any multipart upload is aborted, buffered data
    /// dropped, and the buffer is dirty. Returns whether the file became
    /// empty, in which case an empty object must be uploaded and
    /// `mark_clean` called once it was.
    pub fn truncate_to(&mut self, uploader: &MultipartUploader, size: u64) -> (r: bool)
        ensures
            r == (size == 0),
            final(self)@ == (FileBufferView {
                data: Seq::empty(),
                size,
                dirty: true,
                multipart: None,
                ..old(self)@
            }),
    {
        match self.multipart.take() {
            Some(mut m) => {
                let _ = uploader.abort(&mut m);
            },
            None => {},
        }
        bytes_mut_clear(&mut self.data);
        self.size = size;
        self.dirty = true;
        proof {
            assert(self@ =~= (FileBufferView {
                data: Seq::empty(),
                size,
                dirty: true,
                multipart: None,
                ..old(self)@
            }));
        }
        size == 0
    }

    /// Record that an upload left storage matching the buffer.
    pub fn mark_clean(&mut self)
        ensures
            final(self)@ == (FileBufferView { dirty: false, ..old(self)@ }),
    {
        self.dirty = false;
    }
}

/// An upload that a flush asks for: `data` becomes the whole object at
/// `path`.
pub struct PendingUpload {
    pub path: String,
    pub data: Bytes,
}

/// Write buffer statistics
#[derive(Debug, Clone, Copy)]
pub struct WriteBufferStats {
    pub buffer_count: usize,
    pub total_size: usize,
    pub dirty_count: usize,
}

/// Bytes buffered by the files `ks`, counted in order, stopping at the
/// largest `usize`.
pub open spec fn buffered_bytes(ks: Seq<u64>, m: Map<u64, FileBufferView>) -> nat
    decreases ks.len(),
{
    if ks.len() == 0 {
        0
    } else {
        let t = buffered_bytes(ks.drop_last(), m) + m[ks.last()].data.len();
        if t <= usize::MAX {
            t
        } else {
            usize::MAX as nat
        }
    }
}

/// How many of the files `ks` have dirty buffers.
pub open spec fn dirty_files(ks: Seq<u64>, m: Map<u64, FileBufferView>) -> nat
    decreases ks.len(),
{
    if ks.len() == 0 {
        0
    } else {
        dirty_files(ks.drop_last(), m) + if m[ks.last()].dirty {
            1nat
        } else {
            0nat
        }
    }
}

/// The write buffers, by inode.
pub type BufferTable = DashMap<u64, FileWriteBuffer>;

/// The entries of a buffer table: each inode with what its buffer holds.
pub uninterp spec fn buffer_table(m: BufferTable) -> Map<u64, FileBufferView>;

/// `DashMap::new`: an empty table.
#[verifier::external_body]
fn buffer_table_new() -> (r: BufferTable)
    ensures
        buffer_table(r).is_empty(),
{
    DashMap::new()
}

/// `DashMap::contains_key`: whether the table holds a buffer for `k`.
#[verifier::external_body]
fn buffer_table_has(m: &BufferTable, k: u64) -> (r: bool)
    ensures
        r == buffer_table(*m).contains_key(k),
{
    m.contains_key(&k)
}

/// `DashMap::insert`: the table afterwards holds `v` for `k`, all else as
/// before.
#[verifier::external_body]
fn buffer_table_insert(m: &mut BufferTable, k: u64, v: FileWriteBuffer)
    ensures
        buffer_table(*final(m)) == buffer_table(*old(m)).insert(k, v@),
{
    m.insert(k, v);
}

/// `DashMap::remove`, with the key dropped from the pair it returns: the
/// table loses `k`, and the buffer it held for `k` is returned.
#[verifier::external_body]
fn buffer_table_remove(m: &mut BufferTable, k: u64) -> (r: Option<FileWriteBuffer>)
    ensures
        buffer_table(*final(m)) == buffer_table(*old(m)).remove(k),
        match r {
            Some(b) => buffer_table(*old(m)).contains_key(k) && b@ == buffer_table(*old(m))[k],
            None => !buffer_table(*old(m)).contains_key(k),
        },
{
    match m.remove(&k) {
        Some(kv) => Some(kv.1),
        None => None,
    }
}

/// `DashMap::iter`, keeping the keys: every key of the table, each once (in
/// an order that the table's shards decide).
#[verifier::external_body]
fn buffer_table_keys(m: &BufferTable) -> (r: Vec<u64>)
    ensures
        r@.no_duplicates(),
        r@.to_set() == buffer_table(*m).dom(),
{
    m.iter().map(|e| *e.key()).collect()
}

/// `DashMap::len`: how many buffers the table holds.
#[verifier::external_body]
fn buffer_table_len(m: &BufferTable) -> (r: usize)
    ensures
        r == buffer_table(*m).len(),
{
    m.len()
}

/// `DashMap::get`, reading the dirty flag of the buffer held for `k`, if
/// any.
#[verifier::external_body]
fn buffer_table_dirty(m: &BufferTable, k: u64) -> (r: Option<bool>)
    ensures
        match r {
            Some(d) => buffer_table(*m).contains_key(k) && d == buffer_table(*m)[k].dirty,
            None => !buffer_table(*m).contains_key(k),
        },
{
    match m.get(&k) {
        Some(e) => Some(e.value().dirty),
        None => None,
    }
}

/// `DashMap::get`, reading how many bytes the buffer held for `k`, if any,
/// holds (by `FileWriteBuffer::buffer_size`).
#[verifier::external_body]
fn buffer_table_size(m: &BufferTable, k: u64) -> (r: Option<usize>)
    ensures
        match r {
            Some(n) => buffer_table(*m).contains_key(k) && n == buffer_table(*m)[k].data.len(),
            None => !buffer_table(*m).contains_key(k),
        },
{
    match m.get(&k) {
        Some(e) => Some(e.value().buffer_size()),
        None => None,
    }
}

/// `DashMap::get`, reading how long ago the buffer held for `k`, if any,
/// was last written (by `FileWriteBuffer::write_age`). The length depends
/// on the clock and is not stated.
#[verifier::external_body]
fn buffer_table_write_age(m: &BufferTable, k: u64) -> (r: Option<Duration>)
    ensures
        r is Some <==> buffer_table(*m).contains_key(k),
{
    match m.get(&k) {
        Some(e) => Some(e.value().write_age()),
        None => None,
    }
}

/// `DashMap::get`, deciding by `FileWriteBuffer::write_fits_exec` whether a
/// write of `data` at `offset` to the buffer held for `k`, if any, stays
/// within the machine's limits.
#[verifier::external_body]
fn buffer_table_write_fits(m: &BufferTable, k: u64, offset: u64, data: &[u8], config: &WriteBufferConfig) -> (r:
    Option<bool>)
    ensures
        match r {
            Some(f) => buffer_table(*m).contains_key(k) && f == write_fits(buffer_table(*m)[k], offset, data@, *config),
            None => !buffer_table(*m).contains_key(k),
        },
{
    match m.get(&k) {
        Some(e) => Some(e.value().write_fits_exec(offset, data, config)),
        None => None,
    }
}

/// `DashMap::get`, deciding by `FileWriteBuffer::flush_fits_exec` whether
/// flushing the buffer held for `k`, if any, stays within the machine's
/// limits.
#[verifier::external_body]
fn buffer_table_flush_fits(m: &BufferTable, k: u64, part_size: usize) -> (r: Option<bool>)
    ensures
        match r {
            Some(f) => buffer_table(*m).contains_key(k) && f == flush_fits(buffer_table(*m)[k], part_size as int),
            None => !buffer_table(*m).contains_key(k),
        },
{
    match m.get(&k) {
        Some(e) => Some(e.value().flush_fits_exec(part_size)),
        None => None,
    }
}

/// Write buffer manager
pub struct WriteBuffer {
    /// Per-file buffers
    buffers: BufferTable,
    /// Multipart uploader
    multipart: MultipartUploader,
    /// Configuration
    config: WriteBufferConfig,
}

impl WriteBuffer {
    /// The buffers, by inode.
    pub closed spec fn buffers(&self) -> Map<u64, FileBufferView> {
        buffer_table(self.buffers)
    }

    /// The configuration.
    pub closed spec fn config(&self) -> WriteBufferConfig {
        self.config
    }

    /// The buffer of `inode`, or a fresh one for `path` of `size` bytes.
    pub open spec fn buffer_or_fresh(&self, inode: u64, path: Seq<char>, size: u64) -> FileBufferView {
        if self.buffers().contains_key(inode) {
            self.buffers()[inode]
        } else {
            fresh_buffer(inode, path, size)
        }
    }

    /// Parts are cut at the configured part size.
    pub closed spec fn wf(&self) -> bool {
        self.multipart.config().part_size == self.config.part_size
    }

    /// Create a new write buffer manager
    pub fn new(config: WriteBufferConfig) -> (r: Self)
        ensures
            r.wf(),
            r.config() == config,
            r.buffers() == Map::<u64, FileBufferView>::empty(),
    {
        let multipart_config = MultipartConfig { part_size: config.part_size, concurrency: 5, max_parts: 10000 };
        let r = WriteBuffer {
            buffers: buffer_table_new(),
            multipart: MultipartUploader::new(multipart_config),
            config,
        };
        assert(r.buffers() =~= Map::<u64, FileBufferView>::empty());
        r
    }

    /// Get or create buffer for a file
    pub fn get_or_create(&mut self, inode: u64, path: &str, size: u64)
        requires
            old(self).wf(),
        ensures
            final(self).wf(),
            final(self).config() == old(self).config(),
            final(self).buffers() == old(self).buffers().insert(inode, old(self).buffer_or_fresh(inode, path@, size)),
    {
        if !buffer_table_has(&self.buffers, inode) {
            let b = FileWriteBuffer::new(inode, path.to_owned(), size);
            buffer_table_insert(&mut self.buffers, inode, b);
        }
        assert(self.buffers() =~= old(self).buffers().insert(inode, old(self).buffer_or_fresh(inode, path@, size)));
    }

    /// Whether a write of `data` at `offset` stays within the machine's
    /// limits (see `write_fits`).
    pub fn write_fits(&self, inode: u64, path: &str, offset: u64, data: &[u8], file_size: u64) -> (r: bool)
        ensures
            r == write_fits(self.buffer_or_fresh(inode, path@, file_size), offset, data@, self.config()),
    {
        match buffer_table_write_fits(&self.buffers, inode, offset, data, &self.config) {
            Some(f) => f,
            None => {
                let b = FileWriteBuffer::new(inode, path.to_owned(), file_size);
                b.write_fits_exec(offset, data, &self.config)
            },
        }
    }

    /// Write data to the buffer of `inode`, created for `path` with size
    /// `file_size` if there is none (see `write_plan`).
    pub fn begin_write(
        &mut self,
        inode: u64,
        path: &str,
        offset: u64,
        data: &[u8],
        file_size: u64,
        metrics: &mut Metrics,
    ) -> (r: WriteStep)
        requires
            old(self).wf(),
            write_fits(old(self).buffer_or_fresh(inode, path@, file_size), offset, data@, old(self).config()),
        ensures
            final(self).wf(),
            final(self).config() == old(self).config(),
            ({
                let (b, step) = write_plan(
                    old(self).buffer_or_fresh(inode, path@, file_size),
                    offset,
                    data@,
                    old(self).config(),
                );
                &&& final(self).buffers() == old(self).buffers().insert(inode, b)
                &&& r == step
            }),
    {
        let mut b = match buffer_table_remove(&mut self.buffers, inode) {
            Some(b) => b,
            None => FileWriteBuffer::new(inode, path.to_owned(), file_size),
        };
        let r = b.begin_write(offset, data, &self.config, &self.multipart, metrics);
        buffer_table_insert(&mut self.buffers, inode, b);
        proof {
            let (nb, _) = write_plan(old(self).buffer_or_fresh(inode, path@, file_size), offset, data@, old(self).config());
            assert(self.buffers() =~= old(self).buffers().insert(inode, nb));
        }
        r
    }

    /// Whether flushing the buffer of `inode` stays within the machine's
    /// limits (see `flush_fits`).
    pub open spec fn flush_fits_at(&self, inode: u64) -> bool {
        self.buffers().contains_key(inode) ==> flush_fits(self.buffers()[inode], self.config().part_size as int)
    }

    /// Whether flushing the buffer of `inode` stays within the machine's
    /// limits (see `flush_fits`).
    pub fn flush_fits(&self, inode: u64) -> (r: bool)
        ensures
            r == self.flush_fits_at(inode),
    {
        match buffer_table_flush_fits(&self.buffers, inode, self.config.part_size) {
            Some(f) => f,
            None => true,
        }
    }

    /// Take what flushing the buffer of `inode` must upload (see
    /// `FileWriteBuffer::take_flush`); nothing when there is no buffer.
    pub fn take_flush(&mut self, inode: u64, metrics: &mut Metrics) -> (r: Option<PendingUpload>)
        requires
            old(self).wf(),
            old(self).flush_fits_at(inode),
        ensures
            final(self).wf(),
            final(self).config() == old(self).config(),
            final(self).buffers().dom() == old(self).buffers().dom(),
            forall|i: u64| i != inode && #[trigger] old(self).buffers().contains_key(i) ==> final(self).buffers()[i]
                == old(self).buffers()[i],
            !old(self).buffers().contains_key(inode) ==> r is None && *final(metrics) == *old(metrics),
            old(self).buffers().contains_key(inode) ==> {
                let b = old(self).buffers()[inode];
                let n = final(self).buffers()[inode];
                &&& !b.dirty || b.data.len() == 0 ==> r is None && n == b && *final(metrics) == *old(metrics)
                &&& b.dirty && b.data.len() > 0 && b.multipart is Some ==> {
                    &&& r is None
                    &&& n == flushed_view(b)
                    &&& (*final(metrics)).same_except_pair(&*old(metrics), 6, 13)
                    &&& final(metrics).write_buffer_flushes == wrapped(old(metrics).write_buffer_flushes, 1)
                    &&& final(metrics).obs_put_ops == wrapped(
                        old(metrics).obs_put_ops,
                        flush_parts(b.multipart->0, b.data, old(self).config().part_size as int) as u64,
                    )
                }
                &&& b.dirty && b.data.len() > 0 && b.multipart is None ==> {
                    &&& r is Some
                    &&& r->0.path@ == b.path
                    &&& bytes_contents(r->0.data) == b.data
                    &&& n == (FileBufferView { data: Seq::empty(), ..b })
                    &&& *final(metrics) == *old(metrics)
                }
            },
    {
        match buffer_table_remove(&mut self.buffers, inode) {
            Some(mut b) => {
                let r = match b.take_flush(&self.multipart, metrics) {
                    Some(data) => Some(PendingUpload { path: b.path.clone(), data }),
                    None => None,
                };
                let ghost nb = b@;
                buffer_table_insert(&mut self.buffers, inode, b);
                assert(self.buffers() =~= old(self).buffers().insert(inode, nb));
                r
            },
            None => {
                assert(self.buffers() =~= old(self).buffers());
                None
            },
        }
    }

    /// Record that the upload of the buffer of `inode` succeeded: the buffer,
    /// if still there, is clean and matches storage; the flush is counted.
    pub fn finish_flush(&mut self, inode: u64, metrics: &mut Metrics)
        requires
            old(self).wf(),
        ensures
            final(self).wf(),
            final(self).config() == old(self).config(),
            final(self).buffers() == if old(self).buffers().contains_key(inode) {
                old(self).buffers().insert(
                    inode,
                    FileBufferView {
                        dirty: false,
                        original_size: old(self).buffers()[inode].size,
                        ..old(self).buffers()[inode]
                    },
                )
            } else {
                old(self).buffers()
            },
            (*final(metrics)).same_except(&*old(metrics), 6),
            final(metrics).write_buffer_flushes == wrapped(old(metrics).write_buffer_flushes, 1),
    {
        match buffer_table_remove(&mut self.buffers, inode) {
            Some(mut b) => {
                b.mark_flushed(metrics);
                let ghost nb = b@;
                buffer_table_insert(&mut self.buffers, inode, b);
                assert(self.buffers() =~= old(self).buffers().insert(inode, nb));
            },
            None => {
                metrics.inc_write_buffer_flush();
                assert(self.buffers() =~= old(self).buffers());
            },
        }
    }

    /// Record that a write of bytes up to `end` went straight to storage.
    pub fn finish_direct(&mut self, inode: u64, end: u64)
        requires
            old(self).wf(),
        ensures
            final(self).wf(),
            final(self).config() == old(self).config(),
            final(self).buffers() == if old(self).buffers().contains_key(inode) {
                old(self).buffers().insert(
                    inode,
                    FileBufferView { size: larger(old(self).buffers()[inode].size, end as int), ..old(self).buffers()[inode] },
                )
            } else {
                old(self).buffers()
            },
    {
        match buffer_table_remove(&mut self.buffers, inode) {
            Some(mut b) => {
                b.grow(end);
                let ghost nb = b@;
                buffer_table_insert(&mut self.buffers, inode, b);
                assert(self.buffers() =~= old(self).buffers().insert(inode, nb));
            },
            None => {
                assert(self.buffers() =~= old(self).buffers());
            },
        }
    }

    /// Release buffer for a file: it is removed, and what flushing it must
    /// upload is handed out; `finish_flush` is called once that succeeded.
    pub fn release(&mut self, inode: u64, metrics: &mut Metrics) -> (r: Option<PendingUpload>)
        requires
            old(self).wf(),
            old(self).flush_fits_at(inode),
        ensures
            final(self).wf(),
            final(self).config() == old(self).config(),
            final(self).buffers() == old(self).buffers().remove(inode),
            !old(self).buffers().contains_key(inode) ==> r is None && *final(metrics) == *old(metrics),
            old(self).buffers().contains_key(inode) ==> {
                let b = old(self).buffers()[inode];
                &&& !b.dirty || b.data.len() == 0 ==> r is None && *final(metrics) == *old(metrics)
                &&& b.dirty && b.data.len() > 0 && b.multipart is Some ==> {
                    &&& r is None
                    &&& (*final(metrics)).same_except_pair(&*old(metrics), 6, 13)
                    &&& final(metrics).write_buffer_flushes == wrapped(old(metrics).write_buffer_flushes, 1)
                }
                &&& b.dirty && b.data.len() > 0 && b.multipart is None ==> {
                    &&& r is Some
                    &&& r->0.path@ == b.path
                    &&& bytes_contents(r->0.data) == b.data
                    &&& *final(metrics) == *old(metrics)
                }
            },
    {
        let r = match buffer_table_remove(&mut self.buffers, inode) {
            Some(mut b) => match b.take_flush(&self.multipart, metrics) {
                Some(data) => Some(PendingUpload { path: b.path.clone(), data }),
                None => None,
            },
            None => None,
        };
        assert(self.buffers() =~= old(self).buffers().remove(inode));
        r
    }

    /// Truncate file: the buffer of `inode` (created for `path` with size
    /// `size` if there is none) is truncated to `size`. Returns whether an
    /// empty object must be uploaded, after which `finish_truncate` is
    /// called.
    pub fn truncate(&mut self, inode: u64, path: &str, size: u64) -> (r: bool)
        requires
            old(self).wf(),
        ensures
            final(self).wf(),
            final(self).config() == old(self).config(),
            r == (size == 0),
            final(self).buffers() == old(self).buffers().insert(
                inode,
                FileBufferView {
                    data: Seq::empty(),
                    size,
                    dirty: true,
                    multipart: None,
                    ..old(self).buffer_or_fresh(inode, path@, size)
                },
            ),
    {
        let mut b = match buffer_table_remove(&mut self.buffers, inode) {
            Some(b) => b,
            None => FileWriteBuffer::new(inode, path.to_owned(), size),
        };
        let r = b.truncate_to(&self.multipart, size);
        let ghost nb = b@;
        buffer_table_insert(&mut self.buffers, inode, b);
        assert(self.buffers() =~= old(self).buffers().insert(inode, nb));
        r
    }

    /// Record that the empty object of a truncation to zero was uploaded.
    pub fn finish_truncate(&mut self, inode: u64)
        requires
            old(self).wf(),
        ensures
            final(self).wf(),
            final(self).config() == old(self).config(),
            final(self).buffers() == if old(self).buffers().contains_key(inode) {
                old(self).buffers().insert(inode, FileBufferView { dirty: false, ..old(self).buffers()[inode] })
            } else {
                old(self).buffers()
            },
    {
        match buffer_table_remove(&mut self.buffers, inode) {
            Some(mut b) => {
                b.mark_clean();
                let ghost nb = b@;
                buffer_table_insert(&mut self.buffers, inode, b);
                assert(self.buffers() =~= old(self).buffers().insert(inode, nb));
            },
            None => {
                assert(self.buffers() =~= old(self).buffers());
            },
        }
    }

    /// The files that have buffers, each once. Whether a buffer is dirty is
    /// not checked here: flushing a clean buffer does nothing.
    pub fn dirty_buffers(&self) -> (r: Vec<u64>)
        ensures
            r@.no_duplicates(),
            r@.to_set() == self.buffers().dom(),
    {
        assert(self.buffers().dom() =~= buffer_table(self.buffers).dom());
        buffer_table_keys(&self.buffers)
    }

    /// Whether the buffer of `inode` holds bytes written and not yet
    /// uploaded: it is dirty and not empty (false without a buffer).
    pub fn has_pending(&self, inode: u64) -> (r: bool)
        ensures
            r == (self.buffers().contains_key(inode) && self.buffers()[inode].dirty
                && self.buffers()[inode].data.len() > 0),
    {
        match buffer_table_dirty(&self.buffers, inode) {
            Some(d) => match buffer_table_size(&self.buffers, inode) {
                Some(n) => d && n > 0,
                None => false,
            },
            None => false,
        }
    }

    /// Whether the buffer of `inode` is dirty (false without a buffer).
    pub fn is_dirty(&self, inode: u64) -> (r: bool)
        ensures
            r == (self.buffers().contains_key(inode) && self.buffers()[inode].dirty),
    {
        match buffer_table_dirty(&self.buffers, inode) {
            Some(d) => d,
            None => false,
        }
    }

    /// How long ago the buffer of `inode` was last written, when there is
    /// one. The length depends on the clock and is not stated.
    pub fn write_age(&self, inode: u64) -> (r: Option<Duration>)
        ensures
            r is Some <==> self.buffers().contains_key(inode),
    {
        buffer_table_write_age(&self.buffers, inode)
    }

    /// Whether the buffer of `inode`, last written `age` ago, is dirty and
    /// `age` is longer than the flush interval (false without a buffer).
    pub fn needs_time_flush_after(&self, inode: u64, age: Duration) -> (r: bool)
        ensures
            r == (self.buffers().contains_key(inode) && self.buffers()[inode].dirty && duration_nanos(age)
                > duration_nanos(self.config().flush_interval)),
    {
        match buffer_table_dirty(&self.buffers, inode) {
            Some(d) => d && exceeds(age, self.config.flush_interval),
            None => false,
        }
    }

    /// Whether the buffer of `inode` is dirty and was last written more than
    /// the flush interval ago (false without a buffer; see
    /// `needs_time_flush_after`, which is handed the time since the write).
    pub fn needs_time_flush(&self, inode: u64) -> (r: bool)
        ensures
            r ==> self.buffers().contains_key(inode) && self.buffers()[inode].dirty,
    {
        match self.write_age(inode) {
            Some(age) => self.needs_time_flush_after(inode, age),
            None => false,
        }
    }

    /// Get buffer statistics: the number of buffers, the bytes they hold
    /// (at most the largest `usize`) and how many are dirty.
    pub fn stats(&self) -> (r: WriteBufferStats)
        ensures
            r.buffer_count == self.buffers().len(),
            exists|ks: Seq<u64>|
                {
                    &&& ks.no_duplicates()
                    &&& ks.to_set() == self.buffers().dom()
                    &&& r.total_size == buffered_bytes(ks, self.buffers())
                    &&& r.dirty_count == dirty_files(ks, self.buffers())
                },
    {
        let keys = buffer_table_keys(&self.buffers);
        let mut total_size: usize = 0;
        let mut dirty_count: usize = 0;
        let mut i: usize = 0;
        while i < keys.len()
            invariant
                i <= keys@.len(),
                keys@.to_set() == buffer_table(self.buffers).dom(),
                total_size == buffered_bytes(keys@.take(i as int), self.buffers()),
                dirty_count == dirty_files(keys@.take(i as int), self.buffers()),
                dirty_count <= i,
            decreases keys@.len() - i,
        {
            let k = keys[i];
            proof {
                assert(keys@.take(i + 1).drop_last() =~= keys@.take(i as int));
                assert(keys@.to_set().contains(k));
            }
            match buffer_table_size(&self.buffers, k) {
                Some(n) => {
                    if total_size <= usize::MAX - n {
                        total_size = total_size + n;
                    } else {
                        total_size = usize::MAX;
                    }
                    if buffer_table_dirty(&self.buffers, k) == Some(true) {
                        dirty_count = dirty_count + 1;
                    }
                },
                None => {},
            }
            i = i + 1;
        }
        proof {
            assert(keys@.take(keys@.len() as int) =~= keys@);
            assert(self.buffers().dom() =~= buffer_table(self.buffers).dom());
        }
        WriteBufferStats { buffer_count: buffer_table_len(&self.buffers), total_size, dirty_count }
    }
}

} // verus!
