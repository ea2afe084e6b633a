//! Multipart upload bookkeeping for large files: data is cut into parts of
//! a fixed size, numbered from one.

use vstd::prelude::*;

use crate::config::PerformanceConfig;
use crate::utils::error::ObsFuseError;
use crate::utils::metrics::{wrapped, Metrics};
use crate::utils::text::{decimal, u32_to_decimal};

verus! {

/// Multipart upload configuration
#[derive(Debug, Clone, Copy)]
pub struct MultipartConfig {
    /// Part size (8-64MB recommended)
    pub part_size: usize,
    /// Concurrent upload count
    pub concurrency: usize,
    /// Maximum parts (OBS limit is 10000)
    pub max_parts: usize,
}

impl Default for MultipartConfig {
    /// Parts of 8 MiB, five at once, at most 10000.
    fn default() -> (r: Self)
        ensures
            r.part_size == 8 * 1024 * 1024,
            r.concurrency == 5,
            r.max_parts == 10000,
    {
        MultipartConfig { part_size: 8 * 1024 * 1024, concurrency: 5, max_parts: 10000 }
    }
}

impl MultipartConfig {
    /// The multipart settings of a performance configuration, with at most
    /// 10000 parts.
    pub fn from_performance(config: &PerformanceConfig) -> (r: Self)
        ensures
            r.part_size == config.multipart_part_size as usize,
            r.concurrency == config.multipart_concurrency,
            r.max_parts == 10000,
    {
        MultipartConfig {
            part_size: config.multipart_part_size as usize,
            concurrency: config.multipart_concurrency,
            max_parts: 10000,
        }
    }
}

/// Information about an uploaded part
#[derive(Debug, Clone)]
pub struct PartInfo {
    /// Part number (1-based)
    pub part_number: u32,
    /// ETag returned by OBS
    pub etag: String,
    /// Part size
    pub size: usize,
}

/// What a part record says.
pub struct PartView {
    pub part_number: u32,
    pub etag: Seq<char>,
    pub size: usize,
}

impl View for PartInfo {
    type V = PartView;

    open spec fn view(&self) -> PartView {
        PartView { part_number: self.part_number, etag: self.etag@, size: self.size }
    }
}

/// The views of a sequence of part records.
pub open spec fn part_views(parts: Seq<PartInfo>) -> Seq<PartView> {
    parts.map_values(|p: PartInfo| p@)
}

/// The tag recorded for part `n`: `part-` and its number.
pub open spec fn part_etag(n: u32) -> Seq<char> {
    seq!['p', 'a', 'r', 't', '-'] + decimal(n as nat)
}

/// Total size of a sequence of parts.
pub open spec fn parts_bytes(parts: Seq<PartView>) -> nat
    decreases parts.len(),
{
    if parts.len() == 0 {
        0
    } else {
        parts_bytes(parts.drop_last()) + parts.last().size as nat
    }
}

/// State for an ongoing multipart upload
#[derive(Debug)]
pub struct MultipartUploadState {
    /// Object path
    pub path: String,
    /// Parts that have been uploaded
    pub parts: Vec<PartInfo>,
    /// Current part number
    pub current_part: u32,
    /// Buffer for current part
    pub buffer: Vec<u8>,
    /// Total bytes written
    pub total_bytes: u64,
    /// Whether upload has been initiated
    pub initiated: bool,
}

/// What an upload state records.
pub struct MultipartView {
    pub path: Seq<char>,
    pub parts: Seq<PartView>,
    pub current_part: u32,
    pub buffer: Seq<u8>,
    pub total_bytes: u64,
    pub initiated: bool,
}

impl View for MultipartUploadState {
    type V = MultipartView;

    open spec fn view(&self) -> MultipartView {
        MultipartView {
            path: self.path@,
            parts: part_views(self.parts@),
            current_part: self.current_part,
            buffer: self.buffer@,
            total_bytes: self.total_bytes,
            initiated: self.initiated,
        }
    }
}

/// The parts numbered from `first` on, `count` of them, each of `size` bytes.
pub open spec fn full_parts(first: u32, count: int, size: int) -> Seq<PartView> {
    Seq::new(
        count as nat,
        |i: int| PartView { part_number: (first + i) as u32, etag: part_etag((first + i) as u32), size: size as usize },
    )
}

/// The state after `data` is written with parts of `part_size` bytes: the
/// data joins the buffer, and the full parts at its front become parts.
pub open spec fn written(m: MultipartView, data: Seq<u8>, part_size: int) -> MultipartView {
    let all = m.buffer + data;
    let k = all.len() as int / part_size;
    MultipartView {
        parts: m.parts + full_parts(m.current_part, k, part_size),
        current_part: (m.current_part + k) as u32,
        buffer: all.subrange(k * part_size, all.len() as int),
        total_bytes: (m.total_bytes + data.len()) as u64,
        ..m
    }
}

/// The number of parts that writing `data` cuts off.
pub open spec fn parts_cut(m: MultipartView, data: Seq<u8>, part_size: int) -> int {
    (m.buffer.len() + data.len()) as int / part_size
}

/// The state after completion: a nonempty buffer becomes the last part.
pub open spec fn completed(m: MultipartView) -> MultipartView {
    if m.buffer.len() == 0 {
        m
    } else {
        MultipartView {
            parts: m.parts.push(
                PartView { part_number: m.current_part, etag: part_etag(m.current_part), size: m.buffer.len() as usize },
            ),
            current_part: (m.current_part + 1) as u32,
            buffer: Seq::empty(),
            ..m
        }
    }
}

impl MultipartUploadState {
    /// The parts are numbered one, two, and so on, and the next part gets the
    /// next number.
    pub open spec fn numbered_in_order(&self) -> bool {
        &&& forall|i: int| 0 <= i < self.parts@.len() ==> #[trigger] self.parts@[i].part_number == i + 1
        &&& self.current_part == self.parts@.len() + 1
    }

    /// Every byte written is in an uploaded part or in the buffer.
    pub open spec fn accounted(&self) -> bool {
        self.total_bytes == parts_bytes(part_views(self.parts@)) + self.buffer@.len()
    }

    /// Create new multipart upload state
    pub fn new(path: String) -> (r: Self)
        ensures
            r.path@ == path@,
            r.parts@.len() == 0,
            r.current_part == 1,
            r.buffer@.len() == 0,
            r.total_bytes == 0,
            !r.initiated,
            r.numbered_in_order(),
            r.accounted(),
    {
        let r = MultipartUploadState {
            path,
            parts: Vec::new(),
            current_part: 1,
            buffer: Vec::new(),
            total_bytes: 0,
            initiated: false,
        };
        assert(part_views(r.parts@) =~= Seq::<PartView>::empty());
        r
    }

    /// Check if buffer is ready to upload
    pub fn buffer_ready(&self, part_size: usize) -> (r: bool)
        ensures
            r == (self.buffer@.len() >= part_size),
    {
        self.buffer.len() >= part_size
    }

    /// Take the first `part_size` bytes of the buffer for upload, if it holds
    /// that many.
    pub fn take_buffer(&mut self, part_size: usize) -> (r: Option<Vec<u8>>)
        ensures
            final(self).path == old(self).path,
            final(self).parts == old(self).parts,
            final(self).current_part == old(self).current_part,
            final(self).total_bytes == old(self).total_bytes,
            final(self).initiated == old(self).initiated,
            old(self).buffer@.len() >= part_size ==> {
                &&& r is Some
                &&& r->0@ == old(self).buffer@.subrange(0, part_size as int)
                &&& final(self).buffer@ == old(self).buffer@.subrange(part_size as int, old(self).buffer@.len() as int)
            },
            old(self).buffer@.len() < part_size ==> r is None && final(self).buffer@ == old(self).buffer@,
    {
        if self.buffer.len() >= part_size {
            let mut data = self.buffer.split_off(part_size);
            std::mem::swap(&mut data, &mut self.buffer);
            Some(data)
        } else {
            None
        }
    }

    /// Take remaining buffer
    pub fn take_remaining(&mut self) -> (r: Vec<u8>)
        ensures
            r@ == old(self).buffer@,
            final(self).buffer@.len() == 0,
            final(self).path == old(self).path,
            final(self).parts == old(self).parts,
            final(self).current_part == old(self).current_part,
            final(self).total_bytes == old(self).total_bytes,
            final(self).initiated == old(self).initiated,
    {
        let mut r: Vec<u8> = Vec::new();
        std::mem::swap(&mut r, &mut self.buffer);
        r
    }
}

proof fn lemma_parts_bytes_push(parts: Seq<PartView>, p: PartView)
    ensures
        parts_bytes(parts.push(p)) == parts_bytes(parts) + p.size,
{
    assert(parts.push(p).drop_last() =~= parts);
}

proof fn lemma_numbered_push(prev: Seq<PartInfo>, cur: Seq<PartInfo>, pushed: PartView)
    requires
        forall|i: int| 0 <= i < prev.len() ==> #[trigger] prev[i].part_number == i + 1,
        part_views(cur) == part_views(prev).push(pushed),
        pushed.part_number == prev.len() + 1,
    ensures
        forall|i: int| 0 <= i < cur.len() ==> #[trigger] cur[i].part_number == i + 1,
        cur.len() == prev.len() + 1,
{
    assert(part_views(cur).len() == cur.len());
    assert(part_views(prev).len() == prev.len());
    assert forall|i: int| 0 <= i < cur.len() implies #[trigger] cur[i].part_number == i + 1 by {
        assert(cur[i].part_number == part_views(cur)[i].part_number);
        if i < prev.len() {
            assert(part_views(cur)[i] == part_views(prev)[i]);
            assert(part_views(prev)[i].part_number == prev[i].part_number);
        } else {
            assert(part_views(cur).len() == cur.len());
            assert(part_views(prev).len() == prev.len());
            assert(i == part_views(prev).len());
            assert(part_views(prev).push(pushed)[i] == pushed);
        }
    }
}

proof fn lemma_wrapped_step(a: u64, n: nat)
    requires
        n < 0x1_0000_0000_0000_0000,
    ensures
        wrapped(wrapped(a, n as u64), 1) == wrapped(a, (n + 1) as u64) || n + 1 >= 0x1_0000_0000_0000_0000,
{
    let m: int = 0x1_0000_0000_0000_0000;
    if n + 1 < m {
        vstd::arithmetic::div_mod::lemma_add_mod_noop(a as int + n as int, 1, m);
        vstd::arithmetic::div_mod::lemma_mod_twice(1, m);
        vstd::arithmetic::div_mod::lemma_small_mod(1, m as nat);
    }
}

/// Multipart upload manager: cuts written data into parts and records them.
pub struct MultipartUploader {
    /// Configuration
    config: MultipartConfig,
}

impl MultipartUploader {
    /// The configuration.
    pub closed spec fn config(&self) -> MultipartConfig {
        self.config
    }

    /// Create a new multipart uploader
    pub fn new(config: MultipartConfig) -> (r: Self)
        ensures
            r.config() == config,
    {
        MultipartUploader { config }
    }

    /// Get part size
    pub fn part_size(&self) -> (r: usize)
        ensures
            r == self.config().part_size,
    {
        self.config.part_size
    }

    /// Record one uploaded part of `size` bytes under the next part number.
    fn upload_part(&self, state: &mut MultipartUploadState, size: usize, metrics: &mut Metrics)
        requires
            old(state).current_part < u32::MAX,
        ensures
            final(state).path == old(state).path,
            final(state).buffer == old(state).buffer,
            final(state).total_bytes == old(state).total_bytes,
            final(state).initiated == old(state).initiated,
            final(state).current_part == old(state).current_part + 1,
            part_views(final(state).parts@) == part_views(old(state).parts@).push(
                PartView { part_number: old(state).current_part, etag: part_etag(old(state).current_part), size },
            ),
            (*final(metrics)).same_except(&*old(metrics), 13),
            final(metrics).obs_put_ops == wrapped(old(metrics).obs_put_ops, 1),
    {
        let part_number = state.current_part;
        state.current_part = state.current_part + 1;
        metrics.inc_obs_put();
        let mut etag = "part-".to_owned();
        let digits = u32_to_decimal(part_number);
        etag.append(digits.as_str());
        proof {
            reveal_strlit("part-");
            assert(etag@ =~= part_etag(part_number));
        }
        let ghost before = part_views(state.parts@);
        state.parts.push(PartInfo { part_number, etag, size });
        assert(part_views(state.parts@) =~= before.push(
            PartView { part_number, etag: part_etag(part_number), size },
        ));
    }

    /// Write data to multipart upload state: the data joins the buffer, and
    /// each full part at its front is cut off and recorded, in order.
    pub fn write(&self, state: &mut MultipartUploadState, data: &[u8], metrics: &mut Metrics) -> (r: Result<(), ObsFuseError>)
        requires
            self.config().part_size > 0,
            old(state).total_bytes + data@.len() <= u64::MAX,
            old(state).current_part + (old(state).buffer@.len() + data@.len()) as int / (self.config().part_size as int)
                < u32::MAX,
        ensures
            r is Ok,
            ({
                let all = old(state).buffer@ + data@;
                let ps = self.config().part_size as int;
                let k = all.len() as int / ps;
                let old_parts = part_views(old(state).parts@);
                let new_parts = part_views(final(state).parts@);
                &&& final(state).path == old(state).path
                &&& final(state).initiated == old(state).initiated
                &&& final(state).total_bytes == old(state).total_bytes + data@.len()
                &&& final(state).buffer@ == all.subrange(k * ps, all.len() as int)
                &&& final(state).current_part == old(state).current_part + k
                &&& new_parts.len() == old_parts.len() + k
                &&& new_parts.subrange(0, old_parts.len() as int) == old_parts
                &&& forall|i: int| 0 <= i < k ==> #[trigger] new_parts[old_parts.len() + i] == (PartView {
                    part_number: (old(state).current_part + i) as u32,
                    etag: part_etag((old(state).current_part + i) as u32),
                    size: ps as usize,
                })
                &&& (*final(metrics)).same_except(&*old(metrics), 13)
                &&& final(metrics).obs_put_ops == wrapped(old(metrics).obs_put_ops, k as u64)
            }),
            old(state).numbered_in_order() ==> final(state).numbered_in_order(),
            old(state).accounted() ==> final(state).accounted(),
            final(state)@ == written(old(state)@, data@, self.config().part_size as int),
            final(metrics).obs_put_ops == wrapped(
                old(metrics).obs_put_ops,
                parts_cut(old(state)@, data@, self.config().part_size as int) as u64,
            ),
    {
        let ghost all = old(state).buffer@ + data@;
        let ghost ps = self.config.part_size as int;
        let ghost old_parts = part_views(old(state).parts@);
        state.buffer.extend_from_slice(data);
        state.total_bytes = state.total_bytes + data.len() as u64;
        assert(state.buffer@ =~= all.subrange(0, all.len() as int));
        proof {
            if old(state).accounted() {
                assert(state.accounted());
            }
            assert(wrapped(old(metrics).obs_put_ops, 0) == old(metrics).obs_put_ops) by {
                vstd::arithmetic::div_mod::lemma_small_mod(old(metrics).obs_put_ops as nat, 0x1_0000_0000_0000_0000);
            }
        }
        let ghost mut j: int = 0;
        while state.buffer_ready(self.config.part_size)
            invariant
                ps == self.config().part_size as int,
                ps > 0,
                0 <= j,
                j * ps <= all.len(),
                state.buffer@ == all.subrange(j * ps, all.len() as int),
                state.path == old(state).path,
                state.initiated == old(state).initiated,
                state.total_bytes == old(state).total_bytes + data@.len(),
                state.current_part == old(state).current_part + j,
                old(state).current_part + all.len() as int / ps < u32::MAX,
                part_views(state.parts@).len() == old_parts.len() + j,
                part_views(state.parts@).subrange(0, old_parts.len() as int) == old_parts,
                forall|i: int| 0 <= i < j ==> #[trigger] part_views(state.parts@)[old_parts.len() + i] == (PartView {
                    part_number: (old(state).current_part + i) as u32,
                    etag: part_etag((old(state).current_part + i) as u32),
                    size: ps as usize,
                }),
                (*metrics).same_except(&*old(metrics), 13),
                metrics.obs_put_ops == wrapped(old(metrics).obs_put_ops, j as u64),
                j < 0x1_0000_0000,
                old(state).numbered_in_order() ==> state.numbered_in_order(),
                old(state).accounted() ==> state.accounted(),
            decreases state.buffer@.len(),
        {
            proof {
                assert((j + 1) * ps == j * ps + ps) by (nonlinear_arith);
                assert(j + 1 <= all.len() as int / ps) by (nonlinear_arith)
                    requires
                        (j + 1) * ps <= all.len(),
                        ps > 0,
                        j >= 0,
                ;
            }
            let ghost before_parts = part_views(state.parts@);
            let ghost prev_parts = state.parts@;
            let ghost cp = state.current_part;
            let ghost before_buffer = state.buffer@;
            if let Some(part) = state.take_buffer(self.config.part_size) {
                self.upload_part(state, part.len(), metrics);
                proof {
                    lemma_wrapped_step(old(metrics).obs_put_ops, j as nat);
                    assert(state.buffer@ =~= all.subrange((j + 1) * ps, all.len() as int));
                    assert(part_views(state.parts@).subrange(0, old_parts.len() as int) =~= old_parts) by {
                        assert(part_views(state.parts@).subrange(0, old_parts.len() as int) =~= before_parts.subrange(
                            0,
                            old_parts.len() as int,
                        ));
                    }
                    assert forall|i: int| 0 <= i < j + 1 implies #[trigger] part_views(state.parts@)[old_parts.len() + i]
                        == (PartView {
                        part_number: (old(state).current_part + i) as u32,
                        etag: part_etag((old(state).current_part + i) as u32),
                        size: ps as usize,
                    }) by {
                        if i < j {
                            assert(part_views(state.parts@)[old_parts.len() + i] == before_parts[old_parts.len() + i]);
                        }
                    }
                    if old(state).numbered_in_order() {
                        lemma_numbered_push(
                            prev_parts,
                            state.parts@,
                            PartView { part_number: cp, etag: part_etag(cp), size: part.len() },
                        );
                    }
                    if old(state).accounted() {
                        lemma_parts_bytes_push(before_parts, part_views(state.parts@).last());
                        assert(part_views(state.parts@) =~= before_parts.push(part_views(state.parts@).last()));
                    }
                    j = j + 1;
                }
            }
        }
        proof {
            assert(j == all.len() as int / ps) by (nonlinear_arith)
                requires
                    j * ps <= all.len(),
                    all.len() - j * ps < ps,
                    ps > 0,
                    j >= 0,
            ;
            let w = written(old(state)@, data@, ps);
            assert(part_views(state.parts@) =~= w.parts) by {
                assert forall|i: int| 0 <= i < w.parts.len() implies part_views(state.parts@)[i] == w.parts[i] by {
                    if i < old_parts.len() {
                        assert(part_views(state.parts@).subrange(0, old_parts.len() as int)[i] == old_parts[i]);
                    } else {
                        assert(part_views(state.parts@)[old_parts.len() + (i - old_parts.len())] == w.parts[i]);
                    }
                }
            }
            assert(state@ =~= w);
        }
        Ok(())
    }

    /// Complete the multipart upload: what is left in the buffer becomes the
    /// last part.
    pub fn complete(&self, state: &mut MultipartUploadState, metrics: &mut Metrics) -> (r: Result<(), ObsFuseError>)
        requires
            old(state).buffer@.len() > 0 ==> old(state).current_part < u32::MAX,
        ensures
            r is Ok,
            final(state).path == old(state).path,
            final(state).total_bytes == old(state).total_bytes,
            final(state).initiated == old(state).initiated,
            final(state).buffer@.len() == 0,
            old(state).buffer@.len() == 0 ==> {
                &&& part_views(final(state).parts@) == part_views(old(state).parts@)
                &&& final(state).current_part == old(state).current_part
                &&& *final(metrics) == *old(metrics)
            },
            old(state).buffer@.len() > 0 ==> {
                &&& part_views(final(state).parts@) == part_views(old(state).parts@).push(
                    PartView {
                        part_number: old(state).current_part,
                        etag: part_etag(old(state).current_part),
                        size: old(state).buffer@.len() as usize,
                    },
                )
                &&& final(state).current_part == old(state).current_part + 1
                &&& (*final(metrics)).same_except(&*old(metrics), 13)
                &&& final(metrics).obs_put_ops == wrapped(old(metrics).obs_put_ops, 1)
            },
            old(state).numbered_in_order() ==> final(state).numbered_in_order(),
            old(state).accounted() ==> final(state).accounted(),
            final(state)@ == completed(old(state)@),
    {
        let remaining = state.take_remaining();
        if remaining.len() > 0 {
            let ghost before = part_views(state.parts@);
            let ghost cp = state.current_part;
            self.upload_part(state, remaining.len(), metrics);
            proof {
                let pushed = PartView { part_number: cp, etag: part_etag(cp), size: remaining.len() };
                assert(part_views(state.parts@) == before.push(pushed));
                assert(before.push(pushed)[before.len() as int] == pushed);
                if old(state).numbered_in_order() {
                    lemma_numbered_push(old(state).parts@, state.parts@, pushed);
                }
                if old(state).accounted() {
                    lemma_parts_bytes_push(before, part_views(state.parts@).last());
                    assert(part_views(state.parts@) =~= before.push(part_views(state.parts@).last()));
                }
                assert(state.buffer@ =~= Seq::<u8>::empty());
                assert(state@ == completed(old(state)@));
            }
        } else {
            assert(state.buffer@ =~= old(state).buffer@);
            assert(state@ == completed(old(state)@));
        }
        Ok(())
    }

    /// Abort the multipart upload: parts and buffer are dropped and numbering
    /// starts over. The count of bytes written is kept.
    pub fn abort(&self, state: &mut MultipartUploadState) -> (r: Result<(), ObsFuseError>)
        ensures
            r is Ok,
            final(state).path == old(state).path,
            final(state).total_bytes == old(state).total_bytes,
            final(state).parts@.len() == 0,
            final(state).buffer@.len() == 0,
            final(state).current_part == 1,
            !final(state).initiated,
            final(state).numbered_in_order(),
    {
        state.parts.clear();
        state.buffer.clear();
        state.current_part = 1;
        state.initiated = false;
        Ok(())
    }

    /// Calculate maximum file size supported: the largest number of parts
    /// times the part size.
    pub fn max_file_size(&self) -> (r: u64)
        requires
            self.config().max_parts * self.config().part_size <= usize::MAX,
        ensures
            r == self.config().max_parts * self.config().part_size,
    {
        (self.config.max_parts * self.config.part_size) as u64
    }
}

} // verus!
