//! The double-buffered frame submitter.
//!
//! Two CPU-writable staging regions are used in alternation: while the
//! device still reads one frame's region, the host fills the other.  A
//! slot may only be written after the completion token recorded at its
//! last submission has resolved, which `begin_frame` surfaces to the
//! caller.  Serialization packs the vertex segment and then the index
//! segment into the region from offset 0, clamping each to what fits, and
//! every draw is clamped to the actually written index range.

use vstd::prelude::*;
use vstd::bytes::{u32_to_le_bytes, spec_u32_to_le_bytes};
use crate::geom::Scalar;
use crate::primitives::{Command, PrimitiveList, Texture, Vertex};

verus! {

/// Capacity in bytes of each staging region and of the GPU-resident
/// destination buffer.
pub const STAGING_BUFFER_SIZE: u64 = 0x100_0000;

/// Serialized size of one vertex: eight 32-bit scalars, position then
/// texture coordinate then color, tightly packed.
pub const VERTEX_BYTES: usize = 32;

/// Serialized size of one 32-bit index.
pub const INDEX_BYTES: usize = 4;

/// What one staging slot is doing.
#[derive(Clone, Copy, Debug, PartialEq, Eq, Structural)]
pub enum SlotState {
    /// Never submitted; reusable at once.
    Idle,
    /// Acquired for the current frame's writes.
    Writable,
    /// Submitted under `token`; the device may read the region until the
    /// token resolves.
    Pending { token: u64 },
}

/// The frame submitter's bookkeeping: one state per staging slot, the
/// parity of the slot the next frame writes, and the current output
/// extent.
pub struct Context {
    pub slots: Vec<SlotState>,
    pub current_frame: usize,
    pub surface_width: u32,
    pub surface_height: u32,
}

impl Context {
    /// Two slots, and the parity indexes one of them.
    pub open spec fn wf(self) -> bool {
        &&& self.slots@.len() == 2
        &&& self.current_frame < 2
    }

    pub open spec fn slot(self, p: int) -> SlotState {
        self.slots@[p]
    }

    /// A fresh submitter: both slots idle, starting on parity 0, with the
    /// output extent clamped to at least one pixel per side.
    pub fn new(width: u32, height: u32) -> (r: Context)
        ensures
            r.wf(),
            r.slot(0) == SlotState::Idle,
            r.slot(1) == SlotState::Idle,
            r.current_frame == 0,
            r.surface_width == if width >= 1 {
                width
            } else {
                1u32
            },
            r.surface_height == if height >= 1 {
                height
            } else {
                1u32
            },
    {
        let mut slots: Vec<SlotState> = Vec::new();
        slots.push(SlotState::Idle);
        slots.push(SlotState::Idle);
        Context {
            slots,
            current_frame: 0,
            surface_width: if width >= 1 {
                width
            } else {
                1
            },
            surface_height: if height >= 1 {
                height
            } else {
                1
            },
        }
    }

    /// Applies a viewport resize: the output extent changes only when
    /// both sides are positive, and the slot states are untouched.
    pub fn on_resize(&mut self, width: u32, height: u32)
        requires
            old(self).wf(),
        ensures
            final(self).wf(),
            width >= 1 && height >= 1 ==> final(self).surface_width == width
                && final(self).surface_height == height,
            !(width >= 1 && height >= 1) ==> final(self).surface_width == old(self).surface_width
                && final(self).surface_height == old(self).surface_height,
            final(self).slots@ == old(self).slots@,
            final(self).current_frame == old(self).current_frame,
    {
        if width > 0 && height > 0 {
            self.surface_width = width;
            self.surface_height = height;
        }
    }

    /// Acquires the current parity's staging slot for writing and returns
    /// the completion token the caller must wait on before touching the
    /// region: the token recorded when this slot was last submitted, if it
    /// has not been surfaced yet.
    pub fn begin_frame(&mut self) -> (r: Option<u64>)
        requires
            old(self).wf(),
        ensures
            final(self).wf(),
            final(self).slot(old(self).current_frame as int) == SlotState::Writable,
            final(self).slot(1 - old(self).current_frame as int) == old(self).slot(
                1 - old(self).current_frame as int,
            ),
            final(self).current_frame == old(self).current_frame,
            final(self).surface_width == old(self).surface_width,
            final(self).surface_height == old(self).surface_height,
            r == (match old(self).slot(old(self).current_frame as int) {
                SlotState::Pending { token } => Some(token),
                _ => None::<u64>,
            }),
            op_enabled(old(self).model(), (FrameOp::BeginFrame { waited: r })),
            final(self).model() == op_step(old(self).model(), (FrameOp::BeginFrame { waited: r })),
    {
        let p = self.current_frame;
        let r = match self.slots[p] {
            SlotState::Pending { token } => Some(token),
            _ => None,
        };
        self.slots[p] = SlotState::Writable;
        r
    }

    /// Records that the current frame's work was submitted under `token`:
    /// the slot becomes pending on that token and the parity flips, so the
    /// next frame writes the other region.
    pub fn submit_frame(&mut self, token: u64)
        requires
            old(self).wf(),
            old(self).slot(old(self).current_frame as int) is Writable,
        ensures
            final(self).wf(),
            final(self).slot(old(self).current_frame as int) == (SlotState::Pending { token }),
            final(self).slot(1 - old(self).current_frame as int) == old(self).slot(
                1 - old(self).current_frame as int,
            ),
            final(self).current_frame == 1 - old(self).current_frame,
            final(self).surface_width == old(self).surface_width,
            final(self).surface_height == old(self).surface_height,
            op_enabled(old(self).model(), (FrameOp::SubmitFrame { token })),
            final(self).model() == op_step(old(self).model(), (FrameOp::SubmitFrame { token })),
    {
        let p = self.current_frame;
        self.slots[p] = SlotState::Pending { token };
        self.current_frame = 1 - p;
    }
}

/// The number of elements that a serialization step writes: all of them,
/// or as many as still fit the staging region.
pub open spec fn spec_count(curr_off: int, len: int, size: int) -> int {
    let fit = (STAGING_BUFFER_SIZE - curr_off) / size;
    if len < fit {
        len
    } else {
        fit
    }
}

/// Given `len` elements of `size` bytes each and a staging region already
/// filled up to `curr_off`, returns the offset after writing what fits
/// and the number of elements written: all of them, clamped to the
/// remaining capacity.
pub fn calc_count(curr_off: usize, len: usize, size: usize) -> (r: (usize, usize))
    requires
        1 <= size <= 64,
        curr_off <= STAGING_BUFFER_SIZE,
    ensures
        r.1 == spec_count(curr_off as int, len as int, size as int),
        r.0 == curr_off + r.1 * size,
        r.0 <= STAGING_BUFFER_SIZE,
        r.1 <= len,
{
    let remaining = STAGING_BUFFER_SIZE as usize - curr_off;
    let q = remaining / size;
    let count = if len < q {
        len
    } else {
        q
    };
    proof {
        assert(count * size <= remaining) by (nonlinear_arith)
            requires
                0 <= count <= remaining as int / size as int,
                1 <= size,
                0 <= remaining,
        ;
    }
    let next_off = curr_off + count * size;
    (next_off, count)
}

/// The number of vertices a frame's serialization writes.
pub open spec fn spec_count_vtx(n_vtx: int) -> int {
    spec_count(0, n_vtx, VERTEX_BYTES as int)
}

/// The number of indices a frame's serialization writes, after the
/// vertex segment.
pub open spec fn spec_count_idx(n_vtx: int, n_idx: int) -> int {
    spec_count(spec_count_vtx(n_vtx) * VERTEX_BYTES as int, n_idx, INDEX_BYTES as int)
}

/// Byte offsets delimiting one frame's staging contents: the vertex
/// segment from `off_vtx` and the index segment from `off_idx`, each
/// clamped to the region's capacity, never splitting an element.
pub struct Layout {
    pub off_vtx: usize,
    pub off_idx: usize,
    pub off_end: usize,
    pub count_vtx: usize,
    pub count_idx: usize,
    pub truncated: bool,
}

/// Plans one frame's staging layout for `n_vtx` vertices and `n_idx`
/// indices: vertices from offset 0, indices right after, each segment
/// clamped to what fits, with `truncated` reporting whether anything was
/// dropped.  Whenever the vertex array itself is clamped, the index
/// segment gets no room at all, so no draw can reference an unwritten
/// vertex.
pub fn frame_layout(n_vtx: usize, n_idx: usize) -> (r: Layout)
    ensures
        r.off_vtx == 0,
        r.count_vtx == spec_count_vtx(n_vtx as int),
        r.off_idx == r.count_vtx * VERTEX_BYTES,
        r.count_idx == spec_count_idx(n_vtx as int, n_idx as int),
        r.off_end == r.off_idx + r.count_idx * INDEX_BYTES,
        r.off_end <= STAGING_BUFFER_SIZE,
        r.count_vtx <= n_vtx,
        r.count_idx <= n_idx,
        r.truncated == (r.count_vtx < n_vtx || r.count_idx < n_idx),
        r.count_vtx < n_vtx ==> r.count_idx == 0,
        r.count_idx <= 0x40_0000,
{
    let (off_idx, count_vtx) = calc_count(0, n_vtx, VERTEX_BYTES);
    let (off_end, count_idx) = calc_count(off_idx, n_idx, INDEX_BYTES);
    proof {
        if count_vtx < n_vtx {
            assert(count_vtx == STAGING_BUFFER_SIZE as int / VERTEX_BYTES as int);
            assert(off_idx == STAGING_BUFFER_SIZE);
        }
        assert(count_idx * INDEX_BYTES as int <= STAGING_BUFFER_SIZE - off_idx)
            by (nonlinear_arith)
            requires
                0 <= count_idx <= (STAGING_BUFFER_SIZE - off_idx) / INDEX_BYTES as int,
                off_idx <= STAGING_BUFFER_SIZE,
        ;
    }
    let truncated = count_vtx < n_vtx || count_idx < n_idx;
    Layout { off_vtx: 0, off_idx, off_end, count_vtx, count_idx, truncated }
}

/// In a well-formed list whose layout was planned by `frame_layout`,
/// every index position the clamped draws can reference holds an index
/// below the number of vertices actually written: either every vertex
/// fit, and the list invariant bounds each index by the vertex count, or
/// the vertex array was clamped and the index segment got no room, so
/// nothing is drawn at all.
pub proof fn lemma_draws_reference_written(l: PrimitiveList)
    requires
        l.wf(),
    ensures
        forall|pos: int|
            0 <= pos < spec_count_idx(l.vtx@.len() as int, l.idx@.len() as int) ==> (
            #[trigger] l.idx@[pos]) < spec_count_vtx(l.vtx@.len() as int),
{
    let nv = l.vtx@.len() as int;
    let ni = l.idx@.len() as int;
    if spec_count_vtx(nv) < nv {
        assert(spec_count_vtx(nv) == STAGING_BUFFER_SIZE as int / VERTEX_BYTES as int);
        assert(spec_count_idx(nv, ni) == 0);
    } else {
        assert(spec_count_vtx(nv) == nv);
        assert(spec_count_idx(nv, ni) <= ni);
    }
}

/// One clamped draw call: the command's texture and its index range
/// intersected with the written prefix of the index array.
#[derive(Clone, Copy, Debug)]
pub struct DrawCall {
    pub texture: Option<Texture>,
    pub first: u32,
    pub end: u32,
}

/// Plans the per-command draws of a frame: one draw per command, in
/// submission order, each clamped to the `count_idx` indices actually
/// written, so a truncated frame never draws past them.
pub fn plan_draws(list: &PrimitiveList, count_idx: usize) -> (r: Vec<DrawCall>)
    requires
        list.wf(),
        count_idx <= 0x40_0000,
    ensures
        r@.len() == list.commands@.len(),
        forall|i: int|
            0 <= i < r@.len() ==> {
                let cmd = list.commands@[i];
                let d = #[trigger] r@[i];
                &&& d.texture == cmd.texture
                &&& d.first == if cmd.idx_off < count_idx {
                    cmd.idx_off as int
                } else {
                    count_idx as int
                }
                &&& d.end == if cmd.idx_off + cmd.idx_cnt < count_idx {
                    cmd.idx_off + cmd.idx_cnt
                } else {
                    count_idx as int
                }
                &&& d.first <= d.end <= count_idx
            },
{
    let mut r: Vec<DrawCall> = Vec::new();
    let n = list.commands.len();
    let mut i: usize = 0;
    while i < n
        invariant
            n == list.commands@.len(),
            i <= n,
            count_idx <= 0x40_0000,
            list.wf(),
            r@.len() == i,
            forall|q: int|
                0 <= q < i ==> {
                    let cmd = list.commands@[q];
                    let d = #[trigger] r@[q];
                    &&& d.texture == cmd.texture
                    &&& d.first == if cmd.idx_off < count_idx {
                        cmd.idx_off as int
                    } else {
                        count_idx as int
                    }
                    &&& d.end == if cmd.idx_off + cmd.idx_cnt < count_idx {
                        cmd.idx_off + cmd.idx_cnt
                    } else {
                        count_idx as int
                    }
                    &&& d.first <= d.end <= count_idx
                },
        decreases n - i,
    {
        let cmd = list.commands[i];
        let first = if cmd.idx_off < count_idx {
            cmd.idx_off
        } else {
            count_idx
        };
        let end = if cmd.idx_cnt < count_idx && cmd.idx_off < count_idx - cmd.idx_cnt {
            cmd.idx_off + cmd.idx_cnt
        } else {
            count_idx
        };
        r.push(DrawCall { texture: cmd.texture, first: first as u32, end: end as u32 });
        i = i + 1;
    }
    r
}

/// Serializes the written prefix of the index array: each index as four
/// little-endian bytes, tightly packed in order.
pub fn index_bytes(idx: &Vec<u32>, count: usize) -> (r: Vec<u8>)
    requires
        count <= idx@.len(),
        count <= 0x40_0000,
    ensures
        r@.len() == 4 * count,
        forall|i: int|
            0 <= i < count ==> #[trigger] r@.subrange(4 * i, 4 * i + 4) == spec_u32_to_le_bytes(
                idx@[i],
            ),
{
    let mut r: Vec<u8> = Vec::new();
    let mut i: usize = 0;
    while i < count
        invariant
            count <= idx@.len(),
            count <= 0x40_0000,
            i <= count,
            r@.len() == 4 * i,
            forall|q: int|
                0 <= q < i ==> #[trigger] r@.subrange(4 * q, 4 * q + 4) == spec_u32_to_le_bytes(
                    idx@[q],
                ),
        decreases count - i,
    {
        let ghost r0 = r@;
        let mut b = u32_to_le_bytes(idx[i]);
        r.append(&mut b);
        i = i + 1;
        proof {
            assert forall|q: int| 0 <= q < i implies #[trigger] r@.subrange(4 * q, 4 * q + 4)
                == spec_u32_to_le_bytes(idx@[q]) by {
                if q < i - 1 {
                    assert(r@.subrange(4 * q, 4 * q + 4) =~= r0.subrange(4 * q, 4 * q + 4));
                } else {
                    assert(r@.subrange(4 * q, 4 * q + 4) =~= spec_u32_to_le_bytes(idx@[q]));
                }
            }
        }
    }
    r
}

/// The submitter's bookkeeping as a mathematical state, for stating the
/// double-buffering protocol over whole histories of operations.
pub ghost struct FrameState {
    pub slots: Seq<SlotState>,
    pub current: int,
}

impl Context {
    pub open spec fn model(self) -> FrameState {
        FrameState { slots: self.slots@, current: self.current_frame as int }
    }
}

pub open spec fn st_wf(s: FrameState) -> bool {
    &&& s.slots.len() == 2
    &&& 0 <= s.current < 2
}

/// One step of the frame protocol, as the caller observes it: acquiring
/// the current slot (learning which token must resolve first) or
/// submitting the frame under a fresh token.
pub enum FrameOp {
    BeginFrame { waited: Option<u64> },
    SubmitFrame { token: u64 },
}

/// The pending token of the current slot, if any.
pub open spec fn pending_of(s: FrameState) -> Option<u64> {
    match s.slots[s.current] {
        SlotState::Pending { token } => Some(token),
        _ => None,
    }
}

/// The op is possible in state `s`: acquiring reports exactly the
/// current slot's pending token, and a frame is only submitted on an
/// acquired slot.  These are the contracts of `begin_frame` and
/// `submit_frame`.
pub open spec fn op_enabled(s: FrameState, op: FrameOp) -> bool {
    match op {
        FrameOp::BeginFrame { waited } => waited == pending_of(s),
        FrameOp::SubmitFrame { token: _ } => s.slots[s.current] is Writable,
    }
}

/// The state after the op, mirroring `begin_frame` and `submit_frame`.
pub open spec fn op_step(s: FrameState, op: FrameOp) -> FrameState {
    match op {
        FrameOp::BeginFrame { waited: _ } => FrameState {
            slots: s.slots.update(s.current, SlotState::Writable),
            current: s.current,
        },
        FrameOp::SubmitFrame { token } => FrameState {
            slots: s.slots.update(s.current, SlotState::Pending { token }),
            current: 1 - s.current,
        },
    }
}

/// The state after running a history of ops from `s`.
pub open spec fn run(s: FrameState, ops: Seq<FrameOp>) -> FrameState
    decreases ops.len(),
{
    if ops.len() == 0 {
        s
    } else {
        op_step(run(s, ops.drop_last()), ops.last())
    }
}

/// Every op of the history was enabled in the state it ran from.
pub open spec fn trace_ok(s: FrameState, ops: Seq<FrameOp>) -> bool
    decreases ops.len(),
{
    if ops.len() == 0 {
        true
    } else {
        trace_ok(s, ops.drop_last()) && op_enabled(run(s, ops.drop_last()), ops.last())
    }
}

/// The slot parity the `k`-th op of the history applies to.
pub open spec fn parity_at(s: FrameState, ops: Seq<FrameOp>, k: int) -> int {
    run(s, ops.subrange(0, k)).current
}

/// Well-formedness of the state survives every history.
proof fn lemma_run_wf(s: FrameState, ops: Seq<FrameOp>)
    requires
        st_wf(s),
    ensures
        st_wf(run(s, ops)),
    decreases ops.len(),
{
    if ops.len() > 0 {
        lemma_run_wf(s, ops.drop_last());
    }
}

/// A history's prefixes are themselves valid histories, and each op is
/// enabled in the state its prefix reaches.
proof fn lemma_trace_ok_prefix(s: FrameState, ops: Seq<FrameOp>, m: int)
    requires
        trace_ok(s, ops),
        0 <= m <= ops.len(),
    ensures
        trace_ok(s, ops.subrange(0, m)),
        m < ops.len() ==> op_enabled(run(s, ops.subrange(0, m)), ops[m]),
    decreases ops.len() - m,
{
    if m < ops.len() {
        lemma_trace_ok_prefix(s, ops, m + 1);
        let next = ops.subrange(0, m + 1);
        assert(next.drop_last() =~= ops.subrange(0, m));
        assert(next.last() == ops[m]);
    } else {
        assert(ops.subrange(0, m) =~= ops);
    }
}

/// Running one more op of the history is one more step.
proof fn lemma_run_snoc(s: FrameState, ops: Seq<FrameOp>, m: int)
    requires
        0 <= m < ops.len(),
    ensures
        run(s, ops.subrange(0, m + 1)) == op_step(run(s, ops.subrange(0, m)), ops[m]),
{
    let next = ops.subrange(0, m + 1);
    assert(next.drop_last() =~= ops.subrange(0, m));
    assert(next.last() == ops[m]);
}

/// After the submission at position `i` on parity `p`, the slot stays
/// pending on that very token until some later `BeginFrame` acquires
/// parity `p` again.
proof fn lemma_pending_persists(
    s: FrameState,
    ops: Seq<FrameOp>,
    i: int,
    m: int,
    p: int,
    t: u64,
)
    requires
        st_wf(s),
        trace_ok(s, ops),
        0 <= i < m <= ops.len(),
        ops[i] == (FrameOp::SubmitFrame { token: t }),
        p == parity_at(s, ops, i),
        forall|q: int|
            i < q < m ==> !((ops[q] is BeginFrame) && parity_at(s, ops, q) == p),
    ensures
        run(s, ops.subrange(0, m)).slots[p] == (SlotState::Pending { token: t }),
    decreases m,
{
    lemma_run_wf(s, ops.subrange(0, i));
    if m == i + 1 {
        lemma_run_snoc(s, ops, i);
    } else {
        lemma_pending_persists(s, ops, i, m - 1, p, t);
        lemma_run_snoc(s, ops, m - 1);
        lemma_run_wf(s, ops.subrange(0, m - 1));
        lemma_trace_ok_prefix(s, ops, m - 1);
        let before = run(s, ops.subrange(0, m - 1));
        let q = before.current;
        assert(q == parity_at(s, ops, m - 1));
        match ops[m - 1] {
            FrameOp::BeginFrame { .. } => {
                assert(q != p);
            },
            FrameOp::SubmitFrame { .. } => {
                if q == p {
                    assert(before.slots[p] == (SlotState::Pending { token: t }));
                    assert(before.slots[q] is Writable);
                    assert(false);
                }
            },
        }
    }
}

/// Among the acquisitions of parity `p` strictly between `i` and `j`,
/// there is a first one.
proof fn lemma_first_begin(s: FrameState, ops: Seq<FrameOp>, i: int, j: int, p: int, q: int)
    requires
        i < q < j,
        ops[q] is BeginFrame,
        parity_at(s, ops, q) == p,
    ensures
        exists|q0: int|
            ((i < q0 < j && (#[trigger] ops[q0]) is BeginFrame && parity_at(s, ops, q0) == p)
                && forall|q1: int|
                i < q1 < q0 ==> !((#[trigger] ops[q1]) is BeginFrame && parity_at(s, ops, q1)
                    == p)),
    decreases q - i,
{
    if exists|q1: int| i < q1 < q && (#[trigger] ops[q1]) is BeginFrame && parity_at(s, ops, q1) == p {
        let q1 = choose|q1: int|
            i < q1 < q && (#[trigger] ops[q1]) is BeginFrame && parity_at(s, ops, q1) == p;
        lemma_first_begin(s, ops, i, j, p, q1);
    } else {
        assert(i < q < j && ops[q] is BeginFrame && parity_at(s, ops, q) == p && forall|q1: int|
            i < q1 < q ==> !((#[trigger] ops[q1]) is BeginFrame && parity_at(s, ops, q1) == p));
    }
}

/// The double-buffering guarantee: in any valid history, two
/// submissions on the same slot parity are separated by an acquisition
/// of that slot, and that acquisition reported the first submission's
/// completion token — so the caller was told to wait for the slot's
/// previous use before it was ever written again.
pub proof fn lemma_double_buffering(s: FrameState, ops: Seq<FrameOp>, i: int, j: int, t: u64)
    requires
        st_wf(s),
        trace_ok(s, ops),
        0 <= i < j < ops.len(),
        ops[i] == (FrameOp::SubmitFrame { token: t }),
        ops[j] is SubmitFrame,
        parity_at(s, ops, i) == parity_at(s, ops, j),
    ensures
        exists|q: int|
            i < q < j && parity_at(s, ops, q) == parity_at(s, ops, i) && (#[trigger] ops[q])
                == (FrameOp::BeginFrame { waited: Some(t) }),
{
    let p = parity_at(s, ops, i);
    if forall|q: int| i < q < j ==> !((#[trigger] ops[q]) is BeginFrame && parity_at(s, ops, q) == p) {
        lemma_pending_persists(s, ops, i, j, p, t);
        lemma_trace_ok_prefix(s, ops, j);
        lemma_run_wf(s, ops.subrange(0, j));
        let before = run(s, ops.subrange(0, j));
        assert(before.slots[p] == (SlotState::Pending { token: t }));
        assert(before.slots[before.current] is Writable);
        assert(false);
    } else {
        let q = choose|q: int|
            i < q < j && (#[trigger] ops[q]) is BeginFrame && parity_at(s, ops, q) == p;
        lemma_first_begin(s, ops, i, j, p, q);
        let q0 = choose|q0: int|
            ((i < q0 < j && (#[trigger] ops[q0]) is BeginFrame && parity_at(s, ops, q0) == p)
                && forall|q1: int|
                i < q1 < q0 ==> !((#[trigger] ops[q1]) is BeginFrame && parity_at(s, ops, q1)
                    == p));
        lemma_pending_persists(s, ops, i, q0, p, t);
        lemma_trace_ok_prefix(s, ops, q0);
        lemma_run_wf(s, ops.subrange(0, q0));
        let before = run(s, ops.subrange(0, q0));
        assert(before.slots[p] == (SlotState::Pending { token: t }));
        assert(before.current == p);
        assert(pending_of(before) == Some(t));
        assert(op_enabled(before, ops[q0]));
        assert(ops[q0] == (FrameOp::BeginFrame { waited: Some(t) }));
    }
}

/// The eight scalars of one vertex in wire order: position, texture
/// coordinate, then color.
pub fn vertex_scalars(v: &Vertex) -> (r: [Scalar; 8])
    ensures
        r[0] == v.coord.x,
        r[1] == v.coord.y,
        r[2] == v.tex_coord.x,
        r[3] == v.tex_coord.y,
        r[4] == v.color.r,
        r[5] == v.color.g,
        r[6] == v.color.b,
        r[7] == v.color.a,
{
    [v.coord.x, v.coord.y, v.tex_coord.x, v.tex_coord.y, v.color.r, v.color.g, v.color.b,
        v.color.a]
}

} // verus!
