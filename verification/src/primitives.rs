//! The primitive-list builder.
//!
//! Callers describe one frame as an ordered list of draw operations.  The
//! list accumulates vertices and indices and groups consecutive emissions
//! that share a texture binding into draw commands: a new command is started
//! only when the active texture differs from the last command's texture and
//! that command already holds indices, so the command index ranges always
//! partition the index array in submission order.

use vstd::prelude::*;
use crate::font::Font;
use crate::geom::{
    Scalar, is_ndc_x, is_ndc_y, is_px_x, is_px_y, is_ratio, input_bounded, ndc_input_bounded,
};

verus! {

/// A texture binding, identified by value: a handle into the caller's
/// texture registry together with the texture's pixel extent, which the
/// builder needs to turn pixel rectangles into texture coordinates.
#[derive(Clone, Copy, Debug, PartialEq, Eq, Structural)]
pub struct Texture {
    pub id: u64,
    pub width: u32,
    pub height: u32,
}

impl Texture {
    /// A texture has a nonempty extent.
    pub open spec fn wf(self) -> bool {
        &&& self.width >= 1
        &&& self.height >= 1
    }
}

/// A two-component coordinate.
#[derive(Clone, Copy, Debug)]
pub struct Vec2 {
    pub x: Scalar,
    pub y: Scalar,
}

impl Vec2 {
    pub open spec fn wf(self) -> bool {
        &&& self.x.wf()
        &&& self.y.wf()
    }
}

/// A four-channel color.
#[derive(Clone, Copy, Debug)]
pub struct Rgba {
    pub r: Scalar,
    pub g: Scalar,
    pub b: Scalar,
    pub a: Scalar,
}

impl Rgba {
    pub open spec fn wf(self) -> bool {
        &&& self.r.wf()
        &&& self.g.wf()
        &&& self.b.wf()
        &&& self.a.wf()
    }

    /// Transparent black, the color a cleared list starts from.
    pub fn zero() -> (c: Rgba)
        ensures
            c == Rgba::zero_spec(),
    {
        let z = Scalar::from_int(0);
        Rgba { r: z, g: z, b: z, a: z }
    }

    pub open spec fn zero_spec() -> Rgba {
        Rgba { r: Scalar { num: 0, den: 1 }, g: Scalar { num: 0, den: 1 }, b: Scalar {
            num: 0,
            den: 1,
        }, a: Scalar { num: 0, den: 1 } }
    }
}

/// One vertex: a position, a texture coordinate and a color.
#[derive(Clone, Copy, Debug)]
pub struct Vertex {
    pub coord: Vec2,
    pub tex_coord: Vec2,
    pub color: Rgba,
}

impl Vertex {
    pub open spec fn wf(self) -> bool {
        &&& self.coord.wf()
        &&& self.tex_coord.wf()
        &&& self.color.wf()
    }
}

/// A draw command: a contiguous run of indices drawn with one texture
/// binding.  `None` stands for the untextured (solid fill) binding.
#[derive(Clone, Copy, Debug)]
pub struct Command {
    pub texture: Option<Texture>,
    pub idx_off: usize,
    pub idx_cnt: usize,
}

/// The command list is a partition of the first `idx_len` indices: ranges
/// are contiguous in order, every command holds at least one index, and
/// consecutive commands bind different textures.
pub open spec fn cmds_wf(cmds: Seq<Command>, idx_len: nat) -> bool {
    &&& cmds.len() == 0 ==> idx_len == 0
    &&& cmds.len() > 0 ==> cmds[0].idx_off == 0
    &&& forall|i: int|
        0 <= i < cmds.len() - 1 ==> (#[trigger] cmds[i]).idx_off + cmds[i].idx_cnt == cmds[
            i + 1
        ].idx_off
    &&& cmds.len() > 0 ==> cmds.last().idx_off + cmds.last().idx_cnt == idx_len
    &&& forall|i: int| 0 <= i < cmds.len() ==> (#[trigger] cmds[i]).idx_cnt > 0
    &&& forall|i: int|
        0 <= i < cmds.len() - 1 ==> (#[trigger] cmds[i]).texture != cmds[i + 1].texture
}

/// The merge rule: a fresh command is needed when there is none yet, or
/// when the last one already holds indices and binds another texture.
pub open spec fn needs_new_command(cmds: Seq<Command>, tex: Option<Texture>) -> bool {
    cmds.len() == 0 || (cmds.last().idx_cnt != 0 && cmds.last().texture != tex)
}

/// The command list after making sure its tail can receive indices for
/// `tex`: either unchanged, or extended by an empty command starting at
/// `idx_len`.
pub open spec fn with_command(cmds: Seq<Command>, tex: Option<Texture>, idx_len: nat) -> Seq<
    Command,
> {
    if needs_new_command(cmds, tex) {
        cmds.push(Command { texture: tex, idx_off: idx_len as usize, idx_cnt: 0 })
    } else {
        cmds
    }
}

/// The command list with `k` more indices recorded against its last
/// command.
pub open spec fn bump_last(cmds: Seq<Command>, k: nat) -> Seq<Command>
    recommends
        cmds.len() > 0,
{
    cmds.update(
        cmds.len() - 1,
        (Command {
            texture: cmds.last().texture,
            idx_off: cmds.last().idx_off,
            idx_cnt: (cmds.last().idx_cnt + k) as usize,
        }),
    )
}

/// The command list after recording `k` freshly pushed indices under the
/// active texture `tex`, with `idx_len` indices already present.
pub open spec fn after_push(
    cmds: Seq<Command>,
    tex: Option<Texture>,
    idx_len: nat,
    k: nat,
) -> Seq<Command> {
    bump_last(with_command(cmds, tex, idx_len), k)
}

/// The mutable primitive-list builder: transient emission state plus the
/// accumulated vertex, index and command arrays.
pub struct PrimitiveList {
    pub texture: Option<Texture>,
    pub immediate_indices: bool,
    pub px_space: bool,
    pub tex_coord: Vec2,
    pub color: Rgba,
    pub window_size: [u32; 2],
    pub commands: Vec<Command>,
    pub idx: Vec<u32>,
    pub vtx: Vec<Vertex>,
}

impl PrimitiveList {
    /// Everything the builder promises between operations: the command
    /// ranges partition the index array, every index refers to an existing
    /// vertex, one more vertex index still fits in `u32`, and all scalars
    /// are well formed.
    pub open spec fn wf(self) -> bool {
        &&& cmds_wf(self.commands@, self.idx@.len() as nat)
        &&& forall|i: int| 0 <= i < self.idx@.len() ==> (#[trigger] self.idx@[i]) < self.vtx@.len()
        &&& self.vtx@.len() <= u32::MAX
        &&& forall|i: int| 0 <= i < self.vtx@.len() ==> (#[trigger] self.vtx@[i]).wf()
        &&& self.tex_coord.wf()
        &&& self.color.wf()
        &&& match self.texture {
            Some(t) => t.wf(),
            None => true,
        }
    }

    // Views of the accumulated arrays and the transient state.
    pub open spec fn commands_view(self) -> Seq<Command> {
        self.commands@
    }

    pub open spec fn idx_view(self) -> Seq<u32> {
        self.idx@
    }

    pub open spec fn vtx_view(self) -> Seq<Vertex> {
        self.vtx@
    }

    pub open spec fn texture_spec(self) -> Option<Texture> {
        self.texture
    }

    pub open spec fn immediate_indices_spec(self) -> bool {
        self.immediate_indices
    }

    pub open spec fn px_space_spec(self) -> bool {
        self.px_space
    }

    pub open spec fn tex_coord_spec(self) -> Vec2 {
        self.tex_coord
    }

    pub open spec fn color_spec(self) -> Rgba {
        self.color
    }

    pub open spec fn window_size_spec(self) -> [u32; 2] {
        self.window_size
    }

    /// The vertex the builder would emit at position `p` under its current
    /// transient state.
    pub open spec fn mk_vertex(self, p: Vec2) -> Vertex {
        Vertex { coord: p, tex_coord: self.tex_coord, color: self.color }
    }

    /// An empty builder: no operations recorded, defaults for the
    /// transient state, a zero-sized viewport.
    pub open spec fn is_initial(self) -> bool {
        &&& self.texture is None
        &&& !self.immediate_indices
        &&& !self.px_space
        &&& self.tex_coord == (Vec2 { x: Scalar { num: 0, den: 1 }, y: Scalar { num: 0, den: 1 } })
        &&& self.color == Rgba::zero_spec()
        &&& self.window_size[0] == 0
        &&& self.window_size[1] == 0
        &&& self.commands@.len() == 0
        &&& self.idx@.len() == 0
        &&& self.vtx@.len() == 0
    }

    pub fn new() -> (r: PrimitiveList)
        ensures
            r.wf(),
            r.is_initial(),
    {
        let z = Scalar::from_int(0);
        PrimitiveList {
            texture: None,
            immediate_indices: false,
            px_space: false,
            tex_coord: Vec2 { x: z, y: z },
            color: Rgba::zero(),
            window_size: [0, 0],
            commands: Vec::new(),
            idx: Vec::new(),
            vtx: Vec::new(),
        }
    }

    /// Drops all recorded operations and resets the transient emission
    /// state to its defaults; the viewport size is kept.
    pub fn clear(&mut self)
        ensures
            final(self).wf(),
            final(self).texture_spec() is None,
            !final(self).immediate_indices_spec(),
            !final(self).px_space_spec(),
            final(self).tex_coord_spec() == (Vec2 {
                x: Scalar { num: 0, den: 1 },
                y: Scalar { num: 0, den: 1 },
            }),
            final(self).color_spec() == Rgba::zero_spec(),
            final(self).window_size_spec() == old(self).window_size_spec(),
            final(self).commands_view().len() == 0,
            final(self).idx_view().len() == 0,
            final(self).vtx_view().len() == 0,
    {
        let z = Scalar::from_int(0);
        self.texture = None;
        self.immediate_indices = false;
        self.px_space = false;
        self.tex_coord = Vec2 { x: z, y: z };
        self.color = Rgba::zero();
        self.commands.clear();
        self.idx.clear();
        self.vtx.clear();
    }

    /// Sets the active texture; later emissions are grouped under it.
    pub fn set_texture(&mut self, texture: Option<Texture>)
        requires
            old(self).wf(),
            match texture {
                Some(t) => t.wf(),
                None => true,
            },
        ensures
            final(self).wf(),
            *final(self) == (PrimitiveList { texture, ..*old(self) }),
    {
        self.texture = texture;
    }

    /// Sets the color applied to subsequently emitted vertices.
    pub fn set_color(&mut self, color: Rgba)
        requires
            old(self).wf(),
            color.wf(),
        ensures
            final(self).wf(),
            *final(self) == (PrimitiveList { color, ..*old(self) }),
    {
        self.color = color;
    }

    /// Sets the texture coordinate applied to subsequently emitted
    /// vertices.
    pub fn set_tex_coord(&mut self, tex_coord: Vec2)
        requires
            old(self).wf(),
            tex_coord.wf(),
        ensures
            final(self).wf(),
            *final(self) == (PrimitiveList { tex_coord, ..*old(self) }),
    {
        self.tex_coord = tex_coord;
    }

    /// Chooses between pixel-space inputs (transformed to NDC on emission)
    /// and raw NDC inputs.
    pub fn set_px_space(&mut self, px_space: bool)
        requires
            old(self).wf(),
        ensures
            final(self).wf(),
            *final(self) == (PrimitiveList { px_space, ..*old(self) }),
    {
        self.px_space = px_space;
    }

    /// Chooses whether emitted vertices also append their index to the
    /// index array at once.
    pub fn set_immediate_indices(&mut self, immediate_indices: bool)
        requires
            old(self).wf(),
        ensures
            final(self).wf(),
            *final(self) == (PrimitiveList { immediate_indices, ..*old(self) }),
    {
        self.immediate_indices = immediate_indices;
    }

    /// Sets the viewport size in pixels that pixel-space inputs are
    /// measured against.
    pub fn set_window_size(&mut self, window_size: [u32; 2])
        requires
            old(self).wf(),
        ensures
            final(self).wf(),
            *final(self) == (PrimitiveList { window_size, ..*old(self) }),
    {
        self.window_size = window_size;
    }

    /// Transforms a pixel-space coordinate to normalized device
    /// coordinates for the current viewport: `x / w * 2 - 1` on the X
    /// axis and `y / h * -2 + 1` on the Y axis, exactly.
    pub fn px_to_pos(&self, coord: Vec2) -> (r: Vec2)
        requires
            coord.wf(),
            input_bounded(coord.x),
            input_bounded(coord.y),
            self.window_size_spec()[0] >= 1,
            self.window_size_spec()[1] >= 1,
        ensures
            r.wf(),
            is_ndc_x(r.x, coord.x, self.window_size_spec()[0] as int),
            is_ndc_y(r.y, coord.y, self.window_size_spec()[1] as int),
    {
        let w = self.window_size[0] as i64;
        let h = self.window_size[1] as i64;
        proof {
            lemma_transform_fits(coord.x.num as int, coord.x.den as int, w as int);
            lemma_transform_fits(coord.y.num as int, coord.y.den as int, h as int);
        }
        let xd = coord.x.den as i64;
        let yd = coord.y.den as i64;
        let x = Scalar { num: 2 * coord.x.num - w * xd, den: (w * xd) as u64 };
        let y = Scalar { num: h * yd - 2 * coord.y.num, den: (h * yd) as u64 };
        Vec2 { x, y }
    }

    /// Transforms a normalized-device coordinate back to pixel space for
    /// the current viewport: the exact inverse of [`Self::px_to_pos`].
    pub fn pos_to_px(&self, coord: Vec2) -> (r: Vec2)
        requires
            coord.wf(),
            ndc_input_bounded(coord.x),
            ndc_input_bounded(coord.y),
            self.window_size_spec()[0] >= 1,
            self.window_size_spec()[1] >= 1,
        ensures
            r.wf(),
            is_px_x(r.x, coord.x, self.window_size_spec()[0] as int),
            is_px_y(r.y, coord.y, self.window_size_spec()[1] as int),
    {
        let w = self.window_size[0] as i64;
        let h = self.window_size[1] as i64;
        proof {
            lemma_inverse_fits(coord.x.num as int, coord.x.den as int, w as int);
            lemma_inverse_fits(coord.y.num as int, coord.y.den as int, h as int);
        }
        let xd = coord.x.den as i64;
        let yd = coord.y.den as i64;
        let x = Scalar { num: (coord.x.num + xd) * w, den: (2 * xd) as u64 };
        let y = Scalar { num: (yd - coord.y.num) * h, den: (2 * yd) as u64 };
        Vec2 { x, y }
    }

    /// Makes sure the command list ends in a command that can receive
    /// indices for the active texture, per the merge rule.  The new
    /// command, if one was started, is still empty: callers record the
    /// indices they push right after.
    fn ensure_command(&mut self)
        requires
            old(self).wf(),
        ensures
            final(self).commands@ == with_command(
                old(self).commands@,
                old(self).texture,
                old(self).idx@.len() as nat,
            ),
            final(self).commands@.len() > 0,
            final(self).commands@.last().texture == old(self).texture,
            final(self).commands@.last().idx_off + final(self).commands@.last().idx_cnt
                == final(self).idx@.len(),
            *final(self) == (PrimitiveList { commands: final(self).commands, ..*old(self) }),
    {
        let n = self.commands.len();
        let need_push = if n == 0 {
            true
        } else {
            let last = self.commands[n - 1];
            last.idx_cnt != 0 && !texture_eq(&last.texture, &self.texture)
        };
        if need_push {
            self.commands.push(
                Command { texture: self.texture, idx_off: self.idx.len(), idx_cnt: 0 },
            );
        }
    }

    /// Records `k` just-pushed indices against the last command.  Callers
    /// pair it with `ensure_command` and the index pushes themselves.
    fn bump_last_command(&mut self, k: usize)
        requires
            old(self).commands@.len() > 0,
            old(self).commands@.last().idx_cnt + k <= usize::MAX,
        ensures
            final(self).commands@ == bump_last(old(self).commands@, k as nat),
            *final(self) == (PrimitiveList { commands: final(self).commands, ..*old(self) }),
    {
        let n = self.commands.len();
        let mut last = self.commands[n - 1];
        last.idx_cnt = last.idx_cnt + k;
        self.commands[n - 1] = last;
        proof {
            assert(self.commands@ =~= bump_last(old(self).commands@, k as nat));
        }
    }

    /// Appends `idx` to the index array and records it against the current
    /// command, starting a new command first if the merge rule asks for
    /// one.
    pub fn push_index(&mut self, idx: u32)
        requires
            old(self).wf(),
            idx < old(self).vtx@.len(),
            old(self).idx@.len() < usize::MAX,
        ensures
            final(self).wf(),
            final(self).idx@ == old(self).idx@.push(idx),
            final(self).commands@ == after_push(
                old(self).commands@,
                old(self).texture,
                old(self).idx@.len() as nat,
                1,
            ),
            *final(self) == (PrimitiveList { commands: final(self).commands, idx: final(self).idx, ..*old(self) }),
    {
        self.ensure_command();
        self.bump_last_command(1);
        self.idx.push(idx);
        proof {
            lemma_after_push_wf(
                old(self).commands@,
                old(self).texture,
                old(self).idx@.len() as nat,
                1,
            );
        }
    }

    /// Appends a vertex at `coord` under the current transient state and
    /// returns its index.
    fn vertex_inner(&mut self, coord: Vec2) -> (r: u32)
        requires
            old(self).wf(),
            coord.wf(),
            old(self).vtx@.len() < u32::MAX,
        ensures
            final(self).wf(),
            r == old(self).vtx@.len(),
            final(self).vtx@ == old(self).vtx@.push(old(self).mk_vertex(coord)),
            *final(self) == (PrimitiveList { vtx: final(self).vtx, ..*old(self) }),
    {
        let r = self.vtx.len() as u32;
        self.vtx.push(Vertex { coord, tex_coord: self.tex_coord, color: self.color });
        r
    }

    /// Emits one vertex at `coord` and returns its index.  In pixel-space
    /// mode the coordinate is first transformed to NDC.  With immediate
    /// indices on, the index is also appended to the index array at once.
    pub fn vertex_2f(&mut self, coord: Vec2) -> (r: u32)
        requires
            old(self).wf(),
            coord.wf(),
            old(self).px_space_spec() ==> input_bounded(coord.x) && input_bounded(coord.y)
                && old(self).window_size_spec()[0] >= 1 && old(self).window_size_spec()[1] >= 1,
            old(self).vtx@.len() < u32::MAX,
            old(self).idx@.len() < usize::MAX,
        ensures
            final(self).wf(),
            r == old(self).vtx@.len(),
            final(self).vtx@.len() == old(self).vtx@.len() + 1,
            forall|i: int| 0 <= i < old(self).vtx@.len() ==> final(self).vtx@[i] == old(self).vtx@[i],
            final(self).vtx@.last().tex_coord == old(self).tex_coord_spec(),
            final(self).vtx@.last().color == old(self).color_spec(),
            old(self).px_space_spec() ==> is_ndc_x(
                final(self).vtx@.last().coord.x,
                coord.x,
                old(self).window_size_spec()[0] as int,
            ) && is_ndc_y(
                final(self).vtx@.last().coord.y,
                coord.y,
                old(self).window_size_spec()[1] as int,
            ),
            !old(self).px_space_spec() ==> final(self).vtx@.last().coord == coord,
            old(self).immediate_indices_spec() ==> final(self).idx@ == old(self).idx@.push(r)
                && final(self).commands@ == after_push(
                old(self).commands@,
                old(self).texture,
                old(self).idx@.len() as nat,
                1,
            ),
            !old(self).immediate_indices_spec() ==> final(self).idx@ == old(self).idx@ && final(self).commands@
                == old(self).commands@,
            *final(self) == (PrimitiveList {
                commands: final(self).commands,
                idx: final(self).idx,
                vtx: final(self).vtx,
                ..*old(self)
            }),
    {
        let coord = if self.px_space {
            self.px_to_pos(coord)
        } else {
            coord
        };
        let r = self.vertex_inner(coord);
        if self.immediate_indices {
            self.push_index(r);
        }
        r
    }

    /// Emits the four corner vertices of a rectangle and the six indices
    /// of the two triangles covering it.  In pixel-space mode the bounds
    /// `[x1, y1, x2, y2]` are pixel coordinates (Y growing downward) and
    /// are transformed to NDC corner by corner.
    pub fn rect_f(&mut self, bounds: [Scalar; 4])
        requires
            old(self).wf(),
            bounds[0].wf(),
            bounds[1].wf(),
            bounds[2].wf(),
            bounds[3].wf(),
            old(self).px_space_spec() ==> input_bounded(bounds[0]) && input_bounded(bounds[1])
                && input_bounded(bounds[2]) && input_bounded(bounds[3])
                && old(self).window_size_spec()[0] >= 1 && old(self).window_size_spec()[1] >= 1,
            old(self).vtx@.len() + 4 <= u32::MAX,
            old(self).idx@.len() + 6 <= usize::MAX,
        ensures
            final(self).wf(),
            final(self).vtx@.len() == old(self).vtx@.len() + 4,
            forall|i: int|
                0 <= i < old(self).vtx@.len() ==> final(self).vtx@[i] == old(self).vtx@[i],
            final(self).idx@ == old(self).idx@ + quad_indices(old(self).vtx@.len() as nat),
            final(self).commands@ == after_push(
                old(self).commands@,
                old(self).texture,
                old(self).idx@.len() as nat,
                6,
            ),
            ({
                let n = old(self).vtx@.len() as int;
                let v0 = final(self).vtx@[n];
                let v1 = final(self).vtx@[n + 1];
                let v2 = final(self).vtx@[n + 2];
                let v3 = final(self).vtx@[n + 3];
                let w = old(self).window_size_spec()[0] as int;
                let h = old(self).window_size_spec()[1] as int;
                &&& v0.tex_coord == old(self).tex_coord_spec() && v0.color == old(
                    self,
                ).color_spec()
                &&& v1.tex_coord == old(self).tex_coord_spec() && v1.color == old(
                    self,
                ).color_spec()
                &&& v2.tex_coord == old(self).tex_coord_spec() && v2.color == old(
                    self,
                ).color_spec()
                &&& v3.tex_coord == old(self).tex_coord_spec() && v3.color == old(
                    self,
                ).color_spec()
                &&& if old(self).px_space_spec() {
                    &&& is_ndc_x(v0.coord.x, bounds[0], w) && is_ndc_y(v0.coord.y, bounds[3], h)
                    &&& is_ndc_x(v1.coord.x, bounds[2], w) && is_ndc_y(v1.coord.y, bounds[3], h)
                    &&& is_ndc_x(v2.coord.x, bounds[0], w) && is_ndc_y(v2.coord.y, bounds[1], h)
                    &&& is_ndc_x(v3.coord.x, bounds[2], w) && is_ndc_y(v3.coord.y, bounds[1], h)
                } else {
                    &&& v0.coord == (Vec2 { x: bounds[0], y: bounds[1] })
                    &&& v1.coord == (Vec2 { x: bounds[2], y: bounds[1] })
                    &&& v2.coord == (Vec2 { x: bounds[0], y: bounds[3] })
                    &&& v3.coord == (Vec2 { x: bounds[2], y: bounds[3] })
                }
            }),
            *final(self) == (PrimitiveList {
                commands: final(self).commands,
                idx: final(self).idx,
                vtx: final(self).vtx,
                ..*old(self)
            }),
    {
        if self.px_space {
            let lo = self.px_to_pos(Vec2 { x: bounds[0], y: bounds[3] });
            let hi = self.px_to_pos(Vec2 { x: bounds[2], y: bounds[1] });
            self.rect_inner(lo.x, lo.y, hi.x, hi.y);
        } else {
            self.rect_inner(bounds[0], bounds[1], bounds[2], bounds[3]);
        }
    }

    /// Emits the quad for `rect_f` once the corners are already in NDC.
    #[verifier::rlimit(50)]
    fn rect_inner(&mut self, x1: Scalar, y1: Scalar, x2: Scalar, y2: Scalar)
        requires
            old(self).wf(),
            x1.wf(),
            y1.wf(),
            x2.wf(),
            y2.wf(),
            old(self).vtx@.len() + 4 <= u32::MAX,
            old(self).idx@.len() + 6 <= usize::MAX,
        ensures
            final(self).wf(),
            final(self).vtx@ == old(self).vtx@ + seq![
                old(self).mk_vertex(Vec2 { x: x1, y: y1 }),
                old(self).mk_vertex(Vec2 { x: x2, y: y1 }),
                old(self).mk_vertex(Vec2 { x: x1, y: y2 }),
                old(self).mk_vertex(Vec2 { x: x2, y: y2 }),
            ],
            final(self).idx@ == old(self).idx@ + quad_indices(old(self).vtx@.len() as nat),
            final(self).commands@ == after_push(
                old(self).commands@,
                old(self).texture,
                old(self).idx@.len() as nat,
                6,
            ),
            *final(self) == (PrimitiveList {
                commands: final(self).commands,
                idx: final(self).idx,
                vtx: final(self).vtx,
                ..*old(self)
            }),
    {
        let idx1 = self.vertex_inner(Vec2 { x: x1, y: y1 });
        let idx2 = self.vertex_inner(Vec2 { x: x2, y: y1 });
        let idx3 = self.vertex_inner(Vec2 { x: x1, y: y2 });
        let idx4 = self.vertex_inner(Vec2 { x: x2, y: y2 });
        self.ensure_command();
        self.bump_last_command(6);
        self.idx.push(idx1);
        self.idx.push(idx2);
        self.idx.push(idx3);
        self.idx.push(idx4);
        self.idx.push(idx3);
        self.idx.push(idx2);
        proof {
            lemma_after_push_wf(
                old(self).commands@,
                old(self).texture,
                old(self).idx@.len() as nat,
                6,
            );
            assert(self.idx@ =~= old(self).idx@ + quad_indices(old(self).vtx@.len() as nat));
            assert(self.vtx@ =~= old(self).vtx@ + seq![
                old(self).mk_vertex(Vec2 { x: x1, y: y1 }),
                old(self).mk_vertex(Vec2 { x: x2, y: y1 }),
                old(self).mk_vertex(Vec2 { x: x1, y: y2 }),
                old(self).mk_vertex(Vec2 { x: x2, y: y2 }),
            ]);
        }
    }

    /// Emits a textured quad: the rectangle of `size` pixels at pixel
    /// position `dst` (always pixel space, regardless of the coordinate
    /// mode), sampling the active texture's rectangle of the same size at
    /// `src`, whose texture coordinates are the pixel positions divided by
    /// the texture extent.  Without an active texture nothing is emitted.
    pub fn image_rect_i(&mut self, dst: [i64; 2], src: [i64; 2], size: [u32; 2])
        requires
            old(self).wf(),
            -0x80_0000_0000 <= dst[0] <= 0x80_0000_0000,
            -0x80_0000_0000 <= dst[1] <= 0x80_0000_0000,
            -0x80_0000_0000 <= src[0] <= 0x80_0000_0000,
            -0x80_0000_0000 <= src[1] <= 0x80_0000_0000,
            old(self).texture_spec() is Some ==> old(self).window_size_spec()[0] >= 1 && old(
                self,
            ).window_size_spec()[1] >= 1,
            old(self).vtx@.len() + 4 <= u32::MAX,
            old(self).idx@.len() + 6 <= usize::MAX,
        ensures
            final(self).wf(),
            old(self).texture_spec() is None ==> *final(self) == *old(self),
            old(self).texture_spec() is Some ==> ({
                let t = old(self).texture_spec()->Some_0;
                let n = old(self).vtx@.len() as int;
                let v0 = final(self).vtx@[n];
                let v1 = final(self).vtx@[n + 1];
                let v2 = final(self).vtx@[n + 2];
                let v3 = final(self).vtx@[n + 3];
                let w = old(self).window_size_spec()[0] as int;
                let h = old(self).window_size_spec()[1] as int;
                let dx1 = Scalar { num: dst[0], den: 1 };
                let dy1 = Scalar { num: dst[1], den: 1 };
                let dx2 = Scalar { num: (dst[0] + size[0]) as i64, den: 1 };
                let dy2 = Scalar { num: (dst[1] + size[1]) as i64, den: 1 };
                &&& final(self).vtx@.len() == n + 4
                &&& forall|i: int| 0 <= i < n ==> final(self).vtx@[i] == old(self).vtx@[i]
                &&& is_ndc_x(v0.coord.x, dx1, w) && is_ndc_y(v0.coord.y, dy2, h)
                &&& is_ndc_x(v1.coord.x, dx2, w) && is_ndc_y(v1.coord.y, dy2, h)
                &&& is_ndc_x(v2.coord.x, dx1, w) && is_ndc_y(v2.coord.y, dy1, h)
                &&& is_ndc_x(v3.coord.x, dx2, w) && is_ndc_y(v3.coord.y, dy1, h)
                &&& is_ratio(v0.tex_coord.x, src[0] as int, t.width as int)
                &&& is_ratio(v0.tex_coord.y, src[1] + size[1], t.height as int)
                &&& is_ratio(v1.tex_coord.x, src[0] + size[0], t.width as int)
                &&& is_ratio(v1.tex_coord.y, src[1] + size[1], t.height as int)
                &&& is_ratio(v2.tex_coord.x, src[0] as int, t.width as int)
                &&& is_ratio(v2.tex_coord.y, src[1] as int, t.height as int)
                &&& is_ratio(v3.tex_coord.x, src[0] + size[0], t.width as int)
                &&& is_ratio(v3.tex_coord.y, src[1] as int, t.height as int)
                &&& v0.color == old(self).color_spec() && v1.color == old(self).color_spec()
                    && v2.color == old(self).color_spec() && v3.color == old(self).color_spec()
                &&& final(self).idx@ == old(self).idx@ + quad_indices(old(self).vtx@.len() as nat)
                &&& final(self).commands@ == after_push(
                    old(self).commands@,
                    old(self).texture,
                    old(self).idx@.len() as nat,
                    6,
                )
                &&& *final(self) == (PrimitiveList {
                    commands: final(self).commands,
                    idx: final(self).idx,
                    vtx: final(self).vtx,
                    ..*old(self)
                })
            }),
            old(self).texture_spec() is Some ==> textured_quad_at(
                final(self).vtx@,
                old(self).vtx@.len() as int,
                dst[0] as int,
                dst[1] as int,
                src[0] as int,
                src[1] as int,
                size[0] as int,
                size[1] as int,
                old(self).window_size_spec()[0] as int,
                old(self).window_size_spec()[1] as int,
                old(self).texture_spec()->Some_0.width as int,
                old(self).texture_spec()->Some_0.height as int,
                old(self).color_spec(),
            ),
    {
        let tex = match self.texture {
            None => { return ; },
            Some(t) => t,
        };
        let dst2 = [dst[0] + size[0] as i64, dst[1] + size[1] as i64];
        let src2 = [src[0] + size[0] as i64, src[1] + size[1] as i64];
        let lo = self.px_to_pos(
            Vec2 { x: Scalar { num: dst[0], den: 1 }, y: Scalar { num: dst[1], den: 1 } },
        );
        let hi = self.px_to_pos(
            Vec2 { x: Scalar { num: dst2[0], den: 1 }, y: Scalar { num: dst2[1], den: 1 } },
        );
        let x1 = lo.x;
        let y2 = lo.y;
        let x2 = hi.x;
        let y1 = hi.y;
        let u1 = Scalar { num: src[0], den: tex.width as u64 };
        let v2t = Scalar { num: src[1], den: tex.height as u64 };
        let u2 = Scalar { num: src2[0], den: tex.width as u64 };
        let v1t = Scalar { num: src2[1], den: tex.height as u64 };
        let color = self.color;
        self.vtx.push(
            Vertex {
                coord: Vec2 { x: x1, y: y1 },
                tex_coord: Vec2 { x: u1, y: v1t },
                color,
            },
        );
        self.vtx.push(
            Vertex {
                coord: Vec2 { x: x2, y: y1 },
                tex_coord: Vec2 { x: u2, y: v1t },
                color,
            },
        );
        self.vtx.push(
            Vertex {
                coord: Vec2 { x: x1, y: y2 },
                tex_coord: Vec2 { x: u1, y: v2t },
                color,
            },
        );
        self.vtx.push(
            Vertex {
                coord: Vec2 { x: x2, y: y2 },
                tex_coord: Vec2 { x: u2, y: v2t },
                color,
            },
        );
        let idx1 = (self.vtx.len() - 4) as u32;
        self.ensure_command();
        self.bump_last_command(6);
        self.idx.push(idx1);
        self.idx.push(idx1 + 1);
        self.idx.push(idx1 + 2);
        self.idx.push(idx1 + 3);
        self.idx.push(idx1 + 2);
        self.idx.push(idx1 + 1);
        proof {
            lemma_after_push_wf(
                old(self).commands@,
                old(self).texture,
                old(self).idx@.len() as nat,
                6,
            );
            assert(self.idx@ =~= old(self).idx@ + quad_indices(old(self).vtx@.len() as nat));
        }
    }

    /// Draws `text` with the atlas `font`, the pen starting at the pixel
    /// position `start`: glyphs and spaces advance the pen by one cell
    /// width, a newline returns it and advances by one cell height, and
    /// every character other than space and newline emits one textured
    /// quad of its atlas cell (the fallback cell when unmapped).  The
    /// atlas texture is bound for the emitted quads and the previously
    /// active texture restored afterwards.
    #[verifier::rlimit(100)]
    pub fn text_i(&mut self, font: &Font, start: [i64; 2], text: &str)
        requires
            old(self).wf(),
            font.wf(),
            old(self).window_size_spec()[0] >= 1,
            old(self).window_size_spec()[1] >= 1,
            text@.len() <= 0x1_0000,
            -0x4000_0000 <= start[0] <= 0x4000_0000,
            -0x4000_0000 <= start[1] <= 0x4000_0000,
            old(self).vtx@.len() + 4 * text@.len() <= u32::MAX,
            old(self).idx@.len() + 6 * text@.len() <= usize::MAX,
        ensures
            final(self).wf(),
            ({
                let cw = font.char_size[0] as int;
                let ch = font.char_size[1] as int;
                let k = drawn_chars(text@).len() as int;
                let n0 = old(self).vtx@.len() as int;
                let l0 = old(self).idx@.len() as int;
                &&& final(self).vtx@.len() == n0 + 4 * k
                &&& forall|q: int| 0 <= q < n0 ==> final(self).vtx@[q] == old(self).vtx@[q]
                &&& final(self).idx@.len() == l0 + 6 * k
                &&& forall|q: int| 0 <= q < l0 ==> final(self).idx@[q] == old(self).idx@[q]
                &&& forall|j: int|
                    0 <= j < k ==> #[trigger] final(self).idx@.subrange(l0 + 6 * j, l0 + 6 * j + 6)
                        == quad_indices((n0 + 4 * j) as nat)
                &&& forall|j: int|
                    0 <= j < k ==> #[trigger] textured_quad_at(
                        final(self).vtx@,
                        n0 + 4 * j,
                        start[0] + glyph_positions(text@, cw, ch)[j].0,
                        start[1] + glyph_positions(text@, cw, ch)[j].1,
                        font.cell_of(drawn_chars(text@)[j]).0 as int,
                        font.cell_of(drawn_chars(text@)[j]).1 as int,
                        cw,
                        ch,
                        old(self).window_size_spec()[0] as int,
                        old(self).window_size_spec()[1] as int,
                        font.texture.width as int,
                        font.texture.height as int,
                        old(self).color_spec(),
                    )
                &&& (k == 0 ==> final(self).commands@ == old(self).commands@)
                &&& (k > 0 ==> final(self).commands@ == after_push(
                    old(self).commands@,
                    Some(font.texture),
                    l0 as nat,
                    (6 * k) as nat,
                ))
            }),
            *final(self) == (PrimitiveList {
                commands: final(self).commands,
                idx: final(self).idx,
                vtx: final(self).vtx,
                ..*old(self)
            }),
    {
        let ghost cw = font.char_size[0] as int;
        let ghost ch = font.char_size[1] as int;
        let ghost n0 = old(self).vtx@.len() as int;
        let ghost l0 = old(self).idx@.len() as int;
        let old_texture = self.texture;
        self.texture = Some(font.texture);
        let n = text.unicode_len();
        let mut off_x: i64 = 0;
        let mut off_y: i64 = 0;
        let mut i: usize = 0;
        proof {
            assert(text@.subrange(0, 0) =~= Seq::<char>::empty());
        }
        while i < n
            invariant
                n == text@.len(),
                n <= 0x1_0000,
                i <= n,
                font.wf(),
                self.texture == Some(font.texture),
                self.wf(),
                old(self).wf(),
                -0x4000_0000 <= start[0] <= 0x4000_0000,
                -0x4000_0000 <= start[1] <= 0x4000_0000,
                old(self).window_size_spec()[0] >= 1,
                old(self).window_size_spec()[1] >= 1,
                n0 == old(self).vtx@.len(),
                l0 == old(self).idx@.len(),
                cw == font.char_size[0] as int,
                ch == font.char_size[1] as int,
                n0 + 4 * n <= u32::MAX,
                l0 + 6 * n <= usize::MAX,
                off_x == pen_after(text@.subrange(0, i as int), cw, ch).0,
                off_y == pen_after(text@.subrange(0, i as int), cw, ch).1,
                0 <= off_x <= i as int * cw,
                0 <= off_y <= i as int * ch,
                *self == (PrimitiveList {
                    texture: self.texture,
                    commands: self.commands,
                    idx: self.idx,
                    vtx: self.vtx,
                    ..*old(self)
                }),
                ({
                    let pre = text@.subrange(0, i as int);
                    let k = drawn_chars(pre).len() as int;
                    &&& k <= i
                    &&& glyph_positions(pre, cw, ch).len() == k
                    &&& self.vtx@.len() == n0 + 4 * k
                    &&& forall|q: int| 0 <= q < n0 ==> self.vtx@[q] == old(self).vtx@[q]
                    &&& self.idx@.len() == l0 + 6 * k
                    &&& forall|q: int| 0 <= q < l0 ==> self.idx@[q] == old(self).idx@[q]
                    &&& forall|j: int|
                        0 <= j < k ==> #[trigger] self.idx@.subrange(l0 + 6 * j, l0 + 6 * j + 6)
                            == quad_indices((n0 + 4 * j) as nat)
                    &&& forall|j: int|
                        0 <= j < k ==> #[trigger] textured_quad_at(
                            self.vtx@,
                            n0 + 4 * j,
                            start[0] + glyph_positions(pre, cw, ch)[j].0,
                            start[1] + glyph_positions(pre, cw, ch)[j].1,
                            font.cell_of(drawn_chars(pre)[j]).0 as int,
                            font.cell_of(drawn_chars(pre)[j]).1 as int,
                            cw,
                            ch,
                            old(self).window_size_spec()[0] as int,
                            old(self).window_size_spec()[1] as int,
                            font.texture.width as int,
                            font.texture.height as int,
                            old(self).color_spec(),
                        )
                    &&& (k == 0 ==> self.commands@ == old(self).commands@)
                    &&& (k > 0 ==> self.commands@ == after_push(
                        old(self).commands@,
                        Some(font.texture),
                        l0 as nat,
                        (6 * k) as nat,
                    ))
                }),
            decreases n - i,
        {
            let ghost pre = text@.subrange(0, i as int);
            let ghost k = drawn_chars(pre).len() as int;
            let c = text.get_char(i);
            proof {
                let cur = text@.subrange(0, i as int + 1);
                assert(cur.drop_last() =~= pre);
                assert(cur.last() == text@[i as int]);
                assert((i as int + 1) * cw == i as int * cw + cw) by (nonlinear_arith);
                assert((i as int + 1) * ch == i as int * ch + ch) by (nonlinear_arith);
                assert(i as int * cw <= 0x1_0000 * 0x1000) by (nonlinear_arith)
                    requires
                        0 <= i as int <= 0x1_0000,
                        0 <= cw <= 0x1000,
                ;
                assert(i as int * ch <= 0x1_0000 * 0x1000) by (nonlinear_arith)
                    requires
                        0 <= i as int <= 0x1_0000,
                        0 <= ch <= 0x1000,
                ;
            }
            if c == ' ' {
                off_x = off_x + font.char_size[0] as i64;
            } else if c == '\n' {
                off_x = 0;
                off_y = off_y + font.char_size[1] as i64;
            } else {
                let cell = font.glyph_origin(c);
                let ghost vs_before = self.vtx@;
                let ghost idx_before = self.idx@;
                let ghost cmds_before = self.commands@;
                self.image_rect_i(
                    [start[0] + off_x, start[1] + off_y],
                    [cell[0] as i64, cell[1] as i64],
                    font.char_size,
                );
                proof {
                    let cur = text@.subrange(0, i as int + 1);
                    assert(drawn_chars(cur) == drawn_chars(pre).push(c));
                    assert(glyph_positions(cur, cw, ch) == glyph_positions(pre, cw, ch).push(
                        pen_after(pre, cw, ch),
                    ));
                    assert forall|j: int| 0 <= j < k implies #[trigger] self.idx@.subrange(
                        l0 + 6 * j,
                        l0 + 6 * j + 6,
                    ) == quad_indices((n0 + 4 * j) as nat) by {
                        assert(self.idx@.subrange(l0 + 6 * j, l0 + 6 * j + 6) =~= idx_before
                            .subrange(l0 + 6 * j, l0 + 6 * j + 6));
                    }
                    assert(self.idx@.subrange(l0 + 6 * k, l0 + 6 * k + 6) =~= quad_indices(
                        (n0 + 4 * k) as nat,
                    ));
                    assert forall|j: int| 0 <= j < k implies #[trigger] textured_quad_at(
                        self.vtx@,
                        n0 + 4 * j,
                        start[0] + glyph_positions(cur, cw, ch)[j].0,
                        start[1] + glyph_positions(cur, cw, ch)[j].1,
                        font.cell_of(drawn_chars(cur)[j]).0 as int,
                        font.cell_of(drawn_chars(cur)[j]).1 as int,
                        cw,
                        ch,
                        old(self).window_size_spec()[0] as int,
                        old(self).window_size_spec()[1] as int,
                        font.texture.width as int,
                        font.texture.height as int,
                        old(self).color_spec(),
                    ) by {
                        assert(textured_quad_at(
                            vs_before,
                            n0 + 4 * j,
                            start[0] + glyph_positions(pre, cw, ch)[j].0,
                            start[1] + glyph_positions(pre, cw, ch)[j].1,
                            font.cell_of(drawn_chars(pre)[j]).0 as int,
                            font.cell_of(drawn_chars(pre)[j]).1 as int,
                            cw,
                            ch,
                            old(self).window_size_spec()[0] as int,
                            old(self).window_size_spec()[1] as int,
                            font.texture.width as int,
                            font.texture.height as int,
                            old(self).color_spec(),
                        ));
                        assert(glyph_positions(cur, cw, ch)[j] == glyph_positions(pre, cw, ch)[j]);
                        assert(drawn_chars(cur)[j] == drawn_chars(pre)[j]);
                        assert(self.vtx@[n0 + 4 * j] == vs_before[n0 + 4 * j]);
                        assert(self.vtx@[n0 + 4 * j + 1] == vs_before[n0 + 4 * j + 1]);
                        assert(self.vtx@[n0 + 4 * j + 2] == vs_before[n0 + 4 * j + 2]);
                        assert(self.vtx@[n0 + 4 * j + 3] == vs_before[n0 + 4 * j + 3]);
                    }
                    if k > 0 {
                        lemma_after_push_merge(
                            old(self).commands@,
                            Some(font.texture),
                            l0 as nat,
                            (6 * k) as nat,
                            6,
                        );
                    }
                }
                off_x = off_x + font.char_size[0] as i64;
            }
            i = i + 1;
        }
        proof {
            assert(text@.subrange(0, n as int) =~= text@);
        }
        self.texture = old_texture;
    }
}

/// A character that draws a glyph quad: anything but the blank advance
/// (space) and the line break.
pub open spec fn draws_glyph(c: char) -> bool {
    c != ' ' && c != '\n'
}

/// The pen offset, relative to the text origin, after laying out `chars`
/// with cell extent `(cw, ch)`: spaces and glyphs advance the pen by one
/// cell width, a newline returns it and advances by one cell height.
pub open spec fn pen_after(chars: Seq<char>, cw: int, ch: int) -> (int, int)
    decreases chars.len(),
{
    if chars.len() == 0 {
        (0, 0)
    } else {
        let p = pen_after(chars.drop_last(), cw, ch);
        if chars.last() == '\n' {
            (0, p.1 + ch)
        } else {
            (p.0 + cw, p.1)
        }
    }
}

/// The pen offsets at which the glyph-drawing characters of `chars` are
/// drawn, in order.
pub open spec fn glyph_positions(chars: Seq<char>, cw: int, ch: int) -> Seq<(int, int)>
    decreases chars.len(),
{
    if chars.len() == 0 {
        Seq::empty()
    } else {
        let head = glyph_positions(chars.drop_last(), cw, ch);
        if draws_glyph(chars.last()) {
            head.push(pen_after(chars.drop_last(), cw, ch))
        } else {
            head
        }
    }
}

/// The glyph-drawing characters of `chars`, in order.
pub open spec fn drawn_chars(chars: Seq<char>) -> Seq<char>
    decreases chars.len(),
{
    if chars.len() == 0 {
        Seq::empty()
    } else if draws_glyph(chars.last()) {
        drawn_chars(chars.drop_last()).push(chars.last())
    } else {
        drawn_chars(chars.drop_last())
    }
}

/// The four vertices of `vs` starting at `n` form the textured quad that
/// draws the `(sizex, sizey)`-pixel rectangle at pixel position `(dx, dy)`
/// in a `(w, h)`-pixel viewport, sampling the same-size rectangle at
/// `(sx, sy)` of a `(tw, th)`-texel texture, all with color `color`.
pub open spec fn textured_quad_at(
    vs: Seq<Vertex>,
    n: int,
    dx: int,
    dy: int,
    sx: int,
    sy: int,
    sizex: int,
    sizey: int,
    w: int,
    h: int,
    tw: int,
    th: int,
    color: Rgba,
) -> bool {
    let v0 = vs[n];
    let v1 = vs[n + 1];
    let v2 = vs[n + 2];
    let v3 = vs[n + 3];
    let dx1 = Scalar { num: dx as i64, den: 1 };
    let dy1 = Scalar { num: dy as i64, den: 1 };
    let dx2 = Scalar { num: (dx + sizex) as i64, den: 1 };
    let dy2 = Scalar { num: (dy + sizey) as i64, den: 1 };
    &&& n + 4 <= vs.len()
    &&& is_ndc_x(v0.coord.x, dx1, w) && is_ndc_y(v0.coord.y, dy2, h)
    &&& is_ndc_x(v1.coord.x, dx2, w) && is_ndc_y(v1.coord.y, dy2, h)
    &&& is_ndc_x(v2.coord.x, dx1, w) && is_ndc_y(v2.coord.y, dy1, h)
    &&& is_ndc_x(v3.coord.x, dx2, w) && is_ndc_y(v3.coord.y, dy1, h)
    &&& is_ratio(v0.tex_coord.x, sx, tw) && is_ratio(v0.tex_coord.y, sy + sizey, th)
    &&& is_ratio(v1.tex_coord.x, sx + sizex, tw) && is_ratio(v1.tex_coord.y, sy + sizey, th)
    &&& is_ratio(v2.tex_coord.x, sx, tw) && is_ratio(v2.tex_coord.y, sy, th)
    &&& is_ratio(v3.tex_coord.x, sx + sizex, tw) && is_ratio(v3.tex_coord.y, sy, th)
    &&& v0.color == color && v1.color == color && v2.color == color && v3.color == color
}

/// The six indices of the two triangles covering a quad whose four corner
/// vertices start at vertex index `n`.
pub open spec fn quad_indices(n: nat) -> Seq<u32>
    recommends
        n + 4 <= u32::MAX,
{
    seq![
        n as u32,
        (n + 1) as u32,
        (n + 2) as u32,
        (n + 3) as u32,
        (n + 2) as u32,
        (n + 1) as u32,
    ]
}

/// Recording indices twice in a row under one texture merges into a
/// single larger recording: the second push finds the last command
/// already bound to `tex` and nonempty, so it only grows it.
proof fn lemma_after_push_merge(
    cmds: Seq<Command>,
    tex: Option<Texture>,
    idx_len: nat,
    a: nat,
    b: nat,
)
    requires
        cmds_wf(cmds, idx_len),
        a > 0,
        b > 0,
        idx_len + a + b <= usize::MAX,
    ensures
        after_push(after_push(cmds, tex, idx_len, a), tex, (idx_len + a) as nat, b) == after_push(
            cmds,
            tex,
            idx_len,
            (a + b) as nat,
        ),
{
    let s1 = after_push(cmds, tex, idx_len, a);
    lemma_after_push_wf(cmds, tex, idx_len, a);
    assert(s1.last().texture == tex);
    assert(s1.last().idx_cnt > 0);
    assert(!needs_new_command(s1, tex));
    let mid = with_command(cmds, tex, idx_len);
    assert(mid.last().idx_cnt + a <= usize::MAX);
    assert(after_push(s1, tex, (idx_len + a) as nat, b) == bump_last(bump_last(mid, a), b));
    assert(bump_last(bump_last(mid, a), b) =~= bump_last(mid, (a + b) as nat));
}

/// The number of texture-switch boundaries in a command list: the number
/// of adjacent pairs binding different textures.
pub open spec fn switch_count(cmds: Seq<Command>) -> nat
    decreases cmds.len(),
{
    if cmds.len() <= 1 {
        0
    } else {
        switch_count(cmds.drop_last()) + if cmds[cmds.len() - 2].texture != cmds.last().texture {
            1nat
        } else {
            0nat
        }
    }
}

/// In a list whose adjacent commands all bind different textures, every
/// adjacent pair is a switch boundary.
proof fn lemma_switch_count_all_distinct(cmds: Seq<Command>)
    requires
        cmds.len() > 0,
        forall|i: int|
            0 <= i < cmds.len() - 1 ==> (#[trigger] cmds[i]).texture != cmds[i + 1].texture,
    ensures
        switch_count(cmds) == cmds.len() - 1,
    decreases cmds.len(),
{
    if cmds.len() > 1 {
        let head = cmds.drop_last();
        assert(forall|i: int|
            0 <= i < head.len() - 1 ==> (#[trigger] head[i]).texture != head[i + 1].texture);
        lemma_switch_count_all_distinct(head);
        assert(cmds[cmds.len() - 2].texture != cmds.last().texture);
    }
}

/// The command list of any well-formed builder is a partition of the
/// index array in submission order: ranges are contiguous with no gaps or
/// overlaps, they cover exactly `[0, idx.len())`, and the number of
/// commands is the number of texture-switch boundaries plus one.
pub proof fn lemma_commands_partition(l: PrimitiveList)
    requires
        l.wf(),
    ensures
        l.commands@.len() > 0 ==> l.commands@[0].idx_off == 0,
        forall|i: int|
            0 <= i < l.commands@.len() - 1 ==> (#[trigger] l.commands@[i]).idx_off
                + l.commands@[i].idx_cnt == l.commands@[i + 1].idx_off,
        l.commands@.len() > 0 ==> l.commands@.last().idx_off + l.commands@.last().idx_cnt
            == l.idx@.len(),
        l.commands@.len() == 0 ==> l.idx@.len() == 0,
        l.commands@.len() > 0 ==> l.commands@.len() == switch_count(l.commands@) + 1,
{
    if l.commands@.len() > 0 {
        lemma_switch_count_all_distinct(l.commands@);
    }
}

impl Default for PrimitiveList {
    /// An empty builder, as `new` returns.
    fn default() -> (r: PrimitiveList)
        ensures
            r.wf(),
            r.is_initial(),
    {
        PrimitiveList::new()
    }
}

/// Decides equality of two texture bindings by value.
pub fn texture_eq(a: &Option<Texture>, b: &Option<Texture>) -> (r: bool)
    ensures
        r == (a == b),
{
    match (a, b) {
        (None, None) => true,
        (Some(x), Some(y)) => x == y,
        _ => false,
    }
}

/// After `ensure_command` and a bump, the command list still partitions
/// the index array, now `k` longer, and still ends in a command bound to
/// the active texture.
proof fn lemma_after_push_wf(cmds: Seq<Command>, tex: Option<Texture>, idx_len: nat, k: nat)
    requires
        cmds_wf(cmds, idx_len),
        k > 0,
        idx_len + k <= usize::MAX,
    ensures
        cmds_wf(after_push(cmds, tex, idx_len, k), (idx_len + k) as nat),
        after_push(cmds, tex, idx_len, k).len() > 0,
        after_push(cmds, tex, idx_len, k).last().texture == tex,
        with_command(cmds, tex, idx_len).last().idx_cnt + k <= usize::MAX,
{
    let mid = with_command(cmds, tex, idx_len);
    let post = after_push(cmds, tex, idx_len, k);
    let m = mid.len() as int;
    if needs_new_command(cmds, tex) {
        assert(mid.len() == cmds.len() + 1);
        assert(forall|i: int| 0 <= i < cmds.len() ==> mid[i] == cmds[i]);
        assert(mid[m - 1] == (Command { texture: tex, idx_off: idx_len as usize, idx_cnt: 0 }));
    } else {
        assert(mid == cmds);
        assert(mid.last().idx_cnt != 0 ==> mid.last().texture == tex);
        assert(mid.last().idx_cnt > 0);
    }
    assert(mid.last().idx_off + mid.last().idx_cnt == idx_len);
    assert(post == mid.update(
        m - 1,
        (Command {
            texture: mid.last().texture,
            idx_off: mid.last().idx_off,
            idx_cnt: (mid.last().idx_cnt + k) as usize,
        }),
    ));
    assert(post.len() == m);
    assert(forall|i: int| 0 <= i < m - 1 ==> post[i] == mid[i]);
    assert(post[m - 1].idx_off == mid[m - 1].idx_off);
    assert(post[m - 1].idx_cnt == mid[m - 1].idx_cnt + k);
    assert(post[m - 1].texture == mid[m - 1].texture);
    assert(post[0].idx_off == 0);
    assert forall|i: int| 0 <= i < m - 1 implies (#[trigger] post[i]).idx_off + post[i].idx_cnt
        == post[i + 1].idx_off by {
        if needs_new_command(cmds, tex) {
            if i < cmds.len() - 1 {
                assert(post[i] == cmds[i]);
                assert(i + 1 < cmds.len() ==> post[i + 1].idx_off == cmds[i + 1].idx_off);
            } else {
                assert(i == cmds.len() - 1);
                assert(post[i] == cmds.last());
            }
        }
    }
    assert forall|i: int| 0 <= i < m implies (#[trigger] post[i]).idx_cnt > 0 by {
        if needs_new_command(cmds, tex) && i < m - 1 {
            assert(post[i] == cmds[i]);
        }
    }
    assert forall|i: int| 0 <= i < m - 1 implies (#[trigger] post[i]).texture != post[
        i + 1
    ].texture by {
        if needs_new_command(cmds, tex) {
            if i < cmds.len() - 1 {
                assert(post[i] == cmds[i]);
            } else {
                assert(i == m - 2 && i == cmds.len() - 1);
                assert(post[i] == cmds.last());
                assert(cmds.last().texture != tex);
            }
        }
    }
}

/// The transform arithmetic in `px_to_pos` stays inside `i64` under the
/// declared input bounds.
proof fn lemma_transform_fits(pn: int, pd: int, e: int)
    requires
        1 <= pd <= 0x10_0000,
        -0x100_0000_0000 <= pn <= 0x100_0000_0000,
        1 <= e <= u32::MAX,
    ensures
        1 <= e * pd <= 0x10_0000_0000_0000,
        i64::MIN <= 2 * pn - e * pd <= i64::MAX,
        i64::MIN <= e * pd - 2 * pn <= i64::MAX,
{
    assert(1 <= e * pd <= 0x1_0000_0000 * 0x10_0000) by (nonlinear_arith)
        requires
            1 <= pd <= 0x10_0000,
            1 <= e <= 0x1_0000_0000,
    ;
}

/// The inverse-transform arithmetic in `pos_to_px` stays inside `i64`
/// under the declared input bounds.
proof fn lemma_inverse_fits(sn: int, sd: int, e: int)
    requires
        1 <= sd <= 0x10_0000,
        -0x4000_0000 <= sn <= 0x4000_0000,
        1 <= e <= u32::MAX,
    ensures
        i64::MIN <= (sn + sd) * e <= i64::MAX,
        i64::MIN <= (sd - sn) * e <= i64::MAX,
        1 <= 2 * sd <= u64::MAX,
{
    assert(((sn + sd) * e <= (0x4000_0000 + 0x10_0000) * 0x1_0000_0000) && ((sn + sd) * e >= (
    -0x4000_0000) * 0x1_0000_0000) && ((sd - sn) * e <= (0x4000_0000 + 0x10_0000) * 0x1_0000_0000)
        && ((sd - sn) * e >= (-0x4000_0000) * 0x1_0000_0000)) by (nonlinear_arith)
        requires
            1 <= sd <= 0x10_0000,
            -0x4000_0000 <= sn <= 0x4000_0000,
            1 <= e <= 0x1_0000_0000,
    ;
}

} // verus!
