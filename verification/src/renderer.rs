use vstd::prelude::*;

use crate::vertex_layout::{FLOATS_PER_COLOR_VERTEX, FLOATS_PER_POINT};

verus! {

/// The GL objects that loading creates: the two shader programs and the
/// vertex array / buffer pairs of points, lines and polygons.
/// A name of 0 stands for "no object".
#[derive(Clone, Copy, Debug, PartialEq, Eq, Structural)]
pub struct GlObjects {
    pub shader_points: u32,
    pub shader_gizmos: u32,
    pub vao_points: u32,
    pub vbo_points: u32,
    pub vao_lines: u32,
    pub vbo_lines: u32,
    pub vao_polys: u32,
    pub vbo_polys: u32,
}

impl GlObjects {
    /// No objects at all.
    pub open spec fn spec_none() -> GlObjects {
        GlObjects {
            shader_points: 0,
            shader_gizmos: 0,
            vao_points: 0,
            vbo_points: 0,
            vao_lines: 0,
            vbo_lines: 0,
            vao_polys: 0,
            vbo_polys: 0,
        }
    }

    /// No objects at all.
    pub fn none() -> (o: GlObjects)
        ensures
            o == GlObjects::spec_none(),
    {
        GlObjects {
            shader_points: 0,
            shader_gizmos: 0,
            vao_points: 0,
            vbo_points: 0,
            vao_lines: 0,
            vbo_lines: 0,
            vao_polys: 0,
            vbo_polys: 0,
        }
    }
}

/// The offscreen framebuffer, its color texture and its depth buffer,
/// with the extent it was completed for (0 by 0 until then).
#[derive(Clone, Copy, Debug, PartialEq, Eq, Structural)]
pub struct OffscreenTarget {
    pub framebuffer: u32,
    pub texture: u32,
    pub depth: u32,
    pub width: u32,
    pub height: u32,
}

impl OffscreenTarget {
    /// No offscreen target.
    pub open spec fn spec_none() -> OffscreenTarget {
        OffscreenTarget { framebuffer: 0, texture: 0, depth: 0, width: 0, height: 0 }
    }

    /// No offscreen target.
    pub fn none() -> (t: OffscreenTarget)
        ensures
            t == OffscreenTarget::spec_none(),
    {
        OffscreenTarget { framebuffer: 0, texture: 0, depth: 0, width: 0, height: 0 }
    }
}

/// A GL object that must be deleted, by the call that deletes its kind.
#[derive(Clone, Copy, Debug, PartialEq, Eq, Structural)]
pub enum GlRelease {
    /// `glDeleteRenderbuffers`
    Renderbuffer(u32),
    /// `glDeleteTextures`
    Texture(u32),
    /// `glDeleteFramebuffers`
    Framebuffer(u32),
    /// `glDeleteBuffers`
    Buffer(u32),
    /// `glDeleteVertexArrays`
    VertexArray(u32),
    /// `glDeleteProgram`
    Program(u32),
}

/// `[r]` when the object `name` exists, else nothing.
pub open spec fn release_if_present(name: u32, r: GlRelease) -> Seq<GlRelease> {
    if name != 0 {
        seq![r]
    } else {
        seq![]
    }
}

/// What deleting an offscreen target deletes: depth buffer, texture,
/// framebuffer, each only if it exists.
pub open spec fn target_releases(t: OffscreenTarget) -> Seq<GlRelease> {
    release_if_present(t.depth, GlRelease::Renderbuffer(t.depth)) + release_if_present(
        t.texture,
        GlRelease::Texture(t.texture),
    ) + release_if_present(t.framebuffer, GlRelease::Framebuffer(t.framebuffer))
}

/// What deleting the loaded objects deletes, in order, each only if it exists.
pub open spec fn object_releases(o: GlObjects) -> Seq<GlRelease> {
    release_if_present(o.vbo_points, GlRelease::Buffer(o.vbo_points)) + release_if_present(
        o.vao_points,
        GlRelease::VertexArray(o.vao_points),
    ) + release_if_present(o.vbo_lines, GlRelease::Buffer(o.vbo_lines)) + release_if_present(
        o.vao_lines,
        GlRelease::VertexArray(o.vao_lines),
    ) + release_if_present(o.vbo_polys, GlRelease::Buffer(o.vbo_polys)) + release_if_present(
        o.vao_polys,
        GlRelease::VertexArray(o.vao_polys),
    ) + release_if_present(o.shader_points, GlRelease::Program(o.shader_points))
        + release_if_present(o.shader_gizmos, GlRelease::Program(o.shader_gizmos))
}

/// Appends the release of `name` to `out` when it exists.
fn push_release(out: &mut Vec<GlRelease>, name: u32, r: GlRelease)
    ensures
        final(out)@ == old(out)@ + release_if_present(name, r),
{
    if name != 0 {
        out.push(r);
    }
    assert(old(out)@ + release_if_present(name, r) =~= out@);
}

/// The deletions of the loaded objects, in order.
fn object_release_list(o: GlObjects) -> (releases: Vec<GlRelease>)
    ensures
        releases@ == object_releases(o),
{
    let mut releases: Vec<GlRelease> = Vec::new();
    push_release(&mut releases, o.vbo_points, GlRelease::Buffer(o.vbo_points));
    assert(releases@ =~= release_if_present(o.vbo_points, GlRelease::Buffer(o.vbo_points)));
    push_release(&mut releases, o.vao_points, GlRelease::VertexArray(o.vao_points));
    push_release(&mut releases, o.vbo_lines, GlRelease::Buffer(o.vbo_lines));
    push_release(&mut releases, o.vao_lines, GlRelease::VertexArray(o.vao_lines));
    push_release(&mut releases, o.vbo_polys, GlRelease::Buffer(o.vbo_polys));
    push_release(&mut releases, o.vao_polys, GlRelease::VertexArray(o.vao_polys));
    push_release(&mut releases, o.shader_points, GlRelease::Program(o.shader_points));
    push_release(&mut releases, o.shader_gizmos, GlRelease::Program(o.shader_gizmos));
    releases
}

/// Moves the data out of `pending`, leaving nothing pending.
fn take_pending(pending: &mut Option<Vec<u32>>) -> (taken: Option<Vec<u32>>)
    ensures
        taken == *old(pending),
        *final(pending) == None::<Vec<u32>>,
    no_unwind
{
    let mut taken: Option<Vec<u32>> = None;
    std::mem::swap(pending, &mut taken);
    taken
}

/// The abstract state of a [`Renderer`].
pub struct RendererView {
    pub gl_loaded: bool,
    pub objects: GlObjects,
    pub target: OffscreenTarget,
    pub pending_points: Option<Seq<u32>>,
    pub pending_lines: Option<Seq<u32>>,
    pub pending_polys: Option<Seq<u32>>,
    pub point_count: i32,
    pub line_count: i32,
    pub poly_count: i32,
    pub width: u32,
    pub height: u32,
}

/// The view of a pending vertex buffer.
pub open spec fn pending_view(p: Option<Vec<u32>>) -> Option<Seq<u32>> {
    match p {
        Some(v) => Some(v@),
        None => None,
    }
}

/// The GL-side state of the point cloud viewer: which GL objects it owns,
/// its offscreen target, the vertex data waiting to be uploaded, the vertex
/// counts that the next draw uses, and the extent of the render target.
///
/// Vertex data is held as the bit patterns of its `f32` values
/// (`f32::to_bits`): points as `[x, y, z, value]`, lines and polygons as
/// `[x, y, z, r, g, b, a, size]`.
pub struct Renderer {
    gl_loaded: bool,
    objects: GlObjects,
    target: OffscreenTarget,
    pending_points: Option<Vec<u32>>,
    pending_lines: Option<Vec<u32>>,
    pending_polys: Option<Vec<u32>>,
    point_count: i32,
    line_count: i32,
    poly_count: i32,
    width: u32,
    height: u32,
}

impl View for Renderer {
    type V = RendererView;

    closed spec fn view(&self) -> RendererView {
        RendererView {
            gl_loaded: self.gl_loaded,
            objects: self.objects,
            target: self.target,
            pending_points: pending_view(self.pending_points),
            pending_lines: pending_view(self.pending_lines),
            pending_polys: pending_view(self.pending_polys),
            point_count: self.point_count,
            line_count: self.line_count,
            poly_count: self.poly_count,
            width: self.width,
            height: self.height,
        }
    }
}

/// `x`, but at least 1.
pub open spec fn at_least_one(x: u32) -> u32 {
    if x == 0 {
        1
    } else {
        x
    }
}

/// `v` with a `width` by `height` render target, zero taken as 1.
pub open spec fn resized(v: RendererView, width: u32, height: u32) -> RendererView {
    RendererView { width: at_least_one(width), height: at_least_one(height), ..v }
}

/// Whether the offscreen target `t` can serve a `width` by `height` frame.
pub open spec fn target_fits(t: OffscreenTarget, width: u32, height: u32) -> bool {
    t.framebuffer != 0 && t.width == width && t.height == height
}

impl Renderer {
    /// The render target never has a zero extent.
    #[verifier::type_invariant]
    closed spec fn extent_positive(self) -> bool {
        self.width >= 1 && self.height >= 1
    }

    /// The state of a renderer that has loaded nothing, owns nothing and
    /// holds no vertex data, with a 1 by 1 render target.
    pub open spec fn initial_view() -> RendererView {
        RendererView {
            gl_loaded: false,
            objects: GlObjects::spec_none(),
            target: OffscreenTarget::spec_none(),
            pending_points: None,
            pending_lines: None,
            pending_polys: None,
            point_count: 0,
            line_count: 0,
            poly_count: 0,
            width: 1,
            height: 1,
        }
    }

    /// A renderer that has loaded nothing yet.
    pub fn new() -> (r: Renderer)
        ensures
            r@ == Renderer::initial_view(),
    {
        Renderer {
            gl_loaded: false,
            objects: GlObjects::none(),
            target: OffscreenTarget::none(),
            pending_points: None,
            pending_lines: None,
            pending_polys: None,
            point_count: 0,
            line_count: 0,
            poly_count: 0,
            width: 1,
            height: 1,
        }
    }

    /// Hands over point data (`[x, y, z, value]` per point) for the next frame.
    pub fn set_points(&mut self, data: Vec<u32>)
        ensures
            final(self)@ == (RendererView { pending_points: Some(data@), ..old(self)@ }),
    {
        proof {
            use_type_invariant(&*self);
        }
        self.pending_points = Some(data);
    }

    /// Hands over line vertices (`[x, y, z, r, g, b, a, size]`) for the next frame.
    pub fn set_lines(&mut self, data: Vec<u32>)
        ensures
            final(self)@ == (RendererView { pending_lines: Some(data@), ..old(self)@ }),
    {
        proof {
            use_type_invariant(&*self);
        }
        self.pending_lines = Some(data);
    }

    /// Hands over polygon (triangle) vertices (`[x, y, z, r, g, b, a, size]`)
    /// for the next frame.
    pub fn set_polygons(&mut self, data: Vec<u32>)
        ensures
            final(self)@ == (RendererView { pending_polys: Some(data@), ..old(self)@ }),
    {
        proof {
            use_type_invariant(&*self);
        }
        self.pending_polys = Some(data);
    }

    /// The count that uploading `pending` gives, and that upload, if any.
    fn upload_pending(pending: Option<Vec<u32>>, count: i32, floats_per_vertex: usize, vao: u32, vbo: u32, uploads: &mut Vec<VertexUpload>) -> (new_count: i32)
        requires
            floats_per_vertex > 0,
        ensures
            new_count == count_after_upload(pending_view(pending), count, floats_per_vertex),
            final(uploads)@.map_values(|u: VertexUpload| upload_view(u)) == old(uploads)@.map_values(|u: VertexUpload| upload_view(u)) + upload_of(pending_view(pending), vao, vbo),
    {
        let ghost before = uploads@.map_values(|u: VertexUpload| upload_view(u));
        match pending {
            Some(data) => {
                let n = (data.len() / floats_per_vertex) as i32;
                let ghost d = data@;
                uploads.push(VertexUpload { vao, vbo, data });
                assert(uploads@.map_values(|u: VertexUpload| upload_view(u)) =~= before + seq![(vao, vbo, d)]);
                n
            },
            None => {
                assert(uploads@.map_values(|u: VertexUpload| upload_view(u)) =~= before + Seq::<(u32, u32, Seq<u32>)>::empty());
                count
            },
        }
    }

    /// Next step of drawing a frame. A renderer that has not loaded asks for
    /// loading first (and is left as it was); once loaded, the frame is
    /// planned: the pending vertex data is taken for upload (and sets the
    /// vertex counts), then the scene is cleared and the lines, polygons and
    /// points that there are get drawn with the loaded objects.
    pub fn render(&mut self) -> (step: FrameStep)
        ensures
            !old(self)@.gl_loaded ==> step is Load && final(self)@ == old(self)@,
            old(self)@.gl_loaded ==> final(self)@.gl_loaded && final(self)@ == after_uploads(old(self)@)
                && (step matches FrameStep::Draw(plan) && plan.uploads@.map_values(
                |u: VertexUpload| upload_view(u),
            ) == planned_uploads(old(self)@) && plan.commands@ == frame_commands(final(self)@)),
    {
        if !self.gl_loaded {
            FrameStep::Load
        } else {
            FrameStep::Draw(self.plan_frame())
        }
    }

    /// Plans the uploads and commands of one frame.
    fn plan_frame(&mut self) -> (plan: RenderPlan)
        ensures
            final(self)@ == after_uploads(old(self)@),
            plan.uploads@.map_values(|u: VertexUpload| upload_view(u)) == planned_uploads(old(self)@),
            plan.commands@ == frame_commands(final(self)@),
    {
        proof {
            use_type_invariant(&*self);
        }
        let mut uploads: Vec<VertexUpload> = Vec::new();
        let points = take_pending(&mut self.pending_points);
        let lines = take_pending(&mut self.pending_lines);
        let polys = take_pending(&mut self.pending_polys);
        let o = self.objects;
        self.point_count = Self::upload_pending(points, self.point_count, FLOATS_PER_POINT, o.vao_points, o.vbo_points, &mut uploads);
        self.line_count = Self::upload_pending(lines, self.line_count, FLOATS_PER_COLOR_VERTEX, o.vao_lines, o.vbo_lines, &mut uploads);
        self.poly_count = Self::upload_pending(polys, self.poly_count, FLOATS_PER_COLOR_VERTEX, o.vao_polys, o.vbo_polys, &mut uploads);
        let ghost v = self@;
        let mut commands: Vec<RenderCommand> = Vec::new();
        commands.push(RenderCommand::Prepare);
        if self.line_count > 0 || self.poly_count > 0 {
            commands.push(RenderCommand::UseGizmoProgram(self.objects.shader_gizmos));
            if self.line_count > 0 {
                commands.push(RenderCommand::DrawLines { vao: self.objects.vao_lines, count: self.line_count });
            }
            if self.poly_count > 0 {
                commands.push(RenderCommand::DrawPolygons { vao: self.objects.vao_polys, count: self.poly_count });
            }
        }
        assert(commands@ =~= seq![RenderCommand::Prepare] + gizmo_commands(v));
        if self.point_count > 0 {
            commands.push(RenderCommand::UsePointProgram(self.objects.shader_points));
            commands.push(RenderCommand::DrawPoints { vao: self.objects.vao_points, count: self.point_count });
        }
        assert(commands@ =~= seq![RenderCommand::Prepare] + gizmo_commands(v) + point_commands(v));
        commands.push(RenderCommand::Finish);
        assert(commands@ =~= frame_commands(v));
        RenderPlan { uploads, commands }
    }

    /// Whether the GL functions, programs and vertex objects still have to
    /// be loaded (done once, before the first frame).
    pub fn needs_gl_load(&self) -> (b: bool)
        ensures
            b == !self@.gl_loaded,
    {
        !self.gl_loaded
    }

    /// Records the objects that loading created; the renderer now owns them.
    pub fn finish_gl_load(&mut self, objects: GlObjects)
        requires
            !old(self)@.gl_loaded,
        ensures
            final(self)@ == (RendererView { gl_loaded: true, objects, ..old(self)@ }),
    {
        proof {
            use_type_invariant(&*self);
        }
        self.objects = objects;
        self.gl_loaded = true;
    }

    /// Whether the offscreen target can be reused for a `width` by `height`
    /// frame: it exists and was completed for that extent.
    pub fn offscreen_target_fits(&self, width: u32, height: u32) -> (b: bool)
        ensures
            b == target_fits(self@.target, width, height),
    {
        self.target.framebuffer != 0 && self.target.width == width && self.target.height == height
    }

    /// Gives up the offscreen target: its objects are to be deleted, and the
    /// renderer holds none afterwards.
    pub fn release_offscreen_target(&mut self) -> (releases: Vec<GlRelease>)
        ensures
            releases@ == target_releases(old(self)@.target),
            final(self)@ == (RendererView { target: OffscreenTarget::spec_none(), ..old(self)@ }),
    {
        proof {
            use_type_invariant(&*self);
        }
        let t = self.target;
        let mut releases: Vec<GlRelease> = Vec::new();
        push_release(&mut releases, t.depth, GlRelease::Renderbuffer(t.depth));
        push_release(&mut releases, t.texture, GlRelease::Texture(t.texture));
        push_release(&mut releases, t.framebuffer, GlRelease::Framebuffer(t.framebuffer));
        assert(releases@ =~= target_releases(t));
        self.target = OffscreenTarget::none();
        releases
    }

    /// First step of preparing the offscreen target for a `width` by `height`
    /// frame: reuse it when it fits, or else give it up so that a new one
    /// can be built.
    pub fn begin_offscreen_target(&mut self, width: u32, height: u32) -> (step: OffscreenStep)
        ensures
            target_fits(old(self)@.target, width, height) ==> step == OffscreenStep::Reuse
                && final(self)@ == old(self)@,
            !target_fits(old(self)@.target, width, height) ==> (step matches OffscreenStep::Rebuild(r)
                && r@ == target_releases(old(self)@.target)) && final(self)@ == (RendererView {
                target: OffscreenTarget::spec_none(),
                ..old(self)@
            }),
    {
        if self.offscreen_target_fits(width, height) {
            OffscreenStep::Reuse
        } else {
            OffscreenStep::Rebuild(self.release_offscreen_target())
        }
    }

    /// Last step of building the offscreen target: the new framebuffer,
    /// texture and depth buffer are kept, for `width` by `height`, when the
    /// framebuffer is complete; otherwise they are to be deleted and the
    /// renderer is left without a target. Returns whether the target is usable.
    pub fn finish_offscreen_target(
        &mut self,
        framebuffer: u32,
        texture: u32,
        depth: u32,
        complete: bool,
        width: u32,
        height: u32,
    ) -> (result: (bool, Vec<GlRelease>))
        requires
            old(self)@.target == OffscreenTarget::spec_none(),
        ensures
            result.0 == complete,
            complete ==> result.1@ == Seq::<GlRelease>::empty() && final(self)@ == (RendererView {
                target: OffscreenTarget { framebuffer, texture, depth, width, height },
                ..old(self)@
            }),
            !complete ==> result.1@ == target_releases(
                OffscreenTarget { framebuffer, texture, depth, width: 0, height: 0 },
            ) && final(self)@ == old(self)@,
    {
        proof {
            use_type_invariant(&*self);
        }
        self.target = OffscreenTarget { framebuffer, texture, depth, width: 0, height: 0 };
        if complete {
            self.target.width = width;
            self.target.height = height;
            (true, Vec::new())
        } else {
            (false, self.release_offscreen_target())
        }
    }

    /// Gives up every GL object the renderer owns (the offscreen target
    /// first, then buffers, vertex arrays and programs); loading is needed
    /// again afterwards.
    pub fn release_gl_resources(&mut self) -> (releases: Vec<GlRelease>)
        ensures
            releases@ == target_releases(old(self)@.target) + object_releases(old(self)@.objects),
            final(self)@ == (RendererView {
                gl_loaded: false,
                objects: GlObjects::spec_none(),
                target: OffscreenTarget::spec_none(),
                ..old(self)@
            }),
    {
        let mut releases = self.release_offscreen_target();
        let mut objects = object_release_list(self.objects);
        releases.append(&mut objects);
        proof {
            use_type_invariant(&*self);
        }
        self.objects = GlObjects::none();
        self.gl_loaded = false;
        releases
    }

    /// Ends the renderer: when it had loaded, everything it owns is to be
    /// deleted; otherwise nothing is.
    pub fn destroy(self) -> (releases: Vec<GlRelease>)
        ensures
            self@.gl_loaded ==> releases@ == target_releases(self@.target) + object_releases(
                self@.objects,
            ),
            !self@.gl_loaded ==> releases@ == Seq::<GlRelease>::empty(),
    {
        let mut r = self;
        if r.gl_loaded {
            r.release_gl_resources()
        } else {
            Vec::new()
        }
    }

    /// Width of the render target (never 0).
    pub fn width(&self) -> (w: u32)
        ensures
            w == self@.width,
            w >= 1,
    {
        proof {
            use_type_invariant(self);
        }
        self.width
    }

    /// Height of the render target (never 0).
    pub fn height(&self) -> (h: u32)
        ensures
            h == self@.height,
            h >= 1,
    {
        proof {
            use_type_invariant(self);
        }
        self.height
    }

    /// Number of points the next frame draws.
    pub fn point_count(&self) -> (n: i32)
        ensures
            n == self@.point_count,
    {
        self.point_count
    }

    /// Number of line vertices the next frame draws.
    pub fn line_count(&self) -> (n: i32)
        ensures
            n == self@.line_count,
    {
        self.line_count
    }

    /// Number of polygon vertices the next frame draws.
    pub fn poly_count(&self) -> (n: i32)
        ensures
            n == self@.poly_count,
    {
        self.poly_count
    }

    /// The loaded GL objects (all 0 before loading).
    pub fn gl_objects(&self) -> (o: GlObjects)
        ensures
            o == self@.objects,
    {
        self.objects
    }

    /// The offscreen target (all 0 when there is none).
    pub fn offscreen_target(&self) -> (t: OffscreenTarget)
        ensures
            t == self@.target,
    {
        self.target
    }

    /// Sets the render target extent; a zero extent is taken as 1.
    pub fn resize(&mut self, width: u32, height: u32)
        ensures
            final(self)@ == resized(old(self)@, width, height),
            final(self)@.width == (if width == 0 { 1 } else { width }),
            final(self)@.height == (if height == 0 { 1 } else { height }),
    {
        proof {
            use_type_invariant(&*self);
        }
        self.width = if width == 0 { 1 } else { width };
        self.height = if height == 0 { 1 } else { height };
    }
}


/// What preparing the offscreen target for a frame starts with.
pub enum OffscreenStep {
    /// The current target fits the frame and is kept.
    Reuse,
    /// A new target has to be built; the old one's objects are to be deleted first.
    Rebuild(Vec<GlRelease>),
}

/// One step of drawing a frame, after the vertex uploads.
#[derive(Clone, Copy, Debug, PartialEq, Eq, Structural)]
pub enum RenderCommand {
    /// Depth test (less, writes on), alpha blending, full color mask, and a
    /// clear of the color and depth buffers to the background color.
    Prepare,
    /// Use the grid/axis/polygon program and give it the MVP matrix.
    UseGizmoProgram(u32),
    /// Draw `count` line vertices from the vertex array `vao`.
    DrawLines { vao: u32, count: i32 },
    /// Draw `count` triangle vertices from `vao` with depth writes off.
    DrawPolygons { vao: u32, count: i32 },
    /// Use the point program and give it the MVP matrix and display parameters.
    UsePointProgram(u32),
    /// Draw `count` points from the vertex array `vao`.
    DrawPoints { vao: u32, count: i32 },
    /// Unbind the vertex array and the program.
    Finish,
}

/// Vertex data to put into the buffer `vbo` of the vertex array `vao`.
pub struct VertexUpload {
    pub vao: u32,
    pub vbo: u32,
    pub data: Vec<u32>,
}

/// What the renderer needs next to draw a frame.
pub enum FrameStep {
    /// The GL functions, programs and vertex objects have to be loaded
    /// (then recorded with `finish_gl_load`) before a frame can be drawn.
    Load,
    /// The frame to draw.
    Draw(RenderPlan),
}

/// What drawing one frame takes: the uploads first, then the commands.
pub struct RenderPlan {
    pub uploads: Vec<VertexUpload>,
    pub commands: Vec<RenderCommand>,
}

/// An upload as plain values.
pub open spec fn upload_view(u: VertexUpload) -> (u32, u32, Seq<u32>) {
    (u.vao, u.vbo, u.data@)
}

/// The vertex count after an upload of `pending` with `floats_per_vertex`
/// floats per vertex: whole vertices in the data (as `i32`), or the old
/// count when nothing was pending.
pub open spec fn count_after_upload(pending: Option<Seq<u32>>, count: i32, floats_per_vertex: usize) -> i32 {
    match pending {
        Some(d) => (d.len() / (floats_per_vertex as nat)) as i32,
        None => count,
    }
}

/// The upload of `pending` into `vao`/`vbo`, if any.
pub open spec fn upload_of(pending: Option<Seq<u32>>, vao: u32, vbo: u32) -> Seq<(u32, u32, Seq<u32>)> {
    match pending {
        Some(d) => seq![(vao, vbo, d)],
        None => seq![],
    }
}

/// Uploads of the pending points, lines and polygons, in that order.
pub open spec fn planned_uploads(v: RendererView) -> Seq<(u32, u32, Seq<u32>)> {
    upload_of(v.pending_points, v.objects.vao_points, v.objects.vbo_points) + upload_of(
        v.pending_lines,
        v.objects.vao_lines,
        v.objects.vbo_lines,
    ) + upload_of(v.pending_polys, v.objects.vao_polys, v.objects.vbo_polys)
}

/// The state after the pending data is uploaded: nothing pending, and each
/// count taken from the data that was uploaded.
pub open spec fn after_uploads(v: RendererView) -> RendererView {
    RendererView {
        pending_points: None,
        pending_lines: None,
        pending_polys: None,
        point_count: count_after_upload(v.pending_points, v.point_count, FLOATS_PER_POINT),
        line_count: count_after_upload(v.pending_lines, v.line_count, FLOATS_PER_COLOR_VERTEX),
        poly_count: count_after_upload(v.pending_polys, v.poly_count, FLOATS_PER_COLOR_VERTEX),
        ..v
    }
}

/// Grid/axis lines and polygons, drawn when there is any of them.
pub open spec fn gizmo_commands(v: RendererView) -> Seq<RenderCommand> {
    if v.line_count > 0 || v.poly_count > 0 {
        seq![RenderCommand::UseGizmoProgram(v.objects.shader_gizmos)] + (if v.line_count > 0 {
            seq![RenderCommand::DrawLines { vao: v.objects.vao_lines, count: v.line_count }]
        } else {
            seq![]
        }) + (if v.poly_count > 0 {
            seq![RenderCommand::DrawPolygons { vao: v.objects.vao_polys, count: v.poly_count }]
        } else {
            seq![]
        })
    } else {
        seq![]
    }
}

/// The point cloud, drawn when there are points.
pub open spec fn point_commands(v: RendererView) -> Seq<RenderCommand> {
    if v.point_count > 0 {
        seq![
            RenderCommand::UsePointProgram(v.objects.shader_points),
            RenderCommand::DrawPoints { vao: v.objects.vao_points, count: v.point_count },
        ]
    } else {
        seq![]
    }
}

/// The commands of a frame drawn in state `v` (after its uploads).
pub open spec fn frame_commands(v: RendererView) -> Seq<RenderCommand> {
    seq![RenderCommand::Prepare] + gizmo_commands(v) + point_commands(v) + seq![RenderCommand::Finish]
}


/// Resizing twice to the same extent is the same as resizing once.
pub proof fn lemma_resize_idempotent(v: RendererView, width: u32, height: u32)
    ensures
        resized(resized(v, width, height), width, height) == resized(v, width, height),
{
}

/// A frame consumes all pending data: drawing another frame right after
/// uploads nothing, keeps every count, and issues the same commands.
pub proof fn lemma_second_frame_uploads_nothing(v: RendererView)
    ensures
        planned_uploads(after_uploads(v)) == Seq::<(u32, u32, Seq<u32>)>::empty(),
        after_uploads(after_uploads(v)) == after_uploads(v),
        frame_commands(after_uploads(after_uploads(v))) == frame_commands(after_uploads(v)),
{
    assert(planned_uploads(after_uploads(v)) =~= Seq::<(u32, u32, Seq<u32>)>::empty());
}

/// Points are drawn in the frame after point data `d` was handed over
/// exactly when `d` holds at least one whole point (four floats).
pub proof fn lemma_points_drawn_iff_whole_point(v: RendererView, d: Seq<u32>)
    requires
        v.pending_points == Some(d),
        d.len() / 4 <= i32::MAX,
    ensures
        after_uploads(v).point_count == d.len() / 4,
        (exists|i: int|
            0 <= i < frame_commands(after_uploads(v)).len()
                && #[trigger] frame_commands(after_uploads(v))[i] is DrawPoints) <==> d.len() >= 4,
{
    let w = after_uploads(v);
    let c = frame_commands(w);
    let g = gizmo_commands(w);
    if d.len() >= 4 {
        assert(c[g.len() as int + 2] is DrawPoints);
    } else {
        assert(point_commands(w) =~= Seq::<RenderCommand>::empty());
        assert forall|i: int| 0 <= i < c.len() implies !(#[trigger] c[i] is DrawPoints) by {
            if 1 <= i < 1 + g.len() {
                assert(c[i] == g[i - 1]);
            }
        }
    }
}

/// Lines are drawn in the frame after line data `d` was handed over exactly
/// when `d` holds at least one whole vertex (eight floats).
pub proof fn lemma_lines_drawn_iff_whole_vertex(v: RendererView, d: Seq<u32>)
    requires
        v.pending_lines == Some(d),
        d.len() / 8 <= i32::MAX,
    ensures
        after_uploads(v).line_count == d.len() / 8,
        (exists|i: int|
            0 <= i < frame_commands(after_uploads(v)).len()
                && #[trigger] frame_commands(after_uploads(v))[i] is DrawLines) <==> d.len() >= 8,
{
    let w = after_uploads(v);
    let c = frame_commands(w);
    let g = gizmo_commands(w);
    let p = point_commands(w);
    if d.len() >= 8 {
        assert(c[2] is DrawLines);
    } else {
        assert forall|i: int| 0 <= i < c.len() implies !(#[trigger] c[i] is DrawLines) by {
            if 1 <= i < 1 + g.len() {
                assert(c[i] == g[i - 1]);
            } else if 1 + g.len() <= i < 1 + g.len() + p.len() {
                assert(c[i] == p[i - 1 - g.len()]);
            }
        }
    }
}

/// The GL object a release deletes.
pub open spec fn released_name(r: GlRelease) -> u32 {
    match r {
        GlRelease::Renderbuffer(n) => n,
        GlRelease::Texture(n) => n,
        GlRelease::Framebuffer(n) => n,
        GlRelease::Buffer(n) => n,
        GlRelease::VertexArray(n) => n,
        GlRelease::Program(n) => n,
    }
}

/// Every release in `s` deletes a real object (not the name 0).
pub open spec fn releases_real_objects(s: Seq<GlRelease>) -> bool {
    forall|i: int| 0 <= i < s.len() ==> released_name(#[trigger] s[i]) != 0
}

proof fn lemma_concat_releases_real_objects(a: Seq<GlRelease>, b: Seq<GlRelease>)
    requires
        releases_real_objects(a),
        releases_real_objects(b),
    ensures
        releases_real_objects(a + b),
{
    assert forall|i: int| 0 <= i < (a + b).len() implies released_name(#[trigger] (a + b)[i]) != 0 by {
        if i >= a.len() {
            assert((a + b)[i] == b[i - a.len()]);
        }
    }
}

proof fn lemma_release_if_present_real(name: u32, r: GlRelease)
    requires
        released_name(r) == name,
    ensures
        releases_real_objects(release_if_present(name, r)),
{
}

/// Releasing never deletes the name 0 (no object).
pub proof fn lemma_releases_name_objects(t: OffscreenTarget, o: GlObjects)
    ensures
        releases_real_objects(target_releases(t) + object_releases(o)),
{
    lemma_release_if_present_real(t.depth, GlRelease::Renderbuffer(t.depth));
    lemma_release_if_present_real(t.texture, GlRelease::Texture(t.texture));
    lemma_release_if_present_real(t.framebuffer, GlRelease::Framebuffer(t.framebuffer));
    lemma_concat_releases_real_objects(
        release_if_present(t.depth, GlRelease::Renderbuffer(t.depth)),
        release_if_present(t.texture, GlRelease::Texture(t.texture)),
    );
    lemma_concat_releases_real_objects(
        release_if_present(t.depth, GlRelease::Renderbuffer(t.depth)) + release_if_present(
            t.texture,
            GlRelease::Texture(t.texture),
        ),
        release_if_present(t.framebuffer, GlRelease::Framebuffer(t.framebuffer)),
    );
    let r1 = release_if_present(o.vbo_points, GlRelease::Buffer(o.vbo_points));
    let r2 = release_if_present(o.vao_points, GlRelease::VertexArray(o.vao_points));
    let r3 = release_if_present(o.vbo_lines, GlRelease::Buffer(o.vbo_lines));
    let r4 = release_if_present(o.vao_lines, GlRelease::VertexArray(o.vao_lines));
    let r5 = release_if_present(o.vbo_polys, GlRelease::Buffer(o.vbo_polys));
    let r6 = release_if_present(o.vao_polys, GlRelease::VertexArray(o.vao_polys));
    let r7 = release_if_present(o.shader_points, GlRelease::Program(o.shader_points));
    let r8 = release_if_present(o.shader_gizmos, GlRelease::Program(o.shader_gizmos));
    lemma_release_if_present_real(o.vbo_points, GlRelease::Buffer(o.vbo_points));
    lemma_release_if_present_real(o.vao_points, GlRelease::VertexArray(o.vao_points));
    lemma_release_if_present_real(o.vbo_lines, GlRelease::Buffer(o.vbo_lines));
    lemma_release_if_present_real(o.vao_lines, GlRelease::VertexArray(o.vao_lines));
    lemma_release_if_present_real(o.vbo_polys, GlRelease::Buffer(o.vbo_polys));
    lemma_release_if_present_real(o.vao_polys, GlRelease::VertexArray(o.vao_polys));
    lemma_release_if_present_real(o.shader_points, GlRelease::Program(o.shader_points));
    lemma_release_if_present_real(o.shader_gizmos, GlRelease::Program(o.shader_gizmos));
    lemma_concat_releases_real_objects(r1, r2);
    lemma_concat_releases_real_objects(r1 + r2, r3);
    lemma_concat_releases_real_objects(r1 + r2 + r3, r4);
    lemma_concat_releases_real_objects(r1 + r2 + r3 + r4, r5);
    lemma_concat_releases_real_objects(r1 + r2 + r3 + r4 + r5, r6);
    lemma_concat_releases_real_objects(r1 + r2 + r3 + r4 + r5 + r6, r7);
    lemma_concat_releases_real_objects(r1 + r2 + r3 + r4 + r5 + r6 + r7, r8);
    lemma_concat_releases_real_objects(target_releases(t), object_releases(o));
}

/// Once everything is released, releasing again deletes nothing: no
/// object is deleted twice.
pub proof fn lemma_release_twice_releases_nothing()
    ensures
        target_releases(OffscreenTarget::spec_none()) + object_releases(GlObjects::spec_none())
            == Seq::<GlRelease>::empty(),
{
    assert(target_releases(OffscreenTarget::spec_none()) + object_releases(GlObjects::spec_none())
        =~= Seq::<GlRelease>::empty());
}

/// A target completed for a `width` by `height` frame (with a real
/// framebuffer) is reused for the next frame of that extent, and for no
/// other extent.
pub proof fn lemma_completed_target_is_reused(
    framebuffer: u32,
    texture: u32,
    depth: u32,
    width: u32,
    height: u32,
    next_width: u32,
    next_height: u32,
)
    requires
        framebuffer != 0,
    ensures
        target_fits(
            OffscreenTarget { framebuffer, texture, depth, width, height },
            next_width,
            next_height,
        ) <==> (next_width == width && next_height == height),
{
}


/// Polygons are drawn in the frame after polygon data `d` was handed over
/// exactly when `d` holds at least one whole vertex (eight floats).
pub proof fn lemma_polygons_drawn_iff_whole_vertex(v: RendererView, d: Seq<u32>)
    requires
        v.pending_polys == Some(d),
        d.len() / 8 <= i32::MAX,
    ensures
        after_uploads(v).poly_count == d.len() / 8,
        (exists|i: int|
            0 <= i < frame_commands(after_uploads(v)).len()
                && #[trigger] frame_commands(after_uploads(v))[i] is DrawPolygons) <==> d.len()
            >= 8,
{
    let w = after_uploads(v);
    let c = frame_commands(w);
    let g = gizmo_commands(w);
    let p = point_commands(w);
    if d.len() >= 8 {
        assert(c[g.len() as int] is DrawPolygons);
    } else {
        assert forall|i: int| 0 <= i < c.len() implies !(#[trigger] c[i] is DrawPolygons) by {
            if 1 <= i < 1 + g.len() {
                assert(c[i] == g[i - 1]);
            } else if 1 + g.len() <= i < 1 + g.len() + p.len() {
                assert(c[i] == p[i - 1 - g.len()]);
            }
        }
    }
}

/// Releasing undoes loading: a renderer that owned nothing, once it has
/// recorded loaded objects `o` and then released everything, is back where
/// it was, and exactly the objects of `o` that exist are deleted.
pub proof fn lemma_release_undoes_load(v: RendererView, o: GlObjects)
    requires
        !v.gl_loaded,
        v.objects == GlObjects::spec_none(),
        v.target == OffscreenTarget::spec_none(),
    ensures
        ({
            let loaded = RendererView { gl_loaded: true, objects: o, ..v };
            &&& target_releases(loaded.target) + object_releases(loaded.objects) == object_releases(o)
            &&& (RendererView {
                gl_loaded: false,
                objects: GlObjects::spec_none(),
                target: OffscreenTarget::spec_none(),
                ..loaded
            }) == v
        }),
{
    assert(target_releases(OffscreenTarget::spec_none()) =~= Seq::<GlRelease>::empty());
    assert(Seq::<GlRelease>::empty() + object_releases(o) =~= object_releases(o));
}


/// Loading then drawing: once a renderer that had not loaded records the
/// loaded objects `o`, the frame it plans is planned as loaded, and its
/// uploads and draws go to the vertex arrays and buffers of `o`.
pub proof fn lemma_frame_after_load_uses_loaded_objects(v: RendererView, o: GlObjects)
    requires
        !v.gl_loaded,
    ensures
        ({
            let loaded = RendererView { gl_loaded: true, objects: o, ..v };
            let drawn = after_uploads(loaded);
            &&& drawn.gl_loaded
            &&& drawn.objects == o
            &&& forall|i: int|
                0 <= i < planned_uploads(loaded).len() ==> {
                    let u = #[trigger] planned_uploads(loaded)[i];
                    (u.0 == o.vao_points && u.1 == o.vbo_points) || (u.0 == o.vao_lines && u.1
                        == o.vbo_lines) || (u.0 == o.vao_polys && u.1 == o.vbo_polys)
                }
        }),
{
    let loaded = RendererView { gl_loaded: true, objects: o, ..v };
    let a = upload_of(loaded.pending_points, o.vao_points, o.vbo_points);
    let b = upload_of(loaded.pending_lines, o.vao_lines, o.vbo_lines);
    let c = upload_of(loaded.pending_polys, o.vao_polys, o.vbo_polys);
    assert forall|i: int| 0 <= i < (a + b + c).len() implies {
        let u = #[trigger] (a + b + c)[i];
        (u.0 == o.vao_points && u.1 == o.vbo_points) || (u.0 == o.vao_lines && u.1 == o.vbo_lines)
            || (u.0 == o.vao_polys && u.1 == o.vbo_polys)
    } by {
        if i < a.len() {
            assert((a + b + c)[i] == a[i]);
        } else if i < a.len() + b.len() {
            assert((a + b + c)[i] == (a + b)[i]);
            assert((a + b)[i] == b[i - a.len()]);
        } else {
            assert((a + b + c)[i] == c[i - a.len() - b.len()]);
        }
    }
}


/// Resizing sets each extent from its own argument alone: the width is
/// `width` (1 when it is 0), the height is `height` (1 when it is 0), and
/// nothing else changes.
pub proof fn lemma_resize_sets_each_extent(v: RendererView, width: u32, height: u32, other: u32)
    ensures
        resized(v, width, height).width == (if width > 0 { width } else { 1 }),
        resized(v, width, height).height == (if height > 0 { height } else { 1 }),
        resized(v, width, height).width == resized(v, width, other).width,
        resized(v, width, height).height == resized(v, other, height).height,
        resized(v, width, height).objects == v.objects,
        resized(v, width, height).target == v.target,
        resized(v, width, height).gl_loaded == v.gl_loaded,
        resized(v, width, height).pending_points == v.pending_points,
        resized(v, width, height).pending_lines == v.pending_lines,
        resized(v, width, height).pending_polys == v.pending_polys,
        resized(v, width, height).point_count == v.point_count,
        resized(v, width, height).line_count == v.line_count,
        resized(v, width, height).poly_count == v.poly_count,
{
}

/// Every upload of a frame carries exactly the data that was pending for
/// its kind, into that kind's vertex array and buffer: points first, then
/// lines, then polygons, one upload for each kind with data pending and
/// none for the others.
pub proof fn lemma_uploads_carry_pending_data(v: RendererView)
    ensures
        ({
            let u = planned_uploads(v);
            let np: int = if v.pending_points is Some { 1 } else { 0 };
            let nl: int = if v.pending_lines is Some { 1 } else { 0 };
            let nq: int = if v.pending_polys is Some { 1 } else { 0 };
            &&& u.len() == np + nl + nq
            &&& (v.pending_points matches Some(d) ==> u[0] == (
                v.objects.vao_points,
                v.objects.vbo_points,
                d,
            ))
            &&& (v.pending_lines matches Some(d) ==> u[np] == (
                v.objects.vao_lines,
                v.objects.vbo_lines,
                d,
            ))
            &&& (v.pending_polys matches Some(d) ==> u[np + nl] == (
                v.objects.vao_polys,
                v.objects.vbo_polys,
                d,
            ))
        }),
{
    let a = upload_of(v.pending_points, v.objects.vao_points, v.objects.vbo_points);
    let b = upload_of(v.pending_lines, v.objects.vao_lines, v.objects.vbo_lines);
    let c = upload_of(v.pending_polys, v.objects.vao_polys, v.objects.vbo_polys);
    let u = a + b + c;
    if v.pending_points is Some {
        assert(u[0] == a[0]);
    }
    if v.pending_lines is Some {
        assert(u[a.len() as int] == (a + b)[a.len() as int]);
        assert((a + b)[a.len() as int] == b[0]);
    }
    if v.pending_polys is Some {
        assert(u[(a.len() + b.len()) as int] == c[0]);
    }
}

proof fn lemma_present_release_contained(name: u32, r: GlRelease)
    requires
        name != 0,
    ensures
        release_if_present(name, r).contains(r),
{
    assert(release_if_present(name, r)[0] == r);
}

proof fn lemma_contained_in_concat(a: Seq<GlRelease>, b: Seq<GlRelease>, x: GlRelease)
    requires
        a.contains(x) || b.contains(x),
    ensures
        (a + b).contains(x),
{
    if a.contains(x) {
        let i = choose|i: int| 0 <= i < a.len() && a[i] == x;
        assert((a + b)[i] == x);
    } else {
        let i = choose|i: int| 0 <= i < b.len() && b[i] == x;
        assert((a + b)[a.len() + i] == x);
    }
}

proof fn lemma_real_objects_exclude_zero(s: Seq<GlRelease>, x: GlRelease)
    requires
        releases_real_objects(s),
        released_name(x) == 0,
    ensures
        !s.contains(x),
{
    if s.contains(x) {
        let i = choose|i: int| 0 <= i < s.len() && s[i] == x;
        assert(released_name(s[i]) != 0);
    }
}

/// The number of nonzero names among `names`.
pub open spec fn present_count(names: Seq<u32>) -> nat
    decreases names.len(),
{
    if names.len() == 0 {
        0
    } else {
        present_count(names.drop_last()) + (if names.last() != 0 { 1nat } else { 0nat })
    }
}

/// Giving up an offscreen target deletes each of its objects exactly when
/// that object's own name is nonzero, whatever the other names are, and
/// deletes nothing else: one deletion per existing object.
pub proof fn lemma_target_releases_each_existing_object(t: OffscreenTarget)
    ensures
        target_releases(t).contains(GlRelease::Renderbuffer(t.depth)) <==> t.depth != 0,
        target_releases(t).contains(GlRelease::Texture(t.texture)) <==> t.texture != 0,
        target_releases(t).contains(GlRelease::Framebuffer(t.framebuffer)) <==> t.framebuffer != 0,
        target_releases(t).len() == present_count(seq![t.depth, t.texture, t.framebuffer]),
{
    let a = release_if_present(t.depth, GlRelease::Renderbuffer(t.depth));
    let b = release_if_present(t.texture, GlRelease::Texture(t.texture));
    let c = release_if_present(t.framebuffer, GlRelease::Framebuffer(t.framebuffer));
    lemma_releases_name_objects(t, GlObjects::spec_none());
    lemma_release_twice_releases_nothing();
    assert(target_releases(t) + object_releases(GlObjects::spec_none()) =~= target_releases(t));
    if t.depth != 0 {
        lemma_present_release_contained(t.depth, GlRelease::Renderbuffer(t.depth));
        lemma_contained_in_concat(a, b, GlRelease::Renderbuffer(t.depth));
        lemma_contained_in_concat(a + b, c, GlRelease::Renderbuffer(t.depth));
    } else {
        lemma_real_objects_exclude_zero(target_releases(t), GlRelease::Renderbuffer(t.depth));
    }
    if t.texture != 0 {
        lemma_present_release_contained(t.texture, GlRelease::Texture(t.texture));
        lemma_contained_in_concat(a, b, GlRelease::Texture(t.texture));
        lemma_contained_in_concat(a + b, c, GlRelease::Texture(t.texture));
    } else {
        lemma_real_objects_exclude_zero(target_releases(t), GlRelease::Texture(t.texture));
    }
    if t.framebuffer != 0 {
        lemma_present_release_contained(t.framebuffer, GlRelease::Framebuffer(t.framebuffer));
        lemma_contained_in_concat(a + b, c, GlRelease::Framebuffer(t.framebuffer));
    } else {
        lemma_real_objects_exclude_zero(target_releases(t), GlRelease::Framebuffer(t.framebuffer));
    }
    let names = seq![t.depth, t.texture, t.framebuffer];
    assert(names.drop_last() =~= seq![t.depth, t.texture]);
    assert(names.drop_last().drop_last() =~= seq![t.depth]);
    assert(names.drop_last().drop_last().drop_last() =~= Seq::<u32>::empty());
    reveal_with_fuel(present_count, 4);
    assert(seq![t.depth].drop_last() =~= Seq::<u32>::empty());
    assert(seq![t.depth, t.texture].drop_last() =~= seq![t.depth]);
    assert(present_count(seq![t.depth]) == (if t.depth != 0 { 1nat } else { 0nat }));
    assert(present_count(seq![t.depth, t.texture]) == present_count(seq![t.depth]) + (if t.texture
        != 0 {
        1nat
    } else {
        0nat
    }));
    assert(present_count(names) == present_count(seq![t.depth, t.texture]) + (if t.framebuffer
        != 0 {
        1nat
    } else {
        0nat
    }));
}


/// Giving up the loaded objects deletes each of them exactly when its own
/// name is nonzero, whatever the other names are, and deletes nothing else.
#[verifier::rlimit(50)]
pub proof fn lemma_object_releases_each_existing_object(o: GlObjects)
    ensures
        object_releases(o).contains(GlRelease::Buffer(o.vbo_points)) <==> o.vbo_points != 0,
        object_releases(o).contains(GlRelease::VertexArray(o.vao_points)) <==> o.vao_points != 0,
        object_releases(o).contains(GlRelease::Buffer(o.vbo_lines)) <==> o.vbo_lines != 0,
        object_releases(o).contains(GlRelease::VertexArray(o.vao_lines)) <==> o.vao_lines != 0,
        object_releases(o).contains(GlRelease::Buffer(o.vbo_polys)) <==> o.vbo_polys != 0,
        object_releases(o).contains(GlRelease::VertexArray(o.vao_polys)) <==> o.vao_polys != 0,
        object_releases(o).contains(GlRelease::Program(o.shader_points)) <==> o.shader_points != 0,
        object_releases(o).contains(GlRelease::Program(o.shader_gizmos)) <==> o.shader_gizmos != 0,
{
    lemma_releases_name_objects(OffscreenTarget::spec_none(), o);
    lemma_release_twice_releases_nothing();
    assert(target_releases(OffscreenTarget::spec_none()) + object_releases(o) =~= object_releases(o));
    let r1 = release_if_present(o.vbo_points, GlRelease::Buffer(o.vbo_points));
    let r2 = release_if_present(o.vao_points, GlRelease::VertexArray(o.vao_points));
    let r3 = release_if_present(o.vbo_lines, GlRelease::Buffer(o.vbo_lines));
    let r4 = release_if_present(o.vao_lines, GlRelease::VertexArray(o.vao_lines));
    let r5 = release_if_present(o.vbo_polys, GlRelease::Buffer(o.vbo_polys));
    let r6 = release_if_present(o.vao_polys, GlRelease::VertexArray(o.vao_polys));
    let r7 = release_if_present(o.shader_points, GlRelease::Program(o.shader_points));
    let r8 = release_if_present(o.shader_gizmos, GlRelease::Program(o.shader_gizmos));
    assert(object_releases(o).contains(GlRelease::Buffer(o.vbo_points)) <==> o.vbo_points != 0) by {
        if o.vbo_points != 0 {
            lemma_present_release_contained(o.vbo_points, GlRelease::Buffer(o.vbo_points));
            lemma_contained_in_concat(r1, r2, GlRelease::Buffer(o.vbo_points));
            lemma_contained_in_concat(r1 + r2, r3, GlRelease::Buffer(o.vbo_points));
            lemma_contained_in_concat(r1 + r2 + r3, r4, GlRelease::Buffer(o.vbo_points));
            lemma_contained_in_concat(r1 + r2 + r3 + r4, r5, GlRelease::Buffer(o.vbo_points));
            lemma_contained_in_concat(r1 + r2 + r3 + r4 + r5, r6, GlRelease::Buffer(o.vbo_points));
            lemma_contained_in_concat(r1 + r2 + r3 + r4 + r5 + r6, r7, GlRelease::Buffer(o.vbo_points));
            lemma_contained_in_concat(r1 + r2 + r3 + r4 + r5 + r6 + r7, r8, GlRelease::Buffer(o.vbo_points));
        } else {
            lemma_real_objects_exclude_zero(object_releases(o), GlRelease::Buffer(o.vbo_points));
        }
    }
    assert(object_releases(o).contains(GlRelease::VertexArray(o.vao_points)) <==> o.vao_points != 0) by {
        if o.vao_points != 0 {
            lemma_present_release_contained(o.vao_points, GlRelease::VertexArray(o.vao_points));
            lemma_contained_in_concat(r1, r2, GlRelease::VertexArray(o.vao_points));
            lemma_contained_in_concat(r1 + r2, r3, GlRelease::VertexArray(o.vao_points));
            lemma_contained_in_concat(r1 + r2 + r3, r4, GlRelease::VertexArray(o.vao_points));
            lemma_contained_in_concat(r1 + r2 + r3 + r4, r5, GlRelease::VertexArray(o.vao_points));
            lemma_contained_in_concat(r1 + r2 + r3 + r4 + r5, r6, GlRelease::VertexArray(o.vao_points));
            lemma_contained_in_concat(r1 + r2 + r3 + r4 + r5 + r6, r7, GlRelease::VertexArray(o.vao_points));
            lemma_contained_in_concat(r1 + r2 + r3 + r4 + r5 + r6 + r7, r8, GlRelease::VertexArray(o.vao_points));
        } else {
            lemma_real_objects_exclude_zero(object_releases(o), GlRelease::VertexArray(o.vao_points));
        }
    }
    assert(object_releases(o).contains(GlRelease::Buffer(o.vbo_lines)) <==> o.vbo_lines != 0) by {
        if o.vbo_lines != 0 {
            lemma_present_release_contained(o.vbo_lines, GlRelease::Buffer(o.vbo_lines));
            lemma_contained_in_concat(r1 + r2, r3, GlRelease::Buffer(o.vbo_lines));
            lemma_contained_in_concat(r1 + r2 + r3, r4, GlRelease::Buffer(o.vbo_lines));
            lemma_contained_in_concat(r1 + r2 + r3 + r4, r5, GlRelease::Buffer(o.vbo_lines));
            lemma_contained_in_concat(r1 + r2 + r3 + r4 + r5, r6, GlRelease::Buffer(o.vbo_lines));
            lemma_contained_in_concat(r1 + r2 + r3 + r4 + r5 + r6, r7, GlRelease::Buffer(o.vbo_lines));
            lemma_contained_in_concat(r1 + r2 + r3 + r4 + r5 + r6 + r7, r8, GlRelease::Buffer(o.vbo_lines));
        } else {
            lemma_real_objects_exclude_zero(object_releases(o), GlRelease::Buffer(o.vbo_lines));
        }
    }
    assert(object_releases(o).contains(GlRelease::VertexArray(o.vao_lines)) <==> o.vao_lines != 0) by {
        if o.vao_lines != 0 {
            lemma_present_release_contained(o.vao_lines, GlRelease::VertexArray(o.vao_lines));
            lemma_contained_in_concat(r1 + r2 + r3, r4, GlRelease::VertexArray(o.vao_lines));
            lemma_contained_in_concat(r1 + r2 + r3 + r4, r5, GlRelease::VertexArray(o.vao_lines));
            lemma_contained_in_concat(r1 + r2 + r3 + r4 + r5, r6, GlRelease::VertexArray(o.vao_lines));
            lemma_contained_in_concat(r1 + r2 + r3 + r4 + r5 + r6, r7, GlRelease::VertexArray(o.vao_lines));
            lemma_contained_in_concat(r1 + r2 + r3 + r4 + r5 + r6 + r7, r8, GlRelease::VertexArray(o.vao_lines));
        } else {
            lemma_real_objects_exclude_zero(object_releases(o), GlRelease::VertexArray(o.vao_lines));
        }
    }
    assert(object_releases(o).contains(GlRelease::Buffer(o.vbo_polys)) <==> o.vbo_polys != 0) by {
        if o.vbo_polys != 0 {
            lemma_present_release_contained(o.vbo_polys, GlRelease::Buffer(o.vbo_polys));
            lemma_contained_in_concat(r1 + r2 + r3 + r4, r5, GlRelease::Buffer(o.vbo_polys));
            lemma_contained_in_concat(r1 + r2 + r3 + r4 + r5, r6, GlRelease::Buffer(o.vbo_polys));
            lemma_contained_in_concat(r1 + r2 + r3 + r4 + r5 + r6, r7, GlRelease::Buffer(o.vbo_polys));
            lemma_contained_in_concat(r1 + r2 + r3 + r4 + r5 + r6 + r7, r8, GlRelease::Buffer(o.vbo_polys));
        } else {
            lemma_real_objects_exclude_zero(object_releases(o), GlRelease::Buffer(o.vbo_polys));
        }
    }
    assert(object_releases(o).contains(GlRelease::VertexArray(o.vao_polys)) <==> o.vao_polys != 0) by {
        if o.vao_polys != 0 {
            lemma_present_release_contained(o.vao_polys, GlRelease::VertexArray(o.vao_polys));
            lemma_contained_in_concat(r1 + r2 + r3 + r4 + r5, r6, GlRelease::VertexArray(o.vao_polys));
            lemma_contained_in_concat(r1 + r2 + r3 + r4 + r5 + r6, r7, GlRelease::VertexArray(o.vao_polys));
            lemma_contained_in_concat(r1 + r2 + r3 + r4 + r5 + r6 + r7, r8, GlRelease::VertexArray(o.vao_polys));
        } else {
            lemma_real_objects_exclude_zero(object_releases(o), GlRelease::VertexArray(o.vao_polys));
        }
    }
    assert(object_releases(o).contains(GlRelease::Program(o.shader_points)) <==> o.shader_points != 0) by {
        if o.shader_points != 0 {
            lemma_present_release_contained(o.shader_points, GlRelease::Program(o.shader_points));
            lemma_contained_in_concat(r1 + r2 + r3 + r4 + r5 + r6, r7, GlRelease::Program(o.shader_points));
            lemma_contained_in_concat(r1 + r2 + r3 + r4 + r5 + r6 + r7, r8, GlRelease::Program(o.shader_points));
        } else {
            lemma_real_objects_exclude_zero(object_releases(o), GlRelease::Program(o.shader_points));
        }
    }
    assert(object_releases(o).contains(GlRelease::Program(o.shader_gizmos)) <==> o.shader_gizmos != 0) by {
        if o.shader_gizmos != 0 {
            lemma_present_release_contained(o.shader_gizmos, GlRelease::Program(o.shader_gizmos));
            lemma_contained_in_concat(r1 + r2 + r3 + r4 + r5 + r6 + r7, r8, GlRelease::Program(o.shader_gizmos));
        } else {
            lemma_real_objects_exclude_zero(object_releases(o), GlRelease::Program(o.shader_gizmos));
        }
    }
}

/// Giving up the loaded objects deletes one object per nonzero name.
pub proof fn lemma_object_releases_count(o: GlObjects)
    ensures
        object_releases(o).len() == present_count(seq![o.vbo_points, o.vao_points, o.vbo_lines, o.vao_lines, o.vbo_polys, o.vao_polys, o.shader_points, o.shader_gizmos]),
{
    let r1 = release_if_present(o.vbo_points, GlRelease::Buffer(o.vbo_points));
    let r2 = release_if_present(o.vao_points, GlRelease::VertexArray(o.vao_points));
    let r3 = release_if_present(o.vbo_lines, GlRelease::Buffer(o.vbo_lines));
    let r4 = release_if_present(o.vao_lines, GlRelease::VertexArray(o.vao_lines));
    let r5 = release_if_present(o.vbo_polys, GlRelease::Buffer(o.vbo_polys));
    let r6 = release_if_present(o.vao_polys, GlRelease::VertexArray(o.vao_polys));
    let r7 = release_if_present(o.shader_points, GlRelease::Program(o.shader_points));
    let r8 = release_if_present(o.shader_gizmos, GlRelease::Program(o.shader_gizmos));
    reveal_with_fuel(present_count, 9);
    assert(seq![o.vbo_points, o.vao_points, o.vbo_lines, o.vao_lines, o.vbo_polys, o.vao_polys, o.shader_points, o.shader_gizmos].drop_last() =~= seq![o.vbo_points, o.vao_points, o.vbo_lines, o.vao_lines, o.vbo_polys, o.vao_polys, o.shader_points]);
    assert(seq![o.vbo_points, o.vao_points, o.vbo_lines, o.vao_lines, o.vbo_polys, o.vao_polys, o.shader_points].drop_last() =~= seq![o.vbo_points, o.vao_points, o.vbo_lines, o.vao_lines, o.vbo_polys, o.vao_polys]);
    assert(seq![o.vbo_points, o.vao_points, o.vbo_lines, o.vao_lines, o.vbo_polys, o.vao_polys].drop_last() =~= seq![o.vbo_points, o.vao_points, o.vbo_lines, o.vao_lines, o.vbo_polys]);
    assert(seq![o.vbo_points, o.vao_points, o.vbo_lines, o.vao_lines, o.vbo_polys].drop_last() =~= seq![o.vbo_points, o.vao_points, o.vbo_lines, o.vao_lines]);
    assert(seq![o.vbo_points, o.vao_points, o.vbo_lines, o.vao_lines].drop_last() =~= seq![o.vbo_points, o.vao_points, o.vbo_lines]);
    assert(seq![o.vbo_points, o.vao_points, o.vbo_lines].drop_last() =~= seq![o.vbo_points, o.vao_points]);
    assert(seq![o.vbo_points, o.vao_points].drop_last() =~= seq![o.vbo_points]);
    assert(seq![o.vbo_points].drop_last() =~= Seq::<u32>::empty());
    assert(present_count(seq![o.vbo_points]) == 0nat + (if o.vbo_points != 0 { 1nat } else { 0nat }));
    assert((r1).len() == present_count(seq![o.vbo_points]));
    assert(present_count(seq![o.vbo_points, o.vao_points]) == present_count(seq![o.vbo_points]) + (if o.vao_points != 0 { 1nat } else { 0nat }));
    assert((r1 + r2).len() == present_count(seq![o.vbo_points, o.vao_points]));
    assert(present_count(seq![o.vbo_points, o.vao_points, o.vbo_lines]) == present_count(seq![o.vbo_points, o.vao_points]) + (if o.vbo_lines != 0 { 1nat } else { 0nat }));
    assert((r1 + r2 + r3).len() == present_count(seq![o.vbo_points, o.vao_points, o.vbo_lines]));
    assert(present_count(seq![o.vbo_points, o.vao_points, o.vbo_lines, o.vao_lines]) == present_count(seq![o.vbo_points, o.vao_points, o.vbo_lines]) + (if o.vao_lines != 0 { 1nat } else { 0nat }));
    assert((r1 + r2 + r3 + r4).len() == present_count(seq![o.vbo_points, o.vao_points, o.vbo_lines, o.vao_lines]));
    assert(present_count(seq![o.vbo_points, o.vao_points, o.vbo_lines, o.vao_lines, o.vbo_polys]) == present_count(seq![o.vbo_points, o.vao_points, o.vbo_lines, o.vao_lines]) + (if o.vbo_polys != 0 { 1nat } else { 0nat }));
    assert((r1 + r2 + r3 + r4 + r5).len() == present_count(seq![o.vbo_points, o.vao_points, o.vbo_lines, o.vao_lines, o.vbo_polys]));
    assert(present_count(seq![o.vbo_points, o.vao_points, o.vbo_lines, o.vao_lines, o.vbo_polys, o.vao_polys]) == present_count(seq![o.vbo_points, o.vao_points, o.vbo_lines, o.vao_lines, o.vbo_polys]) + (if o.vao_polys != 0 { 1nat } else { 0nat }));
    assert((r1 + r2 + r3 + r4 + r5 + r6).len() == present_count(seq![o.vbo_points, o.vao_points, o.vbo_lines, o.vao_lines, o.vbo_polys, o.vao_polys]));
    assert(present_count(seq![o.vbo_points, o.vao_points, o.vbo_lines, o.vao_lines, o.vbo_polys, o.vao_polys, o.shader_points]) == present_count(seq![o.vbo_points, o.vao_points, o.vbo_lines, o.vao_lines, o.vbo_polys, o.vao_polys]) + (if o.shader_points != 0 { 1nat } else { 0nat }));
    assert((r1 + r2 + r3 + r4 + r5 + r6 + r7).len() == present_count(seq![o.vbo_points, o.vao_points, o.vbo_lines, o.vao_lines, o.vbo_polys, o.vao_polys, o.shader_points]));
    assert(present_count(seq![o.vbo_points, o.vao_points, o.vbo_lines, o.vao_lines, o.vbo_polys, o.vao_polys, o.shader_points, o.shader_gizmos]) == present_count(seq![o.vbo_points, o.vao_points, o.vbo_lines, o.vao_lines, o.vbo_polys, o.vao_polys, o.shader_points]) + (if o.shader_gizmos != 0 { 1nat } else { 0nat }));
    assert((r1 + r2 + r3 + r4 + r5 + r6 + r7 + r8).len() == present_count(seq![o.vbo_points, o.vao_points, o.vbo_lines, o.vao_lines, o.vbo_polys, o.vao_polys, o.shader_points, o.shader_gizmos]));
}


} // verus!
