use point_glass_opengl::renderer::{
    FrameStep, GlObjects, GlRelease, OffscreenStep, OffscreenTarget, RenderCommand, RenderPlan,
    Renderer,
};

fn draw(r: &mut Renderer) -> RenderPlan {
    match r.render() {
        FrameStep::Draw(plan) => plan,
        FrameStep::Load => panic!("renderer has not loaded"),
    }
}

fn bits(values: &[f32]) -> Vec<u32> {
    values.iter().map(|v| v.to_bits()).collect()
}

fn loaded() -> Renderer {
    let mut r = Renderer::new();
    assert!(r.needs_gl_load());
    r.finish_gl_load(GlObjects {
        shader_points: 1,
        shader_gizmos: 2,
        vao_points: 3,
        vbo_points: 4,
        vao_lines: 5,
        vbo_lines: 6,
        vao_polys: 7,
        vbo_polys: 8,
    });
    assert!(!r.needs_gl_load());
    r
}

#[test]
fn new_renderer_is_empty_and_one_by_one() {
    let r = Renderer::new();
    assert!(r.needs_gl_load());
    assert_eq!(r.width(), 1);
    assert_eq!(r.height(), 1);
    assert_eq!(r.point_count(), 0);
    assert_eq!(r.line_count(), 0);
    assert_eq!(r.poly_count(), 0);
    assert_eq!(r.gl_objects(), GlObjects::none());
    assert_eq!(r.offscreen_target(), OffscreenTarget::none());
}

#[test]
fn resize_takes_zero_as_one() {
    let mut r = Renderer::new();
    r.resize(0, 480);
    assert_eq!((r.width(), r.height()), (1, 480));
    r.resize(640, 0);
    assert_eq!((r.width(), r.height()), (640, 1));
    r.resize(1920, 1080);
    assert_eq!((r.width(), r.height()), (1920, 1080));
}

#[test]
fn resize_twice_is_resize_once() {
    let mut a = Renderer::new();
    a.resize(0, 7);
    let mut b = Renderer::new();
    b.resize(0, 7);
    b.resize(0, 7);
    assert_eq!((a.width(), a.height()), (b.width(), b.height()));
}

#[test]
fn empty_frame_only_prepares_and_finishes() {
    let mut r = loaded();
    let plan = draw(&mut r);
    assert!(plan.uploads.is_empty());
    assert_eq!(plan.commands, vec![RenderCommand::Prepare, RenderCommand::Finish]);
}

#[test]
fn points_are_uploaded_then_drawn() {
    let mut r = loaded();
    let data = bits(&[0.0, 0.0, 0.0, 0.0, 1.0, 0.0, 0.5, 0.5, 0.0, 1.0, 1.0, 1.0]);
    r.set_points(data.clone());
    let plan = draw(&mut r);
    assert_eq!(plan.uploads.len(), 1);
    assert_eq!((plan.uploads[0].vao, plan.uploads[0].vbo), (3, 4));
    assert_eq!(plan.uploads[0].data, data);
    assert_eq!(r.point_count(), 3);
    assert_eq!(
        plan.commands,
        vec![
            RenderCommand::Prepare,
            RenderCommand::UsePointProgram(1),
            RenderCommand::DrawPoints { vao: 3, count: 3 },
            RenderCommand::Finish,
        ]
    );
}

#[test]
fn second_frame_uploads_nothing_and_draws_the_same() {
    let mut r = loaded();
    r.set_points(bits(&[1.0; 8]));
    r.set_lines(bits(&[1.0; 16]));
    let first = draw(&mut r);
    assert_eq!(first.uploads.len(), 2);
    let second = draw(&mut r);
    assert!(second.uploads.is_empty());
    assert_eq!(first.commands, second.commands);
}

#[test]
fn partial_vertices_are_not_counted() {
    let mut r = loaded();
    r.set_points(bits(&[1.0; 7]));
    r.set_lines(bits(&[1.0; 15]));
    r.set_polygons(bits(&[1.0; 25]));
    let plan = draw(&mut r);
    assert_eq!(r.point_count(), 1);
    assert_eq!(r.line_count(), 1);
    assert_eq!(r.poly_count(), 3);
    assert_eq!(plan.uploads.len(), 3);
    assert_eq!((plan.uploads[1].vao, plan.uploads[1].vbo), (5, 6));
    assert_eq!((plan.uploads[2].vao, plan.uploads[2].vbo), (7, 8));
    assert_eq!(
        plan.commands,
        vec![
            RenderCommand::Prepare,
            RenderCommand::UseGizmoProgram(2),
            RenderCommand::DrawLines { vao: 5, count: 1 },
            RenderCommand::DrawPolygons { vao: 7, count: 3 },
            RenderCommand::UsePointProgram(1),
            RenderCommand::DrawPoints { vao: 3, count: 1 },
            RenderCommand::Finish,
        ]
    );
}

#[test]
fn polygons_alone_use_the_gizmo_program() {
    let mut r = loaded();
    r.set_polygons(bits(&[0.5; 24]));
    let plan = draw(&mut r);
    assert_eq!(
        plan.commands,
        vec![
            RenderCommand::Prepare,
            RenderCommand::UseGizmoProgram(2),
            RenderCommand::DrawPolygons { vao: 7, count: 3 },
            RenderCommand::Finish,
        ]
    );
}

#[test]
fn empty_data_clears_what_was_drawn() {
    let mut r = loaded();
    r.set_points(bits(&[1.0; 4]));
    draw(&mut r);
    assert_eq!(r.point_count(), 1);
    r.set_points(Vec::new());
    let plan = draw(&mut r);
    assert_eq!(plan.uploads.len(), 1);
    assert!(plan.uploads[0].data.is_empty());
    assert_eq!(r.point_count(), 0);
    assert_eq!(plan.commands, vec![RenderCommand::Prepare, RenderCommand::Finish]);
}

#[test]
fn latest_data_wins() {
    let mut r = loaded();
    r.set_lines(bits(&[1.0; 8]));
    r.set_lines(bits(&[1.0; 24]));
    let plan = draw(&mut r);
    assert_eq!(plan.uploads.len(), 1);
    assert_eq!(plan.uploads[0].data.len(), 24);
    assert_eq!(r.line_count(), 3);
}

#[test]
fn fresh_offscreen_target_is_built_and_then_reused() {
    let mut r = loaded();
    assert!(!r.offscreen_target_fits(640, 480));
    match r.begin_offscreen_target(640, 480) {
        OffscreenStep::Rebuild(releases) => assert!(releases.is_empty()),
        OffscreenStep::Reuse => panic!("nothing to reuse"),
    }
    let (ok, releases) = r.finish_offscreen_target(10, 11, 12, true, 640, 480);
    assert!(ok);
    assert!(releases.is_empty());
    assert_eq!(
        r.offscreen_target(),
        OffscreenTarget { framebuffer: 10, texture: 11, depth: 12, width: 640, height: 480 }
    );
    assert!(r.offscreen_target_fits(640, 480));
    assert!(matches!(r.begin_offscreen_target(640, 480), OffscreenStep::Reuse));
    assert_eq!(r.offscreen_target().framebuffer, 10);
}

#[test]
fn resized_offscreen_target_is_rebuilt() {
    let mut r = loaded();
    r.begin_offscreen_target(640, 480);
    r.finish_offscreen_target(10, 11, 12, true, 640, 480);
    match r.begin_offscreen_target(800, 600) {
        OffscreenStep::Rebuild(releases) => assert_eq!(
            releases,
            vec![GlRelease::Renderbuffer(12), GlRelease::Texture(11), GlRelease::Framebuffer(10)]
        ),
        OffscreenStep::Reuse => panic!("extent changed"),
    }
    assert_eq!(r.offscreen_target(), OffscreenTarget::none());
}

#[test]
fn incomplete_offscreen_target_is_dropped() {
    let mut r = loaded();
    r.begin_offscreen_target(64, 64);
    let (ok, releases) = r.finish_offscreen_target(20, 21, 22, false, 64, 64);
    assert!(!ok);
    assert_eq!(
        releases,
        vec![GlRelease::Renderbuffer(22), GlRelease::Texture(21), GlRelease::Framebuffer(20)]
    );
    assert_eq!(r.offscreen_target(), OffscreenTarget::none());
    assert!(!r.offscreen_target_fits(64, 64));
}

#[test]
fn target_without_framebuffer_is_never_reused() {
    let mut r = loaded();
    r.begin_offscreen_target(64, 64);
    r.finish_offscreen_target(0, 21, 0, true, 64, 64);
    assert!(!r.offscreen_target_fits(64, 64));
    match r.begin_offscreen_target(64, 64) {
        OffscreenStep::Rebuild(releases) => assert_eq!(releases, vec![GlRelease::Texture(21)]),
        OffscreenStep::Reuse => panic!("no framebuffer"),
    }
}

#[test]
fn releasing_deletes_everything_once() {
    let mut r = loaded();
    r.begin_offscreen_target(32, 16);
    r.finish_offscreen_target(10, 11, 12, true, 32, 16);
    let releases = r.release_gl_resources();
    assert_eq!(
        releases,
        vec![
            GlRelease::Renderbuffer(12),
            GlRelease::Texture(11),
            GlRelease::Framebuffer(10),
            GlRelease::Buffer(4),
            GlRelease::VertexArray(3),
            GlRelease::Buffer(6),
            GlRelease::VertexArray(5),
            GlRelease::Buffer(8),
            GlRelease::VertexArray(7),
            GlRelease::Program(1),
            GlRelease::Program(2),
        ]
    );
    assert!(r.needs_gl_load());
    assert_eq!(r.gl_objects(), GlObjects::none());
    assert!(r.release_gl_resources().is_empty());
}

#[test]
fn missing_objects_are_not_released() {
    let mut r = Renderer::new();
    r.finish_gl_load(GlObjects { shader_points: 9, ..GlObjects::none() });
    assert_eq!(r.release_offscreen_target(), Vec::new());
    assert_eq!(r.release_gl_resources(), vec![GlRelease::Program(9)]);
}

#[test]
fn destroy_before_loading_releases_nothing() {
    let r = Renderer::new();
    assert!(r.destroy().is_empty());
}

#[test]
fn destroy_after_loading_releases_everything() {
    let r = loaded();
    assert_eq!(r.destroy().len(), 8);
}

#[test]
fn reloading_after_release_records_new_objects() {
    let mut r = loaded();
    r.release_gl_resources();
    r.finish_gl_load(GlObjects { vao_points: 40, ..GlObjects::none() });
    r.set_points(bits(&[0.0; 4]));
    let plan = draw(&mut r);
    assert_eq!(plan.uploads[0].vao, 40);
}

#[test]
fn unloaded_renderer_asks_for_loading_first() {
    let mut r = Renderer::new();
    r.set_points(bits(&[1.0; 8]));
    assert!(matches!(r.render(), FrameStep::Load));
    assert!(r.needs_gl_load());
    assert_eq!(r.point_count(), 0);
    r.finish_gl_load(GlObjects { vao_points: 3, vbo_points: 4, shader_points: 1, ..GlObjects::none() });
    let plan = draw(&mut r);
    assert!(!r.needs_gl_load());
    assert_eq!((plan.uploads[0].vao, plan.uploads[0].vbo), (3, 4));
    assert_eq!(r.point_count(), 2);
    assert_eq!(plan.commands[1], RenderCommand::UsePointProgram(1));
}
