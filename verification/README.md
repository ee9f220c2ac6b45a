# point_glass_opengl

Native core of a Flutter point cloud viewer rendered with OpenGL.

- `src/` is the verified library (Verus):
  - `renderer.rs`: the renderer's GL-side state (owned objects, offscreen
    target, pending vertex data, vertex counts, render-target extent) and the
    plans it returns: what a frame uploads and draws, and which objects to
    delete.
  - `shader_source.rs`: preparing shader text for the driver, and the
    compile/link error reports.
  - `vertex_layout.rs`: how point and line/polygon vertices feed the shaders.
  - `gl_loader.rs`: where GL function addresses are looked up.
  - `wgl.rs`: the pixel format and context attributes of the Windows context.
- `app/` is the C ABI the Flutter plugin calls: it performs the plans with
  the `gl` crate, creates the WGL context on Windows, and holds the camera
  and projection math (floating point).
- `tests/` exercises the library.

The GLSL shaders are expected in `shaders/desktop/` (`points.vert`,
`points.frag`, `gizmos.vert`, `gizmos.frag`); they are embedded at build time.
