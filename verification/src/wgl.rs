use vstd::prelude::*;

verus! {

/// Size in bytes of a `PIXELFORMATDESCRIPTOR`.
pub const PIXEL_FORMAT_DESCRIPTOR_SIZE: usize = 40;

/// The pixel format asked of the hidden window: the structure's size (40)
/// at byte 0, version 1 at byte 2, flags `0x25` (draw to window, support
/// OpenGL, double buffer) at byte 4, 32 color bits at byte 9, 24 depth bits
/// at byte 23, and zero everywhere else.
pub open spec fn pixel_format_byte(i: int) -> u8 {
    if i == 0 {
        40
    } else if i == 2 {
        1
    } else if i == 4 {
        0x25
    } else if i == 9 {
        32
    } else if i == 23 {
        24
    } else {
        0
    }
}

/// The `PIXELFORMATDESCRIPTOR` bytes for the hidden window.
pub fn pixel_format_descriptor() -> (pfd: Vec<u8>)
    ensures
        pfd@.len() == PIXEL_FORMAT_DESCRIPTOR_SIZE,
        forall|i: int| 0 <= i < PIXEL_FORMAT_DESCRIPTOR_SIZE ==> #[trigger] pfd@[i] == pixel_format_byte(i),
{
    let mut pfd: Vec<u8> = Vec::new();
    let mut i: usize = 0;
    while i < PIXEL_FORMAT_DESCRIPTOR_SIZE
        invariant
            i <= PIXEL_FORMAT_DESCRIPTOR_SIZE,
            pfd@.len() == i,
            forall|j: int| 0 <= j < i ==> #[trigger] pfd@[j] == 0u8,
        decreases PIXEL_FORMAT_DESCRIPTOR_SIZE - i,
    {
        pfd.push(0u8);
        i = i + 1;
    }
    pfd.set(0, 40);
    pfd.set(2, 1);
    pfd.set(4, 0x25);
    pfd.set(9, 32);
    pfd.set(23, 24);
    pfd
}

/// Attributes for `wglCreateContextAttribsARB`: OpenGL 3.3, core profile,
/// closed by 0.
pub open spec fn core_context_attributes() -> Seq<i32> {
    seq![0x2091, 3, 0x2092, 3, 0x9126, 2, 0]
}

/// The context attribute list that asks for an OpenGL 3.3 core profile.
pub fn context_attributes() -> (attribs: Vec<i32>)
    ensures
        attribs@ == core_context_attributes(),
{
    let attribs = vec![0x2091, 3, 0x2092, 3, 0x9126, 2, 0];
    assert(attribs@ =~= core_context_attributes());
    attribs
}

/// The context kept for the thread: the core-profile one when it could be
/// created (nonzero), else the legacy one.
pub fn choose_context(legacy: isize, core: isize) -> (ctx: isize)
    ensures
        ctx == (if core != 0 { core } else { legacy }),
{
    if core != 0 {
        core
    } else {
        legacy
    }
}

} // verus!
