use vstd::prelude::*;

verus! {

/// Where the address of a GL function is looked up.
#[derive(Clone, Copy, Debug, PartialEq, Eq, Structural)]
pub enum SymbolSource {
    /// `libGL.so.1`
    LibGl,
    /// `libEGL.so.1`
    LibEgl,
    /// The symbols already loaded in the process (`RTLD_DEFAULT`).
    Process,
}

/// The lookup order on Linux: `libGL`, then `libEGL` (each only if it could
/// be opened), then the process; the first non-null address wins.
pub open spec fn lookup_order(libgl_opened: bool, libegl_opened: bool) -> Seq<SymbolSource> {
    (if libgl_opened {
        seq![SymbolSource::LibGl]
    } else {
        seq![]
    }) + (if libegl_opened {
        seq![SymbolSource::LibEgl]
    } else {
        seq![]
    }) + seq![SymbolSource::Process]
}

/// Where to look a GL function up, in order.
pub fn symbol_lookup_order(libgl_opened: bool, libegl_opened: bool) -> (order: Vec<SymbolSource>)
    ensures
        order@ == lookup_order(libgl_opened, libegl_opened),
{
    let mut order: Vec<SymbolSource> = Vec::new();
    if libgl_opened {
        order.push(SymbolSource::LibGl);
    }
    if libegl_opened {
        order.push(SymbolSource::LibEgl);
    }
    order.push(SymbolSource::Process);
    proof {
        assert(order@ =~= lookup_order(libgl_opened, libegl_opened));
    }
    order
}

/// Addresses that `wglGetProcAddress` returns for functions it does not
/// serve (0, 1, 2, 3 and -1).
pub open spec fn is_unserved_address(address: usize) -> bool {
    address == 0 || address == 1 || address == 2 || address == 3 || address == usize::MAX
}

/// Whether a GL function has to be looked up in `opengl32.dll` instead:
/// the WGL lookup gave an unserved address and the library is loaded.
pub fn needs_library_lookup(wgl_address: usize, library: isize) -> (b: bool)
    ensures
        b == (is_unserved_address(wgl_address) && library != 0),
{
    (wgl_address == 0 || wgl_address == 1 || wgl_address == 2 || wgl_address == 3
        || wgl_address == usize::MAX) && library != 0
}

} // verus!
