//! What the command line and the session's display servers decide at start:
//! the geometry extraction options and the window system backend.
use vstd::prelude::*;

verus! {

/// The switches given on the command line.
#[derive(Debug, Clone, Copy, PartialEq, Eq, Structural)]
pub struct LaunchOptions {
    /// `--force-reparse`: extract the current map's geometry again.
    pub force_reparse: bool,
    /// `--local-s2v`: run the extraction tool found on the search path.
    pub use_system_binary: bool,
    /// `--x11`: use the X11 backend.
    pub force_x11: bool,
    /// `--wayland`: use the native Wayland backend.
    pub force_wayland: bool,
}

/// Whether some argument is exactly `flag`.
pub open spec fn has_flag(args: Seq<Seq<char>>, flag: Seq<char>) -> bool {
    exists|i: int| 0 <= i < args.len() && args[i] == flag
}

/// The texts of the arguments.
pub open spec fn argument_texts(args: Seq<String>) -> Seq<Seq<char>> {
    args.map_values(|arg: String| arg@)
}

/// Whether one of `args` is exactly `flag`.
fn flag_given(args: &Vec<String>, flag: &str) -> (given: bool)
    ensures
        given == has_flag(argument_texts(args@), flag@),
{
    let wanted = flag.to_owned();
    let mut i: usize = 0;
    while i < args.len()
        invariant
            i <= args@.len(),
            wanted@ == flag@,
            forall|j: int| 0 <= j < i ==> args@[j]@ != flag@,
        decreases args.len() - i,
    {
        if args[i] == wanted {
            assert(argument_texts(args@)[i as int] == flag@);
            return true;
        }
        i = i + 1;
    }
    assert forall|j: int| 0 <= j < args@.len() implies argument_texts(args@)[j] != flag@ by {
        assert(argument_texts(args@)[j] == args@[j]@);
    }
    false
}

/// Reads the switches from the program's arguments; each is set exactly
/// when some argument equals it.
pub fn launch_options(args: &Vec<String>) -> (options: LaunchOptions)
    ensures
        options.force_reparse == has_flag(argument_texts(args@), "--force-reparse"@),
        options.use_system_binary == has_flag(argument_texts(args@), "--local-s2v"@),
        options.force_x11 == has_flag(argument_texts(args@), "--x11"@),
        options.force_wayland == has_flag(argument_texts(args@), "--wayland"@),
{
    LaunchOptions {
        force_reparse: flag_given(args, "--force-reparse"),
        use_system_binary: flag_given(args, "--local-s2v"),
        force_x11: flag_given(args, "--x11"),
        force_wayland: flag_given(args, "--wayland"),
    }
}

/// The window system backend the windows are opened with.
#[derive(Debug, Clone, Copy, PartialEq, Eq, Structural)]
pub enum DisplayBackend {
    /// X11 was asked for on the command line.
    X11Forced,
    /// Both servers run and Wayland was not asked for: X11 positions the
    /// overlay more reliably.
    X11Preferred,
    /// Only Wayland runs; absolute window positions may be ignored.
    NativeWayland,
    /// The backend found in the session is used as it is.
    AsFound,
}

/// The backend for the given switches and the servers of the session.
pub open spec fn backend_for(
    force_x11: bool,
    force_wayland: bool,
    wayland_available: bool,
    x11_available: bool,
) -> DisplayBackend {
    if force_x11 {
        DisplayBackend::X11Forced
    } else if !force_wayland && wayland_available && x11_available {
        DisplayBackend::X11Preferred
    } else if wayland_available && !x11_available {
        DisplayBackend::NativeWayland
    } else {
        DisplayBackend::AsFound
    }
}

/// Whether the backend hides the Wayland server from the windowing library.
pub open spec fn hides_wayland(backend: DisplayBackend) -> bool {
    backend is X11Forced || backend is X11Preferred
}

/// Chooses the window system backend.
pub fn display_backend(
    force_x11: bool,
    force_wayland: bool,
    wayland_available: bool,
    x11_available: bool,
) -> (backend: DisplayBackend)
    ensures
        backend == backend_for(force_x11, force_wayland, wayland_available, x11_available),
{
    if force_x11 {
        DisplayBackend::X11Forced
    } else if !force_wayland && wayland_available && x11_available {
        DisplayBackend::X11Preferred
    } else if wayland_available && !x11_available {
        DisplayBackend::NativeWayland
    } else {
        DisplayBackend::AsFound
    }
}

/// Whether the windows must be kept off the Wayland server.
pub fn uses_x11(backend: DisplayBackend) -> (hide: bool)
    ensures
        hide == hides_wayland(backend),
{
    match backend {
        DisplayBackend::X11Forced | DisplayBackend::X11Preferred => true,
        _ => false,
    }
}

/// With both servers running and no switch, X11 is preferred; `--x11`
/// always gives X11; `--wayland` without `--x11` never hides Wayland.
pub proof fn law_backend_switches(wayland_available: bool, x11_available: bool, force_wayland: bool)
    ensures
        backend_for(false, false, true, true) == DisplayBackend::X11Preferred,
        hides_wayland(backend_for(true, force_wayland, wayland_available, x11_available)),
        !hides_wayland(backend_for(false, true, wayland_available, x11_available)),
{
}

} // verus!
