//! Filesystem paths as strings: joining and the canonical runtime files of
//! a session.
//!
//! Runtime files live in `$XDG_RUNTIME_DIR/nullxes/`, or in
//! `/tmp/nullxes-<uid>/` when `XDG_RUNTIME_DIR` is unset.

use vstd::prelude::*;
use crate::text::{decimal, decimal_string, chars_of};

verus! {

/// Joining `comp` onto `base`: an absolute `comp` replaces `base`, an empty
/// `base` yields `comp`, and otherwise exactly one `/` separates them.
pub open spec fn path_join_spec(base: Seq<char>, comp: Seq<char>) -> Seq<char> {
    if comp.len() > 0 && comp[0] == '/' {
        comp
    } else if base.len() == 0 {
        comp
    } else if base[base.len() - 1] == '/' {
        base + comp
    } else {
        base + seq!['/'] + comp
    }
}

/// `base` joined with `comp` (as `Path::join` does on Unix).
pub fn path_join(base: &str, comp: &str) -> (r: String)
    ensures
        r@ == path_join_spec(base@, comp@),
{
    let b = chars_of(base);
    let c = chars_of(comp);
    if c.len() > 0 && c[0] == '/' {
        return String::from_str(comp);
    }
    if b.len() == 0 {
        return String::from_str(comp);
    }
    let mut out = String::from_str(base);
    if b[b.len() - 1] != '/' {
        out.append("/");
    }
    out.append(comp);
    proof {
        reveal_strlit("/");
        assert(out@ =~= path_join_spec(base@, comp@));
    }
    out
}

/// The directory that holds the session's runtime files.
pub open spec fn runtime_dir_spec(xdg_runtime_dir: Option<Seq<char>>, uid: nat) -> Seq<char> {
    match xdg_runtime_dir {
        Some(rt) => path_join_spec(rt, "nullxes"@),
        None => "/tmp/nullxes-"@ + decimal(uid),
    }
}

/// The path of runtime file `name`.
pub open spec fn runtime_file_spec(xdg_runtime_dir: Option<Seq<char>>, uid: nat, name: Seq<char>) -> Seq<char> {
    path_join_spec(runtime_dir_spec(xdg_runtime_dir, uid), name)
}

pub open spec fn opt_view(o: Option<String>) -> Option<Seq<char>> {
    match o {
        Some(s) => Some(s@),
        None => None,
    }
}

/// Path of runtime file `name` given `$XDG_RUNTIME_DIR` (if set) and the
/// real user id.
pub fn runtime_file(xdg_runtime_dir: &Option<String>, uid: u32, name: &str) -> (r: String)
    ensures
        r@ == runtime_file_spec(opt_view(*xdg_runtime_dir), uid as nat, name@),
{
    let dir = match xdg_runtime_dir {
        Some(rt) => path_join(rt.as_str(), "nullxes"),
        None => {
            let mut d = String::from_str("/tmp/nullxes-");
            let u = decimal_string(uid as u64);
            d.append(u.as_str());
            d
        },
    };
    path_join(dir.as_str(), name)
}

/// Control IPC socket: `<runtime dir>/frame.sock`.
pub fn socket_path(xdg_runtime_dir: &Option<String>, uid: u32) -> (r: String)
    ensures
        r@ == runtime_file_spec(opt_view(*xdg_runtime_dir), uid as nat, "frame.sock"@),
{
    runtime_file(xdg_runtime_dir, uid, "frame.sock")
}

/// File into which FRAME writes its `WAYLAND_DISPLAY` socket name.
pub fn wayland_display_path(xdg_runtime_dir: &Option<String>, uid: u32) -> (r: String)
    ensures
        r@ == runtime_file_spec(opt_view(*xdg_runtime_dir), uid as nat, "wayland-display"@),
{
    runtime_file(xdg_runtime_dir, uid, "wayland-display")
}

/// Launcher single-instance lock file.
pub fn launcher_lock_path(xdg_runtime_dir: &Option<String>, uid: u32) -> (r: String)
    ensures
        r@ == runtime_file_spec(opt_view(*xdg_runtime_dir), uid as nat, "launcher.lock"@),
{
    runtime_file(xdg_runtime_dir, uid, "launcher.lock")
}

} // verus!
