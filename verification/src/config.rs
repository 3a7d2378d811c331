//! FRAME runtime configuration sections and their defaults, and the order in
//! which configuration files are looked up.
//!
//! Lookup order: `$NULLXES_FRAME_CONFIG`, then
//! `<config dir>/nullxes/frame.toml`, then `/etc/nullxes/frame.toml`; the
//! first file that can be read and parsed wins, and all fields have defaults.

use vstd::prelude::*;
use crate::paths::{path_join, path_join_spec};

verus! {

#[derive(Debug, Clone)]
pub struct CompositorConfig {
    pub xwayland: bool,
    /// 0 == follow the display.
    pub target_fps: u32,
    pub vrr: bool,
    pub lock_on_suspend: bool,
}

impl Default for CompositorConfig {
    fn default() -> (r: Self)
        ensures
            r.xwayland && r.target_fps == 0 && r.vrr && r.lock_on_suspend,
    {
        CompositorConfig { xwayland: true, target_fps: 0, vrr: true, lock_on_suspend: true }
    }
}

#[derive(Debug, Clone)]
pub struct WorkspaceConfig {
    pub count: u8,
    pub wrap: bool,
}

impl Default for WorkspaceConfig {
    fn default() -> (r: Self)
        ensures
            r.count == 9 && !r.wrap,
    {
        WorkspaceConfig { count: 9, wrap: false }
    }
}

#[derive(Debug, Clone, Copy)]
pub struct IdleConfig {
    /// Dim screen after this many ms of inactivity. 0 = disabled.
    pub dim_ms: u64,
    /// Spawn the lock screen after this many ms of inactivity. 0 = disabled.
    pub lock_ms: u64,
    /// Request system suspend after this many ms of inactivity. 0 = disabled.
    pub suspend_ms: u64,
}

impl Default for IdleConfig {
    fn default() -> (r: Self)
        ensures
            r.dim_ms == 5 * 60 * 1000,
            r.lock_ms == 10 * 60 * 1000,
            r.suspend_ms == 30 * 60 * 1000,
    {
        IdleConfig { dim_ms: 300_000, lock_ms: 600_000, suspend_ms: 1_800_000 }
    }
}

#[derive(Debug, Clone)]
pub struct KeybindingConfig {
    pub launcher_binary: String,
    pub lock_binary: String,
}

impl Default for KeybindingConfig {
    fn default() -> (r: Self)
        ensures
            r.launcher_binary@ == "nullxes-launcher"@,
            r.lock_binary@ == "nullxes-lock"@,
    {
        KeybindingConfig {
            launcher_binary: String::from_str("nullxes-launcher"),
            lock_binary: String::from_str("nullxes-lock"),
        }
    }
}

/// The candidate configuration files, in priority order.
pub open spec fn config_candidates_spec(env_override: Option<Seq<char>>, config_dir: Option<Seq<char>>) -> Seq<Seq<char>> {
    let first: Seq<Seq<char>> = match env_override {
        Some(p) => seq![p],
        None => Seq::empty(),
    };
    let second: Seq<Seq<char>> = match config_dir {
        Some(d) => seq![path_join_spec(path_join_spec(d, "nullxes"@), "frame.toml"@)],
        None => Seq::empty(),
    };
    first + second + seq!["/etc/nullxes/frame.toml"@]
}

/// Configuration files to try, in priority order: the explicit override
/// (`$NULLXES_FRAME_CONFIG`), the user's config directory, then the system
/// default.
pub fn config_candidates(env_override: Option<String>, config_dir: Option<String>) -> (r: Vec<String>)
    ensures
        r.deep_view() == config_candidates_spec(
            crate::paths::opt_view(env_override),
            crate::paths::opt_view(config_dir),
        ),
{
    let mut out: Vec<String> = Vec::new();
    let ghost e = crate::paths::opt_view(env_override);
    let ghost c = crate::paths::opt_view(config_dir);
    match env_override {
        Some(p) => out.push(p),
        None => {},
    }
    match config_dir {
        Some(d) => {
            let a = path_join(&d, "nullxes");
            let b = path_join(&a, "frame.toml");
            out.push(b);
        },
        None => {},
    }
    out.push(String::from_str("/etc/nullxes/frame.toml"));
    proof {
        assert(out.deep_view() =~= config_candidates_spec(e, c));
    }
    out
}

/// Picks the configuration from the outcome of each lookup, in priority
/// order: the first lookup that produced a parsed configuration wins; when
/// none did, `None` tells the caller to use the defaults.
pub fn first_loaded<T>(outcomes: Vec<Option<T>>) -> (r: Option<T>)
    ensures
        r is Some ==> exists|i: int|
            0 <= i < outcomes@.len() && outcomes@[i] == r && forall|j: int|
                0 <= j < i ==> outcomes@[j] is None,
        r is None ==> forall|j: int| 0 <= j < outcomes@.len() ==> outcomes@[j] is None,
{
    let ghost orig = outcomes@;
    let n: usize = outcomes.len();
    let mut rest = outcomes;
    let mut i: usize = 0;
    while rest.len() > 0
        invariant
            i <= orig.len(),
            rest@.len() + i == orig.len(),
            orig.len() == n,
            orig == outcomes@,
            rest@ == orig.subrange(i as int, orig.len() as int),
            forall|j: int| 0 <= j < i ==> orig[j] is None,
        decreases rest.len(),
    {
        let item = rest.remove(0);
        proof {
            assert(item == orig[i as int]);
        }
        match item {
            Some(v) => {
                proof {
                    assert(orig[i as int] == Some(v));
                }
                return Some(v);
            },
            None => {},
        }
        i = i + 1;
        proof {
            assert(rest@ =~= orig.subrange(i as int, orig.len() as int));
        }
    }
    None
}

} // verus!
