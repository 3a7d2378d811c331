//! Idle pipeline: tracks the moment of the last input activity and, on each
//! timer tick, decides which idle actions are due.
//!
//! - past `dim_ms`: dim the outputs, once until the next activity;
//! - past `lock_ms`: spawn the lock screen, once until the next activity;
//! - past `suspend_ms`: ask for system suspend, on every tick.
//!
//! A threshold of 0 disables its action. Times are milliseconds on a
//! monotonic clock that the caller reads.

use vstd::prelude::*;
use crate::config::IdleConfig;

verus! {

/// What a tick asks the compositor to do.
#[derive(Debug, Clone, Copy, PartialEq, Eq, Structural)]
pub struct IdleActions {
    pub dim: bool,
    pub lock: bool,
    pub suspend: bool,
}

impl Default for IdleActions {
    fn default() -> (r: Self)
        ensures
            !r.dim && !r.lock && !r.suspend,
    {
        IdleActions { dim: false, lock: false, suspend: false }
    }
}

/// The tracker's state as the laws see it.
pub struct IdleState {
    pub last_activity_ms: u64,
    pub dim_ms: u64,
    pub lock_ms: u64,
    pub suspend_ms: u64,
    pub dimmed: bool,
    pub locked_pending: bool,
}

/// Milliseconds since the last activity (0 if the clock reads earlier).
pub open spec fn elapsed(last_ms: u64, now_ms: u64) -> int {
    if now_ms >= last_ms { now_ms - last_ms } else { 0 }
}

/// Whether a threshold is enabled and reached.
pub open spec fn reached(threshold_ms: u64, elapsed_ms: int) -> bool {
    threshold_ms > 0 && elapsed_ms >= threshold_ms
}

/// The actions a tick at `now_ms` asks for.
pub open spec fn tick_actions(s: IdleState, now_ms: u64) -> IdleActions {
    let e = elapsed(s.last_activity_ms, now_ms);
    IdleActions {
        dim: reached(s.dim_ms, e) && !s.dimmed,
        lock: reached(s.lock_ms, e) && !s.locked_pending,
        suspend: reached(s.suspend_ms, e),
    }
}

/// The state after a tick at `now_ms`: what was dimmed or locked stays so.
pub open spec fn tick_state(s: IdleState, now_ms: u64) -> IdleState {
    let a = tick_actions(s, now_ms);
    IdleState { dimmed: s.dimmed || a.dim, locked_pending: s.locked_pending || a.lock, ..s }
}

/// The state after input activity at `now_ms`.
pub open spec fn touch_state(s: IdleState, now_ms: u64) -> IdleState {
    IdleState { last_activity_ms: now_ms, dimmed: false, locked_pending: false, ..s }
}

pub struct IdleTracker {
    last_activity_ms: u64,
    cfg: IdleConfig,
    dimmed: bool,
    locked_pending: bool,
}

impl IdleTracker {
    pub closed spec fn state(&self) -> IdleState {
        IdleState {
            last_activity_ms: self.last_activity_ms,
            dim_ms: self.cfg.dim_ms,
            lock_ms: self.cfg.lock_ms,
            suspend_ms: self.cfg.suspend_ms,
            dimmed: self.dimmed,
            locked_pending: self.locked_pending,
        }
    }

    /// A tracker whose last activity is `now_ms`.
    pub fn new(cfg: IdleConfig, now_ms: u64) -> (r: Self)
        ensures
            r.state() == (IdleState {
                last_activity_ms: now_ms,
                dim_ms: cfg.dim_ms,
                lock_ms: cfg.lock_ms,
                suspend_ms: cfg.suspend_ms,
                dimmed: false,
                locked_pending: false,
            }),
    {
        IdleTracker { last_activity_ms: now_ms, cfg, dimmed: false, locked_pending: false }
    }

    /// Input activity at `now_ms`: restarts the idle clock and re-arms dim
    /// and lock.
    pub fn touch(&mut self, now_ms: u64)
        ensures
            final(self).state() == touch_state(old(self).state(), now_ms),
    {
        self.last_activity_ms = now_ms;
        self.dimmed = false;
        self.locked_pending = false;
    }

    /// Replaces the thresholds; the idle clock and flags stay.
    pub fn update_config(&mut self, cfg: IdleConfig)
        ensures
            final(self).state() == (IdleState {
                dim_ms: cfg.dim_ms,
                lock_ms: cfg.lock_ms,
                suspend_ms: cfg.suspend_ms,
                ..old(self).state()
            }),
    {
        self.cfg = cfg;
    }

    /// The periodic evaluation at `now_ms`.
    pub fn tick(&mut self, now_ms: u64) -> (r: IdleActions)
        ensures
            r == tick_actions(old(self).state(), now_ms),
            final(self).state() == tick_state(old(self).state(), now_ms),
    {
        let elapsed: u64 = if now_ms >= self.last_activity_ms { now_ms - self.last_activity_ms } else { 0 };
        let mut actions = IdleActions::default();
        if self.cfg.dim_ms > 0 && elapsed >= self.cfg.dim_ms && !self.dimmed {
            self.dimmed = true;
            actions.dim = true;
        }
        if self.cfg.lock_ms > 0 && elapsed >= self.cfg.lock_ms && !self.locked_pending {
            self.locked_pending = true;
            actions.lock = true;
        }
        if self.cfg.suspend_ms > 0 && elapsed >= self.cfg.suspend_ms {
            actions.suspend = true;
        }
        actions
    }
}

// ---------------------------------------------------------------------------
// Laws.

/// Dim and lock fire at most once between two activities: a tick that
/// follows any tick without activity in between never repeats them.
pub proof fn law_dim_and_lock_fire_once(s: IdleState, t1: u64, t2: u64)
    ensures
        tick_actions(s, t1).dim ==> !tick_actions(tick_state(s, t1), t2).dim,
        tick_actions(s, t1).lock ==> !tick_actions(tick_state(s, t1), t2).lock,
{
}

/// Once suspend is due it stays due on every later tick until activity.
pub proof fn law_suspend_repeats(s: IdleState, t1: u64, t2: u64)
    requires
        t1 <= t2,
    ensures
        tick_actions(s, t1).suspend ==> tick_actions(tick_state(s, t1), t2).suspend,
{
}

/// A threshold of 0 disables its action.
pub proof fn law_zero_disables(s: IdleState, now_ms: u64)
    ensures
        s.dim_ms == 0 ==> !tick_actions(s, now_ms).dim,
        s.lock_ms == 0 ==> !tick_actions(s, now_ms).lock,
        s.suspend_ms == 0 ==> !tick_actions(s, now_ms).suspend,
{
}

/// After activity, nothing is due before a threshold has passed again, and
/// each enabled action is due again once its threshold has passed.
pub proof fn law_touch_rearms(s: IdleState, touched_ms: u64, now_ms: u64)
    requires
        touched_ms <= now_ms,
    ensures
        reached(s.dim_ms, now_ms - touched_ms) == tick_actions(touch_state(s, touched_ms), now_ms).dim,
        reached(s.lock_ms, now_ms - touched_ms) == tick_actions(touch_state(s, touched_ms), now_ms).lock,
        reached(s.suspend_ms, now_ms - touched_ms) == tick_actions(touch_state(s, touched_ms), now_ms).suspend,
{
}

} // verus!
