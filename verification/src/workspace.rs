//! Workspace index model.
//!
//! [`WorkspaceManager`] holds which workspace is active, how many exist and
//! the focused window of each workspace. Every operation is described by a
//! transition on [`WsModel`], and the laws of the model are proved below.

use vstd::prelude::*;

verus! {

/// Smallest and largest number of workspaces a session can have.
pub const MIN_WORKSPACES: usize = 1;
pub const MAX_WORKSPACES: usize = 9;

/// Identifier of a toplevel window (the protocol id of its surface).
#[derive(Debug, Clone, Copy, PartialEq, Eq, Hash, Structural)]
pub struct WindowId(pub u64);

/// Abstract state of a [`WorkspaceManager`].
pub struct WsModel {
    pub count: nat,
    pub active: nat,
    pub focused: Seq<Option<WindowId>>,
}

/// Well-formedness of the abstract state: between one and nine workspaces,
/// the active one exists, and there is one focus slot per workspace.
pub open spec fn ws_wf(m: WsModel) -> bool {
    &&& MIN_WORKSPACES <= m.count <= MAX_WORKSPACES
    &&& m.active < m.count
    &&& m.focused.len() == m.count
}

/// `count` clamped into `1..=9`.
pub open spec fn clamp_count(count: int) -> nat {
    if count < MIN_WORKSPACES {
        MIN_WORKSPACES as nat
    } else if count > MAX_WORKSPACES {
        MAX_WORKSPACES as nat
    } else {
        count as nat
    }
}

/// Fresh state: clamped count, first workspace active, nothing focused.
pub open spec fn new_model(count: int) -> WsModel {
    WsModel {
        count: clamp_count(count),
        active: 0,
        focused: Seq::new(clamp_count(count), |_i: int| None::<WindowId>),
    }
}

/// `switch_to(idx)`: succeeds exactly when `idx` names another existing
/// workspace; then it becomes active. Otherwise nothing changes.
pub open spec fn switch_to_model(m: WsModel, idx: int) -> (WsModel, bool) {
    if idx >= m.count || idx == m.active || idx < 0 {
        (m, false)
    } else {
        (WsModel { active: idx as nat, ..m }, true)
    }
}

/// `switch_next(wrap)`: the following workspace, or the first one when at
/// the end and `wrap` is set.
pub open spec fn switch_next_model(m: WsModel, wrap: bool) -> (WsModel, bool) {
    if m.active + 1 < m.count {
        switch_to_model(m, m.active as int + 1)
    } else if wrap {
        switch_to_model(m, 0)
    } else {
        (m, false)
    }
}

/// `switch_prev(wrap)`: the preceding workspace, or the last one when at the
/// start and `wrap` is set.
pub open spec fn switch_prev_model(m: WsModel, wrap: bool) -> (WsModel, bool) {
    if m.active > 0 {
        switch_to_model(m, m.active as int - 1)
    } else if wrap {
        switch_to_model(m, m.count as int - 1)
    } else {
        (m, false)
    }
}

/// Window focused on the active workspace.
pub open spec fn focused_model(m: WsModel) -> Option<WindowId> {
    m.focused[m.active as int]
}

/// `set_focus(id)`: records `id` as focus of the active workspace.
pub open spec fn set_focus_model(m: WsModel, id: Option<WindowId>) -> WsModel {
    WsModel { focused: m.focused.update(m.active as int, id), ..m }
}

/// `plan_move_focused(target)`: when `target` is another existing workspace
/// and the active one has a focused window, the focus moves to `target` and
/// `(source, target, window)` is returned. Otherwise nothing changes.
pub open spec fn plan_move_model(m: WsModel, target: int) -> (WsModel, Option<(usize, usize, WindowId)>) {
    if target >= m.count || target == m.active || target < 0 {
        (m, None)
    } else {
        match m.focused[m.active as int] {
            None => (m, None),
            Some(id) => (
                WsModel {
                    focused: m.focused.update(m.active as int, None).update(target, Some(id)),
                    ..m
                },
                Some((m.active as usize, target as usize, id)),
            ),
        }
    }
}

pub struct WorkspaceManager {
    count: usize,
    active: usize,
    focused: Vec<Option<WindowId>>,
}

impl View for WorkspaceManager {
    type V = WsModel;

    closed spec fn view(&self) -> WsModel {
        WsModel { count: self.count as nat, active: self.active as nat, focused: self.focused@ }
    }
}

impl WorkspaceManager {
    #[verifier::type_invariant]
    closed spec fn inv(self) -> bool {
        ws_wf(self@)
    }

    pub fn new(count: u8) -> (r: Self)
        ensures
            r@ == new_model(count as int),
            ws_wf(r@),
    {
        let c: usize = clamp_workspace_count(count);
        let mut focused: Vec<Option<WindowId>> = Vec::new();
        let mut i: usize = 0;
        while i < c
            invariant
                i <= c,
                c == clamp_count(count as int),
                focused@ =~= Seq::new(i as nat, |_j: int| None::<WindowId>),
            decreases c - i,
        {
            focused.push(None);
            i = i + 1;
        }
        WorkspaceManager { count: c, active: 0, focused }
    }

    pub fn count(&self) -> (r: usize)
        ensures
            r == self@.count,
            ws_wf(self@),
    {
        proof { use_type_invariant(self); }
        self.count
    }

    pub fn active_index(&self) -> (r: usize)
        ensures
            r == self@.active,
    {
        self.active
    }

    pub fn switch_to(&mut self, idx: usize) -> (r: bool)
        ensures
            (final(self)@, r) == switch_to_model(old(self)@, idx as int),
    {
        proof { use_type_invariant(&*self); }
        if idx >= self.count || idx == self.active {
            return false;
        }
        self.active = idx;
        true
    }

    pub fn switch_next(&mut self, wrap: bool) -> (r: bool)
        ensures
            (final(self)@, r) == switch_next_model(old(self)@, wrap),
    {
        proof { use_type_invariant(&*self); }
        let next = self.active + 1;
        if next < self.count {
            self.switch_to(next)
        } else if wrap {
            self.switch_to(0)
        } else {
            false
        }
    }

    pub fn switch_prev(&mut self, wrap: bool) -> (r: bool)
        ensures
            (final(self)@, r) == switch_prev_model(old(self)@, wrap),
    {
        proof { use_type_invariant(&*self); }
        if self.active > 0 {
            let prev = self.active - 1;
            self.switch_to(prev)
        } else if wrap {
            let last = self.count - 1;
            self.switch_to(last)
        } else {
            false
        }
    }

    pub fn focused(&self) -> (r: Option<WindowId>)
        ensures
            r == focused_model(self@),
    {
        proof { use_type_invariant(self); }
        self.focused[self.active]
    }

    pub fn set_focus(&mut self, id: Option<WindowId>)
        ensures
            final(self)@ == set_focus_model(old(self)@, id),
    {
        proof { use_type_invariant(&*self); }
        let a = self.active;
        let mut slots = self.focused.clone();
        slots.set(a, id);
        self.focused = slots;
    }

    /// Returns `Some((source, target, window))` when a move was scheduled;
    /// the caller performs the actual re-map of the window.
    pub fn plan_move_focused(&mut self, target: usize) -> (r: Option<(usize, usize, WindowId)>)
        ensures
            (final(self)@, r) == plan_move_model(old(self)@, target as int),
    {
        proof { use_type_invariant(&*self); }
        if target >= self.count || target == self.active {
            return None;
        }
        let src = self.active;
        match self.focused[src] {
            None => None,
            Some(id) => {
                let mut slots = self.focused.clone();
                slots.set(src, None);
                slots.set(target, Some(id));
                self.focused = slots;
                Some((src, target, id))
            },
        }
    }
}

/// Number of workspaces created for a configured `count`: clamped into `1..=9`.
pub fn clamp_workspace_count(count: u8) -> (r: usize)
    ensures
        r == clamp_count(count as int),
        MIN_WORKSPACES <= r <= MAX_WORKSPACES,
{
    if count < 1 {
        MIN_WORKSPACES
    } else if count > 9 {
        MAX_WORKSPACES
    } else {
        count as usize
    }
}

// ---------------------------------------------------------------------------
// Laws of the workspace model.

/// Every transition keeps the model well formed.
pub proof fn law_transitions_keep_wf(m: WsModel, idx: int, wrap: bool, id: Option<WindowId>)
    requires
        ws_wf(m),
    ensures
        ws_wf(switch_to_model(m, idx).0),
        ws_wf(switch_next_model(m, wrap).0),
        ws_wf(switch_prev_model(m, wrap).0),
        ws_wf(set_focus_model(m, id)),
        ws_wf(plan_move_model(m, idx).0),
{
}

/// A fresh manager is well formed, whatever count was configured.
pub proof fn law_new_is_wf(count: int)
    ensures
        ws_wf(new_model(count)),
{
}

/// After a successful `switch_to(idx)`, `idx` is the active workspace; a
/// switch never touches the count or the focus slots.
pub proof fn law_switch_to_sets_active(m: WsModel, idx: int)
    ensures
        switch_to_model(m, idx).1 ==> switch_to_model(m, idx).0.active == idx,
        switch_to_model(m, idx).0.count == m.count,
        switch_to_model(m, idx).0.focused == m.focused,
{
}

/// With wrapping, stepping forward and then back returns to the starting
/// workspace.
pub proof fn law_next_then_prev_with_wrap(m: WsModel)
    requires
        ws_wf(m),
    ensures
        switch_prev_model(switch_next_model(m, true).0, true).0 == m,
{
}

/// With wrapping, stepping back and then forward returns to the starting
/// workspace.
pub proof fn law_prev_then_next_with_wrap(m: WsModel)
    requires
        ws_wf(m),
    ensures
        switch_next_model(switch_prev_model(m, true).0, true).0 == m,
{
}

/// Once a move of the focused window to `target` is planned, switching to
/// `target` makes that window the focused one, and the source workspace has
/// no focus left.
pub proof fn law_planned_move_follows_window(m: WsModel, target: int)
    requires
        ws_wf(m),
    ensures
        plan_move_model(m, target).1 matches Some((src, tgt, id)) ==> {
            let after = plan_move_model(m, target).0;
            &&& focused_model(switch_to_model(after, target).0) == Some(id)
            &&& after.focused[src as int] == None::<WindowId>
            &&& src == m.active && tgt == target
        },
{
}

/// A move to a workspace that does not exist, or to the active one, changes
/// nothing and schedules nothing.
pub proof fn law_invalid_move_is_noop(m: WsModel, target: int)
    requires
        target >= m.count || target == m.active,
    ensures
        plan_move_model(m, target) == (m, None::<(usize, usize, WindowId)>),
{
}

/// A move is scheduled exactly when the target is another existing workspace
/// and the active workspace has a focused window.
pub proof fn law_move_scheduled_iff(m: WsModel, target: int)
    requires
        ws_wf(m),
    ensures
        plan_move_model(m, target).1 is Some <==> (0 <= target < m.count && target != m.active
            && focused_model(m) is Some),
{
}

// ---------------------------------------------------------------------------
// Workspace slots (one window space per workspace).

/// The slot read for workspace `idx`: out-of-range indices fall back to the
/// first workspace.
pub open spec fn active_slot_spec(idx: int, count: int) -> int {
    if 0 <= idx < count { idx } else { 0 }
}

pub fn active_slot(idx: usize, count: usize) -> (r: usize)
    requires
        count >= 1,
    ensures
        r == active_slot_spec(idx as int, count as int),
        r < count,
{
    if idx < count { idx } else { 0 }
}

/// The slot written for workspace `idx`: out-of-range indices fall back to
/// the last workspace.
pub open spec fn active_mut_slot_spec(idx: int, count: int) -> int {
    if idx < count { idx } else { count - 1 }
}

pub fn active_mut_slot(idx: usize, count: usize) -> (r: usize)
    requires
        count >= 1,
    ensures
        r == active_mut_slot_spec(idx as int, count as int),
        r < count,
{
    if idx < count { idx } else { count - 1 }
}

/// Indices, ascending, of the workspaces that hold at least one window.
pub open spec fn occupied_spec(nonempty: Seq<bool>) -> Seq<usize>
    decreases nonempty.len(),
{
    if nonempty.len() == 0 {
        Seq::empty()
    } else if nonempty.last() {
        occupied_spec(nonempty.drop_last()).push((nonempty.len() - 1) as usize)
    } else {
        occupied_spec(nonempty.drop_last())
    }
}

/// The workspaces that hold a window, given for each whether it does.
pub fn occupied_slots(nonempty: &Vec<bool>) -> (r: Vec<usize>)
    ensures
        r@ == occupied_spec(nonempty@),
{
    let mut out: Vec<usize> = Vec::new();
    let mut i: usize = 0;
    while i < nonempty.len()
        invariant
            i <= nonempty@.len(),
            out@ == occupied_spec(nonempty@.take(i as int)),
        decreases nonempty@.len() - i,
    {
        proof {
            assert(nonempty@.take(i + 1).drop_last() =~= nonempty@.take(i as int));
        }
        if nonempty[i] {
            out.push(i);
        }
        i = i + 1;
    }
    proof {
        assert(nonempty@.take(nonempty@.len() as int) =~= nonempty@);
    }
    out
}

/// An index is listed as occupied exactly when its workspace holds a window.
pub proof fn law_occupied_exact(nonempty: Seq<bool>, i: int)
    requires
        0 <= i < nonempty.len(),
        nonempty.len() <= usize::MAX,
    ensures
        occupied_spec(nonempty).contains(i as usize) == nonempty[i],
    decreases nonempty.len(),
{
    let n = nonempty.len();
    if i < n - 1 {
        law_occupied_exact(nonempty.drop_last(), i);
        lemma_occupied_below(nonempty.drop_last());
        if nonempty.last() {
            let prev = occupied_spec(nonempty.drop_last());
            let full = prev.push((n - 1) as usize);
            if full.contains(i as usize) && !prev.contains(i as usize) {
                let k = choose|k: int| 0 <= k < full.len() && #[trigger] full[k] == i as usize;
                if k < prev.len() {
                    assert(prev[k] == full[k]);
                }
            }
            if prev.contains(i as usize) {
                let k = choose|k: int| 0 <= k < prev.len() && #[trigger] prev[k] == i as usize;
                assert(prev.push((n - 1) as usize)[k] == i as usize);
            }
        }
    } else {
        lemma_occupied_below(nonempty.drop_last());
        let prev = occupied_spec(nonempty.drop_last());
        if nonempty.last() {
            assert(occupied_spec(nonempty)[prev.len() as int] == (n - 1) as usize);
        } else {
            if prev.contains(i as usize) {
                let k = choose|k: int| 0 <= k < prev.len() && #[trigger] prev[k] == i as usize;
                assert(prev[k] < n - 1);
            }
        }
    }
}

proof fn lemma_occupied_below(nonempty: Seq<bool>)
    requires
        nonempty.len() <= usize::MAX,
    ensures
        forall|k: int| 0 <= k < occupied_spec(nonempty).len() ==> #[trigger] occupied_spec(nonempty)[k] < nonempty.len(),
    decreases nonempty.len(),
{
    if nonempty.len() > 0 {
        let prev = nonempty.drop_last();
        lemma_occupied_below(prev);
        let o = occupied_spec(nonempty);
        assert forall|k: int| 0 <= k < o.len() implies #[trigger] o[k] < nonempty.len() by {
            if k < occupied_spec(prev).len() {
                assert(o[k] == occupied_spec(prev)[k]);
            }
        }
    }
}

} // verus!
