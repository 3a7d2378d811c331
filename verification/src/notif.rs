//! Notification daemon logic (Desktop Notifications Specification 1.2):
//! id allocation, building a notification from a `Notify` call, the history
//! cache, and the stack of toasts shown in the top-right corner.
//!
//! At most five toasts are visible; further notifications wait in a queue.
//! Each toast lives for its timeout and is then closed.

use vstd::prelude::*;
use crate::text::{first_line, first_line_string, take_chars};
use crate::paths::{opt_view, path_join, path_join_spec};

verus! {

#[derive(Debug, Clone, Copy, PartialEq, Eq, Structural)]
pub enum Urgency {
    Low,
    Normal,
    Critical,
}

#[derive(Debug, Clone)]
pub struct Notif {
    pub id: u32,
    pub app_name: String,
    pub app_icon: String,
    pub summary: String,
    pub body: String,
    pub actions: Vec<String>,
    pub urgency: Urgency,
    /// 0 (sticky) or milliseconds.
    pub timeout_ms: u32,
}

pub struct NotifView {
    pub id: u32,
    pub app_name: Seq<char>,
    pub app_icon: Seq<char>,
    pub summary: Seq<char>,
    pub body: Seq<char>,
    pub actions: Seq<Seq<char>>,
    pub urgency: Urgency,
    pub timeout_ms: u32,
}

impl View for Notif {
    type V = NotifView;

    open spec fn view(&self) -> NotifView {
        NotifView {
            id: self.id,
            app_name: self.app_name@,
            app_icon: self.app_icon@,
            summary: self.summary@,
            body: self.body@,
            actions: self.actions.deep_view(),
            urgency: self.urgency,
            timeout_ms: self.timeout_ms,
        }
    }
}

/// The message that asks for notification `id` to be hidden: empty texts,
/// low urgency, timeout 1 ms.
pub open spec fn close_request(id: u32) -> NotifView {
    NotifView {
        id,
        app_name: Seq::empty(),
        app_icon: Seq::empty(),
        summary: Seq::empty(),
        body: Seq::empty(),
        actions: Seq::empty(),
        urgency: Urgency::Low,
        timeout_ms: 1,
    }
}

/// A message is a close request when it has no summary, no body and a
/// timeout of at most 1 ms.
pub open spec fn is_close_request_spec(n: NotifView) -> bool {
    n.summary.len() == 0 && n.body.len() == 0 && n.timeout_ms <= 1
}

impl Notif {
    pub fn close_for(id: u32) -> (r: Self)
        ensures
            r@ == close_request(id),
    {
        let actions: Vec<String> = Vec::new();
        let r = Notif {
            id,
            app_name: String::new(),
            app_icon: String::new(),
            summary: String::new(),
            body: String::new(),
            actions,
            urgency: Urgency::Low,
            timeout_ms: 1,
        };
        proof {
            assert(r.actions.deep_view() =~= Seq::<Seq<char>>::empty());
        }
        r
    }

    pub fn is_close_request(&self) -> (r: bool)
        ensures
            r == is_close_request_spec(self@),
    {
        self.summary.as_str().is_empty() && self.body.as_str().is_empty() && self.timeout_ms <= 1
    }
}

/// Every close request is recognised as one.
pub proof fn law_close_request_recognised(id: u32)
    ensures
        is_close_request_spec(close_request(id)),
{
}

// ---------------------------------------------------------------------------
// Notify.

/// Notification ids of a session: ascending from 1, never 0.
pub struct NotifIds {
    next: u32,
}

impl NotifIds {
    #[verifier::type_invariant]
    spec fn never_zero(self) -> bool {
        self.next != 0
    }

    pub closed spec fn peek(&self) -> u32 {
        self.next
    }

    pub fn new() -> (r: Self)
        ensures
            r.peek() == 1,
    {
        NotifIds { next: 1 }
    }

    /// The id of a notification: `replaces_id` when it is not 0; otherwise
    /// the next fresh id, after which the counter advances (wrapping, and
    /// skipping 0).
    pub fn allocate(&mut self, replaces_id: u32) -> (id: u32)
        ensures
            replaces_id != 0 ==> id == replaces_id && final(self).peek() == old(self).peek(),
            replaces_id == 0 ==> id == old(self).peek() && final(self).peek() == next_id(old(self).peek()),
            replaces_id == 0 ==> id != 0,
    {
        proof {
            use_type_invariant(&*self);
        }
        if replaces_id != 0 {
            return replaces_id;
        }
        let v = self.next;
        self.next = if v == u32::MAX { 1 } else { v + 1 };
        v
    }
}

/// The id after `id`: one more, wrapping past `u32::MAX` to 1 (0 is never
/// handed out).
pub open spec fn next_id(id: u32) -> u32 {
    if id == u32::MAX { 1 } else { (id + 1) as u32 }
}

/// Fresh ids ascend: the next one differs from the last, is never 0, and is
/// larger unless the counter wrapped.
pub proof fn law_fresh_ids_ascend(id: u32)
    ensures
        next_id(id) != id,
        next_id(id) != 0,
        id < u32::MAX ==> next_id(id) > id,
{
}

/// Urgency from the `urgency` hint byte: 0 low, 1 normal, 2 critical;
/// anything else, or no hint, is normal.
pub open spec fn urgency_from_hint_spec(hint: Option<u8>) -> Urgency {
    match hint {
        Some(0) => Urgency::Low,
        Some(2) => Urgency::Critical,
        _ => Urgency::Normal,
    }
}

pub fn urgency_from_hint(hint: Option<u8>) -> (r: Urgency)
    ensures
        r == urgency_from_hint_spec(hint),
{
    match hint {
        Some(0) => Urgency::Low,
        Some(1) => Urgency::Normal,
        Some(2) => Urgency::Critical,
        _ => Urgency::Normal,
    }
}

/// Default lifetime of a toast when the sender asks for the server default.
pub const DEFAULT_TIMEOUT_MS: u32 = 5_000;

/// Timeout from `expire_timeout`: negative means the server default
/// (5000 ms); otherwise the value itself.
pub open spec fn timeout_from_expire_spec(expire_timeout: i32) -> u32 {
    if expire_timeout < 0 { DEFAULT_TIMEOUT_MS } else { expire_timeout as u32 }
}

pub fn timeout_from_expire(expire_timeout: i32) -> (r: u32)
    ensures
        r == timeout_from_expire_spec(expire_timeout),
{
    if expire_timeout < 0 { DEFAULT_TIMEOUT_MS } else { expire_timeout as u32 }
}

/// The notification a `Notify` call produces.
pub fn build_notif(
    id: u32,
    app_name: String,
    app_icon: String,
    summary: String,
    body: String,
    actions: Vec<String>,
    urgency_hint: Option<u8>,
    expire_timeout: i32,
) -> (r: Notif)
    ensures
        r@ == (NotifView {
            id,
            app_name: app_name@,
            app_icon: app_icon@,
            summary: summary@,
            body: body@,
            actions: actions.deep_view(),
            urgency: urgency_from_hint_spec(urgency_hint),
            timeout_ms: timeout_from_expire_spec(expire_timeout),
        }),
{
    let urgency = urgency_from_hint(urgency_hint);
    let timeout_ms = timeout_from_expire(expire_timeout);
    Notif { id, app_name, app_icon, summary, body, actions, urgency, timeout_ms }
}

/// Capabilities announced by `GetCapabilities`.
pub fn capabilities() -> (r: Vec<String>)
    ensures
        r.deep_view() == seq!["body"@, "body-markup"@, "actions"@, "icon-static"@, "persistence"@],
{
    let mut v: Vec<String> = Vec::new();
    v.push(String::from_str("body"));
    v.push(String::from_str("body-markup"));
    v.push(String::from_str("actions"));
    v.push(String::from_str("icon-static"));
    v.push(String::from_str("persistence"));
    proof {
        assert(v.deep_view() =~= seq!["body"@, "body-markup"@, "actions"@, "icon-static"@, "persistence"@]);
    }
    v
}

/// `GetServerInformation`: name, vendor, version, specification version.
pub fn server_information(version: &str) -> (r: (String, String, String, String))
    ensures
        r.0@ == "NX-NOTIF"@,
        r.1@ == "NULLXES"@,
        r.2@ == version@,
        r.3@ == "1.2"@,
{
    (String::from_str("NX-NOTIF"), String::from_str("NULLXES"), String::from_str(version), String::from_str("1.2"))
}

// ---------------------------------------------------------------------------
// History.

/// Number of history records kept in memory and replayed after rotation.
pub const HISTORY_KEEP: usize = 256;

/// History file size above which it is rotated.
pub const HISTORY_CAP: u64 = 1_048_576;

/// Urgency as stored in history records.
pub open spec fn urgency_byte_spec(u: Urgency) -> u8 {
    match u {
        Urgency::Low => 0,
        Urgency::Normal => 1,
        Urgency::Critical => 2,
    }
}

pub fn urgency_byte(u: Urgency) -> (r: u8)
    ensures
        r == urgency_byte_spec(u),
{
    match u {
        Urgency::Low => 0,
        Urgency::Normal => 1,
        Urgency::Critical => 2,
    }
}

/// One history record.
#[derive(Debug, Clone)]
pub struct Record {
    pub id: u32,
    pub app: String,
    pub summary: String,
    pub body: String,
    pub urgency: u8,
    pub received: u64,
}

/// The record of notification `n` received at `received_ms`.
pub fn record_for(n: &Notif, received_ms: u64) -> (r: Record)
    ensures
        r.id == n.id,
        r.app@ == n.app_name@,
        r.summary@ == n.summary@,
        r.body@ == n.body@,
        r.urgency == urgency_byte_spec(n.urgency),
        r.received == received_ms,
{
    Record {
        id: n.id,
        app: n.app_name.clone(),
        summary: n.summary.clone(),
        body: n.body.clone(),
        urgency: urgency_byte(n.urgency),
        received: received_ms,
    }
}

/// The last `HISTORY_KEEP` items of `s`.
pub open spec fn keep_last<T>(s: Seq<T>) -> Seq<T> {
    if s.len() <= HISTORY_KEEP { s } else { s.skip(s.len() - HISTORY_KEEP) }
}

/// Appends `item` to a bounded cache, dropping the oldest items beyond
/// `HISTORY_KEEP`.
pub fn push_capped<T>(cache: &mut Vec<T>, item: T)
    requires
        old(cache)@.len() <= HISTORY_KEEP,
    ensures
        final(cache)@ == keep_last(old(cache)@.push(item)),
        final(cache)@.len() <= HISTORY_KEEP,
{
    cache.push(item);
    if cache.len() > HISTORY_KEEP {
        let ghost before = cache@;
        cache.remove(0);
        proof {
            assert(cache@ =~= before.skip(before.len() - HISTORY_KEEP));
        }
    }
}

/// Keeps the last `HISTORY_KEEP` items of `items`, in order.
pub fn last_items<T>(items: Vec<T>) -> (r: Vec<T>)
    ensures
        r@ == keep_last(items@),
{
    let ghost orig = items@;
    let mut rest = items;
    while rest.len() > HISTORY_KEEP
        invariant
            orig.len() >= rest@.len(),
            rest@ == orig.skip(orig.len() - rest@.len()),
            rest@.len() == orig.len() || rest@.len() >= HISTORY_KEEP,
        decreases rest.len(),
    {
        let ghost before = rest@;
        rest.remove(0);
        proof {
            assert(rest@ =~= orig.skip(orig.len() - rest@.len()));
        }
    }
    proof {
        if orig.len() <= HISTORY_KEEP {
            assert(orig.skip(0) =~= orig);
        }
    }
    rest
}

// ---------------------------------------------------------------------------
// Toast stack.

/// Maximum number of toasts visible at once.
pub const MAX_VISIBLE: usize = 5;
/// Toast size and margins.
pub const TOAST_W: u32 = 360;
pub const TOAST_H: u32 = 88;
pub const TOAST_MARGIN: i32 = 16;
pub const TOAST_GAP: i32 = 12;

/// Top margin of the toast at stack position `pos`.
pub open spec fn toast_top_margin(pos: int) -> int {
    TOAST_MARGIN + pos * (TOAST_H as int + TOAST_GAP)
}

/// Moment a toast shown at `now_ms` with timeout `timeout_ms` expires: its
/// timeout, at least 1 ms, after `now_ms`.
pub open spec fn expiry(now_ms: u64, timeout_ms: u32) -> int {
    now_ms + if timeout_ms == 0 { 1 } else { timeout_ms as int }
}

pub struct Toast {
    pub notif: Notif,
    pub expires_at_ms: u64,
}

pub struct ToastView {
    pub notif: NotifView,
    pub expires_at_ms: u64,
}

impl View for Toast {
    type V = ToastView;

    open spec fn view(&self) -> ToastView {
        ToastView { notif: self.notif@, expires_at_ms: self.expires_at_ms }
    }
}

/// A newly shown toast: its stack position and top margin.
#[derive(Debug, Clone, Copy, PartialEq, Eq, Structural)]
pub struct Shown {
    pub position: usize,
    pub top_margin: i32,
}

pub struct ToastStack {
    visible: Vec<Toast>,
    waiting: Vec<Notif>,
}

pub struct StackView {
    pub visible: Seq<ToastView>,
    pub waiting: Seq<NotifView>,
}

/// Well-formed stack: at most five toasts visible.
pub open spec fn stack_wf(s: StackView) -> bool {
    s.visible.len() <= MAX_VISIBLE
}

/// Nobody waits while there is room on the stack.
pub open spec fn settled(s: StackView) -> bool {
    s.visible.len() < MAX_VISIBLE ==> s.waiting.len() == 0
}

/// Index of the first visible toast with id `id`.
pub open spec fn find_visible(v: Seq<ToastView>, id: u32) -> Option<int>
    decreases v.len(),
{
    if v.len() == 0 {
        None
    } else {
        match find_visible(v.drop_last(), id) {
            Some(i) => Some(i),
            None => if v.last().notif.id == id { Some(v.len() - 1) } else { None },
        }
    }
}

/// Moving waiting notifications onto the stack while there is room; each
/// shown one expires after its timeout from `now_ms`.
pub open spec fn pump_spec(s: StackView, now_ms: u64) -> StackView
    decreases s.waiting.len(),
{
    if s.visible.len() >= MAX_VISIBLE || s.waiting.len() == 0 {
        s
    } else {
        let n = s.waiting[0];
        pump_spec(
            StackView {
                visible: s.visible.push(ToastView { notif: n, expires_at_ms: expiry(now_ms, n.timeout_ms) as u64 }),
                waiting: s.waiting.drop_first(),
            },
            now_ms,
        )
    }
}

/// A new notification: replaces the visible toast with the same id
/// (restarting its lifetime); otherwise it joins the queue, and the queue
/// moves onto the stack while there is room.
pub open spec fn enqueue_spec(s: StackView, n: NotifView, now_ms: u64) -> StackView {
    match find_visible(s.visible, n.id) {
        Some(i) => StackView {
            visible: s.visible.update(i, ToastView { notif: n, expires_at_ms: expiry(now_ms, n.timeout_ms) as u64 }),
            waiting: s.waiting,
        },
        None => pump_spec(StackView { visible: s.visible, waiting: s.waiting.push(n) }, now_ms),
    }
}

/// The toasts still alive at `now_ms`.
pub open spec fn alive(v: Seq<ToastView>, now_ms: u64) -> Seq<ToastView>
    decreases v.len(),
{
    if v.len() == 0 {
        v
    } else if now_ms >= v.last().expires_at_ms {
        alive(v.drop_last(), now_ms)
    } else {
        alive(v.drop_last(), now_ms).push(v.last())
    }
}

/// Ids of the toasts expired at `now_ms`, in stack order.
pub open spec fn expired_ids(v: Seq<ToastView>, now_ms: u64) -> Seq<u32>
    decreases v.len(),
{
    if v.len() == 0 {
        Seq::empty()
    } else if now_ms >= v.last().expires_at_ms {
        expired_ids(v.drop_last(), now_ms).push(v.last().notif.id)
    } else {
        expired_ids(v.drop_last(), now_ms)
    }
}

/// Whether a toast lives beyond `now_ms`.
pub open spec fn is_alive(t: ToastView, now_ms: u64) -> bool {
    now_ms < t.expires_at_ms
}

proof fn lemma_find_visible(v: Seq<ToastView>, id: u32)
    ensures
        find_visible(v, id) matches Some(i) ==> 0 <= i < v.len() && v[i].notif.id == id,
        find_visible(v, id) is None ==> forall|k: int| 0 <= k < v.len() ==> v[k].notif.id != id,
    decreases v.len(),
{
    if v.len() > 0 {
        lemma_find_visible(v.drop_last(), id);
        if find_visible(v, id) is None {
            assert forall|k: int| 0 <= k < v.len() implies #[trigger] v[k].notif.id != id by {
                if k < v.len() - 1 {
                    assert(v[k] == v.drop_last()[k]);
                }
            }
        }
    }
}

proof fn lemma_pump_wf(s: StackView, now_ms: u64)
    requires
        s.visible.len() <= MAX_VISIBLE,
    ensures
        stack_wf(pump_spec(s, now_ms)),
        settled(pump_spec(s, now_ms)),
    decreases s.waiting.len(),
{
    if !(s.visible.len() >= MAX_VISIBLE || s.waiting.len() == 0) {
        let n = s.waiting[0];
        lemma_pump_wf(
            StackView {
                visible: s.visible.push(ToastView { notif: n, expires_at_ms: expiry(now_ms, n.timeout_ms) as u64 }),
                waiting: s.waiting.drop_first(),
            },
            now_ms,
        );
    }
}

proof fn lemma_alive_len(v: Seq<ToastView>, now_ms: u64)
    ensures
        alive(v, now_ms).len() <= v.len(),
    decreases v.len(),
{
    if v.len() > 0 {
        lemma_alive_len(v.drop_last(), now_ms);
    }
}

impl ToastStack {
    pub closed spec fn view_stack(&self) -> StackView {
        StackView {
            visible: self.visible@.map_values(|t: Toast| t@),
            waiting: self.waiting@.map_values(|n: Notif| n@),
        }
    }

    pub fn new() -> (r: Self)
        ensures
            r.view_stack().visible.len() == 0,
            r.view_stack().waiting.len() == 0,
            stack_wf(r.view_stack()),
    {
        let r = ToastStack { visible: Vec::new(), waiting: Vec::new() };
        proof {
            assert(r.view_stack().visible =~= Seq::<ToastView>::empty());
            assert(r.view_stack().waiting =~= Seq::<NotifView>::empty());
        }
        r
    }

    pub fn visible_len(&self) -> (r: usize)
        ensures
            r == self.view_stack().visible.len(),
    {
        self.visible.len()
    }

    /// The notification shown at stack position `i`.
    pub fn visible_notif(&self, i: usize) -> (r: &Notif)
        requires
            i < self.view_stack().visible.len(),
        ensures
            r@ == self.view_stack().visible[i as int].notif,
    {
        &self.visible[i].notif
    }

    /// Moves waiting notifications onto the stack while there is room and
    /// returns where each newly shown toast goes, in order.
    pub fn pump_visible(&mut self, now_ms: u64) -> (shown: Vec<Shown>)
        requires
            old(self).view_stack().visible.len() <= MAX_VISIBLE,
            now_ms <= u64::MAX - u32::MAX,
        ensures
            final(self).view_stack() == pump_spec(old(self).view_stack(), now_ms),
            stack_wf(final(self).view_stack()),
            settled(final(self).view_stack()),
            shown@.len() == final(self).view_stack().visible.len() - old(self).view_stack().visible.len(),
            forall|k: int| 0 <= k < shown@.len() ==> {
                &&& #[trigger] shown@[k].position == old(self).view_stack().visible.len() + k
                &&& shown@[k].top_margin == toast_top_margin(shown@[k].position as int)
            },
    {
        let mut shown: Vec<Shown> = Vec::new();
        let ghost start = self.visible.len();
        proof {
            lemma_pump_wf(self.view_stack(), now_ms);
        }
        while self.visible.len() < MAX_VISIBLE && self.waiting.len() > 0
            invariant
                self.visible@.len() <= MAX_VISIBLE,
                start <= self.visible@.len(),
                now_ms <= u64::MAX - u32::MAX,
                pump_spec(self.view_stack(), now_ms) == pump_spec(old(self).view_stack(), now_ms),
                old(self).view_stack().visible.len() == start,
                shown@.len() == self.visible@.len() - start,
                forall|k: int| 0 <= k < shown@.len() ==> {
                    &&& #[trigger] shown@[k].position == start + k
                    &&& shown@[k].top_margin == toast_top_margin(shown@[k].position as int)
                },
            decreases self.waiting@.len(),
        {
            let ghost before = self.view_stack();
            let n = self.waiting.remove(0);
            let pos = self.visible.len();
            let t = if n.timeout_ms == 0 { 1u64 } else { n.timeout_ms as u64 };
            let toast = Toast { notif: n, expires_at_ms: now_ms + t };
            self.visible.push(toast);
            let margin: i32 = 16 + (pos as i32) * (88 + 12);
            shown.push(Shown { position: pos, top_margin: margin });
            proof {
                assert(self.view_stack().visible =~= before.visible.push(
                    ToastView { notif: before.waiting[0], expires_at_ms: expiry(now_ms, before.waiting[0].timeout_ms) as u64 },
                ));
                assert(self.view_stack().waiting =~= before.waiting.drop_first());
            }
        }
        shown
    }

    /// Adds a notification (see [`enqueue_spec`]). Returns the stack
    /// position of the toast it replaced, if any, and where newly shown
    /// toasts go.
    pub fn enqueue(&mut self, n: Notif, now_ms: u64) -> (r: (Option<usize>, Vec<Shown>))
        requires
            stack_wf(old(self).view_stack()),
            now_ms <= u64::MAX - u32::MAX,
        ensures
            final(self).view_stack() == enqueue_spec(old(self).view_stack(), n@, now_ms),
            stack_wf(final(self).view_stack()),
            match r.0 {
                Some(i) => find_visible(old(self).view_stack().visible, n@.id) == Some(i as int) && r.1@.len() == 0,
                None => find_visible(old(self).view_stack().visible, n@.id) is None,
            },
            forall|k: int| 0 <= k < r.1@.len() ==> {
                &&& #[trigger] r.1@[k].position == old(self).view_stack().visible.len() + k
                &&& r.1@[k].top_margin == toast_top_margin(r.1@[k].position as int)
            },
    {
        let ghost before = self.view_stack();
        let mut i: usize = 0;
        while i < self.visible.len()
            invariant
                before == self.view_stack(),
                before == old(self).view_stack(),
                stack_wf(before),
                now_ms <= u64::MAX - u32::MAX,
                i <= self.visible@.len(),
                find_visible(before.visible.take(i as int), n@.id) is None,
            decreases self.visible@.len() - i,
        {
            proof {
                assert(before.visible.take(i + 1).drop_last() =~= before.visible.take(i as int));
                assert(before.visible[i as int] == self.visible@[i as int]@);
            }
            if self.visible[i].notif.id == n.id {
                proof {
                    lemma_find_visible_prefix(before.visible, n@.id, i as int + 1);
                }
                let t = if n.timeout_ms == 0 { 1u64 } else { n.timeout_ms as u64 };
                let toast = Toast { notif: n, expires_at_ms: now_ms + t };
                self.visible.set(i, toast);
                proof {
                    assert(self.view_stack().visible =~= before.visible.update(
                        i as int,
                        ToastView { notif: n@, expires_at_ms: expiry(now_ms, n@.timeout_ms) as u64 },
                    ));
                    assert(self.view_stack().waiting =~= before.waiting);
                }
                return (Some(i), Vec::new());
            }
            i = i + 1;
        }
        proof {
            assert(before.visible.take(self.visible@.len() as int) =~= before.visible);
        }
        let ghost nv = n@;
        self.waiting.push(n);
        proof {
            assert(self.view_stack().waiting =~= before.waiting.push(nv));
            assert(self.view_stack().visible =~= before.visible);
        }
        let shown = self.pump_visible(now_ms);
        (None, shown)
    }

    /// Removes the first visible toast with id `id` (a close request) and
    /// returns its stack position.
    pub fn close(&mut self, id: u32) -> (r: Option<usize>)
        requires
            stack_wf(old(self).view_stack()),
        ensures
            match r {
                Some(i) => {
                    &&& find_visible(old(self).view_stack().visible, id) == Some(i as int)
                    &&& final(self).view_stack().visible == old(self).view_stack().visible.remove(i as int)
                },
                None => {
                    &&& find_visible(old(self).view_stack().visible, id) is None
                    &&& final(self).view_stack().visible == old(self).view_stack().visible
                },
            },
            final(self).view_stack().waiting == old(self).view_stack().waiting,
            final(self).view_stack().visible.len() <= MAX_VISIBLE,
    {
        let ghost before = self.view_stack();
        let mut i: usize = 0;
        while i < self.visible.len()
            invariant
                before == self.view_stack(),
                before == old(self).view_stack(),
                stack_wf(before),
                i <= self.visible@.len(),
                find_visible(before.visible.take(i as int), id) is None,
            decreases self.visible@.len() - i,
        {
            proof {
                assert(before.visible.take(i + 1).drop_last() =~= before.visible.take(i as int));
                assert(before.visible[i as int] == self.visible@[i as int]@);
            }
            if self.visible[i].notif.id == id {
                proof {
                    lemma_find_visible_prefix(before.visible, id, i as int + 1);
                }
                self.visible.remove(i);
                proof {
                    assert(self.view_stack().visible =~= before.visible.remove(i as int));
                }
                return Some(i);
            }
            i = i + 1;
        }
        proof {
            assert(before.visible.take(self.visible@.len() as int) =~= before.visible);
        }
        None
    }

    /// Drops the toast at stack position `i` (its surface was closed).
    pub fn remove_at(&mut self, i: usize) -> (id: u32)
        requires
            i < old(self).view_stack().visible.len(),
        ensures
            id == old(self).view_stack().visible[i as int].notif.id,
            final(self).view_stack().visible == old(self).view_stack().visible.remove(i as int),
            final(self).view_stack().waiting == old(self).view_stack().waiting,
    {
        let ghost before = self.view_stack();
        let t = self.visible.remove(i);
        proof {
            assert(self.view_stack().visible =~= before.visible.remove(i as int));
        }
        t.notif.id
    }

    /// Closes every toast that has expired at `now_ms`; returns their ids in
    /// stack order and, for each visible toast before the call, whether it
    /// was kept.
    pub fn tick_timeouts(&mut self, now_ms: u64) -> (r: (Vec<u32>, Vec<bool>))
        ensures
            final(self).view_stack().visible == alive(old(self).view_stack().visible, now_ms),
            final(self).view_stack().waiting == old(self).view_stack().waiting,
            r.0@ == expired_ids(old(self).view_stack().visible, now_ms),
            r.1@.len() == old(self).view_stack().visible.len(),
            forall|k: int| 0 <= k < r.1@.len() ==> #[trigger] r.1@[k] == is_alive(old(self).view_stack().visible[k], now_ms),
    {
        let ghost before = self.view_stack();
        let ghost bv = before.visible;
        let n = self.visible.len();
        let mut old_visible: Vec<Toast> = Vec::new();
        std::mem::swap(&mut old_visible, &mut self.visible);
        let mut kept: Vec<Toast> = Vec::new();
        let mut closed: Vec<u32> = Vec::new();
        let mut mask: Vec<bool> = Vec::new();
        let mut i: usize = 0;
        proof {
            assert(old_visible@.map_values(|t: Toast| t@) == bv);
            assert(bv.take(0) =~= Seq::<ToastView>::empty());
            assert(kept@.map_values(|t: Toast| t@) =~= Seq::<ToastView>::empty());
        }
        while i < n
            invariant
                n == bv.len(),
                i <= n,
                old_visible@.len() == n - i,
                forall|k: int| 0 <= k < old_visible@.len() ==> (#[trigger] old_visible@[k])@ == bv[i + k],
                kept@.map_values(|t: Toast| t@) == alive(bv.take(i as int), now_ms),
                closed@ == expired_ids(bv.take(i as int), now_ms),
                mask@.len() == i,
                forall|k: int| 0 <= k < i ==> #[trigger] mask@[k] == is_alive(bv[k], now_ms),
                self.waiting@.map_values(|n: Notif| n@) == before.waiting,
            decreases n - i,
        {
            let t = old_visible.remove(0);
            proof {
                assert(t@ == bv[i as int]);
                assert(bv.take(i + 1).drop_last() =~= bv.take(i as int));
                assert(bv.take(i + 1).last() == bv[i as int]);
            }
            if now_ms >= t.expires_at_ms {
                closed.push(t.notif.id);
                mask.push(false);
            } else {
                let ghost kv = kept@.map_values(|t: Toast| t@);
                let ghost tv = t@;
                kept.push(t);
                mask.push(true);
                proof {
                    assert(kept@.map_values(|t: Toast| t@) =~= kv.push(tv));
                }
            }
            i = i + 1;
        }
        proof {
            assert(bv.take(n as int) =~= bv);
        }
        self.visible = kept;
        (closed, mask)
    }
}

proof fn lemma_find_visible_prefix(v: Seq<ToastView>, id: u32, n: int)
    requires
        0 < n <= v.len(),
        find_visible(v.take(n - 1), id) is None,
        v[n - 1].notif.id == id,
    ensures
        find_visible(v, id) == Some(n - 1),
    decreases v.len() - n,
{
    assert(v.take(n).drop_last() =~= v.take(n - 1));
    assert(find_visible(v.take(n), id) == Some(n - 1));
    if n < v.len() {
        lemma_find_visible_extend(v, id, n);
    } else {
        assert(v.take(n) =~= v);
    }
}

proof fn lemma_find_visible_extend(v: Seq<ToastView>, id: u32, n: int)
    requires
        0 < n <= v.len(),
        find_visible(v.take(n), id) is Some,
    ensures
        find_visible(v, id) == find_visible(v.take(n), id),
    decreases v.len() - n,
{
    if n < v.len() {
        assert(v.take(n + 1).drop_last() =~= v.take(n));
        lemma_find_visible_extend(v, id, n + 1);
    } else {
        assert(v.take(n) =~= v);
    }
}

// ---------------------------------------------------------------------------
// Laws of the toast stack.

/// Whatever arrives, at most five toasts are visible; a notification that
/// replaces no visible toast leaves nobody waiting while there is room.
pub proof fn law_enqueue_keeps_stack_wf(s: StackView, n: NotifView, now_ms: u64)
    requires
        stack_wf(s),
    ensures
        stack_wf(enqueue_spec(s, n, now_ms)),
        find_visible(s.visible, n.id) is None ==> settled(enqueue_spec(s, n, now_ms)),
{
    match find_visible(s.visible, n.id) {
        Some(i) => {
            lemma_find_visible(s.visible, n.id);
        },
        None => {
            lemma_pump_wf(StackView { visible: s.visible, waiting: s.waiting.push(n) }, now_ms);
        },
    }
}

/// With room on the stack and nobody waiting, a new notification is shown at
/// once, at the bottom of the stack, expiring after its timeout.
pub proof fn law_new_notification_shown_when_room(s: StackView, n: NotifView, now_ms: u64)
    requires
        s.visible.len() < MAX_VISIBLE,
        s.waiting.len() == 0,
        find_visible(s.visible, n.id) is None,
    ensures
        enqueue_spec(s, n, now_ms).visible == s.visible.push(
            ToastView { notif: n, expires_at_ms: expiry(now_ms, n.timeout_ms) as u64 },
        ),
        enqueue_spec(s, n, now_ms).waiting.len() == 0,
{
    let s1 = StackView { visible: s.visible, waiting: s.waiting.push(n) };
    let s2 = StackView {
        visible: s.visible.push(ToastView { notif: n, expires_at_ms: expiry(now_ms, n.timeout_ms) as u64 }),
        waiting: s1.waiting.drop_first(),
    };
    assert(s1.waiting[0] == n);
    assert(s2.waiting.len() == 0);
    assert(pump_spec(s2, now_ms) == s2);
}

/// Waiting notifications go onto the stack in arrival order: the visible
/// toasts stay where they are, the first `k` waiting notifications follow
/// them in queue order, each expiring its timeout after `now_ms`, and the
/// rest keep waiting in order; `k` is as many as there is room for.
pub proof fn law_pump_shows_queue_in_order(s: StackView, now_ms: u64)
    requires
        s.visible.len() <= MAX_VISIBLE,
    ensures
        ({
            let p = pump_spec(s, now_ms);
            let room = MAX_VISIBLE - s.visible.len();
            let k = if s.waiting.len() < room { s.waiting.len() as int } else { room };
            &&& p.visible.len() == s.visible.len() + k
            &&& p.visible.take(s.visible.len() as int) == s.visible
            &&& forall|j: int| 0 <= j < k ==> #[trigger] p.visible[s.visible.len() + j] == (ToastView {
                notif: s.waiting[j],
                expires_at_ms: expiry(now_ms, s.waiting[j].timeout_ms) as u64,
            })
            &&& p.waiting == s.waiting.skip(k)
        }),
    decreases s.waiting.len(),
{
    let p = pump_spec(s, now_ms);
    if s.visible.len() >= MAX_VISIBLE || s.waiting.len() == 0 {
        assert(s.visible.take(s.visible.len() as int) =~= s.visible);
        assert(s.waiting.skip(0) =~= s.waiting);
    } else {
        let n = s.waiting[0];
        let t = ToastView { notif: n, expires_at_ms: expiry(now_ms, n.timeout_ms) as u64 };
        let s2 = StackView { visible: s.visible.push(t), waiting: s.waiting.drop_first() };
        law_pump_shows_queue_in_order(s2, now_ms);
        assert(p == pump_spec(s2, now_ms));
        let room = MAX_VISIBLE - s.visible.len();
        let k = if s.waiting.len() < room { s.waiting.len() as int } else { room };
        let vl = s.visible.len() as int;
        assert(p.visible.take(vl + 1) == s2.visible);
        assert forall|i: int| 0 <= i < vl implies #[trigger] p.visible.take(vl)[i] == s.visible[i] by {
            assert(p.visible.take(vl + 1)[i] == s2.visible[i]);
        }
        assert(p.visible.take(vl) =~= s.visible);
        assert forall|j: int| 0 <= j < k implies #[trigger] p.visible[vl + j] == (ToastView {
            notif: s.waiting[j],
            expires_at_ms: expiry(now_ms, s.waiting[j].timeout_ms) as u64,
        }) by {
            if j == 0 {
                assert(p.visible.take(vl + 1)[vl] == s2.visible[vl]);
            } else {
                assert(p.visible[s2.visible.len() + (j - 1)] == (ToastView {
                    notif: s2.waiting[j - 1],
                    expires_at_ms: expiry(now_ms, s2.waiting[j - 1].timeout_ms) as u64,
                }));
                assert(s2.waiting[j - 1] == s.waiting[j]);
            }
        }
        assert(s.waiting.drop_first().skip(k - 1) =~= s.waiting.skip(k));
    }
}

/// A toast lives exactly its timeout (at least 1 ms): it is alive before
/// that moment and expired from it on.
pub proof fn law_toast_lifetime(n: NotifView, shown_ms: u64, now_ms: u64)
    requires
        shown_ms + n.timeout_ms + 1 <= u64::MAX,
    ensures
        is_alive(ToastView { notif: n, expires_at_ms: expiry(shown_ms, n.timeout_ms) as u64 }, now_ms)
            == (now_ms < shown_ms + (if n.timeout_ms == 0 { 1 } else { n.timeout_ms as int })),
{
}

/// A notification whose id is already visible replaces that toast in place:
/// the stack keeps its size and nothing is queued.
pub proof fn law_replacing_keeps_size(s: StackView, n: NotifView, now_ms: u64)
    requires
        find_visible(s.visible, n.id) is Some,
    ensures
        enqueue_spec(s, n, now_ms).visible.len() == s.visible.len(),
        enqueue_spec(s, n, now_ms).waiting == s.waiting,
{
    lemma_find_visible(s.visible, n.id);
}

/// Expiry only removes toasts: what is left is never more than before, and
/// no live toast remains expired.
pub proof fn law_tick_removes_only_expired(v: Seq<ToastView>, now_ms: u64)
    ensures
        alive(v, now_ms).len() <= v.len(),
        forall|k: int| 0 <= k < alive(v, now_ms).len() ==> now_ms < #[trigger] alive(v, now_ms)[k].expires_at_ms,
        alive(v, now_ms).len() + expired_ids(v, now_ms).len() == v.len(),
    decreases v.len(),
{
    if v.len() > 0 {
        law_tick_removes_only_expired(v.drop_last(), now_ms);
        let a = alive(v.drop_last(), now_ms);
        if !(now_ms >= v.last().expires_at_ms) {
            assert forall|k: int| 0 <= k < alive(v, now_ms).len() implies now_ms < #[trigger] alive(v, now_ms)[k].expires_at_ms by {
                if k < a.len() {
                    assert(alive(v, now_ms)[k] == a[k]);
                }
            }
        }
    }
}

// ---------------------------------------------------------------------------
// Notify, and what the toast thread does with each message.

/// `Notify`: allocates the id (see [`NotifIds::allocate`]) and builds the
/// notification (see [`build_notif`]). The caller answers with `r.id`.
pub fn notify(
    ids: &mut NotifIds,
    app_name: String,
    replaces_id: u32,
    app_icon: String,
    summary: String,
    body: String,
    actions: Vec<String>,
    urgency_hint: Option<u8>,
    expire_timeout: i32,
) -> (r: Notif)
    ensures
        replaces_id != 0 ==> r.id == replaces_id && final(ids).peek() == old(ids).peek(),
        replaces_id == 0 ==> r.id == old(ids).peek() && final(ids).peek() == next_id(old(ids).peek()),
        r.id != 0,
        r@ == (NotifView {
            id: r.id,
            app_name: app_name@,
            app_icon: app_icon@,
            summary: summary@,
            body: body@,
            actions: actions.deep_view(),
            urgency: urgency_from_hint_spec(urgency_hint),
            timeout_ms: timeout_from_expire_spec(expire_timeout),
        }),
{
    let id = ids.allocate(replaces_id);
    build_notif(id, app_name, app_icon, summary, body, actions, urgency_hint, expire_timeout)
}

/// What became of a message handed to the toast stack.
pub enum Delivery {
    /// A close request: the position of the toast it removed, if any.
    Closed(Option<usize>),
    /// A notification: the position of the toast it replaced, if any, and
    /// where newly shown toasts go.
    Enqueued(Option<usize>, Vec<Shown>),
}

impl ToastStack {
    /// Handles one message from the bus side: a close request removes the
    /// toast with its id; anything else is enqueued.
    pub fn receive(&mut self, n: Notif, now_ms: u64) -> (r: Delivery)
        requires
            stack_wf(old(self).view_stack()),
            now_ms <= u64::MAX - u32::MAX,
        ensures
            is_close_request_spec(n@) ==> {
                &&& r matches Delivery::Closed(pos)
                &&& (match find_visible(old(self).view_stack().visible, n@.id) {
                        Some(i) => pos == Some(i as usize),
                        None => pos is None,
                    })
                &&& final(self).view_stack().visible == (match find_visible(old(self).view_stack().visible, n@.id) {
                        Some(i) => old(self).view_stack().visible.remove(i),
                        None => old(self).view_stack().visible,
                    })
                &&& final(self).view_stack().waiting == old(self).view_stack().waiting
            },
            !is_close_request_spec(n@) ==> {
                &&& r is Enqueued
                &&& final(self).view_stack() == enqueue_spec(old(self).view_stack(), n@, now_ms)
            },
            stack_wf(final(self).view_stack()),
    {
        if n.is_close_request() {
            let pos = self.close(n.id);
            Delivery::Closed(pos)
        } else {
            let (replaced, shown) = self.enqueue(n, now_ms);
            Delivery::Enqueued(replaced, shown)
        }
    }
}

// ---------------------------------------------------------------------------
// Toast text.

/// Characters of the body shown on a toast.
pub const BODY_CHARS: usize = 70;

/// The body line a toast shows: the first line of the body, cut to
/// `BODY_CHARS` characters.
pub open spec fn toast_body_line_spec(body: Seq<char>) -> Seq<char> {
    take_chars(first_line(body), BODY_CHARS as nat)
}

pub fn toast_body_line(body: &str) -> (r: String)
    ensures
        r@ == toast_body_line_spec(body@),
{
    let line = first_line_string(body);
    crate::text::take_chars_string(line.as_str(), BODY_CHARS)
}

/// The colour of the accent bar on a toast's left edge.
#[derive(Debug, Clone, Copy, PartialEq, Eq, Structural)]
pub enum Accent {
    Disabled,
    Accent,
    Destructive,
}

pub open spec fn accent_for_spec(u: Urgency) -> Accent {
    match u {
        Urgency::Low => Accent::Disabled,
        Urgency::Normal => Accent::Accent,
        Urgency::Critical => Accent::Destructive,
    }
}

pub fn accent_for(n: &Notif) -> (r: Accent)
    ensures
        r == accent_for_spec(n.urgency),
{
    match n.urgency {
        Urgency::Low => Accent::Disabled,
        Urgency::Normal => Accent::Accent,
        Urgency::Critical => Accent::Destructive,
    }
}

// ---------------------------------------------------------------------------
// Where the history lives.

/// The directory of the history file: `$XDG_STATE_HOME/nullxes`, else
/// `~/.local/state/nullxes`, else `/tmp/nullxes`.
pub open spec fn state_dir_spec(xdg_state_home: Option<Seq<char>>, home: Option<Seq<char>>) -> Seq<char> {
    match xdg_state_home {
        Some(p) => path_join_spec(p, "nullxes"@),
        None => match home {
            Some(h) => path_join_spec(h, ".local/state/nullxes"@),
            None => "/tmp/nullxes"@,
        },
    }
}

pub fn state_dir(xdg_state_home: &Option<String>, home: &Option<String>) -> (r: String)
    ensures
        r@ == state_dir_spec(opt_view(*xdg_state_home), opt_view(*home)),
{
    match xdg_state_home {
        Some(p) => path_join(p.as_str(), "nullxes"),
        None => match home {
            Some(h) => path_join(h.as_str(), ".local/state/nullxes"),
            None => String::from_str("/tmp/nullxes"),
        },
    }
}

/// The history file inside [`state_dir`].
pub fn history_path(xdg_state_home: &Option<String>, home: &Option<String>) -> (r: String)
    ensures
        r@ == path_join_spec(state_dir_spec(opt_view(*xdg_state_home), opt_view(*home)), "notifications.json"@),
{
    let d = state_dir(xdg_state_home, home);
    path_join(d.as_str(), "notifications.json")
}

} // verus!
