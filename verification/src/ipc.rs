//! NULLXES Control IPC v1: the messages, how the FRAME server answers each
//! envelope and request, and the client's reconnection and reply rules.
//!
//! Wire format: line-delimited JSON, one complete [`Envelope`] per line. The
//! `v` field is mandatory and currently `1`; servers reject other versions
//! with a version-mismatch error. Clients reconnect with exponential backoff
//! (100, 200, 400, ... ms, capped at 5000 ms) and give up after 32 attempts.

use vstd::prelude::*;
use crate::config::KeybindingConfig;
use crate::text::{decimal, decimal_string};
use crate::workspace::{WindowId, WorkspaceManager, WsModel, plan_move_model, switch_to_model};

verus! {

/// Current wire protocol version.
pub const PROTOCOL_VERSION: u8 = 1;

/// Request kinds the FRAME compositor accepts.
#[derive(Debug, Clone, Copy, PartialEq, Eq, Structural)]
pub enum Request {
    /// Switch the active workspace.
    SwitchWorkspace { idx: usize },
    /// Move the focused window to the given workspace index.
    MoveFocused { target: usize },
    /// Re-read configuration files and apply them (idempotent).
    ReloadConfig,
    /// Request the current compositor state snapshot.
    GetState,
    /// Spawn the launcher overlay (idempotent, held by a lock file).
    SpawnLauncher,
    /// Trigger session lock.
    SessionLock,
    /// Quit the compositor cleanly.
    Quit,
}

#[derive(Debug, Clone)]
pub struct StateSnapshot {
    pub workspace_count: usize,
    pub active_workspace: usize,
    pub occupied: Vec<usize>,
    pub xwayland_ready: bool,
}

#[derive(Debug, Clone)]
pub enum ResponseData {
    State(StateSnapshot),
}

#[derive(Debug, Clone)]
pub enum IpcError {
    VersionMismatch { supported: Vec<u8> },
    Busy,
    InvalidRequest(String),
    UnknownKind,
    Internal(String),
    NotImplemented,
}

#[derive(Debug, Clone)]
pub enum Response {
    /// The request was carried out (`"result": "ok"` on the wire).
    Success { data: Option<ResponseData> },
    /// The request was refused (`"result": "err"` on the wire).
    Failure { error: IpcError },
}

#[derive(Debug, Clone)]
pub enum Direction {
    Request(Request),
    Response(Response),
}

#[derive(Debug, Clone)]
pub struct Envelope {
    /// Wire version; always [`PROTOCOL_VERSION`] for v1 senders.
    pub v: u8,
    /// Correlation id chosen by the request sender; servers echo it.
    pub id: u64,
    pub direction: Direction,
}

// ---------------------------------------------------------------------------
// Abstract views of the messages.

pub struct SnapshotView {
    pub workspace_count: nat,
    pub active_workspace: nat,
    pub occupied: Seq<usize>,
    pub xwayland_ready: bool,
}

pub enum IpcErrorView {
    VersionMismatch(Seq<u8>),
    Busy,
    InvalidRequest(Seq<char>),
    UnknownKind,
    Internal(Seq<char>),
    NotImplemented,
}

pub enum ResponseView {
    Success(Option<SnapshotView>),
    Failure(IpcErrorView),
}

pub enum DirectionView {
    Request(Request),
    Response(ResponseView),
}

pub struct EnvelopeView {
    pub v: u8,
    pub id: u64,
    pub direction: DirectionView,
}

impl View for StateSnapshot {
    type V = SnapshotView;

    open spec fn view(&self) -> SnapshotView {
        SnapshotView {
            workspace_count: self.workspace_count as nat,
            active_workspace: self.active_workspace as nat,
            occupied: self.occupied@,
            xwayland_ready: self.xwayland_ready,
        }
    }
}

impl View for IpcError {
    type V = IpcErrorView;

    open spec fn view(&self) -> IpcErrorView {
        match self {
            IpcError::VersionMismatch { supported } => IpcErrorView::VersionMismatch(supported@),
            IpcError::Busy => IpcErrorView::Busy,
            IpcError::InvalidRequest(m) => IpcErrorView::InvalidRequest(m@),
            IpcError::UnknownKind => IpcErrorView::UnknownKind,
            IpcError::Internal(m) => IpcErrorView::Internal(m@),
            IpcError::NotImplemented => IpcErrorView::NotImplemented,
        }
    }
}

impl View for Response {
    type V = ResponseView;

    open spec fn view(&self) -> ResponseView {
        match self {
            Response::Success { data } => ResponseView::Success(
                match data {
                    Some(ResponseData::State(s)) => Some(s@),
                    None => None,
                },
            ),
            Response::Failure { error } => ResponseView::Failure(error@),
        }
    }
}

impl View for Direction {
    type V = DirectionView;

    open spec fn view(&self) -> DirectionView {
        match self {
            Direction::Request(r) => DirectionView::Request(*r),
            Direction::Response(r) => DirectionView::Response(r@),
        }
    }
}

impl View for Envelope {
    type V = EnvelopeView;

    open spec fn view(&self) -> EnvelopeView {
        EnvelopeView { v: self.v, id: self.id, direction: self.direction@ }
    }
}

// ---------------------------------------------------------------------------
// Constructors.

impl Response {
    pub fn ok() -> (r: Self)
        ensures
            r@ == ResponseView::Success(None),
    {
        Response::Success { data: None }
    }

    pub fn ok_with(data: ResponseData) -> (r: Self)
        ensures
            r@ == ResponseView::Success(
                match data {
                    ResponseData::State(s) => Some(s@),
                },
            ),
    {
        Response::Success { data: Some(data) }
    }

    pub fn err(error: IpcError) -> (r: Self)
        ensures
            r@ == ResponseView::Failure(error@),
    {
        Response::Failure { error }
    }
}

impl Envelope {
    pub fn request(id: u64, req: Request) -> (r: Self)
        ensures
            r@ == (EnvelopeView { v: PROTOCOL_VERSION, id, direction: DirectionView::Request(req) }),
    {
        Envelope { v: PROTOCOL_VERSION, id, direction: Direction::Request(req) }
    }

    pub fn response(id: u64, resp: Response) -> (r: Self)
        ensures
            r@ == (EnvelopeView { v: PROTOCOL_VERSION, id, direction: DirectionView::Response(resp@) }),
    {
        Envelope { v: PROTOCOL_VERSION, id, direction: Direction::Response(resp) }
    }
}

// ---------------------------------------------------------------------------
// Server side.

/// What the server does with a decoded envelope: answer it at once, or hand
/// the request to the compositor's main loop.
pub enum ServerStep {
    Reply(Response),
    Dispatch(Request),
}

pub enum ServerStepView {
    Reply(ResponseView),
    Dispatch(Request),
}

impl View for ServerStep {
    type V = ServerStepView;

    open spec fn view(&self) -> ServerStepView {
        match self {
            ServerStep::Reply(r) => ServerStepView::Reply(r@),
            ServerStep::Dispatch(q) => ServerStepView::Dispatch(*q),
        }
    }
}

/// The answer to an envelope of another protocol version.
pub open spec fn version_mismatch_view() -> ResponseView {
    ResponseView::Failure(IpcErrorView::VersionMismatch(seq![PROTOCOL_VERSION]))
}

/// The answer to a response sent on the request socket.
pub open spec fn misdirected_view() -> ResponseView {
    ResponseView::Failure(IpcErrorView::InvalidRequest("response on request socket"@))
}

/// Server rule for a decoded envelope: another version is refused with a
/// version mismatch naming the supported version; a request is dispatched;
/// a response is refused as an invalid request.
pub open spec fn server_step_spec(env: EnvelopeView) -> ServerStepView {
    if env.v != PROTOCOL_VERSION {
        ServerStepView::Reply(version_mismatch_view())
    } else {
        match env.direction {
            DirectionView::Request(req) => ServerStepView::Dispatch(req),
            DirectionView::Response(_) => ServerStepView::Reply(misdirected_view()),
        }
    }
}

pub fn server_step(env: Envelope) -> (r: ServerStep)
    ensures
        r@ == server_step_spec(env@),
{
    if env.v != PROTOCOL_VERSION {
        let mut supported: Vec<u8> = Vec::new();
        supported.push(PROTOCOL_VERSION);
        proof {
            assert(supported@ =~= seq![PROTOCOL_VERSION]);
        }
        return ServerStep::Reply(Response::err(IpcError::VersionMismatch { supported }));
    }
    match env.direction {
        Direction::Request(req) => ServerStep::Dispatch(req),
        Direction::Response(_) => {
            let msg = String::from_str("response on request socket");
            ServerStep::Reply(Response::err(IpcError::InvalidRequest(msg)))
        },
    }
}

/// The answer to a line that could not be decoded as an envelope:
/// an invalid-request error whose message is `decode: ` followed by the
/// decoder's message.
pub fn decode_failure(decoder_message: &str) -> (r: Response)
    ensures
        r@ == ResponseView::Failure(IpcErrorView::InvalidRequest("decode: "@ + decoder_message@)),
{
    let mut msg = String::from_str("decode: ");
    msg.append(decoder_message);
    Response::err(IpcError::InvalidRequest(msg))
}

/// The envelope that carries `resp` back: it echoes the id of the request
/// line, or 0 when the line could not be decoded.
pub open spec fn reply_envelope_spec(request_id: Option<u64>, resp: ResponseView) -> EnvelopeView {
    EnvelopeView {
        v: PROTOCOL_VERSION,
        id: match request_id {
            Some(i) => i,
            None => 0,
        },
        direction: DirectionView::Response(resp),
    }
}

pub fn reply_envelope(request_id: Option<u64>, resp: Response) -> (r: Envelope)
    ensures
        r@ == reply_envelope_spec(request_id, resp@),
{
    let id = match request_id {
        Some(i) => i,
        None => 0,
    };
    Envelope::response(id, resp)
}

/// Why a request could not reach the compositor's main loop.
pub enum DispatchFailure {
    /// The main loop no longer accepts requests.
    NotListening,
    /// The main loop dropped the reply channel.
    ReplyDropped,
}

pub open spec fn dispatch_failure_message(f: DispatchFailure) -> Seq<char> {
    match f {
        DispatchFailure::NotListening => "compositor not listening"@,
        DispatchFailure::ReplyDropped => "compositor dropped reply channel"@,
    }
}

/// The answer when a request could not be handed to, or answered by, the
/// main loop: an internal error.
pub fn dispatch_failure(f: DispatchFailure) -> (r: Response)
    ensures
        r@ == ResponseView::Failure(IpcErrorView::Internal(dispatch_failure_message(f))),
{
    let msg = match f {
        DispatchFailure::NotListening => String::from_str("compositor not listening"),
        DispatchFailure::ReplyDropped => String::from_str("compositor dropped reply channel"),
    };
    Response::err(IpcError::Internal(msg))
}

/// Side effect the compositor performs after answering a request.
pub enum MainAction {
    Nothing,
    /// Re-map `window` from workspace `src` to workspace `target`.
    MoveWindow { src: usize, target: usize, window: WindowId },
    /// Re-read the configuration and replace the current one.
    ReloadConfig,
    /// Spawn the binary, detached.
    Spawn(String),
    /// Stop the event loop.
    Quit,
}

pub enum MainActionView {
    Nothing,
    MoveWindow { src: usize, target: usize, window: WindowId },
    ReloadConfig,
    Spawn(Seq<char>),
    Quit,
}

impl View for MainAction {
    type V = MainActionView;

    open spec fn view(&self) -> MainActionView {
        match self {
            MainAction::Nothing => MainActionView::Nothing,
            MainAction::MoveWindow { src, target, window } => MainActionView::MoveWindow {
                src: *src,
                target: *target,
                window: *window,
            },
            MainAction::ReloadConfig => MainActionView::ReloadConfig,
            MainAction::Spawn(b) => MainActionView::Spawn(b@),
            MainAction::Quit => MainActionView::Quit,
        }
    }
}

/// Message of a refused workspace switch.
pub open spec fn switch_refused_message(idx: nat) -> Seq<char> {
    "workspace "@ + decimal(idx) + " out of range or inactive"@
}

/// Message of a refused window move.
pub open spec fn move_refused_message() -> Seq<char> {
    "no focused window or invalid target"@
}

/// How the compositor answers a request, and what it does next, given the
/// workspace state, the occupied workspaces, whether XWayland is ready and
/// the configured launcher and lock binaries.
pub open spec fn handle_request_spec(
    m: WsModel,
    req: Request,
    occupied: Seq<usize>,
    xwayland_ready: bool,
    launcher: Seq<char>,
    lock: Seq<char>,
) -> (WsModel, ResponseView, MainActionView) {
    match req {
        Request::SwitchWorkspace { idx } => {
            let (m2, ok) = switch_to_model(m, idx as int);
            if ok {
                (m2, ResponseView::Success(None), MainActionView::Nothing)
            } else {
                (m2, ResponseView::Failure(IpcErrorView::InvalidRequest(switch_refused_message(idx as nat))), MainActionView::Nothing)
            }
        },
        Request::MoveFocused { target } => {
            let (m2, plan) = plan_move_model(m, target as int);
            match plan {
                Some((src, tgt, id)) => (
                    m2,
                    ResponseView::Success(None),
                    MainActionView::MoveWindow { src, target: tgt, window: id },
                ),
                None => (m2, ResponseView::Failure(IpcErrorView::InvalidRequest(move_refused_message())), MainActionView::Nothing),
            }
        },
        Request::ReloadConfig => (m, ResponseView::Success(None), MainActionView::ReloadConfig),
        Request::GetState => (
            m,
            ResponseView::Success(
                Some(
                    SnapshotView {
                        workspace_count: m.count,
                        active_workspace: m.active,
                        occupied,
                        xwayland_ready,
                    },
                ),
            ),
            MainActionView::Nothing,
        ),
        Request::SpawnLauncher => (m, ResponseView::Success(None), MainActionView::Spawn(launcher)),
        Request::SessionLock => (m, ResponseView::Success(None), MainActionView::Spawn(lock)),
        Request::Quit => (m, ResponseView::Success(None), MainActionView::Quit),
    }
}

/// Handles one request on the compositor's main loop.
pub fn handle_request(
    mgr: &mut WorkspaceManager,
    req: Request,
    occupied: Vec<usize>,
    xwayland_ready: bool,
    bindings: &KeybindingConfig,
) -> (r: (Response, MainAction))
    ensures
        (final(mgr)@, r.0@, r.1@) == handle_request_spec(
            old(mgr)@,
            req,
            occupied@,
            xwayland_ready,
            bindings.launcher_binary@,
            bindings.lock_binary@,
        ),
{
    match req {
        Request::SwitchWorkspace { idx } => {
            if mgr.switch_to(idx) {
                (Response::ok(), MainAction::Nothing)
            } else {
                let mut msg = String::from_str("workspace ");
                let n = decimal_string(idx as u64);
                msg.append(n.as_str());
                msg.append(" out of range or inactive");
                (Response::err(IpcError::InvalidRequest(msg)), MainAction::Nothing)
            }
        },
        Request::MoveFocused { target } => {
            match mgr.plan_move_focused(target) {
                Some((src, tgt, id)) => (
                    Response::ok(),
                    MainAction::MoveWindow { src, target: tgt, window: id },
                ),
                None => {
                    let msg = String::from_str("no focused window or invalid target");
                    (Response::err(IpcError::InvalidRequest(msg)), MainAction::Nothing)
                },
            }
        },
        Request::ReloadConfig => (Response::ok(), MainAction::ReloadConfig),
        Request::GetState => {
            let count = mgr.count();
            let active = mgr.active_index();
            let snap = StateSnapshot {
                workspace_count: count,
                active_workspace: active,
                occupied,
                xwayland_ready,
            };
            (Response::ok_with(ResponseData::State(snap)), MainAction::Nothing)
        },
        Request::SpawnLauncher => (Response::ok(), MainAction::Spawn(bindings.launcher_binary.clone())),
        Request::SessionLock => (Response::ok(), MainAction::Spawn(bindings.lock_binary.clone())),
        Request::Quit => (Response::ok(), MainAction::Quit),
    }
}

// ---------------------------------------------------------------------------
// Client side.

pub const RECONNECT_INITIAL_MS: u64 = 100;
pub const RECONNECT_CAP_MS: u64 = 5_000;
pub const RECONNECT_MAX_TRIES: u32 = 32;

/// The delay before attempt `k + 1` after `k` failed attempts (k >= 1):
/// 100 ms doubled per earlier failure, capped at 5000 ms.
pub open spec fn backoff_delay(failures: nat) -> nat
    decreases failures,
{
    if failures <= 1 {
        RECONNECT_INITIAL_MS as nat
    } else {
        let d = 2 * backoff_delay((failures - 1) as nat);
        if d < RECONNECT_CAP_MS { d } else { RECONNECT_CAP_MS as nat }
    }
}

/// Reconnection state of a client: how many connection attempts failed and
/// how long to sleep after the next failure.
pub struct Backoff {
    failures: u32,
    delay_ms: u64,
}

impl Backoff {
    pub closed spec fn failures(&self) -> nat {
        self.failures as nat
    }

    pub closed spec fn wf(&self) -> bool {
        &&& self.failures <= RECONNECT_MAX_TRIES
        &&& self.delay_ms == backoff_delay(self.failures as nat + 1)
    }

    pub fn new() -> (r: Self)
        ensures
            r.wf(),
            r.failures() == 0,
    {
        Backoff { failures: 0, delay_ms: RECONNECT_INITIAL_MS }
    }

    /// Whether all attempts are used up; the client then reports
    /// [`ClientFailure::ReconnectExhausted`].
    pub fn exhausted(&self) -> (r: bool)
        requires
            self.wf(),
        ensures
            r == (self.failures() >= RECONNECT_MAX_TRIES),
    {
        self.failures >= RECONNECT_MAX_TRIES
    }

    /// Records a failed attempt and returns how long to sleep before the
    /// next one.
    pub fn failed(&mut self) -> (sleep_ms: u64)
        requires
            old(self).wf(),
            old(self).failures() < RECONNECT_MAX_TRIES,
        ensures
            final(self).wf(),
            final(self).failures() == old(self).failures() + 1,
            sleep_ms == backoff_delay(final(self).failures()),
    {
        let d = self.delay_ms;
        let doubled = d * 2;
        self.delay_ms = if doubled < RECONNECT_CAP_MS { doubled } else { RECONNECT_CAP_MS };
        self.failures = self.failures + 1;
        d
    }
}

/// The sleep after the k-th failure is at most the cap, and reaches the cap
/// from the seventh failure on.
pub proof fn law_backoff_capped(k: nat)
    requires
        k >= 1,
    ensures
        RECONNECT_INITIAL_MS <= backoff_delay(k) <= RECONNECT_CAP_MS,
        k >= 7 ==> backoff_delay(k) == RECONNECT_CAP_MS,
        k <= 6 ==> backoff_delay(k) == RECONNECT_INITIAL_MS * vstd::arithmetic::power2::pow2((k - 1) as nat),
    decreases k,
{
    vstd::arithmetic::power2::lemma2_to64();
    if k > 1 {
        law_backoff_capped((k - 1) as nat);
    }
}

/// Correlation ids of a client: 1, 2, 3, ... (wrapping after `u64::MAX`).
pub struct RequestIds {
    next: u64,
}

impl RequestIds {
    pub closed spec fn peek(&self) -> u64 {
        self.next
    }

    pub fn new() -> (r: Self)
        ensures
            r.peek() == 1,
    {
        RequestIds { next: 1 }
    }

    pub fn take(&mut self) -> (id: u64)
        ensures
            id == old(self).peek(),
            final(self).peek() == (if id == u64::MAX { 0 } else { id + 1 }),
    {
        let id = self.next;
        self.next = id.wrapping_add(1);
        id
    }
}

/// Why a client request produced no response (besides transport and decode
/// errors, which the caller reports itself).
#[derive(Debug, Clone, Copy, PartialEq, Eq, Structural)]
pub enum ClientFailure {
    /// The server hung up before responding.
    Hangup,
    /// The server sent a request where a response was expected.
    Misframed,
    /// All reconnection attempts failed.
    ReconnectExhausted(u32),
}

/// The client's reading of a reply: an empty read means the server hung up;
/// an envelope carrying a response yields that response; an envelope
/// carrying a request is misframed.
pub open spec fn accept_reply_spec(bytes_read: nat, reply: Option<EnvelopeView>) -> Result<ResponseView, ClientFailure> {
    if bytes_read == 0 {
        Err(ClientFailure::Hangup)
    } else {
        match reply {
            Some(env) => match env.direction {
                DirectionView::Response(resp) => Ok(resp),
                DirectionView::Request(_) => Err(ClientFailure::Misframed),
            },
            None => Err(ClientFailure::Hangup),
        }
    }
}

pub fn accept_reply(bytes_read: usize, reply: Option<Envelope>) -> (r: Result<Response, ClientFailure>)
    requires
        bytes_read > 0 ==> reply is Some,
    ensures
        bytes_read == 0 ==> r == Err::<Response, ClientFailure>(ClientFailure::Hangup),
        bytes_read > 0 ==> match reply.unwrap().direction {
            Direction::Response(resp) => r matches Ok(got) && got@ == resp@,
            Direction::Request(_) => r == Err::<Response, ClientFailure>(ClientFailure::Misframed),
        },
        match r {
            Ok(got) => accept_reply_spec(bytes_read as nat, match reply {
                Some(e) => Some(e@),
                None => None,
            }) == Ok::<ResponseView, ClientFailure>(got@),
            Err(f) => accept_reply_spec(bytes_read as nat, match reply {
                Some(e) => Some(e@),
                None => None,
            }) == Err::<ResponseView, ClientFailure>(f),
        },
{
    if bytes_read == 0 {
        return Err(ClientFailure::Hangup);
    }
    match reply {
        Some(env) => match env.direction {
            Direction::Response(resp) => Ok(resp),
            Direction::Request(_) => Err(ClientFailure::Misframed),
        },
        None => Err(ClientFailure::Hangup),
    }
}

// ---------------------------------------------------------------------------
// Laws of the protocol.

/// An envelope built by [`Envelope::request`] is always dispatched to the
/// main loop with its request unchanged.
pub proof fn law_own_requests_are_dispatched(id: u64, req: Request)
    ensures
        server_step_spec(EnvelopeView { v: PROTOCOL_VERSION, id, direction: DirectionView::Request(req) })
            == ServerStepView::Dispatch(req),
{
}

/// Any envelope of another version is refused with a version mismatch,
/// whatever it carries.
pub proof fn law_other_versions_refused(env: EnvelopeView)
    requires
        env.v != PROTOCOL_VERSION,
    ensures
        server_step_spec(env) == ServerStepView::Reply(version_mismatch_view()),
{
}

/// Whatever the server answers to a decoded envelope, the reply carries the
/// envelope's correlation id, the current protocol version, and goes in the
/// response direction.
pub proof fn law_reply_echoes_id(env: EnvelopeView, resp: ResponseView)
    ensures
        reply_envelope_spec(Some(env.id), resp).id == env.id,
        reply_envelope_spec(Some(env.id), resp).v == PROTOCOL_VERSION,
        reply_envelope_spec(Some(env.id), resp).direction == DirectionView::Response(resp),
{
}

/// A request that is answered with an error changes no workspace state and
/// triggers no action.
pub proof fn law_refused_requests_change_nothing(
    m: WsModel,
    req: Request,
    occupied: Seq<usize>,
    xw: bool,
    launcher: Seq<char>,
    lock: Seq<char>,
)
    ensures
        handle_request_spec(m, req, occupied, xw, launcher, lock).1 is Failure ==> {
            &&& handle_request_spec(m, req, occupied, xw, launcher, lock).0 == m
            &&& handle_request_spec(m, req, occupied, xw, launcher, lock).2 == MainActionView::Nothing
        },
{
}

/// A round trip: the server's reply to a request line, read back by the
/// client, is exactly the response the server chose.
pub proof fn law_client_reads_server_reply(id: u64, resp: ResponseView, bytes_read: nat)
    requires
        bytes_read > 0,
    ensures
        accept_reply_spec(bytes_read, Some(reply_envelope_spec(Some(id), resp))) == Ok::<ResponseView, ClientFailure>(resp),
{
}

/// Only switch and move requests change the workspace state.
pub proof fn law_only_workspace_requests_change_state(
    m: WsModel,
    req: Request,
    occupied: Seq<usize>,
    xw: bool,
    launcher: Seq<char>,
    lock: Seq<char>,
)
    ensures
        !(req is SwitchWorkspace || req is MoveFocused) ==> handle_request_spec(m, req, occupied, xw, launcher, lock).0
            == m,
{
}

/// The state snapshot reports exactly the state it was taken from.
pub proof fn law_state_snapshot_reports_state(
    m: WsModel,
    occupied: Seq<usize>,
    xw: bool,
    launcher: Seq<char>,
    lock: Seq<char>,
)
    ensures
        handle_request_spec(m, Request::GetState, occupied, xw, launcher, lock).0 == m,
        handle_request_spec(m, Request::GetState, occupied, xw, launcher, lock).1
            == ResponseView::Success(Some(SnapshotView {
                workspace_count: m.count,
                active_workspace: m.active,
                occupied,
                xwayland_ready: xw,
            })),
{
}

/// Asking for the launcher spawns the configured launcher binary, asking
/// for a lock spawns the configured lock binary, reload asks for a reload
/// and quit for a quit; each is answered with success and leaves the
/// workspaces as they were.
pub proof fn law_action_requests_do_what_they_ask(
    m: WsModel,
    occupied: Seq<usize>,
    xw: bool,
    launcher: Seq<char>,
    lock: Seq<char>,
)
    ensures
        handle_request_spec(m, Request::SpawnLauncher, occupied, xw, launcher, lock) == (
            m,
            ResponseView::Success(None),
            MainActionView::Spawn(launcher),
        ),
        handle_request_spec(m, Request::SessionLock, occupied, xw, launcher, lock) == (
            m,
            ResponseView::Success(None),
            MainActionView::Spawn(lock),
        ),
        handle_request_spec(m, Request::ReloadConfig, occupied, xw, launcher, lock) == (
            m,
            ResponseView::Success(None),
            MainActionView::ReloadConfig,
        ),
        handle_request_spec(m, Request::Quit, occupied, xw, launcher, lock) == (
            m,
            ResponseView::Success(None),
            MainActionView::Quit,
        ),
{
}

} // verus!
