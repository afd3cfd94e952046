//! The state machine of one overlay socket: heartbeats, client frames, and its session id.
use vstd::prelude::*;
use crate::cooldown::elapsed;
use crate::messages::{command_json, Disconnect, OverlayCommandData};
use crate::models::shown_image;
use vstd::arithmetic::div_mod::{lemma_fundamental_div_mod, lemma_mod_bound};

verus! {

/// How often the server pings an overlay socket: 60 seconds, in nanoseconds.
pub const HEARTBEAT_INTERVAL_NANOS: u64 = 60_000_000_000;

/// How long a socket may stay silent before it is dropped: 70 seconds, in nanoseconds.
pub const CLIENT_TIMEOUT_NANOS: u64 = 70_000_000_000;

/// A heartbeat message of the client, read from a JSON text frame `{"type": ...}`.
pub enum WsResponse {
    /// The client answers a ping.
    Pong,
    /// The client pings the server.
    Ping,
}

/// A frame received on the socket, as the state machine reads it.
pub enum WsFrame {
    /// Receiving failed (a protocol error).
    Failed,
    /// A text frame, with the heartbeat message read from it if it holds one.
    Text(Option<WsResponse>),
    /// A ping frame with its payload.
    Ping(Vec<u8>),
    /// A continuation frame.
    Continuation,
    /// A close frame.
    Close,
    /// Any other frame (binary, pong, no-op).
    Other,
}

/// What the socket does next.
pub enum WsAction {
    /// Nothing.
    Nothing,
    /// Send this text frame.
    SendText(String),
    /// Answer with a pong frame carrying this payload.
    Pong(Vec<u8>),
    /// Stop the session.
    Stop,
    /// Close the socket (echoing the close reason) and stop the session.
    CloseAndStop,
}

/// What a heartbeat tick does.
pub enum HeartbeatAction {
    /// The client timed out: send this to the registry and stop.
    Expire(Disconnect),
    /// Send this ping text.
    SendPing(String),
}

/// What a socket does once the registry answered its connection request.
pub enum ConnectAction {
    /// No session id: stop.
    Stop,
    /// Run on, first sending this text (the overlay's saved image) if there is one.
    Run(Option<String>),
}

/// The state of one overlay socket.
pub struct WsSession {
    /// Session id given by the registry (0 until connected).
    pub client_id: usize,
    /// The overlay this socket shows.
    pub overlay_id: i32,
    /// The overlay's saved image when the socket opened, shown again once connected.
    pub last_image: Option<String>,
    /// Time of the last heartbeat from the client (nanoseconds, monotonic clock).
    pub last_hb: u64,
}

/// The text that shows a saved image again: the image command for it, if there is one.
pub open spec fn restore_text(last_image: Option<String>) -> Option<Seq<char>> {
    match last_image {
        Some(u) => Some(command_json(OverlayCommandData::Image(u))),
        None => None,
    }
}

/// The ping text: `{"type":"Ping"}`.
pub open spec fn ping_text() -> Seq<char> {
    "{\"type\":\"Ping\"}"@
}

/// The pong text: `{"type":"Pong"}`.
pub open spec fn pong_text() -> Seq<char> {
    "{\"type\":\"Pong\"}"@
}

/// Whether a client last heard from at `last` has timed out at `now`.
pub open spec fn timed_out(last: u64, now: u64) -> bool {
    elapsed(now, last) > CLIENT_TIMEOUT_NANOS
}

impl WsSession {
    /// A new socket of overlay `overlay_id`, whose saved image is `last_image`, opened at `now`.
    pub fn new(overlay_id: i32, last_image: Option<String>, now: u64) -> (r: Self)
        ensures
            r.client_id == 0,
            r.overlay_id == overlay_id,
            r.last_image == last_image,
            r.last_hb == now,
    {
        WsSession { client_id: 0, overlay_id, last_image, last_hb: now }
    }

    /// A heartbeat tick at `now`: a client silent for more than 70 seconds is disconnected,
    /// otherwise it is pinged.
    pub fn heartbeat(&self, now: u64) -> (r: HeartbeatAction)
        ensures
            timed_out(self.last_hb, now) ==> (r matches HeartbeatAction::Expire(d) && d.0 == self.client_id),
            !timed_out(self.last_hb, now) ==> (r matches HeartbeatAction::SendPing(t) && t@ == ping_text()),
    {
        let el = if now >= self.last_hb { now - self.last_hb } else { 0 };
        if el > CLIENT_TIMEOUT_NANOS {
            HeartbeatAction::Expire(Disconnect(self.client_id))
        } else {
            HeartbeatAction::SendPing("{\"type\":\"Ping\"}".to_owned())
        }
    }

    /// The registry answered the connection request. With a session id the socket keeps it and
    /// runs on, first showing the overlay's saved image again (the image command for it);
    /// without one the socket stops.
    pub fn connected(&mut self, res: Option<usize>) -> (r: ConnectAction)
        ensures
            res is None <==> r is Stop,
            r matches ConnectAction::Run(t) ==> match (t, restore_text(old(self).last_image)) {
                (Some(x), Some(y)) => x@ == y,
                (None, None) => true,
                _ => false,
            },
            res matches Some(id) ==> final(self).client_id == id,
            res is None ==> final(self).client_id == old(self).client_id,
            final(self).overlay_id == old(self).overlay_id,
            final(self).last_image == old(self).last_image,
            final(self).last_hb == old(self).last_hb,
    {
        match res {
            Some(id) => {
                self.client_id = id;
                let text = match &self.last_image {
                    Some(u) => OverlayCommandData::Image(u.clone()).to_json(),
                    None => None,
                };
                ConnectAction::Run(text)
            },
            None => ConnectAction::Stop,
        }
    }

    /// Handles a frame received at `now`. A failed receive or a continuation frame stops the
    /// session; a close frame closes and stops it; a ping frame is answered with the same
    /// payload; a text heartbeat renews the client's time, and a client ping is answered with
    /// `{"type":"Pong"}`; everything else is ignored.
    pub fn on_frame(&mut self, frame: WsFrame, now: u64) -> (r: WsAction)
        ensures
            final(self).client_id == old(self).client_id,
            final(self).overlay_id == old(self).overlay_id,
            final(self).last_image == old(self).last_image,
            match frame {
                WsFrame::Failed => r is Stop && final(self).last_hb == old(self).last_hb,
                WsFrame::Text(Some(WsResponse::Pong)) => r is Nothing && final(self).last_hb == now,
                WsFrame::Text(Some(WsResponse::Ping)) => (r matches WsAction::SendText(t) && t@ == pong_text()) && final(self).last_hb == now,
                WsFrame::Text(None) => r is Nothing && final(self).last_hb == old(self).last_hb,
                WsFrame::Ping(payload) => (r matches WsAction::Pong(q) && q@ == payload@) && final(self).last_hb == old(self).last_hb,
                WsFrame::Continuation => r is Stop && final(self).last_hb == old(self).last_hb,
                WsFrame::Close => r is CloseAndStop && final(self).last_hb == old(self).last_hb,
                WsFrame::Other => r is Nothing && final(self).last_hb == old(self).last_hb,
            },
    {
        match frame {
            WsFrame::Failed => WsAction::Stop,
            WsFrame::Text(Some(WsResponse::Pong)) => {
                self.last_hb = now;
                WsAction::Nothing
            },
            WsFrame::Text(Some(WsResponse::Ping)) => {
                self.last_hb = now;
                WsAction::SendText("{\"type\":\"Pong\"}".to_owned())
            },
            WsFrame::Text(None) => WsAction::Nothing,
            WsFrame::Ping(payload) => WsAction::Pong(payload),
            WsFrame::Continuation => WsAction::Stop,
            WsFrame::Close => WsAction::CloseAndStop,
            WsFrame::Other => WsAction::Nothing,
        }
    }

    /// The message to the registry when the socket stops.
    pub fn stopping(&self) -> (r: Disconnect)
        ensures
            r.0 == self.client_id,
    {
        Disconnect(self.client_id)
    }
}

/// The time of the `k`-th heartbeat tick of a schedule started at `start`: the ticks come one
/// heartbeat interval apart, the first one interval after the start.
pub open spec fn tick_at(start: u64, k: nat) -> int {
    start + k * HEARTBEAT_INTERVAL_NANOS
}

/// A silent client is dropped within 130 seconds of its last heartbeat. Take ticks one
/// heartbeat interval apart from `start` (the moment the schedule was set up) and a client whose
/// last heartbeat came at `last`. Tick `k` finds the client timed out, so `heartbeat`
/// disconnects it there, and every earlier tick finds it alive, so `heartbeat` only pings it.
/// Tick `k` comes at most 70 + 60 seconds after `last` whenever the schedule started no later
/// than 70 seconds after it (as it does: the schedule is set up as the socket opens, moments
/// after the socket's first heartbeat time is taken, and later heartbeats only come later);
/// otherwise it is the very first tick.
pub proof fn law_silent_client_dropped(start: u64, last: u64) -> (k: nat)
    requires
        start + HEARTBEAT_INTERVAL_NANOS <= u64::MAX,
        last + CLIENT_TIMEOUT_NANOS + HEARTBEAT_INTERVAL_NANOS <= u64::MAX,
    ensures
        k >= 1,
        timed_out(last, tick_at(start, k) as u64),
        forall|j: nat| 1 <= j < k ==> !timed_out(last, #[trigger] tick_at(start, j) as u64),
        start <= last + CLIENT_TIMEOUT_NANOS ==> tick_at(start, k) <= last + CLIENT_TIMEOUT_NANOS + HEARTBEAT_INTERVAL_NANOS,
        start > last + CLIENT_TIMEOUT_NANOS ==> k == 1,
{
    if start > last + CLIENT_TIMEOUT_NANOS {
        assert(tick_at(start, 1) == start + HEARTBEAT_INTERVAL_NANOS);
        return 1;
    }
    let i: int = HEARTBEAT_INTERVAL_NANOS as int;
    let x: int = last + CLIENT_TIMEOUT_NANOS - start;
    lemma_fundamental_div_mod(x, i);
    lemma_mod_bound(x, i);
    let q: int = x / i;
    assert(q >= 0) by (nonlinear_arith)
        requires
            x >= 0,
            i > 0,
            x == i * q + x % i,
            x % i < i,
    ;
    let k: nat = (q + 1) as nat;
    assert(k * i == i * q + i) by (nonlinear_arith)
        requires
            k == q + 1,
    ;
    assert forall|j: nat| 1 <= j < k implies !timed_out(last, #[trigger] tick_at(start, j) as u64) by {
        assert(j * i <= i * q) by (nonlinear_arith)
            requires
                j <= q,
                i > 0,
        ;
    }
    k
}

/// An image is saved per overlay and restored on reload: once an overlay has remembered a
/// command (its last image is the command's image), a socket opened on it shows that command
/// first once connected.
pub proof fn law_reload_restores_saved_image(data: OverlayCommandData, last_image: Option<String>)
    requires
        last_image matches Some(l) && l@ == shown_image(data),
    ensures
        restore_text(last_image) == Some(command_json(data)),
{
}

/// A client that answers each ping before the next tick is never dropped: if its last
/// heartbeat came at or after a tick at `tick`, the next tick, one heartbeat interval later,
/// pings it again.
pub proof fn law_answering_client_stays(tick: u64, last: u64)
    requires
        tick <= last <= tick + HEARTBEAT_INTERVAL_NANOS,
        tick + HEARTBEAT_INTERVAL_NANOS <= u64::MAX,
    ensures
        !timed_out(last, (tick + HEARTBEAT_INTERVAL_NANOS) as u64),
{
}

} // verus!
