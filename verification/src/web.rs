//! The web session's decisions: request routing, the framing of the binary
//! WebSocket client protocol, retained-state replay for late-joining
//! clients, and the config-update merge. The sockets live with the I/O
//! code; every byte that goes out is decided here.

use vstd::prelude::*;
use vstd::string::StringSliceAdditionalSpecFns;

use crate::config::{spec_complete, spec_encode, ConfigError, ConfigV1, ConfigV1Update};
use crate::request::{spec_find_header, HttpRequest, ReqModel};
use crate::response::HttpStatusCode;
use crate::state::{AnyState, DoorState, LockState};

verus! {

/// Message type tags of the binary WebSocket client protocol.
pub const WS_STATE_UPDATE: u8 = 1;

pub const WS_CONFIG_UPDATE: u8 = 2;

pub const WS_NOTIFICATION: u8 = 3;

/// State codes within a state-update message.
pub const WS_LOCK_LOCK: u8 = 1;

pub const WS_LOCK_UNLOCK: u8 = 2;

pub const WS_DOOR_OPEN: u8 = 3;

pub const WS_DOOR_CLOSED: u8 = 4;

/// Which canned document a reply carries.
#[derive(Clone, Copy, Debug, PartialEq, Eq, Structural)]
pub enum RouteBody {
    /// The UI document.
    Index,
    /// The fixed icon.
    Favicon,
    /// The not-found page.
    NotFoundPage,
    /// The bad-request page.
    BadRequestPage,
}

/// What the service does with a request.
#[derive(Clone, Copy, Debug, PartialEq, Eq, Structural)]
pub enum RouteDecision {
    /// Answer with this status and this document.
    Reply(HttpStatusCode, RouteBody),
    /// Switch the connection to WebSocket.
    Upgrade,
    /// The request carried a body, which this server does not take: answer
    /// 400 and reset the connection to avoid desynchronizing the stream.
    RefuseBody,
}

/// Whether the request carries a Sec-WebSocket-Key header.
pub open spec fn has_ws_key(q: ReqModel) -> bool {
    match q.header_slice {
        Some(block) => spec_find_header(block, 0, 3, Seq::empty()) is Some,
        None => false,
    }
}

/// Whether the request asks for the WebSocket upgrade: an Upgrade header
/// naming the websocket protocol.
pub open spec fn has_upgrade_header(q: ReqModel) -> bool {
    match q.header_slice {
        Some(block) => match spec_find_header(block, 0, 2, Seq::empty()) {
            Some(nv) => nv.1 == "websocket".spec_bytes(),
            None => false,
        },
        None => false,
    }
}

/// The routing rule of the GET-only surface: the UI at the root, the icon,
/// the WebSocket endpoint (400 without its two upgrade headers), 404 for
/// any other path, and 400 for any request bearing a body.
pub open spec fn spec_route(q: ReqModel) -> RouteDecision {
    if q.content_length > 0 {
        RouteDecision::RefuseBody
    } else if !(q.method is GET) {
        RouteDecision::Reply(HttpStatusCode::NotFound, RouteBody::NotFoundPage)
    } else if q.path == "/".spec_bytes() {
        RouteDecision::Reply(HttpStatusCode::OK, RouteBody::Index)
    } else if q.path == "/favicon.ico".spec_bytes() {
        RouteDecision::Reply(HttpStatusCode::OK, RouteBody::Favicon)
    } else if q.path == "/ws".spec_bytes() {
        if has_upgrade_header(q) && has_ws_key(q) {
            RouteDecision::Upgrade
        } else {
            RouteDecision::Reply(HttpStatusCode::BadRequest, RouteBody::BadRequestPage)
        }
    } else {
        RouteDecision::Reply(HttpStatusCode::NotFound, RouteBody::NotFoundPage)
    }
}

/// The two-byte state-update frame a state change is pushed to web clients
/// as: the state-update tag, then the state code.
pub open spec fn spec_state_frame(s: AnyState) -> Seq<u8> {
    match s {
        AnyState::LockState(LockState::Locked) => seq![1u8, 1u8],
        AnyState::LockState(LockState::Unlocked) => seq![1u8, 2u8],
        AnyState::DoorState(DoorState::Open) => seq![1u8, 3u8],
        AnyState::DoorState(DoorState::Closed) => seq![1u8, 4u8],
    }
}

/// Builds the state-update frame for a state change.
pub fn state_frame(s: AnyState) -> (r: Vec<u8>)
    ensures
        r@ == spec_state_frame(s),
{
    let mut out: Vec<u8> = Vec::new();
    out.push(WS_STATE_UPDATE);
    match s {
        AnyState::LockState(LockState::Locked) => out.push(WS_LOCK_LOCK),
        AnyState::LockState(LockState::Unlocked) => out.push(WS_LOCK_UNLOCK),
        AnyState::DoorState(DoorState::Open) => out.push(WS_DOOR_OPEN),
        AnyState::DoorState(DoorState::Closed) => out.push(WS_DOOR_CLOSED),
    }
    proof {
        assert(out@ =~= spec_state_frame(s));
    }
    out
}

/// Frames a serialized configuration snapshot for the client.
pub fn config_frame(json: &[u8]) -> (r: Vec<u8>)
    ensures
        r@ == seq![WS_CONFIG_UPDATE] + json@,
{
    let mut out: Vec<u8> = Vec::new();
    out.push(WS_CONFIG_UPDATE);
    out.extend_from_slice(json);
    proof {
        assert(out@ =~= seq![WS_CONFIG_UPDATE] + json@);
    }
    out
}

/// Frames a free-text notification for the client.
pub fn notification_frame(text: &[u8]) -> (r: Vec<u8>)
    ensures
        r@ == seq![WS_NOTIFICATION] + text@,
{
    let mut out: Vec<u8> = Vec::new();
    out.push(WS_NOTIFICATION);
    out.extend_from_slice(text);
    proof {
        assert(out@ =~= seq![WS_NOTIFICATION] + text@);
    }
    out
}

/// What a frame from the web client means.
pub enum WsClientEvent {
    /// The client closed the connection; end the session cleanly.
    CloseFrame,
    /// A lock or unlock command to forward to the door.
    LockCommand(LockState),
    /// A state command with a code this device does not know; noted and
    /// ignored.
    UnknownStateCommand,
    /// A configuration update; the payload is its serialized body.
    ConfigUpdate(Vec<u8>),
    /// Client messages carry at least a type and one payload byte; fewer is
    /// a protocol error ending the session.
    TooShort,
    /// An unknown message type; a protocol error ending the session.
    UnknownType,
}

/// Classifies one frame received from a web client.
pub fn classify_ws_client_message(opcode: u8, data: &[u8]) -> (r: WsClientEvent)
    ensures
        opcode == 8 ==> r is CloseFrame,
        opcode != 8 && data@.len() < 2 ==> r is TooShort,
        opcode != 8 && data@.len() >= 2 ==> match r {
            WsClientEvent::LockCommand(c) => data@[0] == 1 && ((data@[1] == 1 && c
                == LockState::Locked) || (data@[1] == 2 && c == LockState::Unlocked)),
            WsClientEvent::UnknownStateCommand => data@[0] == 1 && data@[1] != 1 && data@[1] != 2,
            WsClientEvent::ConfigUpdate(body) => data@[0] == 2 && body@ == data@.subrange(
                1,
                data@.len() as int,
            ),
            WsClientEvent::UnknownType => data@[0] != 1 && data@[0] != 2,
            _ => false,
        },
{
    if opcode == 8 {
        return WsClientEvent::CloseFrame;
    }
    if data.len() < 2 {
        return WsClientEvent::TooShort;
    }
    if data[0] == WS_STATE_UPDATE {
        if data[1] == WS_LOCK_LOCK {
            WsClientEvent::LockCommand(LockState::Locked)
        } else if data[1] == WS_LOCK_UNLOCK {
            WsClientEvent::LockCommand(LockState::Unlocked)
        } else {
            WsClientEvent::UnknownStateCommand
        }
    } else if data[0] == WS_CONFIG_UPDATE {
        WsClientEvent::ConfigUpdate(
            crate::ascii::slice_to_vec_u8(data, 1, data.len()),
        )
    } else {
        WsClientEvent::UnknownType
    }
}

/// The web service's shared state: the live configuration and the retained
/// last-known door and lock states, cached so a newly attached client can be
/// brought up to date without waiting for the next transition.
pub struct HttpService {
    pub config: ConfigV1,
    pub door_state: Option<DoorState>,
    pub lock_state: Option<LockState>,
}

impl HttpService {
    /// A service around a configuration, with no state seen yet.
    pub fn new(config: ConfigV1) -> (r: HttpService)
        ensures
            r.config == config,
            r.door_state is None,
            r.lock_state is None,
    {
        HttpService { config, door_state: None, lock_state: None }
    }

    /// Routes one request.
    pub fn handle_request(&self, req: &HttpRequest) -> (r: RouteDecision)
        ensures
            r == spec_route(req@),
    {
        if req.content_length > 0 {
            return RouteDecision::RefuseBody;
        }
        if !matches!(req.method, crate::request::HttpMethod::GET) {
            return RouteDecision::Reply(HttpStatusCode::NotFound, RouteBody::NotFoundPage);
        }
        if crate::ascii::bytes_eq(req.path.as_slice(), "/".as_bytes()) {
            return RouteDecision::Reply(HttpStatusCode::OK, RouteBody::Index);
        }
        if crate::ascii::bytes_eq(req.path.as_slice(), "/favicon.ico".as_bytes()) {
            return RouteDecision::Reply(HttpStatusCode::OK, RouteBody::Favicon);
        }
        if crate::ascii::bytes_eq(req.path.as_slice(), "/ws".as_bytes()) {
            let upgrade_wanted = match req.get_header(
                crate::header::RequestHeader::Upgrade(Vec::new()),
            ) {
                Some(crate::header::RequestHeader::Upgrade(v)) => crate::ascii::bytes_eq(
                    v.as_slice(),
                    "websocket".as_bytes(),
                ),
                Some(h) => {
                    // a header answering the kind-2 lookup can only be an
                    // Upgrade header, so this arm cannot be reached
                    proof {
                        if let Some(block) = req@.header_slice {
                            crate::request::lemma_find_header_matches(block, 0, 2, Seq::empty());
                        }
                        assert(crate::header::kind_of_header(h) == 2);
                        assert(false);
                    }
                    false
                },
                None => false,
            };
            let key_present = match req.get_header(
                crate::header::RequestHeader::SecWebSocketKey(Vec::new()),
            ) {
                Some(_) => true,
                None => false,
            };
            if upgrade_wanted && key_present {
                return RouteDecision::Upgrade;
            }
            return RouteDecision::Reply(HttpStatusCode::BadRequest, RouteBody::BadRequestPage);
        }
        RouteDecision::Reply(HttpStatusCode::NotFound, RouteBody::NotFoundPage)
    }

    /// Digests a state change from the bus: the retained value is updated
    /// and the frame to push to the attached client comes back.
    pub fn on_state(&mut self, s: AnyState) -> (frame: Vec<u8>)
        ensures
            frame@ == spec_state_frame(s),
            final(self).config == old(self).config,
            final(self).lock_state == (match s {
                AnyState::LockState(l) => Some(l),
                AnyState::DoorState(_) => old(self).lock_state,
            }),
            final(self).door_state == (match s {
                AnyState::DoorState(d) => Some(d),
                AnyState::LockState(_) => old(self).door_state,
            }),
    {
        match s {
            AnyState::LockState(l) => {
                self.lock_state = Some(l);
            },
            AnyState::DoorState(d) => {
                self.door_state = Some(d);
            },
        }
        state_frame(s)
    }

    /// The frames that bring a newly attached client up to date: the
    /// retained door state, then the retained lock state, each only if one
    /// has been seen.
    pub fn replay_frames(&self) -> (r: Vec<Vec<u8>>)
        ensures
            r@.map_values(|f: Vec<u8>| f@) == ({
                let door: Seq<Seq<u8>> = match self.door_state {
                    Some(d) => seq![spec_state_frame(AnyState::DoorState(d))],
                    None => Seq::empty(),
                };
                let lock: Seq<Seq<u8>> = match self.lock_state {
                    Some(l) => seq![spec_state_frame(AnyState::LockState(l))],
                    None => Seq::empty(),
                };
                door + lock
            }),
    {
        let mut out: Vec<Vec<u8>> = Vec::new();
        if let Some(d) = self.door_state {
            out.push(state_frame(AnyState::DoorState(d)));
        }
        if let Some(l) = self.lock_state {
            out.push(state_frame(AnyState::LockState(l)));
        }
        proof {
            let door: Seq<Seq<u8>> = match self.door_state {
                Some(d) => seq![spec_state_frame(AnyState::DoorState(d))],
                None => Seq::empty(),
            };
            let lock: Seq<Seq<u8>> = match self.lock_state {
                Some(l) => seq![spec_state_frame(AnyState::LockState(l))],
                None => Seq::empty(),
            };
            assert(out@.map_values(|f: Vec<u8>| f@) =~= door + lock);
        }
        out
    }

    /// Merges a configuration update into the live configuration and
    /// serializes the merged record for persisting; an update that leaves
    /// the record incomplete is merged but refused serialization.
    pub fn apply_config_update(&mut self, update: &ConfigV1Update) -> (r: Result<
        Vec<u8>,
        ConfigError,
    >)
        ensures
            final(self).door_state == old(self).door_state,
            final(self).lock_state == old(self).lock_state,
            r matches Ok(bytes) ==> bytes@ == spec_encode(final(self).config@) && spec_complete(
                final(self).config@,
            ),
            r matches Err(e) ==> e == ConfigError::Incomplete && !spec_complete(
                final(self).config@,
            ),
    {
        self.config.update(update);
        self.config.encode()
    }
}

} // verus!
