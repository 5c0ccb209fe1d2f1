//! The MQTT side of the device: the topic names derived from the device id,
//! and the decisions of the broker session loop — which message answers a
//! command, what is published on a state change, when to ping.

use vstd::prelude::*;
use vstd::string::StringSliceAdditionalSpecFns;

use crate::state::{AnyState, DoorState, LockState};

verus! {

/// A topic: the fixed prefix, the 12-hex-digit device id, a fixed suffix.
pub open spec fn topic_bytes(prefix: Seq<u8>, id: Seq<u8>, suffix: Seq<u8>) -> Seq<u8> {
    prefix + id + suffix
}

/// Concatenates prefix, device id and suffix.
fn mk_topic(prefix: &str, device_id: &[u8; 12], suffix: &str) -> (r: Vec<u8>)
    ensures
        r@ == topic_bytes(prefix.spec_bytes(), device_id@, suffix.spec_bytes()),
{
    let mut topic: Vec<u8> = Vec::new();
    topic.extend_from_slice(prefix.as_bytes());
    topic.extend_from_slice(device_id.as_slice());
    topic.extend_from_slice(suffix.as_bytes());
    proof {
        assert(topic@ =~= topic_bytes(prefix.spec_bytes(), device_id@, suffix.spec_bytes()));
    }
    topic
}

/// The topic carrying the retained online/offline availability flag.
pub fn mk_availability_topic(device_id: &[u8; 12]) -> (r: Vec<u8>)
    ensures
        r@ == topic_bytes("doorctl/".spec_bytes(), device_id@, "/avail".spec_bytes()),
{
    mk_topic("doorctl/", device_id, "/avail")
}

/// The topic the device watches for lock commands.
pub fn mk_lock_cmd_topic(device_id: &[u8; 12]) -> (r: Vec<u8>)
    ensures
        r@ == topic_bytes("doorctl/".spec_bytes(), device_id@, "/lock/cmd/".spec_bytes()),
{
    mk_topic("doorctl/", device_id, "/lock/cmd/")
}

/// The topic the device publishes the lock state on.
pub fn mk_lock_state_topic(device_id: &[u8; 12]) -> (r: Vec<u8>)
    ensures
        r@ == topic_bytes("doorctl/".spec_bytes(), device_id@, "/lock/state".spec_bytes()),
{
    mk_topic("doorctl/", device_id, "/lock/state")
}

/// The topic the device publishes the reed-switch state on.
pub fn mk_sensor_state_topic(device_id: &[u8; 12]) -> (r: Vec<u8>)
    ensures
        r@ == topic_bytes("doorctl/".spec_bytes(), device_id@, "/reed/state".spec_bytes()),
{
    mk_topic("doorctl/", device_id, "/reed/state")
}

/// The Home-Assistant discovery topic for this device.
pub fn mk_discovery_topic(device_id: &[u8; 12]) -> (r: Vec<u8>)
    ensures
        r@ == topic_bytes(
            "homeassistant/device/".spec_bytes(),
            device_id@,
            "/config".spec_bytes(),
        ),
{
    mk_topic("homeassistant/device/", device_id, "/config")
}

/// The receive and transmit buffers an MQTT client needs.
pub fn make_buffers() -> (r: [[u8; 1024]; 2])
    ensures
        r@.len() == 2,
        r@[0]@ == Seq::new(1024, |i: int| 0u8),
        r@[1]@ == Seq::new(1024, |i: int| 0u8),
{
    let rx = [0u8; 1024];
    let tx = [0u8; 1024];
    proof {
        assert(rx@ =~= Seq::new(1024, |i: int| 0u8));
        assert(tx@ =~= Seq::new(1024, |i: int| 0u8));
    }
    [rx, tx]
}

/// One broker session's fixed data: the device id and the topics derived
/// from it.
pub struct MQTTContext {
    pub device_id: Vec<u8>,
    pub discovery_topic: Vec<u8>,
    pub availability_topic: Vec<u8>,
    pub lock_cmd_topic: Vec<u8>,
    pub lock_state_topic: Vec<u8>,
    pub sensor_state_topic: Vec<u8>,
}

/// One cycle of the broker session races three sources; this is what fired.
pub enum MqttEvent {
    /// A message arrived on the command topic, with this payload.
    CommandPayload(Vec<u8>),
    /// A state change arrived from the bus.
    StateChange(AnyState),
    /// The keepalive timer fired first.
    KeepaliveDue,
}

/// What the session does in answer to one event.
pub enum MqttAction {
    /// Drop any stale queued command, then hand this one to the door —
    /// latest command wins.
    ClearAndSend(LockState),
    /// The payload was not a known command; note it and carry on.
    Ignore,
    /// Publish this payload on this topic.
    Publish(Vec<u8>, Vec<u8>),
    /// Answer the keepalive timer.
    Ping,
}

/// The topic/payload pair a state change is mirrored with.
pub open spec fn spec_state_publication(ctx: MQTTContext, s: AnyState) -> (Seq<u8>, Seq<u8>) {
    match s {
        AnyState::LockState(LockState::Locked) => (
            ctx.lock_state_topic@,
            "LOCKED".spec_bytes(),
        ),
        AnyState::LockState(LockState::Unlocked) => (
            ctx.lock_state_topic@,
            "UNLOCKED".spec_bytes(),
        ),
        AnyState::DoorState(DoorState::Open) => (ctx.sensor_state_topic@, "ON".spec_bytes()),
        AnyState::DoorState(DoorState::Closed) => (ctx.sensor_state_topic@, "OFF".spec_bytes()),
    }
}

impl MQTTContext {
    /// Derives every topic from the device id.
    pub fn new(device_id: &[u8; 12]) -> (r: MQTTContext)
        ensures
            r.device_id@ == device_id@,
            r.discovery_topic@ == topic_bytes(
                "homeassistant/device/".spec_bytes(),
                device_id@,
                "/config".spec_bytes(),
            ),
            r.availability_topic@ == topic_bytes(
                "doorctl/".spec_bytes(),
                device_id@,
                "/avail".spec_bytes(),
            ),
            r.lock_cmd_topic@ == topic_bytes(
                "doorctl/".spec_bytes(),
                device_id@,
                "/lock/cmd/".spec_bytes(),
            ),
            r.lock_state_topic@ == topic_bytes(
                "doorctl/".spec_bytes(),
                device_id@,
                "/lock/state".spec_bytes(),
            ),
            r.sensor_state_topic@ == topic_bytes(
                "doorctl/".spec_bytes(),
                device_id@,
                "/reed/state".spec_bytes(),
            ),
    {
        MQTTContext {
            device_id: vstd::slice::slice_to_vec(device_id.as_slice()),
            discovery_topic: mk_discovery_topic(device_id),
            availability_topic: mk_availability_topic(device_id),
            lock_cmd_topic: mk_lock_cmd_topic(device_id),
            lock_state_topic: mk_lock_state_topic(device_id),
            sensor_state_topic: mk_sensor_state_topic(device_id),
        }
    }

    /// The retained message that marks the device online, and the payload
    /// the broker publishes as the last will when it goes away.
    pub fn availability_messages(&self) -> (r: (Vec<u8>, Vec<u8>))
        ensures
            r.0@ == "online".spec_bytes(),
            r.1@ == "offline".spec_bytes(),
    {
        (
            vstd::slice::slice_to_vec("online".as_bytes()),
            vstd::slice::slice_to_vec("offline".as_bytes()),
        )
    }

    /// Decides one cycle of the broker session: a command payload is
    /// forwarded to the door (after clearing any stale command), a state
    /// change is mirrored to its topic, a quiet keepalive period is answered
    /// with a ping.
    pub fn step(&self, event: MqttEvent) -> (r: MqttAction)
        ensures
            match event {
                MqttEvent::CommandPayload(data) => {
                    if data@ == "LOCK".spec_bytes() {
                        r matches MqttAction::ClearAndSend(c) && c == LockState::Locked
                    } else if data@ == "UNLOCK".spec_bytes() {
                        r matches MqttAction::ClearAndSend(c) && c == LockState::Unlocked
                    } else {
                        r is Ignore
                    }
                },
                MqttEvent::StateChange(s) => r matches MqttAction::Publish(t, p) && t@
                    == spec_state_publication(*self, s).0 && p@ == spec_state_publication(
                    *self,
                    s,
                ).1,
                MqttEvent::KeepaliveDue => r is Ping,
            },
    {
        match event {
            MqttEvent::CommandPayload(data) => {
                if crate::ascii::bytes_eq(data.as_slice(), "LOCK".as_bytes()) {
                    MqttAction::ClearAndSend(LockState::Locked)
                } else if crate::ascii::bytes_eq(data.as_slice(), "UNLOCK".as_bytes()) {
                    MqttAction::ClearAndSend(LockState::Unlocked)
                } else {
                    MqttAction::Ignore
                }
            },
            MqttEvent::StateChange(s) => {
                match s {
                    AnyState::LockState(LockState::Locked) => MqttAction::Publish(
                        vstd::slice::slice_to_vec(self.lock_state_topic.as_slice()),
                        vstd::slice::slice_to_vec("LOCKED".as_bytes()),
                    ),
                    AnyState::LockState(LockState::Unlocked) => MqttAction::Publish(
                        vstd::slice::slice_to_vec(self.lock_state_topic.as_slice()),
                        vstd::slice::slice_to_vec("UNLOCKED".as_bytes()),
                    ),
                    AnyState::DoorState(DoorState::Open) => MqttAction::Publish(
                        vstd::slice::slice_to_vec(self.sensor_state_topic.as_slice()),
                        vstd::slice::slice_to_vec("ON".as_bytes()),
                    ),
                    AnyState::DoorState(DoorState::Closed) => MqttAction::Publish(
                        vstd::slice::slice_to_vec(self.sensor_state_topic.as_slice()),
                        vstd::slice::slice_to_vec("OFF".as_bytes()),
                    ),
                }
            },
            MqttEvent::KeepaliveDue => MqttAction::Ping,
        }
    }
}

} // verus!
