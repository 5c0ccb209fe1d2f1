use doorctl::bus::StateBus;
use doorctl::door::{DoorMonitor, PinLevel};
use doorctl::hass::{MqttAction, MqttEvent, MQTTContext};
use doorctl::light::LightColor;
use doorctl::request::HttpRequest;
use doorctl::response::HttpStatusCode;
use doorctl::state::{AnyState, DoorState, LockState};
use doorctl::web::{
    classify_ws_client_message, config_frame, notification_frame, state_frame, HttpService,
    RouteBody, RouteDecision, WsClientEvent,
};

fn lock(s: LockState) -> AnyState {
    AnyState::LockState(s)
}

fn door(s: DoorState) -> AnyState {
    AnyState::DoorState(s)
}

#[test]
fn bus_preserves_per_subscriber_order() {
    let mut bus = StateBus::new(2, 6);
    let a = bus.subscriber().unwrap();
    let b = bus.subscriber().unwrap();
    bus.publish_immediate(lock(LockState::Locked));
    bus.publish_immediate(door(DoorState::Open));
    assert_eq!(bus.receive(a), Some(lock(LockState::Locked)));
    assert_eq!(bus.receive(a), Some(door(DoorState::Open)));
    assert_eq!(bus.receive(a), None);
    assert_eq!(bus.receive(b), Some(lock(LockState::Locked)));
    assert_eq!(bus.receive(b), Some(door(DoorState::Open)));
}

#[test]
fn bus_full_queue_drops_oldest() {
    let mut bus = StateBus::new(2, 6);
    let a = bus.subscriber().unwrap();
    bus.publish_immediate(lock(LockState::Locked));
    bus.publish_immediate(lock(LockState::Unlocked));
    bus.publish_immediate(door(DoorState::Closed));
    assert_eq!(bus.receive(a), Some(lock(LockState::Unlocked)));
    assert_eq!(bus.receive(a), Some(door(DoorState::Closed)));
    assert_eq!(bus.receive(a), None);
}

#[test]
fn bus_bounds_subscriber_count() {
    let mut bus = StateBus::new(2, 2);
    assert!(bus.subscriber().is_some());
    assert!(bus.subscriber().is_some());
    assert!(bus.subscriber().is_none());
}

#[test]
fn door_monitor_debounces_edges() {
    let mut m = DoorMonitor::new();
    // repeated low levels publish nothing
    assert_eq!(m.on_reed_level(PinLevel::Low), None);
    // a low-to-high transition opens the door
    assert_eq!(m.on_reed_level(PinLevel::High), Some(DoorState::Open));
    // another high edge without a change publishes nothing
    assert_eq!(m.on_reed_level(PinLevel::High), None);
    // a high-to-low transition closes it
    assert_eq!(m.on_reed_level(PinLevel::Low), Some(DoorState::Closed));
}

#[test]
fn door_commands_drive_the_actuator() {
    assert_eq!(
        DoorMonitor::on_command(LockState::Locked),
        (PinLevel::Low, lock(LockState::Locked))
    );
    assert_eq!(
        DoorMonitor::on_command(LockState::Unlocked),
        (PinLevel::High, lock(LockState::Unlocked))
    );
}

#[test]
fn mqtt_topics_carry_the_device_id() {
    let id: [u8; 12] = *b"aabbccddeeff";
    let ctx = MQTTContext::new(&id);
    assert_eq!(ctx.availability_topic, b"doorctl/aabbccddeeff/avail".to_vec());
    assert_eq!(ctx.lock_cmd_topic, b"doorctl/aabbccddeeff/lock/cmd/".to_vec());
    assert_eq!(ctx.lock_state_topic, b"doorctl/aabbccddeeff/lock/state".to_vec());
    assert_eq!(ctx.sensor_state_topic, b"doorctl/aabbccddeeff/reed/state".to_vec());
    assert_eq!(
        ctx.discovery_topic,
        b"homeassistant/device/aabbccddeeff/config".to_vec()
    );
    let (online, offline) = ctx.availability_messages();
    assert_eq!(online, b"online".to_vec());
    assert_eq!(offline, b"offline".to_vec());
}

#[test]
fn mqtt_step_forwards_commands_and_mirrors_state() {
    let id: [u8; 12] = *b"aabbccddeeff";
    let ctx = MQTTContext::new(&id);

    match ctx.step(MqttEvent::CommandPayload(b"LOCK".to_vec())) {
        MqttAction::ClearAndSend(c) => assert_eq!(c, LockState::Locked),
        _ => panic!("LOCK should forward a lock command"),
    }
    match ctx.step(MqttEvent::CommandPayload(b"UNLOCK".to_vec())) {
        MqttAction::ClearAndSend(c) => assert_eq!(c, LockState::Unlocked),
        _ => panic!("UNLOCK should forward an unlock command"),
    }
    assert!(matches!(
        ctx.step(MqttEvent::CommandPayload(b"JIGGLE".to_vec())),
        MqttAction::Ignore
    ));
    match ctx.step(MqttEvent::StateChange(lock(LockState::Locked))) {
        MqttAction::Publish(t, p) => {
            assert_eq!(t, b"doorctl/aabbccddeeff/lock/state".to_vec());
            assert_eq!(p, b"LOCKED".to_vec());
        }
        _ => panic!("a state change should be published"),
    }
    match ctx.step(MqttEvent::StateChange(door(DoorState::Open))) {
        MqttAction::Publish(t, p) => {
            assert_eq!(t, b"doorctl/aabbccddeeff/reed/state".to_vec());
            assert_eq!(p, b"ON".to_vec());
        }
        _ => panic!("a state change should be published"),
    }
    match ctx.step(MqttEvent::StateChange(door(DoorState::Closed))) {
        MqttAction::Publish(_, p) => assert_eq!(p, b"OFF".to_vec()),
        _ => panic!("a state change should be published"),
    }
    assert!(matches!(ctx.step(MqttEvent::KeepaliveDue), MqttAction::Ping));
}

#[test]
fn routing_follows_the_http_surface() {
    let svc = HttpService::new(doorctl::config::ConfigV1::default());
    let parse = |raw: &str| HttpRequest::parse(raw.as_bytes()).unwrap();

    let req = parse("GET / HTTP/1.1\r\nHost: a\r\n\r\n");
    assert_eq!(
        svc.handle_request(&req),
        RouteDecision::Reply(HttpStatusCode::OK, RouteBody::Index)
    );

    let req = parse("GET /favicon.ico HTTP/1.1\r\nHost: a\r\n\r\n");
    assert_eq!(
        svc.handle_request(&req),
        RouteDecision::Reply(HttpStatusCode::OK, RouteBody::Favicon)
    );

    let req = parse("GET /elsewhere HTTP/1.1\r\nHost: a\r\n\r\n");
    assert_eq!(
        svc.handle_request(&req),
        RouteDecision::Reply(HttpStatusCode::NotFound, RouteBody::NotFoundPage)
    );

    let req = parse("POST / HTTP/1.1\r\nHost: a\r\n\r\n");
    assert_eq!(
        svc.handle_request(&req),
        RouteDecision::Reply(HttpStatusCode::NotFound, RouteBody::NotFoundPage)
    );

    let req = parse("GET / HTTP/1.1\r\nContent-Length: 3\r\n\r\nabc");
    assert_eq!(svc.handle_request(&req), RouteDecision::RefuseBody);

    let req = parse(
        "GET /ws HTTP/1.1\r\nUpgrade: websocket\r\nSec-WebSocket-Key: dGhlIHNhbXBsZSBub25jZQ==\r\n\r\n",
    );
    assert_eq!(svc.handle_request(&req), RouteDecision::Upgrade);

    let req = parse("GET /ws HTTP/1.1\r\nUpgrade: websocket\r\n\r\n");
    assert_eq!(
        svc.handle_request(&req),
        RouteDecision::Reply(HttpStatusCode::BadRequest, RouteBody::BadRequestPage)
    );

    let req = parse("GET /ws HTTP/1.1\r\nSec-WebSocket-Key: dGhlIHNhbXBsZSBub25jZQ==\r\n\r\n");
    assert_eq!(
        svc.handle_request(&req),
        RouteDecision::Reply(HttpStatusCode::BadRequest, RouteBody::BadRequestPage)
    );
}

#[test]
fn ws_frames_follow_the_client_protocol() {
    assert_eq!(state_frame(lock(LockState::Locked)), vec![1u8, 1]);
    assert_eq!(state_frame(lock(LockState::Unlocked)), vec![1u8, 2]);
    assert_eq!(state_frame(door(DoorState::Open)), vec![1u8, 3]);
    assert_eq!(state_frame(door(DoorState::Closed)), vec![1u8, 4]);
    assert_eq!(config_frame(b"{}"), vec![2u8, b'{', b'}']);
    assert_eq!(notification_frame(b"hi"), vec![3u8, b'h', b'i']);
}

#[test]
fn ws_client_messages_classify_exactly() {
    assert!(matches!(classify_ws_client_message(8, b""), WsClientEvent::CloseFrame));
    assert!(matches!(classify_ws_client_message(2, b"\x01"), WsClientEvent::TooShort));
    match classify_ws_client_message(2, &[1, 1]) {
        WsClientEvent::LockCommand(c) => assert_eq!(c, LockState::Locked),
        _ => panic!("[1,1] is the lock command"),
    }
    match classify_ws_client_message(2, &[1, 2]) {
        WsClientEvent::LockCommand(c) => assert_eq!(c, LockState::Unlocked),
        _ => panic!("[1,2] is the unlock command"),
    }
    assert!(matches!(
        classify_ws_client_message(2, &[1, 9]),
        WsClientEvent::UnknownStateCommand
    ));
    match classify_ws_client_message(2, &[2, b'{', b'}']) {
        WsClientEvent::ConfigUpdate(body) => assert_eq!(body, vec![b'{', b'}']),
        _ => panic!("[2, ...] is a config update"),
    }
    assert!(matches!(
        classify_ws_client_message(2, &[9, 0]),
        WsClientEvent::UnknownType
    ));
}

#[test]
fn service_retains_last_states_for_replay() {
    let mut svc = HttpService::new(doorctl::config::ConfigV1::default());
    assert_eq!(svc.replay_frames(), Vec::<Vec<u8>>::new());
    let f = svc.on_state(door(DoorState::Open));
    assert_eq!(f, vec![1u8, 3]);
    let f = svc.on_state(lock(LockState::Locked));
    assert_eq!(f, vec![1u8, 1]);
    // a later transition replaces the retained value
    let _ = svc.on_state(door(DoorState::Closed));
    assert_eq!(svc.replay_frames(), vec![vec![1u8, 4], vec![1u8, 1]]);
}

#[test]
fn service_applies_config_updates() {
    let mut svc = HttpService::new(doorctl::config::ConfigV1::default());
    let update = doorctl::config::ConfigV1Update {
        device_name: Some(doorctl::config::ConfigV1Value::from_str("mydoor").unwrap()),
        wifi_ssid: Some(doorctl::config::ConfigV1Value::from_str("mywifi").unwrap()),
        wifi_pass: Some(doorctl::config::ConfigV1Value::from_str("mypass").unwrap()),
        mqtt_host: Some(doorctl::config::ConfigV1Value::from_str("broker").unwrap()),
        mqtt_port: None,
        mqtt_tls: None,
        mqtt_user: None,
        mqtt_pass: Some(doorctl::config::ConfigV1Value::from_str("mqttsecret").unwrap()),
    };
    let bytes = svc.apply_config_update(&update).expect("the update completes the record");
    assert_eq!(bytes.len(), doorctl::config::CONFIGV1_SIZE);
    assert_eq!(svc.config.device_name.as_str(), "mydoor");

    // an update that leaves the record incomplete is merged but not encoded
    let mut fresh = HttpService::new(doorctl::config::ConfigV1::default());
    let partial = doorctl::config::ConfigV1Update {
        device_name: Some(doorctl::config::ConfigV1Value::from_str("only").unwrap()),
        wifi_ssid: None,
        wifi_pass: None,
        mqtt_host: None,
        mqtt_port: None,
        mqtt_tls: None,
        mqtt_user: None,
        mqtt_pass: None,
    };
    assert!(fresh.apply_config_update(&partial).is_err());
    assert_eq!(fresh.config.device_name.as_str(), "only");
}

#[test]
fn light_colors_are_fixed() {
    assert_eq!(LightColor::off(), LightColor { r: 0, g: 0, b: 0 });
    assert_eq!(LightColor::red(), LightColor { r: 32, g: 0, b: 0 });
    assert_eq!(LightColor::green(), LightColor { r: 0, g: 32, b: 0 });
    assert_eq!(LightColor::blue(), LightColor { r: 0, g: 0, b: 32 });
    assert_eq!(LightColor::amber(), LightColor { r: 32, g: 16, b: 0 });
}

#[test]
fn server_wraps_a_handler() {
    let server = doorctl::server::HTTPServer::new(7u32);
    assert_eq!(server.handler, 7);
}
