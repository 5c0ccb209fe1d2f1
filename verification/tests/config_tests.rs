use doorctl::config::{ConfigError, ConfigV1, ConfigV1Update, ConfigV1Value, CONFIGV1_SIZE};

fn complete_config() -> ConfigV1 {
    let mut c = ConfigV1::default();
    c.device_name = ConfigV1Value::from_str("mydoor").unwrap();
    c.wifi_ssid = ConfigV1Value::from_str("mywifi").unwrap();
    c.wifi_pass = ConfigV1Value::from_str("mypass").unwrap();
    c.mqtt_host = ConfigV1Value::from_str("broker.local").unwrap();
    c.mqtt_user = ConfigV1Value::from_str("user").unwrap();
    c.mqtt_pass = ConfigV1Value::from_str("mqttsecret").unwrap();
    c.mqtt_port = 1024;
    c.mqtt_tls = true;
    c.mqtt_tls_verify_cert = false;
    c
}

#[test]
fn config_roundtrip_restores_every_field() {
    let c = complete_config();
    let bytes = c.encode().unwrap();
    assert_eq!(bytes.len(), CONFIGV1_SIZE);
    let d = ConfigV1::decode(&bytes).expect("decode should accept an encoded record");
    assert_eq!(d.device_name, c.device_name);
    assert_eq!(d.wifi_ssid, c.wifi_ssid);
    assert_eq!(d.wifi_pass, c.wifi_pass);
    assert_eq!(d.mqtt_host, c.mqtt_host);
    assert_eq!(d.mqtt_user, c.mqtt_user);
    assert_eq!(d.mqtt_pass, c.mqtt_pass);
    assert_eq!(d.mqtt_port, c.mqtt_port);
    assert_eq!(d.mqtt_tls, c.mqtt_tls);
    assert_eq!(d.mqtt_tls_verify_cert, c.mqtt_tls_verify_cert);
}

#[test]
fn config_decode_reports_which_magic_failed() {
    let c = complete_config();
    let good = c.encode().unwrap();

    // a flip anywhere in the leading magic reads as "no config or corrupt"
    for i in 0..13 {
        let mut bad = good.clone();
        bad[i] ^= 0xff;
        assert_eq!(ConfigV1::decode(&bad), Err(ConfigError::NoConfigOrCorrupt), "byte {}", i);
    }
    // a flip anywhere in the trailing magic reads as "corrupt"
    for i in 452..465 {
        let mut bad = good.clone();
        bad[i] ^= 0xff;
        assert_eq!(ConfigV1::decode(&bad), Err(ConfigError::Corrupt), "byte {}", i);
    }
}

#[test]
fn config_decode_refuses_short_buffer() {
    assert_eq!(
        ConfigV1::decode(&[0u8; 100]),
        Err(ConfigError::BufferTooSmall)
    );
}

#[test]
fn config_encode_refuses_incomplete_record() {
    let c = ConfigV1::default();
    assert!(matches!(c.encode(), Err(ConfigError::Incomplete)));
    assert_eq!(ConfigError::Incomplete.as_str(), "config not complete");
}

#[test]
fn config_port_is_big_endian() {
    let c = complete_config();
    let bytes = c.encode().unwrap();
    assert_eq!(bytes[320], 0x04);
    assert_eq!(bytes[321], 0x00);
    assert_eq!(bytes[322], 1);
    assert_eq!(bytes[323], 0);
}

#[test]
fn config_update_merges_only_present_fields() {
    let mut c = complete_config();
    let update = ConfigV1Update {
        device_name: Some(ConfigV1Value::from_str("newname").unwrap()),
        wifi_ssid: None,
        wifi_pass: None,
        mqtt_host: None,
        mqtt_port: None,
        mqtt_tls: None,
        mqtt_user: None,
        mqtt_pass: None,
    };
    c.update(&update);
    assert_eq!(c.device_name.as_str(), "newname");
    assert_eq!(c.wifi_ssid.as_str(), "mywifi");
    assert_eq!(c.wifi_pass.as_str(), "mypass");
    assert_eq!(c.mqtt_host.as_str(), "broker.local");
    assert_eq!(c.mqtt_user.as_str(), "user");
    assert_eq!(c.mqtt_pass.as_str(), "mqttsecret");
    assert_eq!(c.mqtt_port, 1024);
    assert!(c.mqtt_tls);
    assert!(!c.mqtt_tls_verify_cert);
}

#[test]
fn config_update_never_clears_a_field() {
    let mut c = complete_config();
    let update = ConfigV1Update {
        device_name: Some(ConfigV1Value::from_str("").unwrap()),
        wifi_ssid: Some(ConfigV1Value::from_str("").unwrap()),
        wifi_pass: None,
        mqtt_host: None,
        mqtt_port: Some(0),
        mqtt_tls: Some(false),
        mqtt_user: None,
        mqtt_pass: None,
    };
    c.update(&update);
    // empty strings and a zero port do not overwrite prior values
    assert_eq!(c.device_name.as_str(), "mydoor");
    assert_eq!(c.wifi_ssid.as_str(), "mywifi");
    assert_eq!(c.mqtt_port, 1024);
    // the TLS flag is taken whenever present
    assert!(!c.mqtt_tls);
}

#[test]
fn config_value_respects_slot_size() {
    let long = "x".repeat(65);
    assert!(ConfigV1Value::from_str(&long).is_err());
    let exact = "y".repeat(64);
    let v = ConfigV1Value::from_str(&exact).unwrap();
    assert_eq!(v.as_str(), exact);
}

#[test]
fn config_default_is_incomplete_but_magic_framed() {
    let c = ConfigV1::default();
    assert!(!c.complete());
    assert_eq!(&c.pre_magic.0[..13], "doorcontrolv1".as_bytes());
    assert_eq!(&c.post_magic.0[..13], "doorcontrolv1".as_bytes());
    assert_eq!(c.mqtt_port, 1883);
    assert!(!c.mqtt_tls);
    assert!(c.mqtt_tls_verify_cert);
}
