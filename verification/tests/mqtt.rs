//! Publishing.

use bacnet_republisher::config::MqttConfig;
use bacnet_republisher::model::{Numeric, PointConfig, PointSample, TelemetryValue};
use bacnet_republisher::mqtt::{
    health_payload, publish_health, publish_health_at, publish_samples, tls_setup, HealthSnapshot,
    History, MqttConnection, MqttPublisher, TlsSetup,
};

#[derive(Default)]
struct FakePublisher {
    calls: Vec<(String, Vec<u8>, bool)>,
    fail: bool,
}

impl MqttPublisher for FakePublisher {
    fn handed(&self) -> History {
        unreachable!()
    }

    fn publish(&mut self, topic: &str, payload: Vec<u8>, retain: bool) -> Result<(), String> {
        if self.fail {
            return Err("publish failed".to_string());
        }
        self.calls.push((topic.to_string(), payload, retain));
        Ok(())
    }
}

fn sample(value: f64) -> PointSample {
    PointSample {
        point: PointConfig::default(),
        value: TelemetryValue::Number(Numeric::Double(value.to_bits())),
        topic: "Netix/Site/AHU1/Temp".to_string(),
        timestamp_ms: 1,
    }
}

fn text_sample(text: &str) -> PointSample {
    PointSample { value: TelemetryValue::Text(text.to_string()), ..sample(0.0) }
}

fn payload(value: f64) -> Result<Vec<u8>, String> {
    serde_json::to_vec(&value).map_err(|error| error.to_string())
}

fn snapshot(published: usize, failed_reads: usize, failed_publishes: usize) -> HealthSnapshot {
    HealthSnapshot {
        published,
        failed_reads,
        failed_publishes,
        stale_points: 4,
        reconnects: 5,
        last_error: None,
    }
}

#[test]
fn publishes_json_scalars_with_retain_flag() {
    let mut publisher = FakePublisher::default();
    let config = MqttConfig { retain: true, ..MqttConfig::default() };

    let stats =
        publish_samples(&mut publisher, &config, &[sample(22.5)], &vec![payload(22.5)]);

    assert_eq!(stats.published, 1);
    assert_eq!(publisher.calls[0].0, "Netix/Site/AHU1/Temp");
    assert_eq!(publisher.calls[0].1, b"22.5");
    assert!(publisher.calls[0].2);
}

#[test]
fn each_sample_is_published_with_its_own_value() {
    let mut publisher = FakePublisher::default();
    let config = MqttConfig { retain: false, ..MqttConfig::default() };
    let samples = [text_sample("active"), sample(22.5), text_sample("on \"hold\"")];
    let numbers = vec![payload(0.0), payload(22.5), Err("no number".to_string())];
    let stats = publish_samples(&mut publisher, &config, &samples, &numbers);
    assert_eq!((stats.published, stats.failed), (3, 0));
    let sent = publisher.calls.iter().map(|call| call.1.as_slice()).collect::<Vec<_>>();
    assert_eq!(sent[0], b"\"active\"");
    assert_eq!(sent[1], b"22.5");
    assert_eq!(sent[2], br#""on \"hold\"""#);
    assert!(!publisher.calls[0].2);
}

#[test]
fn health_payload_reports_degraded_state() {
    let mut publisher = FakePublisher::default();
    let config = MqttConfig::default();

    publish_health(&mut publisher, &config, &snapshot(1, 2, 3)).unwrap();

    let payload: serde_json::Value = serde_json::from_slice(&publisher.calls[0].1).unwrap();
    assert_eq!(payload["status"], "degraded");
    assert_eq!(payload["published"], 1);
}

#[test]
fn health_reports_hold_every_figure() {
    let mut report = snapshot(1, 0, 0);
    report.last_error = Some("gone".to_string());
    let bytes = health_payload(&report, 77).unwrap();
    let payload: serde_json::Value = serde_json::from_slice(&bytes).unwrap();
    assert_eq!(payload["status"], "ok");
    assert_eq!(payload["failed_reads"], 0);
    assert_eq!(payload["failed_publishes"], 0);
    assert_eq!(payload["stale_points"], 4);
    assert_eq!(payload["reconnects"], 5);
    assert_eq!(payload["last_error"], "gone");
    assert_eq!(payload["timestamp"], 77);
    assert_eq!(
        String::from_utf8(bytes).unwrap(),
        "{\"failed_publishes\":0,\"failed_reads\":0,\"last_error\":\"gone\",\"published\":1,\
         \"reconnects\":5,\"stale_points\":4,\"status\":\"ok\",\"timestamp\":77}"
    );
    let bytes = health_payload(&snapshot(0, 0, 1), -1).unwrap();
    let payload: serde_json::Value = serde_json::from_slice(&bytes).unwrap();
    assert_eq!(payload["status"], "degraded");
    assert!(payload["last_error"].is_null());
    assert_eq!(payload["timestamp"], -1);
}

#[test]
fn health_is_kept_by_the_broker() {
    let mut publisher = FakePublisher::default();
    let config = MqttConfig { retain: false, ..MqttConfig::default() };
    publish_health_at(&mut publisher, &config, &snapshot(0, 0, 0), 1).unwrap();
    assert_eq!(publisher.calls[0].0, "Netix/Site/_health/bacnet-republisher");
    assert!(publisher.calls[0].2);
    publisher.fail = true;
    assert_eq!(
        publish_health_at(&mut publisher, &config, &snapshot(0, 0, 0), 1),
        Err("publish failed".to_string())
    );
}

#[test]
fn failures_are_counted() {
    let mut publisher = FakePublisher::default();
    let config = MqttConfig::default();
    let samples = [sample(1.0), sample(2.0), sample(3.0)];
    let numbers = vec![payload(1.0), Err("no number".to_string()), payload(3.0)];
    let stats = publish_samples(&mut publisher, &config, &samples, &numbers);
    assert_eq!((stats.published, stats.failed), (2, 1));
    assert_eq!(stats.last_error.as_deref(), Some("no number"));
    assert_eq!(publisher.calls.len(), 2);
    publisher.fail = true;
    let stats = publish_samples(&mut publisher, &config, &samples, &numbers);
    assert_eq!((stats.published, stats.failed), (0, 3));
    assert_eq!(stats.last_error.as_deref(), Some("publish failed"));
    let stats = publish_samples(&mut publisher, &config, &[], &Vec::new());
    assert_eq!((stats.published, stats.failed, stats.last_error), (0, 0, None));
}

#[test]
fn connections_have_a_floor_and_credentials() {
    let mut config = MqttConfig { keep_alive_secs: 1, ..MqttConfig::default() };
    assert_eq!(MqttConnection::new(&config).keep_alive_secs, 5);
    config.keep_alive_secs = 60;
    config.password = Some("p".to_string());
    let connection = MqttConnection::new(&config);
    assert_eq!(connection.keep_alive_secs, 60);
    assert_eq!(connection.credentials, None);
    config.username = Some(String::new());
    assert_eq!(MqttConnection::new(&config).credentials, None);
    config.username = Some("u".to_string());
    assert_eq!(
        MqttConnection::new(&config).credentials,
        Some(("u".to_string(), "p".to_string()))
    );
    config.password = None;
    assert_eq!(
        MqttConnection::new(&config).credentials,
        Some(("u".to_string(), String::new()))
    );
}

#[test]
fn tls_follows_the_configuration() {
    let mut config = MqttConfig::default();
    assert_eq!(tls_setup(&config), Ok(TlsSetup::PlatformRoots));
    config.client_key_path = Some("key.pem".to_string());
    assert_eq!(tls_setup(&config), Ok(TlsSetup::PlatformRoots));
    config.ca_cert_path = Some("ca.pem".to_string());
    assert_eq!(
        tls_setup(&config),
        Ok(TlsSetup::Pem { ca: Some("ca.pem".to_string()), client: None })
    );
    config.client_cert_path = Some("cert.pem".to_string());
    assert_eq!(
        tls_setup(&config),
        Ok(TlsSetup::Pem {
            ca: Some("ca.pem".to_string()),
            client: Some(("cert.pem".to_string(), "key.pem".to_string()))
        })
    );
    config.client_key_path = None;
    assert_eq!(
        tls_setup(&config),
        Err("MQTT client certificate requires a client key".to_string())
    );
    config.use_tls = false;
    assert_eq!(tls_setup(&config), Ok(TlsSetup::Plain));
}
