use streamdb::barrier::{BarrierManagerState, TracedEpoch};
use streamdb::kafka_config::{
    KafkaConfig, _default_force_append_only, _default_max_retries, _default_retry_backoff,
    _default_timeout, _default_use_transaction, kafka_sink_name,
};
use streamdb::stream_chunk::{DataType, ScalarImpl};
use streamdb::telemetry::TelemetryInfoServiceImpl;
use streamdb::upsert::{Access, AccessError, AccessResult, ChangeEvent, ChangeEventOperation,
    UpsertChangeEvent};

fn config_with_type(sink_type: &str) -> KafkaConfig {
    KafkaConfig {
        connector: kafka_sink_name(),
        brokers: "localhost:9092".to_string(),
        topic: "events".to_string(),
        sink_type: sink_type.to_string(),
        force_append_only: _default_force_append_only(),
        identifier: "sink_1".to_string(),
        timeout_ms: _default_timeout(),
        max_retry_num: _default_max_retries(),
        retry_interval_ms: _default_retry_backoff(),
        use_transaction: _default_use_transaction(),
        primary_key: None,
    }
}

#[test]
fn kafka_defaults() {
    assert_eq!(_default_timeout(), 5000);
    assert_eq!(_default_max_retries(), 3);
    assert_eq!(_default_retry_backoff(), 100);
    assert!(!_default_use_transaction());
    assert!(!_default_force_append_only());
    assert_eq!(kafka_sink_name(), "kafka");
}

#[test]
fn kafka_config_accepts_the_three_types() {
    assert!(config_with_type("append-only").validate_type());
    assert!(config_with_type("debezium").validate_type());
    assert!(config_with_type("upsert").validate_type());
    assert!(!config_with_type("at-most-once").validate_type());
}

#[test]
fn barrier_state_tracks_epoch() {
    let mut state = BarrierManagerState::new(TracedEpoch::new(0));
    assert_eq!(state.in_flight_prev_epoch().value(), 0);
    state.set_inflight_prev_epoch(TracedEpoch::new(7));
    assert_eq!(state.in_flight_prev_epoch().value(), 7);
}

#[test]
fn telemetry_service_holds_store() {
    let service = TelemetryInfoServiceImpl::new("store-handle".to_string());
    assert_eq!(service.meta_store(), "store-handle");
}

/// An accessor with one named field.
struct OneField {
    field: String,
    value: i64,
}

impl Access for OneField {
    fn access(&self, path: &Vec<String>, _type_expected: Option<&DataType>) -> AccessResult {
        if path.len() == 1 && path[0] == self.field {
            Ok(Some(ScalarImpl::Int64(self.value)))
        } else if path.is_empty() {
            Ok(Some(ScalarImpl::Int64(self.value)))
        } else {
            Err(AccessError::Undefined { name: path[0].clone(), path: String::new() })
        }
    }
}

#[test]
fn upsert_event_with_value_is_an_upsert() {
    let event: UpsertChangeEvent<OneField, OneField> = UpsertChangeEvent::default()
        .with_key(OneField { field: "id".to_string(), value: 1 })
        .with_value(OneField { field: "amount".to_string(), value: 10 });
    assert_eq!(event.op().unwrap(), ChangeEventOperation::Upsert);
    match event.access_field(&"amount".to_string(), &DataType::Int64) {
        Ok(Some(ScalarImpl::Int64(v))) => assert_eq!(v, 10),
        _ => panic!("expected the value field"),
    }
    match event.access_field(&"id".to_string(), &DataType::Int64) {
        Ok(Some(ScalarImpl::Int64(v))) => assert_eq!(v, 1),
        _ => panic!("expected the key field"),
    }
}

#[test]
fn upsert_event_without_value_is_a_delete() {
    let event: UpsertChangeEvent<OneField, OneField> = UpsertChangeEvent::default()
        .with_key(OneField { field: "id".to_string(), value: 1 });
    assert_eq!(event.op().unwrap(), ChangeEventOperation::Delete);
}

#[test]
fn upsert_event_key_as_column_name() {
    let event: UpsertChangeEvent<OneField, OneField> = UpsertChangeEvent::default()
        .with_key(OneField { field: "id".to_string(), value: 42 })
        .with_key_as_column_name("the_key".to_string());
    match event.access_field(&"the_key".to_string(), &DataType::Int64) {
        Ok(Some(ScalarImpl::Int64(v))) => assert_eq!(v, 42),
        _ => panic!("expected the whole key"),
    }
    match event.access_field(&"other".to_string(), &DataType::Int64) {
        Ok(None) => {},
        _ => panic!("expected no field"),
    }
}
