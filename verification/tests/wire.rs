use chrono::DateTime;
use rustfmt_sender::clock::Timestamp;
use rustfmt_sender::rustfmtData;
use rustfmt_sender::variables::Variables;
use serde_json::Value;

fn object_of(variables: &Variables) -> Value {
    let mut object = serde_json::Map::new();
    for (key, value) in variables.entries() {
        object.insert(key.clone(), Value::String(value.clone()));
    }
    Value::Object(object)
}

fn variables_of(value: &Value) -> Variables {
    let mut pairs = Vec::new();
    for (key, value) in value.as_object().unwrap() {
        pairs.push((key.clone(), value.as_str().unwrap().to_string()));
    }
    Variables::from_pairs(&pairs)
}

/// The record as the JSON object that is posted.
fn to_wire(data: &rustfmtData) -> Value {
    let captured_at =
        DateTime::from_timestamp(data.timestamp.seconds, data.timestamp.nanoseconds).unwrap();
    let mut object = serde_json::Map::new();
    object.insert("source".to_string(), Value::String(data.source_file.clone()));
    object.insert("variables".to_string(), object_of(&data.variables));
    object.insert("captured_at".to_string(), Value::String(captured_at.to_rfc3339()));
    object.insert(
        "metadata".to_string(),
        match &data.metadata {
            Some(metadata) => object_of(metadata),
            None => Value::Null,
        },
    );
    Value::Object(object)
}

/// The record that a posted JSON object holds.
fn from_wire(value: &Value) -> rustfmtData {
    let captured_at =
        DateTime::parse_from_rfc3339(value["captured_at"].as_str().unwrap()).unwrap();
    rustfmtData {
        source_file: value["source"].as_str().unwrap().to_string(),
        variables: variables_of(&value["variables"]),
        timestamp: Timestamp {
            seconds: captured_at.timestamp(),
            nanoseconds: captured_at.timestamp_subsec_nanos(),
        },
        metadata: match &value["metadata"] {
            Value::Null => None,
            object => Some(variables_of(object)),
        },
    }
}

#[test]
fn test_rustfmt_data_serialization() {
    let mut variables = Variables::new();
    variables.insert("TEST_KEY".to_string(), "test_value".to_string());

    let rustfmt_data = rustfmtData {
        source_file: "test.rustfmt".to_string(),
        variables,
        timestamp: Timestamp::now(),
        metadata: None,
    };

    let json = serde_json::to_string(&to_wire(&rustfmt_data)).unwrap();
    let deserialized: rustfmtData = from_wire(&serde_json::from_str(&json).unwrap());

    assert_eq!(rustfmt_data.source_file, deserialized.source_file);
    assert_eq!(rustfmt_data.variables, deserialized.variables);
}

#[test]
fn record_comes_back_from_the_wire_as_it_went() {
    let content = "B=2\nA=1\nquote=\"x\"\nback\\slash=\\\nunicode=é ✓\nEMPTY=\n";
    let timestamp = Timestamp { seconds: 1_700_000_000, nanoseconds: 123_456_789 };
    let data = rustfmtData::from_schema_file("dir/my file.schema", content, timestamp);
    assert_eq!(data.variables.len(), 6);

    let json = serde_json::to_string(&to_wire(&data)).unwrap();
    let back = from_wire(&serde_json::from_str(&json).unwrap());

    assert_eq!(back.source_file, data.source_file);
    assert_eq!(back.variables, data.variables);
    assert_eq!(back.metadata, data.metadata);
    assert_eq!(back.timestamp, data.timestamp);
    assert_eq!(back, data);
}

#[test]
fn posted_object_has_the_four_fields() {
    let timestamp = Timestamp { seconds: 0, nanoseconds: 0 };
    let data = rustfmtData::from_file("a.cfg", "A=1", timestamp);
    let json = serde_json::to_string(&to_wire(&data)).unwrap();
    let value: Value = serde_json::from_str(&json).unwrap();
    let object = value.as_object().unwrap();
    assert_eq!(object.len(), 4);
    assert_eq!(object["source"], Value::String("a.cfg".to_string()));
    assert_eq!(object["variables"]["A"], Value::String("1".to_string()));
    assert_eq!(object["captured_at"], Value::String("1970-01-01T00:00:00+00:00".to_string()));
    assert_eq!(object["metadata"], Value::Null);
}
