use docusign::{encode_path, interpret_status, ClientError, ConnectCustomConfiguration};

fn config(
    connect_id: &str,
    name: &str,
    url: &str,
    allow: &str,
    log: &str,
    all: &str,
) -> ConnectCustomConfiguration {
    ConnectCustomConfiguration {
        connect_id: String::from(connect_id),
        name: String::from(name),
        url_to_publish_to: String::from(url),
        allow_envelope_publish: String::from(allow),
        enable_log: String::from(log),
        all_users: String::from(all),
    }
}

#[test]
fn encode_path_passes_unreserved_bytes_through() {
    assert_eq!(encode_path("Abc-12_3.x~"), "Abc-12_3.x~");
}

#[test]
fn encode_path_escapes_reserved_characters() {
    assert_eq!(encode_path("a b/c?d#e&f=g"), "a%20b%2Fc%3Fd%23e%26f%3Dg");
}

#[test]
fn encode_path_escapes_every_utf8_byte_of_a_wide_character() {
    assert_eq!(encode_path("é"), "%C3%A9");
    assert_eq!(encode_path("aé b"), "a%C3%A9%20b");
}

#[test]
fn config_json_has_the_fixed_member_order() {
    let c = config("1", "n", "u", "true", "false", "true");
    assert_eq!(
        c.to_json(),
        "{\"connectId\":\"1\",\"name\":\"n\",\"urlToPublishTo\":\"u\",\
         \"allowEnvelopePublish\":\"true\",\"enableLog\":\"false\",\"allUsers\":\"true\"}"
    );
}

#[test]
fn config_round_trips_through_json() {
    let c = config("42", "my hook", "https://example.com/h?a=1&b=2", "true", "false", "true");
    let back = ConnectCustomConfiguration::from_json(&c.to_json()).unwrap();
    assert_eq!(back, c);
}

#[test]
fn config_round_trips_with_escapes_and_controls() {
    let c = config(
        "q\"uote",
        "back\\slash",
        "tab\there",
        "line\nbreak",
        "\u{1}\u{1f}",
        "émoji ✓",
    );
    let text = c.to_json();
    let back = ConnectCustomConfiguration::from_json(&text).unwrap();
    assert_eq!(back, c);
}

#[test]
fn config_round_trips_with_empty_fields() {
    let c = config("", "", "", "", "", "");
    let back = ConnectCustomConfiguration::from_json(&c.to_json()).unwrap();
    assert_eq!(back, c);
}

#[test]
fn config_json_is_read_back_identically_by_serde() {
    let c = config("1", "a \"quoted\" name", "https://example.com", "true", "x\ny", "ok");
    let value: serde_json::Value = serde_json::from_str(&c.to_json()).unwrap();
    assert_eq!(value["connectId"], "1");
    assert_eq!(value["name"], "a \"quoted\" name");
    assert_eq!(value["urlToPublishTo"], "https://example.com");
    assert_eq!(value["allowEnvelopePublish"], "true");
    assert_eq!(value["enableLog"], "x\ny");
    assert_eq!(value["allUsers"], "ok");
}

#[test]
fn from_json_rejects_text_that_is_not_a_config() {
    assert!(ConnectCustomConfiguration::from_json("").is_none());
    assert!(ConnectCustomConfiguration::from_json("{}").is_none());
    assert!(ConnectCustomConfiguration::from_json("not json").is_none());
    assert!(ConnectCustomConfiguration::from_json("{\"connectId\":\"1\"}").is_none());
    // A member out of order is not the shape this codec writes.
    assert!(
        ConnectCustomConfiguration::from_json(
            "{\"name\":\"n\",\"connectId\":\"1\",\"urlToPublishTo\":\"u\",\
             \"allowEnvelopePublish\":\"t\",\"enableLog\":\"f\",\"allUsers\":\"t\"}"
        )
        .is_none()
    );
    // An unterminated string literal is rejected.
    assert!(ConnectCustomConfiguration::from_json("{\"connectId\":\"1").is_none());
}

#[test]
fn success_statuses_carry_no_error() {
    assert!(interpret_status(200, String::new()).is_ok());
    assert!(interpret_status(204, String::new()).is_ok());
    assert!(interpret_status(299, String::new()).is_ok());
}

#[test]
fn a_404_becomes_a_status_error_carrying_the_code() {
    let r = interpret_status(404, String::from("not found"));
    assert_eq!(
        r,
        Err(ClientError::Status { code: 404, body: String::from("not found") })
    );
}

#[test]
fn other_failure_statuses_carry_their_own_code() {
    let r = interpret_status(500, String::from("boom"));
    match r {
        Err(ClientError::Status { code, body }) => {
            assert_eq!(code, 500);
            assert_eq!(body, "boom");
        }
        other => panic!("expected a status error, got {:?}", other),
    }
}
