use docusign::{ConnectConfigurations, ConnectCustomConfiguration, Method, Payments};

fn sample_config() -> ConnectCustomConfiguration {
    ConnectCustomConfiguration {
        connect_id: String::from("123"),
        name: String::from("my hook"),
        url_to_publish_to: String::from("https://example.com/hook?x=1"),
        allow_envelope_publish: String::from("true"),
        enable_log: String::from("false"),
        all_users: String::from("true"),
    }
}

#[test]
fn get_config_builds_get_on_connect() {
    let api = ConnectConfigurations::new();
    let req = api.connect_get_config("A1");
    assert_eq!(req.method, Method::Get);
    assert_eq!(req.url, "/v2.1/accounts/A1/connect");
    assert!(req.body.is_none());
}

#[test]
fn put_configuration_builds_put_with_body() {
    let api = ConnectConfigurations::new();
    let cfg = sample_config();
    let req = api.connect_put_configuration("A1", &cfg);
    assert_eq!(req.method, Method::Put);
    assert_eq!(req.url, "/v2.1/accounts/A1/connect");
    assert_eq!(req.body.as_deref(), Some(cfg.to_json().as_str()));
}

#[test]
fn post_configuration_builds_post_with_body_and_round_trips() {
    let api = ConnectConfigurations::new();
    let cfg = sample_config();
    let req = api.connect_post_configuration("A1", &cfg);
    assert_eq!(req.method, Method::Post);
    assert_eq!(req.url, "/v2.1/accounts/A1/connect");
    let body = req.body.expect("a POST carries a body");
    // The response body of a create echoes the record; decoding it yields
    // the configuration that was sent.
    let echoed = ConnectCustomConfiguration::from_json(&body).expect("the body decodes");
    assert_eq!(echoed, cfg);
}

#[test]
fn get_config_by_id_builds_single_resource_path() {
    let api = ConnectConfigurations::new();
    let req = api.connect_get_config_connect_configurations("A1", "C9");
    assert_eq!(req.method, Method::Get);
    assert_eq!(req.url, "/v2.1/accounts/A1/connect/C9");
    assert!(req.body.is_none());
}

#[test]
fn delete_config_builds_delete_without_body() {
    let api = ConnectConfigurations::new();
    let req = api.connect_delete_config("A1", "C9");
    assert_eq!(req.method, Method::Delete);
    assert_eq!(req.url, "/v2.1/accounts/A1/connect/C9");
    assert!(req.body.is_none());
}

#[test]
fn path_segments_are_percent_encoded() {
    let api = ConnectConfigurations::new();
    let req = api.connect_get_config_connect_configurations("a b/c", "x?y#z");
    assert_eq!(req.url, "/v2.1/accounts/a%20b%2Fc/connect/x%3Fy%23z");
}

#[test]
fn get_user_keeps_only_non_empty_filters_in_order() {
    let api = ConnectConfigurations::new();
    let req = api.connect_get_user("A1", "C9", "25", "", "", "10", "Active", "");
    assert_eq!(req.method, Method::Get);
    assert_eq!(
        req.url,
        "/v2.1/accounts/A1/connect/C9/users?count=25&start_position=10&status=Active"
    );
    assert!(req.body.is_none());
}

#[test]
fn get_user_with_all_filters_set_lists_them_in_the_enumerated_order() {
    let api = ConnectConfigurations::new();
    let req = api.connect_get_user("A1", "C9", "5", "a@b.c", "true", "0", "Closed", "jo");
    assert_eq!(
        req.url,
        "/v2.1/accounts/A1/connect/C9/users?count=5&email_substring=a%40b.c\
         &list_included_users=true&start_position=0&status=Closed&user_name_substring=jo"
    );
}

#[test]
fn get_user_with_no_filters_has_empty_query() {
    let api = ConnectConfigurations::new();
    let req = api.connect_get_user("A1", "C9", "", "", "", "", "", "");
    assert_eq!(req.url, "/v2.1/accounts/A1/connect/C9/users?");
}

#[test]
fn get_payment_builds_single_resource_path() {
    let api = Payments::new();
    let req = api.billing_get_payment("A1", "P1");
    assert_eq!(req.method, Method::Get);
    assert_eq!(req.url, "/v2.1/accounts/A1/billing_payments/P1");
    assert!(req.body.is_none());
}

#[test]
fn payment_list_with_both_dates_absent_has_empty_query() {
    let api = Payments::new();
    let req = api.billing_get_payment_list("A1", "", "");
    assert_eq!(req.method, Method::Get);
    assert_eq!(req.url, "/v2.1/accounts/A1/billing_payments?");
    assert!(req.body.is_none());
}

#[test]
fn payment_list_keeps_only_non_empty_dates() {
    let api = Payments::new();
    let both = api.billing_get_payment_list("A1", "2024-01-01", "2024-02-01");
    assert_eq!(
        both.url,
        "/v2.1/accounts/A1/billing_payments?from_date=2024-01-01&to_date=2024-02-01"
    );
    let only_to = api.billing_get_payment_list("A1", "", "2024-02-01");
    assert_eq!(only_to.url, "/v2.1/accounts/A1/billing_payments?to_date=2024-02-01");
}

#[test]
fn post_payment_builds_post_with_json_body() {
    let api = Payments::new();
    let body = docusign::BillingPaymentRequest { payment_amount: String::from("100.50") };
    let req = api.billing_post_payment("A1", &body);
    assert_eq!(req.method, Method::Post);
    assert_eq!(req.url, "/v2.1/accounts/A1/billing_payments");
    assert_eq!(req.body.as_deref(), Some("{\"paymentAmount\":\"100.50\"}"));
}

#[test]
fn queries_cross_check_with_serde_urlencoded() {
    // For values inside the unreserved set both encoders agree, so the query
    // this crate writes matches what the form encoder would have written.
    let api = Payments::new();
    let req = api.billing_get_payment_list("A1", "2024-01-01", "2024-02-01");
    let pairs = vec![
        (String::from("from_date"), String::from("2024-01-01")),
        (String::from("to_date"), String::from("2024-02-01")),
    ];
    let reference = serde_urlencoded::to_string(&pairs).unwrap();
    let query = req.url.split('?').nth(1).unwrap();
    assert_eq!(query, reference);
}
