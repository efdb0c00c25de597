//! The payload records the operations exchange with the service.
//!
//! Every record is flat and every member is a string, mirroring the wire
//! format, where numbers and flags also travel as strings. The records that
//! serve as request bodies carry their own JSON writer, and the Connect
//! configuration also a reader, so that a record written out can be read
//! back unchanged.

use vstd::prelude::*;
use vstd::string::StringExecFns;
use crate::json::{json_of_pairs, parse_record, record_json, record_of, str_eq};

verus! {

/// The member names of a Connect configuration's JSON object, by position.
pub open spec fn config_keys(i: int) -> Seq<char> {
    if i == 0 {
        "connectId"@
    } else if i == 1 {
        "name"@
    } else if i == 2 {
        "urlToPublishTo"@
    } else if i == 3 {
        "allowEnvelopePublish"@
    } else if i == 4 {
        "enableLog"@
    } else {
        "allUsers"@
    }
}

/// One Connect configuration: a webhook-style subscription that pushes
/// envelope events to an external URL.
#[derive(Clone, Debug, PartialEq)]
pub struct ConnectCustomConfiguration {
    pub connect_id: String,
    pub name: String,
    pub url_to_publish_to: String,
    pub allow_envelope_publish: String,
    pub enable_log: String,
    pub all_users: String,
}

/// The mathematical content of a Connect configuration.
pub struct ConnectCustomConfigurationView {
    pub connect_id: Seq<char>,
    pub name: Seq<char>,
    pub url_to_publish_to: Seq<char>,
    pub allow_envelope_publish: Seq<char>,
    pub enable_log: Seq<char>,
    pub all_users: Seq<char>,
}

impl View for ConnectCustomConfiguration {
    type V = ConnectCustomConfigurationView;

    open spec fn view(&self) -> ConnectCustomConfigurationView {
        ConnectCustomConfigurationView {
            connect_id: self.connect_id@,
            name: self.name@,
            url_to_publish_to: self.url_to_publish_to@,
            allow_envelope_publish: self.allow_envelope_publish@,
            enable_log: self.enable_log@,
            all_users: self.all_users@,
        }
    }
}

/// The members of a Connect configuration's JSON object, in the order they
/// are written.
pub open spec fn config_pairs(v: ConnectCustomConfigurationView) -> Seq<(Seq<char>, Seq<char>)> {
    seq![
        (config_keys(0), v.connect_id),
        (config_keys(1), v.name),
        (config_keys(2), v.url_to_publish_to),
        (config_keys(3), v.allow_envelope_publish),
        (config_keys(4), v.enable_log),
        (config_keys(5), v.all_users),
    ]
}

/// The JSON text written for a Connect configuration.
pub open spec fn config_json(v: ConnectCustomConfigurationView) -> Seq<char> {
    record_json(config_pairs(v))
}

/// The Connect configuration a piece of JSON text holds, when it is exactly
/// in the shape this crate writes.
pub open spec fn config_of_json(cs: Seq<char>) -> Option<ConnectCustomConfigurationView> {
    match record_of(cs) {
        Some(ps) => if ps.len() == 6 && ps[0].0 == config_keys(0) && ps[1].0 == config_keys(1)
            && ps[2].0 == config_keys(2) && ps[3].0 == config_keys(3) && ps[4].0 == config_keys(4)
            && ps[5].0 == config_keys(5) {
            Some(
                ConnectCustomConfigurationView {
                    connect_id: ps[0].1,
                    name: ps[1].1,
                    url_to_publish_to: ps[2].1,
                    allow_envelope_publish: ps[3].1,
                    enable_log: ps[4].1,
                    all_users: ps[5].1,
                },
            )
        } else {
            None
        },
        None => None,
    }
}

impl ConnectCustomConfiguration {
    /// Write this configuration as its JSON request body.
    pub fn to_json(&self) -> (r: String)
        ensures
            r@ == config_json(self@),
    {
        let mut pairs: Vec<(String, String)> = Vec::new();
        pairs.push((String::from_str("connectId"), self.connect_id.clone()));
        pairs.push((String::from_str("name"), self.name.clone()));
        pairs.push((String::from_str("urlToPublishTo"), self.url_to_publish_to.clone()));
        pairs.push((String::from_str("allowEnvelopePublish"), self.allow_envelope_publish.clone()));
        pairs.push((String::from_str("enableLog"), self.enable_log.clone()));
        pairs.push((String::from_str("allUsers"), self.all_users.clone()));
        proof {
            assert(pairs.deep_view() =~= config_pairs(self@));
        }
        json_of_pairs(&pairs)
    }

    /// Read a configuration back from JSON text in the shape `to_json`
    /// writes.
    pub fn from_json(s: &str) -> (r: Option<ConnectCustomConfiguration>)
        ensures
            (match r {
                Option::Some(c) => config_of_json(s@) == Some(c@),
                Option::None => config_of_json(s@) is None,
            }),
    {
        let parsed = parse_record(s);
        if parsed.is_none() {
            return None;
        }
        let ps = parsed.unwrap();
        if ps.len() != 6 {
            return None;
        }
        if !(str_eq(ps[0].0.as_str(), "connectId") && str_eq(ps[1].0.as_str(), "name") && str_eq(
            ps[2].0.as_str(),
            "urlToPublishTo",
        ) && str_eq(ps[3].0.as_str(), "allowEnvelopePublish") && str_eq(
            ps[4].0.as_str(),
            "enableLog",
        ) && str_eq(ps[5].0.as_str(), "allUsers")) {
            return None;
        }
        let c = ConnectCustomConfiguration {
            connect_id: ps[0].1.clone(),
            name: ps[1].1.clone(),
            url_to_publish_to: ps[2].1.clone(),
            allow_envelope_publish: ps[3].1.clone(),
            enable_log: ps[4].1.clone(),
            all_users: ps[5].1.clone(),
        };
        proof {
            let dv = ps.deep_view();
            assert(dv.len() == 6);
            assert(dv[0] == (ps@[0].0@, ps@[0].1@));
            assert(dv[1] == (ps@[1].0@, ps@[1].1@));
            assert(dv[2] == (ps@[2].0@, ps@[2].1@));
            assert(dv[3] == (ps@[3].0@, ps@[3].1@));
            assert(dv[4] == (ps@[4].0@, ps@[4].1@));
            assert(dv[5] == (ps@[5].0@, ps@[5].1@));
        }
        Some(c)
    }
}

/// Writing a Connect configuration as JSON and reading it back yields the
/// same record: the codec round-trips.
pub proof fn lemma_config_json_roundtrip(v: ConnectCustomConfigurationView)
    ensures
        config_of_json(config_json(v)) == Some(v),
{
    crate::json::lemma_record_roundtrip(config_pairs(v));
    let ps = config_pairs(v);
    assert(config_of_json(config_json(v)) == Some(
        ConnectCustomConfigurationView {
            connect_id: ps[0].1,
            name: ps[1].1,
            url_to_publish_to: ps[2].1,
            allow_envelope_publish: ps[3].1,
            enable_log: ps[4].1,
            all_users: ps[5].1,
        },
    ));
}

/// The result of listing Connect configurations.
#[derive(Clone, Debug, PartialEq)]
pub struct ConnectConfigResults {
    pub configurations: Vec<ConnectCustomConfiguration>,
    pub total_records: String,
}

/// One user record visible to the Connect service.
#[derive(Clone, Debug, PartialEq)]
pub struct IntegratedUserInfo {
    pub user_id: String,
    pub user_name: String,
    pub email: String,
}

/// The paginated list of users returned by the Connect-users query.
#[derive(Clone, Debug, PartialEq)]
pub struct IntegratedUserInfoList {
    pub result_set_size: String,
    pub total_set_size: String,
    pub users: Vec<IntegratedUserInfo>,
}

/// One billing payment on record.
#[derive(Clone, Debug, PartialEq)]
pub struct BillingPaymentItem {
    pub amount: String,
    pub payment_date: String,
    pub payment_id: String,
    pub payment_number: String,
}

/// The result of listing billing payments.
#[derive(Clone, Debug, PartialEq)]
pub struct BillingPaymentsResponse {
    pub billing_payments: Vec<BillingPaymentItem>,
    pub next_uri: String,
    pub previous_uri: String,
}

/// A payment to post against a past-due invoice.
#[derive(Clone, Debug, PartialEq)]
pub struct BillingPaymentRequest {
    pub payment_amount: String,
}

/// The members of a payment request's JSON object.
pub open spec fn payment_request_pairs(amount: Seq<char>) -> Seq<(Seq<char>, Seq<char>)> {
    seq![("paymentAmount"@, amount)]
}

/// The JSON text written for a payment request.
pub open spec fn payment_request_json(amount: Seq<char>) -> Seq<char> {
    record_json(payment_request_pairs(amount))
}

impl BillingPaymentRequest {
    /// Write this payment request as its JSON request body.
    pub fn to_json(&self) -> (r: String)
        ensures
            r@ == payment_request_json(self.payment_amount@),
    {
        let mut pairs: Vec<(String, String)> = Vec::new();
        pairs.push((String::from_str("paymentAmount"), self.payment_amount.clone()));
        proof {
            assert(pairs.deep_view() =~= payment_request_pairs(self.payment_amount@));
        }
        json_of_pairs(&pairs)
    }
}

/// The acknowledgement returned for a posted payment.
#[derive(Clone, Debug, PartialEq)]
pub struct BillingPaymentResponse {
    pub billing_payments: Vec<BillingPaymentItem>,
}

} // verus!
