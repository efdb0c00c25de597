//! The billing-payment operations: read payments on record for an account,
//! and post a payment against a past-due invoice.
//!
//! Each operation builds the one HTTP exchange to perform. Caller-supplied
//! identifiers are percent-encoded before they enter the URL path; the list
//! query keeps only the date filters whose value is non-empty. Whether a
//! posted payment is allowed is the server's decision, not checked here.

use vstd::prelude::*;
use vstd::string::StringExecFns;
use crate::percent::{encode_path, push_char};
use crate::request::{HttpRequest, Method};
use crate::types::{payment_request_json, BillingPaymentRequest};
use crate::urls::{
    encode_query, key_count, lemma_retained_key, lemma_retained_snoc, path_encoded, query_encoded,
    retained,
};

verus! {

/// The path of an account's billing-payment collection.
pub open spec fn payments_path(account: Seq<char>) -> Seq<char> {
    "/v2.1/accounts/"@ + path_encoded(account) + "/billing_payments"@
}

/// The path of one billing payment of an account.
pub open spec fn payment_id_path(account: Seq<char>, payment: Seq<char>) -> Seq<char> {
    payments_path(account) + seq!['/'] + path_encoded(payment)
}

/// The date filters of the payment-list query, named in their fixed order.
pub open spec fn payments_query_source(from_date: Seq<char>, to_date: Seq<char>) -> Seq<
    (Seq<char>, Seq<char>),
> {
    seq![("from_date"@, from_date), ("to_date"@, to_date)]
}

/// The URL of the payment-list query: the collection's path, `?`, and the
/// query built from the non-empty date filters.
pub open spec fn payments_list_url(
    account: Seq<char>,
    from_date: Seq<char>,
    to_date: Seq<char>,
) -> Seq<char> {
    payments_path(account) + seq!['?'] + query_encoded(
        retained(payments_query_source(from_date, to_date)),
    )
}

fn payments_url(account_id: &str) -> (r: String)
    ensures
        r@ == payments_path(account_id@),
{
    let mut url = String::from_str("/v2.1/accounts/");
    let e = encode_path(account_id);
    url.append(e.as_str());
    url.append("/billing_payments");
    proof {
        assert(url@ =~= payments_path(account_id@));
    }
    url
}

/// The billing-payment operations of the service.
pub struct Payments {}

impl Payments {
    /// A handle on the billing-payment operations. The transport that
    /// performs the exchanges lives with the caller.
    pub fn new() -> (r: Payments) {
        Payments {  }
    }

    /// List payments on record: `GET
    /// /v2.1/accounts/{accountId}/billing_payments?...`, no body. A date
    /// filter given as the empty string means "not set" and is omitted from
    /// the query entirely; with both dates absent the server answers for its
    /// default trailing window.
    pub fn billing_get_payment_list(
        &self,
        account_id: &str,
        from_date: &str,
        to_date: &str,
    ) -> (r: HttpRequest)
        ensures
            r.method == Method::Get,
            r.url@ == payments_list_url(account_id@, from_date@, to_date@),
            r.body is None,
    {
        let ghost src = payments_query_source(from_date@, to_date@);
        let mut query_args: Vec<(String, String)> = Vec::new();
        proof {
            assert(query_args.deep_view() =~= retained(src.take(0int)));
        }
        if !from_date.is_empty() {
            query_args.push((String::from_str("from_date"), from_date.to_owned()));
        }
        proof {
            assert(src.take(1int) =~= src.take(0int).push(src[0]));
            lemma_retained_snoc(src.take(0int), src[0]);
            assert(query_args.deep_view() =~= retained(src.take(1int)));
        }
        if !to_date.is_empty() {
            query_args.push((String::from_str("to_date"), to_date.to_owned()));
        }
        proof {
            assert(src.take(2int) =~= src.take(1int).push(src[1]));
            lemma_retained_snoc(src.take(1int), src[1]);
            assert(src.take(2int) =~= src);
            assert(query_args.deep_view() =~= retained(src));
        }
        let q = encode_query(&query_args);
        let mut url = payments_url(account_id);
        push_char(&mut url, '?');
        url.append(q.as_str());
        proof {
            assert(url@ =~= payments_list_url(account_id@, from_date@, to_date@));
        }
        HttpRequest { method: Method::Get, url, body: None }
    }

    /// Post a payment against a past-due invoice: `POST
    /// /v2.1/accounts/{accountId}/billing_payments` with the payment request
    /// as JSON body.
    pub fn billing_post_payment(
        &self,
        account_id: &str,
        body: &BillingPaymentRequest,
    ) -> (r: HttpRequest)
        ensures
            r.method == Method::Post,
            r.url@ == payments_path(account_id@),
            r.body matches Some(b) && b@ == payment_request_json(body.payment_amount@),
    {
        HttpRequest {
            method: Method::Post,
            url: payments_url(account_id),
            body: Some(body.to_json()),
        }
    }

    /// Get one payment on record: `GET
    /// /v2.1/accounts/{accountId}/billing_payments/{paymentId}`, no body.
    pub fn billing_get_payment(&self, account_id: &str, payment_id: &str) -> (r: HttpRequest)
        ensures
            r.method == Method::Get,
            r.url@ == payment_id_path(account_id@, payment_id@),
            r.body is None,
    {
        let mut url = payments_url(account_id);
        push_char(&mut url, '/');
        let e = encode_path(payment_id);
        url.append(e.as_str());
        proof {
            assert(url@ =~= payment_id_path(account_id@, payment_id@));
        }
        HttpRequest { method: Method::Get, url, body: None }
    }
}

/// A date filter of the payment-list query given as the empty string is
/// omitted from the query entirely; a non-empty date appears as exactly one
/// pair, carrying exactly that value.
pub proof fn lemma_payment_filters(from_date: Seq<char>, to_date: Seq<char>)
    ensures
        ({
            let r = retained(payments_query_source(from_date, to_date));
            &&& key_count(r, "from_date"@) == if from_date.len() == 0 {
                0int
            } else {
                1int
            }
            &&& key_count(r, "to_date"@) == if to_date.len() == 0 {
                0int
            } else {
                1int
            }
            &&& forall|i: int|
                0 <= i < r.len() && (#[trigger] r[i]).0 == "from_date"@ ==> r[i] == (
                "from_date"@,
                from_date,
            )
            &&& forall|i: int|
                0 <= i < r.len() && (#[trigger] r[i]).0 == "to_date"@ ==> r[i] == (
                "to_date"@,
                to_date,
            )
        }),
{
    reveal_strlit("from_date");
    reveal_strlit("to_date");
    assert(("from_date"@).len() == 9);
    assert(("to_date"@).len() == 7);
    let src = payments_query_source(from_date, to_date);
    assert(src[0].0 == "from_date"@ && src[1].0 == "to_date"@);
    lemma_retained_key(src, 0, "from_date"@);
    lemma_retained_key(src, 1, "to_date"@);
}

} // verus!
