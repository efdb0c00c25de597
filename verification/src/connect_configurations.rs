//! The Connect-configuration operations: CRUD-style access to the Connect
//! webhook configurations of one account, and a read-only query of the users
//! visible to the Connect service.
//!
//! Each operation builds the one HTTP exchange to perform. Caller-supplied
//! identifiers are percent-encoded before they enter the URL path; the user
//! query keeps only the filters whose value is non-empty.

use vstd::prelude::*;
use vstd::string::StringExecFns;
use crate::percent::{encode_path, push_char};
use crate::request::{HttpRequest, Method};
use crate::types::{config_json, ConnectCustomConfiguration};
use crate::urls::{
    encode_query, key_count, lemma_retained_key, lemma_retained_snoc, path_encoded, query_encoded,
    retained,
};

verus! {

/// The path of an account's Connect configuration collection.
pub open spec fn connect_path(account: Seq<char>) -> Seq<char> {
    "/v2.1/accounts/"@ + path_encoded(account) + "/connect"@
}

/// The path of one Connect configuration of an account.
pub open spec fn connect_id_path(account: Seq<char>, connect: Seq<char>) -> Seq<char> {
    connect_path(account) + seq!['/'] + path_encoded(connect)
}

/// The filters of the Connect-users query, named in their fixed order.
pub open spec fn user_query_source(
    count: Seq<char>,
    email_substring: Seq<char>,
    list_included_users: Seq<char>,
    start_position: Seq<char>,
    status: Seq<char>,
    user_name_substring: Seq<char>,
) -> Seq<(Seq<char>, Seq<char>)> {
    seq![
        ("count"@, count),
        ("email_substring"@, email_substring),
        ("list_included_users"@, list_included_users),
        ("start_position"@, start_position),
        ("status"@, status),
        ("user_name_substring"@, user_name_substring),
    ]
}

/// The URL of the Connect-users query: the configuration's path, `/users?`,
/// and the query built from the non-empty filters.
pub open spec fn connect_users_url(
    account: Seq<char>,
    connect: Seq<char>,
    count: Seq<char>,
    email_substring: Seq<char>,
    list_included_users: Seq<char>,
    start_position: Seq<char>,
    status: Seq<char>,
    user_name_substring: Seq<char>,
) -> Seq<char> {
    connect_id_path(account, connect) + "/users?"@ + query_encoded(
        retained(
            user_query_source(
                count,
                email_substring,
                list_included_users,
                start_position,
                status,
                user_name_substring,
            ),
        ),
    )
}

fn connect_url(account_id: &str) -> (r: String)
    ensures
        r@ == connect_path(account_id@),
{
    let mut url = String::from_str("/v2.1/accounts/");
    let e = encode_path(account_id);
    url.append(e.as_str());
    url.append("/connect");
    proof {
        assert(url@ =~= connect_path(account_id@));
    }
    url
}

fn connect_id_url(account_id: &str, connect_id: &str) -> (r: String)
    ensures
        r@ == connect_id_path(account_id@, connect_id@),
{
    let mut url = connect_url(account_id);
    push_char(&mut url, '/');
    let e = encode_path(connect_id);
    url.append(e.as_str());
    proof {
        assert(url@ =~= connect_id_path(account_id@, connect_id@));
    }
    url
}

/// The Connect-configuration operations of the service.
pub struct ConnectConfigurations {}

impl ConnectConfigurations {
    /// A handle on the Connect-configuration operations. The transport that
    /// performs the exchanges lives with the caller.
    pub fn new() -> (r: ConnectConfigurations) {
        ConnectConfigurations {  }
    }

    /// Get Connect configuration information: `GET
    /// /v2.1/accounts/{accountId}/connect`, no body.
    pub fn connect_get_config(&self, account_id: &str) -> (r: HttpRequest)
        ensures
            r.method == Method::Get,
            r.url@ == connect_path(account_id@),
            r.body is None,
    {
        HttpRequest { method: Method::Get, url: connect_url(account_id), body: None }
    }

    /// Update a Connect configuration: `PUT
    /// /v2.1/accounts/{accountId}/connect` with the configuration as JSON
    /// body.
    pub fn connect_put_configuration(
        &self,
        account_id: &str,
        body: &ConnectCustomConfiguration,
    ) -> (r: HttpRequest)
        ensures
            r.method == Method::Put,
            r.url@ == connect_path(account_id@),
            r.body matches Some(b) && b@ == config_json(body@),
    {
        HttpRequest {
            method: Method::Put,
            url: connect_url(account_id),
            body: Some(body.to_json()),
        }
    }

    /// Create a Connect configuration: `POST
    /// /v2.1/accounts/{accountId}/connect` with the configuration as JSON
    /// body.
    pub fn connect_post_configuration(
        &self,
        account_id: &str,
        body: &ConnectCustomConfiguration,
    ) -> (r: HttpRequest)
        ensures
            r.method == Method::Post,
            r.url@ == connect_path(account_id@),
            r.body matches Some(b) && b@ == config_json(body@),
    {
        HttpRequest {
            method: Method::Post,
            url: connect_url(account_id),
            body: Some(body.to_json()),
        }
    }

    /// Get one Connect configuration: `GET
    /// /v2.1/accounts/{accountId}/connect/{connectId}`, no body.
    pub fn connect_get_config_connect_configurations(
        &self,
        account_id: &str,
        connect_id: &str,
    ) -> (r: HttpRequest)
        ensures
            r.method == Method::Get,
            r.url@ == connect_id_path(account_id@, connect_id@),
            r.body is None,
    {
        HttpRequest {
            method: Method::Get,
            url: connect_id_url(account_id, connect_id),
            body: None,
        }
    }

    /// Delete one Connect configuration: `DELETE
    /// /v2.1/accounts/{accountId}/connect/{connectId}`, no body. On success
    /// the exchange carries no payload back; any other status becomes a
    /// status error under [`crate::interpret_status`].
    pub fn connect_delete_config(&self, account_id: &str, connect_id: &str) -> (r: HttpRequest)
        ensures
            r.method == Method::Delete,
            r.url@ == connect_id_path(account_id@, connect_id@),
            r.body is None,
    {
        HttpRequest {
            method: Method::Delete,
            url: connect_id_url(account_id, connect_id),
            body: None,
        }
    }

    /// Query the users visible to the configured Connect service: `GET
    /// /v2.1/accounts/{accountId}/connect/{connectId}/users?...`, no body.
    /// A filter given as the empty string means "not set" and is omitted
    /// from the query entirely.
    pub fn connect_get_user(
        &self,
        account_id: &str,
        connect_id: &str,
        count: &str,
        email_substring: &str,
        list_included_users: &str,
        start_position: &str,
        status: &str,
        user_name_substring: &str,
    ) -> (r: HttpRequest)
        ensures
            r.method == Method::Get,
            r.url@ == connect_users_url(
                account_id@,
                connect_id@,
                count@,
                email_substring@,
                list_included_users@,
                start_position@,
                status@,
                user_name_substring@,
            ),
            r.body is None,
    {
        let ghost src = user_query_source(
            count@,
            email_substring@,
            list_included_users@,
            start_position@,
            status@,
            user_name_substring@,
        );
        let mut query_args: Vec<(String, String)> = Vec::new();
        proof {
            assert(query_args.deep_view() =~= retained(src.take(0int)));
        }
        if !count.is_empty() {
            query_args.push((String::from_str("count"), count.to_owned()));
        }
        proof {
            assert(src.take(1int) =~= src.take(0int).push(src[0]));
            lemma_retained_snoc(src.take(0int), src[0]);
            assert(query_args.deep_view() =~= retained(src.take(1int)));
        }
        if !email_substring.is_empty() {
            query_args.push((String::from_str("email_substring"), email_substring.to_owned()));
        }
        proof {
            assert(src.take(2int) =~= src.take(1int).push(src[1]));
            lemma_retained_snoc(src.take(1int), src[1]);
            assert(query_args.deep_view() =~= retained(src.take(2int)));
        }
        if !list_included_users.is_empty() {
            query_args.push(
                (String::from_str("list_included_users"), list_included_users.to_owned()),
            );
        }
        proof {
            assert(src.take(3int) =~= src.take(2int).push(src[2]));
            lemma_retained_snoc(src.take(2int), src[2]);
            assert(query_args.deep_view() =~= retained(src.take(3int)));
        }
        if !start_position.is_empty() {
            query_args.push((String::from_str("start_position"), start_position.to_owned()));
        }
        proof {
            assert(src.take(4int) =~= src.take(3int).push(src[3]));
            lemma_retained_snoc(src.take(3int), src[3]);
            assert(query_args.deep_view() =~= retained(src.take(4int)));
        }
        if !status.is_empty() {
            query_args.push((String::from_str("status"), status.to_owned()));
        }
        proof {
            assert(src.take(5int) =~= src.take(4int).push(src[4]));
            lemma_retained_snoc(src.take(4int), src[4]);
            assert(query_args.deep_view() =~= retained(src.take(5int)));
        }
        if !user_name_substring.is_empty() {
            query_args.push(
                (String::from_str("user_name_substring"), user_name_substring.to_owned()),
            );
        }
        proof {
            assert(src.take(6int) =~= src.take(5int).push(src[5]));
            lemma_retained_snoc(src.take(5int), src[5]);
            assert(src.take(6int) =~= src);
            assert(query_args.deep_view() =~= retained(src));
        }
        let q = encode_query(&query_args);
        let mut url = connect_id_url(account_id, connect_id);
        url.append("/users?");
        url.append(q.as_str());
        proof {
            assert(url@ =~= connect_users_url(
                account_id@,
                connect_id@,
                count@,
                email_substring@,
                list_included_users@,
                start_position@,
                status@,
                user_name_substring@,
            ));
        }
        HttpRequest { method: Method::Get, url, body: None }
    }
}

/// A filter of the Connect-users query given as the empty string is omitted
/// from the query entirely; a non-empty filter appears as exactly one pair,
/// carrying exactly that value.
pub proof fn lemma_user_filters(
    count: Seq<char>,
    email_substring: Seq<char>,
    list_included_users: Seq<char>,
    start_position: Seq<char>,
    status: Seq<char>,
    user_name_substring: Seq<char>,
)
    ensures
        ({
            let r = retained(
                user_query_source(
                    count,
                    email_substring,
                    list_included_users,
                    start_position,
                    status,
                    user_name_substring,
                ),
            );
            &&& key_count(r, "count"@) == if count.len() == 0 {
                0int
            } else {
                1int
            }
            &&& key_count(r, "email_substring"@) == if email_substring.len() == 0 {
                0int
            } else {
                1int
            }
            &&& key_count(r, "list_included_users"@) == if list_included_users.len() == 0 {
                0int
            } else {
                1int
            }
            &&& key_count(r, "start_position"@) == if start_position.len() == 0 {
                0int
            } else {
                1int
            }
            &&& key_count(r, "status"@) == if status.len() == 0 {
                0int
            } else {
                1int
            }
            &&& key_count(r, "user_name_substring"@) == if user_name_substring.len() == 0 {
                0int
            } else {
                1int
            }
            &&& forall|i: int|
                0 <= i < r.len() && (#[trigger] r[i]).0 == "count"@ ==> r[i] == ("count"@, count)
            &&& forall|i: int|
                0 <= i < r.len() && (#[trigger] r[i]).0 == "email_substring"@ ==> r[i] == (
                "email_substring"@,
                email_substring,
            )
            &&& forall|i: int|
                0 <= i < r.len() && (#[trigger] r[i]).0 == "list_included_users"@ ==> r[i] == (
                "list_included_users"@,
                list_included_users,
            )
            &&& forall|i: int|
                0 <= i < r.len() && (#[trigger] r[i]).0 == "start_position"@ ==> r[i] == (
                "start_position"@,
                start_position,
            )
            &&& forall|i: int|
                0 <= i < r.len() && (#[trigger] r[i]).0 == "status"@ ==> r[i] == (
                "status"@,
                status,
            )
            &&& forall|i: int|
                0 <= i < r.len() && (#[trigger] r[i]).0 == "user_name_substring"@ ==> r[i] == (
                "user_name_substring"@,
                user_name_substring,
            )
        }),
{
    reveal_strlit("count");
    reveal_strlit("email_substring");
    reveal_strlit("list_included_users");
    reveal_strlit("start_position");
    reveal_strlit("status");
    reveal_strlit("user_name_substring");
    assert(("count"@).len() == 5);
    assert(("email_substring"@).len() == 15);
    assert(("list_included_users"@).len() == 19);
    assert(("start_position"@).len() == 14);
    assert(("status"@).len() == 6);
    assert(("user_name_substring"@).len() == 19);
    assert(("list_included_users"@)[0] == 'l' && ("user_name_substring"@)[0] == 'u');
    assert("list_included_users"@ != "user_name_substring"@);
    let src = user_query_source(
        count,
        email_substring,
        list_included_users,
        start_position,
        status,
        user_name_substring,
    );
    assert(src[0].0 == "count"@ && src[1].0 == "email_substring"@ && src[2].0
        == "list_included_users"@ && src[3].0 == "start_position"@ && src[4].0 == "status"@
        && src[5].0 == "user_name_substring"@);
    lemma_retained_key(src, 0, "count"@);
    lemma_retained_key(src, 1, "email_substring"@);
    lemma_retained_key(src, 2, "list_included_users"@);
    lemma_retained_key(src, 3, "start_position"@);
    lemma_retained_key(src, 4, "status"@);
    lemma_retained_key(src, 5, "user_name_substring"@);
}

} // verus!
