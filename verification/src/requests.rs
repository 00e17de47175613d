//! The three requests that the platform is asked with, as plain values: where
//! each goes, its headers and its query.

use vstd::prelude::*;
use vstd::string::StringExecFns;
use crate::model::Credential;

verus! {

/// What is asked for.
#[derive(Debug, Clone, Copy, PartialEq, Eq)]
pub enum Endpoint {
    Teams,
    Sessions,
    Goals,
}

/// A name and its value: a header, or a parameter of the query.
#[derive(Debug, PartialEq, Eq)]
pub struct Param {
    pub name: String,
    pub value: String,
}

/// A request: a `GET` of `url` with `headers` and `query`, authorised by
/// `bearer_token`.
#[derive(Debug)]
pub struct Request {
    pub url: String,
    pub headers: Vec<Param>,
    pub bearer_token: String,
    pub query: Vec<Param>,
}

/// Names and values as texts.
pub open spec fn params_view(params: Seq<Param>) -> Seq<(Seq<char>, Seq<char>)> {
    Seq::new(params.len(), |i: int| (params[i].name@, params[i].value@))
}

/// The path of an endpoint below the platform's address.
pub open spec fn path_of(endpoint: Endpoint) -> Seq<char> {
    match endpoint {
        Endpoint::Teams => "/teams"@,
        Endpoint::Sessions => "/sessions"@,
        Endpoint::Goals => "/goals"@,
    }
}

/// The address of an endpoint.
pub open spec fn url_of(endpoint: Endpoint) -> Seq<char> {
    "https://app.us.gtmhub.com/api/v1"@ + path_of(endpoint)
}

/// The headers of every request: the client's name, the form of the answer,
/// and the account.
pub open spec fn headers_for(account_id: Seq<char>) -> Seq<(Seq<char>, Seq<char>)> {
    seq![
        (
            "User-Agent"@,
            "User-Agent: Mozilla/5.0 (Macintosh; Intel Mac OS X 10_13_6) AppleWebKit/605.1.15 (KHTML, like Gecko) Version/11.1.2 Safari/605.1.15"@,
        ),
        ("Accept"@, "application/json"@),
        ("gtmhub-accountId"@, account_id),
    ]
}

/// The query of an endpoint: the fields asked for, and the order in which
/// the platform is to send the records. Teams are asked for without a query.
/// Goals are asked for with a filter, which the platform is known not to
/// honour: nothing here relies on it.
pub open spec fn query_of(endpoint: Endpoint) -> Seq<(Seq<char>, Seq<char>)> {
    match endpoint {
        Endpoint::Teams => Seq::empty(),
        Endpoint::Sessions => seq![
            ("fields"@, "id,accountId,end,parentId,start,status,title"@),
            ("sort"@, "start"@),
        ],
        Endpoint::Goals => seq![
            (
                "fields"@,
                "accountId,sessionId,assignee,attainment,attainmentType,dateCreated,dateFrom,dateTo,description,fullAggregatedAttainment,id,metrics{id,confidence,name,attainment,description,actual,target},name,url"@,
            ),
            ("sort"@, "-dateTo,sessionId,assignee.name"@),
            ("filter"@, "{\"sessionId\": \"60e48512e442c8000146a86d\"}"@),
        ],
    }
}

fn param(name: &str, value: &str) -> (r: Param)
    ensures
        r.name@ == name@,
        r.value@ == value@,
{
    Param { name: name.to_owned(), value: value.to_owned() }
}

/// The request for `endpoint` on behalf of `credential`.
pub fn request(endpoint: Endpoint, credential: &Credential) -> (r: Request)
    ensures
        r.url@ == url_of(endpoint),
        params_view(r.headers@) == headers_for(credential.account_id@),
        r.bearer_token@ == credential.api_token@,
        params_view(r.query@) == query_of(endpoint),
{
    let mut url = String::from_str("https://app.us.gtmhub.com/api/v1");
    let mut query: Vec<Param> = Vec::new();
    match endpoint {
        Endpoint::Teams => {
            url.append("/teams");
        },
        Endpoint::Sessions => {
            url.append("/sessions");
            query.push(param("fields", "id,accountId,end,parentId,start,status,title"));
            query.push(param("sort", "start"));
        },
        Endpoint::Goals => {
            url.append("/goals");
            query.push(
                param(
                    "fields",
                    "accountId,sessionId,assignee,attainment,attainmentType,dateCreated,dateFrom,dateTo,description,fullAggregatedAttainment,id,metrics{id,confidence,name,attainment,description,actual,target},name,url",
                ),
            );
            query.push(param("sort", "-dateTo,sessionId,assignee.name"));
            query.push(param("filter", "{\"sessionId\": \"60e48512e442c8000146a86d\"}"));
        },
    }
    let mut headers: Vec<Param> = Vec::new();
    headers.push(
        param(
            "User-Agent",
            "User-Agent: Mozilla/5.0 (Macintosh; Intel Mac OS X 10_13_6) AppleWebKit/605.1.15 (KHTML, like Gecko) Version/11.1.2 Safari/605.1.15",
        ),
    );
    headers.push(param("Accept", "application/json"));
    headers.push(param("gtmhub-accountId", credential.account_id.as_str()));
    assert(params_view(headers@) =~= headers_for(credential.account_id@));
    assert(params_view(query@) =~= query_of(endpoint));
    Request { url, headers, bearer_token: credential.api_token.clone(), query }
}

} // verus!
