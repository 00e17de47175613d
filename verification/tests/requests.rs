use gtm_okr::model::Credential;
use gtm_okr::requests::{request, Endpoint, Param};

fn credential() -> Credential {
    Credential { account_id: "acc-1".to_string(), api_token: "tok-1".to_string() }
}

fn param(name: &str, value: &str) -> Param {
    Param { name: name.to_string(), value: value.to_string() }
}

#[test]
fn teams_are_asked_for_without_a_query() {
    let r = request(Endpoint::Teams, &credential());
    assert_eq!(r.url, "https://app.us.gtmhub.com/api/v1/teams");
    assert!(r.query.is_empty());
}

#[test]
fn sessions_are_asked_for_by_start() {
    let r = request(Endpoint::Sessions, &credential());
    assert_eq!(r.url, "https://app.us.gtmhub.com/api/v1/sessions");
    assert_eq!(
        r.query,
        vec![
            param("fields", "id,accountId,end,parentId,start,status,title"),
            param("sort", "start")
        ]
    );
}

#[test]
fn goals_are_asked_for_with_their_key_results() {
    let r = request(Endpoint::Goals, &credential());
    assert_eq!(r.url, "https://app.us.gtmhub.com/api/v1/goals");
    assert_eq!(r.query.len(), 3);
    assert_eq!(r.query[0].name, "fields");
    assert_eq!(
        r.query[0].value,
        "accountId,sessionId,assignee,attainment,attainmentType,dateCreated,dateFrom,dateTo,description,fullAggregatedAttainment,id,metrics{id,confidence,name,attainment,description,actual,target},name,url"
    );
    assert_eq!(r.query[1], param("sort", "-dateTo,sessionId,assignee.name"));
    assert_eq!(r.query[2], param("filter", "{\"sessionId\": \"60e48512e442c8000146a86d\"}"));
}

#[test]
fn every_request_carries_the_account_and_the_token() {
    for endpoint in [Endpoint::Teams, Endpoint::Sessions, Endpoint::Goals] {
        let r = request(endpoint, &credential());
        assert_eq!(r.bearer_token, "tok-1");
        assert_eq!(r.headers.len(), 3);
        assert_eq!(r.headers[0].name, "User-Agent");
        assert_eq!(r.headers[1], param("Accept", "application/json"));
        assert_eq!(r.headers[2], param("gtmhub-accountId", "acc-1"));
    }
}
