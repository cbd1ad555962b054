//! What the sign-in and the pull-request query send: the form fields of the
//! two sign-in endpoints and the headers and body of the query.
use vstd::prelude::*;
use vstd::string::StringExecFns;
use crate::errors::AuthError;

verus! {

pub open spec fn client_id() -> Seq<char> {
    "Ov23liUkXjGnMzhLzpLr"@
}

pub open spec fn requested_scope() -> Seq<char> {
    "repo read:user"@
}

pub open spec fn device_grant_type() -> Seq<char> {
    "urn:ietf:params:oauth:grant-type:device_code"@
}

pub open spec fn user_agent() -> Seq<char> {
    "Prism-App"@
}

/// The form of the device-code request: the client identifier and the scopes.
pub fn device_code_form() -> (r: Vec<(String, String)>)
    ensures
        r@.len() == 2,
        r@[0].0@ == "client_id"@ && r@[0].1@ == client_id(),
        r@[1].0@ == "scope"@ && r@[1].1@ == requested_scope(),
{
    let mut r: Vec<(String, String)> = Vec::new();
    r.push(("client_id".to_owned(), "Ov23liUkXjGnMzhLzpLr".to_owned()));
    r.push(("scope".to_owned(), "repo read:user".to_owned()));
    r
}

/// The form of one probe of the token endpoint: the client identifier, the
/// device code and the device grant; the user code is never sent.
pub fn token_form(device_code: &str) -> (r: Vec<(String, String)>)
    ensures
        r@.len() == 3,
        r@[0].0@ == "client_id"@ && r@[0].1@ == client_id(),
        r@[1].0@ == "device_code"@ && r@[1].1@ == device_code@,
        r@[2].0@ == "grant_type"@ && r@[2].1@ == device_grant_type(),
{
    let mut r: Vec<(String, String)> = Vec::new();
    r.push(("client_id".to_owned(), "Ov23liUkXjGnMzhLzpLr".to_owned()));
    r.push(("device_code".to_owned(), device_code.to_owned()));
    r.push(("grant_type".to_owned(), "urn:ietf:params:oauth:grant-type:device_code".to_owned()));
    r
}

/// The value of the query's Authorization header.
pub fn bearer_header(token: &str) -> (r: String)
    ensures
        r@ == "Bearer "@ + token@,
{
    "Bearer ".to_owned().concat(token)
}

/// The JSON string literal that encodes `s`.
pub uninterp spec fn json_string_of(s: Seq<char>) -> Seq<char>;

/// Relies on serde_json::to_string on a string slice: the JSON string
/// literal that encodes it, which depends on its characters alone. A string
/// slice is written with `serialize_str` into a `Vec`, which cannot fail.
#[verifier::external_body]
fn encode_json_string(s: &str) -> (r: Option<String>)
    ensures
        r is Some,
        r matches Some(j) ==> j@ == json_string_of(s@),
{
    serde_json::to_string(s).ok()
}

pub open spec fn query_body_of(encoded: Seq<char>) -> Seq<char> {
    "{\"query\":"@ + encoded + "}"@
}

/// The body of the query request around an already encoded query text.
pub fn query_body_from_encoded(encoded: &str) -> (r: String)
    ensures
        r@ == query_body_of(encoded@),
{
    "{\"query\":".to_owned().concat(encoded).concat("}")
}

/// The body of the query request: a JSON object whose one member `query`
/// holds the query text.
pub fn query_body(query: &str) -> (r: String)
    ensures
        r@ == query_body_of(json_string_of(query@)),
{
    let encoded = encode_json_string(query).unwrap();
    query_body_from_encoded(encoded.as_str())
}

/// The query text: the user's open pull requests with their review state,
/// and the open pull requests that ask for the user's review.
pub open spec fn pull_request_query_text() -> Seq<char> {
    r#"
    query {
      viewer {
        login
        pullRequests(first: 50, states: [OPEN], orderBy: {field: UPDATED_AT, direction: DESC}) {
          nodes {
            number
            title
            url
            isDraft
            repository {
              nameWithOwner
            }
            author {
              login
              avatarUrl
            }
            reviewRequests(first: 10) {
              totalCount
            }
            reviews(first: 10, states: [APPROVED, CHANGES_REQUESTED]) {
              nodes {
                state
              }
            }
          }
        }
      }
      search(query: "is:pr is:open review-requested:@me", type: ISSUE, first: 50) {
        nodes {
          ... on PullRequest {
            number
            title
            url
            isDraft
            repository {
              nameWithOwner
            }
            author {
              login
              avatarUrl
            }
          }
        }
      }
    }
    "#@
}

/// The query text, both result sets in one request.
pub fn pull_request_query() -> (r: &'static str)
    ensures
        r@ == pull_request_query_text(),
{
    r#"
    query {
      viewer {
        login
        pullRequests(first: 50, states: [OPEN], orderBy: {field: UPDATED_AT, direction: DESC}) {
          nodes {
            number
            title
            url
            isDraft
            repository {
              nameWithOwner
            }
            author {
              login
              avatarUrl
            }
            reviewRequests(first: 10) {
              totalCount
            }
            reviews(first: 10, states: [APPROVED, CHANGES_REQUESTED]) {
              nodes {
                state
              }
            }
          }
        }
      }
      search(query: "is:pr is:open review-requested:@me", type: ISSUE, first: 50) {
        nodes {
          ... on PullRequest {
            number
            title
            url
            isDraft
            repository {
              nameWithOwner
            }
            author {
              login
              avatarUrl
            }
          }
        }
      }
    }
    "#
}

/// The headers and body of one query request.
#[derive(Debug)]
pub struct QueryRequest {
    pub authorization: String,
    pub user_agent: String,
    pub body: String,
}

/// The query request for the stored credential: without one the fetch
/// fails before any request is made; with one it is the bearer request for
/// both result sets.
pub fn query_request(token: Option<&str>) -> (r: Result<QueryRequest, AuthError>)
    ensures
        token is None ==> r matches Err(AuthError::NotAuthenticated),
        token is Some ==> r is Ok,
        r matches Ok(q) ==> q.authorization@ == "Bearer "@ + token->Some_0@ && q.user_agent@
            == user_agent() && q.body@ == query_body_of(json_string_of(pull_request_query_text())),
{
    match token {
        None => Err(AuthError::NotAuthenticated),
        Some(t) => Ok(
            QueryRequest {
                authorization: bearer_header(t),
                user_agent: "Prism-App".to_owned(),
                body: query_body(pull_request_query()),
            },
        ),
    }
}

} // verus!
