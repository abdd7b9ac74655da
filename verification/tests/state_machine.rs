use http_composer::request::{BodyPayload, HttpMethod};
use http_composer::store::{Event, RequestState, Store};

fn s(text: &str) -> String {
    text.to_string()
}

#[test]
fn fresh_store_is_idle_and_valid() {
    let store = Store::default();
    assert_eq!(store.state, RequestState::Idle);
    assert_eq!(store.method, HttpMethod::GET);
    assert!(store.body_valid);
    assert!(store.url.is_empty());
    assert!(store.suggestions.is_empty());
    assert_eq!(store.catalog.len(), 27);
}

#[test]
fn submit_with_empty_url_fails_without_dispatch() {
    let mut store = Store::default();
    let act = store.apply(Event::Submit);
    assert!(act.is_none());
    assert_eq!(store.state, RequestState::Failed { message: s("URL is empty") });
}

#[test]
fn submit_with_whitespace_url_fails_without_dispatch() {
    let mut store = Store::default();
    assert!(store.apply(Event::ChangeUrl(s("  \t "))).is_none());
    let act = store.apply(Event::Submit);
    assert!(act.is_none());
    assert_eq!(store.state, RequestState::Failed { message: s("URL is empty") });
}

#[test]
fn submit_enters_loading_and_dispatches_once() {
    let mut store = Store::default();
    store.apply(Event::ChangeUrl(s("http://example.com")));
    let act = store.apply(Event::Submit);
    let d = act.expect("a descriptor must be dispatched");
    assert_eq!(store.state, RequestState::Loading);
    assert_eq!(d.url, "http://example.com");
    assert_eq!(d.method, HttpMethod::GET);
    assert_eq!(d.body, BodyPayload::Empty);
}

#[test]
fn submit_works_from_any_prior_state() {
    let mut store = Store::default();
    store.apply(Event::Submit);
    assert!(matches!(store.state, RequestState::Failed { .. }));
    store.apply(Event::ChangeUrl(s("http://example.com")));
    assert!(store.apply(Event::Submit).is_some());
    assert_eq!(store.state, RequestState::Loading);
    store.apply(Event::Completed(Ok((204, s("")))));
    assert!(matches!(store.state, RequestState::Succeeded { .. }));
    assert!(store.apply(Event::Submit).is_some());
    assert_eq!(store.state, RequestState::Loading);
}

#[test]
fn submit_while_loading_redispatches() {
    let mut store = Store::default();
    store.apply(Event::ChangeUrl(s("http://example.com")));
    assert!(store.apply(Event::Submit).is_some());
    assert_eq!(store.state, RequestState::Loading);
    assert!(store.apply(Event::Submit).is_some());
    assert_eq!(store.state, RequestState::Loading);
}

#[test]
fn completion_resolves_to_succeeded() {
    let mut store = Store::default();
    store.apply(Event::ChangeUrl(s("http://example.com")));
    store.apply(Event::Submit);
    store.apply(Event::Completed(Ok((200, s("hello")))));
    assert_eq!(store.state, RequestState::Succeeded { status: 200, body: s("hello") });
}

#[test]
fn completion_resolves_to_failed() {
    let mut store = Store::default();
    store.apply(Event::ChangeUrl(s("http://example.com")));
    store.apply(Event::Submit);
    store.apply(Event::Completed(Err(s("timeout"))));
    assert_eq!(store.state, RequestState::Failed { message: s("timeout") });
}

#[test]
fn error_statuses_still_succeed() {
    let mut store = Store::default();
    store.apply(Event::ChangeUrl(s("http://example.com")));
    store.apply(Event::Submit);
    store.apply(Event::Completed(Ok((500, s("oops")))));
    assert_eq!(store.state, RequestState::Succeeded { status: 500, body: s("oops") });
}

#[test]
fn edits_do_not_change_request_state() {
    let mut store = Store::default();
    store.apply(Event::ChangeUrl(s("http://example.com")));
    store.apply(Event::Submit);
    store.apply(Event::ChangeMethod(HttpMethod::POST));
    store.apply(Event::EditBody(s("{}")));
    store.apply(Event::ChangeHeaderKeyDraft(s("cont")));
    assert_eq!(store.state, RequestState::Loading);
}

#[test]
fn add_query_param_trims_and_clears_drafts() {
    let mut store = Store::default();
    store.apply(Event::ChangeQueryKeyDraft(s(" page ")));
    store.apply(Event::ChangeQueryValueDraft(s(" 2 ")));
    store.apply(Event::AddQueryParam);
    assert_eq!(store.query_params.len(), 1);
    assert_eq!(store.query_params[0].key, "page");
    assert_eq!(store.query_params[0].value, "2");
    assert!(store.query_key_draft.is_empty());
    assert!(store.query_value_draft.is_empty());
}

#[test]
fn add_query_param_with_blank_key_is_ignored() {
    let mut store = Store::default();
    store.apply(Event::ChangeQueryKeyDraft(s("   ")));
    store.apply(Event::ChangeQueryValueDraft(s("v")));
    store.apply(Event::AddQueryParam);
    assert!(store.query_params.is_empty());
}

#[test]
fn repeated_add_query_param_adds_once() {
    let mut store = Store::default();
    store.apply(Event::ChangeQueryKeyDraft(s("a")));
    store.apply(Event::ChangeQueryValueDraft(s("1")));
    store.apply(Event::AddQueryParam);
    store.apply(Event::AddQueryParam);
    assert_eq!(store.query_params.len(), 1);
}

#[test]
fn repeated_url_edit_is_idempotent() {
    let mut store = Store::default();
    store.apply(Event::ChangeUrl(s("http://example.com")));
    let url_once = store.url.clone();
    let sugg_once = store.suggestions.clone();
    store.apply(Event::ChangeUrl(s("http://example.com")));
    assert_eq!(store.url, url_once);
    assert_eq!(store.suggestions, sugg_once);
    assert_eq!(store.state, RequestState::Idle);
}

#[test]
fn repeated_header_draft_edit_is_idempotent() {
    let mut store = Store::default();
    store.apply(Event::ChangeHeaderKeyDraft(s("cont")));
    let first = store.suggestions.clone();
    store.apply(Event::ChangeHeaderKeyDraft(s("cont")));
    assert_eq!(store.suggestions, first);
    assert!(!first.is_empty());
}

#[test]
fn remove_and_update_query_params() {
    let mut store = Store::default();
    store.apply(Event::ChangeQueryKeyDraft(s("a")));
    store.apply(Event::AddQueryParam);
    store.apply(Event::ChangeQueryKeyDraft(s("b")));
    store.apply(Event::ChangeQueryValueDraft(s("2")));
    store.apply(Event::AddQueryParam);
    assert_eq!(store.query_params.len(), 2);
    store.apply(Event::UpdateQueryParamKey(0, s("z")));
    store.apply(Event::UpdateQueryParamValue(1, s("9")));
    assert_eq!(store.query_params[0].key, "z");
    assert_eq!(store.query_params[1].value, "9");
    store.apply(Event::RemoveQueryParam(0));
    assert_eq!(store.query_params.len(), 1);
    assert_eq!(store.query_params[0].key, "b");
    store.apply(Event::RemoveQueryParam(5));
    store.apply(Event::UpdateQueryParamKey(5, s("x")));
    assert_eq!(store.query_params.len(), 1);
    assert_eq!(store.query_params[0].key, "b");
}

#[test]
fn header_list_edits() {
    let mut store = Store::default();
    store.apply(Event::ChangeHeaderKeyDraft(s(" X-API-Key ")));
    store.apply(Event::ChangeHeaderValueDraft(s(" secret ")));
    store.apply(Event::AddHeader);
    assert_eq!(store.headers.len(), 1);
    assert_eq!(store.headers[0].key, "X-API-Key");
    assert_eq!(store.headers[0].value, "secret");
    assert!(store.header_key_draft.is_empty());
    assert!(store.header_value_draft.is_empty());
    assert!(store.suggestions.is_empty());
    store.apply(Event::UpdateHeaderKey(0, s("X")));
    store.apply(Event::UpdateHeaderValue(0, s("1")));
    assert_eq!(store.headers[0].key, "X");
    assert_eq!(store.headers[0].value, "1");
    store.apply(Event::RemoveHeader(0));
    assert!(store.headers.is_empty());
}

#[test]
fn suggestion_flow_and_application() {
    let mut store = Store::default();
    store.apply(Event::ChangeHeaderKeyDraft(s("cont")));
    assert!(store.suggestions.iter().any(|x| x == "Content-Type"));
    store.apply(Event::ApplySuggestion(s("Content-Type")));
    assert_eq!(store.header_key_draft, "Content-Type");
    assert!(store.suggestions.is_empty());
}

#[test]
fn short_draft_clears_suggestions() {
    let mut store = Store::default();
    store.apply(Event::ChangeHeaderKeyDraft(s("cont")));
    assert!(!store.suggestions.is_empty());
    store.apply(Event::ChangeHeaderKeyDraft(s("c")));
    assert!(store.suggestions.is_empty());
}

#[test]
fn body_edits_recompute_validity() {
    let mut store = Store::default();
    store.apply(Event::EditBody(s("{")));
    assert!(!store.body_valid);
    store.apply(Event::EditBody(s("{}")));
    assert!(store.body_valid);
    store.apply(Event::EditBody(s("")));
    assert!(store.body_valid);
}

#[test]
fn submission_snapshot_carries_form_state() {
    let mut store = Store::default();
    store.apply(Event::ChangeMethod(HttpMethod::POST));
    store.apply(Event::ChangeUrl(s("http://example.com/api")));
    store.apply(Event::ChangeQueryKeyDraft(s("a")));
    store.apply(Event::ChangeQueryValueDraft(s("1")));
    store.apply(Event::AddQueryParam);
    store.apply(Event::ChangeHeaderKeyDraft(s("X")));
    store.apply(Event::ChangeHeaderValueDraft(s("1")));
    store.apply(Event::AddHeader);
    store.apply(Event::EditBody(s("{\"k\":true}")));
    let d = store.apply(Event::Submit).expect("descriptor");
    assert_eq!(d.method, HttpMethod::POST);
    assert_eq!(d.url, "http://example.com/api");
    assert_eq!(d.query.len(), 1);
    assert_eq!(d.query[0].key, "a");
    assert_eq!(d.headers.len(), 2);
    assert_eq!(d.headers[0].key, "X");
    assert_eq!(d.headers[1].key, "Content-Type");
    assert_eq!(d.headers[1].value, "application/json");
    assert_eq!(d.body, BodyPayload::Json(s("{\"k\":true}")));
}
