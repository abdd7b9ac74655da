//! The orchestration state machine. A `Store` owns the whole form: method,
//! URL, query and header lists, the drafts being typed, the body with its
//! derived validity flag, the suggestion list, and the request state. It
//! applies events one at a time; a submission with a non-blank URL builds a
//! descriptor, hands it out for dispatch exactly once, and enters `Loading`;
//! the matching completion resolves to `Succeeded` or `Failed`.

use vstd::prelude::*;

use crate::json::body_valid;
use crate::request::{
    build_request, built_model, header_views, query_views, DescriptorModel, HeaderParam,
    HttpMethod, QueryParam, RequestDescriptor,
};
use crate::suggest::{common_headers, common_headers_model, header_suggestions, string_views,
    suggestions_for};
use crate::text::{blank, is_blank, trim_str, trimmed};

verus! {

/// Where the current request attempt stands.
#[derive(Clone, PartialEq, Eq, Debug)]
pub enum RequestState {
    Idle,
    Loading,
    Succeeded { status: u16, body: String },
    Failed { message: String },
}

/// The model of a request state.
#[verifier::ext_equal]
pub ghost enum StateModel {
    Idle,
    Loading,
    Succeeded { status: u16, body: Seq<char> },
    Failed { message: Seq<char> },
}

impl View for RequestState {
    type V = StateModel;

    open spec fn view(&self) -> StateModel {
        match self {
            RequestState::Idle => StateModel::Idle,
            RequestState::Loading => StateModel::Loading,
            RequestState::Succeeded { status, body } => StateModel::Succeeded {
                status: *status,
                body: body@,
            },
            RequestState::Failed { message } => StateModel::Failed { message: message@ },
        }
    }
}

/// One event on the store: a field edit, a submission, or the completion a
/// dispatch reports back.
#[derive(Debug)]
pub enum Event {
    ChangeMethod(HttpMethod),
    ChangeUrl(String),
    ChangeQueryKeyDraft(String),
    ChangeQueryValueDraft(String),
    AddQueryParam,
    RemoveQueryParam(usize),
    UpdateQueryParamKey(usize, String),
    UpdateQueryParamValue(usize, String),
    ChangeHeaderKeyDraft(String),
    ChangeHeaderValueDraft(String),
    AddHeader,
    RemoveHeader(usize),
    UpdateHeaderKey(usize, String),
    UpdateHeaderValue(usize, String),
    ApplySuggestion(String),
    EditBody(String),
    Submit,
    Completed(Result<(u16, String), String>),
}

/// The model of a store.
#[verifier::ext_equal]
pub ghost struct StoreModel {
    pub method: HttpMethod,
    pub url: Seq<char>,
    pub query_params: Seq<(Seq<char>, Seq<char>)>,
    pub query_key_draft: Seq<char>,
    pub query_value_draft: Seq<char>,
    pub headers: Seq<(Seq<char>, Seq<char>)>,
    pub header_key_draft: Seq<char>,
    pub header_value_draft: Seq<char>,
    pub body: Seq<char>,
    pub body_valid: bool,
    pub suggestions: Seq<Seq<char>>,
    pub state: StateModel,
    pub catalog: Seq<Seq<char>>,
}

impl StoreModel {
    /// Derived fields are never stale: the validity flag is the one computed
    /// from the current body draft, and suggestions are shown only for a
    /// trimmed header-key draft of at least two characters.
    pub open spec fn wf(self) -> bool {
        &&& self.body_valid == body_valid(self.body)
        &&& (self.suggestions.len() > 0 ==> trimmed(self.header_key_draft).len() >= 2)
    }
}

/// The store a fresh session starts from: GET, everything empty, an empty
/// body counted valid, no suggestions, `Idle`.
pub open spec fn init_model(catalog: Seq<Seq<char>>) -> StoreModel {
    StoreModel {
        method: HttpMethod::GET,
        url: Seq::empty(),
        query_params: Seq::empty(),
        query_key_draft: Seq::empty(),
        query_value_draft: Seq::empty(),
        headers: Seq::empty(),
        header_key_draft: Seq::empty(),
        header_value_draft: Seq::empty(),
        body: Seq::empty(),
        body_valid: true,
        suggestions: Seq::empty(),
        state: StateModel::Idle,
        catalog: catalog,
    }
}

/// The store after one event. Edits touch only their own field and the
/// derived fields computed from it and never move the request state;
/// `Submit` and `Completed` alone move it.
pub open spec fn step(pre: StoreModel, ev: Event) -> StoreModel {
    match ev {
        Event::ChangeMethod(m) => StoreModel { method: m, ..pre },
        Event::ChangeUrl(u) => StoreModel { url: u@, ..pre },
        Event::ChangeQueryKeyDraft(t) => StoreModel { query_key_draft: t@, ..pre },
        Event::ChangeQueryValueDraft(t) => StoreModel { query_value_draft: t@, ..pre },
        Event::AddQueryParam => if blank(pre.query_key_draft) {
            pre
        } else {
            StoreModel {
                query_params: pre.query_params.push(
                    (trimmed(pre.query_key_draft), trimmed(pre.query_value_draft)),
                ),
                query_key_draft: Seq::empty(),
                query_value_draft: Seq::empty(),
                ..pre
            }
        },
        Event::RemoveQueryParam(i) => if (i as int) < pre.query_params.len() {
            StoreModel { query_params: pre.query_params.remove(i as int), ..pre }
        } else {
            pre
        },
        Event::UpdateQueryParamKey(i, t) => if (i as int) < pre.query_params.len() {
            StoreModel {
                query_params: pre.query_params.update(
                    i as int,
                    (t@, pre.query_params[i as int].1),
                ),
                ..pre
            }
        } else {
            pre
        },
        Event::UpdateQueryParamValue(i, t) => if (i as int) < pre.query_params.len() {
            StoreModel {
                query_params: pre.query_params.update(
                    i as int,
                    (pre.query_params[i as int].0, t@),
                ),
                ..pre
            }
        } else {
            pre
        },
        Event::ChangeHeaderKeyDraft(t) => StoreModel {
            header_key_draft: t@,
            suggestions: suggestions_for(pre.catalog, t@),
            ..pre
        },
        Event::ChangeHeaderValueDraft(t) => StoreModel { header_value_draft: t@, ..pre },
        Event::AddHeader => if blank(pre.header_key_draft) {
            pre
        } else {
            StoreModel {
                headers: pre.headers.push(
                    (trimmed(pre.header_key_draft), trimmed(pre.header_value_draft)),
                ),
                header_key_draft: Seq::empty(),
                header_value_draft: Seq::empty(),
                suggestions: Seq::empty(),
                ..pre
            }
        },
        Event::RemoveHeader(i) => if (i as int) < pre.headers.len() {
            StoreModel { headers: pre.headers.remove(i as int), ..pre }
        } else {
            pre
        },
        Event::UpdateHeaderKey(i, t) => if (i as int) < pre.headers.len() {
            StoreModel {
                headers: pre.headers.update(i as int, (t@, pre.headers[i as int].1)),
                ..pre
            }
        } else {
            pre
        },
        Event::UpdateHeaderValue(i, t) => if (i as int) < pre.headers.len() {
            StoreModel {
                headers: pre.headers.update(i as int, (pre.headers[i as int].0, t@)),
                ..pre
            }
        } else {
            pre
        },
        Event::ApplySuggestion(t) => StoreModel {
            header_key_draft: t@,
            suggestions: Seq::empty(),
            ..pre
        },
        Event::EditBody(t) => StoreModel { body: t@, body_valid: body_valid(t@), ..pre },
        Event::Submit => if blank(pre.url) {
            StoreModel { state: StateModel::Failed { message: "URL is empty"@ }, ..pre }
        } else {
            StoreModel { state: StateModel::Loading, ..pre }
        },
        Event::Completed(res) => match res {
            Result::Ok(p) => StoreModel {
                state: StateModel::Succeeded { status: p.0, body: p.1@ },
                ..pre
            },
            Result::Err(m) => StoreModel { state: StateModel::Failed { message: m@ }, ..pre },
        },
    }
}

/// A dispatch is issued exactly on a submission with a non-blank URL.
pub open spec fn step_dispatches(pre: StoreModel, ev: Event) -> bool {
    ev is Submit && !blank(pre.url)
}

/// The descriptor a submission of this store dispatches.
pub open spec fn dispatched_model(pre: StoreModel) -> DescriptorModel {
    built_model(pre.method, pre.url, pre.query_params, pre.headers, pre.body)
}

/// The store that owns all mutable state and applies events serially.
pub struct Store {
    pub method: HttpMethod,
    pub url: String,
    pub query_params: Vec<QueryParam>,
    pub query_key_draft: String,
    pub query_value_draft: String,
    pub headers: Vec<HeaderParam>,
    pub header_key_draft: String,
    pub header_value_draft: String,
    pub body: String,
    pub body_valid: bool,
    pub suggestions: Vec<String>,
    pub state: RequestState,
    pub catalog: Vec<String>,
}

impl View for Store {
    type V = StoreModel;

    open spec fn view(&self) -> StoreModel {
        StoreModel {
            method: self.method,
            url: self.url@,
            query_params: query_views(self.query_params@),
            query_key_draft: self.query_key_draft@,
            query_value_draft: self.query_value_draft@,
            headers: header_views(self.headers@),
            header_key_draft: self.header_key_draft@,
            header_value_draft: self.header_value_draft@,
            body: self.body@,
            body_valid: self.body_valid,
            suggestions: string_views(self.suggestions@),
            state: self.state@,
            catalog: string_views(self.catalog@),
        }
    }
}

impl Store {
    /// A fresh store over the given suggestion catalog.
    pub fn new(catalog: Vec<String>) -> (r: Store)
        ensures
            r@ == init_model(string_views(catalog@)),
            r@.wf(),
    {
        let r = Store {
            method: HttpMethod::GET,
            url: String::new(),
            query_params: Vec::new(),
            query_key_draft: String::new(),
            query_value_draft: String::new(),
            headers: Vec::new(),
            header_key_draft: String::new(),
            header_value_draft: String::new(),
            body: String::new(),
            body_valid: true,
            suggestions: Vec::new(),
            state: RequestState::Idle,
            catalog,
        };
        proof {
            assert(r@ =~~= init_model(string_views(r.catalog@)));
        }
        r
    }

    /// Applies one event to the store. Returns the descriptor to dispatch
    /// when the event was a submission with a non-blank URL — exactly one
    /// completion must eventually be fed back per returned descriptor — and
    /// nothing otherwise.
    pub fn apply(&mut self, ev: Event) -> (act: Option<RequestDescriptor>)
        ensures
            final(self)@ == step(old(self)@, ev),
            act is Some <==> step_dispatches(old(self)@, ev),
            (act matches Some(d) ==> d@ == dispatched_model(old(self)@) && d.wf()),
    {
        let ghost pre = self@;
        let ghost gev = ev;
        match ev {
            Event::ChangeMethod(m) => {
                self.method = m;
                proof {
                    assert(self@ =~~= step(pre, gev));
                }
                Option::None
            },
            Event::ChangeUrl(u) => {
                self.url = u;
                proof {
                    assert(self@ =~~= step(pre, gev));
                }
                Option::None
            },
            Event::ChangeQueryKeyDraft(t) => {
                self.query_key_draft = t;
                proof {
                    assert(self@ =~~= step(pre, gev));
                }
                Option::None
            },
            Event::ChangeQueryValueDraft(t) => {
                self.query_value_draft = t;
                proof {
                    assert(self@ =~~= step(pre, gev));
                }
                Option::None
            },
            Event::AddQueryParam => {
                if !is_blank(self.query_key_draft.as_str()) {
                    let k = String::from_str(trim_str(self.query_key_draft.as_str()));
                    let v = String::from_str(trim_str(self.query_value_draft.as_str()));
                    self.query_params.push(QueryParam { key: k, value: v });
                    self.query_key_draft = String::new();
                    self.query_value_draft = String::new();
                    proof {
                        assert(self@ =~~= step(pre, gev));
                    }
                } else {
                    proof {
                        assert(self@ =~~= step(pre, gev));
                    }
                }
                Option::None
            },
            Event::RemoveQueryParam(i) => {
                if i < self.query_params.len() {
                    self.query_params.remove(i);
                    proof {
                        assert(self@ =~~= step(pre, gev));
                    }
                } else {
                    proof {
                        assert(self@ =~~= step(pre, gev));
                    }
                }
                Option::None
            },
            Event::UpdateQueryParamKey(i, t) => {
                if i < self.query_params.len() {
                    let v = self.query_params[i].value.clone();
                    self.query_params[i] = QueryParam { key: t, value: v };
                    proof {
                        assert(self@ =~~= step(pre, gev));
                    }
                } else {
                    proof {
                        assert(self@ =~~= step(pre, gev));
                    }
                }
                Option::None
            },
            Event::UpdateQueryParamValue(i, t) => {
                if i < self.query_params.len() {
                    let k = self.query_params[i].key.clone();
                    self.query_params[i] = QueryParam { key: k, value: t };
                    proof {
                        assert(self@ =~~= step(pre, gev));
                    }
                } else {
                    proof {
                        assert(self@ =~~= step(pre, gev));
                    }
                }
                Option::None
            },
            Event::ChangeHeaderKeyDraft(t) => {
                let sugg = header_suggestions(&self.catalog, t.as_str());
                self.suggestions = sugg;
                self.header_key_draft = t;
                proof {
                    assert(self@ =~~= step(pre, gev));
                }
                Option::None
            },
            Event::ChangeHeaderValueDraft(t) => {
                self.header_value_draft = t;
                proof {
                    assert(self@ =~~= step(pre, gev));
                }
                Option::None
            },
            Event::AddHeader => {
                if !is_blank(self.header_key_draft.as_str()) {
                    let k = String::from_str(trim_str(self.header_key_draft.as_str()));
                    let v = String::from_str(trim_str(self.header_value_draft.as_str()));
                    self.headers.push(HeaderParam { key: k, value: v });
                    self.header_key_draft = String::new();
                    self.header_value_draft = String::new();
                    self.suggestions = Vec::new();
                    proof {
                        assert(self@ =~~= step(pre, gev));
                    }
                } else {
                    proof {
                        assert(self@ =~~= step(pre, gev));
                    }
                }
                Option::None
            },
            Event::RemoveHeader(i) => {
                if i < self.headers.len() {
                    self.headers.remove(i);
                    proof {
                        assert(self@ =~~= step(pre, gev));
                    }
                } else {
                    proof {
                        assert(self@ =~~= step(pre, gev));
                    }
                }
                Option::None
            },
            Event::UpdateHeaderKey(i, t) => {
                if i < self.headers.len() {
                    let v = self.headers[i].value.clone();
                    self.headers[i] = HeaderParam { key: t, value: v };
                    proof {
                        assert(self@ =~~= step(pre, gev));
                    }
                } else {
                    proof {
                        assert(self@ =~~= step(pre, gev));
                    }
                }
                Option::None
            },
            Event::UpdateHeaderValue(i, t) => {
                if i < self.headers.len() {
                    let k = self.headers[i].key.clone();
                    self.headers[i] = HeaderParam { key: k, value: t };
                    proof {
                        assert(self@ =~~= step(pre, gev));
                    }
                } else {
                    proof {
                        assert(self@ =~~= step(pre, gev));
                    }
                }
                Option::None
            },
            Event::ApplySuggestion(t) => {
                self.header_key_draft = t;
                self.suggestions = Vec::new();
                proof {
                    assert(self@ =~~= step(pre, gev));
                }
                Option::None
            },
            Event::EditBody(t) => {
                self.body_valid = crate::json::body_is_valid(t.as_str());
                self.body = t;
                proof {
                    assert(self@ =~~= step(pre, gev));
                }
                Option::None
            },
            Event::Submit => {
                match build_request(
                    self.method,
                    &self.url,
                    &self.query_params,
                    &self.headers,
                    &self.body,
                ) {
                    Result::Ok(d) => {
                        self.state = RequestState::Loading;
                        proof {
                            assert(self@ =~~= step(pre, gev));
                        }
                        Option::Some(d)
                    },
                    Result::Err(_) => {
                        self.state = RequestState::Failed {
                            message: String::from_str("URL is empty"),
                        };
                        proof {
                            assert(self@ =~~= step(pre, gev));
                        }
                        Option::None
                    },
                }
            },
            Event::Completed(res) => {
                match res {
                    Result::Ok(p) => {
                        self.state = RequestState::Succeeded { status: p.0, body: p.1 };
                    },
                    Result::Err(m) => {
                        self.state = RequestState::Failed { message: m };
                    },
                }
                proof {
                    assert(self@ =~~= step(pre, gev));
                }
                Option::None
            },
        }
    }
}

impl Default for Store {
    /// A fresh store over the built-in header catalog.
    fn default() -> (r: Self)
        ensures
            r@ == init_model(common_headers_model()),
            r@.wf(),
    {
        Store::new(common_headers())
    }
}

/// An edit event: everything except a submission or a completion.
pub open spec fn is_edit(ev: Event) -> bool {
    !(ev is Submit) && !(ev is Completed)
}

/// Law: a submission with a blank URL — empty or whitespace-only — fails
/// with `URL is empty` and dispatches nothing, so the transport is never
/// invoked for it.
pub proof fn lemma_submit_blank_url(pre: StoreModel)
    requires
        blank(pre.url),
    ensures
        step(pre, Event::Submit).state == (StateModel::Failed { message: "URL is empty"@ }),
        !step_dispatches(pre, Event::Submit),
{
}

/// Law: a submission with a non-blank URL enters `Loading` and issues
/// exactly one dispatch, whatever state the store was in.
pub proof fn lemma_submit_enters_loading(pre: StoreModel)
    requires
        !blank(pre.url),
    ensures
        step(pre, Event::Submit).state is Loading,
        step_dispatches(pre, Event::Submit),
{
}

/// Law: a completion resolves the request state to exactly the reported
/// outcome: a status/body pair yields `Succeeded` with that pair, a
/// transport failure yields `Failed` with the message verbatim.
pub proof fn lemma_completed_resolves(pre: StoreModel, res: Result<(u16, String), String>)
    ensures
        step(pre, Event::Completed(res)).state == (match res {
            Result::Ok(p) => StateModel::Succeeded { status: p.0, body: p.1@ },
            Result::Err(m) => StateModel::Failed { message: m@ },
        }),
{
}

/// Law: applying a suggestion replaces the header-key draft with the chosen
/// name, clears the suggestion list unconditionally, and changes nothing
/// else.
pub proof fn lemma_apply_suggestion(pre: StoreModel, name: String)
    ensures
        step(pre, Event::ApplySuggestion(name)) == (StoreModel {
            header_key_draft: name@,
            suggestions: Seq::<Seq<char>>::empty(),
            ..pre
        }),
{
    assert(step(pre, Event::ApplySuggestion(name)) =~~= (StoreModel {
        header_key_draft: name@,
        suggestions: Seq::<Seq<char>>::empty(),
        ..pre
    }));
}

/// Law: edit events never change the request state.
pub proof fn lemma_edits_preserve_state(pre: StoreModel, ev: Event)
    requires
        is_edit(ev),
    ensures
        step(pre, ev).state == pre.state,
{
}

/// Law: every transition keeps the derived fields consistent: the validity
/// flag always reflects the current body draft, and suggestions are shown
/// only for a trimmed header-key draft of at least two characters.
pub proof fn lemma_step_preserves_wf(pre: StoreModel, ev: Event)
    requires
        pre.wf(),
    ensures
        step(pre, ev).wf(),
{
}

/// Law: repeating an identical edit event leaves the store exactly as the
/// first application left it — no duplicated list entries, and the
/// recomputed suggestion list is the same deterministic filter result.
/// Removals are excluded: a second removal at the same index strikes the
/// following entry.
pub proof fn lemma_edit_idempotent(pre: StoreModel, ev: Event)
    requires
        is_edit(ev),
        !(ev is RemoveQueryParam),
        !(ev is RemoveHeader),
    ensures
        step(step(pre, ev), ev) == step(pre, ev),
{
    let mid = step(pre, ev);
    assert(step(mid, ev) =~~= mid);
}

} // verus!
