//! Request descriptors and the builder that turns form state into one.
//!
//! The builder folds the query list into a key-to-value map in which the
//! last occurrence of a key wins, keeps every header line (duplicates
//! included, in list order), and classifies the body: skipped for GET or
//! when blank, sent as JSON when it parses, sent as raw text otherwise.
//! When a JSON body is sent and no header key equals `content-type` after
//! lowercasing, a `Content-Type: application/json` line is appended.

use vstd::prelude::*;

use crate::json::json_wellformed;
use crate::text::{blank, is_blank, lower_of, lowercase};

verus! {

/// The HTTP method of a request; GET is the default.
#[derive(Clone, Copy, PartialEq, Eq, Structural, Debug)]
pub enum HttpMethod {
    GET,
    POST,
    PUT,
    DELETE,
    PATCH,
}

/// The display label of a method.
pub open spec fn method_label(m: HttpMethod) -> Seq<char> {
    match m {
        HttpMethod::GET => "GET"@,
        HttpMethod::POST => "POST"@,
        HttpMethod::PUT => "PUT"@,
        HttpMethod::DELETE => "DELETE"@,
        HttpMethod::PATCH => "PATCH"@,
    }
}

impl HttpMethod {
    /// The method's name, as it is shown and as it goes on the wire.
    pub fn name(&self) -> (r: String)
        ensures
            r@ == method_label(*self),
    {
        match self {
            HttpMethod::GET => String::from_str("GET"),
            HttpMethod::POST => String::from_str("POST"),
            HttpMethod::PUT => String::from_str("PUT"),
            HttpMethod::DELETE => String::from_str("DELETE"),
            HttpMethod::PATCH => String::from_str("PATCH"),
        }
    }
}

impl Default for HttpMethod {
    fn default() -> (r: Self)
        ensures
            r == HttpMethod::GET,
    {
        HttpMethod::GET
    }
}

/// One query parameter: an ordered key/value pair of text.
#[derive(Clone, PartialEq, Eq, Debug)]
pub struct QueryParam {
    pub key: String,
    pub value: String,
}

impl View for QueryParam {
    type V = (Seq<char>, Seq<char>);

    open spec fn view(&self) -> (Seq<char>, Seq<char>) {
        (self.key@, self.value@)
    }
}

impl QueryParam {
    /// Pairs a key with a value.
    pub fn new(key: String, value: String) -> (r: Self)
        ensures
            r@ == (key@, value@),
    {
        QueryParam { key, value }
    }

    /// The `key: value` line a list view shows for this pair.
    pub fn line(&self) -> (r: String)
        ensures
            r@ == self.key@ + ": "@ + self.value@,
    {
        self.key.clone().concat(": ").concat(self.value.as_str())
    }
}

/// One header field: an ordered key/value pair of text; duplicates are kept.
#[derive(Clone, PartialEq, Eq, Debug)]
pub struct HeaderParam {
    pub key: String,
    pub value: String,
}

impl View for HeaderParam {
    type V = (Seq<char>, Seq<char>);

    open spec fn view(&self) -> (Seq<char>, Seq<char>) {
        (self.key@, self.value@)
    }
}

impl HeaderParam {
    /// Pairs a header name with its value.
    pub fn new(key: String, value: String) -> (r: Self)
        ensures
            r@ == (key@, value@),
    {
        HeaderParam { key, value }
    }

    /// The `key: value` line a list view shows for this pair.
    pub fn line(&self) -> (r: String)
        ensures
            r@ == self.key@ + ": "@ + self.value@,
    {
        self.key.clone().concat(": ").concat(self.value.as_str())
    }
}

/// The views of a query list, as key/value pairs of character sequences.
pub open spec fn query_views(s: Seq<QueryParam>) -> Seq<(Seq<char>, Seq<char>)> {
    s.map_values(|p: QueryParam| p@)
}

/// The views of a header list.
pub open spec fn header_views(s: Seq<HeaderParam>) -> Seq<(Seq<char>, Seq<char>)> {
    s.map_values(|h: HeaderParam| h@)
}

/// The key-to-value map a pair list folds into: pairs are inserted in list
/// order, so the last occurrence of a key wins.
pub open spec fn query_map_of(s: Seq<(Seq<char>, Seq<char>)>) -> Map<Seq<char>, Seq<char>>
    decreases s.len(),
{
    if s.len() == 0 {
        Map::empty()
    } else {
        query_map_of(s.drop_last()).insert(s.last().0, s.last().1)
    }
}

/// Pairwise distinct keys.
pub open spec fn unique_keys(s: Seq<(Seq<char>, Seq<char>)>) -> bool {
    forall|i: int, j: int| 0 <= i < j < s.len() ==> (#[trigger] s[i]).0 != (#[trigger] s[j]).0
}

proof fn lemma_query_map_push(s: Seq<(Seq<char>, Seq<char>)>, p: (Seq<char>, Seq<char>))
    ensures
        query_map_of(s.push(p)) == query_map_of(s).insert(p.0, p.1),
{
    assert(s.push(p).drop_last() =~= s);
    assert(s.push(p).last() == p);
}

proof fn lemma_query_map_update(s: Seq<(Seq<char>, Seq<char>)>, k: int, v: Seq<char>)
    requires
        unique_keys(s),
        0 <= k < s.len(),
    ensures
        query_map_of(s.update(k, (s[k].0, v))) == query_map_of(s).insert(s[k].0, v),
    decreases s.len(),
{
    let t = s.update(k, (s[k].0, v));
    if k == s.len() - 1 {
        assert(t.drop_last() =~= s.drop_last());
        assert(t.last() == (s[k].0, v));
        assert(query_map_of(s.drop_last()).insert(s[k].0, s[k].1).insert(s[k].0, v)
            =~= query_map_of(s.drop_last()).insert(s[k].0, v));
    } else {
        let d = s.drop_last();
        assert(t.drop_last() =~= d.update(k, (s[k].0, v)));
        assert(forall|i: int, j: int|
            0 <= i < j < d.len() ==> (#[trigger] d[i]).0 != (#[trigger] d[j]).0);
        assert(d[k] == s[k]);
        lemma_query_map_update(d, k, v);
        assert(t.last() == s.last());
        assert(s[k].0 != s.last().0);
        assert(query_map_of(d).insert(s[k].0, v).insert(s.last().0, s.last().1)
            =~= query_map_of(d).insert(s.last().0, s.last().1).insert(s[k].0, v));
    }
}

/// Law: when query entries share a key, the last occurrence in list order
/// determines the value that the built query map holds for that key.
pub proof fn lemma_last_occurrence_wins(s: Seq<(Seq<char>, Seq<char>)>, i: int)
    requires
        0 <= i < s.len(),
        forall|j: int| i < j < s.len() ==> (#[trigger] s[j]).0 != s[i].0,
    ensures
        query_map_of(s).contains_key(s[i].0),
        query_map_of(s)[s[i].0] == s[i].1,
    decreases s.len(),
{
    if i == s.len() - 1 {
    } else {
        let d = s.drop_last();
        assert(d[i] == s[i]);
        assert(forall|j: int| i < j < d.len() ==> (#[trigger] d[j]).0 != d[i].0);
        lemma_last_occurrence_wins(d, i);
        assert(s.last().0 != s[i].0);
    }
}

fn find_key(r: &Vec<QueryParam>, key: &String) -> (res: Option<usize>)
    ensures
        match res {
            Option::Some(i) => i < r@.len() && r@[i as int].key@ == key@,
            Option::None => forall|p: int| 0 <= p < r@.len() ==> (#[trigger] r@[p]).key@ != key@,
        },
{
    let mut i: usize = 0;
    while i < r.len()
        invariant
            0 <= i <= r@.len(),
            forall|p: int| 0 <= p < i ==> (#[trigger] r@[p]).key@ != key@,
        decreases r@.len() - i,
    {
        if r[i].key == *key {
            return Option::Some(i);
        }
        i = i + 1;
    }
    Option::None
}

/// Folds a query list into a list with pairwise distinct keys that
/// represents the same key-to-value map: the last occurrence of a key in
/// the input determines its value.
pub fn fold_query(query: &Vec<QueryParam>) -> (r: Vec<QueryParam>)
    ensures
        unique_keys(query_views(r@)),
        query_map_of(query_views(r@)) == query_map_of(query_views(query@)),
{
    let mut r: Vec<QueryParam> = Vec::new();
    let mut idx: usize = 0;
    while idx < query.len()
        invariant
            0 <= idx <= query@.len(),
            unique_keys(query_views(r@)),
            query_map_of(query_views(r@)) == query_map_of(query_views(query@.take(idx as int))),
        decreases query@.len() - idx,
    {
        let ghost prev = r@;
        let p = &query[idx];
        proof {
            assert(query_views(query@.take(idx as int + 1)).drop_last() =~= query_views(
                query@.take(idx as int),
            ));
            assert(query_views(query@.take(idx as int + 1)).last() == (p.key@, p.value@));
        }
        let found = find_key(&r, &p.key);
        match found {
            Option::Some(i) => {
                proof {
                    lemma_query_map_update(query_views(prev), i as int, p.value@);
                }
                r[i] = QueryParam { key: p.key.clone(), value: p.value.clone() };
                proof {
                    assert(query_views(r@) =~= query_views(prev).update(
                        i as int,
                        (query_views(prev)[i as int].0, p.value@),
                    ));
                    assert(forall|a: int, b: int|
                        0 <= a < b < query_views(r@).len() ==> (#[trigger] query_views(r@)[a]).0
                            != (#[trigger] query_views(r@)[b]).0) by {
                        assert(forall|a: int|
                            0 <= a < query_views(r@).len() && a != i ==> (#[trigger] query_views(
                                r@,
                            )[a]).0 == query_views(prev)[a].0);
                    }
                }
            },
            Option::None => {
                r.push(QueryParam { key: p.key.clone(), value: p.value.clone() });
                proof {
                    assert(query_views(r@) =~= query_views(prev).push((p.key@, p.value@)));
                    lemma_query_map_push(query_views(prev), (p.key@, p.value@));
                    assert(forall|a: int|
                        0 <= a < query_views(prev).len() ==> (#[trigger] query_views(prev)[a]).0
                            != p.key@);
                }
            },
        }
        idx = idx + 1;
    }
    proof {
        assert(query@.take(query@.len() as int) =~= query@);
    }
    r
}

/// A header key that, lowercased, reads `content-type` is present.
pub open spec fn has_content_type(headers: Seq<(Seq<char>, Seq<char>)>) -> bool {
    exists|i: int| 0 <= i < headers.len() && lower_of((#[trigger] headers[i]).0) == "content-type"@
}

fn headers_have_content_type(headers: &Vec<HeaderParam>) -> (r: bool)
    ensures
        r == has_content_type(header_views(headers@)),
{
    let ct = String::from_str("content-type");
    let mut i: usize = 0;
    while i < headers.len()
        invariant
            0 <= i <= headers@.len(),
            ct@ == "content-type"@,
            forall|p: int|
                0 <= p < i ==> lower_of((#[trigger] header_views(headers@)[p]).0)
                    != "content-type"@,
        decreases headers@.len() - i,
    {
        let lk = lowercase(headers[i].key.as_str());
        if lk == ct {
            proof {
                assert(lower_of(header_views(headers@)[i as int].0) == "content-type"@);
            }
            return true;
        }
        proof {
            assert(header_views(headers@)[i as int].0 == headers@[i as int].key@);
        }
        i = i + 1;
    }
    false
}

/// The payload a request carries: nothing, a JSON text, or raw text.
#[derive(Clone, PartialEq, Eq, Debug)]
pub enum BodyPayload {
    Empty,
    Json(String),
    Raw(String),
}

/// The model of a payload.
pub ghost enum BodyModel {
    Empty,
    Json(Seq<char>),
    Raw(Seq<char>),
}

impl View for BodyPayload {
    type V = BodyModel;

    open spec fn view(&self) -> BodyModel {
        match self {
            BodyPayload::Empty => BodyModel::Empty,
            BodyPayload::Json(s) => BodyModel::Json(s@),
            BodyPayload::Raw(s) => BodyModel::Raw(s@),
        }
    }
}

/// The payload built from a method and a body draft: skipped for GET or a
/// blank draft, JSON when the draft parses, raw text otherwise.
pub open spec fn body_of(method: HttpMethod, body: Seq<char>) -> BodyModel {
    if method == HttpMethod::GET || blank(body) {
        BodyModel::Empty
    } else if json_wellformed(body) {
        BodyModel::Json(body)
    } else {
        BodyModel::Raw(body)
    }
}

/// A `Content-Type: application/json` line is appended exactly when a JSON
/// payload is sent and no header already names the content type.
pub open spec fn appends_content_type(
    method: HttpMethod,
    headers: Seq<(Seq<char>, Seq<char>)>,
    body: Seq<char>,
) -> bool {
    body_of(method, body) is Json && !has_content_type(headers)
}

/// The header lines of the built request: the form's lines in order,
/// duplicates kept, with the content-type line appended when called for.
pub open spec fn built_headers(
    method: HttpMethod,
    headers: Seq<(Seq<char>, Seq<char>)>,
    body: Seq<char>,
) -> Seq<(Seq<char>, Seq<char>)> {
    if appends_content_type(method, headers, body) {
        headers.push(("Content-Type"@, "application/json"@))
    } else {
        headers
    }
}

/// Law: the form's header lines are never deduplicated or reordered: the
/// built header list starts with exactly the form's lines, repeated keys
/// included, and at most one line follows them.
pub proof fn lemma_headers_kept_verbatim(
    method: HttpMethod,
    headers: Seq<(Seq<char>, Seq<char>)>,
    body: Seq<char>,
)
    ensures
        built_headers(method, headers, body).take(headers.len() as int) == headers,
        built_headers(method, headers, body).len() <= headers.len() + 1,
{
    assert(built_headers(method, headers, body).take(headers.len() as int) =~~= headers);
}

/// The model of a request descriptor.
#[verifier::ext_equal]
pub ghost struct DescriptorModel {
    pub method: HttpMethod,
    pub url: Seq<char>,
    pub query: Map<Seq<char>, Seq<char>>,
    pub headers: Seq<(Seq<char>, Seq<char>)>,
    pub body: BodyModel,
}

/// The descriptor built from the given form fields.
pub open spec fn built_model(
    method: HttpMethod,
    url: Seq<char>,
    query: Seq<(Seq<char>, Seq<char>)>,
    headers: Seq<(Seq<char>, Seq<char>)>,
    body: Seq<char>,
) -> DescriptorModel {
    DescriptorModel {
        method,
        url,
        query: query_map_of(query),
        headers: built_headers(method, headers, body),
        body: body_of(method, body),
    }
}

/// The immutable descriptor of one request, built once per submission.
#[derive(Debug)]
pub struct RequestDescriptor {
    pub method: HttpMethod,
    pub url: String,
    pub query: Vec<QueryParam>,
    pub headers: Vec<HeaderParam>,
    pub body: BodyPayload,
}

impl RequestDescriptor {
    /// The query list of a built descriptor has pairwise distinct keys, so
    /// it enumerates the query map exactly.
    pub open spec fn wf(&self) -> bool {
        unique_keys(query_views(self.query@))
    }
}

impl View for RequestDescriptor {
    type V = DescriptorModel;

    open spec fn view(&self) -> DescriptorModel {
        DescriptorModel {
            method: self.method,
            url: self.url@,
            query: query_map_of(query_views(self.query@)),
            headers: header_views(self.headers@),
            body: self.body@,
        }
    }
}

/// Why a submission was rejected before any dispatch.
#[derive(Clone, Copy, PartialEq, Eq, Structural, Debug)]
pub enum BuildError {
    EmptyUrl,
}

/// Builds the request descriptor from the form fields, or rejects a blank
/// URL before anything else is processed.
pub fn build_request(
    method: HttpMethod,
    url: &String,
    query: &Vec<QueryParam>,
    headers: &Vec<HeaderParam>,
    body: &String,
) -> (r: Result<RequestDescriptor, BuildError>)
    ensures
        match r {
            Result::Ok(d) => !blank(url@) && d.wf() && d@ == built_model(
                method,
                url@,
                query_views(query@),
                header_views(headers@),
                body@,
            ),
            Result::Err(e) => blank(url@) && e == BuildError::EmptyUrl,
        },
{
    if is_blank(url.as_str()) {
        return Result::Err(BuildError::EmptyUrl);
    }
    let folded = fold_query(query);
    let mut hs: Vec<HeaderParam> = Vec::new();
    let mut i: usize = 0;
    while i < headers.len()
        invariant
            0 <= i <= headers@.len(),
            header_views(hs@) == header_views(headers@.take(i as int)),
        decreases headers@.len() - i,
    {
        let ghost prev = hs@;
        let h = &headers[i];
        hs.push(HeaderParam { key: h.key.clone(), value: h.value.clone() });
        proof {
            let lhs = header_views(hs@);
            let rhs = header_views(headers@.take(i as int + 1));
            assert(header_views(prev).len() == prev.len());
            assert(prev.len() == i as int);
            assert(forall|p: int| 0 <= p < lhs.len() ==> lhs[p] == rhs[p]) by {
                assert(forall|p: int| 0 <= p < prev.len() ==> hs@[p] == prev[p]);
                assert(forall|p: int|
                    0 <= p < prev.len() ==> #[trigger] lhs[p] == header_views(prev)[p]);
                assert(forall|p: int|
                    0 <= p < prev.len() ==> header_views(headers@.take(i as int))[p]
                        == #[trigger] headers@.take(i as int)[p]@);
                assert(lhs[prev.len() as int] == (headers@[i as int].key@, headers@[i as int].value@));
            }
            assert(lhs =~~= rhs);
        }
        i = i + 1;
    }
    proof {
        assert(headers@.take(headers@.len() as int) =~= headers@);
    }
    let mut payload = BodyPayload::Empty;
    if method != HttpMethod::GET && !is_blank(body.as_str()) {
        if crate::json::json_parses(body.as_str()) {
            payload = BodyPayload::Json(body.clone());
            if !headers_have_content_type(&hs) {
                hs.push(
                    HeaderParam {
                        key: String::from_str("Content-Type"),
                        value: String::from_str("application/json"),
                    },
                );
            }
        } else {
            payload = BodyPayload::Raw(body.clone());
        }
    }
    let d = RequestDescriptor { method, url: url.clone(), query: folded, headers: hs, body: payload };
    proof {
        assert(d@ =~~= built_model(
            method,
            url@,
            query_views(query@),
            header_views(headers@),
            body@,
        ));
    }
    Result::Ok(d)
}

} // verus!
