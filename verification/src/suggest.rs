//! Header-name suggestions: a fixed catalog filtered against the current
//! header-key draft, case-insensitively, preserving catalog order and
//! truncated to the first few matches.

use vstd::prelude::*;

use crate::text::{contains_str, contains_sub, lower_of, lowercase, trim_str, trimmed};

verus! {

/// At most this many suggestions are shown.
pub const MAX_SUGGESTIONS: usize = 5;

/// The views of a list of strings.
pub open spec fn string_views(s: Seq<String>) -> Seq<Seq<char>> {
    s.map_values(|x: String| x@)
}

/// A catalog entry matches a draft when its lowercase form contains the
/// lowercase draft as a substring.
pub open spec fn entry_matches(entry: Seq<char>, draft: Seq<char>) -> bool {
    contains_sub(lower_of(entry), lower_of(draft))
}

/// The catalog entries that match a draft, in catalog order.
pub open spec fn matching_entries(catalog: Seq<Seq<char>>, draft: Seq<char>) -> Seq<Seq<char>> {
    catalog.filter(|h: Seq<char>| entry_matches(h, draft))
}

/// The suggestion list for a draft: empty when the trimmed draft is shorter
/// than two characters, otherwise the matching entries in catalog order,
/// truncated to the first `MAX_SUGGESTIONS`.
pub open spec fn suggestions_for(catalog: Seq<Seq<char>>, draft: Seq<char>) -> Seq<Seq<char>> {
    if trimmed(draft).len() < 2 {
        Seq::empty()
    } else {
        let f = matching_entries(catalog, draft);
        if f.len() <= MAX_SUGGESTIONS {
            f
        } else {
            f.take(MAX_SUGGESTIONS as int)
        }
    }
}

proof fn lemma_matching_take_step(catalog: Seq<Seq<char>>, draft: Seq<char>, i: int)
    requires
        0 <= i < catalog.len(),
    ensures
        matching_entries(catalog.take(i + 1), draft) == if entry_matches(catalog[i], draft) {
            matching_entries(catalog.take(i), draft).push(catalog[i])
        } else {
            matching_entries(catalog.take(i), draft)
        },
{
    reveal_with_fuel(Seq::<Seq<char>>::filter, 2);
    assert(catalog.take(i + 1).drop_last() =~= catalog.take(i));
    assert(catalog.take(i + 1).last() == catalog[i]);
}

proof fn lemma_matching_add(a: Seq<Seq<char>>, b: Seq<Seq<char>>, draft: Seq<char>)
    ensures
        matching_entries(a + b, draft) == matching_entries(a, draft) + matching_entries(b, draft),
    decreases b.len(),
{
    reveal_with_fuel(Seq::<Seq<char>>::filter, 2);
    if b.len() == 0 {
        assert(a + b =~= a);
        assert(matching_entries(b, draft) == Seq::<Seq<char>>::empty());
        assert(matching_entries(a, draft) + Seq::<Seq<char>>::empty() =~= matching_entries(
            a,
            draft,
        ));
    } else {
        lemma_matching_add(a, b.drop_last(), draft);
        assert((a + b).drop_last() =~= a + b.drop_last());
        assert((a + b).last() == b.last());
        assert(matching_entries(a, draft) + matching_entries(b.drop_last(), draft).push(b.last())
            =~= (matching_entries(a, draft) + matching_entries(b.drop_last(), draft)).push(
            b.last(),
        ));
    }
}

/// Computes the suggestion list for a header-key draft.
pub fn header_suggestions(catalog: &Vec<String>, draft: &str) -> (r: Vec<String>)
    ensures
        string_views(r@) == suggestions_for(string_views(catalog@), draft@),
{
    let t = trim_str(draft);
    if t.unicode_len() < 2 {
        let r: Vec<String> = Vec::new();
        proof {
            assert(string_views(r@) =~= Seq::<Seq<char>>::empty());
        }
        return r;
    }
    let ld = lowercase(draft);
    let mut out: Vec<String> = Vec::new();
    let mut i: usize = 0;
    while i < catalog.len() && out.len() < MAX_SUGGESTIONS
        invariant
            0 <= i <= catalog@.len(),
            ld@ == lower_of(draft@),
            out@.len() <= MAX_SUGGESTIONS,
            string_views(out@) == matching_entries(string_views(catalog@).take(i as int), draft@),
        decreases catalog@.len() - i,
    {
        let ghost prev = out@;
        let ghost cviews = string_views(catalog@);
        let le = lowercase(catalog[i].as_str());
        let hit = contains_str(le.as_str(), ld.as_str());
        proof {
            assert(cviews[i as int] == catalog@[i as int]@);
            lemma_matching_take_step(cviews, draft@, i as int);
        }
        if hit {
            out.push(catalog[i].clone());
            proof {
                assert(string_views(out@) =~= string_views(prev).push(catalog@[i as int]@));
            }
        }
        proof {
            assert(string_views(out@) == matching_entries(cviews.take(i as int + 1), draft@));
        }
        i = i + 1;
    }
    proof {
        let cviews = string_views(catalog@);
        let f = matching_entries(cviews, draft@);
        if i == catalog@.len() {
            assert(cviews.take(i as int) =~= cviews);
        } else {
            let rest = cviews.subrange(i as int, cviews.len() as int);
            lemma_matching_add(cviews.take(i as int), rest, draft@);
            assert(cviews.take(i as int) + rest =~= cviews);
            assert(f == string_views(out@) + matching_entries(rest, draft@));
            if f.len() <= MAX_SUGGESTIONS {
                assert(f =~= string_views(out@));
            } else {
                assert(f.take(MAX_SUGGESTIONS as int) =~= string_views(out@));
            }
        }
    }
    out
}

proof fn lemma_matching_sound(catalog: Seq<Seq<char>>, draft: Seq<char>)
    ensures
        matching_entries(catalog, draft).len() <= catalog.len(),
        forall|k: int|
            0 <= k < matching_entries(catalog, draft).len() ==> catalog.contains(
                #[trigger] matching_entries(catalog, draft)[k],
            ) && entry_matches(matching_entries(catalog, draft)[k], draft),
    decreases catalog.len(),
{
    reveal_with_fuel(Seq::<Seq<char>>::filter, 2);
    if catalog.len() > 0 {
        let d = catalog.drop_last();
        lemma_matching_sound(d, draft);
        assert(forall|k: int|
            0 <= k < matching_entries(d, draft).len() ==> catalog.contains(
                #[trigger] matching_entries(d, draft)[k],
            )) by {
            assert(forall|j: int| 0 <= j < d.len() ==> catalog[j] == #[trigger] d[j]);
            assert(forall|x: Seq<char>|
                #[trigger] d.contains(x) ==> catalog.contains(x)) by {
                assert(forall|j: int| 0 <= j < d.len() ==> #[trigger] d[j] == catalog[j]);
            }
        }
        assert(catalog.contains(catalog.last()));
    }
}

/// Law: a suggestion list never exceeds `MAX_SUGGESTIONS` entries, and every
/// entry in it is a catalog entry whose lowercase form contains the
/// lowercase draft.
pub proof fn lemma_suggestions_sound(catalog: Seq<Seq<char>>, draft: Seq<char>)
    ensures
        suggestions_for(catalog, draft).len() <= MAX_SUGGESTIONS,
        forall|k: int|
            0 <= k < suggestions_for(catalog, draft).len() ==> catalog.contains(
                #[trigger] suggestions_for(catalog, draft)[k],
            ) && entry_matches(suggestions_for(catalog, draft)[k], draft),
{
    if trimmed(draft).len() >= 2 {
        lemma_matching_sound(catalog, draft);
    }
}

/// The names in the built-in header catalog.
pub open spec fn common_headers_model() -> Seq<Seq<char>> {
    seq![
        "Accept"@,
        "Accept-Charset"@,
        "Accept-Encoding"@,
        "Accept-Language"@,
        "Authorization"@,
        "Cache-Control"@,
        "Content-Type"@,
        "Content-Length"@,
        "Content-Encoding"@,
        "Cookie"@,
        "Date"@,
        "Host"@,
        "User-Agent"@,
        "X-API-Key"@,
        "X-Requested-With"@,
        "X-CSRF-Token"@,
        "X-Forwarded-For"@,
        "X-Forwarded-Proto"@,
        "If-Modified-Since"@,
        "If-None-Match"@,
        "ETag"@,
        "Location"@,
        "Referer"@,
        "Origin"@,
        "Access-Control-Allow-Origin"@,
        "Access-Control-Allow-Methods"@,
        "Access-Control-Allow-Headers"@,
    ]
}

/// The built-in catalog of common header names, in display order.
pub fn common_headers() -> (r: Vec<String>)
    ensures
        string_views(r@) == common_headers_model(),
{
    let mut v: Vec<String> = Vec::new();
    v.push(String::from_str("Accept"));
    v.push(String::from_str("Accept-Charset"));
    v.push(String::from_str("Accept-Encoding"));
    v.push(String::from_str("Accept-Language"));
    v.push(String::from_str("Authorization"));
    v.push(String::from_str("Cache-Control"));
    v.push(String::from_str("Content-Type"));
    v.push(String::from_str("Content-Length"));
    v.push(String::from_str("Content-Encoding"));
    v.push(String::from_str("Cookie"));
    v.push(String::from_str("Date"));
    v.push(String::from_str("Host"));
    v.push(String::from_str("User-Agent"));
    v.push(String::from_str("X-API-Key"));
    v.push(String::from_str("X-Requested-With"));
    v.push(String::from_str("X-CSRF-Token"));
    v.push(String::from_str("X-Forwarded-For"));
    v.push(String::from_str("X-Forwarded-Proto"));
    v.push(String::from_str("If-Modified-Since"));
    v.push(String::from_str("If-None-Match"));
    v.push(String::from_str("ETag"));
    v.push(String::from_str("Location"));
    v.push(String::from_str("Referer"));
    v.push(String::from_str("Origin"));
    v.push(String::from_str("Access-Control-Allow-Origin"));
    v.push(String::from_str("Access-Control-Allow-Methods"));
    v.push(String::from_str("Access-Control-Allow-Headers"));
    proof {
        assert(string_views(v@) =~= common_headers_model());
    }
    v
}

} // verus!
