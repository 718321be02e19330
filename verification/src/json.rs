//! The merged pull requests that `gh pr list --json headRefName` reports.
use vstd::prelude::*;

verus! {

/// A JSON document, as the library reads it.
pub enum JsonValue {
    Null,
    Bool(bool),
    /// A number, in the text that the JSON reader gives for it.
    Number(String),
    Str(String),
    Array(Vec<JsonValue>),
    /// An object's members, in order; each key once.
    Object(Vec<(String, JsonValue)>),
}

/// A JSON document seen as mathematical values.
pub enum JsonView {
    Null,
    Bool(bool),
    Number(Seq<char>),
    Str(Seq<char>),
    Array(Seq<JsonView>),
    Object(Seq<(Seq<char>, JsonView)>),
}

/// The view of a JSON document.
pub open spec fn json_view(v: JsonValue) -> JsonView
    decreases v,
{
    match v {
        JsonValue::Null => JsonView::Null,
        JsonValue::Bool(b) => JsonView::Bool(b),
        JsonValue::Number(n) => JsonView::Number(n@),
        JsonValue::Str(s) => JsonView::Str(s@),
        JsonValue::Array(items) => JsonView::Array(
            Seq::new(
                items@.len(),
                |i: int|
                    if 0 <= i < items@.len() {
                        json_view(items@[i])
                    } else {
                        JsonView::Null
                    },
            ),
        ),
        JsonValue::Object(fields) => JsonView::Object(
            Seq::new(
                fields@.len(),
                |i: int|
                    if 0 <= i < fields@.len() {
                        (fields@[i].0@, json_view(fields@[i].1))
                    } else {
                        (Seq::<char>::empty(), JsonView::Null)
                    },
            ),
        ),
    }
}

impl View for JsonValue {
    type V = JsonView;

    open spec fn view(&self) -> JsonView {
        json_view(*self)
    }
}

} // verus!

use crate::text::contains_string;

verus! {

/// The members of an object, seen as mathematical values.
pub open spec fn fields_view(fields: Seq<(String, JsonValue)>) -> Seq<(Seq<char>, JsonView)> {
    Seq::new(fields.len(), |i: int| (fields[i].0@, json_view(fields[i].1)))
}

/// The entries of an array, seen as mathematical values.
pub open spec fn items_view(items: Seq<JsonValue>) -> Seq<JsonView> {
    Seq::new(items.len(), |i: int| json_view(items[i]))
}

proof fn lemma_object_view(fields: Vec<(String, JsonValue)>)
    ensures
        json_view(JsonValue::Object(fields)) == JsonView::Object(fields_view(fields@)),
{
    if let JsonView::Object(f) = json_view(JsonValue::Object(fields)) {
        assert(f =~= fields_view(fields@));
    }
}

proof fn lemma_array_view(items: Vec<JsonValue>)
    ensures
        json_view(JsonValue::Array(items)) == JsonView::Array(items_view(items@)),
{
    if let JsonView::Array(f) = json_view(JsonValue::Array(items)) {
        assert(f =~= items_view(items@));
    }
}

/// The first member of an object with the given key.
pub open spec fn member(fields: Seq<(Seq<char>, JsonView)>, key: Seq<char>) -> Option<JsonView>
    decreases fields.len(),
{
    if fields.len() == 0 {
        None
    } else if fields[0].0 == key {
        Some(fields[0].1)
    } else {
        member(fields.drop_first(), key)
    }
}

/// The `headRefName` of one listed pull request, when it is a string.
pub open spec fn head_ref_name(pr: JsonView) -> Option<Seq<char>> {
    match pr {
        JsonView::Object(fields) => match member(fields, "headRefName"@) {
            Some(JsonView::Str(s)) => Some(s),
            _ => None,
        },
        _ => None,
    }
}

/// The branches of the merged pull requests in a `gh pr list` listing: the
/// string `headRefName`s of the entries of a top-level array; nothing else
/// counts.
pub open spec fn listed_branches(listing: JsonView) -> Set<Seq<char>> {
    match listing {
        JsonView::Array(items) => Set::new(
            |b: Seq<char>|
                exists|i: int| 0 <= i < items.len() && head_ref_name(#[trigger] items[i]) == Some(b),
        ),
        _ => Set::empty(),
    }
}

fn member_str(fields: &Vec<(String, JsonValue)>, key: &String) -> (r: Option<String>)
    ensures
        r.deep_view() == (match member(fields_view(fields@), key@) {
            Some(JsonView::Str(s)) => Some(s),
            _ => None::<Seq<char>>,
        }),
{
    let ghost fv = fields_view(fields@);
    let mut i: usize = 0;
    assert(fv.skip(0) =~= fv);
    while i < fields.len()
        invariant
            fv == fields_view(fields@),
            i <= fields.len(),
            member(fv, key@) == member(fv.skip(i as int), key@),
        decreases fields.len() - i,
    {
        let ghost rest = fv.skip(i as int);
        assert(rest.drop_first() =~= fv.skip(i + 1));
        assert(rest[0] == fv[i as int]);
        assert(fv[i as int] == (fields@[i as int].0@, json_view(fields@[i as int].1)));
        if fields[i].0 == *key {
            return match &fields[i].1 {
                JsonValue::Str(s) => Some(s.clone()),
                _ => None,
            };
        }
        i += 1;
    }
    assert(fv.skip(i as int).len() == 0);
    None
}

/// Branch names with a merged pull request, each once, from the listing that
/// `gh pr list --state merged --json headRefName` prints.
pub fn merged_pr_branches(listing: &JsonValue) -> (r: Vec<String>)
    ensures
        r.deep_view().to_set() == listed_branches(listing@),
        r.deep_view().no_duplicates(),
{
    let mut out: Vec<String> = Vec::new();
    match listing {
        JsonValue::Array(items) => {
            proof {
                lemma_array_view(*items);
            }
            let ghost iv = items_view(items@);
            let key = crate::text::owned_text("headRefName");
            let mut i: usize = 0;
            while i < items.len()
                invariant
                    iv == items_view(items@),
                    i <= items.len(),
                    key@ == "headRefName"@,
                    out.deep_view().no_duplicates(),
                    forall|b: Seq<char>|
                        out.deep_view().contains(b) <==> exists|k: int|
                            0 <= k < i && head_ref_name(#[trigger] iv[k]) == Some(b),
                decreases items.len() - i,
            {
                let found = match &items[i] {
                    JsonValue::Object(fields) => {
                        proof {
                            lemma_object_view(*fields);
                        }
                        member_str(fields, &key)
                    },
                    _ => None,
                };
                assert(iv[i as int] == json_view(items@[i as int]));
                assert(found.deep_view() == head_ref_name(iv[i as int]));
                let ghost prev = out.deep_view();
                match found {
                    Some(name) => {
                        if !contains_string(&out, &name) {
                            out.push(name);
                            assert(out.deep_view() =~= prev.push(name@));
                        }
                    },
                    None => {},
                }
                assert forall|b: Seq<char>|
                    out.deep_view().contains(b) <==> exists|k: int|
                        0 <= k < i + 1 && head_ref_name(#[trigger] iv[k]) == Some(b) by {
                    if out.deep_view().contains(b) && !prev.contains(b) {
                        assert(head_ref_name(iv[i as int]) == Some(b));
                    }
                    if exists|k: int| 0 <= k < i + 1 && head_ref_name(#[trigger] iv[k]) == Some(b) {
                        let k = choose|k: int| 0 <= k < i + 1 && head_ref_name(#[trigger] iv[k]) == Some(b);
                        if k == i {
                            if !prev.contains(b) {
                                assert(out.deep_view().last() == b);
                            }
                        }
                    }
                    if prev.contains(b) {
                        let j = choose|j: int| 0 <= j < prev.len() && prev[j] == b;
                        assert(out.deep_view()[j] == b);
                    }
                }
                i += 1;
            }
            assert(out.deep_view().to_set() =~= listed_branches(listing@));
        },
        _ => {
            assert(out.deep_view().to_set() =~= listed_branches(listing@));
        },
    }
    out
}

/// What `serde_json` reads from `bytes` as a JSON document: `None` when they
/// are not valid JSON.
pub uninterp spec fn parsed_json(bytes: Seq<u8>) -> Option<JsonView>;

#[verifier::external_type_specification]
#[verifier::external_body]
pub struct ExSerdeJsonValue(serde_json::Value);

/// Turns `serde_json::Value` into a [`JsonValue`] variant by variant, numbers
/// by their `Display` text and objects in their map's order. Its argument is
/// opaque here, so nothing is stated; [`parse_json`] states the whole reading.
#[verifier::external_body]
fn json_tree(v: serde_json::Value) -> JsonValue {
    match v {
        serde_json::Value::Null => JsonValue::Null,
        serde_json::Value::Bool(b) => JsonValue::Bool(b),
        serde_json::Value::Number(n) => JsonValue::Number(n.to_string()),
        serde_json::Value::String(s) => JsonValue::Str(s),
        serde_json::Value::Array(a) => JsonValue::Array(a.into_iter().map(json_tree).collect()),
        serde_json::Value::Object(m) => JsonValue::Object(m.into_iter().map(|(k, v)| (k, json_tree(v))).collect()),
    }
}

/// Calls `serde_json::from_slice::<serde_json::Value>` and converts the value
/// with `json_tree`. Its result is named `parsed_json`, of the bytes alone.
#[verifier::external_body]
pub(crate) fn parse_json(bytes: &[u8]) -> (r: Option<JsonValue>)
    ensures
        (match r {
            Some(v) => Some(v@),
            None => None::<JsonView>,
        }) == parsed_json(bytes@),
{
    serde_json::from_slice::<serde_json::Value>(bytes).ok().map(json_tree)
}

/// The merged pull requests' branches given `gh pr list`'s exit status and
/// stdout: none when `gh` failed or printed no valid JSON.
pub open spec fn gh_listed_branches(success: bool, stdout: Seq<u8>) -> Set<Seq<char>> {
    if !success {
        Set::empty()
    } else {
        match parsed_json(stdout) {
            Some(j) => listed_branches(j),
            None => Set::empty(),
        }
    }
}

/// Branch names with a merged pull request, each once, from the run of
/// `gh pr list --state merged --json headRefName`.
pub fn merged_pr_branches_of(success: bool, stdout: &[u8]) -> (r: Vec<String>)
    ensures
        r.deep_view().to_set() == gh_listed_branches(success, stdout@),
        r.deep_view().no_duplicates(),
{
    if !success {
        let r: Vec<String> = Vec::new();
        assert(r.deep_view().to_set() =~= Set::<Seq<char>>::empty());
        return r;
    }
    match parse_json(stdout) {
        Some(v) => merged_pr_branches(&v),
        None => {
            let r: Vec<String> = Vec::new();
            assert(r.deep_view().to_set() =~= Set::<Seq<char>>::empty());
            r
        },
    }
}

} // verus!
