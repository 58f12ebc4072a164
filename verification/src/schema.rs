//! What the description of the API (an OpenAPI document) says of the
//! resources.

use crate::json::{
    field, fields_view, find_field, items_view, lookup, opt_json, opt_str, then_array, then_field,
    then_fields, then_get, then_items, then_object, then_str, then_text, FieldsView, Json, JsonView,
};
use crate::markdown::{
    described, first_prose_line, prose_in, render_tag_description, shown,
};
use crate::order::{
    add_key, comes_before, in_order, insert_key, law_insert_key, lemma_precedes_total, lemma_precedes_transitive,
    precedes, TextMap,
};
use crate::outside::{quoted, quoted_text};
use crate::skills::{guidance, lookup as guidance_on};
use crate::text::{
    add_line, begins_with, byte_length, ends_with, finishes_with, has_text, holds_char, holds_text,
    join, joined, law_put_around, law_taken_apart, lower, lowered, no_lines, opt_text, range_of,
    same, split, starts_with, texts, to_chars, trim, trim_start, trimmed, without_start, CharClass,
};
use vstd::prelude::*;
use vstd::string::*;
use vstd::utf8::encode_utf8;

verus! {

/// What follows a start that a text has.
pub open spec fn after_start(s: Seq<char>, start: Seq<char>) -> Option<Seq<char>> {
    if starts_with(s, start) {
        Some(s.skip(start.len() as int))
    } else {
        None
    }
}

/// What precedes an end that a text has.
pub open spec fn before_end(s: Seq<char>, end: Seq<char>) -> Option<Seq<char>> {
    if ends_with(s, end) {
        Some(s.take(s.len() - end.len()))
    } else {
        None
    }
}

fn cut_start(s: &str, start: &str) -> (r: Option<String>)
    ensures
        opt_text(r) == after_start(s@, start@),
{
    if begins_with(s, start) {
        let chars = to_chars(s);
        let n: usize = start.unicode_len();
        assert(s@.skip(n as int) =~= s@.subrange(n as int, s@.len() as int));
        Some(range_of(chars.as_slice(), n, chars.len()))
    } else {
        None
    }
}

fn cut_end(s: &str, end: &str) -> (r: Option<String>)
    ensures
        opt_text(r) == before_end(s@, end@),
{
    if finishes_with(s, end) {
        let chars = to_chars(s);
        let n: usize = chars.len() - end.unicode_len();
        assert(s@.take(n as int) =~= s@.subrange(0, n as int));
        Some(range_of(chars.as_slice(), 0, n))
    } else {
        None
    }
}

/// The description of the first of the tags that has this name.
pub open spec fn tag_in(tags: Seq<JsonView>, name: Seq<char>) -> Option<Seq<char>>
    decreases tags.len(),
{
    if tags.len() == 0 {
        None
    } else if then_text(field(tags[0], "name"@)) == Some(name) {
        then_text(field(tags[0], "description"@))
    } else {
        tag_in(tags.drop_first(), name)
    }
}

/// The description of a tag.
pub open spec fn tag_text(doc: JsonView, name: Seq<char>) -> Option<Seq<char>> {
    match then_array(field(doc, "tags"@)) {
        Some(tags) => tag_in(tags, name),
        None => None,
    }
}

/// The description of a tag.
pub fn tag_description<'a>(doc: &'a Json, tag_name: &str) -> (r: Option<&'a str>)
    ensures
        opt_str(r) == tag_text(doc@, tag_name@),
{
    let tags = match then_items(doc.get("tags")) {
        Some(t) => t,
        None => {
            return None;
        },
    };
    let ghost all = items_view(tags@);
    let mut i: usize = 0;
    assert(all.skip(0) =~= all);
    while i < tags.len()
        invariant
            i <= tags@.len(),
            all == items_view(tags@),
            tag_text(doc@, tag_name@) == tag_in(all.skip(i as int), tag_name@),
        decreases tags@.len() - i,
    {
        assert(all.skip(i as int)[0] == tags@[i as int]@);
        assert(all.skip(i as int).drop_first() =~= all.skip(i + 1));
        if let Some(name) = then_str(tags[i].get("name")) {
            if same(name, tag_name) {
                return then_str(tags[i].get("description"));
            }
        }
        i = i + 1;
    }
    None
}

/// The first tag of an operation.
pub open spec fn tag_of(operation: JsonView) -> Option<Seq<char>> {
    match then_array(field(operation, "tags"@)) {
        Some(tags) => if tags.len() > 0 {
            then_text(Some(tags[0]))
        } else {
            None
        },
        None => None,
    }
}

fn operation_tag<'a>(operation: &'a Json) -> (r: Option<&'a str>)
    ensures
        opt_str(r) == tag_of(operation@),
{
    match then_items(operation.get("tags")) {
        Some(tags) => {
            assert(items_view(tags@).len() == tags@.len());
            if tags.len() > 0 {
                assert(items_view(tags@)[0] == tags@[0]@);
                tags[0].as_str()
            } else {
                None
            }
        },
        None => None,
    }
}

/// A name without the `s` at its end.
pub open spec fn singular(s: Seq<char>) -> Seq<char> {
    match before_end(s, "s"@) {
        Some(x) => x,
        None => s,
    }
}

fn singular_of(s: &str) -> (r: String)
    ensures
        r@ == singular(s@),
{
    match cut_end(s, "s") {
        Some(x) => x,
        None => s.to_owned(),
    }
}

/// The resource that a path is the collection of.
pub open spec fn collection(path: Seq<char>) -> Option<Seq<char>> {
    match after_start(path, "/"@) {
        Some(name) => if name.len() > 0 && !name.contains('/') {
            Some(name)
        } else {
            None
        },
        None => None,
    }
}

/// A resource resembles a query where one of the two, but for the case and the
/// plural, is part of the other and is not a single letter.
pub open spec fn resembles(name: Seq<char>, query: Seq<char>) -> bool {
    let q = lower(query);
    let n = lower(name);
    ||| encode_utf8(singular(q)).len() >= 2 && has_text(n, singular(q))
    ||| encode_utf8(singular(n)).len() >= 2 && has_text(q, singular(n))
}

/// One of the two begins with the other.
pub open spec fn begins_alike(name: Seq<char>, query: Seq<char>) -> bool {
    let q = lower(query);
    starts_with(lower(name), singular(q)) || starts_with(q, lower(singular(name)))
}

/// Which of two resources is suggested first: the shorter one, then the one
/// that begins alike, then the one that comes first in the alphabet.
pub open spec fn suggested_before(a: Seq<char>, b: Seq<char>, query: Seq<char>) -> bool {
    let la = encode_utf8(a).len();
    let lb = encode_utf8(b).len();
    let pa = begins_alike(a, query);
    let pb = begins_alike(b, query);
    la < lb || (la == lb && ((pa && !pb) || (pa == pb && precedes(a, b))))
}

/// The list with `name` at its rank.
pub open spec fn with_suggestion(list: Seq<Seq<char>>, name: Seq<char>, query: Seq<char>) -> Seq<
    Seq<char>,
>
    decreases list.len(),
{
    if list.len() == 0 || suggested_before(name, list[0], query) {
        seq![name] + list
    } else {
        seq![list[0]] + with_suggestion(list.drop_first(), name, query)
    }
}

/// The resources among the paths that resemble the query, by rank.
pub open spec fn ranked(paths: FieldsView, query: Seq<char>) -> Seq<Seq<char>>
    decreases paths.len(),
{
    if paths.len() == 0 {
        Seq::empty()
    } else {
        let rest = ranked(paths.drop_last(), query);
        match collection(paths.last().0) {
            Some(name) => if resembles(name, query) {
                with_suggestion(rest, name, query)
            } else {
                rest
            },
            None => rest,
        }
    }
}

/// Five resources at most that resemble the query.
pub open spec fn suggestions(doc: JsonView, query: Seq<char>) -> Seq<Seq<char>> {
    match then_object(field(doc, "paths"@)) {
        Some(paths) => {
            let all = ranked(paths, query);
            if all.len() > 5 {
                all.take(5)
            } else {
                all
            }
        },
        None => Seq::empty(),
    }
}

fn collection_of(path: &str) -> (r: Option<String>)
    ensures
        opt_text(r) == collection(path@),
{
    match cut_start(path, "/") {
        Some(name) => if name.as_str().unicode_len() > 0 && !holds_char(name.as_str(), '/') {
            Some(name)
        } else {
            None
        },
        None => None,
    }
}

fn does_resemble(name: &str, query: &str) -> (r: bool)
    ensures
        r == resembles(name@, query@),
{
    let q = lowered(query);
    let n = lowered(name);
    let qs = singular_of(q.as_str());
    let ns = singular_of(n.as_str());
    (byte_length(qs.as_str()) >= 2 && holds_text(n.as_str(), qs.as_str())) || (byte_length(
        ns.as_str(),
    ) >= 2 && holds_text(q.as_str(), ns.as_str()))
}

fn do_begin_alike(name: &str, query: &str) -> (r: bool)
    ensures
        r == begins_alike(name@, query@),
{
    let q = lowered(query);
    let qs = singular_of(q.as_str());
    let n = lowered(name);
    let bare = lowered(singular_of(name).as_str());
    begins_with(n.as_str(), qs.as_str()) || begins_with(q.as_str(), bare.as_str())
}

fn is_suggested_before(a: &str, b: &str, query: &str) -> (r: bool)
    ensures
        r == suggested_before(a@, b@, query@),
{
    let la: usize = byte_length(a);
    let lb: usize = byte_length(b);
    if la != lb {
        return la < lb;
    }
    let pa = do_begin_alike(a, query);
    let pb = do_begin_alike(b, query);
    if pa != pb {
        return pa;
    }
    comes_before(a, b)
}

proof fn lemma_with_suggestion(list: Seq<Seq<char>>, name: Seq<char>, query: Seq<char>, i: int)
    requires
        0 <= i <= list.len(),
        forall|j: int| 0 <= j < i ==> !suggested_before(name, #[trigger] list[j], query),
        i < list.len() ==> suggested_before(name, list[i], query),
    ensures
        with_suggestion(list, name, query) == list.insert(i, name),
    decreases list.len(),
{
    if i == 0 {
        assert(with_suggestion(list, name, query) =~= list.insert(0, name));
    } else {
        let rest = list.drop_first();
        assert forall|j: int| 0 <= j < i - 1 implies !suggested_before(
            name,
            #[trigger] rest[j],
            query,
        ) by {
            assert(rest[j] == list[j + 1]);
        }
        lemma_with_suggestion(rest, name, query, i - 1);
        assert(!suggested_before(name, list[0], query));
        assert(seq![list[0]] + rest.insert(i - 1, name) =~= list.insert(i, name));
    }
}

fn add_suggestion(list: &mut Vec<String>, name: String, query: &str)
    ensures
        texts(final(list)@) == with_suggestion(texts(old(list)@), name@, query@),
{
    let ghost before = texts(list@);
    let mut i: usize = 0;
    while i < list.len() && !is_suggested_before(name.as_str(), list[i].as_str(), query)
        invariant
            i <= list@.len(),
            texts(list@) == before,
            forall|j: int| 0 <= j < i ==> !suggested_before(name@, #[trigger] before[j], query@),
        decreases list@.len() - i,
    {
        i = i + 1;
    }
    proof {
        lemma_with_suggestion(before, name@, query@, i as int);
    }
    list.insert(i, name);
    assert(texts(list@) =~= before.insert(i as int, name@));
}

/// The resources that a query may have meant, five at most, the likeliest
/// first.
pub fn suggest_resources(doc: &Json, query: &str) -> (r: Vec<String>)
    ensures
        texts(r@) == suggestions(doc@, query@),
{
    let paths = match then_fields(doc.get("paths")) {
        Some(p) => p,
        None => {
            return no_lines();
        },
    };
    let ghost all = fields_view(paths@);
    let mut list = no_lines();
    let mut i: usize = 0;
    while i < paths.len()
        invariant
            i <= paths@.len(),
            all == fields_view(paths@),
            texts(list@) == ranked(all.take(i as int), query@),
        decreases paths@.len() - i,
    {
        assert(all.take(i + 1).drop_last() =~= all.take(i as int));
        assert(all[i as int].0 == paths@[i as int].0@);
        if let Some(name) = collection_of(paths[i].0.as_str()) {
            if does_resemble(name.as_str(), query) {
                add_suggestion(&mut list, name, query);
            }
        }
        i = i + 1;
    }
    assert(all.take(i as int) =~= all);
    let ghost whole = texts(list@);
    assert(whole.len() == list@.len());
    if list.len() > 5 {
        list.truncate(5);
        assert(texts(list@) =~= whole.take(5));
    }
    list
}

/// Everything that is suggested resembles the query and is a collection of the
/// API.
pub proof fn law_suggestions_resemble(paths: FieldsView, query: Seq<char>, i: int)
    requires
        0 <= i < ranked(paths, query).len(),
    ensures
        resembles(ranked(paths, query)[i], query),
        exists|j: int|
            0 <= j < paths.len() && collection((#[trigger] paths[j]).0) == Some(
                ranked(paths, query)[i],
            ),
    decreases paths.len(),
{
    let rest = paths.drop_last();
    let list = ranked(rest, query);
    let found = ranked(paths, query)[i];
    let last = collection(paths.last().0);
    if last is Some && resembles(last->0, query) {
        lemma_suggestion_members(list, last->0, query, i);
        if found == last->0 {
            assert(paths[paths.len() - 1] == paths.last());
        } else {
            let k = choose|k: int| 0 <= k < list.len() && list[k] == found;
            law_suggestions_resemble(rest, query, k);
            let j = choose|j: int|
                0 <= j < rest.len() && collection((#[trigger] rest[j]).0) == Some(found);
            assert(paths[j] == rest[j]);
        }
    } else {
        law_suggestions_resemble(rest, query, i);
        let j = choose|j: int|
            0 <= j < rest.len() && collection((#[trigger] rest[j]).0) == Some(found);
        assert(paths[j] == rest[j]);
    }
}

proof fn lemma_suggestion_members(list: Seq<Seq<char>>, name: Seq<char>, query: Seq<char>, i: int)
    requires
        0 <= i < with_suggestion(list, name, query).len(),
    ensures
        with_suggestion(list, name, query)[i] == name || exists|k: int|
            0 <= k < list.len() && list[k] == with_suggestion(list, name, query)[i],
    decreases list.len(),
{
    let after = with_suggestion(list, name, query);
    if list.len() == 0 || suggested_before(name, list[0], query) {
        if i > 0 {
            assert(list[i - 1] == after[i]);
        }
    } else {
        if i == 0 {
            assert(list[0] == after[0]);
        } else {
            let rest = list.drop_first();
            lemma_suggestion_members(rest, name, query, i - 1);
            if after[i] != name {
                let k = choose|k: int|
                    0 <= k < rest.len() && rest[k] == with_suggestion(rest, name, query)[i - 1];
                assert(list[k + 1] == after[i]);
            }
        }
    }
}

/// Whether no text stands before one that is suggested sooner.
spec fn by_rank(list: Seq<Seq<char>>, query: Seq<char>) -> bool {
    forall|i: int, j: int|
        0 <= i < j < list.len() ==> !suggested_before(#[trigger] list[j], #[trigger] list[i], query)
}

proof fn lemma_suggested_before_total(a: Seq<char>, b: Seq<char>, query: Seq<char>)
    ensures
        a == b ==> !suggested_before(a, b, query),
        a != b ==> suggested_before(a, b, query) != suggested_before(b, a, query),
{
    lemma_precedes_total(a, b);
}

proof fn lemma_suggested_before_transitive(
    a: Seq<char>,
    b: Seq<char>,
    c: Seq<char>,
    query: Seq<char>,
)
    requires
        suggested_before(a, b, query),
        suggested_before(b, c, query),
    ensures
        suggested_before(a, c, query),
{
    if precedes(a, b) && precedes(b, c) {
        lemma_precedes_transitive(a, b, c);
    }
}

/// The place that a name takes in a list.
proof fn lemma_suggestion_place(
    list: Seq<Seq<char>>,
    name: Seq<char>,
    query: Seq<char>,
) -> (i: int)
    ensures
        0 <= i <= list.len(),
        forall|j: int| 0 <= j < i ==> !suggested_before(name, #[trigger] list[j], query),
        i < list.len() ==> suggested_before(name, list[i], query),
        with_suggestion(list, name, query) == list.insert(i, name),
    decreases list.len(),
{
    if list.len() == 0 || suggested_before(name, list[0], query) {
        lemma_with_suggestion(list, name, query, 0);
        0
    } else {
        let rest = list.drop_first();
        let k = lemma_suggestion_place(rest, name, query);
        assert forall|j: int| 0 <= j < k + 1 implies !suggested_before(
            name,
            #[trigger] list[j],
            query,
        ) by {
            if j > 0 {
                assert(rest[j - 1] == list[j]);
            }
        }
        lemma_with_suggestion(list, name, query, k + 1);
        k + 1
    }
}

proof fn lemma_ranked_by_rank(paths: FieldsView, query: Seq<char>)
    ensures
        by_rank(ranked(paths, query), query),
    decreases paths.len(),
{
    if paths.len() > 0 {
        let list = ranked(paths.drop_last(), query);
        lemma_ranked_by_rank(paths.drop_last(), query);
        let last = collection(paths.last().0);
        if last is Some && resembles(last->0, query) {
            let name = last->0;
            let k = lemma_suggestion_place(list, name, query);
            let after = list.insert(k, name);
            assert forall|i: int, j: int| 0 <= i < j < after.len() implies !suggested_before(
                #[trigger] after[j],
                #[trigger] after[i],
                query,
            ) by {
                if i == k && suggested_before(after[j], name, query) {
                    assert(after[j] == list[j - 1]);
                    lemma_suggested_before_transitive(list[j - 1], name, list[k], query);
                    lemma_suggested_before_total(list[k], list[k], query);
                }
            }
        }
    }
}

/// Suggestions stand by rank: of two, the one that is suggested before the
/// other stands first.
pub proof fn law_suggestions_by_rank(paths: FieldsView, query: Seq<char>, i: int, j: int)
    requires
        0 <= i < j < ranked(paths, query).len(),
    ensures
        suggested_before(ranked(paths, query)[i], ranked(paths, query)[j], query) || ranked(
            paths,
            query,
        )[i] == ranked(paths, query)[j],
{
    lemma_ranked_by_rank(paths, query);
    lemma_suggested_before_total(ranked(paths, query)[i], ranked(paths, query)[j], query);
}

/// Every collection that resembles the query has a rank.
pub proof fn law_resembling_are_ranked(
    paths: FieldsView,
    query: Seq<char>,
    name: Seq<char>,
    at: int,
)
    requires
        0 <= at < paths.len(),
        collection(paths[at].0) == Some(name),
        resembles(name, query),
    ensures
        ranked(paths, query).contains(name),
    decreases paths.len(),
{
    let list = ranked(paths.drop_last(), query);
    let last = collection(paths.last().0);
    if at < paths.len() - 1 {
        assert(paths.drop_last()[at] == paths[at]);
        law_resembling_are_ranked(paths.drop_last(), query, name, at);
    }
    if last is Some && resembles(last->0, query) {
        let k = lemma_suggestion_place(list, last->0, query);
        let after = list.insert(k, last->0);
        assert(after[k] == last->0);
        if at < paths.len() - 1 {
            let m = choose|m: int| 0 <= m < list.len() && list[m] == name;
            assert(after[if m < k {
                m
            } else {
                m + 1
            }] == name);
        }
    }
}

/// No collection is suggested twice, since no path stands twice in a document.
pub proof fn law_suggested_once(paths: FieldsView, query: Seq<char>)
    requires
        forall|i: int, j: int|
            0 <= i < j < paths.len() ==> (#[trigger] paths[i]).0 != (#[trigger] paths[j]).0,
    ensures
        ranked(paths, query).no_duplicates(),
    decreases paths.len(),
{
    if paths.len() > 0 {
        let rest = paths.drop_last();
        let list = ranked(rest, query);
        assert forall|i: int, j: int| 0 <= i < j < rest.len() implies (#[trigger] rest[i]).0 != (
        #[trigger] rest[j]).0 by {
            assert(rest[i] == paths[i] && rest[j] == paths[j]);
        }
        law_suggested_once(rest, query);
        let last = collection(paths.last().0);
        if last is Some && resembles(last->0, query) {
            let name = last->0;
            assert forall|m: int| 0 <= m < list.len() implies #[trigger] list[m] != name by {
                law_suggestions_resemble(rest, query, m);
                let n = choose|n: int|
                    0 <= n < rest.len() && collection((#[trigger] rest[n]).0) == Some(list[m]);
                assert(rest[n] == paths[n]);
                if list[m] == name {
                    lemma_collection_injective(paths[n].0, paths.last().0);
                }
            }
            let k = lemma_suggestion_place(list, name, query);
            let after = list.insert(k, name);
            assert(after.no_duplicates());
        }
    }
}

proof fn lemma_collection_injective(a: Seq<char>, b: Seq<char>)
    requires
        collection(a) is Some,
        collection(a) == collection(b),
    ensures
        a == b,
{
    assert(a =~= "/"@ + collection(a)->0);
    assert(b =~= "/"@ + collection(b)->0);
}

/// The filter that a parameter of a GET is, and whether it takes several
/// values.
pub open spec fn filter_param(p: JsonView) -> Option<(Seq<char>, bool)> {
    if then_text(field(p, "in"@)) != Some("query"@) {
        None
    } else {
        match then_text(field(p, "name"@)) {
            Some(name) => match after_start(name, "filter["@) {
                Some(rest) => match before_end(rest, "]"@) {
                    Some(inner) => Some(
                        (
                            lower(inner),
                            then_text(then_field(field(p, "schema"@), "type"@)) == Some("array"@),
                        ),
                    ),
                    None => None,
                },
                None => None,
            },
            None => None,
        }
    }
}

/// The parameters of an operation.
pub open spec fn params_of(operation: JsonView) -> Seq<JsonView> {
    match then_array(field(operation, "parameters"@)) {
        Some(params) => params,
        None => Seq::empty(),
    }
}

/// The filters among the parameters, by name.
pub open spec fn filter_types(params: Seq<JsonView>) -> Map<Seq<char>, bool>
    decreases params.len(),
{
    if params.len() == 0 {
        Map::empty()
    } else {
        let rest = filter_types(params.drop_last());
        match filter_param(params.last()) {
            Some(f) => rest.insert(f.0, f.1),
            None => rest,
        }
    }
}

fn read_filter_param(p: &Json) -> (r: Option<(String, bool)>)
    ensures
        match r {
            Some(f) => filter_param(p@) == Some((f.0@, f.1)),
            None => filter_param(p@) is None,
        },
{
    match then_str(p.get("in")) {
        Some(place) => if !same(place, "query") {
            return None;
        },
        None => {
            return None;
        },
    }
    let name = match then_str(p.get("name")) {
        Some(n) => n,
        None => {
            return None;
        },
    };
    let rest = match cut_start(name, "filter[") {
        Some(x) => x,
        None => {
            return None;
        },
    };
    let inner = match cut_end(rest.as_str(), "]") {
        Some(x) => x,
        None => {
            return None;
        },
    };
    let several = match then_str(then_get(p.get("schema"), "type")) {
        Some(t) => same(t, "array"),
        None => false,
    };
    Some((lowered(inner.as_str()), several))
}

fn read_filter_types(params: &Vec<Json>) -> (r: TextMap<bool>)
    ensures
        r@ == filter_types(items_view(params@)),
{
    let ghost all = items_view(params@);
    let mut out: TextMap<bool> = TextMap::new();
    let mut i: usize = 0;
    while i < params.len()
        invariant
            i <= params@.len(),
            all == items_view(params@),
            out@ == filter_types(all.take(i as int)),
        decreases params@.len() - i,
    {
        assert(all.take(i + 1).drop_last() =~= all.take(i as int));
        assert(all[i as int] == params@[i as int]@);
        if let Some((name, several)) = read_filter_param(&params[i]) {
            out.insert(name.as_str(), several);
        }
        i = i + 1;
    }
    assert(all.take(i as int) =~= all);
    out
}

/// The filters among the parameters of a GET, by name: `true` for those that
/// take several values.
pub fn structured_filter_types(get_op: &Json) -> (r: TextMap<bool>)
    ensures
        r@ == filter_types(params_of(get_op@)),
{
    match then_items(get_op.get("parameters")) {
        Some(params) => read_filter_types(params),
        None => TextMap::new(),
    }
}

/// The names, in order and each once.
pub open spec fn sorted_names(names: Seq<Seq<char>>) -> Seq<Seq<char>>
    decreases names.len(),
{
    if names.len() == 0 {
        Seq::empty()
    } else {
        insert_key(sorted_names(names.drop_last()), names.last())
    }
}

/// The filters that the description names, in lower case, and those among the
/// parameters.
pub open spec fn filter_names(named: Seq<Seq<char>>, params: Seq<JsonView>) -> Seq<Seq<char>>
    decreases named.len() + params.len(),
{
    if params.len() > 0 {
        let rest = filter_names(named, params.drop_last());
        match filter_param(params.last()) {
            Some(f) => insert_key(rest, f.0),
            None => rest,
        }
    } else if named.len() > 0 {
        insert_key(filter_names(named.drop_last(), params), lower(named.last()))
    } else {
        Seq::empty()
    }
}

/// How a filter is shown.
pub open spec fn filter_line(name: Seq<char>, types: Map<Seq<char>, bool>) -> Seq<char> {
    if !types.dom().contains(name) {
        "  "@ + name
    } else if types[name] {
        "  "@ + name + " [array; repeat --filter "@ + name + "=<value> for multiple values]"@
    } else {
        "  "@ + name + " [scalar]"@
    }
}

/// What is shown of the filters and the sortable fields.
pub open spec fn query_surface(
    operation: JsonView,
    filters: Seq<Seq<char>>,
    sortable: Seq<Seq<char>>,
) -> Seq<Seq<char>> {
    let names = filter_names(filters, params_of(operation));
    let types = filter_types(params_of(operation));
    let first = if names.len() > 0 {
        seq!["filters (pass with `--filter <name>=<value>`):"@] + Seq::new(
            names.len(),
            |i: int| filter_line(names[i], types),
        ) + seq![""@]
    } else {
        Seq::empty()
    };
    let second = if sortable.len() > 0 {
        seq![
            "sortable fields (pass with `--sort <field>`, `-` prefix for descending):"@,
            "  "@ + join(sortable, ", "@) + "\n"@,
        ]
    } else {
        Seq::empty()
    };
    first + second
}

fn all_filter_names(named: &Vec<String>, params: &Vec<Json>) -> (r: Vec<String>)
    ensures
        texts(r@) == filter_names(texts(named@), items_view(params@)),
        in_order(texts(r@)),
{
    let ghost list = texts(named@);
    let ghost all = items_view(params@);
    let mut names = no_lines();
    let mut i: usize = 0;
    while i < named.len()
        invariant
            i <= named@.len(),
            list == texts(named@),
            in_order(texts(names@)),
            texts(names@) == filter_names(list.take(i as int), Seq::empty()),
        decreases named@.len() - i,
    {
        assert(list.take(i + 1).drop_last() =~= list.take(i as int));
        assert(list[i as int] == named@[i as int]@);
        add_key(&mut names, lowered(named[i].as_str()).as_str());
        i = i + 1;
    }
    assert(list.take(i as int) =~= list);
    let mut n: usize = 0;
    assert(all.take(0) =~= Seq::empty());
    while n < params.len()
        invariant
            n <= params@.len(),
            all == items_view(params@),
            in_order(texts(names@)),
            texts(names@) == filter_names(list, all.take(n as int)),
        decreases params@.len() - n,
    {
        assert(all.take(n + 1).drop_last() =~= all.take(n as int));
        assert(all[n as int] == params@[n as int]@);
        if let Some((name, _)) = read_filter_param(&params[n]) {
            add_key(&mut names, name.as_str());
        }
        n = n + 1;
    }
    assert(all.take(n as int) =~= all);
    names
}

fn surface_with(
    params: &Vec<Json>,
    md_filters: &Vec<String>,
    lines: &mut Vec<String>,
)
    ensures
        ({
            let names = filter_names(texts(md_filters@), items_view(params@));
            let types = filter_types(items_view(params@));
            texts(final(lines)@) == texts(old(lines)@) + (if names.len() > 0 {
                seq!["filters (pass with `--filter <name>=<value>`):"@] + Seq::new(
                    names.len(),
                    |i: int| filter_line(names[i], types),
                ) + seq![""@]
            } else {
                Seq::empty()
            })
        }),
{
    let ghost before = texts(lines@);
    let names = all_filter_names(md_filters, params);
    let types = read_filter_types(params);
    let ghost view = texts(names@);
    assert(view.len() == names@.len());
    let ghost shown = Seq::new(view.len(), |i: int| filter_line(view[i], types@));
    if names.len() > 0 {
        add_line(lines, "filters (pass with `--filter <name>=<value>`):".to_owned());
        let ghost head = texts(lines@);
        let mut i: usize = 0;
        assert(head + shown.take(0) =~= head);
        while i < names.len()
            invariant
                i <= names@.len(),
                view == texts(names@),
                shown == Seq::new(view.len(), |i: int| filter_line(view[i], types@)),
                texts(lines@) == head + shown.take(i as int),
            decreases names@.len() - i,
        {
            let name = names[i].as_str();
            let line = match types.get(name) {
                Some(several) => if *several {
                    "  ".to_owned().concat(name).concat(" [array; repeat --filter ").concat(
                        name,
                    ).concat("=<value> for multiple values]")
                } else {
                    "  ".to_owned().concat(name).concat(" [scalar]")
                },
                None => "  ".to_owned().concat(name),
            };
            assert(line@ == filter_line(view[i as int], types@));
            add_line(lines, line);
            assert(head + shown.take(i + 1) =~= (head + shown.take(i as int)).push(
                shown[i as int],
            ));
            i = i + 1;
        }
        assert(shown.take(i as int) =~= shown);
        add_line(lines, "".to_owned());
        assert(texts(lines@) =~= before + (
        seq!["filters (pass with `--filter <name>=<value>`):"@] + shown + seq![""@]));
    } else {
        assert(texts(lines@) =~= before + Seq::<Seq<char>>::empty());
    }
}

/// What is shown of the filters and the sortable fields of a collection. The
/// tables of the description name all of them; whether a filter takes several
/// values is known where the parameters tell.
pub fn print_query_surface(get_op: &Json, md_filters: &Vec<String>, md_sortable: &Vec<String>) -> (r: Vec<
    String,
>)
    ensures
        texts(r@) == query_surface(get_op@, texts(md_filters@), texts(md_sortable@)),
{
    let mut lines = no_lines();
    match then_items(get_op.get("parameters")) {
        Some(params) => surface_with(params, md_filters, &mut lines),
        None => {
            let none: Vec<Json> = Vec::new();
            assert(items_view(none@) =~= Seq::empty());
            surface_with(&none, md_filters, &mut lines);
        },
    }
    assert(texts(md_sortable@).len() == md_sortable@.len());
    if md_sortable.len() > 0 {
        add_line(
            &mut lines,
            "sortable fields (pass with `--sort <field>`, `-` prefix for descending):".to_owned(),
        );
        add_line(
            &mut lines,
            "  ".to_owned().concat(joined(md_sortable.as_slice(), ", ").as_str()).concat("\n"),
        );
    }
    assert(texts(lines@) =~= query_surface(get_op@, texts(md_filters@), texts(md_sortable@)));
    lines
}

/// A row of the list of resources: path, methods and description.
pub type Row = (Seq<char>, Seq<char>, Seq<char>);

pub open spec fn method_list(operations: JsonView, methods: Seq<(Seq<char>, Seq<char>)>) -> Seq<
    Seq<char>,
>
    decreases methods.len(),
{
    if methods.len() == 0 {
        Seq::empty()
    } else {
        let rest = method_list(operations, methods.drop_last());
        if field(operations, methods.last().0) is Some {
            rest.push(methods.last().1)
        } else {
            rest
        }
    }
}

pub open spec fn all_methods() -> Seq<(Seq<char>, Seq<char>)> {
    seq![
        ("get"@, "GET"@),
        ("post"@, "POST"@),
        ("patch"@, "PATCH"@),
        ("put"@, "PUT"@),
        ("delete"@, "DELETE"@),
    ]
}

/// The operation that stands for a collection.
pub open spec fn main_operation(operations: JsonView) -> Option<JsonView> {
    match field(operations, "get"@) {
        Some(op) => Some(op),
        None => field(operations, "post"@),
    }
}

pub open spec fn text_or_empty(t: Option<Seq<char>>) -> Seq<char> {
    match t {
        Some(s) => s,
        None => Seq::empty(),
    }
}

/// The row of a path, where it has one: not a path with a place for an id, and
/// one that can be read or written.
pub open spec fn row_of(doc: JsonView, path: Seq<char>, operations: JsonView) -> Option<Row> {
    if path.contains('{') {
        None
    } else {
        match main_operation(operations) {
            Some(op) => Some(
                (
                    path,
                    join(method_list(operations, all_methods()), "/"@),
                    match tag_text(doc, text_or_empty(tag_of(op))) {
                        Some(d) => prose_in(split(d, '\n')),
                        None => Seq::empty(),
                    },
                ),
            ),
            None => None,
        }
    }
}

/// The rows with `row` where its path belongs, behind its equals.
pub open spec fn with_row(rows: Seq<Row>, row: Row) -> Seq<Row>
    decreases rows.len(),
{
    if rows.len() == 0 || precedes(row.0, rows[0].0) {
        seq![row] + rows
    } else {
        seq![rows[0]] + with_row(rows.drop_first(), row)
    }
}

/// The rows of the paths, in the order of the paths.
pub open spec fn rows_of(doc: JsonView, paths: FieldsView) -> Seq<Row>
    decreases paths.len(),
{
    if paths.len() == 0 {
        Seq::empty()
    } else {
        let rest = rows_of(doc, paths.drop_last());
        match row_of(doc, paths.last().0, paths.last().1) {
            Some(row) => with_row(rest, row),
            None => rest,
        }
    }
}

pub open spec fn widest(rows: Seq<Row>, first: bool, least: nat) -> nat
    decreases rows.len(),
{
    if rows.len() == 0 {
        least
    } else {
        let rest = widest(rows.drop_last(), first, least);
        let n = if first {
            rows.last().0.len()
        } else {
            rows.last().1.len()
        };
        if n > rest {
            n
        } else {
            rest
        }
    }
}

/// A text with spaces behind it, up to a width.
pub open spec fn padded(s: Seq<char>, width: nat) -> Seq<char> {
    if s.len() < width {
        s + Seq::new((width - s.len()) as nat, |i: int| ' ')
    } else {
        s
    }
}

pub open spec fn row_line(row: Row, paths: nat, methods: nat) -> Seq<char> {
    padded(row.0, paths) + " "@ + padded(row.1, methods) + " "@ + row.2
}

/// The lines of the list of resources, in columns.
pub open spec fn resource_lines(rows: Seq<Row>) -> Seq<Seq<char>> {
    Seq::new(
        rows.len(),
        |i: int| row_line(rows[i], widest(rows, true, 45), widest(rows, false, 25)),
    )
}

pub open spec fn row_views(rows: Seq<(String, String, String)>) -> Seq<Row> {
    Seq::new(rows.len(), |i: int| (rows[i].0@, rows[i].1@, rows[i].2@))
}

pub open spec fn lines_result(r: Result<Vec<String>, String>) -> Result<Seq<Seq<char>>, Seq<char>> {
    match r {
        Ok(lines) => Ok(texts(lines@)),
        Err(e) => Err(e@),
    }
}

fn methods_of(operations: &Json) -> (r: String)
    ensures
        r@ == join(method_list(operations@, all_methods()), "/"@),
{
    let mut names: Vec<(&str, &str)> = Vec::new();
    names.push(("get", "GET"));
    names.push(("post", "POST"));
    names.push(("patch", "PATCH"));
    names.push(("put", "PUT"));
    names.push(("delete", "DELETE"));
    let ghost all = all_methods();
    let mut list = no_lines();
    let mut i: usize = 0;
    while i < names.len()
        invariant
            i <= names@.len(),
            names@.len() == all.len(),
            forall|j: int|
                0 <= j < all.len() ==> names@[j].0@ == (#[trigger] all[j]).0 && names@[j].1@
                    == all[j].1,
            texts(list@) == method_list(operations@, all.take(i as int)),
        decreases names@.len() - i,
    {
        assert(all.take(i + 1).drop_last() =~= all.take(i as int));
        assert(all.take(i + 1).last() == all[i as int]);
        if operations.get(names[i].0).is_some() {
            add_line(&mut list, names[i].1.to_owned());
        }
        i = i + 1;
    }
    assert(all.take(i as int) =~= all);
    joined(list.as_slice(), "/")
}

fn read_row(doc: &Json, path: &str, operations: &Json) -> (r: Option<(String, String, String)>)
    ensures
        match r {
            Some(row) => row_of(doc@, path@, operations@) == Some((row.0@, row.1@, row.2@)),
            None => row_of(doc@, path@, operations@) is None,
        },
{
    if holds_char(path, '{') {
        return None;
    }
    let op = match operations.get("get") {
        Some(op) => op,
        None => match operations.get("post") {
            Some(op) => op,
            None => {
                return None;
            },
        },
    };
    proof {
        reveal_strlit("");
    }
    let tag = match operation_tag(op) {
        Some(t) => t,
        None => "",
    };
    assert(tag@ =~= text_or_empty(tag_of(op@)));
    let description = match tag_description(doc, tag) {
        Some(d) => first_prose_line(d),
        None => String::new(),
    };
    Some((path.to_owned(), methods_of(operations), description))
}

proof fn lemma_with_row(rows: Seq<Row>, row: Row, i: int)
    requires
        0 <= i <= rows.len(),
        forall|j: int| 0 <= j < i ==> !precedes(row.0, (#[trigger] rows[j]).0),
        i < rows.len() ==> precedes(row.0, rows[i].0),
    ensures
        with_row(rows, row) == rows.insert(i, row),
    decreases rows.len(),
{
    if i == 0 {
        assert(with_row(rows, row) =~= rows.insert(0, row));
    } else {
        let rest = rows.drop_first();
        assert forall|j: int| 0 <= j < i - 1 implies !precedes(row.0, (#[trigger] rest[j]).0) by {
            assert(rest[j] == rows[j + 1]);
        }
        lemma_with_row(rest, row, i - 1);
        assert(!precedes(row.0, rows[0].0));
        assert(seq![rows[0]] + rest.insert(i - 1, row) =~= rows.insert(i, row));
    }
}

fn read_rows(doc: &Json, paths: &Vec<(String, Json)>) -> (r: Vec<(String, String, String)>)
    ensures
        row_views(r@) == rows_of(doc@, fields_view(paths@)),
{
    let ghost all = fields_view(paths@);
    let mut rows: Vec<(String, String, String)> = Vec::new();
    assert(row_views(rows@) =~= Seq::empty());
    let mut i: usize = 0;
    while i < paths.len()
        invariant
            i <= paths@.len(),
            all == fields_view(paths@),
            row_views(rows@) == rows_of(doc@, all.take(i as int)),
        decreases paths@.len() - i,
    {
        assert(all.take(i + 1).drop_last() =~= all.take(i as int));
        assert(all[i as int] == (paths@[i as int].0@, paths@[i as int].1@));
        if let Some(row) = read_row(doc, paths[i].0.as_str(), &paths[i].1) {
            let ghost before = row_views(rows@);
            let ghost view = (row.0@, row.1@, row.2@);
            let mut n: usize = 0;
            while n < rows.len() && !comes_before(row.0.as_str(), rows[n].0.as_str())
                invariant
                    n <= rows@.len(),
                    row_views(rows@) == before,
                    view == (row.0@, row.1@, row.2@),
                    forall|j: int| 0 <= j < n ==> !precedes(view.0, (#[trigger] before[j]).0),
                decreases rows@.len() - n,
            {
                n = n + 1;
            }
            proof {
                lemma_with_row(before, view, n as int);
            }
            rows.insert(n, row);
            assert(row_views(rows@) =~= before.insert(n as int, view));
        }
        i = i + 1;
    }
    assert(all.take(i as int) =~= all);
    rows
}

fn widest_of(rows: &Vec<(String, String, String)>, first: bool, least: usize) -> (r: usize)
    ensures
        r == widest(row_views(rows@), first, least as nat),
{
    let ghost all = row_views(rows@);
    let mut width: usize = least;
    let mut i: usize = 0;
    while i < rows.len()
        invariant
            i <= rows@.len(),
            all == row_views(rows@),
            width == widest(all.take(i as int), first, least as nat),
        decreases rows@.len() - i,
    {
        assert(all.take(i + 1).drop_last() =~= all.take(i as int));
        assert(all.take(i + 1).last() == all[i as int]);
        let n: usize = if first {
            rows[i].0.as_str().unicode_len()
        } else {
            rows[i].1.as_str().unicode_len()
        };
        if n > width {
            width = n;
        }
        i = i + 1;
    }
    assert(all.take(i as int) =~= all);
    width
}

fn pad(s: &str, width: usize) -> (r: String)
    ensures
        r@ == padded(s@, width as nat),
{
    let mut out = s.to_owned();
    let n: usize = s.unicode_len();
    let mut i: usize = n;
    while i < width
        invariant
            n == s@.len(),
            n <= i,
            i <= width || i == n,
            out@ == s@ + Seq::new((i - n) as nat, |j: int| ' '),
        decreases width - i,
    {
        out.push(' ');
        i = i + 1;
        assert(out@ =~= s@ + Seq::new((i - n) as nat, |j: int| ' '));
    }
    assert(s@ + Seq::new(0nat, |j: int| ' ') =~= s@);
    out
}

/// The list of resources, or why there is none.
pub open spec fn resource_list(doc: JsonView) -> Result<Seq<Seq<char>>, Seq<char>> {
    match then_object(field(doc, "paths"@)) {
        Some(paths) => Ok(resource_lines(rows_of(doc, paths))),
        None => Err("Spec has no paths"@),
    }
}

/// The lines of the list of resources: path, methods and the first line of
/// prose of the description, in columns and in the order of the paths.
pub fn list_resources(doc: &Json) -> (r: Result<Vec<String>, String>)
    ensures
        lines_result(r) == resource_list(doc@),
{
    let paths = match then_fields(doc.get("paths")) {
        Some(p) => p,
        None => {
            return Err("Spec has no paths".to_owned());
        },
    };
    let rows = read_rows(doc, paths);
    let ghost view = row_views(rows@);
    let path_width: usize = widest_of(&rows, true, 45);
    let methods_width: usize = widest_of(&rows, false, 25);
    let mut lines = no_lines();
    let mut i: usize = 0;
    assert(resource_lines(view).take(0) =~= Seq::empty());
    while i < rows.len()
        invariant
            i <= rows@.len(),
            view == row_views(rows@),
            path_width == widest(view, true, 45),
            methods_width == widest(view, false, 25),
            texts(lines@) == resource_lines(view).take(i as int),
        decreases rows@.len() - i,
    {
        let line = pad(rows[i].0.as_str(), path_width).concat(" ").concat(
            pad(rows[i].1.as_str(), methods_width).as_str(),
        ).concat(" ").concat(rows[i].2.as_str());
        assert(line@ == resource_lines(view)[i as int]);
        add_line(&mut lines, line);
        assert(resource_lines(view).take(i + 1) =~= resource_lines(view).take(i as int).push(
            resource_lines(view)[i as int],
        ));
        i = i + 1;
    }
    assert(resource_lines(view).take(i as int) =~= resource_lines(view));
    Ok(lines)
}

/// What a GET answers with, for one item.
pub open spec fn item_schema(operation: JsonView) -> Option<JsonView> {
    let data = then_field(
        then_field(
            then_field(
                then_field(
                    then_field(then_field(field(operation, "responses"@), "200"@), "content"@),
                    "application/json"@,
                ),
                "schema"@,
            ),
            "properties"@,
        ),
        "data"@,
    );
    match data {
        Some(d) => match field(d, "items"@) {
            Some(items) => Some(items),
            None => Some(d),
        },
        None => None,
    }
}

pub open spec fn item_properties(operation: JsonView) -> Option<FieldsView> {
    then_object(then_field(item_schema(operation), "properties"@))
}

/// The properties of a part of an item.
pub open spec fn part_properties(operation: JsonView, part: Seq<char>) -> Option<FieldsView> {
    match item_properties(operation) {
        Some(fields) => then_object(then_field(lookup(fields, part), "properties"@)),
        None => None,
    }
}

/// The item is made of other schemas, which are not followed.
pub open spec fn composed(operation: JsonView) -> bool {
    match item_schema(operation) {
        Some(d) => field(d, "$ref"@) is Some || field(d, "allOf"@) is Some || field(d, "anyOf"@)
            is Some || field(d, "oneOf"@) is Some,
        None => false,
    }
}

fn data_item<'a>(operation: &'a Json) -> (r: Option<&'a Json>)
    ensures
        opt_json(r) == item_schema(operation@),
{
    let content = then_get(then_get(operation.get("responses"), "200"), "content");
    let schema = then_get(then_get(content, "application/json"), "schema");
    match then_get(then_get(schema, "properties"), "data") {
        Some(d) => match d.get("items") {
            Some(items) => Some(items),
            None => Some(d),
        },
        None => None,
    }
}

fn data_properties<'a>(operation: &'a Json) -> (r: Option<&'a Vec<(String, Json)>>)
    ensures
        item_properties(operation@) == (match r {
            Some(fields) => Some(fields_view(fields@)),
            None => None,
        }),
{
    then_fields(then_get(data_item(operation), "properties"))
}

fn properties_of_part<'a>(operation: &'a Json, part: &str) -> (r: Option<&'a Vec<(String, Json)>>)
    ensures
        part_properties(operation@, part@) == (match r {
            Some(fields) => Some(fields_view(fields@)),
            None => None,
        }),
{
    match data_properties(operation) {
        Some(fields) => then_fields(then_get(find_field(fields, part), "properties")),
        None => None,
    }
}

fn uses_schema_composition(operation: &Json) -> (r: bool)
    ensures
        r == composed(operation@),
{
    match data_item(operation) {
        Some(d) => d.get("$ref").is_some() || d.get("allOf").is_some() || d.get("anyOf").is_some()
            || d.get("oneOf").is_some(),
        None => false,
    }
}

pub open spec fn field_names(fields: FieldsView) -> Seq<Seq<char>> {
    Seq::new(fields.len(), |i: int| fields[i].0)
}

fn names_in_order(fields: &Vec<(String, Json)>) -> (r: Vec<String>)
    ensures
        texts(r@) == sorted_names(field_names(fields_view(fields@))),
{
    let ghost all = field_names(fields_view(fields@));
    let mut names = no_lines();
    let mut i: usize = 0;
    while i < fields.len()
        invariant
            i <= fields@.len(),
            all == field_names(fields_view(fields@)),
            in_order(texts(names@)),
            texts(names@) == sorted_names(all.take(i as int)),
        decreases fields@.len() - i,
    {
        assert(all.take(i + 1).drop_last() =~= all.take(i as int));
        assert(all[i as int] == fields@[i as int].0@);
        add_key(&mut names, fields[i].0.as_str());
        i = i + 1;
    }
    assert(all.take(i as int) =~= all);
    names
}

/// What is shown of the attributes of a resource.
pub open spec fn attribute_lines(operation: JsonView) -> Seq<Seq<char>> {
    match part_properties(operation, "attributes"@) {
        Some(fields) => seq![
            "known attributes (from a captured example response - not necessarily exhaustive, and doesn't distinguish creatable/updatable/read-only):"@,
            "  "@ + join(sorted_names(field_names(fields)), ", "@),
        ],
        None => if composed(operation) {
            seq![
                "note: this resource's schema uses $ref/allOf/anyOf/oneOf, which this CLI doesn't resolve - attribute/relationship details below may be incomplete even though the spec has them.\n"@,
            ]
        } else {
            Seq::empty()
        },
    }
}

/// What is shown of the relationships of a resource.
pub open spec fn relationship_lines(operation: JsonView, bare: Seq<char>, bin: Seq<char>) -> Seq<
    Seq<char>,
> {
    match part_properties(operation, "relationships"@) {
        Some(fields) => if fields.len() > 0 {
            let names = sorted_names(field_names(fields));
            seq![
                "\nrelationships seen in a captured example (pass --include <name> to fetch; target type isn't always captured in the spec, so treat this as a starting point, not exhaustive):"@,
            ] + Seq::new(names.len(), |i: int| "  "@ + names[i])
        } else {
            seq![
                "\nthe spec's captured example explicitly lists no relationships for this resource."@,
            ]
        },
        None => seq![
            "\nno relationships captured in the spec's example for this resource - it may still have some; try `"@
                + bin + " get "@ + bare
                + " <id> --include <name>` with a guessed name, or check app/resources/"@ + bare
                + "_resource.rb in the Kiln source if you have it."@,
        ],
    }
}

/// What is shown of the description of a resource, and of what can be asked of
/// it.
pub open spec fn tag_lines(doc: JsonView, operation: JsonView) -> Seq<Seq<char>> {
    match tag_text(doc, text_or_empty(tag_of(operation))) {
        Some(t) => {
            let d = described(split(t, '\n'));
            shown(d.lines) + query_surface(operation, d.filters, d.sortable)
        },
        None => seq!["(no tag description available)\n"@] + query_surface(
            operation,
            Seq::empty(),
            Seq::empty(),
        ),
    }
}

pub open spec fn guidance_lines(bare: Seq<char>) -> Seq<Seq<char>> {
    match guidance(bare) {
        Some(g) => seq![trim(g, CharClass::White), "\n---\n"@],
        None => Seq::empty(),
    }
}

/// What is shown of a resource that can be read.
pub open spec fn resource_description(
    doc: JsonView,
    operation: JsonView,
    bare: Seq<char>,
    bin: Seq<char>,
) -> Seq<Seq<char>> {
    seq![bare + "\n"@] + guidance_lines(bare) + seq![
        "## API reference (live, from GET /openapi)\n"@,
    ] + tag_lines(doc, operation) + attribute_lines(operation) + relationship_lines(
        operation,
        bare,
        bin,
    )
}

pub open spec fn hint(candidates: Seq<Seq<char>>) -> Seq<char> {
    if candidates.len() == 0 {
        Seq::empty()
    } else {
        " Did you mean: "@ + join(candidates, ", "@) + "?"@
    }
}

/// What is shown of a resource, or why nothing is.
pub open spec fn description_of(doc: JsonView, resource: Seq<char>, bin: Seq<char>) -> Result<
    Seq<Seq<char>>,
    Seq<char>,
> {
    let bare = trim_start(resource, CharClass::Is('/'));
    let path = "/"@ + bare;
    if bare.len() == 0 {
        Err(
            "Resource name must not be empty. Run `"@ + bin
                + " resources` to see what's available."@,
        )
    } else if bare.contains('/') {
        Err(
            quoted(resource)
                + " looks like a path with multiple segments; `describe` expects a single resource name (e.g. `selected_controls`). Run `"@
                + bin + " resources` to see what's available."@,
        )
    } else {
        match then_field(field(doc, "paths"@), path) {
            None => Err(
                "No resource found at path "@ + path + "."@ + hint(suggestions(doc, bare))
                    + " Run `"@ + bin + " resources` to see everything available."@,
            ),
            Some(operations) => match field(operations, "get"@) {
                None => Ok(
                    seq![path + ": no GET operation (write-only or action route)"@],
                ),
                Some(op) => Ok(resource_description(doc, op, bare, bin)),
            },
        }
    }
}

fn add_lines(lines: &mut Vec<String>, more: Vec<String>)
    ensures
        texts(final(lines)@) == texts(old(lines)@) + texts(more@),
{
    let ghost before = lines@;
    let mut more = more;
    let ghost added = more@;
    lines.append(&mut more);
    assert(texts(lines@) =~= texts(before) + texts(added));
}

fn describe_attributes(operation: &Json) -> (r: Vec<String>)
    ensures
        texts(r@) == attribute_lines(operation@),
{
    let mut lines = no_lines();
    match properties_of_part(operation, "attributes") {
        Some(fields) => {
            add_line(
                &mut lines,
                "known attributes (from a captured example response - not necessarily exhaustive, and doesn't distinguish creatable/updatable/read-only):".to_owned(),
            );
            let names = names_in_order(fields);
            add_line(
                &mut lines,
                "  ".to_owned().concat(joined(names.as_slice(), ", ").as_str()),
            );
        },
        None => if uses_schema_composition(operation) {
            add_line(
                &mut lines,
                "note: this resource's schema uses $ref/allOf/anyOf/oneOf, which this CLI doesn't resolve - attribute/relationship details below may be incomplete even though the spec has them.\n".to_owned(),
            );
        },
    }
    assert(texts(lines@) =~= attribute_lines(operation@));
    lines
}

fn describe_relationships(operation: &Json, bare: &str, bin: &str) -> (r: Vec<String>)
    ensures
        texts(r@) == relationship_lines(operation@, bare@, bin@),
{
    let mut lines = no_lines();
    match properties_of_part(operation, "relationships") {
        Some(fields) => {
            assert(fields_view(fields@).len() == fields@.len());
            if fields.len() > 0 {
                add_line(
                    &mut lines,
                    "\nrelationships seen in a captured example (pass --include <name> to fetch; target type isn't always captured in the spec, so treat this as a starting point, not exhaustive):".to_owned(),
                );
                let names = names_in_order(fields);
                let ghost view = texts(names@);
                let ghost head = texts(lines@);
                let ghost all = Seq::new(view.len(), |i: int| "  "@ + view[i]);
                let mut i: usize = 0;
                assert(head + all.take(0) =~= head);
                while i < names.len()
                    invariant
                        i <= names@.len(),
                        view == texts(names@),
                        all == Seq::new(view.len(), |i: int| "  "@ + view[i]),
                        texts(lines@) == head + all.take(i as int),
                    decreases names@.len() - i,
                {
                    add_line(&mut lines, "  ".to_owned().concat(names[i].as_str()));
                    assert(head + all.take(i + 1) =~= (head + all.take(i as int)).push(
                        all[i as int],
                    ));
                    i = i + 1;
                }
                assert(all.take(i as int) =~= all);
            } else {
                add_line(
                    &mut lines,
                    "\nthe spec's captured example explicitly lists no relationships for this resource.".to_owned(),
                );
            }
        },
        None => {
            add_line(
                &mut lines,
                "\nno relationships captured in the spec's example for this resource - it may still have some; try `".to_owned().concat(
                    bin,
                ).concat(" get ").concat(bare).concat(
                    " <id> --include <name>` with a guessed name, or check app/resources/",
                ).concat(bare).concat("_resource.rb in the Kiln source if you have it."),
            );
        },
    }
    assert(texts(lines@) =~= relationship_lines(operation@, bare@, bin@));
    lines
}

fn describe_tag(doc: &Json, operation: &Json) -> (r: Vec<String>)
    ensures
        texts(r@) == tag_lines(doc@, operation@),
{
    proof {
        reveal_strlit("");
    }
    let tag = match operation_tag(operation) {
        Some(t) => t,
        None => "",
    };
    assert(tag@ =~= text_or_empty(tag_of(operation@)));
    match tag_description(doc, tag) {
        Some(t) => {
            let d = render_tag_description(t);
            let surface = print_query_surface(operation, &d.filters, &d.sortable);
            let mut lines = d.lines;
            add_lines(&mut lines, surface);
            lines
        },
        None => {
            let mut lines = no_lines();
            add_line(&mut lines, "(no tag description available)\n".to_owned());
            let none = no_lines();
            let surface = print_query_surface(operation, &none, &none);
            add_lines(&mut lines, surface);
            assert(texts(lines@) =~= tag_lines(doc@, operation@));
            lines
        },
    }
}

fn describe_resource(doc: &Json, operation: &Json, bare: &str, bin: &str) -> (r: Vec<String>)
    ensures
        texts(r@) == resource_description(doc@, operation@, bare@, bin@),
{
    let mut lines = no_lines();
    add_line(&mut lines, bare.to_owned().concat("\n"));
    if let Some(g) = guidance_on(bare) {
        add_line(&mut lines, trimmed(g, CharClass::White));
        add_line(&mut lines, "\n---\n".to_owned());
    }
    assert(texts(lines@) =~= seq![bare@ + "\n"@] + guidance_lines(bare@));
    add_line(&mut lines, "## API reference (live, from GET /openapi)\n".to_owned());
    assert(texts(lines@) =~= seq![bare@ + "\n"@] + guidance_lines(bare@) + seq![
        "## API reference (live, from GET /openapi)\n"@,
    ]);
    add_lines(&mut lines, describe_tag(doc, operation));
    add_lines(&mut lines, describe_attributes(operation));
    add_lines(&mut lines, describe_relationships(operation, bare, bin));
    lines
}

/// What is shown of a resource: the guidance on it, the description of the
/// API, its filters and sortable fields, its attributes and relationships. A
/// resource that is not there gets suggestions instead.
pub fn describe(doc: &Json, resource: &str, bin: &str) -> (r: Result<Vec<String>, String>)
    ensures
        lines_result(r) == description_of(doc@, resource@, bin@),
{
    let bare = without_start(resource, CharClass::Is('/'));
    if bare.as_str().unicode_len() == 0 {
        return Err(
            "Resource name must not be empty. Run `".to_owned().concat(bin).concat(
                " resources` to see what's available.",
            ),
        );
    }
    if holds_char(bare.as_str(), '/') {
        return Err(
            quoted_text(resource).concat(
                " looks like a path with multiple segments; `describe` expects a single resource name (e.g. `selected_controls`). Run `",
            ).concat(bin).concat(" resources` to see what's available."),
        );
    }
    let path = "/".to_owned().concat(bare.as_str());
    let operations = match then_get(doc.get("paths"), path.as_str()) {
        Some(o) => o,
        None => {
            let candidates = suggest_resources(doc, bare.as_str());
            assert(texts(candidates@).len() == candidates@.len());
            let hint = if candidates.len() == 0 {
                String::new()
            } else {
                " Did you mean: ".to_owned().concat(
                    joined(candidates.as_slice(), ", ").as_str(),
                ).concat("?")
            };
            return Err(
                "No resource found at path ".to_owned().concat(path.as_str()).concat(".").concat(
                    hint.as_str(),
                ).concat(" Run `").concat(bin).concat(
                    " resources` to see everything available.",
                ),
            );
        },
    };
    match operations.get("get") {
        None => {
            let mut lines = no_lines();
            add_line(
                &mut lines,
                path.concat(": no GET operation (write-only or action route)"),
            );
            assert(texts(lines@) =~= seq![
                "/"@ + bare@ + ": no GET operation (write-only or action route)"@,
            ]);
            Ok(lines)
        },
        Some(op) => Ok(describe_resource(doc, op, bare.as_str(), bin)),
    }
}

/// The list of resources stands in the order of the paths.
pub proof fn law_rows_in_order(doc: JsonView, paths: FieldsView, i: int, j: int)
    requires
        0 <= i < j < rows_of(doc, paths).len(),
    ensures
        !precedes(rows_of(doc, paths)[j].0, rows_of(doc, paths)[i].0),
{
    lemma_rows_sorted(doc, paths);
}

pub open spec fn rows_sorted(rows: Seq<Row>) -> bool {
    forall|i: int, j: int|
        0 <= i < j < rows.len() ==> !precedes((#[trigger] rows[j]).0, (#[trigger] rows[i]).0)
}

proof fn lemma_rows_sorted(doc: JsonView, paths: FieldsView)
    ensures
        rows_sorted(rows_of(doc, paths)),
    decreases paths.len(),
{
    if paths.len() > 0 {
        lemma_rows_sorted(doc, paths.drop_last());
        if let Some(row) = row_of(doc, paths.last().0, paths.last().1) {
            lemma_with_row_sorted(rows_of(doc, paths.drop_last()), row);
        }
    }
}

proof fn lemma_with_row_sorted(rows: Seq<Row>, row: Row)
    requires
        rows_sorted(rows),
    ensures
        rows_sorted(with_row(rows, row)),
        forall|k: int|
            0 <= k < with_row(rows, row).len() ==> #[trigger] with_row(rows, row)[k] == row
                || rows.contains(with_row(rows, row)[k]),
    decreases rows.len(),
{
    let after = with_row(rows, row);
    if rows.len() == 0 || precedes(row.0, rows[0].0) {
        assert forall|i: int, j: int| 0 <= i < j < after.len() implies !precedes(
            (#[trigger] after[j]).0,
            (#[trigger] after[i]).0,
        ) by {
            assert(after[j] == rows[j - 1]);
            if i == 0 {
                if precedes(rows[j - 1].0, row.0) {
                    lemma_precedes_transitive(rows[j - 1].0, row.0, rows[0].0);
                    if j - 1 == 0 {
                        lemma_precedes_total(rows[0].0, rows[0].0);
                    }
                }
            } else {
                assert(after[i] == rows[i - 1]);
            }
        }
        assert forall|k: int| 0 <= k < after.len() implies #[trigger] after[k] == row
            || rows.contains(after[k]) by {
            if k > 0 {
                assert(after[k] == rows[k - 1]);
            }
        }
    } else {
        let rest = rows.drop_first();
        assert forall|i: int, j: int| 0 <= i < j < rest.len() implies !precedes(
            (#[trigger] rest[j]).0,
            (#[trigger] rest[i]).0,
        ) by {
            assert(rest[j] == rows[j + 1] && rest[i] == rows[i + 1]);
        }
        lemma_with_row_sorted(rest, row);
        let inner = with_row(rest, row);
        assert forall|k: int| 0 <= k < inner.len() implies #[trigger] inner[k] == row
            || rows.contains(inner[k]) by {
            if inner[k] != row {
                let m = rest.index_of(inner[k]);
                assert(rest[m] == rows[m + 1]);
            }
        }
        assert forall|i: int, j: int| 0 <= i < j < after.len() implies !precedes(
            (#[trigger] after[j]).0,
            (#[trigger] after[i]).0,
        ) by {
            assert(after[j] == inner[j - 1]);
            if i == 0 {
                if inner[j - 1] != row {
                    let m = rest.index_of(inner[j - 1]);
                    assert(rest[m] == rows[m + 1]);
                }
            } else {
                assert(after[i] == inner[i - 1]);
            }
        }
        assert forall|k: int| 0 <= k < after.len() implies #[trigger] after[k] == row
            || rows.contains(after[k]) by {
            if k > 0 {
                assert(after[k] == inner[k - 1]);
            } else {
                assert(after[0] == rows[0]);
            }
        }
    }
}

/// The names are there, all of them and no others, each once and in order.
pub proof fn law_names_are_sorted(names: Seq<Seq<char>>, k: Seq<char>)
    ensures
        in_order(sorted_names(names)),
        sorted_names(names).contains(k) <==> names.contains(k),
    decreases names.len(),
{
    if names.len() > 0 {
        let rest = names.drop_last();
        law_names_are_sorted(rest, k);
        law_insert_key(sorted_names(rest), names.last());
        assert(names.contains(k) <==> rest.contains(k) || k == names.last()) by {
            if rest.contains(k) {
                let i = choose|i: int| 0 <= i < rest.len() && rest[i] == k;
                assert(names[i] == k);
            }
            if k == names.last() {
                assert(names[names.len() - 1] == k);
            }
            if names.contains(k) {
                let i = choose|i: int| 0 <= i < names.len() && names[i] == k;
                if i < rest.len() {
                    assert(rest[i] == k);
                }
            }
        }
    } else {
        assert(!names.contains(k));
    }
}

/// The name of a field of an object.
pub open spec fn is_name(fields: FieldsView, k: Seq<char>) -> bool {
    exists|i: int| 0 <= i < fields.len() && (#[trigger] fields[i]).0 == k
}

/// A line that names a field of an object.
pub open spec fn names_one(line: Seq<char>, fields: FieldsView) -> bool {
    exists|k: Seq<char>| #[trigger] is_name(fields, k) && line == "  "@ + k
}

proof fn lemma_field_names(fields: FieldsView, k: Seq<char>)
    ensures
        field_names(fields).contains(k) <==> is_name(fields, k),
{
    let names = field_names(fields);
    if names.contains(k) {
        let i = choose|i: int| 0 <= i < names.len() && names[i] == k;
        assert(fields[i].0 == k);
    }
    if is_name(fields, k) {
        let i = choose|i: int| 0 <= i < fields.len() && (#[trigger] fields[i]).0 == k;
        assert(names[i] == k);
    }
}

/// Every relationship of the example has a line of its own, in order and
/// without repeats, and no line names anything else.
pub proof fn law_relationships_are_shown(
    operation: JsonView,
    bare: Seq<char>,
    bin: Seq<char>,
    fields: FieldsView,
)
    requires
        part_properties(operation, "relationships"@) == Some(fields),
        fields.len() > 0,
    ensures
        ({
            let lines = relationship_lines(operation, bare, bin);
            &&& forall|k: Seq<char>| #[trigger]
                is_name(fields, k) ==> lines.contains("  "@ + k)
            &&& forall|i: int| 1 <= i < lines.len() ==> names_one(#[trigger] lines[i], fields)
            &&& forall|i: int, j: int|
                1 <= i < j < lines.len() ==> precedes(#[trigger] lines[i], #[trigger] lines[j])
        }),
{
    let names = sorted_names(field_names(fields));
    let lines = relationship_lines(operation, bare, bin);
    law_names_are_sorted(field_names(fields), Seq::empty());
    assert(lines.len() == names.len() + 1);
    assert forall|i: int| 1 <= i < lines.len() implies #[trigger] lines[i] == "  "@ + names[i
        - 1] by {}
    assert forall|k: Seq<char>| #[trigger] is_name(fields, k) implies lines.contains(
        "  "@ + k,
    ) by {
        lemma_field_names(fields, k);
        law_names_are_sorted(field_names(fields), k);
        let i = choose|i: int| 0 <= i < names.len() && names[i] == k;
        assert(lines[i + 1] == "  "@ + k);
    }
    assert forall|i: int| 1 <= i < lines.len() implies names_one(#[trigger] lines[i], fields) by {
        let k = names[i - 1];
        law_names_are_sorted(field_names(fields), k);
        lemma_field_names(fields, k);
        assert(names.contains(k));
        assert(lines[i] == "  "@ + k);
    }
    assert forall|i: int, j: int| 1 <= i < j < lines.len() implies precedes(
        #[trigger] lines[i],
        #[trigger] lines[j],
    ) by {
        lemma_precedes_behind("  "@, names[i - 1], names[j - 1]);
    }
}

proof fn lemma_precedes_behind(start: Seq<char>, a: Seq<char>, b: Seq<char>)
    ensures
        precedes(start + a, start + b) == precedes(a, b),
    decreases start.len(),
{
    if start.len() > 0 {
        assert((start + a).drop_first() =~= start.drop_first() + a);
        assert((start + b).drop_first() =~= start.drop_first() + b);
        lemma_precedes_behind(start.drop_first(), a, b);
    } else {
        assert(start + a =~= a);
        assert(start + b =~= b);
    }
}

/// A resource whose example lists no relationships, or tells nothing of them,
/// has one line that says so.
pub proof fn law_absent_relationships_are_told(operation: JsonView, bare: Seq<char>, bin: Seq<char>)
    ensures
        part_properties(operation, "relationships"@) is None ==> relationship_lines(
            operation,
            bare,
            bin,
        ).len() == 1 && has_text(
            relationship_lines(operation, bare, bin)[0],
            bin + " get "@ + bare,
        ),
        part_properties(operation, "relationships"@) matches Some(f) && f.len() == 0
            ==> relationship_lines(operation, bare, bin) == seq![
            "\nthe spec's captured example explicitly lists no relationships for this resource."@,
        ],
{
    let start =
        "\nno relationships captured in the spec's example for this resource - it may still have some; try `"@;
    let mid = bin + " get "@ + bare;
    let end = " <id> --include <name>` with a guessed name, or check app/resources/"@ + bare
        + "_resource.rb in the Kiln source if you have it."@;
    law_put_around(start, mid, end);
    if part_properties(operation, "relationships"@) is None {
        assert(relationship_lines(operation, bare, bin)[0] =~= start + mid + end);
    }
}

/// Every attribute of the example is named, in order and without repeats, and
/// nothing else is.
pub proof fn law_attributes_are_shown(operation: JsonView, fields: FieldsView)
    requires
        part_properties(operation, "attributes"@) == Some(fields),
    ensures
        exists|names: Seq<Seq<char>>|
            {
                &&& attribute_lines(operation).len() == 2
                &&& attribute_lines(operation)[1] == "  "@ + #[trigger] join(names, ", "@)
                &&& in_order(names)
                &&& forall|k: Seq<char>| #[trigger] names.contains(k) <==> is_name(fields, k)
            },
{
    let names = sorted_names(field_names(fields));
    law_names_are_sorted(field_names(fields), Seq::empty());
    assert forall|k: Seq<char>| #[trigger] names.contains(k) <==> is_name(fields, k) by {
        law_names_are_sorted(field_names(fields), k);
        lemma_field_names(fields, k);
    }
    assert(attribute_lines(operation)[1] == "  "@ + join(names, ", "@));
}

/// Where the parts of an item are read: in the answer to a GET that went well,
/// under `data`, and for a list in what its items are.
pub proof fn law_parts_of_an_item(
    operation: JsonView,
    part: Seq<char>,
    responses: JsonView,
    ok: JsonView,
    content: JsonView,
    media: JsonView,
    schema: JsonView,
    properties: JsonView,
    data: JsonView,
    item: JsonView,
    parts: FieldsView,
    inner: JsonView,
    fields: FieldsView,
)
    requires
        field(operation, "responses"@) == Some(responses),
        field(responses, "200"@) == Some(ok),
        field(ok, "content"@) == Some(content),
        field(content, "application/json"@) == Some(media),
        field(media, "schema"@) == Some(schema),
        field(schema, "properties"@) == Some(properties),
        field(properties, "data"@) == Some(data),
        field(data, "items"@) == Some(item) || (field(data, "items"@) is None && item == data),
        field(item, "properties"@) == Some(JsonView::Object(parts)),
        lookup(parts, part) == Some(inner),
        field(inner, "properties"@) == Some(JsonView::Object(fields)),
    ensures
        item_schema(operation) == Some(item),
        part_properties(operation, part) == Some(fields),
        composed(operation) <==> field(item, "$ref"@) is Some || field(item, "allOf"@) is Some
            || field(item, "anyOf"@) is Some || field(item, "oneOf"@) is Some,
{
}

/// A parameter of a GET is a filter exactly where it is of the query and is
/// called `filter[...]`; what is in the brackets is its name, in lower case,
/// and an array takes several values.
pub proof fn law_filters_are_recognised(p: JsonView, inner: Seq<char>)
    ensures
        field(p, "in"@) == Some(JsonView::Text("query"@)) && field(p, "name"@) == Some(
            JsonView::Text("filter["@ + inner + "]"@),
        ) ==> (filter_param(p) matches Some(f) && f.0 == lower(inner) && (f.1 <==> then_text(
            then_field(field(p, "schema"@), "type"@),
        ) == Some("array"@))),
        filter_param(p) matches Some(f) ==> field(p, "in"@) == Some(JsonView::Text("query"@)) && (
        field(p, "name"@) matches Some(JsonView::Text(n)) && exists|x: Seq<char>|
            n == #[trigger] ("filter["@ + x + "]"@) && f.0 == lower(x)),
{
    let whole = "filter["@ + inner + "]"@;
    assert(whole =~= "filter["@ + (inner + "]"@));
    law_put_around("filter["@, inner + "]"@, Seq::empty());
    assert(whole.skip("filter["@.len() as int) =~= inner + "]"@);
    law_put_around(inner, "]"@, Seq::empty());
    assert((inner + "]"@).take((inner + "]"@).len() - "]"@.len()) =~= inner);
    if filter_param(p) is Some {
        let n = then_text(field(p, "name"@))->0;
        let rest = after_start(n, "filter["@)->0;
        let x = before_end(rest, "]"@)->0;
        law_taken_apart(n, "filter["@);
        law_taken_apart(rest, "]"@);
        assert(n =~= "filter["@ + x + "]"@);
    }
}

/// The filters are those that the description names and those among the
/// parameters, each once and in order; how they take values is known of the
/// latter.
pub proof fn law_all_filters_are_listed(
    named: Seq<Seq<char>>,
    params: Seq<JsonView>,
    k: Seq<char>,
)
    ensures
        in_order(filter_names(named, params)),
        filter_names(named, params).contains(k) <==> (exists|i: int|
            0 <= i < named.len() && lower(#[trigger] named[i]) == k) || (exists|i: int|
            0 <= i < params.len() && (filter_param(#[trigger] params[i]) matches Some(f) && f.0
                == k)),
        filter_types(params).dom().contains(k) <==> exists|i: int|
            0 <= i < params.len() && (filter_param(#[trigger] params[i]) matches Some(f) && f.0
                == k),
    decreases named.len() + params.len(),
{
    let all = filter_names(named, params);
    if params.len() > 0 {
        let rest = params.drop_last();
        law_all_filters_are_listed(named, rest, k);
        let last = filter_param(params.last());
        let some = filter_names(named, rest);
        if last is Some {
            law_insert_key(some, (last->0).0);
        }
        let before = exists|i: int|
            0 <= i < rest.len() && (filter_param(#[trigger] rest[i]) matches Some(f) && f.0 == k);
        let now = exists|i: int|
            0 <= i < params.len() && (filter_param(#[trigger] params[i]) matches Some(f) && f.0
                == k);
        let mine = last is Some && (last->0).0 == k;
        assert(now <==> before || mine) by {
            if before {
                let i = choose|i: int|
                    0 <= i < rest.len() && (filter_param(#[trigger] rest[i]) matches Some(f) && f.0
                        == k);
                assert(params[i] == rest[i]);
            }
            if mine {
                assert(params[params.len() - 1] == params.last());
            }
            if now {
                let i = choose|i: int|
                    0 <= i < params.len() && (filter_param(#[trigger] params[i]) matches Some(f)
                        && f.0 == k);
                if i < rest.len() {
                    assert(rest[i] == params[i]);
                }
            }
        }
    } else if named.len() > 0 {
        let rest = named.drop_last();
        law_all_filters_are_listed(rest, params, k);
        law_insert_key(filter_names(rest, params), lower(named.last()));
        let before = exists|i: int| 0 <= i < rest.len() && lower(#[trigger] rest[i]) == k;
        let now = exists|i: int| 0 <= i < named.len() && lower(#[trigger] named[i]) == k;
        assert(now <==> before || lower(named.last()) == k) by {
            if before {
                let i = choose|i: int| 0 <= i < rest.len() && lower(#[trigger] rest[i]) == k;
                assert(named[i] == rest[i]);
            }
            if lower(named.last()) == k {
                assert(lower(named[named.len() - 1]) == k);
            }
            if now {
                let i = choose|i: int| 0 <= i < named.len() && lower(#[trigger] named[i]) == k;
                if i < rest.len() {
                    assert(rest[i] == named[i]);
                }
            }
        }
    } else {
        assert(!all.contains(k));
    }
}

/// Whether a filter takes several values is what the last parameter of that
/// name says.
pub proof fn law_last_parameter_tells(params: Seq<JsonView>, p: JsonView)
    ensures
        filter_param(p) matches Some(f) ==> filter_types(params.push(p)) == filter_types(
            params,
        ).insert(f.0, f.1),
        filter_param(p) is None ==> filter_types(params.push(p)) == filter_types(params),
{
    assert(params.push(p).drop_last() =~= params);
}

/// The line of a filter names it, and says how it takes values where that is
/// known.
pub proof fn law_filter_lines(name: Seq<char>, types: Map<Seq<char>, bool>)
    ensures
        !types.dom().contains(name) ==> filter_line(name, types) == "  "@ + name,
        types.dom().contains(name) && types[name] ==> filter_line(name, types) == "  "@ + name
            + " [array; repeat --filter "@ + name + "=<value> for multiple values]"@,
        types.dom().contains(name) && !types[name] ==> filter_line(name, types) == "  "@ + name
            + " [scalar]"@,
{
}

/// Every filter has its line, in the order of the filters, and the sortable
/// fields stand on one.
pub proof fn law_query_surface_is_shown(
    operation: JsonView,
    filters: Seq<Seq<char>>,
    sortable: Seq<Seq<char>>,
    i: int,
)
    ensures
        ({
            let lines = query_surface(operation, filters, sortable);
            let names = filter_names(filters, params_of(operation));
            let types = filter_types(params_of(operation));
            &&& 0 <= i < names.len() ==> 1 + i < lines.len() && lines[1 + i] == filter_line(
                names[i],
                types,
            )
            &&& names.len() == 0 && sortable.len() == 0 ==> lines.len() == 0
            &&& names.len() > 0 && sortable.len() == 0 ==> lines.len() == names.len() + 2
            &&& names.len() == 0 && sortable.len() > 0 ==> lines.len() == 2
            &&& names.len() > 0 && sortable.len() > 0 ==> lines.len() == names.len() + 4
            &&& sortable.len() > 0 ==> lines[lines.len() - 1] == "  "@ + join(sortable, ", "@)
                + "\n"@
        }),
{
}

pub open spec fn listed_if(present: bool, name: Seq<char>) -> Seq<Seq<char>> {
    if present {
        seq![name]
    } else {
        Seq::empty()
    }
}

/// The methods of a path are those that it has operations for, in a fixed
/// order.
pub proof fn law_methods_are_listed(operations: JsonView)
    ensures
        method_list(operations, all_methods()) == listed_if(
            field(operations, "get"@) is Some,
            "GET"@,
        ) + listed_if(field(operations, "post"@) is Some, "POST"@) + listed_if(
            field(operations, "patch"@) is Some,
            "PATCH"@,
        ) + listed_if(field(operations, "put"@) is Some, "PUT"@) + listed_if(
            field(operations, "delete"@) is Some,
            "DELETE"@,
        ),
{
    let m = all_methods();
    let a = seq![m[0]];
    let b = a.push(m[1]);
    let c = b.push(m[2]);
    let d = c.push(m[3]);
    let e = d.push(m[4]);
    assert(a.drop_last() =~= Seq::<(Seq<char>, Seq<char>)>::empty());
    assert(b.drop_last() =~= a);
    assert(c.drop_last() =~= b);
    assert(d.drop_last() =~= c);
    assert(e.drop_last() =~= d);
    assert(e =~= m);
    assert(method_list(operations, Seq::empty()) =~= Seq::<Seq<char>>::empty());
    let g = listed_if(field(operations, "get"@) is Some, "GET"@);
    let p = listed_if(field(operations, "post"@) is Some, "POST"@);
    let q = listed_if(field(operations, "patch"@) is Some, "PATCH"@);
    let r = listed_if(field(operations, "put"@) is Some, "PUT"@);
    let s = listed_if(field(operations, "delete"@) is Some, "DELETE"@);
    assert(method_list(operations, a) =~= g);
    assert(method_list(operations, b) =~= g + p);
    assert(method_list(operations, c) =~= g + p + q);
    assert(method_list(operations, d) =~= g + p + q + r);
    assert(method_list(operations, e) =~= g + p + q + r + s);
}

/// A path has a row exactly where it has no place for an id and can be read or
/// written; the row has the path, its methods, and the first prose of the tag
/// of the operation that reads it, or else of the one that writes it.
pub proof fn law_rows_of_paths(doc: JsonView, path: Seq<char>, operations: JsonView)
    ensures
        row_of(doc, path, operations) is Some <==> !path.contains('{') && (field(
            operations,
            "get"@,
        ) is Some || field(operations, "post"@) is Some),
        row_of(doc, path, operations) matches Some(row) ==> {
            let op = if field(operations, "get"@) is Some {
                field(operations, "get"@)->0
            } else {
                field(operations, "post"@)->0
            };
            &&& row.0 == path
            &&& row.1 == join(method_list(operations, all_methods()), "/"@)
            &&& tag_of(op) matches Some(tag) ==> match tag_text(doc, tag) {
                Some(d) => row.2 == prose_in(split(d, '\n')),
                None => row.2.len() == 0,
            }
        },
{
}

/// Every path that has a row is listed, and nothing else is.
pub proof fn law_every_row_is_listed(doc: JsonView, paths: FieldsView, row: Row)
    ensures
        rows_of(doc, paths).contains(row) <==> exists|i: int|
            0 <= i < paths.len() && row_of(doc, (#[trigger] paths[i]).0, paths[i].1) == Some(row),
        rows_of(doc, paths).len() <= paths.len(),
    decreases paths.len(),
{
    if paths.len() > 0 {
        let rest = paths.drop_last();
        let some = rows_of(doc, rest);
        let all = rows_of(doc, paths);
        law_every_row_is_listed(doc, rest, row);
        let last = row_of(doc, paths.last().0, paths.last().1);
        if last is Some {
            lemma_with_row_members(some, last->0, row);
        }
        let before = exists|i: int|
            0 <= i < rest.len() && row_of(doc, (#[trigger] rest[i]).0, rest[i].1) == Some(row);
        let now = exists|i: int|
            0 <= i < paths.len() && row_of(doc, (#[trigger] paths[i]).0, paths[i].1) == Some(row);
        assert(now <==> before || last == Some(row)) by {
            if before {
                let i = choose|i: int|
                    0 <= i < rest.len() && row_of(doc, (#[trigger] rest[i]).0, rest[i].1) == Some(
                        row,
                    );
                assert(paths[i] == rest[i]);
            }
            if last == Some(row) {
                assert(paths[paths.len() - 1] == paths.last());
            }
            if now {
                let i = choose|i: int|
                    0 <= i < paths.len() && row_of(doc, (#[trigger] paths[i]).0, paths[i].1)
                        == Some(row);
                if i < rest.len() {
                    assert(rest[i] == paths[i]);
                }
            }
        }
    } else {
        assert(!rows_of(doc, paths).contains(row));
    }
}

proof fn lemma_with_row_members(rows: Seq<Row>, added: Row, row: Row)
    ensures
        with_row(rows, added).len() == rows.len() + 1,
        with_row(rows, added).contains(row) <==> rows.contains(row) || row == added,
    decreases rows.len(),
{
    let after = with_row(rows, added);
    if rows.len() == 0 || precedes(added.0, rows[0].0) {
        assert(after =~= seq![added] + rows);
        assert(after[0] == added);
        if rows.contains(row) {
            let i = choose|i: int| 0 <= i < rows.len() && rows[i] == row;
            assert(after[i + 1] == row);
        }
        if after.contains(row) {
            let i = choose|i: int| 0 <= i < after.len() && after[i] == row;
            if i > 0 {
                assert(rows[i - 1] == row);
            }
        }
    } else {
        let rest = rows.drop_first();
        let later = with_row(rest, added);
        lemma_with_row_members(rest, added, row);
        assert(after =~= seq![rows[0]] + later);
        assert(after[0] == rows[0]);
        if rows.contains(row) || row == added {
            if rows.contains(row) {
                let i = choose|i: int| 0 <= i < rows.len() && rows[i] == row;
                if i > 0 {
                    assert(rest[i - 1] == row);
                    assert(rest.contains(row));
                }
            }
            if later.contains(row) {
                let j = choose|j: int| 0 <= j < later.len() && later[j] == row;
                assert(after[j + 1] == row);
            }
        }
        if after.contains(row) {
            let i = choose|i: int| 0 <= i < after.len() && after[i] == row;
            if i > 0 {
                assert(later[i - 1] == row);
                assert(later.contains(row));
                if rest.contains(row) {
                    let j = choose|j: int| 0 <= j < rest.len() && rest[j] == row;
                    assert(rows[j + 1] == row);
                }
            } else {
                assert(rows[0] == row);
            }
        }
    }
}

/// A line of the list has the path, the methods and the prose of its row, in
/// columns that are wide enough for every row.
pub proof fn law_list_is_in_columns(rows: Seq<Row>, i: int)
    requires
        0 <= i < rows.len(),
    ensures
        resource_lines(rows).len() == rows.len(),
        exists|a: nat, b: nat|
            {
                &&& resource_lines(rows)[i] == #[trigger] row_line(rows[i], a, b)
                &&& a >= 45 && b >= 25
                &&& forall|j: int|
                    0 <= j < rows.len() ==> (#[trigger] rows[j]).0.len() <= a && rows[j].1.len() <= b
                &&& a > 45 ==> exists|j: int| 0 <= j < rows.len() && (#[trigger] rows[j]).0.len() == a
                &&& b > 25 ==> exists|j: int| 0 <= j < rows.len() && (#[trigger] rows[j]).1.len() == b
            },
{
    let a = widest(rows, true, 45);
    let b = widest(rows, false, 25);
    lemma_widest(rows, true, 45);
    lemma_widest(rows, false, 25);
    assert(resource_lines(rows)[i] == row_line(rows[i], a, b));
}

proof fn lemma_widest(rows: Seq<Row>, first: bool, least: nat)
    ensures
        widest(rows, first, least) >= least,
        forall|j: int|
            0 <= j < rows.len() ==> (if first {
                (#[trigger] rows[j]).0.len()
            } else {
                rows[j].1.len()
            }) <= widest(rows, first, least),
        widest(rows, first, least) > least ==> exists|j: int|
            0 <= j < rows.len() && (if first {
                (#[trigger] rows[j]).0.len()
            } else {
                rows[j].1.len()
            }) == widest(rows, first, least),
    decreases rows.len(),
{
    if rows.len() > 0 {
        let rest = rows.drop_last();
        lemma_widest(rest, first, least);
        let w = widest(rows, first, least);
        assert forall|j: int| 0 <= j < rows.len() implies (if first {
            (#[trigger] rows[j]).0.len()
        } else {
            rows[j].1.len()
        }) <= w by {
            if j < rest.len() {
                assert(rest[j] == rows[j]);
            }
        }
        if w > least {
            if w == widest(rest, first, least) {
                let j = choose|j: int|
                    0 <= j < rest.len() && (if first {
                        (#[trigger] rest[j]).0.len()
                    } else {
                        rest[j].1.len()
                    }) == w;
                assert(rows[j] == rest[j]);
            } else {
                assert(rows[rows.len() - 1] == rows.last());
            }
        }
    }
}

/// A padded text is the text with spaces behind it, as wide as asked for and
/// no wider unless the text is.
pub proof fn law_padding(s: Seq<char>, width: nat)
    ensures
        starts_with(padded(s, width), s),
        forall|i: int| s.len() <= i < padded(s, width).len() ==> #[trigger] padded(s, width)[i]
            == ' ',
        padded(s, width).len() == (if s.len() < width {
            width
        } else {
            s.len()
        }),
{
    assert(padded(s, width).take(s.len() as int) =~= s);
}

/// A row is written with its path first, its methods next and its prose last.
pub proof fn law_row_lines(row: Row, paths: nat, methods: nat)
    ensures
        row_line(row, paths, methods) == padded(row.0, paths) + seq![' '] + padded(row.1, methods)
            + seq![' '] + row.2,
{
    reveal_strlit(" ");
    assert(" "@ =~= seq![' ']);
}

/// The list is made of the rows of the document's paths; a document without
/// paths has none.
pub proof fn law_resources_come_from_the_paths(doc: JsonView, paths: FieldsView)
    ensures
        field(doc, "paths"@) == Some(JsonView::Object(paths)) ==> resource_list(doc) == Ok::<
            Seq<Seq<char>>,
            Seq<char>,
        >(resource_lines(rows_of(doc, paths))),
        !(field(doc, "paths"@) matches Some(JsonView::Object(_))) ==> resource_list(doc) is Err,
{
}

/// A collection is a path of one part, and its name is that part.
pub proof fn law_collections(name: Seq<char>, path: Seq<char>)
    ensures
        name.len() > 0 && !name.contains('/') ==> collection("/"@ + name) == Some(name),
        collection(path) matches Some(n) ==> path == "/"@ + n && n.len() > 0 && !n.contains('/'),
{
    law_put_around("/"@, name, Seq::empty());
    assert(("/"@ + name).skip("/"@.len() as int) =~= name);
    law_taken_apart(path, "/"@);
}

/// A query finds the resources that it is part of, and those that are part of
/// it, whatever the case and the plural; it does not find others.
pub proof fn law_queries_find_resources(name: Seq<char>, query: Seq<char>)
    ensures
        !ends_with(lower(query), "s"@) && encode_utf8(lower(query)).len() >= 2 && has_text(
            lower(name),
            lower(query),
        ) ==> resembles(name, query) && resembles(name, query.push('s')),
        !ends_with(lower(name), "s"@) && encode_utf8(lower(name)).len() >= 2 && has_text(
            lower(query),
            lower(name),
        ) ==> resembles(name, query) && resembles(name.push('s'), query),
        resembles(name, query) ==> has_text(lower(name), singular(lower(query))) || has_text(
            lower(query),
            singular(lower(name)),
        ),
        encode_utf8(singular(lower(query))).len() < 2 && encode_utf8(singular(lower(name))).len() < 2
            ==> !resembles(name, query),
{
    reveal_strlit("s");
    let q = query.push('s');
    let n = name.push('s');
    assert("s"@ =~= seq!['s']);
    assert(lower(q) =~= lower(query) + "s"@);
    assert(lower(n) =~= lower(name) + "s"@);
    law_put_around(lower(query), "s"@, Seq::empty());
    law_put_around(lower(name), "s"@, Seq::empty());
    assert(lower(q).take(lower(q).len() - 1) =~= lower(query));
    assert(lower(n).take(lower(n).len() - 1) =~= lower(name));
}

/// At most five resources are suggested: those of the highest rank.
pub proof fn law_five_are_suggested(doc: JsonView, query: Seq<char>, paths: FieldsView)
    ensures
        field(doc, "paths"@) == Some(JsonView::Object(paths)) ==> {
            let all = ranked(paths, query);
            &&& all.len() <= 5 ==> suggestions(doc, query) == all
            &&& all.len() > 5 ==> suggestions(doc, query) == all.take(5)
        },
        !(field(doc, "paths"@) matches Some(JsonView::Object(_))) ==> suggestions(doc, query).len()
            == 0,
{
}

/// Shorter names are suggested first; of equally long ones those that begin
/// like the query; and then by the alphabet.
pub proof fn law_rank_of_suggestions(a: Seq<char>, b: Seq<char>, query: Seq<char>)
    ensures
        encode_utf8(a).len() < encode_utf8(b).len() ==> suggested_before(a, b, query)
            && !suggested_before(b, a, query),
        encode_utf8(a).len() == encode_utf8(b).len() && begins_alike(a, query) && !begins_alike(
            b,
            query,
        ) ==> suggested_before(a, b, query) && !suggested_before(b, a, query),
        encode_utf8(a).len() == encode_utf8(b).len() && begins_alike(a, query) == begins_alike(
            b,
            query,
        ) ==> suggested_before(a, b, query) == precedes(a, b),
        starts_with(lower(a), lower(query)) && !ends_with(lower(query), "s"@) ==> begins_alike(
            a,
            query,
        ),
{
}

/// The description of a tag is that of the first tag of the name.
pub proof fn law_first_tag_counts(tags: Seq<JsonView>, name: Seq<char>, at: int)
    requires
        0 <= at <= tags.len(),
        at < tags.len() ==> field(tags[at], "name"@) == Some(JsonView::Text(name)),
        forall|i: int|
            0 <= i < at ==> field(#[trigger] tags[i], "name"@) != Some(JsonView::Text(name)),
    ensures
        at < tags.len() ==> tag_in(tags, name) == then_text(field(tags[at], "description"@)),
        at == tags.len() ==> tag_in(tags, name) is None,
    decreases tags.len(),
{
    if tags.len() > 0 && at > 0 {
        let rest = tags.drop_first();
        assert(field(tags[0], "name"@) != Some(JsonView::Text(name)));
        assert forall|i: int| 0 <= i < at - 1 implies field(#[trigger] rest[i], "name"@) != Some(
            JsonView::Text(name),
        ) by {
            assert(rest[i] == tags[i + 1]);
        }
        if at < tags.len() {
            assert(rest[at - 1] == tags[at]);
        }
        law_first_tag_counts(rest, name, at - 1);
    }
}

/// Tags are those of the document, and an operation goes by its first one.
pub proof fn law_tags(doc: JsonView, operation: JsonView, tags: Seq<JsonView>, name: Seq<char>)
    ensures
        field(doc, "tags"@) == Some(JsonView::Array(tags)) ==> tag_text(doc, name) == tag_in(
            tags,
            name,
        ),
        field(operation, "tags"@) == Some(JsonView::Array(tags)) && tags.len() > 0 && tags[0]
            == JsonView::Text(name) ==> tag_of(operation) == Some(name),
        !(field(operation, "tags"@) is Some) ==> tag_of(operation) is None,
{
}

/// A description begins with the name of the resource and holds the guidance on
/// it, what its tag says, its attributes and its relationships, in this order
/// and nothing else.
pub proof fn law_descriptions_are_whole(
    doc: JsonView,
    resource: Seq<char>,
    bin: Seq<char>,
    operations: JsonView,
    op: JsonView,
)
    requires
        resource.len() > 0,
        !resource.contains('/'),
        then_field(field(doc, "paths"@), "/"@ + resource) == Some(operations),
        field(operations, "get"@) == Some(op),
    ensures
        description_of(doc, resource, bin) matches Ok(lines) && {
            let g = guidance_lines(resource);
            let tags = tag_lines(doc, op);
            let attributes = attribute_lines(op);
            let relationships = relationship_lines(op, resource, bin);
            &&& lines.len() == 2 + g.len() + tags.len() + attributes.len() + relationships.len()
            &&& lines[0] == resource + "\n"@
            &&& lines.subrange(1, (1 + g.len()) as int) == g
            &&& lines[(1 + g.len()) as int] == "## API reference (live, from GET /openapi)\n"@
            &&& lines.subrange((2 + g.len()) as int, (2 + g.len() + tags.len()) as int) == tags
            &&& lines.subrange(
                (2 + g.len() + tags.len()) as int,
                (2 + g.len() + tags.len() + attributes.len()) as int,
            ) == attributes
            &&& lines.skip((2 + g.len() + tags.len() + attributes.len()) as int) == relationships
        },
        guidance(resource) matches Some(t) ==> guidance_lines(resource) == seq![
            trim(t, CharClass::White),
            "\n---\n"@,
        ],
        guidance(resource) is None ==> guidance_lines(resource).len() == 0,
{
    lemma_bare(resource);
    let g = guidance_lines(resource);
    let tags = tag_lines(doc, op);
    let attributes = attribute_lines(op);
    let relationships = relationship_lines(op, resource, bin);
    let lines = resource_description(doc, op, resource, bin);
    assert(lines.subrange(1, (1 + g.len()) as int) =~= g);
    assert(lines.subrange((2 + g.len()) as int, (2 + g.len() + tags.len()) as int) =~= tags);
    assert(lines.subrange(
        (2 + g.len() + tags.len()) as int,
        (2 + g.len() + tags.len() + attributes.len()) as int,
    ) =~= attributes);
    assert(lines.skip((2 + g.len() + tags.len() + attributes.len()) as int) =~= relationships);
}

proof fn lemma_bare(resource: Seq<char>)
    requires
        !resource.contains('/'),
    ensures
        trim_start(resource, CharClass::Is('/')) == resource,
{
    if resource.len() > 0 {
        assert(resource.contains(resource[0]));
    }
}

/// What the tag of a resource says is shown, with the filters and sortable
/// fields that it names and those that the parameters tell of.
pub proof fn law_tags_are_shown(doc: JsonView, operation: JsonView, tag: Seq<char>)
    requires
        tag_of(operation) == Some(tag),
    ensures
        match tag_text(doc, tag) {
            Some(t) => {
                let d = described(split(t, '\n'));
                tag_lines(doc, operation) == shown(d.lines) + query_surface(
                    operation,
                    d.filters,
                    d.sortable,
                )
            },
            None => tag_lines(doc, operation) == seq!["(no tag description available)\n"@]
                + query_surface(operation, Seq::empty(), Seq::empty()),
        },
{
}

/// A resource is described exactly where the document has it, slashes before
/// its name or not; one that cannot be read is told of on one line, and for one
/// that is not there the suggestions are part of the error.
pub proof fn law_resources_are_described(doc: JsonView, bare: Seq<char>, bin: Seq<char>)
    requires
        bare.len() > 0,
        !bare.contains('/'),
    ensures
        description_of(doc, bare, bin) is Ok <==> then_field(field(doc, "paths"@), "/"@ + bare)
            is Some,
        description_of(doc, seq!['/'] + bare, bin) == description_of(doc, bare, bin),
        then_field(field(doc, "paths"@), "/"@ + bare) matches Some(o) && field(o, "get"@) is None
            ==> description_of(doc, bare, bin) == Ok::<Seq<Seq<char>>, Seq<char>>(
            seq!["/"@ + bare + ": no GET operation (write-only or action route)"@],
        ),
        then_field(field(doc, "paths"@), "/"@ + bare) is None ==> description_of(doc, bare, bin)
            == Err::<Seq<Seq<char>>, Seq<char>>(
            "No resource found at path "@ + ("/"@ + bare) + "."@ + (if suggestions(doc, bare).len()
                == 0 {
                Seq::empty()
            } else {
                " Did you mean: "@ + join(suggestions(doc, bare), ", "@) + "?"@
            }) + " Run `"@ + bin + " resources` to see everything available."@,
        ),
{
    lemma_bare(bare);
    let slashed = seq!['/'] + bare;
    assert(slashed.drop_first() =~= bare);
    assert(trim_start(slashed, CharClass::Is('/')) == bare);
}

/// What is no resource name is refused: nothing, or a path of several parts.
pub proof fn law_paths_are_not_described(doc: JsonView, a: Seq<char>, b: Seq<char>, bin: Seq<char>)
    requires
        a.len() > 0,
        a[0] != '/',
    ensures
        description_of(doc, a + seq!['/'] + b, bin) is Err,
        description_of(doc, Seq::empty(), bin) is Err,
        description_of(doc, seq!['/'], bin) is Err,
{
    let s = a + seq!['/'] + b;
    assert(s[0] == a[0]);
    assert(s[a.len() as int] == '/');
    assert(trim_start(s, CharClass::Is('/')) == s);
    assert(s.contains('/'));
    assert(seq!['/'].drop_first() =~= Seq::<char>::empty());
    assert(trim_start(Seq::<char>::empty(), CharClass::Is('/')) =~= Seq::<char>::empty());
    assert(trim_start(seq!['/'], CharClass::Is('/')) =~= Seq::<char>::empty());
}

/// A resource whose example tells nothing of attributes has no line on them,
/// but one where its schema is made of others.
pub proof fn law_absent_attributes_are_told(operation: JsonView)
    requires
        part_properties(operation, "attributes"@) is None,
    ensures
        composed(operation) ==> attribute_lines(operation).len() == 1,
        !composed(operation) ==> attribute_lines(operation).len() == 0,
{
}

/// A schema is made of others exactly where its item names one or combines some.
pub proof fn law_composed_schemas(operation: JsonView, item: JsonView)
    ensures
        item_schema(operation) == Some(item) ==> (composed(operation) <==> field(item, "$ref"@)
            is Some || field(item, "allOf"@) is Some || field(item, "anyOf"@) is Some || field(
            item,
            "oneOf"@,
        ) is Some),
        item_schema(operation) is None ==> !composed(operation),
{
}

/// What is cut from an end is put back by adding it.
pub proof fn law_ends_are_cut(s: Seq<char>, end: Seq<char>)
    ensures
        before_end(s + end, end) == Some(s),
        before_end(s, end) matches Some(r) ==> r + end == s,
{
    law_put_around(s, end, end);
    assert((s + end).take(s.len() as int) =~= s);
    assert((s + end).skip(s.len() as int) =~= end);
    if before_end(s, end) is Some {
        assert((before_end(s, end)->0) + end =~= s);
    }
}

/// A suggestion is taken up once, and those that were there stay, in their order.
pub proof fn law_suggestions_are_taken_up(list: Seq<Seq<char>>, name: Seq<char>, query: Seq<char>)
    ensures
        exists|at: int|
            0 <= at <= list.len() && #[trigger] list.insert(at, name) == with_suggestion(
                list,
                name,
                query,
            ),
    decreases list.len(),
{
    if list.len() == 0 || suggested_before(name, list[0], query) {
        assert(list.insert(0, name) =~= with_suggestion(list, name, query));
    } else {
        let rest = list.drop_first();
        law_suggestions_are_taken_up(rest, name, query);
        let at = choose|at: int|
            0 <= at <= rest.len() && #[trigger] rest.insert(at, name) == with_suggestion(
                rest,
                name,
                query,
            );
        assert(list.insert(at + 1, name) =~= seq![list[0]] + rest.insert(at, name));
    }
}

/// The parameters of an operation are those that it lists.
pub proof fn law_parameters_are_read(operation: JsonView, params: Seq<JsonView>)
    ensures
        field(operation, "parameters"@) == Some(JsonView::Array(params)) ==> params_of(operation)
            == params,
        !(field(operation, "parameters"@) matches Some(JsonView::Array(_))) ==> params_of(
            operation,
        ).len() == 0,
{
}

} // verus!
