//! What the commands make of their arguments, before anything is sent and
//! after something came back.

use crate::client::{
    first_error, law_values_are_spelled, opt_owned, segment_error, spelled, ApiClient, HttpMethod,
    PairsView,
};
use crate::config::{DEFAULT_API_URL, DEFAULT_WEB_URL};
use crate::format::{json_type, json_type_name};
use crate::json::{
    distinct_names, fields_view, find_field, law_fields_are_found, law_put_keeps_the_rest,
    law_put_then_lookup, lookup, no_fields, object, put, put_field, text, FieldsView, Json,
    JsonView,
};
use crate::outside::{quoted, quoted_text};
use crate::response::{error_line, error_text, parsed_view, success, ApiResponse, ResponseView};
use crate::text::{
    add_line, ends_with, law_split_once, one_line, opt_text, same, split_at_first, split_once,
    starts_with, text_pairs, texts,
};
use vstd::prelude::*;
use vstd::string::*;

verus! {

/// The help on `--api-url`.
pub fn api_url_help() -> (r: String)
    ensures
        r@ == "Override the API base URL (defaults to "@ + DEFAULT_API_URL@
            + ", or the KLAAY_API_URL env var if set)."@,
{
    "Override the API base URL (defaults to ".to_owned().concat(DEFAULT_API_URL).concat(
        ", or the KLAAY_API_URL env var if set).",
    )
}

/// The help on `--web-url`.
pub fn web_url_help() -> (r: String)
    ensures
        r@ == "Override the web app URL the browser sign-in opens (defaults to "@
            + DEFAULT_WEB_URL@ + ", or the KLAAY_WEB_URL env var if set)."@,
{
    "Override the web app URL the browser sign-in opens (defaults to ".to_owned().concat(
        DEFAULT_WEB_URL,
    ).concat(", or the KLAAY_WEB_URL env var if set).")
}

/// How one logs in.
#[derive(Clone, Copy, Debug, PartialEq, Eq, Structural)]
pub enum LoginMode {
    Browser,
    Device,
    WithToken,
}

pub open spec fn asked_mode(no_browser: bool, with_token: bool) -> LoginMode {
    if with_token {
        LoginMode::WithToken
    } else if no_browser {
        LoginMode::Device
    } else {
        LoginMode::Browser
    }
}

/// How one logs in: with a token that one has, with a code to type in, or,
/// unless one of these is asked for, with the browser.
pub fn login_mode(no_browser: bool, with_token: bool) -> (r: LoginMode)
    ensures
        r == asked_mode(no_browser, with_token),
{
    if with_token {
        LoginMode::WithToken
    } else if no_browser {
        LoginMode::Device
    } else {
        LoginMode::Browser
    }
}

/// A value that was given as JSON, or what is said of one that is none.
pub open spec fn json_arg(parsed: Result<JsonView, Seq<char>>, flag: Seq<char>) -> Result<
    JsonView,
    Seq<char>,
> {
    match parsed {
        Ok(v) => Ok(v),
        Err(e) => Err(flag + " is not valid JSON: "@ + e),
    }
}

/// A value given as JSON, or that it is none.
pub fn parse_json_arg(parsed: Result<Json, String>, flag: &str) -> (r: Result<Json, String>)
    ensures
        parsed matches Ok(v) ==> r == Ok::<Json, String>(v),
        parsed_view(r) == json_arg(parsed_view(parsed), flag@),
{
    match parsed {
        Ok(v) => Ok(v),
        Err(e) => Err(flag.to_owned().concat(" is not valid JSON: ").concat(e.as_str())),
    }
}

pub open spec fn no_object(v: JsonView) -> Seq<char> {
    "--data must be a JSON object (got a "@ + json_type(v) + ")"@
}

/// Refuses data that is no object.
pub fn require_data_is_object(body: &Json) -> (r: Result<(), String>)
    ensures
        match r {
            Ok(_) => body@ is Object,
            Err(e) => !(body@ is Object) && e@ == no_object(body@),
        },
{
    if body.is_object() {
        Ok(())
    } else {
        Err(
            "--data must be a JSON object (got a ".to_owned().concat(json_type_name(body)).concat(
                ")",
            ),
        )
    }
}

/// What `key=value` says, or why it says nothing.
pub open spec fn key_value(v: Seq<char>, flag: Seq<char>) -> Result<
    (Seq<char>, Seq<char>),
    Seq<char>,
> {
    match split_once(v, '=') {
        Some(p) => if p.0.len() == 0 {
            Err("Invalid "@ + flag + " value (key must not be empty): "@ + v)
        } else {
            Ok(p)
        },
        None => Err("Invalid "@ + flag + " value (expected key=value): "@ + v),
    }
}

/// What all of them say; the first that says nothing is the error.
pub open spec fn key_values(values: Seq<Seq<char>>, flag: Seq<char>) -> Result<PairsView, Seq<char>>
    decreases values.len(),
{
    if values.len() == 0 {
        Ok(Seq::empty())
    } else {
        match key_values(values.drop_last(), flag) {
            Err(e) => Err(e),
            Ok(rest) => match key_value(values.last(), flag) {
                Err(e) => Err(e),
                Ok(p) => Ok(rest.push(p)),
            },
        }
    }
}

pub open spec fn pairs_result(r: Result<Vec<(String, String)>, String>) -> Result<
    PairsView,
    Seq<char>,
> {
    match r {
        Ok(p) => Ok(text_pairs(p@)),
        Err(e) => Err(e@),
    }
}

proof fn lemma_key_values_error(values: Seq<Seq<char>>, flag: Seq<char>, i: int)
    requires
        0 <= i <= values.len(),
        key_values(values.take(i), flag) is Err,
    ensures
        key_values(values, flag) == key_values(values.take(i), flag),
    decreases values.len() - i,
{
    if i < values.len() {
        assert(values.take(i + 1).drop_last() =~= values.take(i));
        lemma_key_values_error(values, flag, i + 1);
    } else {
        assert(values.take(i) =~= values);
    }
}

fn parse_key_value_flags(values: &[String], flag: &str) -> (r: Result<
    Vec<(String, String)>,
    String,
>)
    ensures
        pairs_result(r) == key_values(texts(values@), flag@),
{
    let ghost all = texts(values@);
    let mut pairs: Vec<(String, String)> = Vec::new();
    assert(text_pairs(pairs@) =~= Seq::empty());
    let mut i: usize = 0;
    while i < values.len()
        invariant
            i <= values@.len(),
            all == texts(values@),
            key_values(all.take(i as int), flag@) == Ok::<PairsView, Seq<char>>(
                text_pairs(pairs@),
            ),
        decreases values@.len() - i,
    {
        assert(all.take(i + 1).drop_last() =~= all.take(i as int));
        assert(all.take(i + 1).last() == values@[i as int]@);
        let v = values[i].as_str();
        match split_at_first(v, '=') {
            None => {
                proof {
                    lemma_key_values_error(all, flag@, i + 1);
                }
                return Err(
                    "Invalid ".to_owned().concat(flag).concat(
                        " value (expected key=value): ",
                    ).concat(v),
                );
            },
            Some(p) => {
                if p.0.as_str().unicode_len() == 0 {
                    proof {
                        lemma_key_values_error(all, flag@, i + 1);
                    }
                    return Err(
                        "Invalid ".to_owned().concat(flag).concat(
                            " value (key must not be empty): ",
                        ).concat(v),
                    );
                }
                let ghost before = pairs@;
                pairs.push(p);
                assert(text_pairs(pairs@) =~= text_pairs(before).push((p.0@, p.1@)));
            },
        }
        i = i + 1;
    }
    assert(all.take(i as int) =~= all);
    Ok(pairs)
}

/// The filters of `--filter key=value`. An empty value stays: it asks for what
/// is empty.
pub fn parse_filter_flags(values: &[String]) -> (r: Result<Vec<(String, String)>, String>)
    ensures
        pairs_result(r) == key_values(texts(values@), "--filter"@),
{
    parse_key_value_flags(values, "--filter")
}

/// What is wrong with the first pair without a value.
pub open spec fn empty_value(pairs: PairsView) -> Option<Seq<char>>
    decreases pairs.len(),
{
    if pairs.len() == 0 {
        None
    } else if pairs[0].1.len() == 0 {
        Some("Invalid --file value (value must not be empty): "@ + pairs[0].0 + "="@)
    } else {
        empty_value(pairs.drop_first())
    }
}

/// What `--file relationship=path` says, each time that it is given.
pub open spec fn file_values(values: Seq<Seq<char>>) -> Result<PairsView, Seq<char>> {
    match key_values(values, "--file"@) {
        Err(e) => Err(e),
        Ok(pairs) => match empty_value(pairs) {
            Some(e) => Err(e),
            None => Ok(pairs),
        },
    }
}

/// The files of `--file relationship=path`. A path is not empty.
pub fn parse_file_flags(values: &[String]) -> (r: Result<Vec<(String, String)>, String>)
    ensures
        pairs_result(r) == file_values(texts(values@)),
{
    let pairs = parse_key_value_flags(values, "--file")?;
    let ghost all = text_pairs(pairs@);
    let mut i: usize = 0;
    assert(all.skip(0) =~= all);
    while i < pairs.len()
        invariant
            i <= pairs@.len(),
            all == text_pairs(pairs@),
            key_values(texts(values@), "--file"@) == Ok::<PairsView, Seq<char>>(all),
            empty_value(all) == empty_value(all.skip(i as int)),
        decreases pairs@.len() - i,
    {
        assert(all.skip(i as int)[0] == all[i as int]);
        assert(all.skip(i as int).drop_first() =~= all.skip(i + 1));
        if pairs[i].1.as_str().unicode_len() == 0 {
            return Err(
                "Invalid --file value (value must not be empty): ".to_owned().concat(
                    pairs[i].0.as_str(),
                ).concat("="),
            );
        }
        i = i + 1;
    }
    Ok(pairs)
}

/// What `type:field1,field2` says, or that it says nothing.
pub open spec fn fields_of(f: Seq<char>) -> Result<(Seq<char>, Seq<char>), Seq<char>> {
    match split_once(f, ':') {
        Some(p) => if p.0.len() == 0 || p.1.len() == 0 {
            Err("Invalid --fields value (expected type:field1,field2): "@ + f)
        } else {
            Ok(p)
        },
        None => Err("Invalid --fields value (expected type:field1,field2): "@ + f),
    }
}

/// The fields of `--fields type:field1,field2`.
pub fn parse_fields_arg(fields: Option<&str>) -> (r: Result<Option<(String, String)>, String>)
    ensures
        match (fields, r) {
            (None, Ok(None)) => true,
            (Some(f), Ok(Some(p))) => fields_of(f@) == Ok::<(Seq<char>, Seq<char>), Seq<char>>(
                (p.0@, p.1@),
            ),
            (Some(f), Err(e)) => fields_of(f@) == Err::<(Seq<char>, Seq<char>), Seq<char>>(e@),
            _ => false,
        },
{
    let f = match fields {
        Some(f) => f,
        None => {
            return Ok(None);
        },
    };
    match split_at_first(f, ':') {
        Some(p) => if p.0.as_str().unicode_len() == 0 || p.1.as_str().unicode_len() == 0 {
            Err("Invalid --fields value (expected type:field1,field2): ".to_owned().concat(f))
        } else {
            Ok(Some(p))
        },
        None => Err("Invalid --fields value (expected type:field1,field2): ".to_owned().concat(f)),
    }
}

/// The data with the type of the resource. Data that names another type is
/// refused.
pub open spec fn typed(fields: FieldsView, resource: Seq<char>) -> Result<
    FieldsView,
    Seq<Seq<char>>,
> {
    match lookup(fields, "type"@) {
        None => Ok(put(fields, "type"@, JsonView::Text(resource))),
        Some(JsonView::Text(t)) => if t == resource {
            Ok(fields)
        } else {
            Err(
                seq![
                    "Error: --data specified type \""@ + t + "\", which conflicts with resource \""@
                        + resource + "\"."@,
                    "Remove the \"type\" key from --data, or make it match \""@ + resource + "\"."@,
                ],
            )
        },
        Some(v) => Err(
            seq![
                "Error: --data 'type' was not a string (got a "@ + json_type(v)
                    + ") - cannot set resource type."@,
            ],
        ),
    }
}

pub open spec fn fields_result(r: Result<(), Vec<String>>, after: FieldsView) -> Result<
    FieldsView,
    Seq<Seq<char>>,
> {
    match r {
        Ok(_) => Ok(after),
        Err(lines) => Err(texts(lines@)),
    }
}

/// Sets the type of the data to the resource. Data that names another type is
/// refused, not changed.
pub fn set_type(fields: &mut Vec<(String, Json)>, resource: &str) -> (r: Result<(), Vec<String>>)
    ensures
        fields_result(r, fields_view(final(fields)@)) == typed(
            fields_view(old(fields)@),
            resource@,
        ),
{
    match find_field(fields, "type") {
        None => {},
        Some(v) => {
            return match v.as_str() {
                None => Err(
                    one_line(
                        "Error: --data 'type' was not a string (got a ".to_owned().concat(
                            json_type_name(v),
                        ).concat(") - cannot set resource type."),
                    ),
                ),
                Some(t) => if same(t, resource) {
                    Ok(())
                } else {
                    let mut lines = one_line(
                        "Error: --data specified type \"".to_owned().concat(t).concat(
                            "\", which conflicts with resource \"",
                        ).concat(resource).concat("\"."),
                    );
                    add_line(
                        &mut lines,
                        "Remove the \"type\" key from --data, or make it match \"".to_owned().concat(
                            resource,
                        ).concat("\"."),
                    );
                    assert(texts(lines@) =~= typed(fields_view(fields@), resource@)->Err_0);
                    Err(lines)
                },
            };
        },
    }
    put_field(fields, "type", text(resource));
    Ok(())
}

/// What is said of relationships that are no object.
pub open spec fn bad_relationships(v: JsonView) -> Seq<Seq<char>> {
    seq![
        "Error: --data 'relationships' was not a JSON object (got a "@ + json_type(v)
            + ") - cannot merge uploaded file relationships."@,
        "Fix the --data 'relationships' field to be a JSON object, or omit it and let --file build it."@,
    ]
}

fn bad_relationship_lines(v: &Json) -> (r: Vec<String>)
    ensures
        texts(r@) == bad_relationships(v@),
{
    let mut lines = one_line(
        "Error: --data 'relationships' was not a JSON object (got a ".to_owned().concat(
            json_type_name(v),
        ).concat(") - cannot merge uploaded file relationships."),
    );
    add_line(
        &mut lines,
        "Fix the --data 'relationships' field to be a JSON object, or omit it and let --file build it.".to_owned(),
    );
    assert(texts(lines@) =~= bad_relationships(v@));
    lines
}

/// The relationships of the data are an object, where there are any.
pub open spec fn relationships_fit(fields: FieldsView) -> bool {
    match lookup(fields, "relationships"@) {
        None => true,
        Some(v) => v is Object,
    }
}

/// Refuses relationships that are no object, before anything is uploaded.
pub fn require_relationships_is_object_or_absent(fields: &Vec<(String, Json)>) -> (r: Result<
    (),
    Vec<String>,
>)
    ensures
        match r {
            Ok(_) => relationships_fit(fields_view(fields@)),
            Err(lines) => lookup(fields_view(fields@), "relationships"@) matches Some(v) && !(
            v is Object) && texts(lines@) == bad_relationships(v),
        },
{
    match find_field(fields, "relationships") {
        None => Ok(()),
        Some(v) => if v.is_object() {
            Ok(())
        } else {
            Err(bad_relationship_lines(v))
        },
    }
}

pub open spec fn orphan_note() -> Seq<char> {
    "Note: the file upload(s) above already completed before this failure - the uploaded blob(s) exist in ActiveStorage but aren't attached to anything."@
}

fn note_orphaned_uploads() -> (r: String)
    ensures
        r@ == orphan_note(),
{
    "Note: the file upload(s) above already completed before this failure - the uploaded blob(s) exist in ActiveStorage but aren't attached to anything.".to_owned()
}

pub open spec fn relationship_conflict(k: Seq<char>) -> Seq<Seq<char>> {
    seq![
        "Error: --data 'relationships' already specifies \""@ + k
            + "\", which conflicts with --file "@ + k + "=<path>."@,
        "Remove one of them - both can't apply to the same relationship."@,
        orphan_note(),
    ]
}

/// The relationships with the new ones behind them. One that is there already
/// is refused.
pub open spec fn merged(old_rels: FieldsView, new_rels: FieldsView) -> Result<
    FieldsView,
    Seq<Seq<char>>,
>
    decreases new_rels.len(),
{
    if new_rels.len() == 0 {
        Ok(old_rels)
    } else {
        match merged(old_rels, new_rels.drop_last()) {
            Err(e) => Err(e),
            Ok(m) => if lookup(m, new_rels.last().0) is Some {
                Err(relationship_conflict(new_rels.last().0))
            } else {
                Ok(put(m, new_rels.last().0, new_rels.last().1))
            },
        }
    }
}

/// The data with the relationships to uploaded files.
pub open spec fn with_relationships(fields: FieldsView, relationships: JsonView) -> Result<
    FieldsView,
    Seq<Seq<char>>,
> {
    match relationships {
        JsonView::Object(new_rels) => match lookup(fields, "relationships"@) {
            None => Ok(put(fields, "relationships"@, relationships)),
            Some(JsonView::Object(old_rels)) => match merged(old_rels, new_rels) {
                Ok(m) => Ok(put(fields, "relationships"@, JsonView::Object(m))),
                Err(e) => Err(e),
            },
            Some(v) => Err(bad_relationships(v).push(orphan_note())),
        },
        v => Err(
            seq![
                "Internal error: uploaded relationships were not a JSON object (got a "@ + json_type(
                    v,
                ) + ") - file relationship(s) were not attached."@,
                orphan_note(),
            ],
        ),
    }
}

proof fn lemma_merged_error(old_rels: FieldsView, new_rels: FieldsView, i: int)
    requires
        0 <= i <= new_rels.len(),
        merged(old_rels, new_rels.take(i)) is Err,
    ensures
        merged(old_rels, new_rels) == merged(old_rels, new_rels.take(i)),
    decreases new_rels.len() - i,
{
    if i < new_rels.len() {
        assert(new_rels.take(i + 1).drop_last() =~= new_rels.take(i));
        lemma_merged_error(old_rels, new_rels, i + 1);
    } else {
        assert(new_rels.take(i) =~= new_rels);
    }
}

fn copy_fields(fields: &Vec<(String, Json)>) -> (r: Vec<(String, Json)>)
    ensures
        fields_view(r@) == fields_view(fields@),
{
    let ghost all = fields_view(fields@);
    let mut out = no_fields();
    let mut i: usize = 0;
    while i < fields.len()
        invariant
            i <= fields@.len(),
            all == fields_view(fields@),
            fields_view(out@) == all.take(i as int),
        decreases fields@.len() - i,
    {
        let v = fields[i].1.copy();
        let ghost before = out@;
        out.push((fields[i].0.clone(), v));
        assert(fields_view(out@) =~= fields_view(before).push((fields@[i as int].0@, v@)));
        assert(all.take(i + 1) =~= all.take(i as int).push(all[i as int]));
        i = i + 1;
    }
    assert(all.take(i as int) =~= all);
    out
}

fn merge_all(old_rels: &Vec<(String, Json)>, new_rels: &Vec<(String, Json)>) -> (r: Result<
    Vec<(String, Json)>,
    Vec<String>,
>)
    ensures
        match r {
            Ok(m) => merged(fields_view(old_rels@), fields_view(new_rels@)) == Ok::<
                FieldsView,
                Seq<Seq<char>>,
            >(fields_view(m@)),
            Err(lines) => merged(fields_view(old_rels@), fields_view(new_rels@)) == Err::<
                FieldsView,
                Seq<Seq<char>>,
            >(texts(lines@)),
        },
{
    let ghost before = fields_view(old_rels@);
    let ghost all = fields_view(new_rels@);
    let mut m = copy_fields(old_rels);
    let mut i: usize = 0;
    while i < new_rels.len()
        invariant
            i <= new_rels@.len(),
            before == fields_view(old_rels@),
            all == fields_view(new_rels@),
            merged(before, all.take(i as int)) == Ok::<FieldsView, Seq<Seq<char>>>(
                fields_view(m@),
            ),
        decreases new_rels@.len() - i,
    {
        assert(all.take(i + 1).drop_last() =~= all.take(i as int));
        assert(all.take(i + 1).last() == (new_rels@[i as int].0@, new_rels@[i as int].1@));
        let k = new_rels[i].0.as_str();
        if find_field(&m, k).is_some() {
            let mut lines = one_line(
                "Error: --data 'relationships' already specifies \"".to_owned().concat(k).concat(
                    "\", which conflicts with --file ",
                ).concat(k).concat("=<path>."),
            );
            add_line(
                &mut lines,
                "Remove one of them - both can't apply to the same relationship.".to_owned(),
            );
            add_line(&mut lines, note_orphaned_uploads());
            assert(texts(lines@) =~= relationship_conflict(k@));
            proof {
                lemma_merged_error(before, all, i + 1);
            }
            return Err(lines);
        }
        put_field(&mut m, k, new_rels[i].1.copy());
        i = i + 1;
    }
    assert(all.take(i as int) =~= all);
    Ok(m)
}

/// Adds the relationships to uploaded files to the data. None that the data
/// names itself is replaced.
pub fn merge_relationships(fields: &mut Vec<(String, Json)>, relationships: Json) -> (r: Result<
    (),
    Vec<String>,
>)
    ensures
        fields_result(r, fields_view(final(fields)@)) == with_relationships(
            fields_view(old(fields)@),
            relationships@,
        ),
{
    proof {
        relationships.lemma_view();
    }
    let new_rels = match &relationships {
        Json::Object(f) => f,
        v => {
            let mut lines = one_line(
                "Internal error: uploaded relationships were not a JSON object (got a ".to_owned().concat(
                    json_type_name(v),
                ).concat(") - file relationship(s) were not attached."),
            );
            add_line(&mut lines, note_orphaned_uploads());
            assert(texts(lines@) =~= with_relationships(
                fields_view(fields@),
                relationships@,
            )->Err_0);
            return Err(lines);
        },
    };
    let result = match find_field(fields, "relationships") {
        None => copy_fields(new_rels),
        Some(v) => {
            proof {
                v.lemma_view();
            }
            match v {
                Json::Object(old_rels) => merge_all(old_rels, new_rels)?,
                v => {
                    let mut lines = bad_relationship_lines(v);
                    add_line(&mut lines, note_orphaned_uploads());
                    return Err(lines);
                },
            }
        },
    };
    put_field(fields, "relationships", object(result));
    Ok(())
}

/// Nothing that the data says of relationships is lost, and nothing that was
/// uploaded: each stands where it was put.
pub proof fn law_merging_loses_nothing(old_rels: FieldsView, new_rels: FieldsView, k: Seq<char>)
    requires
        merged(old_rels, new_rels) is Ok,
    ensures
        ({
            let m = merged(old_rels, new_rels)->Ok_0;
            &&& lookup(old_rels, k) is Some ==> lookup(m, k) == lookup(old_rels, k)
            &&& lookup(new_rels, k) is Some ==> lookup(m, k) == lookup(new_rels, k)
        }),
    decreases new_rels.len(),
{
    if new_rels.len() > 0 {
        let rest = new_rels.drop_last();
        let before = merged(old_rels, rest)->Ok_0;
        let (key, value) = new_rels.last();
        law_merging_loses_nothing(old_rels, rest, k);
        law_put_then_lookup(before, key, value, k);
        lemma_lookup_push(rest, key, value, k);
        assert(rest.push((key, value)) =~= new_rels);
        if k == key {
            if lookup(rest, k) is Some {
                assert(lookup(before, k) is Some);
            }
        }
    }
}

proof fn lemma_lookup_push(fields: FieldsView, key: Seq<char>, value: JsonView, k: Seq<char>)
    ensures
        lookup(fields.push((key, value)), k) == (if lookup(fields, k) is Some {
            lookup(fields, k)
        } else if k == key {
            Some(value)
        } else {
            None
        }),
    decreases fields.len(),
{
    let after = fields.push((key, value));
    if fields.len() == 0 {
        assert(after.drop_first() =~= FieldsView::empty());
        assert(lookup(after.drop_first(), k) is None);
    } else {
        assert(after.drop_first() =~= fields.drop_first().push((key, value)));
        lemma_lookup_push(fields.drop_first(), key, value, k);
    }
}

/// The data as it is given: an object, and an empty one where none is given.
pub open spec fn given_data(
    data: Option<Result<JsonView, Seq<char>>>,
) -> Result<FieldsView, Seq<Seq<char>>> {
    match data {
        None => Ok(Seq::empty()),
        Some(Err(e)) => Err(seq!["--data"@ + " is not valid JSON: "@ + e]),
        Some(Ok(JsonView::Object(fields))) => Ok(fields),
        Some(Ok(v)) => Err(seq![no_object(v)]),
    }
}

pub open spec fn data_view(data: Option<Result<Json, String>>) -> Option<
    Result<JsonView, Seq<char>>,
> {
    match data {
        None => None,
        Some(Ok(v)) => Some(Ok(v@)),
        Some(Err(e)) => Some(Err(e@)),
    }
}

/// The data of a resource that is to be created or changed, before files are
/// uploaded for it.
pub open spec fn resource_data(
    resource: Seq<char>,
    data: Option<Result<JsonView, Seq<char>>>,
) -> Result<FieldsView, Seq<Seq<char>>> {
    match given_data(data) {
        Err(e) => Err(e),
        Ok(fields) => match typed(fields, resource) {
            Err(e) => Err(e),
            Ok(t) => match lookup(t, "relationships"@) {
                Some(v) => if v is Object {
                    Ok(t)
                } else {
                    Err(bad_relationships(v))
                },
                None => Ok(t),
            },
        },
    }
}

pub open spec fn fields_or_lines(r: Result<Vec<(String, Json)>, Vec<String>>) -> Result<
    FieldsView,
    Seq<Seq<char>>,
> {
    match r {
        Ok(f) => Ok(fields_view(f@)),
        Err(lines) => Err(texts(lines@)),
    }
}

fn read_data(resource: &str, data: Option<Result<Json, String>>) -> (r: Result<
    Vec<(String, Json)>,
    Vec<String>,
>)
    ensures
        fields_or_lines(r) == resource_data(resource@, data_view(data)),
{
    let mut fields = match data {
        None => no_fields(),
        Some(parsed) => {
            let body = match parse_json_arg(parsed, "--data") {
                Ok(v) => v,
                Err(e) => {
                    return Err(one_line(e));
                },
            };
            if let Err(e) = require_data_is_object(&body) {
                return Err(one_line(e));
            }
            proof {
                body.lemma_view();
            }
            match body {
                Json::Object(f) => f,
                _ => no_fields(),
            }
        },
    };
    set_type(&mut fields, resource)?;
    require_relationships_is_object_or_absent(&fields)?;
    Ok(fields)
}

/// The data of a resource that is to be created.
pub open spec fn creation(resource: Seq<char>, data: Option<Result<JsonView, Seq<char>>>) -> Result<
    FieldsView,
    Seq<Seq<char>>,
> {
    match segment_error(resource, "resource"@) {
        Some(e) => Err(seq![e]),
        None => resource_data(resource, data),
    }
}

/// The data of a resource that is to be created, before files are uploaded for
/// it, or the lines that say what is wrong with it.
pub fn prepare_create(resource: &str, data: Option<Result<Json, String>>) -> (r: Result<
    Vec<(String, Json)>,
    Vec<String>,
>)
    ensures
        fields_or_lines(r) == creation(resource@, data_view(data)),
{
    if let Err(e) = ApiClient::validate_path_segment(resource, "resource") {
        return Err(one_line(e));
    }
    read_data(resource, data)
}

/// The data with the id of the resource, and what is warned of. Data that
/// names another id is refused.
pub open spec fn identified(fields: FieldsView, id: Seq<char>) -> Result<
    (FieldsView, Option<Seq<char>>),
    Seq<Seq<char>>,
> {
    let done = put(fields, "id"@, JsonView::Text(id));
    match lookup(fields, "id"@) {
        None => Ok((done, None)),
        Some(JsonView::Null) => Ok(
            (
                done,
                Some(
                    "Warning: --data 'id' is null - using the command-line id \""@ + id
                        + "\" instead."@,
                ),
            ),
        ),
        Some(JsonView::Text(s)) => if s == id {
            Ok((done, None))
        } else {
            Err(
                seq![
                    "Error: --data specified id "@ + quoted(s)
                        + ", which conflicts with the command-line id \""@ + id + "\"."@,
                    "Remove the \"id\" key from --data, or make it match \""@ + id + "\"."@,
                ],
            )
        },
        Some(v) => Err(
            seq![
                "Error: --data 'id' was not a string (got a "@ + json_type(v)
                    + ") - JSON:API resource ids must be strings."@,
            ],
        ),
    }
}

/// The data of a resource that is to be changed.
pub open spec fn change(
    resource: Seq<char>,
    id: Seq<char>,
    data: Option<Result<JsonView, Seq<char>>>,
) -> Result<(FieldsView, Option<Seq<char>>), Seq<Seq<char>>> {
    match first_error(segment_error(resource, "resource"@), segment_error(id, "id"@)) {
        Some(e) => Err(seq![e]),
        None => match resource_data(resource, data) {
            Err(e) => Err(e),
            Ok(fields) => identified(fields, id),
        },
    }
}

pub open spec fn change_result(r: Result<(Vec<(String, Json)>, Option<String>), Vec<String>>) -> Result<
    (FieldsView, Option<Seq<char>>),
    Seq<Seq<char>>,
> {
    match r {
        Ok(p) => Ok((fields_view(p.0@), opt_text(p.1))),
        Err(lines) => Err(texts(lines@)),
    }
}

fn set_id(fields: Vec<(String, Json)>, id: &str) -> (r: Result<
    (Vec<(String, Json)>, Option<String>),
    Vec<String>,
>)
    ensures
        change_result(r) == identified(fields_view(fields@), id@),
{
    let warning = match find_field(&fields, "id") {
        None => None,
        Some(v) => if v.is_null() {
            Some(
                "Warning: --data 'id' is null - using the command-line id \"".to_owned().concat(
                    id,
                ).concat("\" instead."),
            )
        } else {
            match v.as_str() {
                Some(s) => {
                    if !same(s, id) {
                        let mut lines = one_line(
                            "Error: --data specified id ".to_owned().concat(
                                quoted_text(s).as_str(),
                            ).concat(", which conflicts with the command-line id \"").concat(
                                id,
                            ).concat("\"."),
                        );
                        add_line(
                            &mut lines,
                            "Remove the \"id\" key from --data, or make it match \"".to_owned().concat(
                                id,
                            ).concat("\"."),
                        );
                        assert(texts(lines@) =~= identified(fields_view(fields@), id@)->Err_0);
                        return Err(lines);
                    }
                    None
                },
                None => {
                    return Err(
                        one_line(
                            "Error: --data 'id' was not a string (got a ".to_owned().concat(
                                json_type_name(v),
                            ).concat(") - JSON:API resource ids must be strings."),
                        ),
                    );
                },
            }
        },
    };
    let mut fields = fields;
    put_field(&mut fields, "id", text(id));
    Ok((fields, warning))
}

/// The data of a resource that is to be changed, before files are uploaded for
/// it, and what is warned of; or the lines that say what is wrong with it.
pub fn prepare_update(resource: &str, id: &str, data: Option<Result<Json, String>>) -> (r: Result<
    (Vec<(String, Json)>, Option<String>),
    Vec<String>,
>)
    ensures
        change_result(r) == change(resource@, id@, data_view(data)),
{
    if let Err(e) = ApiClient::validate_path_segment(resource, "resource") {
        return Err(one_line(e));
    }
    if let Err(e) = ApiClient::validate_path_segment(id, "id") {
        return Err(one_line(e));
    }
    let fields = read_data(resource, data)?;
    set_id(fields, id)
}

/// The body of a call, or why there is none: a body goes with the methods that
/// send one, and is an object.
pub open spec fn call_body(method: HttpMethod, data: Option<Result<JsonView, Seq<char>>>) -> Result<
    Option<JsonView>,
    Seq<char>,
> {
    match data {
        None => Ok(None),
        Some(Err(e)) => Err("--data"@ + " is not valid JSON: "@ + e),
        Some(Ok(v)) => if !method.writes() {
            Err(
                "Error: --data is not sent for "@ + method.name()
                    + " requests (it has no request body)."@,
            )
        } else if v is Object {
            Ok(Some(v))
        } else {
            Err(no_object(v))
        },
    }
}

/// The body of a call, or why there is none.
pub fn prepare_call(method: HttpMethod, data: Option<Result<Json, String>>) -> (r: Result<
    Option<Json>,
    String,
>)
    ensures
        match r {
            Ok(b) => call_body(method, data_view(data)) == Ok::<Option<JsonView>, Seq<char>>(
                opt_owned(b),
            ),
            Err(e) => call_body(method, data_view(data)) == Err::<Option<JsonView>, Seq<char>>(e@),
        },
{
    let body = match data {
        None => {
            return Ok(None);
        },
        Some(parsed) => parse_json_arg(parsed, "--data")?,
    };
    if !method.has_body() {
        return Err(
            "Error: --data is not sent for ".to_owned().concat(method.as_str()).concat(
                " requests (it has no request body).",
            ),
        );
    }
    require_data_is_object(&body)?;
    Ok(Some(body))
}

pub open spec fn orphan_warning(r: ResponseView, uploads_completed: bool) -> Option<Seq<char>> {
    if uploads_completed && !success(r) {
        Some(orphan_note())
    } else {
        None
    }
}

/// What is said where files were uploaded for a resource that then was not
/// taken.
pub fn warn_if_orphaned_upload(response: &ApiResponse, uploads_completed: bool) -> (r: Option<String>)
    ensures
        opt_text(r) == orphan_warning(response@, uploads_completed),
{
    if uploads_completed && !response.is_success() {
        Some(note_orphaned_uploads())
    } else {
        None
    }
}

/// What is said of a deletion, or the error that it ends with.
pub open spec fn deleted_line(
    r: ResponseView,
    resource: Seq<char>,
    id: Seq<char>,
    bin: Seq<char>,
    compact: Seq<char>,
) -> Result<Seq<char>, Seq<char>> {
    if success(r) {
        Ok("Deleted "@ + resource + "/"@ + id)
    } else {
        Err(error_line(r, bin, compact))
    }
}

pub open spec fn line_result(r: Result<String, String>) -> Result<Seq<char>, Seq<char>> {
    match r {
        Ok(line) => Ok(line@),
        Err(e) => Err(e@),
    }
}

/// What is said of a deletion; `compact` is the body of the response on one
/// line.
pub fn print_deleted(
    response: &ApiResponse,
    resource: &str,
    id: &str,
    bin: &str,
    compact: &str,
) -> (r: Result<String, String>)
    ensures
        line_result(r) == deleted_line(response@, resource@, id@, bin@, compact@),
{
    if response.is_success() {
        Ok("Deleted ".to_owned().concat(resource).concat("/").concat(id))
    } else {
        Err(error_text(response, bin, compact))
    }
}

/// Whatever the data says, what is created is of the resource that was asked
/// for.
pub proof fn law_created_data_has_the_type(
    resource: Seq<char>,
    data: Option<Result<JsonView, Seq<char>>>,
)
    requires
        creation(resource, data) is Ok,
    ensures
        lookup(creation(resource, data)->Ok_0, "type"@) == Some(JsonView::Text(resource)),
        relationships_fit(creation(resource, data)->Ok_0),
{
    let fields = given_data(data)->Ok_0;
    law_put_then_lookup(fields, "type"@, JsonView::Text(resource), "type"@);
}

/// Whatever the data says, what is changed is the resource that was asked for.
pub proof fn law_changed_data_has_type_and_id(
    resource: Seq<char>,
    id: Seq<char>,
    data: Option<Result<JsonView, Seq<char>>>,
)
    requires
        change(resource, id, data) is Ok,
    ensures
        lookup(change(resource, id, data)->Ok_0.0, "type"@) == Some(JsonView::Text(resource)),
        lookup(change(resource, id, data)->Ok_0.0, "id"@) == Some(JsonView::Text(id)),
{
    let before = given_data(data)->Ok_0;
    law_put_then_lookup(before, "type"@, JsonView::Text(resource), "type"@);
    let fields = resource_data(resource, data)->Ok_0;
    reveal_strlit("id");
    reveal_strlit("type");
    assert("id"@.len() != "type"@.len());
    law_put_then_lookup(fields, "id"@, JsonView::Text(id), "type"@);
}

/// Preparing data to create or to change a resource changes nothing of it but
/// its type and its id: every other field is what was given, and none is added
/// or given twice.
pub proof fn law_preparing_keeps_the_data(
    resource: Seq<char>,
    id: Seq<char>,
    fields: FieldsView,
    k: Seq<char>,
)
    ensures
        creation(resource, Some(Ok(JsonView::Object(fields)))) matches Ok(done) ==> {
            &&& k != "type"@ ==> lookup(done, k) == lookup(fields, k)
            &&& distinct_names(fields) ==> distinct_names(done)
        },
        change(resource, id, Some(Ok(JsonView::Object(fields)))) matches Ok(p) ==> {
            &&& k != "type"@ && k != "id"@ ==> lookup(p.0, k) == lookup(fields, k)
            &&& distinct_names(fields) ==> distinct_names(p.0)
        },
{
    law_put_then_lookup(fields, "type"@, JsonView::Text(resource), k);
    law_put_keeps_the_rest(fields, "type"@, JsonView::Text(resource));
    let data = Some(Ok::<JsonView, Seq<char>>(JsonView::Object(fields)));
    if resource_data(resource, data) is Ok {
        let done = resource_data(resource, data)->Ok_0;
        law_put_then_lookup(done, "id"@, JsonView::Text(id), k);
        law_put_keeps_the_rest(done, "id"@, JsonView::Text(id));
    }
}

/// Without data a resource is created with its type and changed with its type
/// and id, and with nothing else.
pub proof fn law_no_data_adds_nothing(resource: Seq<char>, id: Seq<char>)
    ensures
        creation(resource, None) matches Ok(done) ==> done == seq![
            ("type"@, JsonView::Text(resource)),
        ],
        change(resource, id, None) matches Ok(p) ==> p.0 == seq![
            ("type"@, JsonView::Text(resource)),
            ("id"@, JsonView::Text(id)),
        ] && p.1 is None,
{
    let none = FieldsView::empty();
    let first = put(none, "type"@, JsonView::Text(resource));
    law_put_then_lookup(none, "type"@, JsonView::Text(resource), "id"@);
    law_put_then_lookup(none, "type"@, JsonView::Text(resource), "relationships"@);
    reveal_strlit("id");
    reveal_strlit("type");
    assert("id"@.len() != "type"@.len());
    assert(first =~= seq![("type"@, JsonView::Text(resource))]);
    assert(first.drop_first() =~= none);
    assert(put(none, "id"@, JsonView::Text(id)) =~= seq![("id"@, JsonView::Text(id))]);
    assert(put(first, "id"@, JsonView::Text(id)) =~= seq![
        ("type"@, JsonView::Text(resource)),
        ("id"@, JsonView::Text(id)),
    ]);
}

/// Which data is taken: an object whose type, id and relationships, where it
/// has them, agree with what was asked for.
pub proof fn law_fitting_data_is_taken(resource: Seq<char>, id: Seq<char>, fields: FieldsView)
    ensures
        ({
            let data = Some(Ok::<JsonView, Seq<char>>(JsonView::Object(fields)));
            let kind = lookup(fields, "type"@);
            let own = lookup(fields, "id"@);
            let fits = (kind is None || kind == Some(JsonView::Text(resource))) && (lookup(
                fields,
                "relationships"@,
            ) matches Some(v) ==> v is Object);
            &&& creation(resource, data) is Ok <==> spelled(resource, Seq::empty()) && fits
            &&& change(resource, id, data) is Ok <==> spelled(resource, Seq::empty()) && spelled(
                id,
                Seq::empty(),
            ) && fits && (own is None || own == Some(JsonView::Null) || own == Some(
                JsonView::Text(id),
            ))
            &&& change(resource, id, data) matches Ok(p) ==> (p.1 is Some <==> own == Some(
                JsonView::Null,
            ))
        }),
{
    law_values_are_spelled(resource, "resource"@, Seq::empty());
    law_values_are_spelled(id, "id"@, Seq::empty());
    reveal_strlit("id");
    reveal_strlit("type");
    reveal_strlit("relationships");
    assert("id"@.len() == 2 && "type"@.len() == 4 && "relationships"@.len() == 13);
    law_put_then_lookup(fields, "type"@, JsonView::Text(resource), "relationships"@);
    law_put_then_lookup(fields, "type"@, JsonView::Text(resource), "id"@);
}

/// Data that is not an object, or not JSON at all, is never taken.
pub proof fn law_other_data_is_refused(
    resource: Seq<char>,
    id: Seq<char>,
    method: HttpMethod,
    v: JsonView,
    e: Seq<char>,
)
    requires
        !(v is Object),
    ensures
        creation(resource, Some(Ok(v))) is Err,
        creation(resource, Some(Err(e))) is Err,
        change(resource, id, Some(Ok(v))) is Err,
        change(resource, id, Some(Err(e))) is Err,
        call_body(method, Some(Ok(v))) is Err,
        call_body(method, Some(Err(e))) is Err,
{
}

/// A call sends the object that it is given as it is, unless its method sends
/// none; without one it sends none.
pub proof fn law_call_sends_what_is_given(method: HttpMethod, fields: FieldsView)
    ensures
        method == HttpMethod::Get || method == HttpMethod::Delete ==> call_body(
            method,
            Some(Ok(JsonView::Object(fields))),
        ) is Err,
        method != HttpMethod::Get && method != HttpMethod::Delete ==> call_body(
            method,
            Some(Ok(JsonView::Object(fields))),
        ) == Ok::<Option<JsonView>, Seq<char>>(Some(JsonView::Object(fields))),
        call_body(method, None) == Ok::<Option<JsonView>, Seq<char>>(None),
{
}

/// Relationships to uploaded files are added to those of the data, or refused
/// where one is there already; nothing else of the data changes.
pub proof fn law_uploads_are_attached_to_the_data(
    fields: FieldsView,
    added: FieldsView,
    k: Seq<char>,
)
    ensures
        with_relationships(fields, JsonView::Object(added)) matches Ok(done) ==> {
            &&& k != "relationships"@ ==> lookup(done, k) == lookup(fields, k)
            &&& lookup(done, "relationships"@) matches Some(JsonView::Object(rels))
            &&& lookup(added, k) is Some ==> lookup(rels, k) == lookup(added, k)
            &&& lookup(fields, "relationships"@) matches Some(JsonView::Object(own)) ==> lookup(
                own,
                k,
            ) is Some ==> lookup(rels, k) == lookup(own, k)
            &&& lookup(rels, k) is Some ==> lookup(added, k) is Some || (lookup(
                fields,
                "relationships"@,
            ) matches Some(JsonView::Object(own)) && lookup(own, k) is Some)
            &&& distinct_names(fields) ==> distinct_names(done)
        },
        lookup(fields, "relationships"@) is None ==> with_relationships(
            fields,
            JsonView::Object(added),
        ) is Ok,
        lookup(fields, "relationships"@) matches Some(v) && !(v is Object) ==> with_relationships(
            fields,
            JsonView::Object(added),
        ) is Err,
{
    if with_relationships(fields, JsonView::Object(added)) is Ok {
        let rels = match lookup(fields, "relationships"@) {
            Some(JsonView::Object(own)) => merged(own, added)->Ok_0,
            _ => added,
        };
        law_put_then_lookup(fields, "relationships"@, JsonView::Object(rels), k);
        law_put_keeps_the_rest(fields, "relationships"@, JsonView::Object(rels));
        if let Some(JsonView::Object(own)) = lookup(fields, "relationships"@) {
            law_merging_loses_nothing(own, added, k);
            law_merging_adds_nothing(own, added, k);
        }
    }
}

/// What was merged is of one side or the other, and merging is refused exactly
/// where a name would be there twice.
pub proof fn law_merging_adds_nothing(old_rels: FieldsView, new_rels: FieldsView, k: Seq<char>)
    ensures
        merged(old_rels, new_rels) matches Ok(m) ==> {
            &&& lookup(m, k) is Some ==> lookup(old_rels, k) is Some || lookup(new_rels, k) is Some
            &&& distinct_names(old_rels) ==> distinct_names(m)
        },
        merged(old_rels, new_rels) is Ok <==> distinct_names(new_rels) && forall|i: int|
            0 <= i < new_rels.len() ==> lookup(old_rels, (#[trigger] new_rels[i]).0) is None,
    decreases new_rels.len(),
{
    if new_rels.len() > 0 {
        let rest = new_rels.drop_last();
        let (key, value) = new_rels.last();
        law_merging_adds_nothing(old_rels, rest, k);
        law_merging_adds_nothing(old_rels, rest, key);
        law_fields_are_found(rest, key);
        lemma_lookup_push(rest, key, value, k);
        assert(rest.push((key, value)) =~= new_rels);
        if merged(old_rels, rest) is Ok {
            let m = merged(old_rels, rest)->Ok_0;
            law_put_then_lookup(m, key, value, k);
            law_put_keeps_the_rest(m, key, value);
            law_merging_loses_nothing(old_rels, rest, key);
            if lookup(m, key) is None {
                assert(lookup(old_rels, key) is None && lookup(rest, key) is None);
                assert(distinct_names(new_rels)) by {
                    assert forall|i: int, j: int| 0 <= i < j < new_rels.len() implies (
                    #[trigger] new_rels[i]).0 != (#[trigger] new_rels[j]).0 by {
                        assert(rest[i] == new_rels[i]);
                        if j < rest.len() {
                            assert(rest[j] == new_rels[j]);
                        }
                    }
                }
                assert forall|i: int| 0 <= i < new_rels.len() implies lookup(
                    old_rels,
                    (#[trigger] new_rels[i]).0,
                ) is None by {
                    if i < rest.len() {
                        assert(rest[i] == new_rels[i]);
                    }
                }
            } else if lookup(old_rels, key) is Some {
                assert(new_rels[new_rels.len() - 1].0 == key);
            } else {
                let i = choose|i: int| 0 <= i < rest.len() && (#[trigger] rest[i]).0 == key;
                assert(new_rels[i].0 == key && new_rels[new_rels.len() - 1].0 == key);
            }
        } else if distinct_names(new_rels) && forall|i: int|
            0 <= i < new_rels.len() ==> lookup(old_rels, (#[trigger] new_rels[i]).0) is None {
            assert forall|i: int, j: int| 0 <= i < j < rest.len() implies (#[trigger] rest[i]).0 != (
            #[trigger] rest[j]).0 by {
                assert(rest[i] == new_rels[i] && rest[j] == new_rels[j]);
            }
            assert forall|i: int| 0 <= i < rest.len() implies lookup(
                old_rels,
                (#[trigger] rest[i]).0,
            ) is None by {
                assert(rest[i] == new_rels[i]);
            }
        }
    }
}

/// What `key=value` flags say, one for each: with the sign between them they
/// are what was given, and a key is not empty. They are refused exactly where
/// one has no sign or nothing before it.
pub proof fn law_flags_say_what_was_given(values: Seq<Seq<char>>, flag: Seq<char>)
    ensures
        key_values(values, flag) matches Ok(pairs) ==> {
            &&& pairs.len() == values.len()
            &&& forall|i: int|
                0 <= i < values.len() ==> {
                    &&& (#[trigger] pairs[i]).0.len() > 0
                    &&& !pairs[i].0.contains('=')
                    &&& values[i] == pairs[i].0 + seq!['='] + pairs[i].1
                }
        },
        key_values(values, flag) is Ok <==> forall|i: int|
            0 <= i < values.len() ==> (#[trigger] values[i]).contains('=') && values[i][0] != '=',
    decreases values.len(),
{
    if values.len() > 0 {
        let rest = values.drop_last();
        let v = values.last();
        law_flags_say_what_was_given(rest, flag);
        law_split_once(v, '=');
        if let Some(p) = split_once(v, '=') {
            assert(v[p.0.len() as int] == '=');
            assert(v.contains('='));
            if p.0.len() > 0 {
                assert(v[0] == p.0[0]);
                assert(p.0.contains(p.0[0]));
            }
        }
        if key_values(values, flag) is Ok {
            let pairs = key_values(values, flag)->Ok_0;
            assert forall|i: int| 0 <= i < values.len() implies {
                &&& (#[trigger] pairs[i]).0.len() > 0
                &&& !pairs[i].0.contains('=')
                &&& values[i] == pairs[i].0 + seq!['='] + pairs[i].1
            } by {
                if i < rest.len() {
                    assert(rest[i] == values[i]);
                    assert(pairs[i] == key_values(rest, flag)->Ok_0[i]);
                }
            }
            assert forall|i: int| 0 <= i < values.len() implies (#[trigger] values[i]).contains('=')
                && values[i][0] != '=' by {
                if i < rest.len() {
                    assert(rest[i] == values[i]);
                }
            }
        } else if key_values(rest, flag) is Err {
            let i = choose|i: int|
                0 <= i < rest.len() && !((#[trigger] rest[i]).contains('=') && rest[i][0] != '=');
            assert(values[i] == rest[i]);
        } else {
            assert(values[values.len() - 1] == v);
        }
    }
}

/// Files are taken exactly where each has a relationship and a path, and in
/// the order in which they were given.
pub proof fn law_files_are_taken_as_given(values: Seq<Seq<char>>)
    ensures
        file_values(values) matches Ok(pairs) ==> key_values(values, "--file"@) == Ok::<
            PairsView,
            Seq<char>,
        >(pairs) && forall|i: int| 0 <= i < pairs.len() ==> (#[trigger] pairs[i]).1.len() > 0,
        key_values(values, "--file"@) matches Ok(pairs) ==> (forall|i: int|
            0 <= i < pairs.len() ==> (#[trigger] pairs[i]).1.len() > 0) ==> file_values(
            values,
        ) is Ok,
        key_values(values, "--file"@) is Err ==> file_values(values) is Err,
{
    if key_values(values, "--file"@) is Ok {
        lemma_no_empty_value(key_values(values, "--file"@)->Ok_0);
    }
}

proof fn lemma_no_empty_value(pairs: PairsView)
    ensures
        empty_value(pairs) is None <==> forall|i: int|
            0 <= i < pairs.len() ==> (#[trigger] pairs[i]).1.len() > 0,
    decreases pairs.len(),
{
    if pairs.len() > 0 {
        let rest = pairs.drop_first();
        lemma_no_empty_value(rest);
        if pairs[0].1.len() > 0 {
            if empty_value(rest) is None {
                assert forall|i: int| 0 <= i < pairs.len() implies (#[trigger] pairs[i]).1.len()
                    > 0 by {
                    if i > 0 {
                        assert(rest[i - 1] == pairs[i]);
                    }
                }
            } else {
                let i = choose|i: int| 0 <= i < rest.len() && !((#[trigger] rest[i]).1.len() > 0);
                assert(pairs[i + 1] == rest[i]);
            }
        } else {
            assert(!(pairs[0].1.len() > 0));
        }
    }
}

/// `type:fields` says a type and fields, neither of them empty, which are what
/// was given.
pub proof fn law_fields_say_what_was_given(f: Seq<char>)
    ensures
        fields_of(f) matches Ok(p) ==> f == p.0 + seq![':'] + p.1 && p.0.len() > 0 && p.1.len() > 0
            && !p.0.contains(':'),
        fields_of(f) is Ok <==> f.contains(':') && f[0] != ':' && (f.last() != ':' || exists|i: int|
            0 <= i < f.len() - 1 && f[i] == ':'),
{
    law_split_once(f, ':');
    if let Some(p) = split_once(f, ':') {
        let n = p.0.len() as int;
        assert(f[n] == ':');
        assert(f.contains(':'));
        if n > 0 {
            assert(f[0] == p.0[0]);
            assert(p.0.contains(p.0[0]));
        }
        if p.1.len() == 0 {
            assert(f.last() == ':');
            assert forall|i: int| 0 <= i < f.len() - 1 implies f[i] != ':' by {
                assert(f[i] == p.0[i]);
                assert(p.0.contains(p.0[i]));
            }
        }
    }
}

/// A token that one has comes first, and the browser is what is used unless
/// something else is asked for.
pub proof fn law_login_is_as_asked(no_browser: bool)
    ensures
        asked_mode(no_browser, true) == LoginMode::WithToken,
        asked_mode(true, false) == LoginMode::Device,
        asked_mode(false, false) == LoginMode::Browser,
{
}

/// A deletion is told of exactly where it happened, by resource and id, and
/// uploads that were left behind exactly where the resource was not taken.
pub proof fn law_outcomes_are_told(
    r: ResponseView,
    resource: Seq<char>,
    id: Seq<char>,
    bin: Seq<char>,
    compact: Seq<char>,
    uploads_completed: bool,
)
    ensures
        success(r) ==> deleted_line(r, resource, id, bin, compact) == Ok::<Seq<char>, Seq<char>>(
            "Deleted "@ + resource + "/"@ + id,
        ),
        !success(r) ==> deleted_line(r, resource, id, bin, compact) == Err::<Seq<char>, Seq<char>>(
            error_line(r, bin, compact),
        ),
        orphan_warning(r, uploads_completed) is Some <==> uploads_completed && !success(r),
{
}

/// What is refused is told with what is wrong: the kind of value, the flag and
/// the value, the type and the resource, the id, or the relationship.
pub proof fn law_refusals_name_their_reason(
    v: JsonView,
    value: Seq<char>,
    flag: Seq<char>,
    fields: FieldsView,
    resource: Seq<char>,
    id: Seq<char>,
    t: Seq<char>,
)
    ensures
        no_object(v) == "--data must be a JSON object (got a "@ + json_type(v) + ")"@,
        !value.contains('=') ==> key_value(value, flag) == Err::<(Seq<char>, Seq<char>), Seq<char>>(
            "Invalid "@ + flag + " value (expected key=value): "@ + value,
        ),
        key_value(seq!['='] + value, flag) == Err::<(Seq<char>, Seq<char>), Seq<char>>(
            "Invalid "@ + flag + " value (key must not be empty): "@ + (seq!['='] + value),
        ),
        lookup(fields, "type"@) == Some(JsonView::Text(t)) && t != resource ==> (typed(
            fields,
            resource,
        ) matches Err(lines) && lines[0] == "Error: --data specified type \""@ + t
            + "\", which conflicts with resource \""@ + resource + "\"."@),
        lookup(fields, "id"@) == Some(JsonView::Text(t)) && t != id ==> (identified(fields, id)
            matches Err(lines) && lines[0] == "Error: --data specified id "@ + quoted(t)
            + ", which conflicts with the command-line id \""@ + id + "\"."@),
        relationship_conflict(t)[0] == "Error: --data 'relationships' already specifies \""@ + t
            + "\", which conflicts with --file "@ + t + "=<path>."@,
        bad_relationships(v)[0] == "Error: --data 'relationships' was not a JSON object (got a "@
            + json_type(v) + ") - cannot merge uploaded file relationships."@,
{
    law_split_once(value, '=');
    if !value.contains('=') {
        if let Some(p) = split_once(value, '=') {
            assert(value[p.0.len() as int] == '=');
        }
    }
    let given = seq!['='] + value;
    law_split_once(given, '=');
    assert(given[0] == '=');
    assert(given.contains('='));
    let p = split_once(given, '=')->0;
    if p.0.len() > 0 {
        assert(p.0[0] == given[0]);
        assert(p.0.contains(p.0[0]));
    }
}

/// What does not say which fields, has no value or is no JSON is told as it was
/// given, and a relationship that is given twice by its name.
pub proof fn law_refused_values_are_told(
    f: Seq<char>,
    pairs: PairsView,
    i: int,
    method: HttpMethod,
    e: Seq<char>,
    v: JsonView,
    old_rels: FieldsView,
    name: Seq<char>,
)
    ensures
        fields_of(f) matches Err(m) ==> m
            == "Invalid --fields value (expected type:field1,field2): "@ + f,
        empty_value(pairs) is None ==> (0 <= i < pairs.len() ==> pairs[i].1.len() > 0),
        0 <= i < pairs.len() && pairs[i].1.len() == 0 && (forall|j: int|
            0 <= j < i ==> (#[trigger] pairs[j]).1.len() > 0) ==> empty_value(pairs) == Some(
            "Invalid --file value (value must not be empty): "@ + pairs[i].0 + "="@,
        ),
        call_body(method, Some(Err(e))) == Err::<Option<JsonView>, Seq<char>>(
            "--data"@ + " is not valid JSON: "@ + e,
        ),
        method == HttpMethod::Get || method == HttpMethod::Delete ==> call_body(
            method,
            Some(Ok(v)),
        ) == Err::<Option<JsonView>, Seq<char>>(
            "Error: --data is not sent for "@ + method.name()
                + " requests (it has no request body)."@,
        ),
        lookup(old_rels, name) is Some ==> merged(old_rels, seq![(name, v)]) == Err::<
            FieldsView,
            Seq<Seq<char>>,
        >(relationship_conflict(name)),
    decreases pairs.len(),
{
    if pairs.len() > 0 && pairs[0].1.len() > 0 {
        let rest = pairs.drop_first();
        assert(forall|j: int| 0 <= j < rest.len() ==> rest[j] == #[trigger] pairs[j + 1]);
        if 0 < i < pairs.len() && (forall|j: int|
            0 <= j < i ==> (#[trigger] pairs[j]).1.len() > 0) {
            assert forall|j: int| 0 <= j < i - 1 implies (#[trigger] rest[j]).1.len() > 0 by {
                assert(rest[j] == pairs[j + 1]);
            }
        }
        law_refused_values_are_told(f, rest, i - 1, method, e, v, old_rels, name);
    }
    let one = seq![(name, v)];
    assert(one.drop_last() =~= FieldsView::empty());
    assert(merged(old_rels, one.drop_last()) == Ok::<FieldsView, Seq<Seq<char>>>(old_rels));
}

/// What is refused is told with a way out of it, and an id that is null is used
/// no more than one that is absent, but told.
pub proof fn law_refusals_show_a_way_out(
    fields: FieldsView,
    resource: Seq<char>,
    id: Seq<char>,
    v: JsonView,
    t: Seq<char>,
)
    ensures
        lookup(fields, "type"@) == Some(JsonView::Text(t)) && t != resource ==> (typed(
            fields,
            resource,
        ) matches Err(lines) && lines.len() == 2 && lines[1]
            == "Remove the \"type\" key from --data, or make it match \""@ + resource + "\"."@),
        lookup(fields, "type"@) == Some(v) && !(v is Text) ==> typed(fields, resource) == Err::<
            FieldsView,
            Seq<Seq<char>>,
        >(
            seq![
                "Error: --data 'type' was not a string (got a "@ + json_type(v)
                    + ") - cannot set resource type."@,
            ],
        ),
        lookup(fields, "id"@) == Some(JsonView::Text(t)) && t != id ==> (identified(fields, id)
            matches Err(lines) && lines.len() == 2 && lines[1]
            == "Remove the \"id\" key from --data, or make it match \""@ + id + "\"."@),
        lookup(fields, "id"@) == Some(v) && !(v is Text) && !(v is Null) ==> identified(fields, id)
            == Err::<(FieldsView, Option<Seq<char>>), Seq<Seq<char>>>(
            seq![
                "Error: --data 'id' was not a string (got a "@ + json_type(v)
                    + ") - JSON:API resource ids must be strings."@,
            ],
        ),
        lookup(fields, "id"@) == Some(JsonView::Null) ==> (identified(fields, id) matches Ok(p)
            && p.1 == Some(
            "Warning: --data 'id' is null - using the command-line id \""@ + id + "\" instead."@,
        )),
        lookup(fields, "id"@) == Some(JsonView::Text(id)) || lookup(fields, "id"@) is None ==> (
        identified(fields, id) matches Ok(p) && p.1 is None),
        relationship_conflict(t).len() == 3 && bad_relationships(v).len() == 2,
{
}

/// A value that is JSON is taken as it is, and another is told with the flag that
/// it was given with.
pub proof fn law_json_values_are_taken(v: JsonView, e: Seq<char>, flag: Seq<char>)
    ensures
        json_arg(Ok(v), flag) == Ok::<JsonView, Seq<char>>(v),
        json_arg(Err(e), flag) matches Err(m) && starts_with(m, flag) && ends_with(m, e),
{
    let m = flag + " is not valid JSON: "@ + e;
    assert(m.take(flag.len() as int) =~= flag);
    assert(m.skip(m.len() - e.len()) =~= e);
}

/// Data that is no JSON, and a resource or an id that is no name, are told as
/// such: the resource first, then the id.
pub proof fn law_first_fault_of_data(
    resource: Seq<char>,
    id: Seq<char>,
    e: Seq<char>,
    data: Option<Result<JsonView, Seq<char>>>,
)
    ensures
        given_data(Some(Err(e))) == Err::<FieldsView, Seq<Seq<char>>>(
            seq!["--data"@ + " is not valid JSON: "@ + e],
        ),
        segment_error(resource, "resource"@) matches Some(m) ==> creation(resource, data) == Err::<
            FieldsView,
            Seq<Seq<char>>,
        >(seq![m]) && change(resource, id, data) == Err::<
            (FieldsView, Option<Seq<char>>),
            Seq<Seq<char>>,
        >(seq![m]),
        segment_error(resource, "resource"@) is None ==> (segment_error(id, "id"@) matches Some(m)
            ==> change(resource, id, data) == Err::<
            (FieldsView, Option<Seq<char>>),
            Seq<Seq<char>>,
        >(seq![m])),
{
}

} // verus!
