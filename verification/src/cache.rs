//! The description of the API is kept on disk, with the server it came from.

use crate::client::{
    auth_headers, base_of, call_request, law_calls_go_out_as_given, opt_owned, ApiClient,
    ApiRequest, ClientView, HttpMethod, RequestBodyView, RequestView,
};
use crate::json::{
    and_field, field, fields_view, lemma_lookup_at, no_fields, object, text, then_text, Json,
    JsonView,
};
use crate::response::{detail_of, success, ApiResponse, ResponseView};
use crate::text::{decimal, number_text, opt_text, same};
use vstd::prelude::*;
use vstd::string::*;

verus! {

/// What is written: the server, and what it says of itself.
pub open spec fn entry(api_url: Seq<char>, doc: JsonView) -> JsonView {
    JsonView::Object(seq![("api_url"@, JsonView::Text(api_url)), ("spec"@, doc)])
}

/// The description that was written, where it is of this server.
pub open spec fn doc_in(cached: JsonView, api_url: Seq<char>) -> Option<JsonView> {
    if then_text(field(cached, "api_url"@)) == Some(api_url) {
        field(cached, "spec"@)
    } else {
        None
    }
}

/// What is written for a server.
pub fn cache_entry(api_url: &str, doc: Json) -> (r: Json)
    ensures
        r@ == entry(api_url@, doc@),
{
    let fields = and_field(and_field(no_fields(), "api_url", text(api_url)), "spec", doc);
    assert(fields_view(fields@) =~= seq![("api_url"@, JsonView::Text(api_url@)), ("spec"@, doc@)]);
    object(fields)
}

/// The description that was written, where it is of this server. What was
/// written for another server is not used.
pub fn cached_spec(cached: &Json, api_url: &str) -> (r: Option<Json>)
    ensures
        match r {
            Some(doc) => doc_in(cached@, api_url@) == Some(doc@),
            None => doc_in(cached@, api_url@) is None,
        },
{
    match cached.get("api_url") {
        Some(v) => match v.as_str() {
            Some(url) => if !same(url, api_url) {
                return None;
            },
            None => {
                return None;
            },
        },
        None => {
            return None;
        },
    }
    match cached.get("spec") {
        Some(doc) => Some(doc.copy()),
        None => None,
    }
}

/// What was written for a server is read back for it, and for no other.
pub proof fn law_cache_is_per_server(api_url: Seq<char>, doc: JsonView, other: Seq<char>)
    ensures
        doc_in(entry(api_url, doc), api_url) == Some(doc),
        other != api_url ==> doc_in(entry(api_url, doc), other) is None,
{
    let fields = seq![("api_url"@, JsonView::Text(api_url)), ("spec"@, doc)];
    reveal_strlit("api_url");
    reveal_strlit("spec");
    assert("api_url"@.len() != "spec"@.len());
    lemma_lookup_at(fields, "api_url"@, 0);
    lemma_lookup_at(fields, "spec"@, 1);
}

/// How far the fetching of the description has come.
pub enum SpecState {
    /// The file is being read.
    Reading,
    /// The server is being asked.
    Asking,
    /// The directory for the file is being made.
    Directory(Json),
    /// The directory is being kept from others.
    Permissions(Json),
    /// The file is being written under another name.
    Writing(Json),
    /// The file is being renamed.
    Renaming(Json),
    /// The file of the other name is being removed.
    Cleaning(Json),
    Over,
}

pub enum SpecStateView {
    Reading,
    Asking,
    Directory(JsonView),
    Permissions(JsonView),
    Writing(JsonView),
    Renaming(JsonView),
    Cleaning(JsonView),
    Over,
}

impl View for SpecState {
    type V = SpecStateView;

    open spec fn view(&self) -> SpecStateView {
        match self {
            SpecState::Reading => SpecStateView::Reading,
            SpecState::Asking => SpecStateView::Asking,
            SpecState::Directory(d) => SpecStateView::Directory(d@),
            SpecState::Permissions(d) => SpecStateView::Permissions(d@),
            SpecState::Writing(d) => SpecStateView::Writing(d@),
            SpecState::Renaming(d) => SpecStateView::Renaming(d@),
            SpecState::Cleaning(d) => SpecStateView::Cleaning(d@),
            SpecState::Over => SpecStateView::Over,
        }
    }
}

/// Why a file was not written.
pub struct WriteFault {
    pub error: String,
    /// There is a file of that name already.
    pub taken: bool,
}

/// What happened. A step that failed comes with its error.
pub enum SpecEvent {
    /// What the file holds, where it could be read.
    Cached(Option<Json>),
    /// The server answered; the text is the body on one line.
    Answer(ApiResponse, String),
    /// There is no place for the file.
    NoPlace,
    DirectoryMade(Option<String>),
    Restricted(Option<String>),
    Written(Option<WriteFault>),
    Renamed(Option<String>),
    Removed,
}

pub enum SpecEventView {
    Cached(Option<JsonView>),
    Answer(ResponseView, Seq<char>),
    NoPlace,
    DirectoryMade(Option<Seq<char>>),
    Restricted(Option<Seq<char>>),
    Written(Option<(Seq<char>, bool)>),
    Renamed(Option<Seq<char>>),
    Removed,
}

impl View for SpecEvent {
    type V = SpecEventView;

    open spec fn view(&self) -> SpecEventView {
        match self {
            SpecEvent::Cached(c) => SpecEventView::Cached(opt_owned(*c)),
            SpecEvent::Answer(r, t) => SpecEventView::Answer(r@, t@),
            SpecEvent::NoPlace => SpecEventView::NoPlace,
            SpecEvent::DirectoryMade(e) => SpecEventView::DirectoryMade(opt_text(*e)),
            SpecEvent::Restricted(e) => SpecEventView::Restricted(opt_text(*e)),
            SpecEvent::Written(f) => SpecEventView::Written(
                match f {
                    Some(f) => Some((f.error@, f.taken)),
                    None => None,
                },
            ),
            SpecEvent::Renamed(e) => SpecEventView::Renamed(opt_text(*e)),
            SpecEvent::Removed => SpecEventView::Removed,
        }
    }
}

/// What is done next.
pub enum SpecAction {
    Send(ApiRequest),
    MakeDirectory,
    RestrictDirectory,
    /// Write this under the other name.
    Write(Json),
    Rename,
    /// Remove the file of the other name.
    RemoveTemp,
    /// This is the description.
    Done(Json),
    Fail(String),
}

pub enum SpecActionView {
    Send(RequestView),
    MakeDirectory,
    RestrictDirectory,
    Write(JsonView),
    Rename,
    RemoveTemp,
    Done(JsonView),
    Fail(Seq<char>),
}

impl View for SpecAction {
    type V = SpecActionView;

    open spec fn view(&self) -> SpecActionView {
        match self {
            SpecAction::Send(q) => SpecActionView::Send(q@),
            SpecAction::MakeDirectory => SpecActionView::MakeDirectory,
            SpecAction::RestrictDirectory => SpecActionView::RestrictDirectory,
            SpecAction::Write(j) => SpecActionView::Write(j@),
            SpecAction::Rename => SpecActionView::Rename,
            SpecAction::RemoveTemp => SpecActionView::RemoveTemp,
            SpecAction::Done(j) => SpecActionView::Done(j@),
            SpecAction::Fail(e) => SpecActionView::Fail(e@),
        }
    }
}

/// What is done next, what is warned of before it, and the state then.
pub struct SpecStep {
    pub state: SpecState,
    pub action: SpecAction,
    pub warning: Option<String>,
}

pub struct SpecStepView {
    pub state: SpecStateView,
    pub action: SpecActionView,
    pub warning: Option<Seq<char>>,
}

impl View for SpecStep {
    type V = SpecStepView;

    open spec fn view(&self) -> SpecStepView {
        SpecStepView { state: self.state@, action: self.action@, warning: opt_text(self.warning) }
    }
}

/// Where the file is: its directory, its path, and the path of the other name
/// that it is written under first.
pub struct SpecPlace {
    pub dir: String,
    pub path: String,
    pub temp: String,
}

pub struct PlaceView {
    pub dir: Seq<char>,
    pub path: Seq<char>,
    pub temp: Seq<char>,
}

impl View for SpecPlace {
    type V = PlaceView;

    open spec fn view(&self) -> PlaceView {
        PlaceView { dir: self.dir@, path: self.path@, temp: self.temp@ }
    }
}

/// The events that can happen in a state.
pub open spec fn spec_may_follow(state: SpecStateView, event: SpecEventView) -> bool {
    match state {
        SpecStateView::Reading => event is Cached,
        SpecStateView::Asking => event is Answer,
        SpecStateView::Directory(_) => event is NoPlace || event is DirectoryMade,
        SpecStateView::Permissions(_) => event is Restricted,
        SpecStateView::Writing(_) => event is Written,
        SpecStateView::Renaming(_) => event is Renamed,
        SpecStateView::Cleaning(_) => event is Removed,
        SpecStateView::Over => false,
    }
}

pub open spec fn fetching(
    state: SpecStateView,
    action: SpecActionView,
    warning: Option<Seq<char>>,
) -> SpecStepView {
    SpecStepView { state, action, warning }
}

pub open spec fn have_doc(doc: JsonView, warning: Option<Seq<char>>) -> SpecStepView {
    fetching(SpecStateView::Over, SpecActionView::Done(doc), warning)
}

/// A warning about a path.
pub open spec fn path_warning(what: Seq<char>, path: Seq<char>, error: Option<Seq<char>>) -> Option<
    Seq<char>,
> {
    match error {
        Some(e) => Some(what + path + ": "@ + e),
        None => None,
    }
}

/// The description that the file holds for this server, unless a fresh one was
/// asked for.
pub open spec fn usable(cached: Option<JsonView>, api_url: Seq<char>, force_refresh: bool) -> Option<
    JsonView,
> {
    match cached {
        Some(c) => if force_refresh {
            None
        } else {
            doc_in(c, api_url)
        },
        None => None,
    }
}

/// The server answered.
pub open spec fn spec_answered(r: ResponseView, bin: Seq<char>, compact: Seq<char>) -> SpecStepView {
    if success(r) {
        fetching(SpecStateView::Directory(r.body), SpecActionView::MakeDirectory, None)
    } else {
        fetching(
            SpecStateView::Over,
            SpecActionView::Fail(
                "Could not fetch /openapi ("@ + decimal(r.status as nat) + "): "@ + detail_of(
                    r.kind,
                    bin,
                    compact,
                ),
            ),
            None,
        )
    }
}

/// What follows from an event.
pub open spec fn spec_step(
    c: ClientView,
    force_refresh: bool,
    bin: Seq<char>,
    place: PlaceView,
    state: SpecStateView,
    event: SpecEventView,
) -> SpecStepView {
    match (state, event) {
        (SpecStateView::Reading, SpecEventView::Cached(cached)) => match usable(
            cached,
            base_of(c),
            force_refresh,
        ) {
            Some(doc) => have_doc(doc, None),
            None => fetching(
                SpecStateView::Asking,
                SpecActionView::Send(call_request(c, HttpMethod::Get, "/openapi"@, None)),
                None,
            ),
        },
        (SpecStateView::Asking, SpecEventView::Answer(r, t)) => spec_answered(r, bin, t),
        (SpecStateView::Directory(doc), SpecEventView::NoPlace) => have_doc(doc, None),
        (SpecStateView::Directory(doc), SpecEventView::DirectoryMade(e)) => if e is Some {
            have_doc(doc, path_warning("Warning: could not create cache directory "@, place.dir, e))
        } else {
            fetching(SpecStateView::Permissions(doc), SpecActionView::RestrictDirectory, None)
        },
        (SpecStateView::Permissions(doc), SpecEventView::Restricted(e)) => fetching(
            SpecStateView::Writing(doc),
            SpecActionView::Write(entry(base_of(c), doc)),
            path_warning(
                "Warning: could not tighten permissions on cache directory "@,
                place.dir,
                e,
            ),
        ),
        (SpecStateView::Writing(doc), SpecEventView::Written(fault)) => match fault {
            None => fetching(SpecStateView::Renaming(doc), SpecActionView::Rename, None),
            Some(f) => {
                let warning = path_warning(
                    "Warning: could not write spec cache to "@,
                    place.temp,
                    Some(f.0),
                );
                if f.1 {
                    have_doc(doc, warning)
                } else {
                    fetching(SpecStateView::Cleaning(doc), SpecActionView::RemoveTemp, warning)
                }
            },
        },
        (SpecStateView::Renaming(doc), SpecEventView::Renamed(e)) => if e is Some {
            fetching(
                SpecStateView::Cleaning(doc),
                SpecActionView::RemoveTemp,
                path_warning("Warning: could not replace spec cache at "@, place.path, e),
            )
        } else {
            have_doc(doc, None)
        },
        (SpecStateView::Cleaning(doc), SpecEventView::Removed) => have_doc(doc, None),
        _ => have_doc(JsonView::Null, None),
    }
}

fn go_on(state: SpecState, action: SpecAction, warning: Option<String>) -> (r: SpecStep)
    ensures
        r@ == fetching(state@, action@, opt_text(warning)),
{
    SpecStep { state, action, warning }
}

fn end(doc: Json, warning: Option<String>) -> (r: SpecStep)
    ensures
        r@ == have_doc(doc@, opt_text(warning)),
{
    go_on(SpecState::Over, SpecAction::Done(doc), warning)
}

fn warn(what: &str, path: &str, error: Option<String>) -> (r: Option<String>)
    ensures
        opt_text(r) == path_warning(what@, path@, opt_text(error)),
{
    match error {
        Some(e) => Some(what.to_owned().concat(path).concat(": ").concat(e.as_str())),
        None => None,
    }
}

fn look_into(client: &ApiClient, cached: Option<Json>, force_refresh: bool) -> (r: Option<Json>)
    ensures
        opt_owned(r) == usable(opt_owned(cached), base_of(client@), force_refresh),
{
    match cached {
        Some(c) => if force_refresh {
            None
        } else {
            cached_spec(&c, client.base_url_trimmed().as_str())
        },
        None => None,
    }
}

fn take_answer(response: ApiResponse, bin: &str, compact: &str) -> (r: SpecStep)
    ensures
        r@ == spec_answered(response@, bin@, compact@),
{
    if response.is_success() {
        go_on(SpecState::Directory(response.into_raw_body()), SpecAction::MakeDirectory, None)
    } else {
        let message = "Could not fetch /openapi (".to_owned().concat(
            number_text(response.status() as u128).as_str(),
        ).concat("): ").concat(response.error_detail(bin, compact).as_str());
        go_on(SpecState::Over, SpecAction::Fail(message), None)
    }
}

/// One step of fetching the description of the API: the file is used where it
/// holds the description of this server and no fresh one was asked for; else
/// the server is asked, and what it sent is written to the file. A file that
/// cannot be written is warned of, and takes nothing away from what the server
/// sent. A file of the other name that is already there belongs to someone
/// else, and stays.
pub fn fetch_spec(
    client: &ApiClient,
    force_refresh: bool,
    bin: &str,
    place: &SpecPlace,
    state: SpecState,
    event: SpecEvent,
) -> (r: SpecStep)
    requires
        spec_may_follow(state@, event@),
    ensures
        r@ == spec_step(client@, force_refresh, bin@, place@, state@, event@),
{
    match (state, event) {
        (SpecState::Reading, SpecEvent::Cached(cached)) => match look_into(
            client,
            cached,
            force_refresh,
        ) {
            Some(doc) => end(doc, None),
            None => {
                let (request, _) = client.call(HttpMethod::Get, "/openapi", None);
                go_on(SpecState::Asking, SpecAction::Send(request), None)
            },
        },
        (SpecState::Asking, SpecEvent::Answer(r, t)) => take_answer(r, bin, t.as_str()),
        (SpecState::Directory(doc), SpecEvent::NoPlace) => end(doc, None),
        (SpecState::Directory(doc), SpecEvent::DirectoryMade(e)) => if e.is_some() {
            end(doc, warn("Warning: could not create cache directory ", place.dir.as_str(), e))
        } else {
            go_on(SpecState::Permissions(doc), SpecAction::RestrictDirectory, None)
        },
        (SpecState::Permissions(doc), SpecEvent::Restricted(e)) => {
            let written = cache_entry(client.base_url_trimmed().as_str(), doc.copy());
            go_on(
                SpecState::Writing(doc),
                SpecAction::Write(written),
                warn(
                    "Warning: could not tighten permissions on cache directory ",
                    place.dir.as_str(),
                    e,
                ),
            )
        },
        (SpecState::Writing(doc), SpecEvent::Written(fault)) => match fault {
            None => go_on(SpecState::Renaming(doc), SpecAction::Rename, None),
            Some(f) => {
                let warning = warn(
                    "Warning: could not write spec cache to ",
                    place.temp.as_str(),
                    Some(f.error),
                );
                if f.taken {
                    end(doc, warning)
                } else {
                    go_on(SpecState::Cleaning(doc), SpecAction::RemoveTemp, warning)
                }
            },
        },
        (SpecState::Renaming(doc), SpecEvent::Renamed(e)) => if e.is_some() {
            go_on(
                SpecState::Cleaning(doc),
                SpecAction::RemoveTemp,
                warn("Warning: could not replace spec cache at ", place.path.as_str(), e),
            )
        } else {
            end(doc, None)
        },
        (SpecState::Cleaning(doc), SpecEvent::Removed) => end(doc, None),
        _ => end(Json::Null, None),
    }
}

/// The description that a state holds.
pub open spec fn doc_at(state: SpecStateView) -> Option<JsonView> {
    match state {
        SpecStateView::Directory(d) => Some(d),
        SpecStateView::Permissions(d) => Some(d),
        SpecStateView::Writing(d) => Some(d),
        SpecStateView::Renaming(d) => Some(d),
        SpecStateView::Cleaning(d) => Some(d),
        _ => None,
    }
}

/// What the server sent is what is used in the end, whatever happens to the
/// file; and the file gets that and no other, for this server.
pub proof fn law_file_does_not_change_the_answer(
    c: ClientView,
    force_refresh: bool,
    bin: Seq<char>,
    place: PlaceView,
    state: SpecStateView,
    event: SpecEventView,
)
    requires
        spec_may_follow(state, event),
    ensures
        ({
            let next = spec_step(c, force_refresh, bin, place, state, event);
            &&& doc_at(state) matches Some(doc) ==> {
                &&& next.state is Over ==> next.action == SpecActionView::Done(doc)
                &&& !(next.state is Over) ==> doc_at(next.state) == Some(doc)
                &&& next.action matches SpecActionView::Write(j) ==> j == entry(base_of(c), doc)
            }
            &&& next.action is Write ==> doc_at(state) is Some
            &&& state is Asking && doc_at(next.state) is Some ==> doc_at(next.state) == Some(
                event->Answer_0.body,
            )
        }),
{
}

/// The file takes the place of the old one only once it is written in full
/// under the other name, and what was written for this server is used the next
/// time.
pub proof fn law_written_description_is_used(
    c: ClientView,
    bin: Seq<char>,
    place: PlaceView,
    doc: JsonView,
    restricted: Option<Seq<char>>,
    state: SpecStateView,
    event: SpecEventView,
)
    ensures
        spec_step(
            c,
            false,
            bin,
            place,
            SpecStateView::Permissions(doc),
            SpecEventView::Restricted(restricted),
        ).action == SpecActionView::Write(entry(base_of(c), doc)),
        spec_step(
            c,
            false,
            bin,
            place,
            SpecStateView::Reading,
            SpecEventView::Cached(Some(entry(base_of(c), doc))),
        ) == have_doc(doc, None),
        spec_step(c, false, bin, place, state, event).action is Rename ==> state is Writing && event
            == SpecEventView::Written(None),
{
    law_cache_is_per_server(base_of(c), doc, base_of(c));
}

/// What is kept on disk names the server and holds the description as it is.
pub proof fn law_cache_entries(api_url: Seq<char>, doc: JsonView)
    ensures
        field(entry(api_url, doc), "api_url"@) == Some(JsonView::Text(api_url)),
        field(entry(api_url, doc), "spec"@) == Some(doc),
{
    let fields = seq![("api_url"@, JsonView::Text(api_url)), ("spec"@, doc)];
    reveal_strlit("api_url");
    reveal_strlit("spec");
    assert("api_url"@.len() != "spec"@.len());
    lemma_lookup_at(fields, "api_url"@, 0);
    lemma_lookup_at(fields, "spec"@, 1);
}

/// The file is used exactly where it holds the description of this server and
/// no fresh one was asked for; else the server is asked for it.
pub proof fn law_file_is_used(
    c: ClientView,
    force_refresh: bool,
    bin: Seq<char>,
    place: PlaceView,
    cached: Option<JsonView>,
)
    ensures
        ({
            let step = spec_step(
                c,
                force_refresh,
                bin,
                place,
                SpecStateView::Reading,
                SpecEventView::Cached(cached),
            );
            let own = cached is Some && field(cached->0, "api_url"@) == Some(
                JsonView::Text(base_of(c)),
            );
            let doc = field(cached->0, "spec"@);
            &&& !force_refresh && own && doc is Some ==> step.action == SpecActionView::Done(doc->0)
                && step.warning is None
            &&& force_refresh || !own || doc is None ==> step.state == SpecStateView::Asking && (
            step.action matches SpecActionView::Send(q) && q.method == HttpMethod::Get && q.url
                == base_of(c) + "/openapi"@ && q.headers == auth_headers(c) && q.body
                == RequestBodyView::Absent)
        }),
{
    reveal_strlit("/openapi");
    law_calls_go_out_as_given(c, HttpMethod::Get, "/openapi"@, None);
}

/// What the server sends is kept from step to step: a directory, its
/// permissions, the file under another name, and the renaming. What fails on
/// the way is warned of and ends it, with what the server sent; a file of the
/// other name that belongs to someone else is not removed.
pub proof fn law_description_is_kept(
    c: ClientView,
    force_refresh: bool,
    bin: Seq<char>,
    place: PlaceView,
    r: ResponseView,
    compact: Seq<char>,
    doc: JsonView,
    e: Seq<char>,
    taken: bool,
)
    ensures
        ({
            let asked = spec_step(
                c,
                force_refresh,
                bin,
                place,
                SpecStateView::Asking,
                SpecEventView::Answer(r, compact),
            );
            &&& success(r) ==> asked.state == SpecStateView::Directory(r.body) && asked.action
                == SpecActionView::MakeDirectory
            &&& !success(r) ==> asked.action == SpecActionView::Fail(
                "Could not fetch /openapi ("@ + decimal(r.status as nat) + "): "@ + detail_of(
                    r.kind,
                    bin,
                    compact,
                ),
            )
        }),
        ({
            let at = |state: SpecStateView, event: SpecEventView|
                spec_step(c, force_refresh, bin, place, state, event);
            let none = at(SpecStateView::Directory(doc), SpecEventView::NoPlace);
            let made = at(SpecStateView::Directory(doc), SpecEventView::DirectoryMade(None));
            let unmade = at(SpecStateView::Directory(doc), SpecEventView::DirectoryMade(Some(e)));
            let closed = at(SpecStateView::Permissions(doc), SpecEventView::Restricted(None));
            let open = at(SpecStateView::Permissions(doc), SpecEventView::Restricted(Some(e)));
            let written = at(SpecStateView::Writing(doc), SpecEventView::Written(None));
            let unwritten = at(SpecStateView::Writing(doc), SpecEventView::Written(Some((e, taken))));
            let renamed = at(SpecStateView::Renaming(doc), SpecEventView::Renamed(None));
            let stuck = at(SpecStateView::Renaming(doc), SpecEventView::Renamed(Some(e)));
            let removed = at(SpecStateView::Cleaning(doc), SpecEventView::Removed);
            &&& none.action == SpecActionView::Done(doc) && none.warning is None
            &&& made.state == SpecStateView::Permissions(doc) && made.action
                == SpecActionView::RestrictDirectory && made.warning is None
            &&& unmade.action == SpecActionView::Done(doc) && unmade.warning == Some(
                "Warning: could not create cache directory "@ + place.dir + ": "@ + e,
            )
            &&& closed.state == SpecStateView::Writing(doc) && closed.action
                == SpecActionView::Write(entry(base_of(c), doc)) && closed.warning is None
            &&& open.state == SpecStateView::Writing(doc) && open.action == SpecActionView::Write(
                entry(base_of(c), doc),
            ) && open.warning == Some(
                "Warning: could not tighten permissions on cache directory "@ + place.dir + ": "@ + e,
            )
            &&& written.state == SpecStateView::Renaming(doc) && written.action
                == SpecActionView::Rename
            &&& unwritten.warning == Some(
                "Warning: could not write spec cache to "@ + place.temp + ": "@ + e,
            )
            &&& taken ==> unwritten.action == SpecActionView::Done(doc)
            &&& !taken ==> unwritten.action == SpecActionView::RemoveTemp && unwritten.state
                == SpecStateView::Cleaning(doc)
            &&& renamed.action == SpecActionView::Done(doc) && renamed.warning is None
            &&& stuck.action == SpecActionView::RemoveTemp && stuck.state
                == SpecStateView::Cleaning(doc) && stuck.warning == Some(
                "Warning: could not replace spec cache at "@ + place.path + ": "@ + e,
            )
            &&& removed.action == SpecActionView::Done(doc)
        }),
{
}

} // verus!
