//! The upload of one file, step by step: each step takes what happened and
//! says what is to be done next.

use crate::client::{
    put_request, ApiClient, ApiRequest, ClientView, HttpMethod, RequestBodyView, RequestView,
};
use crate::outside::url_of;
use crate::response::{detail_of, success, ApiResponse, ResponseView};
use crate::text::{add_line, decimal, no_lines, one_line, starts_with, texts};
use crate::upload::{
    announcement, check_file, fail, failed, file_refusal, finish_upload, granted, prepare_upload,
    prepared, setup_request, storage_failure, ticket, ticket_fields, upload_headers, upload_ticket,
    FileView, NamedFile,
};
use vstd::prelude::*;
use vstd::string::*;

verus! {

/// What can go wrong with the file itself.
#[derive(Clone, Copy, Debug, PartialEq, Eq, Structural)]
pub enum FileProblem {
    Open,
    Stat,
    Read,
}

/// How far an upload has come.
pub enum UploadState {
    /// The file is being opened.
    Opening,
    /// The file is being read.
    Reading,
    /// The upload of these bytes has been announced.
    Announcing(Vec<u8>),
    /// The bytes are on their way; then the file has this id.
    Sending(String),
    Over,
}

pub enum StateView {
    Opening,
    Reading,
    Announcing(Seq<u8>),
    Sending(Seq<char>),
    Over,
}

impl View for UploadState {
    type V = StateView;

    open spec fn view(&self) -> StateView {
        match self {
            UploadState::Opening => StateView::Opening,
            UploadState::Reading => StateView::Reading,
            UploadState::Announcing(b) => StateView::Announcing(b@),
            UploadState::Sending(id) => StateView::Sending(id@),
            UploadState::Over => StateView::Over,
        }
    }
}

/// What happened.
pub enum UploadEvent {
    /// The file could not be used; the text says why.
    Problem(FileProblem, String),
    Opened { regular: bool, length: u64 },
    Read(Vec<u8>),
    /// A server answered; the text is the body on one line.
    Answer(ApiResponse, String),
}

pub enum EventView {
    Problem(FileProblem, Seq<char>),
    Opened { regular: bool, length: u64 },
    Read(Seq<u8>),
    Answer(ResponseView, Seq<char>),
}

impl View for UploadEvent {
    type V = EventView;

    open spec fn view(&self) -> EventView {
        match self {
            UploadEvent::Problem(p, e) => EventView::Problem(*p, e@),
            UploadEvent::Opened { regular, length } => EventView::Opened {
                regular: *regular,
                length: *length,
            },
            UploadEvent::Read(b) => EventView::Read(b@),
            UploadEvent::Answer(r, t) => EventView::Answer(r@, t@),
        }
    }
}

/// What is to be done.
pub enum UploadAction {
    /// Read the file, up to one byte more than may be uploaded.
    ReadFile,
    Send(ApiRequest),
    /// The file has been uploaded under this id.
    Finish(String),
    /// The upload has failed; these lines say why.
    Fail(Vec<String>),
}

pub enum ActionView {
    ReadFile,
    Send(RequestView),
    Finish(Seq<char>),
    Fail(Seq<Seq<char>>),
}

impl View for UploadAction {
    type V = ActionView;

    open spec fn view(&self) -> ActionView {
        match self {
            UploadAction::ReadFile => ActionView::ReadFile,
            UploadAction::Send(q) => ActionView::Send(q@),
            UploadAction::Finish(id) => ActionView::Finish(id@),
            UploadAction::Fail(lines) => ActionView::Fail(texts(lines@)),
        }
    }
}

/// One upload: by which client, of which file, behind how many others of the
/// same batch, and whether plain text on the wire was asked for.
pub struct Upload<'a> {
    pub client: &'a ApiClient,
    pub file: NamedFile,
    pub prior_successes: usize,
    pub force_insecure: bool,
    pub bin: String,
}

pub struct UploadView {
    pub client: ClientView,
    pub file: FileView,
    pub prior_successes: nat,
    pub force_insecure: bool,
    pub bin: Seq<char>,
}

impl<'a> View for Upload<'a> {
    type V = UploadView;

    open spec fn view(&self) -> UploadView {
        UploadView {
            client: self.client@,
            file: self.file@,
            prior_successes: self.prior_successes as nat,
            force_insecure: self.force_insecure,
            bin: self.bin@,
        }
    }
}

/// The events that can happen in a state.
pub open spec fn fits(state: StateView, event: EventView) -> bool {
    match state {
        StateView::Opening => event is Opened || (event is Problem && !(event->Problem_0 is Read)),
        StateView::Reading => event is Read || (event is Problem && event->Problem_0 is Read),
        StateView::Announcing(_) => event is Answer,
        StateView::Sending(_) => event is Answer,
        StateView::Over => false,
    }
}

/// What is said of a file that cannot be used.
pub open spec fn problem_message(path: Seq<char>, problem: FileProblem, error: Seq<char>) -> Seq<
    char,
> {
    match problem {
        FileProblem::Open => "Could not open "@ + path + ": "@ + error,
        FileProblem::Stat => "Could not stat "@ + path + ": "@ + error,
        FileProblem::Read => "Could not read "@ + path + ": "@ + error,
    }
}

pub struct StepView {
    pub state: StateView,
    pub action: ActionView,
    pub lines: Seq<Seq<char>>,
}

/// The end of an upload that failed.
pub open spec fn ended(lines: Seq<Seq<char>>, report: Seq<Seq<char>>) -> StepView {
    StepView { state: StateView::Over, action: ActionView::Fail(report), lines }
}

/// The step in which the upload is announced.
pub open spec fn announce(u: UploadView, bytes: Seq<u8>) -> StepView {
    match prepared(u.file, bytes) {
        Err(e) => ended(Seq::empty(), failed(u.prior_successes, e)),
        Ok(blob) => match announcement(u.client, blob) {
            Err(e) => ended(Seq::empty(), seq![e]),
            Ok(p) => StepView {
                state: StateView::Announcing(bytes),
                action: ActionView::Send(p.0),
                lines: match p.1 {
                    Some(note) => seq![note],
                    None => Seq::empty(),
                },
            },
        },
    }
}

/// The step in which the bytes are sent.
pub open spec fn send_bytes(
    u: UploadView,
    bytes: Seq<u8>,
    answer: ResponseView,
    compact: Seq<char>,
) -> StepView {
    match ticket_fields(answer, u.bin, compact) {
        Err(e) => ended(Seq::empty(), failed(u.prior_successes, e)),
        Ok(f) => {
            let t = ticket(f, url_of(f.2), u.force_insecure);
            match t.0 {
                Err(e) => ended(t.1, failed(u.prior_successes, e)),
                Ok(ticket) => {
                    let lines = t.1.push("Uploading "@ + u.file.path + "..."@);
                    match put_request(ticket.url, ticket.headers, bytes) {
                        Err(e) => ended(lines, seq![e]),
                        Ok(q) => StepView {
                            state: StateView::Sending(ticket.signed_id),
                            action: ActionView::Send(q),
                            lines,
                        },
                    }
                },
            }
        },
    }
}

/// What follows from an event.
pub open spec fn upload_step(u: UploadView, state: StateView, event: EventView) -> StepView {
    match (state, event) {
        (_, EventView::Problem(p, e)) => ended(
            Seq::empty(),
            failed(u.prior_successes, problem_message(u.file.path, p, e)),
        ),
        (StateView::Opening, EventView::Opened { regular, length }) => match file_refusal(
            u.file.path,
            regular,
            length,
        ) {
            Some(e) => ended(Seq::empty(), failed(u.prior_successes, e)),
            None => StepView {
                state: StateView::Reading,
                action: ActionView::ReadFile,
                lines: Seq::empty(),
            },
        },
        (StateView::Reading, EventView::Read(bytes)) => announce(u, bytes),
        (StateView::Announcing(bytes), EventView::Answer(r, t)) => send_bytes(u, bytes, r, t),
        (StateView::Sending(id), EventView::Answer(r, t)) => if success(r) {
            StepView {
                state: StateView::Over,
                action: ActionView::Finish(id),
                lines: seq!["Uploading "@ + u.file.path + "... done"@],
            }
        } else {
            ended(
                Seq::empty(),
                failed(
                    u.prior_successes,
                    "File upload to blob storage failed with status "@ + decimal(r.status as nat)
                        + ": "@ + detail_of(r.kind, u.bin, t),
                ),
            )
        },
        _ => ended(Seq::empty(), Seq::empty()),
    }
}

/// What is done next, what is said before it, and the state then.
pub struct UploadStep {
    pub state: UploadState,
    pub action: UploadAction,
    pub lines: Vec<String>,
}

impl View for UploadStep {
    type V = StepView;

    open spec fn view(&self) -> StepView {
        StepView { state: self.state@, action: self.action@, lines: texts(self.lines@) }
    }
}

fn end_with(lines: Vec<String>, report: Vec<String>) -> (r: UploadStep)
    ensures
        r@ == ended(texts(lines@), texts(report@)),
{
    UploadStep { state: UploadState::Over, action: UploadAction::Fail(report), lines }
}

impl<'a> Upload<'a> {
    fn announce_upload(&self, bytes: Vec<u8>) -> (r: UploadStep)
        ensures
            r@ == announce(self@, bytes@),
    {
        let blob = match prepare_upload(&self.file, bytes.as_slice()) {
            Ok(b) => b,
            Err(e) => {
                return end_with(no_lines(), fail(self.prior_successes, e));
            },
        };
        match setup_request(self.client, blob) {
            Err(e) => end_with(no_lines(), one_line(e)),
            Ok((request, note)) => {
                let lines = match note {
                    Some(note) => one_line(note),
                    None => no_lines(),
                };
                UploadStep {
                    state: UploadState::Announcing(bytes),
                    action: UploadAction::Send(request),
                    lines,
                }
            },
        }
    }

    fn send_file(&self, bytes: Vec<u8>, answer: &ApiResponse, compact: &str) -> (r: UploadStep)
        ensures
            r@ == send_bytes(self@, bytes@, answer@, compact@),
    {
        let (ticket, warnings) = upload_ticket(
            answer,
            self.bin.as_str(),
            compact,
            self.force_insecure,
        );
        let mut lines = warnings;
        match ticket {
            Err(e) => end_with(lines, fail(self.prior_successes, e)),
            Ok(ticket) => {
                add_line(
                    &mut lines,
                    "Uploading ".to_owned().concat(self.file.path.as_str()).concat("..."),
                );
                match ApiClient::raw_put(ticket.url.as_str(), ticket.headers.as_slice(), bytes) {
                    Err(e) => end_with(lines, one_line(e)),
                    Ok(request) => UploadStep {
                        state: UploadState::Sending(ticket.signed_id),
                        action: UploadAction::Send(request),
                        lines,
                    },
                }
            },
        }
    }

    /// One step of the upload: the file is opened and measured, read, announced
    /// to the API, and sent where the API says. A failure at any step ends it,
    /// with the lines that say so.
    pub fn direct_upload(&self, state: UploadState, event: UploadEvent) -> (r: UploadStep)
        requires
            fits(state@, event@),
        ensures
            r@ == upload_step(self@, state@, event@),
    {
        match (state, event) {
            (_, UploadEvent::Problem(p, e)) => {
                let start = match p {
                    FileProblem::Open => "Could not open ",
                    FileProblem::Stat => "Could not stat ",
                    FileProblem::Read => "Could not read ",
                };
                let message = start.to_owned().concat(self.file.path.as_str()).concat(": ").concat(
                    e.as_str(),
                );
                end_with(no_lines(), fail(self.prior_successes, message))
            },
            (UploadState::Opening, UploadEvent::Opened { regular, length }) => {
                match check_file(self.file.path.as_str(), regular, length) {
                    Err(e) => end_with(no_lines(), fail(self.prior_successes, e)),
                    Ok(_) => UploadStep {
                        state: UploadState::Reading,
                        action: UploadAction::ReadFile,
                        lines: no_lines(),
                    },
                }
            },
            (UploadState::Reading, UploadEvent::Read(bytes)) => self.announce_upload(bytes),
            (UploadState::Announcing(bytes), UploadEvent::Answer(answer, compact)) => {
                self.send_file(bytes, &answer, compact.as_str())
            },
            (UploadState::Sending(id), UploadEvent::Answer(answer, compact)) => {
                match finish_upload(&answer, self.bin.as_str(), compact.as_str()) {
                    Err(e) => end_with(no_lines(), fail(self.prior_successes, e)),
                    Ok(_) => UploadStep {
                        state: UploadState::Over,
                        action: UploadAction::Finish(id),
                        lines: one_line(
                            "Uploading ".to_owned().concat(self.file.path.as_str()).concat(
                                "... done",
                            ),
                        ),
                    },
                }
            },
            _ => end_with(no_lines(), no_lines()),
        }
    }
}

/// The bytes of a file go nowhere but to the URL that the API named for them,
/// unchanged and with no header but those that are passed on; and only an
/// answer that says the file has arrived finishes the upload.
pub proof fn law_bytes_follow_the_ticket(u: UploadView, state: StateView, event: EventView)
    requires
        fits(state, event),
    ensures
        match upload_step(u, state, event).action {
            ActionView::Send(q) => match q.body {
                RequestBodyView::Bytes(sent) => state == StateView::Announcing(sent)
                    && event is Answer && (ticket_fields(
                    event->Answer_0,
                    u.bin,
                    event->Answer_1,
                ) matches Ok(f) && q.url == f.2 && q.headers == upload_headers(f.1).0
                    && !q.follow_redirects),
                _ => state is Reading,
            },
            ActionView::Finish(id) => state == StateView::Sending(id) && event is Answer && success(
                event->Answer_0,
            ),
            _ => true,
        },
{
}

/// An upload goes from step to step: a file that may be read is read, what was
/// read is announced, what was announced is sent where and how the answer says,
/// and it ends with the id of that answer.
pub proof fn law_upload_goes_on(
    u: UploadView,
    regular: bool,
    length: u64,
    bytes: Seq<u8>,
    r: ResponseView,
    compact: Seq<char>,
    id: Seq<char>,
)
    ensures
        ({
            let step = upload_step(u, StateView::Opening, EventView::Opened { regular, length });
            &&& regular && length <= 26 * 1024 * 1024 ==> step.state == StateView::Reading
                && step.action == ActionView::ReadFile
            &&& !(regular && length <= 26 * 1024 * 1024) ==> step.action is Fail
        }),
        ({
            let step = upload_step(u, StateView::Reading, EventView::Read(bytes));
            match prepared(u.file, bytes) {
                Ok(blob) => match announcement(u.client, blob) {
                    Ok(p) => step.state == StateView::Announcing(bytes) && step.action
                        == ActionView::Send(p.0) && (p.1 matches Some(note) ==> step.lines == seq![
                        note,
                    ]) && (p.1 is None ==> step.lines.len() == 0),
                    Err(e) => step.action == ActionView::Fail(seq![e]),
                },
                Err(e) => step.action == ActionView::Fail(failed(u.prior_successes, e)),
            }
        }),
        ({
            let step = upload_step(
                u,
                StateView::Announcing(bytes),
                EventView::Answer(r, compact),
            );
            match granted(r, u.bin, compact, u.force_insecure).0 {
                Ok(t) => {
                    &&& starts_with(t.url, "https://"@) || starts_with(t.url, "http://"@)
                        ==> step.state == StateView::Sending(t.signed_id)
                    &&& step.action matches ActionView::Send(q) ==> q.method == HttpMethod::Put
                        && q.url == t.url && q.headers == t.headers && q.body
                        == RequestBodyView::Bytes(bytes)
                    &&& step.action is Send <==> step.state is Sending
                    &&& step.lines == granted(r, u.bin, compact, u.force_insecure).1.push(
                        "Uploading "@ + u.file.path + "..."@,
                    )
                },
                Err(e) => step.action == ActionView::Fail(failed(u.prior_successes, e)) && step.lines
                    == granted(r, u.bin, compact, u.force_insecure).1,
            }
        }),
        ({
            let step = upload_step(u, StateView::Sending(id), EventView::Answer(r, compact));
            &&& success(r) ==> step.action == ActionView::Finish(id) && step.lines == seq![
                "Uploading "@ + u.file.path + "... done"@,
            ]
            &&& !success(r) ==> step.action == ActionView::Fail(
                failed(u.prior_successes, storage_failure(r, u.bin, compact)->0),
            )
        }),
{
}

/// A file that cannot be used ends the upload, whatever the step, with its path
/// and the reason.
pub proof fn law_unusable_files_are_told(u: UploadView, state: StateView, e: Seq<char>)
    ensures
        upload_step(u, state, EventView::Problem(FileProblem::Open, e)).action == ActionView::Fail(
            failed(u.prior_successes, "Could not open "@ + u.file.path + ": "@ + e),
        ),
        upload_step(u, state, EventView::Problem(FileProblem::Stat, e)).action == ActionView::Fail(
            failed(u.prior_successes, "Could not stat "@ + u.file.path + ": "@ + e),
        ),
        upload_step(u, state, EventView::Problem(FileProblem::Read, e)).action == ActionView::Fail(
            failed(u.prior_successes, "Could not read "@ + u.file.path + ": "@ + e),
        ),
{
}

} // verus!
