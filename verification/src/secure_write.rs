//! Writing the file of credentials, step by step: under another name first,
//! which then takes the place of the file.

use crate::text::{ends_with, opt_text};
use vstd::prelude::*;
use vstd::string::*;

verus! {

/// The steps that can fail once the other file is there.
#[derive(Clone, Copy, Debug, PartialEq, Eq, Structural)]
pub enum WriteStep {
    Write,
    Sync,
    Rename,
}

/// How far the writing has come.
pub enum WriteState {
    Creating,
    Writing,
    Syncing,
    Renaming,
    /// A step failed, and the other file is being removed.
    Cleaning(WriteStep, String),
    Over,
}

pub enum WriteStateView {
    Creating,
    Writing,
    Syncing,
    Renaming,
    Cleaning(WriteStep, Seq<char>),
    Over,
}

impl View for WriteState {
    type V = WriteStateView;

    open spec fn view(&self) -> WriteStateView {
        match self {
            WriteState::Creating => WriteStateView::Creating,
            WriteState::Writing => WriteStateView::Writing,
            WriteState::Syncing => WriteStateView::Syncing,
            WriteState::Renaming => WriteStateView::Renaming,
            WriteState::Cleaning(s, e) => WriteStateView::Cleaning(*s, e@),
            WriteState::Over => WriteStateView::Over,
        }
    }
}

/// What is done next. The other file is created so that only its owner can
/// read it, and only where no such file is.
pub enum WriteAction {
    Write,
    Sync,
    Rename,
    /// Remove the other file.
    Remove,
    Done,
    Fail(String),
}

pub enum WriteActionView {
    Write,
    Sync,
    Rename,
    Remove,
    Done,
    Fail(Seq<char>),
}

impl View for WriteAction {
    type V = WriteActionView;

    open spec fn view(&self) -> WriteActionView {
        match self {
            WriteAction::Write => WriteActionView::Write,
            WriteAction::Sync => WriteActionView::Sync,
            WriteAction::Rename => WriteActionView::Rename,
            WriteAction::Remove => WriteActionView::Remove,
            WriteAction::Done => WriteActionView::Done,
            WriteAction::Fail(e) => WriteActionView::Fail(e@),
        }
    }
}

pub struct WriteNext {
    pub state: WriteState,
    pub action: WriteAction,
    pub warning: Option<String>,
}

pub struct WriteNextView {
    pub state: WriteStateView,
    pub action: WriteActionView,
    pub warning: Option<Seq<char>>,
}

impl View for WriteNext {
    type V = WriteNextView;

    open spec fn view(&self) -> WriteNextView {
        WriteNextView {
            state: self.state@,
            action: self.action@,
            warning: opt_text(self.warning),
        }
    }
}

/// What is said where a step failed.
pub open spec fn failure_of(step: WriteStep, error: Seq<char>, temp: Seq<char>, path: Seq<char>) -> Seq<
    char,
> {
    match step {
        WriteStep::Write => "could not write temp credentials file "@ + temp + ": "@ + error,
        WriteStep::Sync => "could not flush temp credentials file "@ + temp + ": "@ + error,
        WriteStep::Rename => "could not replace credentials file "@ + path + ": "@ + error,
    }
}

pub open spec fn step_name(step: WriteStep) -> Seq<char> {
    match step {
        WriteStep::Write => "write"@,
        WriteStep::Sync => "sync"@,
        WriteStep::Rename => "rename"@,
    }
}

/// What is said where the other file, with the tokens in it, stayed.
pub open spec fn leftover_warning(
    step: WriteStep,
    error: Seq<char>,
    removal: Seq<char>,
    temp: Seq<char>,
) -> Seq<char> {
    "Warning: could not clean up temp credentials file "@ + temp + " ("@ + step_name(step)
        + " failed: "@ + error + "; removal of temp file also failed: "@ + removal + ")"@
}

pub open spec fn go_on(state: WriteStateView, action: WriteActionView) -> WriteNextView {
    WriteNextView { state, action, warning: None }
}

/// What follows from a step that went well (`None`) or failed.
pub open spec fn write_step(
    state: WriteStateView,
    error: Option<Seq<char>>,
    temp: Seq<char>,
    path: Seq<char>,
) -> WriteNextView {
    match (state, error) {
        (WriteStateView::Creating, None) => go_on(
            WriteStateView::Writing,
            WriteActionView::Write,
        ),
        (WriteStateView::Creating, Some(e)) => go_on(
            WriteStateView::Over,
            WriteActionView::Fail("could not create temp credentials file "@ + temp + ": "@ + e),
        ),
        (WriteStateView::Writing, None) => go_on(WriteStateView::Syncing, WriteActionView::Sync),
        (WriteStateView::Writing, Some(e)) => go_on(
            WriteStateView::Cleaning(WriteStep::Write, e),
            WriteActionView::Remove,
        ),
        (WriteStateView::Syncing, None) => go_on(
            WriteStateView::Renaming,
            WriteActionView::Rename,
        ),
        (WriteStateView::Syncing, Some(e)) => go_on(
            WriteStateView::Cleaning(WriteStep::Sync, e),
            WriteActionView::Remove,
        ),
        (WriteStateView::Renaming, None) => go_on(WriteStateView::Over, WriteActionView::Done),
        (WriteStateView::Renaming, Some(e)) => go_on(
            WriteStateView::Cleaning(WriteStep::Rename, e),
            WriteActionView::Remove,
        ),
        (WriteStateView::Cleaning(step, e), removal) => WriteNextView {
            state: WriteStateView::Over,
            action: WriteActionView::Fail(failure_of(step, e, temp, path)),
            warning: match removal {
                Some(x) => Some(leftover_warning(step, e, x, temp)),
                None => None,
            },
        },
        (WriteStateView::Over, _) => go_on(WriteStateView::Over, WriteActionView::Done),
    }
}

fn next(state: WriteState, action: WriteAction) -> (r: WriteNext)
    ensures
        r@ == go_on(state@, action@),
{
    WriteNext { state, action, warning: None }
}

/// One step of writing the file of credentials: the other file is created,
/// written, made durable, and only then takes the place of the file. Where a
/// step fails the other file is removed.
pub fn atomic_write_secure(state: WriteState, error: Option<String>, temp: &str, path: &str) -> (r:
    WriteNext)
    requires
        !(state is Over),
    ensures
        r@ == write_step(state@, opt_text(error), temp@, path@),
{
    match (state, error) {
        (WriteState::Creating, None) => next(WriteState::Writing, WriteAction::Write),
        (WriteState::Creating, Some(e)) => next(
            WriteState::Over,
            WriteAction::Fail(
                "could not create temp credentials file ".to_owned().concat(temp).concat(
                    ": ",
                ).concat(e.as_str()),
            ),
        ),
        (WriteState::Writing, None) => next(WriteState::Syncing, WriteAction::Sync),
        (WriteState::Writing, Some(e)) => next(
            WriteState::Cleaning(WriteStep::Write, e),
            WriteAction::Remove,
        ),
        (WriteState::Syncing, None) => next(WriteState::Renaming, WriteAction::Rename),
        (WriteState::Syncing, Some(e)) => next(
            WriteState::Cleaning(WriteStep::Sync, e),
            WriteAction::Remove,
        ),
        (WriteState::Renaming, None) => next(WriteState::Over, WriteAction::Done),
        (WriteState::Renaming, Some(e)) => next(
            WriteState::Cleaning(WriteStep::Rename, e),
            WriteAction::Remove,
        ),
        (WriteState::Cleaning(step, e), removal) => {
            let (failed, name) = match step {
                WriteStep::Write => (
                    "could not write temp credentials file ".to_owned().concat(temp),
                    "write",
                ),
                WriteStep::Sync => (
                    "could not flush temp credentials file ".to_owned().concat(temp),
                    "sync",
                ),
                WriteStep::Rename => (
                    "could not replace credentials file ".to_owned().concat(path),
                    "rename",
                ),
            };
            let warning = match removal {
                Some(x) => Some(
                    "Warning: could not clean up temp credentials file ".to_owned().concat(
                        temp,
                    ).concat(" (").concat(name).concat(" failed: ").concat(e.as_str()).concat(
                        "; removal of temp file also failed: ",
                    ).concat(x.as_str()).concat(")"),
                ),
                None => None,
            };
            WriteNext {
                state: WriteState::Over,
                action: WriteAction::Fail(failed.concat(": ").concat(e.as_str())),
                warning,
            }
        },
        (WriteState::Over, _) => next(WriteState::Over, WriteAction::Done),
    }
}

/// What is said where a token cannot be kept in a file.
pub open spec fn refusal_at(path: Seq<char>) -> Seq<char> {
    "the OS credential store is unavailable, and this platform has no ACL-restricted fallback file storage implemented yet, so the token can't be stored safely at "@
        + path
}

/// Where files cannot be kept from others, none is written: what is said
/// instead.
pub fn refuse_write(path: &str) -> (r: String)
    ensures
        r@ == refusal_at(path@),
{
    "the OS credential store is unavailable, and this platform has no ACL-restricted fallback file storage implemented yet, so the token can't be stored safely at ".to_owned().concat(
        path,
    )
}

/// The file is replaced only once its contents are durable under the other
/// name, it counts as written only once it is replaced, and a failure behind
/// the creation leaves through the removal of the other file.
pub proof fn law_file_is_replaced_whole(
    state: WriteStateView,
    error: Option<Seq<char>>,
    temp: Seq<char>,
    path: Seq<char>,
)
    requires
        !(state is Over),
    ensures
        write_step(state, error, temp, path).action is Rename ==> state is Syncing && error is None,
        write_step(state, error, temp, path).action is Done ==> state is Renaming && error is None,
        write_step(state, error, temp, path).action is Fail ==> state is Creating || state is Cleaning,
        (state is Writing || state is Syncing || state is Renaming) && error is Some ==> write_step(
            state,
            error,
            temp,
            path,
        ).action is Remove,
{
}

/// The steps of a write that goes well, one after the other, and what each says
/// where it does not.
pub proof fn law_writing_goes_on(
    e: Seq<char>,
    removal: Option<Seq<char>>,
    temp: Seq<char>,
    path: Seq<char>,
)
    ensures
        ({
            let on = |state: WriteStateView| write_step(state, None, temp, path);
            let off = |state: WriteStateView| write_step(state, Some(e), temp, path);
            let clean = |step: WriteStep|
                write_step(WriteStateView::Cleaning(step, e), removal, temp, path);
            &&& on(WriteStateView::Creating).state == WriteStateView::Writing && on(
                WriteStateView::Creating,
            ).action == WriteActionView::Write
            &&& on(WriteStateView::Writing).state == WriteStateView::Syncing && on(
                WriteStateView::Writing,
            ).action == WriteActionView::Sync
            &&& on(WriteStateView::Syncing).state == WriteStateView::Renaming && on(
                WriteStateView::Syncing,
            ).action == WriteActionView::Rename
            &&& on(WriteStateView::Renaming).action == WriteActionView::Done
            &&& off(WriteStateView::Creating).action == WriteActionView::Fail(
                "could not create temp credentials file "@ + temp + ": "@ + e,
            )
            &&& off(WriteStateView::Writing).state == WriteStateView::Cleaning(WriteStep::Write, e)
            &&& off(WriteStateView::Syncing).state == WriteStateView::Cleaning(WriteStep::Sync, e)
            &&& off(WriteStateView::Renaming).state == WriteStateView::Cleaning(WriteStep::Rename, e)
            &&& clean(WriteStep::Write).action == WriteActionView::Fail(
                "could not write temp credentials file "@ + temp + ": "@ + e,
            )
            &&& clean(WriteStep::Sync).action == WriteActionView::Fail(
                "could not flush temp credentials file "@ + temp + ": "@ + e,
            )
            &&& clean(WriteStep::Rename).action == WriteActionView::Fail(
                "could not replace credentials file "@ + path + ": "@ + e,
            )
            &&& clean(WriteStep::Write).warning is Some <==> removal is Some
            &&& removal matches Some(x) ==> clean(WriteStep::Sync).warning == Some(
                "Warning: could not clean up temp credentials file "@ + temp + " ("@ + "sync"@
                    + " failed: "@ + e + "; removal of temp file also failed: "@ + x + ")"@,
            )
        }),
{
}

/// A file that no token is kept in is named.
pub proof fn law_refused_files_are_named(path: Seq<char>)
    ensures
        ends_with(refusal_at(path), path),
        refusal_at(path).len() > path.len(),
{
    let r = refusal_at(path);
    assert(r.skip(r.len() - path.len()) =~= path);
    reveal_strlit(
        "the OS credential store is unavailable, and this platform has no ACL-restricted fallback file storage implemented yet, so the token can't be stored safely at ",
    );
}

/// A file that stays after a failure is told with what failed.
pub proof fn law_leftovers_name_the_step(error: Seq<char>, removal: Seq<char>, temp: Seq<char>)
    ensures
        ({
            let start = "Warning: could not clean up temp credentials file "@ + temp + " ("@;
            let end = error + "; removal of temp file also failed: "@ + removal + ")"@;
            &&& leftover_warning(WriteStep::Write, error, removal, temp) == start + "write"@
                + " failed: "@ + end
            &&& leftover_warning(WriteStep::Sync, error, removal, temp) == start + "sync"@
                + " failed: "@ + end
            &&& leftover_warning(WriteStep::Rename, error, removal, temp) == start + "rename"@
                + " failed: "@ + end
        }),
{
}

} // verus!
