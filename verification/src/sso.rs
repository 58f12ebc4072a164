//! Signing in through Google or Microsoft: what is asked of them, and what is
//! made of the browser that they send back.

use crate::client::PairsView;
use crate::outside::{equal_in_constant_time, form_pairs, parse_form, quoted, quoted_text};
use crate::text::{
    add_line, all_in, begins_with, byte_length, decimal, ends_with, find_from, finishes_with, first_in, has_text,
    holds_text, law_split_first, lemma_first_in, number_text, occurs_at, one_line, only, opt_text, range_of, same, split_at_first,
    split_once, starts_with, text_pairs, texts, to_chars, trim_start, without_start, CharClass,
};
use vstd::prelude::*;
use vstd::string::*;
use vstd::utf8::{encode_utf8, encode_utf8_decode_utf8};

verus! {

/// A browser that is not the one waited for is told this.
pub const WAITING_REPLY: &'static str =
    "Waiting for the real sign-in redirect - you can close this window.";

pub const DENIED_REPLY: &'static str =
    "Sign-in was not completed - you can close this window and return to the terminal.";

pub const FAILED_REPLY: &'static str = "Sign-in failed - see the terminal for details.";

pub const SIGNED_IN_REPLY: &'static str =
    "You're signed in - you can close this window and return to the terminal.";

/// Of an error that the browser brings no more characters than these are kept.
pub const MAX_ERROR_LENGTH: usize = 512;

/// How long the browser is waited for, in nanoseconds.
pub const REDIRECT_TIMEOUT_NANOS: u64 = 300_000_000_000;

/// How long one request may take to send its headers, in nanoseconds.
pub const HEADER_TIMEOUT_NANOS: u64 = 5_000_000_000;

pub const MAX_HEADER_LINES: usize = 100;

pub const MAX_HEADER_BYTES: u64 = 65536;

/// No sign-in is waited for longer than this many seconds.
pub const MAX_POLL_SECONDS: u64 = 900;

pub const MAX_TENANT_LENGTH: usize = 253;

/// What is left of a time, in nanoseconds, unless nothing is.
pub open spec fn left_of(limit: u64, elapsed: u128) -> Option<u64> {
    if elapsed < limit {
        Some((limit - elapsed) as u64)
    } else {
        None
    }
}

/// What is left of a time once `elapsed` nanoseconds of it have passed.
pub fn time_left(limit: u64, elapsed: u128) -> (r: Option<u64>)
    ensures
        r == left_of(limit, elapsed),
{
    if elapsed < limit as u128 {
        Some(limit - elapsed as u64)
    } else {
        None
    }
}

/// What a sign-in asks a provider for.
pub open spec fn asked_scopes() -> Seq<Seq<char>> {
    seq!["openid"@, "email"@, "profile"@]
}

/// The scopes that a sign-in asks a provider for.
pub fn scopes() -> (r: Vec<String>)
    ensures
        texts(r@) == asked_scopes(),
{
    let mut r = one_line("openid".to_owned());
    add_line(&mut r, "email".to_owned());
    add_line(&mut r, "profile".to_owned());
    assert(texts(r@) =~= asked_scopes());
    r
}

/// Characters that change how a terminal shows what follows them.
pub open spec fn misleads(c: char) -> bool {
    ||| c <= '\u{1f}'
    ||| '\u{7f}' <= c && c <= '\u{9f}'
    ||| c == '\u{200E}'
    ||| c == '\u{200F}'
    ||| '\u{202A}' <= c && c <= '\u{202E}'
    ||| '\u{2066}' <= c && c <= '\u{2069}'
    ||| c == '\u{2028}'
    ||| c == '\u{2029}'
    ||| '\u{E0000}' <= c && c <= '\u{E007F}'
    ||| '\u{FFF9}' <= c && c <= '\u{FFFB}'
}

/// A text with a question mark for each character that misleads.
pub open spec fn sanitized(s: Seq<char>) -> Seq<char> {
    Seq::new(
        s.len(),
        |i: int|
            if misleads(s[i]) {
                '?'
            } else {
                s[i]
            },
    )
}

/// The text for a terminal: every character that could mislead is replaced.
pub fn sanitize_for_display(s: &str) -> (r: String)
    ensures
        r@ == sanitized(s@),
{
    let chars = to_chars(s);
    let mut out: String = String::new();
    for i in 0..chars.len()
        invariant
            chars@ == s@,
            out@ == sanitized(s@).take(i as int),
    {
        let c = chars[i];
        let bad = c <= '\u{1f}' || ('\u{7f}' <= c && c <= '\u{9f}') || c == '\u{200E}' || c
            == '\u{200F}' || ('\u{202A}' <= c && c <= '\u{202E}') || ('\u{2066}' <= c && c
            <= '\u{2069}') || c == '\u{2028}' || c == '\u{2029}' || ('\u{E0000}' <= c && c
            <= '\u{E007F}') || ('\u{FFF9}' <= c && c <= '\u{FFFB}');
        out.push(
            if bad {
                '?'
            } else {
                c
            },
        );
        assert(sanitized(s@).take(i + 1) =~= sanitized(s@).take(i as int).push(
            sanitized(s@)[i as int],
        ));
    }
    assert(sanitized(s@).take(chars@.len() as int) =~= sanitized(s@));
    out
}

/// Nothing that misleads is left, and what did not mislead is left as it was.
pub proof fn law_sanitized_text_is_plain(s: Seq<char>, i: int)
    requires
        0 <= i < s.len(),
    ensures
        sanitized(s).len() == s.len(),
        !misleads(sanitized(s)[i]),
        !misleads(s[i]) ==> sanitized(s)[i] == s[i],
        sanitized(sanitized(s)) == sanitized(s),
{
    assert forall|j: int| 0 <= j < s.len() implies !misleads(#[trigger] sanitized(s)[j]) by {}
    assert(sanitized(sanitized(s)) =~= sanitized(s));
}

/// The first word of a text, and what follows it.
pub open spec fn first_word(s: Seq<char>) -> Seq<char> {
    let t = trim_start(s, CharClass::White);
    t.take(first_in(t, CharClass::White))
}

pub open spec fn after_first_word(s: Seq<char>) -> Seq<char> {
    let t = trim_start(s, CharClass::White);
    t.skip(first_in(t, CharClass::White))
}

/// The query of a request line: what follows the question mark in its second
/// word.
pub open spec fn query_of(request_line: Seq<char>) -> Seq<char> {
    match split_once(first_word(after_first_word(request_line)), '?') {
        Some(p) => p.1,
        None => Seq::empty(),
    }
}

fn word_and_rest(s: &str) -> (r: (String, String))
    ensures
        r.0@ == first_word(s@),
        r.1@ == after_first_word(s@),
{
    let t = without_start(s, CharClass::White);
    let chars = to_chars(t.as_str());
    assert(chars@.skip(0) =~= chars@);
    let i: usize = find_from(chars.as_slice(), 0, CharClass::White);
    proof {
        lemma_first_in(t@, CharClass::White);
    }
    assert(chars@.subrange(0, i as int) =~= chars@.take(i as int));
    assert(chars@.subrange(i as int, chars@.len() as int) =~= chars@.skip(i as int));
    (range_of(chars.as_slice(), 0, i), range_of(chars.as_slice(), i, chars.len()))
}

/// The query of a request line.
pub fn query_in(request_line: &str) -> (r: String)
    ensures
        r@ == query_of(request_line@),
{
    let (_, rest) = word_and_rest(request_line);
    let (path, _) = word_and_rest(rest.as_str());
    match split_at_first(path.as_str(), '?') {
        Some(p) => p.1,
        None => String::new(),
    }
}

/// The first value of a parameter that is not empty. A parameter without a
/// value counts no more than one that is not there.
pub open spec fn first_value(pairs: PairsView, key: Seq<char>) -> Seq<char>
    decreases pairs.len(),
{
    if pairs.len() == 0 {
        Seq::empty()
    } else if pairs[0].0 == key && pairs[0].1.len() > 0 {
        pairs[0].1
    } else {
        first_value(pairs.drop_first(), key)
    }
}

/// At most `n` characters of a text.
pub open spec fn clipped(s: Seq<char>, n: int) -> Seq<char> {
    if s.len() > n {
        s.take(n)
    } else {
        s
    }
}

/// What a browser brought.
pub enum Redirect {
    /// Not the answer that is waited for.
    Spurious,
    /// The provider refused, as the line says.
    Denied(String),
    /// The code that the token is bought with.
    Code(String),
}

pub enum RedirectView {
    Spurious,
    Denied(Seq<char>),
    Code(Seq<char>),
}

impl View for Redirect {
    type V = RedirectView;

    open spec fn view(&self) -> RedirectView {
        match self {
            Redirect::Spurious => RedirectView::Spurious,
            Redirect::Denied(m) => RedirectView::Denied(m@),
            Redirect::Code(c) => RedirectView::Code(c@),
        }
    }
}

pub open spec fn denial(error: Seq<char>, description: Seq<char>) -> Seq<char> {
    if description.len() == 0 {
        "Sign-in was not completed: "@ + error
    } else {
        "Sign-in was not completed: "@ + error + " - "@ + description
    }
}

/// What a browser with these parameters brought. Without the state that was
/// sent out nothing of it counts, an error no more than a code.
pub open spec fn judged(pairs: PairsView, expected_state: Seq<char>) -> RedirectView {
    let error = first_value(pairs, "error"@);
    let description = first_value(pairs, "error_description"@);
    let code = first_value(pairs, "code"@);
    if first_value(pairs, "state"@) != expected_state {
        RedirectView::Spurious
    } else if error.len() > 0 {
        RedirectView::Denied(
            denial(
                sanitized(clipped(error, MAX_ERROR_LENGTH as int)),
                sanitized(clipped(description, MAX_ERROR_LENGTH as int)),
            ),
        )
    } else if code.len() == 0 {
        RedirectView::Spurious
    } else {
        RedirectView::Code(code)
    }
}

fn value_of(pairs: &[(String, String)], key: &str) -> (r: String)
    ensures
        r@ == first_value(text_pairs(pairs@), key@),
{
    let ghost all = text_pairs(pairs@);
    let mut i: usize = 0;
    assert(all.skip(0) =~= all);
    while i < pairs.len()
        invariant
            i <= pairs@.len(),
            all == text_pairs(pairs@),
            first_value(all, key@) == first_value(all.skip(i as int), key@),
        decreases pairs@.len() - i,
    {
        assert(all.skip(i as int)[0] == all[i as int]);
        assert(all.skip(i as int).drop_first() =~= all.skip(i + 1));
        if same(pairs[i].0.as_str(), key) && pairs[i].1.as_str().unicode_len() > 0 {
            return pairs[i].1.clone();
        }
        i = i + 1;
    }
    String::new()
}

fn clip(s: &str) -> (r: String)
    ensures
        r@ == clipped(s@, MAX_ERROR_LENGTH as int),
{
    let chars = to_chars(s);
    if chars.len() > MAX_ERROR_LENGTH {
        assert(chars@.subrange(0, MAX_ERROR_LENGTH as int) =~= chars@.take(
            MAX_ERROR_LENGTH as int,
        ));
        range_of(chars.as_slice(), 0, MAX_ERROR_LENGTH)
    } else {
        s.to_owned()
    }
}

/// Compares two texts in a time that does not tell where they differ.
fn same_secret(a: &str, b: &str) -> (r: bool)
    ensures
        r == (a@ == b@),
{
    proof {
        encode_utf8_decode_utf8(a@);
        encode_utf8_decode_utf8(b@);
    }
    equal_in_constant_time(a.as_bytes(), b.as_bytes())
}

/// What a browser with these parameters brought.
pub fn judge_redirect(pairs: &[(String, String)], expected_state: &str) -> (r: Redirect)
    ensures
        r@ == judged(text_pairs(pairs@), expected_state@),
{
    let state = value_of(pairs, "state");
    if !same_secret(state.as_str(), expected_state) {
        return Redirect::Spurious;
    }
    let error = value_of(pairs, "error");
    if error.as_str().unicode_len() > 0 {
        let error = sanitize_for_display(clip(error.as_str()).as_str());
        let description = sanitize_for_display(
            clip(value_of(pairs, "error_description").as_str()).as_str(),
        );
        let start = "Sign-in was not completed: ".to_owned().concat(error.as_str());
        return if description.as_str().unicode_len() == 0 {
            Redirect::Denied(start)
        } else {
            Redirect::Denied(start.concat(" - ").concat(description.as_str()))
        };
    }
    let code = value_of(pairs, "code");
    if code.as_str().unicode_len() == 0 {
        Redirect::Spurious
    } else {
        Redirect::Code(code)
    }
}

/// What happened while the browser was waited for.
pub enum RedirectEvent {
    /// The next browser is about to be waited for, so many nanoseconds after
    /// the first was.
    Ready { elapsed: u128 },
    TimedOut,
    /// Connections are no longer accepted.
    Disconnected,
    ReadTimeoutFailed(String),
    WriteTimeoutFailed(String),
    /// A browser sent a request; `complete` says whether all of its headers
    /// came.
    Request { line: String, complete: bool },
}

pub enum RedirectEventView {
    Ready { elapsed: u128 },
    TimedOut,
    Disconnected,
    ReadTimeoutFailed(Seq<char>),
    WriteTimeoutFailed(Seq<char>),
    Request { line: Seq<char>, complete: bool },
}

impl View for RedirectEvent {
    type V = RedirectEventView;

    open spec fn view(&self) -> RedirectEventView {
        match self {
            RedirectEvent::Ready { elapsed } => RedirectEventView::Ready { elapsed: *elapsed },
            RedirectEvent::TimedOut => RedirectEventView::TimedOut,
            RedirectEvent::Disconnected => RedirectEventView::Disconnected,
            RedirectEvent::ReadTimeoutFailed(e) => RedirectEventView::ReadTimeoutFailed(e@),
            RedirectEvent::WriteTimeoutFailed(e) => RedirectEventView::WriteTimeoutFailed(e@),
            RedirectEvent::Request { line, complete } => RedirectEventView::Request {
                line: line@,
                complete: *complete,
            },
        }
    }
}

/// What is done about it.
pub enum RedirectStep {
    /// Wait for a browser so many nanoseconds.
    Accept(u64),
    /// Send this to the browser and wait for another.
    Wait(&'static str),
    /// Send the first to the browser, if anything, and give up with the second.
    GiveUp(Option<&'static str>, String),
    /// Go on with this code; the browser waits.
    Code(String),
}

pub enum RedirectStepView {
    Accept(u64),
    Wait(Seq<char>),
    GiveUp(Option<Seq<char>>, Seq<char>),
    Code(Seq<char>),
}

impl View for RedirectStep {
    type V = RedirectStepView;

    open spec fn view(&self) -> RedirectStepView {
        match self {
            RedirectStep::Accept(n) => RedirectStepView::Accept(*n),
            RedirectStep::Wait(m) => RedirectStepView::Wait(m@),
            RedirectStep::GiveUp(Some(m), e) => RedirectStepView::GiveUp(Some(m@), e@),
            RedirectStep::GiveUp(None, e) => RedirectStepView::GiveUp(None, e@),
            RedirectStep::Code(c) => RedirectStepView::Code(c@),
        }
    }
}

pub open spec fn redirect_late() -> RedirectStepView {
    RedirectStepView::GiveUp(None, "Timed out waiting for the browser sign-in redirect."@)
}

pub open spec fn redirect_step(event: RedirectEventView, expected_state: Seq<char>) -> RedirectStepView {
    match event {
        RedirectEventView::Ready { elapsed } => match left_of(REDIRECT_TIMEOUT_NANOS, elapsed) {
            Some(n) => RedirectStepView::Accept(n),
            None => redirect_late(),
        },
        RedirectEventView::TimedOut => redirect_late(),
        RedirectEventView::Disconnected => RedirectStepView::GiveUp(
            None,
            "Internal error: the loopback listener's accept thread exited unexpectedly."@,
        ),
        RedirectEventView::ReadTimeoutFailed(e) => RedirectStepView::GiveUp(
            None,
            "Could not set read timeout on connection: "@ + e,
        ),
        RedirectEventView::WriteTimeoutFailed(e) => RedirectStepView::GiveUp(
            None,
            "Could not set write timeout on connection: "@ + e,
        ),
        RedirectEventView::Request { line, complete } => if !complete {
            RedirectStepView::Wait(WAITING_REPLY@)
        } else {
            match judged(form_pairs(query_of(line)), expected_state) {
                RedirectView::Spurious => RedirectStepView::Wait(WAITING_REPLY@),
                RedirectView::Denied(m) => RedirectStepView::GiveUp(Some(DENIED_REPLY@), m),
                RedirectView::Code(c) => RedirectStepView::Code(c),
            }
        },
    }
}

/// One step of waiting for the browser: a request that was cut off or is not
/// the answer to this sign-in is turned away, and the waiting goes on for what
/// is left of its time.
pub fn await_redirect_loop(event: RedirectEvent, expected_state: &str) -> (r: RedirectStep)
    ensures
        r@ == redirect_step(event@, expected_state@),
{
    match event {
        RedirectEvent::Ready { elapsed } => match time_left(REDIRECT_TIMEOUT_NANOS, elapsed) {
            Some(n) => RedirectStep::Accept(n),
            None => RedirectStep::GiveUp(
                None,
                "Timed out waiting for the browser sign-in redirect.".to_owned(),
            ),
        },
        RedirectEvent::TimedOut => RedirectStep::GiveUp(
            None,
            "Timed out waiting for the browser sign-in redirect.".to_owned(),
        ),
        RedirectEvent::Disconnected => RedirectStep::GiveUp(
            None,
            "Internal error: the loopback listener's accept thread exited unexpectedly.".to_owned(),
        ),
        RedirectEvent::ReadTimeoutFailed(e) => RedirectStep::GiveUp(
            None,
            "Could not set read timeout on connection: ".to_owned().concat(e.as_str()),
        ),
        RedirectEvent::WriteTimeoutFailed(e) => RedirectStep::GiveUp(
            None,
            "Could not set write timeout on connection: ".to_owned().concat(e.as_str()),
        ),
        RedirectEvent::Request { line, complete } => {
            if !complete {
                return RedirectStep::Wait(WAITING_REPLY);
            }
            let query = query_in(line.as_str());
            let pairs = parse_form(query.as_str());
            match judge_redirect(pairs.as_slice(), expected_state) {
                Redirect::Spurious => RedirectStep::Wait(WAITING_REPLY),
                Redirect::Denied(m) => RedirectStep::GiveUp(Some(DENIED_REPLY), m),
                Redirect::Code(c) => RedirectStep::Code(c),
            }
        },
    }
}

/// However many browsers come, none is waited for beyond the time that there
/// is for all of them.
pub proof fn law_waiting_for_the_browser_ends(elapsed: u128, expected_state: Seq<char>)
    ensures
        match redirect_step(RedirectEventView::Ready { elapsed }, expected_state) {
            RedirectStepView::Accept(n) => n > 0 && elapsed + n == REDIRECT_TIMEOUT_NANOS,
            step => step is GiveUp && elapsed >= REDIRECT_TIMEOUT_NANOS,
        },
{
}

/// Nothing but the state that was sent out makes a browser count.
pub proof fn law_only_the_state_sent_out_counts(pairs: PairsView, expected_state: Seq<char>)
    ensures
        first_value(pairs, "state"@) != expected_state ==> judged(pairs, expected_state) is Spurious,
        judged(pairs, expected_state) is Code ==> first_value(pairs, "error"@).len() == 0,
{
}

/// Parameters that follow those of a sign-in do not change them.
pub proof fn law_first_value_stands(pairs: PairsView, more: PairsView, key: Seq<char>)
    requires
        first_value(pairs, key).len() > 0,
    ensures
        first_value(pairs + more, key) == first_value(pairs, key),
    decreases pairs.len(),
{
    if pairs.len() > 0 {
        assert((pairs + more)[0] == pairs[0]);
        if !(pairs[0].0 == key && pairs[0].1.len() > 0) {
            assert((pairs + more).drop_first() =~= pairs.drop_first() + more);
            law_first_value_stands(pairs.drop_first(), more, key);
        }
    }
}

/// What is sent to a browser: the message on one line, as plain text.
pub open spec fn one_line_text(message: Seq<char>) -> Seq<char> {
    Seq::new(
        message.len(),
        |i: int|
            if message[i] == '\r' || message[i] == '\n' || message[i] == '\0' {
                ' '
            } else {
                message[i]
            },
    )
}

pub open spec fn response_text(message: Seq<char>) -> Seq<char> {
    "HTTP/1.1 200 OK\r\nContent-Length: "@ + decimal(encode_utf8(one_line_text(message)).len())
        + "\r\nContent-Type: text/plain; charset=utf-8\r\nConnection: close\r\n\r\n"@
        + one_line_text(message)
}

/// The response that shows a message in the browser.
pub fn respond(message: &str) -> (r: String)
    ensures
        r@ == response_text(message@),
{
    let chars = to_chars(message);
    let mut line: String = String::new();
    for i in 0..chars.len()
        invariant
            chars@ == message@,
            line@ == one_line_text(message@).take(i as int),
    {
        let c = chars[i];
        line.push(
            if c == '\r' || c == '\n' || c == '\0' {
                ' '
            } else {
                c
            },
        );
        assert(one_line_text(message@).take(i + 1) =~= one_line_text(message@).take(i as int).push(
            one_line_text(message@)[i as int],
        ));
    }
    assert(one_line_text(message@).take(chars@.len() as int) =~= one_line_text(message@));
    "HTTP/1.1 200 OK\r\nContent-Length: ".to_owned().concat(
        number_text(byte_length(line.as_str()) as u128).as_str(),
    ).concat("\r\nContent-Type: text/plain; charset=utf-8\r\nConnection: close\r\n\r\n").concat(
        line.as_str(),
    )
}

/// How much of a request's headers has been read.
pub struct HeaderReader {
    pub request_line: String,
    pub bytes_read: u64,
    pub lines: usize,
}

pub struct ReaderView {
    pub request_line: Seq<char>,
    pub bytes_read: u64,
    pub lines: usize,
}

impl View for HeaderReader {
    type V = ReaderView;

    open spec fn view(&self) -> ReaderView {
        ReaderView {
            request_line: self.request_line@,
            bytes_read: self.bytes_read,
            lines: self.lines,
        }
    }
}

/// What reading a line came to. An empty line means that nothing is left.
pub enum HeaderEvent {
    /// A line is about to be read, so many nanoseconds after the first was.
    Ready { elapsed: u128 },
    /// No time was left for it.
    TooSlow,
    TimeoutFailed,
    Failed(String),
    Line(String),
}

pub enum HeaderEventView {
    Ready { elapsed: u128 },
    TooSlow,
    TimeoutFailed,
    Failed(Seq<char>),
    Line(Seq<char>),
}

impl View for HeaderEvent {
    type V = HeaderEventView;

    open spec fn view(&self) -> HeaderEventView {
        match self {
            HeaderEvent::Ready { elapsed } => HeaderEventView::Ready { elapsed: *elapsed },
            HeaderEvent::TooSlow => HeaderEventView::TooSlow,
            HeaderEvent::TimeoutFailed => HeaderEventView::TimeoutFailed,
            HeaderEvent::Failed(e) => HeaderEventView::Failed(e@),
            HeaderEvent::Line(l) => HeaderEventView::Line(l@),
        }
    }
}

/// Whether to go on reading, or what was read in the end: the request line,
/// whether all headers came, and what is said where they did not.
pub enum HeaderStep {
    /// Read a line, which may take so many nanoseconds.
    Read(HeaderReader, u64),
    More(HeaderReader),
    Done { request_line: String, complete: bool, warning: Option<String> },
}

pub enum HeaderStepView {
    Read(ReaderView, u64),
    More(ReaderView),
    Done { request_line: Seq<char>, complete: bool, warning: Option<Seq<char>> },
}

impl View for HeaderStep {
    type V = HeaderStepView;

    open spec fn view(&self) -> HeaderStepView {
        match self {
            HeaderStep::Read(r, n) => HeaderStepView::Read(r@, *n),
            HeaderStep::More(r) => HeaderStepView::More(r@),
            HeaderStep::Done { request_line, complete, warning } => HeaderStepView::Done {
                request_line: request_line@,
                complete: *complete,
                warning: opt_text(*warning),
            },
        }
    }
}

pub open spec fn cut_off(request_line: Seq<char>, warning: Seq<char>) -> HeaderStepView {
    HeaderStepView::Done { request_line, complete: false, warning: Some(warning) }
}

pub open spec fn incomplete_warning() -> Seq<char> {
    "Warning: OAuth redirect request ended without a complete set of headers - sign-in may not complete."@
}

pub open spec fn too_slow_warning() -> Seq<char> {
    "Warning: OAuth redirect request took too long to send its headers - sign-in may not complete."@
}

pub open spec fn header_step(reader: ReaderView, event: HeaderEventView) -> HeaderStepView {
    match event {
        HeaderEventView::Ready { elapsed } => match left_of(HEADER_TIMEOUT_NANOS, elapsed) {
            Some(n) => HeaderStepView::Read(reader, n),
            None => cut_off(reader.request_line, too_slow_warning()),
        },
        HeaderEventView::TooSlow => cut_off(reader.request_line, too_slow_warning()),
        HeaderEventView::TimeoutFailed => cut_off(
            reader.request_line,
            "Warning: could not set read timeout on OAuth redirect connection - skipping."@,
        ),
        HeaderEventView::Failed(e) => cut_off(
            reader.request_line,
            "Warning: I/O error reading OAuth redirect request headers: "@ + e
                + " - sign-in may not complete."@,
        ),
        HeaderEventView::Line(line) => if line.len() == 0 {
            if reader.bytes_read >= MAX_HEADER_BYTES {
                cut_off(
                    reader.request_line,
                    "Warning: OAuth redirect request headers exceeded the read limit and were truncated - sign-in may not complete."@,
                )
            } else {
                cut_off(reader.request_line, incomplete_warning())
            }
        } else if line == "\r\n"@ || line == "\n"@ {
            HeaderStepView::Done {
                request_line: reader.request_line,
                complete: true,
                warning: None,
            }
        } else {
            let first = if reader.request_line.len() == 0 {
                line
            } else {
                reader.request_line
            };
            if reader.lines + 1 >= MAX_HEADER_LINES {
                cut_off(first, incomplete_warning())
            } else {
                HeaderStepView::More(
                    ReaderView {
                        request_line: first,
                        bytes_read: if reader.bytes_read + encode_utf8(line).len() <= u64::MAX {
                            (reader.bytes_read + encode_utf8(line).len()) as u64
                        } else {
                            u64::MAX
                        },
                        lines: (reader.lines + 1) as usize,
                    },
                )
            }
        },
    }
}

fn stop(request_line: String, warning: &str) -> (r: HeaderStep)
    ensures
        r@ == cut_off(request_line@, warning@),
{
    HeaderStep::Done { request_line, complete: false, warning: Some(warning.to_owned()) }
}

impl HeaderReader {
    pub fn new() -> (r: HeaderReader)
        ensures
            r@ == (ReaderView { request_line: Seq::empty(), bytes_read: 0, lines: 0 }),
    {
        HeaderReader { request_line: String::new(), bytes_read: 0, lines: 0 }
    }

    /// One step of reading the headers of a request. They are complete with
    /// the empty line behind them; a request that has too many lines or bytes,
    /// or is too slow, is cut off.
    pub fn read_request_headers(self, event: HeaderEvent) -> (r: HeaderStep)
        ensures
            r@ == header_step(self@, event@),
    {
        let line = match event {
            HeaderEvent::Ready { elapsed } => {
                return match time_left(HEADER_TIMEOUT_NANOS, elapsed) {
                    Some(n) => HeaderStep::Read(self, n),
                    None => stop(
                        self.request_line,
                        "Warning: OAuth redirect request took too long to send its headers - sign-in may not complete.",
                    ),
                };
            },
            HeaderEvent::TooSlow => {
                return stop(
                    self.request_line,
                    "Warning: OAuth redirect request took too long to send its headers - sign-in may not complete.",
                );
            },
            HeaderEvent::TimeoutFailed => {
                return stop(
                    self.request_line,
                    "Warning: could not set read timeout on OAuth redirect connection - skipping.",
                );
            },
            HeaderEvent::Failed(e) => {
                return stop(
                    self.request_line,
                    "Warning: I/O error reading OAuth redirect request headers: ".to_owned().concat(
                        e.as_str(),
                    ).concat(" - sign-in may not complete.").as_str(),
                );
            },
            HeaderEvent::Line(line) => line,
        };
        if line.as_str().unicode_len() == 0 {
            return stop(
                self.request_line,
                if self.bytes_read >= MAX_HEADER_BYTES {
                    "Warning: OAuth redirect request headers exceeded the read limit and were truncated - sign-in may not complete."
                } else {
                    "Warning: OAuth redirect request ended without a complete set of headers - sign-in may not complete."
                },
            );
        }
        if same(line.as_str(), "\r\n") || same(line.as_str(), "\n") {
            return HeaderStep::Done {
                request_line: self.request_line,
                complete: true,
                warning: None,
            };
        }
        let bytes_read: u64 = self.bytes_read.saturating_add(byte_length(line.as_str()) as u64);
        let request_line = if self.request_line.as_str().unicode_len() == 0 {
            line
        } else {
            self.request_line
        };
        if self.lines >= MAX_HEADER_LINES - 1 {
            return stop(
                request_line,
                "Warning: OAuth redirect request ended without a complete set of headers - sign-in may not complete.",
            );
        }
        HeaderStep::More(HeaderReader { request_line, bytes_read, lines: self.lines + 1 })
    }
}

/// Headers are called complete only where the empty line behind them came, and
/// what is given up says why.
pub proof fn law_incomplete_headers_are_explained(reader: ReaderView, event: HeaderEventView)
    ensures
        match header_step(reader, event) {
            HeaderStepView::Done { complete, warning, .. } => complete == (warning is None) && (
            complete ==> (event == HeaderEventView::Line("\r\n"@) || event
                == HeaderEventView::Line("\n"@))),
            HeaderStepView::More(next) => next.lines == reader.lines + 1 && next.lines
                < MAX_HEADER_LINES,
            HeaderStepView::Read(next, _) => next == reader && event is Ready,
        },
{
}

/// However many lines a request has, none is read beyond the time that there
/// is for all of them.
pub proof fn law_reading_headers_ends(reader: ReaderView, elapsed: u128)
    ensures
        match header_step(reader, HeaderEventView::Ready { elapsed }) {
            HeaderStepView::Read(next, n) => next == reader && n > 0 && elapsed + n
                == HEADER_TIMEOUT_NANOS,
            HeaderStepView::Done { complete, .. } => !complete && elapsed >= HEADER_TIMEOUT_NANOS,
            HeaderStepView::More(_) => false,
        },
{
}

/// A tenant that can stand in a URL: letters, digits, hyphens and dots, not
/// two dots in a row, and a letter or digit at either end.
pub open spec fn tenant_fits(tenant: Seq<char>) -> bool {
    &&& all_in(tenant, CharClass::Tenant)
    &&& !starts_with(tenant, "."@)
    &&& !ends_with(tenant, "."@)
    &&& !has_text(tenant, ".."@)
    &&& !starts_with(tenant, "-"@)
    &&& !ends_with(tenant, "-"@)
}

pub open spec fn tenant_error(tenant: Seq<char>) -> Option<Seq<char>> {
    if tenant.len() > MAX_TENANT_LENGTH {
        Some("MICROSOFT_AUTH_CLI_TENANT is too long (max 253 characters): "@ + quoted(tenant))
    } else if !tenant_fits(tenant) {
        Some(
            "MICROSOFT_AUTH_CLI_TENANT is not a valid Azure tenant identifier (must contain only alphanumerics, hyphens, and dots, and must not start/end with - or ., or contain \"..\"): "@
                + quoted(tenant),
        )
    } else {
        None
    }
}

/// Where a tenant's sign-in is found.
pub struct MicrosoftEndpoints {
    pub authorize: String,
    pub token: String,
    pub device_code: String,
}

pub open spec fn microsoft_url(tenant: Seq<char>, last: Seq<char>) -> Seq<char> {
    "https://login.microsoftonline.com/"@ + tenant + "/oauth2/v2.0/"@ + last
}

/// The endpoints of a tenant, or why there are none. Without a tenant those of
/// all organizations.
pub fn microsoft_endpoints(tenant: Option<String>) -> (r: Result<MicrosoftEndpoints, String>)
    ensures
        ({
            let t = match tenant {
                Some(t) => t@,
                None => "organizations"@,
            };
            match r {
                Ok(e) => tenant_error(t) is None && e.authorize@ == microsoft_url(t, "authorize"@)
                    && e.token@ == microsoft_url(t, "token"@) && e.device_code@ == microsoft_url(
                    t,
                    "devicecode"@,
                ),
                Err(e) => tenant_error(t) == Some(e@),
            }
        }),
{
    let tenant = match tenant {
        Some(t) => t,
        None => "organizations".to_owned(),
    };
    let t = tenant.as_str();
    if t.unicode_len() > MAX_TENANT_LENGTH {
        return Err(
            "MICROSOFT_AUTH_CLI_TENANT is too long (max 253 characters): ".to_owned().concat(
                quoted_text(t).as_str(),
            ),
        );
    }
    if !only(t, CharClass::Tenant) || begins_with(t, ".") || finishes_with(t, ".") || holds_text(
        t,
        "..",
    ) || begins_with(t, "-") || finishes_with(t, "-") {
        return Err(
            "MICROSOFT_AUTH_CLI_TENANT is not a valid Azure tenant identifier (must contain only alphanumerics, hyphens, and dots, and must not start/end with - or ., or contain \"..\"): ".to_owned().concat(
                quoted_text(t).as_str(),
            ),
        );
    }
    let start = "https://login.microsoftonline.com/".to_owned().concat(t).concat("/oauth2/v2.0/");
    Ok(
        MicrosoftEndpoints {
            authorize: start.clone().concat("authorize"),
            token: start.clone().concat("token"),
            device_code: start.concat("devicecode"),
        },
    )
}

/// How long a sign-in is waited for, in seconds: what the provider says, up to
/// a limit.
pub fn poll_seconds(expires_in: u64) -> (r: u64)
    ensures
        r == (if expires_in <= MAX_POLL_SECONDS {
            expires_in
        } else {
            MAX_POLL_SECONDS
        }),
{
    if expires_in <= MAX_POLL_SECONDS {
        expires_in
    } else {
        MAX_POLL_SECONDS
    }
}

/// What tells the user how to sign in: one link where there is one, else the
/// page and the code to enter.
pub fn device_prompt(complete_uri: Option<String>, uri: &str, user_code: &str) -> (r: String)
    ensures
        r@ == (match complete_uri {
            Some(link) => "To sign in, open this link: "@ + link@,
            None => "To sign in, visit "@ + uri@ + " and enter code "@ + user_code@,
        }),
{
    match complete_uri {
        Some(link) => "To sign in, open this link: ".to_owned().concat(link.as_str()),
        None => "To sign in, visit ".to_owned().concat(uri).concat(" and enter code ").concat(
            user_code,
        ),
    }
}

/// Where the browser is sent back to.
pub fn redirect_uri(port: u16) -> (r: String)
    ensures
        r@ == "http://127.0.0.1:"@ + decimal(port as nat),
{
    "http://127.0.0.1:".to_owned().concat(number_text(port as u128).as_str())
}

/// What is said of a token endpoint that redirects.
pub open spec fn redirect_fault(status: u16) -> Option<Seq<char>> {
    if 300 <= status < 400 {
        Some(
            "token/device-code endpoint returned an unexpected redirect (status "@ + decimal(
                status as nat,
            ) + ") instead of a token response"@,
        )
    } else {
        None
    }
}

/// A token endpoint does not redirect: what is said where one does.
pub fn unexpected_redirect(status: u16) -> (r: Option<String>)
    ensures
        opt_text(r) == redirect_fault(status),
{
    if 300 <= status && status < 400 {
        Some(
            "token/device-code endpoint returned an unexpected redirect (status ".to_owned().concat(
                number_text(status as u128).as_str(),
            ).concat(") instead of a token response"),
        )
    } else {
        None
    }
}

/// The providers that one can sign in through.
#[derive(Clone, Copy, Debug, PartialEq, Eq, Structural)]
pub enum SsoProvider {
    Google,
    Microsoft,
}

impl SsoProvider {
    pub open spec fn title(self) -> Seq<char> {
        match self {
            SsoProvider::Google => "Google"@,
            SsoProvider::Microsoft => "Microsoft"@,
        }
    }

    pub open spec fn failure_start(self) -> Seq<char> {
        match self {
            SsoProvider::Google => "Token exchange failed: "@,
            SsoProvider::Microsoft => "Device-code sign-in failed: "@,
        }
    }

    /// The identity that a provider vouched for, or what is said where it did
    /// not.
    pub fn id_token_from(self, exchange: Result<Option<String>, String>) -> (r: Result<
        String,
        String,
    >)
        ensures
            match (exchange, r) {
                (Ok(Some(t)), Ok(x)) => x@ == t@,
                (Ok(None), Err(e)) => e@ == self.title()
                    + " didn't return an id_token - check that the 'openid' scope was granted."@,
                (Err(x), Err(e)) => e@ == self.failure_start() + x@,
                _ => false,
            },
    {
        match exchange {
            Ok(Some(t)) => Ok(t),
            Ok(None) => Err(
                (match self {
                    SsoProvider::Google => "Google",
                    SsoProvider::Microsoft => "Microsoft",
                }).to_owned().concat(
                    " didn't return an id_token - check that the 'openid' scope was granted.",
                ),
            ),
            Err(x) => Err(
                (match self {
                    SsoProvider::Google => "Token exchange failed: ",
                    SsoProvider::Microsoft => "Device-code sign-in failed: ",
                }).to_owned().concat(x.as_str()),
            ),
        }
    }
}

/// Words are what white space separates: the first one ends at the first white
/// space behind it, and what follows begins there.
pub proof fn law_first_word(lead: Seq<char>, word: Seq<char>, rest: Seq<char>)
    requires
        all_in(lead, CharClass::White),
        word.len() > 0,
        forall|i: int| 0 <= i < word.len() ==> !CharClass::White.holds(#[trigger] word[i]),
        rest.len() > 0 ==> CharClass::White.holds(rest[0]),
    ensures
        first_word(lead + word + rest) == word,
        after_first_word(lead + word + rest) == rest,
{
    let s = lead + word + rest;
    lemma_trim_lead(lead, word + rest);
    assert((word + rest)[0] == word[0]);
    assert(lead + (word + rest) =~= s);
    let t = trim_start(s, CharClass::White);
    assert(t == word + rest);
    lemma_first_in(t, CharClass::White);
    let i = first_in(t, CharClass::White);
    if i < word.len() {
        assert(t[i] == word[i]);
    }
    if i > word.len() {
        assert(t[word.len() as int] == rest[0]);
    }
    assert(i == word.len());
    assert(t.take(i) =~= word);
    assert(t.skip(i) =~= rest);
}

proof fn lemma_trim_lead(lead: Seq<char>, rest: Seq<char>)
    requires
        all_in(lead, CharClass::White),
        rest.len() > 0,
        !CharClass::White.holds(rest[0]),
    ensures
        trim_start(lead + rest, CharClass::White) == rest,
    decreases lead.len(),
{
    let s = lead + rest;
    if lead.len() > 0 {
        assert(CharClass::White.holds(lead[0]));
        assert(s[0] == lead[0]);
        assert(s.drop_first() =~= lead.drop_first() + rest);
        assert forall|i: int| 0 <= i < lead.drop_first().len() implies CharClass::White.holds(
            #[trigger] lead.drop_first()[i],
        ) by {
            assert(lead[i + 1] == lead.drop_first()[i]);
        }
        lemma_trim_lead(lead.drop_first(), rest);
    } else {
        assert(s =~= rest);
    }
}

/// The query of a request line is what follows the question mark of its
/// target, up to the version.
pub proof fn law_query_of_a_request(
    method: Seq<char>,
    path: Seq<char>,
    query: Seq<char>,
    version: Seq<char>,
)
    requires
        method.len() > 0,
        forall|i: int| 0 <= i < method.len() ==> !CharClass::White.holds(#[trigger] method[i]),
        forall|i: int| 0 <= i < path.len() ==> !CharClass::White.holds(#[trigger] path[i]),
        forall|i: int| 0 <= i < query.len() ==> !CharClass::White.holds(#[trigger] query[i]),
        !path.contains('?'),
    ensures
        ({
            let line = method + seq![' '] + (path + seq!['?'] + query) + (seq![' '] + version);
            first_word(after_first_word(line)) == path + seq!['?'] + query && query_of(line) == query
        }),
{
    let target = path + seq!['?'] + query;
    let tail = seq![' '] + version;
    let line = method + seq![' '] + target + tail;
    assert forall|i: int| 0 <= i < target.len() implies !CharClass::White.holds(
        #[trigger] target[i],
    ) by {
        if i < path.len() {
            assert(target[i] == path[i]);
        } else if i > path.len() {
            assert(target[i] == query[i - path.len() - 1]);
        }
    }
    assert(line =~= Seq::<char>::empty() + method + (seq![' '] + target + tail));
    law_first_word(Seq::empty(), method, seq![' '] + target + tail);
    law_first_word(seq![' '], target, tail);
    law_split_first(path, '?', query);
}

/// Which characters mislead a terminal, by code point: the control characters,
/// those that turn the direction of the text, the line and paragraph separators,
/// the tags and the annotations.
pub proof fn law_misleading_characters(c: char)
    ensures
        ({
            let n = c as int;
            misleads(c) <==> n < 32 || 127 <= n <= 159 || n == 0x200e || n == 0x200f || 0x202a <= n
                <= 0x202e || 0x2066 <= n <= 0x2069 || n == 0x2028 || n == 0x2029 || 0xe0000 <= n
                <= 0xe007f || 0xfff9 <= n <= 0xfffb
        }),
{
}

/// The value of a parameter is its first one that is not empty.
pub proof fn law_first_value_counts(pairs: PairsView, key: Seq<char>, at: int)
    requires
        0 <= at <= pairs.len(),
        at < pairs.len() ==> pairs[at].0 == key && pairs[at].1.len() > 0,
        forall|i: int|
            0 <= i < at ==> (#[trigger] pairs[i]).0 != key || pairs[i].1.len() == 0,
    ensures
        at < pairs.len() ==> first_value(pairs, key) == pairs[at].1,
        at == pairs.len() ==> first_value(pairs, key).len() == 0,
    decreases pairs.len(),
{
    if pairs.len() > 0 && at > 0 {
        let rest = pairs.drop_first();
        assert(pairs[0].0 != key || pairs[0].1.len() == 0);
        assert forall|i: int| 0 <= i < at - 1 implies (#[trigger] rest[i]).0 != key
            || rest[i].1.len() == 0 by {
            assert(rest[i] == pairs[i + 1]);
        }
        if at < pairs.len() {
            assert(rest[at - 1] == pairs[at]);
        }
        law_first_value_counts(rest, key, at - 1);
    }
}

/// What a browser with the state that was sent out brings: its error, if it has
/// one, and else its code, whole and unchanged.
pub proof fn law_own_browsers_are_heard(pairs: PairsView, expected_state: Seq<char>)
    requires
        first_value(pairs, "state"@) == expected_state,
    ensures
        first_value(pairs, "error"@).len() > 0 ==> judged(pairs, expected_state) is Denied,
        first_value(pairs, "error"@).len() == 0 && first_value(pairs, "code"@).len() > 0 ==> judged(
            pairs,
            expected_state,
        ) == RedirectView::Code(first_value(pairs, "code"@)),
        first_value(pairs, "error"@).len() == 0 && first_value(pairs, "code"@).len() == 0 ==> judged(
            pairs,
            expected_state,
        ) is Spurious,
{
}

/// A refusal is told with the error and its description, cleaned and cut to a
/// length.
pub proof fn law_refusals_are_told(pairs: PairsView, expected_state: Seq<char>)
    requires
        first_value(pairs, "state"@) == expected_state,
        first_value(pairs, "error"@).len() > 0,
    ensures
        ({
            let error = sanitized(clipped(first_value(pairs, "error"@), 512));
            let description = sanitized(clipped(first_value(pairs, "error_description"@), 512));
            &&& description.len() == 0 ==> judged(pairs, expected_state) == RedirectView::Denied(
                "Sign-in was not completed: "@ + error,
            )
            &&& description.len() > 0 ==> judged(pairs, expected_state) == RedirectView::Denied(
                "Sign-in was not completed: "@ + error + " - "@ + description,
            )
        }),
        clipped(first_value(pairs, "error"@), 512).len() <= 512,
        first_value(pairs, "error"@).len() <= 512 ==> clipped(first_value(pairs, "error"@), 512)
            == first_value(pairs, "error"@),
        first_value(pairs, "error"@).len() > 512 ==> clipped(first_value(pairs, "error"@), 512)
            == first_value(pairs, "error"@).take(512),
{
}

/// What follows from a request: one that came in full is judged by its query,
/// and one that was cut off is turned away, whatever it says.
pub proof fn law_requests_are_judged(line: Seq<char>, expected_state: Seq<char>)
    ensures
        redirect_step(
            RedirectEventView::Request { line, complete: false },
            expected_state,
        ) is Wait,
        match judged(form_pairs(query_of(line)), expected_state) {
            RedirectView::Code(c) => redirect_step(
                RedirectEventView::Request { line, complete: true },
                expected_state,
            ) == RedirectStepView::Code(c),
            RedirectView::Denied(m) => redirect_step(
                RedirectEventView::Request { line, complete: true },
                expected_state,
            ) == RedirectStepView::GiveUp(
                Some(
                    "Sign-in was not completed - you can close this window and return to the terminal."@,
                ),
                m,
            ),
            RedirectView::Spurious => redirect_step(
                RedirectEventView::Request { line, complete: true },
                expected_state,
            ) == RedirectStepView::Wait(
                "Waiting for the real sign-in redirect - you can close this window."@,
            ),
        },
{
}

/// What ends the waiting: that its time is over, that connections are no longer
/// accepted, or that one cannot be given a time.
pub proof fn law_waiting_is_given_up(e: Seq<char>, expected_state: Seq<char>, elapsed: u128)
    ensures
        redirect_step(RedirectEventView::TimedOut, expected_state) is GiveUp,
        redirect_step(RedirectEventView::Disconnected, expected_state) is GiveUp,
        redirect_step(RedirectEventView::ReadTimeoutFailed(e), expected_state)
            == RedirectStepView::GiveUp(None, "Could not set read timeout on connection: "@ + e),
        redirect_step(RedirectEventView::WriteTimeoutFailed(e), expected_state)
            == RedirectStepView::GiveUp(None, "Could not set write timeout on connection: "@ + e),
        elapsed < 300_000_000_000 ==> redirect_step(
            RedirectEventView::Ready { elapsed },
            expected_state,
        ) == RedirectStepView::Accept((300_000_000_000 - elapsed) as u64),
        elapsed >= 300_000_000_000 ==> redirect_step(
            RedirectEventView::Ready { elapsed },
            expected_state,
        ) == redirect_step(RedirectEventView::TimedOut, expected_state),
{
}

/// Lines are read one by one: the first is kept, the others are counted, the
/// empty line ends them well, and everything else ends them badly.
pub proof fn law_headers_are_read(reader: ReaderView, line: Seq<char>, e: Seq<char>, elapsed: u128)
    ensures
        line == "\r\n"@ || line == "\n"@ ==> header_step(reader, HeaderEventView::Line(line)) == (
        HeaderStepView::Done { request_line: reader.request_line, complete: true, warning: None }),
        ({
            let step = header_step(reader, HeaderEventView::Line(line));
            let first = if reader.request_line.len() == 0 {
                line
            } else {
                reader.request_line
            };
            line.len() > 0 && line != "\r\n"@ && line != "\n"@ ==> {
                &&& reader.lines < 99 ==> (step matches HeaderStepView::More(next)
                    && next.request_line == first && next.lines == reader.lines + 1 && (
                reader.bytes_read + encode_utf8(line).len() <= u64::MAX ==> next.bytes_read
                    == reader.bytes_read + encode_utf8(line).len()))
                &&& reader.lines >= 99 ==> (step matches HeaderStepView::Done {
                    request_line,
                    complete,
                    ..
                } && request_line == first && !complete)
            }
        }),
        line.len() == 0 ==> (header_step(reader, HeaderEventView::Line(line)) matches
            HeaderStepView::Done { complete, warning, .. } && !complete && (warning == Some(
            "Warning: OAuth redirect request headers exceeded the read limit and were truncated - sign-in may not complete."@,
        ) || reader.bytes_read < 65536)),
        header_step(reader, HeaderEventView::TooSlow) is Done,
        header_step(reader, HeaderEventView::TimeoutFailed) is Done,
        header_step(reader, HeaderEventView::Failed(e)) is Done,
        elapsed < 5_000_000_000 ==> header_step(reader, HeaderEventView::Ready { elapsed })
            == HeaderStepView::Read(reader, (5_000_000_000 - elapsed) as u64),
        elapsed >= 5_000_000_000 ==> header_step(reader, HeaderEventView::Ready { elapsed })
            == header_step(reader, HeaderEventView::TooSlow),
{
    reveal_strlit("\r\n");
    reveal_strlit("\n");
}

/// A message is shown in the browser on one line, with its length.
pub proof fn law_replies(message: Seq<char>, i: int)
    ensures
        response_text(message) == "HTTP/1.1 200 OK\r\nContent-Length: "@ + decimal(
            encode_utf8(one_line_text(message)).len(),
        ) + "\r\nContent-Type: text/plain; charset=utf-8\r\nConnection: close\r\n\r\n"@
            + one_line_text(message),
        one_line_text(message).len() == message.len(),
        0 <= i < message.len() && message[i] != '\r' && message[i] != '\n' && message[i] != '\0'
            ==> one_line_text(message)[i] == message[i],
        0 <= i < message.len() && (message[i] == '\r' || message[i] == '\n' || message[i] == '\0')
            ==> one_line_text(message)[i] == ' ',
{
}

/// Which tenants can be signed in to: names of letters, digits, hyphens and
/// dots that begin and end with a letter or a digit.
pub proof fn law_tenants(tenant: Seq<char>)
    ensures
        tenant_error(tenant) is None ==> tenant.len() <= 253 && forall|i: int|
            0 <= i < tenant.len() ==> CharClass::Tenant.holds(#[trigger] tenant[i]),
        tenant_error(tenant) is None && tenant.len() > 0 ==> tenant[0] != '.' && tenant[0] != '-'
            && tenant.last() != '.' && tenant.last() != '-',
        tenant_error(tenant) is None ==> forall|i: int|
            0 <= i < tenant.len() - 1 ==> !(#[trigger] tenant[i] == '.' && tenant[i + 1] == '.'),
        tenant.len() <= 253 && (forall|i: int|
            0 <= i < tenant.len() ==> CharClass::Tenant.holds(#[trigger] tenant[i]) && tenant[i]
                != '.' && tenant[i] != '-') ==> tenant_error(tenant) is None,
{
    reveal_strlit(".");
    reveal_strlit("-");
    reveal_strlit("..");
    assert("."@ =~= seq!['.']);
    assert("-"@ =~= seq!['-']);
    assert(".."@ =~= seq!['.', '.']);
    let n = tenant.len() as int;
    if n > 0 {
        assert(tenant.take(1) =~= seq![tenant[0]]);
        assert(tenant.skip(n - 1) =~= seq![tenant.last()]);
        assert(seq![tenant[0]][0] == tenant[0]);
        assert(seq![tenant.last()][0] == tenant.last());
    }
    if tenant_error(tenant) is None {
        assert forall|i: int| 0 <= i < n - 1 implies !(#[trigger] tenant[i] == '.' && tenant[i + 1]
            == '.') by {
            if tenant[i] == '.' && tenant[i + 1] == '.' {
                assert(tenant.subrange(i, i + 2) =~= ".."@);
                assert(occurs_at(tenant, ".."@, i));
            }
        }
    }
    if tenant.len() <= 253 && (forall|i: int|
        0 <= i < n ==> CharClass::Tenant.holds(#[trigger] tenant[i]) && tenant[i] != '.' && tenant[i]
            != '-') {
        assert(all_in(tenant, CharClass::Tenant));
        if has_text(tenant, ".."@) {
            let i = choose|i: int| occurs_at(tenant, ".."@, i);
            assert(tenant.subrange(i, i + 2)[0] == tenant[i]);
        }
        if starts_with(tenant, "."@) || starts_with(tenant, "-"@) {
            assert(tenant.take(1)[0] == tenant[0]);
        }
        if ends_with(tenant, "."@) || ends_with(tenant, "-"@) {
            assert(tenant.skip(n - 1)[0] == tenant[n - 1]);
        }
    }
}

/// A redirect of a token endpoint, and nothing else, is a fault.
pub proof fn law_redirects_are_faults(status: u16)
    ensures
        redirect_fault(status) is Some <==> status / 100 == 3,
        asked_scopes() == seq!["openid"@, "email"@, "profile"@],
{
}

} // verus!
