//! Opening and closing playback sessions, and answering the requests of a player.

use vstd::pervasive::*;
use vstd::prelude::*;
use vstd::string::*;
use vstd::utf8::*;

use crate::download::{is_listed, lists, records, DownloadError, DownloadRecord};
use crate::error::CryptoError;
use crate::random::{is_drawn, is_shortage, random_bytes};
use crate::ranges::{
    closed_range_is_exact, open_range_is_exact, other_headers_are_refused, parse_range,
    suffix_range_is_exact, wanted_range, wanted_range_is_inside, ByteRange,
};
use crate::response::{
    announces, content_range, crypto_error_response, crypto_status, error_response, failed,
    failures_are_told, partial_response_names_its_bytes, range_head, range_head_of, unsatisfiable,
    unsatisfiable_response, whole_response_names_its_length, HttpResponse, ResponseHead,
    ResponseView, INTERNAL_SERVER_ERROR, METHOD_NOT_ALLOWED, NOT_FOUND,
};
use crate::routes::{
    hex_text, hex_text_is_lower_case, is_session_id, parse_path, routed, session_id_from_bytes,
    video_path, video_path_is_routed, video_url, PlaybackServer,
};
use crate::sessions::{
    alive_sessions, is_alive, used, PlaybackSession, PlaybackState, SessionView,
    SESSION_IDLE_TTL,
};
use crate::text::decimal;

verus! {

/// A session that was opened: its name, and where its video is.
#[derive(Debug)]
pub struct PlaybackInfo {
    pub session_id: String,
    pub url: String,
}

/// Why a session could not be opened: a code for programs and a message for people.
#[derive(Debug)]
pub struct PlaybackError {
    pub code: String,
    pub message: String,
}

/// A `PlaybackError` as two texts.
pub struct PlaybackErrorView {
    pub code: Seq<char>,
    pub message: Seq<char>,
}

impl View for PlaybackError {
    type V = PlaybackErrorView;

    open spec fn view(&self) -> PlaybackErrorView {
        PlaybackErrorView { code: self.code@, message: self.message@ }
    }
}

/// The error of the given code and message.
pub open spec fn playback_fault(code: Seq<char>, message: Seq<char>) -> PlaybackErrorView {
    PlaybackErrorView { code, message }
}

impl PlaybackError {
    /// The error of the given code and message.
    pub fn new(code: &str, message: &str) -> (error: Self)
        ensures
            error@ == playback_fault(code@, message@),
    {
        PlaybackError { code: code.to_string(), message: message.to_string() }
    }
}

/// Whether a text is the name of a session that was made of random bytes: their hexadecimal
/// notation, in lower case.
pub open spec fn is_fresh_name(name: Seq<char>) -> bool {
    exists|bytes: [u8; 32]| #[trigger] is_drawn(bytes) && name == hex_text(bytes@)
}

/// Whether an error is the one for a session that could not get a name.
pub open spec fn is_name_failure(error: PlaybackErrorView) -> bool {
    error.code == "SESSION_ERROR"@ && is_shortage::<32>(error.message)
}

/// A fresh name can be the name of a session, and all of its letters are in lower case.
pub proof fn fresh_name_is_a_session_id(name: Seq<char>)
    requires
        is_fresh_name(name),
    ensures
        is_session_id(name),
        forall|i: int| 0 <= i < name.len() ==> !('A' <= #[trigger] name[i] <= 'F'),
{
    let bytes = choose|bytes: [u8; 32]| #[trigger] is_drawn(bytes) && name == hex_text(bytes@);
    hex_text_is_lower_case(bytes@);
}

/// A fresh name for a session.
pub fn session_id() -> (outcome: Result<String, PlaybackError>)
    ensures
        match outcome {
            Ok(id) => is_fresh_name(id@),
            Err(error) => is_name_failure(error@),
        },
{
    match random_bytes::<32>() {
        Ok(bytes) => Ok(session_id_from_bytes(&bytes)),
        Err(error) => Err(PlaybackError::new("SESSION_ERROR", error.message.as_str())),
    }
}

/// Whether a video can be played, given the index of the downloads.
pub fn find_download(index: Result<Vec<DownloadRecord>, DownloadError>, video_id: &str) -> (outcome:
    Result<(), PlaybackError>)
    ensures
        match index {
            Ok(downloads) => if is_listed(records(downloads@), video_id@) {
                outcome is Ok
            } else {
                outcome matches Err(error) && error@ == playback_fault(
                    "NOT_FOUND"@,
                    "找不到這支已加密的離線影片"@,
                )
            },
            Err(reason) => outcome matches Err(error) && error@ == playback_fault(
                reason@.code,
                reason@.message,
            ),
        },
{
    match index {
        Ok(downloads) => {
            if lists(&downloads, video_id) {
                Ok(())
            } else {
                Err(PlaybackError::new("NOT_FOUND", "找不到這支已加密的離線影片"))
            }
        },
        Err(reason) => Err(PlaybackError::new(reason.code.as_str(), reason.message.as_str())),
    }
}

/// A video that was opened: its size, and what its owner needs to read it.
pub struct OpenedVideo<H> {
    pub original_size: u64,
    pub handle: H,
}

/// A session that was just opened.
pub open spec fn opened_session<H>(
    video_id: Seq<char>,
    video: OpenedVideo<H>,
    now: u128,
) -> SessionView<H> {
    SessionView {
        video_id,
        original_size: video.original_size,
        last_access: now,
        handle: video.handle,
    }
}

/// The error for a video that could not be opened.
pub fn key_error(error: &CryptoError) -> (reason: PlaybackError)
    ensures
        reason@ == playback_fault("PLAYBACK_KEY_ERROR"@, error@.message),
{
    PlaybackError::new("PLAYBACK_KEY_ERROR", error.message.as_str())
}

/// The error for sessions that cannot be used any more.
pub fn session_state_error() -> (error: PlaybackError)
    ensures
        error@ == playback_fault("SESSION_ERROR"@, "播放工作階段狀態無法使用"@),
{
    PlaybackError::new("SESSION_ERROR", "播放工作階段狀態無法使用")
}

/// Opens a session of the given name for a video that was opened.
pub fn open_session<H>(
    state: &mut PlaybackState<H>,
    server: &PlaybackServer,
    session_id: String,
    video_id: &str,
    video: OpenedVideo<H>,
    now: u128,
) -> (info: PlaybackInfo)
    ensures
        info.session_id@ == session_id@,
        info.url@ == video_url(server.port, session_id@),
        final(state)@ == old(state)@.insert(session_id@, opened_session(video_id@, video, now)),
{
    let url = server.url_for(session_id.as_str());
    let name = session_id.clone();
    state.insert(
        session_id,
        PlaybackSession {
            video_id: video_id.to_string(),
            original_size: video.original_size,
            last_access: now,
            handle: video.handle,
        },
    );
    PlaybackInfo { session_id: name, url }
}

/// Opens a session of a fresh name for a video, with what came of opening the video.
pub fn open_playback<H>(
    state: &mut PlaybackState<H>,
    server: &PlaybackServer,
    video_id: &str,
    opened: Result<OpenedVideo<H>, CryptoError>,
    now: u128,
) -> (outcome: Result<PlaybackInfo, PlaybackError>)
    ensures
        match outcome {
            Ok(info) => {
                &&& opened matches Ok(video) && final(state)@ == old(state)@.insert(
                    info.session_id@,
                    opened_session(video_id@, video, now),
                )
                &&& is_fresh_name(info.session_id@)
                &&& is_session_id(info.session_id@)
                &&& info.url@ == video_url(server.port, info.session_id@)
            },
            Err(error) => {
                &&& final(state)@ == old(state)@
                &&& match opened {
                    Err(reason) => error@ == playback_fault(
                        "PLAYBACK_KEY_ERROR"@,
                        reason@.message,
                    ),
                    Ok(_) => is_name_failure(error@),
                }
            },
        },
{
    match opened {
        Ok(video) => match session_id() {
            Ok(name) => {
                proof {
                    fresh_name_is_a_session_id(name@);
                }
                Ok(open_session(state, server, name, video_id, video, now))
            },
            Err(error) => Err(error),
        },
        Err(error) => Err(key_error(&error)),
    }
}

/// Closes a session, and says whether it was open.
pub fn close_playback<H>(state: &mut PlaybackState<H>, session_id: &str) -> (removed: bool)
    ensures
        removed == old(state)@.contains_key(session_id@),
        final(state)@ == old(state)@.remove(session_id@),
{
    state.remove(session_id)
}

/// The method of a request, as far as it matters.
#[derive(Debug, Clone, Copy, PartialEq, Eq, Structural)]
pub enum RequestMethod {
    Get,
    Head,
    Other,
}

/// A request of a player.
pub struct PlaybackRequest {
    pub method: RequestMethod,
    /// The path of its address.
    pub path: String,
    /// Its range header, if it has one that is a text.
    pub range: Option<String>,
}

/// A `PlaybackRequest` with its texts as sequences.
pub struct RequestView {
    pub method: RequestMethod,
    pub path: Seq<char>,
    pub range: Option<Seq<char>>,
}

impl View for PlaybackRequest {
    type V = RequestView;

    open spec fn view(&self) -> RequestView {
        RequestView {
            method: self.method,
            path: self.path@,
            range: match self.range {
                None => None,
                Some(range) => Some(range@),
            },
        }
    }
}

/// What a request is answered with.
pub enum Reply<H> {
    /// This response.
    Respond(HttpResponse),
    /// A response with this head and this range of the video, once its first chunk could be
    /// decrypted.
    Stream { handle: H, range: ByteRange, head: ResponseHead },
}

/// The response to a request that names no session.
pub open spec fn no_session() -> ResponseView {
    failed(NOT_FOUND, "播放工作階段不存在"@)
}

/// The session that a request is for, or why it is for none.
pub open spec fn addressed(request: RequestView) -> Result<Seq<char>, ResponseView> {
    if request.method is Other {
        Err(failed(METHOD_NOT_ALLOWED, "只支援 GET 或 HEAD"@))
    } else {
        match routed(request.path) {
            None => Err(no_session()),
            Some(session_id) => Ok(session_id),
        }
    }
}

/// Whether a reply is the one to a request in a session.
pub open spec fn answers<H: Clone>(
    reply: Reply<H>,
    request: RequestView,
    session: SessionView<H>,
) -> bool {
    match wanted_range(request.range, session.original_size) {
        None => reply matches Reply::Respond(response) && response@ == unsatisfiable(
            session.original_size,
        ),
        Some(range) => {
            let head = range_head_of(range, session.original_size);
            match request.method {
                RequestMethod::Head => reply matches Reply::Respond(response) && response@ == (
                ResponseView { head, body: Seq::empty() }),
                _ => reply matches Reply::Stream { handle, range: sent, head: sent_head } && {
                    &&& cloned(session.handle, handle)
                    &&& sent == range
                    &&& sent_head@ == head
                },
            }
        },
    }
}

/// The session that a request is for, or the response where it is for none.
pub fn find_session(request: &PlaybackRequest) -> (outcome: Result<String, HttpResponse>)
    ensures
        match outcome {
            Ok(session_id) => addressed(request@) == Ok::<Seq<char>, ResponseView>(session_id@),
            Err(response) => addressed(request@) == Err::<Seq<char>, ResponseView>(response@),
        },
{
    match request.method {
        RequestMethod::Other => {
            return Err(error_response(METHOD_NOT_ALLOWED, "只支援 GET 或 HEAD"));
        },
        _ => {},
    }
    match parse_path(request.path.as_str()) {
        Some(session_id) => Ok(session_id),
        None => Err(error_response(NOT_FOUND, "播放工作階段不存在")),
    }
}

/// The reply to a request in a session.
fn answer<H: Clone>(request: &PlaybackRequest, session: &PlaybackSession<H>) -> (reply: Reply<H>)
    ensures
        answers(reply, request@, session@),
{
    let header = match &request.range {
        Some(range) => Some(range.as_str()),
        None => None,
    };
    proof {
        wanted_range_is_inside(request@.range, session@.original_size);
    }
    let range = match parse_range(header, session.original_size) {
        Ok(range) => range,
        Err(()) => {
            return Reply::Respond(unsatisfiable_response(session.original_size));
        },
    };
    let head = range_head(range, session.original_size);
    match request.method {
        RequestMethod::Head => Reply::Respond(HttpResponse { head, body: Vec::new() }),
        _ => Reply::Stream { handle: session.handle.clone(), range, head },
    }
}

/// The reply to a request. A request in a session keeps the session from becoming idle.
pub fn handle_request<H: Clone>(
    state: &mut PlaybackState<H>,
    request: &PlaybackRequest,
    now: u128,
) -> (reply: Reply<H>)
    ensures
        match addressed(request@) {
            Err(response) => {
                &&& reply matches Reply::Respond(sent) && sent@ == response
                &&& final(state)@ == old(state)@
            },
            Ok(session_id) => if old(state)@.contains_key(session_id) {
                let session = used(old(state)@[session_id], now);
                &&& answers(reply, request@, session)
                &&& final(state)@ == old(state)@.insert(session_id, session)
            } else {
                &&& reply matches Reply::Respond(sent) && sent@ == no_session()
                &&& final(state)@ == old(state)@
            },
        },
{
    let session_id = match find_session(request) {
        Ok(session_id) => session_id,
        Err(response) => {
            return Reply::Respond(response);
        },
    };
    match state.session(session_id.as_str(), now) {
        Some(session) => answer(request, session),
        None => Reply::Respond(error_response(NOT_FOUND, "播放工作階段不存在")),
    }
}

/// The response to a request while the sessions cannot be used.
pub fn handle_without_state(request: &PlaybackRequest) -> (response: HttpResponse)
    ensures
        response@ == match addressed(request@) {
            Err(response) => response,
            Ok(_) => failed(INTERNAL_SERVER_ERROR, "播放工作階段狀態無法使用"@),
        },
{
    match find_session(request) {
        Ok(_) => error_response(INTERNAL_SERVER_ERROR, "播放工作階段狀態無法使用"),
        Err(response) => response,
    }
}

/// The head of the response with a range of a video, with what came of decrypting its first
/// chunk; or the response, where that failed.
pub fn response_for_range(head: ResponseHead, failure: Option<CryptoError>) -> (outcome: Result<
    ResponseHead,
    HttpResponse,
>)
    ensures
        match failure {
            None => outcome == Ok::<ResponseHead, HttpResponse>(head),
            Some(error) => outcome matches Err(response) && response@ == failed(
                crypto_status(error.kind).0,
                crypto_status(error.kind).1,
            ),
        },
{
    match failure {
        None => Ok(head),
        Some(error) => Err(crypto_error_response(&error)),
    }
}

/// The response where nothing could be started that sends the video.
pub fn stream_failure() -> (response: HttpResponse)
    ensures
        response@ == failed(INTERNAL_SERVER_ERROR, "stream thread failed"@),
{
    error_response(INTERNAL_SERVER_ERROR, "stream thread failed")
}

/// A session that was opened is the one that its address leads to, until it is closed.
pub proof fn opened_session_is_addressed<H>(
    sessions: Map<Seq<char>, SessionView<H>>,
    session_id: Seq<char>,
    session: SessionView<H>,
    request: RequestView,
)
    requires
        is_session_id(session_id),
        request.path == video_path(session_id),
        !(request.method is Other),
    ensures
        addressed(request) == Ok::<Seq<char>, ResponseView>(session_id),
        sessions.insert(session_id, session).contains_key(session_id),
        sessions.insert(session_id, session)[session_id] == session,
        !sessions.insert(session_id, session).remove(session_id).contains_key(session_id),
{
    video_path_is_routed(session_id);
}

/// A session that is used stays open until it has been idle for the whole time, and does not
/// survive it.
pub proof fn idle_sessions_are_closed<H>(
    sessions: Map<Seq<char>, SessionView<H>>,
    session_id: Seq<char>,
    used_at: u128,
    now: u128,
)
    requires
        sessions.contains_key(session_id),
    ensures
        ({
            let session = used(sessions[session_id], used_at);
            let after = alive_sessions(sessions.insert(session_id, session), now);
            &&& after.contains_key(session_id) <==> now < used_at + SESSION_IDLE_TTL
            &&& after.contains_key(session_id) ==> after[session_id] == session
        }),
{
}

/// Closing idle sessions leaves the others as they are.
pub proof fn cleanup_leaves_the_others<H>(
    sessions: Map<Seq<char>, SessionView<H>>,
    session_id: Seq<char>,
    now: u128,
)
    requires
        sessions.contains_key(session_id),
        is_alive(sessions[session_id], now),
    ensures
        alive_sessions(sessions, now).contains_key(session_id),
        alive_sessions(sessions, now)[session_id] == sessions[session_id],
{
}

/// A player that seeks to a byte of the video is sent the video from that byte on, with headers
/// that say so.
pub proof fn seeking_is_answered<H: Clone>(
    reply: Reply<H>,
    request: RequestView,
    session: SessionView<H>,
    first: u64,
)
    requires
        first < session.original_size,
        request.method is Get,
        request.range == Some("bytes="@ + decimal(first as nat) + "-"@),
        answers(reply, request, session),
    ensures
        reply matches Reply::Stream { handle, range, head } && {
            &&& cloned(session.handle, handle)
            &&& range.start == first
            &&& range.end == session.original_size
            &&& head@.status == 206
            &&& announces(
                head@,
                "content-range"@,
                content_range(
                    first as nat,
                    (session.original_size - 1) as nat,
                    session.original_size as nat,
                ),
            )
            &&& announces(
                head@,
                "content-length"@,
                decimal((session.original_size - first) as nat),
            )
        },
{
    open_range_is_exact(first, session.original_size);
    let range = ByteRange { start: first, end: session.original_size, partial: true };
    partial_response_names_its_bytes(range, session.original_size);
}

/// A player that asks for the whole video is sent the whole video.
pub proof fn whole_video_is_answered<H: Clone>(
    reply: Reply<H>,
    request: RequestView,
    session: SessionView<H>,
)
    requires
        session.original_size > 0,
        request.method is Get,
        request.range is None,
        answers(reply, request, session),
    ensures
        reply matches Reply::Stream { handle, range, head } && {
            &&& cloned(session.handle, handle)
            &&& range.start == 0
            &&& range.end == session.original_size
            &&& head@.status == 200
            &&& announces(head@, "content-length"@, decimal(session.original_size as nat))
        },
{
    other_headers_are_refused(Seq::empty(), session.original_size);
    whole_response_names_its_length(session.original_size);
}

/// A player that asks for the head only gets the head that it would get with the video, and
/// nothing else; where the video cannot be sent, it gets the same refusal.
pub proof fn head_is_that_of_the_video<H: Clone>(
    with_video: Reply<H>,
    head_only: Reply<H>,
    request: RequestView,
    session: SessionView<H>,
)
    requires
        request.method is Get,
        answers(with_video, request, session),
        answers(head_only, RequestView { method: RequestMethod::Head, ..request }, session),
    ensures
        head_only matches Reply::Respond(response) && match with_video {
            Reply::Stream { head, .. } => response@.head == head@ && response@.body.len() == 0,
            Reply::Respond(refusal) => response@ == refusal@ && refusal@.head.status == 416,
        },
{
}

/// A request that is neither for the video nor for its head, or whose path is not that of a
/// video, is refused whatever sessions are open.
pub proof fn other_requests_are_refused(request: RequestView)
    ensures
        request.method is Other ==> (addressed(request) matches Err(response)
            && response.head.status == 405),
        !(request.method is Other) && routed(request.path) is None ==> (addressed(
            request,
        ) matches Err(response) && response.head.status == 404 && response == no_session()),
        addressed(request) matches Ok(session_id) ==> routed(request.path) == Some(session_id),
        !(request.method is Other) ==> (routed(request.path) matches Some(session_id) ==> addressed(
            request,
        ) == Ok::<Seq<char>, ResponseView>(session_id)),
        addressed(request) matches Err(response) ==> response.body == encode_utf8(
            if request.method is Other {
                "只支援 GET 或 HEAD"@
            } else {
                "播放工作階段不存在"@
            },
        ),
{
}

/// A session that was opened plays the video that it was opened for, at the time at which it was
/// opened; and its use changes nothing but the time.
pub proof fn session_is_of_its_video<H>(
    video_id: Seq<char>,
    video: OpenedVideo<H>,
    opened_at: u128,
    used_at: u128,
)
    ensures
        ({
            let session = opened_session(video_id, video, opened_at);
            let later = used(session, used_at);
            &&& session.video_id == video_id && later.video_id == video_id
            &&& session.original_size == video.original_size == later.original_size
            &&& session.handle == video.handle && later.handle == video.handle
            &&& session.last_access == opened_at
            &&& later.last_access == used_at
        }),
{
}

/// A player that asks for the bytes from one to another is sent those of them that the video has,
/// with headers that say so.
pub proof fn closed_range_is_answered<H: Clone>(
    reply: Reply<H>,
    request: RequestView,
    session: SessionView<H>,
    first: u64,
    last: u64,
)
    requires
        first < session.original_size,
        first <= last,
        request.method is Get,
        request.range == Some("bytes="@ + decimal(first as nat) + "-"@ + decimal(last as nat)),
        answers(reply, request, session),
    ensures
        reply matches Reply::Stream { handle, range, head } && {
            let end = if last < session.original_size {
                last + 1
            } else {
                session.original_size as int
            };
            &&& cloned(session.handle, handle)
            &&& range.start == first
            &&& range.end == end
            &&& head@.status == 206
            &&& announces(
                head@,
                "content-range"@,
                content_range(first as nat, (end - 1) as nat, session.original_size as nat),
            )
            &&& announces(head@, "content-length"@, decimal((end - first) as nat))
        },
{
    closed_range_is_exact(first, last, session.original_size);
    let range = wanted_range(request.range, session.original_size)->0;
    partial_response_names_its_bytes(range, session.original_size);
}

/// A player that asks for the last bytes is sent that many from the end of the video, or all of
/// it, with headers that say so.
pub proof fn suffix_range_is_answered<H: Clone>(
    reply: Reply<H>,
    request: RequestView,
    session: SessionView<H>,
    count: u64,
)
    requires
        0 < session.original_size,
        0 < count,
        request.method is Get,
        request.range == Some("bytes=-"@ + decimal(count as nat)),
        answers(reply, request, session),
    ensures
        reply matches Reply::Stream { handle, range, head } && {
            let start = if count < session.original_size {
                session.original_size - count
            } else {
                0
            };
            &&& cloned(session.handle, handle)
            &&& range.start == start
            &&& range.end == session.original_size
            &&& head@.status == 206
            &&& announces(
                head@,
                "content-range"@,
                content_range(
                    start as nat,
                    (session.original_size - 1) as nat,
                    session.original_size as nat,
                ),
            )
            &&& announces(
                head@,
                "content-length"@,
                decimal((session.original_size - start) as nat),
            )
        },
{
    suffix_range_is_exact(count, session.original_size);
    let range = wanted_range(request.range, session.original_size)->0;
    partial_response_names_its_bytes(range, session.original_size);
}

/// A player that asks for a byte that the video does not have is told so, with the size of the
/// video, and is sent nothing of it.
pub proof fn bytes_past_the_end_are_refused<H: Clone>(
    reply: Reply<H>,
    request: RequestView,
    session: SessionView<H>,
    first: u64,
)
    requires
        first >= session.original_size,
        !(request.method is Other),
        request.range == Some("bytes="@ + decimal(first as nat) + "-"@),
        answers(reply, request, session),
    ensures
        reply matches Reply::Respond(response) && {
            &&& response@.head.status == 416
            &&& response@.body.len() == 0
            &&& announces(
                response@.head,
                "content-range"@,
                "bytes */"@ + decimal(session.original_size as nat),
            )
        },
{
    open_range_is_exact(first, session.original_size);
    failures_are_told(416, Seq::empty(), session.original_size);
}

/// A player that asks for a video without bytes, or with a header that is not one of bytes, is
/// told that there is no such range.
pub proof fn other_ranges_are_refused<H: Clone>(
    reply: Reply<H>,
    request: RequestView,
    session: SessionView<H>,
)
    requires
        !(request.method is Other),
        session.original_size == 0 || (request.range matches Some(value)
            && !"bytes="@.is_prefix_of(value)),
        answers(reply, request, session),
    ensures
        reply matches Reply::Respond(response) && response@.head.status == 416
            && response@.body.len() == 0,
{
    wanted_range_is_inside(request.range, session.original_size);
    if let Some(value) = request.range {
        other_headers_are_refused(value, session.original_size);
    }
    failures_are_told(416, Seq::empty(), session.original_size);
}

} // verus!
