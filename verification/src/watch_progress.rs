//! How far each video was watched, and the synchronisation of that with a server.

use chrono::Utc;
use vstd::prelude::*;
use vstd::string::*;

use crate::text::same_text;
use crate::video_id::{is_video_id, valid_video_id};

verus! {

/// The version of the file that holds the progress.
pub const WATCH_PROGRESS_VERSION: u8 = 1;

/// A number of seconds, as the bits of a 64-bit floating-point number of IEEE 754.
#[derive(Debug, Clone, Copy, PartialEq, Eq, Structural)]
pub struct Seconds {
    pub bits: u64,
}

/// The bit that holds the sign of a floating-point number.
pub const SIGN_BIT: u64 = 0x8000_0000_0000_0000;

/// The magnitude from which on a floating-point number is not finite.
pub const INFINITY_BITS: u64 = 0x7ff0_0000_0000_0000;

impl Seconds {
    /// The bits without the sign. The magnitudes of finite numbers are in the order of the
    /// numbers' absolute values.
    pub open spec fn magnitude(self) -> u64 {
        self.bits % SIGN_BIT
    }

    /// Whether the sign is set.
    pub open spec fn has_sign(self) -> bool {
        self.bits >= SIGN_BIT
    }

    /// Whether it is neither infinite nor no number at all.
    pub open spec fn is_finite(self) -> bool {
        self.magnitude() < INFINITY_BITS
    }

    /// Whether a finite number is less than zero.
    pub open spec fn is_negative(self) -> bool {
        self.has_sign() && self.magnitude() > 0
    }

    /// Whether a finite number is greater than zero.
    pub open spec fn is_positive(self) -> bool {
        !self.has_sign() && self.magnitude() > 0
    }
}

/// Whether a change has been sent to the server.
#[derive(Debug, Clone, Copy, PartialEq, Eq, Structural)]
pub enum SyncState {
    Pending,
    Synced,
}

/// How far a video was watched.
#[derive(Debug)]
pub struct WatchProgressRecord {
    pub video_id: String,
    pub position_seconds: Seconds,
    pub duration_seconds: Seconds,
    pub completed: bool,
    pub updated_at: String,
    pub sync_state: SyncState,
    pub last_synced_at: Option<String>,
}

/// A `WatchProgressRecord` with its texts as sequences.
#[verifier::ext_equal]
pub struct ProgressView {
    pub video_id: Seq<char>,
    pub position_seconds: Seconds,
    pub duration_seconds: Seconds,
    pub completed: bool,
    pub updated_at: Seq<char>,
    pub sync_state: SyncState,
    pub last_synced_at: Option<Seq<char>>,
}

impl View for WatchProgressRecord {
    type V = ProgressView;

    open spec fn view(&self) -> ProgressView {
        ProgressView {
            video_id: self.video_id@,
            position_seconds: self.position_seconds,
            duration_seconds: self.duration_seconds,
            completed: self.completed,
            updated_at: self.updated_at@,
            sync_state: self.sync_state,
            last_synced_at: match self.last_synced_at {
                None => None,
                Some(at) => Some(at@),
            },
        }
    }
}

impl Clone for WatchProgressRecord {
    fn clone(&self) -> (copy: Self)
        ensures
            copy@ == self@,
    {
        WatchProgressRecord {
            video_id: self.video_id.clone(),
            position_seconds: self.position_seconds,
            duration_seconds: self.duration_seconds,
            completed: self.completed,
            updated_at: self.updated_at.clone(),
            sync_state: self.sync_state,
            last_synced_at: match &self.last_synced_at {
                None => None,
                Some(at) => Some(at.clone()),
            },
        }
    }
}

/// How far a video was watched just now.
#[derive(Debug)]
pub struct SaveWatchProgressRequest {
    pub video_id: String,
    pub position_seconds: Seconds,
    pub duration_seconds: Seconds,
    pub completed: bool,
}

/// A `SaveWatchProgressRequest` with its text as a sequence.
pub struct SaveView {
    pub video_id: Seq<char>,
    pub position_seconds: Seconds,
    pub duration_seconds: Seconds,
    pub completed: bool,
}

impl View for SaveWatchProgressRequest {
    type V = SaveView;

    open spec fn view(&self) -> SaveView {
        SaveView {
            video_id: self.video_id@,
            position_seconds: self.position_seconds,
            duration_seconds: self.duration_seconds,
            completed: self.completed,
        }
    }
}

/// A change that was sent to the server: the video, and when its progress was changed.
#[derive(Debug)]
pub struct WatchProgressSyncToken {
    pub video_id: String,
    pub updated_at: String,
}

/// A `WatchProgressSyncToken` as two texts.
pub struct TokenView {
    pub video_id: Seq<char>,
    pub updated_at: Seq<char>,
}

impl View for WatchProgressSyncToken {
    type V = TokenView;

    open spec fn view(&self) -> TokenView {
        TokenView { video_id: self.video_id@, updated_at: self.updated_at@ }
    }
}

/// What the server answered: its records, and the changes that it was sent before.
#[derive(Debug)]
pub struct ApplyRemoteProgressRequest {
    pub records: Vec<WatchProgressRecord>,
    pub sent: Vec<WatchProgressSyncToken>,
}

/// Why something about the progress failed: a code for programs and a message for people.
#[derive(Debug)]
pub struct WatchProgressError {
    pub code: String,
    pub message: String,
}

/// A `WatchProgressError` as two texts.
pub struct ProgressErrorView {
    pub code: Seq<char>,
    pub message: Seq<char>,
}

impl View for WatchProgressError {
    type V = ProgressErrorView;

    open spec fn view(&self) -> ProgressErrorView {
        ProgressErrorView { code: self.code@, message: self.message@ }
    }
}

/// The error of the given code and message.
pub open spec fn progress_fault(code: Seq<char>, message: Seq<char>) -> ProgressErrorView {
    ProgressErrorView { code, message }
}

/// The error for a text that is not the name of a video.
pub open spec fn invalid_id() -> ProgressErrorView {
    progress_fault("INVALID_VIDEO_ID"@, "影片 ID 格式不正確"@)
}

/// The error for a progress that cannot be.
pub open spec fn invalid_progress() -> ProgressErrorView {
    progress_fault("INVALID_PROGRESS"@, "影片播放進度格式不正確"@)
}

/// The progress of all videos as mathematical values.
pub open spec fn progress_of(progress: Seq<WatchProgressRecord>) -> Seq<ProgressView> {
    progress.map_values(|record: WatchProgressRecord| record@)
}

/// Changes as mathematical values.
pub open spec fn tokens_of(tokens: Seq<WatchProgressSyncToken>) -> Seq<TokenView> {
    tokens.map_values(|token: WatchProgressSyncToken| token@)
}

/// An outcome as a mathematical value.
pub open spec fn seen_progress(
    outcome: Result<Vec<WatchProgressRecord>, WatchProgressError>,
) -> Result<Seq<ProgressView>, ProgressErrorView> {
    match outcome {
        Ok(progress) => Ok(progress_of(progress@)),
        Err(error) => Err(error@),
    }
}

/// The progress of all videos but one.
pub open spec fn progress_without(progress: Seq<ProgressView>, video_id: Seq<char>) -> Seq<
    ProgressView,
> {
    progress.filter(|record: ProgressView| record.video_id != video_id)
}

/// The progress of all videos, with a record in place of any other of the same video.
pub open spec fn progress_with(progress: Seq<ProgressView>, record: ProgressView) -> Seq<
    ProgressView,
> {
    progress_without(progress, record.video_id).push(record)
}

/// The progress of a video: the first record of it.
pub open spec fn progress_for(progress: Seq<ProgressView>, video_id: Seq<char>) -> Option<
    ProgressView,
>
    decreases progress.len(),
{
    if progress.len() == 0 {
        None
    } else if progress[0].video_id == video_id {
        Some(progress[0])
    } else {
        progress_for(progress.drop_first(), video_id)
    }
}

/// When the change of a video was made that was sent: what the last token of it says.
pub open spec fn sent_at(tokens: Seq<TokenView>, video_id: Seq<char>) -> Option<Seq<char>>
    decreases tokens.len(),
{
    if tokens.len() == 0 {
        None
    } else if tokens.last().video_id == video_id {
        Some(tokens.last().updated_at)
    } else {
        sent_at(tokens.drop_last(), video_id)
    }
}

/// Whether a record is as it was sent.
pub open spec fn was_sent(record: ProgressView, tokens: Seq<TokenView>) -> bool {
    sent_at(tokens, record.video_id) == Some(record.updated_at)
}

/// A record that agrees with the server.
pub open spec fn synced(record: ProgressView, at: Seq<char>) -> ProgressView {
    ProgressView { sync_state: SyncState::Synced, last_synced_at: Some(at), ..record }
}

/// The progress of all videos, where the records that are as they were sent are marked.
pub open spec fn marked(
    progress: Seq<ProgressView>,
    tokens: Seq<TokenView>,
    at: Seq<char>,
) -> Seq<ProgressView> {
    progress.map_values(
        |record: ProgressView|
            if was_sent(record, tokens) {
                synced(record, at)
            } else {
                record
            },
    )
}

/// Whether the server's record of a video is to replace what is known here.
pub open spec fn can_replace(
    progress: Seq<ProgressView>,
    video_id: Seq<char>,
    sent: Seq<TokenView>,
) -> bool {
    match progress_for(progress, video_id) {
        None => true,
        Some(record) => was_sent(record, sent),
    }
}

/// The progress of all videos after the records of the server were taken over, where nothing
/// was changed here since.
pub open spec fn applied(
    progress: Seq<ProgressView>,
    remote: Seq<ProgressView>,
    sent: Seq<TokenView>,
    at: Seq<char>,
) -> Result<Seq<ProgressView>, ProgressErrorView>
    decreases remote.len(),
{
    if remote.len() == 0 {
        Ok(progress)
    } else {
        let record = remote.last();
        match applied(progress, remote.drop_last(), sent, at) {
            Err(error) => Err(error),
            Ok(progress) => if !is_video_id(record.video_id) {
                Err(invalid_id())
            } else if can_replace(progress, record.video_id, sent) {
                Ok(progress_with(progress, synced(record, at)))
            } else {
                Ok(progress)
            },
        }
    }
}

/// Whether a progress can be: two finite numbers, a position that is not negative, and a
/// duration.
pub open spec fn is_progress(request: SaveView) -> bool {
    &&& request.position_seconds.is_finite()
    &&& request.duration_seconds.is_finite()
    &&& !request.position_seconds.is_negative()
    &&& request.duration_seconds.is_positive()
}

/// The position that is saved: the end, where the video was completed or the position is past
/// it.
pub open spec fn saved_position(request: SaveView) -> Seconds {
    let position = request.position_seconds.magnitude();
    let duration = request.duration_seconds.magnitude();
    if request.completed || position >= duration {
        request.duration_seconds
    } else {
        Seconds { bits: position }
    }
}

/// What comes of saving a progress: the record, or why there is none.
pub open spec fn saved(request: SaveView, at: Seq<char>) -> Result<
    ProgressView,
    ProgressErrorView,
> {
    if !is_video_id(request.video_id) {
        Err(invalid_id())
    } else if !is_progress(request) {
        Err(invalid_progress())
    } else {
        Ok(
            ProgressView {
                video_id: request.video_id,
                position_seconds: saved_position(request),
                duration_seconds: request.duration_seconds,
                completed: request.completed,
                updated_at: at,
                sync_state: SyncState::Pending,
                last_synced_at: None,
            },
        )
    }
}

/// Whether an outcome is that of saving a progress at the given time.
pub open spec fn saves(
    request: SaveView,
    at: Seq<char>,
    index: Result<Seq<ProgressView>, ProgressErrorView>,
    outcome: Result<(WatchProgressRecord, Vec<WatchProgressRecord>), WatchProgressError>,
) -> bool {
    match (saved(request, at), index) {
        (Err(error), _) => outcome matches Err(reason) && reason@ == error,
        (Ok(_), Err(error)) => outcome matches Err(reason) && reason@ == error,
        (Ok(record), Ok(progress)) => outcome matches Ok((new, all)) && new@ == record
            && progress_of(all@) == progress_with(progress, record),
    }
}

/// What comes of marking the records that are as they were sent.
pub open spec fn marking(
    tokens: Seq<TokenView>,
    at: Seq<char>,
    index: Result<Seq<ProgressView>, ProgressErrorView>,
) -> Result<Seq<ProgressView>, ProgressErrorView> {
    match index {
        Err(error) => Err(error),
        Ok(progress) => Ok(marked(progress, tokens, at)),
    }
}

/// What comes of taking over the records of the server.
pub open spec fn applying(
    remote: Seq<ProgressView>,
    sent: Seq<TokenView>,
    at: Seq<char>,
    index: Result<Seq<ProgressView>, ProgressErrorView>,
) -> Result<Seq<ProgressView>, ProgressErrorView> {
    match index {
        Err(error) => Err(error),
        Ok(progress) => applied(progress, remote, sent, at),
    }
}

impl WatchProgressError {
    /// The error of the given code and message.
    pub fn new(code: &str, message: &str) -> (error: Self)
        ensures
            error@ == progress_fault(code@, message@),
    {
        WatchProgressError { code: code.to_string(), message: message.to_string() }
    }
}

/// Checks the name of a video.
pub fn validate_video_id(video_id: &str) -> (outcome: Result<(), WatchProgressError>)
    ensures
        match outcome {
            Ok(()) => is_video_id(video_id@),
            Err(error) => !is_video_id(video_id@) && error@ == invalid_id(),
        },
{
    if valid_video_id(video_id) {
        Ok(())
    } else {
        Err(WatchProgressError::new("INVALID_VIDEO_ID", "影片 ID 格式不正確"))
    }
}

/// The progress that a file of the given version holds, if the version is the one that is
/// understood.
pub fn load_index(version: u8, progress: Vec<WatchProgressRecord>) -> (outcome: Result<
    Vec<WatchProgressRecord>,
    WatchProgressError,
>)
    ensures
        match outcome {
            Ok(loaded) => version == WATCH_PROGRESS_VERSION && loaded == progress,
            Err(error) => {
                &&& version != WATCH_PROGRESS_VERSION
                &&& error@ == progress_fault("INDEX_VERSION_ERROR"@, "觀看進度檔案版本不支援"@)
            },
        },
{
    if version != WATCH_PROGRESS_VERSION {
        return Err(WatchProgressError::new("INDEX_VERSION_ERROR", "觀看進度檔案版本不支援"));
    }
    Ok(progress)
}

/// The record that is to be saved, with the time at which the progress was changed.
pub fn new_progress(request: SaveWatchProgressRequest, at: String) -> (outcome: Result<
    WatchProgressRecord,
    WatchProgressError,
>)
    ensures
        match outcome {
            Ok(record) => saved(request@, at@) == Ok::<ProgressView, ProgressErrorView>(record@),
            Err(error) => saved(request@, at@) == Err::<ProgressView, ProgressErrorView>(error@),
        },
{
    match validate_video_id(request.video_id.as_str()) {
        Ok(()) => {},
        Err(error) => {
            return Err(error);
        },
    }
    let position: u64 = request.position_seconds.bits % SIGN_BIT;
    let duration: u64 = request.duration_seconds.bits % SIGN_BIT;
    let position_sign = request.position_seconds.bits >= SIGN_BIT;
    let duration_sign = request.duration_seconds.bits >= SIGN_BIT;
    if position >= INFINITY_BITS || duration >= INFINITY_BITS || (position_sign && position > 0)
        || duration_sign || duration == 0 {
        return Err(WatchProgressError::new("INVALID_PROGRESS", "影片播放進度格式不正確"));
    }
    let position_seconds = if request.completed || position >= duration {
        request.duration_seconds
    } else {
        Seconds { bits: position }
    };
    Ok(
        WatchProgressRecord {
            video_id: request.video_id,
            position_seconds,
            duration_seconds: request.duration_seconds,
            completed: request.completed,
            updated_at: at,
            sync_state: SyncState::Pending,
            last_synced_at: None,
        },
    )
}

/// The progress of all videos but one.
fn without_progress(progress: Vec<WatchProgressRecord>, video_id: &str) -> (kept: Vec<
    WatchProgressRecord,
>)
    ensures
        progress_of(kept@) == progress_without(progress_of(progress@), video_id@),
{
    let ghost all = progress_of(progress@);
    let ghost listed = progress@;
    let mut kept: Vec<WatchProgressRecord> = Vec::new();
    proof {
        reveal(Seq::filter);
        assert(progress_of(kept@) =~= progress_without(all.take(0), video_id@));
    }
    for record in it: progress.into_iter()
        invariant
            it.seq() == listed,
            all == progress_of(listed),
            progress_of(kept@) == progress_without(all.take(it.index() as int), video_id@),
    {
        let ghost before = kept@;
        let ghost i = it.index() as int;
        proof {
            reveal(Seq::filter);
            assert(all.take(i + 1).drop_last() =~= all.take(i));
            assert(all.take(i + 1).last() == record@);
        }
        if !same_text(record.video_id.as_str(), video_id) {
            kept.push(record);
            assert(progress_of(kept@) =~= progress_of(before).push(record@));
        }
    }
    assert(all.take(all.len() as int) =~= all);
    kept
}

/// The progress of all videos, with a record in place of any other of the same video.
fn with_progress(progress: Vec<WatchProgressRecord>, record: WatchProgressRecord) -> (kept: Vec<
    WatchProgressRecord,
>)
    ensures
        progress_of(kept@) == progress_with(progress_of(progress@), record@),
{
    let mut kept = without_progress(progress, record.video_id.as_str());
    let ghost before = kept@;
    kept.push(record);
    assert(progress_of(kept@) =~= progress_of(before).push(record@));
    kept
}

/// When the change of a video was made that was sent.
fn find_sent<'a>(tokens: &'a Vec<WatchProgressSyncToken>, video_id: &str) -> (at: Option<&'a str>)
    ensures
        sent_at(tokens_of(tokens@), video_id@) == match at {
            Some(at) => Some(at@),
            None => None,
        },
{
    let ghost all = tokens_of(tokens@);
    let mut i: usize = tokens.len();
    assert(all.take(i as int) =~= all);
    while i > 0
        invariant
            i <= tokens@.len(),
            all == tokens_of(tokens@),
            sent_at(all, video_id@) == sent_at(all.take(i as int), video_id@),
        decreases i,
    {
        i = i - 1;
        proof {
            assert(all.take(i + 1).drop_last() =~= all.take(i as int));
            assert(all.take(i + 1).last() == tokens@[i as int]@);
        }
        if same_text(tokens[i].video_id.as_str(), video_id) {
            return Some(tokens[i].updated_at.as_str());
        }
    }
    None
}

/// Whether a record is as it was sent.
fn is_as_sent(record: &WatchProgressRecord, tokens: &Vec<WatchProgressSyncToken>) -> (answer: bool)
    ensures
        answer == was_sent(record@, tokens_of(tokens@)),
{
    match find_sent(tokens, record.video_id.as_str()) {
        Some(at) => same_text(at, record.updated_at.as_str()),
        None => false,
    }
}

/// Whether the server's record of a video is to replace what is known here.
fn replaceable(
    progress: &Vec<WatchProgressRecord>,
    video_id: &str,
    sent: &Vec<WatchProgressSyncToken>,
) -> (answer: bool)
    ensures
        answer == can_replace(progress_of(progress@), video_id@, tokens_of(sent@)),
{
    let ghost all = progress_of(progress@);
    let mut i: usize = 0;
    assert(all.skip(0) =~= all);
    while i < progress.len()
        invariant
            i <= progress@.len(),
            all == progress_of(progress@),
            progress_for(all, video_id@) == progress_for(all.skip(i as int), video_id@),
        decreases progress.len() - i,
    {
        proof {
            assert(all.skip(i as int)[0] == progress@[i as int]@);
            assert(all.skip(i as int).drop_first() =~= all.skip(i + 1));
        }
        if same_text(progress[i].video_id.as_str(), video_id) {
            return is_as_sent(&progress[i], sent);
        }
        i = i + 1;
    }
    true
}

/// Saves how far a video was watched, at the given time, in what is known of all videos. The
/// result is the new record, and what is known from then on.
pub fn save_watch_progress_at(
    request: SaveWatchProgressRequest,
    at: String,
    index: Result<Vec<WatchProgressRecord>, WatchProgressError>,
) -> (outcome: Result<(WatchProgressRecord, Vec<WatchProgressRecord>), WatchProgressError>)
    ensures
        saves(request@, at@, seen_progress(index), outcome),
{
    let record = match new_progress(request, at) {
        Ok(record) => record,
        Err(error) => {
            return Err(error);
        },
    };
    match index {
        Ok(progress) => {
            let all = with_progress(progress, record.clone());
            Ok((record, all))
        },
        Err(error) => Err(error),
    }
}

/// Marks the records that are as they were sent, at the given time.
pub fn mark_watch_progress_synced_at(
    items: Vec<WatchProgressSyncToken>,
    at: String,
    index: Result<Vec<WatchProgressRecord>, WatchProgressError>,
) -> (outcome: Result<Vec<WatchProgressRecord>, WatchProgressError>)
    ensures
        seen_progress(outcome) == marking(tokens_of(items@), at@, seen_progress(index)),
{
    let progress = match index {
        Ok(progress) => progress,
        Err(error) => {
            return Err(error);
        },
    };
    let ghost listed = progress@;
    let ghost expected = marked(progress_of(listed), tokens_of(items@), at@);
    let mut all: Vec<WatchProgressRecord> = Vec::new();
    for record in it: progress.into_iter()
        invariant
            it.seq() == listed,
            expected == marked(progress_of(listed), tokens_of(items@), at@),
            progress_of(all@) == expected.take(it.index() as int),
    {
        let ghost before = all@;
        let ghost i = it.index() as int;
        assert(progress_of(listed)[i] == record@);
        if is_as_sent(&record, &items) {
            let mut changed = record;
            changed.sync_state = SyncState::Synced;
            changed.last_synced_at = Some(at.clone());
            assert(changed@ == synced(record@, at@));
            all.push(changed);
        } else {
            all.push(record);
        }
        proof {
            let new = all@.last()@;
            assert(expected[i] == new);
            assert(progress_of(all@) =~= progress_of(before).push(new));
            assert(expected.take(i + 1) =~= expected.take(i).push(new));
        }
    }
    assert(expected.take(expected.len() as int) =~= expected);
    Ok(all)
}

/// Takes over the records of the server, at the given time, where nothing was changed here
/// since the last exchange.
pub fn apply_remote_watch_progress_at(
    request: ApplyRemoteProgressRequest,
    at: String,
    index: Result<Vec<WatchProgressRecord>, WatchProgressError>,
) -> (outcome: Result<Vec<WatchProgressRecord>, WatchProgressError>)
    ensures
        seen_progress(outcome) == applying(
            progress_of(request.records@),
            tokens_of(request.sent@),
            at@,
            seen_progress(index),
        ),
{
    let mut progress = match index {
        Ok(progress) => progress,
        Err(error) => {
            return Err(error);
        },
    };
    let ghost start = progress_of(progress@);
    let ghost listed = request.records@;
    let ghost remote = progress_of(listed);
    let sent = request.sent;
    assert(remote.take(0) =~= Seq::empty());
    for record in it: request.records.into_iter()
        invariant
            it.seq() == listed,
            listed == request.records@,
            sent == request.sent,
            remote == progress_of(listed),
            seen_progress(index) == Ok::<Seq<ProgressView>, ProgressErrorView>(start),
            applied(start, remote.take(it.index() as int), tokens_of(sent@), at@) == Ok::<
                Seq<ProgressView>,
                ProgressErrorView,
            >(progress_of(progress@)),
    {
        let ghost i = it.index() as int;
        proof {
            assert(remote.take(i + 1).drop_last() =~= remote.take(i));
            assert(remote.take(i + 1).last() == record@);
        }
        match validate_video_id(record.video_id.as_str()) {
            Ok(()) => {},
            Err(error) => {
                proof {
                    applied_keeps_failing(start, remote, tokens_of(sent@), at@, i + 1);
                }
                return Err(error);
            },
        }
        if replaceable(&progress, record.video_id.as_str(), &sent) {
            let mut changed = record;
            changed.sync_state = SyncState::Synced;
            changed.last_synced_at = Some(at.clone());
            assert(changed@ == synced(record@, at@));
            progress = with_progress(progress, changed);
        }
    }
    assert(remote.take(remote.len() as int) =~= remote);
    Ok(progress)
}

/// A record that is refused ends the exchange, whatever comes after it.
proof fn applied_keeps_failing(
    progress: Seq<ProgressView>,
    remote: Seq<ProgressView>,
    sent: Seq<TokenView>,
    at: Seq<char>,
    n: int,
)
    requires
        0 <= n <= remote.len(),
        applied(progress, remote.take(n), sent, at) is Err,
    ensures
        applied(progress, remote, sent, at) == applied(progress, remote.take(n), sent, at),
    decreases remote.len(),
{
    if n < remote.len() {
        assert(remote.drop_last().take(n) =~= remote.take(n));
        applied_keeps_failing(progress, remote.drop_last(), sent, at, n);
    } else {
        assert(remote.take(n) =~= remote);
    }
}

/// What is left of the progress when a video is deleted, if anything was known of it. Where
/// nothing was, nothing has to be saved.
pub fn delete_progress(
    video_id: &str,
    index: Result<Vec<WatchProgressRecord>, WatchProgressError>,
) -> (outcome: Result<Option<Vec<WatchProgressRecord>>, WatchProgressError>)
    ensures
        if !is_video_id(video_id@) {
            outcome matches Err(reason) && reason@ == invalid_id()
        } else {
            match seen_progress(index) {
                Err(error) => outcome matches Err(reason) && reason@ == error,
                Ok(progress) => match outcome {
                    Ok(Some(kept)) => {
                        &&& progress_of(kept@) == progress_without(progress, video_id@)
                        &&& progress_without(progress, video_id@).len() != progress.len()
                    },
                    Ok(None) => progress_without(progress, video_id@).len() == progress.len(),
                    Err(_) => false,
                },
            }
        },
{
    match validate_video_id(video_id) {
        Ok(()) => {},
        Err(error) => {
            return Err(error);
        },
    }
    match index {
        Ok(progress) => {
            let before: usize = progress.len();
            let ghost all = progress_of(progress@);
            let kept = without_progress(progress, video_id);
            assert(progress_of(kept@).len() == kept@.len());
            assert(all.len() == before);
            if kept.len() != before {
                Ok(Some(kept))
            } else {
                Ok(None)
            }
        },
        Err(error) => Err(error),
    }
}

/// `chrono::Utc::now`, and `DateTime::to_rfc3339` of it. The time is the machine's: nothing is
/// claimed of it.
#[verifier::external_body]
pub(crate) fn now() -> (at: String) {
    Utc::now().to_rfc3339()
}

/// Whether a text can be the time that the clock gives.
pub closed spec fn is_clock_time(at: Seq<char>) -> bool {
    exists|text: String| #[trigger] call_ensures(now, (), text) && text@ == at
}

/// Saves how far a video was watched, with the time of the clock.
pub fn save_watch_progress(
    request: SaveWatchProgressRequest,
    index: Result<Vec<WatchProgressRecord>, WatchProgressError>,
) -> (outcome: Result<(WatchProgressRecord, Vec<WatchProgressRecord>), WatchProgressError>)
    ensures
        exists|at: Seq<char>|
            #[trigger] is_clock_time(at) && saves(request@, at, seen_progress(index), outcome),
{
    let at = now();
    let ghost time = at@;
    assert(is_clock_time(time));
    let outcome = save_watch_progress_at(request, at, index);
    assert(saves(request@, time, seen_progress(index), outcome));
    outcome
}

/// Marks the records that are as they were sent, with the time of the clock.
pub fn mark_watch_progress_synced(
    items: Vec<WatchProgressSyncToken>,
    index: Result<Vec<WatchProgressRecord>, WatchProgressError>,
) -> (outcome: Result<Vec<WatchProgressRecord>, WatchProgressError>)
    ensures
        exists|at: Seq<char>|
            #[trigger] is_clock_time(at) && seen_progress(outcome) == marking(
                tokens_of(items@),
                at,
                seen_progress(index),
            ),
{
    let at = now();
    let ghost time = at@;
    assert(is_clock_time(time));
    let outcome = mark_watch_progress_synced_at(items, at, index);
    assert(seen_progress(outcome) == marking(tokens_of(items@), time, seen_progress(index)));
    outcome
}

/// Takes over the records of the server, with the time of the clock, where nothing was changed
/// here since the last exchange.
pub fn apply_remote_watch_progress(
    request: ApplyRemoteProgressRequest,
    index: Result<Vec<WatchProgressRecord>, WatchProgressError>,
) -> (outcome: Result<Vec<WatchProgressRecord>, WatchProgressError>)
    ensures
        exists|at: Seq<char>|
            #[trigger] is_clock_time(at) && seen_progress(outcome) == applying(
                progress_of(request.records@),
                tokens_of(request.sent@),
                at,
                seen_progress(index),
            ),
{
    let at = now();
    let ghost time = at@;
    assert(is_clock_time(time));
    let ghost remote = progress_of(request.records@);
    let ghost sent = tokens_of(request.sent@);
    let outcome = apply_remote_watch_progress_at(request, at, index);
    assert(seen_progress(outcome) == applying(remote, sent, time, seen_progress(index)));
    outcome
}

proof fn other_progress_is_kept(
    progress: Seq<ProgressView>,
    video_id: Seq<char>,
    other: Seq<char>,
)
    requires
        other != video_id,
    ensures
        progress_for(progress_without(progress, video_id), other) == progress_for(progress, other),
    decreases progress.len(),
{
    let keeps = |record: ProgressView| record.video_id != video_id;
    if progress.len() == 0 {
        reveal(Seq::filter);
        assert(progress_without(progress, video_id) =~= progress);
    } else {
        let first = progress[0];
        let rest = progress.drop_first();
        other_progress_is_kept(rest, video_id, other);
        assert(progress =~= seq![first] + rest);
        let kept = progress_without(rest, video_id);
        assert(progress_without(progress, video_id) == seq![first].filter(keeps) + kept) by {
            Seq::filter_distributes_over_add(seq![first], rest, keeps);
        }
        assert(seq![first].filter(keeps) =~= if keeps(first) {
            seq![first]
        } else {
            Seq::empty()
        }) by {
            reveal(Seq::filter);
            assert(seq![first].drop_last() =~= Seq::<ProgressView>::empty());
            assert(seq![first].drop_last().filter(keeps) =~= Seq::<ProgressView>::empty());
        }
        if keeps(first) {
            assert((seq![first] + kept).drop_first() =~= kept);
        } else {
            assert(Seq::empty() + kept =~= kept);
        }
    }
}

proof fn no_progress_is_left(progress: Seq<ProgressView>, video_id: Seq<char>)
    ensures
        progress_for(progress_without(progress, video_id), video_id) is None,
        forall|i: int|
            0 <= i < progress_without(progress, video_id).len() ==> (
            #[trigger] progress_without(progress, video_id)[i]).video_id != video_id,
{
    broadcast use vstd::seq_lib::group_filter_ensures;

    nothing_is_found(progress_without(progress, video_id), video_id);
}

proof fn nothing_is_found(progress: Seq<ProgressView>, video_id: Seq<char>)
    requires
        forall|i: int| 0 <= i < progress.len() ==> (#[trigger] progress[i]).video_id != video_id,
    ensures
        progress_for(progress, video_id) is None,
    decreases progress.len(),
{
    if progress.len() > 0 {
        nothing_is_found(progress.drop_first(), video_id);
    }
}

proof fn found_at_the_end(progress: Seq<ProgressView>, record: ProgressView, video_id: Seq<char>)
    ensures
        progress_for(progress.push(record), video_id) == match progress_for(progress, video_id) {
            Some(found) => Some(found),
            None => if record.video_id == video_id {
                Some(record)
            } else {
                None
            },
        },
    decreases progress.len(),
{
    if progress.len() > 0 {
        found_at_the_end(progress.drop_first(), record, video_id);
        assert(progress.push(record).drop_first() =~= progress.drop_first().push(record));
    } else {
        assert(progress.push(record).drop_first() =~= Seq::<ProgressView>::empty());
        assert(progress_for(progress.push(record).drop_first(), video_id) is None);
    }
}

/// A progress that was saved is what is known of its video, and what is known of every other
/// video stays as it was.
pub proof fn saved_progress_is_found(
    progress: Seq<ProgressView>,
    record: ProgressView,
    other: Seq<char>,
)
    ensures
        progress_for(progress_with(progress, record), record.video_id) == Some(record),
        other != record.video_id ==> progress_for(progress_with(progress, record), other)
            == progress_for(progress, other),
{
    let kept = progress_without(progress, record.video_id);
    no_progress_is_left(progress, record.video_id);
    found_at_the_end(kept, record, record.video_id);
    found_at_the_end(kept, record, other);
    if other != record.video_id {
        other_progress_is_kept(progress, record.video_id, other);
    }
}

/// A position that was saved lies between the start and the end of the video, is the end where
/// the video was completed, and waits to be sent.
pub proof fn saved_position_is_inside(request: SaveView, at: Seq<char>)
    ensures
        saved(request, at) matches Ok(record) ==> {
            &&& record.position_seconds.is_finite()
            &&& !record.position_seconds.has_sign()
            &&& record.position_seconds.magnitude() <= record.duration_seconds.magnitude()
            &&& record.completed ==> record.position_seconds == record.duration_seconds
            &&& record.sync_state is Pending
            &&& record.last_synced_at is None
        },
{
}

/// What was changed here after the last exchange survives the next one: a record of the server
/// does not replace it.
pub proof fn local_change_survives(
    progress: Seq<ProgressView>,
    remote: Seq<ProgressView>,
    sent: Seq<TokenView>,
    at: Seq<char>,
    record: ProgressView,
)
    requires
        progress_for(progress, record.video_id) == Some(record),
        !was_sent(record, sent),
    ensures
        applied(progress, remote, sent, at) matches Ok(after) ==> progress_for(
            after,
            record.video_id,
        ) == Some(record),
    decreases remote.len(),
{
    if remote.len() > 0 {
        local_change_survives(progress, remote.drop_last(), sent, at, record);
        if let Ok(before) = applied(progress, remote.drop_last(), sent, at) {
            let new = synced(remote.last(), at);
            if new.video_id != record.video_id {
                saved_progress_is_found(before, new, record.video_id);
            }
        }
    }
}

/// A record of the server is taken over, as one that agrees with the server, where nothing was
/// changed here since it was sent.
pub proof fn remote_record_is_taken_over(
    progress: Seq<ProgressView>,
    remote: Seq<ProgressView>,
    record: ProgressView,
    sent: Seq<TokenView>,
    at: Seq<char>,
)
    requires
        applied(progress, remote, sent, at) matches Ok(before) && can_replace(
            before,
            record.video_id,
            sent,
        ),
        is_video_id(record.video_id),
    ensures
        applied(progress, remote.push(record), sent, at) matches Ok(after) && progress_for(
            after,
            record.video_id,
        ) == Some(synced(record, at)),
{
    assert(remote.push(record).drop_last() =~= remote);
    if let Ok(before) = applied(progress, remote, sent, at) {
        saved_progress_is_found(before, synced(record, at), record.video_id);
    }
}

/// Nothing is known of a video that was deleted, and what is known of every other video stays
/// as it was.
pub proof fn deleted_progress_is_gone(
    progress: Seq<ProgressView>,
    video_id: Seq<char>,
    other: Seq<char>,
)
    ensures
        progress_for(progress_without(progress, video_id), video_id) is None,
        other != video_id ==> progress_for(progress_without(progress, video_id), other)
            == progress_for(progress, other),
{
    no_progress_is_left(progress, video_id);
    if other != video_id {
        other_progress_is_kept(progress, video_id, other);
    }
}

/// Marking what was sent changes no position, and leaves alone what was changed since.
pub proof fn marking_keeps_positions(
    progress: Seq<ProgressView>,
    tokens: Seq<TokenView>,
    at: Seq<char>,
    i: int,
)
    requires
        0 <= i < progress.len(),
    ensures
        marked(progress, tokens, at).len() == progress.len(),
        marked(progress, tokens, at)[i].video_id == progress[i].video_id,
        marked(progress, tokens, at)[i].position_seconds == progress[i].position_seconds,
        marked(progress, tokens, at)[i].updated_at == progress[i].updated_at,
        !was_sent(progress[i], tokens) ==> marked(progress, tokens, at)[i] == progress[i],
        was_sent(progress[i], tokens) ==> marked(progress, tokens, at)[i].sync_state is Synced,
{
}

/// Whether at most one record is known of each video.
pub open spec fn is_unique(progress: Seq<ProgressView>) -> bool {
    forall|i: int, j: int|
        0 <= i < j < progress.len() ==> (#[trigger] progress[i]).video_id != (
        #[trigger] progress[j]).video_id
}

proof fn filter_keeps_unique(progress: Seq<ProgressView>, video_id: Seq<char>)
    requires
        is_unique(progress),
    ensures
        is_unique(progress_without(progress, video_id)),
        forall|i: int|
            0 <= i < progress_without(progress, video_id).len() ==> progress.contains(
                #[trigger] progress_without(progress, video_id)[i],
            ),
    decreases progress.len(),
{
    reveal(Seq::filter);
    if progress.len() > 0 {
        let rest = progress.drop_last();
        let kept = progress_without(rest, video_id);
        let whole = progress_without(progress, video_id);
        let last = progress.last();
        filter_keeps_unique(rest, video_id);
        assert forall|i: int| 0 <= i < kept.len() implies {
            &&& (#[trigger] kept[i]).video_id != last.video_id
            &&& progress.contains(kept[i])
        } by {
            assert(rest.contains(kept[i]));
            let k = choose|k: int| 0 <= k < rest.len() && rest[k] == kept[i];
            assert(progress[k] == kept[i]);
            assert(progress[k].video_id != progress[progress.len() - 1].video_id);
        }
        assert forall|i: int| 0 <= i < whole.len() implies progress.contains(
            #[trigger] whole[i],
        ) by {
            if i < kept.len() {
                assert(whole[i] == kept[i]);
            } else {
                assert(progress[progress.len() - 1] == last);
            }
        }
        assert forall|i: int, j: int| 0 <= i < j < whole.len() implies (
        #[trigger] whole[i]).video_id != (#[trigger] whole[j]).video_id by {
            assert(whole[i] == kept[i]);
            if j < kept.len() {
                assert(whole[j] == kept[j]);
            }
        }
    }
}

proof fn with_keeps_unique(progress: Seq<ProgressView>, record: ProgressView)
    requires
        is_unique(progress),
    ensures
        is_unique(progress_with(progress, record)),
{
    filter_keeps_unique(progress, record.video_id);
    no_progress_is_left(progress, record.video_id);
    let kept = progress_without(progress, record.video_id);
    let new = progress_with(progress, record);
    assert forall|i: int, j: int| 0 <= i < j < new.len() implies (#[trigger] new[i]).video_id != (
    #[trigger] new[j]).video_id by {
        assert(new[i] == kept[i]);
        if j < kept.len() {
            assert(new[j] == kept[j]);
        }
    }
}

/// Where at most one record is known of each video, that stays so, whatever is saved, marked,
/// taken over or deleted.
pub proof fn progress_stays_unique(
    progress: Seq<ProgressView>,
    record: ProgressView,
    video_id: Seq<char>,
    tokens: Seq<TokenView>,
    remote: Seq<ProgressView>,
    at: Seq<char>,
)
    requires
        is_unique(progress),
    ensures
        is_unique(progress_with(progress, record)),
        is_unique(progress_without(progress, video_id)),
        is_unique(marked(progress, tokens, at)),
        applied(progress, remote, tokens, at) matches Ok(after) ==> is_unique(after),
    decreases remote.len(),
{
    with_keeps_unique(progress, record);
    filter_keeps_unique(progress, video_id);
    let all = marked(progress, tokens, at);
    assert forall|i: int, j: int| 0 <= i < j < all.len() implies (#[trigger] all[i]).video_id != (
    #[trigger] all[j]).video_id by {
        assert(progress[i].video_id != progress[j].video_id);
    }
    if remote.len() > 0 {
        progress_stays_unique(progress, record, video_id, tokens, remote.drop_last(), at);
        if let Ok(before) = applied(progress, remote.drop_last(), tokens, at) {
            with_keeps_unique(before, synced(remote.last(), at));
        }
    }
}

/// What is found of a video is one of its records, and nothing is found only where there is none.
pub proof fn found_is_known(progress: Seq<ProgressView>, video_id: Seq<char>)
    ensures
        match progress_for(progress, video_id) {
            Some(record) => record.video_id == video_id && progress.contains(record),
            None => forall|i: int|
                0 <= i < progress.len() ==> (#[trigger] progress[i]).video_id != video_id,
        },
    decreases progress.len(),
{
    if progress.len() > 0 && progress[0].video_id != video_id {
        let rest = progress.drop_first();
        found_is_known(rest, video_id);
        match progress_for(progress, video_id) {
            Some(record) => {
                let i = choose|i: int| 0 <= i < rest.len() && rest[i] == record;
                assert(progress[i + 1] == record);
            },
            None => {
                assert forall|i: int| 0 <= i < progress.len() implies (
                #[trigger] progress[i]).video_id != video_id by {
                    if i > 0 {
                        assert(rest[i - 1] == progress[i]);
                    }
                }
            },
        }
    }
}

/// The first record of a video is the one that is found.
pub proof fn first_is_found(progress: Seq<ProgressView>, i: int)
    requires
        0 <= i < progress.len(),
        forall|j: int| 0 <= j < i ==> (#[trigger] progress[j]).video_id != progress[i].video_id,
    ensures
        progress_for(progress, progress[i].video_id) == Some(progress[i]),
    decreases i,
{
    if i > 0 {
        assert(progress[0].video_id != progress[i].video_id);
        let rest = progress.drop_first();
        assert forall|j: int| 0 <= j < i - 1 implies (#[trigger] rest[j]).video_id != rest[i
            - 1].video_id by {
            assert(progress[j + 1].video_id != progress[i].video_id);
        }
        first_is_found(rest, i - 1);
    }
}

/// Of several tokens of a video the last one counts.
pub proof fn last_token_counts(tokens: Seq<TokenView>, video_id: Seq<char>, t: int)
    requires
        0 <= t < tokens.len(),
        tokens[t].video_id == video_id,
        forall|later: int|
            t < later < tokens.len() ==> (#[trigger] tokens[later]).video_id != video_id,
    ensures
        sent_at(tokens, video_id) == Some(tokens[t].updated_at),
    decreases tokens.len(),
{
    if t < tokens.len() - 1 {
        assert(tokens[tokens.len() - 1].video_id != video_id);
        last_token_counts(tokens.drop_last(), video_id, t);
    }
}

/// A time that no token of a video names is not the one at which it was sent.
pub proof fn other_tokens_do_not_count(
    tokens: Seq<TokenView>,
    video_id: Seq<char>,
    updated_at: Seq<char>,
)
    requires
        forall|t: int|
            0 <= t < tokens.len() && (#[trigger] tokens[t]).video_id == video_id
                ==> tokens[t].updated_at != updated_at,
    ensures
        sent_at(tokens, video_id) != Some(updated_at),
    decreases tokens.len(),
{
    if tokens.len() > 0 {
        assert(tokens[tokens.len() - 1].video_id == video_id ==> tokens[tokens.len()
            - 1].updated_at != updated_at);
        other_tokens_do_not_count(tokens.drop_last(), video_id, updated_at);
    }
}

proof fn others_are_kept(progress: Seq<ProgressView>, new: ProgressView, record: ProgressView)
    ensures
        progress_with(progress, new).contains(new),
        record.video_id != new.video_id ==> (progress_with(progress, new).contains(record)
            <==> progress.contains(record)),
        forall|i: int|
            0 <= i < progress_with(progress, new).len() && (#[trigger] progress_with(
                progress,
                new,
            )[i]).video_id == new.video_id ==> progress_with(progress, new)[i] == new,
{
    broadcast use vstd::seq_lib::group_filter_ensures;

    let keeps = |other: ProgressView| other.video_id != new.video_id;
    let kept = progress_without(progress, new.video_id);
    let all = progress_with(progress, new);
    assert(all[kept.len() as int] == new);
    no_progress_is_left(progress, new.video_id);
    if record.video_id != new.video_id {
        if progress.contains(record) {
            let i = choose|i: int| 0 <= i < progress.len() && progress[i] == record;
            progress.lemma_filter_contains(keeps, i);
            assert(kept.contains(record));
            let j = choose|j: int| 0 <= j < kept.len() && kept[j] == record;
            assert(all[j] == record);
        }
        if all.contains(record) {
            let j = choose|j: int| 0 <= j < all.len() && all[j] == record;
            assert(kept[j] == record);
            progress.lemma_filter_contains_rev(keeps, record);
        }
    }
    assert forall|i: int| 0 <= i < all.len() && (#[trigger] all[i]).video_id
        == new.video_id implies all[i] == new by {
        if i < kept.len() {
            assert(all[i] == kept[i]);
        }
    }
}

/// Taking over the records of the server succeeds exactly where each of them has the name of a
/// video.
pub proof fn applying_needs_names(
    progress: Seq<ProgressView>,
    remote: Seq<ProgressView>,
    sent: Seq<TokenView>,
    at: Seq<char>,
)
    ensures
        applied(progress, remote, sent, at) is Ok <==> forall|i: int|
            0 <= i < remote.len() ==> is_video_id((#[trigger] remote[i]).video_id),
        applied(progress, remote, sent, at) matches Err(error) ==> error.code
            == "INVALID_VIDEO_ID"@,
    decreases remote.len(),
{
    if remote.len() > 0 {
        let rest = remote.drop_last();
        applying_needs_names(progress, rest, sent, at);
        if applied(progress, remote, sent, at) is Ok {
            assert forall|i: int| 0 <= i < remote.len() implies is_video_id(
                (#[trigger] remote[i]).video_id,
            ) by {
                if i < rest.len() {
                    assert(rest[i] == remote[i]);
                }
            }
        }
        if forall|i: int|
            0 <= i < remote.len() ==> is_video_id((#[trigger] remote[i]).video_id) {
            assert(is_video_id(remote[remote.len() - 1].video_id));
            assert forall|i: int| 0 <= i < rest.len() implies is_video_id(
                (#[trigger] rest[i]).video_id,
            ) by {
                assert(rest[i] == remote[i]);
            }
        }
    }
}

/// What the server says nothing of stays as it is, and nothing becomes known of it.
pub proof fn unmentioned_videos_are_left_alone(
    progress: Seq<ProgressView>,
    remote: Seq<ProgressView>,
    sent: Seq<TokenView>,
    at: Seq<char>,
    record: ProgressView,
)
    requires
        forall|i: int| 0 <= i < remote.len() ==> (#[trigger] remote[i]).video_id
            != record.video_id,
    ensures
        applied(progress, remote, sent, at) matches Ok(after) ==> {
            &&& after.contains(record) <==> progress.contains(record)
            &&& progress_for(after, record.video_id) == progress_for(progress, record.video_id)
        },
    decreases remote.len(),
{
    if remote.len() > 0 {
        let rest = remote.drop_last();
        assert forall|i: int| 0 <= i < rest.len() implies (#[trigger] rest[i]).video_id
            != record.video_id by {
            assert(rest[i] == remote[i]);
        }
        unmentioned_videos_are_left_alone(progress, rest, sent, at, record);
        if let Ok(before) = applied(progress, rest, sent, at) {
            let new = synced(remote.last(), at);
            assert(remote[remote.len() - 1].video_id != record.video_id);
            others_are_kept(before, new, record);
            saved_progress_is_found(before, new, record.video_id);
        }
    }
}

/// What becomes of a video that the server mentions once, given what is known of it here.
proof fn mentioned_video(
    progress: Seq<ProgressView>,
    remote: Seq<ProgressView>,
    sent: Seq<TokenView>,
    at: Seq<char>,
    k: int,
)
    requires
        0 <= k < remote.len(),
        forall|i: int| 0 <= i < remote.len() ==> is_video_id((#[trigger] remote[i]).video_id),
        forall|i: int|
            0 <= i < remote.len() && i != k ==> (#[trigger] remote[i]).video_id
                != remote[k].video_id,
        progress_for(progress, remote[k].video_id) matches Some(record) ==> was_sent(record, sent),
    ensures
        applied(progress, remote, sent, at) matches Ok(after) && {
            &&& after.contains(synced(remote[k], at))
            &&& forall|i: int|
                0 <= i < after.len() && (#[trigger] after[i]).video_id == remote[k].video_id
                    ==> after[i] == synced(remote[k], at)
        },
    decreases remote.len(),
{
    let rest = remote.drop_last();
    let last = remote.len() - 1;
    let mine = synced(remote[k], at);
    assert forall|i: int| 0 <= i < rest.len() implies is_video_id((#[trigger] rest[i]).video_id)
        && (i != k ==> rest[i].video_id != remote[k].video_id) by {
        assert(rest[i] == remote[i]);
    }
    applying_needs_names(progress, rest, sent, at);
    assert(is_video_id(remote[last].video_id));
    let before = applied(progress, rest, sent, at)->Ok_0;
    if k == last {
        unmentioned_videos_are_left_alone(progress, rest, sent, at, mine);
        others_are_kept(before, mine, mine);
    } else {
        mentioned_video(progress, rest, sent, at, k);
        assert(remote[last].video_id != remote[k].video_id);
        let new = synced(remote[last], at);
        others_are_kept(before, new, mine);
        if can_replace(before, new.video_id, sent) {
            let after = progress_with(before, new);
            assert forall|i: int| 0 <= i < after.len() && (#[trigger] after[i]).video_id
                == remote[k].video_id implies after[i] == mine by {
                let found = after[i];
                assert(after.contains(found));
                others_are_kept(before, new, found);
                let j = choose|j: int| 0 <= j < before.len() && before[j] == found;
                assert(before[j].video_id == remote[k].video_id);
            }
        }
    }
}

/// A record of the server of a video that is not known here is taken over, whatever else is known
/// here, and also where nothing is: the video is then known by that record alone, as one that
/// agrees with the server.
pub proof fn unknown_videos_are_taken_over(
    progress: Seq<ProgressView>,
    remote: Seq<ProgressView>,
    sent: Seq<TokenView>,
    at: Seq<char>,
    k: int,
)
    requires
        0 <= k < remote.len(),
        forall|i: int| 0 <= i < remote.len() ==> is_video_id((#[trigger] remote[i]).video_id),
        forall|i: int|
            0 <= i < remote.len() && i != k ==> (#[trigger] remote[i]).video_id
                != remote[k].video_id,
        forall|i: int|
            0 <= i < progress.len() ==> (#[trigger] progress[i]).video_id != remote[k].video_id,
    ensures
        applied(progress, remote, sent, at) matches Ok(after) && {
            let taken_over = ProgressView {
                sync_state: SyncState::Synced,
                last_synced_at: Some(at),
                ..remote[k]
            };
            &&& after.contains(taken_over)
            &&& forall|i: int|
                0 <= i < after.len() && (#[trigger] after[i]).video_id == remote[k].video_id
                    ==> after[i] == taken_over
        },
{
    nothing_is_found(progress, remote[k].video_id);
    mentioned_video(progress, remote, sent, at, k);
}

/// A record that has not changed here since it was sent gives way to the record of the server.
/// Of several tokens of a video the last one says when it was sent.
pub proof fn unchanged_records_give_way(
    progress: Seq<ProgressView>,
    remote: Seq<ProgressView>,
    sent: Seq<TokenView>,
    at: Seq<char>,
    k: int,
    i: int,
    t: int,
)
    requires
        0 <= k < remote.len(),
        forall|j: int| 0 <= j < remote.len() ==> is_video_id((#[trigger] remote[j]).video_id),
        forall|j: int|
            0 <= j < remote.len() && j != k ==> (#[trigger] remote[j]).video_id
                != remote[k].video_id,
        0 <= i < progress.len(),
        progress[i].video_id == remote[k].video_id,
        forall|j: int| 0 <= j < i ==> (#[trigger] progress[j]).video_id != remote[k].video_id,
        0 <= t < sent.len(),
        sent[t].video_id == remote[k].video_id,
        sent[t].updated_at == progress[i].updated_at,
        forall|later: int|
            t < later < sent.len() ==> (#[trigger] sent[later]).video_id != remote[k].video_id,
    ensures
        applied(progress, remote, sent, at) matches Ok(after) && {
            let taken_over = ProgressView {
                sync_state: SyncState::Synced,
                last_synced_at: Some(at),
                ..remote[k]
            };
            &&& after.contains(taken_over)
            &&& forall|j: int|
                0 <= j < after.len() && (#[trigger] after[j]).video_id == remote[k].video_id
                    ==> after[j] == taken_over
        },
{
    first_is_found(progress, i);
    last_token_counts(sent, remote[k].video_id, t);
    mentioned_video(progress, remote, sent, at, k);
}

/// A record that was changed here after it was sent, or was never sent, is still there after the
/// records of the server were taken over, as it was.
pub proof fn changed_records_stay(
    progress: Seq<ProgressView>,
    remote: Seq<ProgressView>,
    sent: Seq<TokenView>,
    at: Seq<char>,
    i: int,
)
    requires
        0 <= i < progress.len(),
        forall|j: int| 0 <= j < i ==> (#[trigger] progress[j]).video_id != progress[i].video_id,
        forall|t: int|
            0 <= t < sent.len() && (#[trigger] sent[t]).video_id == progress[i].video_id
                ==> sent[t].updated_at != progress[i].updated_at,
    ensures
        applied(progress, remote, sent, at) matches Ok(after) ==> after.contains(progress[i]),
{
    first_is_found(progress, i);
    other_tokens_do_not_count(sent, progress[i].video_id, progress[i].updated_at);
    local_change_survives(progress, remote, sent, at, progress[i]);
    if let Ok(after) = applied(progress, remote, sent, at) {
        found_is_known(after, progress[i].video_id);
    }
}

/// Marking leaves every record in its place. One that has not changed since it was sent is marked
/// as one that agrees with the server, and nothing else of it changes; any other stays as it is.
pub proof fn marking_is_exact(
    progress: Seq<ProgressView>,
    tokens: Seq<TokenView>,
    at: Seq<char>,
    i: int,
    t: int,
)
    requires
        0 <= i < progress.len(),
    ensures
        marked(progress, tokens, at).len() == progress.len(),
        0 <= t < tokens.len() && tokens[t].video_id == progress[i].video_id && tokens[t].updated_at
            == progress[i].updated_at && (forall|later: int|
            t < later < tokens.len() ==> (#[trigger] tokens[later]).video_id
                != progress[i].video_id) ==> marked(progress, tokens, at)[i] == (ProgressView {
            sync_state: SyncState::Synced,
            last_synced_at: Some(at),
            ..progress[i]
        }),
        (forall|other: int|
            0 <= other < tokens.len() && (#[trigger] tokens[other]).video_id
                == progress[i].video_id ==> tokens[other].updated_at != progress[i].updated_at)
            ==> marked(progress, tokens, at)[i] == progress[i],
{
    if 0 <= t < tokens.len() && tokens[t].video_id == progress[i].video_id && tokens[t].updated_at
        == progress[i].updated_at && (forall|later: int|
        t < later < tokens.len() ==> (#[trigger] tokens[later]).video_id != progress[i].video_id) {
        last_token_counts(tokens, progress[i].video_id, t);
    }
    if forall|other: int|
        0 <= other < tokens.len() && (#[trigger] tokens[other]).video_id == progress[i].video_id
            ==> tokens[other].updated_at != progress[i].updated_at {
        other_tokens_do_not_count(tokens, progress[i].video_id, progress[i].updated_at);
    }
}

/// A position between the start and the end of a video that was not completed is saved as it is,
/// bit by bit; one past the end becomes the end, and so does that of a video that was completed.
/// What is saved is of the video that was asked for, and waits to be sent.
pub proof fn position_is_saved(request: SaveView, at: Seq<char>)
    requires
        is_video_id(request.video_id),
        request.position_seconds.bits < 0x7ff0_0000_0000_0000,
        0 < request.duration_seconds.bits < 0x7ff0_0000_0000_0000,
    ensures
        saved(request, at) matches Ok(record) && {
            let position = request.position_seconds.bits;
            let duration = request.duration_seconds.bits;
            &&& !request.completed && position <= duration ==> record.position_seconds.bits
                == position
            &&& !request.completed && position > duration ==> record.position_seconds.bits
                == duration
            &&& request.completed ==> record.position_seconds.bits == duration
            &&& record.duration_seconds.bits == duration
            &&& record.completed == request.completed
            &&& record.video_id == request.video_id
            &&& record.updated_at == at
            &&& record.sync_state is Pending
            &&& record.last_synced_at is None
        },
{
}

/// The start of a video may come with a sign, which is dropped. A video that was completed is at
/// its end all the same.
pub proof fn negative_zero_is_the_start(request: SaveView, at: Seq<char>)
    requires
        is_video_id(request.video_id),
        request.position_seconds.bits == 0x8000_0000_0000_0000,
        0 < request.duration_seconds.bits < 0x7ff0_0000_0000_0000,
    ensures
        saved(request, at) matches Ok(record) && record.position_seconds.bits == (
        if request.completed {
            request.duration_seconds.bits
        } else {
            0
        }) && record == (ProgressView { position_seconds: record.position_seconds, ..saved(
            SaveView { position_seconds: Seconds { bits: 0 }, ..request },
            at,
        )->Ok_0 }),
{
}

/// A position or a duration that is infinite or no number, a position before the start, and a
/// duration that is not positive are refused, and so is what is not the name of a video.
pub proof fn impossible_progress_is_refused(request: SaveView, at: Seq<char>)
    ensures
        !is_video_id(request.video_id) ==> (saved(request, at) matches Err(error) && error.code
            == "INVALID_VIDEO_ID"@ && error.message == "影片 ID 格式不正確"@),
        is_video_id(request.video_id) && ({
            ||| 0x7ff0_0000_0000_0000 <= request.position_seconds.bits < 0x8000_0000_0000_0000
            ||| request.position_seconds.bits > 0x8000_0000_0000_0000
            ||| request.duration_seconds.bits == 0
            ||| request.duration_seconds.bits >= 0x7ff0_0000_0000_0000
        }) ==> (saved(request, at) matches Err(error) && error.code == "INVALID_PROGRESS"@
            && error.message == "影片播放進度格式不正確"@),
{
}

/// A record that is saved comes last, and what was known of other videos stays, in its order.
pub proof fn other_progress_keeps_its_order(
    progress: Seq<ProgressView>,
    record: ProgressView,
    video_id: Seq<char>,
)
    ensures
        progress_without(Seq::empty(), video_id) == Seq::<ProgressView>::empty(),
        record.video_id == video_id ==> progress_without(progress.push(record), video_id)
            == progress_without(progress, video_id),
        record.video_id != video_id ==> progress_without(progress.push(record), video_id)
            == progress_without(progress, video_id).push(record),
        progress_with(progress, record).last() == record,
        progress_with(progress, record).drop_last() == progress_without(progress, record.video_id),
{
    reveal(Seq::filter);
    assert(progress.push(record).drop_last() =~= progress);
    assert(progress_without(Seq::empty(), video_id) =~= Seq::<ProgressView>::empty());
    assert(progress_with(progress, record).drop_last() =~= progress_without(
        progress,
        record.video_id,
    ));
}

/// The records of the server can come in batches: taking over two batches one after the other, at
/// one time, is taking them over at once, and a batch that is refused ends the exchange.
pub proof fn batches_can_be_joined(
    progress: Seq<ProgressView>,
    remote1: Seq<ProgressView>,
    remote2: Seq<ProgressView>,
    sent: Seq<TokenView>,
    at: Seq<char>,
)
    ensures
        applied(progress, Seq::empty(), sent, at) == Ok::<Seq<ProgressView>, ProgressErrorView>(
            progress,
        ),
        match applied(progress, remote1, sent, at) {
            Ok(between) => applied(progress, remote1 + remote2, sent, at) == applied(
                between,
                remote2,
                sent,
                at,
            ),
            Err(error) => applied(progress, remote1 + remote2, sent, at) == Err::<
                Seq<ProgressView>,
                ProgressErrorView,
            >(error),
        },
    decreases remote2.len(),
{
    if remote2.len() == 0 {
        assert(remote1 + remote2 =~= remote1);
    } else {
        batches_can_be_joined(progress, remote1, remote2.drop_last(), sent, at);
        assert((remote1 + remote2).drop_last() =~= remote1 + remote2.drop_last());
        assert((remote1 + remote2).last() == remote2.last());
    }
}

/// What one record of the server does: where its video is not known here, or is as it was sent,
/// it takes the place of what is known, as the last record, and the other videos stay in their
/// order; where the video was changed here, nothing happens; and without the name of a video the
/// record is refused.
pub proof fn one_record_is_taken_over(
    progress: Seq<ProgressView>,
    record: ProgressView,
    sent: Seq<TokenView>,
    at: Seq<char>,
    i: int,
    t: int,
)
    ensures
        ({
            let outcome = applied(progress, seq![record], sent, at);
            let taken_over = ProgressView {
                sync_state: SyncState::Synced,
                last_synced_at: Some(at),
                ..record
            };
            let after = progress_without(progress, record.video_id).push(taken_over);
            let is_first = 0 <= i < progress.len() && progress[i].video_id == record.video_id
                && forall|j: int|
                0 <= j < i ==> (#[trigger] progress[j]).video_id != record.video_id;
            &&& !is_video_id(record.video_id) ==> (outcome matches Err(error) && error.code
                == "INVALID_VIDEO_ID"@)
            &&& is_video_id(record.video_id) && (forall|j: int|
                0 <= j < progress.len() ==> (#[trigger] progress[j]).video_id != record.video_id)
                ==> outcome == Ok::<Seq<ProgressView>, ProgressErrorView>(after)
            &&& is_video_id(record.video_id) && is_first && 0 <= t < sent.len()
                && sent[t].video_id == record.video_id && sent[t].updated_at
                == progress[i].updated_at && (forall|later: int|
                t < later < sent.len() ==> (#[trigger] sent[later]).video_id != record.video_id)
                ==> outcome == Ok::<Seq<ProgressView>, ProgressErrorView>(after)
            &&& is_video_id(record.video_id) && is_first && (forall|other: int|
                0 <= other < sent.len() && (#[trigger] sent[other]).video_id == record.video_id
                    ==> sent[other].updated_at != progress[i].updated_at) ==> outcome == Ok::<
                Seq<ProgressView>,
                ProgressErrorView,
            >(progress)
        }),
{
    assert(seq![record].drop_last() =~= Seq::<ProgressView>::empty());
    assert(applied(progress, seq![record].drop_last(), sent, at) == Ok::<
        Seq<ProgressView>,
        ProgressErrorView,
    >(progress));
    if forall|j: int|
        0 <= j < progress.len() ==> (#[trigger] progress[j]).video_id != record.video_id {
        nothing_is_found(progress, record.video_id);
    }
    if 0 <= i < progress.len() && progress[i].video_id == record.video_id && forall|j: int|
        0 <= j < i ==> (#[trigger] progress[j]).video_id != record.video_id {
        first_is_found(progress, i);
        if 0 <= t < sent.len() && sent[t].video_id == record.video_id && (forall|later: int|
            t < later < sent.len() ==> (#[trigger] sent[later]).video_id != record.video_id) {
            last_token_counts(sent, record.video_id, t);
        }
        if forall|other: int|
            0 <= other < sent.len() && (#[trigger] sent[other]).video_id == record.video_id
                ==> sent[other].updated_at != progress[i].updated_at {
            other_tokens_do_not_count(sent, record.video_id, progress[i].updated_at);
        }
    }
}

/// What is saved is returned, and comes last in what is known from then on, behind all that is
/// known of other videos. The position is the one that was asked for, unless it is past the end
/// or the video was completed, which both make it the end.
pub proof fn saving_keeps_the_rest(
    request: SaveView,
    at: Seq<char>,
    progress: Seq<ProgressView>,
    outcome: Result<(WatchProgressRecord, Vec<WatchProgressRecord>), WatchProgressError>,
)
    requires
        is_video_id(request.video_id),
        request.position_seconds.bits < 0x7ff0_0000_0000_0000,
        0 < request.duration_seconds.bits < 0x7ff0_0000_0000_0000,
        saves(request, at, Ok(progress), outcome),
    ensures
        outcome matches Ok((record, all)) && {
            let position = request.position_seconds.bits;
            let duration = request.duration_seconds.bits;
            &&& record@.video_id == request.video_id
            &&& record@.updated_at == at
            &&& record@.position_seconds.bits == if request.completed || position > duration {
                duration
            } else {
                position
            }
            &&& progress_of(all@).last() == record@
            &&& progress_of(all@).drop_last() == progress_without(progress, request.video_id)
        },
{
    position_is_saved(request, at);
    let record = saved(request, at)->Ok_0;
    other_progress_keeps_its_order(progress, record, request.video_id);
}

/// Where what is known cannot be read, nothing is changed: the reason is returned, by each of the
/// three operations; but a progress that cannot be is refused as such even then.
pub proof fn unreadable_progress_is_returned(
    request: SaveView,
    at: Seq<char>,
    reason: ProgressErrorView,
    outcome: Result<(WatchProgressRecord, Vec<WatchProgressRecord>), WatchProgressError>,
    remote: Seq<ProgressView>,
    tokens: Seq<TokenView>,
)
    requires
        saves(request, at, Err(reason), outcome),
    ensures
        outcome matches Err(error) && error@ == match saved(request, at) {
            Ok(_) => reason,
            Err(refusal) => refusal,
        },
        marking(tokens, at, Err(reason)) == Err::<Seq<ProgressView>, ProgressErrorView>(reason),
        applying(remote, tokens, at, Err(reason)) == Err::<Seq<ProgressView>, ProgressErrorView>(
            reason,
        ),
{
}

/// What is known can be read: marking and taking over then do what they do to it.
pub proof fn readable_progress_is_changed(
    progress: Seq<ProgressView>,
    remote: Seq<ProgressView>,
    tokens: Seq<TokenView>,
    at: Seq<char>,
)
    ensures
        marking(tokens, at, Ok(progress)) == Ok::<Seq<ProgressView>, ProgressErrorView>(
            marked(progress, tokens, at),
        ),
        applying(remote, tokens, at, Ok(progress)) == applied(progress, remote, tokens, at),
{
}

} // verus!
