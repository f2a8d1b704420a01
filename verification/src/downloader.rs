//! The course of a download.
//!
//! A download goes through stages. At each stage its driver does one thing, and tells the
//! download what came of it, which decides on the next stage.

use vstd::arithmetic::div_mod::*;
use vstd::prelude::*;
use vstd::string::*;

use crate::download::{
    download_fault, encrypted_file_name, file_name_of, parsed_scheme, refusal, validate_request,
    DownloadError, DownloadErrorView, DownloadRecord, DownloadRecordView, DownloadRequest,
    DownloadRequestView,
};
use crate::text::{decimal, decimal_string};
use crate::writer::EncryptedFileWriter;

verus! {

/// What is to be done next.
#[derive(Debug, Clone, Copy, PartialEq, Eq, Structural)]
pub enum Stage {
    /// Make the directory, and remove what is left of an earlier try.
    Prepare,
    /// Set up the client.
    Connect,
    /// Ask the server for the video.
    Request,
    /// Announce that the video comes.
    Announce,
    /// Start the encrypted file.
    CreateFile,
    /// Wait for the next part of the video.
    Receive,
    /// Encrypt a part of the given length.
    Store(u64),
    /// Announce how much has come.
    Report,
    /// Complete the encrypted file.
    Finish,
    /// Remove an earlier file of the video.
    Replace,
    /// Put the encrypted file in its place.
    Rename,
    /// Enter the video in the index.
    Record,
    /// Announce that the video is there.
    Complete,
    /// Remove the encrypted file, and announce that the download failed.
    Discard,
    /// Nothing.
    Done,
}

/// What came of it.
pub enum Input {
    /// It was done.
    Succeeded,
    /// It failed, with this report.
    Failed(String),
    /// The index could not be changed, for this reason.
    Refused(DownloadError),
    /// The server responded.
    Responded { status: u16, content_length: Option<u64> },
    /// A part of the given length came.
    Received(u64),
    /// There are no more parts.
    Ended,
    /// The file is complete, with a video of this size.
    Finished(u64),
    /// The file is in its place, at this time in seconds.
    Renamed(u64),
}

/// What a download announces.
#[derive(Debug)]
pub enum DownloadEvent {
    Started { video_id: String, total_bytes: Option<u64> },
    Progress {
        video_id: String,
        downloaded_bytes: u64,
        total_bytes: Option<u64>,
        percentage: Option<u8>,
    },
    Completed { video_id: String, record: DownloadRecord },
    Failed { video_id: String, error: DownloadError },
}

/// A `DownloadEvent` with its texts as sequences.
pub enum DownloadEventView {
    Started { video_id: Seq<char>, total_bytes: Option<u64> },
    Progress {
        video_id: Seq<char>,
        downloaded_bytes: u64,
        total_bytes: Option<u64>,
        percentage: Option<u8>,
    },
    Completed { video_id: Seq<char>, record: DownloadRecordView },
    Failed { video_id: Seq<char>, error: DownloadErrorView },
}

impl View for DownloadEvent {
    type V = DownloadEventView;

    open spec fn view(&self) -> DownloadEventView {
        match *self {
            DownloadEvent::Started { video_id, total_bytes } => DownloadEventView::Started {
                video_id: video_id@,
                total_bytes,
            },
            DownloadEvent::Progress {
                video_id,
                downloaded_bytes,
                total_bytes,
                percentage,
            } => DownloadEventView::Progress {
                video_id: video_id@,
                downloaded_bytes,
                total_bytes,
                percentage,
            },
            DownloadEvent::Completed { video_id, record } => DownloadEventView::Completed {
                video_id: video_id@,
                record: record@,
            },
            DownloadEvent::Failed { video_id, error } => DownloadEventView::Failed {
                video_id: video_id@,
                error: error@,
            },
        }
    }
}

/// A download on its way.
pub struct Download {
    request: DownloadRequest,
    stage: Stage,
    total_bytes: Option<u64>,
    downloaded_bytes: u64,
    last_logged: Option<u8>,
    size_bytes: u64,
    outcome: Option<Result<DownloadRecord, DownloadError>>,
}

/// A `Download` with its texts as sequences.
pub struct DownloadView {
    pub request: DownloadRequestView,
    pub stage: Stage,
    /// The size of the video, as far as it is known before it has come.
    pub total_bytes: Option<u64>,
    /// The number of bytes that have been encrypted.
    pub downloaded_bytes: u64,
    /// The percentage that was logged last.
    pub last_logged: Option<u8>,
    /// The size of the video, once the file is complete.
    pub size_bytes: u64,
    /// What comes of the download, once that is known.
    pub outcome: Option<Result<DownloadRecordView, DownloadErrorView>>,
}

impl View for Download {
    type V = DownloadView;

    closed spec fn view(&self) -> DownloadView {
        DownloadView {
            request: self.request@,
            stage: self.stage,
            total_bytes: self.total_bytes,
            downloaded_bytes: self.downloaded_bytes,
            last_logged: self.last_logged,
            size_bytes: self.size_bytes,
            outcome: match self.outcome {
                None => None,
                Some(Ok(record)) => Some(Ok(record@)),
                Some(Err(error)) => Some(Err(error@)),
            },
        }
    }
}

/// How much of a video has come, in percent.
pub open spec fn percentage_of(downloaded: u64, total: u64) -> u8 {
    let scaled = if downloaded * 100 <= u64::MAX {
        downloaded * 100
    } else {
        u64::MAX as int
    };
    if total == 0 {
        0
    } else if scaled / total as int >= 100 {
        100
    } else {
        (scaled / total as int) as u8
    }
}

/// How much of a video has come, in percent, where its size is known.
pub open spec fn progress_of(download: DownloadView) -> Option<u8> {
    match download.total_bytes {
        Some(total) => Some(percentage_of(download.downloaded_bytes, total)),
        None => None,
    }
}

/// Whether the progress is worth a line in the log: the first, each further tenth, and the end.
pub open spec fn is_milestone(percentage: u8, last_logged: Option<u8>) -> bool {
    percentage == 100 || match last_logged {
        Some(last) => percentage / 10 > last / 10,
        None => true,
    }
}

/// The size of a video, as the server or else the request gives it.
pub open spec fn expected_size(content_length: Option<u64>, size_bytes: u64) -> Option<u64> {
    match content_length {
        Some(length) => Some(length),
        None => if size_bytes > 0 {
            Some(size_bytes)
        } else {
            None
        },
    }
}

/// Whether a response is one with the video.
pub open spec fn is_success(status: u16) -> bool {
    200 <= status < 300
}

/// The code of the error for what fails at a stage.
pub open spec fn failure_code(stage: Stage) -> Seq<char> {
    match stage {
        Stage::Prepare => "APP_DATA_ERROR"@,
        Stage::Connect => "HTTP_CLIENT_ERROR"@,
        Stage::Request | Stage::Receive => "NETWORK_ERROR"@,
        Stage::Announce | Stage::Report | Stage::Complete => "CHANNEL_ERROR"@,
        Stage::CreateFile | Stage::Store(_) | Stage::Finish => "ENCRYPTION_ERROR"@,
        Stage::Replace => "FILE_REPLACE_ERROR"@,
        Stage::Rename => "FILE_RENAME_ERROR"@,
        Stage::Record | Stage::Discard | Stage::Done => ""@,
    }
}

/// The record of a video that was downloaded.
pub open spec fn new_record(
    request: DownloadRequestView,
    size_bytes: u64,
    seconds: u64,
) -> DownloadRecordView {
    DownloadRecordView {
        video_id: request.video_id,
        title: request.title,
        description: request.description,
        source_url: request.source_url,
        size_bytes,
        file_name: file_name_of(request.video_id),
        downloaded_at: decimal(seconds as nat),
    }
}

/// Whether a download at a stage can be told this.
pub open spec fn fits(download: DownloadView, input: Input) -> bool {
    match input {
        Input::Succeeded => match download.stage {
            Stage::Prepare
            | Stage::Connect
            | Stage::Announce
            | Stage::CreateFile
            | Stage::Report
            | Stage::Replace
            | Stage::Record
            | Stage::Complete
            | Stage::Discard => true,
            Stage::Store(len) => download.downloaded_bytes + len <= u64::MAX,
            _ => false,
        },
        Input::Failed(_) => !(download.stage is Record || download.stage is Done),
        Input::Refused(_) => download.stage is Record,
        Input::Responded { .. } => download.stage is Request,
        Input::Received(_) => download.stage is Receive,
        Input::Ended => download.stage is Receive,
        Input::Finished(_) => download.stage is Finish,
        Input::Renamed(_) => download.stage is Rename,
    }
}

/// A download that has failed.
pub open spec fn failing(download: DownloadView, error: DownloadErrorView) -> DownloadView {
    DownloadView { stage: Stage::Discard, outcome: Some(Err(error)), ..download }
}

/// A download once something was done.
pub open spec fn advanced(download: DownloadView) -> DownloadView {
    match download.stage {
        Stage::Prepare => DownloadView { stage: Stage::Connect, ..download },
        Stage::Connect => DownloadView { stage: Stage::Request, ..download },
        Stage::Announce => DownloadView { stage: Stage::CreateFile, ..download },
        Stage::CreateFile => DownloadView { stage: Stage::Receive, ..download },
        Stage::Store(len) => DownloadView {
            stage: Stage::Report,
            downloaded_bytes: (download.downloaded_bytes + len) as u64,
            ..download
        },
        Stage::Report => DownloadView {
            stage: Stage::Receive,
            last_logged: match progress_of(download) {
                Some(percentage) => if is_milestone(percentage, download.last_logged) {
                    Some(percentage)
                } else {
                    download.last_logged
                },
                None => download.last_logged,
            },
            ..download
        },
        Stage::Replace => DownloadView { stage: Stage::Rename, ..download },
        Stage::Record => DownloadView { stage: Stage::Complete, ..download },
        _ => DownloadView { stage: Stage::Done, ..download },
    }
}

/// A download once it was told what came of its stage.
pub open spec fn told(download: DownloadView, input: Input) -> DownloadView {
    match input {
        Input::Succeeded => advanced(download),
        Input::Failed(report) => {
            let error = download_fault(failure_code(download.stage), report@);
            match download.stage {
                Stage::Discard => DownloadView { stage: Stage::Done, ..download },
                Stage::Complete => DownloadView {
                    stage: Stage::Done,
                    outcome: Some(Err(error)),
                    ..download
                },
                _ => failing(download, error),
            }
        },
        Input::Refused(error) => failing(download, error@),
        Input::Responded { status, content_length } => if is_success(status) {
            DownloadView {
                stage: Stage::Announce,
                total_bytes: expected_size(content_length, download.request.size_bytes),
                ..download
            }
        } else {
            failing(
                download,
                download_fault(
                    "HTTP_ERROR"@,
                    "影片伺服器回應 HTTP "@ + decimal(status as nat),
                ),
            )
        },
        Input::Received(len) => DownloadView { stage: Stage::Store(len), ..download },
        Input::Ended => DownloadView { stage: Stage::Finish, ..download },
        Input::Finished(size) => DownloadView {
            stage: Stage::Replace,
            size_bytes: size,
            ..download
        },
        Input::Renamed(seconds) => DownloadView {
            stage: Stage::Record,
            outcome: Some(Ok(new_record(download.request, download.size_bytes, seconds))),
            ..download
        },
    }
}

/// What is announced at a stage.
pub open spec fn announcement(download: DownloadView) -> Option<DownloadEventView> {
    let video_id = download.request.video_id;
    match (download.stage, download.outcome) {
        (Stage::Announce, _) => Some(
            DownloadEventView::Started { video_id, total_bytes: download.total_bytes },
        ),
        (Stage::Report, _) => Some(
            DownloadEventView::Progress {
                video_id,
                downloaded_bytes: download.downloaded_bytes,
                total_bytes: download.total_bytes,
                percentage: progress_of(download),
            },
        ),
        (Stage::Complete, Some(Ok(record))) => Some(
            DownloadEventView::Completed { video_id, record },
        ),
        (Stage::Discard, Some(Err(error))) => Some(DownloadEventView::Failed { video_id, error }),
        _ => None,
    }
}

/// A download that has just been asked for: refused at once, or to be started.
pub open spec fn begun(
    request: DownloadRequestView,
    refused: Option<DownloadErrorView>,
) -> DownloadView {
    DownloadView {
        request,
        stage: if refused is Some {
            Stage::Discard
        } else {
            Stage::Prepare
        },
        total_bytes: None,
        downloaded_bytes: 0,
        last_logged: None,
        size_bytes: 0,
        outcome: match refused {
            Some(error) => Some(Err(error)),
            None => None,
        },
    }
}

/// Whether the outcome is known at the stages that need it, and at no other.
pub open spec fn is_consistent(download: DownloadView) -> bool {
    match download.stage {
        Stage::Record | Stage::Complete => download.outcome matches Some(Ok(_)),
        Stage::Discard => download.outcome matches Some(Err(_)),
        Stage::Done => download.outcome is Some,
        _ => download.outcome is None,
    }
}

/// How much of a video has come, in percent.
pub fn percentage(downloaded: u64, total: u64) -> (percentage: u8)
    ensures
        percentage == percentage_of(downloaded, total),
{
    if total == 0 {
        return 0;
    }
    let scaled: u64 = match downloaded.checked_mul(100) {
        Some(scaled) => scaled,
        None => 0xffff_ffff_ffff_ffff,
    };
    let quotient: u64 = scaled / total;
    if quotient >= 100 {
        100
    } else {
        quotient as u8
    }
}

/// The size of a video, as the server or else the request gives it.
pub fn total_bytes(content_length: Option<u64>, size_bytes: u64) -> (total: Option<u64>)
    ensures
        total == expected_size(content_length, size_bytes),
{
    match content_length {
        Some(length) => Some(length),
        None => {
            if size_bytes > 0 {
                Some(size_bytes)
            } else {
                None
            }
        },
    }
}

/// Whether the progress is worth a line in the log.
pub fn milestone(percentage: u8, last_logged: Option<u8>) -> (answer: bool)
    ensures
        answer == is_milestone(percentage, last_logged),
{
    let crossed = match last_logged {
        Some(last) => percentage / 10 > last / 10,
        None => true,
    };
    crossed || percentage == 100
}

/// The code of the error for what fails at a stage.
pub fn code_of_failure(stage: Stage) -> (code: &'static str)
    ensures
        code@ == failure_code(stage),
{
    match stage {
        Stage::Prepare => "APP_DATA_ERROR",
        Stage::Connect => "HTTP_CLIENT_ERROR",
        Stage::Request | Stage::Receive => "NETWORK_ERROR",
        Stage::Announce | Stage::Report | Stage::Complete => "CHANNEL_ERROR",
        Stage::CreateFile | Stage::Store(_) | Stage::Finish => "ENCRYPTION_ERROR",
        Stage::Replace => "FILE_REPLACE_ERROR",
        Stage::Rename => "FILE_RENAME_ERROR",
        Stage::Record | Stage::Discard | Stage::Done => "",
    }
}

impl Download {
    /// A download of a request that was checked, with what came of the check.
    pub fn begin(request: DownloadRequest, checked: Result<(), DownloadError>) -> (download: Self)
        ensures
            download@ == begun(
                request@,
                match checked {
                    Ok(()) => None,
                    Err(error) => Some(error@),
                },
            ),
            is_consistent(download@),
    {
        let (stage, outcome) = match checked {
            Ok(()) => (Stage::Prepare, None),
            Err(error) => (Stage::Discard, Some(Err(error))),
        };
        Download {
            request,
            stage,
            total_bytes: None,
            downloaded_bytes: 0,
            last_logged: None,
            size_bytes: 0,
            outcome,
        }
    }

    /// The download of a request.
    pub fn start(request: DownloadRequest) -> (download: Self)
        ensures
            download@ == begun(
                request@,
                refusal(request@, parsed_scheme(request@.source_url)),
            ),
            is_consistent(download@),
    {
        let checked = validate_request(&request);
        Self::begin(request, checked)
    }

    /// What is to be done next.
    pub fn stage(&self) -> (stage: Stage)
        ensures
            stage == self@.stage,
    {
        self.stage
    }

    /// What was asked for.
    pub fn request(&self) -> (request: &DownloadRequest)
        ensures
            request@ == self@.request,
    {
        &self.request
    }

    /// How much of the video has come, in percent, where its size is known.
    pub fn progress(&self) -> (progress: Option<u8>)
        ensures
            progress == progress_of(self@),
    {
        match self.total_bytes {
            Some(total) => Some(percentage(self.downloaded_bytes, total)),
            None => None,
        }
    }

    /// Whether the progress is worth a line in the log.
    pub fn is_at_milestone(&self) -> (answer: bool)
        ensures
            answer == (progress_of(self@) matches Some(percentage) && is_milestone(
                percentage,
                self@.last_logged,
            )),
    {
        match self.progress() {
            Some(percentage) => milestone(percentage, self.last_logged),
            None => false,
        }
    }

    /// What is announced at this stage.
    pub fn event(&self) -> (event: Option<DownloadEvent>)
        ensures
            match event {
                Some(event) => announcement(self@) == Some(event@),
                None => announcement(self@) is None,
            },
    {
        match self.stage {
            Stage::Announce => Some(
                DownloadEvent::Started {
                    video_id: self.request.video_id.clone(),
                    total_bytes: self.total_bytes,
                },
            ),
            Stage::Report => Some(
                DownloadEvent::Progress {
                    video_id: self.request.video_id.clone(),
                    downloaded_bytes: self.downloaded_bytes,
                    total_bytes: self.total_bytes,
                    percentage: self.progress(),
                },
            ),
            Stage::Complete => match &self.outcome {
                Some(Ok(record)) => Some(
                    DownloadEvent::Completed {
                        video_id: self.request.video_id.clone(),
                        record: record.clone(),
                    },
                ),
                _ => None,
            },
            Stage::Discard => match &self.outcome {
                Some(Err(error)) => Some(
                    DownloadEvent::Failed {
                        video_id: self.request.video_id.clone(),
                        error: error.clone(),
                    },
                ),
                _ => None,
            },
            _ => None,
        }
    }

    /// The record of the video, at the stage at which it is entered in the index.
    pub fn record(&self) -> (record: DownloadRecord)
        requires
            is_consistent(self@),
            self@.stage is Record,
        ensures
            self@.outcome == Some(Ok::<DownloadRecordView, DownloadErrorView>(record@)),
    {
        match &self.outcome {
            Some(Ok(record)) => record.clone(),
            _ => {
                assert(false);
                Self::new_record(&self.request, 0, 0)
            },
        }
    }

    /// What came of the download.
    pub fn outcome(self) -> (outcome: Result<DownloadRecord, DownloadError>)
        requires
            is_consistent(self@),
            self@.stage is Done,
        ensures
            self@.outcome == Some(
                match outcome {
                    Ok(record) => Ok::<DownloadRecordView, DownloadErrorView>(record@),
                    Err(error) => Err(error@),
                },
            ),
    {
        match self.outcome {
            Some(outcome) => outcome,
            None => {
                assert(false);
                Err(DownloadError::new("", ""))
            },
        }
    }

    /// The record of a video that was downloaded.
    fn new_record(request: &DownloadRequest, size_bytes: u64, seconds: u64) -> (record:
        DownloadRecord)
        ensures
            record@ == new_record(request@, size_bytes, seconds),
    {
        DownloadRecord {
            video_id: request.video_id.clone(),
            title: request.title.clone(),
            description: request.description.clone(),
            source_url: request.source_url.clone(),
            size_bytes,
            file_name: encrypted_file_name(request.video_id.as_str()),
            downloaded_at: decimal_string(seconds),
        }
    }

    /// The download has failed.
    fn fail(&mut self, error: DownloadError)
        ensures
            final(self)@ == failing(old(self)@, error@),
    {
        self.stage = Stage::Discard;
        self.outcome = Some(Err(error));
    }

    /// What was to be done was done.
    fn advance(&mut self)
        requires
            fits(old(self)@, Input::Succeeded),
        ensures
            final(self)@ == advanced(old(self)@),
    {
        match self.stage {
            Stage::Prepare => {
                self.stage = Stage::Connect;
            },
            Stage::Connect => {
                self.stage = Stage::Request;
            },
            Stage::Announce => {
                self.stage = Stage::CreateFile;
            },
            Stage::CreateFile => {
                self.stage = Stage::Receive;
            },
            Stage::Store(len) => {
                self.downloaded_bytes = self.downloaded_bytes + len;
                self.stage = Stage::Report;
            },
            Stage::Report => {
                if let Some(percentage) = self.progress() {
                    if milestone(percentage, self.last_logged) {
                        self.last_logged = Some(percentage);
                    }
                }
                self.stage = Stage::Receive;
            },
            Stage::Replace => {
                self.stage = Stage::Rename;
            },
            Stage::Record => {
                self.stage = Stage::Complete;
            },
            _ => {
                self.stage = Stage::Done;
            },
        }
    }

    /// Whether the download can be told this at its stage.
    pub fn accepts(&self, input: &Input) -> (answer: bool)
        ensures
            answer == fits(self@, *input),
    {
        match input {
            Input::Succeeded => match self.stage {
                Stage::Request | Stage::Receive | Stage::Finish | Stage::Rename | Stage::Done => {
                    false
                },
                Stage::Store(len) => len <= 0xffff_ffff_ffff_ffff - self.downloaded_bytes,
                _ => true,
            },
            Input::Failed(_) => match self.stage {
                Stage::Record | Stage::Done => false,
                _ => true,
            },
            Input::Refused(_) => matches!(self.stage, Stage::Record),
            Input::Responded { .. } => matches!(self.stage, Stage::Request),
            Input::Received(_) => matches!(self.stage, Stage::Receive),
            Input::Ended => matches!(self.stage, Stage::Receive),
            Input::Finished(_) => matches!(self.stage, Stage::Finish),
            Input::Renamed(_) => matches!(self.stage, Stage::Rename),
        }
    }

    /// Takes note of what came of the stage, and goes on to the next.
    pub fn step(&mut self, input: Input)
        requires
            is_consistent(old(self)@),
            fits(old(self)@, input),
        ensures
            final(self)@ == told(old(self)@, input),
            is_consistent(final(self)@),
    {
        match input {
            Input::Succeeded => {
                self.advance();
            },
            Input::Failed(report) => {
                let error = DownloadError::new(code_of_failure(self.stage), report.as_str());
                match self.stage {
                    Stage::Discard => {
                        self.stage = Stage::Done;
                    },
                    Stage::Complete => {
                        self.stage = Stage::Done;
                        self.outcome = Some(Err(error));
                    },
                    _ => {
                        self.fail(error);
                    },
                }
            },
            Input::Refused(error) => {
                self.fail(error);
            },
            Input::Responded { status, content_length } => {
                if 200 <= status && status < 300 {
                    self.total_bytes = total_bytes(content_length, self.request.size_bytes);
                    self.stage = Stage::Announce;
                } else {
                    let mut message = String::from_str("影片伺服器回應 HTTP ");
                    message.append(decimal_string(status as u64).as_str());
                    self.fail(DownloadError::new("HTTP_ERROR", message.as_str()));
                }
            },
            Input::Received(len) => {
                self.stage = Stage::Store(len);
            },
            Input::Ended => {
                self.stage = Stage::Finish;
            },
            Input::Finished(size) => {
                self.size_bytes = size;
                self.stage = Stage::Replace;
            },
            Input::Renamed(seconds) => {
                let record = Self::new_record(&self.request, self.size_bytes, seconds);
                self.outcome = Some(Ok(record));
                self.stage = Stage::Record;
            },
        }
    }
}

/// Whatever a download is told, its outcome is known at the stages that need it, and at no
/// other, and it stays the download of its request.
pub proof fn download_stays_consistent(download: DownloadView, input: Input)
    requires
        is_consistent(download),
        fits(download, input),
    ensures
        is_consistent(told(download, input)),
        told(download, input).request == download.request,
{
}

/// What fails before the video is in the index ends the download: the error is announced, and
/// returned whether or not the announcement was received.
pub proof fn failure_is_announced_and_returned(download: DownloadView, report: String, last: Input)
    requires
        fits(download, Input::Failed(report)),
        !(download.stage is Complete || download.stage is Discard),
        fits(told(download, Input::Failed(report)), last),
    ensures
        ({
            let error = download_fault(failure_code(download.stage), report@);
            let failed = told(download, Input::Failed(report));
            &&& announcement(failed) == Some(
                DownloadEventView::Failed { video_id: download.request.video_id, error },
            )
            &&& told(failed, last).stage is Done
            &&& told(failed, last).outcome == Some(
                Err::<DownloadRecordView, DownloadErrorView>(error),
            )
        }),
{
}

/// A request that is refused is never sent: the refusal is announced and returned.
pub proof fn refused_request_is_not_sent(
    request: DownloadRequestView,
    error: DownloadErrorView,
    last: Input,
)
    requires
        fits(begun(request, Some(error)), last),
    ensures
        ({
            let refused = begun(request, Some(error));
            &&& announcement(refused) == Some(
                DownloadEventView::Failed { video_id: request.video_id, error },
            )
            &&& told(refused, last).stage is Done
            &&& told(refused, last).outcome == Some(
                Err::<DownloadRecordView, DownloadErrorView>(error),
            )
        }),
{
}

/// An earlier file of a video is removed only once the new one is complete, a video is entered
/// in the index only once its file is in its place, and it is announced only once it is in the
/// index.
pub proof fn stages_come_in_order(download: DownloadView, input: Input)
    requires
        fits(download, input),
    ensures
        told(download, input).stage is Replace ==> download.stage is Finish && input is Finished,
        told(download, input).stage is Rename ==> download.stage is Replace && input is Succeeded,
        told(download, input).stage is Record ==> download.stage is Rename && input is Renamed,
        told(download, input).stage is Complete ==> download.stage is Record && input is Succeeded,
{
}

/// A download that was told several things, one after the other.
pub open spec fn told_all(download: DownloadView, inputs: Seq<Input>) -> DownloadView
    decreases inputs.len(),
{
    if inputs.len() == 0 {
        download
    } else {
        told(told_all(download, inputs.drop_last()), inputs.last())
    }
}

/// Whether a download can be told several things, one after the other.
pub open spec fn fits_all(download: DownloadView, inputs: Seq<Input>) -> bool
    decreases inputs.len(),
{
    inputs.len() > 0 ==> {
        &&& fits_all(download, inputs.drop_last())
        &&& fits(told_all(download, inputs.drop_last()), inputs.last())
    }
}

/// The number of bytes that came.
pub open spec fn received(inputs: Seq<Input>) -> nat
    decreases inputs.len(),
{
    if inputs.len() == 0 {
        0
    } else {
        received(inputs.drop_last()) + match inputs.last() {
            Input::Received(len) => len as nat,
            _ => 0,
        }
    }
}

/// As long as nothing failed, the number of bytes that a download reports is the number of bytes
/// that came.
pub proof fn bytes_add_up(request: DownloadRequestView, inputs: Seq<Input>)
    requires
        fits_all(begun(request, None), inputs),
    ensures
        ({
            let download = told_all(begun(request, None), inputs);
            match download.stage {
                Stage::Store(len) => download.downloaded_bytes + len == received(inputs),
                Stage::Discard | Stage::Done => true,
                _ => download.downloaded_bytes == received(inputs),
            }
        }),
        ({
            let download = told_all(begun(request, None), inputs);
            match download.stage {
                Stage::Prepare
                | Stage::Connect
                | Stage::Request
                | Stage::Announce
                | Stage::CreateFile => received(inputs) == 0,
                _ => true,
            }
        }),
    decreases inputs.len(),
{
    if inputs.len() > 0 {
        bytes_add_up(request, inputs.drop_last());
    }
}

/// A download that succeeds returns the record of what was asked for, with the size of the file
/// that was completed.
pub proof fn record_is_of_the_request(request: DownloadRequestView, inputs: Seq<Input>)
    requires
        fits_all(begun(request, None), inputs),
    ensures
        told_all(begun(request, None), inputs).request == request,
        told_all(begun(request, None), inputs).outcome matches Some(Ok(record)) ==> {
            &&& record.video_id == request.video_id
            &&& record.title == request.title
            &&& record.description == request.description
            &&& record.source_url == request.source_url
            &&& record.file_name == file_name_of(request.video_id)
            &&& record.size_bytes == told_all(begun(request, None), inputs).size_bytes
        },
        is_consistent(told_all(begun(request, None), inputs)),
    decreases inputs.len(),
{
    if inputs.len() > 0 {
        record_is_of_the_request(request, inputs.drop_last());
    }
}

/// Whether a writer was handed what a download was told: each part that came, and nothing else.
/// The size that the download is told at the end is the number of bytes that the writer counted.
pub open spec fn is_fed(
    before: EncryptedFileWriter,
    input: Input,
    after: EncryptedFileWriter,
) -> bool {
    match input {
        Input::Received(len) => after.written() == before.written() + len,
        Input::Finished(size) => size == before.written() && after.written() == size,
        _ => after.written() == before.written(),
    }
}

/// A writer that is handed each part as it comes counts the bytes that came, and the record of a
/// download that succeeds gives that number as the size of the video.
pub proof fn recorded_size_is_what_came(
    request: DownloadRequestView,
    inputs: Seq<Input>,
    writers: Seq<EncryptedFileWriter>,
)
    requires
        fits_all(begun(request, None), inputs),
        writers.len() == inputs.len() + 1,
        writers[0].written() == 0,
        forall|i: int|
            0 <= i < inputs.len() ==> is_fed(writers[i], #[trigger] inputs[i], writers[i + 1]),
    ensures
        writers.last().written() == received(inputs),
        ({
            let download = told_all(begun(request, None), inputs);
            match download.stage {
                Stage::Replace | Stage::Rename => download.size_bytes == received(inputs),
                _ => true,
            }
        }),
        told_all(begun(request, None), inputs).outcome matches Some(Ok(record))
            ==> record.size_bytes == received(inputs),
    decreases inputs.len(),
{
    record_is_of_the_request(request, inputs);
    if inputs.len() > 0 {
        let rest = inputs.drop_last();
        let earlier = writers.drop_last();
        record_is_of_the_request(request, rest);
        assert forall|i: int| 0 <= i < rest.len() implies is_fed(
            earlier[i],
            #[trigger] rest[i],
            earlier[i + 1],
        ) by {
            assert(rest[i] == inputs[i]);
            assert(is_fed(writers[i], inputs[i], writers[i + 1]));
        }
        recorded_size_is_what_came(request, rest, earlier);
        let last = inputs.len() - 1;
        assert(is_fed(writers[last], inputs[last], writers[last + 1]));
    }
}

/// The progress is at most 100 percent, never goes back, and is 100 percent when everything has
/// come. The last does not hold of a video of more than a hundredth of the bytes that 64 bits
/// can count.
pub proof fn progress_goes_up(downloaded1: u64, downloaded2: u64, total: u64)
    requires
        downloaded1 <= downloaded2,
    ensures
        percentage_of(downloaded1, total) <= percentage_of(downloaded2, total) <= 100,
        0 < total <= downloaded2 && downloaded2 * 100 <= u64::MAX ==> percentage_of(
            downloaded2,
            total,
        ) == 100,
{
    if total > 0 {
        let scaled1 = if downloaded1 * 100 <= u64::MAX {
            downloaded1 * 100
        } else {
            u64::MAX as int
        };
        let scaled2 = if downloaded2 * 100 <= u64::MAX {
            downloaded2 * 100
        } else {
            u64::MAX as int
        };
        lemma_div_is_ordered(scaled1, scaled2, total as int);
        lemma_div_pos_is_pos(scaled1, total as int);
        if total <= downloaded2 && downloaded2 * 100 <= u64::MAX {
            lemma_div_is_ordered(total * 100, scaled2, total as int);
            lemma_div_multiples_vanish(100, total as int);
            assert(total * 100 == (total as int) * 100);
        }
    }
}

/// A quotient is the largest number that does not exceed the share.
proof fn quotient_is_bracketed(scaled: int, total: int)
    requires
        0 <= scaled,
        0 < total,
    ensures
        (scaled / total) * total <= scaled < (scaled / total + 1) * total,
        0 <= scaled / total,
{
    lemma_fundamental_div_mod(scaled, total);
    lemma_mod_bound(scaled, total);
    lemma_div_pos_is_pos(scaled, total);
    let quotient = scaled / total;
    assert(quotient * total <= scaled < (quotient + 1) * total) by (nonlinear_arith)
        requires
            scaled == total * quotient + scaled % total,
            0 <= scaled % total < total,
    ;
}

/// The percentage is the number of whole hundredths of the video that have come: one hundredth
/// more than it says has not come yet, and all that came is counted. It is 100 once everything
/// has come. Where a hundred times the bytes that came exceeds what 64 bits can count, that limit
/// stands in for it.
pub proof fn percentage_is_exact(downloaded: u64, total: u64)
    requires
        0 < total,
    ensures
        ({
            let p = percentage_of(downloaded, total) as int;
            &&& downloaded * 100 <= u64::MAX && downloaded >= total ==> p == 100
            &&& downloaded * 100 <= u64::MAX && downloaded < total ==> p * total <= downloaded * 100
                < (p + 1) * total
            &&& downloaded * 100 > u64::MAX && total > 0x28f_5c28_f5c2_8f5c ==> p * total
                <= 0xffff_ffff_ffff_ffff < (p + 1) * total
            &&& downloaded * 100 > u64::MAX && total <= 0x28f_5c28_f5c2_8f5c ==> p == 100
        }),
{
    if downloaded * 100 <= u64::MAX {
        let scaled = downloaded * 100;
        let quotient = scaled / total as int;
        quotient_is_bracketed(scaled, total as int);
        if downloaded >= total {
            progress_goes_up(downloaded, downloaded, total);
        } else {
            assert(quotient < 100) by (nonlinear_arith)
                requires
                    quotient * total <= scaled,
                    scaled < 100 * total,
                    0 < total,
            ;
        }
    } else {
        let scaled = u64::MAX as int;
        let quotient = scaled / total as int;
        quotient_is_bracketed(scaled, total as int);
        if total > 0x28f_5c28_f5c2_8f5c {
            assert(quotient < 100) by (nonlinear_arith)
                requires
                    quotient * total <= 0xffff_ffff_ffff_ffff,
                    total > 0x28f_5c28_f5c2_8f5c,
            ;
        } else {
            assert(quotient >= 100) by (nonlinear_arith)
                requires
                    0xffff_ffff_ffff_ffff < (quotient + 1) * total,
                    0 < total <= 0x28f_5c28_f5c2_8f5c,
            ;
        }
    }
}

/// A part that comes is stored, counted and reported: the report tells the bytes that have come
/// with it, the size of the video where that is known, and what share of it that is. Then the next
/// part is waited for.
pub proof fn parts_are_counted_and_reported(download: DownloadView, len: u64)
    requires
        download.stage is Receive,
        download.downloaded_bytes + len <= u64::MAX,
    ensures
        ({
            let came = told(download, Input::Received(len));
            let stored = told(came, Input::Succeeded);
            let reported = told(stored, Input::Succeeded);
            &&& came == (DownloadView { stage: Stage::Store(len), ..download })
            &&& fits(download, Input::Received(len)) && fits(came, Input::Succeeded) && fits(
                stored,
                Input::Succeeded,
            )
            &&& announcement(came) is None
            &&& stored.downloaded_bytes == download.downloaded_bytes + len
            &&& announcement(stored) matches Some(
                DownloadEventView::Progress {
                    video_id,
                    downloaded_bytes,
                    total_bytes,
                    percentage,
                },
            ) && {
                &&& video_id == download.request.video_id
                &&& downloaded_bytes == download.downloaded_bytes + len
                &&& total_bytes == download.total_bytes
                &&& percentage is Some <==> download.total_bytes is Some
                &&& percentage matches Some(p) ==> download.total_bytes matches Some(total) ==> (0
                    < total && downloaded_bytes * 100 <= u64::MAX ==> (if downloaded_bytes
                    >= total {
                    p == 100
                } else {
                    p * total <= downloaded_bytes * 100 < (p + 1) * total
                }))
                &&& download.total_bytes == Some(0u64) ==> percentage == Some(0u8)
            }
            &&& reported == (DownloadView {
                downloaded_bytes: (download.downloaded_bytes + len) as u64,
                last_logged: reported.last_logged,
                ..download
            })
        }),
{
    let stored = told(told(download, Input::Received(len)), Input::Succeeded);
    if let Some(total) = download.total_bytes {
        if 0 < total {
            percentage_is_exact(stored.downloaded_bytes, total);
        }
    }
}

/// Progress is logged when it is first known, when it is complete, and when it has reached a
/// tenth that it had not reached when it was logged last. What is logged is remembered.
pub proof fn each_tenth_is_logged(percentage: u8, last: u8)
    requires
        percentage <= 100,
        last <= 100,
    ensures
        is_milestone(percentage, None),
        is_milestone(100, Some(last)),
        percentage < 100 ==> (is_milestone(percentage, Some(last)) <==> exists|tenth: int|
            #![trigger tenth * 10]
            last < tenth * 10 <= percentage),
{
    if is_milestone(percentage, Some(last)) && percentage < 100 {
        let tenth = percentage as int / 10;
        assert(last < tenth * 10 <= percentage);
    }
}

/// What is remembered as logged is the progress, at a milestone, and else what was before.
pub proof fn logged_progress_is_remembered(download: DownloadView, percentage: u8)
    requires
        download.stage is Report,
        progress_of(download) == Some(percentage),
    ensures
        ({
            let logged = told(download, Input::Succeeded).last_logged;
            &&& is_milestone(percentage, download.last_logged) ==> logged == Some(percentage)
            &&& !is_milestone(percentage, download.last_logged) ==> logged == download.last_logged
        }),
{
}

/// Only a response with a status from 200 to 299 is taken for the video. Its size is then what
/// the server says, or else what the request says, if that is not 0. Any other status ends the
/// download with an error that names it.
pub proof fn only_success_is_downloaded(
    download: DownloadView,
    status: u16,
    content_length: Option<u64>,
)
    requires
        download.stage is Request,
    ensures
        ({
            let next = told(download, Input::Responded { status, content_length });
            let size = download.request.size_bytes;
            &&& 200 <= status <= 299 ==> {
                &&& next == (DownloadView {
                    stage: Stage::Announce,
                    total_bytes: next.total_bytes,
                    ..download
                })
                &&& announcement(next) == Some(
                    DownloadEventView::Started {
                        video_id: download.request.video_id,
                        total_bytes: next.total_bytes,
                    },
                )
                &&& content_length is Some ==> next.total_bytes == content_length
                &&& content_length is None && size > 0 ==> next.total_bytes == Some(size)
                &&& content_length is None && size == 0 ==> next.total_bytes is None
            }
            &&& status < 200 || status > 299 ==> {
                &&& next.stage is Discard
                &&& next.outcome matches Some(Err(error)) && error.code == "HTTP_ERROR"@
                    && error.message == "影片伺服器回應 HTTP "@ + decimal(status as nat)
                    && announcement(next) == Some(
                    DownloadEventView::Failed { video_id: download.request.video_id, error },
                )
            }
        }),
{
}

/// A download that nothing disturbs is prepared, sent, announced, and then receives the video.
pub proof fn download_starts(
    request: DownloadRequestView,
    status: u16,
    content_length: Option<u64>,
)
    requires
        200 <= status <= 299,
    ensures
        ({
            let start = begun(request, None);
            let prepared = told(start, Input::Succeeded);
            let connected = told(prepared, Input::Succeeded);
            let responded = told(connected, Input::Responded { status, content_length });
            let announced = told(responded, Input::Succeeded);
            let created = told(announced, Input::Succeeded);
            &&& start.stage is Prepare
            &&& prepared.stage is Connect
            &&& connected.stage is Request
            &&& responded.stage is Announce
            &&& announced.stage is CreateFile
            &&& created.stage is Receive
            &&& created.downloaded_bytes == 0
            &&& created.last_logged is None
            &&& created.outcome is None
            &&& created.request == request
        }),
{
}

/// Once everything has come the file is completed, put in its place and recorded, and the
/// download returns the record: it names what was asked for, the size of the file and the time,
/// and it is announced.
pub proof fn download_ends_with_its_record(download: DownloadView, size: u64, seconds: u64)
    requires
        download.stage is Receive,
    ensures
        ({
            let ended = told(download, Input::Ended);
            let finished = told(ended, Input::Finished(size));
            let replaced = told(finished, Input::Succeeded);
            let renamed = told(replaced, Input::Renamed(seconds));
            let recorded = told(renamed, Input::Succeeded);
            let completed = told(recorded, Input::Succeeded);
            let record = DownloadRecordView {
                video_id: download.request.video_id,
                title: download.request.title,
                description: download.request.description,
                source_url: download.request.source_url,
                size_bytes: size,
                file_name: "offline-video-"@ + download.request.video_id + ".enc"@,
                downloaded_at: decimal(seconds as nat),
            };
            &&& ended.stage is Finish
            &&& finished.stage is Replace
            &&& replaced.stage is Rename
            &&& renamed.stage is Record
            &&& recorded.stage is Complete
            &&& announcement(recorded) == Some(
                DownloadEventView::Completed { video_id: download.request.video_id, record },
            )
            &&& completed.stage is Done
            &&& completed.outcome == Some(Ok::<DownloadRecordView, DownloadErrorView>(record))
        }),
{
}

/// The error of what fails says at what stage it failed, in its code, and repeats the report.
pub proof fn failures_name_their_stage(download: DownloadView, report: String)
    requires
        fits(download, Input::Failed(report)),
        !(download.stage is Discard),
    ensures
        told(download, Input::Failed(report)).outcome matches Some(Err(error)) && {
            &&& error.message == report@
            &&& download.stage is Prepare ==> error.code == "APP_DATA_ERROR"@
            &&& download.stage is Connect ==> error.code == "HTTP_CLIENT_ERROR"@
            &&& download.stage is Request || download.stage is Receive ==> error.code
                == "NETWORK_ERROR"@
            &&& download.stage is Announce || download.stage is Report || download.stage is Complete
                ==> error.code == "CHANNEL_ERROR"@
            &&& download.stage is CreateFile || download.stage is Store || download.stage is Finish
                ==> error.code == "ENCRYPTION_ERROR"@
            &&& download.stage is Replace ==> error.code == "FILE_REPLACE_ERROR"@
            &&& download.stage is Rename ==> error.code == "FILE_RENAME_ERROR"@
        },
{
}

/// A download takes at each stage what can come of it: success where there is nothing more to
/// tell, what the server and the writer tell, and failure until it has ended.
pub proof fn stages_take_what_comes(
    download: DownloadView,
    number: u64,
    status: u16,
    content_length: Option<u64>,
    report: String,
    error: DownloadError,
)
    ensures
        download.stage is Prepare || download.stage is Connect || download.stage is Announce
            || download.stage is CreateFile || download.stage is Report || download.stage is Replace
            || download.stage is Record || download.stage is Complete || download.stage is Discard
            ==> fits(download, Input::Succeeded),
        download.stage matches Stage::Store(len) ==> (fits(download, Input::Succeeded)
            <==> download.downloaded_bytes + len <= 0xffff_ffff_ffff_ffff),
        download.stage is Request <==> fits(
            download,
            Input::Responded { status, content_length },
        ),
        download.stage is Receive <==> fits(download, Input::Received(number)),
        download.stage is Receive <==> fits(download, Input::Ended),
        download.stage is Finish <==> fits(download, Input::Finished(number)),
        download.stage is Rename <==> fits(download, Input::Renamed(number)),
        download.stage is Record <==> fits(download, Input::Refused(error)),
        !(download.stage is Record || download.stage is Done) <==> fits(
            download,
            Input::Failed(report),
        ),
{
}

/// Where the index refuses the record, the download fails with the reason of the index: it is
/// announced and returned. Where only the last announcement fails, the download fails too, with
/// the file in its place.
pub proof fn late_failures_are_returned(
    download: DownloadView,
    error: DownloadError,
    report: String,
    last: Input,
)
    ensures
        ({
            let refused = told(download, Input::Refused(error));
            &&& download.stage is Record && fits(refused, last) ==> {
                &&& announcement(refused) == Some(
                    DownloadEventView::Failed {
                        video_id: download.request.video_id,
                        error: error@,
                    },
                )
                &&& told(refused, last).stage is Done
                &&& told(refused, last).outcome == Some(
                    Err::<DownloadRecordView, DownloadErrorView>(error@),
                )
            }
        }),
        download.stage is Complete ==> {
            let failed = told(download, Input::Failed(report));
            &&& failed.stage is Done
            &&& announcement(failed) is None
            &&& failed.outcome matches Some(Err(reason)) && reason.code == "CHANNEL_ERROR"@
                && reason.message == report@
        },
{
}

/// A download announces that it starts, how far it has come, and that it is complete or has
/// failed, at the stages for that, and nothing at any other.
pub proof fn nothing_else_is_announced(download: DownloadView)
    requires
        is_consistent(download),
    ensures
        announcement(download) is Some <==> download.stage is Announce || download.stage is Report
            || download.stage is Complete || download.stage is Discard,
        announcement(download) matches Some(event) ==> {
            &&& download.stage is Announce <==> event is Started
            &&& download.stage is Report <==> event is Progress
            &&& download.stage is Complete <==> event is Completed
            &&& download.stage is Discard <==> event is Failed
        },
{
}

} // verus!
