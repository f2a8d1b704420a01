//! The index of the videos that were downloaded, and what a request for a download has to be
//! like.

use vstd::prelude::*;
use vstd::string::*;

use crate::text::same_text;
use crate::video_id::{is_video_id, valid_video_id};

verus! {

/// What is to be downloaded.
#[derive(Debug)]
pub struct DownloadRequest {
    pub video_id: String,
    pub title: String,
    pub description: String,
    pub source_url: String,
    pub size_bytes: u64,
}

/// A `DownloadRequest` with its texts as sequences.
pub struct DownloadRequestView {
    pub video_id: Seq<char>,
    pub title: Seq<char>,
    pub description: Seq<char>,
    pub source_url: Seq<char>,
    pub size_bytes: u64,
}

impl View for DownloadRequest {
    type V = DownloadRequestView;

    open spec fn view(&self) -> DownloadRequestView {
        DownloadRequestView {
            video_id: self.video_id@,
            title: self.title@,
            description: self.description@,
            source_url: self.source_url@,
            size_bytes: self.size_bytes,
        }
    }
}

/// A video that was downloaded.
#[derive(Debug)]
pub struct DownloadRecord {
    pub video_id: String,
    pub title: String,
    pub description: String,
    pub source_url: String,
    pub size_bytes: u64,
    pub file_name: String,
    pub downloaded_at: String,
}

/// A `DownloadRecord` with its texts as sequences.
pub struct DownloadRecordView {
    pub video_id: Seq<char>,
    pub title: Seq<char>,
    pub description: Seq<char>,
    pub source_url: Seq<char>,
    pub size_bytes: u64,
    pub file_name: Seq<char>,
    pub downloaded_at: Seq<char>,
}

impl View for DownloadRecord {
    type V = DownloadRecordView;

    open spec fn view(&self) -> DownloadRecordView {
        DownloadRecordView {
            video_id: self.video_id@,
            title: self.title@,
            description: self.description@,
            source_url: self.source_url@,
            size_bytes: self.size_bytes,
            file_name: self.file_name@,
            downloaded_at: self.downloaded_at@,
        }
    }
}

impl Clone for DownloadRecord {
    fn clone(&self) -> (copy: Self)
        ensures
            copy@ == self@,
    {
        DownloadRecord {
            video_id: self.video_id.clone(),
            title: self.title.clone(),
            description: self.description.clone(),
            source_url: self.source_url.clone(),
            size_bytes: self.size_bytes,
            file_name: self.file_name.clone(),
            downloaded_at: self.downloaded_at.clone(),
        }
    }
}

/// Why something about a download failed: a code for programs and a message for people.
#[derive(Debug)]
pub struct DownloadError {
    pub code: String,
    pub message: String,
}

/// A `DownloadError` as two texts.
pub struct DownloadErrorView {
    pub code: Seq<char>,
    pub message: Seq<char>,
}

impl View for DownloadError {
    type V = DownloadErrorView;

    open spec fn view(&self) -> DownloadErrorView {
        DownloadErrorView { code: self.code@, message: self.message@ }
    }
}

impl Clone for DownloadError {
    fn clone(&self) -> (copy: Self)
        ensures
            copy@ == self@,
    {
        DownloadError { code: self.code.clone(), message: self.message.clone() }
    }
}

/// The error of the given code and message.
pub open spec fn download_fault(code: Seq<char>, message: Seq<char>) -> DownloadErrorView {
    DownloadErrorView { code, message }
}

impl DownloadError {
    /// The error of the given code and message.
    pub fn new(code: &str, message: &str) -> (error: Self)
        ensures
            error@ == download_fault(code@, message@),
    {
        DownloadError { code: code.to_string(), message: message.to_string() }
    }
}

/// The scheme of what `url::Url::parse` makes of a text, if it accepts the text.
pub uninterp spec fn parsed_scheme(url: Seq<char>) -> Option<Seq<char>>;

/// `reqwest::Url::parse`, which is `url::Url::parse`, and the `scheme` of what it makes of the
/// text. The scheme depends on the text alone.
#[verifier::external_body]
pub(crate) fn url_scheme(url: &str) -> (scheme: Option<String>)
    ensures
        match scheme {
            Some(scheme) => parsed_scheme(url@) == Some(scheme@),
            None => parsed_scheme(url@) is None,
        },
{
    match reqwest::Url::parse(url) {
        Ok(parsed) => Some(parsed.scheme().to_string()),
        Err(_) => None,
    }
}

/// Why a request is refused, given the scheme of its address, if it is an address at all.
pub open spec fn refusal(request: DownloadRequestView, scheme: Option<Seq<char>>) -> Option<
    DownloadErrorView,
> {
    if !is_video_id(request.video_id) {
        Some(download_fault("INVALID_VIDEO_ID"@, "影片 ID 格式不正確"@))
    } else {
        match scheme {
            None => Some(download_fault("INVALID_URL"@, "影片網址格式不正確"@)),
            Some(scheme) => if scheme == "http"@ || scheme == "https"@ {
                None
            } else {
                Some(download_fault("INVALID_URL"@, "只允許 HTTP 或 HTTPS 影片網址"@))
            },
        }
    }
}

/// Checks a request, given the scheme of its address, if it is an address at all.
pub fn validate_with_scheme(request: &DownloadRequest, scheme: Option<&str>) -> (outcome: Result<
    (),
    DownloadError,
>)
    ensures
        ({
            let expected = refusal(
                request@,
                match scheme {
                    Some(scheme) => Some(scheme@),
                    None => None,
                },
            );
            match outcome {
                Ok(()) => expected is None,
                Err(error) => expected == Some(error@),
            }
        }),
{
    if !valid_video_id(request.video_id.as_str()) {
        return Err(DownloadError::new("INVALID_VIDEO_ID", "影片 ID 格式不正確"));
    }
    match scheme {
        None => Err(DownloadError::new("INVALID_URL", "影片網址格式不正確")),
        Some(scheme) => {
            if same_text(scheme, "http") || same_text(scheme, "https") {
                Ok(())
            } else {
                Err(DownloadError::new("INVALID_URL", "只允許 HTTP 或 HTTPS 影片網址"))
            }
        },
    }
}

/// Checks a request: its video has a name, and its address is one of the web.
pub fn validate_request(request: &DownloadRequest) -> (outcome: Result<(), DownloadError>)
    ensures
        match outcome {
            Ok(()) => refusal(request@, parsed_scheme(request@.source_url)) is None,
            Err(error) => refusal(request@, parsed_scheme(request@.source_url)) == Some(error@),
        },
{
    match url_scheme(request.source_url.as_str()) {
        Some(scheme) => validate_with_scheme(request, Some(scheme.as_str())),
        None => validate_with_scheme(request, None),
    }
}

/// The name of the file of a video.
pub open spec fn file_name_of(video_id: Seq<char>) -> Seq<char> {
    "offline-video-"@ + video_id + ".enc"@
}

/// The name of the file of a video.
pub fn encrypted_file_name(video_id: &str) -> (name: String)
    ensures
        name@ == file_name_of(video_id@),
{
    let mut name = String::from_str("offline-video-");
    name.append(video_id);
    name.append(".enc");
    name
}

/// Different videos have different files.
pub proof fn file_names_are_distinct(video1: Seq<char>, video2: Seq<char>)
    requires
        file_name_of(video1) == file_name_of(video2),
    ensures
        video1 == video2,
{
    let name1 = file_name_of(video1);
    let name2 = file_name_of(video2);
    let n = "offline-video-"@.len() as int;
    assert(name1.len() == n + video1.len() + ".enc"@.len());
    assert(name2.len() == n + video2.len() + ".enc"@.len());
    assert(video1 =~= name1.subrange(n, n + video1.len()));
    assert(video2 =~= name2.subrange(n, n + video2.len()));
}

/// The records of an index as mathematical values.
pub open spec fn records(downloads: Seq<DownloadRecord>) -> Seq<DownloadRecordView> {
    downloads.map_values(|record: DownloadRecord| record@)
}

/// An index without the record of a video.
pub open spec fn records_without(
    downloads: Seq<DownloadRecordView>,
    video_id: Seq<char>,
) -> Seq<DownloadRecordView> {
    downloads.filter(|record: DownloadRecordView| record.video_id != video_id)
}

/// An index with a record in place of any other of the same video.
pub open spec fn records_with(
    downloads: Seq<DownloadRecordView>,
    record: DownloadRecordView,
) -> Seq<DownloadRecordView> {
    records_without(downloads, record.video_id).push(record)
}

/// The records of an index whose files are there.
pub open spec fn present_records(
    downloads: Seq<DownloadRecordView>,
    present: Seq<bool>,
) -> Seq<DownloadRecordView>
    decreases downloads.len(),
{
    if downloads.len() == 0 || present.len() == 0 {
        Seq::empty()
    } else {
        let before = present_records(downloads.drop_last(), present.drop_last());
        if present.last() {
            before.push(downloads.last())
        } else {
            before
        }
    }
}

/// Whether an index holds a record of a video.
pub open spec fn is_listed(downloads: Seq<DownloadRecordView>, video_id: Seq<char>) -> bool {
    exists|i: int| 0 <= i < downloads.len() && (#[trigger] downloads[i]).video_id == video_id
}

/// The records of an index whose files are there. `present` says of each record whether its file
/// is.
pub fn load_index(downloads: Vec<DownloadRecord>, present: &Vec<bool>) -> (kept: Vec<
    DownloadRecord,
>)
    requires
        present@.len() == downloads@.len(),
    ensures
        records(kept@) == present_records(records(downloads@), present@),
{
    let ghost all = records(downloads@);
    let ghost listed = downloads@;
    let mut kept: Vec<DownloadRecord> = Vec::new();
    let count: usize = present.len();
    let mut i: usize = 0;
    assert(records(kept@) =~= Seq::empty());
    for record in it: downloads.into_iter()
        invariant
            it.seq() == listed,
            all == records(listed),
            i == it.index(),
            count == present@.len() == listed.len(),
            records(kept@) == present_records(all.take(i as int), present@.take(i as int)),
    {
        let ghost before = kept@;
        proof {
            assert(all.take(i + 1).drop_last() =~= all.take(i as int));
            assert(present@.take(i + 1).drop_last() =~= present@.take(i as int));
            assert(all.take(i + 1).last() == record@);
        }
        if present[i] {
            kept.push(record);
            assert(records(kept@) =~= records(before).push(record@));
        }
        i = i + 1;
    }
    assert(all.take(i as int) =~= all);
    assert(present@.take(i as int) =~= present@);
    kept
}

/// An index without the record of a video.
pub fn without_record(downloads: Vec<DownloadRecord>, video_id: &str) -> (kept: Vec<DownloadRecord>)
    ensures
        records(kept@) == records_without(records(downloads@), video_id@),
{
    let ghost all = records(downloads@);
    let ghost listed = downloads@;
    let mut kept: Vec<DownloadRecord> = Vec::new();
    proof {
        reveal(Seq::filter);
        assert(records(kept@) =~= records_without(all.take(0), video_id@));
    }
    for record in it: downloads.into_iter()
        invariant
            it.seq() == listed,
            all == records(listed),
            records(kept@) == records_without(all.take(it.index() as int), video_id@),
    {
        let ghost before = kept@;
        let ghost i = it.index() as int;
        proof {
            reveal(Seq::filter);
            assert(all.take(i + 1).drop_last() =~= all.take(i));
            assert(all.take(i + 1).last() == record@);
        }
        if !same_text(record.video_id.as_str(), video_id) {
            kept.push(record);
            assert(records(kept@) =~= records(before).push(record@));
        }
    }
    assert(all.take(all.len() as int) =~= all);
    kept
}

/// An index with a record in place of any other of the same video.
pub fn with_record(downloads: Vec<DownloadRecord>, record: DownloadRecord) -> (kept: Vec<
    DownloadRecord,
>)
    ensures
        records(kept@) == records_with(records(downloads@), record@),
{
    let mut kept = without_record(downloads, record.video_id.as_str());
    let ghost before = kept@;
    kept.push(record);
    assert(records(kept@) =~= records(before).push(record@));
    kept
}

/// Whether an index holds a record of a video.
pub fn lists(downloads: &Vec<DownloadRecord>, video_id: &str) -> (answer: bool)
    ensures
        answer == is_listed(records(downloads@), video_id@),
{
    let mut i: usize = 0;
    while i < downloads.len()
        invariant
            i <= downloads@.len(),
            forall|k: int|
                0 <= k < i ==> (#[trigger] records(downloads@)[k]).video_id != video_id@,
        decreases downloads.len() - i,
    {
        assert(records(downloads@)[i as int] == downloads@[i as int]@);
        if same_text(downloads[i].video_id.as_str(), video_id) {
            return true;
        }
        i = i + 1;
    }
    false
}

/// What is left of an index when a download is deleted, unless there is no such download. The
/// file of the video is to be removed before what is left is saved.
pub fn delete_download(downloads: Vec<DownloadRecord>, video_id: &str) -> (outcome: Result<
    Vec<DownloadRecord>,
    DownloadError,
>)
    ensures
        match outcome {
            Ok(kept) => {
                &&& is_listed(records(downloads@), video_id@)
                &&& records(kept@) == records_without(records(downloads@), video_id@)
            },
            Err(error) => {
                &&& !is_listed(records(downloads@), video_id@)
                &&& error@ == download_fault("NOT_FOUND"@, "找不到這支離線影片"@)
            },
        },
{
    if !lists(&downloads, video_id) {
        return Err(DownloadError::new("NOT_FOUND", "找不到這支離線影片"));
    }
    Ok(without_record(downloads, video_id))
}

proof fn filter_keeps_some(
    downloads: Seq<DownloadRecordView>,
    video_id: Seq<char>,
    other: Seq<char>,
)
    ensures
        is_listed(records_without(downloads, video_id), other) <==> is_listed(downloads, other)
            && other != video_id,
    decreases downloads.len(),
{
    reveal(Seq::filter);
    if downloads.len() > 0 {
        let rest = downloads.drop_last();
        let last = downloads.last();
        let kept = records_without(rest, video_id);
        let whole = records_without(downloads, video_id);
        filter_keeps_some(rest, video_id, other);
        if is_listed(downloads, other) && other != video_id {
            let i = choose|i: int|
                0 <= i < downloads.len() && (#[trigger] downloads[i]).video_id == other;
            if i < rest.len() {
                assert(rest[i].video_id == other);
                let j = choose|j: int|
                    0 <= j < kept.len() && (#[trigger] kept[j]).video_id == other;
                assert(whole[j].video_id == other);
            } else {
                assert(whole[whole.len() - 1].video_id == other);
            }
        }
        if is_listed(whole, other) {
            let i = choose|i: int| 0 <= i < whole.len() && (#[trigger] whole[i]).video_id == other;
            if i < kept.len() {
                assert(kept[i].video_id == other);
                let j = choose|j: int|
                    0 <= j < rest.len() && (#[trigger] rest[j]).video_id == other;
                assert(downloads[j].video_id == other);
            } else {
                assert(downloads[downloads.len() - 1].video_id == other);
            }
        }
    }
}

/// A download that was deleted is no longer listed, and every other still is.
pub proof fn deleted_download_is_gone(
    downloads: Seq<DownloadRecordView>,
    video_id: Seq<char>,
    other: Seq<char>,
)
    ensures
        !is_listed(records_without(downloads, video_id), video_id),
        other != video_id ==> is_listed(records_without(downloads, video_id), other) == is_listed(
            downloads,
            other,
        ),
{
    filter_keeps_some(downloads, video_id, video_id);
    filter_keeps_some(downloads, video_id, other);
}

/// A download that was recorded is listed once, as the last one, and every other still is.
pub proof fn recorded_download_is_listed(
    downloads: Seq<DownloadRecordView>,
    record: DownloadRecordView,
    other: Seq<char>,
)
    ensures
        ({
            let new = records_with(downloads, record);
            &&& new.last() == record
            &&& !is_listed(new.drop_last(), record.video_id)
            &&& other != record.video_id ==> is_listed(new, other) == is_listed(downloads, other)
        }),
{
    let kept = records_without(downloads, record.video_id);
    let new = records_with(downloads, record);
    assert(new.drop_last() =~= kept);
    filter_keeps_some(downloads, record.video_id, record.video_id);
    filter_keeps_some(downloads, record.video_id, other);
    if other != record.video_id {
        if is_listed(new, other) {
            let i = choose|i: int| 0 <= i < new.len() && (#[trigger] new[i]).video_id == other;
            assert(kept[i].video_id == other);
        }
        if is_listed(kept, other) {
            let i = choose|i: int| 0 <= i < kept.len() && (#[trigger] kept[i]).video_id == other;
            assert(new[i].video_id == other);
        }
    }
}

/// Whether an index holds at most one record of each video.
pub open spec fn is_unique(downloads: Seq<DownloadRecordView>) -> bool {
    forall|i: int, j: int|
        0 <= i < j < downloads.len() ==> (#[trigger] downloads[i]).video_id != (
        #[trigger] downloads[j]).video_id
}

proof fn filter_keeps_unique(downloads: Seq<DownloadRecordView>, video_id: Seq<char>)
    requires
        is_unique(downloads),
    ensures
        is_unique(records_without(downloads, video_id)),
    decreases downloads.len(),
{
    reveal(Seq::filter);
    if downloads.len() > 0 {
        let rest = downloads.drop_last();
        let kept = records_without(rest, video_id);
        let whole = records_without(downloads, video_id);
        let last = downloads.last();
        filter_keeps_unique(rest, video_id);
        filter_keeps_some(rest, video_id, last.video_id);
        assert forall|i: int, j: int| 0 <= i < j < whole.len() implies (
        #[trigger] whole[i]).video_id != (#[trigger] whole[j]).video_id by {
            if j == kept.len() && whole[i].video_id == whole[j].video_id {
                assert(kept[i].video_id == last.video_id);
                assert(is_listed(kept, last.video_id));
                let k = choose|k: int|
                    0 <= k < rest.len() && (#[trigger] rest[k]).video_id == last.video_id;
                assert(downloads[k].video_id == downloads[downloads.len() - 1].video_id);
            } else if j < kept.len() {
                assert(kept[i].video_id != kept[j].video_id);
            }
        }
    }
}

/// An index that holds at most one record of each video keeps doing so.
pub proof fn index_stays_unique(
    downloads: Seq<DownloadRecordView>,
    record: DownloadRecordView,
    video_id: Seq<char>,
)
    requires
        is_unique(downloads),
    ensures
        is_unique(records_with(downloads, record)),
        is_unique(records_without(downloads, video_id)),
{
    filter_keeps_unique(downloads, record.video_id);
    filter_keeps_unique(downloads, video_id);
    filter_keeps_some(downloads, record.video_id, record.video_id);
    let kept = records_without(downloads, record.video_id);
    let new = records_with(downloads, record);
    assert forall|i: int, j: int| 0 <= i < j < new.len() implies (#[trigger] new[i]).video_id != (
    #[trigger] new[j]).video_id by {
        if j == kept.len() && new[i].video_id == new[j].video_id {
            assert(kept[i].video_id == record.video_id);
            assert(is_listed(kept, record.video_id));
        } else if j < kept.len() {
            assert(kept[i].video_id != kept[j].video_id);
        }
    }
}

/// A request is accepted exactly where it names a video and its address has one of the two
/// schemes of the web. Anything else is refused with a code that says which of the two is wrong,
/// the name first.
pub proof fn only_web_addresses_are_accepted(
    request: DownloadRequestView,
    scheme: Option<Seq<char>>,
)
    ensures
        refusal(request, scheme) is None <==> is_video_id(request.video_id) && (scheme == Some(
            "http"@,
        ) || scheme == Some("https"@)),
        !is_video_id(request.video_id) ==> (refusal(request, scheme) matches Some(error)
            && error.code == "INVALID_VIDEO_ID"@ && error.message == "影片 ID 格式不正確"@),
        is_video_id(request.video_id) ==> (refusal(request, scheme) matches Some(error)
            ==> error.code == "INVALID_URL"@ && error.message == if scheme is None {
            "影片網址格式不正確"@
        } else {
            "只允許 HTTP 或 HTTPS 影片網址"@
        }),
{
}

/// The name of a file holds the name of its video as it is, between a fixed start and a fixed
/// end.
pub proof fn file_name_holds_the_video(video_id: Seq<char>)
    ensures
        ({
            let name = file_name_of(video_id);
            &&& name.len() == 18 + video_id.len()
            &&& name.take(14) == "offline-video-"@
            &&& name.subrange(14, 14 + video_id.len() as int) == video_id
            &&& name.skip(14 + video_id.len() as int) == ".enc"@
        }),
{
    reveal_strlit("offline-video-");
    reveal_strlit(".enc");
    let name = file_name_of(video_id);
    assert("offline-video-"@.len() == 14);
    assert(".enc"@.len() == 4);
    assert(name.take(14) =~= "offline-video-"@);
    assert(name.subrange(14, 14 + video_id.len() as int) =~= video_id);
    assert(name.skip(14 + video_id.len() as int) =~= ".enc"@);
}

/// Which records are kept is decided of each by itself: the records of two indexes that stand one
/// after the other are those of the one and then those of the other, and a record alone is kept
/// exactly where its file is there.
pub proof fn presence_decides(
    downloads1: Seq<DownloadRecordView>,
    present1: Seq<bool>,
    downloads2: Seq<DownloadRecordView>,
    present2: Seq<bool>,
    record: DownloadRecordView,
)
    requires
        downloads1.len() == present1.len(),
        downloads2.len() == present2.len(),
    ensures
        present_records(downloads1 + downloads2, present1 + present2) == present_records(
            downloads1,
            present1,
        ) + present_records(downloads2, present2),
        present_records(seq![record], seq![true]) == seq![record],
        present_records(seq![record], seq![false]) == Seq::<DownloadRecordView>::empty(),
    decreases downloads2.len(),
{
    reveal_with_fuel(present_records, 2);
    assert(seq![record].drop_last() =~= Seq::<DownloadRecordView>::empty());
    assert(present_records(seq![record], seq![true]) =~= seq![record]);
    if downloads2.len() == 0 {
        assert(downloads1 + downloads2 =~= downloads1);
        assert(present1 + present2 =~= present1);
        assert(present_records(downloads1, present1) + present_records(downloads2, present2)
            =~= present_records(downloads1, present1));
    } else {
        let rest = downloads2.drop_last();
        let present = present2.drop_last();
        presence_decides(downloads1, present1, rest, present, record);
        assert((downloads1 + downloads2).drop_last() =~= downloads1 + rest);
        assert((present1 + present2).drop_last() =~= present1 + present);
        assert((downloads1 + downloads2).last() == downloads2.last());
        assert((present1 + present2).last() == present2.last());
        assert(present_records(downloads1 + downloads2, present1 + present2) =~= present_records(
            downloads1,
            present1,
        ) + present_records(downloads2, present2));
    }
}

/// Where every file is there the index is kept as it is, and where none is nothing is kept of it.
pub proof fn complete_index_is_kept(downloads: Seq<DownloadRecordView>, present: Seq<bool>)
    requires
        downloads.len() == present.len(),
    ensures
        (forall|i: int| 0 <= i < present.len() ==> #[trigger] present[i]) ==> present_records(
            downloads,
            present,
        ) == downloads,
        (forall|i: int| 0 <= i < present.len() ==> !#[trigger] present[i]) ==> present_records(
            downloads,
            present,
        ) == Seq::<DownloadRecordView>::empty(),
    decreases downloads.len(),
{
    if downloads.len() > 0 {
        complete_index_is_kept(downloads.drop_last(), present.drop_last());
        assert(present[present.len() - 1] == present.last());
        assert(downloads.drop_last().push(downloads.last()) =~= downloads);
        if forall|i: int| 0 <= i < present.len() ==> #[trigger] present[i] {
            assert forall|i: int| 0 <= i < present.drop_last().len() implies
                #[trigger] present.drop_last()[i] by {
                assert(present[i]);
            }
        }
        if forall|i: int| 0 <= i < present.len() ==> !#[trigger] present[i] {
            assert forall|i: int| 0 <= i < present.drop_last().len() implies
                !#[trigger] present.drop_last()[i] by {
                assert(!present[i]);
            }
        }
    } else {
        assert(present_records(downloads, present) =~= downloads);
    }
}

/// Removing a video from an index takes out its records and no other, and leaves the others in
/// their order. A record of the video alone leaves nothing; a record of another stays.
pub proof fn other_records_keep_their_order(
    downloads: Seq<DownloadRecordView>,
    record: DownloadRecordView,
    video_id: Seq<char>,
)
    ensures
        records_without(Seq::empty(), video_id) == Seq::<DownloadRecordView>::empty(),
        record.video_id == video_id ==> records_without(downloads.push(record), video_id)
            == records_without(downloads, video_id),
        record.video_id != video_id ==> records_without(downloads.push(record), video_id)
            == records_without(downloads, video_id).push(record),
        records_with(downloads, record).last() == record,
        records_with(downloads, record).drop_last() == records_without(downloads, record.video_id),
{
    reveal(Seq::filter);
    assert(downloads.push(record).drop_last() =~= downloads);
    assert(records_without(Seq::empty(), video_id) =~= Seq::<DownloadRecordView>::empty());
    assert(records_with(downloads, record).drop_last() =~= records_without(
        downloads,
        record.video_id,
    ));
}

/// A video is listed exactly where one of the records is its record.
pub proof fn listed_videos_have_a_record(
    downloads: Seq<DownloadRecordView>,
    record: DownloadRecordView,
    video_id: Seq<char>,
)
    ensures
        !is_listed(Seq::empty(), video_id),
        is_listed(downloads.push(record), video_id) <==> record.video_id == video_id || is_listed(
            downloads,
            video_id,
        ),
{
    let longer = downloads.push(record);
    if is_listed(longer, video_id) && record.video_id != video_id {
        let i = choose|i: int| 0 <= i < longer.len() && (#[trigger] longer[i]).video_id == video_id;
        assert(downloads[i].video_id == video_id);
    }
    if is_listed(downloads, video_id) {
        let i = choose|i: int|
            0 <= i < downloads.len() && (#[trigger] downloads[i]).video_id == video_id;
        assert(longer[i].video_id == video_id);
    }
    if record.video_id == video_id {
        assert(longer[downloads.len() as int].video_id == video_id);
    }
}

} // verus!
