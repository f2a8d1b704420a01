//! The responses of the playback server.

use vstd::prelude::*;
use vstd::string::*;
use vstd::utf8::*;

use crate::error::{CryptoError, CryptoErrorKind};
use crate::keys::last_separator_splits;
use crate::ranges::ByteRange;
use crate::text::{decimal, decimal_is_digits, decimal_is_injective, decimal_string};

verus! {

// The statuses of a response, as HTTP numbers them.

pub const OK: u16 = 200;

pub const PARTIAL_CONTENT: u16 = 206;

pub const FORBIDDEN: u16 = 403;

pub const NOT_FOUND: u16 = 404;

pub const METHOD_NOT_ALLOWED: u16 = 405;

pub const RANGE_NOT_SATISFIABLE: u16 = 416;

pub const UNPROCESSABLE_ENTITY: u16 = 422;

pub const INTERNAL_SERVER_ERROR: u16 = 500;

/// A header of a response.
#[derive(Debug)]
pub struct Field {
    pub name: String,
    pub value: String,
}

/// A `Field` as two texts.
#[verifier::ext_equal]
pub struct FieldView {
    pub name: Seq<char>,
    pub value: Seq<char>,
}

impl View for Field {
    type V = FieldView;

    open spec fn view(&self) -> FieldView {
        FieldView { name: self.name@, value: self.value@ }
    }
}

/// What comes before the body of a response.
#[derive(Debug)]
pub struct ResponseHead {
    pub status: u16,
    pub fields: Vec<Field>,
}

/// A `ResponseHead` with its headers as texts.
#[verifier::ext_equal]
pub struct HeadView {
    pub status: u16,
    pub fields: Seq<FieldView>,
}

impl View for ResponseHead {
    type V = HeadView;

    open spec fn view(&self) -> HeadView {
        HeadView { status: self.status, fields: self.fields@.map_values(|field: Field| field@) }
    }
}

/// A response with its body.
#[derive(Debug)]
pub struct HttpResponse {
    pub head: ResponseHead,
    pub body: Vec<u8>,
}

/// An `HttpResponse` with its parts as sequences.
#[verifier::ext_equal]
pub struct ResponseView {
    pub head: HeadView,
    pub body: Seq<u8>,
}

impl View for HttpResponse {
    type V = ResponseView;

    open spec fn view(&self) -> ResponseView {
        ResponseView { head: self.head@, body: self.body@ }
    }
}

/// The header of the given name and value.
pub open spec fn field_of(name: Seq<char>, value: Seq<char>) -> FieldView {
    FieldView { name, value }
}

/// A response that says in words what went wrong.
pub open spec fn failed(status: u16, message: Seq<char>) -> ResponseView {
    ResponseView {
        head: HeadView {
            status,
            fields: seq![
                field_of("content-type"@, "text/plain; charset=utf-8"@),
                field_of("cache-control"@, "no-store"@),
            ],
        },
        body: encode_utf8(message),
    }
}

/// The response to a request for a range that a video of the given size does not have.
pub open spec fn unsatisfiable(size: u64) -> ResponseView {
    ResponseView {
        head: HeadView {
            status: RANGE_NOT_SATISFIABLE,
            fields: seq![
                field_of("content-range"@, "bytes */"@ + decimal(size as nat)),
                field_of("cache-control"@, "no-store"@),
            ],
        },
        body: Seq::empty(),
    }
}

/// The status and the message for an error of the encrypted file.
pub open spec fn crypto_status(kind: CryptoErrorKind) -> (u16, Seq<char>) {
    match kind {
        CryptoErrorKind::NotFound => (NOT_FOUND, "影片檔案不存在"@),
        CryptoErrorKind::KeyUnavailable => (FORBIDDEN, "無法取得影片解密金鑰"@),
        CryptoErrorKind::InvalidFormat => (UNPROCESSABLE_ENTITY, "影片加密檔案驗證失敗"@),
        CryptoErrorKind::Corrupt => (UNPROCESSABLE_ENTITY, "影片加密檔案驗證失敗"@),
        CryptoErrorKind::Internal => (INTERNAL_SERVER_ERROR, "影片無法讀取"@),
    }
}

/// The head of the response with a range of a video of the given size.
pub open spec fn range_head_of(range: ByteRange, size: u64) -> HeadView {
    let fields = seq![
        field_of("content-type"@, "video/mp4"@),
        field_of("content-length"@, decimal((range.end - range.start) as nat)),
        field_of("accept-ranges"@, "bytes"@),
        field_of("cache-control"@, "no-store, no-cache, must-revalidate"@),
    ];
    if range.partial {
        HeadView {
            status: PARTIAL_CONTENT,
            fields: fields.push(
                field_of(
                    "content-range"@,
                    "bytes "@ + decimal(range.start as nat) + "-"@ + decimal(
                        (range.end - 1) as nat,
                    ) + "/"@ + decimal(size as nat),
                ),
            ),
        }
    } else {
        HeadView { status: OK, fields }
    }
}

/// The header of the given name and value.
fn field(name: &str, value: &str) -> (field: Field)
    ensures
        field@ == field_of(name@, value@),
{
    Field { name: name.to_string(), value: value.to_string() }
}

/// A response that says in words what went wrong.
pub fn error_response(status: u16, message: &str) -> (response: HttpResponse)
    ensures
        response@ == failed(status, message@),
{
    let response = HttpResponse {
        head: ResponseHead {
            status,
            fields: vec![
                field("content-type", "text/plain; charset=utf-8"),
                field("cache-control", "no-store"),
            ],
        },
        body: message.as_bytes_vec(),
    };
    assert(response@.head.fields =~= failed(status, message@).head.fields);
    response
}

/// The response to a request for a range that a video of the given size does not have.
pub fn unsatisfiable_response(size: u64) -> (response: HttpResponse)
    ensures
        response@ == unsatisfiable(size),
{
    let mut value = String::from_str("bytes */");
    value.append(decimal_string(size).as_str());
    let response = HttpResponse {
        head: ResponseHead {
            status: RANGE_NOT_SATISFIABLE,
            fields: vec![
                field("content-range", value.as_str()),
                field("cache-control", "no-store"),
            ],
        },
        body: Vec::new(),
    };
    assert(response@.head.fields =~= unsatisfiable(size).head.fields);
    response
}

/// The response to a request for a video that could not be decrypted.
pub fn crypto_error_response(error: &CryptoError) -> (response: HttpResponse)
    ensures
        response@ == failed(crypto_status(error.kind).0, crypto_status(error.kind).1),
{
    match error.kind {
        CryptoErrorKind::NotFound => error_response(NOT_FOUND, "影片檔案不存在"),
        CryptoErrorKind::KeyUnavailable => error_response(FORBIDDEN, "無法取得影片解密金鑰"),
        CryptoErrorKind::InvalidFormat | CryptoErrorKind::Corrupt => error_response(
            UNPROCESSABLE_ENTITY,
            "影片加密檔案驗證失敗",
        ),
        CryptoErrorKind::Internal => error_response(INTERNAL_SERVER_ERROR, "影片無法讀取"),
    }
}

/// The head of the response with a range of a video of the given size.
pub fn range_head(range: ByteRange, size: u64) -> (head: ResponseHead)
    requires
        range.start < range.end,
    ensures
        head@ == range_head_of(range, size),
{
    let length: u64 = range.end - range.start;
    let mut fields = vec![
        field("content-type", "video/mp4"),
        field("content-length", decimal_string(length).as_str()),
        field("accept-ranges", "bytes"),
        field("cache-control", "no-store, no-cache, must-revalidate"),
    ];
    let mut status: u16 = OK;
    if range.partial {
        status = PARTIAL_CONTENT;
        let mut value = String::from_str("bytes ");
        value.append(decimal_string(range.start).as_str());
        value.append("-");
        value.append(decimal_string(range.end - 1).as_str());
        value.append("/");
        value.append(decimal_string(size).as_str());
        fields.push(field("content-range", value.as_str()));
    }
    let head = ResponseHead { status, fields };
    assert(head@.fields =~= range_head_of(range, size).fields);
    head
}

/// Whether a response has a header of this name and value, and none of this name and another
/// value.
pub open spec fn announces(head: HeadView, name: Seq<char>, value: Seq<char>) -> bool {
    &&& exists|i: int| 0 <= i < head.fields.len() && (#[trigger] head.fields[i]).name == name
    &&& forall|i: int|
        0 <= i < head.fields.len() && (#[trigger] head.fields[i]).name == name
            ==> head.fields[i].value == value
}

/// The names of the headers are different.
proof fn names_are_distinct()
    ensures
        "content-type"@ != "content-length"@,
        "content-type"@ != "content-range"@,
        "content-length"@ != "content-range"@,
        "accept-ranges"@ != "content-type"@,
        "accept-ranges"@ != "content-length"@,
        "accept-ranges"@ != "content-range"@,
        "cache-control"@ != "content-type"@,
        "cache-control"@ != "content-length"@,
        "cache-control"@ != "content-range"@,
        "cache-control"@ != "accept-ranges"@,
{
    reveal_strlit("content-type");
    reveal_strlit("content-length");
    reveal_strlit("content-range");
    reveal_strlit("accept-ranges");
    reveal_strlit("cache-control");
    assert("content-type"@.len() == 12);
    assert("content-length"@.len() == 14);
    assert("content-range"@.len() == 13);
    assert("accept-ranges"@.len() == 13);
    assert("cache-control"@.len() == 13);
    assert("content-range"@[1] == 'o');
    assert("cache-control"@[1] == 'a');
    assert("accept-ranges"@[0] == 'a');
    assert("content-range"@[0] == 'c');
    assert("cache-control"@[0] == 'c');
}

/// A content range as a text: the first and the last byte that are sent, and the size of the
/// whole.
pub open spec fn content_range(first: nat, last: nat, whole: nat) -> Seq<char> {
    "bytes "@ + decimal(first) + "-"@ + decimal(last) + "/"@ + decimal(whole)
}

/// A content range says which bytes it means: no two have the same text.
pub proof fn content_range_is_unique(
    first1: nat,
    last1: nat,
    whole1: nat,
    first2: nat,
    last2: nat,
    whole2: nat,
)
    requires
        content_range(first1, last1, whole1) == content_range(first2, last2, whole2),
    ensures
        first1 == first2,
        last1 == last2,
        whole1 == whole2,
{
    reveal_strlit("-");
    reveal_strlit("/");
    decimal_is_digits(first1);
    decimal_is_digits(first2);
    decimal_is_digits(last1);
    decimal_is_digits(last2);
    decimal_is_digits(whole1);
    decimal_is_digits(whole2);
    let unit = "bytes "@;
    assert("-"@ =~= seq!['-']);
    assert("/"@ =~= seq!['/']);
    last_separator_splits(
        unit + decimal(first1) + "-"@ + decimal(last1),
        decimal(whole1),
        unit + decimal(first2) + "-"@ + decimal(last2),
        decimal(whole2),
        '/',
    );
    last_separator_splits(
        unit + decimal(first1),
        decimal(last1),
        unit + decimal(first2),
        decimal(last2),
        '-',
    );
    assert((unit + decimal(first1)).skip(unit.len() as int) =~= decimal(first1));
    assert((unit + decimal(first2)).skip(unit.len() as int) =~= decimal(first2));
}

/// The response with a part of a video names the first and the last byte of the part, the size of
/// the video, and the number of bytes of the part.
pub proof fn partial_response_names_its_bytes(range: ByteRange, size: u64)
    requires
        range.partial,
        range.start < range.end <= size,
    ensures
        ({
            let head = range_head_of(range, size);
            &&& head.status == 206
            &&& announces(
                head,
                "content-range"@,
                content_range(range.start as nat, (range.end - 1) as nat, size as nat),
            )
            &&& announces(head, "content-length"@, decimal((range.end - range.start) as nat))
            &&& announces(head, "content-type"@, "video/mp4"@)
            &&& announces(head, "accept-ranges"@, "bytes"@)
        }),
{
    names_are_distinct();
    let head = range_head_of(range, size);
    assert(head.fields[0].name == "content-type"@);
    assert(head.fields[1].name == "content-length"@);
    assert(head.fields[2].name == "accept-ranges"@);
    assert(head.fields[4].name == "content-range"@);
}

/// Read back as numbers, the headers of a response with a part of a video agree with each other:
/// the last byte is one that the video has, also where the part reaches the end of the video, and
/// the length is the number of bytes from the first to the last.
pub proof fn partial_response_is_read_back(
    range: ByteRange,
    size: u64,
    first: nat,
    last: nat,
    whole: nat,
    length: nat,
)
    requires
        range.partial,
        range.start < range.end <= size,
        announces(
            range_head_of(range, size),
            "content-range"@,
            content_range(first, last, whole),
        ),
        announces(range_head_of(range, size), "content-length"@, decimal(length)),
    ensures
        first == range.start,
        last + 1 == range.end,
        whole == size,
        first <= last < whole,
        last - first + 1 == length,
        range.end == size ==> last == size - 1,
{
    partial_response_names_its_bytes(range, size);
    let head = range_head_of(range, size);
    let i = choose|i: int|
        0 <= i < head.fields.len() && (#[trigger] head.fields[i]).name == "content-range"@;
    let j = choose|j: int|
        0 <= j < head.fields.len() && (#[trigger] head.fields[j]).name == "content-length"@;
    assert(head.fields[i].value == content_range(first, last, whole));
    assert(head.fields[j].value == decimal(length));
    content_range_is_unique(
        first,
        last,
        whole,
        range.start as nat,
        (range.end - 1) as nat,
        size as nat,
    );
    decimal_is_injective(length, (range.end - range.start) as nat);
}

/// The response with a whole video has the size of the video as its length, and names no part.
pub proof fn whole_response_names_its_length(size: u64)
    requires
        size > 0,
    ensures
        ({
            let head = range_head_of(ByteRange { start: 0, end: size, partial: false }, size);
            &&& head.status == 200
            &&& announces(head, "content-length"@, decimal(size as nat))
            &&& announces(head, "content-type"@, "video/mp4"@)
            &&& announces(head, "accept-ranges"@, "bytes"@)
            &&& forall|i: int|
                0 <= i < head.fields.len() ==> (#[trigger] head.fields[i]).name
                    != "content-range"@
        }),
{
    names_are_distinct();
    let head = range_head_of(ByteRange { start: 0, end: size, partial: false }, size);
    assert(head.fields[0].name == "content-type"@);
    assert(head.fields[1].name == "content-length"@);
    assert(head.fields[2].name == "accept-ranges"@);
}

/// No response with a video may be kept by anybody.
pub proof fn videos_are_not_stored(range: ByteRange, size: u64)
    requires
        range.start < range.end <= size,
    ensures
        announces(
            range_head_of(range, size),
            "cache-control"@,
            "no-store, no-cache, must-revalidate"@,
        ),
{
    names_are_distinct();
    assert(range_head_of(range, size).fields[3].name == "cache-control"@);
}

/// A response that says what went wrong has the status and the words that it was given, and a
/// refused range the size of the video, and nobody may keep either.
pub proof fn failures_are_told(status: u16, message: Seq<char>, size: u64)
    ensures
        failed(status, message).head.status == status,
        decode_utf8(failed(status, message).body) == message,
        announces(failed(status, message).head, "content-type"@, "text/plain; charset=utf-8"@),
        announces(failed(status, message).head, "cache-control"@, "no-store"@),
        unsatisfiable(size).head.status == 416,
        unsatisfiable(size).body.len() == 0,
        announces(unsatisfiable(size).head, "content-range"@, "bytes */"@ + decimal(size as nat)),
        announces(unsatisfiable(size).head, "cache-control"@, "no-store"@),
{
    names_are_distinct();
    encode_utf8_decode_utf8(message);
    assert(failed(status, message).head.fields[0].name == "content-type"@);
    assert(failed(status, message).head.fields[1].name == "cache-control"@);
    assert(unsatisfiable(size).head.fields[0].name == "content-range"@);
    assert(unsatisfiable(size).head.fields[1].name == "cache-control"@);
}

/// Each error of the encrypted file has its own answer: what is not there is not found, what the
/// keys are missing for is forbidden, what is damaged or of another format cannot be processed,
/// and all else is the fault of the server.
pub proof fn errors_have_their_status(kind: CryptoErrorKind)
    ensures
        kind is NotFound <==> crypto_status(kind).0 == 404,
        kind is KeyUnavailable <==> crypto_status(kind).0 == 403,
        kind is InvalidFormat || kind is Corrupt <==> crypto_status(kind).0 == 422,
        kind is Internal <==> crypto_status(kind).0 == 500,
        kind is NotFound ==> crypto_status(kind).1 == "影片檔案不存在"@,
        kind is KeyUnavailable ==> crypto_status(kind).1 == "無法取得影片解密金鑰"@,
        kind is InvalidFormat || kind is Corrupt ==> crypto_status(kind).1
            == "影片加密檔案驗證失敗"@,
        kind is Internal ==> crypto_status(kind).1 == "影片無法讀取"@,
{
}

/// Whatever is sent of a video, its length is the number of bytes from its start to its end, and
/// it is a part exactly where its status says so.
pub proof fn length_is_that_of_the_range(range: ByteRange, size: u64)
    requires
        range.start < range.end <= size,
    ensures
        announces(
            range_head_of(range, size),
            "content-length"@,
            decimal((range.end - range.start) as nat),
        ),
        announces(range_head_of(range, size), "content-type"@, "video/mp4"@),
        announces(range_head_of(range, size), "accept-ranges"@, "bytes"@),
        range_head_of(range, size).status == 206 <==> range.partial,
        range_head_of(range, size).status == 200 <==> !range.partial,
{
    names_are_distinct();
    assert(range_head_of(range, size).fields[0].name == "content-type"@);
    assert(range_head_of(range, size).fields[1].name == "content-length"@);
    assert(range_head_of(range, size).fields[2].name == "accept-ranges"@);
}

} // verus!
