//! Backend frames: how the byte stream is cut into frames, and what a frame
//! holds once `postgres_protocol` has decoded it.

use bytes::BytesMut;
use fallible_iterator::FallibleIterator;
use postgres_protocol::message::backend::Message;
use vstd::prelude::*;

verus! {

/// The growable byte buffer of the `bytes` crate.
#[verifier::external_type_specification]
#[verifier::external_body]
pub struct ExBytesMut(BytesMut);

/// A decoded backend message of `postgres_protocol`.
#[verifier::external_type_specification]
#[verifier::external_body]
pub struct ExMessage(Message);

/// The bytes that a buffer holds, oldest first.
pub uninterp spec fn buffered(buf: BytesMut) -> Seq<u8>;

/// What `Message::parse` makes of one complete frame: `None` where it rejects
/// the frame.
pub uninterp spec fn decoded(frame: Seq<u8>) -> Option<FrameView>;

/// What a decoded message holds.
pub uninterp spec fn message_view(msg: Message) -> FrameView;

/// `BytesMut::new` makes an empty buffer.
pub assume_specification[ BytesMut::new ]() -> (buf: BytesMut)
    ensures
        buffered(buf) == Seq::<u8>::empty(),
;

/// `BytesMut::len` counts the bytes held.
pub assume_specification[ BytesMut::len ](buf: &BytesMut) -> (n: usize)
    ensures
        n == buffered(*buf).len(),
;

/// `BytesMut::clear` drops every byte held.
pub assume_specification[ BytesMut::clear ](buf: &mut BytesMut)
    ensures
        buffered(*final(buf)) == Seq::<u8>::empty(),
;

/// `BytesMut::extend_from_slice` appends the slice and keeps what was there.
pub assume_specification[ BytesMut::extend_from_slice ](buf: &mut BytesMut, extend: &[u8])
    ensures
        buffered(*final(buf)) == buffered(*old(buf)) + extend@,
;

/// `AsRef<[u8]>` of `BytesMut` lends the bytes held.
#[verifier::external_body]
pub(crate) fn held(buf: &BytesMut) -> (bytes: &[u8])
    ensures
        bytes@ == buffered(*buf),
{
    buf.as_ref()
}

/// The mathematical content of a backend frame. A body that the codec reads
/// lazily is `None` where it turns out to be unreadable.
pub enum FrameView {
    AuthenticationOk,
    ReadyForQuery { status: u8 },
    RowDescription { names: Option<Seq<Seq<char>>> },
    DataRow { values: Option<Seq<Option<Seq<u8>>>> },
    CommandComplete { tag: Option<Seq<char>> },
    ParseComplete,
    BindComplete,
    PortalSuspended,
    ErrorResponse { fields: Option<Seq<(u8, Seq<u8>)>> },
    NoticeResponse { fields: Option<Seq<(u8, Seq<u8>)>> },
    CopyOut { format: u8, column_formats: Option<Seq<u16>> },
    CopyIn { format: u8, column_formats: Option<Seq<u16>> },
    CopyData { data: Seq<u8> },
    CopyDone,
    ParameterDescription { parameters: Option<Seq<u32>> },
    ParameterStatus,
    NoData,
    EmptyQueryResponse,
    Other,
}

/// A backend frame as plain values. A body that the codec reads lazily is
/// `None` where it turns out to be unreadable; `Other` stands for every kind
/// of frame that has no line of its own in a trace.
#[derive(Debug)]
pub enum Frame {
    AuthenticationOk,
    ReadyForQuery { status: u8 },
    RowDescription { names: Option<Vec<String>> },
    DataRow { values: Option<Vec<Option<Vec<u8>>>> },
    CommandComplete { tag: Option<String> },
    ParseComplete,
    BindComplete,
    PortalSuspended,
    ErrorResponse { fields: Option<Vec<(u8, Vec<u8>)>> },
    NoticeResponse { fields: Option<Vec<(u8, Vec<u8>)>> },
    CopyOut { format: u8, column_formats: Option<Vec<u16>> },
    CopyIn { format: u8, column_formats: Option<Vec<u16>> },
    CopyData { data: Vec<u8> },
    CopyDone,
    ParameterDescription { parameters: Option<Vec<u32>> },
    ParameterStatus,
    NoData,
    EmptyQueryResponse,
    Other,
}

impl View for Frame {
    type V = FrameView;

    open spec fn view(&self) -> FrameView {
        match *self {
            Frame::AuthenticationOk => FrameView::AuthenticationOk,
            Frame::ReadyForQuery { status } => FrameView::ReadyForQuery { status },
            Frame::RowDescription { names } => FrameView::RowDescription {
                names: names.deep_view(),
            },
            Frame::DataRow { values } => FrameView::DataRow { values: values.deep_view() },
            Frame::CommandComplete { tag } => FrameView::CommandComplete { tag: tag.deep_view() },
            Frame::ParseComplete => FrameView::ParseComplete,
            Frame::BindComplete => FrameView::BindComplete,
            Frame::PortalSuspended => FrameView::PortalSuspended,
            Frame::ErrorResponse { fields } => FrameView::ErrorResponse {
                fields: fields.deep_view(),
            },
            Frame::NoticeResponse { fields } => FrameView::NoticeResponse {
                fields: fields.deep_view(),
            },
            Frame::CopyOut { format, column_formats } => FrameView::CopyOut {
                format,
                column_formats: column_formats.deep_view(),
            },
            Frame::CopyIn { format, column_formats } => FrameView::CopyIn {
                format,
                column_formats: column_formats.deep_view(),
            },
            Frame::CopyData { data } => FrameView::CopyData { data: data.deep_view() },
            Frame::CopyDone => FrameView::CopyDone,
            Frame::ParameterDescription { parameters } => FrameView::ParameterDescription {
                parameters: parameters.deep_view(),
            },
            Frame::ParameterStatus => FrameView::ParameterStatus,
            Frame::NoData => FrameView::NoData,
            Frame::EmptyQueryResponse => FrameView::EmptyQueryResponse,
            Frame::Other => FrameView::Other,
        }
    }
}

/// The length that the header of `bytes` announces: bytes 1 to 4, big endian.
/// It counts the frame without its leading byte.
pub open spec fn announced(bytes: Seq<u8>) -> int
    recommends
        bytes.len() >= 5,
{
    bytes[1] * 0x100_0000 + bytes[2] * 0x1_0000 + bytes[3] * 0x100 + bytes[4]
}

/// Where the first frame of a byte stream ends, as far as the bytes tell.
pub enum Framing {
    /// The frame is not all there yet.
    Incomplete,
    /// The header announces a length below four.
    Invalid,
    /// The first frame is the first `len` bytes.
    Complete { len: int },
}

/// How the bytes received so far begin.
pub open spec fn framing(bytes: Seq<u8>) -> Framing {
    if bytes.len() < 5 {
        Framing::Incomplete
    } else if announced(bytes) < 4 {
        Framing::Invalid
    } else if bytes.len() < announced(bytes) + 1 {
        Framing::Incomplete
    } else {
        Framing::Complete { len: announced(bytes) + 1 }
    }
}

/// `Message::parse` takes the first frame off the buffer once it is complete.
///
/// Trusted: with fewer than five bytes, or fewer than the header announces,
/// it returns `Ok(None)` and keeps the buffer; an announced length below four
/// is an error and keeps the buffer; otherwise the frame leaves the buffer,
/// and the result depends on the frame's bytes alone. The error is handed on
/// as its text.
#[verifier::external_body]
pub(crate) fn parse_message(buf: &mut BytesMut) -> (r: Result<Option<Message>, String>)
    requires
        buffered(*old(buf)).len() >= 5 ==> announced(buffered(*old(buf))) + 1 <= usize::MAX,
    ensures
        match framing(buffered(*old(buf))) {
            Framing::Incomplete => r matches Ok(None) && buffered(*final(buf)) == buffered(
                *old(buf),
            ),
            Framing::Invalid => r is Err && buffered(*final(buf)) == buffered(*old(buf)),
            Framing::Complete { len } => buffered(*final(buf)) == buffered(*old(buf)).skip(len)
                && match decoded(buffered(*old(buf)).take(len)) {
                Some(view) => r matches Ok(Some(msg)) && message_view(msg) == view,
                None => r is Err,
            },
        },
{
    Message::parse(buf).map_err(|e| e.to_string())
}

/// The frame, where `msg` is one of the kinds without a body that a trace or
/// a handshake tells apart. Trusted: it tells the variants of `Message` apart.
#[verifier::external_body]
fn bare_frame(msg: &Message) -> (r: Option<Frame>)
    ensures
        r matches Some(frame) ==> frame@ == message_view(*msg),
        r is Some <==> is_bare(message_view(*msg)),
{
    match msg {
        Message::AuthenticationOk => Some(Frame::AuthenticationOk),
        Message::ParseComplete => Some(Frame::ParseComplete),
        Message::BindComplete => Some(Frame::BindComplete),
        Message::PortalSuspended => Some(Frame::PortalSuspended),
        Message::CopyDone => Some(Frame::CopyDone),
        Message::ParameterStatus(_) => Some(Frame::ParameterStatus),
        Message::NoData => Some(Frame::NoData),
        Message::EmptyQueryResponse => Some(Frame::EmptyQueryResponse),
        _ => None,
    }
}

/// The kinds that `bare_frame` recognises.
pub open spec fn is_bare(view: FrameView) -> bool {
    view is AuthenticationOk || view is ParseComplete || view is BindComplete
        || view is PortalSuspended || view is CopyDone || view is ParameterStatus
        || view is NoData || view is EmptyQueryResponse
}

/// `ReadyForQueryBody::status` of a ready-for-query message.
#[verifier::external_body]
fn ready_status(msg: &Message) -> (r: Option<u8>)
    ensures
        r == (match message_view(*msg) {
            FrameView::ReadyForQuery { status } => Some(status),
            _ => None,
        }),
{
    match msg {
        Message::ReadyForQuery(body) => Some(body.status()),
        _ => None,
    }
}

/// `RowDescriptionBody::fields` of a row description, each field by its
/// `name`; the inner `None` where the iterator fails.
#[verifier::external_body]
fn row_names(msg: &Message) -> (r: Option<Option<Vec<String>>>)
    ensures
        r.deep_view() == (match message_view(*msg) {
            FrameView::RowDescription { names } => Some(names),
            _ => None,
        }),
{
    match msg {
        Message::RowDescription(body) => Some(
            body.fields().map(|f| Ok(f.name().to_string())).collect().ok(),
        ),
        _ => None,
    }
}

/// `DataRowBody::ranges` of a data row, each range copied out of
/// `DataRowBody::buffer`; the inner `None` where the iterator fails.
#[verifier::external_body]
fn row_values(msg: &Message) -> (r: Option<Option<Vec<Option<Vec<u8>>>>>)
    ensures
        r.deep_view() == (match message_view(*msg) {
            FrameView::DataRow { values } => Some(values),
            _ => None,
        }),
{
    match msg {
        Message::DataRow(body) => Some(
            body.ranges().map(|r| Ok(r.map(|r| body.buffer()[r].to_vec()))).collect().ok(),
        ),
        _ => None,
    }
}

/// `CommandCompleteBody::tag` of a command completion; the inner `None` where
/// the tag is not UTF-8.
#[verifier::external_body]
fn completion_tag(msg: &Message) -> (r: Option<Option<String>>)
    ensures
        r.deep_view() == (match message_view(*msg) {
            FrameView::CommandComplete { tag } => Some(tag),
            _ => None,
        }),
{
    match msg {
        Message::CommandComplete(body) => Some(body.tag().ok().map(|t| t.to_string())),
        _ => None,
    }
}

/// `ErrorResponseBody::fields` of an error response, each field by its
/// `type_` and `value_bytes`; the inner `None` where the iterator fails.
#[verifier::external_body]
fn error_fields(msg: &Message) -> (r: Option<Option<Vec<(u8, Vec<u8>)>>>)
    ensures
        r.deep_view() == (match message_view(*msg) {
            FrameView::ErrorResponse { fields } => Some(fields),
            _ => None,
        }),
{
    match msg {
        Message::ErrorResponse(body) => Some(
            body.fields().map(|f| Ok((f.type_(), f.value_bytes().to_vec()))).collect().ok(),
        ),
        _ => None,
    }
}

/// `NoticeResponseBody::fields` of a notice, each field by its `type_` and
/// `value_bytes`; the inner `None` where the iterator fails.
#[verifier::external_body]
fn notice_fields(msg: &Message) -> (r: Option<Option<Vec<(u8, Vec<u8>)>>>)
    ensures
        r.deep_view() == (match message_view(*msg) {
            FrameView::NoticeResponse { fields } => Some(fields),
            _ => None,
        }),
{
    match msg {
        Message::NoticeResponse(body) => Some(
            body.fields().map(|f| Ok((f.type_(), f.value_bytes().to_vec()))).collect().ok(),
        ),
        _ => None,
    }
}

/// `CopyOutResponseBody::format` and `column_formats` of a copy-out response;
/// the column formats are `None` where the iterator fails.
#[verifier::external_body]
fn copy_out_formats(msg: &Message) -> (r: Option<(u8, Option<Vec<u16>>)>)
    ensures
        r.deep_view() == (match message_view(*msg) {
            FrameView::CopyOut { format, column_formats } => Some((format, column_formats)),
            _ => None,
        }),
{
    match msg {
        Message::CopyOutResponse(body) => Some(
            (body.format(), body.column_formats().collect().ok()),
        ),
        _ => None,
    }
}

/// `CopyInResponseBody::format` and `column_formats` of a copy-in response;
/// the column formats are `None` where the iterator fails.
#[verifier::external_body]
fn copy_in_formats(msg: &Message) -> (r: Option<(u8, Option<Vec<u16>>)>)
    ensures
        r.deep_view() == (match message_view(*msg) {
            FrameView::CopyIn { format, column_formats } => Some((format, column_formats)),
            _ => None,
        }),
{
    match msg {
        Message::CopyInResponse(body) => Some(
            (body.format(), body.column_formats().collect().ok()),
        ),
        _ => None,
    }
}

/// `CopyDataBody::data` of a copy-data message.
#[verifier::external_body]
fn copy_chunk(msg: &Message) -> (r: Option<Vec<u8>>)
    ensures
        r.deep_view() == (match message_view(*msg) {
            FrameView::CopyData { data } => Some(data),
            _ => None,
        }),
{
    match msg {
        Message::CopyData(body) => Some(body.data().to_vec()),
        _ => None,
    }
}

/// `ParameterDescriptionBody::parameters` of a parameter description; the
/// inner `None` where the iterator fails.
#[verifier::external_body]
fn parameter_types(msg: &Message) -> (r: Option<Option<Vec<u32>>>)
    ensures
        r.deep_view() == (match message_view(*msg) {
            FrameView::ParameterDescription { parameters } => Some(parameters),
            _ => None,
        }),
{
    match msg {
        Message::ParameterDescription(body) => Some(body.parameters().collect().ok()),
        _ => None,
    }
}

/// Reads a decoded message into plain values.
pub fn frame_of(msg: &Message) -> (frame: Frame)
    ensures
        frame@ == message_view(*msg),
{
    if let Some(frame) = bare_frame(msg) {
        frame
    } else if let Some(status) = ready_status(msg) {
        Frame::ReadyForQuery { status }
    } else if let Some(names) = row_names(msg) {
        Frame::RowDescription { names }
    } else if let Some(values) = row_values(msg) {
        Frame::DataRow { values }
    } else if let Some(tag) = completion_tag(msg) {
        Frame::CommandComplete { tag }
    } else if let Some(fields) = error_fields(msg) {
        Frame::ErrorResponse { fields }
    } else if let Some(fields) = notice_fields(msg) {
        Frame::NoticeResponse { fields }
    } else if let Some((format, column_formats)) = copy_out_formats(msg) {
        Frame::CopyOut { format, column_formats }
    } else if let Some((format, column_formats)) = copy_in_formats(msg) {
        Frame::CopyIn { format, column_formats }
    } else if let Some(data) = copy_chunk(msg) {
        Frame::CopyData { data }
    } else if let Some(parameters) = parameter_types(msg) {
        Frame::ParameterDescription { parameters }
    } else {
        Frame::Other
    }
}

} // verus!
