//! Frontend requests: what a `send` line asks for, and its bytes on the wire
//! as `postgres_protocol` encodes them.

use crate::wire::{buffered, held};
use bytes::BytesMut;
use postgres_protocol::message::frontend;
use postgres_protocol::IsNull;
use vstd::prelude::*;
use vstd::slice::slice_to_vec;
use vstd::utf8::encode_utf8;

verus! {

/// The startup frame with one parameter, as `frontend::startup_message`
/// encodes it; `None` where it refuses.
pub uninterp spec fn startup_frame(key: Seq<char>, value: Seq<char>) -> Option<Seq<u8>>;

/// The frame of a simple query, as `frontend::query` encodes it.
pub uninterp spec fn query_frame(query: Seq<char>) -> Option<Seq<u8>>;

/// The frame that prepares a statement, as `frontend::parse` encodes it.
pub uninterp spec fn parse_frame(name: Seq<char>, query: Seq<char>, param_types: Seq<u32>) -> Option<
    Seq<u8>,
>;

/// The frame that binds a portal, as `frontend::bind` encodes it when each
/// value is written as the bytes of its text and none is null.
pub uninterp spec fn bind_frame(
    portal: Seq<char>,
    statement: Seq<char>,
    formats: Seq<i16>,
    values: Seq<Seq<char>>,
    result_formats: Seq<i16>,
) -> Option<Seq<u8>>;

/// The frame that asks for a description, as `frontend::describe` encodes it.
pub uninterp spec fn describe_frame(variant: u8, name: Seq<char>) -> Option<Seq<u8>>;

/// The frame that runs a portal, as `frontend::execute` encodes it.
pub uninterp spec fn execute_frame(portal: Seq<char>, max_rows: i32) -> Option<Seq<u8>>;

/// The frame of a chunk of copy data, as `frontend::CopyData` encodes it.
pub uninterp spec fn copy_data_frame(data: Seq<u8>) -> Option<Seq<u8>>;

/// The frame that fails a copy, as `frontend::copy_fail` encodes it.
pub uninterp spec fn copy_fail_frame(message: Seq<char>) -> Option<Seq<u8>>;

/// `frontend::startup_message` with one parameter. Trusted: whether it
/// succeeds and what it appends depend on the parameter alone.
#[verifier::external_body]
fn put_startup(key: &str, value: &str, buf: &mut BytesMut) -> (ok: bool)
    ensures
        ok <==> startup_frame(key@, value@) is Some,
        ok ==> buffered(*final(buf)) == buffered(*old(buf)) + startup_frame(key@, value@).unwrap(),
{
    frontend::startup_message([(key, value)], buf).is_ok()
}

/// `frontend::query`. Trusted: whether it succeeds and what it appends depend
/// on the query alone.
#[verifier::external_body]
fn put_query(query: &str, buf: &mut BytesMut) -> (ok: bool)
    ensures
        ok <==> query_frame(query@) is Some,
        ok ==> buffered(*final(buf)) == buffered(*old(buf)) + query_frame(query@).unwrap(),
{
    frontend::query(query, buf).is_ok()
}

/// `frontend::parse`. Trusted: whether it succeeds and what it appends depend
/// on the arguments alone.
#[verifier::external_body]
fn put_parse(name: &str, query: &str, param_types: &Vec<u32>, buf: &mut BytesMut) -> (ok: bool)
    ensures
        ok <==> parse_frame(name@, query@, param_types@) is Some,
        ok ==> buffered(*final(buf)) == buffered(*old(buf)) + parse_frame(
            name@,
            query@,
            param_types@,
        ).unwrap(),
{
    frontend::parse(name, query, param_types.iter().copied(), buf).is_ok()
}

/// Writes a bind value: the bytes of its text.
fn put_text(value: &String, buf: &mut BytesMut)
    ensures
        buffered(*final(buf)) == buffered(*old(buf)) + encode_utf8(value@),
{
    buf.extend_from_slice(value.as_str().as_bytes());
}

/// `frontend::bind`, with `put_text` as the serializer of each value.
/// Trusted: whether it succeeds and what it appends depend on the arguments
/// alone.
#[verifier::external_body]
fn put_bind(
    portal: &str,
    statement: &str,
    formats: &Vec<i16>,
    values: &Vec<String>,
    result_formats: &Vec<i16>,
    buf: &mut BytesMut,
) -> (ok: bool)
    ensures
        ok <==> bind_frame(portal@, statement@, formats@, values.deep_view(), result_formats@)
            is Some,
        ok ==> buffered(*final(buf)) == buffered(*old(buf)) + bind_frame(
            portal@,
            statement@,
            formats@,
            values.deep_view(),
            result_formats@,
        ).unwrap(),
{
    frontend::bind(
        portal,
        statement,
        formats.iter().copied(),
        values.iter(),
        |value, out| {
            put_text(value, out);
            Ok(IsNull::No)
        },
        result_formats.iter().copied(),
        buf,
    ).is_ok()
}

/// `frontend::describe`. Trusted: whether it succeeds and what it appends
/// depend on the arguments alone.
#[verifier::external_body]
fn put_describe(variant: u8, name: &str, buf: &mut BytesMut) -> (ok: bool)
    ensures
        ok <==> describe_frame(variant, name@) is Some,
        ok ==> buffered(*final(buf)) == buffered(*old(buf)) + describe_frame(
            variant,
            name@,
        ).unwrap(),
{
    frontend::describe(variant, name, buf).is_ok()
}

/// `frontend::execute`. Trusted: whether it succeeds and what it appends
/// depend on the arguments alone.
#[verifier::external_body]
fn put_execute(portal: &str, max_rows: i32, buf: &mut BytesMut) -> (ok: bool)
    ensures
        ok <==> execute_frame(portal@, max_rows) is Some,
        ok ==> buffered(*final(buf)) == buffered(*old(buf)) + execute_frame(
            portal@,
            max_rows,
        ).unwrap(),
{
    frontend::execute(portal, max_rows, buf).is_ok()
}

/// `frontend::CopyData::new`, then `write` where it succeeds. Trusted:
/// whether it succeeds and what it appends depend on the data alone, and the
/// buffer stays as it was where it fails.
#[verifier::external_body]
fn put_copy_data(data: &[u8], buf: &mut BytesMut) -> (ok: bool)
    ensures
        ok <==> copy_data_frame(data@) is Some,
        ok ==> buffered(*final(buf)) == buffered(*old(buf)) + copy_data_frame(data@).unwrap(),
        !ok ==> buffered(*final(buf)) == buffered(*old(buf)),
{
    frontend::CopyData::new(data).map(|message| message.write(buf)).is_ok()
}

/// `frontend::copy_fail`. Trusted: whether it succeeds and what it appends
/// depend on the message alone.
#[verifier::external_body]
fn put_copy_fail(message: &str, buf: &mut BytesMut) -> (ok: bool)
    ensures
        ok <==> copy_fail_frame(message@) is Some,
        ok ==> buffered(*final(buf)) == buffered(*old(buf)) + copy_fail_frame(message@).unwrap(),
{
    frontend::copy_fail(message, buf).is_ok()
}

/// `frontend::sync` appends the tag `S` and the length four.
pub assume_specification[ frontend::sync ](buf: &mut BytesMut)
    ensures
        buffered(*final(buf)) == buffered(*old(buf)) + seq![0x53u8, 0u8, 0u8, 0u8, 4u8],
;

/// `frontend::copy_done` appends the tag `c` and the length four.
pub assume_specification[ frontend::copy_done ](buf: &mut BytesMut)
    ensures
        buffered(*final(buf)) == buffered(*old(buf)) + seq![0x63u8, 0u8, 0u8, 0u8, 4u8],
;

/// `frontend::terminate` appends the tag `X` and the length four.
pub assume_specification[ frontend::terminate ](buf: &mut BytesMut)
    ensures
        buffered(*final(buf)) == buffered(*old(buf)) + seq![0x58u8, 0u8, 0u8, 0u8, 4u8],
;

/// The arguments of a simple query.
#[derive(Debug)]
pub struct Query {
    pub query: String,
}

/// The arguments of a statement to prepare. The statement has no name where
/// none is given.
#[derive(Debug)]
pub struct Parse {
    pub name: Option<String>,
    pub query: String,
}

/// The arguments of a portal to bind. Portal and statement have no name,
/// and there are no values and no result formats, where none is given.
#[derive(Debug)]
pub struct Bind {
    pub portal: Option<String>,
    pub statement: Option<String>,
    pub values: Option<Vec<String>>,
    pub result_formats: Option<Vec<i16>>,
}

/// The arguments of a portal to run. The portal has no name and the row
/// count no limit where none is given.
#[derive(Debug)]
pub struct Execute {
    pub portal: Option<String>,
    pub max_rows: Option<i32>,
}

/// The arguments of a description to ask for. It is that of a statement
/// (`S`) where no variant is given, and of the one without a name where no
/// name is given.
#[derive(Debug)]
pub struct Describe {
    pub variant: Option<String>,
    pub name: Option<String>,
}

/// A frame that the client sends.
#[derive(Debug)]
pub enum Request {
    Startup { user: String },
    Query(Query),
    Parse(Parse),
    Bind(Bind),
    Describe(Describe),
    Execute(Execute),
    Sync,
    CopyData(String),
    CopyDone,
    CopyFail(String),
    Terminate,
}

/// The bytes of the startup request of a user.
pub open spec fn startup_wire(user: Seq<char>) -> Option<Seq<u8>> {
    startup_frame("user"@, user)
}

/// The text given, or the empty text.
pub open spec fn text_or_empty(text: Option<String>) -> Seq<char> {
    match text {
        Some(text) => text@,
        None => Seq::empty(),
    }
}

impl Bind {
    /// The values to bind, none where none are given.
    pub open spec fn values_given(&self) -> Seq<Seq<char>> {
        match self.values {
            Some(values) => values.deep_view(),
            None => Seq::empty(),
        }
    }

    /// The result formats, none where none are given.
    pub open spec fn formats_given(&self) -> Seq<i16> {
        match self.result_formats {
            Some(formats) => formats@,
            None => Seq::empty(),
        }
    }
}

impl Describe {
    /// The variant's code: the first byte of the variant given, `S` where
    /// none is given, and none where the variant given is empty.
    pub open spec fn variant_code(&self) -> Option<u8> {
        match self.variant {
            Some(variant) => if encode_utf8(variant@).len() > 0 {
                Some(encode_utf8(variant@)[0])
            } else {
                None
            },
            None => Some(0x53u8),
        }
    }
}

impl Request {
    /// The bytes of the request on the wire; `None` where it cannot be
    /// encoded.
    pub open spec fn wire(&self) -> Option<Seq<u8>> {
        match *self {
            Request::Startup { user } => startup_wire(user@),
            Request::Query(q) => query_frame(q.query@),
            Request::Parse(p) => parse_frame(text_or_empty(p.name), p.query@, Seq::empty()),
            Request::Bind(b) => bind_frame(
                text_or_empty(b.portal),
                text_or_empty(b.statement),
                Seq::empty(),
                b.values_given(),
                b.formats_given(),
            ),
            Request::Describe(d) => match d.variant_code() {
                Some(code) => describe_frame(code, text_or_empty(d.name)),
                None => None,
            },
            Request::Execute(e) => execute_frame(
                text_or_empty(e.portal),
                match e.max_rows {
                    Some(n) => n,
                    None => 0i32,
                },
            ),
            Request::Sync => Some(seq![0x53u8, 0u8, 0u8, 0u8, 4u8]),
            Request::CopyData(data) => copy_data_frame(encode_utf8(data@)),
            Request::CopyDone => Some(seq![0x63u8, 0u8, 0u8, 0u8, 4u8]),
            Request::CopyFail(message) => copy_fail_frame(message@),
            Request::Terminate => Some(seq![0x58u8, 0u8, 0u8, 0u8, 4u8]),
        }
    }

    /// Appends the request's bytes to `buf`. Where the request cannot be
    /// encoded, the result is `false` and the buffer holds no more than
    /// before.
    pub(crate) fn put(&self, buf: &mut BytesMut) -> (ok: bool)
        ensures
            ok <==> self.wire() is Some,
            ok ==> buffered(*final(buf)) == buffered(*old(buf)) + self.wire().unwrap(),
    {
        match self {
            Request::Startup { user } => put_startup("user", user.as_str(), buf),
            Request::Query(q) => put_query(q.query.as_str(), buf),
            Request::Parse(p) => {
                let none = String::new();
                let name = match &p.name {
                    Some(name) => name,
                    None => &none,
                };
                let param_types: Vec<u32> = Vec::new();
                put_parse(name.as_str(), p.query.as_str(), &param_types, buf)
            },
            Request::Bind(b) => {
                let none = String::new();
                let portal = match &b.portal {
                    Some(portal) => portal,
                    None => &none,
                };
                let statement = match &b.statement {
                    Some(statement) => statement,
                    None => &none,
                };
                let no_values: Vec<String> = Vec::new();
                let values = match &b.values {
                    Some(values) => values,
                    None => &no_values,
                };
                let no_formats: Vec<i16> = Vec::new();
                let result_formats = match &b.result_formats {
                    Some(formats) => formats,
                    None => &no_formats,
                };
                assert(no_values.deep_view() =~= Seq::<Seq<char>>::empty());
                put_bind(
                    portal.as_str(),
                    statement.as_str(),
                    &no_formats,
                    values,
                    result_formats,
                    buf,
                )
            },
            Request::Describe(d) => {
                let code: u8 = match &d.variant {
                    Some(variant) => {
                        let bytes = variant.as_str().as_bytes();
                        if bytes.len() == 0 {
                            return false;
                        }
                        bytes[0]
                    },
                    None => 0x53u8,
                };
                let none = String::new();
                let name = match &d.name {
                    Some(name) => name,
                    None => &none,
                };
                put_describe(code, name.as_str(), buf)
            },
            Request::Execute(e) => {
                let none = String::new();
                let portal = match &e.portal {
                    Some(portal) => portal,
                    None => &none,
                };
                let max_rows: i32 = match e.max_rows {
                    Some(n) => n,
                    None => 0,
                };
                put_execute(portal.as_str(), max_rows, buf)
            },
            Request::Sync => {
                frontend::sync(buf);
                true
            },
            Request::CopyData(data) => put_copy_data(data.as_str().as_bytes(), buf),
            Request::CopyDone => {
                frontend::copy_done(buf);
                true
            },
            Request::CopyFail(message) => put_copy_fail(message.as_str(), buf),
            Request::Terminate => {
                frontend::terminate(buf);
                true
            },
        }
    }

    /// The request's bytes on the wire; `None` where it cannot be encoded.
    pub fn encode(&self) -> (bytes: Option<Vec<u8>>)
        ensures
            bytes is Some <==> self.wire() is Some,
            bytes matches Some(b) ==> b@ == self.wire().unwrap(),
    {
        let mut buf = BytesMut::new();
        if self.put(&mut buf) {
            assert(buffered(buf) =~= self.wire().unwrap());
            Some(slice_to_vec(held(&buf)))
        } else {
            None
        }
    }
}

} // verus!
