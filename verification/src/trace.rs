//! From a backend frame to its line in a trace.

use crate::json::{
    columns_json, copy_json, error_json, escape, escaped, parameters_json, quote, quoted,
    status_json, tag_json, values_json, CommandComplete, CopyOut, DataRow, ErrorField,
    ErrorResponse, Field, ParameterDescription, ReadyForQuery, RowDescription,
};
use crate::text::{
    format_label, format_name, joined, shown, text_or_bytes, texts, utf8_text,
};
use crate::wire::{Frame, FrameView};
use vstd::prelude::*;
use vstd::utf8::{decode_utf8, valid_utf8};

verus! {

/// One observed frame: its label, and its payload as JSON text, which is
/// empty where the frame carries nothing to compare.
#[derive(Debug)]
pub struct Entry {
    pub label: String,
    pub args: String,
}

/// The line of an entry: the label alone where there is no payload, else the
/// label, one space and the payload.
pub open spec fn entry_line(label: Seq<char>, args: Seq<char>) -> Seq<char> {
    if args.len() == 0 {
        label
    } else {
        label + " "@ + args
    }
}

impl Entry {
    pub open spec fn line(&self) -> Seq<char> {
        entry_line(self.label@, self.args@)
    }

    /// The line that stands for this entry in a trace.
    pub fn to_line(&self) -> (out: String)
        ensures
            out@ == self.line(),
    {
        let mut out = self.label.clone();
        if !self.args.as_str().is_empty() {
            out.append(" ");
            out.append(self.args.as_str());
        }
        out
    }
}

/// What a frame comes to in a trace.
pub enum Rendering {
    /// The frame leaves no mark.
    Skip,
    /// The frame is one entry.
    Line { label: Seq<char>, args: Seq<char> },
    /// The frame's body cannot be read.
    Unreadable,
}

/// A column value as it is shown: `NULL` for a null.
pub open spec fn shown_value(value: Option<Seq<u8>>) -> Seq<char> {
    match value {
        Some(bytes) => shown(bytes),
        None => "NULL"@,
    }
}

/// The fields whose code the filter holds.
pub open spec fn passes(filter: Seq<char>) -> spec_fn((u8, Seq<u8>)) -> bool {
    |field: (u8, Seq<u8>)| filter.contains(field.0 as char)
}

/// Every field's value is well-formed UTF-8.
pub open spec fn readable(fields: Seq<(u8, Seq<u8>)>) -> bool {
    forall|i: int| 0 <= i < fields.len() ==> valid_utf8((#[trigger] fields[i]).1)
}

/// A field as code and text.
pub open spec fn field_text(field: (u8, Seq<u8>)) -> (char, Seq<char>) {
    (field.0 as char, decode_utf8(field.1))
}

/// An error or a notice in a trace: the fields that the filter lets through,
/// in the frame's order.
pub open spec fn error_rendering(
    label: Seq<char>,
    fields: Seq<(u8, Seq<u8>)>,
    filter: Seq<char>,
) -> Rendering {
    let kept = fields.filter(passes(filter));
    if readable(kept) {
        Rendering::Line {
            label,
            args: error_json(kept.map_values(|f: (u8, Seq<u8>)| field_text(f))),
        }
    } else {
        Rendering::Unreadable
    }
}

/// What the line of an unrecognised frame shows: the leading byte between
/// single quotes.
pub open spec fn unknown_args(lead: char) -> Seq<char> {
    "'"@.push(lead) + "'"@
}

/// What a frame comes to in a trace, given the leading byte of the buffer
/// that it was read from and the codes of the error fields to show.
pub open spec fn rendering(view: FrameView, lead: char, filter: Seq<char>) -> Rendering {
    match view {
        FrameView::ReadyForQuery { status } => Rendering::Line {
            label: "ReadyForQuery"@,
            args: status_json(seq![status as char]),
        },
        FrameView::RowDescription { names: Some(names) } => Rendering::Line {
            label: "RowDescription"@,
            args: columns_json(names),
        },
        FrameView::DataRow { values: Some(values) } => Rendering::Line {
            label: "DataRow"@,
            args: values_json(values.map_values(|v: Option<Seq<u8>>| shown_value(v))),
        },
        FrameView::CommandComplete { tag: Some(tag) } => Rendering::Line {
            label: "CommandComplete"@,
            args: tag_json(tag),
        },
        FrameView::ParseComplete => Rendering::Line {
            label: "ParseComplete"@,
            args: Seq::empty(),
        },
        FrameView::BindComplete => Rendering::Line { label: "BindComplete"@, args: Seq::empty() },
        FrameView::PortalSuspended => Rendering::Line {
            label: "PortalSuspended"@,
            args: Seq::empty(),
        },
        FrameView::ErrorResponse { fields: Some(fields) } => error_rendering(
            "ErrorResponse"@,
            fields,
            filter,
        ),
        FrameView::NoticeResponse { fields: Some(fields) } => error_rendering(
            "NoticeResponse"@,
            fields,
            filter,
        ),
        FrameView::CopyOut { format, column_formats: Some(column_formats) } => Rendering::Line {
            label: "CopyOut"@,
            args: copy_json(
                format_label(format as u16),
                column_formats.map_values(|f: u16| format_label(f)),
            ),
        },
        FrameView::CopyIn { format, column_formats: Some(column_formats) } => Rendering::Line {
            label: "CopyIn"@,
            args: copy_json(
                format_label(format as u16),
                column_formats.map_values(|f: u16| format_label(f)),
            ),
        },
        FrameView::CopyData { data } => Rendering::Line {
            label: "CopyData"@,
            args: quoted(shown(data)),
        },
        FrameView::CopyDone => Rendering::Line { label: "CopyDone"@, args: Seq::empty() },
        FrameView::ParameterDescription { parameters: Some(parameters) } => Rendering::Line {
            label: "ParameterDescription"@,
            args: parameters_json(parameters),
        },
        FrameView::ParameterStatus => Rendering::Skip,
        FrameView::NoData => Rendering::Line { label: "NoData"@, args: Seq::empty() },
        FrameView::EmptyQueryResponse => Rendering::Line {
            label: "EmptyQueryResponse"@,
            args: Seq::empty(),
        },
        FrameView::AuthenticationOk | FrameView::Other => Rendering::Line {
            label: "UNKNOWN"@,
            args: unknown_args(lead),
        },
        FrameView::RowDescription { names: None }
        | FrameView::DataRow { values: None }
        | FrameView::CommandComplete { tag: None }
        | FrameView::ErrorResponse { fields: None }
        | FrameView::NoticeResponse { fields: None }
        | FrameView::CopyOut { column_formats: None, .. }
        | FrameView::CopyIn { column_formats: None, .. }
        | FrameView::ParameterDescription { parameters: None } => Rendering::Unreadable,
    }
}

/// The labels that an entry can bear.
pub open spec fn is_label(text: Seq<char>) -> bool {
    text == "ReadyForQuery"@ || text == "RowDescription"@ || text == "DataRow"@ || text
        == "CommandComplete"@ || text == "ParseComplete"@ || text == "BindComplete"@ || text
        == "PortalSuspended"@ || text == "ErrorResponse"@ || text == "NoticeResponse"@ || text
        == "CopyOut"@ || text == "CopyIn"@ || text == "CopyData"@ || text == "CopyDone"@ || text
        == "ParameterDescription"@ || text == "NoData"@ || text == "EmptyQueryResponse"@ || text
        == "UNKNOWN"@
}

/// Every entry bears one of the labels, whatever frame it stands for.
pub proof fn entries_bear_labels(view: FrameView, lead: char, filter: Seq<char>)
    ensures
        rendering(view, lead, filter) matches Rendering::Line { label, args } ==> is_label(label),
{
}

/// Whether an entry can bear the text as its label.
pub fn known_label(text: &String) -> (known: bool)
    ensures
        known == is_label(text@),
{
    *text == "ReadyForQuery".to_owned() || *text == "RowDescription".to_owned() || *text
        == "DataRow".to_owned() || *text == "CommandComplete".to_owned() || *text
        == "ParseComplete".to_owned() || *text == "BindComplete".to_owned() || *text
        == "PortalSuspended".to_owned() || *text == "ErrorResponse".to_owned() || *text
        == "NoticeResponse".to_owned() || *text == "CopyOut".to_owned() || *text
        == "CopyIn".to_owned() || *text == "CopyData".to_owned() || *text == "CopyDone".to_owned()
        || *text == "ParameterDescription".to_owned() || *text == "NoData".to_owned() || *text
        == "EmptyQueryResponse".to_owned() || *text == "UNKNOWN".to_owned()
}

/// A frame whose body cannot be read.
#[derive(Debug)]
pub struct Unreadable;

/// Whether the filter holds the code.
pub fn holds(filter: &Vec<char>, code: char) -> (found: bool)
    ensures
        found == filter@.contains(code),
{
    let mut i: usize = 0;
    while i < filter.len()
        invariant
            i <= filter.len(),
            forall|k: int| 0 <= k < i ==> filter@[k] != code,
        decreases filter.len() - i,
    {
        if filter[i] == code {
            return true;
        }
        i += 1;
    }
    false
}

fn entry(label: &str, args: String) -> (e: Entry)
    ensures
        e.label@ == label@,
        e.args@ == args@,
{
    Entry { label: label.to_owned(), args }
}

fn columns_entry(names: &Vec<String>) -> (e: Entry)
    ensures
        e.label@ == "RowDescription"@,
        e.args@ == columns_json(names.deep_view()),
{
    let mut fields: Vec<Field> = Vec::new();
    let mut i: usize = 0;
    while i < names.len()
        invariant
            i <= names.len(),
            fields.len() == i,
            forall|k: int| 0 <= k < i ==> (#[trigger] fields@[k]).name@ == names@[k]@,
        decreases names.len() - i,
    {
        fields.push(Field { name: names[i].clone() });
        i += 1;
    }
    let payload = RowDescription { fields };
    assert(payload.names() =~= names.deep_view());
    entry("RowDescription", payload.to_json())
}

fn values_entry(values: &Vec<Option<Vec<u8>>>) -> (e: Entry)
    ensures
        e.label@ == "DataRow"@,
        e.args@ == values_json(
            values.deep_view().map_values(|v: Option<Seq<u8>>| shown_value(v)),
        ),
{
    let mut fields: Vec<String> = Vec::new();
    let mut i: usize = 0;
    while i < values.len()
        invariant
            i <= values.len(),
            fields.len() == i,
            forall|k: int|
                0 <= k < i ==> (#[trigger] fields@[k])@ == shown_value(values@[k].deep_view()),
        decreases values.len() - i,
    {
        let field = match &values[i] {
            Some(bytes) => {
                assert(bytes.deep_view() =~= bytes@);
                text_or_bytes(bytes.as_slice())
            },
            None => "NULL".to_owned(),
        };
        fields.push(field);
        i += 1;
    }
    let payload = DataRow { fields };
    assert(texts(payload.fields@) =~= values.deep_view().map_values(
        |v: Option<Seq<u8>>| shown_value(v),
    ));
    entry("DataRow", payload.to_json())
}

fn error_entry(label: &str, fields: &Vec<(u8, Vec<u8>)>, filter: &Vec<char>) -> (r: Result<
    Entry,
    Unreadable,
>)
    ensures
        match error_rendering(label@, fields.deep_view(), filter@) {
            Rendering::Line { label, args } => r matches Ok(e) && e.label@ == label && e.args@
                == args,
            _ => r is Err,
        },
{
    let ghost all = fields.deep_view();
    let ghost pred = passes(filter@);
    let mut kept: Vec<ErrorField> = Vec::new();
    let mut i: usize = 0;
    proof {
        reveal(Seq::filter);
        assert(all.take(0).filter(pred) =~= Seq::<(u8, Seq<u8>)>::empty());
    }
    while i < fields.len()
        invariant
            i <= fields.len(),
            all == fields.deep_view(),
            pred == passes(filter@),
            readable(all.take(i as int).filter(pred)),
            kept.len() == all.take(i as int).filter(pred).len(),
            forall|k: int|
                0 <= k < kept.len() ==> (#[trigger] kept@[k])@ == field_text(
                    all.take(i as int).filter(pred)[k],
                ),
        decreases fields.len() - i,
    {
        let code = fields[i].0 as char;
        let ghost field = all[i as int];
        proof {
            reveal(Seq::filter);
            assert(fields@[i as int].1.deep_view() =~= fields@[i as int].1@);
            assert(field == (fields@[i as int].0, fields@[i as int].1@));
            assert(all.take(i + 1).drop_last() =~= all.take(i as int));
            assert(all.take(i + 1).last() == field);
        }
        if holds(filter, code) {
            match utf8_text(fields[i].1.clone()) {
                Some(value) => {
                    kept.push(ErrorField { typ: code, value });
                },
                None => {
                    proof {
                        assert(all.take(fields.len() as int) =~= all);
                        all.lemma_filter_contains(pred, i as int);
                        let j = choose|j: int|
                            0 <= j < all.filter(pred).len() && all.filter(pred)[j] == field;
                        assert(!valid_utf8(all.filter(pred)[j].1));
                    }
                    return Err(Unreadable);
                },
            }
        }
        i += 1;
    }
    assert(all.take(fields.len() as int) =~= all);
    let payload = ErrorResponse { fields: kept };
    assert(payload@ =~= all.filter(pred).map_values(|f: (u8, Seq<u8>)| field_text(f)));
    Ok(entry(label, payload.to_json()))
}

fn copy_entry(label: &str, format: u8, column_formats: &Vec<u16>) -> (e: Entry)
    ensures
        e.label@ == label@,
        e.args@ == copy_json(
            format_label(format as u16),
            column_formats.deep_view().map_values(|f: u16| format_label(f)),
        ),
{
    let mut names: Vec<String> = Vec::new();
    let mut i: usize = 0;
    while i < column_formats.len()
        invariant
            i <= column_formats.len(),
            names.len() == i,
            forall|k: int| 0 <= k < i ==> (#[trigger] names@[k])@ == format_label(column_formats@[k]),
        decreases column_formats.len() - i,
    {
        names.push(format_name(column_formats[i]));
        i += 1;
    }
    let payload = CopyOut { format: format_name(format as u16), column_formats: names };
    assert(texts(payload.column_formats@) =~= column_formats.deep_view().map_values(
        |f: u16| format_label(f),
    ));
    entry(label, payload.to_json())
}

/// Describes one frame for a trace.
///
/// `lead` is the first byte of the receive buffer when the frame was read;
/// `err_field_typs` holds the codes of the error and notice fields to show.
/// A parameter status leaves no entry. A frame that the trace has no name for
/// is labelled `UNKNOWN` and shows `lead`.
pub fn describe(frame: &Frame, lead: char, err_field_typs: &Vec<char>) -> (r: Result<
    Option<Entry>,
    Unreadable,
>)
    ensures
        match rendering(frame@, lead, err_field_typs@) {
            Rendering::Skip => r matches Ok(None),
            Rendering::Line { label, args } => r matches Ok(Some(e)) && e.label@ == label
                && e.args@ == args,
            Rendering::Unreadable => r is Err,
        },
{
    match frame {
        Frame::ReadyForQuery { status } => {
            let mut text = String::new();
            text.push(*status as char);
            assert(text@ =~= seq![*status as char]);
            let payload = ReadyForQuery { status: text };
            Ok(Some(entry("ReadyForQuery", payload.to_json())))
        },
        Frame::RowDescription { names: Some(names) } => Ok(Some(columns_entry(names))),
        Frame::DataRow { values: Some(values) } => Ok(Some(values_entry(values))),
        Frame::CommandComplete { tag: Some(tag) } => {
            let payload = CommandComplete { tag: tag.clone() };
            Ok(Some(entry("CommandComplete", payload.to_json())))
        },
        Frame::ParseComplete => Ok(Some(entry("ParseComplete", String::new()))),
        Frame::BindComplete => Ok(Some(entry("BindComplete", String::new()))),
        Frame::PortalSuspended => Ok(Some(entry("PortalSuspended", String::new()))),
        Frame::ErrorResponse { fields: Some(fields) } => {
            match error_entry("ErrorResponse", fields, err_field_typs) {
                Ok(e) => Ok(Some(e)),
                Err(e) => Err(e),
            }
        },
        Frame::NoticeResponse { fields: Some(fields) } => {
            match error_entry("NoticeResponse", fields, err_field_typs) {
                Ok(e) => Ok(Some(e)),
                Err(e) => Err(e),
            }
        },
        Frame::CopyOut { format, column_formats: Some(column_formats) } => Ok(
            Some(copy_entry("CopyOut", *format, column_formats)),
        ),
        Frame::CopyIn { format, column_formats: Some(column_formats) } => Ok(
            Some(copy_entry("CopyIn", *format, column_formats)),
        ),
        Frame::CopyData { data } => {
            assert(data.deep_view() =~= data@);
            let text = text_or_bytes(data.as_slice());
            Ok(Some(entry("CopyData", quote(text.as_str()))))
        },
        Frame::CopyDone => Ok(Some(entry("CopyDone", String::new()))),
        Frame::ParameterDescription { parameters: Some(parameters) } => {
            assert(parameters.deep_view() =~= parameters@);
            let payload = ParameterDescription::new(parameters.clone());
            Ok(Some(entry("ParameterDescription", payload.to_json())))
        },
        Frame::ParameterStatus => Ok(None),
        Frame::NoData => Ok(Some(entry("NoData", String::new()))),
        Frame::EmptyQueryResponse => Ok(Some(entry("EmptyQueryResponse", String::new()))),
        Frame::AuthenticationOk | Frame::Other => {
            let mut args = "'".to_owned();
            args.push(lead);
            args.append("'");
            Ok(Some(entry("UNKNOWN", args)))
        },
        _ => Err(Unreadable),
    }
}

/// Of the fields severity, code and message of an error, a filter that holds
/// the code and the message and not the severity lets the code and the
/// message through, each once and in the frame's order, whatever their
/// values are and in whatever order the filter holds them.
pub proof fn code_and_message_pass(
    severity: Seq<u8>,
    code: Seq<u8>,
    message: Seq<u8>,
    filter: Seq<char>,
)
    requires
        filter.contains('C'),
        filter.contains('M'),
        !filter.contains('S'),
    ensures
        seq![(0x53u8, severity), (0x43u8, code), (0x4du8, message)].filter(passes(filter))
            == seq![(0x43u8, code), (0x4du8, message)],
{
    let fields = seq![(0x53u8, severity), (0x43u8, code), (0x4du8, message)];
    let pred = passes(filter);
    reveal_with_fuel(Seq::filter, 4);
    assert(0x53u8 as char == 'S' && 0x43u8 as char == 'C' && 0x4du8 as char == 'M');
    assert(fields.drop_last() =~= seq![(0x53u8, severity), (0x43u8, code)]);
    assert(fields.drop_last().drop_last() =~= seq![(0x53u8, severity)]);
    assert(fields.drop_last().drop_last().drop_last() =~= Seq::<(u8, Seq<u8>)>::empty());
    assert(fields.filter(pred) =~= seq![(0x43u8, code), (0x4du8, message)]);
}

/// Every field that an error shows has a code that the filter holds, and
/// does stand in the frame.
pub proof fn shown_fields_pass_the_filter(fields: Seq<(u8, Seq<u8>)>, filter: Seq<char>, i: int)
    requires
        0 <= i < fields.filter(passes(filter)).len(),
    ensures
        filter.contains(fields.filter(passes(filter))[i].0 as char),
        fields.contains(fields.filter(passes(filter))[i]),
{
    fields.lemma_filter_pred(passes(filter), i);
    let kept = fields.filter(passes(filter));
    assert(kept.contains(kept[i]));
    fields.lemma_filter_contains_rev(passes(filter), kept[i]);
}

/// A null and an empty value are shown differently, and so are the rows
/// that hold them.
pub proof fn null_differs_from_empty()
    ensures
        shown_value(None) != shown_value(Some(Seq::empty())),
        quoted(shown_value(None)) != quoted(shown_value(Some(Seq::empty()))),
        rendering(FrameView::DataRow { values: Some(seq![None]) }, 'D', Seq::empty())
            != rendering(
            FrameView::DataRow { values: Some(seq![Some(Seq::empty())]) },
            'D',
            Seq::empty(),
        ),
{
    reveal_strlit("NULL");
    let empty = Seq::<u8>::empty();
    assert(valid_utf8(empty)) by {
        reveal_with_fuel(valid_utf8, 2);
    }
    assert(decode_utf8(empty) =~= Seq::<char>::empty()) by {
        reveal_with_fuel(decode_utf8, 2);
    }
    assert(shown_value(None).len() == 4);
    assert(shown_value(Some(empty)).len() == 0);
    let null = shown_value(None);
    assert(quoted(Seq::<char>::empty()).len() == 2) by {
        reveal_with_fuel(escaped, 2);
    }
    assert(quoted(null).len() > 2) by {
        reveal_with_fuel(escaped, 2);
        assert(escaped(null) == escaped(null.drop_last()) + escape(null.last()));
        assert(escape(null.last()).len() >= 1);
    }
    let a = seq![None::<Seq<u8>>].map_values(|v: Option<Seq<u8>>| shown_value(v));
    let b = seq![Some(empty)].map_values(|v: Option<Seq<u8>>| shown_value(v));
    assert(a[0] == null);
    assert(b[0] == shown_value(Some(empty)));
    values_json_tells_rows_apart(a, b);
}

/// Rows of one value are written alike only where the value is written
/// alike.
proof fn values_json_tells_rows_apart(a: Seq<Seq<char>>, b: Seq<Seq<char>>)
    requires
        a.len() == 1,
        b.len() == 1,
        quoted(a[0]) != quoted(b[0]),
    ensures
        values_json(a) != values_json(b),
{
    reveal_strlit("{\"fields\":");
    reveal_strlit("}");
    reveal_strlit("[");
    reveal_strlit("]");
    reveal_strlit(",");
    let qa = a.map_values(|value: Seq<char>| quoted(value));
    let qb = b.map_values(|value: Seq<char>| quoted(value));
    assert(joined(qa, ","@) == quoted(a[0]));
    assert(joined(qb, ","@) == quoted(b[0]));
    let head = "{\"fields\":"@ + "["@;
    let tail = "]"@ + "}"@;
    let ja = values_json(a);
    let jb = values_json(b);
    assert(ja =~= head + quoted(a[0]) + tail);
    assert(jb =~= head + quoted(b[0]) + tail);
    if ja == jb {
        assert(quoted(a[0]).len() == quoted(b[0]).len());
        assert(quoted(a[0]) =~= ja.subrange(head.len() as int, (head.len() + quoted(a[0]).len()) as int));
        assert(quoted(b[0]) =~= jb.subrange(head.len() as int, (head.len() + quoted(b[0]).len()) as int));
    }
}

} // verus!
