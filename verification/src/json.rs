//! The JSON text of the payloads that stand in a trace.

use crate::text::{decimal, join, joined, push_decimal, texts};
use vstd::prelude::*;

verus! {

/// The character of a hexadecimal digit, in lower case.
pub open spec fn hex_digit(d: nat) -> char
    recommends
        d < 16,
{
    if d < 10 {
        ((48 + d) as u8) as char
    } else {
        ((87 + d) as u8) as char
    }
}

/// One character as it stands inside a JSON string: the quote and the
/// backslash get a backslash in front, the control characters below U+0020
/// their short escape or `\u00..`, and every other character stands for
/// itself.
pub open spec fn escape(c: char) -> Seq<char> {
    if c == '"' {
        seq!['\\', '"']
    } else if c == '\\' {
        seq!['\\', '\\']
    } else if c == '\u{8}' {
        seq!['\\', 'b']
    } else if c == '\u{9}' {
        seq!['\\', 't']
    } else if c == '\u{a}' {
        seq!['\\', 'n']
    } else if c == '\u{c}' {
        seq!['\\', 'f']
    } else if c == '\u{d}' {
        seq!['\\', 'r']
    } else if (c as u32) < 0x20 {
        seq!['\\', 'u', '0', '0', hex_digit((c as u32 / 16) as nat), hex_digit((c as u32 % 16) as nat)]
    } else {
        seq![c]
    }
}

/// A text as it stands inside a JSON string.
pub open spec fn escaped(s: Seq<char>) -> Seq<char>
    decreases s.len(),
{
    if s.len() == 0 {
        Seq::empty()
    } else {
        escaped(s.drop_last()) + escape(s.last())
    }
}

/// A text as a JSON string, quotes included.
pub open spec fn quoted(s: Seq<char>) -> Seq<char> {
    seq!['"'] + escaped(s) + seq!['"']
}

/// The items as a JSON array.
pub open spec fn array(items: Seq<Seq<char>>) -> Seq<char> {
    "["@ + joined(items, ","@) + "]"@
}

/// `serde_json::to_string` of a string slice.
///
/// Trusted: it does not fail on a string, and the result is the string
/// between quotes with the escapes that `escape` lists.
#[verifier::external_body]
fn to_json_string(s: &str) -> (r: Option<String>)
    ensures
        r is Some,
        r.unwrap()@ == quoted(s@),
{
    serde_json::to_string(s).ok()
}

/// A text as a JSON string.
pub fn quote(s: &str) -> (out: String)
    ensures
        out@ == quoted(s@),
{
    match to_json_string(s) {
        Some(out) => out,
        None => vstd::pervasive::unreached(),
    }
}

/// Each text as a JSON string.
pub fn quote_each(items: &Vec<String>) -> (out: Vec<String>)
    ensures
        texts(out@) == texts(items@).map_values(|s: Seq<char>| quoted(s)),
{
    let mut out: Vec<String> = Vec::new();
    let mut i: usize = 0;
    while i < items.len()
        invariant
            i <= items.len(),
            out.len() == i,
            forall|k: int| 0 <= k < i ==> (#[trigger] out@[k])@ == quoted(items@[k]@),
        decreases items.len() - i,
    {
        out.push(quote(items[i].as_str()));
        i += 1;
    }
    assert(texts(out@) =~= texts(items@).map_values(|s: Seq<char>| quoted(s)));
    out
}

/// Puts the items between brackets, separated by commas.
pub fn array_json(items: &Vec<String>) -> (out: String)
    ensures
        out@ == array(texts(items@)),
{
    let mut out = "[".to_owned();
    let inner = join(items, ",");
    out.append(inner.as_str());
    out.append("]");
    out
}

/// `{"status":"I"}`
pub open spec fn status_json(status: Seq<char>) -> Seq<char> {
    "{\"status\":"@ + quoted(status) + "}"@
}

/// `{"name":"id"}`
pub open spec fn column_json(name: Seq<char>) -> Seq<char> {
    "{\"name\":"@ + quoted(name) + "}"@
}

/// `{"fields":[{"name":"id"},{"name":"label"}]}`
pub open spec fn columns_json(names: Seq<Seq<char>>) -> Seq<char> {
    "{\"fields\":"@ + array(names.map_values(|name: Seq<char>| column_json(name))) + "}"@
}

/// `{"fields":["blah","5"]}`
pub open spec fn values_json(values: Seq<Seq<char>>) -> Seq<char> {
    "{\"fields\":"@ + array(values.map_values(|value: Seq<char>| quoted(value))) + "}"@
}

/// `{"format":"text","column_formats":["text","text"]}`
pub open spec fn copy_json(format: Seq<char>, column_formats: Seq<Seq<char>>) -> Seq<char> {
    "{\"format\":"@ + quoted(format) + ",\"column_formats\":"@ + array(
        column_formats.map_values(|name: Seq<char>| quoted(name)),
    ) + "}"@
}

/// `{"parameters":[23,25]}`
pub open spec fn parameters_json(parameters: Seq<u32>) -> Seq<char> {
    "{\"parameters\":"@ + array(parameters.map_values(|p: u32| decimal(p as nat))) + "}"@
}

/// `{"tag":"SELECT 1"}`
pub open spec fn tag_json(tag: Seq<char>) -> Seq<char> {
    "{\"tag\":"@ + quoted(tag) + "}"@
}

/// `{"typ":"C","value":"42601"}`
pub open spec fn error_field_json(field: (char, Seq<char>)) -> Seq<char> {
    "{\"typ\":"@ + quoted(seq![field.0]) + ",\"value\":"@ + quoted(field.1) + "}"@
}

/// `{"fields":[{"typ":"C","value":"42601"}]}`
pub open spec fn error_json(fields: Seq<(char, Seq<char>)>) -> Seq<char> {
    "{\"fields\":"@ + array(fields.map_values(|f: (char, Seq<char>)| error_field_json(f)))
        + "}"@
}

/// The payload of a ready-for-query frame.
#[derive(Debug)]
pub struct ReadyForQuery {
    pub status: String,
}

impl ReadyForQuery {
    pub open spec fn json(&self) -> Seq<char> {
        status_json(self.status@)
    }

    pub fn to_json(&self) -> (out: String)
        ensures
            out@ == self.json(),
    {
        let mut out = "{\"status\":".to_owned();
        out.append(quote(self.status.as_str()).as_str());
        out.append("}");
        out
    }
}

/// One column of a row description.
#[derive(Debug)]
pub struct Field {
    pub name: String,
}

impl Field {
    pub open spec fn json(&self) -> Seq<char> {
        column_json(self.name@)
    }

    pub fn to_json(&self) -> (out: String)
        ensures
            out@ == self.json(),
    {
        let mut out = "{\"name\":".to_owned();
        out.append(quote(self.name.as_str()).as_str());
        out.append("}");
        out
    }
}

/// The payload of a row description: its columns in order.
#[derive(Debug)]
pub struct RowDescription {
    pub fields: Vec<Field>,
}

impl RowDescription {
    /// The names of the columns in order.
    pub open spec fn names(&self) -> Seq<Seq<char>> {
        self.fields@.map_values(|f: Field| f.name@)
    }

    pub open spec fn json(&self) -> Seq<char> {
        columns_json(self.names())
    }

    pub fn to_json(&self) -> (out: String)
        ensures
            out@ == self.json(),
    {
        let mut items: Vec<String> = Vec::new();
        let mut i: usize = 0;
        while i < self.fields.len()
            invariant
                i <= self.fields.len(),
                items.len() == i,
                forall|k: int|
                    0 <= k < i ==> (#[trigger] items@[k])@ == column_json(self.fields@[k].name@),
            decreases self.fields.len() - i,
        {
            items.push(self.fields[i].to_json());
            i += 1;
        }
        assert(texts(items@) =~= self.names().map_values(|name: Seq<char>| column_json(name)));
        let mut out = "{\"fields\":".to_owned();
        out.append(array_json(&items).as_str());
        out.append("}");
        out
    }
}

/// The payload of a data row: its values in order, as they are shown.
#[derive(Debug)]
pub struct DataRow {
    pub fields: Vec<String>,
}

impl DataRow {
    pub open spec fn json(&self) -> Seq<char> {
        values_json(texts(self.fields@))
    }

    pub fn to_json(&self) -> (out: String)
        ensures
            out@ == self.json(),
    {
        let items = quote_each(&self.fields);
        let mut out = "{\"fields\":".to_owned();
        out.append(array_json(&items).as_str());
        out.append("}");
        out
    }
}

/// The payload of a copy-out or copy-in response: the overall format and the
/// format of each column, by name.
#[derive(Debug)]
pub struct CopyOut {
    pub format: String,
    pub column_formats: Vec<String>,
}

impl CopyOut {
    pub open spec fn json(&self) -> Seq<char> {
        copy_json(self.format@, texts(self.column_formats@))
    }

    pub fn to_json(&self) -> (out: String)
        ensures
            out@ == self.json(),
    {
        let items = quote_each(&self.column_formats);
        let mut out = "{\"format\":".to_owned();
        out.append(quote(self.format.as_str()).as_str());
        out.append(",\"column_formats\":");
        out.append(array_json(&items).as_str());
        out.append("}");
        out
    }
}

/// The payload of a parameter description: the type of each parameter.
#[derive(Debug)]
pub struct ParameterDescription {
    parameters: Vec<u32>,
}

impl ParameterDescription {
    pub fn new(parameters: Vec<u32>) -> (out: Self)
        ensures
            out.parameters() == parameters@,
    {
        ParameterDescription { parameters }
    }

    /// The parameter types in order.
    pub closed spec fn parameters(&self) -> Seq<u32> {
        self.parameters@
    }

    pub open spec fn json(&self) -> Seq<char> {
        parameters_json(self.parameters())
    }

    pub fn to_json(&self) -> (out: String)
        ensures
            out@ == self.json(),
    {
        let mut items: Vec<String> = Vec::new();
        let mut i: usize = 0;
        while i < self.parameters.len()
            invariant
                i <= self.parameters.len(),
                items.len() == i,
                forall|k: int|
                    0 <= k < i ==> (#[trigger] items@[k])@ == decimal(self.parameters@[k] as nat),
            decreases self.parameters.len() - i,
        {
            let mut item = String::new();
            push_decimal(&mut item, self.parameters[i]);
            assert(item@ =~= decimal(self.parameters@[i as int] as nat));
            items.push(item);
            i += 1;
        }
        assert(texts(items@) =~= self.parameters().map_values(|p: u32| decimal(p as nat)));
        let mut out = "{\"parameters\":".to_owned();
        out.append(array_json(&items).as_str());
        out.append("}");
        out
    }
}

/// The payload of a command completion.
#[derive(Debug)]
pub struct CommandComplete {
    pub tag: String,
}

impl CommandComplete {
    pub open spec fn json(&self) -> Seq<char> {
        tag_json(self.tag@)
    }

    pub fn to_json(&self) -> (out: String)
        ensures
            out@ == self.json(),
    {
        let mut out = "{\"tag\":".to_owned();
        out.append(quote(self.tag.as_str()).as_str());
        out.append("}");
        out
    }
}

/// One field of an error or a notice: its code and its text.
#[derive(Debug)]
pub struct ErrorField {
    pub typ: char,
    pub value: String,
}

impl View for ErrorField {
    type V = (char, Seq<char>);

    open spec fn view(&self) -> (char, Seq<char>) {
        (self.typ, self.value@)
    }
}

impl ErrorField {
    pub open spec fn json(&self) -> Seq<char> {
        error_field_json(self@)
    }

    pub fn to_json(&self) -> (out: String)
        ensures
            out@ == self.json(),
    {
        let mut typ = String::new();
        typ.push(self.typ);
        assert(typ@ =~= seq![self.typ]);
        let mut out = "{\"typ\":".to_owned();
        out.append(quote(typ.as_str()).as_str());
        out.append(",\"value\":");
        out.append(quote(self.value.as_str()).as_str());
        out.append("}");
        out
    }
}

/// The payload of an error or a notice: the fields that the filter lets
/// through, in order.
#[derive(Debug)]
pub struct ErrorResponse {
    pub fields: Vec<ErrorField>,
}

impl View for ErrorResponse {
    type V = Seq<(char, Seq<char>)>;

    open spec fn view(&self) -> Seq<(char, Seq<char>)> {
        self.fields@.map_values(|f: ErrorField| f@)
    }
}

impl ErrorResponse {
    pub open spec fn json(&self) -> Seq<char> {
        error_json(self@)
    }

    pub fn to_json(&self) -> (out: String)
        ensures
            out@ == self.json(),
    {
        let mut items: Vec<String> = Vec::new();
        let mut i: usize = 0;
        while i < self.fields.len()
            invariant
                i <= self.fields.len(),
                items.len() == i,
                forall|k: int|
                    0 <= k < i ==> (#[trigger] items@[k])@ == error_field_json(self.fields@[k]@),
            decreases self.fields.len() - i,
        {
            items.push(self.fields[i].to_json());
            i += 1;
        }
        assert(texts(items@) =~= self@.map_values(|f: (char, Seq<char>)| error_field_json(f)));
        let mut out = "{\"fields\":".to_owned();
        out.append(array_json(&items).as_str());
        out.append("}");
        out
    }
}

} // verus!
