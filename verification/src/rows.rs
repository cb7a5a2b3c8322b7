//! How documents map onto the two row types.

use vstd::prelude::*;
use crate::decode::{
    Row, get_int, get_text, get_uint, int_field, required, required_int, required_text,
    required_uint, text_field, uint_field,
};
use crate::error::{DecodeError, Failure, agrees, fails};
use crate::infer::{Attribute, find_field, has_name};
use crate::json::{json_value, parse_json};
use crate::log::Log;
use crate::schema::{log_columns, schema_log};
use crate::span::Span;

verus! {

/// What a document holds of a span: the seven plain fields, and the text of
/// the tags document where there is one.
#[derive(Debug, PartialEq)]
pub struct SpanColumns {
    pub id: u64,
    pub parent_id: Option<u64>,
    pub trace_id: u64,
    pub name: String,
    pub process_id: String,
    pub start: i64,
    pub end: Option<i64>,
    pub tags: Option<String>,
}

/// The span columns of a document. The fields are read in column order, and
/// the first that is missing though required, or of the wrong kind, is the
/// error.
pub open spec fn read_span(doc: Seq<Attribute>) -> Result<SpanColumns, Failure> {
    match required(get_uint(doc, "id"@), "id"@) {
        Err(f) => Err(f),
        Ok(id) => match get_uint(doc, "parent_id"@) {
            Err(f) => Err(f),
            Ok(parent_id) => match required(get_uint(doc, "trace_id"@), "trace_id"@) {
                Err(f) => Err(f),
                Ok(trace_id) => match required(get_text(doc, "name"@), "name"@) {
                    Err(f) => Err(f),
                    Ok(name) => match required(get_text(doc, "process_id"@), "process_id"@) {
                        Err(f) => Err(f),
                        Ok(process_id) => match required(get_int(doc, "start"@), "start"@) {
                            Err(f) => Err(f),
                            Ok(start) => match get_int(doc, "end"@) {
                                Err(f) => Err(f),
                                Ok(end) => match get_text(doc, "tags"@) {
                                    Err(f) => Err(f),
                                    Ok(tags) => Ok(
                                        SpanColumns {
                                            id,
                                            parent_id,
                                            trace_id,
                                            name,
                                            process_id,
                                            start,
                                            end,
                                            tags,
                                        },
                                    ),
                                },
                            },
                        },
                    },
                },
            },
        },
    }
}

/// Reads the span columns of a document.
pub fn span_columns(doc: &Vec<Attribute>) -> (r: Result<SpanColumns, DecodeError>)
    ensures
        agrees(r, read_span(doc@)),
{
    let id = match required_uint(doc, "id") {
        Ok(v) => v,
        Err(e) => { return Err(e); },
    };
    let parent_id = match uint_field(doc, "parent_id") {
        Ok(v) => v,
        Err(e) => { return Err(e); },
    };
    let trace_id = match required_uint(doc, "trace_id") {
        Ok(v) => v,
        Err(e) => { return Err(e); },
    };
    let name = match required_text(doc, "name") {
        Ok(v) => v,
        Err(e) => { return Err(e); },
    };
    let process_id = match required_text(doc, "process_id") {
        Ok(v) => v,
        Err(e) => { return Err(e); },
    };
    let start = match required_int(doc, "start") {
        Ok(v) => v,
        Err(e) => { return Err(e); },
    };
    let end = match int_field(doc, "end") {
        Ok(v) => v,
        Err(e) => { return Err(e); },
    };
    let tags = match text_field(doc, "tags") {
        Ok(v) => v,
        Err(e) => { return Err(e); },
    };
    Ok(SpanColumns { id, parent_id, trace_id, name, process_id, start, end, tags })
}

/// The text that the tags are read from: that of the tags column, or the
/// JSON null where the column holds none.
pub open spec fn tags_text(tags: Option<String>) -> Seq<char> {
    match tags {
        Some(t) => t@,
        None => "null"@,
    }
}

/// The span has the seven plain fields of `cols`.
pub open spec fn has_columns(s: Span, cols: SpanColumns) -> bool {
    &&& s.id == cols.id
    &&& s.parent_id == cols.parent_id
    &&& s.trace_id == cols.trace_id
    &&& s.name == cols.name
    &&& s.process_id == cols.process_id
    &&& s.start == cols.start
    &&& s.end == cols.end
}

/// Puts a span together from its columns and its parsed tags.
pub fn span_of(cols: SpanColumns, tags: serde_json::Value) -> (s: Span)
    ensures
        has_columns(s, cols),
        s.tags == tags,
{
    Span {
        id: cols.id,
        parent_id: cols.parent_id,
        trace_id: cols.trace_id,
        name: cols.name,
        process_id: cols.process_id,
        start: cols.start,
        end: cols.end,
        tags,
    }
}

impl Row for Span {
    /// A document that lacks a span column gives that column's error. One
    /// that has them all gives the span with those seven fields and with the
    /// tags that its tags text reads as; where the text cannot be read as
    /// JSON, the error names `tags`.
    open spec fn decodes(doc: Seq<Attribute>, r: Result<Span, DecodeError>) -> bool {
        match read_span(doc) {
            Err(f) => fails(r, f),
            Ok(cols) => match json_value(tags_text(cols.tags)) {
                Some(v) => r matches Ok(s) && has_columns(s, cols) && s.tags == v,
                None => fails(r, Failure::Wrong("tags"@)),
            },
        }
    }

    /// Maps a document onto a span. The tags are parsed from the text of the
    /// `tags` column; without one they are the JSON null.
    fn from_document(doc: &Vec<Attribute>) -> (r: Result<Span, DecodeError>) {
        let cols = match span_columns(doc) {
            Ok(c) => c,
            Err(e) => { return Err(e); },
        };
        let parsed = match &cols.tags {
            Some(text) => parse_json(text.as_str()),
            None => parse_json("null"),
        };
        match parsed {
            Ok(tags) => Ok(span_of(cols, tags)),
            Err(_) => Err(DecodeError::WrongType { field: "tags".to_string() }),
        }
    }
}

/// The attributes among the first `n` of a document whose key is not the
/// name of a fixed log column, in order.
pub open spec fn extra(doc: Seq<Attribute>, n: int) -> Seq<Attribute>
    decreases n,
{
    if n <= 0 {
        Seq::empty()
    } else if has_name(log_columns(), doc[n - 1].key@) {
        extra(doc, n - 1)
    } else {
        extra(doc, n - 1).push(doc[n - 1])
    }
}

/// Copies the attributes of a document that belong to no fixed log column.
pub fn extra_attributes(doc: &Vec<Attribute>) -> (r: Vec<Attribute>)
    ensures
        r@ == extra(doc@, doc@.len() as int),
{
    let fixed = schema_log();
    let mut r: Vec<Attribute> = Vec::new();
    let mut j: usize = 0;
    while j < doc.len()
        invariant
            j <= doc@.len(),
            crate::schema::schema_view(fixed@) == log_columns(),
            r@ == extra(doc@, j as int),
        decreases doc@.len() - j,
    {
        if find_field(&fixed, &doc[j].key) >= fixed.len() {
            r.push(Attribute { key: doc[j].key.clone(), value: doc[j].value.clone() });
        }
        j += 1;
    }
    r
}

impl Row for Log {
    /// The six fixed fields are read in column order, and the first that is
    /// missing though required, or of the wrong kind, is the error. The
    /// attributes are what the document holds besides the fixed columns.
    open spec fn decodes(doc: Seq<Attribute>, r: Result<Log, DecodeError>) -> bool {
        match required(get_text(doc, "process_id"@), "process_id"@) {
            Err(f) => fails(r, f),
            Ok(process_id) => match required(get_int(doc, "time"@), "time"@) {
                Err(f) => fails(r, f),
                Ok(time) => match get_uint(doc, "trace_id"@) {
                    Err(f) => fails(r, f),
                    Ok(trace_id) => match get_uint(doc, "span_id"@) {
                        Err(f) => fails(r, f),
                        Ok(span_id) => match required(get_text(doc, "level"@), "level"@) {
                            Err(f) => fails(r, f),
                            Ok(level) => match get_text(doc, "message"@) {
                                Err(f) => fails(r, f),
                                Ok(message) => {
                                    &&& r matches Ok(l)
                                    &&& l.process_id == process_id
                                    &&& l.time == time
                                    &&& l.trace_id == trace_id
                                    &&& l.span_id == span_id
                                    &&& l.level == level
                                    &&& l.message == message
                                    &&& l.fields@ == extra(doc, doc.len() as int)
                                },
                            },
                        },
                    },
                },
            },
        }
    }

    /// Maps a document onto a log row.
    fn from_document(doc: &Vec<Attribute>) -> (r: Result<Log, DecodeError>) {
        let process_id = match required_text(doc, "process_id") {
            Ok(v) => v,
            Err(e) => { return Err(e); },
        };
        let time = match required_int(doc, "time") {
            Ok(v) => v,
            Err(e) => { return Err(e); },
        };
        let trace_id = match uint_field(doc, "trace_id") {
            Ok(v) => v,
            Err(e) => { return Err(e); },
        };
        let span_id = match uint_field(doc, "span_id") {
            Ok(v) => v,
            Err(e) => { return Err(e); },
        };
        let level = match required_text(doc, "level") {
            Ok(v) => v,
            Err(e) => { return Err(e); },
        };
        let message = match text_field(doc, "message") {
            Ok(v) => v,
            Err(e) => { return Err(e); },
        };
        let fields = extra_attributes(doc);
        Ok(Log { process_id, time, trace_id, span_id, level, message, fields })
    }
}

} // verus!
