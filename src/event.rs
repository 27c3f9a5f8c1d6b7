use crate::kv::{field_views, fold_fields, FieldMap, FieldView, Key};
use crate::metadata::{opt_str_view, opt_string_view, Level, Metadata, MetadataView};
use vstd::prelude::*;

verus! {

#[verifier::external_type_specification]
#[verifier::external_body]
pub struct ExBacktraceFrame(backtrace::BacktraceFrame);

/// Number of innermost frames of a captured stack that belong to the capture
/// machinery itself and are left out.
pub const SKIPPED_FRAMES: usize = 5;

/// Relies on `backtrace::Backtrace::new` and `Backtrace::frames`: the
/// resolved frames of the calling thread's stack, innermost first.
#[verifier::external_body]
fn current_frames() -> (r: Vec<backtrace::BacktraceFrame>) {
    backtrace::Backtrace::new().frames().to_vec()
}

/// Relies on `backtrace::Backtrace::from` a frame list and its `Debug`
/// rendering: the text of the stack trace.
#[verifier::external_body]
fn render_frames(frames: Vec<backtrace::BacktraceFrame>) -> (r: String) {
    format!("{:?}", backtrace::Backtrace::from(frames))
}

/// The frames without the innermost ones of the capture machinery, when
/// there are more than those.
pub fn trim_frames<T>(frames: Vec<T>) -> (r: Vec<T>)
    ensures
        r@ == if frames@.len() > SKIPPED_FRAMES {
            frames@.subrange(SKIPPED_FRAMES as int, frames@.len() as int)
        } else {
            frames@
        },
{
    let mut frames = frames;
    if frames.len() > SKIPPED_FRAMES {
        frames.split_off(SKIPPED_FRAMES)
    } else {
        frames
    }
}

/// A stack trace for an event of the given level: captured, trimmed and
/// rendered for `Crash` events only.
pub fn capture_backtrace(level: Level) -> (r: Option<String>)
    ensures
        r is Some <==> level == Level::Crash,
{
    match level {
        Level::Crash => Some(render_frames(trim_frames(current_frames()))),
        _ => None,
    }
}

/// An owned event as plain values.
pub struct AsyncEventView {
    pub timestamp_micros: i64,
    pub metadata: MetadataView,
    pub message: Option<Seq<char>>,
    pub fields: Seq<FieldView>,
    pub backtrace: Option<Seq<char>>,
}

/// Owned snapshot of one log event, safe to hand to another thread.
pub struct AsyncEvent {
    timestamp_micros: i64,
    metadata: Metadata,
    message: Option<String>,
    keys_and_values: FieldMap,
    backtrace: Option<String>,
}

impl View for AsyncEvent {
    type V = AsyncEventView;

    closed spec fn view(&self) -> AsyncEventView {
        AsyncEventView {
            timestamp_micros: self.timestamp_micros,
            metadata: self.metadata@,
            message: opt_string_view(self.message),
            fields: self.keys_and_values@,
            backtrace: opt_string_view(self.backtrace),
        }
    }
}

impl AsyncEvent {
    /// Assembles an event; the timestamp is in microseconds since the Unix epoch.
    pub fn new(
        timestamp_micros: i64,
        metadata: Metadata,
        message: Option<String>,
        keys_and_values: FieldMap,
        backtrace: Option<String>,
    ) -> (r: AsyncEvent)
        ensures
            r@ == (AsyncEventView {
                timestamp_micros,
                metadata: metadata@,
                message: opt_string_view(message),
                fields: keys_and_values@,
                backtrace: opt_string_view(backtrace),
            }),
    {
        AsyncEvent { timestamp_micros, metadata, message, keys_and_values, backtrace }
    }

    /// Takes a snapshot of an event whose structured pairs were visited in
    /// the given order; a key visited twice keeps its last value.
    pub fn capture(
        timestamp_micros: i64,
        metadata: Metadata,
        message: Option<String>,
        pairs: Vec<(Key, serde_json::Value)>,
        backtrace: Option<String>,
    ) -> (r: AsyncEvent)
        ensures
            r@ == (AsyncEventView {
                timestamp_micros,
                metadata: metadata@,
                message: opt_string_view(message),
                fields: fold_fields(field_views(pairs@)),
                backtrace: opt_string_view(backtrace),
            }),
    {
        let fields = FieldMap::from_pairs(pairs);
        AsyncEvent::new(timestamp_micros, metadata, message, fields, backtrace)
    }

    /// Microseconds since the Unix epoch.
    pub fn timestamp(&self) -> (r: i64)
        ensures
            r == self@.timestamp_micros,
    {
        self.timestamp_micros
    }

    pub fn metadata(&self) -> (r: &Metadata)
        ensures
            r@ == self@.metadata,
    {
        &self.metadata
    }

    pub fn message(&self) -> (r: Option<&str>)
        ensures
            opt_str_view(r) == self@.message,
    {
        match &self.message {
            Some(m) => Some(m.as_str()),
            None => None,
        }
    }

    pub fn keys_and_values(&self) -> (r: &FieldMap)
        ensures
            r@ == self@.fields,
    {
        &self.keys_and_values
    }

    pub fn backtrace(&self) -> (r: Option<&str>)
        ensures
            opt_str_view(r) == self@.backtrace,
    {
        match &self.backtrace {
            Some(b) => Some(b.as_str()),
            None => None,
        }
    }
}

} // verus!
