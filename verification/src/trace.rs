//! The span call-stack of one trace.
//!
//! A `Trace` owns the nesting discipline for one logical unit of work: spans
//! open and close in strict LIFO order, every attribute attaches to the
//! topmost open span, and each span is encoded exactly once, at the moment
//! it closes, with the bytes appended to an append-only output buffer.
//!
//! Closing or annotating when no span is open is reported as an explicit
//! error rather than terminating the host process.

use vstd::prelude::*;
use vstd::string::StringSliceAdditionalSpecFns;

use crate::host::current_time_unix_nano;
use crate::host::random_bytes;
use crate::span::attrs_model;
use crate::span::encode_span_into;
use crate::span::spec_encode_span;
use crate::span::Attribute;
use crate::span::AttributeModel;
use crate::span::AttrValue;
use crate::span::AttrValueModel;
use crate::span::SpanModel;
use crate::span::SpanRecord;

verus! {

/// An explicit error in place of the assertion failures of a tracer that
/// treats misuse as fatal: aborting a shared host process would be
/// disproportionate.
#[derive(Debug, Clone, Copy, PartialEq, Eq, Structural)]
pub enum TraceError {
    /// A span was closed or annotated while no span was open.
    NoOpenSpan,
    /// A payload larger than the export capacity was submitted.
    PayloadTooLarge,
}

/// The views of a stack of span records, bottom first.
pub open spec fn stack_model(stack: Seq<SpanRecord>) -> Seq<SpanModel> {
    stack.map_values(|s: SpanRecord| s@)
}

/// The concatenation of the encodings of `spans`, in order, all tagged with
/// `trace_id`.
pub open spec fn spec_encodings(trace_id: Seq<u8>, spans: Seq<SpanModel>) -> Seq<u8>
    decreases spans.len(),
{
    if spans.len() == 0 {
        Seq::empty()
    } else {
        spec_encodings(trace_id, spans.drop_last()) + spec_encode_span(trace_id, spans.last())
    }
}

/// The mathematical shape of a trace: its identity, the stack of open
/// spans, the bytes of every closed span, and the closed spans themselves
/// in closure order.
#[verifier::ext_equal]
pub ghost struct TraceModel {
    pub trace_id: Seq<u8>,
    pub stack: Seq<SpanModel>,
    pub output: Seq<u8>,
    pub closed: Seq<SpanModel>,
}

/// One logical trace: a LIFO stack of open spans and the accumulated
/// encoding of every span closed so far.
pub struct Trace {
    trace_id: Vec<u8>,
    stack: Vec<SpanRecord>,
    output: Vec<u8>,
    closed: Ghost<Seq<SpanModel>>,
}

impl View for Trace {
    type V = TraceModel;

    closed spec fn view(&self) -> TraceModel {
        TraceModel {
            trace_id: self.trace_id@,
            stack: stack_model(self.stack@),
            output: self.output@,
            closed: self.closed@,
        }
    }
}

/// The record a fresh `enter` pushes: the given identity, name and start
/// time, the parent copied from the top of the stack (absent for a root
/// span), no end time and no attributes yet.
pub open spec fn spec_opened_span(
    t: TraceModel,
    span_id: Seq<u8>,
    name: Seq<u8>,
    start_time_unix_nano: u64,
) -> SpanModel {
    SpanModel {
        span_id,
        parent_span_id: if t.stack.len() > 0 {
            t.stack.last().span_id
        } else {
            Seq::empty()
        },
        name,
        start_time_unix_nano,
        end_time_unix_nano: 0,
        attributes: Seq::empty(),
    }
}

/// The span `s` as it is encoded at closure: its state at that instant,
/// with the end timestamp filled in.
pub open spec fn spec_closed_span(s: SpanModel, end_time_unix_nano: u64) -> SpanModel {
    SpanModel { end_time_unix_nano, ..s }
}

/// The span `s` with one more attribute appended; earlier attributes keep
/// their positions, so insertion order is preserved and duplicate keys are
/// never merged.
pub open spec fn spec_with_attribute(s: SpanModel, a: AttributeModel) -> SpanModel {
    SpanModel { attributes: s.attributes.push(a), ..s }
}

impl Trace {
    /// Well-formedness: a 16-byte trace id; every open span has an 8-byte
    /// id; each open span's parent is the span below it on the stack, the
    /// bottom span having none; and the output holds exactly the
    /// concatenated encodings of the closed spans, in closure order.
    pub open spec fn wf(&self) -> bool {
        &&& self@.trace_id.len() == 16
        &&& forall|i: int|
            0 <= i < self@.stack.len() ==> (#[trigger] self@.stack[i]).span_id.len() == 8
        &&& forall|i: int|
            1 <= i < self@.stack.len() ==> (#[trigger] self@.stack[i]).parent_span_id
                == self@.stack[i - 1].span_id
        &&& self@.stack.len() > 0 ==> self@.stack[0].parent_span_id.len() == 0
        &&& self@.output == spec_encodings(self@.trace_id, self@.closed)
    }

    /// Builds a trace around a caller-chosen 16-byte identity, with no open
    /// span and no output.
    pub fn new_with_trace_id(trace_id: Vec<u8>) -> (r: Trace)
        requires
            trace_id@.len() == 16,
        ensures
            r.wf(),
            r@.trace_id == trace_id@,
            r@.stack == Seq::<SpanModel>::empty(),
            r@.output == Seq::<u8>::empty(),
            r@.closed == Seq::<SpanModel>::empty(),
    {
        let r = Trace {
            trace_id,
            stack: Vec::new(),
            output: Vec::new(),
            closed: Ghost(Seq::empty()),
        };
        proof {
            assert(stack_model(r.stack@) =~= Seq::<SpanModel>::empty());
        }
        r
    }

    /// Builds a trace with a fresh random 16-byte identity.
    pub fn new() -> (r: Trace)
        ensures
            r.wf(),
            r@.trace_id.len() == 16,
            r@.stack == Seq::<SpanModel>::empty(),
            r@.output == Seq::<u8>::empty(),
            r@.closed == Seq::<SpanModel>::empty(),
    {
        let trace_id = random_bytes(16);
        Trace::new_with_trace_id(trace_id)
    }

    /// Opens a span with a caller-chosen identity and start time: the
    /// deterministic core of `enter_span`. The new record's parent is the
    /// span id of the span that was on top of the stack, or absent when the
    /// stack was empty.
    pub fn enter_span_at(&mut self, name: &str, span_id: Vec<u8>, start_time_unix_nano: u64)
        requires
            old(self).wf(),
            span_id@.len() == 8,
        ensures
            final(self).wf(),
            final(self)@.trace_id == old(self)@.trace_id,
            final(self)@.output == old(self)@.output,
            final(self)@.closed == old(self)@.closed,
            final(self)@.stack == old(self)@.stack.push(
                spec_opened_span(old(self)@, span_id@, name.spec_bytes(), start_time_unix_nano),
            ),
    {
        let mut parent_span_id: Vec<u8> = Vec::new();
        if self.stack.len() > 0 {
            crate::encode::push_bytes(
                &mut parent_span_id,
                self.stack[self.stack.len() - 1].span_id.as_slice(),
            );
        }
        let name_bytes: Vec<u8> = vstd::slice::slice_to_vec(name.as_bytes());
        let record = SpanRecord {
            span_id,
            parent_span_id,
            name: name_bytes,
            start_time_unix_nano,
            end_time_unix_nano: 0,
            attributes: Vec::new(),
        };
        let ghost opened = spec_opened_span(
            old(self)@,
            record.span_id@,
            name.spec_bytes(),
            start_time_unix_nano,
        );
        proof {
            assert(attrs_model(record.attributes@) =~= Seq::<AttributeModel>::empty());
            assert(record@ =~= opened);
        }
        self.stack.push(record);
        proof {
            assert(self@.stack =~= old(self)@.stack.push(opened));
        }
    }

    /// Opens a span named `name`: mints a fresh random 8-byte span id, reads
    /// the clock for the start time, and pushes the record. Always succeeds.
    pub fn enter_span(&mut self, name: &str)
        requires
            old(self).wf(),
        ensures
            final(self).wf(),
            final(self)@.trace_id == old(self)@.trace_id,
            final(self)@.output == old(self)@.output,
            final(self)@.closed == old(self)@.closed,
            final(self)@.stack.len() == old(self)@.stack.len() + 1,
            final(self)@.stack.drop_last() == old(self)@.stack,
            final(self)@.stack.last().name == name.spec_bytes(),
            final(self)@.stack.last().span_id.len() == 8,
            final(self)@.stack.last().end_time_unix_nano == 0,
            final(self)@.stack.last().attributes == Seq::<AttributeModel>::empty(),
            final(self)@.stack.last().parent_span_id == (if old(self)@.stack.len() > 0 {
                old(self)@.stack.last().span_id
            } else {
                Seq::<u8>::empty()
            }),
    {
        let span_id = random_bytes(8);
        let start_time_unix_nano = current_time_unix_nano();
        self.enter_span_at(name, span_id, start_time_unix_nano);
        proof {
            assert(self@.stack.drop_last() =~= old(self)@.stack);
        }
    }

    /// Closes the topmost open span with a caller-chosen end time: the
    /// deterministic core of `exit_span`. The record leaves the stack, its
    /// encoding is appended to the output, and it joins the closed spans;
    /// with no span open nothing changes and an error is returned.
    pub fn exit_span_at(&mut self, end_time_unix_nano: u64) -> (r: Result<(), TraceError>)
        requires
            old(self).wf(),
        ensures
            final(self).wf(),
            final(self)@.trace_id == old(self)@.trace_id,
            match r {
                Ok(_) => {
                    &&& old(self)@.stack.len() > 0
                    &&& final(self)@.stack == old(self)@.stack.drop_last()
                    &&& final(self)@.closed == old(self)@.closed.push(
                        spec_closed_span(old(self)@.stack.last(), end_time_unix_nano),
                    )
                    &&& final(self)@.output == old(self)@.output + spec_encode_span(
                        old(self)@.trace_id,
                        spec_closed_span(old(self)@.stack.last(), end_time_unix_nano),
                    )
                },
                Err(e) => {
                    &&& old(self)@.stack.len() == 0
                    &&& e == TraceError::NoOpenSpan
                    &&& final(self)@ == old(self)@
                },
            },
    {
        if self.stack.len() == 0 {
            return Err(TraceError::NoOpenSpan);
        }
        let mut record = self.stack.pop().unwrap();
        record.end_time_unix_nano = end_time_unix_nano;
        let ghost closed_span = spec_closed_span(old(self)@.stack.last(), end_time_unix_nano);
        proof {
            assert(record@ =~= closed_span);
        }
        encode_span_into(&mut self.output, &self.trace_id, &record);
        proof {
            self.closed@ = self.closed@.push(closed_span);
        }
        proof {
            assert(self@.stack =~= old(self)@.stack.drop_last());
            assert(self@.closed.drop_last() =~= old(self)@.closed);
        }
        Ok(())
    }

    /// Closes the topmost open span, reading the clock for its end time.
    /// Fails exactly when no span is open, in which case nothing changes.
    pub fn exit_span(&mut self) -> (r: Result<(), TraceError>)
        requires
            old(self).wf(),
        ensures
            final(self).wf(),
            final(self)@.trace_id == old(self)@.trace_id,
            match r {
                Ok(_) => {
                    &&& old(self)@.stack.len() > 0
                    &&& final(self)@.stack == old(self)@.stack.drop_last()
                    &&& exists|end: u64|
                        final(self)@.closed == old(self)@.closed.push(
                            spec_closed_span(old(self)@.stack.last(), end),
                        ) && final(self)@.output == old(self)@.output + spec_encode_span(
                            old(self)@.trace_id,
                            spec_closed_span(old(self)@.stack.last(), end),
                        )
                },
                Err(e) => {
                    &&& old(self)@.stack.len() == 0
                    &&& e == TraceError::NoOpenSpan
                    &&& final(self)@ == old(self)@
                },
            },
    {
        let end_time_unix_nano = current_time_unix_nano();
        let r = self.exit_span_at(end_time_unix_nano);
        proof {
            if r is Ok {
                assert(self@.closed == old(self)@.closed.push(
                    spec_closed_span(old(self)@.stack.last(), end_time_unix_nano),
                ));
            }
        }
        r
    }

    /// Appends one attribute to the topmost open span; everything else is
    /// untouched. Fails exactly when no span is open.
    fn push_attribute(&mut self, attribute: Attribute) -> (r: Result<(), TraceError>)
        requires
            old(self).wf(),
        ensures
            final(self).wf(),
            final(self)@.trace_id == old(self)@.trace_id,
            final(self)@.output == old(self)@.output,
            final(self)@.closed == old(self)@.closed,
            match r {
                Ok(_) => {
                    &&& old(self)@.stack.len() > 0
                    &&& final(self)@.stack == old(self)@.stack.update(
                        old(self)@.stack.len() - 1,
                        spec_with_attribute(old(self)@.stack.last(), attribute@),
                    )
                },
                Err(e) => {
                    &&& old(self)@.stack.len() == 0
                    &&& e == TraceError::NoOpenSpan
                    &&& final(self)@ == old(self)@
                },
            },
    {
        if self.stack.len() == 0 {
            return Err(TraceError::NoOpenSpan);
        }
        let ghost updated = spec_with_attribute(old(self)@.stack.last(), attribute@);
        let mut top = self.stack.pop().unwrap();
        top.attributes.push(attribute);
        proof {
            assert(attrs_model(top.attributes@) =~= old(self)@.stack.last().attributes.push(
                updated.attributes.last(),
            ));
            assert(top@ =~= updated);
        }
        self.stack.push(top);
        proof {
            assert(self@.stack =~= old(self)@.stack.update(old(self)@.stack.len() - 1, updated));
        }
        Ok(())
    }

    /// Annotates the topmost open span with a string-valued attribute.
    /// Fails exactly when no span is open.
    pub fn add_string_attribute(&mut self, key: &str, value: &str) -> (r: Result<(), TraceError>)
        requires
            old(self).wf(),
        ensures
            final(self).wf(),
            final(self)@.trace_id == old(self)@.trace_id,
            final(self)@.output == old(self)@.output,
            final(self)@.closed == old(self)@.closed,
            match r {
                Ok(_) => {
                    &&& old(self)@.stack.len() > 0
                    &&& final(self)@.stack == old(self)@.stack.update(
                        old(self)@.stack.len() - 1,
                        spec_with_attribute(
                            old(self)@.stack.last(),
                            AttributeModel {
                                key: key.spec_bytes(),
                                value: AttrValueModel::Text(value.spec_bytes()),
                            },
                        ),
                    )
                },
                Err(e) => {
                    &&& old(self)@.stack.len() == 0
                    &&& e == TraceError::NoOpenSpan
                    &&& final(self)@ == old(self)@
                },
            },
    {
        let attribute = Attribute {
            key: vstd::slice::slice_to_vec(key.as_bytes()),
            value: AttrValue::Text(vstd::slice::slice_to_vec(value.as_bytes())),
        };
        self.push_attribute(attribute)
    }

    /// Annotates the topmost open span with a boolean attribute. Fails
    /// exactly when no span is open.
    pub fn add_bool_attribute(&mut self, key: &str, value: bool) -> (r: Result<(), TraceError>)
        requires
            old(self).wf(),
        ensures
            final(self).wf(),
            final(self)@.trace_id == old(self)@.trace_id,
            final(self)@.output == old(self)@.output,
            final(self)@.closed == old(self)@.closed,
            match r {
                Ok(_) => {
                    &&& old(self)@.stack.len() > 0
                    &&& final(self)@.stack == old(self)@.stack.update(
                        old(self)@.stack.len() - 1,
                        spec_with_attribute(
                            old(self)@.stack.last(),
                            AttributeModel {
                                key: key.spec_bytes(),
                                value: AttrValueModel::Bool(value),
                            },
                        ),
                    )
                },
                Err(e) => {
                    &&& old(self)@.stack.len() == 0
                    &&& e == TraceError::NoOpenSpan
                    &&& final(self)@ == old(self)@
                },
            },
    {
        let attribute = Attribute {
            key: vstd::slice::slice_to_vec(key.as_bytes()),
            value: AttrValue::Bool(value),
        };
        self.push_attribute(attribute)
    }

    /// Annotates the topmost open span with a signed 64-bit integer
    /// attribute. Fails exactly when no span is open.
    pub fn add_int64_attribute(&mut self, key: &str, value: i64) -> (r: Result<(), TraceError>)
        requires
            old(self).wf(),
        ensures
            final(self).wf(),
            final(self)@.trace_id == old(self)@.trace_id,
            final(self)@.output == old(self)@.output,
            final(self)@.closed == old(self)@.closed,
            match r {
                Ok(_) => {
                    &&& old(self)@.stack.len() > 0
                    &&& final(self)@.stack == old(self)@.stack.update(
                        old(self)@.stack.len() - 1,
                        spec_with_attribute(
                            old(self)@.stack.last(),
                            AttributeModel { key: key.spec_bytes(), value: AttrValueModel::Int(value) },
                        ),
                    )
                },
                Err(e) => {
                    &&& old(self)@.stack.len() == 0
                    &&& e == TraceError::NoOpenSpan
                    &&& final(self)@ == old(self)@
                },
            },
    {
        let attribute = Attribute {
            key: vstd::slice::slice_to_vec(key.as_bytes()),
            value: AttrValue::Int(value),
        };
        self.push_attribute(attribute)
    }

    /// Annotates the topmost open span with a double-precision attribute,
    /// passed as its IEEE-754 bit pattern: the tracer core stores and
    /// encodes the raw bits, which is exactly what the wire carries. Fails
    /// exactly when no span is open.
    pub fn add_double_attribute(&mut self, key: &str, value_bits: u64) -> (r: Result<
        (),
        TraceError,
    >)
        requires
            old(self).wf(),
        ensures
            final(self).wf(),
            final(self)@.trace_id == old(self)@.trace_id,
            final(self)@.output == old(self)@.output,
            final(self)@.closed == old(self)@.closed,
            match r {
                Ok(_) => {
                    &&& old(self)@.stack.len() > 0
                    &&& final(self)@.stack == old(self)@.stack.update(
                        old(self)@.stack.len() - 1,
                        spec_with_attribute(
                            old(self)@.stack.last(),
                            AttributeModel {
                                key: key.spec_bytes(),
                                value: AttrValueModel::Double(value_bits),
                            },
                        ),
                    )
                },
                Err(e) => {
                    &&& old(self)@.stack.len() == 0
                    &&& e == TraceError::NoOpenSpan
                    &&& final(self)@ == old(self)@
                },
            },
    {
        let attribute = Attribute {
            key: vstd::slice::slice_to_vec(key.as_bytes()),
            value: AttrValue::Double(value_bits),
        };
        self.push_attribute(attribute)
    }

    /// A read-only snapshot of the accumulated encoding of every span
    /// closed so far, in closure order; nothing is consumed or cleared.
    pub fn get_serialized(&self) -> (r: &[u8])
        ensures
            r@ == self@.output,
    {
        self.output.as_slice()
    }

    /// Copies the accumulated encoding into `dest`, whose length is the
    /// caller's capacity, and returns the byte count; when the capacity is
    /// smaller than the output, returns 0 and copies nothing.
    pub fn get_serialized_into(&self, dest: &mut Vec<u8>) -> (n: usize)
        ensures
            final(dest)@.len() == old(dest)@.len(),
            old(dest)@.len() < self@.output.len() ==> n == 0 && final(dest)@ == old(dest)@,
            old(dest)@.len() >= self@.output.len() ==> n == self@.output.len() && final(dest)@
                == self@.output + old(dest)@.skip(self@.output.len() as int),
    {
        let required = self.output.len();
        if dest.len() < required {
            return 0;
        }
        let mut i: usize = 0;
        while i < required
            invariant
                i <= required,
                required == self@.output.len(),
                dest@.len() == old(dest)@.len(),
                old(dest)@.len() >= required,
                dest@ == self@.output.take(i as int) + old(dest)@.skip(i as int),
            decreases required - i,
        {
            let ghost prev = dest@;
            dest[i] = self.output[i];
            proof {
                assert(dest@ =~= self@.output.take(i + 1) + old(dest)@.skip(i + 1));
            }
            i = i + 1;
        }
        proof {
            assert(self@.output.take(required as int) =~= self@.output);
        }
        required
    }
}

/// The serialized output of a well-formed trace is, byte for byte, the
/// concatenation of the independent encodings of its closed spans, in
/// closure order.
pub proof fn lemma_output_is_concatenation(t: &Trace)
    requires
        t.wf(),
    ensures
        t@.output == spec_encodings(t@.trace_id, t@.closed),
{
}

/// In a well-formed trace, the parent of each open span is the span id of
/// the span that was on top of the stack when it was entered: the one
/// directly below it. The bottom span has no parent.
pub proof fn lemma_open_span_parent_links(t: &Trace)
    requires
        t.wf(),
    ensures
        forall|i: int|
            1 <= i < t@.stack.len() ==> (#[trigger] t@.stack[i]).parent_span_id
                == t@.stack[i - 1].span_id,
        t@.stack.len() > 0 ==> t@.stack[0].parent_span_id.len() == 0,
{
}

} // verus!
