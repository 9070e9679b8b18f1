//! The layer: what it keeps for each span, and the line it renders for each
//! event.
use vstd::prelude::*;
use vstd::string::*;
use vstd::utf8::encode_utf8;
use crate::android::{capped, priority_of, AndroidWriter, CappedTag, Emitted};
use crate::bytes::{bytes_eq, first_nul_at, null_free};
use crate::chunks::{
    chunk_count, fit_for_logcat, lemma_lines_lower_bound, lemma_write_each_concat, lemma_write_each_content,
    lemma_write_each_push, lemma_write_each_wf, write_each, Stream,
};
use crate::decimal::decimal;
use crate::error::Error;
use crate::field::{Attributes, Event, Field, FieldValue, Metadata, Record, Render};

verus! {

/// How deep a span lies: the number of spans around it.
pub open spec fn depth_of(ancestors: Seq<u64>) -> nat {
    ancestors.len()
}

/// What every fragment of a span at the given depth begins with: `s`, the
/// depth, `_`.
pub open spec fn span_prefix(depth: nat) -> Seq<u8> {
    "s".spec_bytes() + decimal(depth) + "_".spec_bytes()
}

/// `name=value`, behind the prefix of the span it belongs to, if any.
pub open spec fn name_with_value(name: Seq<u8>, value: Seq<u8>, span: Option<usize>) -> Seq<u8> {
    let prefix = match span {
        Some(n) => span_prefix(n as nat),
        None => Seq::empty(),
    };
    prefix + name + "=".spec_bytes() + value
}

/// The target of a span or event, then its file and its line where they are
/// known.
pub open spec fn metadata_fields(meta: Metadata, span: Option<usize>) -> Seq<u8> {
    let target = name_with_value("target".spec_bytes(), encode_utf8(meta.target@), span);
    let file = match meta.file {
        Some(file) => name_with_value("file".spec_bytes(), encode_utf8(file@), span),
        None => Seq::empty(),
    };
    let line = match meta.line {
        Some(line) => name_with_value("line".spec_bytes(), decimal(line as nat), span),
        None => Seq::empty(),
    };
    target + file + line
}

/// `name=value`, the value as `{:?}` prints it.
pub open spec fn debug_field(name: Seq<u8>, value: FieldValue) -> Seq<u8> {
    name + "=".spec_bytes() + value.rendered()
}

/// A field of a span at the given depth: the span's prefix, then
/// `name=value`.
pub open spec fn span_field_of(depth: nat, name: Seq<u8>, value: FieldValue) -> Seq<u8> {
    span_prefix(depth) + debug_field(name, value)
}

/// One field of a span at the given depth.
pub open spec fn span_field(depth: nat, field: Field) -> Seq<u8> {
    span_field_of(depth, field.name_bytes(), field.value)
}

/// The fields of a span at the given depth, in the order given, each in
/// full: a name that comes twice is rendered twice.
pub open spec fn span_fields(depth: nat, fields: Seq<Field>) -> Seq<u8>
    decreases fields.len(),
{
    if fields.len() == 0 {
        Seq::empty()
    } else {
        span_fields(depth, fields.drop_last()) + span_field(depth, fields.last())
    }
}

/// What a span begins with: its name, then where it was declared.
pub open spec fn span_header(depth: usize, meta: Metadata) -> Seq<u8> {
    span_prefix(depth as nat) + "name: ".spec_bytes() + encode_utf8(meta.name@)
        + metadata_fields(meta, Some(depth))
}

/// Appends `value` to `buf`.
pub fn write_value<T: Render>(buf: &mut Vec<u8>, value: T)
    ensures
        final(buf)@ == old(buf)@ + value.rendered(),
{
    value.render(buf);
}

/// Appends `name=value` to `buf`, behind the prefix of the span `span` if
/// there is one.
pub fn write_name_with_value<T: Render>(
    buf: &mut Vec<u8>,
    name: &str,
    value: T,
    span: Option<usize>,
)
    ensures
        final(buf)@ == old(buf)@ + name_with_value(name.spec_bytes(), value.rendered(), span),
{
    if let Some(n) = span {
        write_value(buf, "s");
        write_value(buf, n);
        write_value(buf, "_");
    }
    write_value(buf, name);
    write_value(buf, "=");
    write_value(buf, value);
    assert(buf@ =~= old(buf)@ + name_with_value(name.spec_bytes(), value.rendered(), span));
}

/// Appends `name=value` to `buf`, the value as `{:?}` prints it.
pub fn write_debug(buf: &mut Vec<u8>, name: &str, value: &FieldValue)
    ensures
        final(buf)@ == old(buf)@ + debug_field(name.spec_bytes(), *value),
{
    write_value(buf, name);
    write_value(buf, "=");
    value.render(buf);
    assert(buf@ =~= old(buf)@ + debug_field(name.spec_bytes(), *value));
}

/// Appends to `buf` the target of `meta`, then its file and its line where
/// they are known, each behind the prefix of the span `span` if there is one.
pub fn put_metadata(buf: &mut Vec<u8>, meta: &Metadata, span: Option<usize>)
    ensures
        final(buf)@ == old(buf)@ + metadata_fields(*meta, span),
{
    write_name_with_value(buf, "target", meta.target.as_str(), span);
    if let Some(file) = &meta.file {
        write_name_with_value(buf, "file", file.as_str(), span);
    }
    if let Some(line) = meta.line {
        write_name_with_value(buf, "line", line, span);
    }
    assert(buf@ =~= old(buf)@ + metadata_fields(*meta, span));
}

/// What a span has rendered so far: its header, then every field it was made
/// with or has recorded since, in that order.
#[derive(Debug, Clone)]
pub struct SpanFields(pub Vec<u8>);

impl View for SpanFields {
    type V = Seq<u8>;

    open spec fn view(&self) -> Seq<u8> {
        self.0@
    }
}

/// Renders the fields of a span at a given depth into the span's buffer.
pub struct SpanVisitor<'a> {
    /// The buffer of the span.
    pub buf: &'a mut Vec<u8>,
    /// The depth of the span.
    pub depth: usize,
}

impl<'a> SpanVisitor<'a> {
    /// A visitor that appends to `buf` for a span at depth `depth`.
    pub fn new(buf: &'a mut Vec<u8>, depth: usize) -> (visitor: Self)
        ensures
            visitor.depth == depth,
            *visitor.buf == *old(buf),
            *final(buf) == *final(visitor.buf),
    {
        SpanVisitor { buf, depth }
    }

    /// Appends one field: the span's prefix, then `field=value`.
    pub fn record_debug(&mut self, field: &str, value: &FieldValue)
        ensures
            final(self).depth == old(self).depth,
            (*final(self).buf)@ == (*old(self).buf)@ + span_field_of(
                old(self).depth as nat,
                field.spec_bytes(),
                *value,
            ),
            *final(final(self).buf) == *final(old(self).buf),
    {
        write_value(self.buf, "s");
        write_value(self.buf, self.depth);
        write_value(self.buf, "_");
        write_debug(self.buf, field, value);
        assert((*self.buf)@ =~= (*old(self).buf)@ + span_field_of(
            old(self).depth as nat,
            field.spec_bytes(),
            *value,
        ));
    }

    /// Appends each of `fields` in turn.
    pub fn record_all(&mut self, fields: &[Field])
        ensures
            final(self).depth == old(self).depth,
            (*final(self).buf)@ == (*old(self).buf)@ + span_fields(
                old(self).depth as nat,
                fields@,
            ),
            *final(final(self).buf) == *final(old(self).buf),
    {
        let mut i: usize = 0;
        assert(fields@.take(0) =~= Seq::<Field>::empty());
        assert((*self.buf)@ =~= (*old(self).buf)@ + span_fields(
            self.depth as nat,
            fields@.take(0),
        ));
        while i < fields.len()
            invariant
                i <= fields@.len(),
                self.depth == old(self).depth,
                (*self.buf)@ == (*old(self).buf)@ + span_fields(
                    self.depth as nat,
                    fields@.take(i as int),
                ),
                *final(self.buf) == *final(old(self).buf),
            decreases fields@.len() - i,
        {
            let field = &fields[i];
            self.record_debug(field.name.as_str(), &field.value);
            proof {
                let next = fields@.take(i + 1);
                assert(next.drop_last() =~= fields@.take(i as int));
                assert(next.last() == fields@[i as int]);
                assert((*self.buf)@ =~= (*old(self).buf)@ + span_fields(
                    self.depth as nat,
                    next,
                ));
            }
            i += 1;
        }
        assert(fields@.take(i as int) =~= fields@);
    }
}

/// An event's field as it stands in the line: the message bare, any other
/// field as `name=value`.
pub open spec fn event_field_of(name: Seq<u8>, value: FieldValue) -> Seq<u8> {
    if name == "message".spec_bytes() {
        value.rendered()
    } else {
        debug_field(name, value)
    }
}

/// What an event's line begins with: its target, a colon and a space.
pub open spec fn target_prefix(meta: Metadata) -> Seq<u8> {
    encode_utf8(meta.target@) + ": ".spec_bytes()
}

/// What each span around an event adds to the line, outermost span first:
/// all that it has rendered, or nothing if it has rendered nothing.
pub open spec fn scope_pieces(scope: Option<&[Option<SpanFields>]>) -> Seq<Seq<u8>> {
    match scope {
        Some(spans) => Seq::new(
            spans@.len(),
            |i: int|
                match spans@[i] {
                    Some(fields) => fields@,
                    None => Seq::empty(),
                },
        ),
        None => Seq::empty(),
    }
}

/// What each field of an event adds to the line.
pub open spec fn field_pieces(fields: Seq<Field>) -> Seq<Seq<u8>> {
    Seq::new(fields.len(), |i: int| event_field_of(fields[i].name_bytes(), fields[i].value))
}

/// The writer of an event once the target is written.
pub open spec fn target_written(event: Event) -> Stream {
    Stream::fresh().write_all(target_prefix(event.metadata))
}

/// The writer of an event once the spans around it are written, outermost
/// first.
pub open spec fn span_fields_written(event: Event, scope: Option<&[Option<SpanFields>]>) -> Stream {
    write_each(target_written(event), scope_pieces(scope))
}

/// The writer of an event once the event's own fields are written.
pub open spec fn event_fields_written(
    event: Event,
    scope: Option<&[Option<SpanFields>]>,
) -> Stream {
    write_each(span_fields_written(event, scope), field_pieces(event.fields@))
}

/// The writer of an event at its end: all is written and flushed.
pub open spec fn flushed(event: Event, scope: Option<&[Option<SpanFields>]>) -> Stream {
    event_fields_written(event, scope).flush()
}

/// The line of an event, before it is cut into what logcat takes: the
/// target, then what the spans around the event have rendered, outermost
/// first, then the event's own fields.
pub open spec fn event_line(event: Event, scope: Option<&[Option<SpanFields>]>) -> Seq<u8> {
    target_prefix(event.metadata) + scope_pieces(scope).flatten() + field_pieces(
        event.fields@,
    ).flatten()
}

impl<'a> AndroidWriter<'a> {
    /// Writes one field of an event: the message bare, any other field as
    /// `field=value`.
    pub fn record_debug(&mut self, field: &str, value: &FieldValue)
        requires
            old(self).wf(),
        ensures
            final(self).wf(),
            final(self).priority() == old(self).priority(),
            final(self).tag() == old(self).tag(),
            final(self)@ == old(self)@.write_all(event_field_of(field.spec_bytes(), *value)),
    {
        let mut piece: Vec<u8> = Vec::new();
        if bytes_eq(field.as_bytes(), "message".as_bytes()) {
            value.render(&mut piece);
        } else {
            write_debug(&mut piece, field, value);
        }
        assert(piece@ =~= event_field_of(field.spec_bytes(), *value));
        self.write_all(piece.as_slice());
    }
}

/// Renders spans and events for logcat, under one tag.
pub struct Layer {
    tag: CappedTag,
}

impl Layer {
    /// The tag under which every line goes to logcat.
    pub closed spec fn tag(&self) -> CappedTag {
        self.tag
    }

    /// A layer that logs under `name`, capped to what logcat takes.
    ///
    /// Fails exactly when the capped name holds a zero byte.
    pub fn new(name: &str) -> (made: Result<Layer, Error>)
        ensures
            made is Ok <==> null_free(capped(name.spec_bytes())),
            match made {
                Ok(layer) => layer.tag()@ == capped(name.spec_bytes()),
                Err(Error::TagConstruction(p)) => first_nul_at(capped(name.spec_bytes()), p as int),
                Err(_) => false,
            },
    {
        match CappedTag::new(name.as_bytes()) {
            Ok(tag) => Ok(Layer { tag }),
            Err(e) => Err(e),
        }
    }

    /// The tag under which every line goes to logcat.
    pub fn capped_tag(&self) -> (tag: &CappedTag)
        ensures
            *tag == self.tag(),
    {
        &self.tag
    }

    /// The depth of a span: the number of spans around it, so 0 for a root.
    pub fn depth(ancestors: &[u64]) -> (depth: usize)
        ensures
            depth == depth_of(ancestors@),
    {
        ancestors.len()
    }

    /// Renders a new span: its header, then the fields it is made with, each
    /// behind the prefix of the span's depth. `ancestors` are the spans
    /// around the new one.
    pub fn on_new_span(&self, attrs: &Attributes, ancestors: &[u64]) -> (fields: SpanFields)
        ensures
            fields@ == span_header(depth_of(ancestors@) as usize, attrs.metadata) + span_fields(
                depth_of(ancestors@),
                attrs.fields@,
            ),
    {
        let mut buf: Vec<u8> = Vec::with_capacity(256);
        let depth = Self::depth(ancestors);

        write_value(&mut buf, "s");
        write_value(&mut buf, depth);
        write_value(&mut buf, "_");
        write_value(&mut buf, "name: ");
        write_value(&mut buf, attrs.metadata.name.as_str());
        put_metadata(&mut buf, &attrs.metadata, Some(depth));
        assert(buf@ =~= span_header(depth, attrs.metadata));

        let mut visitor = SpanVisitor::new(&mut buf, depth);
        visitor.record_all(attrs.fields.as_slice());

        SpanFields(buf)
    }

    /// Renders the fields that a span records after it was made, and appends
    /// them to what the span has rendered before. Nothing that stood there
    /// is changed or removed. `ancestors` are the spans around the span.
    pub fn on_record(&self, values: &Record, fields: &mut SpanFields, ancestors: &[u64])
        ensures
            final(fields)@ == old(fields)@ + span_fields(depth_of(ancestors@), values.fields@),
    {
        let depth = Self::depth(ancestors);
        let mut visitor = SpanVisitor::new(&mut fields.0, depth);
        visitor.record_all(values.fields.as_slice());
    }

    /// Renders an event within the spans of `scope`, outermost first, and
    /// returns the lines that are to go to logcat for it.
    ///
    /// The line is written piece by piece: the target, what each span has
    /// rendered, the fields of the event. Then the writer is flushed.
    pub fn on_event<'a>(&'a self, event: &Event, scope: Option<&[Option<SpanFields>]>) -> (out:
        Emitted<'a>)
        ensures
            *out.tag == self.tag(),
            out.priority == priority_of(event.metadata.level),
            out@ == flushed(*event, scope).lines,
            fit_for_logcat(out@),
    {
        let mut writer = AndroidWriter::new(&event.metadata.level, &self.tag);

        // add the target
        let mut prefix: Vec<u8> = Vec::new();
        write_value(&mut prefix, event.metadata.target.as_str());
        write_value(&mut prefix, ": ");
        assert(prefix@ =~= target_prefix(event.metadata));
        writer.write_all(prefix.as_slice());

        // Record span fields
        let ghost spans_written = scope_pieces(scope);
        if let Some(spans) = scope {
            let mut i: usize = 0;
            assert(spans_written.take(0) =~= Seq::<Seq<u8>>::empty());
            while i < spans.len()
                invariant
                    i <= spans@.len(),
                    scope == Some(spans),
                    spans_written == scope_pieces(scope),
                    writer.wf(),
                    *writer.tag() == self.tag(),
                    writer.priority() == priority_of(event.metadata.level),
                    writer@ == write_each(target_written(*event), spans_written.take(i as int)),
                decreases spans@.len() - i,
            {
                if let Some(fields) = &spans[i] {
                    writer.write_all(fields.0.as_slice());
                }
                proof {
                    lemma_write_each_push(
                        target_written(*event),
                        spans_written.take(i as int),
                        spans_written[i as int],
                    );
                    assert(spans_written.take(i as int).push(spans_written[i as int])
                        =~= spans_written.take(i + 1));
                }
                i += 1;
            }
            assert(spans_written.take(i as int) =~= spans_written);
        }
        assert(writer@ == span_fields_written(*event, scope));

        // Record event fields
        let ghost fields_written = field_pieces(event.fields@);
        let mut j: usize = 0;
        assert(fields_written.take(0) =~= Seq::<Seq<u8>>::empty());
        while j < event.fields.len()
            invariant
                j <= event.fields@.len(),
                fields_written == field_pieces(event.fields@),
                writer.wf(),
                *writer.tag() == self.tag(),
                writer.priority() == priority_of(event.metadata.level),
                writer@ == write_each(
                    span_fields_written(*event, scope),
                    fields_written.take(j as int),
                ),
            decreases event.fields@.len() - j,
        {
            let field = &event.fields[j];
            writer.record_debug(field.name.as_str(), &field.value);
            proof {
                lemma_write_each_push(
                    span_fields_written(*event, scope),
                    fields_written.take(j as int),
                    fields_written[j as int],
                );
                assert(fields_written.take(j as int).push(fields_written[j as int])
                    =~= fields_written.take(j + 1));
            }
            j += 1;
        }
        assert(fields_written.take(j as int) =~= fields_written);

        writer.finish()
    }
}

/// A root span has depth 0, and a span lies one deeper than the span
/// directly around it.
pub proof fn lemma_depth(parent: u64, around_parent: Seq<u64>)
    ensures
        depth_of(Seq::empty()) == 0,
        depth_of(seq![parent] + around_parent) == depth_of(around_parent) + 1,
{
}

/// Fields recorded in two goes are rendered as if recorded in one: what a
/// span has rendered is its header, then every field in the order in which
/// it came, none replaced and none left out.
pub proof fn lemma_span_fields_concat(depth: nat, earlier: Seq<Field>, later: Seq<Field>)
    ensures
        span_fields(depth, earlier + later) == span_fields(depth, earlier) + span_fields(
            depth,
            later,
        ),
    decreases later.len(),
{
    if later.len() == 0 {
        assert(earlier + later =~= earlier);
        assert(span_fields(depth, earlier) + span_fields(depth, later) =~= span_fields(
            depth,
            earlier,
        ));
    } else {
        lemma_span_fields_concat(depth, earlier, later.drop_last());
        assert((earlier + later).drop_last() =~= earlier + later.drop_last());
        assert(span_fields(depth, earlier + later) =~= span_fields(depth, earlier) + span_fields(
            depth,
            later,
        ));
    }
}

/// A field recorded again under the same name does not overwrite the first:
/// both renderings stand in the buffer, the earlier one first.
pub proof fn lemma_record_twice(depth: nat, first: Field, second: Field)
    ensures
        span_fields(depth, seq![first]) + span_fields(depth, seq![second]) == span_field(
            depth,
            first,
        ) + span_field(depth, second),
{
    assert(seq![first].drop_last() =~= Seq::<Field>::empty());
    assert(seq![second].drop_last() =~= Seq::<Field>::empty());
    assert(span_fields(depth, Seq::<Field>::empty()) =~= Seq::<u8>::empty());
    assert(span_fields(depth, seq![first]) =~= span_field(depth, first));
    assert(span_fields(depth, seq![second]) =~= span_field(depth, second));
}

/// The lines of an event are lines that logcat takes whole: none is empty,
/// none is over 4000 bytes, none holds a zero byte. Where the event's line
/// holds no zero byte, the lines joined in order are that line: nothing is
/// lost, added or moved. They are then at least as many as the line's
/// length over 4000, rounded up.
pub proof fn lemma_event_round_trip(event: Event, scope: Option<&[Option<SpanFields>]>)
    ensures
        fit_for_logcat(flushed(event, scope).lines),
        null_free(event_line(event, scope)) ==> {
            &&& flushed(event, scope).lines.flatten() == event_line(event, scope)
            &&& flushed(event, scope).lines.len() >= chunk_count(event_line(event, scope).len())
        },
{
    let first = seq![target_prefix(event.metadata)];
    let pieces = first + scope_pieces(scope) + field_pieces(event.fields@);
    assert(write_each(Stream::fresh(), pieces) == event_fields_written(event, scope)) by {
        lemma_write_each_push(Stream::fresh(), Seq::empty(), target_prefix(event.metadata));
        assert(Seq::<Seq<u8>>::empty().push(target_prefix(event.metadata)) =~= first);
        lemma_write_each_concat(Stream::fresh(), first, scope_pieces(scope));
        lemma_write_each_concat(
            Stream::fresh(),
            first + scope_pieces(scope),
            field_pieces(event.fields@),
        );
    }
    assert(pieces.flatten() == event_line(event, scope)) by {
        broadcast use Seq::group_seq_flatten;

        vstd::seq_lib::lemma_flatten_concat(first, scope_pieces(scope));
        vstd::seq_lib::lemma_flatten_concat(
            first + scope_pieces(scope),
            field_pieces(event.fields@),
        );
    }
    lemma_write_each_wf(Stream::fresh(), pieces);
    lemma_lines_lower_bound(flushed(event, scope).lines);
    if null_free(event_line(event, scope)) {
        lemma_write_each_content(Stream::fresh(), pieces);
        assert(Stream::fresh().content() + pieces.flatten() =~= pieces.flatten());
    }
}

} // verus!
