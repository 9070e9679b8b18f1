//! The mathematical model of the buffered line writer, and what holds of it.
//!
//! A [`Stream`] is what the writer has at one moment: the bytes it still
//! buffers and the lines it has handed to logcat. Writing and flushing are
//! functions from one stream to the next.
use vstd::prelude::*;
use vstd::math::min;
use crate::android::LOGGING_MSG_MAX_LEN;
use crate::bytes::null_free;

verus! {

/// The lines after one more chunk has reached the point of emission: a chunk
/// with a zero byte cannot become a C string and is dropped.
pub open spec fn emitted(lines: Seq<Seq<u8>>, chunk: Seq<u8>) -> Seq<Seq<u8>> {
    if null_free(chunk) {
        lines.push(chunk)
    } else {
        lines
    }
}

/// Every line is one that logcat takes whole: not empty, at most 4000 bytes
/// long, without a zero byte.
pub open spec fn fit_for_logcat(lines: Seq<Seq<u8>>) -> bool {
    forall|i: int|
        0 <= i < lines.len() ==> {
            &&& 0 < (#[trigger] lines[i]).len() <= LOGGING_MSG_MAX_LEN
            &&& null_free(lines[i])
        }
}

/// The state of a buffered line writer.
pub struct Stream {
    /// The bytes written but not yet emitted.
    pub buffer: Seq<u8>,
    /// The lines emitted so far, oldest first.
    pub lines: Seq<Seq<u8>>,
}

impl Stream {
    /// A writer that has seen nothing yet.
    pub open spec fn fresh() -> Stream {
        Stream { buffer: Seq::empty(), lines: Seq::empty() }
    }

    /// The buffer is within the cap, and every line is one that logcat takes
    /// whole.
    pub open spec fn wf(self) -> bool {
        &&& self.buffer.len() <= LOGGING_MSG_MAX_LEN
        &&& fit_for_logcat(self.lines)
    }

    /// Every byte that was written and not dropped, in order.
    pub open spec fn content(self) -> Seq<u8> {
        self.lines.flatten() + self.buffer
    }

    /// The stream after a flush: what was buffered is emitted as one line.
    pub open spec fn flush(self) -> Stream {
        if self.buffer.len() == 0 {
            self
        } else {
            Stream { buffer: Seq::empty(), lines: emitted(self.lines, self.buffer) }
        }
    }

    /// The stream after one write, which takes up to 4000 bytes of `data`.
    ///
    /// Data of 4000 bytes or more bypasses the buffer: the buffer is emitted
    /// and then the first 4000 bytes of the data. Shorter data joins the
    /// buffer if it fits there, and else replaces it after a flush.
    pub open spec fn write(self, data: Seq<u8>) -> Stream {
        if data.len() >= LOGGING_MSG_MAX_LEN {
            Stream {
                buffer: Seq::empty(),
                lines: emitted(self.flush().lines, data.take(LOGGING_MSG_MAX_LEN as int)),
            }
        } else if self.buffer.len() + data.len() <= LOGGING_MSG_MAX_LEN {
            Stream { buffer: self.buffer + data, lines: self.lines }
        } else {
            Stream { buffer: data, lines: self.flush().lines }
        }
    }

    /// The stream after all of `data` has been written, by as many writes as
    /// it takes.
    pub open spec fn write_all(self, data: Seq<u8>) -> Stream
        decreases data.len(),
    {
        if data.len() == 0 {
            self
        } else {
            self.write(data).write_all(data.skip(min(data.len() as int, LOGGING_MSG_MAX_LEN as int)))
        }
    }
}

/// How many lines a run of `len` bytes splits into: `len / 4000`, rounded up.
pub open spec fn chunk_count(len: nat) -> nat {
    ((len + LOGGING_MSG_MAX_LEN - 1) / (LOGGING_MSG_MAX_LEN as int)) as nat
}

/// The `i`-th piece of `data`, cut at every 4000 bytes.
pub open spec fn chunk(data: Seq<u8>, i: int) -> Seq<u8> {
    data.subrange(
        i * LOGGING_MSG_MAX_LEN,
        min((i + 1) * LOGGING_MSG_MAX_LEN, data.len() as int),
    )
}

/// `data` cut at every 4000 bytes, whatever it holds.
pub open spec fn chunks_of(data: Seq<u8>) -> Seq<Seq<u8>> {
    Seq::new(chunk_count(data.len()), |i: int| chunk(data, i))
}

/// The chunks among `chunks` that logcat can take: those without a zero byte.
pub open spec fn deliverable(chunks: Seq<Seq<u8>>) -> Seq<Seq<u8>> {
    chunks.filter(|c: Seq<u8>| null_free(c))
}

/// Cutting at every 4000 bytes yields `len / 4000` pieces, rounded up; none
/// is empty and none is over 4000 bytes.
pub proof fn lemma_chunk_lengths(data: Seq<u8>)
    ensures
        chunks_of(data).len() == chunk_count(data.len()),
        data.len() == 0 ==> chunk_count(data.len()) == 0,
        0 < data.len() <= LOGGING_MSG_MAX_LEN ==> chunks_of(data) == seq![data],
        forall|i: int|
            0 <= i < chunks_of(data).len() ==> 0 < (#[trigger] chunks_of(data)[i]).len()
                <= LOGGING_MSG_MAX_LEN,
{
    if 0 < data.len() <= LOGGING_MSG_MAX_LEN {
        assert(chunk(data, 0) =~= data);
        assert(chunks_of(data) =~= seq![data]);
    }
}

/// The pieces of data longer than one piece: its first 4000 bytes, then the
/// pieces of the rest.
pub proof fn lemma_chunks_unfold(data: Seq<u8>)
    requires
        data.len() >= LOGGING_MSG_MAX_LEN,
    ensures
        chunks_of(data) == seq![data.take(LOGGING_MSG_MAX_LEN as int)] + chunks_of(
            data.skip(LOGGING_MSG_MAX_LEN as int),
        ),
{
    let cap = LOGGING_MSG_MAX_LEN as int;
    let rest = data.skip(cap);
    let right = seq![data.take(cap)] + chunks_of(rest);
    assert(chunk(data, 0) =~= data.take(cap));
    assert forall|i: int| 0 <= i < chunks_of(data).len() implies chunks_of(data)[i] == right[i] by {
        if i > 0 {
            assert(chunk(data, i) =~= chunk(rest, i - 1));
        }
    }
    assert(chunks_of(data) =~= right);
}

/// The pieces, joined in order, are the data again.
pub proof fn lemma_chunks_join(data: Seq<u8>)
    ensures
        chunks_of(data).flatten() == data,
    decreases data.len(),
{
    broadcast use Seq::group_seq_flatten;

    let cap = LOGGING_MSG_MAX_LEN as int;
    lemma_chunk_lengths(data);
    if data.len() == 0 {
        assert(chunks_of(data) =~= Seq::<Seq<u8>>::empty());
        assert(chunks_of(data).flatten() =~= data);
    } else if data.len() <= cap {
        assert(seq![data].flatten() == data);
    } else {
        lemma_chunks_unfold(data);
        lemma_chunks_join(data.skip(cap));
        vstd::seq_lib::lemma_flatten_concat(seq![data.take(cap)], chunks_of(data.skip(cap)));
        assert(seq![data.take(cap)].flatten() == data.take(cap));
        assert(data.take(cap) + data.skip(cap) =~= data);
    }
}

/// Where the data has no zero byte, none of its pieces has one: all of them
/// can be delivered.
pub proof fn lemma_chunks_deliverable(data: Seq<u8>)
    requires
        null_free(data),
    ensures
        deliverable(chunks_of(data)) == chunks_of(data),
{
    let pieces = chunks_of(data);
    let pred = |c: Seq<u8>| null_free(c);
    assert forall|i: int| 0 <= i < pieces.len() implies pred(#[trigger] pieces[i]) by {
        let piece = chunk(data, i);
        assert forall|j: int| 0 <= j < piece.len() implies #[trigger] piece[j] != 0 by {
            assert(piece[j] == data[i * LOGGING_MSG_MAX_LEN + j]);
        }
    }
    lemma_filter_all(pieces, pred);
}

/// A filter keeps a sequence whose every item passes.
proof fn lemma_filter_all(s: Seq<Seq<u8>>, pred: spec_fn(Seq<u8>) -> bool)
    requires
        forall|i: int| 0 <= i < s.len() ==> pred(#[trigger] s[i]),
    ensures
        s.filter(pred) == s,
    decreases s.len(),
{
    reveal(Seq::filter);
    if s.len() > 0 {
        lemma_filter_all(s.drop_last(), pred);
        assert(s.drop_last().push(s.last()) =~= s);
    }
}

/// One more chunk at the point of emission is one more item under the filter.
pub proof fn lemma_emitted_deliverable(chunks: Seq<Seq<u8>>, chunk: Seq<u8>)
    ensures
        deliverable(chunks.push(chunk)) == emitted(deliverable(chunks), chunk),
{
    chunks.lemma_filter_push(chunk, |c: Seq<u8>| null_free(c));
}

/// Writing and flushing keep a stream well-formed.
pub proof fn lemma_stream_wf(st: Stream, data: Seq<u8>)
    requires
        st.wf(),
    ensures
        st.flush().wf(),
        st.write(data).wf(),
        st.write_all(data).wf(),
    decreases data.len(),
{
    let cap = LOGGING_MSG_MAX_LEN as int;
    if data.len() > 0 {
        lemma_stream_wf(st.write(data), data.skip(min(data.len() as int, cap)));
    }
}

/// A flush loses nothing of a buffer without a zero byte: the lines, joined,
/// are then all that the stream held.
pub proof fn lemma_flush_content(st: Stream)
    requires
        null_free(st.buffer),
    ensures
        st.flush().buffer.len() == 0,
        st.flush().lines.flatten() == st.content(),
        st.flush().content() == st.content(),
{
    broadcast use Seq::group_seq_flatten;

    assert(st.flush().content() =~= st.content());
    assert(st.flush().lines.flatten() =~= st.content());
}

/// One write loses nothing where neither the buffer nor the data holds a
/// zero byte: the stream then holds what it held, followed by the bytes that
/// the write took.
pub proof fn lemma_write_content(st: Stream, data: Seq<u8>)
    requires
        null_free(st.buffer),
        null_free(data),
    ensures
        null_free(st.write(data).buffer),
        st.write(data).content() == st.content() + data.take(
            min(data.len() as int, LOGGING_MSG_MAX_LEN as int),
        ),
{
    broadcast use Seq::group_seq_flatten;

    let cap = LOGGING_MSG_MAX_LEN as int;
    let taken = data.take(min(data.len() as int, cap));
    lemma_flush_content(st);
    if data.len() >= cap {
        assert(null_free(taken));
        assert(st.write(data).content() =~= st.content() + taken);
    } else {
        assert(taken =~= data);
        assert(st.write(data).content() =~= st.content() + taken);
    }
}

/// Writing loses nothing where neither the buffer nor the data holds a zero
/// byte: the stream then holds what it held, followed by the data.
pub proof fn lemma_write_all_content(st: Stream, data: Seq<u8>)
    requires
        null_free(st.buffer),
        null_free(data),
    ensures
        null_free(st.write_all(data).buffer),
        st.write_all(data).content() == st.content() + data,
    decreases data.len(),
{
    let cap = LOGGING_MSG_MAX_LEN as int;
    if data.len() == 0 {
        assert(st.content() + data =~= st.content());
    } else {
        let n = min(data.len() as int, cap);
        lemma_write_content(st, data);
        lemma_write_all_content(st.write(data), data.skip(n));
        assert(st.content() + data.take(n) + data.skip(n) =~= st.content() + data);
    }
}

/// What a writer with an empty buffer emits for `data`, once flushed: the
/// pieces of `data`, cut at every 4000 bytes, but for those with a zero byte.
pub proof fn lemma_write_all_chunks(st: Stream, data: Seq<u8>)
    requires
        st.buffer.len() == 0,
    ensures
        st.write_all(data).flush().buffer.len() == 0,
        st.write_all(data).flush().lines == st.lines + deliverable(chunks_of(data)),
    decreases data.len(),
{
    let cap = LOGGING_MSG_MAX_LEN as int;
    let pred = |c: Seq<u8>| null_free(c);
    lemma_chunk_lengths(data);
    if data.len() == 0 {
        assert(chunks_of(data) =~= Seq::<Seq<u8>>::empty());
        reveal(Seq::filter);
        assert(st.lines + deliverable(chunks_of(data)) =~= st.lines);
    } else if data.len() < cap {
        assert(st.buffer + data =~= data);
        let rest = data.skip(min(data.len() as int, cap));
        assert(rest.len() == 0);
        assert(st.write(data).write_all(rest) == st.write(data));
        assert(st.write_all(data) == st.write(data));
        lemma_emitted_deliverable(Seq::<Seq<u8>>::empty(), data);
        assert(Seq::<Seq<u8>>::empty().push(data) =~= seq![data]);
        reveal(Seq::filter);
        assert(deliverable(Seq::<Seq<u8>>::empty()) =~= Seq::<Seq<u8>>::empty());
        assert(st.write_all(data).flush().lines =~= st.lines + deliverable(chunks_of(data)));
    } else {
        let head = data.take(cap);
        let rest = data.skip(cap);
        lemma_chunks_unfold(data);
        lemma_write_all_chunks(st.write(data), rest);
        Seq::filter_distributes_over_add(seq![head], chunks_of(rest), pred);
        lemma_emitted_deliverable(Seq::<Seq<u8>>::empty(), head);
        assert(Seq::<Seq<u8>>::empty().push(head) =~= seq![head]);
        reveal(Seq::filter);
        assert(deliverable(Seq::<Seq<u8>>::empty()) =~= Seq::<Seq<u8>>::empty());
        assert(st.write_all(data).flush().lines =~= st.lines + deliverable(chunks_of(data)));
    }
}

/// A line of `L` bytes without a zero byte, written to a fresh writer and
/// flushed, goes out as `L / 4000` lines, rounded up; each is at most 4000
/// bytes long, and joined in order they are the line again.
pub proof fn lemma_line_round_trip(line: Seq<u8>)
    requires
        null_free(line),
    ensures
        ({
            let out = Stream::fresh().write_all(line).flush().lines;
            &&& out == chunks_of(line)
            &&& out.len() == chunk_count(line.len())
            &&& forall|i: int| 0 <= i < out.len() ==> 0 < (#[trigger] out[i]).len() <= LOGGING_MSG_MAX_LEN
            &&& out.flatten() == line
        }),
{
    lemma_write_all_chunks(Stream::fresh(), line);
    lemma_chunks_deliverable(line);
    lemma_chunk_lengths(line);
    lemma_chunks_join(line);
    assert(Stream::fresh().lines + chunks_of(line) =~= chunks_of(line));
}

/// The stream after each of `pieces` has been written in turn.
pub open spec fn write_each(st: Stream, pieces: Seq<Seq<u8>>) -> Stream
    decreases pieces.len(),
{
    if pieces.len() == 0 {
        st
    } else {
        write_each(st, pieces.drop_last()).write_all(pieces.last())
    }
}

/// Writing one more piece is one more `write_all`.
pub proof fn lemma_write_each_push(st: Stream, pieces: Seq<Seq<u8>>, piece: Seq<u8>)
    ensures
        write_each(st, pieces.push(piece)) == write_each(st, pieces).write_all(piece),
{
    assert(pieces.push(piece).drop_last() =~= pieces);
}

/// Writing two runs of pieces, one after the other, is writing all of them.
pub proof fn lemma_write_each_concat(st: Stream, first: Seq<Seq<u8>>, second: Seq<Seq<u8>>)
    ensures
        write_each(st, first + second) == write_each(write_each(st, first), second),
    decreases second.len(),
{
    if second.len() == 0 {
        assert(first + second =~= first);
    } else {
        lemma_write_each_concat(st, first, second.drop_last());
        assert((first + second).drop_last() =~= first + second.drop_last());
    }
}

/// Writing pieces keeps a stream well-formed.
pub proof fn lemma_write_each_wf(st: Stream, pieces: Seq<Seq<u8>>)
    requires
        st.wf(),
    ensures
        write_each(st, pieces).wf(),
        write_each(st, pieces).flush().wf(),
    decreases pieces.len(),
{
    if pieces.len() > 0 {
        lemma_write_each_wf(st, pieces.drop_last());
        lemma_stream_wf(write_each(st, pieces.drop_last()), pieces.last());
    }
    lemma_stream_wf(write_each(st, pieces), Seq::empty());
}

/// However a line is written, piece by piece, nothing of it is lost or
/// reordered as long as it holds no zero byte: once flushed, the lines
/// joined in order are what the stream held, followed by the pieces.
pub proof fn lemma_write_each_content(st: Stream, pieces: Seq<Seq<u8>>)
    requires
        null_free(st.buffer),
        null_free(pieces.flatten()),
    ensures
        null_free(write_each(st, pieces).buffer),
        write_each(st, pieces).content() == st.content() + pieces.flatten(),
        write_each(st, pieces).flush().lines.flatten() == st.content() + pieces.flatten(),
    decreases pieces.len(),
{
    broadcast use Seq::group_seq_flatten;

    if pieces.len() == 0 {
        assert(st.content() + pieces.flatten() =~= st.content());
    } else {
        let before = pieces.drop_last();
        let last = pieces.last();
        assert(before.push(last) =~= pieces);
        assert(pieces.flatten() =~= before.flatten() + last);
        crate::bytes::lemma_null_free_concat(before.flatten(), last);
        lemma_write_each_content(st, before);
        lemma_write_all_content(write_each(st, before), last);
        assert(st.content() + before.flatten() + last =~= st.content() + pieces.flatten());
    }
    lemma_flush_content(write_each(st, pieces));
}

/// No line is over 4000 bytes, so lines that join to `L` bytes are at least
/// `L / 4000` of them, rounded up.
pub proof fn lemma_lines_lower_bound(lines: Seq<Seq<u8>>)
    requires
        forall|i: int| 0 <= i < lines.len() ==> (#[trigger] lines[i]).len() <= LOGGING_MSG_MAX_LEN,
    ensures
        lines.flatten().len() <= lines.len() * LOGGING_MSG_MAX_LEN,
        lines.len() >= chunk_count(lines.flatten().len()),
    decreases lines.len(),
{
    broadcast use Seq::group_seq_flatten;

    if lines.len() == 0 {
        assert(lines.flatten() =~= Seq::<u8>::empty());
    } else {
        let before = lines.drop_last();
        assert(before.push(lines.last()) =~= lines);
        assert(lines.flatten() =~= before.flatten() + lines.last());
        lemma_lines_lower_bound(before);
    }
}

} // verus!
