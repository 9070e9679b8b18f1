//! What logcat takes: a capped tag, a priority, and lines of bounded length.
use vstd::prelude::*;
use vstd::math::min;
use vstd::slice::slice_subrange;
use crate::bytes::{append, find_nul, first_nul_at, null_free};
use crate::chunks::{emitted, fit_for_logcat, Stream};
use crate::error::Error;

verus! {

/// The longest tag that logcat takes, in bytes.
pub const LOGGING_TAG_MAX_LEN: usize = 23;

/// The longest message that logcat shows without truncating it, in bytes.
pub const LOGGING_MSG_MAX_LEN: usize = 4000;

/// How severe an event is.
#[derive(Debug, Clone, Copy, PartialEq, Eq, Structural)]
pub enum Severity {
    Trace,
    Debug,
    Info,
    Warn,
    Error,
}

/// The priority under which logcat files a line.
#[derive(Debug, Clone, Copy, PartialEq, Eq, Structural)]
pub enum Priority {
    Verbose,
    Debug,
    Info,
    Warn,
    Error,
}

/// The priority that stands for a severity.
pub open spec fn priority_of(level: Severity) -> Priority {
    match level {
        Severity::Trace => Priority::Verbose,
        Severity::Debug => Priority::Debug,
        Severity::Info => Priority::Info,
        Severity::Warn => Priority::Warn,
        Severity::Error => Priority::Error,
    }
}

/// The severity that a priority stands for.
pub open spec fn severity_of(priority: Priority) -> Severity {
    match priority {
        Priority::Verbose => Severity::Trace,
        Priority::Debug => Severity::Debug,
        Priority::Info => Severity::Info,
        Priority::Warn => Severity::Warn,
        Priority::Error => Severity::Error,
    }
}

/// Severities and priorities correspond one to one: every severity has its
/// priority, no two severities share one, and every priority stands for a
/// severity.
pub proof fn lemma_priority_bijection()
    ensures
        forall|a: Severity, b: Severity| priority_of(a) == priority_of(b) ==> a == b,
        forall|level: Severity| severity_of(#[trigger] priority_of(level)) == level,
        forall|priority: Priority| priority_of(#[trigger] severity_of(priority)) == priority,
{
}

impl Priority {
    /// The priority under which an event of the given severity is logged.
    pub fn from_severity(level: Severity) -> (priority: Priority)
        ensures
            priority == priority_of(level),
    {
        match level {
            Severity::Warn => Priority::Warn,
            Severity::Info => Priority::Info,
            Severity::Debug => Priority::Debug,
            Severity::Error => Priority::Error,
            Severity::Trace => Priority::Verbose,
        }
    }
}

/// The two bytes that end a tag that was cut short.
pub open spec fn ellipsis() -> Seq<u8> {
    seq![0x2eu8, 0x2eu8]
}

/// A tag cut to what logcat takes: unchanged up to 23 bytes, else its first
/// 21 bytes followed by `..`.
pub open spec fn capped(tag: Seq<u8>) -> Seq<u8> {
    if tag.len() <= LOGGING_TAG_MAX_LEN {
        tag
    } else {
        tag.take(LOGGING_TAG_MAX_LEN - 2) + ellipsis()
    }
}

/// A short tag is kept as it is. A long one comes out 23 bytes long, begins
/// with its own first 21 bytes and ends in `..`.
pub proof fn lemma_capped_shape(tag: Seq<u8>)
    ensures
        capped(tag).len() <= LOGGING_TAG_MAX_LEN,
        tag.len() <= LOGGING_TAG_MAX_LEN ==> capped(tag) == tag,
        tag.len() > LOGGING_TAG_MAX_LEN ==> {
            &&& capped(tag).len() == LOGGING_TAG_MAX_LEN
            &&& capped(tag).take(21) == tag.take(21)
            &&& capped(tag)[21] == 0x2e
            &&& capped(tag)[22] == 0x2e
            &&& (null_free(capped(tag)) <==> null_free(tag.take(21)))
        },
{
    if tag.len() > LOGGING_TAG_MAX_LEN {
        let head = tag.take(21);
        let out = capped(tag);
        assert(out.take(21) =~= head);
        if null_free(out) {
            assert forall|i: int| 0 <= i < head.len() implies #[trigger] head[i] != 0 by {
                assert(out[i] == head[i]);
            }
        }
        if null_free(head) {
            assert forall|i: int| 0 <= i < out.len() implies #[trigger] out[i] != 0 by {
                if i < 21 {
                    assert(out[i] == head[i]);
                }
            }
        }
    }
}

/// A logcat tag: at most 23 bytes, none of them zero.
#[derive(Debug)]
pub struct CappedTag {
    bytes: Vec<u8>,
}

impl View for CappedTag {
    type V = Seq<u8>;

    closed spec fn view(&self) -> Seq<u8> {
        self.bytes@
    }
}

impl CappedTag {
    /// What holds of every tag: it fits logcat's limit and has no zero byte.
    #[verifier::type_invariant]
    pub closed spec fn wf(&self) -> bool {
        &&& self.bytes@.len() <= LOGGING_TAG_MAX_LEN
        &&& null_free(self.bytes@)
    }

    /// Caps `tag` and makes a logcat tag of it.
    ///
    /// Fails exactly when the capped tag holds a zero byte, and then says
    /// where the first one is.
    pub fn new(tag: &[u8]) -> (made: Result<CappedTag, Error>)
        ensures
            made is Ok <==> null_free(capped(tag@)),
            match made {
                Ok(t) => t@ == capped(tag@),
                Err(Error::TagConstruction(p)) => first_nul_at(capped(tag@), p as int),
                Err(_) => false,
            },
    {
        let mut bytes: Vec<u8> = Vec::new();
        if tag.len() > LOGGING_TAG_MAX_LEN {
            append(&mut bytes, slice_subrange(tag, 0, LOGGING_TAG_MAX_LEN - 2));
            bytes.push(0x2e);
            bytes.push(0x2e);
        } else {
            append(&mut bytes, tag);
        }
        assert(bytes@ =~= capped(tag@));
        match find_nul(bytes.as_slice()) {
            Some(p) => {
                assert(!null_free(bytes@)) by {
                    assert(bytes@[p as int] == 0);
                }
                Err(Error::TagConstruction(p))
            },
            None => Ok(CappedTag { bytes }),
        }
    }

    /// The bytes of the tag.
    pub fn as_bytes(&self) -> (bytes: &[u8])
        ensures
            bytes@ == self@,
            bytes@.len() <= LOGGING_TAG_MAX_LEN,
            null_free(bytes@),
    {
        proof {
            use_type_invariant(self);
        }
        self.bytes.as_slice()
    }
}

/// The lines of a list of byte vectors.
pub open spec fn lines_of(lines: Vec<Vec<u8>>) -> Seq<Seq<u8>> {
    Seq::new(lines@.len(), |i: int| lines@[i]@)
}

/// The lines of one event, oldest first, with the tag and the priority that
/// they go to logcat under.
#[derive(Debug, Clone)]
pub struct Emitted<'a> {
    pub tag: &'a CappedTag,
    pub priority: Priority,
    pub lines: Vec<Vec<u8>>,
}

impl<'a> View for Emitted<'a> {
    type V = Seq<Seq<u8>>;

    open spec fn view(&self) -> Seq<Seq<u8>> {
        lines_of(self.lines)
    }
}

/// The emitter: it caps each write at 4000 bytes and keeps, in order, the
/// lines that are to go to logcat under its tag and priority.
pub struct LogcatWriter<'a> {
    priority: Priority,
    tag: &'a CappedTag,
    lines: Vec<Vec<u8>>,
}

impl<'a> LogcatWriter<'a> {
    /// Every line is within the cap and has no zero byte.
    pub open spec fn wf(&self) -> bool {
        forall|i: int|
            0 <= i < self.lines().len() ==> {
                &&& (#[trigger] self.lines()[i]).len() <= LOGGING_MSG_MAX_LEN
                &&& null_free(self.lines()[i])
            }
    }

    /// The priority of every line.
    pub closed spec fn priority(&self) -> Priority {
        self.priority
    }

    /// The tag of every line.
    pub closed spec fn tag(&self) -> &'a CappedTag {
        self.tag
    }

    /// The lines emitted so far, oldest first.
    pub closed spec fn lines(&self) -> Seq<Seq<u8>> {
        lines_of(self.lines)
    }

    /// An emitter that has emitted nothing.
    pub fn new(priority: Priority, tag: &'a CappedTag) -> (w: Self)
        ensures
            w.wf(),
            w.priority() == priority,
            w.tag() == tag,
            w.lines() == Seq::<Seq<u8>>::empty(),
    {
        let w = LogcatWriter { priority, tag, lines: Vec::new() };
        assert(w.lines() =~= Seq::<Seq<u8>>::empty());
        w
    }

    /// The lines emitted so far, oldest first.
    pub fn emitted(&self) -> (lines: &Vec<Vec<u8>>)
        ensures
            lines_of(*lines) == self.lines(),
    {
        &self.lines
    }

    /// Emits `msg` as one line, unless it holds a zero byte: then nothing is
    /// emitted and the error says where the first one is.
    fn log(&mut self, msg: &[u8]) -> (done: Result<(), Error>)
        requires
            msg@.len() <= LOGGING_MSG_MAX_LEN,
        ensures
            old(self).wf() ==> final(self).wf(),
            final(self).priority() == old(self).priority(),
            final(self).tag() == old(self).tag(),
            final(self).lines() == emitted(old(self).lines(), msg@),
            match done {
                Ok(_) => null_free(msg@),
                Err(Error::ChunkEncoding(p)) => first_nul_at(msg@, p as int),
                Err(_) => false,
            },
    {
        match find_nul(msg) {
            Some(p) => {
                assert(!null_free(msg@)) by {
                    assert(msg@[p as int] == 0);
                }
                Err(Error::ChunkEncoding(p))
            },
            None => {
                let line = vstd::slice::slice_to_vec(msg);
                self.lines.push(line);
                assert(self.lines() =~= old(self).lines().push(msg@));
                Ok(())
            },
        }
    }

    /// Emits the first 4000 bytes of `buf`, or all of it if it is shorter,
    /// as one line, and says how many bytes that was.
    ///
    /// If those bytes hold a zero byte, nothing is emitted and the error
    /// says where the first one is.
    pub fn write(&mut self, buf: &[u8]) -> (written: Result<usize, Error>)
        ensures
            old(self).wf() ==> final(self).wf(),
            final(self).priority() == old(self).priority(),
            final(self).tag() == old(self).tag(),
            final(self).lines() == emitted(
                old(self).lines(),
                buf@.take(min(buf@.len() as int, LOGGING_MSG_MAX_LEN as int)),
            ),
            match written {
                Ok(n) => {
                    &&& n == min(buf@.len() as int, LOGGING_MSG_MAX_LEN as int)
                    &&& null_free(buf@.take(n as int))
                },
                Err(Error::ChunkEncoding(p)) => first_nul_at(
                    buf@.take(min(buf@.len() as int, LOGGING_MSG_MAX_LEN as int)),
                    p as int,
                ),
                Err(_) => false,
            },
    {
        let written = if buf.len() < LOGGING_MSG_MAX_LEN {
            buf.len()
        } else {
            LOGGING_MSG_MAX_LEN
        };
        match self.log(slice_subrange(buf, 0, written)) {
            Ok(_) => Ok(written),
            Err(e) => Err(e),
        }
    }

    /// Does nothing: the emitter holds nothing back.
    pub fn flush(&mut self) -> (done: Result<(), Error>)
        ensures
            done is Ok,
            old(self).wf() ==> final(self).wf(),
            final(self).priority() == old(self).priority(),
            final(self).tag() == old(self).tag(),
            final(self).lines() == old(self).lines(),
    {
        Ok(())
    }
}

/// The buffered writer of one event: it gathers what is written into a buffer
/// of 4000 bytes and hands a full buffer on to its emitter.
pub struct AndroidWriter<'a> {
    buf: Vec<u8>,
    inner: LogcatWriter<'a>,
}

impl<'a> View for AndroidWriter<'a> {
    type V = Stream;

    closed spec fn view(&self) -> Stream {
        Stream { buffer: self.buf@, lines: self.inner.lines() }
    }
}

impl<'a> AndroidWriter<'a> {
    /// The buffer is within the cap, and every emitted line is one that
    /// logcat takes whole.
    pub open spec fn wf(&self) -> bool {
        self@.wf()
    }

    /// The priority of every line.
    pub closed spec fn priority(&self) -> Priority {
        self.inner.priority()
    }

    /// The tag of every line.
    pub closed spec fn tag(&self) -> &'a CappedTag {
        self.inner.tag()
    }

    /// A writer for an event of the given severity, with nothing written.
    pub fn new(level: &Severity, tag: &'a CappedTag) -> (w: Self)
        ensures
            w.wf(),
            w@ == Stream::fresh(),
            w.priority() == priority_of(*level),
            w.tag() == tag,
    {
        let inner = LogcatWriter::new(Priority::from_severity(*level), tag);
        AndroidWriter { buf: Vec::with_capacity(LOGGING_MSG_MAX_LEN), inner }
    }

    /// The bytes written but not yet emitted.
    pub fn buffered(&self) -> (bytes: &[u8])
        ensures
            bytes@ == self@.buffer,
    {
        self.buf.as_slice()
    }

    /// The lines emitted so far, oldest first.
    pub fn emitted(&self) -> (lines: &Vec<Vec<u8>>)
        ensures
            lines_of(*lines) == self@.lines,
    {
        self.inner.emitted()
    }

    /// Emits what is buffered as one line and empties the buffer. A buffer
    /// with a zero byte is dropped instead.
    fn flush_buf(&mut self)
        requires
            old(self).wf(),
        ensures
            final(self).wf(),
            final(self).priority() == old(self).priority(),
            final(self).tag() == old(self).tag(),
            final(self)@ == old(self)@.flush(),
    {
        if self.buf.len() > 0 {
            assert(self.buf@.take(self.buf@.len() as int) =~= self.buf@);
            assert(self.inner.lines() == self@.lines);
            let _ = self.inner.write(self.buf.as_slice());
            self.buf.clear();
            assert(self@.lines == self.inner.lines());
        }
    }

    /// Writes up to 4000 bytes of `buf`, and says how many it took.
    ///
    /// The bytes join the buffer where they fit. Where they do not, the
    /// buffer is emitted first; 4000 bytes or more then go out as a line of
    /// their own. A line with a zero byte is dropped, and the write goes on.
    pub fn write(&mut self, buf: &[u8]) -> (written: usize)
        requires
            old(self).wf(),
        ensures
            final(self).wf(),
            final(self).priority() == old(self).priority(),
            final(self).tag() == old(self).tag(),
            final(self)@ == old(self)@.write(buf@),
            written == min(buf@.len() as int, LOGGING_MSG_MAX_LEN as int),
    {
        if buf.len() < LOGGING_MSG_MAX_LEN - self.buf.len() {
            append(&mut self.buf, buf);
            assert(self@.lines == old(self)@.lines);
            return buf.len();
        }
        if buf.len() > LOGGING_MSG_MAX_LEN - self.buf.len() {
            self.flush_buf();
        }
        if buf.len() >= LOGGING_MSG_MAX_LEN {
            assert(self.buf@ =~= Seq::<u8>::empty());
            let _ = self.inner.write(buf);
            LOGGING_MSG_MAX_LEN
        } else {
            append(&mut self.buf, buf);
            assert(old(self).buf@.len() + buf@.len() > LOGGING_MSG_MAX_LEN ==> self.buf@
                =~= buf@);
            buf.len()
        }
    }

    /// Writes all of `buf`, by as many writes as it takes.
    pub fn write_all(&mut self, buf: &[u8])
        requires
            old(self).wf(),
        ensures
            final(self).wf(),
            final(self).priority() == old(self).priority(),
            final(self).tag() == old(self).tag(),
            final(self)@ == old(self)@.write_all(buf@),
    {
        let mut done: usize = 0;
        assert(buf@.skip(0) =~= buf@);
        while done < buf.len()
            invariant
                done <= buf@.len(),
                self.wf(),
                self.priority() == old(self).priority(),
                self.tag() == old(self).tag(),
                self@.write_all(buf@.skip(done as int)) == old(self)@.write_all(buf@),
            decreases buf@.len() - done,
        {
            let rest = slice_subrange(buf, done, buf.len());
            let n = self.write(rest);
            proof {
                assert(rest@ =~= buf@.skip(done as int));
                assert(rest@.skip(n as int) =~= buf@.skip(done + n));
            }
            done += n;
        }
        proof {
            assert(buf@.skip(done as int).len() == 0);
        }
    }

    /// Emits what is buffered, however little it is. A buffer with a zero
    /// byte is dropped instead.
    pub fn flush(&mut self)
        requires
            old(self).wf(),
        ensures
            final(self).wf(),
            final(self).priority() == old(self).priority(),
            final(self).tag() == old(self).tag(),
            final(self)@ == old(self)@.flush(),
    {
        self.flush_buf();
        let _ = self.inner.flush();
    }

    /// Flushes, and hands over the lines that are to go to logcat.
    pub fn finish(self) -> (out: Emitted<'a>)
        requires
            self.wf(),
        ensures
            out.tag == self.tag(),
            out.priority == self.priority(),
            out@ == self@.flush().lines,
            fit_for_logcat(out@),
    {
        let mut w = self;
        w.flush();
        Emitted { tag: w.inner.tag, priority: w.inner.priority, lines: w.inner.lines }
    }
}

} // verus!
