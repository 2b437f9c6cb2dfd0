//! Collecting what a sandboxed process puts out.
//!
//! Standard output comes out of a terminal and standard error out of a pipe. Both
//! are read until they end, or until the time is up. A stream that cannot be read
//! makes the collection fail.
use vstd::prelude::*;
use crate::error::IoFailure;
use crate::wire::{copy_range, push_raw};

verus! {

/// "Input/output error", which a terminal reports when its other end is closed.
pub const EIO: i32 = 5;

/// "Try again", which a descriptor reports that has nothing to read.
pub const EAGAIN: i32 = 11;

/// One of the two streams of a process.
#[derive(Clone, Copy, PartialEq, Eq, Structural, Debug)]
pub enum Stream {
    Stdout,
    Stderr,
}

/// What came of reading a stream.
pub enum StreamRead {
    Data(Vec<u8>),
    /// Nothing more will come.
    End,
    /// Nothing is there at the moment.
    WouldBlock,
    /// The stream cannot be read.
    Failed(IoFailure),
}

/// What a call of `read` means that gave a number of bytes, which are in `buf`, or
/// an error number and how the system words it.
pub open spec fn means(
    stream: Stream,
    got: Result<usize, (i32, IoFailure)>,
    buf: Seq<u8>,
    read: StreamRead,
) -> bool {
    match got {
        Ok(n) => if n > 0 {
            read matches StreamRead::Data(data) && data@ == buf.subrange(0, n as int)
        } else {
            read is End
        },
        Err((errno, failure)) => if stream == Stream::Stdout && errno == EIO {
            read is End
        } else if errno == EAGAIN {
            read is WouldBlock
        } else {
            read == StreamRead::Failed(failure)
        },
    }
}

/// What a call of `read` means.
pub fn judge_read(stream: Stream, got: Result<usize, (i32, IoFailure)>, buf: &[u8]) -> (read:
    StreamRead)
    requires
        got matches Ok(n) ==> n <= buf@.len(),
    ensures
        means(stream, got, buf@, read),
{
    match got {
        Ok(n) => if n > 0 {
            StreamRead::Data(copy_range(buf, 0, n))
        } else {
            StreamRead::End
        },
        Err((errno, failure)) => if stream == Stream::Stdout && errno == EIO {
            StreamRead::End
        } else if errno == EAGAIN {
            StreamRead::WouldBlock
        } else {
            StreamRead::Failed(failure)
        },
    }
}

/// How a collection has ended.
pub enum Ending {
    /// Both streams have ended.
    Complete,
    /// The time was up before that.
    TimeUp,
    /// A stream could not be read or waited for.
    Failed(IoFailure),
}

/// What has been collected so far.
pub struct Collector {
    pub stdout: Vec<u8>,
    pub stderr: Vec<u8>,
    pub stdout_done: bool,
    pub stderr_done: bool,
    /// Set once the collection is over.
    pub over: Option<Ending>,
}

/// What a `Collector` holds.
#[verifier::ext_equal]
pub struct CollectorView {
    pub stdout: Seq<u8>,
    pub stderr: Seq<u8>,
    pub stdout_done: bool,
    pub stderr_done: bool,
    pub over: Option<Ending>,
}

impl View for Collector {
    type V = CollectorView;

    open spec fn view(&self) -> CollectorView {
        CollectorView {
            stdout: self.stdout@,
            stderr: self.stderr@,
            stdout_done: self.stdout_done,
            stderr_done: self.stderr_done,
            over: self.over,
        }
    }
}

/// What a `StreamRead` says.
pub enum ReadView {
    Data(Seq<u8>),
    End,
    WouldBlock,
    Failed(IoFailure),
}

impl View for StreamRead {
    type V = ReadView;

    open spec fn view(&self) -> ReadView {
        match *self {
            StreamRead::Data(data) => ReadView::Data(data@),
            StreamRead::End => ReadView::End,
            StreamRead::WouldBlock => ReadView::WouldBlock,
            StreamRead::Failed(failure) => ReadView::Failed(failure),
        }
    }
}

impl CollectorView {
    /// Nothing has been read yet.
    pub open spec fn start() -> CollectorView {
        CollectorView {
            stdout: Seq::empty(),
            stderr: Seq::empty(),
            stdout_done: false,
            stderr_done: false,
            over: None,
        }
    }

    /// The collection goes on, and the stream has not ended.
    pub open spec fn open(self, stream: Stream) -> bool {
        self.over is None && match stream {
            Stream::Stdout => !self.stdout_done,
            Stream::Stderr => !self.stderr_done,
        }
    }

    /// What there is once the collection is over for a reason other than a read.
    pub open spec fn ended(self, ending: Ending) -> CollectorView {
        CollectorView { over: Some(ending), ..self }
    }

    /// What comes of reading a stream.
    pub open spec fn after_read(self, stream: Stream, read: ReadView) -> CollectorView {
        match (stream, read) {
            (Stream::Stdout, ReadView::Data(data)) => CollectorView {
                stdout: self.stdout + data,
                ..self
            },
            (Stream::Stderr, ReadView::Data(data)) => CollectorView {
                stderr: self.stderr + data,
                ..self
            },
            (Stream::Stdout, ReadView::End) => CollectorView {
                stdout_done: true,
                over: if self.stderr_done {
                    Some(Ending::Complete)
                } else {
                    self.over
                },
                ..self
            },
            (Stream::Stderr, ReadView::End) => CollectorView {
                stderr_done: true,
                over: if self.stdout_done {
                    Some(Ending::Complete)
                } else {
                    self.over
                },
                ..self
            },
            (_, ReadView::WouldBlock) => self,
            (_, ReadView::Failed(failure)) => CollectorView {
                over: Some(Ending::Failed(failure)),
                ..self
            },
        }
    }
}

impl Collector {
    /// Nothing has been read yet.
    pub fn new() -> (c: Self)
        ensures
            c@ == CollectorView::start(),
    {
        let c = Collector {
            stdout: Vec::new(),
            stderr: Vec::new(),
            stdout_done: false,
            stderr_done: false,
            over: None,
        };
        assert(c@ =~= CollectorView::start());
        c
    }

    /// Whether a stream is to be read.
    pub fn wants(&self, stream: Stream) -> (yes: bool)
        ensures
            yes == self@.open(stream),
    {
        self.over.is_none() && match stream {
            Stream::Stdout => !self.stdout_done,
            Stream::Stderr => !self.stderr_done,
        }
    }

    /// A stream has been read.
    pub fn on_read(&mut self, stream: Stream, read: StreamRead)
        requires
            old(self)@.open(stream),
        ensures
            final(self)@ == old(self)@.after_read(stream, read@),
    {
        match read {
            StreamRead::Data(data) => match stream {
                Stream::Stdout => push_raw(&mut self.stdout, data.as_slice()),
                Stream::Stderr => push_raw(&mut self.stderr, data.as_slice()),
            },
            StreamRead::End => {
                match stream {
                    Stream::Stdout => {
                        self.stdout_done = true;
                    },
                    Stream::Stderr => {
                        self.stderr_done = true;
                    },
                }
                if self.stdout_done && self.stderr_done {
                    self.over = Some(Ending::Complete);
                }
            },
            StreamRead::WouldBlock => {},
            StreamRead::Failed(failure) => {
                self.over = Some(Ending::Failed(failure));
            },
        }
    }

    /// It is not possible to wait for a stream, or not any longer.
    pub fn on_wait_failed(&mut self, failure: IoFailure)
        requires
            old(self).over is None,
        ensures
            final(self)@ == old(self)@.ended(Ending::Failed(failure)),
    {
        self.over = Some(Ending::Failed(failure));
    }

    /// The time is up.
    pub fn on_deadline(&mut self)
        requires
            old(self).over is None,
        ensures
            final(self)@ == old(self)@.ended(Ending::TimeUp),
    {
        self.over = Some(Ending::TimeUp);
    }
}

// ---- Laws ----

/// No byte that `read` gave is lost or changed: where it gave some, the outcome is
/// data of just that length, and each byte of it is the one at the same place of the
/// buffer, whichever stream was read.
pub proof fn no_byte_of_a_read_is_lost(stream: Stream, n: usize, buf: Seq<u8>, read: StreamRead)
    requires
        0 < n <= buf.len(),
        means(stream, Ok(n), buf, read),
    ensures
        read is Data,
        read->Data_0@.len() == n,
        forall|i: int| 0 <= i < n ==> #[trigger] read->Data_0@[i] == buf[i],
        read@ == ReadView::Data(read->Data_0@),
{
}

/// A stream ends when nothing comes of reading it, and standard output also when its
/// terminal reports an input/output error. Nothing there yet is no failure. Every
/// other error fails the read, and is handed on as it is.
pub proof fn failed_reads_are_told_apart(
    stream: Stream,
    errno: i32,
    failure: IoFailure,
    buf: Seq<u8>,
    nothing: StreamRead,
    read: StreamRead,
)
    requires
        means(stream, Ok(0), buf, nothing),
        means(stream, Err((errno, failure)), buf, read),
    ensures
        nothing is End,
        read is End <==> errno == 5 && stream == Stream::Stdout,
        read is WouldBlock <==> errno == 11,
        errno != 11 && (errno != 5 || stream == Stream::Stderr) ==> read == StreamRead::Failed(
            failure,
        ),
{
}

/// A call of `read`: the stream, what the call returned, and what is in the buffer.
pub struct RawRead {
    pub stream: Stream,
    pub got: Result<usize, (i32, IoFailure)>,
    pub buf: Seq<u8>,
}

/// The bytes that `read` put into the buffers for one stream, one after the other.
pub open spec fn put_out(raw: Seq<RawRead>, stream: Stream) -> Seq<u8>
    decreases raw.len(),
{
    if raw.len() == 0 {
        Seq::empty()
    } else {
        let last = raw.last();
        put_out(raw.drop_last(), stream) + if last.stream == stream && last.got is Ok {
            last.buf.take(last.got->Ok_0 as int)
        } else {
            Seq::empty()
        }
    }
}

impl RawRead {
    /// The call gave no more than there is room for, and the outcome is what it means.
    pub open spec fn is_judged(self, read: StreamRead) -> bool {
        &&& self.got is Ok ==> self.got->Ok_0 <= self.buf.len()
        &&& means(self.stream, self.got, self.buf, read)
    }
}

/// The outcomes are what the calls of `read` mean.
pub open spec fn all_judged(raw: Seq<RawRead>, reads: Seq<StreamRead>) -> bool {
    &&& reads.len() == raw.len()
    &&& forall|i: int| 0 <= i < raw.len() ==> (#[trigger] raw[i]).is_judged(reads[i])
}

/// The outcomes, each with the stream that was read.
pub open spec fn told(raw: Seq<RawRead>, reads: Seq<StreamRead>) -> Seq<(Stream, ReadView)> {
    Seq::new(raw.len(), |i: int| (raw[i].stream, reads[i]@))
}

/// What is collected of each stream over a course of reads is what `read` gave for
/// it, byte for byte and in order, and nothing of the other stream.
pub proof fn all_that_was_put_out_is_collected(raw: Seq<RawRead>, reads: Seq<StreamRead>)
    requires
        all_judged(raw, reads),
    ensures
        collected(told(raw, reads)).stdout == put_out(raw, Stream::Stdout),
        collected(told(raw, reads)).stderr == put_out(raw, Stream::Stderr),
    decreases raw.len(),
{
    if raw.len() > 0 {
        let n = raw.len() - 1;
        let raw1 = raw.drop_last();
        let reads1 = reads.drop_last();
        assert forall|i: int| 0 <= i < raw1.len() implies (#[trigger] raw1[i]).is_judged(
            reads1[i],
        ) by {
            assert(raw[i].is_judged(reads[i]));
        }
        all_that_was_put_out_is_collected(raw1, reads1);
        assert(told(raw, reads).drop_last() =~= told(raw1, reads1));
        assert(raw[n].is_judged(reads[n]));
        let before = collected(told(raw1, reads1));
        assert(before.stdout + Seq::<u8>::empty() =~= before.stdout);
        assert(before.stderr + Seq::<u8>::empty() =~= before.stderr);
        if raw[n].got is Ok {
            let m = raw[n].got->Ok_0 as int;
            assert(raw[n].buf.subrange(0, m) =~= raw[n].buf.take(m));
            if m == 0 {
                assert(raw[n].buf.take(m) =~= Seq::<u8>::empty());
            }
        }
    }
}

/// What was collected stays as it is when the time is up or waiting fails.
pub proof fn an_ending_takes_nothing_away(c: CollectorView, ending: Ending)
    ensures
        c.ended(ending).stdout == c.stdout,
        c.ended(ending).stderr == c.stderr,
        c.ended(ending).over == Some(ending),
        !c.ended(ending).open(Stream::Stdout) && !c.ended(ending).open(Stream::Stderr),
{
}

/// What has been collected after some reads.
pub open spec fn collected(reads: Seq<(Stream, ReadView)>) -> CollectorView
    decreases reads.len(),
{
    if reads.len() == 0 {
        CollectorView::start()
    } else {
        collected(reads.drop_last()).after_read(reads.last().0, reads.last().1)
    }
}

/// All reads are of streams that are to be read.
pub open spec fn all_wanted(reads: Seq<(Stream, ReadView)>) -> bool {
    forall|i: int|
        0 <= i < reads.len() ==> collected(reads.take(i)).open((#[trigger] reads[i]).0)
}

/// What one stream gave in some reads, in the order in which it came.
pub open spec fn given_by(reads: Seq<(Stream, ReadView)>, stream: Stream) -> Seq<u8>
    decreases reads.len(),
{
    if reads.len() == 0 {
        Seq::empty()
    } else {
        given_by(reads.drop_last(), stream) + match reads.last() {
            (from, ReadView::Data(data)) => if from == stream {
                data
            } else {
                Seq::empty()
            },
            _ => Seq::empty(),
        }
    }
}

/// The two streams are never mixed, and nothing of either is lost: what has been
/// collected of each is all that it gave, in order.
pub proof fn streams_are_never_mixed(reads: Seq<(Stream, ReadView)>)
    ensures
        collected(reads).stdout == given_by(reads, Stream::Stdout),
        collected(reads).stderr == given_by(reads, Stream::Stderr),
    decreases reads.len(),
{
    if reads.len() > 0 {
        streams_are_never_mixed(reads.drop_last());
        let before = collected(reads.drop_last());
        assert(before.stdout + Seq::<u8>::empty() =~= before.stdout);
        assert(before.stderr + Seq::<u8>::empty() =~= before.stderr);
    }
}

/// The stream has ended in one of the reads.
pub open spec fn has_ended(reads: Seq<(Stream, ReadView)>, stream: Stream) -> bool {
    exists|i: int| 0 <= i < reads.len() && #[trigger] reads[i] == (stream, ReadView::End)
}

/// The collection is complete if, and only if, both streams have ended; it has
/// failed if, and only if, the last read has. Reading alone never counts as the time
/// being up.
pub proof fn complete_means_both_streams_ended(reads: Seq<(Stream, ReadView)>)
    requires
        all_wanted(reads),
    ensures
        collected(reads).over == Some(Ending::Complete) <==> has_ended(reads, Stream::Stdout)
            && has_ended(reads, Stream::Stderr),
        reads.len() > 0 && reads.last().1 is Failed <==> {
            &&& collected(reads).over matches Some(Ending::Failed(failure))
            &&& reads.last().1 == ReadView::Failed(failure)
        },
        collected(reads).over matches Some(Ending::Failed(_)) ==> reads.len() > 0,
        collected(reads).over != Some(Ending::TimeUp),
{
    lemma_done(reads);
}

proof fn lemma_done(reads: Seq<(Stream, ReadView)>)
    requires
        all_wanted(reads),
    ensures
        collected(reads).stdout_done <==> has_ended(reads, Stream::Stdout),
        collected(reads).stderr_done <==> has_ended(reads, Stream::Stderr),
        collected(reads).over == if collected(reads).stdout_done && collected(reads).stderr_done {
            Some(Ending::Complete)
        } else if reads.len() > 0 {
            match reads.last().1 {
                ReadView::Failed(failure) => Some(Ending::Failed(failure)),
                _ => None,
            }
        } else {
            None
        },
        reads.len() > 0 && reads.last().1 is Failed ==> !(collected(reads).stdout_done && collected(
            reads,
        ).stderr_done),
    decreases reads.len(),
{
    if reads.len() > 0 {
        let init = reads.drop_last();
        let n = reads.len() - 1;
        assert forall|i: int| 0 <= i < init.len() implies collected(init.take(i)).open(
            (#[trigger] init[i]).0,
        ) by {
            assert(init.take(i) =~= reads.take(i));
            assert(init[i] == reads[i]);
        }
        lemma_done(init);
        assert(reads.take(n) =~= init);
        assert(collected(init).open(reads[n].0));
        lemma_has_ended_step(reads, Stream::Stdout);
        lemma_has_ended_step(reads, Stream::Stderr);
    }
}

proof fn lemma_has_ended_step(reads: Seq<(Stream, ReadView)>, stream: Stream)
    requires
        reads.len() > 0,
    ensures
        has_ended(reads, stream) <==> has_ended(reads.drop_last(), stream) || reads.last() == (
            stream,
            ReadView::End,
        ),
{
    let init = reads.drop_last();
    if has_ended(init, stream) {
        let i = choose|i: int| 0 <= i < init.len() && #[trigger] init[i] == (stream, ReadView::End);
        assert(reads[i] == (stream, ReadView::End));
    }
    if has_ended(reads, stream) && reads.last() != (stream, ReadView::End) {
        let i = choose|i: int|
            0 <= i < reads.len() && #[trigger] reads[i] == (stream, ReadView::End);
        assert(init[i] == (stream, ReadView::End));
    }
    if reads.last() == (stream, ReadView::End) {
        assert(reads[reads.len() - 1] == (stream, ReadView::End));
    }
}

/// A stream is read until it has ended, or the collection is over.
pub proof fn streams_are_read_until_they_end(reads: Seq<(Stream, ReadView)>, stream: Stream)
    requires
        all_wanted(reads),
    ensures
        collected(reads).open(stream) <==> !has_ended(reads, stream) && !(reads.len() > 0
            && reads.last().1 is Failed),
{
    lemma_done(reads);
}

/// What is said of a collector and of a read is what they hold.
pub proof fn collectors_are_taken_as_they_are(c: Collector, read: StreamRead)
    ensures
        c@.stdout == c.stdout@,
        c@.stderr == c.stderr@,
        c@.stdout_done == c.stdout_done,
        c@.stderr_done == c.stderr_done,
        c@.over == c.over,
        read matches StreamRead::Data(data) ==> read@ == ReadView::Data(data@),
        read is End ==> read@ is End,
        read is WouldBlock ==> read@ is WouldBlock,
        read matches StreamRead::Failed(failure) ==> read@ == ReadView::Failed(failure),
{
}

} // verus!
