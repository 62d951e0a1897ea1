//! One streamed read, message by message: what to do with each thing the
//! stream hands over, and when the read is over.
use vstd::prelude::*;
use crate::cell::{RowData, RowKey};
use crate::chunk::{fragments, CellChunk, Fragment};
use crate::error::Error;
use crate::model::{decoded, Assembly};
use crate::runs::lemma_run_concat;
use crate::reassembler::{rows_of, Reassembler};

verus! {

/// Whether a message that arrived `elapsed` nanoseconds into the read
/// came after the bound. Without a bound nothing is late.
pub open spec fn overdue(timeout: Option<u128>, elapsed: u128) -> bool {
    timeout matches Some(bound) && elapsed > bound
}

/// Tests a message's arrival time against the bound.
pub fn timed_out(timeout: Option<u128>, elapsed: u128) -> (late: bool)
    ensures
        late == overdue(timeout, elapsed),
{
    match timeout {
        Some(bound) => elapsed > bound,
        None => false,
    }
}

/// What the stream hands over when asked for its next message.
pub enum StreamEvent {
    /// A message with its chunks, received `elapsed` nanoseconds after
    /// the read began.
    Message { chunks: Vec<CellChunk>, elapsed: u128 },
    /// The stream ended in good order.
    End,
    /// The stream ended with an error status.
    Failed(tonic::Status),
}

/// What the reader does next.
pub enum Step {
    /// Ask the stream for its next message.
    Await(ReadSession),
    /// Stop: the read is over, with these rows or for this reason.
    Done(Result<Vec<(RowKey, RowData)>, Error>),
}

/// A read in progress: the reassembler and the time bound of the whole
/// exchange, in nanoseconds.
pub struct ReadSession {
    reassembler: Reassembler,
    timeout: Option<u128>,
}

impl ReadSession {
    /// What has been reassembled so far.
    pub closed spec fn assembly(&self) -> Assembly {
        self.reassembler@
    }

    /// The bound on the whole exchange, if there is one.
    pub closed spec fn timeout(&self) -> Option<u128> {
        self.timeout
    }

    /// A read that has received nothing yet.
    pub fn new(timeout: Option<u128>) -> (session: ReadSession)
        ensures
            session.assembly() == Assembly::fresh(),
            session.timeout() == timeout,
    {
        ReadSession { reassembler: Reassembler::new(), timeout }
    }

    /// Takes what the stream handed over and says how the read goes on.
    ///
    /// An error status ends the read with that status. The end of the
    /// stream ends it with the rows completed so far; a row that was not
    /// committed is not among them. A message that arrives after the
    /// bound ends the read with a timeout and none of the rows, also
    /// those completed before. Any other message is reassembled, and the
    /// read goes on.
    pub fn advance(self, event: StreamEvent) -> (step: Step)
        ensures
            match event {
                StreamEvent::Failed(status) => step == Step::Done(Err(Error::RpcError(status))),
                StreamEvent::End => step matches Step::Done(Ok(rows)) && rows_of(rows)
                    == self.assembly().rows,
                StreamEvent::Message { chunks, elapsed } => if overdue(self.timeout(), elapsed) {
                    step == Step::Done(Err(Error::TimeoutError))
                } else {
                    step matches Step::Await(next) && next.timeout() == self.timeout()
                        && next.assembly() == self.assembly().run(fragments(chunks@))
                },
            },
    {
        match event {
            StreamEvent::Failed(status) => Step::Done(Err(Error::RpcError(status))),
            StreamEvent::End => Step::Done(Ok(self.reassembler.into_rows())),
            StreamEvent::Message { chunks, elapsed } => {
                if timed_out(self.timeout, elapsed) {
                    Step::Done(Err(Error::TimeoutError))
                } else {
                    let mut session = self;
                    session.reassembler.push_all(chunks);
                    Step::Await(session)
                }
            },
        }
    }
}

/// The fragments of a run of messages, in stream order. Each message
/// comes with its arrival time, which plays no part here.
pub open spec fn stream_fragments(messages: Seq<(Vec<CellChunk>, u128)>) -> Seq<Fragment>
    decreases messages.len(),
{
    if messages.len() == 0 {
        Seq::empty()
    } else {
        stream_fragments(messages.drop_last()) + fragments(messages.last().0@)
    }
}

/// Whether one of the messages arrived after the bound.
pub open spec fn some_overdue(timeout: Option<u128>, messages: Seq<(Vec<CellChunk>, u128)>) -> bool {
    exists|i: int| 0 <= i < messages.len() && overdue(timeout, (#[trigger] messages[i]).1)
}

/// Decodes a whole exchange: the messages in the order received, each
/// with its arrival time in nanoseconds since the read began, and the
/// error status that ended the stream, if one did.
///
/// The result is all or nothing. A message that arrived after the bound
/// makes the read a timeout, whatever came before it and whatever rows
/// were complete by then. Otherwise a stream that ended with an error
/// status gives that status, and a stream that ended in good order gives
/// the rows that its fragments decode to.
pub fn decode_read_rows_response(
    messages: Vec<(Vec<CellChunk>, u128)>,
    failure: Option<tonic::Status>,
    timeout: Option<u128>,
) -> (result: Result<Vec<(RowKey, RowData)>, Error>)
    ensures
        some_overdue(timeout, messages@) ==> result == Err::<Vec<(RowKey, RowData)>, Error>(
            Error::TimeoutError,
        ),
        !some_overdue(timeout, messages@) ==> match failure {
            Some(status) => result == Err::<Vec<(RowKey, RowData)>, Error>(
                Error::RpcError(status),
            ),
            None => result matches Ok(rows) && rows_of(rows) == decoded(
                stream_fragments(messages@),
            ),
        },
{
    let ghost all = messages@;
    let mut session = ReadSession::new(timeout);
    for message in it: messages
        invariant
            it.seq() == all,
            session.timeout() == timeout,
            session.assembly() == Assembly::fresh().run(
                stream_fragments(all.take(it.index() as int)),
            ),
            forall|j: int| 0 <= j < it.index() ==> !overdue(timeout, (#[trigger] all[j]).1),
    {
        let ghost done = all.take(it.index() as int);
        let ghost next = all.take(it.index() + 1);
        proof {
            assert(next.drop_last() =~= done);
            assert(next.last() == message);
            lemma_run_concat(Assembly::fresh(), stream_fragments(done), fragments(message.0@));
        }
        let (chunks, elapsed) = message;
        match session.advance(StreamEvent::Message { chunks, elapsed }) {
            Step::Await(next_session) => {
                session = next_session;
            },
            Step::Done(result) => {
                assert(overdue(timeout, all[it.index() as int].1));
                return result;
            },
        }
    }
    assert(all.take(all.len() as int) =~= all);
    let event = match failure {
        Some(status) => StreamEvent::Failed(status),
        None => StreamEvent::End,
    };
    match session.advance(event) {
        Step::Done(result) => result,
        Step::Await(_) => vstd::pervasive::unreached(),
    }
}

} // verus!
