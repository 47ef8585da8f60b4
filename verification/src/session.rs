//! One call of a client, step by step: whom to ask next, when to ask
//! again, and when the call is over.

use vstd::prelude::*;
use crate::common::{ClientError, State};
use crate::routes::{knows, AddressBook};

verus! {

/// The requests that one call may send, the first one counted.
pub const MAX_RETRY: u64 = 10;

/// A request on its way to a node.
#[derive(Debug)]
pub struct Call<R> {
    /// The node to ask.
    pub node_id: u64,
    /// What to send.
    pub request: R,
    /// The requests of this call that were sent before this one.
    pub retries: u64,
}

/// What the caller does next.
#[derive(Debug)]
pub enum Step<R, T> {
    /// Send the request and come back with the answer.
    Call(Call<R>),
    /// The call is over.
    Done(Result<T, ClientError>),
}

/// The request goes to `node_id` where the directory knows that node, and
/// the call ends where it does not.
pub open spec fn aimed<R, T>(book: Seq<(u64, Seq<char>)>, node_id: u64, request: R, retries: u64) -> Step<
    R,
    T,
> {
    if knows(book, node_id) {
        Step::Call(Call { node_id, request, retries })
    } else {
        Step::Done(Err(ClientError::NoClient { node_id }))
    }
}

/// One more request, to `node_id`, unless `call` was the last that the
/// call may send.
pub open spec fn retried<R, T>(book: Seq<(u64, Seq<char>)>, node_id: u64, call: Call<R>) -> Step<R, T> {
    if call.retries + 1 >= MAX_RETRY {
        Step::Done(Err(ClientError::RetryExhausted))
    } else {
        aimed(book, node_id, call.request, (call.retries + 1) as u64)
    }
}

/// The step after the answer to a read: the value, the miss, or one more
/// attempt at the node whose turn it is.
pub open spec fn read_step<R>(
    book: Seq<(u64, Seq<char>)>,
    node_id: u64,
    call: Call<R>,
    state: State,
    value: Vec<u8>,
) -> Step<R, Vec<u8>> {
    match state {
        State::OK => Step::Done(Ok(value)),
        State::NOT_FOUND => Step::Done(Err(ClientError::NotFound)),
        _ => retried(book, node_id, call),
    }
}

/// The step after the answer to a call that only the leader serves:
/// success, one more attempt at the leader that the answer names, or
/// failure.
pub open spec fn leader_step<R, T>(
    book: Seq<(u64, Seq<char>)>,
    leader_id: u64,
    call: Call<R>,
    state: State,
    success: T,
) -> Step<R, T> {
    match state {
        State::OK => Step::Done(Ok(success)),
        State::WRONG_LEADER => retried(book, leader_id, call),
        _ => Step::Done(Err(ClientError::Failed)),
    }
}

/// The place in a directory of `len` nodes that follows `cursor`.
pub open spec fn turned(cursor: int, len: int) -> int {
    if len > 0 {
        (cursor + 1) % len
    } else {
        0
    }
}

/// Aims a request at a node.
pub fn aim<R, T>(book: &AddressBook, node_id: u64, request: R, retries: u64) -> (step: Step<R, T>)
    requires
        book.wf(),
    ensures
        step == aimed::<R, T>(book@, node_id, request, retries),
{
    if book.contains(node_id) {
        Step::Call(Call { node_id, request, retries })
    } else {
        Step::Done(Err(ClientError::NoClient { node_id }))
    }
}

/// Sends a call once more, to `node_id`, or ends it where it has sent all
/// the requests it may.
pub fn retry<R, T>(book: &AddressBook, node_id: u64, call: Call<R>) -> (step: Step<R, T>)
    requires
        book.wf(),
    ensures
        step == retried::<R, T>(book@, node_id, call),
        step matches Step::Call(next) ==> next.retries == call.retries + 1 && next.retries < MAX_RETRY,
{
    if call.retries >= MAX_RETRY - 1 {
        Step::Done(Err(ClientError::RetryExhausted))
    } else {
        aim(book, node_id, call.request, call.retries + 1)
    }
}

/// Decides the step after the answer to a read.
pub fn after_read<R>(book: &AddressBook, node_id: u64, call: Call<R>, state: State, value: Vec<u8>) -> (step:
    Step<R, Vec<u8>>)
    requires
        book.wf(),
    ensures
        step == read_step(book@, node_id, call, state, value),
{
    match state {
        State::OK => Step::Done(Ok(value)),
        State::NOT_FOUND => Step::Done(Err(ClientError::NotFound)),
        _ => retry(book, node_id, call),
    }
}

/// Decides the step after the answer to a call that only the leader serves.
pub fn after_leader<R, T>(book: &AddressBook, leader_id: u64, call: Call<R>, state: State, success: T) -> (step:
    Step<R, T>)
    requires
        book.wf(),
    ensures
        step == leader_step(book@, leader_id, call, state, success),
{
    match state {
        State::OK => Step::Done(Ok(success)),
        State::WRONG_LEADER => retry(book, leader_id, call),
        _ => Step::Done(Err(ClientError::Failed)),
    }
}

/// Moves a cursor to the next place of a directory of `len` nodes, back to
/// the first after the last.
pub fn turn(cursor: usize, len: usize) -> (next: usize)
    ensures
        next == turned(cursor as int, len as int),
        len > 0 ==> next < len,
{
    if len == 0 {
        0
    } else {
        proof {
            vstd::arithmetic::div_mod::lemma_add_mod_noop(cursor as int, 1, len as int);
            if len > 1 {
                vstd::arithmetic::div_mod::lemma_small_mod(1, len as nat);
            }
        }
        (cursor % len + 1) % len
    }
}

} // verus!
