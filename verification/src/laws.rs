//! What holds over many answers and many changes: of the client's
//! directory and its calls, and of a store that takes the log's changes.

use vstd::prelude::*;
use vstd::arithmetic::div_mod::{lemma_add_mod_noop, lemma_mod_add_multiples_vanish, lemma_small_mod};
use crate::routes::{directory, distinct, knows, lemma_reconciled, lemma_reconciled_same, position, reconciled};
use crate::common::{ClientError, State};
use crate::kv_client::KVClient;
use crate::kv_server::{applied, applied_all, changed_key, read_state, read_value, told, Lookup, Op};
use crate::session::{leader_step, read_step, turned, Call, Step, MAX_RETRY};

verus! {

/// The directory and the cursor of a client after the answer to a read
/// that brought the directory `target`.
pub open spec fn after_answer(book: Seq<(u64, Seq<char>)>, cursor: int, target: Seq<(u64, Seq<char>)>) -> (
    Seq<(u64, Seq<char>)>,
    int,
) {
    let next = reconciled(book, target);
    (next, turned(cursor, next.len() as int))
}

/// The directory and the cursor after `n` answers that all brought
/// `target`.
pub open spec fn after_answers(
    book: Seq<(u64, Seq<char>)>,
    cursor: int,
    target: Seq<(u64, Seq<char>)>,
    n: nat,
) -> (Seq<(u64, Seq<char>)>, int)
    decreases n,
{
    if n == 0 {
        (book, cursor)
    } else {
        let before = after_answers(book, cursor, target, (n - 1) as nat);
        after_answer(before.0, before.1, target)
    }
}

/// The node that a read goes to after `n` answers that all brought
/// `target`.
pub open spec fn read_target(
    book: Seq<(u64, Seq<char>)>,
    cursor: int,
    target: Seq<(u64, Seq<char>)>,
    n: nat,
) -> u64 {
    let now = after_answers(book, cursor, target, n);
    now.0[now.1].0
}

/// Taking the same answer twice changes nothing the second time.
pub proof fn lemma_reconcile_twice(local: Seq<(u64, Seq<char>)>, target: Seq<(u64, Seq<char>)>)
    requires
        distinct(local),
        distinct(target),
    ensures
        reconciled(reconciled(local, target), target) == reconciled(local, target),
{
    lemma_reconciled(local, target);
    lemma_reconciled_same(reconciled(local, target), target);
}

/// While every answer brings the directory that the client has, the
/// directory stays as it is and the cursor moves one place with each
/// answer, round and round.
pub proof fn lemma_steady_cluster(
    book: Seq<(u64, Seq<char>)>,
    cursor: int,
    target: Seq<(u64, Seq<char>)>,
    n: nat,
)
    requires
        distinct(book),
        distinct(target),
        directory(book) == directory(target),
        0 <= cursor < book.len(),
    ensures
        after_answers(book, cursor, target, n).0 == book,
        after_answers(book, cursor, target, n).1 == (cursor + n) % (book.len() as int),
    decreases n,
{
    let len = book.len() as int;
    if n == 0 {
        lemma_small_mod(cursor as nat, len as nat);
    } else {
        lemma_steady_cluster(book, cursor, target, (n - 1) as nat);
        lemma_reconciled_same(book, target);
        lemma_add_mod_noop(cursor + n - 1, 1, len);
        if len > 1 {
            lemma_small_mod(1, len as nat);
        } else {
            assert((cursor + n) % 1 == 0);
            assert((cursor + n - 1) % 1 == 0);
        }
    }
}

/// In a cluster whose membership does not change, as many reads in a row
/// as there are nodes reach every node: for each node of the directory,
/// one of the next `book.len()` reads goes to it.
pub proof fn lemma_reads_reach_every_node(
    book: Seq<(u64, Seq<char>)>,
    cursor: int,
    target: Seq<(u64, Seq<char>)>,
    id: u64,
)
    requires
        distinct(book),
        distinct(target),
        directory(book) == directory(target),
        0 <= cursor < book.len(),
        knows(book, id),
    ensures
        exists|n: nat| n < book.len() && read_target(book, cursor, target, n) == id,
{
    let len = book.len() as int;
    let place = position(book, id);
    let n: nat = if place >= cursor {
        (place - cursor) as nat
    } else {
        (place - cursor + len) as nat
    };
    lemma_steady_cluster(book, cursor, target, n);
    if place >= cursor {
        lemma_small_mod(place as nat, len as nat);
    } else {
        lemma_mod_add_multiples_vanish(place, len);
        lemma_small_mod(place as nat, len as nat);
    }
    assert((cursor + n) % len == place);
    assert(n < book.len() && read_target(book, cursor, target, n) == id);
}

/// A client whose read target is the node at its cursor, in a cluster
/// whose membership does not change, sends its next read to its read
/// target and reaches every node of its directory with as many reads in a
/// row as there are nodes.
pub proof fn lemma_client_reads_reach_every_node(client: KVClient, target: Seq<(u64, Seq<char>)>, id: u64)
    requires
        client.wf(),
        client.aligned(),
        distinct(target),
        directory(client.book()) == directory(target),
        knows(client.book(), id),
    ensures
        read_target(client.book(), client.cursor() as int, target, 0) == client.node(),
        exists|n: nat|
            n < client.book().len() && read_target(client.book(), client.cursor() as int, target, n) == id,
{
    lemma_reads_reach_every_node(client.book(), client.cursor() as int, target, id);
}

/// Every further request of a call counts one more than the one before,
/// and none counts `MAX_RETRY`: a call sends at most `MAX_RETRY` requests,
/// whatever the answers are.
pub proof fn lemma_attempts_are_bounded<R, T>(
    book: Seq<(u64, Seq<char>)>,
    node_id: u64,
    call: Call<R>,
    state: State,
    value: Vec<u8>,
    success: T,
)
    ensures
        read_step(book, node_id, call, state, value) matches Step::Call(next) ==> next.retries == call.retries
            + 1 && next.retries < MAX_RETRY && next.request == call.request,
        leader_step(book, node_id, call, state, success) matches Step::Call(next) ==> next.retries
            == call.retries + 1 && next.retries < MAX_RETRY && next.request == call.request,
{
}

/// A redirect is followed: an answer that names another leader, known to
/// the directory, sends the same request to that leader, unless the call
/// has sent all the requests it may.
pub proof fn lemma_redirect_is_followed<R, T>(
    book: Seq<(u64, Seq<char>)>,
    leader_id: u64,
    call: Call<R>,
    success: T,
)
    requires
        knows(book, leader_id),
        call.retries + 1 < MAX_RETRY,
    ensures
        leader_step(book, leader_id, call, State::WRONG_LEADER, success) == Step::<R, T>::Call(
            (Call { node_id: leader_id, request: call.request, retries: (call.retries + 1) as u64 }),
        ),
{
}

/// After a failed read in a directory of two nodes or more, the next
/// request goes to another node than the one before.
pub proof fn lemma_retry_goes_elsewhere(book: Seq<(u64, Seq<char>)>, cursor: int)
    requires
        distinct(book),
        book.len() >= 2,
        0 <= cursor < book.len(),
    ensures
        0 <= turned(cursor, book.len() as int) < book.len(),
        book[turned(cursor, book.len() as int)].0 != book[cursor].0,
{
    let len = book.len() as int;
    if cursor + 1 < len {
        lemma_small_mod((cursor + 1) as nat, len as nat);
        assert(book[cursor].0 != book[cursor + 1].0);
    } else {
        lemma_mod_add_multiples_vanish(0, len);
        lemma_small_mod(0, len as nat);
        assert(book[0].0 != book[cursor].0);
    }
}

/// An answer as a client reads it: its state, the leader it names, the
/// directory that its membership gives, and the value it carries.
pub struct Answer {
    pub state: State,
    pub leader_id: u64,
    pub lines: Seq<(u64, Seq<char>)>,
    pub value: Vec<u8>,
}

/// Where a call that only the leader serves stands after the answers
/// `answers`, one for each request it sent, `call` being the request that
/// the first of them answers and `book` the directory before it.
pub open spec fn write_run<R>(book: Seq<(u64, Seq<char>)>, call: Call<R>, answers: Seq<Answer>) -> Step<R, ()>
    decreases answers.len(),
{
    if answers.len() == 0 {
        Step::Call(call)
    } else {
        let answer = answers[0];
        let next_book = reconciled(book, answer.lines);
        match leader_step(next_book, answer.leader_id, call, answer.state, ()) {
            Step::Call(next) => write_run(next_book, next, answers.drop_first()),
            Step::Done(result) => Step::Done(result),
        }
    }
}

/// Where a read stands after the answers `answers`, one for each request
/// it sent, `call` being the request that the first of them answers and
/// `book`, `cursor` and `node_id` the directory, the cursor and the read
/// target before it.
pub open spec fn read_run<R>(
    book: Seq<(u64, Seq<char>)>,
    cursor: int,
    node_id: u64,
    call: Call<R>,
    answers: Seq<Answer>,
) -> Step<R, Vec<u8>>
    decreases answers.len(),
{
    if answers.len() == 0 {
        Step::Call(call)
    } else {
        let answer = answers[0];
        let next = after_answer(book, cursor, answer.lines);
        let target = if next.0.len() > 0 {
            next.0[next.1].0
        } else {
            node_id
        };
        match read_step(next.0, target, call, answer.state, answer.value) {
            Step::Call(again) => read_run(next.0, next.1, target, again, answers.drop_first()),
            Step::Done(result) => Step::Done(result),
        }
    }
}

/// A call that only the leader serves is over once it has had
/// `MAX_RETRY` answers, whatever they were.
pub proof fn lemma_write_run_ends<R>(book: Seq<(u64, Seq<char>)>, call: Call<R>, answers: Seq<Answer>)
    requires
        call.retries < MAX_RETRY,
        call.retries + answers.len() >= MAX_RETRY,
    ensures
        write_run(book, call, answers) is Done,
    decreases answers.len(),
{
    let answer = answers[0];
    let next_book = reconciled(book, answer.lines);
    match leader_step(next_book, answer.leader_id, call, answer.state, ()) {
        Step::Call(next) => {
            lemma_write_run_ends(next_book, next, answers.drop_first());
        },
        Step::Done(_) => {},
    }
}

/// A read is over once it has had `MAX_RETRY` answers, whatever they
/// were.
pub proof fn lemma_read_run_ends<R>(
    book: Seq<(u64, Seq<char>)>,
    cursor: int,
    node_id: u64,
    call: Call<R>,
    answers: Seq<Answer>,
)
    requires
        call.retries < MAX_RETRY,
        call.retries + answers.len() >= MAX_RETRY,
    ensures
        read_run(book, cursor, node_id, call, answers) is Done,
    decreases answers.len(),
{
    let answer = answers[0];
    let next = after_answer(book, cursor, answer.lines);
    let target = if next.0.len() > 0 {
        next.0[next.1].0
    } else {
        node_id
    };
    match read_step(next.0, target, call, answer.state, answer.value) {
        Step::Call(again) => {
            lemma_read_run_ends(next.0, next.1, target, again, answers.drop_first());
        },
        Step::Done(_) => {},
    }
}

/// Every answer of `answers` sends the call on to a leader that the
/// answer's own membership holds.
pub open spec fn all_redirect(answers: Seq<Answer>) -> bool {
    forall|i: int|
        0 <= i < answers.len() ==> {
            &&& (#[trigger] answers[i]).state == State::WRONG_LEADER
            &&& distinct(answers[i].lines)
            &&& knows(answers[i].lines, answers[i].leader_id)
        }
}

/// A call that is sent on with every answer follows each redirect, to the
/// leader that the answer names, and ends with `RetryExhausted` on the
/// answer to its request number `MAX_RETRY`, not before.
pub proof fn lemma_always_redirected<R>(book: Seq<(u64, Seq<char>)>, call: Call<R>, answers: Seq<Answer>)
    requires
        distinct(book),
        call.retries < MAX_RETRY,
        call.retries + answers.len() <= MAX_RETRY,
        all_redirect(answers),
    ensures
        call.retries + answers.len() == MAX_RETRY ==> write_run(book, call, answers) == Step::<R, ()>::Done(
            Err(ClientError::RetryExhausted),
        ),
        call.retries + answers.len() < MAX_RETRY ==> write_run(book, call, answers) == Step::<R, ()>::Call(
            (Call {
                node_id: if answers.len() > 0 {
                    answers.last().leader_id
                } else {
                    call.node_id
                },
                request: call.request,
                retries: (call.retries + answers.len()) as u64,
            }),
        ),
    decreases answers.len(),
{
    if answers.len() > 0 {
        let answer = answers[0];
        let next_book = reconciled(book, answer.lines);
        lemma_reconciled(book, answer.lines);
        assert(knows(next_book, answer.leader_id)) by {
            assert(directory(next_book).contains_key(answer.leader_id) == knows(next_book, answer.leader_id));
            assert(directory(answer.lines).contains_key(answer.leader_id) == knows(
                answer.lines,
                answer.leader_id,
            ));
        }
        if call.retries + 1 < MAX_RETRY {
            let next = Call { node_id: answer.leader_id, request: call.request, retries: (call.retries + 1) as u64 };
            let rest = answers.drop_first();
            assert(all_redirect(rest)) by {
                assert forall|i: int| 0 <= i < rest.len() implies {
                    &&& (#[trigger] rest[i]).state == State::WRONG_LEADER
                    &&& distinct(rest[i].lines)
                    &&& knows(rest[i].lines, rest[i].leader_id)
                } by {
                    assert(rest[i] == answers[i + 1]);
                }
            }
            lemma_always_redirected(next_book, next, rest);
            if rest.len() > 0 {
                assert(rest.last() == answers.last());
            }
        }
    }
}

/// A call that is sent on from node to node and then reaches the leader
/// succeeds, as long as it reaches the leader with one of the `MAX_RETRY`
/// requests it may send.
pub proof fn lemma_redirects_end_at_leader<R>(
    book: Seq<(u64, Seq<char>)>,
    call: Call<R>,
    redirects: Seq<Answer>,
    last: Answer,
)
    requires
        distinct(book),
        call.retries + redirects.len() < MAX_RETRY,
        all_redirect(redirects),
        last.state == State::OK,
    ensures
        write_run(book, call, redirects.push(last)) == Step::<R, ()>::Done(Ok(())),
    decreases redirects.len(),
{
    let answers = redirects.push(last);
    if redirects.len() == 0 {
        assert(answers[0] == last);
    } else {
        let answer = redirects[0];
        assert(answers[0] == answer);
        let next_book = reconciled(book, answer.lines);
        lemma_reconciled(book, answer.lines);
        assert(knows(next_book, answer.leader_id)) by {
            assert(directory(next_book).contains_key(answer.leader_id) == knows(next_book, answer.leader_id));
            assert(directory(answer.lines).contains_key(answer.leader_id) == knows(
                answer.lines,
                answer.leader_id,
            ));
        }
        let next = Call { node_id: answer.leader_id, request: call.request, retries: (call.retries + 1) as u64 };
        let rest = redirects.drop_first();
        assert(all_redirect(rest)) by {
            assert forall|i: int| 0 <= i < rest.len() implies {
                &&& (#[trigger] rest[i]).state == State::WRONG_LEADER
                &&& distinct(rest[i].lines)
                &&& knows(rest[i].lines, rest[i].leader_id)
            } by {
                assert(rest[i] == redirects[i + 1]);
            }
        }
        assert(answers.drop_first() =~= rest.push(last));
        lemma_redirects_end_at_leader(next_book, next, rest, last);
    }
}

/// Every answer of `answers` is a failure that a read tries again after,
/// and brings a membership of one node or more.
pub open spec fn all_fail(answers: Seq<Answer>) -> bool {
    forall|i: int|
        0 <= i < answers.len() ==> {
            &&& (#[trigger] answers[i]).state != State::OK
            &&& answers[i].state != State::NOT_FOUND
            &&& distinct(answers[i].lines)
            &&& answers[i].lines.len() > 0
        }
}

/// A read that fails with every answer goes on to the next node each
/// time, and ends with `RetryExhausted` on the answer to its request
/// number `MAX_RETRY`, not before.
pub proof fn lemma_always_failing_read<R>(
    book: Seq<(u64, Seq<char>)>,
    cursor: int,
    node_id: u64,
    call: Call<R>,
    answers: Seq<Answer>,
)
    requires
        distinct(book),
        call.retries < MAX_RETRY,
        call.retries + answers.len() <= MAX_RETRY,
        all_fail(answers),
    ensures
        call.retries + answers.len() == MAX_RETRY ==> read_run(book, cursor, node_id, call, answers) == Step::<
            R,
            Vec<u8>,
        >::Done(Err(ClientError::RetryExhausted)),
        call.retries + answers.len() < MAX_RETRY ==> read_run(book, cursor, node_id, call, answers) is Call,
        read_run(book, cursor, node_id, call, answers) matches Step::Call(next) ==> next.retries == call.retries
            + answers.len() && next.request == call.request,
    decreases answers.len(),
{
    if answers.len() > 0 {
        let answer = answers[0];
        let next = after_answer(book, cursor, answer.lines);
        lemma_reconciled(book, answer.lines);
        assert(next.0.len() > 0) by {
            assert(knows(answer.lines, answer.lines[0].0));
            assert(directory(next.0).contains_key(answer.lines[0].0));
            assert(knows(next.0, answer.lines[0].0));
        }
        vstd::arithmetic::div_mod::lemma_mod_bound(cursor + 1, next.0.len() as int);
        let target = next.0[next.1].0;
        assert(knows(next.0, target));
        if call.retries + 1 < MAX_RETRY {
            let again = Call { node_id: target, request: call.request, retries: (call.retries + 1) as u64 };
            let rest = answers.drop_first();
            assert(all_fail(rest)) by {
                assert forall|i: int| 0 <= i < rest.len() implies {
                    &&& (#[trigger] rest[i]).state != State::OK
                    &&& rest[i].state != State::NOT_FOUND
                    &&& distinct(rest[i].lines)
                    &&& rest[i].lines.len() > 0
                } by {
                    assert(rest[i] == answers[i + 1]);
                }
            }
            lemma_always_failing_read(next.0, next.1, target, again, rest);
        }
    }
}

/// Changes to other keys leave a key as it is.
pub proof fn lemma_other_keys_untouched(store: Map<Seq<u8>, Seq<u8>>, ops: Seq<Op>, key: Seq<u8>)
    requires
        forall|i: int| 0 <= i < ops.len() ==> changed_key(#[trigger] ops[i]) != key,
    ensures
        applied_all(store, ops).contains_key(key) == store.contains_key(key),
        store.contains_key(key) ==> applied_all(store, ops)[key] == store[key],
    decreases ops.len(),
{
    if ops.len() > 0 {
        let front = ops.drop_last();
        assert forall|i: int| 0 <= i < front.len() implies changed_key(#[trigger] front[i]) != key by {
            assert(front[i] == ops[i]);
        }
        lemma_other_keys_untouched(store, front, key);
        assert(changed_key(ops[ops.len() - 1]) != key);
    }
}

/// On a store that keeps what the log's changes say, a read of a key
/// after a put of that key, with only changes to other keys in between,
/// is answered `OK` with the value that was put.
pub proof fn lemma_put_then_get(
    store: Map<Seq<u8>, Seq<u8>>,
    key: Vec<u8>,
    val: Vec<u8>,
    later: Seq<Op>,
    found: Lookup,
)
    requires
        forall|i: int| 0 <= i < later.len() ==> changed_key(#[trigger] later[i]) != key@,
        told(applied_all(applied(store, Op::Put { key, val }), later), key@, found),
    ensures
        read_state(found) == State::OK,
        read_value(found) == val@,
{
    lemma_other_keys_untouched(applied(store, Op::Put { key, val }), later, key@);
}

/// On a store that keeps what the log's changes say, a read of a key
/// after a delete of that key, with only changes to other keys in
/// between, is answered `NOT_FOUND` with no value.
pub proof fn lemma_delete_then_get(store: Map<Seq<u8>, Seq<u8>>, key: Vec<u8>, later: Seq<Op>, found: Lookup)
    requires
        forall|i: int| 0 <= i < later.len() ==> changed_key(#[trigger] later[i]) != key@,
        told(applied_all(applied(store, Op::Delete { key }), later), key@, found),
    ensures
        read_state(found) == State::NOT_FOUND,
        read_value(found) == Seq::<u8>::empty(),
{
    lemma_other_keys_untouched(applied(store, Op::Delete { key }), later, key@);
}

/// Two stores that began alike and took the same changes in the same
/// order are alike, and a longer run of changes goes on from where the
/// shorter one ended.
pub proof fn lemma_applied_in_order(store: Map<Seq<u8>, Seq<u8>>, first: Seq<Op>, then: Seq<Op>)
    ensures
        applied_all(store, first + then) == applied_all(applied_all(store, first), then),
    decreases then.len(),
{
    if then.len() == 0 {
        assert(first + then =~= first);
    } else {
        lemma_applied_in_order(store, first, then.drop_last());
        assert((first + then).drop_last() =~= first + then.drop_last());
        assert((first + then).last() == then.last());
    }
}

} // verus!
