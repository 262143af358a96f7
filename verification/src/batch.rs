//! The worker's run through a request: which driver call comes next, and what its reply means.

use crate::action::{operation_code_of, BridgeAction};
use crate::ini::is_line_value;
use crate::outcome::{
    clean_outcome, failures_of, outcome_of, outcome_reads_back, outcome_text_of, FailedPathResult,
    Failure, HelperResult, Outcome,
};
use crate::request::{read_request_is_writable, request_of, HelperRequest, Request};
use vstd::prelude::*;

verus! {

/// The driver's option for ordinary work.
pub const DRIVER_OPTION_NORMAL: u32 = 0;

/// The driver's option for forcing the work.
pub const DRIVER_OPTION_FORCE: u32 = 4;

/// A call of the driver for one path.
pub struct DriverCall {
    pub path: String,
    pub operation_code: u32,
    pub option_code: u32,
}

/// What a `DriverCall` holds.
pub struct Call {
    pub path: Seq<char>,
    pub operation_code: u32,
    pub option_code: u32,
}

impl View for DriverCall {
    type V = Call;

    open spec fn view(&self) -> Call {
        Call {
            path: self.path@,
            operation_code: self.operation_code,
            option_code: self.option_code,
        }
    }
}

/// What the driver gives back: a status, zero for success, and a flag, not zero where a restart is
/// needed.
#[derive(Clone, Copy, Debug)]
pub struct DriverReply {
    pub status: u32,
    pub reboot_required: u32,
}

/// How far a run has come.
pub struct BatchState {
    pub request: Request,
    /// How many paths are done.
    pub done: nat,
    /// Whether a failed ordinary call is followed by a forced one.
    pub force_fallback: bool,
    /// Whether the ordinary call for the next path has failed and the forced one comes next.
    pub retrying: bool,
    pub outcome: Outcome,
}

/// The start of a run.
pub open spec fn batch_start(request: Request, force_fallback: bool) -> BatchState {
    BatchState { request, done: 0, force_fallback, retrying: false, outcome: clean_outcome() }
}

/// The call that comes next: for the first path that is not done, ordinary at first, forced where
/// that failed and a fallback to force is wanted.
pub open spec fn next_call_of(state: BatchState) -> Option<Call> {
    if state.done < state.request.paths.len() {
        Some(
            Call {
                path: state.request.paths[state.done as int],
                operation_code: operation_code_of(state.request.action),
                option_code: if state.retrying {
                    4u32
                } else {
                    0u32
                },
            },
        )
    } else {
        None
    }
}

/// The state after the reply to the next call. A failed ordinary call is followed by a forced one
/// exactly if a fallback to force is wanted. Any other failure ends the work on the path, which is
/// reported with the status; so does success, with nothing to report.
pub open spec fn batch_after(state: BatchState, reply: DriverReply) -> BatchState {
    let outcome = Outcome {
        reboot_required: state.outcome.reboot_required || reply.reboot_required != 0,
        ..state.outcome
    };
    if reply.status == 0 {
        BatchState { done: state.done + 1, retrying: false, outcome, ..state }
    } else if !state.retrying && state.force_fallback {
        BatchState { retrying: true, outcome, ..state }
    } else {
        let failure = Failure {
            path: state.request.paths[state.done as int],
            status: reply.status,
        };
        BatchState {
            done: state.done + 1,
            retrying: false,
            outcome: Outcome { failed: outcome.failed.push(failure), ..outcome },
            ..state
        }
    }
}

/// A run through a request.
pub struct BatchRun {
    request: HelperRequest,
    done: usize,
    force_fallback: bool,
    retrying: bool,
    outcome: HelperResult,
}

impl View for BatchRun {
    type V = BatchState;

    closed spec fn view(&self) -> BatchState {
        BatchState {
            request: self.request@,
            done: self.done as nat,
            force_fallback: self.force_fallback,
            retrying: self.retrying,
            outcome: self.outcome@,
        }
    }
}

impl BatchRun {
    /// Starts the run through `request`, with a fallback to force or without.
    pub fn new(request: HelperRequest, force_fallback: bool) -> (run: Self)
        ensures
            run@ == batch_start(request@, force_fallback),
    {
        BatchRun {
            request,
            done: 0,
            force_fallback,
            retrying: false,
            outcome: HelperResult::default(),
        }
    }

    /// The call that comes next; none at the end of the run.
    pub fn next_call(&self) -> (call: Option<DriverCall>)
        ensures
            match call {
                Some(call) => next_call_of(self@) == Some(call@),
                None => next_call_of(self@) is None,
            },
    {
        if self.done < self.request.paths.len() {
            Some(
                DriverCall {
                    path: self.request.paths[self.done].clone(),
                    operation_code: self.request.action.operation_code(),
                    option_code: if self.retrying {
                        DRIVER_OPTION_FORCE
                    } else {
                        DRIVER_OPTION_NORMAL
                    },
                },
            )
        } else {
            None
        }
    }

    /// Takes in the reply to the next call.
    pub fn record(&mut self, reply: DriverReply)
        requires
            next_call_of(old(self)@) is Some,
        ensures
            final(self)@ == batch_after(old(self)@, reply),
    {
        let total: usize = self.request.paths.len();
        assert(self.done < total);
        if reply.reboot_required != 0 {
            self.outcome.reboot_required = true;
        }
        if reply.status == 0 {
            self.retrying = false;
            self.done = self.done + 1;
        } else if !self.retrying && self.force_fallback {
            self.retrying = true;
        } else {
            let failure = FailedPathResult {
                path: self.request.paths[self.done].clone(),
                status: reply.status,
            };
            self.outcome.failed.push(failure);
            assert(failures_of(self.outcome.failed@) == failures_of(old(self).outcome.failed@).push(
                failure@,
            ));
            self.retrying = false;
            self.done = self.done + 1;
        }
    }

    /// What came of the run.
    pub fn into_outcome(self) -> (outcome: HelperResult)
        ensures
            outcome@ == self@.outcome,
    {
        self.outcome
    }
}

/// The replies to the calls for one path: to the ordinary call and, where it is made, to the forced
/// one.
pub struct PathReplies {
    pub ordinary: DriverReply,
    pub forced: DriverReply,
}

/// Whether the forced call is made: the ordinary one failed, and a fallback to force is wanted.
pub open spec fn is_forced(replies: PathReplies, force_fallback: bool) -> bool {
    replies.ordinary.status != 0 && force_fallback
}

/// The status with which the work on a path ends: that of its last call.
pub open spec fn status_of(replies: PathReplies, force_fallback: bool) -> u32 {
    if is_forced(replies, force_fallback) {
        replies.forced.status
    } else {
        replies.ordinary.status
    }
}

/// Whether a call for a path asked for a restart.
pub open spec fn asks_reboot(replies: PathReplies, force_fallback: bool) -> bool {
    ||| replies.ordinary.reboot_required != 0
    ||| is_forced(replies, force_fallback) && replies.forced.reboot_required != 0
}

/// The replies in the order of the calls.
pub open spec fn replies_in_order(
    replies: Seq<PathReplies>,
    force_fallback: bool,
) -> Seq<DriverReply>
    decreases replies.len(),
{
    if replies.len() == 0 {
        seq![]
    } else {
        let last = replies.last();
        replies_in_order(replies.drop_last(), force_fallback) + if is_forced(last, force_fallback) {
            seq![last.ordinary, last.forced]
        } else {
            seq![last.ordinary]
        }
    }
}

/// The paths whose work ended with a status other than zero, in order.
pub open spec fn failures_among(
    paths: Seq<Seq<char>>,
    replies: Seq<PathReplies>,
    force_fallback: bool,
) -> Seq<Failure>
    decreases replies.len(),
{
    if replies.len() == 0 {
        seq![]
    } else {
        let before = failures_among(paths, replies.drop_last(), force_fallback);
        let status = status_of(replies.last(), force_fallback);
        if status != 0 {
            before.push(Failure { path: paths[replies.len() - 1], status })
        } else {
            before
        }
    }
}

/// The state after a row of replies.
pub open spec fn batch_run_of(
    request: Request,
    force_fallback: bool,
    replies: Seq<DriverReply>,
) -> BatchState {
    replies.fold_left(
        batch_start(request, force_fallback),
        |state: BatchState, reply: DriverReply| batch_after(state, reply),
    )
}

/// The end of a run, where `replies` are those for its paths in turn.
pub open spec fn batch_end_of(
    request: Request,
    force_fallback: bool,
    replies: Seq<PathReplies>,
) -> BatchState {
    batch_run_of(request, force_fallback, replies_in_order(replies, force_fallback))
}

proof fn lemma_batch_run(request: Request, replies: Seq<PathReplies>, force_fallback: bool)
    requires
        replies.len() <= request.paths.len(),
    ensures
        batch_end_of(request, force_fallback, replies) == (BatchState {
            request,
            done: replies.len(),
            force_fallback,
            retrying: false,
            outcome: Outcome {
                reboot_required: exists|i: int|
                    0 <= i < replies.len() && asks_reboot(#[trigger] replies[i], force_fallback),
                error_message: None,
                failed: failures_among(request.paths, replies, force_fallback),
            },
        }),
    decreases replies.len(),
{
    let step = |state: BatchState, reply: DriverReply| batch_after(state, reply);
    if replies.len() > 0 {
        let fewer = replies.drop_last();
        let last = replies.last();
        lemma_batch_run(request, fewer, force_fallback);
        let before = replies_in_order(fewer, force_fallback);
        let all = replies_in_order(replies, force_fallback);
        if is_forced(last, force_fallback) {
            assert(all == before.push(last.ordinary).push(last.forced));
            assert(all.drop_last() == before.push(last.ordinary));
            assert(all.drop_last().drop_last() == before);
            assert(all.drop_last().fold_left(batch_start(request, force_fallback), step)
                == batch_after(batch_run_of(request, force_fallback, before), last.ordinary));
        } else {
            assert(all == before.push(last.ordinary));
            assert(all.drop_last() == before);
        }
        if exists|i: int| 0 <= i < fewer.len() && asks_reboot(#[trigger] fewer[i], force_fallback) {
            let i = choose|i: int|
                0 <= i < fewer.len() && asks_reboot(#[trigger] fewer[i], force_fallback);
            assert(asks_reboot(replies[i], force_fallback));
        }
        if asks_reboot(last, force_fallback) {
            assert(asks_reboot(replies[replies.len() - 1], force_fallback));
        }
        if exists|i: int|
            0 <= i < replies.len() && asks_reboot(#[trigger] replies[i], force_fallback) {
            let i = choose|i: int|
                0 <= i < replies.len() && asks_reboot(#[trigger] replies[i], force_fallback);
            if i < fewer.len() {
                assert(asks_reboot(fewer[i], force_fallback));
            }
        }
    }
}

proof fn lemma_fallback_stays(request: Request, force_fallback: bool, replies: Seq<DriverReply>)
    ensures
        batch_run_of(request, force_fallback, replies).force_fallback == force_fallback,
        batch_run_of(request, force_fallback, replies).request == request,
    decreases replies.len(),
{
    if replies.len() > 0 {
        lemma_fallback_stays(request, force_fallback, replies.drop_last());
    }
}

/// Force is the fallback and nothing else. A run starts with an ordinary call, and after any row of
/// replies, the call that comes behind the reply to `call` is forced exactly if a fallback is
/// wanted and `call` was ordinary and failed; it is then for the same path.
pub proof fn force_follows_failure(
    request: Request,
    force_fallback: bool,
    replies: Seq<DriverReply>,
    call: Call,
    reply: DriverReply,
)
    requires
        next_call_of(batch_run_of(request, force_fallback, replies)) == Some(call),
    ensures
        replies.len() == 0 ==> call.option_code == DRIVER_OPTION_NORMAL,
        ({
            let next = next_call_of(batch_run_of(request, force_fallback, replies.push(reply)));
            let forced = next is Some && next->Some_0.option_code == DRIVER_OPTION_FORCE;
            &&& forced <==> force_fallback && call.option_code == DRIVER_OPTION_NORMAL
                && reply.status != 0
            &&& forced ==> next->Some_0.path == call.path
            &&& next is Some && !forced ==> next->Some_0.option_code == DRIVER_OPTION_NORMAL
        }),
{
    lemma_fallback_stays(request, force_fallback, replies);
    assert(replies.push(reply).drop_last() == replies);
}

/// A run goes through every path, with one call for each, or two where a fallback to force is
/// wanted and the first failed, and then ends. What failed are exactly the paths whose last call
/// did, each with the status of that call and in the order of the request; a restart is asked for
/// if a call asked for one.
pub proof fn batch_covers_every_path(
    request: Request,
    replies: Seq<PathReplies>,
    force_fallback: bool,
)
    requires
        replies.len() == request.paths.len(),
    ensures
        next_call_of(batch_end_of(request, force_fallback, replies)) is None,
        batch_end_of(request, force_fallback, replies).outcome == (Outcome {
            reboot_required: exists|i: int|
                0 <= i < replies.len() && asks_reboot(#[trigger] replies[i], force_fallback),
            error_message: None,
            failed: failures_among(request.paths, replies, force_fallback),
        }),
        ({
            let count = replies_in_order(replies, force_fallback).len();
            request.paths.len() <= count <= if force_fallback {
                2 * request.paths.len()
            } else {
                request.paths.len()
            }
        }),
{
    lemma_batch_run(request, replies, force_fallback);
    lemma_reply_count(replies, force_fallback);
}

proof fn lemma_reply_count(replies: Seq<PathReplies>, force_fallback: bool)
    ensures
        replies.len() <= replies_in_order(replies, force_fallback).len() <= if force_fallback {
            2 * replies.len()
        } else {
            replies.len()
        },
    decreases replies.len(),
{
    if replies.len() > 0 {
        lemma_reply_count(replies.drop_last(), force_fallback);
    }
}

/// A failure names one of the paths.
proof fn lemma_failures_among(
    paths: Seq<Seq<char>>,
    replies: Seq<PathReplies>,
    force_fallback: bool,
)
    requires
        replies.len() <= paths.len(),
        forall|i: int| 0 <= i < paths.len() ==> is_line_value(#[trigger] paths[i]),
    ensures
        ({
            let failed = failures_among(paths, replies, force_fallback);
            forall|i: int| 0 <= i < failed.len() ==> is_line_value((#[trigger] failed[i]).path)
        }),
    decreases replies.len(),
{
    if replies.len() > 0 {
        let before = failures_among(paths, replies.drop_last(), force_fallback);
        let failed = failures_among(paths, replies, force_fallback);
        lemma_failures_among(paths, replies.drop_last(), force_fallback);
        assert forall|i: int| 0 <= i < failed.len() implies is_line_value(
            (#[trigger] failed[i]).path,
        ) by {
            if i < before.len() {
                assert(failed[i] == before[i]);
            } else {
                assert(failed[i].path == paths[replies.len() - 1]);
            }
        }
    }
}

/// What the helper reads is what the worker found: whatever request file the worker was given and
/// whatever the driver replied, the outcome of the run is read back from the file that it is
/// written to.
pub proof fn batch_outcome_reads_back(
    content: Seq<char>,
    replies: Seq<PathReplies>,
    force_fallback: bool,
)
    requires
        request_of(content) is Ok,
        replies.len() == request_of(content)->Ok_0.paths.len(),
    ensures
        ({
            let request = request_of(content)->Ok_0;
            let outcome = batch_end_of(request, force_fallback, replies).outcome;
            outcome_of(outcome_text_of(outcome)) == outcome
        }),
{
    let request = request_of(content)->Ok_0;
    let outcome = batch_end_of(request, force_fallback, replies).outcome;
    read_request_is_writable(content);
    lemma_batch_run(request, replies, force_fallback);
    lemma_failures_among(request.paths, replies, force_fallback);
    outcome_reads_back(outcome);
}

proof fn lemma_batch_done(request: Request, force_fallback: bool, replies: Seq<DriverReply>)
    ensures
        batch_run_of(request, force_fallback, replies).retrying ==> force_fallback,
        batch_run_of(request, force_fallback, replies).outcome.error_message is None,
    decreases replies.len(),
{
    if replies.len() > 0 {
        lemma_fallback_stays(request, force_fallback, replies.drop_last());
        lemma_batch_done(request, force_fallback, replies.drop_last());
    }
}

/// A run starts with the first path, with nothing done, nothing failed and no restart asked for.
pub proof fn batch_starts_at_the_first_path(request: Request, force_fallback: bool)
    ensures
        ({
            let state = batch_run_of(request, force_fallback, seq![]);
            &&& state.done == 0
            &&& !state.outcome.reboot_required
            &&& state.outcome.error_message is None
            &&& state.outcome.failed.len() == 0
            &&& next_call_of(state) is Some <==> request.paths.len() > 0
            &&& next_call_of(state) matches Some(call) ==> call.path == request.paths[0]
        }),
{
    assert(batch_run_of(request, force_fallback, seq![]) == batch_start(request, force_fallback));
}

/// Every call is for the path that comes next and for the action of the request, and its reply is
/// taken for that path. A reply settles the path unless it is to be forced. A settled path is
/// followed by the next one of the request, and is reported, with the status of the reply and no
/// other, exactly if that is not zero. A restart that was asked for stays asked for.
pub proof fn each_reply_is_for_its_call(
    request: Request,
    force_fallback: bool,
    replies: Seq<DriverReply>,
    call: Call,
    reply: DriverReply,
)
    requires
        next_call_of(batch_run_of(request, force_fallback, replies)) == Some(call),
    ensures
        ({
            let before = batch_run_of(request, force_fallback, replies);
            let after = batch_run_of(request, force_fallback, replies.push(reply));
            let next = next_call_of(after);
            let settled = reply.status == 0 || call.option_code == 4 || !force_fallback;
            let at = before.done as int;
            &&& 0 <= at < request.paths.len()
            &&& call.path == request.paths[at]
            &&& call.operation_code == if request.action == BridgeAction::Delete {
                1u32
            } else {
                0u32
            }
            &&& call.option_code == 0 || call.option_code == 4
            &&& after.done == if settled {
                at + 1
            } else {
                at
            }
            &&& settled ==> (next is Some <==> at + 1 < request.paths.len())
            &&& settled && next is Some ==> next->Some_0.path == request.paths[at + 1]
                && next->Some_0.option_code == 0
            &&& !settled ==> next is Some && next->Some_0.path == call.path
                && next->Some_0.option_code == 4
            &&& next is Some ==> next->Some_0.operation_code == call.operation_code
            &&& after.outcome.reboot_required <==> before.outcome.reboot_required
                || reply.reboot_required != 0
            &&& after.outcome.error_message is None
            &&& after.outcome.failed == if settled && reply.status != 0 {
                before.outcome.failed.push(Failure { path: call.path, status: reply.status })
            } else {
                before.outcome.failed
            }
        }),
{
    lemma_fallback_stays(request, force_fallback, replies);
    lemma_fallback_stays(request, force_fallback, replies.push(reply));
    lemma_batch_done(request, force_fallback, replies);
    lemma_batch_done(request, force_fallback, replies.push(reply));
    assert(replies.push(reply).drop_last() == replies);
}

/// After the replies for the first paths, however many they are, the next call is the ordinary one
/// for the path that follows them: no path is passed over, and none is called for in the place of
/// another.
pub proof fn paths_are_called_for_in_order(
    request: Request,
    force_fallback: bool,
    replies: Seq<PathReplies>,
)
    requires
        replies.len() <= request.paths.len(),
    ensures
        ({
            let next = next_call_of(batch_end_of(request, force_fallback, replies));
            if replies.len() < request.paths.len() {
                &&& next is Some
                &&& next->Some_0.path == request.paths[replies.len() as int]
                &&& next->Some_0.operation_code == if request.action == BridgeAction::Delete {
                    1u32
                } else {
                    0u32
                }
                &&& next->Some_0.option_code == 0
            } else {
                next is None
            }
        }),
{
    lemma_batch_run(request, replies, force_fallback);
}

/// Without a fallback to force, the calls are those for the paths of the request, one for each: the
/// call that comes behind `replies` is for the path at their number. Every reply with a status
/// other than zero is reported with the path of its call, and nothing is reported where there is
/// none.
pub proof fn one_reply_settles_one_path(request: Request, replies: Seq<DriverReply>, path: int)
    requires
        replies.len() <= request.paths.len(),
        0 <= path < replies.len(),
    ensures
        ({
            let state = batch_run_of(request, false, replies);
            let failure = Failure { path: request.paths[path], status: replies[path].status };
            &&& state.done == replies.len()
            &&& next_call_of(state) matches Some(call) ==> call.path
                == request.paths[replies.len() as int]
            &&& replies[path].status != 0 ==> state.outcome.failed.contains(failure)
            &&& state.outcome.failed.len() <= replies.len()
            &&& (forall|i: int| 0 <= i < replies.len() ==> (#[trigger] replies[i]).status == 0)
                ==> state.outcome.failed.len() == 0
            &&& replies[path].reboot_required != 0 ==> state.outcome.reboot_required
        }),
    decreases replies.len(),
{
    let fewer = replies.drop_last();
    let last = replies.last();
    let before = batch_run_of(request, false, fewer);
    let state = batch_run_of(request, false, replies);
    let failure = Failure { path: request.paths[path], status: replies[path].status };
    lemma_fallback_stays(request, false, fewer);
    lemma_batch_done(request, false, fewer);
    if fewer.len() == 0 {
        batch_starts_at_the_first_path(request, false);
        assert(fewer == Seq::<DriverReply>::empty());
    } else {
        one_reply_settles_one_path(
            request,
            fewer,
            if path < fewer.len() {
                path
            } else {
                0
            },
        );
    }
    let call = next_call_of(before)->Some_0;
    each_reply_is_for_its_call(request, false, fewer, call, last);
    assert(fewer.push(last) == replies);
    assert(last == replies[replies.len() - 1]);
    if replies[path].status != 0 {
        if path < fewer.len() {
            let i = before.outcome.failed.index_of(failure);
            assert(before.outcome.failed[i] == failure);
            assert(state.outcome.failed[i] == failure);
        } else {
            assert(state.outcome.failed.last() == failure);
        }
    }
    if forall|i: int| 0 <= i < replies.len() ==> (#[trigger] replies[i]).status == 0 {
        assert forall|i: int| 0 <= i < fewer.len() implies (#[trigger] fewer[i]).status == 0 by {
            assert(fewer[i] == replies[i]);
        }
    }
}

/// Wherever a run has come to, a call is for the path that is next in the request and for its
/// action, and a reply is taken for that path: it is tried again with force exactly if it failed,
/// was not forced yet and a fallback is wanted; otherwise it is done, and reported with its status
/// exactly if that is not zero. Request and fallback stay, and so does what was reported before.
pub proof fn each_call_is_for_the_next_path(state: BatchState, reply: DriverReply)
    requires
        state.done < state.request.paths.len(),
    ensures
        ({
            let after = batch_after(state, reply);
            let path = state.request.paths[state.done as int];
            let again = reply.status != 0 && !state.retrying && state.force_fallback;
            &&& next_call_of(state) == Some(
                Call {
                    path,
                    operation_code: if state.request.action == BridgeAction::Delete {
                        1
                    } else {
                        0
                    },
                    option_code: if state.retrying {
                        4
                    } else {
                        0
                    },
                },
            )
            &&& after.request == state.request && after.force_fallback == state.force_fallback
            &&& after.retrying == again
            &&& after.done == if again {
                state.done
            } else {
                state.done + 1
            }
            &&& after.outcome.reboot_required == (state.outcome.reboot_required
                || reply.reboot_required != 0)
            &&& after.outcome.error_message == state.outcome.error_message
            &&& after.outcome.failed == if !again && reply.status != 0 {
                state.outcome.failed.push(Failure { path, status: reply.status })
            } else {
                state.outcome.failed
            }
        }),
{
}

/// A run is at its end exactly when every path is done, and starts with none of them done, nothing
/// reported and nothing forced.
pub proof fn runs_end_when_every_path_is_done(state: BatchState, force_fallback: bool)
    ensures
        next_call_of(state) is None <==> state.done >= state.request.paths.len(),
        ({
            let start = batch_start(state.request, force_fallback);
            &&& start.request == state.request && start.force_fallback == force_fallback
            &&& start.done == 0 && !start.retrying
            &&& !start.outcome.reboot_required && start.outcome.error_message is None
            &&& start.outcome.failed.len() == 0
        }),
{
}

/// What a call holds is its path and its two codes.
pub proof fn calls_hold_what_they_say(call: DriverCall)
    ensures
        call@.path == call.path@,
        call@.operation_code == call.operation_code,
        call@.option_code == call.option_code,
{
}

} // verus!
