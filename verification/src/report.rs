//! What the user is told of the outcome: nothing of success, one dialog of failure.

use crate::action::BridgeAction;
use crate::decimal::{decimal_of, push_decimal};
use crate::outcome::{failures_of, Failure, HelperResult, Outcome};
use vstd::prelude::*;

verus! {

/// How many failures a summary names.
pub const MAX_NAMED_FAILURES: usize = 8;

/// The name of `action` in a summary.
pub open spec fn verb_of(action: BridgeAction) -> Seq<char> {
    match action {
        BridgeAction::Unlock => "解锁"@,
        BridgeAction::Delete => "解锁并删除"@,
    }
}

/// One line for each of `failed`.
pub open spec fn failure_items_of(failed: Seq<Failure>) -> Seq<char>
    decreases failed.len(),
{
    if failed.len() == 0 {
        seq![]
    } else {
        failure_items_of(failed.drop_last()) + "\n- ["@ + decimal_of(failed.last().status as nat)
            + "] "@ + failed.last().path
    }
}

/// The summary of a request that failed for some of its paths: how many, the first eight of them
/// with their statuses, how many more, and whether a restart is to finish the work on others.
pub open spec fn failure_summary_of(action: BridgeAction, outcome: Outcome) -> Seq<char> {
    let n = outcome.failed.len();
    verb_of(action) + "失败，共 "@ + decimal_of(n) + " 个项目失败。\n"@ + failure_items_of(
        outcome.failed.take(
            if n < 8 {
                n as int
            } else {
                8
            },
        ),
    ) + (if n > 8 {
        "\n\n其余 "@ + decimal_of((n - 8) as nat) + " 个失败项目已省略。"@
    } else {
        seq![]
    }) + (if outcome.reboot_required {
        "\n\n另有部分项目被标记为需要重启后完成。"@
    } else {
        seq![]
    })
}

/// The summary of a request that failed for some of its paths.
pub fn format_failure_summary(action: BridgeAction, outcome: &HelperResult) -> (message: String)
    ensures
        message@ == failure_summary_of(action, outcome@),
{
    let mut message = String::new();
    match action {
        BridgeAction::Unlock => {
            message.append("解锁");
        },
        BridgeAction::Delete => {
            message.append("解锁并删除");
        },
    }
    let n: usize = outcome.failed.len();
    message.append("失败，共 ");
    push_decimal(&mut message, n as u128);
    message.append(" 个项目失败。\n");
    let named: usize = if n < MAX_NAMED_FAILURES {
        n
    } else {
        MAX_NAMED_FAILURES
    };
    let ghost failed = outcome@.failed;
    let ghost head = message@;
    for i in 0..named
        invariant
            named <= outcome.failed.len(),
            failed == failures_of(outcome.failed@),
            message@ == head + failure_items_of(failed.take(i as int)),
    {
        let ghost before = message@;
        message.append("\n- [");
        push_decimal(&mut message, outcome.failed[i].status as u128);
        message.append("] ");
        message.append(outcome.failed[i].path.as_str());
        assert(failed.take(i + 1).drop_last() == failed.take(i as int));
        assert(failed[i as int] == outcome.failed@[i as int]@);
        assert(message@ == head + failure_items_of(failed.take(i + 1)));
    }
    if n > MAX_NAMED_FAILURES {
        message.append("\n\n其余 ");
        push_decimal(&mut message, (n - MAX_NAMED_FAILURES) as u128);
        message.append(" 个失败项目已省略。");
    }
    if outcome.reboot_required {
        message.append("\n\n另有部分项目被标记为需要重启后完成。");
    }
    assert(message@ == failure_summary_of(action, outcome@));
    message
}

/// What the helper does at the end of a request.
pub enum Report {
    /// It fails with the worker's own error, which it shows.
    Fatal(String),
    /// It shows the summary of what failed.
    Failures(String),
    /// It shows nothing; a restart is to finish the work.
    RebootPending,
    /// It shows nothing.
    Silent,
}

/// The text of the dialog that a report shows, if it shows one.
pub open spec fn dialog_of(report: Report) -> Option<Seq<char>> {
    match report {
        Report::Fatal(message) => Some(message@),
        Report::Failures(message) => Some(message@),
        Report::RebootPending => None,
        Report::Silent => None,
    }
}

impl Report {
    /// The text of the dialog that the report shows, if it shows one.
    pub fn dialog(&self) -> (text: Option<&str>)
        ensures
            match text {
                Some(text) => dialog_of(*self) == Some(text@),
                None => dialog_of(*self) is None,
            },
    {
        match self {
            Report::Fatal(message) => Some(message.as_str()),
            Report::Failures(message) => Some(message.as_str()),
            Report::RebootPending => None,
            Report::Silent => None,
        }
    }
}

/// Whether `report` is what the helper does at the end of the request for `action` that came out as
/// `outcome`.
pub open spec fn is_report_of(report: Report, action: BridgeAction, outcome: Outcome) -> bool {
    match outcome.error_message {
        Some(error) => report matches Report::Fatal(message) && message@ == error,
        None => if outcome.failed.len() > 0 {
            report matches Report::Failures(message) && message@ == failure_summary_of(
                action,
                outcome,
            )
        } else if outcome.reboot_required {
            report is RebootPending
        } else {
            report is Silent
        },
    }
}

/// What the helper does at the end of the request for `action` that came out as `outcome`.
pub fn report(action: BridgeAction, outcome: &HelperResult) -> (r: Report)
    ensures
        is_report_of(r, action, outcome@),
        dialog_of(r) is Some <==> outcome@.error_message is Some || outcome@.failed.len() > 0,
{
    match &outcome.error_message {
        Some(error) => Report::Fatal(error.clone()),
        None => {
            if outcome.failed.len() > 0 {
                Report::Failures(format_failure_summary(action, outcome))
            } else if outcome.reboot_required {
                Report::RebootPending
            } else {
                Report::Silent
            }
        },
    }
}

proof fn lemma_failure_items(failed: Seq<Failure>)
    ensures
        failure_items_of(failed) == failed.map_values(
            |failure: Failure|
                "\n- ["@ + decimal_of(failure.status as nat) + "] "@ + failure.path,
        ).flatten(),
    decreases failed.len(),
{
    let item = |failure: Failure|
        "\n- ["@ + decimal_of(failure.status as nat) + "] "@ + failure.path;
    if failed.len() == 0 {
        assert(failed.map_values(item) == Seq::<Seq<char>>::empty());
    } else {
        let fewer = failed.drop_last();
        lemma_failure_items(fewer);
        assert(failed.map_values(item) == fewer.map_values(item).push(item(failed.last())));
        fewer.map_values(item).lemma_flatten_push(item(failed.last()));
        assert(failure_items_of(failed) == failure_items_of(fewer) + item(failed.last()));
    }
}

/// The summary says what was done, how many paths it failed for, then line by line and in order
/// which these are, each with its status, as far as the eighth; then, where there are more, how
/// many these are; and last whether a restart is to finish the work on others. What is named and
/// what is left out make up all that failed.
pub proof fn summary_tells_of_every_failure(action: BridgeAction, outcome: Outcome, named: int)
    requires
        0 <= named <= 8,
        named <= outcome.failed.len(),
        named == 8 || named == outcome.failed.len(),
    ensures
        ({
            let failed = outcome.failed;
            let left_out = failed.len() - named;
            let head = (if action == BridgeAction::Delete {
                "解锁并删除"@
            } else {
                "解锁"@
            }) + "失败，共 "@ + decimal_of(failed.len()) + " 个项目失败。\n"@;
            let items = failed.take(named).map_values(
                |failure: Failure|
                    "\n- ["@ + decimal_of(failure.status as nat) + "] "@ + failure.path,
            );
            let more = if left_out > 0 {
                "\n\n其余 "@ + decimal_of(left_out as nat) + " 个失败项目已省略。"@
            } else {
                seq![]
            };
            let restart = if outcome.reboot_required {
                "\n\n另有部分项目被标记为需要重启后完成。"@
            } else {
                seq![]
            };
            failure_summary_of(action, outcome) == head + items.flatten() + more + restart
        }),
{
    lemma_failure_items(outcome.failed.take(named));
}

/// Each of the first eight failures has its line in the summary: behind the lines of those before
/// it, and before all that follows.
pub proof fn summary_names_each_of_the_first_failures(
    action: BridgeAction,
    outcome: Outcome,
    i: int,
) -> (parts: (Seq<char>, Seq<char>))
    requires
        0 <= i < outcome.failed.len(),
        i < 8,
    ensures
        ({
            let failure = outcome.failed[i];
            let line = "\n- ["@ + decimal_of(failure.status as nat) + "] "@ + failure.path;
            let (before, behind) = parts;
            &&& failure_summary_of(action, outcome) == before + line + behind
            &&& outcome.failed.take(i).map_values(
                |failure: Failure|
                    "\n- ["@ + decimal_of(failure.status as nat) + "] "@ + failure.path,
            ).flatten().is_suffix_of(before)
        }),
{
    let item = |failure: Failure|
        "\n- ["@ + decimal_of(failure.status as nat) + "] "@ + failure.path;
    let failed = outcome.failed;
    let named = if failed.len() < 8 {
        failed.len() as int
    } else {
        8
    };
    let items = failed.take(named).map_values(item);
    let left_out = failed.len() - named;
    let head = (if action == BridgeAction::Delete {
        "解锁并删除"@
    } else {
        "解锁"@
    }) + "失败，共 "@ + decimal_of(failed.len()) + " 个项目失败。\n"@;
    let more = if left_out > 0 {
        "\n\n其余 "@ + decimal_of(left_out as nat) + " 个失败项目已省略。"@
    } else {
        seq![]
    };
    let restart = if outcome.reboot_required {
        "\n\n另有部分项目被标记为需要重启后完成。"@
    } else {
        seq![]
    };
    summary_tells_of_every_failure(action, outcome, named);
    lemma_flatten_at(items, i);
    assert(items.take(i) == failed.take(i).map_values(item));
    let before = items.take(i).flatten();
    let behind = items.skip(i + 1).flatten();
    lemma_regrouped(head, before, items[i], behind, more, restart);
    (head + before, behind + more + restart)
}

proof fn lemma_flatten_at(items: Seq<Seq<char>>, i: int)
    requires
        0 <= i < items.len(),
    ensures
        items.flatten() == items.take(i).flatten() + items[i] + items.skip(i + 1).flatten(),
{
    let first = items.take(i);
    assert(items == first.push(items[i]) + items.skip(i + 1));
    vstd::seq_lib::lemma_flatten_concat(first.push(items[i]), items.skip(i + 1));
    first.lemma_flatten_push(items[i]);
}

proof fn lemma_regrouped(
    a: Seq<char>,
    b: Seq<char>,
    c: Seq<char>,
    d: Seq<char>,
    e: Seq<char>,
    f: Seq<char>,
)
    ensures
        a + (b + c + d) + e + f == (a + b) + c + (d + e + f),
        b.is_suffix_of(a + b),
{
}

/// What is shown is the worker's own error, in full, where there is one; or else, where paths
/// failed, their summary; or else nothing.
pub proof fn dialogs_tell_of_the_outcome(report: Report, action: BridgeAction, outcome: Outcome)
    requires
        is_report_of(report, action, outcome),
    ensures
        outcome.error_message is Some ==> dialog_of(report) == outcome.error_message,
        outcome.error_message is None && outcome.failed.len() > 0 ==> dialog_of(report) == Some(
            failure_summary_of(action, outcome),
        ),
        outcome.error_message is None && outcome.failed.len() == 0 ==> dialog_of(report) is None,
        report is Fatal <==> outcome.error_message is Some,
        report is RebootPending <==> outcome.error_message is None && outcome.failed.len() == 0
            && outcome.reboot_required,
{
}

/// A dialog shows the message of its report, in full.
pub proof fn dialogs_show_the_whole_message(message: String)
    ensures
        dialog_of(Report::Fatal(message)) == Some(message@),
        dialog_of(Report::Failures(message)) == Some(message@),
        dialog_of(Report::RebootPending) is None,
        dialog_of(Report::Silent) is None,
{
}

} // verus!
