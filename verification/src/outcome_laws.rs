//! How work that tries several times ends, told by the replies to it.

use vstd::prelude::*;

use crate::device_laws::{has_part, part_is_text};
use crate::grants::mock_state_args;
use crate::reply_laws::{adb_question, gets, logged, past};
use crate::session::{output_steps, OutputView, ReplyView, Talk, TargetView};
use crate::text::{has_text, trim};
use crate::text_laws::part_stands_anywhere;
use crate::vehicle::{get_owner_args, set_owner_args};
use crate::worklog::{info, StepView};

verus! {

/// Where reading `j` of the right to mock locations has its reply: behind each reading that does not
/// tell it there is a pause and a command.
pub open spec fn read_place(start: int, j: int) -> int {
    start + 3 * j
}

/// Where trying component `j` has its reply; the reply to the check is the next one.
pub open spec fn try_place(start: int, j: int) -> int {
    start + 2 * j
}

/// Whether reply `p` is the output of a command in which the text stands anywhere.
pub open spec fn says(t: Talk, p: int, text: Seq<char>) -> bool {
    &&& 0 <= p < t.replies.len()
    &&& t.replies[p] is Output
    &&& has_part(t.replies[p]->Output_0.stdout, text)
}

/// Whether reply `p` is the output of a command in which the text does not stand.
pub open spec fn says_not(t: Talk, p: int, text: Seq<char>) -> bool {
    &&& 0 <= p < t.replies.len()
    &&& t.replies[p] is Output
    &&& !has_part(t.replies[p]->Output_0.stdout, text)
}

/// The entry that says that a package may mock locations.
pub open spec fn mock_allowed_entry() -> StepView {
    StepView { level: "info"@, message: "Фиктивные местоположения разрешены"@ }
}

/// The entry that says that a package may not mock locations, as the device told it.
pub open spec fn mock_refused_entry(package: Seq<char>, told: Seq<char>) -> StepView {
    StepView {
        level: "warn"@,
        message: "Фиктивные местоположения НЕ разрешены ("@ + trim(told)
            + ") — шеринг GPS работать не будет. Выдайте вручную: adb shell appops set "@ + package
            + " android:mock_location allow"@,
    }
}

/// Where the right to mock locations is told with the first reply, wherever in it the word stands,
/// nothing more is asked, and the right is all that is logged.
pub proof fn mock_right_is_seen_at_once(
    t: Talk,
    adb: TargetView,
    package: Seq<char>,
    a: Seq<char>,
    b: Seq<char>,
    out: OutputView,
)
    requires
        gets(t, ReplyView::Output(out)),
        out.stdout == a + "allow"@ + b,
    ensures
        t.verify_mock_location(adb, package) == logged(
            past(
                t,
                adb_question(
                    adb,
                    seq!["shell"@, "cmd"@, "appops"@, "get"@, package, "android:mock_location"@],
                ),
            ),
            "info"@,
            "Фиктивные местоположения разрешены"@,
        ),
{
    part_stands_anywhere(a, "allow"@, b);
    reveal_with_fuel(Talk::verify_mock_from, 2);
}

/// Whether replies `p` and the next one are those to a pause and to a command.
pub open spec fn is_retried(t: Talk, p: int) -> bool {
    &&& 0 <= p
    &&& p + 1 < t.replies.len()
    &&& t.replies[p] is Done
    &&& t.replies[p + 1] is Output
}

proof fn mock_seen_from(
    t: Talk,
    adb: TargetView,
    package: Seq<char>,
    n: nat,
    state: Seq<char>,
    start: int,
    k: int,
)
    requires
        t.halt is None,
        n <= k < 4,
        t.next == if n == 0 {
            start
        } else {
            start + 3 * n - 2
        },
        forall|j: int| n <= j < k ==> says_not(t, #[trigger] read_place(start, j), "allow"@),
        forall|j: int| 1 <= j && n <= j <= k ==> is_retried(t, #[trigger] read_place(start, j) - 2),
        says(t, read_place(start, k), "allow"@),
    ensures
        ({
            let r = t.verify_mock_from(adb, package, n, state);
            &&& r.halt is None
            &&& r.next == start + 3 * k + 1
            &&& r.asked.len() - t.asked.len() == r.next - t.next
            &&& r.log == t.log.push(mock_allowed_entry())
        }),
    decreases 4 - n,
{
    let ready = if n > 0 {
        assert(is_retried(t, read_place(start, n as int) - 2));
        t.allow_mock_again(adb, package)
    } else {
        t
    };
    assert(ready.halt is None && ready.next == start + 3 * n);
    let (t1, out) = ready.run_adb(adb, mock_state_args(package));
    part_is_text(out.stdout, "allow"@);
    if n < k {
        assert(says_not(t, read_place(start, n as int), "allow"@));
        assert(t1.halt is None);
        mock_seen_from(t1, adb, package, n + 1, out.stdout, start, k);
    }
}

/// Where the right is told with a later reply, after pauses in which it is given again, the asking
/// ends there, and the right is all that is logged.
pub proof fn mock_right_is_seen_in_time(t: Talk, adb: TargetView, package: Seq<char>, k: int)
    requires
        t.halt is None,
        0 <= k < 4,
        forall|j: int| 0 <= j < k ==> says_not(t, #[trigger] read_place(t.next as int, j), "allow"@),
        forall|j: int| 1 <= j <= k ==> is_retried(t, #[trigger] read_place(t.next as int, j) - 2),
        says(t, read_place(t.next as int, k), "allow"@),
    ensures
        ({
            let r = t.verify_mock_location(adb, package);
            &&& r.halt is None
            &&& r.asked.len() == t.asked.len() + 3 * k + 1
            &&& r.log == t.log.push(mock_allowed_entry())
        }),
{
    mock_seen_from(t, adb, package, 0, seq![], t.next as int, k);
}

proof fn mock_missed_from(
    t: Talk,
    adb: TargetView,
    package: Seq<char>,
    n: nat,
    state: Seq<char>,
    start: int,
)
    requires
        t.halt is None,
        n <= 4,
        t.next == if n == 0 {
            start
        } else {
            start + 3 * n - 2
        },
        n == 4 ==> state == t.replies[read_place(start, 3)]->Output_0.stdout,
        forall|j: int| n <= j < 4 ==> says_not(t, #[trigger] read_place(start, j), "allow"@),
        forall|j: int| 1 <= j && n <= j < 4 ==> is_retried(t, #[trigger] read_place(start, j) - 2),
    ensures
        ({
            let r = t.verify_mock_from(adb, package, n, state);
            &&& r.halt is None
            &&& r.next == start + 10
            &&& r.asked.len() - t.asked.len() == r.next - t.next
            &&& r.log == t.log.push(
                mock_refused_entry(package, t.replies[read_place(start, 3)]->Output_0.stdout),
            )
        }),
    decreases 4 - n,
{
    if n < 4 {
        let ready = if n > 0 {
            assert(is_retried(t, read_place(start, n as int) - 2));
            t.allow_mock_again(adb, package)
        } else {
            t
        };
        assert(ready.halt is None && ready.next == start + 3 * n);
        let (t1, out) = ready.run_adb(adb, mock_state_args(package));
        part_is_text(out.stdout, "allow"@);
        assert(says_not(t, read_place(start, n as int), "allow"@));
        assert(t1.halt is None);
        mock_missed_from(t1, adb, package, n + 1, out.stdout, start);
    }
}

/// Where none of four replies tells the right, it is warned that it is missing, with the words of
/// the last reply.
pub proof fn missing_mock_right_is_warned_of(t: Talk, adb: TargetView, package: Seq<char>)
    requires
        t.halt is None,
        forall|j: int| 0 <= j < 4 ==> says_not(t, #[trigger] read_place(t.next as int, j), "allow"@),
        forall|j: int| 1 <= j < 4 ==> is_retried(t, #[trigger] read_place(t.next as int, j) - 2),
    ensures
        ({
            let r = t.verify_mock_location(adb, package);
            &&& r.halt is None
            &&& r.asked.len() == t.asked.len() + 10
            &&& r.log == t.log.push(
                mock_refused_entry(package, t.replies[read_place(t.next as int, 3)]->Output_0.stdout),
            )
        }),
{
    mock_missed_from(t, adb, package, 0, seq![], t.next as int);
}

proof fn mock_outcome_from(
    t: Talk,
    adb: TargetView,
    package: Seq<char>,
    n: nat,
    state: Seq<char>,
    start: int,
)
    requires
        t.halt is None,
        n <= 4,
        0 <= start,
        t.next == if n == 0 {
            start
        } else {
            start + 3 * n - 2
        },
        forall|j: int| 0 <= j < n ==> says_not(t, #[trigger] read_place(start, j), "allow"@),
        t.verify_mock_from(adb, package, n, state).halt is None,
    ensures
        ({
            let r = t.verify_mock_from(adb, package, n, state);
            ||| r.log == t.log.push(mock_allowed_entry()) && exists|k: int|
                0 <= k < 4 && says(t, #[trigger] read_place(start, k), "allow"@)
            ||| forall|j: int| 0 <= j < 4 ==> says_not(t, #[trigger] read_place(start, j), "allow"@)
        }),
    decreases 4 - n,
{
    if n < 4 {
        let ready = if n > 0 {
            t.allow_mock_again(adb, package)
        } else {
            t
        };
        let (t1, out) = ready.run_adb(adb, mock_state_args(package));
        part_is_text(out.stdout, "allow"@);
        reveal_with_fuel(Talk::verify_mock_from, 2);
        assert(t1.halt is None);
        assert(ready.halt is None && ready.next == start + 3 * n);
        if has_text(out.stdout, "allow"@) {
            assert(says(t, read_place(start, n as int), "allow"@));
        } else {
            assert(says_not(t, read_place(start, n as int), "allow"@));
            mock_outcome_from(t1, adb, package, n + 1, out.stdout, start);
        }
    }
}

/// When the asking has come to its end, the right is logged, and a reply told it; or none of the
/// four replies did.
pub proof fn mock_warning_needs_four_refusals(t: Talk, adb: TargetView, package: Seq<char>)
    requires
        t.halt is None,
        t.verify_mock_location(adb, package).halt is None,
    ensures
        ({
            let r = t.verify_mock_location(adb, package);
            ||| r.log == t.log.push(mock_allowed_entry()) && exists|k: int|
                0 <= k < 4 && says(t, #[trigger] read_place(t.next as int, k), "allow"@)
            ||| forall|j: int| 0 <= j < 4 ==> says_not(t, #[trigger] read_place(t.next as int, j), "allow"@)
        }),
{
    mock_outcome_from(t, adb, package, 0, seq![], t.next as int);
}

/// Whether reply `p` is that of a successful command which names the package anywhere.
pub open spec fn owns(t: Talk, p: int, package: Seq<char>) -> bool {
    says(t, p, package) && t.replies[p]->Output_0.success
}

/// Whether reply `p` is that of a command which did not succeed or does not name the package.
pub open spec fn owns_not(t: Talk, p: int, package: Seq<char>) -> bool {
    &&& 0 <= p < t.replies.len()
    &&& t.replies[p] is Output
    &&& !owns(t, p, package)
}

/// Whether reply `p` is the output of a command.
pub open spec fn is_output(t: Talk, p: int) -> bool {
    0 <= p < t.replies.len() && t.replies[p] is Output
}

/// The entry that says that a component made its package the owner.
pub open spec fn owner_entry(component: Seq<char>) -> StepView {
    StepView { level: "info"@, message: "Device Owner enabled: "@ + component }
}

/// The entry that says that there is no owner.
pub open spec fn no_owner_entry() -> StepView {
    StepView {
        level: "warn"@,
        message:
            "Device Owner was not enabled. Android may already be provisioned or have another owner."@,
    }
}

/// Where the check after trying a component succeeds and names the package, wherever in its output,
/// no further component is tried, and the last entry of the log names the component.
pub proof fn first_owner_is_kept(
    t: Talk,
    adb: TargetView,
    package: Seq<char>,
    components: Seq<Seq<char>>,
    k: int,
)
    requires
        t.halt is None,
        0 <= k < components.len(),
        forall|j: int| 0 <= j <= k ==> is_output(t, #[trigger] try_place(t.next as int, j)),
        forall|j: int| 0 <= j < k ==> owns_not(t, #[trigger] try_place(t.next as int, j) + 1, package),
        owns(t, try_place(t.next as int, k) + 1, package),
    ensures
        ({
            let r = t.try_owners(adb, package, components);
            &&& r.halt is None
            &&& r.next == t.next + 2 * k + 2
            &&& r.asked.len() == t.asked.len() + 2 * k + 2
            &&& forall|j: int|
                0 <= j <= k ==> r.asked[#[trigger] try_place(t.asked.len() as int, j)] == adb_question(
                    adb,
                    set_owner_args(components[j]),
                )
            &&& forall|i: int| 0 <= i < t.asked.len() ==> #[trigger] r.asked[i] == t.asked[i]
            &&& r.log.len() > 0
            &&& r.log.last() == owner_entry(components[k])
        }),
    decreases components.len(),
{
    assert(is_output(t, try_place(t.next as int, 0)));
    let out = t.replies[t.next as int]->Output_0;
    if k > 0 {
        assert(owns_not(t, try_place(t.next as int, 0) + 1, package));
    }
    let owner = t.replies[try_place(t.next as int, 0) + 1]->Output_0;
    part_is_text(owner.stdout, package);
    let (t1, first) = t.say(
        info("Trying Device Owner receiver: "@ + components[0]),
    ).run_adb(adb, set_owner_args(components[0]));
    assert(t1.halt is None && first == out);
    let (t2, second) = t1.log_all(output_steps(first)).run_adb(
        adb,
        get_owner_args(),
    );
    assert(t2.halt is None && second == owner && t2.next == t.next + 2);
    assert(t2.asked[t.asked.len() as int] == adb_question(adb, set_owner_args(components[0])));
    if k > 0 {
        let rest = components.skip(1);
        assert forall|j: int| 0 <= j <= k - 1 implies is_output(
            t2,
            #[trigger] try_place(t2.next as int, j),
        ) by {
            assert(is_output(t, try_place(t.next as int, j + 1)));
        }
        assert forall|j: int| 0 <= j < k - 1 implies owns_not(
            t2,
            #[trigger] try_place(t2.next as int, j) + 1,
            package,
        ) by {
            assert(owns_not(t, try_place(t.next as int, j + 1) + 1, package));
        }
        first_owner_is_kept(t2, adb, package, rest, k - 1);
        let r = t.try_owners(adb, package, components);
        assert(r == t2.try_owners(adb, package, rest));
        assert forall|j: int| 0 <= j <= k implies r.asked[#[trigger] try_place(t.asked.len() as int, j)]
            == adb_question(adb, set_owner_args(components[j])) by {
            if j > 0 {
                assert(rest[j - 1] == components[j]);
                assert(r.asked[try_place(t2.asked.len() as int, j - 1)] == adb_question(
                    adb,
                    set_owner_args(rest[j - 1]),
                ));
            } else {
                assert(r.asked[t.asked.len() as int] == t2.asked[t.asked.len() as int]);
            }
        }
        assert forall|i: int| 0 <= i < t.asked.len() implies #[trigger] r.asked[i] == t.asked[i] by {
            assert(r.asked[i] == t2.asked[i]);
        }
    }
}

/// Where no check names the package, all components are tried, and the last entry of the log is the
/// warning.
pub proof fn without_an_owner_all_are_tried(
    t: Talk,
    adb: TargetView,
    package: Seq<char>,
    components: Seq<Seq<char>>,
)
    requires
        t.halt is None,
        forall|j: int| 0 <= j < components.len() ==> is_output(t, #[trigger] try_place(t.next as int, j)),
        forall|j: int|
            0 <= j < components.len() ==> owns_not(t, #[trigger] try_place(t.next as int, j) + 1, package),
    ensures
        ({
            let r = t.try_owners(adb, package, components);
            &&& r.halt is None
            &&& r.asked.len() == t.asked.len() + 2 * components.len()
            &&& r.log.len() > 0
            &&& r.log.last() == no_owner_entry()
        }),
    decreases components.len(),
{
    if components.len() > 0 {
        assert(is_output(t, try_place(t.next as int, 0)));
        assert(owns_not(t, try_place(t.next as int, 0) + 1, package));
        let out = t.replies[t.next as int]->Output_0;
        let owner = t.replies[try_place(t.next as int, 0) + 1]->Output_0;
        part_is_text(owner.stdout, package);
        let (t1, first) = t.say(
            info("Trying Device Owner receiver: "@ + components[0]),
        ).run_adb(adb, set_owner_args(components[0]));
        assert(t1.halt is None && first == out);
        let (t2, second) = t1.log_all(output_steps(first)).run_adb(
            adb,
            get_owner_args(),
        );
        assert(t2.halt is None && second == owner && t2.next == t.next + 2);
        let rest = components.skip(1);
        assert forall|j: int| 0 <= j < rest.len() implies is_output(
            t2,
            #[trigger] try_place(t2.next as int, j),
        ) && owns_not(t2, try_place(t2.next as int, j) + 1, package) by {
            assert(is_output(t, try_place(t.next as int, j + 1)));
            assert(owns_not(t, try_place(t.next as int, j + 1) + 1, package));
        }
        without_an_owner_all_are_tried(t2, adb, package, rest);
    }
}

/// When trying components has come to its end, a successful check named the package and the log ends
/// with the component; or no check did.
pub proof fn owner_warning_needs_all_refusals(
    t: Talk,
    adb: TargetView,
    package: Seq<char>,
    components: Seq<Seq<char>>,
)
    requires
        t.halt is None,
        t.try_owners(adb, package, components).halt is None,
    ensures
        ({
            let r = t.try_owners(adb, package, components);
            ||| exists|k: int|
                0 <= k < components.len() && owns(t, #[trigger] try_place(t.next as int, k) + 1, package)
                    && r.log.last() == owner_entry(components[k])
            ||| forall|j: int|
                0 <= j < components.len() ==> owns_not(t, #[trigger] try_place(t.next as int, j) + 1, package)
        }),
    decreases components.len(),
{
    if components.len() > 0 {
        let (t1, first) = t.say(
            info("Trying Device Owner receiver: "@ + components[0]),
        ).run_adb(adb, set_owner_args(components[0]));
        let (t2, second) = t1.log_all(output_steps(first)).run_adb(
            adb,
            get_owner_args(),
        );
        reveal_with_fuel(Talk::try_owners, 2);
        assert(t2.halt is None);
        assert(t1.halt is None && t2.next == t.next + 2);
        part_is_text(second.stdout, package);
        if second.success && has_text(second.stdout, package) {
            assert(owns(t, try_place(t.next as int, 0) + 1, package));
        } else {
            assert(owns_not(t, try_place(t.next as int, 0) + 1, package));
            let rest = components.skip(1);
            owner_warning_needs_all_refusals(t2, adb, package, rest);
            let r = t.try_owners(adb, package, components);
            if exists|k: int|
                0 <= k < rest.len() && owns(t2, #[trigger] try_place(t2.next as int, k) + 1, package)
                    && r.log.last() == owner_entry(rest[k]) {
                let k = choose|k: int|
                    0 <= k < rest.len() && owns(t2, #[trigger] try_place(t2.next as int, k) + 1, package)
                        && r.log.last() == owner_entry(rest[k]);
                assert(owns(t, try_place(t.next as int, k + 1) + 1, package));
                assert(rest[k] == components[k + 1]);
            } else {
                assert forall|j: int| 0 <= j < components.len() implies owns_not(
                    t,
                    #[trigger] try_place(t.next as int, j) + 1,
                    package,
                ) by {
                    if j > 0 {
                        assert(owns_not(t2, try_place(t2.next as int, j - 1) + 1, package));
                    }
                }
            }
        }
    }
}

/// Making a package the owner asks for its administrators and tries them, if there are any.
pub proof fn administrators_are_tried(t: Talk, adb: TargetView, package: Seq<char>)
    ensures
        ({
            let start = t.say(
                StepView { level: "info"@, message: "Applying Device Owner mode"@ },
            );
            let (after, components) = start.device_admin_candidates(adb, package);
            t.apply_device_owner_inner(adb, package) == if components.len() > 0 {
                after.try_owners(adb, package, components)
            } else {
                after.say(
                    StepView {
                        level: "warn"@,
                        message: "No DeviceAdmin receiver found for package: "@ + package,
                    },
                )
            }
        }),
{
}

}
