//! How conversations relate: one goes on from another, or keeps to one device.

use vstd::prelude::*;

use crate::devices::devices_args;
use crate::session::{AskView, HaltView, ReplyView, Talk, TargetView};

verus! {

/// Whether `b` begins with `a`.
pub open spec fn begins_with<A>(b: Seq<A>, a: Seq<A>) -> bool {
    &&& a.len() <= b.len()
    &&& forall|i: int| #![trigger a[i]] #![trigger b[i]] 0 <= i < a.len() ==> b[i] == a[i]
}

/// Whether a conversation waits for a reply.
pub open spec fn waits(t: Talk) -> bool {
    t.halt is Some && t.halt->0 is Waiting
}

/// Whether a conversation can come after `t`: nothing that was said is taken back, each question
/// but one that waits has used up a reply, and one that has stopped stays as it is.
#[verifier::opaque]
pub open spec fn follows(t: Talk, after: Talk) -> bool {
    &&& after.replies == t.replies
    &&& t.halt is Some ==> after == t
    &&& begins_with(after.asked, t.asked)
    &&& begins_with(after.log, t.log)
    &&& t.next <= after.next
    &&& t.next <= t.replies.len() ==> after.next <= t.replies.len()
    &&& t.halt is None ==> after.asked.len() - t.asked.len() == after.next - t.next + (if waits(
        after,
    ) {
        1int
    } else {
        0
    })
    &&& t.halt is None && waits(after) ==> {
        &&& after.next >= after.replies.len()
        &&& after.asked.len() > 0
        &&& after.halt == Some(HaltView::Waiting(after.asked.last()))
    }
}

/// Whether `u` is the conversation that `t` becomes when more replies come in: the same, if `t` does
/// not wait; one that goes on from it, if it does.
#[verifier::opaque]
pub open spec fn continues(t: Talk, u: Talk) -> bool {
    &&& begins_with(u.replies, t.replies)
    &&& if waits(t) {
        begins_with(u.asked, t.asked) && begins_with(u.log, t.log)
    } else {
        u == (Talk { replies: u.replies, ..t })
    }
}

/// Whether a question, where it asks for a program to be run, asks for adb on the given device.
pub open spec fn is_for(adb: TargetView, q: AskView) -> bool {
    match q {
        AskView::Run(program, args) => {
            &&& program == adb.path
            &&& args.len() >= 2
            &&& args[0] == "-s"@
            &&& args[1] == adb.serial
        },
        _ => true,
    }
}

/// Whether all that was asked from `t` to `after` and was to be run was for the given device.
#[verifier::opaque]
pub open spec fn keeps_to(adb: TargetView, t: Talk, after: Talk) -> bool {
    &&& begins_with(after.asked, t.asked)
    &&& forall|i: int|
        t.asked.len() <= i < after.asked.len() ==> is_for(adb, #[trigger] after.asked[i])
}

/// Whether nothing that was asked from `t` to `after` was to be run.
#[verifier::opaque]
pub open spec fn runs_nothing(t: Talk, after: Talk) -> bool {
    &&& begins_with(after.asked, t.asked)
    &&& forall|i: int|
        t.asked.len() <= i < after.asked.len() ==> (#[trigger] after.asked[i]) !is Run
}

pub broadcast proof fn follows_on(t: Talk, t1: Talk, t2: Talk)
    requires
        #[trigger] follows(t, t1),
        #[trigger] follows(t1, t2),
    ensures
        follows(t, t2),
{
    reveal(follows);
}

pub broadcast proof fn keeps_on(adb: TargetView, t: Talk, t1: Talk, t2: Talk)
    requires
        #[trigger] keeps_to(adb, t, t1),
        #[trigger] keeps_to(adb, t1, t2),
    ensures
        keeps_to(adb, t, t2),
{
    reveal(keeps_to);
}

pub broadcast proof fn keeps_after(adb: TargetView, t: Talk, t1: Talk, t2: Talk)
    requires
        #[trigger] runs_nothing(t, t1),
        #[trigger] keeps_to(adb, t1, t2),
    ensures
        keeps_to(adb, t, t2),
{
    reveal(keeps_to);
    reveal(runs_nothing);
}

pub broadcast proof fn keeps_before(adb: TargetView, t: Talk, t1: Talk, t2: Talk)
    requires
        #[trigger] keeps_to(adb, t, t1),
        #[trigger] runs_nothing(t1, t2),
    ensures
        keeps_to(adb, t, t2),
{
    reveal(keeps_to);
    reveal(runs_nothing);
}

pub broadcast proof fn runs_nothing_on(t: Talk, t1: Talk, t2: Talk)
    requires
        #[trigger] runs_nothing(t, t1),
        #[trigger] runs_nothing(t1, t2),
    ensures
        runs_nothing(t, t2),
{
    reveal(runs_nothing);
}

pub broadcast proof fn stopped_stays(t: Talk, t1: Talk)
    requires
        #[trigger] follows(t, t1),
        t.halt is Some,
    ensures
        t1 == t,
{
    reveal(follows);
}

pub broadcast proof fn same_if_not_waiting(t: Talk, u: Talk)
    requires
        #[trigger] continues(t, u),
        !waits(t),
    ensures
        u.asked == t.asked,
        u.log == t.log,
        u.next == t.next,
        u.halt == t.halt,
{
    reveal(continues);
}

pub broadcast proof fn continues_later(t: Talk, u: Talk, u1: Talk)
    requires
        #[trigger] continues(t, u),
        #[trigger] follows(u, u1),
        waits(t),
    ensures
        continues(t, u1),
{
    reveal(continues);
    reveal(follows);
}

pub proof fn itself(t: Talk)
    ensures
        follows(t, t),
        runs_nothing(t, t),
        forall|adb: TargetView| #[trigger] keeps_to(adb, t, t),
{
    reveal(follows);
    reveal(keeps_to);
    reveal(runs_nothing);
}

/// Whether work takes `t` to `t1` and `u` to `u1` as it should: what comes out follows what goes in,
/// and if `u` continues `t`, then `u1` continues `t1`.
pub open spec fn steady(t: Talk, u: Talk, t1: Talk, u1: Talk) -> bool {
    &&& follows(t, t1)
    &&& follows(u, u1)
    &&& continues(t, u) ==> continues(t1, u1)
}

/// Whether work that finds something out is steady, and finds out the same in a conversation and
/// in one that continues it.
pub open spec fn steady_with<A>(t: Talk, u: Talk, r: (Talk, A), s: (Talk, A)) -> bool {
    &&& steady(t, u, r.0, s.0)
    &&& continues(t, u) && !waits(r.0) ==> s.1 == r.1
}

/// Whether all that was asked from `t` to `after` and was to be run was either to list the devices or
/// for the given device.
#[verifier::opaque]
pub open spec fn one_device(adb: TargetView, t: Talk, after: Talk) -> bool {
    &&& begins_with(after.asked, t.asked)
    &&& forall|i: int|
        t.asked.len() <= i < after.asked.len() ==> is_for(adb, #[trigger] after.asked[i])
            || after.asked[i] == AskView::Run(adb.path, devices_args())
}

pub proof fn one_device_on(adb: TargetView, t: Talk, t1: Talk, t2: Talk)
    requires
        one_device(adb, t, t1),
        keeps_to(adb, t1, t2),
    ensures
        one_device(adb, t, t2),
{
    reveal(one_device);
    reveal(keeps_to);
}

/// Whether work that takes `t` to `r`, and to `s` with more replies at hand, only goes on in the
/// latter: `r` follows `t`, `s` continues `r`, and what was found out is the same unless `r` waits.
pub open spec fn resumes<A>(t: Talk, r: (Talk, A), s: (Talk, A)) -> bool {
    &&& follows(t, r.0)
    &&& continues(r.0, s.0)
    &&& !waits(r.0) ==> s.1 == r.1
}

/// The conversation with more replies at hand.
pub open spec fn with_replies(t: Talk, more: Seq<ReplyView>) -> Talk {
    Talk { replies: t.replies + more, ..t }
}

pub proof fn with_replies_continues(t: Talk, more: Seq<ReplyView>)
    ensures
        continues(t, with_replies(t, more)),
{
    reveal(continues);
}

}
