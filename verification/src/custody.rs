//! Custody of native resources: what an operation holds, what it is handed,
//! and what it gives back. Nothing is lost and nothing is given back twice.

use crate::boundary::{CallView, RawContainer, RawSnapshot, Reply, Resource};
use crate::container::{bound_container, bound_containers, container_resources, ContainerView};
use crate::error::Error;
use crate::operation::{
    affirmed, flag_ending, next, text_of, unwound, OutcomeView, StageView, StepView,
};
use crate::snapshot::{bound_snapshots, snapshot_resources, SnapshotView};
use vstd::multiset::Multiset;
use vstd::prelude::*;
use vstd::seq_lib::to_multiset_build;

verus! {

broadcast use vstd::multiset::group_multiset_axioms;

/// The references that a list of containers owns.
pub open spec fn container_claims(containers: Seq<ContainerView>) -> Seq<Resource> {
    Seq::new(containers.len(), |i: int| Resource::Container(containers[i].handle))
}

/// The payloads that a list of snapshot records owns.
pub open spec fn snapshot_claims(records: Seq<SnapshotView>) -> Seq<Resource> {
    Seq::new(records.len(), |i: int| Resource::Snapshot(records[i].record))
}

/// What a call gives back to the native side.
pub open spec fn given_back(call: CallView) -> Multiset<Resource> {
    match call {
        CallView::Release(resource) => Multiset::singleton(resource),
        _ => Multiset::empty(),
    }
}

/// What the reply to an acquisition hands over.
pub open spec fn acquired(reply: Reply) -> Multiset<Resource> {
    match reply {
        Reply::Handle(raw) => if raw.address == 0 {
            Multiset::empty()
        } else {
            Multiset::singleton(Resource::Container(raw.address))
        },
        _ => Multiset::empty(),
    }
}

/// What a reply hands over to the stage that gets it.
pub open spec fn handed_over(stage: StageView, reply: Reply) -> Multiset<Resource> {
    match stage {
        StageView::ExistsAcquire => acquired(reply),
        StageView::GetAcquire => acquired(reply),
        StageView::CreateAcquire { .. } => acquired(reply),
        StageView::Listing => match reply {
            Reply::Handles { count, array, items } => if count > 0 {
                container_resources(items@).to_multiset().insert(Resource::Array(array))
            } else {
                Multiset::empty()
            },
            _ => Multiset::empty(),
        },
        StageView::SnapshotListing => match reply {
            Reply::Records { count, array, items } => if count > 0 {
                snapshot_resources(items@).to_multiset().insert(Resource::Array(array))
            } else {
                Multiset::empty()
            },
            _ => Multiset::empty(),
        },
        StageView::Buffer => match reply {
            Reply::Buffer { address, .. } => if address == 0 {
                Multiset::empty()
            } else {
                Multiset::singleton(Resource::Buffer(address))
            },
            _ => Multiset::empty(),
        },
        _ => Multiset::empty(),
    }
}

/// What the outcome of an operation owns from then on.
pub open spec fn owned(outcome: Result<OutcomeView, Error>) -> Multiset<Resource> {
    match outcome {
        Ok(OutcomeView::Bound(container)) => Multiset::singleton(
            Resource::Container(container.handle),
        ),
        Ok(OutcomeView::Containers(containers)) => container_claims(containers).to_multiset(),
        Ok(OutcomeView::Snapshots(records)) => snapshot_claims(records).to_multiset(),
        _ => Multiset::empty(),
    }
}

/// What a stage holds while its call is out.
pub open spec fn held(stage: StageView) -> Multiset<Resource> {
    match stage {
        StageView::ExistsCheck { handle } => Multiset::singleton(Resource::Container(handle)),
        StageView::GetCheck { container } => Multiset::singleton(
            Resource::Container(container.handle),
        ),
        StageView::CreateCheck { container, .. } => Multiset::singleton(
            Resource::Container(container.handle),
        ),
        StageView::Creating { container } => Multiset::singleton(
            Resource::Container(container.handle),
        ),
        StageView::Destroying { handle } => Multiset::singleton(Resource::Container(handle)),
        StageView::Releasing { pending, outcome } => pending.to_multiset().add(owned(outcome)),
        _ => Multiset::empty(),
    }
}

/// What a step accounts for: what its call gives back and what its stage
/// holds, or what its outcome owns.
pub open spec fn accounted(step: StepView) -> Multiset<Resource> {
    match step {
        StepView::Call(call, stage) => given_back(call).add(held(stage)),
        StepView::Done(outcome) => owned(outcome),
    }
}

/// What is handed over in all while the replies come in, in this order.
pub open spec fn handed_over_along(step: StepView, replies: Seq<Reply>) -> Multiset<Resource>
    decreases replies.len(),
{
    if replies.len() == 0 {
        Multiset::empty()
    } else {
        match step {
            StepView::Call(_, stage) => handed_over(stage, replies[0]).add(
                handed_over_along(step.resume(replies[0]), replies.drop_first()),
            ),
            StepView::Done(_) => Multiset::empty(),
        }
    }
}

/// What a sequence of calls gives back in all.
pub open spec fn given_back_by(calls: Seq<CallView>) -> Multiset<Resource>
    decreases calls.len(),
{
    if calls.len() == 0 {
        Multiset::empty()
    } else {
        given_back(calls[0]).add(given_back_by(calls.drop_first()))
    }
}

/// What is still in the operation's hands at a step: what its stage
/// holds, or what its outcome owns.
pub open spec fn in_hand(step: StepView) -> Multiset<Resource> {
    match step {
        StepView::Call(_, stage) => held(stage),
        StepView::Done(outcome) => owned(outcome),
    }
}

proof fn lemma_release_accounts(pending: Seq<Resource>, outcome: Result<OutcomeView, Error>)
    ensures
        accounted(unwound(pending, outcome)) == pending.to_multiset().add(owned(outcome)),
{
    broadcast use vstd::seq_lib::group_to_multiset_ensures;

    if pending.len() > 0 {
        to_multiset_build(pending.drop_last(), pending.last());
        assert(pending.drop_last().push(pending.last()) =~= pending);
    }
}

proof fn lemma_nothing()
    ensures
        Seq::<Resource>::empty().to_multiset() == Multiset::<Resource>::empty(),
{
    broadcast use vstd::seq_lib::group_to_multiset_ensures;

}

proof fn lemma_single(resource: Resource)
    ensures
        seq![resource].to_multiset() == Multiset::singleton(resource),
{
    to_multiset_build(Seq::<Resource>::empty(), resource);
    assert(Seq::<Resource>::empty().to_multiset() =~= Multiset::empty()) by {
        broadcast use vstd::seq_lib::group_to_multiset_ensures;

    }
}

proof fn lemma_prefixed(first: Resource, rest: Seq<Resource>)
    ensures
        (seq![first] + rest).to_multiset() == rest.to_multiset().insert(first),
    decreases rest.len(),
{
    if rest.len() == 0 {
        lemma_single(first);
        assert(rest.to_multiset() =~= Multiset::empty()) by {
            broadcast use vstd::seq_lib::group_to_multiset_ensures;

        }
    } else {
        let shorter = rest.drop_last();
        lemma_prefixed(first, shorter);
        to_multiset_build(shorter, rest.last());
        to_multiset_build(seq![first] + shorter, rest.last());
        assert(shorter.push(rest.last()) =~= rest);
    }
}

proof fn lemma_bound_containers_claim(items: Seq<RawContainer>)
    requires
        bound_containers(items) is Some,
    ensures
        container_claims(bound_containers(items)->0) == container_resources(items),
    decreases items.len(),
{
    if items.len() > 0 {
        let shorter = items.drop_last();
        assert forall|i: int| 0 <= i < shorter.len() implies (#[trigger] bound_container(
            shorter[i],
        )) is Some by {
            assert(shorter[i] == items[i]);
        }
        lemma_bound_containers_claim(shorter);
        assert(bound_container(items[items.len() - 1]) is Some);
    }
}

proof fn lemma_bound_snapshots_claim(items: Seq<RawSnapshot>)
    requires
        bound_snapshots(items) is Some,
    ensures
        snapshot_claims(bound_snapshots(items)->0) == snapshot_resources(items),
{
}

proof fn lemma_released_accounts(resource: Resource, outcome: Result<OutcomeView, Error>)
    ensures
        accounted(unwound(seq![resource], outcome)) == Multiset::singleton(resource).add(
            owned(outcome),
        ),
{
    lemma_release_accounts(seq![resource], outcome);
    lemma_single(resource);
}

/// Conservation, one step at a time: what the next step accounts for is
/// what the stage held and what the reply handed over. So whatever a stage
/// holds is either kept, or given back by the very next call, or owned by
/// the outcome; and nothing is given back that was not held.
pub proof fn lemma_step_conserves(stage: StageView, reply: Reply)
    ensures
        accounted(next(stage, reply)) == held(stage).add(handed_over(stage, reply)),
{
    lemma_nothing();
    assert(container_claims(Seq::empty()) =~= Seq::empty());
    assert(snapshot_claims(Seq::empty()) =~= Seq::empty());
    match stage {
        StageView::Buffer => {
            if let Reply::Buffer { address, bytes } = reply {
                lemma_released_accounts(Resource::Buffer(address), text_of(bytes@));
            }
        },
        StageView::ExistsCheck { handle } => {
            lemma_released_accounts(
                Resource::Container(handle),
                Ok(OutcomeView::Flag(affirmed(reply))),
            );
        },
        StageView::GetAcquire => {
            if let Reply::Handle(raw) = reply {
                lemma_released_accounts(Resource::Container(raw.address), Err(Error::Unknown));
            }
        },
        StageView::GetCheck { container } => {
            let handle = Resource::Container(container.handle);
            lemma_released_accounts(handle, Err(Error::Unknown));
            lemma_released_accounts(handle, Err(Error::ContainerDoesNotExists));
        },
        StageView::CreateAcquire { .. } => {
            if let Reply::Handle(raw) = reply {
                lemma_released_accounts(Resource::Container(raw.address), Err(Error::Unknown));
            }
        },
        StageView::CreateCheck { container, .. } => {
            let handle = Resource::Container(container.handle);
            lemma_released_accounts(handle, Err(Error::Unknown));
            lemma_released_accounts(handle, Err(Error::ContainerAlreadyExists));
        },
        StageView::Creating { container } => {
            lemma_released_accounts(Resource::Container(container.handle), Err(Error::Unknown));
        },
        StageView::Destroying { handle } => {
            lemma_released_accounts(Resource::Container(handle), flag_ending(reply));
        },
        StageView::Listing => {
            if let Reply::Handles { count, array, items } = reply {
                if count > 0 {
                    match bound_containers(items@) {
                        Some(containers) => {
                            lemma_bound_containers_claim(items@);
                            lemma_released_accounts(
                                Resource::Array(array),
                                Ok(OutcomeView::Containers(containers)),
                            );
                        },
                        None => {
                            let held = container_resources(items@);
                            lemma_release_accounts(
                                seq![Resource::Array(array)] + held,
                                Err(Error::Unknown),
                            );
                            lemma_prefixed(Resource::Array(array), held);
                        },
                    }
                }
            }
        },
        StageView::SnapshotListing => {
            if let Reply::Records { count, array, items } = reply {
                if count > 0 {
                    match bound_snapshots(items@) {
                        Some(records) => {
                            lemma_bound_snapshots_claim(items@);
                            lemma_released_accounts(
                                Resource::Array(array),
                                Ok(OutcomeView::Snapshots(records)),
                            );
                        },
                        None => {
                            let held = snapshot_resources(items@);
                            lemma_release_accounts(
                                seq![Resource::Array(array)] + held,
                                Err(Error::Unknown),
                            );
                            lemma_prefixed(Resource::Array(array), held);
                        },
                    }
                }
            }
        },
        StageView::Releasing { pending, outcome } => {
            lemma_release_accounts(pending, outcome);
        },
        _ => {},
    }
}

/// Conservation over a whole exchange: what the first step accounted for
/// and what the replies handed over is, in all, what the calls gave back
/// and what is still in hand at the end. So an operation that starts with
/// nothing and ends with an outcome that owns nothing has given back,
/// exactly once each, everything that it acquired.
pub proof fn lemma_run_conserves(step: StepView, replies: Seq<Reply>)
    ensures
        accounted(step).add(handed_over_along(step, replies)) == given_back_by(
            step.calls(replies),
        ).add(in_hand(step.run(replies))),
    decreases replies.len(),
{
    let after = given_back_by(step.calls(replies)).add(in_hand(step.run(replies)));
    match step {
        StepView::Call(call, stage) => {
            if replies.len() == 0 {
                assert(given_back_by(seq![call]) == given_back(call).add(
                    given_back_by(seq![call].drop_first()),
                ));
            } else {
                let rest = replies.drop_first();
                let following = next(stage, replies[0]);
                lemma_step_conserves(stage, replies[0]);
                lemma_run_conserves(following, rest);
                let later = following.calls(rest);
                assert((seq![call] + later).drop_first() =~= later);
                let kept = accounted(following).add(handed_over_along(following, rest));
                assert(given_back(call).add(kept) =~= after);
            }
        },
        StepView::Done(_) => {
            lemma_done_stays(step, replies);
        },
    }
}

/// The handle on which a call is made.
pub open spec fn receiver(call: CallView) -> Option<usize> {
    match call {
        CallView::Version => None,
        CallView::Acquire { .. } => None,
        CallView::ListDefined { .. } => None,
        CallView::Release(Resource::Container(handle)) => Some(handle),
        CallView::Release(_) => None,
        CallView::IsDefined { handle } => Some(handle),
        CallView::Create { handle, .. } => Some(handle),
        CallView::ConfigFileName { handle } => Some(handle),
        CallView::GetKeys { handle, .. } => Some(handle),
        CallView::GetConfigItem { handle, .. } => Some(handle),
        CallView::SetConfigItem { handle, .. } => Some(handle),
        CallView::ClearConfig { handle } => Some(handle),
        CallView::ClearConfigItem { handle, .. } => Some(handle),
        CallView::SaveConfig { handle, .. } => Some(handle),
        CallView::WantDaemonize { handle, .. } => Some(handle),
        CallView::WantCloseAllFds { handle, .. } => Some(handle),
        CallView::Start { handle } => Some(handle),
        CallView::Stop { handle } => Some(handle),
        CallView::IsRunning { handle } => Some(handle),
        CallView::State { handle } => Some(handle),
        CallView::Freeze { handle } => Some(handle),
        CallView::Unfreeze { handle } => Some(handle),
        CallView::Snapshot { handle, .. } => Some(handle),
        CallView::SnapshotList { handle } => Some(handle),
        CallView::SnapshotRestore { handle, .. } => Some(handle),
        CallView::SnapshotDestroy { handle, .. } => Some(handle),
        CallView::SnapshotDestroyAll { handle } => Some(handle),
        CallView::Checkpoint { handle, .. } => Some(handle),
        CallView::Restore { handle, .. } => Some(handle),
        CallView::Shutdown { handle, .. } => Some(handle),
        CallView::DestroyWithSnapshots { handle } => Some(handle),
        CallView::Destroy { handle } => Some(handle),
    }
}

/// The handle that a stage has on loan from the container that the
/// operation was asked of, for the calls that are still to come.
pub open spec fn on_loan(stage: StageView) -> Option<usize> {
    match stage {
        StageView::Probe { handle, .. } => Some(handle),
        _ => None,
    }
}

/// No call is made on a handle that is not at hand: the handle of the call
/// that follows a reply is on loan to the stage, or held by it, or handed
/// over by that very reply. Together with conservation this rules out a
/// call on a handle that was given back, and a second release.
pub proof fn lemma_calls_stay_at_hand(stage: StageView, reply: Reply)
    ensures
        next(stage, reply) matches StepView::Call(call, then) ==> {
            &&& receiver(call) matches Some(handle) ==> on_loan(stage) == Some(handle)
                || held(stage).add(handed_over(stage, reply)).count(Resource::Container(handle))
                > 0
            &&& on_loan(then) is Some ==> on_loan(then) == on_loan(stage)
        },
{
    lemma_step_conserves(stage, reply);
}

/// An operation that has ended stays as it is, whatever comes in.
pub proof fn lemma_done_stays(step: StepView, replies: Seq<Reply>)
    requires
        step is Done,
    ensures
        step.run(replies) == step,
    decreases replies.len(),
{
    if replies.len() > 0 {
        lemma_done_stays(step, replies.drop_first());
    }
}

} // verus!
