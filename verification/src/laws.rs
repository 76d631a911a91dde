//! What holds of whole operations, whatever the native side replies.

use crate::boundary::{CallView, RawContainer, RawSnapshot, Reply, Resource};
use crate::container::{
    bound_container, bound_containers, create_step, get_config_item_step, get_step,
    is_defined_step, list_step, set_config_item_step, ContainerView,
};
use crate::custody::{
    accounted, given_back_by, handed_over_along, in_hand, lemma_done_stays, lemma_run_conserves,
};
use crate::error::Error;
use crate::marshal::{
    all_marshalable, argument_array, c_text, lemma_round_trip, marshalable,
};
use crate::operation::{affirmed, next, OutcomeView, StageView, StepView};
use crate::snapshot::bound_snapshots;
use crate::template::TemplateView;
use vstd::prelude::*;

verus! {

broadcast use vstd::multiset::group_multiset_axioms;

/// An enumeration that finds no container ends with the empty list: it is
/// no error, and there is nothing to give back.
pub proof fn lemma_list_of_none(lxcpath: Seq<char>, array: usize, items: Vec<RawContainer>)
    requires
        marshalable(lxcpath),
    ensures
        list_step(lxcpath).resume((Reply::Handles { count: 0, array, items })) == StepView::Done(
            Ok(OutcomeView::Containers(Seq::empty())),
        ),
{
}

/// An enumeration succeeds exactly when the count is zero, or is positive
/// with every element fit to be wrapped. It then hands out the containers
/// of the elements, in their order, once the array is given back.
pub proof fn lemma_list_succeeds_exactly(
    lxcpath: Seq<char>,
    count: i32,
    array: usize,
    items: Vec<RawContainer>,
    last: Reply,
)
    requires
        marshalable(lxcpath),
    ensures
        ({
            let listed = list_step(lxcpath).resume((Reply::Handles { count, array, items }));
            &&& count < 0 ==> listed == StepView::Done(Err(Error::Unknown))
            &&& count > 0 && bound_containers(items@) is Some ==> {
                &&& listed.pending() == Some(CallView::Release(Resource::Array(array)))
                &&& listed.resume(last) == StepView::Done(
                    Ok(OutcomeView::Containers(bound_containers(items@)->0)),
                )
            }
            &&& count > 0 && bound_containers(items@) is None ==> failing(listed)
        }),
{
}

/// A listing of snapshots succeeds exactly when the count is zero, or is
/// positive with every record fit to be wrapped. It then hands out the
/// records, in their order, once the array is given back; each record
/// keeps its own payload.
pub proof fn lemma_snapshot_list_succeeds_exactly(
    handle: usize,
    count: i32,
    array: usize,
    items: Vec<RawSnapshot>,
    last: Reply,
)
    ensures
        ({
            let start = StepView::Call(
                CallView::SnapshotList { handle },
                StageView::SnapshotListing,
            );
            let listed = start.resume((Reply::Records { count, array, items }));
            &&& count < 0 ==> listed == StepView::Done(Err(Error::Unknown))
            &&& count == 0 ==> listed == StepView::Done(Ok(OutcomeView::Snapshots(Seq::empty())))
            &&& count > 0 && bound_snapshots(items@) is Some ==> {
                &&& listed.pending() == Some(CallView::Release(Resource::Array(array)))
                &&& listed.resume(last) == StepView::Done(
                    Ok(OutcomeView::Snapshots(bound_snapshots(items@)->0)),
                )
            }
            &&& count > 0 && bound_snapshots(items@) is None ==> failing(listed)
        }),
{
}

/// The number of a snapshot is the code that the native side returns: the
/// first snapshot of a container comes back as zero. A negative code is a
/// failure.
pub proof fn lemma_snapshot_number(handle: usize, comment: Option<Seq<u8>>, code: i32)
    ensures
        StepView::Call(CallView::Snapshot { handle, comment }, StageView::Index).resume(
            Reply::Code(code),
        ) == StepView::Done(
            if code < 0 {
                Err(Error::Unknown)
            } else {
                Ok(OutcomeView::Index(code as u32))
            },
        ),
{
}

/// The existence test, call by call: it asks the handle that it acquired
/// for its definition, gives the handle back, and answers what the native
/// side answered.
pub proof fn lemma_is_defined_exchange(
    lxcpath: Seq<char>,
    name: Seq<char>,
    raw: RawContainer,
    answer: Reply,
    last: Reply,
)
    requires
        marshalable(lxcpath),
        marshalable(name),
        raw.address != 0,
    ensures
        ({
            let acquired = is_defined_step(lxcpath, name).resume(Reply::Handle(raw));
            let checked = acquired.resume(answer);
            &&& acquired == StepView::Call(
                CallView::IsDefined { handle: raw.address },
                StageView::ExistsCheck { handle: raw.address },
            )
            &&& checked == StepView::Call(
                CallView::Release(Resource::Container(raw.address)),
                StageView::Releasing {
                    pending: Seq::empty(),
                    outcome: Ok(OutcomeView::Flag(affirmed(answer))),
                },
            )
            &&& checked.resume(last) == StepView::Done(Ok(OutcomeView::Flag(affirmed(answer))))
        }),
{
    assert(seq![Resource::Container(raw.address)].drop_last() =~= Seq::empty());
}

/// Where no handle can be had, nothing exists under the name.
pub proof fn lemma_is_defined_without_handle(lxcpath: Seq<char>, name: Seq<char>, raw: RawContainer)
    requires
        raw.address == 0,
    ensures
        is_defined_step(lxcpath, name).resume(Reply::Handle(raw)) == StepView::Done(
            Ok(OutcomeView::Flag(false)),
        ),
{
}

/// The steps that an existence test can be at.
pub open spec fn testing(step: StepView) -> bool {
    match step {
        StepView::Call(_, StageView::ExistsAcquire) => true,
        StepView::Call(_, StageView::ExistsCheck { .. }) => true,
        StepView::Call(_, StageView::Releasing { pending, outcome }) => pending.len() == 0
            && outcome matches Ok(OutcomeView::Flag(_)),
        StepView::Done(Ok(OutcomeView::Flag(_))) => true,
        _ => false,
    }
}

proof fn lemma_testing_runs(step: StepView, replies: Seq<Reply>)
    requires
        testing(step),
    ensures
        testing(step.run(replies)),
    decreases replies.len(),
{
    if replies.len() > 0 {
        lemma_testing_runs(step.resume(replies[0]), replies.drop_first());
    }
}

/// An existence test never fails, and it keeps nothing: whatever the
/// replies are, once it has ended it has given back exactly what it
/// acquired.
pub proof fn lemma_is_defined_keeps_nothing(
    lxcpath: Seq<char>,
    name: Seq<char>,
    replies: Seq<Reply>,
)
    ensures
        ({
            let start = is_defined_step(lxcpath, name);
            start.run(replies) matches StepView::Done(ending) ==> {
                &&& ending matches Ok(OutcomeView::Flag(_))
                &&& given_back_by(start.calls(replies)) == handed_over_along(start, replies)
            }
        }),
{
    let start = is_defined_step(lxcpath, name);
    lemma_testing_runs(start, replies);
    lemma_run_conserves(start, replies);
    if start.run(replies) is Done {
        let given = given_back_by(start.calls(replies));
        assert(given.add(in_hand(start.run(replies))) =~= given);
    }
}

/// An operation that fails keeps nothing: whatever it was given and
/// whatever it acquired on the way, it has given back.
pub proof fn lemma_failure_keeps_nothing(step: StepView, replies: Seq<Reply>)
    requires
        step.run(replies) matches StepView::Done(ending) && ending is Err,
    ensures
        given_back_by(step.calls(replies)) == accounted(step).add(
            handed_over_along(step, replies),
        ),
{
    lemma_run_conserves(step, replies);
}

/// A lookup of a name that is not defined fails with
/// `ContainerDoesNotExists`, after the handle is given back.
pub proof fn lemma_get_undefined(
    lxcpath: Seq<char>,
    name: Seq<char>,
    raw: RawContainer,
    last: Reply,
)
    requires
        marshalable(lxcpath),
        marshalable(name),
        bound_container(raw) is Some,
    ensures
        ({
            let acquired = get_step(lxcpath, name).resume(Reply::Handle(raw));
            let checked = acquired.resume(Reply::Flag(false));
            &&& acquired == StepView::Call(
                CallView::IsDefined { handle: raw.address },
                StageView::GetCheck { container: bound_container(raw)->0 },
            )
            &&& checked == StepView::Call(
                CallView::Release(Resource::Container(raw.address)),
                StageView::Releasing {
                    pending: Seq::empty(),
                    outcome: Err(Error::ContainerDoesNotExists),
                },
            )
            &&& checked.resume(last) == StepView::Done(Err(Error::ContainerDoesNotExists))
        }),
{
    assert(seq![Resource::Container(raw.address)].drop_last() =~= Seq::empty());
}

/// A lookup of a name that is defined hands out the container, bound to
/// the handle that was acquired and named as the native side names it.
pub proof fn lemma_get_defined(lxcpath: Seq<char>, name: Seq<char>, raw: RawContainer)
    requires
        marshalable(lxcpath),
        marshalable(name),
        bound_container(raw) is Some,
    ensures
        get_step(lxcpath, name).resume(Reply::Handle(raw)).resume(Reply::Flag(true))
            == StepView::Done(Ok(OutcomeView::Bound(bound_container(raw)->0))),
{
}

/// A creation under a name that is defined already fails with
/// `ContainerAlreadyExists`. The definition is tested before anything else
/// is asked of the container: the only call that follows the test gives
/// the handle back, so the container that exists is not touched.
pub proof fn lemma_create_defined(
    lxcpath: Seq<char>,
    name: Seq<char>,
    template: TemplateView,
    raw: RawContainer,
    last: Reply,
)
    requires
        marshalable(lxcpath),
        marshalable(name),
        marshalable(template.name),
        all_marshalable(template.options),
        bound_container(raw) is Some,
    ensures
        ({
            let acquired = create_step(lxcpath, name, template).resume(Reply::Handle(raw));
            let checked = acquired.resume(Reply::Flag(true));
            &&& acquired.pending() == Some(CallView::IsDefined { handle: raw.address })
            &&& checked == StepView::Call(
                CallView::Release(Resource::Container(raw.address)),
                StageView::Releasing {
                    pending: Seq::empty(),
                    outcome: Err(Error::ContainerAlreadyExists),
                },
            )
            &&& checked.resume(last) == StepView::Done(Err(Error::ContainerAlreadyExists))
        }),
{
    assert(seq![Resource::Container(raw.address)].drop_last() =~= Seq::empty());
}

/// A creation under a name that is not defined runs the template, quietly,
/// with the arguments in the order in which they were added and the null
/// sentinel behind them. On success it hands out the container; on failure
/// it gives the handle back.
pub proof fn lemma_create_undefined(
    lxcpath: Seq<char>,
    name: Seq<char>,
    template: TemplateView,
    raw: RawContainer,
    created: Reply,
    last: Reply,
)
    requires
        marshalable(lxcpath),
        marshalable(name),
        marshalable(template.name),
        all_marshalable(template.options),
        bound_container(raw) is Some,
    ensures
        ({
            let container = bound_container(raw)->0;
            let checked = create_step(lxcpath, name, template).resume(Reply::Handle(raw)).resume(
                Reply::Flag(false),
            );
            let ended = checked.resume(created);
            &&& checked == StepView::Call(
                CallView::Create {
                    handle: raw.address,
                    template: c_text(template.name),
                    quiet: true,
                    arguments: argument_array(template.options),
                },
                StageView::Creating { container },
            )
            &&& affirmed(created) ==> ended == StepView::Done(Ok(OutcomeView::Bound(container)))
            &&& !affirmed(created) ==> {
                &&& ended.pending() == Some(CallView::Release(Resource::Container(raw.address)))
                &&& ended.resume(last) == StepView::Done(Err(Error::Unknown))
            }
        }),
{
}

/// A value that was set is read back as it was set: the bytes that
/// `set_config_item` sends for a value, handed back in the buffer of the
/// fill call, decode to that value.
pub proof fn lemma_config_round_trip(
    handle: usize,
    key: Seq<char>,
    value: Seq<char>,
    size: i32,
    code: i32,
    buffer: Vec<u8>,
)
    requires
        marshalable(key),
        marshalable(value),
        0 < size < i32::MAX,
        0 <= code,
        buffer@ == c_text(value),
    ensures
        set_config_item_step(handle, key, value).pending() == Some(
            CallView::SetConfigItem { handle, key: c_text(key), value: c_text(value) },
        ),
        get_config_item_step(handle, key).resume(Reply::Code(size)).resume(
            (Reply::Filled { code, buffer }),
        ) == StepView::Done(Ok(OutcomeView::Text(value))),
{
    lemma_round_trip(value);
}

/// A value of size zero is the empty text: the probe alone decides, and no
/// fill call is made.
pub proof fn lemma_config_empty(handle: usize, key: Seq<char>)
    requires
        marshalable(key),
    ensures
        get_config_item_step(handle, key).resume(Reply::Code(0)) == StepView::Done(
            Ok(OutcomeView::Text(Seq::empty())),
        ),
{
}

/// The destruction of a container gives its handle back, whatever the
/// native side reports, and succeeds exactly when the native side does.
pub proof fn lemma_destroy_gives_back(handle: usize, reply: Reply, last: Reply)
    ensures
        ({
            let start = StepView::Call(
                CallView::Destroy { handle },
                StageView::Destroying { handle },
            );
            let reported = start.resume(reply);
            &&& reported.pending() == Some(CallView::Release(Resource::Container(handle)))
            &&& reported.resume(last) == StepView::Done(
                if affirmed(reply) {
                    Ok(OutcomeView::Unit)
                } else {
                    Err(Error::Unknown)
                },
            )
        }),
{
}

/// The steps of an operation that has failed and is giving back what it
/// holds.
pub open spec fn failing(step: StepView) -> bool {
    match step {
        StepView::Call(_, StageView::Releasing { outcome, .. }) => outcome is Err,
        StepView::Done(ending) => ending is Err,
        _ => false,
    }
}

/// A failure is final: an operation that is giving back what it holds
/// after a failure never ends in success.
pub proof fn lemma_failure_is_final(step: StepView, replies: Seq<Reply>)
    requires
        failing(step),
    ensures
        failing(step.run(replies)),
    decreases replies.len(),
{
    if replies.len() > 0 {
        lemma_failure_is_final(step.resume(replies[0]), replies.drop_first());
    }
}

/// The container that the reply to an acquisition gives, where it gives a
/// handle that can be wrapped.
pub open spec fn wrapped(reply: Reply) -> Option<ContainerView> {
    match reply {
        Reply::Handle(raw) => bound_container(raw),
        _ => None,
    }
}

/// A lookup hands out a container exactly when a handle was acquired that
/// can be wrapped and the native side answered that it is defined; the
/// container is then the one of that handle.
pub proof fn lemma_get_succeeds_exactly(lxcpath: Seq<char>, name: Seq<char>, replies: Seq<Reply>)
    requires
        marshalable(lxcpath),
        marshalable(name),
    ensures
        ({
            let ended = get_step(lxcpath, name).run(replies);
            let defined = replies.len() >= 2 && wrapped(replies[0]) is Some && replies[1]
                == Reply::Flag(true);
            &&& (ended matches StepView::Done(ending) && ending is Ok) <==> defined
            &&& defined ==> ended == StepView::Done(
                Ok(OutcomeView::Bound(wrapped(replies[0])->0)),
            )
        }),
{
    let start = get_step(lxcpath, name);
    if replies.len() >= 1 {
        let first = start.resume(replies[0]);
        let later = replies.drop_first();
        if first is Done || failing(first) {
            lemma_failure_is_final(first, later);
        } else if later.len() >= 1 {
            let second = first.resume(later[0]);
            if failing(second) {
                lemma_failure_is_final(second, later.drop_first());
            } else {
                lemma_done_stays(second, later.drop_first());
            }
        }
    }
}

/// A creation hands out a container exactly when a handle was acquired
/// that can be wrapped, the native side answered that it is not defined,
/// and the creation call then succeeded.
pub proof fn lemma_create_succeeds_exactly(
    lxcpath: Seq<char>,
    name: Seq<char>,
    template: TemplateView,
    replies: Seq<Reply>,
)
    requires
        marshalable(lxcpath),
        marshalable(name),
        marshalable(template.name),
        all_marshalable(template.options),
    ensures
        ({
            let ended = create_step(lxcpath, name, template).run(replies);
            let created = replies.len() >= 3 && wrapped(replies[0]) is Some && replies[1]
                == Reply::Flag(false) && replies[2] == Reply::Flag(true);
            &&& (ended matches StepView::Done(ending) && ending is Ok) <==> created
            &&& created ==> ended == StepView::Done(
                Ok(OutcomeView::Bound(wrapped(replies[0])->0)),
            )
        }),
{
    let start = create_step(lxcpath, name, template);
    if replies.len() >= 1 {
        let first = start.resume(replies[0]);
        let later = replies.drop_first();
        if first is Done || failing(first) {
            lemma_failure_is_final(first, later);
        } else if later.len() >= 1 {
            let second = first.resume(later[0]);
            let last = later.drop_first();
            if failing(second) {
                lemma_failure_is_final(second, last);
            } else if last.len() >= 1 {
                let third = second.resume(last[0]);
                assert(second.run(last) == third.run(last.drop_first()));
                if failing(third) {
                    lemma_failure_is_final(third, last.drop_first());
                } else {
                    lemma_done_stays(third, last.drop_first());
                }
            }
        }
    }
}

/// An existence test answers yes exactly when a handle was acquired and
/// the native side answered that it is defined.
pub proof fn lemma_is_defined_exactly(lxcpath: Seq<char>, name: Seq<char>, replies: Seq<Reply>)
    requires
        marshalable(lxcpath),
        marshalable(name),
        replies.len() >= 3,
    ensures
        is_defined_step(lxcpath, name).run(replies) == StepView::Done(
            Ok(
                OutcomeView::Flag(
                    replies[1] == Reply::Flag(true) && (replies[0] matches Reply::Handle(raw)
                        && raw.address != 0),
                ),
            ),
        ),
{
    let start = is_defined_step(lxcpath, name);
    let first = start.resume(replies[0]);
    let later = replies.drop_first();
    if first is Done {
        lemma_done_stays(first, later);
    } else {
        let second = first.resume(later[0]);
        let last = later.drop_first();
        assert(first.run(later) == second.run(last));
        let third = second.resume(last[0]);
        lemma_done_stays(third, last.drop_first());
    }
}

/// How far a step is from the end of its operation. The first number
/// tells whether a listing is still out, whose reply decides how much
/// there will be to give back; the second is the number of replies after
/// which the operation has ended at the latest.
pub open spec fn distance(step: StepView) -> (nat, nat) {
    match step {
        StepView::Done(_) => (0, 0),
        StepView::Call(_, stage) => match stage {
            StageView::Flag => (0, 1),
            StageView::Void => (0, 1),
            StageView::Answer => (0, 1),
            StageView::Text => (0, 1),
            StageView::Buffer => (0, 2),
            StageView::Index => (0, 1),
            StageView::Probe { .. } => (0, 2),
            StageView::Fill { .. } => (0, 1),
            StageView::ExistsAcquire => (0, 3),
            StageView::ExistsCheck { .. } => (0, 2),
            StageView::GetAcquire => (0, 3),
            StageView::GetCheck { .. } => (0, 2),
            StageView::CreateAcquire { .. } => (0, 4),
            StageView::CreateCheck { .. } => (0, 3),
            StageView::Creating { .. } => (0, 2),
            StageView::Destroying { .. } => (0, 2),
            StageView::Listing => (1, 0),
            StageView::SnapshotListing => (1, 0),
            StageView::Releasing { pending, .. } => (0, 1 + pending.len()),
        },
    }
}

/// Every reply brings an operation closer to its end: no operation waits
/// for ever, whatever the native side replies.
pub proof fn lemma_every_reply_advances(call: CallView, stage: StageView, reply: Reply)
    ensures
        ({
            let before = distance(StepView::Call(call, stage));
            let after = distance(next(stage, reply));
            after.0 < before.0 || (after.0 == before.0 && after.1 < before.1)
        }),
{
}

/// An operation with no listing out has ended once as many replies have
/// come in as its distance says.
pub proof fn lemma_ends_in_time(step: StepView, replies: Seq<Reply>)
    requires
        distance(step).0 == 0,
        replies.len() >= distance(step).1,
    ensures
        step.run(replies) is Done,
    decreases replies.len(),
{
    match step {
        StepView::Call(call, stage) => {
            lemma_every_reply_advances(call, stage, replies[0]);
            lemma_ends_in_time(step.resume(replies[0]), replies.drop_first());
        },
        StepView::Done(_) => {
            lemma_done_stays(step, replies);
        },
    }
}

/// The kinds of outcome.
pub ghost enum Kind {
    Unit,
    Flag,
    Text,
    Index,
    Bound,
    Containers,
    Snapshots,
    Keys,
}

/// The kind of an outcome.
pub open spec fn kind_of(outcome: OutcomeView) -> Kind {
    match outcome {
        OutcomeView::Unit => Kind::Unit,
        OutcomeView::Flag(_) => Kind::Flag,
        OutcomeView::Text(_) => Kind::Text,
        OutcomeView::Index(_) => Kind::Index,
        OutcomeView::Bound(_) => Kind::Bound,
        OutcomeView::Containers(_) => Kind::Containers,
        OutcomeView::Snapshots(_) => Kind::Snapshots,
        OutcomeView::Keys(_) => Kind::Keys,
    }
}

/// The step can only end in failure or with an outcome of the given kind.
pub open spec fn yields(step: StepView, kind: Kind) -> bool {
    match step {
        StepView::Done(Ok(outcome)) => kind_of(outcome) == kind,
        StepView::Done(Err(_)) => true,
        StepView::Call(_, stage) => match stage {
            StageView::Flag => kind == Kind::Unit,
            StageView::Void => kind == Kind::Unit,
            StageView::Answer => kind == Kind::Flag,
            StageView::Text => kind == Kind::Text,
            StageView::Buffer => kind == Kind::Text,
            StageView::Index => kind == Kind::Index,
            StageView::Probe { keys, .. } => kind == if keys {
                Kind::Keys
            } else {
                Kind::Text
            },
            StageView::Fill { keys } => kind == if keys {
                Kind::Keys
            } else {
                Kind::Text
            },
            StageView::ExistsAcquire => kind == Kind::Flag,
            StageView::ExistsCheck { .. } => kind == Kind::Flag,
            StageView::GetAcquire => kind == Kind::Bound,
            StageView::GetCheck { .. } => kind == Kind::Bound,
            StageView::CreateAcquire { .. } => kind == Kind::Bound,
            StageView::CreateCheck { .. } => kind == Kind::Bound,
            StageView::Creating { .. } => kind == Kind::Bound,
            StageView::Destroying { .. } => kind == Kind::Unit,
            StageView::Listing => kind == Kind::Containers,
            StageView::SnapshotListing => kind == Kind::Snapshots,
            StageView::Releasing { outcome, .. } => match outcome {
                Ok(o) => kind_of(o) == kind,
                Err(_) => true,
            },
        },
    }
}

/// The kind of outcome of an operation is settled by its first step: a
/// command ends with a bare success, a lookup with a container, a read
/// with a text, and so on, whatever the native side replies.
pub proof fn lemma_outcome_keeps_its_kind(step: StepView, kind: Kind, replies: Seq<Reply>)
    requires
        yields(step, kind),
    ensures
        yields(step.run(replies), kind),
    decreases replies.len(),
{
    if replies.len() > 0 {
        lemma_outcome_keeps_its_kind(step.resume(replies[0]), kind, replies.drop_first());
    }
}

} // verus!
