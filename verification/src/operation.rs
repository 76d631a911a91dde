//! Operations in flight: from the stage that an operation has reached and
//! the reply that came in, to the call that comes next or to the outcome.

use crate::boundary::{Call, CallView, RawContainer, Reply, Resource};
use crate::container::{
    bound_container, bound_containers, container_resources, container_views, Container,
    ContainerView,
};
use crate::error::{code_result, Error};
use crate::marshal::{
    array_view, buffer_for, decode, decode_pointer, decoded, fill_buffer, pointer_view,
    strip_terminator, stripped, texts, CText,
};
use crate::snapshot::{
    bound_snapshots, snapshot_resources, snapshot_views, Snapshot, SnapshotView,
};
use vstd::prelude::*;

verus! {

/// What an operation hands back when it succeeds.
pub enum Outcome {
    /// Nothing beyond the success itself.
    Unit,
    /// A boolean answer.
    Flag(bool),
    /// A text.
    Text(String),
    /// A zero-based index.
    Index(u32),
    /// A container, bound to its native object.
    Bound(Container),
    /// The containers of an enumeration.
    Containers(Vec<Container>),
    /// The records of a snapshot listing.
    Snapshots(Vec<Snapshot>),
    /// A list of configuration keys.
    Keys(Vec<String>),
}

/// An outcome as plain values.
pub ghost enum OutcomeView {
    Unit,
    Flag(bool),
    Text(Seq<char>),
    Index(u32),
    Bound(ContainerView),
    Containers(Seq<ContainerView>),
    Snapshots(Seq<SnapshotView>),
    Keys(Seq<Seq<char>>),
}

impl View for Outcome {
    type V = OutcomeView;

    open spec fn view(&self) -> OutcomeView {
        match *self {
            Outcome::Unit => OutcomeView::Unit,
            Outcome::Flag(b) => OutcomeView::Flag(b),
            Outcome::Text(text) => OutcomeView::Text(text@),
            Outcome::Index(index) => OutcomeView::Index(index),
            Outcome::Bound(container) => OutcomeView::Bound(container@),
            Outcome::Containers(containers) => OutcomeView::Containers(
                container_views(containers@),
            ),
            Outcome::Snapshots(records) => OutcomeView::Snapshots(snapshot_views(records@)),
            Outcome::Keys(keys) => OutcomeView::Keys(texts(keys@)),
        }
    }
}

/// How an operation ends, as plain values.
pub open spec fn ending_view(ending: Result<Outcome, Error>) -> Result<OutcomeView, Error> {
    match ending {
        Ok(outcome) => Ok(outcome@),
        Err(error) => Err(error),
    }
}

/// How far an operation has come: what it waits for, and what it holds
/// meanwhile.
pub enum Stage {
    /// The success flag of the call ends the operation.
    Flag,
    /// The call reports nothing; its return ends the operation.
    Void,
    /// The boolean answer of the call is the outcome.
    Answer,
    /// The string that the call returns is the outcome.
    Text,
    /// The string that the call hands over is the outcome, once it is given
    /// back.
    Buffer,
    /// The index that the call returns is the outcome.
    Index,
    /// The size probe of a read is out; the fill call follows.
    Probe { handle: usize, key: CText, keys: bool },
    /// The fill call of a read is out.
    Fill { keys: bool },
    /// An existence test waits for the handle.
    ExistsAcquire,
    /// An existence test waits for the answer on the definition.
    ExistsCheck { handle: usize },
    /// A lookup waits for the handle.
    GetAcquire,
    /// A lookup waits for the answer on the definition.
    GetCheck { container: Container },
    /// A creation waits for the handle.
    CreateAcquire { template: CText, arguments: Vec<Option<CText>> },
    /// A creation waits for the answer on the definition.
    CreateCheck { container: Container, template: CText, arguments: Vec<Option<CText>> },
    /// The creation call is out.
    Creating { container: Container },
    /// The destruction call is out; the reference is given back after it.
    Destroying { handle: usize },
    /// An enumeration of containers is out.
    Listing,
    /// A listing of snapshots is out.
    SnapshotListing,
    /// A release is out. The resources still held follow, the last one
    /// first, and then the operation ends as decided.
    Releasing { pending: Vec<Resource>, outcome: Result<Outcome, Error> },
}

/// A stage as plain values.
pub ghost enum StageView {
    Flag,
    Void,
    Answer,
    Text,
    Buffer,
    Index,
    Probe { handle: usize, key: Seq<u8>, keys: bool },
    Fill { keys: bool },
    ExistsAcquire,
    ExistsCheck { handle: usize },
    GetAcquire,
    GetCheck { container: ContainerView },
    CreateAcquire { template: Seq<u8>, arguments: Seq<Option<Seq<u8>>> },
    CreateCheck { container: ContainerView, template: Seq<u8>, arguments: Seq<Option<Seq<u8>>> },
    Creating { container: ContainerView },
    Destroying { handle: usize },
    Listing,
    SnapshotListing,
    Releasing { pending: Seq<Resource>, outcome: Result<OutcomeView, Error> },
}

impl View for Stage {
    type V = StageView;

    open spec fn view(&self) -> StageView {
        match *self {
            Stage::Flag => StageView::Flag,
            Stage::Void => StageView::Void,
            Stage::Answer => StageView::Answer,
            Stage::Text => StageView::Text,
            Stage::Buffer => StageView::Buffer,
            Stage::Index => StageView::Index,
            Stage::Probe { handle, key, keys } => StageView::Probe { handle, key: key@, keys },
            Stage::Fill { keys } => StageView::Fill { keys },
            Stage::ExistsAcquire => StageView::ExistsAcquire,
            Stage::ExistsCheck { handle } => StageView::ExistsCheck { handle },
            Stage::GetAcquire => StageView::GetAcquire,
            Stage::GetCheck { container } => StageView::GetCheck { container: container@ },
            Stage::CreateAcquire { template, arguments } => StageView::CreateAcquire {
                template: template@,
                arguments: array_view(arguments@),
            },
            Stage::CreateCheck { container, template, arguments } => StageView::CreateCheck {
                container: container@,
                template: template@,
                arguments: array_view(arguments@),
            },
            Stage::Creating { container } => StageView::Creating { container: container@ },
            Stage::Destroying { handle } => StageView::Destroying { handle },
            Stage::Listing => StageView::Listing,
            Stage::SnapshotListing => StageView::SnapshotListing,
            Stage::Releasing { pending, outcome } => StageView::Releasing {
                pending: pending@,
                outcome: ending_view(outcome),
            },
        }
    }
}

/// An operation between two calls: either the native side must make a call
/// and hand its reply to the stage, or the operation has ended.
pub enum Step {
    Call(Call, Stage),
    Done(Result<Outcome, Error>),
}

/// A step as plain values.
pub ghost enum StepView {
    Call(CallView, StageView),
    Done(Result<OutcomeView, Error>),
}

impl View for Step {
    type V = StepView;

    open spec fn view(&self) -> StepView {
        match *self {
            Step::Call(call, stage) => StepView::Call(call@, stage@),
            Step::Done(ending) => StepView::Done(ending_view(ending)),
        }
    }
}

/// The reply is the flag that reports success.
pub open spec fn affirmed(reply: Reply) -> bool {
    reply matches Reply::Flag(ok) && ok
}

/// How a command ends on the reply to its one call.
pub open spec fn flag_ending(reply: Reply) -> Result<OutcomeView, Error> {
    if affirmed(reply) {
        Ok(OutcomeView::Unit)
    } else {
        Err(Error::Unknown)
    }
}

/// The text that the bytes of a string are, as an outcome; bytes that are
/// not valid text are a failure.
pub open spec fn text_of(bytes: Seq<u8>) -> Result<OutcomeView, Error> {
    match decoded(bytes) {
        Some(text) => Ok(OutcomeView::Text(text)),
        None => Err(Error::Unknown),
    }
}

/// How the reading of a string ends: with the text, unless the pointer is
/// null or the bytes are not valid text.
pub open spec fn text_ending(reply: Reply) -> Result<OutcomeView, Error> {
    match reply {
        Reply::Text(Some(bytes)) => text_of(bytes@),
        _ => Err(Error::Unknown),
    }
}

/// What follows the reading of a string that is handed over: the null
/// pointer is a failure; else the string is given back, and the reading
/// ends with the text, unless the bytes are not valid text.
pub open spec fn buffer_read(reply: Reply) -> StepView {
    match reply {
        Reply::Buffer { address, bytes } => if address == 0 {
            StepView::Done(Err(Error::Unknown))
        } else {
            unwound(seq![Resource::Buffer(address)], text_of(bytes@))
        },
        _ => StepView::Done(Err(Error::Unknown)),
    }
}

/// How the reading of an index ends: with the index, unless the code is
/// negative.
pub open spec fn index_ending(reply: Reply) -> Result<OutcomeView, Error> {
    match reply {
        Reply::Code(code) => match code_result(code) {
            Ok(index) => Ok(OutcomeView::Index(index)),
            Err(error) => Err(error),
        },
        _ => Err(Error::Unknown),
    }
}

/// What a read hands back for the text that it got: the text itself, or,
/// for an enumeration of keys, the list of keys, which is always empty.
pub open spec fn read_outcome(text: Seq<char>, keys: bool) -> OutcomeView {
    if keys {
        OutcomeView::Keys(Seq::empty())
    } else {
        OutcomeView::Text(text)
    }
}

/// The call of a read, as a size probe or with the buffer to fill.
pub open spec fn read_call(handle: usize, key: Seq<u8>, buffer: Option<Seq<u8>>, keys: bool)
    -> CallView {
    if keys {
        CallView::GetKeys { handle, prefix: key, buffer }
    } else {
        CallView::GetConfigItem { handle, key, buffer }
    }
}

/// What follows the size probe of a read. A negative size is a failure; a
/// size of zero is an empty value, with no further call; any other size
/// asks for the fill call, with a buffer one byte longer.
pub open spec fn after_probe(handle: usize, key: Seq<u8>, keys: bool, reply: Reply) -> StepView {
    match reply {
        Reply::Code(size) => if size < 0 {
            StepView::Done(Err(Error::Unknown))
        } else if size == 0 {
            StepView::Done(Ok(read_outcome(Seq::empty(), keys)))
        } else {
            match fill_buffer(size) {
                Some(buffer) => StepView::Call(
                    read_call(handle, key, Some(buffer), keys),
                    StageView::Fill { keys },
                ),
                None => StepView::Done(Err(Error::Unknown)),
            }
        },
        _ => StepView::Done(Err(Error::Unknown)),
    }
}

/// How a read ends on its fill call: a negative code is a failure; else the
/// buffer, less the byte that the native side appended, is decoded.
pub open spec fn fill_ending(keys: bool, reply: Reply) -> Result<OutcomeView, Error> {
    match reply {
        Reply::Filled { code, buffer } => if code < 0 {
            Err(Error::Unknown)
        } else {
            match decoded(stripped(buffer@)) {
                Some(text) => Ok(read_outcome(text, keys)),
                None => Err(Error::Unknown),
            }
        },
        _ => Err(Error::Unknown),
    }
}

/// Releasing what is still held, the last resource first, and then ending
/// as decided.
pub open spec fn unwound(pending: Seq<Resource>, outcome: Result<OutcomeView, Error>) -> StepView {
    if pending.len() == 0 {
        StepView::Done(outcome)
    } else {
        StepView::Call(
            CallView::Release(pending.last()),
            StageView::Releasing { pending: pending.drop_last(), outcome },
        )
    }
}

/// Giving one container reference back, and then ending as decided.
pub open spec fn released(handle: usize, outcome: Result<OutcomeView, Error>) -> StepView {
    unwound(seq![Resource::Container(handle)], outcome)
}

/// What follows the acquisition in an existence test: no handle means that
/// nothing exists under the name; else the definition is asked for.
pub open spec fn exists_acquired(reply: Reply) -> StepView {
    match reply {
        Reply::Handle(raw) => if raw.address == 0 {
            StepView::Done(Ok(OutcomeView::Flag(false)))
        } else {
            StepView::Call(
                CallView::IsDefined { handle: raw.address },
                StageView::ExistsCheck { handle: raw.address },
            )
        },
        _ => StepView::Done(Ok(OutcomeView::Flag(false))),
    }
}

/// What follows the acquisition in a lookup or a creation: no handle is a
/// failure; a handle that cannot be wrapped is given back, and is a failure
/// too.
pub open spec fn bound_or_failed(reply: Reply) -> Result<ContainerView, StepView> {
    match reply {
        Reply::Handle(raw) => if raw.address == 0 {
            Err(StepView::Done(Err(Error::Unknown)))
        } else {
            match bound_container(raw) {
                Some(container) => Ok(container),
                None => Err(released(raw.address, Err(Error::Unknown))),
            }
        },
        _ => Err(StepView::Done(Err(Error::Unknown))),
    }
}

/// What follows the acquisition in a lookup.
pub open spec fn get_acquired(reply: Reply) -> StepView {
    match bound_or_failed(reply) {
        Ok(container) => StepView::Call(
            CallView::IsDefined { handle: container.handle },
            StageView::GetCheck { container },
        ),
        Err(step) => step,
    }
}

/// What follows the answer on the definition in a lookup: a defined
/// container is the outcome; one that is not defined is given back, and the
/// lookup fails because it does not exist.
pub open spec fn get_checked(container: ContainerView, reply: Reply) -> StepView {
    match reply {
        Reply::Flag(defined) => if defined {
            StepView::Done(Ok(OutcomeView::Bound(container)))
        } else {
            released(container.handle, Err(Error::ContainerDoesNotExists))
        },
        _ => released(container.handle, Err(Error::Unknown)),
    }
}

/// What follows the acquisition in a creation.
pub open spec fn create_acquired(
    template: Seq<u8>,
    arguments: Seq<Option<Seq<u8>>>,
    reply: Reply,
) -> StepView {
    match bound_or_failed(reply) {
        Ok(container) => StepView::Call(
            CallView::IsDefined { handle: container.handle },
            StageView::CreateCheck { container, template, arguments },
        ),
        Err(step) => step,
    }
}

/// What follows the answer on the definition in a creation: a container
/// that is defined already is given back, untouched, and the creation
/// fails because it exists; only one that is not defined is created,
/// quietly.
pub open spec fn create_checked(
    container: ContainerView,
    template: Seq<u8>,
    arguments: Seq<Option<Seq<u8>>>,
    reply: Reply,
) -> StepView {
    match reply {
        Reply::Flag(defined) => if defined {
            released(container.handle, Err(Error::ContainerAlreadyExists))
        } else {
            StepView::Call(
                CallView::Create { handle: container.handle, template, quiet: true, arguments },
                StageView::Creating { container },
            )
        },
        _ => released(container.handle, Err(Error::Unknown)),
    }
}

/// What follows the creation call: the container on success; else it is
/// given back, and the creation fails.
pub open spec fn created(container: ContainerView, reply: Reply) -> StepView {
    if affirmed(reply) {
        StepView::Done(Ok(OutcomeView::Bound(container)))
    } else {
        released(container.handle, Err(Error::Unknown))
    }
}

/// What follows an enumeration of containers. A negative count is a
/// failure, and a count of zero is the empty list, with nothing to give
/// back. Else the elements are wrapped and the array is given back; where
/// an element cannot be wrapped, every reference and the array are given
/// back, and the enumeration fails.
pub open spec fn listed(reply: Reply) -> StepView {
    match reply {
        Reply::Handles { count, array, items } => if count < 0 {
            StepView::Done(Err(Error::Unknown))
        } else if count == 0 {
            StepView::Done(Ok(OutcomeView::Containers(Seq::empty())))
        } else {
            match bound_containers(items@) {
                Some(containers) => unwound(
                    seq![Resource::Array(array)],
                    Ok(OutcomeView::Containers(containers)),
                ),
                None => unwound(
                    seq![Resource::Array(array)] + container_resources(items@),
                    Err(Error::Unknown),
                ),
            }
        },
        _ => StepView::Done(Err(Error::Unknown)),
    }
}

/// What follows a listing of snapshots, in the same way.
pub open spec fn snapshots_listed(reply: Reply) -> StepView {
    match reply {
        Reply::Records { count, array, items } => if count < 0 {
            StepView::Done(Err(Error::Unknown))
        } else if count == 0 {
            StepView::Done(Ok(OutcomeView::Snapshots(Seq::empty())))
        } else {
            match bound_snapshots(items@) {
                Some(records) => unwound(
                    seq![Resource::Array(array)],
                    Ok(OutcomeView::Snapshots(records)),
                ),
                None => unwound(
                    seq![Resource::Array(array)] + snapshot_resources(items@),
                    Err(Error::Unknown),
                ),
            }
        },
        _ => StepView::Done(Err(Error::Unknown)),
    }
}

/// The step that follows when a stage gets the reply to its call.
pub open spec fn next(stage: StageView, reply: Reply) -> StepView {
    match stage {
        StageView::Flag => StepView::Done(flag_ending(reply)),
        StageView::Void => StepView::Done(Ok(OutcomeView::Unit)),
        StageView::Answer => StepView::Done(Ok(OutcomeView::Flag(affirmed(reply)))),
        StageView::Text => StepView::Done(text_ending(reply)),
        StageView::Buffer => buffer_read(reply),
        StageView::Index => StepView::Done(index_ending(reply)),
        StageView::Probe { handle, key, keys } => after_probe(handle, key, keys, reply),
        StageView::Fill { keys } => StepView::Done(fill_ending(keys, reply)),
        StageView::ExistsAcquire => exists_acquired(reply),
        StageView::ExistsCheck { handle } => released(
            handle,
            Ok(OutcomeView::Flag(affirmed(reply))),
        ),
        StageView::GetAcquire => get_acquired(reply),
        StageView::GetCheck { container } => get_checked(container, reply),
        StageView::CreateAcquire { template, arguments } => create_acquired(
            template,
            arguments,
            reply,
        ),
        StageView::CreateCheck { container, template, arguments } => create_checked(
            container,
            template,
            arguments,
            reply,
        ),
        StageView::Creating { container } => created(container, reply),
        StageView::Destroying { handle } => released(handle, flag_ending(reply)),
        StageView::Listing => listed(reply),
        StageView::SnapshotListing => snapshots_listed(reply),
        StageView::Releasing { pending, outcome } => unwound(pending, outcome),
    }
}

impl StepView {
    /// The call that is out, if the operation has not ended.
    pub open spec fn pending(self) -> Option<CallView> {
        match self {
            StepView::Call(call, _) => Some(call),
            StepView::Done(_) => None,
        }
    }

    /// The step after this one, given the reply to its call. An operation
    /// that has ended stays as it is.
    pub open spec fn resume(self, reply: Reply) -> StepView {
        match self {
            StepView::Call(_, stage) => next(stage, reply),
            StepView::Done(_) => self,
        }
    }

    /// The step that is reached when the replies come in, in this order.
    pub open spec fn run(self, replies: Seq<Reply>) -> StepView
        decreases replies.len(),
    {
        if replies.len() == 0 {
            self
        } else {
            self.resume(replies[0]).run(replies.drop_first())
        }
    }

    /// The calls that are made when the replies come in, in this order: the
    /// call that is out already, and the call that each reply leads to.
    pub open spec fn calls(self, replies: Seq<Reply>) -> Seq<CallView>
        decreases replies.len(),
    {
        match self {
            StepView::Done(_) => Seq::empty(),
            StepView::Call(call, _) => if replies.len() == 0 {
                seq![call]
            } else {
                seq![call] + self.resume(replies[0]).calls(replies.drop_first())
            },
        }
    }
}

/// Releases what is still held, the last resource first, and then ends as
/// decided.
fn unwind(pending: Vec<Resource>, outcome: Result<Outcome, Error>) -> (step: Step)
    ensures
        step@ == unwound(pending@, ending_view(outcome)),
{
    let mut pending = pending;
    match pending.pop() {
        Some(resource) => Step::Call(
            Call::Release(resource),
            Stage::Releasing { pending, outcome },
        ),
        None => Step::Done(outcome),
    }
}

/// Gives one container reference back, and then ends as decided.
fn release(handle: usize, outcome: Result<Outcome, Error>) -> (step: Step)
    ensures
        step@ == released(handle, ending_view(outcome)),
{
    let mut pending: Vec<Resource> = Vec::new();
    pending.push(Resource::Container(handle));
    proof {
        assert(pending@ == seq![Resource::Container(handle)]);
    }
    unwind(pending, outcome)
}

/// How a command ends on the reply to its one call.
fn command_result(reply: Reply) -> (ending: Result<Outcome, Error>)
    ensures
        ending_view(ending) == flag_ending(reply),
{
    match reply {
        Reply::Flag(ok) => match Error::from_flag(ok) {
            Ok(()) => Ok(Outcome::Unit),
            Err(error) => Err(error),
        },
        _ => Err(Error::Unknown),
    }
}

/// The outcome of a read for the text that it got.
fn read_result(text: String, keys: bool) -> (outcome: Outcome)
    ensures
        outcome@ == read_outcome(text@, keys),
{
    if keys {
        let list: Vec<String> = Vec::new();
        proof {
            assert(texts(list@) =~= Seq::empty());
        }
        Outcome::Keys(list)
    } else {
        Outcome::Text(text)
    }
}

/// The call of a read.
fn read_request(handle: usize, key: CText, buffer: Option<Vec<u8>>, keys: bool) -> (call: Call)
    ensures
        call@ == read_call(handle, key@, pointer_view(buffer), keys),
{
    if keys {
        Call::GetKeys { handle, prefix: key, buffer }
    } else {
        Call::GetConfigItem { handle, key, buffer }
    }
}

/// The resources of a failed enumeration: the array, to be given back last,
/// and before it every reference.
fn held_containers(array: usize, items: &Vec<RawContainer>) -> (pending: Vec<Resource>)
    ensures
        pending@ == seq![Resource::Array(array)] + container_resources(items@),
{
    let mut pending: Vec<Resource> = Vec::new();
    pending.push(Resource::Array(array));
    let mut i: usize = 0;
    proof {
        assert(items@.subrange(0, 0) =~= Seq::empty());
        assert(pending@ =~= seq![Resource::Array(array)] + container_resources(
            items@.subrange(0, 0),
        ));
    }
    while i < items.len()
        invariant
            i <= items.len(),
            pending@ == seq![Resource::Array(array)] + container_resources(
                items@.subrange(0, i as int),
            ),
        decreases items.len() - i,
    {
        let address: usize = items[i].address;
        proof {
            let longer = items@.subrange(0, i + 1);
            assert(longer.drop_last() =~= items@.subrange(0, i as int));
            assert(longer.last() == items@[i as int]);
        }
        if address != 0 {
            pending.push(Resource::Container(address));
        }
        proof {
            assert(pending@ =~= seq![Resource::Array(array)] + container_resources(
                items@.subrange(0, i + 1),
            ));
        }
        i += 1;
    }
    proof {
        assert(items@.subrange(0, items@.len() as int) =~= items@);
    }
    pending
}

/// The resources of a failed snapshot listing: the array, to be given back
/// last, and before it every payload.
fn held_snapshots(array: usize, items: &Vec<crate::boundary::RawSnapshot>) -> (pending: Vec<
    Resource,
>)
    ensures
        pending@ == seq![Resource::Array(array)] + snapshot_resources(items@),
{
    let mut pending: Vec<Resource> = Vec::new();
    pending.push(Resource::Array(array));
    let mut i: usize = 0;
    while i < items.len()
        invariant
            i <= items.len(),
            pending@ =~= seq![Resource::Array(array)] + snapshot_resources(
                items@.subrange(0, i as int),
            ),
        decreases items.len() - i,
    {
        pending.push(Resource::Snapshot(items[i].token));
        i += 1;
    }
    proof {
        assert(items@.subrange(0, items@.len() as int) =~= items@);
    }
    pending
}

/// Wraps the handle that an acquisition returned.
fn bind(reply: Reply) -> (r: Result<Container, Step>)
    ensures
        r is Ok <==> bound_or_failed(reply) is Ok,
        r matches Ok(container) ==> Ok::<ContainerView, StepView>(container@) == bound_or_failed(
            reply,
        ),
        r matches Err(step) ==> Err::<ContainerView, StepView>(step@) == bound_or_failed(reply),
{
    match reply {
        Reply::Handle(raw) => match Error::from_address(raw.address) {
            Ok(address) => match Container::from_raw(raw) {
                Some(container) => Ok(container),
                None => Err(release(address, Err(Error::Unknown))),
            },
            Err(error) => Err(Step::Done(Err(error))),
        },
        _ => Err(Step::Done(Err(Error::Unknown))),
    }
}

impl Stage {
    /// Takes the reply to the call that is out, and decides what follows.
    pub fn resume(self, reply: Reply) -> (step: Step)
        ensures
            step@ == next(self@, reply),
    {
        match self {
            Stage::Flag => Step::Done(command_result(reply)),
            Stage::Void => Step::Done(Ok(Outcome::Unit)),
            Stage::Answer => match reply {
                Reply::Flag(answer) => Step::Done(Ok(Outcome::Flag(answer))),
                _ => Step::Done(Ok(Outcome::Flag(false))),
            },
            Stage::Text => match reply {
                Reply::Text(bytes) => match decode_pointer(bytes) {
                    Some(text) => Step::Done(Ok(Outcome::Text(text))),
                    None => Step::Done(Err(Error::Unknown)),
                },
                _ => Step::Done(Err(Error::Unknown)),
            },
            Stage::Buffer => match reply {
                Reply::Buffer { address, bytes } => match Error::from_address(address) {
                    Ok(address) => {
                        let mut pending: Vec<Resource> = Vec::new();
                        pending.push(Resource::Buffer(address));
                        proof {
                            assert(pending@ == seq![Resource::Buffer(address)]);
                        }
                        match decode(bytes) {
                            Some(text) => unwind(pending, Ok(Outcome::Text(text))),
                            None => unwind(pending, Err(Error::Unknown)),
                        }
                    },
                    Err(error) => Step::Done(Err(error)),
                },
                _ => Step::Done(Err(Error::Unknown)),
            },
            Stage::Index => match reply {
                Reply::Code(code) => match Error::from_code(code) {
                    Ok(index) => Step::Done(Ok(Outcome::Index(index))),
                    Err(error) => Step::Done(Err(error)),
                },
                _ => Step::Done(Err(Error::Unknown)),
            },
            Stage::Probe { handle, key, keys } => match reply {
                Reply::Code(size) => {
                    if size < 0 {
                        Step::Done(Err(Error::Unknown))
                    } else if size == 0 {
                        Step::Done(Ok(read_result(String::new(), keys)))
                    } else {
                        match buffer_for(size) {
                            Some(buffer) => Step::Call(
                                read_request(handle, key, Some(buffer), keys),
                                Stage::Fill { keys },
                            ),
                            None => Step::Done(Err(Error::Unknown)),
                        }
                    }
                },
                _ => Step::Done(Err(Error::Unknown)),
            },
            Stage::Fill { keys } => match reply {
                Reply::Filled { code, buffer } => {
                    if code < 0 {
                        Step::Done(Err(Error::Unknown))
                    } else {
                        match decode(strip_terminator(buffer)) {
                            Some(text) => Step::Done(Ok(read_result(text, keys))),
                            None => Step::Done(Err(Error::Unknown)),
                        }
                    }
                },
                _ => Step::Done(Err(Error::Unknown)),
            },
            Stage::ExistsAcquire => match reply {
                Reply::Handle(raw) => match Error::from_address(raw.address) {
                    Ok(handle) => Step::Call(
                        Call::IsDefined { handle },
                        Stage::ExistsCheck { handle },
                    ),
                    Err(_) => Step::Done(Ok(Outcome::Flag(false))),
                },
                _ => Step::Done(Ok(Outcome::Flag(false))),
            },
            Stage::ExistsCheck { handle } => match reply {
                Reply::Flag(defined) => release(handle, Ok(Outcome::Flag(defined))),
                _ => release(handle, Ok(Outcome::Flag(false))),
            },
            Stage::GetAcquire => match bind(reply) {
                Ok(container) => {
                    let handle: usize = container.handle.value();
                    Step::Call(Call::IsDefined { handle }, Stage::GetCheck { container })
                },
                Err(step) => step,
            },
            Stage::GetCheck { container } => match reply {
                Reply::Flag(true) => Step::Done(Ok(Outcome::Bound(container))),
                Reply::Flag(false) => release(
                    container.handle.value(),
                    Err(Error::ContainerDoesNotExists),
                ),
                _ => release(container.handle.value(), Err(Error::Unknown)),
            },
            Stage::CreateAcquire { template, arguments } => match bind(reply) {
                Ok(container) => {
                    let handle: usize = container.handle.value();
                    Step::Call(
                        Call::IsDefined { handle },
                        Stage::CreateCheck { container, template, arguments },
                    )
                },
                Err(step) => step,
            },
            Stage::CreateCheck { container, template, arguments } => match reply {
                Reply::Flag(true) => release(
                    container.handle.value(),
                    Err(Error::ContainerAlreadyExists),
                ),
                Reply::Flag(false) => {
                    let handle: usize = container.handle.value();
                    Step::Call(
                        Call::Create { handle, template, quiet: true, arguments },
                        Stage::Creating { container },
                    )
                },
                _ => release(container.handle.value(), Err(Error::Unknown)),
            },
            Stage::Creating { container } => match reply {
                Reply::Flag(true) => Step::Done(Ok(Outcome::Bound(container))),
                _ => release(container.handle.value(), Err(Error::Unknown)),
            },
            Stage::Destroying { handle } => release(handle, command_result(reply)),
            Stage::Listing => match reply {
                Reply::Handles { count, array, items } => {
                    if count < 0 {
                        Step::Done(Err(Error::Unknown))
                    } else if count == 0 {
                        let none: Vec<Container> = Vec::new();
                        proof {
                            assert(container_views(none@) =~= Seq::empty());
                        }
                        Step::Done(Ok(Outcome::Containers(none)))
                    } else {
                        let held = held_containers(array, &items);
                        match Container::from_raw_all(items) {
                            Some(containers) => {
                                let mut pending: Vec<Resource> = Vec::new();
                                pending.push(Resource::Array(array));
                                proof {
                                    assert(pending@ == seq![Resource::Array(array)]);
                                }
                                unwind(pending, Ok(Outcome::Containers(containers)))
                            },
                            None => unwind(held, Err(Error::Unknown)),
                        }
                    }
                },
                _ => Step::Done(Err(Error::Unknown)),
            },
            Stage::SnapshotListing => match reply {
                Reply::Records { count, array, items } => {
                    if count < 0 {
                        Step::Done(Err(Error::Unknown))
                    } else if count == 0 {
                        let none: Vec<Snapshot> = Vec::new();
                        proof {
                            assert(snapshot_views(none@) =~= Seq::empty());
                        }
                        Step::Done(Ok(Outcome::Snapshots(none)))
                    } else {
                        let held = held_snapshots(array, &items);
                        match Snapshot::from_raw_all(items) {
                            Some(records) => {
                                let mut pending: Vec<Resource> = Vec::new();
                                pending.push(Resource::Array(array));
                                proof {
                                    assert(pending@ == seq![Resource::Array(array)]);
                                }
                                unwind(pending, Ok(Outcome::Snapshots(records)))
                            },
                            None => unwind(held, Err(Error::Unknown)),
                        }
                    }
                },
                _ => Step::Done(Err(Error::Unknown)),
            },
            Stage::Releasing { pending, outcome } => unwind(pending, outcome),
        }
    }
}

impl Step {
    /// Takes the reply to the call that is out. An operation that has ended
    /// stays as it is.
    pub fn resume(self, reply: Reply) -> (step: Step)
        ensures
            step@ == self@.resume(reply),
    {
        match self {
            Step::Call(_, stage) => stage.resume(reply),
            Step::Done(ending) => Step::Done(ending),
        }
    }

    /// Whether the operation has ended.
    pub fn is_done(&self) -> (done: bool)
        ensures
            done == (self@ is Done),
    {
        match self {
            Step::Call(_, _) => false,
            Step::Done(_) => true,
        }
    }

    /// How the operation ended, if it has.
    pub fn finish(self) -> (ending: Option<Result<Outcome, Error>>)
        ensures
            match ending {
                Some(e) => self@ == StepView::Done(ending_view(e)),
                None => self@ is Call,
            },
    {
        match self {
            Step::Call(_, _) => None,
            Step::Done(ending) => Some(ending),
        }
    }
}

} // verus!
