//! The container handle and its operations.

use crate::boundary::{Call, CallView, RawContainer, Resource, Token};
use crate::error::Error;
use crate::marshal::{
    all_marshalable, argument_array, c_text, decode_pointer, decoded_pointer, encode,
    marshal_arguments, marshalable, pointer_view,
};
use crate::operation::{Outcome, OutcomeView, Stage, StageView, Step, StepView};
use crate::template::{Template, TemplateView};
use vstd::prelude::*;

verus! {

/// One container, bound to its object on the native side. The value owns
/// one reference on that object, to be given back exactly once.
#[derive(Debug)]
pub struct Container {
    /// The address of the native object.
    pub handle: Token,
    /// Name of the container.
    pub name: String,
}

/// A container as the address of its native object and its name.
pub ghost struct ContainerView {
    pub handle: usize,
    pub name: Seq<char>,
}

impl View for Container {
    type V = ContainerView;

    open spec fn view(&self) -> ContainerView {
        ContainerView { handle: self.handle@, name: self.name@ }
    }
}

/// The container that a raw object becomes, where it is not the null object
/// and its name decodes.
pub open spec fn bound_container(raw: RawContainer) -> Option<ContainerView> {
    if raw.address == 0 {
        None
    } else {
        match decoded_pointer(pointer_view(raw.name)) {
            Some(name) => Some(ContainerView { handle: raw.address, name }),
            None => None,
        }
    }
}

/// The containers that the elements of an enumeration become, where every
/// one of them can be wrapped.
pub open spec fn bound_containers(items: Seq<RawContainer>) -> Option<Seq<ContainerView>> {
    if forall|i: int| 0 <= i < items.len() ==> (#[trigger] bound_container(items[i])) is Some {
        Some(Seq::new(items.len(), |i: int| bound_container(items[i])->0))
    } else {
        None
    }
}

/// The references that the elements of an enumeration stand for, in order;
/// a null element stands for none.
pub open spec fn container_resources(items: Seq<RawContainer>) -> Seq<Resource>
    decreases items.len(),
{
    if items.len() == 0 {
        Seq::empty()
    } else if items.last().address == 0 {
        container_resources(items.drop_last())
    } else {
        container_resources(items.drop_last()).push(Resource::Container(items.last().address))
    }
}

/// The views of a list of containers.
pub open spec fn container_views(containers: Seq<Container>) -> Seq<ContainerView> {
    Seq::new(containers.len(), |i: int| containers[i]@)
}

impl Container {
    /// Wraps a native container object. This takes over the reference that
    /// the object stands for, and fails exactly when the object is the null
    /// object or its name is missing or is not valid text.
    pub(crate) fn from_raw(raw: RawContainer) -> (r: Option<Container>)
        ensures
            r is Some <==> bound_container(raw) is Some,
            r matches Some(c) ==> Some(c@) == bound_container(raw),
    {
        let RawContainer { address, name } = raw;
        if address == 0 {
            return None;
        }
        match decode_pointer(name) {
            Some(name) => Some(Container { handle: Token::own(address), name }),
            None => None,
        }
    }

    /// Wraps every element of an enumeration, in order. This fails exactly
    /// when one of them cannot be wrapped.
    pub(crate) fn from_raw_all(items: Vec<RawContainer>) -> (r: Option<Vec<Container>>)
        ensures
            r is Some <==> bound_containers(items@) is Some,
            r matches Some(v) ==> Some(container_views(v@)) == bound_containers(items@),
    {
        let ghost all = items@;
        let mut rest = items;
        let mut reversed: Vec<Container> = Vec::new();
        while rest.len() > 0
            invariant
                all == items@,
                rest@.len() <= all.len(),
                rest@ == all.subrange(0, rest@.len() as int),
                reversed@.len() == all.len() - rest@.len(),
                forall|j: int|
                    0 <= j < reversed@.len() ==> Some(#[trigger] reversed@[j]@) == bound_container(
                        all[all.len() - 1 - j],
                    ),
            decreases rest@.len(),
        {
            let ghost at = rest@.len() - 1;
            let raw = rest.pop().unwrap();
            proof {
                assert(raw == all[at]);
                assert(rest@ == all.subrange(0, rest@.len() as int));
            }
            match Container::from_raw(raw) {
                Some(c) => {
                    reversed.push(c);
                },
                None => {
                    proof {
                        assert(bound_container(all[at]) is None);
                    }
                    return None;
                },
            }
        }
        let mut ordered: Vec<Container> = Vec::new();
        while reversed.len() > 0
            invariant
                all == items@,
                reversed@.len() + ordered@.len() == all.len(),
                forall|j: int|
                    0 <= j < reversed@.len() ==> Some(#[trigger] reversed@[j]@) == bound_container(
                        all[all.len() - 1 - j],
                    ),
                forall|j: int|
                    0 <= j < ordered@.len() ==> Some(#[trigger] ordered@[j]@) == bound_container(
                        all[j],
                    ),
            decreases reversed@.len(),
        {
            let ghost at = reversed@.len() - 1;
            let c = reversed.pop().unwrap();
            proof {
                assert(Some(c@) == bound_container(all[all.len() - 1 - at]));
            }
            ordered.push(c);
        }
        proof {
            assert forall|i: int| 0 <= i < all.len() implies (#[trigger] bound_container(
                all[i],
            )) == Some(ordered@[i]@) by {}
            assert(container_views(ordered@) =~= bound_containers(all)->0);
        }
        Some(ordered)
    }

    /// Ends the life of the value without destroying the container: the
    /// call that gives its reference back.
    pub fn release(self) -> (call: Call)
        ensures
            call@ == CallView::Release(Resource::Container(self@.handle)),
    {
        Call::Release(Resource::Container(self.handle.value()))
    }
}

/// Asks for the version of the native library in use. The version is the
/// string that the native side returns.
pub fn get_version() -> (step: Step)
    ensures
        step@ == StepView::Call(CallView::Version, StageView::Text),
{
    Step::Call(Call::Version, Stage::Text)
}

/// The optional text as the native side reads it.
pub open spec fn optional_c_text(text: Option<&str>) -> Option<Seq<u8>> {
    match text {
        Some(t) => Some(c_text(t@)),
        None => None,
    }
}

/// How an existence test begins: with the acquisition of the handle. A name
/// or a path that cannot cross the boundary names nothing that exists.
pub open spec fn is_defined_step(lxcpath: Seq<char>, name: Seq<char>) -> StepView {
    if marshalable(lxcpath) && marshalable(name) {
        StepView::Call(
            CallView::Acquire { name: c_text(name), store_path: c_text(lxcpath) },
            StageView::ExistsAcquire,
        )
    } else {
        StepView::Done(Ok(OutcomeView::Flag(false)))
    }
}

/// How an enumeration begins.
pub open spec fn list_step(lxcpath: Seq<char>) -> StepView {
    if marshalable(lxcpath) {
        StepView::Call(CallView::ListDefined { store_path: c_text(lxcpath) }, StageView::Listing)
    } else {
        StepView::Done(Err(Error::Unknown))
    }
}

/// How a lookup begins: with the acquisition of the handle.
pub open spec fn get_step(lxcpath: Seq<char>, name: Seq<char>) -> StepView {
    if marshalable(lxcpath) && marshalable(name) {
        StepView::Call(
            CallView::Acquire { name: c_text(name), store_path: c_text(lxcpath) },
            StageView::GetAcquire,
        )
    } else {
        StepView::Done(Err(Error::Unknown))
    }
}

/// How a creation begins: with the acquisition of the handle, once the
/// template's name and every one of its arguments are marshaled. The
/// arguments go out as they were added, and end with the null sentinel.
pub open spec fn create_step(lxcpath: Seq<char>, name: Seq<char>, template: TemplateView)
    -> StepView {
    if marshalable(lxcpath) && marshalable(name) && marshalable(template.name)
        && all_marshalable(template.options) {
        StepView::Call(
            CallView::Acquire { name: c_text(name), store_path: c_text(lxcpath) },
            StageView::CreateAcquire {
                template: c_text(template.name),
                arguments: argument_array(template.options),
            },
        )
    } else {
        StepView::Done(Err(Error::Unknown))
    }
}

/// How an enumeration of keys begins: with the size probe.
pub open spec fn get_keys_step(handle: usize, prefix: Seq<char>) -> StepView {
    if marshalable(prefix) {
        StepView::Call(
            CallView::GetKeys { handle, prefix: c_text(prefix), buffer: None },
            StageView::Probe { handle, key: c_text(prefix), keys: true },
        )
    } else {
        StepView::Done(Err(Error::Unknown))
    }
}

/// How the reading of a configuration item begins: with the size probe.
pub open spec fn get_config_item_step(handle: usize, key: Seq<char>) -> StepView {
    if marshalable(key) {
        StepView::Call(
            CallView::GetConfigItem { handle, key: c_text(key), buffer: None },
            StageView::Probe { handle, key: c_text(key), keys: false },
        )
    } else {
        StepView::Done(Err(Error::Unknown))
    }
}

/// The one call that sets a configuration item.
pub open spec fn set_config_item_step(handle: usize, key: Seq<char>, value: Seq<char>)
    -> StepView {
    if marshalable(key) && marshalable(value) {
        StepView::Call(
            CallView::SetConfigItem { handle, key: c_text(key), value: c_text(value) },
            StageView::Flag,
        )
    } else {
        StepView::Done(Err(Error::Unknown))
    }
}

impl Container {
    /// Tests whether a container of the given name is defined under the
    /// store path. The handle that the test acquires is given back before
    /// the answer is; where no handle can be had, the answer is no.
    pub fn is_defined(lxcpath: &str, name: &str) -> (step: Step)
        ensures
            step@ == is_defined_step(lxcpath@, name@),
    {
        match (encode(lxcpath), encode(name)) {
            (Some(store_path), Some(name)) => Step::Call(
                Call::Acquire { name, store_path },
                Stage::ExistsAcquire,
            ),
            _ => Step::Done(Ok(Outcome::Flag(false))),
        }
    }

    /// Lists the containers that are defined under the store path.
    pub fn list(lxcpath: &str) -> (step: Step)
        ensures
            step@ == list_step(lxcpath@),
    {
        match encode(lxcpath) {
            Some(store_path) => Step::Call(Call::ListDefined { store_path }, Stage::Listing),
            None => Step::Done(Err(Error::Unknown)),
        }
    }

    /// Gets the container of the given name under the store path. This
    /// fails with `ContainerDoesNotExists` where it is not defined.
    pub fn get(lxcpath: &str, name: &str) -> (step: Step)
        ensures
            step@ == get_step(lxcpath@, name@),
    {
        match (encode(lxcpath), encode(name)) {
            (Some(store_path), Some(name)) => Step::Call(
                Call::Acquire { name, store_path },
                Stage::GetAcquire,
            ),
            _ => Step::Done(Err(Error::Unknown)),
        }
    }

    /// Creates a container of the given name under the store path from a
    /// template, which is used up. This fails with `ContainerAlreadyExists`
    /// where the name is defined already, and then nothing is created.
    pub fn create(lxcpath: &str, name: &str, template: Template) -> (step: Step)
        ensures
            step@ == create_step(lxcpath@, name@, template@),
    {
        let (template_name, options) = template.into_parts();
        match (
            encode(lxcpath),
            encode(name),
            encode(template_name.as_str()),
            marshal_arguments(&options),
        ) {
            (Some(store_path), Some(name), Some(template), Some(arguments)) => Step::Call(
                Call::Acquire { name, store_path },
                Stage::CreateAcquire { template, arguments },
            ),
            _ => Step::Done(Err(Error::Unknown)),
        }
    }

    /// Asks for the name of the configuration file of the container. The
    /// native side hands the name over in a string of its own, which is
    /// given back once it is read.
    pub fn get_config_file_name(&self) -> (step: Step)
        ensures
            step@ == StepView::Call(
                (CallView::ConfigFileName { handle: self@.handle }),
                StageView::Buffer,
            ),
    {
        Step::Call(Call::ConfigFileName { handle: self.handle.value() }, Stage::Buffer)
    }

    /// Enumerates the configuration keys under a prefix: first the size
    /// probe, then the fill call.
    pub fn get_keys(&self, key_prefix: &str) -> (step: Step)
        ensures
            step@ == get_keys_step(self@.handle, key_prefix@),
    {
        match encode(key_prefix) {
            Some(prefix) => {
                let handle: usize = self.handle.value();
                let key = prefix.duplicate();
                Step::Call(
                    Call::GetKeys { handle, prefix, buffer: None },
                    Stage::Probe { handle, key, keys: true },
                )
            },
            None => Step::Done(Err(Error::Unknown)),
        }
    }

    /// Reads the value of a configuration item: first the size probe, then
    /// the fill call.
    pub fn get_config_item(&self, key: &str) -> (step: Step)
        ensures
            step@ == get_config_item_step(self@.handle, key@),
    {
        match encode(key) {
            Some(key) => {
                let handle: usize = self.handle.value();
                let again = key.duplicate();
                Step::Call(
                    Call::GetConfigItem { handle, key, buffer: None },
                    Stage::Probe { handle, key: again, keys: false },
                )
            },
            None => Step::Done(Err(Error::Unknown)),
        }
    }

    /// Sets a configuration item to a value.
    pub fn set_config_item(&self, key: &str, value: &str) -> (step: Step)
        ensures
            step@ == set_config_item_step(self@.handle, key@, value@),
    {
        match (encode(key), encode(value)) {
            (Some(key), Some(value)) => Step::Call(
                Call::SetConfigItem { handle: self.handle.value(), key, value },
                Stage::Flag,
            ),
            _ => Step::Done(Err(Error::Unknown)),
        }
    }

    /// Clears the configuration of the container in memory. The native
    /// side reports nothing, so this always succeeds.
    pub fn clear_config(&self) -> (step: Step)
        ensures
            step@ == StepView::Call(
                (CallView::ClearConfig { handle: self@.handle }),
                StageView::Void,
            ),
    {
        Step::Call(Call::ClearConfig { handle: self.handle.value() }, Stage::Void)
    }

    /// Clears one configuration item.
    pub fn clear_config_item(&self, key: &str) -> (step: Step)
        ensures
            step@ == (if marshalable(key@) {
                StepView::Call(
                    (CallView::ClearConfigItem { handle: self@.handle, key: c_text(key@) }),
                    StageView::Flag,
                )
            } else {
                StepView::Done(Err(Error::Unknown))
            }),
    {
        match encode(key) {
            Some(key) => Step::Call(
                Call::ClearConfigItem { handle: self.handle.value(), key },
                Stage::Flag,
            ),
            None => Step::Done(Err(Error::Unknown)),
        }
    }

    /// Saves the configuration of the container to a file.
    pub fn save_config(&self, file_path: &str) -> (step: Step)
        ensures
            step@ == (if marshalable(file_path@) {
                StepView::Call(
                    (CallView::SaveConfig { handle: self@.handle, path: c_text(file_path@) }),
                    StageView::Flag,
                )
            } else {
                StepView::Done(Err(Error::Unknown))
            }),
    {
        match encode(file_path) {
            Some(path) => Step::Call(
                Call::SaveConfig { handle: self.handle.value(), path },
                Stage::Flag,
            ),
            None => Step::Done(Err(Error::Unknown)),
        }
    }

    /// Says whether the container is to run detached from the terminal.
    pub fn want_daemonize(&self, want_daemonize: bool) -> (step: Step)
        ensures
            step@ == StepView::Call(
                (CallView::WantDaemonize { handle: self@.handle, state: want_daemonize }),
                StageView::Flag,
            ),
    {
        Step::Call(
            Call::WantDaemonize { handle: self.handle.value(), state: want_daemonize },
            Stage::Flag,
        )
    }

    /// Says whether all file descriptors are to be closed on startup.
    pub fn want_close_all_fds(&self, want_close_all_fds: bool) -> (step: Step)
        ensures
            step@ == StepView::Call(
                (CallView::WantCloseAllFds { handle: self@.handle, state: want_close_all_fds }),
                StageView::Flag,
            ),
    {
        Step::Call(
            Call::WantCloseAllFds { handle: self.handle.value(), state: want_close_all_fds },
            Stage::Flag,
        )
    }

    /// Starts the container.
    pub fn start(&self) -> (step: Step)
        ensures
            step@ == StepView::Call((CallView::Start { handle: self@.handle }), StageView::Flag),
    {
        Step::Call(Call::Start { handle: self.handle.value() }, Stage::Flag)
    }

    /// Stops the container.
    pub fn stop(&self) -> (step: Step)
        ensures
            step@ == StepView::Call((CallView::Stop { handle: self@.handle }), StageView::Flag),
    {
        Step::Call(Call::Stop { handle: self.handle.value() }, Stage::Flag)
    }

    /// Asks whether the container is running. This never fails.
    pub fn is_running(&self) -> (step: Step)
        ensures
            step@ == StepView::Call(
                (CallView::IsRunning { handle: self@.handle }),
                StageView::Answer,
            ),
    {
        Step::Call(Call::IsRunning { handle: self.handle.value() }, Stage::Answer)
    }

    /// Asks for the state of the container, an upper-case word.
    pub fn state(&self) -> (step: Step)
        ensures
            step@ == StepView::Call((CallView::State { handle: self@.handle }), StageView::Text),
    {
        Step::Call(Call::State { handle: self.handle.value() }, Stage::Text)
    }

    /// Freezes the running container.
    pub fn freeze(&self) -> (step: Step)
        ensures
            step@ == StepView::Call((CallView::Freeze { handle: self@.handle }), StageView::Flag),
    {
        Step::Call(Call::Freeze { handle: self.handle.value() }, Stage::Flag)
    }

    /// Thaws the frozen container.
    pub fn unfreeze(&self) -> (step: Step)
        ensures
            step@ == StepView::Call(
                (CallView::Unfreeze { handle: self@.handle }),
                StageView::Flag,
            ),
    {
        Step::Call(Call::Unfreeze { handle: self.handle.value() }, Stage::Flag)
    }

    /// Takes a snapshot of the container, with the path of a comment file
    /// or without one. The outcome is the zero-based number of the snapshot.
    pub fn snapshot(&self, comment_file: Option<&str>) -> (step: Step)
        ensures
            step@ == (if comment_file matches Some(path) && !marshalable(path@) {
                StepView::Done(Err(Error::Unknown))
            } else {
                StepView::Call(
                    (CallView::Snapshot {
                        handle: self@.handle,
                        comment: optional_c_text(comment_file),
                    }),
                    StageView::Index,
                )
            }),
    {
        let handle: usize = self.handle.value();
        match comment_file {
            Some(path) => match encode(path) {
                Some(comment) => Step::Call(
                    Call::Snapshot { handle, comment: Some(comment) },
                    Stage::Index,
                ),
                None => Step::Done(Err(Error::Unknown)),
            },
            None => Step::Call(Call::Snapshot { handle, comment: None }, Stage::Index),
        }
    }

    /// Lists the snapshots of the container.
    pub fn snapshot_list(&self) -> (step: Step)
        ensures
            step@ == StepView::Call(
                (CallView::SnapshotList { handle: self@.handle }),
                StageView::SnapshotListing,
            ),
    {
        Step::Call(Call::SnapshotList { handle: self.handle.value() }, Stage::SnapshotListing)
    }

    /// Restores a snapshot as the container of the given name. Where that
    /// is the name of this container, the container is replaced.
    pub fn snapshot_restore(&self, snap_name: &str, container_name: &str) -> (step: Step)
        ensures
            step@ == (if marshalable(snap_name@) && marshalable(container_name@) {
                StepView::Call(
                    (CallView::SnapshotRestore {
                        handle: self@.handle,
                        snapshot: c_text(snap_name@),
                        target: c_text(container_name@),
                    }),
                    StageView::Flag,
                )
            } else {
                StepView::Done(Err(Error::Unknown))
            }),
    {
        match (encode(snap_name), encode(container_name)) {
            (Some(snapshot), Some(target)) => Step::Call(
                Call::SnapshotRestore { handle: self.handle.value(), snapshot, target },
                Stage::Flag,
            ),
            _ => Step::Done(Err(Error::Unknown)),
        }
    }

    /// Destroys one snapshot of the container.
    pub fn snapshot_destroy(&self, snap_name: &str) -> (step: Step)
        ensures
            step@ == (if marshalable(snap_name@) {
                StepView::Call(
                    (CallView::SnapshotDestroy {
                        handle: self@.handle,
                        snapshot: c_text(snap_name@),
                    }),
                    StageView::Flag,
                )
            } else {
                StepView::Done(Err(Error::Unknown))
            }),
    {
        match encode(snap_name) {
            Some(snapshot) => Step::Call(
                Call::SnapshotDestroy { handle: self.handle.value(), snapshot },
                Stage::Flag,
            ),
            None => Step::Done(Err(Error::Unknown)),
        }
    }

    /// Destroys all snapshots of the container.
    pub fn snapshot_destroy_all(&self) -> (step: Step)
        ensures
            step@ == StepView::Call(
                (CallView::SnapshotDestroyAll { handle: self@.handle }),
                StageView::Flag,
            ),
    {
        Step::Call(Call::SnapshotDestroyAll { handle: self.handle.value() }, Stage::Flag)
    }

    /// Dumps a checkpoint of the container into a directory, and stops the
    /// container afterwards if asked to.
    pub fn checkpoint(&self, directory: &str, stop: bool, verbose: bool) -> (step: Step)
        ensures
            step@ == (if marshalable(directory@) {
                StepView::Call(
                    (CallView::Checkpoint {
                        handle: self@.handle,
                        directory: c_text(directory@),
                        stop,
                        verbose,
                    }),
                    StageView::Flag,
                )
            } else {
                StepView::Done(Err(Error::Unknown))
            }),
    {
        match encode(directory) {
            Some(directory) => Step::Call(
                Call::Checkpoint { handle: self.handle.value(), directory, stop, verbose },
                Stage::Flag,
            ),
            None => Step::Done(Err(Error::Unknown)),
        }
    }

    /// Restores the container from a checkpoint in a directory.
    pub fn restore(&self, directory: &str, verbose: bool) -> (step: Step)
        ensures
            step@ == (if marshalable(directory@) {
                StepView::Call(
                    (CallView::Restore {
                        handle: self@.handle,
                        directory: c_text(directory@),
                        verbose,
                    }),
                    StageView::Flag,
                )
            } else {
                StepView::Done(Err(Error::Unknown))
            }),
    {
        match encode(directory) {
            Some(directory) => Step::Call(
                Call::Restore { handle: self.handle.value(), directory, verbose },
                Stage::Flag,
            ),
            None => Step::Done(Err(Error::Unknown)),
        }
    }

    /// Asks the container to shut down. This fails where the container has
    /// not stopped within the given number of seconds.
    pub fn shutdown(&self, timeout: i32) -> (step: Step)
        ensures
            step@ == StepView::Call(
                (CallView::Shutdown { handle: self@.handle, timeout }),
                StageView::Flag,
            ),
    {
        Step::Call(Call::Shutdown { handle: self.handle.value(), timeout }, Stage::Flag)
    }

    /// Destroys the container and all its snapshots. The value is used up:
    /// whatever the native side reports, its reference is given back.
    pub fn destroy_with_snapshots(self) -> (step: Step)
        ensures
            step@ == StepView::Call(
                (CallView::DestroyWithSnapshots { handle: self@.handle }),
                (StageView::Destroying { handle: self@.handle }),
            ),
    {
        let handle: usize = self.handle.value();
        Step::Call(Call::DestroyWithSnapshots { handle }, Stage::Destroying { handle })
    }

    /// Destroys the container. The value is used up: whatever the native
    /// side reports, its reference is given back.
    pub fn destroy(self) -> (step: Step)
        ensures
            step@ == StepView::Call(
                (CallView::Destroy { handle: self@.handle }),
                (StageView::Destroying { handle: self@.handle }),
            ),
    {
        let handle: usize = self.handle.value();
        Step::Call(Call::Destroy { handle }, Stage::Destroying { handle })
    }
}

} // verus!
