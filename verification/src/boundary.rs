//! The vocabulary of the boundary: the calls that the native side can be
//! asked to make, and the raw replies that it gives.

use crate::marshal::{array_view, pointer_view, CText};
use vstd::prelude::*;

verus! {

/// Something of the native side that must be given back exactly once.
#[derive(Debug, Clone, Copy, PartialEq, Eq, Structural)]
pub enum Resource {
    /// One reference on a native container object, by the object's address.
    Container(usize),
    /// The payload of one snapshot record, by the record's token.
    Snapshot(usize),
    /// The array that a listing call allocated, by its address.
    Array(usize),
    /// A string that the native side allocated and handed over, by its
    /// address.
    Buffer(usize),
}

/// An address or a token of the native side that its holder owns. It cannot
/// be copied, and only this crate makes one.
#[derive(Debug)]
pub struct Token {
    value: usize,
}

impl View for Token {
    type V = usize;

    closed spec fn view(&self) -> usize {
        self.value
    }
}

impl Token {
    /// Takes ownership of what the value stands for.
    pub(crate) fn own(value: usize) -> (token: Token)
        ensures
            token@ == value,
    {
        Token { value }
    }

    /// The address or token itself.
    pub fn value(&self) -> (value: usize)
        ensures
            value == self@,
    {
        self.value
    }
}

/// One call across the boundary, with its arguments marshaled. A `handle` is
/// the address of the native container object that receives the call.
pub enum Call {
    /// Ask for the version of the native library.
    Version,
    /// Acquire the handle for a name under a store path.
    Acquire { name: CText, store_path: CText },
    /// Enumerate the containers that are defined under a store path.
    ListDefined { store_path: CText },
    /// Give a resource back.
    Release(Resource),
    /// Ask whether the container has a definition.
    IsDefined { handle: usize },
    /// Create the container from a template, with no backing store given.
    /// The arguments end with the null sentinel.
    Create { handle: usize, template: CText, quiet: bool, arguments: Vec<Option<CText>> },
    /// Ask for the name of the configuration file, in a string that is
    /// handed over.
    ConfigFileName { handle: usize },
    /// Enumerate the configuration keys under a prefix. Without a buffer the
    /// call only reports the size of the enumeration.
    GetKeys { handle: usize, prefix: CText, buffer: Option<Vec<u8>> },
    /// Read a configuration item. Without a buffer the call only reports
    /// the size of the value.
    GetConfigItem { handle: usize, key: CText, buffer: Option<Vec<u8>> },
    /// Set a configuration item.
    SetConfigItem { handle: usize, key: CText, value: CText },
    /// Clear the configuration in memory.
    ClearConfig { handle: usize },
    /// Clear one configuration item.
    ClearConfigItem { handle: usize, key: CText },
    /// Write the configuration to a file.
    SaveConfig { handle: usize, path: CText },
    /// Say whether the container is to run detached from the terminal.
    WantDaemonize { handle: usize, state: bool },
    /// Say whether all file descriptors are to be closed on startup.
    WantCloseAllFds { handle: usize, state: bool },
    /// Start the container with its default init and no arguments.
    Start { handle: usize },
    /// Stop the container.
    Stop { handle: usize },
    /// Ask whether the container is running.
    IsRunning { handle: usize },
    /// Ask for the state of the container.
    State { handle: usize },
    /// Freeze the container.
    Freeze { handle: usize },
    /// Thaw the container.
    Unfreeze { handle: usize },
    /// Take a snapshot; the comment file may be absent.
    Snapshot { handle: usize, comment: Option<CText> },
    /// List the snapshots of the container.
    SnapshotList { handle: usize },
    /// Restore a snapshot as the container of the target name.
    SnapshotRestore { handle: usize, snapshot: CText, target: CText },
    /// Destroy one snapshot.
    SnapshotDestroy { handle: usize, snapshot: CText },
    /// Destroy all snapshots of the container.
    SnapshotDestroyAll { handle: usize },
    /// Dump a checkpoint of the container into a directory.
    Checkpoint { handle: usize, directory: CText, stop: bool, verbose: bool },
    /// Restore the container from a checkpoint in a directory.
    Restore { handle: usize, directory: CText, verbose: bool },
    /// Ask the container to shut down within a number of seconds.
    Shutdown { handle: usize, timeout: i32 },
    /// Destroy the container and all its snapshots.
    DestroyWithSnapshots { handle: usize },
    /// Destroy the container.
    Destroy { handle: usize },
}

/// A call as the bytes and plain values that cross the boundary.
pub ghost enum CallView {
    Version,
    Acquire { name: Seq<u8>, store_path: Seq<u8> },
    ListDefined { store_path: Seq<u8> },
    Release(Resource),
    IsDefined { handle: usize },
    Create { handle: usize, template: Seq<u8>, quiet: bool, arguments: Seq<Option<Seq<u8>>> },
    ConfigFileName { handle: usize },
    GetKeys { handle: usize, prefix: Seq<u8>, buffer: Option<Seq<u8>> },
    GetConfigItem { handle: usize, key: Seq<u8>, buffer: Option<Seq<u8>> },
    SetConfigItem { handle: usize, key: Seq<u8>, value: Seq<u8> },
    ClearConfig { handle: usize },
    ClearConfigItem { handle: usize, key: Seq<u8> },
    SaveConfig { handle: usize, path: Seq<u8> },
    WantDaemonize { handle: usize, state: bool },
    WantCloseAllFds { handle: usize, state: bool },
    Start { handle: usize },
    Stop { handle: usize },
    IsRunning { handle: usize },
    State { handle: usize },
    Freeze { handle: usize },
    Unfreeze { handle: usize },
    Snapshot { handle: usize, comment: Option<Seq<u8>> },
    SnapshotList { handle: usize },
    SnapshotRestore { handle: usize, snapshot: Seq<u8>, target: Seq<u8> },
    SnapshotDestroy { handle: usize, snapshot: Seq<u8> },
    SnapshotDestroyAll { handle: usize },
    Checkpoint { handle: usize, directory: Seq<u8>, stop: bool, verbose: bool },
    Restore { handle: usize, directory: Seq<u8>, verbose: bool },
    Shutdown { handle: usize, timeout: i32 },
    DestroyWithSnapshots { handle: usize },
    Destroy { handle: usize },
}

/// The bytes of an optional marshaled string.
pub open spec fn optional_view(text: Option<CText>) -> Option<Seq<u8>> {
    match text {
        Some(c) => Some(c@),
        None => None,
    }
}

impl View for Call {
    type V = CallView;

    open spec fn view(&self) -> CallView {
        match *self {
            Call::Version => CallView::Version,
            Call::Acquire { name, store_path } => CallView::Acquire {
                name: name@,
                store_path: store_path@,
            },
            Call::ListDefined { store_path } => CallView::ListDefined { store_path: store_path@ },
            Call::Release(resource) => CallView::Release(resource),
            Call::IsDefined { handle } => CallView::IsDefined { handle },
            Call::Create { handle, template, quiet, arguments } => CallView::Create {
                handle,
                template: template@,
                quiet,
                arguments: array_view(arguments@),
            },
            Call::ConfigFileName { handle } => CallView::ConfigFileName { handle },
            Call::GetKeys { handle, prefix, buffer } => CallView::GetKeys {
                handle,
                prefix: prefix@,
                buffer: pointer_view(buffer),
            },
            Call::GetConfigItem { handle, key, buffer } => CallView::GetConfigItem {
                handle,
                key: key@,
                buffer: pointer_view(buffer),
            },
            Call::SetConfigItem { handle, key, value } => CallView::SetConfigItem {
                handle,
                key: key@,
                value: value@,
            },
            Call::ClearConfig { handle } => CallView::ClearConfig { handle },
            Call::ClearConfigItem { handle, key } => CallView::ClearConfigItem {
                handle,
                key: key@,
            },
            Call::SaveConfig { handle, path } => CallView::SaveConfig { handle, path: path@ },
            Call::WantDaemonize { handle, state } => CallView::WantDaemonize { handle, state },
            Call::WantCloseAllFds { handle, state } => CallView::WantCloseAllFds { handle, state },
            Call::Start { handle } => CallView::Start { handle },
            Call::Stop { handle } => CallView::Stop { handle },
            Call::IsRunning { handle } => CallView::IsRunning { handle },
            Call::State { handle } => CallView::State { handle },
            Call::Freeze { handle } => CallView::Freeze { handle },
            Call::Unfreeze { handle } => CallView::Unfreeze { handle },
            Call::Snapshot { handle, comment } => CallView::Snapshot {
                handle,
                comment: optional_view(comment),
            },
            Call::SnapshotList { handle } => CallView::SnapshotList { handle },
            Call::SnapshotRestore { handle, snapshot, target } => CallView::SnapshotRestore {
                handle,
                snapshot: snapshot@,
                target: target@,
            },
            Call::SnapshotDestroy { handle, snapshot } => CallView::SnapshotDestroy {
                handle,
                snapshot: snapshot@,
            },
            Call::SnapshotDestroyAll { handle } => CallView::SnapshotDestroyAll { handle },
            Call::Checkpoint { handle, directory, stop, verbose } => CallView::Checkpoint {
                handle,
                directory: directory@,
                stop,
                verbose,
            },
            Call::Restore { handle, directory, verbose } => CallView::Restore {
                handle,
                directory: directory@,
                verbose,
            },
            Call::Shutdown { handle, timeout } => CallView::Shutdown { handle, timeout },
            Call::DestroyWithSnapshots { handle } => CallView::DestroyWithSnapshots { handle },
            Call::Destroy { handle } => CallView::Destroy { handle },
        }
    }
}

/// What the native side holds of one container object: its address, zero
/// for the null pointer, and the bytes of its name, absent where the name
/// pointer is null.
pub struct RawContainer {
    pub address: usize,
    pub name: Option<Vec<u8>>,
}

/// What the native side holds of one snapshot record: a token by which its
/// payload is released, and the bytes of its name and of its timestamp.
pub struct RawSnapshot {
    pub token: usize,
    pub name: Option<Vec<u8>>,
    pub timestamp: Option<Vec<u8>>,
}

/// A raw reply of the native side, as plain values.
#[allow(inconsistent_fields)]
pub enum Reply {
    /// The call returns nothing.
    Nothing,
    /// A success flag or a boolean answer.
    Flag(bool),
    /// A count, size or index; negative on failure.
    Code(i32),
    /// A string that the native side keeps: a copy of its bytes up to the
    /// terminator, or nothing for the null pointer.
    Text(Option<Vec<u8>>),
    /// A string that the native side hands over: its address, zero for the
    /// null pointer, and a copy of its bytes up to the terminator. The
    /// string itself is still to be given back.
    Buffer { address: usize, bytes: Vec<u8> },
    /// The return code of a fill call, and the buffer as the call left it.
    Filled { code: i32, buffer: Vec<u8> },
    /// A container object, or the null address.
    Handle(RawContainer),
    /// The count that an enumeration of containers reported, the address of
    /// the array that it allocated, and the array's elements.
    Handles { count: i32, array: usize, items: Vec<RawContainer> },
    /// The count that a listing of snapshots reported, the address of the
    /// array that it allocated, and the array's elements.
    Records { count: i32, array: usize, items: Vec<RawSnapshot> },
}

} // verus!
