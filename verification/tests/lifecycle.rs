//! The operations of the library, driven against a small native side that
//! lives in memory.

use lxc::{
    get_version, CText, Call, Container, Error, Outcome, RawContainer, RawSnapshot, Reply,
    Resource, Snapshot, Step, Template,
};
use std::collections::BTreeMap;

const LXC_PATH: &'static str = "/var/lib/lxc";

struct Definition {
    state: &'static str,
    config: BTreeMap<String, String>,
    snapshots: Vec<(String, String)>,
    arguments: Vec<String>,
    template: String,
}

struct Object {
    path: String,
    name: String,
    references: u32,
}

/// A native side in memory. It panics where a real one would corrupt
/// memory: on a release of what is not held.
struct Native {
    defined: BTreeMap<(String, String), Definition>,
    objects: Vec<Object>,
    payloads: Vec<bool>,
    arrays: Vec<bool>,
    strings: Vec<bool>,
    log: Vec<&'static str>,
    refuse: Option<&'static str>,
    version: Option<Vec<u8>>,
}

fn text(c: &CText) -> String {
    let bytes = c.as_bytes();
    assert_eq!(bytes[bytes.len() - 1], 0);
    assert!(!bytes[..bytes.len() - 1].contains(&0));
    String::from_utf8(bytes[..bytes.len() - 1].to_vec()).unwrap()
}

impl Native {
    fn new() -> Native {
        Native {
            defined: BTreeMap::new(),
            objects: Vec::new(),
            payloads: Vec::new(),
            arrays: Vec::new(),
            strings: Vec::new(),
            log: Vec::new(),
            refuse: None,
            version: Some(b"2.0.7".to_vec()),
        }
    }

    fn acquire(&mut self, path: &str, name: &str) -> RawContainer {
        self.objects.push(Object { path: path.to_string(), name: name.to_string(), references: 1 });
        RawContainer { address: self.objects.len() * 16, name: Some(name.as_bytes().to_vec()) }
    }

    fn key(&self, handle: usize) -> (String, String) {
        assert!(handle != 0 && handle % 16 == 0, "a call on no object");
        let object = &self.objects[handle / 16 - 1];
        assert!(object.references > 0, "a call on a released object");
        (object.path.clone(), object.name.clone())
    }

    fn definition(&mut self, handle: usize) -> Option<&mut Definition> {
        let key = self.key(handle);
        self.defined.get_mut(&key)
    }

    fn array(&mut self) -> usize {
        self.arrays.push(true);
        self.arrays.len() * 16 + 8
    }

    fn live_objects(&self) -> usize {
        self.objects.iter().filter(|o| o.references > 0).count()
    }

    fn live_payloads(&self) -> usize {
        self.payloads.iter().filter(|p| **p).count()
    }

    fn live_arrays(&self) -> usize {
        self.arrays.iter().filter(|a| **a).count()
    }

    fn live_strings(&self) -> usize {
        self.strings.iter().filter(|s| **s).count()
    }

    fn count(&self, kind: &str) -> usize {
        self.log.iter().filter(|k| **k == kind).count()
    }

    fn flag(&mut self, kind: &'static str, handle: usize, ok: bool) -> Reply {
        self.key(handle);
        self.log.push(kind);
        Reply::Flag(ok && self.refuse != Some(kind))
    }

    fn read(&mut self, value: Option<String>, buffer: Option<Vec<u8>>) -> Reply {
        match (value, buffer) {
            (None, None) => Reply::Code(-1),
            (None, Some(buffer)) => Reply::Filled { code: -1, buffer },
            (Some(value), None) => Reply::Code(value.len() as i32),
            (Some(value), Some(mut buffer)) => {
                assert_eq!(buffer.len(), value.len() + 1, "the buffer holds the terminator too");
                assert!(buffer.iter().all(|b| *b == 0));
                buffer[..value.len()].copy_from_slice(value.as_bytes());
                Reply::Filled { code: value.len() as i32, buffer }
            }
        }
    }

    fn perform(&mut self, call: Call) -> Reply {
        match call {
            Call::Version => {
                self.log.push("version");
                Reply::Text(self.version.clone())
            }
            Call::Acquire { name, store_path } => {
                self.log.push("acquire");
                if self.refuse == Some("acquire") {
                    return Reply::Handle(RawContainer { address: 0, name: None });
                }
                let raw = self.acquire(&text(&store_path), &text(&name));
                Reply::Handle(raw)
            }
            Call::ListDefined { store_path } => {
                self.log.push("list");
                if self.refuse == Some("list") {
                    return Reply::Handles { count: -1, array: 0, items: Vec::new() };
                }
                let path = text(&store_path);
                let names: Vec<String> = self
                    .defined
                    .keys()
                    .filter(|(p, _)| *p == path)
                    .map(|(_, n)| n.clone())
                    .collect();
                if names.is_empty() {
                    return Reply::Handles { count: 0, array: 0, items: Vec::new() };
                }
                let mut items = Vec::new();
                for name in &names {
                    let mut raw = self.acquire(&path, name);
                    if self.refuse == Some("names") && items.len() == 1 {
                        raw.name = Some(vec![0xff, 0xfe]);
                    }
                    items.push(raw);
                }
                Reply::Handles { count: names.len() as i32, array: self.array(), items }
            }
            Call::Release(Resource::Container(address)) => {
                self.log.push("put");
                assert!(address != 0 && address % 16 == 0, "a release of no object");
                let object = &mut self.objects[address / 16 - 1];
                assert!(object.references > 0, "an object released twice");
                object.references -= 1;
                Reply::Nothing
            }
            Call::Release(Resource::Snapshot(token)) => {
                self.log.push("free payload");
                assert!(self.payloads[token - 1], "a payload released twice");
                self.payloads[token - 1] = false;
                Reply::Nothing
            }
            Call::Release(Resource::Array(address)) => {
                self.log.push("free array");
                assert!(address % 16 == 8, "a release of no array");
                assert!(self.arrays[address / 16 - 1], "an array released twice");
                self.arrays[address / 16 - 1] = false;
                Reply::Nothing
            }
            Call::Release(Resource::Buffer(address)) => {
                self.log.push("free string");
                assert!(address % 16 == 4, "a release of no string");
                assert!(self.strings[address / 16 - 1], "a string released twice");
                self.strings[address / 16 - 1] = false;
                Reply::Nothing
            }
            Call::IsDefined { handle } => {
                self.log.push("is_defined");
                let key = self.key(handle);
                Reply::Flag(self.defined.contains_key(&key))
            }
            Call::Create { handle, template, quiet, arguments } => {
                self.log.push("create");
                let key = self.key(handle);
                assert!(quiet);
                assert!(!self.defined.contains_key(&key), "a creation over a definition");
                assert!(arguments.last().unwrap().is_none(), "the array ends with the sentinel");
                let given: Vec<String> = arguments[..arguments.len() - 1]
                    .iter()
                    .map(|a| text(a.as_ref().unwrap()))
                    .collect();
                if self.refuse == Some("create") {
                    return Reply::Flag(false);
                }
                let mut config = BTreeMap::new();
                config.insert("lxc.utsname".to_string(), key.1.clone());
                self.defined.insert(
                    key,
                    Definition {
                        state: "STOPPED",
                        config,
                        snapshots: Vec::new(),
                        arguments: given,
                        template: text(&template),
                    },
                );
                Reply::Flag(true)
            }
            Call::ConfigFileName { handle } => {
                self.log.push("config_file_name");
                let (path, name) = self.key(handle);
                if self.refuse == Some("config_file_name") {
                    return Reply::Buffer { address: 0, bytes: Vec::new() };
                }
                self.strings.push(true);
                let bytes = if self.refuse == Some("file names") {
                    vec![b'/', 0xff]
                } else {
                    format!("{}/{}/config", path, name).into_bytes()
                };
                Reply::Buffer { address: self.strings.len() * 16 + 4, bytes }
            }
            Call::GetKeys { handle, prefix, buffer } => {
                self.log.push("get_keys");
                let prefix = text(&prefix);
                let keys = self.definition(handle).map(|d| {
                    let found: Vec<String> =
                        d.config.keys().filter(|k| k.starts_with(&prefix)).cloned().collect();
                    found.join("\n")
                });
                self.read(keys, buffer)
            }
            Call::GetConfigItem { handle, key, buffer } => {
                self.log.push("get_config_item");
                let key = text(&key);
                let value = self.definition(handle).and_then(|d| d.config.get(&key).cloned());
                if self.refuse == Some("fill") && buffer.is_some() {
                    return self.read(None, buffer);
                }
                self.read(value, buffer)
            }
            Call::SetConfigItem { handle, key, value } => {
                let (key, value) = (text(&key), text(&value));
                let ok = match self.definition(handle) {
                    Some(d) => {
                        d.config.insert(key, value);
                        true
                    }
                    None => false,
                };
                self.flag("set_config_item", handle, ok)
            }
            Call::ClearConfig { handle } => {
                if let Some(d) = self.definition(handle) {
                    d.config.clear();
                }
                Reply::Nothing
            }
            Call::ClearConfigItem { handle, key } => {
                let key = text(&key);
                let ok = match self.definition(handle) {
                    Some(d) => d.config.remove(&key).is_some(),
                    None => false,
                };
                self.flag("clear_config_item", handle, ok)
            }
            Call::SaveConfig { handle, path } => {
                let ok = text(&path).starts_with('/');
                self.flag("save_config", handle, ok)
            }
            Call::WantDaemonize { handle, state: _ } => self.flag("want_daemonize", handle, true),
            Call::WantCloseAllFds { handle, state: _ } => {
                self.flag("want_close_all_fds", handle, true)
            }
            Call::Start { handle } => {
                let ok = match self.definition(handle) {
                    Some(d) if d.state == "STOPPED" => {
                        d.state = "RUNNING";
                        true
                    }
                    _ => false,
                };
                self.flag("start", handle, ok)
            }
            Call::Stop { handle } => {
                let ok = match self.definition(handle) {
                    Some(d) if d.state == "RUNNING" => {
                        d.state = "STOPPED";
                        true
                    }
                    _ => false,
                };
                self.flag("stop", handle, ok)
            }
            Call::IsRunning { handle } => {
                let running = match self.definition(handle) {
                    Some(d) => d.state != "STOPPED",
                    None => false,
                };
                Reply::Flag(running)
            }
            Call::State { handle } => {
                let state = match self.definition(handle) {
                    Some(d) => d.state,
                    None => "STOPPED",
                };
                Reply::Text(Some(state.as_bytes().to_vec()))
            }
            Call::Freeze { handle } => {
                let ok = match self.definition(handle) {
                    Some(d) if d.state == "RUNNING" => {
                        d.state = "FROZEN";
                        true
                    }
                    _ => false,
                };
                self.flag("freeze", handle, ok)
            }
            Call::Unfreeze { handle } => {
                let ok = match self.definition(handle) {
                    Some(d) if d.state == "FROZEN" => {
                        d.state = "RUNNING";
                        true
                    }
                    _ => false,
                };
                self.flag("unfreeze", handle, ok)
            }
            Call::Snapshot { handle, comment } => {
                self.log.push("snapshot");
                if let Some(comment) = &comment {
                    assert!(text(comment).starts_with('/'));
                }
                match self.definition(handle) {
                    Some(d) if d.state == "STOPPED" => {
                        let index = d.snapshots.len();
                        d.snapshots.push((format!("snap{}", index), "2017:08:26 11:30:02".into()));
                        Reply::Code(index as i32)
                    }
                    _ => Reply::Code(-1),
                }
            }
            Call::SnapshotList { handle } => {
                self.log.push("snapshot_list");
                let listed = match self.definition(handle) {
                    Some(d) => d.snapshots.clone(),
                    None => return Reply::Records { count: -1, array: 0, items: Vec::new() },
                };
                if listed.is_empty() {
                    return Reply::Records { count: 0, array: 0, items: Vec::new() };
                }
                let mut items = Vec::new();
                for (name, timestamp) in &listed {
                    self.payloads.push(true);
                    let broken = self.refuse == Some("timestamps") && items.len() == 1;
                    items.push(RawSnapshot {
                        token: self.payloads.len(),
                        name: Some(name.as_bytes().to_vec()),
                        timestamp: if broken { None } else { Some(timestamp.as_bytes().to_vec()) },
                    });
                }
                Reply::Records { count: listed.len() as i32, array: self.array(), items }
            }
            Call::SnapshotRestore { handle, snapshot, target } => {
                let (path, _) = self.key(handle);
                let (snapshot, target) = (text(&snapshot), text(&target));
                let kept = match self.definition(handle) {
                    Some(d) if d.snapshots.iter().any(|(n, _)| *n == snapshot) => Some((
                        d.config.clone(),
                        d.snapshots.clone(),
                        d.arguments.clone(),
                        d.template.clone(),
                    )),
                    _ => None,
                };
                let ok = match kept {
                    Some((config, snapshots, arguments, template)) => {
                        self.defined.insert(
                            (path, target),
                            Definition { state: "STOPPED", config, snapshots, arguments, template },
                        );
                        true
                    }
                    None => false,
                };
                self.flag("snapshot_restore", handle, ok)
            }
            Call::SnapshotDestroy { handle, snapshot } => {
                let snapshot = text(&snapshot);
                let ok = match self.definition(handle) {
                    Some(d) => {
                        let before = d.snapshots.len();
                        d.snapshots.retain(|(n, _)| *n != snapshot);
                        d.snapshots.len() < before
                    }
                    None => false,
                };
                self.flag("snapshot_destroy", handle, ok)
            }
            Call::SnapshotDestroyAll { handle } => {
                let ok = match self.definition(handle) {
                    Some(d) => {
                        d.snapshots.clear();
                        true
                    }
                    None => false,
                };
                self.flag("snapshot_destroy_all", handle, ok)
            }
            Call::Checkpoint { handle, directory, stop, verbose: _ } => {
                let ok = text(&directory).starts_with('/');
                let ok = match self.definition(handle) {
                    Some(d) if ok && d.state == "RUNNING" => {
                        if stop {
                            d.state = "STOPPED";
                        }
                        true
                    }
                    _ => false,
                };
                self.flag("checkpoint", handle, ok)
            }
            Call::Restore { handle, directory, verbose: _ } => {
                let ok = text(&directory).starts_with('/');
                let ok = match self.definition(handle) {
                    Some(d) if ok && d.state == "STOPPED" => {
                        d.state = "RUNNING";
                        true
                    }
                    _ => false,
                };
                self.flag("restore", handle, ok)
            }
            Call::Shutdown { handle, timeout } => {
                let ok = match self.definition(handle) {
                    Some(d) if d.state == "RUNNING" && timeout != 0 => {
                        d.state = "STOPPED";
                        true
                    }
                    _ => false,
                };
                self.flag("shutdown", handle, ok)
            }
            Call::DestroyWithSnapshots { handle } => {
                let key = self.key(handle);
                let ok = self.defined.remove(&key).is_some();
                self.flag("destroy_with_snapshots", handle, ok)
            }
            Call::Destroy { handle } => {
                let key = self.key(handle);
                let ok = match self.defined.get(&key) {
                    Some(d) => d.state == "STOPPED",
                    None => false,
                };
                if ok && self.refuse != Some("destroy") {
                    self.defined.remove(&key);
                }
                self.flag("destroy", handle, ok)
            }
        }
    }

    /// Runs an operation to its end.
    fn run(&mut self, step: Step) -> Result<Outcome, Error> {
        let mut step = step;
        loop {
            match step {
                Step::Done(ending) => return ending,
                Step::Call(call, stage) => {
                    let reply = self.perform(call);
                    step = stage.resume(reply);
                }
            }
        }
    }

    fn unit(&mut self, step: Step) -> Result<(), Error> {
        match self.run(step) {
            Ok(Outcome::Unit) => Ok(()),
            Ok(_) => panic!("another outcome than a bare success"),
            Err(error) => Err(error),
        }
    }

    fn flag_of(&mut self, step: Step) -> bool {
        match self.run(step) {
            Ok(Outcome::Flag(answer)) => answer,
            _ => panic!("another outcome than an answer"),
        }
    }

    fn text_of(&mut self, step: Step) -> Result<String, Error> {
        match self.run(step) {
            Ok(Outcome::Text(text)) => Ok(text),
            Ok(_) => panic!("another outcome than a text"),
            Err(error) => Err(error),
        }
    }

    fn container(&mut self, step: Step) -> Result<Container, Error> {
        match self.run(step) {
            Ok(Outcome::Bound(container)) => Ok(container),
            Ok(_) => panic!("another outcome than a container"),
            Err(error) => Err(error),
        }
    }

    fn containers(&mut self, step: Step) -> Result<Vec<Container>, Error> {
        match self.run(step) {
            Ok(Outcome::Containers(containers)) => Ok(containers),
            Ok(_) => panic!("another outcome than containers"),
            Err(error) => Err(error),
        }
    }

    fn snapshots(&mut self, step: Step) -> Result<Vec<Snapshot>, Error> {
        match self.run(step) {
            Ok(Outcome::Snapshots(records)) => Ok(records),
            Ok(_) => panic!("another outcome than snapshot records"),
            Err(error) => Err(error),
        }
    }

    fn index(&mut self, step: Step) -> Result<u32, Error> {
        match self.run(step) {
            Ok(Outcome::Index(index)) => Ok(index),
            Ok(_) => panic!("another outcome than an index"),
            Err(error) => Err(error),
        }
    }

    fn keys(&mut self, step: Step) -> Result<Vec<String>, Error> {
        match self.run(step) {
            Ok(Outcome::Keys(keys)) => Ok(keys),
            Ok(_) => panic!("another outcome than keys"),
            Err(error) => Err(error),
        }
    }

    /// What the end of a container value's life does.
    fn drop_container(&mut self, container: Container) {
        let call = container.release();
        self.perform(call);
    }

    /// What the end of a record's life does.
    fn drop_snapshot(&mut self, snapshot: Snapshot) {
        let call = snapshot.release();
        self.perform(call);
    }

    fn assert_nothing_held(&self) {
        assert_eq!(self.live_objects(), 0);
        assert_eq!(self.live_payloads(), 0);
        assert_eq!(self.live_arrays(), 0);
        assert_eq!(self.live_strings(), 0);
    }
}

#[test]
fn version() {
    let mut native = Native::new();
    let version = native.text_of(get_version()).unwrap();
    assert!(version.len() > 0);
    assert_eq!(version, "2.0.7");
}

#[test]
fn version_that_is_missing_or_not_text_is_a_failure() {
    let mut native = Native::new();
    native.version = None;
    assert_eq!(native.text_of(get_version()), Err(Error::Unknown));
    native.version = Some(vec![b'2', 0xc3]);
    assert_eq!(native.text_of(get_version()), Err(Error::Unknown));
}

#[test]
fn create_get_start_freeze_unfreeze_stop_destroy_container() {
    let mut native = Native::new();

    // Create container
    let created = native
        .container(Container::create(LXC_PATH, "fromage", Template::new("debian")))
        .unwrap();
    native.drop_container(created);

    // Verify it exists
    assert!(native.flag_of(Container::is_defined(LXC_PATH, "fromage")));

    // Verify we can get its informations
    let ct = native.container(Container::get(LXC_PATH, "fromage")).unwrap();
    assert_eq!(ct.name.as_str(), "fromage");

    // Verify that it can be started
    native.unit(ct.start()).unwrap();

    // Verify its state
    assert!(native.flag_of(ct.is_running()));
    assert_eq!(native.text_of(ct.state()).unwrap(), "RUNNING");

    // Verify that it can be frozen
    native.unit(ct.freeze()).unwrap();
    assert_eq!(native.text_of(ct.state()).unwrap(), "FROZEN");

    // Verify that it can be unfrozen
    native.unit(ct.unfreeze()).unwrap();

    // Verify that it can be stopped
    native.unit(ct.stop()).unwrap();
    assert!(!native.flag_of(ct.is_running()));

    // Verify it can be destroyed
    native.unit(ct.destroy()).unwrap();
    assert!(!native.flag_of(Container::is_defined(LXC_PATH, "fromage")));
    native.assert_nothing_held();
}

#[test]
fn create_download_container() {
    let mut native = Native::new();

    // Verify that the download template works
    let template =
        Template::new("download").option("-d", "alpine").option("-r", "3.6").option("-a", "amd64");

    // Create container
    let ct = native.container(Container::create(LXC_PATH, "reblochon", template)).unwrap();
    {
        let definition = &native.defined[&(LXC_PATH.to_string(), "reblochon".to_string())];
        assert_eq!(definition.template, "download");
        assert_eq!(definition.arguments, vec!["-d", "alpine", "-r", "3.6", "-a", "amd64"]);
    }

    // Destroy container
    native.unit(ct.destroy()).unwrap();
    native.assert_nothing_held();
}

#[test]
fn create_config_container() {
    let mut native = Native::new();

    // Create a container
    let ct = native
        .container(Container::create(LXC_PATH, "calice", Template::new("debian")))
        .unwrap();

    // Verify that it has a valid configration file
    let conf_path = native.text_of(ct.get_config_file_name()).unwrap();
    assert_eq!(conf_path.as_str(), "/var/lib/lxc/calice/config");
    assert_eq!(native.live_strings(), 0);

    // Verify that we can get & set configuration values
    let val = native.text_of(ct.get_config_item("lxc.utsname")).unwrap();
    assert_eq!(val.as_str(), "calice");

    native.unit(ct.set_config_item("lxc.utsname", "tamer")).unwrap();

    let val = native.text_of(ct.get_config_item("lxc.utsname")).unwrap();
    assert_eq!(val.as_str(), "tamer");

    // Destroy it
    native.unit(ct.destroy()).unwrap();
    native.assert_nothing_held();
}

#[test]
fn create_snapshot_restore_container() {
    let mut native = Native::new();

    // Create a container
    let ct = native
        .container(Container::create(LXC_PATH, "caribou", Template::new("debian")))
        .unwrap();

    // Verify that it can be started and stopped
    native.unit(ct.start()).unwrap();
    native.unit(ct.stop()).unwrap();

    // Try taking a snapshot
    assert_eq!(native.index(ct.snapshot(None)).unwrap(), 0);

    // Verify that the listing contains the snapshot
    let mut snaps = native.snapshots(ct.snapshot_list()).unwrap();
    assert!(snaps.len() > 0);
    assert_eq!(snaps.len(), 1);
    assert_eq!(native.live_arrays(), 0);

    // Verify snapshot's information
    let snap = &snaps[0];
    assert_eq!(snap.name.as_str(), "snap0");
    assert!(snap.created.len() > 0);

    // Restore the created snapshot
    native.unit(ct.snapshot_restore(snap.name.as_str(), ct.name.as_str())).unwrap();
    assert!(native.flag_of(Container::is_defined(LXC_PATH, "caribou")));

    // Destroy the snapshot
    native.unit(ct.snapshot_destroy(snap.name.as_str())).unwrap();

    // Destroy the container
    native.unit(ct.destroy()).unwrap();
    native.drop_snapshot(snaps.pop().unwrap());
    native.assert_nothing_held();
}

#[test]
fn list_of_a_path_without_containers_is_empty() {
    let mut native = Native::new();
    native.container(Container::create("/srv/other", "elsewhere", Template::new("debian"))).unwrap();
    let listed = native.containers(Container::list(LXC_PATH)).unwrap();
    assert!(listed.is_empty());
    assert_eq!(native.count("free array"), 0);
}

#[test]
fn list_hands_out_every_defined_container() {
    let mut native = Native::new();
    for name in ["brie", "comte", "tomme"] {
        let ct = native.container(Container::create(LXC_PATH, name, Template::new("debian"))).unwrap();
        native.drop_container(ct);
    }
    let mut listed = native.containers(Container::list(LXC_PATH)).unwrap();
    let names: Vec<&str> = listed.iter().map(|c| c.name.as_str()).collect();
    assert_eq!(names, vec!["brie", "comte", "tomme"]);
    assert_eq!(native.live_arrays(), 0);
    assert_eq!(native.live_objects(), 3);
    while let Some(ct) = listed.pop() {
        native.drop_container(ct);
    }
    native.assert_nothing_held();
}

#[test]
fn list_that_fails_gives_everything_back() {
    let mut native = Native::new();
    for name in ["brie", "comte", "tomme"] {
        let ct = native.container(Container::create(LXC_PATH, name, Template::new("debian"))).unwrap();
        native.drop_container(ct);
    }
    native.refuse = Some("names");
    let puts = native.count("put");
    assert_eq!(native.containers(Container::list(LXC_PATH)).err(), Some(Error::Unknown));
    assert_eq!(native.count("put"), puts + 3);
    assert_eq!(native.log.last(), Some(&"free array"));
    native.assert_nothing_held();
}

#[test]
fn list_with_a_negative_count_is_a_failure() {
    let mut native = Native::new();
    native.refuse = Some("list");
    assert_eq!(native.containers(Container::list(LXC_PATH)).err(), Some(Error::Unknown));
    native.assert_nothing_held();
}

#[test]
fn create_twice_fails_and_leaves_the_first_alone() {
    let mut native = Native::new();
    let first = native
        .container(Container::create(LXC_PATH, "munster", Template::new("debian")))
        .unwrap();
    native.unit(first.set_config_item("lxc.utsname", "kept")).unwrap();
    native.unit(first.start()).unwrap();

    let template = Template::new("download").option("-d", "alpine");
    let second = native.container(Container::create(LXC_PATH, "munster", template));
    assert_eq!(second.err(), Some(Error::ContainerAlreadyExists));
    assert_eq!(native.count("create"), 1);

    assert!(native.flag_of(Container::is_defined(LXC_PATH, "munster")));
    assert_eq!(native.text_of(first.state()).unwrap(), "RUNNING");
    assert_eq!(native.text_of(first.get_config_item("lxc.utsname")).unwrap(), "kept");
    assert_eq!(native.live_objects(), 1);
    native.drop_container(first);
    native.assert_nothing_held();
}

#[test]
fn get_of_an_undefined_name_does_not_exist() {
    let mut native = Native::new();
    let got = native.container(Container::get(LXC_PATH, "absent"));
    assert_eq!(got.err(), Some(Error::ContainerDoesNotExists));
    assert!(!native.flag_of(Container::is_defined(LXC_PATH, "absent")));
    native.assert_nothing_held();
}

#[test]
fn no_handle_is_a_failure_without_a_cause() {
    let mut native = Native::new();
    native.refuse = Some("acquire");
    assert_eq!(native.container(Container::get(LXC_PATH, "any")).err(), Some(Error::Unknown));
    let created = native.container(Container::create(LXC_PATH, "any", Template::new("debian")));
    assert_eq!(created.err(), Some(Error::Unknown));
    assert!(!native.flag_of(Container::is_defined(LXC_PATH, "any")));
    assert_eq!(native.count("put"), 0);
    assert_eq!(native.count("is_defined"), 0);
}

#[test]
fn creation_that_fails_gives_the_handle_back() {
    let mut native = Native::new();
    native.refuse = Some("create");
    let created = native.container(Container::create(LXC_PATH, "raclette", Template::new("none")));
    assert_eq!(created.err(), Some(Error::Unknown));
    assert_eq!(native.log, vec!["acquire", "is_defined", "create", "put"]);
    native.assert_nothing_held();
}

#[test]
fn text_with_a_terminator_never_reaches_the_native_side() {
    let mut native = Native::new();
    assert!(!native.flag_of(Container::is_defined(LXC_PATH, "fro\0mage")));
    assert_eq!(native.container(Container::get("/var\0", "x")).err(), Some(Error::Unknown));
    assert_eq!(native.containers(Container::list("\0")).err(), Some(Error::Unknown));
    let poisoned = Template::new("download").option("-d", "al\0pine");
    assert_eq!(
        native.container(Container::create(LXC_PATH, "x", poisoned)).err(),
        Some(Error::Unknown)
    );
    let poisoned = Template::new("down\0load");
    assert_eq!(
        native.container(Container::create(LXC_PATH, "x", poisoned)).err(),
        Some(Error::Unknown)
    );
    assert!(native.log.is_empty());

    let ct = native.container(Container::create(LXC_PATH, "x", Template::new("debian"))).unwrap();
    let calls = native.log.len();
    assert_eq!(native.unit(ct.set_config_item("a\0", "b")), Err(Error::Unknown));
    assert_eq!(native.unit(ct.set_config_item("a", "b\0")), Err(Error::Unknown));
    assert_eq!(native.text_of(ct.get_config_item("\0")), Err(Error::Unknown));
    assert_eq!(native.keys(ct.get_keys("lxc\0")), Err(Error::Unknown));
    assert_eq!(native.unit(ct.clear_config_item("\0")), Err(Error::Unknown));
    assert_eq!(native.unit(ct.save_config("/tmp/\0")), Err(Error::Unknown));
    assert_eq!(native.index(ct.snapshot(Some("/tmp/\0"))), Err(Error::Unknown));
    assert_eq!(native.unit(ct.snapshot_restore("snap0\0", "x")), Err(Error::Unknown));
    assert_eq!(native.unit(ct.snapshot_restore("snap0", "\0x")), Err(Error::Unknown));
    assert_eq!(native.unit(ct.snapshot_destroy("\0")), Err(Error::Unknown));
    assert_eq!(native.unit(ct.checkpoint("/tmp\0", false, false)), Err(Error::Unknown));
    assert_eq!(native.unit(ct.restore("/tmp\0", false)), Err(Error::Unknown));
    assert_eq!(native.log.len(), calls);
    native.drop_container(ct);
}

#[test]
fn configuration_is_read_in_two_calls() {
    let mut native = Native::new();
    let ct = native.container(Container::create(LXC_PATH, "cantal", Template::new("debian"))).unwrap();

    native.unit(ct.set_config_item("lxc.rootfs", "/srv/größe/日本")).unwrap();
    native.log.clear();
    assert_eq!(native.text_of(ct.get_config_item("lxc.rootfs")).unwrap(), "/srv/größe/日本");
    assert_eq!(native.log, vec!["get_config_item", "get_config_item"]);

    // A value that is defined and empty takes the probe alone.
    native.unit(ct.set_config_item("lxc.empty", "")).unwrap();
    native.log.clear();
    assert_eq!(native.text_of(ct.get_config_item("lxc.empty")).unwrap(), "");
    assert_eq!(native.log, vec!["get_config_item"]);

    // A key that is not there fails at the probe.
    native.log.clear();
    assert_eq!(native.text_of(ct.get_config_item("lxc.none")), Err(Error::Unknown));
    assert_eq!(native.log, vec!["get_config_item"]);

    // A fill call that fails is a failure too.
    native.refuse = Some("fill");
    assert_eq!(native.text_of(ct.get_config_item("lxc.rootfs")), Err(Error::Unknown));
    native.refuse = None;

    native.unit(ct.clear_config_item("lxc.rootfs")).unwrap();
    assert_eq!(native.unit(ct.clear_config_item("lxc.rootfs")), Err(Error::Unknown));
    native.unit(ct.clear_config()).unwrap();
    assert_eq!(native.text_of(ct.get_config_item("lxc.utsname")), Err(Error::Unknown));
    native.unit(ct.save_config("/tmp/config")).unwrap();
    assert_eq!(native.unit(ct.save_config("relative")), Err(Error::Unknown));
    native.drop_container(ct);
    native.assert_nothing_held();
}

#[test]
fn string_that_is_handed_over_is_given_back() {
    let mut native = Native::new();
    let ct = native.container(Container::create(LXC_PATH, "abondance", Template::new("debian"))).unwrap();

    assert_eq!(native.text_of(ct.get_config_file_name()).unwrap(), "/var/lib/lxc/abondance/config");
    assert_eq!(native.log[native.log.len() - 2..], ["config_file_name", "free string"]);

    // A name that is not text is a failure, and is given back all the same.
    native.refuse = Some("file names");
    assert_eq!(native.text_of(ct.get_config_file_name()), Err(Error::Unknown));
    assert_eq!(native.count("free string"), 2);
    assert_eq!(native.live_strings(), 0);

    // The null pointer is a failure, and there is nothing to give back.
    native.refuse = Some("config_file_name");
    assert_eq!(native.text_of(ct.get_config_file_name()), Err(Error::Unknown));
    assert_eq!(native.count("free string"), 2);
    native.drop_container(ct);
    native.assert_nothing_held();
}

#[test]
fn keys_are_enumerated_in_two_calls_and_not_handed_out() {
    let mut native = Native::new();
    let ct = native.container(Container::create(LXC_PATH, "salers", Template::new("debian"))).unwrap();
    native.unit(ct.set_config_item("lxc.net.0.type", "veth")).unwrap();
    native.log.clear();
    assert_eq!(native.keys(ct.get_keys("lxc")).unwrap(), Vec::<String>::new());
    assert_eq!(native.log, vec!["get_keys", "get_keys"]);
    native.log.clear();
    assert_eq!(native.keys(ct.get_keys("none")).unwrap(), Vec::<String>::new());
    assert_eq!(native.log, vec!["get_keys"]);
    native.drop_container(ct);
}

#[test]
fn snapshots_are_numbered_from_zero() {
    let mut native = Native::new();
    let ct = native.container(Container::create(LXC_PATH, "beaufort", Template::new("debian"))).unwrap();
    assert!(native.snapshots(ct.snapshot_list()).unwrap().is_empty());
    assert_eq!(native.index(ct.snapshot(None)), Ok(0));
    assert_eq!(native.index(ct.snapshot(Some("/tmp/comment"))), Ok(1));
    native.unit(ct.start()).unwrap();
    assert_eq!(native.index(ct.snapshot(None)), Err(Error::Unknown));
    native.unit(ct.shutdown(30)).unwrap();

    let mut snaps = native.snapshots(ct.snapshot_list()).unwrap();
    let names: Vec<&str> = snaps.iter().map(|s| s.name.as_str()).collect();
    assert_eq!(names, vec!["snap0", "snap1"]);
    assert_eq!(snaps[1].created, "2017:08:26 11:30:02");
    assert_eq!(native.live_payloads(), 2);
    assert_eq!(native.live_arrays(), 0);
    while let Some(snap) = snaps.pop() {
        native.drop_snapshot(snap);
    }

    native.unit(ct.snapshot_restore("snap1", "copy")).unwrap();
    assert!(native.flag_of(Container::is_defined(LXC_PATH, "copy")));
    assert_eq!(native.unit(ct.snapshot_restore("snap7", "copy")), Err(Error::Unknown));
    assert_eq!(native.unit(ct.snapshot_destroy("snap7")), Err(Error::Unknown));
    native.unit(ct.snapshot_destroy_all()).unwrap();
    assert!(native.snapshots(ct.snapshot_list()).unwrap().is_empty());
    native.unit(ct.destroy_with_snapshots()).unwrap();
    native.assert_nothing_held();
}

#[test]
fn snapshot_listing_that_fails_gives_everything_back() {
    let mut native = Native::new();
    let ct = native.container(Container::create(LXC_PATH, "morbier", Template::new("debian"))).unwrap();
    for _ in 0..3 {
        native.index(ct.snapshot(None)).unwrap();
    }
    native.refuse = Some("timestamps");
    assert_eq!(native.snapshots(ct.snapshot_list()).err(), Some(Error::Unknown));
    assert_eq!(native.count("free payload"), 3);
    assert_eq!(native.log.last(), Some(&"free array"));
    assert_eq!(native.live_payloads(), 0);
    assert_eq!(native.live_arrays(), 0);
    native.drop_container(ct);
}

#[test]
fn runtime_requests_report_what_the_native_side_reports() {
    let mut native = Native::new();
    let ct = native.container(Container::create(LXC_PATH, "livarot", Template::new("debian"))).unwrap();
    assert_eq!(native.text_of(ct.state()).unwrap(), "STOPPED");
    assert_eq!(native.unit(ct.stop()), Err(Error::Unknown));
    assert_eq!(native.unit(ct.freeze()), Err(Error::Unknown));
    assert_eq!(native.unit(ct.unfreeze()), Err(Error::Unknown));
    native.unit(ct.want_daemonize(true)).unwrap();
    native.unit(ct.want_close_all_fds(false)).unwrap();
    native.unit(ct.start()).unwrap();
    assert_eq!(native.unit(ct.start()), Err(Error::Unknown));
    assert_eq!(native.unit(ct.shutdown(0)), Err(Error::Unknown));
    assert!(native.flag_of(ct.is_running()));
    native.unit(ct.checkpoint("/tmp/dump", true, false)).unwrap();
    assert!(!native.flag_of(ct.is_running()));
    assert_eq!(native.unit(ct.checkpoint("/tmp/dump", false, true)), Err(Error::Unknown));
    native.unit(ct.restore("/tmp/dump", true)).unwrap();
    assert_eq!(native.text_of(ct.state()).unwrap(), "RUNNING");
    native.unit(ct.shutdown(-1)).unwrap();
    native.unit(ct.destroy()).unwrap();
    native.assert_nothing_held();
}

#[test]
fn destruction_that_fails_still_gives_the_handle_back() {
    let mut native = Native::new();
    let ct = native.container(Container::create(LXC_PATH, "maroilles", Template::new("debian"))).unwrap();
    native.unit(ct.start()).unwrap();
    native.log.clear();
    assert_eq!(native.unit(ct.destroy()), Err(Error::Unknown));
    assert_eq!(native.log, vec!["destroy", "put"]);
    assert!(native.flag_of(Container::is_defined(LXC_PATH, "maroilles")));
    native.assert_nothing_held();

    let ct = native.container(Container::get(LXC_PATH, "maroilles")).unwrap();
    native.log.clear();
    native.unit(ct.destroy_with_snapshots()).unwrap();
    assert_eq!(native.log, vec!["destroy_with_snapshots", "put"]);
    native.assert_nothing_held();
}

#[test]
fn hundreds_of_lives_release_every_handle_once() {
    let mut native = Native::new();
    for round in 0..300 {
        let name = format!("ct{}", round % 7);
        let made = native
            .container(Container::create(LXC_PATH, name.as_str(), Template::new("debian")))
            .unwrap();
        assert!(native.flag_of(Container::is_defined(LXC_PATH, name.as_str())));
        let again = native.container(Container::get(LXC_PATH, name.as_str())).unwrap();
        let failed = native
            .container(Container::create(LXC_PATH, name.as_str(), Template::new("debian")));
        assert_eq!(failed.err(), Some(Error::ContainerAlreadyExists));
        let listed = native.containers(Container::list(LXC_PATH)).unwrap();
        assert_eq!(listed.len(), 1);
        for ct in listed {
            native.drop_container(ct);
        }
        native.drop_container(again);
        native.unit(made.destroy()).unwrap();
        assert_eq!(
            native.container(Container::get(LXC_PATH, name.as_str())).err(),
            Some(Error::ContainerDoesNotExists)
        );
        native.assert_nothing_held();
    }
    assert_eq!(native.count("acquire") + 300, native.count("put"));
    assert!(native.objects.iter().all(|o| o.references == 0));
}

#[test]
fn replies_of_another_shape_count_as_failures() {
    let mut native = Native::new();
    let ct = native.container(Container::create(LXC_PATH, "ossau", Template::new("debian"))).unwrap();
    let resume = |step: Step, reply: Reply| match step {
        Step::Call(_, stage) => stage.resume(reply),
        Step::Done(_) => panic!("the operation has not begun"),
    };
    assert!(matches!(resume(ct.start(), Reply::Code(1)), Step::Done(Err(Error::Unknown))));
    assert!(matches!(resume(ct.start(), Reply::Nothing), Step::Done(Err(Error::Unknown))));
    assert!(matches!(resume(ct.clear_config(), Reply::Flag(false)), Step::Done(Ok(Outcome::Unit))));
    assert!(matches!(
        resume(ct.is_running(), Reply::Code(1)),
        Step::Done(Ok(Outcome::Flag(false)))
    ));
    assert!(matches!(resume(ct.state(), Reply::Flag(true)), Step::Done(Err(Error::Unknown))));
    assert!(matches!(resume(ct.state(), Reply::Text(None)), Step::Done(Err(Error::Unknown))));
    assert!(matches!(resume(ct.snapshot(None), Reply::Flag(true)), Step::Done(Err(Error::Unknown))));
    assert!(matches!(
        resume(ct.snapshot(None), Reply::Code(i32::MAX)),
        Step::Done(Ok(Outcome::Index(2147483647)))
    ));
    assert!(matches!(
        resume(ct.get_config_item("k"), Reply::Code(i32::MAX)),
        Step::Done(Err(Error::Unknown))
    ));
    assert!(matches!(
        resume(ct.get_config_item("k"), Reply::Flag(true)),
        Step::Done(Err(Error::Unknown))
    ));
    assert!(matches!(
        resume(ct.snapshot_list(), Reply::Code(0)),
        Step::Done(Err(Error::Unknown))
    ));
    assert!(matches!(
        resume(Container::list(LXC_PATH), Reply::Nothing),
        Step::Done(Err(Error::Unknown))
    ));
    assert!(matches!(
        resume(Container::get(LXC_PATH, "ossau"), Reply::Flag(true)),
        Step::Done(Err(Error::Unknown))
    ));
    assert!(matches!(
        resume(Container::is_defined(LXC_PATH, "ossau"), Reply::Nothing),
        Step::Done(Ok(Outcome::Flag(false)))
    ));
    native.drop_container(ct);
}

#[test]
fn lookup_on_an_answer_of_another_shape_gives_the_handle_back() {
    let step = Container::get(LXC_PATH, "bleu");
    let step = step.resume(Reply::Handle(RawContainer { address: 64, name: Some(b"bleu".to_vec()) }));
    assert!(matches!(&step, Step::Call(Call::IsDefined { handle: 64 }, _)));
    let step = step.resume(Reply::Code(1));
    assert!(matches!(&step, Step::Call(Call::Release(Resource::Container(64)), _)));
    assert!(!step.is_done());
    let step = step.resume(Reply::Nothing);
    assert!(step.is_done());
    assert!(matches!(step.finish(), Some(Err(Error::Unknown))));
}

#[test]
fn handle_with_a_name_that_is_not_text_is_given_back() {
    let step = Container::get(LXC_PATH, "bleu");
    let step = step.resume(Reply::Handle(RawContainer { address: 32, name: Some(vec![0xff]) }));
    assert!(matches!(&step, Step::Call(Call::Release(Resource::Container(32)), _)));
    assert!(matches!(step.resume(Reply::Nothing), Step::Done(Err(Error::Unknown))));

    let step = Container::create(LXC_PATH, "bleu", Template::new("debian"));
    let step = step.resume(Reply::Handle(RawContainer { address: 32, name: None }));
    assert!(matches!(&step, Step::Call(Call::Release(Resource::Container(32)), _)));
    assert!(matches!(step.resume(Reply::Nothing), Step::Done(Err(Error::Unknown))));
}

#[test]
fn fill_buffer_is_one_byte_longer_than_the_value() {
    let mut native = Native::new();
    let ct = native.container(Container::create(LXC_PATH, "mimolette", Template::new("debian"))).unwrap();
    let step = ct.get_config_item("lxc.utsname");
    match &step {
        Step::Call(Call::GetConfigItem { key, buffer, .. }, _) => {
            assert_eq!(key.as_bytes(), b"lxc.utsname\0");
            assert!(buffer.is_none());
        }
        _ => panic!("the probe comes first"),
    }
    let step = step.resume(Reply::Code(9));
    match step {
        Step::Call(Call::GetConfigItem { key, buffer, .. }, stage) => {
            assert_eq!(key.as_bytes(), b"lxc.utsname\0");
            assert_eq!(buffer, Some(vec![0u8; 10]));
            let filled = Reply::Filled { code: 9, buffer: b"mimolette\0".to_vec() };
            assert!(matches!(stage.resume(filled), Step::Done(Ok(Outcome::Text(t))) if t == "mimolette"));
        }
        _ => panic!("the fill call comes second"),
    }
    // A value that shrank between the two calls keeps the bytes behind it.
    let step = ct.get_config_item("lxc.utsname").resume(Reply::Code(4));
    let filled = Reply::Filled { code: 2, buffer: b"ab\0\0\0".to_vec() };
    assert!(matches!(step.resume(filled), Step::Done(Ok(Outcome::Text(t))) if t == "ab\0\0"));
    // Bytes that are not text are a failure.
    let step = ct.get_config_item("lxc.utsname").resume(Reply::Code(2));
    let filled = Reply::Filled { code: 2, buffer: vec![0xc3, 0x28, 0] };
    assert!(matches!(step.resume(filled), Step::Done(Err(Error::Unknown))));
    native.drop_container(ct);
}

#[test]
fn an_operation_that_has_ended_ignores_replies() {
    let step = Container::list("\0");
    assert!(step.is_done());
    let step = step.resume(Reply::Flag(true));
    assert!(matches!(step.finish(), Some(Err(Error::Unknown))));
    let step = Container::list(LXC_PATH);
    assert!(!step.is_done());
    assert!(step.finish().is_none());
}
