//! When a hot-reloaded plugin is checked for a new build on disk, and the
//! bookkeeping of its reloads. Reading file metadata, copying the library and
//! loading it stay with the caller.
use crate::text::{decimal, push_decimal};
use vstd::prelude::*;
use vstd::string::StringExecFns;

verus! {

/// The outcome of checking a plugin for a new version.
#[derive(Debug, PartialEq, Eq, Clone, Copy, Structural)]
pub enum PluginCheck {
    FoundNewVersion,
    Unchanged,
}

/// The check interval, in updates, of plugins opened from the target
/// directory.
pub const DEFAULT_CHECK_INTERVAL: u32 = 120;

/// A modification time: whole seconds and nanoseconds since the epoch.
pub type ModifiedTime = (u64, u32);

/// What the reload bookkeeping of a plugin holds.
pub struct ScheduleView {
    pub updates: u64,
    pub last_reloaded: u64,
    pub check_interval: u32,
    pub modified: ModifiedTime,
    pub version: u64,
}

/// The reload bookkeeping of a plugin: how many updates it has run, how many
/// since its last reload, how often to look for a new build, the modification
/// time of the build it last saw, and how many builds it has loaded.
pub struct PluginSchedule {
    updates: u64,
    last_reloaded: u64,
    check_interval: u32,
    modified: ModifiedTime,
    version: u64,
}

impl View for PluginSchedule {
    type V = ScheduleView;

    closed spec fn view(&self) -> ScheduleView {
        ScheduleView {
            updates: self.updates,
            last_reloaded: self.last_reloaded,
            check_interval: self.check_interval,
            modified: self.modified,
            version: self.version,
        }
    }
}

/// Whether the plugin should look for a new build: before its first update,
/// and afterwards every `check_interval` updates once at least that many have
/// run since the last reload.
pub open spec fn spec_should_check(s: ScheduleView) -> bool {
    s.updates == 0 || (s.updates > 0 && s.updates % (s.check_interval as u64) == 0
        && s.last_reloaded >= s.check_interval)
}

impl PluginSchedule {
    /// Bookkeeping for a plugin that has loaded nothing yet.
    pub fn new(check_interval: u32) -> (s: Self)
        ensures
            s@ == (ScheduleView {
                updates: 0,
                last_reloaded: 0,
                check_interval,
                modified: (0, 0),
                version: 0,
            }),
    {
        Self { updates: 0, last_reloaded: 0, check_interval, modified: (0, 0), version: 0 }
    }

    /// The number of builds loaded so far.
    pub fn version(&self) -> (v: u64)
        ensures
            v == self@.version,
    {
        self.version
    }

    /// Whether to look for a new build now. With a check interval of zero
    /// only the look before the first update can be asked for.
    pub fn should_check(&self) -> (b: bool)
        requires
            self@.updates == 0 || self@.check_interval > 0,
        ensures
            b == spec_should_check(self@),
    {
        self.updates == 0 || (self.updates > 0 && self.updates % self.check_interval as u64 == 0
            && self.last_reloaded >= self.check_interval as u64)
    }

    /// Compare the build's modification time with the last one seen: a
    /// different time is a new version, and is remembered.
    pub fn observe_modified(&mut self, last_modified: ModifiedTime) -> (c: PluginCheck)
        ensures
            c == (if old(self)@.modified != last_modified {
                PluginCheck::FoundNewVersion
            } else {
                PluginCheck::Unchanged
            }),
            final(self)@ == (ScheduleView { modified: last_modified, ..old(self)@ }),
    {
        if self.modified.0 != last_modified.0 || self.modified.1 != last_modified.1 {
            self.modified = last_modified;
            PluginCheck::FoundNewVersion
        } else {
            PluginCheck::Unchanged
        }
    }

    /// Record that a new build was loaded.
    pub fn reloaded(&mut self)
        requires
            old(self)@.version < u64::MAX,
        ensures
            final(self)@ == (ScheduleView {
                version: (old(self)@.version + 1) as u64,
                last_reloaded: 0,
                ..old(self)@
            }),
    {
        self.version = self.version + 1;
        self.last_reloaded = 0;
    }

    /// Record one update of the plugin.
    pub fn record_update(&mut self)
        requires
            old(self)@.updates < u64::MAX,
            old(self)@.last_reloaded < u64::MAX,
        ensures
            final(self)@ == (ScheduleView {
                updates: (old(self)@.updates + 1) as u64,
                last_reloaded: (old(self)@.last_reloaded + 1) as u64,
                ..old(self)@
            }),
    {
        self.updates = self.updates + 1;
        self.last_reloaded = self.last_reloaded + 1;
    }

    /// The check for a new build. When no look is due (`should_check` fails)
    /// nothing changes and the build is `Unchanged`. Otherwise the build's
    /// modification time, which the caller has read, is compared with the last
    /// one seen: a changed time is a new version and is remembered. The caller
    /// then copies and loads the new build, and records it with `reloaded`
    /// once that has worked.
    pub fn check(&mut self, last_modified: ModifiedTime) -> (c: PluginCheck)
        requires
            old(self)@.updates == 0 || old(self)@.check_interval > 0,
        ensures
            !spec_should_check(old(self)@) ==> c == PluginCheck::Unchanged && final(self)@
                == old(self)@,
            spec_should_check(old(self)@) && old(self)@.modified != last_modified ==> c
                == PluginCheck::FoundNewVersion && final(self)@ == (ScheduleView {
                modified: last_modified,
                ..old(self)@
            }),
            spec_should_check(old(self)@) && old(self)@.modified == last_modified ==> c
                == PluginCheck::Unchanged && final(self)@ == old(self)@,
    {
        if !self.should_check() {
            return PluginCheck::Unchanged;
        }
        self.observe_modified(last_modified)
    }
}

/// The file name of a plugin's library in `plugin_dir`: `name.dll` on
/// Windows, `libname.so` elsewhere.
pub open spec fn spec_plugin_filename(plugin_dir: Seq<char>, name: Seq<char>, windows: bool) -> Seq<char> {
    if windows {
        plugin_dir + "/"@ + name + ".dll"@
    } else {
        plugin_dir + "/lib"@ + name + ".so"@
    }
}

/// The file name of a plugin's library in `plugin_dir`.
pub fn plugin_filename(plugin_dir: &str, plugin_name: &str, windows: bool) -> (f: String)
    ensures
        f@ == spec_plugin_filename(plugin_dir@, plugin_name@, windows),
{
    let mut f = String::from_str(plugin_dir);
    if windows {
        f.append("/");
        f.append(plugin_name);
        f.append(".dll");
    } else {
        f.append("/lib");
        f.append(plugin_name);
        f.append(".so");
    }
    f
}

/// The name of the temporary copy of version `version` of a library whose
/// file stem is `stem`.
pub fn temp_copy_name(stem: &str, version: u64) -> (f: String)
    ensures
        f@ == stem@ + "_"@ + decimal(version as nat) + ".plugin"@,
{
    let mut f = String::from_str(stem);
    f.append("_");
    push_decimal(&mut f, version as u128);
    f.append(".plugin");
    f
}

/// Whether a shared library must be loaded again: when none is loaded, or
/// when the file's modification time is not the one last seen.
pub fn lib_needs_reload(loaded: bool, known: ModifiedTime, last_modified: ModifiedTime) -> (b: bool)
    ensures
        b == (!loaded || known != last_modified),
{
    !loaded || known.0 != last_modified.0 || known.1 != last_modified.1
}

/// The path of the copy of version `version` of a shared library whose file
/// stem is `stem`: `target/stem_version.so`.
pub fn lib_copy_name(stem: &str, version: u64) -> (f: String)
    ensures
        f@ == "target/"@ + stem@ + "_"@ + decimal(version as nat) + ".so"@,
{
    let mut f = String::from_str("target/");
    f.append(stem);
    f.append("_");
    push_decimal(&mut f, version as u128);
    f.append(".so");
    f
}

/// The exported name of a library's lifecycle function: the module name, an
/// underscore and the event (`load`, `update` or `unload`).
pub fn lifecycle_method_name(mod_name: &str, event: &str) -> (f: String)
    ensures
        f@ == mod_name@ + "_"@ + event@,
{
    let mut f = String::from_str(mod_name);
    f.append("_");
    f.append(event);
    f
}

/// Every new build is looked for before the first update, and a freshly
/// reloaded plugin waits at least a full interval before looking again.
pub proof fn lemma_check_cadence(s: ScheduleView)
    requires
        s.check_interval > 0,
    ensures
        s.updates == 0 ==> spec_should_check(s),
        s.updates > 0 && s.last_reloaded < s.check_interval ==> !spec_should_check(s),
{
}

/// Errors of loading a shared library.
#[derive(Debug)]
pub enum LibLoaderError {
    Io(std::io::Error),
    SystemTime(std::time::SystemTimeError),
}

/// A plugin that keeps state of its own between loading, updates and
/// unloading, and works on the state that the application owns.
///
/// The application must call `unload` before it drops the plugin.
pub trait PluginState {
    /// The application state that the plugin works on.
    type State: Send + Sync;

    /// A plugin in its initial state.
    fn new() -> Box<Self> where Self: Sized;

    /// Called when the plugin is loaded.
    fn load(&mut self, state: &mut Self::State);

    /// Called periodically with the time elapsed since the last update.
    fn update(&mut self, state: &mut Self::State, delta_time: &std::time::Duration);

    /// Called when the plugin is unloaded.
    fn unload(&mut self, state: &mut Self::State);
}

/// A plugin with a name and a version that works on the state that the
/// application owns when it is loaded, updated and unloaded.
pub trait LoadablePlugin {
    /// The name of the plugin.
    const NAME: &'static str;

    /// The version of the plugin.
    const VERSION: u64;

    /// The application state that the plugin works on.
    type State: Send + Sync;

    /// Called when the plugin is loaded.
    fn load(state: &mut Self::State);

    /// Called periodically with the time elapsed since the last update.
    fn update(state: &mut Self::State, delta_time: &std::time::Duration);

    /// Called when the plugin is unloaded.
    fn unload(state: &mut Self::State);
}

} // verus!
