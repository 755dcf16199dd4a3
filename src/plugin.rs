//! Input plugins and the provider that creates them by name.
use vstd::prelude::*;

verus! {

/// Why a provider could not create a plugin.
#[derive(Clone, Copy, Debug, PartialEq, Eq, Structural)]
pub enum Error {
    PluginNotFound,
}

/// A running unit of data production.
///
/// Its lifecycle is: created, registered, then run until it stops, either
/// because its source is exhausted or because a stop was requested.
#[derive(Debug)]
pub struct InputPlugin {
    /// How many independent instances it asks to run as; 0 counts as 1.
    pub threads: usize,
    pub registered: bool,
    pub stopped: bool,
}

/// The number of instances that a plugin is run as.
pub open spec fn copies(p: InputPlugin) -> nat {
    if p.threads > 1 {
        p.threads as nat
    } else {
        1
    }
}

impl InputPlugin {
    /// A plugin that runs as a single instance.
    pub fn new() -> (r: InputPlugin)
        ensures
            r.threads == 1,
            !r.registered,
            !r.stopped,
    {
        InputPlugin { threads: 1, registered: false, stopped: false }
    }

    /// A plugin that asks to run as `threads` independent instances.
    pub fn with_threads(threads: usize) -> (r: InputPlugin)
        requires
            threads >= 1,
        ensures
            r.threads == threads,
            !r.registered,
            !r.stopped,
    {
        InputPlugin { threads, registered: false, stopped: false }
    }

    /// An independent instance in the same state; nothing is shared.
    pub fn duplicate(&self) -> (r: InputPlugin)
        ensures
            r == *self,
    {
        InputPlugin { threads: self.threads, registered: self.registered, stopped: self.stopped }
    }

    /// One-time setup before running.
    pub fn register(&mut self)
        ensures
            final(self).registered,
            final(self).threads == old(self).threads,
            final(self).stopped == old(self).stopped,
    {
        self.registered = true;
    }

    /// Produces data until the source is exhausted or a stop is requested;
    /// the plugin is stopped when it returns.
    pub fn run(&mut self)
        ensures
            final(self).stopped,
            final(self).threads == old(self).threads,
            final(self).registered == old(self).registered,
    {
        self.stopped = true;
    }

    /// Asks the run loop to stop at its next check.
    pub fn request_stop(&mut self)
        ensures
            final(self).stopped,
            final(self).threads == old(self).threads,
            final(self).registered == old(self).registered,
    {
        self.stopped = true;
    }

    pub fn is_stopped(&self) -> (r: bool)
        ensures
            r == self.stopped,
    {
        self.stopped
    }

    /// How many independent instances the plugin runs as; at least one.
    pub fn threads_count(&self) -> (r: usize)
        ensures
            r == copies(*self),
            r >= 1,
    {
        if self.threads > 1 {
            self.threads
        } else {
            1
        }
    }
}

/// Creates plugins by name.
pub trait PluginProvider {
    /// `r` is an answer this provider may give when asked for the input
    /// plugin `name`. A provider that leaves it out makes no promise.
    closed spec fn answers(&self, name: Seq<char>, r: Result<InputPlugin, Error>) -> bool {
        true
    }

    fn create_input(&self, name: &str) -> (r: Result<InputPlugin, Error>)
        ensures
            self.answers(name@, r),
    ;
}

/// The provider that knows every input plugin name.
pub struct PluginFactory {}

impl PluginFactory {
    pub fn new() -> (r: PluginFactory) {
        PluginFactory {}
    }
}

impl PluginProvider for PluginFactory {
    open spec fn answers(&self, name: Seq<char>, r: Result<InputPlugin, Error>) -> bool {
        r matches Ok(p) && p.threads == 1 && !p.registered && !p.stopped
    }

    fn create_input(&self, name: &str) -> (r: Result<InputPlugin, Error>) {
        Ok(InputPlugin::new())
    }
}

} // verus!
