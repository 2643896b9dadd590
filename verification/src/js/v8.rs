//! The V8 engine: its one-time platform initialisation, and its contexts, whose isolate,
//! handle scope and context scope live in a store under the context's id.
pub mod compile;
pub mod context;
pub mod context_store;
pub mod object;
pub mod value;

use vstd::prelude::*;


verus! {

/// The V8 engine.
pub struct V8Engine {}

impl V8Engine {
    /// The engine. The platform it runs on is initialised once per process, as
    /// `PlatformState` decides.
    pub fn new() -> (e: V8Engine) {
        V8Engine {  }
    }
}

/// What `initialize` does given the state of the platform.
#[derive(PartialEq, Eq, Structural, Debug, Clone, Copy)]
pub enum InitAction {
    /// The platform is ready: nothing to do.
    AlreadyInitialized,
    /// Another caller is initialising it: wait until it is ready.
    WaitForOther,
    /// Nobody has started: initialise it now.
    Initialize,
}

/// The two flags that guard the platform's initialisation.
#[derive(PartialEq, Eq, Structural, Debug, Clone, Copy)]
pub struct PlatformState {
    pub initialized: bool,
    pub initializing: bool,
}

/// What `initialize` does in the given state.
pub open spec fn action_in(s: PlatformState) -> InitAction {
    if s.initialized {
        InitAction::AlreadyInitialized
    } else if s.initializing {
        InitAction::WaitForOther
    } else {
        InitAction::Initialize
    }
}

/// The state once an initialisation has started.
pub open spec fn begun(s: PlatformState) -> PlatformState {
    PlatformState { initializing: true, ..s }
}

/// The state once the platform is ready.
pub open spec fn finished(s: PlatformState) -> PlatformState {
    PlatformState { initialized: true, initializing: false }
}

impl PlatformState {
    /// The state before anything happened.
    pub fn new() -> (s: PlatformState)
        ensures
            s == (PlatformState { initialized: false, initializing: false }),
    {
        PlatformState { initialized: false, initializing: false }
    }

    /// What `initialize` does next.
    pub fn initialize_action(&self) -> (a: InitAction)
        ensures
            a == action_in(*self),
    {
        if self.initialized {
            return InitAction::AlreadyInitialized;
        }
        if self.initializing {
            return InitAction::WaitForOther;
        }
        InitAction::Initialize
    }

    /// Marks the initialisation as started.
    pub fn begin_initialize(&mut self)
        ensures
            *final(self) == begun(*old(self)),
    {
        self.initializing = true;
    }

    /// Marks the platform as ready.
    pub fn finish_initialize(&mut self)
        ensures
            *final(self) == finished(*old(self)),
    {
        self.initialized = true;
        self.initializing = false;
    }
}

/// The platform is initialised once: from the start the first caller initialises it; while it
/// does, every other caller waits; once it is ready, whatever happened before, nobody
/// initialises it again.
pub proof fn law_platform_initialised_once(s: PlatformState)
    ensures
        action_in(PlatformState { initialized: false, initializing: false })
            == InitAction::Initialize,
        action_in(begun(PlatformState { initialized: false, initializing: false }))
            == InitAction::WaitForOther,
        action_in(finished(s)) == InitAction::AlreadyInitialized,
        action_in(begun(finished(s))) == InitAction::AlreadyInitialized,
{
}

} // verus!
