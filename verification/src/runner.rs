//! The one way out of the dispatcher.
//!
//! Methods are run, and all else that only the rest of the emulator can do is
//! done, by a function that the caller passes. It is held in a `Runner`, which
//! logs every call: nothing is run that is not in the log.

use vstd::prelude::*;

use crate::environment::{can_run, does, EnvView, Environment, Host, HostCall};

verus! {

/// The function that does what only the rest of the emulator can do, and a log of
/// the calls that were made of it.
pub struct Runner<F: Fn(HostCall, Environment) -> (Environment, u32)> {
    run: F,
    log: Ghost<Seq<HostCall>>,
}

impl<F: Fn(HostCall, Environment) -> (Environment, u32)> Runner<F> {
    #[verifier::type_invariant]
    spec fn runs_everywhere(self) -> bool {
        can_run(self.run)
    }

    /// The function.
    pub closed spec fn function(self) -> F {
        self.run
    }

    /// The calls that were made of the function, in order.
    pub closed spec fn log(self) -> Seq<HostCall> {
        self.log@
    }

    /// What the function may do.
    pub open spec fn host(self) -> Host {
        does(self.function())
    }

    /// The state of an environment, with the calls that were made.
    pub open spec fn state(self, env: Environment) -> EnvView {
        EnvView { calls: self.log(), ..env@ }
    }

    /// A runner of which nothing has been asked yet.
    pub fn new(run: F) -> (runner: Runner<F>)
        requires
            can_run(run),
        ensures
            runner.function() == run,
            runner.log() == Seq::<HostCall>::empty(),
    {
        Runner { run, log: Ghost(Seq::empty()) }
    }

    /// Has the function do what `call` asks for, and logs the call.
    pub(crate) fn call(&mut self, call: HostCall, env: Environment) -> (result: (Environment, u32))
        ensures
            call_ensures(old(self).function(), (call, env), result),
            final(self).function() == old(self).function(),
            final(self).log() == old(self).log().push(call),
    {
        proof {
            use_type_invariant(&*self);
        }
        self.log = Ghost(self.log@.push(call));
        (self.run)(call, env)
    }
}

} // verus!
