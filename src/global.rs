use vstd::prelude::*;

use crate::env::{Locked, RuntimeModuleEnv};
use crate::event_bus::{
    deliveries, registration_of, without_key, without_tag, Registration, RuntimeEvent,
    RuntimeEventBus, RuntimeEventListener, RuntimeEventListenerHandlerArg,
};

verus! {

/// The runtime's shared state: absent before initialization, then the locked
/// environment and the one event registry of the process. Every access to the
/// registry goes through this value, which its owner keeps behind one lock.
pub struct RuntimeState<H> {
    env: Option<RuntimeModuleEnv<Locked>>,
    bus: Option<RuntimeEventBus<H>>,
}

impl<H> RuntimeState<H> {
    /// The environment and the registry are set together.
    pub closed spec fn wf(&self) -> bool {
        self.env.is_some() == self.bus.is_some()
    }

    pub closed spec fn initialized(&self) -> bool {
        self.bus.is_some()
    }

    /// The registrations held by the registry, in the order they were made.
    pub closed spec fn registry(&self) -> Seq<Registration<H>> {
        self.bus->Some_0@
    }

    pub closed spec fn env(&self) -> Option<RuntimeModuleEnv<Locked>> {
        self.env
    }

    /// State before initialization.
    pub fn new() -> (r: Self)
        ensures
            r.wf(),
            !r.initialized(),
    {
        RuntimeState { env: None, bus: None }
    }

    pub fn is_initialized(&self) -> (r: bool)
        ensures
            r == self.initialized(),
    {
        self.bus.is_some()
    }

    /// Stores `env` and creates an empty registry. Once initialized, a later
    /// call changes nothing: the first initialization wins.
    pub fn init_runtime(&mut self, env: RuntimeModuleEnv<Locked>)
        requires
            old(self).wf(),
        ensures
            final(self).wf(),
            final(self).initialized(),
            old(self).initialized() ==> *final(self) == *old(self),
            !old(self).initialized() ==> final(self).env() == Some(env) && final(self).registry()
                == Seq::<Registration<H>>::empty(),
    {
        if self.bus.is_none() {
            self.env = Some(env);
            self.bus = Some(RuntimeEventBus::new());
        }
    }

    /// The environment given at initialization, if any.
    pub fn runtime_env(&self) -> (r: Option<&RuntimeModuleEnv<Locked>>)
        ensures
            r.is_some() == self.env().is_some(),
            r.is_some() ==> *r->Some_0 == self.env()->Some_0,
    {
        match &self.env {
            Some(e) => Some(e),
            None => None,
        }
    }

    /// Registers `listener` under `event` in the shared registry.
    pub fn add_listener(&mut self, event: RuntimeEvent, listener: RuntimeEventListener<H>)
        requires
            old(self).wf(),
            old(self).initialized(),
        ensures
            final(self).wf(),
            final(self).initialized(),
            final(self).env() == old(self).env(),
            final(self).registry() == old(self).registry().push(registration_of(&event, &listener)),
    {
        let mut bus = self.bus.take().unwrap();
        bus.add_listener(event, listener);
        self.bus = Some(bus);
    }

    /// Removes the listeners tagged `tag` from the shared registry.
    pub fn remove_all_listeners_by_tag(&mut self, tag: &str)
        requires
            old(self).wf(),
            old(self).initialized(),
        ensures
            final(self).wf(),
            final(self).initialized(),
            final(self).env() == old(self).env(),
            final(self).registry() == without_tag(old(self).registry(), tag@),
    {
        let mut bus = self.bus.take().unwrap();
        bus.remove_all_listeners_by_tag(tag);
        self.bus = Some(bus);
    }

    /// The handlers that an emission of `event` with `arg` runs, in order.
    pub fn listeners_for<'a, T>(&'a self, event: &RuntimeEvent, arg: &RuntimeEventListenerHandlerArg<T>) -> (r: Vec<&'a H>)
        requires
            self.initialized(),
        ensures
            r@.map_values(|h: &H| *h) == deliveries(self.registry(), event@, arg.type_key@),
    {
        match &self.bus {
            Some(bus) => bus.listeners_for(event, arg),
            None => Vec::new(),
        }
    }

    /// Ends an emission of `event` on the shared registry.
    pub fn finish_emission(&mut self, event: &RuntimeEvent)
        requires
            old(self).wf(),
            old(self).initialized(),
        ensures
            final(self).wf(),
            final(self).initialized(),
            final(self).env() == old(self).env(),
            final(self).registry() == (if event@.once {
                without_key(old(self).registry(), event@)
            } else {
                old(self).registry()
            }),
    {
        let mut bus = self.bus.take().unwrap();
        bus.finish_emission(event);
        self.bus = Some(bus);
    }
}

} // verus!
