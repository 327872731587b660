//! Follow-up work that event handlers hand back to the orchestrator's event
//! loop: workers to deliver messages to, and workers to watch.
use vstd::prelude::*;
use vstd::string::*;

verus! {

/// Follow-up actions that the event loop performs after a handler.
#[derive(Debug, Clone)]
pub struct PendingActions {
    /// Workers to watch for readiness and deliver queued messages to.
    pub deliver_to: Vec<String>,
    /// Workers to watch for readiness only (no immediate messages).
    pub watch_only: Vec<String>,
}

impl PendingActions {
    /// No follow-up work.
    pub fn new() -> (r: PendingActions)
        ensures
            r.deliver_to@.len() == 0,
            r.watch_only@.len() == 0,
    {
        PendingActions { deliver_to: Vec::new(), watch_only: Vec::new() }
    }

    /// Both results' work, this one's first.
    pub fn merge(self, other: PendingActions) -> (r: PendingActions)
        ensures
            r.deliver_to@ == self.deliver_to@ + other.deliver_to@,
            r.watch_only@ == self.watch_only@ + other.watch_only@,
    {
        let mut deliver_to = self.deliver_to;
        let mut watch_only = self.watch_only;
        let mut a = other.deliver_to;
        let mut b = other.watch_only;
        deliver_to.append(&mut a);
        watch_only.append(&mut b);
        PendingActions { deliver_to, watch_only }
    }
}

/// A message delivery that waits for its worker's pane.
#[derive(Debug, Clone)]
pub struct PendingDelivery {
    pub target_id: String,
    pub terminal_target: String,
}

/// Results gathered while effects are executed.
#[derive(Debug, Clone)]
pub struct EffectResult {
    pub deliveries: Vec<PendingDelivery>,
    pub spawned_supervisors: Vec<String>,
}

impl EffectResult {
    /// Nothing gathered.
    pub fn new() -> (r: EffectResult)
        ensures
            r.deliveries@.len() == 0,
            r.spawned_supervisors@.len() == 0,
    {
        EffectResult { deliveries: Vec::new(), spawned_supervisors: Vec::new() }
    }

    /// Both results, this one's first.
    pub fn merge(self, other: EffectResult) -> (r: EffectResult)
        ensures
            r.deliveries@ == self.deliveries@ + other.deliveries@,
            r.spawned_supervisors@ == self.spawned_supervisors@ + other.spawned_supervisors@,
    {
        let mut deliveries = self.deliveries;
        let mut spawned_supervisors = self.spawned_supervisors;
        let mut a = other.deliveries;
        let mut b = other.spawned_supervisors;
        deliveries.append(&mut a);
        spawned_supervisors.append(&mut b);
        EffectResult { deliveries, spawned_supervisors }
    }
}

} // verus!
