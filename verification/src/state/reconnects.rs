//! The devices that the user wants to stay connected to.
use super::{AppState, ReconnectPlan, ReconnectTarget};
use crate::ids::Uuid;
use crate::models;
use crate::models::Endpoint;
use vstd::prelude::*;

verus! {

impl Clone for ReconnectTarget {
    fn clone(&self) -> (r: Self)
        ensures
            r == *self,
    {
        ReconnectTarget {
            device_id: self.device_id,
            display_name: self.display_name.clone(),
            lan_endpoint: match &self.lan_endpoint {
                Some(endpoint) => Some(endpoint.clone()),
                None => None,
            },
            bluetooth_endpoint: models::copy_text(&self.bluetooth_endpoint),
        }
    }
}

/// The plans that are not for this device.
pub open spec fn plans_without(m: Map<Uuid, ReconnectPlan>, device_id: Uuid) -> Map<
    Uuid,
    ReconnectPlan,
> {
    m.restrict(
        Set::new(|s: Uuid| m.dom().contains(s) && m[s].target.device_id != Some(device_id)),
    )
}

impl AppState {
    /// There is a plan for this device.
    pub open spec fn plans_for(&self, session: Uuid, device_id: Uuid) -> bool {
        self.reconnects@.dom().contains(session) && self.reconnects@[session].target.device_id
            == Some(device_id)
    }

    /// Starts a plan under a fresh identifier.
    pub fn begin_reconnect_session(&mut self, target: ReconnectTarget) -> (r: Uuid)
        requires
            old(self).wf(),
        ensures
            r.is_random(),
            final(self).wf(),
            *final(self) == (AppState { reconnects: final(self).reconnects, ..*old(self) }),
            final(self).reconnects@ == old(self).reconnects@.insert(
                r,
                ReconnectPlan { target, task_running: false, reconnecting: false },
            ),
    {
        let session = Uuid::new_v4();
        self.begin_reconnect_session_as(session, target);
        session
    }

    /// Starts a plan under this identifier.
    pub fn begin_reconnect_session_as(&mut self, session: Uuid, target: ReconnectTarget)
        requires
            old(self).wf(),
        ensures
            final(self).wf(),
            *final(self) == (AppState { reconnects: final(self).reconnects, ..*old(self) }),
            final(self).reconnects@ == old(self).reconnects@.insert(
                session,
                ReconnectPlan { target, task_running: false, reconnecting: false },
            ),
    {
        self.reconnects.insert(
            session,
            ReconnectPlan { target, task_running: false, reconnecting: false },
        );
    }

    /// Where the device of a plan can be reached.
    pub fn reconnect_target(&self, session: Uuid) -> (r: Option<ReconnectTarget>)
        requires
            self.wf(),
        ensures
            match r {
                Some(target) => self.reconnects@.dom().contains(session) && target
                    == self.reconnects@[session].target,
                None => !self.reconnects@.dom().contains(session),
            },
    {
        match self.reconnects.get(&session) {
            Some(plan) => Some(plan.target.clone()),
            None => None,
        }
    }

    /// Where a device can be reached, by a plan for it.
    pub fn reconnect_target_for_peer(&self, device_id: Uuid) -> (r: Option<ReconnectTarget>)
        requires
            self.wf(),
        ensures
            match r {
                Some(target) => exists|s: Uuid| #[trigger]
                    self.plans_for(s, device_id) && target == self.reconnects@[s].target,
                None => forall|s: Uuid| !self.plans_for(s, device_id),
            },
    {
        let mut i: usize = 0;
        proof {
            self.reconnects.lemma_order();
        }
        while i < self.reconnects.len()
            invariant
                self.wf(),
                i <= self.reconnects.order().len(),
                forall|j: int|
                    0 <= j < i ==> self.reconnects@[#[trigger] self.reconnects.order()[j]].target.device_id
                        != Some(device_id),
            decreases self.reconnects.order().len() - i,
        {
            let plan = self.reconnects.value_at(i);
            let session = self.reconnects.key_at(i);
            let found = match plan.target.device_id {
                Some(peer) => peer == device_id,
                None => false,
            };
            if found {
                assert(self.plans_for(session, device_id));
                return Some(plan.target.clone());
            }
            i = i + 1;
        }
        proof {
            self.reconnects.lemma_order();
            assert forall|s: Uuid| !self.plans_for(s, device_id) by {
                if self.reconnects@.dom().contains(s) {
                    let j = self.reconnects.order().index_of(s);
                    assert(self.reconnects.order()[j] == s);
                }
            }
        }
        None
    }

    /// Notes what is now known of the device of a plan.
    pub fn update_reconnect_target(
        &mut self,
        session: Uuid,
        device_id: Uuid,
        display_name: String,
        lan_endpoint: Option<Endpoint>,
    )
        requires
            old(self).wf(),
        ensures
            final(self).wf(),
            *final(self) == (AppState { reconnects: final(self).reconnects, ..*old(self) }),
            final(self).reconnects@ == if old(self).reconnects@.dom().contains(session) {
                let plan = old(self).reconnects@[session];
                old(self).reconnects@.insert(
                    session,
                    ReconnectPlan {
                        target: ReconnectTarget {
                            device_id: Some(device_id),
                            display_name,
                            lan_endpoint: if lan_endpoint is Some {
                                lan_endpoint
                            } else {
                                plan.target.lan_endpoint
                            },
                            ..plan.target
                        },
                        ..plan
                    },
                )
            } else {
                old(self).reconnects@
            },
    {
        if let Some(reconnect) = self.reconnects.get_mut(&session) {
            reconnect.target.device_id = Some(device_id);
            reconnect.target.display_name = display_name;
            if lan_endpoint.is_some() {
                reconnect.target.lan_endpoint = lan_endpoint;
            }
        }
    }

    /// Whether a plan still stands.
    pub fn is_reconnect_session_active(&self, session: Uuid) -> (r: bool)
        requires
            self.wf(),
        ensures
            r == self.reconnects@.dom().contains(session),
    {
        self.reconnects.contains(&session)
    }

    /// Claims the task of reconnecting for a plan. One claim at a time succeeds.
    pub fn start_reconnect_task(&mut self, session: Uuid) -> (r: bool)
        requires
            old(self).wf(),
        ensures
            final(self).wf(),
            *final(self) == (AppState { reconnects: final(self).reconnects, ..*old(self) }),
            r == (old(self).reconnects@.dom().contains(session)
                && !old(self).reconnects@[session].task_running),
            final(self).reconnects@ == if r {
                old(self).reconnects@.insert(
                    session,
                    ReconnectPlan {
                        task_running: true,
                        reconnecting: true,
                        ..old(self).reconnects@[session]
                    },
                )
            } else {
                old(self).reconnects@
            },
    {
        let free = match self.reconnects.get(&session) {
            Some(plan) => !plan.task_running,
            None => false,
        };
        if free {
            if let Some(reconnect) = self.reconnects.get_mut(&session) {
                reconnect.task_running = true;
                reconnect.reconnecting = true;
            }
        }
        free
    }

    /// Gives up all plans.
    pub fn cancel_reconnect(&mut self)
        requires
            old(self).wf(),
        ensures
            final(self).wf(),
            *final(self) == (AppState { reconnects: final(self).reconnects, ..*old(self) }),
            final(self).reconnects@ == Map::<Uuid, ReconnectPlan>::empty(),
    {
        self.reconnects.clear();
    }

    /// Gives up the plans for a device.
    pub fn cancel_reconnect_for_peer(&mut self, device_id: Uuid)
        requires
            old(self).wf(),
        ensures
            final(self).wf(),
            *final(self) == (AppState { reconnects: final(self).reconnects, ..*old(self) }),
            final(self).reconnects@ == plans_without(old(self).reconnects@, device_id),
    {
        let keep = |_session: &Uuid, plan: &ReconnectPlan| -> (b: bool)
            ensures
                b == (plan.target.device_id != Some(device_id)),
            {
                match plan.target.device_id {
                    Some(peer) => peer != device_id,
                    None => true,
                }
            };
        self.reconnects.retain(
            keep,
            Ghost(|_s: Uuid, plan: ReconnectPlan| plan.target.device_id != Some(device_id)),
        );
        proof {
            assert(self.reconnects@ =~= plans_without(old(self).reconnects@, device_id));
        }
    }

    /// Gives up a plan.
    pub fn cancel_reconnect_session(&mut self, session: Uuid)
        requires
            old(self).wf(),
        ensures
            final(self).wf(),
            *final(self) == (AppState { reconnects: final(self).reconnects, ..*old(self) }),
            final(self).reconnects@ == old(self).reconnects@.remove(session),
    {
        self.reconnects.remove(&session);
    }
}

/// A plan to stay connected is found under its identifier, with its target, until it is given up.
pub proof fn law_plan_is_kept_until_given_up(
    app: &mut AppState,
    next: &mut AppState,
    target: ReconnectTarget,
    session: Uuid,
    found: Option<ReconnectTarget>,
    active: bool,
    after: bool,
)
    requires
        call_ensures(AppState::begin_reconnect_session, (app, target), session),
        call_ensures(AppState::reconnect_target, (final(app), session), found),
        call_ensures(AppState::is_reconnect_session_active, (final(app), session), active),
        *next == *final(app),
        call_ensures(AppState::cancel_reconnect_session, (next, session), ()),
        call_ensures(AppState::is_reconnect_session_active, (final(next), session), after),
    ensures
        found == Some(target),
        active,
        !after,
        !final(app).reconnects@[session].task_running,
        forall|s: Uuid| #[trigger]
            old(app).reconnects@.dom().contains(s) && s != session
                ==> final(next).reconnects@.dom().contains(s)
                && final(next).reconnects@[s] == old(app).reconnects@[s],
{
}

/// One task at a time works on a plan: a second one is not started before the device is connected
/// again, and none is started for a plan that was given up.
pub proof fn law_one_task_works_on_a_plan(
    app: &mut AppState,
    next: &mut AppState,
    connected: &mut AppState,
    last: &mut AppState,
    session: Uuid,
    first: bool,
    second: bool,
    third: bool,
)
    requires
        call_ensures(AppState::start_reconnect_task, (app, session), first),
        *next == *final(app),
        call_ensures(AppState::start_reconnect_task, (next, session), second),
        *connected == *final(next),
        call_ensures(AppState::mark_reconnected, (connected, session), ()),
        *last == *final(connected),
        call_ensures(AppState::start_reconnect_task, (last, session), third),
    ensures
        first <==> old(app).reconnects@.dom().contains(session)
            && !old(app).reconnects@[session].task_running,
        !second,
        third <==> old(app).reconnects@.dom().contains(session),
        first ==> final(app).reconnects@[session].reconnecting
            && final(app).reconnects@[session].target == old(app).reconnects@[session].target,
{
}

/// A plan follows its target: what is new of the device is noted, and an address is kept until a new
/// one is known.
pub proof fn law_plan_follows_its_target(
    app: &mut AppState,
    session: Uuid,
    device_id: Uuid,
    display_name: String,
    lan_endpoint: Option<Endpoint>,
    r: Option<ReconnectTarget>,
)
    requires
        call_ensures(
            AppState::update_reconnect_target,
            (app, session, device_id, display_name, lan_endpoint),
            (),
        ),
        call_ensures(AppState::reconnect_target, (final(app), session), r),
    ensures
        r is Some <==> old(app).reconnects@.dom().contains(session),
        r matches Some(target) ==> {
            let before = old(app).reconnects@[session].target;
            &&& target.device_id == Some(device_id)
            &&& target.display_name@ == display_name@
            &&& lan_endpoint is Some ==> target.lan_endpoint == lan_endpoint
            &&& lan_endpoint is None ==> target.lan_endpoint == before.lan_endpoint
            &&& target.bluetooth_endpoint == before.bluetooth_endpoint
        },
{
}

/// Plans for one device are given up together, and plans for others are kept.
pub proof fn law_plans_of_one_device_are_given_up(
    app: &mut AppState,
    device_id: Uuid,
    session: Uuid,
    r: Option<ReconnectTarget>,
)
    requires
        call_ensures(AppState::cancel_reconnect_for_peer, (app, device_id), ()),
        call_ensures(AppState::reconnect_target_for_peer, (final(app), device_id), r),
    ensures
        r is None,
        final(app).reconnects@.dom().contains(session) <==> old(app).reconnects@.dom().contains(
            session,
        ) && old(app).reconnects@[session].target.device_id != Some(device_id),
        final(app).reconnects@.dom().contains(session)
            ==> final(app).reconnects@[session] == old(app).reconnects@[session],
{
    if r is Some {
        let s = choose|s: Uuid| #[trigger]
            final(app).plans_for(s, device_id) && r->0 == final(app).reconnects@[s].target;
        assert(final(app).reconnects@.dom().contains(s));
    }
}

} // verus!
