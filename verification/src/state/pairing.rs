//! Questions to the user whether a device may be trusted.
use super::{AppState, MAX_PEERS};
use crate::error::{AppError, AppResult};
use crate::ids::Uuid;
use crate::models::PairingRequestView;
use vstd::prelude::*;

verus! {

impl AppState {
    /// There is an open request from this device.
    pub open spec fn is_pairing(&self, device_id: Uuid) -> bool {
        exists|r: Uuid| #[trigger]
            self.pending_pairings@.dom().contains(r) && self.pending_pairings@[r].device_id
                == device_id
    }

    fn has_pairing(&self, device_id: Uuid) -> (r: bool)
        requires
            self.wf(),
        ensures
            r == self.is_pairing(device_id),
    {
        let mut i: usize = 0;
        proof {
            self.pending_pairings.lemma_order();
        }
        while i < self.pending_pairings.len()
            invariant
                self.wf(),
                i <= self.pending_pairings.order().len(),
                forall|j: int|
                    0 <= j < i
                        ==> self.pending_pairings@[#[trigger] self.pending_pairings.order()[j]].device_id
                        != device_id,
            decreases self.pending_pairings.order().len() - i,
        {
            let key = self.pending_pairings.key_at(i);
            if self.pending_pairings.value_at(i).device_id == device_id {
                assert(self.pending_pairings@.dom().contains(key));
                return true;
            }
            i = i + 1;
        }
        proof {
            self.pending_pairings.lemma_order();
            assert forall|r: Uuid| #[trigger] self.pending_pairings@.dom().contains(r) implies self.pending_pairings@[r].device_id
                != device_id by {
                let j = self.pending_pairings.order().index_of(r);
                assert(self.pending_pairings.order()[j] == r);
            }
        }
        false
    }

    /// Opens a request under a fresh identifier.
    pub fn begin_pairing(
        &mut self,
        device_id: Uuid,
        device_name: String,
        verification_code: String,
    ) -> (r: AppResult<Uuid>)
        requires
            old(self).wf(),
        ensures
            final(self).wf(),
            match r {
                Ok(request_id) => {
                    &&& request_id.is_random()
                    &&& old(self).pending_pairings@.dom().len() < MAX_PEERS
                    &&& !old(self).is_pairing(device_id)
                    &&& *final(self) == (AppState {
                        pending_pairings: final(self).pending_pairings,
                        ..*old(self)
                    })
                    &&& final(self).pending_pairings@ == old(self).pending_pairings@.insert(
                        request_id,
                        PairingRequestView { request_id, device_id, device_name, verification_code },
                    )
                },
                Err(e) => {
                    &&& *final(self) == *old(self)
                    &&& if old(self).pending_pairings@.dom().len() >= MAX_PEERS {
                        e.is_security("待确认的设备配对请求过多，请先处理当前请求"@)
                    } else {
                        old(self).is_pairing(device_id) && e.is_security(
                            "该设备已有待确认的配对请求"@,
                        )
                    }
                },
            },
    {
        let request_id = Uuid::new_v4();
        match self.begin_pairing_as(request_id, device_id, device_name, verification_code) {
            Ok(()) => Ok(request_id),
            Err(e) => Err(e),
        }
    }

    /// Opens a request under this identifier.
    pub fn begin_pairing_as(
        &mut self,
        request_id: Uuid,
        device_id: Uuid,
        device_name: String,
        verification_code: String,
    ) -> (r: AppResult<()>)
        requires
            old(self).wf(),
        ensures
            final(self).wf(),
            r is Ok <==> old(self).pending_pairings@.dom().len() < MAX_PEERS && !old(
                self,
            ).is_pairing(device_id),
            match r {
                Ok(()) => {
                    &&& *final(self) == (AppState {
                        pending_pairings: final(self).pending_pairings,
                        ..*old(self)
                    })
                    &&& final(self).pending_pairings@ == old(self).pending_pairings@.insert(
                        request_id,
                        PairingRequestView { request_id, device_id, device_name, verification_code },
                    )
                },
                Err(e) => {
                    &&& *final(self) == *old(self)
                    &&& if old(self).pending_pairings@.dom().len() >= MAX_PEERS {
                        e.is_security("待确认的设备配对请求过多，请先处理当前请求"@)
                    } else {
                        e.is_security("该设备已有待确认的配对请求"@)
                    }
                },
            },
    {
        if self.pending_pairings.len() >= MAX_PEERS {
            return Err(
                AppError::security("待确认的设备配对请求过多，请先处理当前请求"),
            );
        }
        if self.has_pairing(device_id) {
            return Err(AppError::security("该设备已有待确认的配对请求"));
        }
        self.pending_pairings.insert(
            request_id,
            PairingRequestView { request_id, device_id, device_name, verification_code },
        );
        proof {
            let m = old(self).pending_pairings@;
            let w = self.pending_pairings@;
            assert(w.dom() =~= m.dom().insert(request_id));
            assert forall|a: Uuid| #[trigger] w.dom().contains(a) implies w[a].request_id == a by {
                assert(a == request_id || m.dom().contains(a));
            }
            assert forall|a: Uuid, b: Uuid|
                #![trigger w.dom().contains(a), w.dom().contains(b)]
                w.dom().contains(a) && w.dom().contains(b) && w[a].device_id
                    == w[b].device_id implies a == b by {
                assert(a == request_id || m.dom().contains(a));
                assert(b == request_id || m.dom().contains(b));
            }
        }
        Ok(())
    }

    /// Closes a request with the user's answer. The answer is to be handed to whoever waits for it.
    pub fn resolve_pairing(&mut self, request_id: Uuid) -> (r: AppResult<()>)
        requires
            old(self).wf(),
        ensures
            final(self).wf(),
            *final(self) == (AppState {
                pending_pairings: final(self).pending_pairings,
                ..*old(self)
            }),
            final(self).pending_pairings@ == old(self).pending_pairings@.remove(request_id),
            r is Ok <==> old(self).pending_pairings@.dom().contains(request_id),
            r matches Err(e) ==> e.is_invalid_input("当前没有待确认的设备配对"@),
    {
        let known = self.pending_pairings.contains(&request_id);
        self.clear_pairing(request_id);
        if known {
            Ok(())
        } else {
            Err(AppError::invalid_input("当前没有待确认的设备配对"))
        }
    }

    /// Takes a request back.
    pub fn clear_pairing(&mut self, request_id: Uuid)
        requires
            old(self).wf(),
        ensures
            final(self).wf(),
            *final(self) == (AppState {
                pending_pairings: final(self).pending_pairings,
                ..*old(self)
            }),
            final(self).pending_pairings@ == old(self).pending_pairings@.remove(request_id),
    {
        self.pending_pairings.remove(&request_id);
        proof {
            let m = old(self).pending_pairings@;
            let w = self.pending_pairings@;
            assert(w.dom() =~= m.dom().remove(request_id));
            assert forall|a: Uuid| #[trigger] w.dom().contains(a) implies w[a].request_id == a by {
                assert(m.dom().contains(a));
            }
            assert forall|a: Uuid, b: Uuid|
                #![trigger w.dom().contains(a), w.dom().contains(b)]
                w.dom().contains(a) && w.dom().contains(b) && w[a].device_id
                    == w[b].device_id implies a == b by {
                assert(m.dom().contains(a) && m.dom().contains(b));
            }
        }
    }

    /// Takes all requests back, each with a refusal.
    pub fn cancel_all_pairings(&mut self)
        requires
            old(self).wf(),
        ensures
            final(self).wf(),
            *final(self) == (AppState {
                pending_pairings: final(self).pending_pairings,
                ..*old(self)
            }),
            final(self).pending_pairings@ == Map::<Uuid, PairingRequestView>::empty(),
    {
        self.pending_pairings.clear();
    }
}

/// The user is asked about a device with the name and the code that it came with, unless there is a
/// question about it already or there are eight.
pub proof fn law_user_is_asked(
    app: &mut AppState,
    device_id: Uuid,
    device_name: String,
    verification_code: String,
    r: AppResult<Uuid>,
)
    requires
        call_ensures(
            AppState::begin_pairing,
            (app, device_id, device_name, verification_code),
            r,
        ),
    ensures
        r is Ok <==> old(app).pending_pairings@.dom().len() < 8 && forall|q: Uuid| #[trigger]
            old(app).pending_pairings@.dom().contains(q) ==> old(app).pending_pairings@[q].device_id
                != device_id,
        r matches Ok(request) ==> {
            let asked = final(app).pending_pairings@[request];
            &&& final(app).pending_pairings@.dom().contains(request)
            &&& asked.device_id == device_id
            &&& asked.device_name@ == device_name@
            &&& asked.verification_code@ == verification_code@
            &&& asked.request_id == request
        },
        r is Err ==> *final(app) == *old(app),
{
}

/// A question can be answered once.
pub proof fn law_question_is_answered_once(
    app: &mut AppState,
    next: &mut AppState,
    request_id: Uuid,
    other: Uuid,
    first: AppResult<()>,
    second: AppResult<()>,
)
    requires
        call_ensures(AppState::resolve_pairing, (app, request_id), first),
        *next == *final(app),
        call_ensures(AppState::resolve_pairing, (next, request_id), second),
        other != request_id,
    ensures
        first is Ok <==> old(app).pending_pairings@.dom().contains(request_id),
        second is Err,
        final(next).pending_pairings@.dom().contains(other)
            <==> old(app).pending_pairings@.dom().contains(other),
{
}

/// A question that is taken back is gone, and all are when everything is stopped.
pub proof fn law_questions_can_be_taken_back(
    one: &mut AppState,
    all: &mut AppState,
    request: Uuid,
    other: Uuid,
)
    requires
        call_ensures(AppState::clear_pairing, (one, request), ()),
        call_ensures(AppState::cancel_all_pairings, (all,), ()),
        other != request,
    ensures
        !final(one).pending_pairings@.dom().contains(request),
        final(one).pending_pairings@.dom().contains(other)
            <==> old(one).pending_pairings@.dom().contains(other),
        !final(all).pending_pairings@.dom().contains(request),
{
}

} // verus!
