//! The course of a handshake between two devices, once the stream between them is encrypted.
use super::handshake;
use super::handshake::{
    LanHandshakeMessage, PairingAnswer, PeerHello, TrustStep, WireTrustStatus,
};
use crate::error::{AppError, AppResult};
use crate::ids::Uuid;
use crate::state::trust;
use crate::state::{AppState, MAX_PEERS};
use crate::text;
use vstd::prelude::*;

verus! {

/// What stays the same throughout a handshake.
#[derive(Debug)]
pub struct Establishment {
    /// This device has opened the stream.
    pub initiator: bool,
    /// The device that it has been opened to, where that is known.
    pub expected: Option<Uuid>,
    pub handshake_hash: Vec<u8>,
    pub remote_public_key: Vec<u8>,
}

/// How far a handshake has come.
#[derive(Debug)]
pub enum Stage {
    /// The devices present themselves.
    Hello,
    /// This device waits for another stream between the two.
    Contended(PeerHello),
    /// The devices say what they know of each other.
    Trust(PeerHello, WireTrustStatus),
    /// The user is asked.
    Pairing(PeerHello, Uuid),
    /// The devices say how their users have answered.
    Deciding(PeerHello, bool),
}

/// What has happened.
#[derive(Debug)]
pub enum EstablishEvent {
    /// The other device has sent this.
    Message(LanHandshakeMessage),
    /// The wait is over.
    Waited,
    /// The user has answered.
    Answer(PairingAnswer),
}

/// What is to be done next.
#[derive(Debug)]
pub enum EstablishStep {
    /// This is to be sent, and the other device's message read: by the device that has opened the
    /// stream in this order, by the other the other way round.
    Exchange(Stage, LanHandshakeMessage),
    /// The stream is to be left alone for a while.
    Wait(Stage),
    /// The user is to be asked.
    AskUser(Stage, Uuid),
    /// The two devices may talk.
    Established(PeerHello, TrustStep),
}

/// The event is one that the stage waits for.
pub open spec fn awaits(stage: Stage, event: EstablishEvent) -> bool {
    match stage {
        Stage::Hello | Stage::Trust(_, _) | Stage::Deciding(_, _) => event is Message,
        Stage::Contended(_) => event is Waited,
        Stage::Pairing(_, _) => event is Answer,
    }
}

impl AppState {
    /// What is wrong with the way in which a device presents itself.
    pub open spec fn hello_fault(&self, message: LanHandshakeMessage, expected: Option<Uuid>) -> Option<
        Seq<char>,
    > {
        if !AppState::is_proper_hello(message) {
            Some("远端设备身份信息无效"@)
        } else if message->device_id == self.device_id {
            Some("拒绝连接到本机设备身份"@)
        } else if expected is Some && expected->0 != message->device_id {
            Some("局域网发现的设备身份与握手身份不一致"@)
        } else {
            None
        }
    }

    /// This device says what it knows of the other.
    pub open spec fn tells_trust(
        &self,
        e: Establishment,
        peer: PeerHello,
        r: AppResult<EstablishStep>,
    ) -> bool {
        let local = handshake::wire_trust(
            trust::trust_of(self.trusted(), peer.device_id, e.remote_public_key@),
        );
        r == Ok::<EstablishStep, AppError>(
            EstablishStep::Exchange(
                Stage::Trust(peer, local),
                LanHandshakeMessage::Trust { status: local },
            ),
        )
    }

    /// The user is asked whether the other device shows the same code.
    pub open spec fn asks_user(
        pre: AppState,
        post: AppState,
        e: Establishment,
        peer: PeerHello,
        r: AppResult<EstablishStep>,
    ) -> bool {
        if pre.pending_pairings@.dom().len() >= MAX_PEERS {
            &&& r matches Err(error)
            &&& error.is_security("待确认的设备配对请求过多，请先处理当前请求"@)
            &&& post == pre
        } else if pre.is_pairing(peer.device_id) {
            &&& r matches Err(error)
            &&& error.is_security("该设备已有待确认的配对请求"@)
            &&& post == pre
        } else {
            &&& r matches Ok(EstablishStep::AskUser(stage, request_id))
            &&& stage == Stage::Pairing(peer, request_id)
            &&& post == (AppState { pending_pairings: post.pending_pairings, ..pre })
            &&& request_id.is_random()
            &&& post.pending_pairings@.dom() == pre.pending_pairings@.dom().insert(request_id)
            &&& post.pending_pairings@.remove(request_id) == pre.pending_pairings@.remove(
                request_id,
            )
            &&& post.pending_pairings@[request_id].request_id == request_id
            &&& post.pending_pairings@[request_id].device_id == peer.device_id
            &&& post.pending_pairings@[request_id].device_name@ == peer.name@
            &&& post.pending_pairings@[request_id].verification_code@ == text::padded_of(
                handshake::code_value(e.handshake_hash@, pre.device_id, peer.device_id),
                6,
            )
        }
    }

    /// What an event changes in the course of a handshake, and what is to be done next.
    pub open spec fn proceeds(
        pre: AppState,
        post: AppState,
        e: Establishment,
        stage: Stage,
        event: EstablishEvent,
        r: AppResult<EstablishStep>,
    ) -> bool {
        match stage {
            Stage::Hello => {
                let message = event->Message_0;
                let peer = PeerHello {
                    device_id: message->device_id,
                    name: message->device_name,
                    tcp_port: message->tcp_port,
                };
                &&& post == pre
                &&& match pre.hello_fault(message, e.expected) {
                    Some(fault) => r matches Err(error) && error.is_security(fault),
                    None => if handshake::is_preferred(
                        e.initiator,
                        pre.device_id,
                        peer.device_id,
                    ) {
                        pre.tells_trust(e, peer, r)
                    } else {
                        r == Ok::<EstablishStep, AppError>(
                            EstablishStep::Wait(Stage::Contended(peer)),
                        )
                    },
                }
            },
            Stage::Contended(peer) => {
                &&& post == pre
                &&& if pre.is_connected(peer.device_id) {
                    r matches Err(error) && error.is_security("已保留双方同时发起的另一条连接"@)
                } else {
                    pre.tells_trust(e, peer, r)
                }
            },
            Stage::Trust(peer, local) => match event->Message_0 {
                LanHandshakeMessage::Trust { status } => match handshake::trust_step(
                    local,
                    status,
                ) {
                    None => {
                        &&& post == pre
                        &&& r matches Err(error)
                        &&& error.is_security(
                            "设备身份已变化，请在设置中移除原信任后重新配对"@,
                        )
                    },
                    Some(TrustStep::Proceed) => {
                        &&& post == pre
                        &&& r == Ok::<EstablishStep, AppError>(
                            EstablishStep::Established(peer, TrustStep::Proceed),
                        )
                    },
                    Some(TrustStep::Pair) => AppState::asks_user(pre, post, e, peer, r),
                },
                _ => {
                    &&& post == pre
                    &&& r matches Err(error)
                    &&& error.is_security("远端未返回身份信任状态"@)
                },
            },
            Stage::Pairing(peer, request_id) => if event->Answer_0 is TimedOut {
                &&& post == pre
                &&& r matches Err(error)
                &&& error.is_security("设备配对确认超时"@)
            } else {
                let accepted = event->Answer_0 == PairingAnswer::Answered(true);
                &&& post == (AppState { pending_pairings: post.pending_pairings, ..pre })
                &&& post.pending_pairings@ == pre.pending_pairings@.remove(request_id)
                &&& r == Ok::<EstablishStep, AppError>(
                    EstablishStep::Exchange(
                        Stage::Deciding(peer, accepted),
                        LanHandshakeMessage::Decision { accepted },
                    ),
                )
            },
            Stage::Deciding(peer, accepted) => {
                &&& post == pre
                &&& if accepted && event->Message_0 == (LanHandshakeMessage::Decision {
                    accepted: true,
                }) {
                    r == Ok::<EstablishStep, AppError>(
                        EstablishStep::Established(peer, TrustStep::Pair),
                    )
                } else {
                    r matches Err(error) && error.is_security("设备配对已被拒绝"@)
                }
            },
        }
    }

    /// Begins the handshake on an encrypted stream.
    pub fn begin_establishment(&self) -> (r: AppResult<EstablishStep>)
        ensures
            match self.network_runtime {
                Some(runtime) => {
                    &&& r matches Ok(EstablishStep::Exchange(stage, hello))
                    &&& stage is Hello
                    &&& hello is Hello
                    &&& hello->device_id == self.device_id
                    &&& hello->device_name@ == self.device_name@
                    &&& hello->tcp_port == runtime.tcp_port
                },
                None => r matches Err(e) && e.is_protocol("本机局域网接收服务不可用"@),
            },
    {
        match self.local_hello() {
            Ok(hello) => Ok(EstablishStep::Exchange(Stage::Hello, hello)),
            Err(e) => Err(e),
        }
    }

    fn tell_trust(&self, e: &Establishment, peer: PeerHello) -> (r: AppResult<EstablishStep>)
        ensures
            self.tells_trust(*e, peer, r),
    {
        let local = self.local_trust(peer.device_id, e.remote_public_key.as_slice());
        Ok(
            EstablishStep::Exchange(
                Stage::Trust(peer, local),
                LanHandshakeMessage::Trust { status: local },
            ),
        )
    }

    /// Takes the next event in the course of a handshake.
    pub fn establish(&mut self, e: &Establishment, stage: Stage, event: EstablishEvent) -> (r:
        AppResult<EstablishStep>)
        requires
            old(self).wf(),
            awaits(stage, event),
        ensures
            final(self).wf(),
            AppState::proceeds(*old(self), *final(self), *e, stage, event, r),
    {
        match (stage, event) {
            (Stage::Hello, EstablishEvent::Message(message)) => {
                match self.accept_hello(message, e.expected) {
                    Err(error) => Err(error),
                    Ok(peer) => {
                        if handshake::yields(e.initiator, self.device_id, peer.device_id) {
                            Ok(EstablishStep::Wait(Stage::Contended(peer)))
                        } else {
                            self.tell_trust(e, peer)
                        }
                    },
                }
            },
            (Stage::Contended(peer), EstablishEvent::Waited) => {
                match self.check_contention(peer.device_id) {
                    Err(error) => Err(error),
                    Ok(()) => self.tell_trust(e, peer),
                }
            },
            (Stage::Trust(peer, local), EstablishEvent::Message(message)) => {
                match handshake::judge_trust(local, &message) {
                    Err(error) => Err(error),
                    Ok(TrustStep::Proceed) => Ok(
                        EstablishStep::Established(peer, TrustStep::Proceed),
                    ),
                    Ok(TrustStep::Pair) => {
                        match self.ask_for_pairing(&peer, e.handshake_hash.as_slice()) {
                            Err(error) => Err(error),
                            Ok(request_id) => Ok(
                                EstablishStep::AskUser(Stage::Pairing(peer, request_id), request_id),
                            ),
                        }
                    },
                }
            },
            (Stage::Pairing(peer, request_id), EstablishEvent::Answer(answer)) => {
                match self.pairing_answered(request_id, answer) {
                    Err(error) => Err(error),
                    Ok(accepted) => Ok(
                        EstablishStep::Exchange(
                            Stage::Deciding(peer, accepted),
                            LanHandshakeMessage::Decision { accepted },
                        ),
                    ),
                }
            },
            (Stage::Deciding(peer, accepted), EstablishEvent::Message(message)) => {
                match handshake::judge_decision(accepted, &message) {
                    Err(error) => Err(error),
                    Ok(()) => Ok(EstablishStep::Established(peer, TrustStep::Pair)),
                }
            },
            _ => Err(AppError::security("远端设备身份信息无效")),
        }
    }
}

/// A handshake ends in a connection only where each device has told the other that it trusts it, or
/// that its user has accepted.
pub proof fn law_strangers_are_not_let_in(
    pre: AppState,
    post: AppState,
    e: Establishment,
    stage: Stage,
    event: EstablishEvent,
    peer: PeerHello,
    step: TrustStep,
)
    requires
        awaits(stage, event),
        AppState::proceeds(pre, post, e, stage, event, Ok(EstablishStep::Established(peer, step))),
    ensures
        ({
            ||| stage == Stage::Trust(peer, WireTrustStatus::Trusted)
                && event->Message_0 == (LanHandshakeMessage::Trust {
                status: WireTrustStatus::Trusted,
            }) && step is Proceed
            ||| stage == Stage::Deciding(peer, true) && event->Message_0
                == (LanHandshakeMessage::Decision { accepted: true }) && step is Pair
        }),
{
}

/// A handshake from its beginning on, step by step: the state of this device before and after each
/// step, which may change in between, the stage that it had come to, what happened, and what was to
/// be done next.
pub struct HandshakeRun {
    pub before: Seq<AppState>,
    pub after: Seq<AppState>,
    pub stages: Seq<Stage>,
    pub events: Seq<EstablishEvent>,
    pub results: Seq<AppResult<EstablishStep>>,
}

/// The stage that a step leads to, where the handshake goes on.
pub open spec fn next_stage(step: EstablishStep) -> Option<Stage> {
    match step {
        EstablishStep::Exchange(stage, _) => Some(stage),
        EstablishStep::Wait(stage) => Some(stage),
        EstablishStep::AskUser(stage, _) => Some(stage),
        EstablishStep::Established(_, _) => None,
    }
}

impl HandshakeRun {
    /// Each step follows on the one before, the first on the beginning, and this device stays the
    /// same.
    pub open spec fn is_run_of(&self, e: Establishment, own_id: Uuid) -> bool {
        let n = self.stages.len();
        &&& n > 0
        &&& self.before.len() == n && self.after.len() == n
        &&& self.events.len() == n && self.results.len() == n
        &&& self.stages[0] is Hello
        &&& forall|i: int|
            #![trigger self.stages[i]]
            0 <= i < n ==> {
                &&& self.before[i].device_id == own_id
                &&& awaits(self.stages[i], self.events[i])
                &&& AppState::proceeds(
                    self.before[i],
                    self.after[i],
                    e,
                    self.stages[i],
                    self.events[i],
                    self.results[i],
                )
            }
        &&& forall|i: int|
            #![trigger self.stages[i]]
            0 < i < n ==> self.results[i - 1] is Ok && next_stage(self.results[i - 1]->Ok_0)
                == Some(self.stages[i])
    }

    /// When a step began, the other device was among those that this one trusts, under the key of
    /// the stream.
    pub open spec fn trusted_at(&self, i: int, e: Establishment, peer: PeerHello) -> bool {
        trust::trust_of(self.before[i].trusted(), peer.device_id, e.remote_public_key@) is Trusted
    }

    /// At a step, the user of this device was shown the name of the other and the code of the
    /// stream under this request.
    pub open spec fn shown_at(
        &self,
        i: int,
        e: Establishment,
        own_id: Uuid,
        peer: PeerHello,
        request_id: Uuid,
    ) -> bool {
        let request = self.after[i].pending_pairings@[request_id];
        &&& self.results[i] == Ok::<EstablishStep, AppError>(
            EstablishStep::AskUser(Stage::Pairing(peer, request_id), request_id),
        )
        &&& self.after[i].pending_pairings@.contains_key(request_id)
        &&& request.device_id == peer.device_id
        &&& request.device_name@ == peer.name@
        &&& request.verification_code@ == text::padded_of(
            handshake::code_value(e.handshake_hash@, own_id, peer.device_id),
            6,
        )
    }

    /// The user of this device has accepted the other at a step, after its code was shown.
    pub open spec fn accepted_at(
        &self,
        i: int,
        e: Establishment,
        own_id: Uuid,
        peer: PeerHello,
    ) -> bool {
        &&& 0 < i
        &&& self.stages[i] is Pairing
        &&& self.stages[i]->Pairing_0 == peer
        &&& self.events[i] == EstablishEvent::Answer(PairingAnswer::Answered(true))
        &&& self.shown_at(i - 1, e, own_id, peer, self.stages[i]->Pairing_1)
    }

    /// What is known of the other device at a stage, from the steps before.
    pub open spec fn is_founded(&self, i: int, e: Establishment, own_id: Uuid) -> bool {
        match self.stages[i] {
            Stage::Hello => true,
            Stage::Contended(peer) => is_known(peer, e, own_id),
            Stage::Trust(peer, local) => {
                &&& is_known(peer, e, own_id)
                &&& local is Trusted ==> 0 < i && self.trusted_at(i - 1, e, peer)
            },
            Stage::Pairing(peer, request_id) => {
                &&& is_known(peer, e, own_id)
                &&& 0 < i && self.shown_at(i - 1, e, own_id, peer, request_id)
            },
            Stage::Deciding(peer, accepted) => {
                &&& is_known(peer, e, own_id)
                &&& accepted ==> 0 < i && self.accepted_at(i - 1, e, own_id, peer)
            },
        }
    }
}

/// The other device has presented itself properly: it is not this one, and it is the one that was
/// expected.
pub open spec fn is_known(peer: PeerHello, e: Establishment, own_id: Uuid) -> bool {
    &&& peer.device_id != own_id
    &&& e.expected is Some ==> e.expected->0 == peer.device_id
    &&& handshake::is_showable_name(peer.name@)
    &&& peer.tcp_port != 0
}

proof fn lemma_founded(run: HandshakeRun, e: Establishment, own_id: Uuid, i: int)
    requires
        run.is_run_of(e, own_id),
        0 <= i < run.stages.len(),
    ensures
        run.is_founded(i, e, own_id),
    decreases i,
{
    if i > 0 {
        lemma_founded(run, e, own_id, i - 1);
        let stage = run.stages[i - 1];
        assert(next_stage(run.results[i - 1]->Ok_0) == Some(run.stages[i]));
        assert(AppState::proceeds(
            run.before[i - 1],
            run.after[i - 1],
            e,
            stage,
            run.events[i - 1],
            run.results[i - 1],
        ));
    }
}

/// A handshake that ends in a connection has let in nobody but the device that was expected, which
/// is not this one. Either this device trusted it under the key of the stream when it said so, and
/// the other has said that it trusts this one; or the user of this device was shown the code of the
/// stream and has accepted, and the other device has said that its user has accepted too.
pub proof fn law_only_known_devices_are_let_in(
    run: HandshakeRun,
    e: Establishment,
    own_id: Uuid,
    peer: PeerHello,
    step: TrustStep,
)
    requires
        run.is_run_of(e, own_id),
        run.results.last() == Ok::<EstablishStep, AppError>(EstablishStep::Established(peer, step)),
    ensures
        is_known(peer, e, own_id),
        step is Proceed || step is Pair,
        step is Proceed ==> {
            &&& run.events.last() == EstablishEvent::Message(
                LanHandshakeMessage::Trust { status: WireTrustStatus::Trusted },
            )
            &&& exists|i: int| 0 <= i < run.stages.len() && #[trigger] run.trusted_at(i, e, peer)
        },
        step is Pair ==> {
            &&& run.events.last() == EstablishEvent::Message(
                LanHandshakeMessage::Decision { accepted: true },
            )
            &&& exists|i: int|
                0 <= i < run.stages.len() && #[trigger] run.accepted_at(i, e, own_id, peer)
        },
{
    let n = run.stages.len() as int;
    lemma_founded(run, e, own_id, n - 1);
    assert(run.stages[n - 1] == run.stages.last());
    law_strangers_are_not_let_in(
        run.before[n - 1],
        run.after[n - 1],
        e,
        run.stages[n - 1],
        run.events[n - 1],
        peer,
        step,
    );
    if step is Proceed {
        assert(run.trusted_at(n - 2, e, peer));
    } else {
        assert(run.accepted_at(n - 2, e, own_id, peer));
    }
}

/// A device that presents itself properly is told what is known of it, at once on the stream that is
/// kept, and after a wait on the other; one that does not is turned away.
pub proof fn law_proper_presentation_is_answered(
    app: &mut AppState,
    e: Establishment,
    device_id: Uuid,
    device_name: String,
    tcp_port: u16,
    name: &str,
    shown: bool,
    key: &[u8],
    known: WireTrustStatus,
    gives_way: bool,
    r: AppResult<EstablishStep>,
)
    requires
        call_ensures(
            AppState::establish,
            (
                app,
                &e,
                Stage::Hello,
                EstablishEvent::Message(
                    LanHandshakeMessage::Hello { device_id, device_name, tcp_port },
                ),
            ),
            r,
        ),
        name@ == device_name@,
        call_ensures(handshake::showable_name, (name,), shown),
        key@ == e.remote_public_key@,
        call_ensures(AppState::local_trust, (old(app), device_id, key), known),
        call_ensures(handshake::yields, (e.initiator, old(app).device_id, device_id), gives_way),
    ensures
        r is Ok <==> shown && tcp_port != 0 && device_id != old(app).device_id && (
        e.expected is None || e.expected->0 == device_id),
        r is Ok && gives_way ==> (r->Ok_0 matches EstablishStep::Wait(Stage::Contended(peer))
            && peer.device_id == device_id && peer.name@ == device_name@ && peer.tcp_port
            == tcp_port),
        r is Ok && !gives_way ==> (r->Ok_0 matches EstablishStep::Exchange(
            Stage::Trust(peer, local),
            LanHandshakeMessage::Trust { status },
        ) && status == known && local == known && peer.device_id == device_id && peer.name@
            == device_name@ && peer.tcp_port == tcp_port),
        *final(app) == *old(app),
{
}

/// After the wait, a device that has not been connected meanwhile is told what is known of it.
pub proof fn law_wait_leads_on(
    app: &mut AppState,
    e: Establishment,
    peer: PeerHello,
    key: &[u8],
    known: WireTrustStatus,
    free: AppResult<()>,
    r: AppResult<EstablishStep>,
)
    requires
        call_ensures(
            AppState::establish,
            (app, &e, Stage::Contended(peer), EstablishEvent::Waited),
            r,
        ),
        key@ == e.remote_public_key@,
        call_ensures(AppState::local_trust, (old(app), peer.device_id, key), known),
        call_ensures(AppState::check_contention, (old(app), peer.device_id), free),
    ensures
        r is Ok <==> free is Ok,
        r is Ok ==> (r->Ok_0 matches EstablishStep::Exchange(
            Stage::Trust(same, local),
            LanHandshakeMessage::Trust { status },
        ) && same == peer && status == known && local == known),
{
}

/// Devices that trust each other are connected without a question, and strangers lead to one, unless
/// there is one about the device already or there are eight.
pub proof fn law_strangers_lead_to_a_question(
    app: &mut AppState,
    e: Establishment,
    peer: PeerHello,
    local: WireTrustStatus,
    status: WireTrustStatus,
    r: AppResult<EstablishStep>,
)
    requires
        call_ensures(
            AppState::establish,
            (
                app,
                &e,
                Stage::Trust(peer, local),
                EstablishEvent::Message(LanHandshakeMessage::Trust { status }),
            ),
            r,
        ),
    ensures
        local is Trusted && status is Trusted <==> r == Ok::<EstablishStep, AppError>(
            EstablishStep::Established(peer, TrustStep::Proceed),
        ),
        local is IdentityChanged || status is IdentityChanged ==> r is Err,
        !(local is Trusted && status is Trusted) && !(local is IdentityChanged
            || status is IdentityChanged) ==> (r is Ok <==> old(app).pending_pairings@.dom().len()
            < 8 && forall|q: Uuid| #[trigger]
            old(app).pending_pairings@.dom().contains(q) ==> old(app).pending_pairings@[q].device_id
                != peer.device_id),
        !(local is Trusted && status is Trusted) && r is Ok ==> (
        r->Ok_0 matches EstablishStep::AskUser(Stage::Pairing(same, request), asked) && same == peer
            && request == asked && final(app).pending_pairings@.dom().contains(request)
                && final(app).pending_pairings@[request].device_id == peer.device_id),
{
}

/// What the user has answered is told to the other device, and two clear answers make the devices
/// connected.
pub proof fn law_two_acceptances_connect(
    app: &mut AppState,
    next: &mut AppState,
    e: Establishment,
    peer: PeerHello,
    request: Uuid,
    here: bool,
    there: bool,
    told: AppResult<EstablishStep>,
    r: AppResult<EstablishStep>,
)
    requires
        call_ensures(
            AppState::establish,
            (
                app,
                &e,
                Stage::Pairing(peer, request),
                EstablishEvent::Answer(PairingAnswer::Answered(here)),
            ),
            told,
        ),
        call_ensures(
            AppState::establish,
            (
                next,
                &e,
                Stage::Deciding(peer, here),
                EstablishEvent::Message(LanHandshakeMessage::Decision { accepted: there }),
            ),
            r,
        ),
    ensures
        told == Ok::<EstablishStep, AppError>(
            EstablishStep::Exchange(
                Stage::Deciding(peer, here),
                LanHandshakeMessage::Decision { accepted: here },
            ),
        ),
        !final(app).pending_pairings@.dom().contains(request),
        here && there <==> r == Ok::<EstablishStep, AppError>(
            EstablishStep::Established(peer, TrustStep::Pair),
        ),
        r is Err <==> !(here && there),
{
}

/// A handshake begins with the presentation of this device.
pub proof fn law_handshake_begins_with_presentation(
    app: AppState,
    r: AppResult<EstablishStep>,
    own: AppResult<LanHandshakeMessage>,
)
    requires
        call_ensures(AppState::begin_establishment, (&app,), r),
        call_ensures(AppState::local_hello, (&app,), own),
    ensures
        r is Ok <==> own is Ok,
        r is Ok ==> (r->Ok_0 matches EstablishStep::Exchange(
            Stage::Hello,
            LanHandshakeMessage::Hello { device_id, device_name, tcp_port },
        ) && device_id == app.device_id && device_name@ == app.device_name@ && tcp_port
            == app.network_runtime->0.tcp_port),
{
}

} // verus!
