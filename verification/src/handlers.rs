//! What this device does with the frames that other devices send.
use crate::clipboard::{ClipboardStep, ClipboardSync, MAX_CLIPBOARD_TEXT_BYTES};
use crate::clock::Instant;
use crate::digest;
use crate::error::{AppError, AppResult};
use crate::files::receiving;
use crate::ids::{PeerItem, Uuid};
use crate::models::{Notice, NoticeLevel, TransferCancelResult, TransferState};
use crate::protocol::{Frame, Message, CAPABILITY_LAZY_DIRECTORY, PROTOCOL_VERSION};
use crate::state::lifecycle::IdentityOutcome;
use crate::state::network::LINK_KEY_LENGTH;
use crate::state::reconnects;
use crate::state::transfers;
use crate::state::{AppState, ConnectionMeta, NetworkPeer};
use crate::text;
use vstd::prelude::*;
use vstd::utf8::{encode_utf8, valid_utf8};

verus! {

/// A device that has presented itself.
#[derive(Debug)]
pub struct Greeting {
    pub device_id: Uuid,
    /// The network link is to be announced.
    pub announce_link: bool,
    /// The device is to be told of the shared directories.
    pub send_roots: bool,
    pub notice: Notice,
}

/// What is left to do with a frame.
#[derive(Debug)]
pub enum FrameAction {
    Nothing,
    Greeted(Greeting),
    /// The frame is to be sent back over the same connection.
    Reply(Frame),
    /// The connection over which the frame has come is to be closed.
    Close { reason: String },
    ApplyClipboard { device_id: Uuid, text: String, sha256: String, notice: Notice },
    ReceiveFile { device_id: Uuid, transfer_id: Uuid, name: String, size: u64 },
    ReceiveChunk { device_id: Uuid, transfer_id: Uuid, offset: u64, payload: Vec<u8> },
    FinishFile { device_id: Uuid, transfer_id: Uuid, sha256: String },
    /// The sender of the transfer is to be told of the acknowledgement, where it waits for it.
    Acknowledged { key: PeerItem, waited: bool, accepted: bool, detail: String },
    CancelTransfer { device_id: Uuid, transfer_id: Uuid, reason: String },
    /// Whoever waits for the answer to a cancellation is to be told of it.
    CancelAnswered { key: PeerItem, waited: bool },
    SendSharedFile { device_id: Uuid, request_id: Uuid, share_id: Uuid, relative_path: String },
    SendShareRoots { device_id: Uuid, request_id: Uuid },
    TakeShareRoots { device_id: Uuid, revision: Uuid, payload: Vec<u8> },
    SendDirectoryPage {
        device_id: Uuid,
        request_id: Uuid,
        share_id: Uuid,
        relative_path: String,
        offset: u32,
    },
    TakeDirectoryPage {
        device_id: Uuid,
        request_id: Uuid,
        share_id: Uuid,
        relative_path: String,
        offset: u32,
        next_offset: Option<u32>,
        payload: Vec<u8>,
    },
    /// The other device reports an error, which ends a request where one waits.
    Reported { waiting: Option<PeerItem>, notice: Notice },
}

/// What is left to do with a frame from a known device of which this module changes nothing.
pub open spec fn passed_on(frame: Frame, device_id: Uuid) -> Option<FrameAction> {
    match frame.message {
        Message::FileOffer { transfer_id, name, size, source } => Some(
            FrameAction::ReceiveFile { device_id, transfer_id, name, size },
        ),
        Message::FileChunk { transfer_id, offset } => Some(
            FrameAction::ReceiveChunk { device_id, transfer_id, offset, payload: frame.payload },
        ),
        Message::FileComplete { transfer_id, sha256 } => Some(
            FrameAction::FinishFile { device_id, transfer_id, sha256 },
        ),
        Message::TransferCancel { transfer_id, reason } => Some(
            FrameAction::CancelTransfer { device_id, transfer_id, reason },
        ),
        Message::ShareFileRequest { request_id, share_id, relative_path } => Some(
            FrameAction::SendSharedFile { device_id, request_id, share_id, relative_path },
        ),
        Message::ShareRootsRequest { request_id } => Some(
            FrameAction::SendShareRoots { device_id, request_id },
        ),
        Message::ShareRoots { request_id, revision } => Some(
            FrameAction::TakeShareRoots { device_id, revision, payload: frame.payload },
        ),
        Message::DirectoryListRequest { request_id, share_id, relative_path, offset } => Some(
            FrameAction::SendDirectoryPage {
                device_id,
                request_id,
                share_id,
                relative_path,
                offset,
            },
        ),
        Message::DirectoryListResponse {
            request_id,
            share_id,
            relative_path,
            offset,
            next_offset,
        } => Some(
            FrameAction::TakeDirectoryPage {
                device_id,
                request_id,
                share_id,
                relative_path,
                offset,
                next_offset,
                payload: frame.payload,
            },
        ),
        _ => None,
    }
}

/// The state that a transfer is in after the answer to its cancellation.
pub open spec fn state_after_cancel(result: TransferCancelResult) -> TransferState {
    match result {
        TransferCancelResult::AlreadyCompleted => TransferState::Completed,
        _ => TransferState::Canceled,
    }
}

/// The answer to a request that could not be met.
pub fn request_refusal(request_id: Uuid, error: &AppError) -> (r: Frame)
    ensures
        r.payload@.len() == 0,
        r.message matches Message::Error { request_id: id, message } && id == Some(request_id)
            && message@ == error.message(),
{
    Frame::new(Message::Error { request_id: Some(request_id), message: error.to_string() })
}

/// The answer to a file that could not be taken.
pub fn offer_refusal(transfer_id: Uuid, error: &AppError) -> (r: Frame)
    ensures
        receiving::is_ack(r, transfer_id, false, error.message()),
{
    receiving::transfer_ack(transfer_id, false, error.to_string())
}

impl AppState {
    /// The state with the connection used now.
    pub open spec fn uses(pre: AppState, post: AppState, generation: Uuid, now: Instant) -> bool {
        &&& post == (AppState { connections: post.connections, ..pre })
        &&& post.connections.order() == pre.connections.order()
        &&& post.connections@ == AppState::used_at(pre.connections@, generation, now)
    }

    /// The network link that a device has offered is noted, where it can be.
    pub open spec fn takes_offer(
        pre: AppState,
        post: AppState,
        generation: Uuid,
        device_id: Uuid,
        offer: crate::protocol::NetworkOffer,
    ) -> bool {
        if pre.is_bluetooth_link(generation, None) && offer.key@.len() == LINK_KEY_LENGTH
            && pre.is_bluetooth_link(generation, Some(device_id)) {
            &&& post == (AppState { network_peers: post.network_peers, ..pre })
            &&& post.network_peers@ == pre.network_peers@.insert(
                device_id,
                NetworkPeer {
                    bluetooth_generation: generation,
                    device_id,
                    session_id: offer.session_id,
                    key: offer.key,
                },
            )
        } else {
            post == pre
        }
    }

    /// What follows once it is known who is at the other end of a connection.
    pub open spec fn admits(
        known: AppState,
        post: AppState,
        generation: Uuid,
        message: Message,
        r: AppResult<FrameAction>,
    ) -> bool {
        let device_id = message->Hello_device_id;
        let offer = message->network_offer;
        let linked = offer is Some && known.is_bluetooth_link(generation, None);
        &&& match offer {
            Some(o) => AppState::takes_offer(known, post, generation, device_id, o),
            None => post == known,
        }
        &&& if linked && offer->0.key@.len() != LINK_KEY_LENGTH {
            r matches Err(e) && e.is_protocol("局域网链路密钥长度无效"@)
        } else {
            r matches Ok(FrameAction::Greeted(greeting)) && {
                &&& greeting.device_id == device_id
                &&& greeting.announce_link == linked
                &&& greeting.send_roots == post.is_capable(device_id, CAPABILITY_LAZY_DIRECTORY@)
                &&& greeting.notice.level == NoticeLevel::Success
                &&& greeting.notice.message@ == "已连接 "@ + message->device_name@
            }
        }
    }

    /// What a device that presents itself changes, and what is left to do.
    pub open spec fn greets(
        pre: AppState,
        post: AppState,
        generation: Uuid,
        message: Message,
        r: AppResult<FrameAction>,
    ) -> bool {
        let device_id = message->Hello_device_id;
        if message->protocol_version != PROTOCOL_VERSION {
            &&& r matches Err(e)
            &&& e.is_protocol(
                "对方协议版本 "@ + text::decimal_of(message->protocol_version as nat)
                    + " 与本机不兼容"@,
            )
            &&& post == pre
        } else {
            match pre.identity_outcome(generation, device_id) {
                IdentityOutcome::Missing => r matches Ok(FrameAction::Nothing) && post == pre,
                IdentityOutcome::Duplicate => {
                    &&& r matches Ok(FrameAction::Close { reason })
                    &&& reason@ == "已存在同一设备连接"@
                    &&& post == (AppState { connections: post.connections, ..pre })
                    &&& post.connections@ == pre.connections@.remove(generation)
                },
                IdentityOutcome::Accepted => exists|known: AppState| #[trigger]
                    AppState::identifies(
                        pre,
                        known,
                        generation,
                        device_id,
                        message->device_name,
                        message->capabilities,
                    ) && AppState::admits(known, post, generation, message, r),
            }
        }
    }

    /// Takes the way in which the device at the other end of a connection presents itself.
    fn handle_hello(
        &mut self,
        generation: Uuid,
        protocol_version: u16,
        device_id: Uuid,
        device_name: String,
        capabilities: Vec<String>,
        network_offer: Option<crate::protocol::NetworkOffer>,
    ) -> (r: AppResult<FrameAction>)
        requires
            old(self).wf(),
        ensures
            final(self).wf(),
            AppState::greets(
                *old(self),
                *final(self),
                generation,
                Message::Hello {
                    protocol_version,
                    device_id,
                    device_name,
                    capabilities,
                    network_offer,
                },
                r,
            ),
    {
        if protocol_version != PROTOCOL_VERSION {
            return Err(
                AppError::Protocol(
                    text::joined3(
                        "对方协议版本 ",
                        &text::decimal(protocol_version as u128),
                        " 与本机不兼容",
                    ),
                ),
            );
        }
        match self.update_peer_identity(generation, device_id, device_name.clone(), capabilities) {
            IdentityOutcome::Missing => {
                return Ok(FrameAction::Nothing);
            },
            IdentityOutcome::Duplicate => {
                return Ok(FrameAction::Close { reason: String::from_str("已存在同一设备连接") });
            },
            IdentityOutcome::Accepted => {},
        }
        let ghost known = *self;
        proof {
            let message = Message::Hello {
                protocol_version,
                device_id,
                device_name,
                capabilities,
                network_offer,
            };
            assert(AppState::identifies(
                *old(self),
                known,
                generation,
                message->Hello_device_id,
                message->device_name,
                message->capabilities,
            ));
        }
        let announce_link = match network_offer {
            Some(offer) => match self.negotiate_network(generation, device_id, offer) {
                Ok(announce) => announce,
                Err(e) => {
                    return Err(e);
                },
            },
            None => false,
        };
        let send_roots = self.supports_capability(device_id, CAPABILITY_LAZY_DIRECTORY);
        Ok(
            FrameAction::Greeted(
                Greeting {
                    device_id,
                    announce_link,
                    send_roots,
                    notice: Notice {
                        level: NoticeLevel::Success,
                        message: text::joined("已连接 ", &device_name),
                    },
                },
            ),
        )
    }

    /// What is left to do with the text of a clipboard.
    pub open spec fn clipboard_verdict(
        &self,
        generation: Uuid,
        sha256: String,
        payload: Seq<u8>,
        r: AppResult<FrameAction>,
    ) -> bool {
        match self.peer_of(generation) {
            None => r matches Err(e) && e is NotConnected,
            Some(peer) => if !self.clipboard_enabled {
                r matches Ok(FrameAction::Nothing)
            } else if payload.len() > MAX_CLIPBOARD_TEXT_BYTES {
                r matches Err(e) && e.is_protocol("远端剪贴板文本超过大小限制"@)
            } else if digest::digest_text(payload) != sha256@ {
                r matches Err(e) && e.is_protocol("远端剪贴板内容校验失败"@)
            } else if !valid_utf8(payload) {
                r matches Err(e) && e.is_protocol("远端剪贴板不是有效 UTF-8 文本"@)
            } else {
                r matches Ok(FrameAction::ApplyClipboard { device_id, text, sha256: hash, notice })
                    && {
                    &&& device_id == peer
                    &&& encode_utf8(text@) == payload
                    &&& hash == sha256
                    &&& notice.level == NoticeLevel::Info
                    &&& notice.message@ == "已同步对方剪贴板文本"@
                }
            },
        }
    }

    /// Takes the text of another device's clipboard.
    fn handle_clipboard(&self, generation: Uuid, sha256: String, payload: Vec<u8>) -> (r: AppResult<
        FrameAction,
    >)
        requires
            self.wf(),
        ensures
            self.clipboard_verdict(generation, sha256, payload@, r),
    {
        let device_id = match self.peer_for_generation(generation) {
            Some(device_id) => device_id,
            None => {
                return Err(AppError::NotConnected);
            },
        };
        if !self.clipboard_enabled {
            return Ok(FrameAction::Nothing);
        }
        if payload.len() > MAX_CLIPBOARD_TEXT_BYTES {
            return Err(AppError::protocol("远端剪贴板文本超过大小限制"));
        }
        let hash = digest::hash_bytes(payload.as_slice());
        if !text::same(&hash, &sha256) {
            return Err(AppError::protocol("远端剪贴板内容校验失败"));
        }
        match text::from_utf8(payload) {
            None => Err(AppError::protocol("远端剪贴板不是有效 UTF-8 文本")),
            Some(text) => Ok(
                FrameAction::ApplyClipboard {
                    device_id,
                    text,
                    sha256,
                    notice: Notice {
                        level: NoticeLevel::Info,
                        message: String::from_str("已同步对方剪贴板文本"),
                    },
                },
            ),
        }
    }

    /// What a message over a connection changes, and what is left to do with it.
    pub open spec fn handles(
        pre: AppState,
        post: AppState,
        generation: Uuid,
        frame: Frame,
        now: Instant,
        r: AppResult<FrameAction>,
    ) -> bool {
        match frame.message {
            Message::Hello { .. } => AppState::greets(pre, post, generation, frame.message, r),
            Message::NetworkHello { .. } => {
                &&& r matches Err(e)
                &&& e.is_protocol("局域网握手消息不能出现在业务消息流中"@)
                &&& post == pre
            },
            Message::Ping { nonce } => {
                &&& r matches Ok(FrameAction::Reply(reply))
                &&& reply.message == (Message::Pong { nonce })
                &&& reply.payload@.len() == 0
                &&& post == pre
            },
            Message::Pong { .. } => {
                &&& r matches Ok(FrameAction::Nothing)
                &&& post == (AppState { connections: post.connections, ..pre })
                &&& post.connections@ == if pre.connections@.dom().contains(generation) {
                    pre.connections@.insert(
                        generation,
                        ConnectionMeta {
                            last_pong: now,
                            last_active: now,
                            ..pre.connections@[generation]
                        },
                    )
                } else {
                    pre.connections@
                }
            },
            Message::Disconnect { reason } => {
                &&& post == (AppState { reconnects: post.reconnects, ..pre })
                &&& post.reconnects@ == match pre.peer_of(generation) {
                    Some(device_id) => reconnects::plans_without(pre.reconnects@, device_id),
                    None => pre.reconnects@,
                }
                &&& r matches Ok(FrameAction::Close { reason: told })
                &&& told@ == if reason@.len() == 0 {
                    "对方主动断开连接"@
                } else {
                    "对方主动断开连接："@ + reason@
                }
            },
            Message::ClipboardText { message_id, sha256 } => post == pre && pre.clipboard_verdict(
                generation,
                sha256,
                frame.payload@,
                r,
            ),
            Message::TransferAck { transfer_id, accepted, detail } => match pre.peer_of(
                generation,
            ) {
                None => r matches Err(e) && e is NotConnected && post == pre,
                Some(device_id) => {
                    let key = PeerItem { peer: device_id, item: transfer_id };
                    &&& r == Ok::<FrameAction, AppError>(
                        FrameAction::Acknowledged {
                            key,
                            waited: pre.transfer_acks@.dom().contains(key),
                            accepted,
                            detail,
                        },
                    )
                    &&& post == (AppState {
                        transfer_acks: post.transfer_acks,
                        transfers: post.transfers,
                        ..pre
                    })
                    &&& post.transfer_acks@ == pre.transfer_acks@.remove(key)
                    &&& post.transfers@ == transfers::transfers_updated(
                        pre.transfers@,
                        transfer_id,
                        None,
                        Some(
                            if accepted {
                                TransferState::Completed
                            } else {
                                TransferState::Failed
                            },
                        ),
                        Some(detail),
                        now,
                    )
                },
            },
            Message::TransferCancelAck { transfer_id, result, detail } => match pre.peer_of(
                generation,
            ) {
                None => r matches Err(e) && e is NotConnected && post == pre,
                Some(device_id) => {
                    let key = PeerItem { peer: device_id, item: transfer_id };
                    &&& r == Ok::<FrameAction, AppError>(
                        FrameAction::CancelAnswered {
                            key,
                            waited: pre.pending_cancel_acks@.dom().contains(key),
                        },
                    )
                    &&& post == (AppState {
                        pending_cancel_acks: post.pending_cancel_acks,
                        transfers: post.transfers,
                        ..pre
                    })
                    &&& post.pending_cancel_acks@ == pre.pending_cancel_acks@.remove(key)
                    &&& post.transfers@ == transfers::transfers_updated(
                        pre.transfers@,
                        transfer_id,
                        None,
                        Some(state_after_cancel(result)),
                        Some(detail),
                        now,
                    )
                },
            },
            Message::Error { request_id, message } => {
                let key = match (pre.peer_of(generation), request_id) {
                    (Some(device_id), Some(request)) => Some(
                        PeerItem { peer: device_id, item: request },
                    ),
                    _ => None,
                };
                &&& r matches Ok(FrameAction::Reported { waiting, notice })
                &&& waiting == if key is Some && pre.directory_requests@.dom().contains(key->0) {
                    key
                } else {
                    None
                }
                &&& notice == (Notice { level: NoticeLevel::Error, message })
                &&& post == (AppState { directory_requests: post.directory_requests, ..pre })
                &&& post.directory_requests@ == match key {
                    Some(k) => pre.directory_requests@.remove(k),
                    None => pre.directory_requests@,
                }
            },
            _ => {
                &&& post == pre
                &&& match pre.peer_of(generation) {
                    None => r matches Err(e) && e is NotConnected,
                    Some(device_id) => passed_on(frame, device_id) is Some && r == Ok::<
                        FrameAction,
                        AppError,
                    >(passed_on(frame, device_id)->0),
                }
            },
        }
    }

    fn handle_message(&mut self, generation: Uuid, frame: Frame, now: Instant) -> (r: AppResult<
        FrameAction,
    >)
        requires
            old(self).wf(),
        ensures
            final(self).wf(),
            AppState::handles(*old(self), *final(self), generation, frame, now, r),
    {
        let known = self.peer_for_generation(generation);
        let payload = frame.payload;
        match frame.message {
            Message::Hello {
                protocol_version,
                device_id,
                device_name,
                capabilities,
                network_offer,
            } => self.handle_hello(
                generation,
                protocol_version,
                device_id,
                device_name,
                capabilities,
                network_offer,
            ),
            Message::NetworkHello { device_id: _, session_id: _, connection_id: _ } => Err(
                AppError::protocol("局域网握手消息不能出现在业务消息流中"),
            ),
            Message::Ping { nonce } => Ok(FrameAction::Reply(Frame::new(Message::Pong { nonce }))),
            Message::Pong { nonce: _ } => {
                self.record_pong(generation, now);
                Ok(FrameAction::Nothing)
            },
            Message::Disconnect { reason } => {
                if let Some(device_id) = known {
                    self.cancel_reconnect_for_peer(device_id);
                }
                let told = if reason.unicode_len() == 0 {
                    String::from_str("对方主动断开连接")
                } else {
                    text::joined("对方主动断开连接：", &reason)
                };
                Ok(FrameAction::Close { reason: told })
            },
            Message::ClipboardText { message_id: _, sha256 } => self.handle_clipboard(
                generation,
                sha256,
                payload,
            ),
            Message::TransferAck { transfer_id, accepted, detail } => match known {
                None => Err(AppError::NotConnected),
                Some(device_id) => {
                    let waited = self.resolve_transfer_ack(device_id, transfer_id);
                    let new_state = if accepted {
                        TransferState::Completed
                    } else {
                        TransferState::Failed
                    };
                    self.update_transfer(
                        transfer_id,
                        None,
                        Some(new_state),
                        Some(detail.clone()),
                        now,
                    );
                    Ok(
                        FrameAction::Acknowledged {
                            key: PeerItem { peer: device_id, item: transfer_id },
                            waited,
                            accepted,
                            detail,
                        },
                    )
                },
            },
            Message::TransferCancelAck { transfer_id, result, detail } => match known {
                None => Err(AppError::NotConnected),
                Some(device_id) => {
                    let waited = self.finish_cancel_ack_wait(device_id, transfer_id);
                    let new_state = match result {
                        TransferCancelResult::AlreadyCompleted => TransferState::Completed,
                        _ => TransferState::Canceled,
                    };
                    self.update_transfer(transfer_id, None, Some(new_state), Some(detail), now);
                    Ok(
                        FrameAction::CancelAnswered {
                            key: PeerItem { peer: device_id, item: transfer_id },
                            waited,
                        },
                    )
                },
            },
            Message::Error { request_id, message } => {
                let notice = Notice { level: NoticeLevel::Error, message };
                let (device_id, request) = match (known, request_id) {
                    (Some(device_id), Some(request)) => (device_id, request),
                    _ => {
                        return Ok(FrameAction::Reported { waiting: None, notice });
                    },
                };
                let waited = self.resolve_directory_request(device_id, request);
                let waiting = if waited {
                    Some(PeerItem { peer: device_id, item: request })
                } else {
                    None
                };
                Ok(FrameAction::Reported { waiting, notice })
            },
            message => match known {
                None => Err(AppError::NotConnected),
                Some(device_id) => Ok(pass_on(message, payload, device_id)),
            },
        }
    }

    /// Takes a frame that has come over a connection: notes that the connection is in use,
    /// changes what the message changes, and gives what is left to do.
    pub fn handle_frame(&mut self, generation: Uuid, frame: Frame, now: Instant) -> (r: AppResult<
        FrameAction,
    >)
        requires
            old(self).wf(),
        ensures
            final(self).wf(),
            exists|active: AppState| #[trigger]
                AppState::uses(*old(self), active, generation, now) && AppState::handles(
                    active,
                    *final(self),
                    generation,
                    frame,
                    now,
                    r,
                ),
    {
        self.record_activity(generation, now);
        let ghost active = *self;
        proof {
            assert(AppState::uses(*old(self), active, generation, now));
        }
        self.handle_message(generation, frame, now)
    }
}

/// What is left to do with a message from a known device that changes nothing here.
fn pass_on(message: Message, payload: Vec<u8>, device_id: Uuid) -> (r: FrameAction)
    requires
        passed_on(Frame { message, payload }, device_id) is Some,
    ensures
        r == passed_on(Frame { message, payload }, device_id)->0,
{
    match message {
        Message::FileOffer { transfer_id, name, size, source: _ } => FrameAction::ReceiveFile {
            device_id,
            transfer_id,
            name,
            size,
        },
        Message::FileChunk { transfer_id, offset } => FrameAction::ReceiveChunk {
            device_id,
            transfer_id,
            offset,
            payload,
        },
        Message::FileComplete { transfer_id, sha256 } => FrameAction::FinishFile {
            device_id,
            transfer_id,
            sha256,
        },
        Message::TransferCancel { transfer_id, reason } => FrameAction::CancelTransfer {
            device_id,
            transfer_id,
            reason,
        },
        Message::ShareFileRequest { request_id, share_id, relative_path } =>
        FrameAction::SendSharedFile { device_id, request_id, share_id, relative_path },
        Message::ShareRootsRequest { request_id } => FrameAction::SendShareRoots {
            device_id,
            request_id,
        },
        Message::ShareRoots { request_id: _, revision } => FrameAction::TakeShareRoots {
            device_id,
            revision,
            payload,
        },
        Message::DirectoryListRequest { request_id, share_id, relative_path, offset } =>
        FrameAction::SendDirectoryPage { device_id, request_id, share_id, relative_path, offset },
        Message::DirectoryListResponse {
            request_id,
            share_id,
            relative_path,
            offset,
            next_offset,
        } => FrameAction::TakeDirectoryPage {
            device_id,
            request_id,
            share_id,
            relative_path,
            offset,
            next_offset,
            payload,
        },
        _ => FrameAction::Nothing,
    }
}

/// A frame from a device that has not presented itself changes no file, no directory and no
/// clipboard: all of them are refused.
pub proof fn law_unknown_devices_are_refused(
    pre: AppState,
    post: AppState,
    generation: Uuid,
    frame: Frame,
    now: Instant,
    r: AppResult<FrameAction>,
)
    requires
        AppState::handles(pre, post, generation, frame, now, r),
        pre.peer_of(generation) is None,
        !(frame.message is Hello),
        !(frame.message is NetworkHello),
        !(frame.message is Ping),
        !(frame.message is Pong),
        !(frame.message is Disconnect),
        !(frame.message is Error),
    ensures
        r matches Err(e) && e is NotConnected,
        post == pre,
{
}

/// The device at the other end of a connection.
pub open spec fn is_peer(app: AppState, generation: Uuid, device_id: Uuid) -> bool {
    &&& app.connections@.dom().contains(generation)
    &&& app.connections@[generation].peer_device_id == Some(device_id)
}

/// The state in which a frame is taken: as before, but that the connection is in use.
spec fn is_at_work(before: AppState, active: AppState, generation: Uuid) -> bool {
    &&& active == (AppState { connections: active.connections, ..before })
    &&& active.peer_of(generation) == before.peer_of(generation)
    &&& active.connections@.dom() =~= before.connections@.dom()
    &&& forall|g: Uuid| #[trigger]
        active.connections@.dom().contains(g) ==> active.connections@[g] == (ConnectionMeta {
            last_active: active.connections@[g].last_active,
            ..before.connections@[g]
        })
}

proof fn lemma_handled(
    app: &mut AppState,
    generation: Uuid,
    frame: Frame,
    now: Instant,
    r: AppResult<FrameAction>,
)
    requires
        call_ensures(AppState::handle_frame, (app, generation, frame, now), r),
    ensures
        exists|active: AppState| #[trigger]
            AppState::handles(active, *final(app), generation, frame, now, r) && is_at_work(
                *old(app),
                active,
                generation,
            ) && (old(app).connections@.dom().contains(generation)
                ==> active.connections@[generation].last_active == now),
{
    let active = choose|active: AppState| #[trigger]
        AppState::uses(*old(app), active, generation, now) && AppState::handles(
            active,
            *final(app),
            generation,
            frame,
            now,
            r,
        );
    assert(is_at_work(*old(app), active, generation));
}

/// What one device offers of its clipboard the other takes: each text that fits into 512 KiB comes
/// out there as it was, if the clipboard is shared there.
pub proof fn law_offered_text_arrives(
    sync: ClipboardSync,
    data: Vec<u8>,
    text: Seq<char>,
    frame: Frame,
    app: &mut AppState,
    generation: Uuid,
    peer: Uuid,
    now: Instant,
    r: AppResult<FrameAction>,
)
    requires
        data@ == encode_utf8(text),
        call_ensures(
            ClipboardSync::peer_joined,
            (&sync, true, data),
            ClipboardStep::Offer(frame),
        ),
        call_ensures(AppState::handle_frame, (app, generation, frame, now), r),
        is_peer(*old(app), generation, peer),
        old(app).clipboard_enabled,
    ensures
        r matches Ok(FrameAction::ApplyClipboard { device_id, text: taken, sha256, notice })
            && device_id == peer && taken@ == text && sha256
            == frame.message->ClipboardText_sha256,
{
    lemma_handled(app, generation, frame, now, r);
    vstd::utf8::encode_utf8_valid_utf8(text);
    vstd::utf8::encode_utf8_decode_utf8(text);
    assert(r is Ok);
    vstd::utf8::encode_utf8_decode_utf8(r->Ok_0->text@);
}

/// A text from a known device is applied exactly where the clipboard is shared, the text is not
/// longer than 512 KiB, it is well-formed, and its digest is the one that was given.
pub proof fn law_clipboard_text_is_checked(
    app: &mut AppState,
    generation: Uuid,
    peer: Uuid,
    message_id: Uuid,
    sha256: String,
    payload: Vec<u8>,
    now: Instant,
    r: AppResult<FrameAction>,
)
    requires
        call_ensures(
            AppState::handle_frame,
            (
                app,
                generation,
                Frame { message: Message::ClipboardText { message_id, sha256 }, payload },
                now,
            ),
            r,
        ),
        is_peer(*old(app), generation, peer),
    ensures
        (r matches Ok(action) && action is ApplyClipboard) <==> old(app).clipboard_enabled
            && payload@.len() <= 524288 && digest::digest_text(payload@) == sha256@ && valid_utf8(
            payload@,
        ),
        r matches Ok(FrameAction::ApplyClipboard { device_id, text, sha256: hash, notice })
            ==> device_id == peer && encode_utf8(text@) == payload@ && hash == sha256,
        !old(app).clipboard_enabled ==> (r matches Ok(action) && action is Nothing),
        final(app).transfers == old(app).transfers,
{
    let frame = Frame { message: Message::ClipboardText { message_id, sha256 }, payload };
    lemma_handled(app, generation, frame, now, r);
}

/// After the answer to a cancellation, the transfer is shown as canceled, or as completed if the
/// other device says that it was completed already, and nothing else in the list changes. Whoever
/// has waited for the answer is told, once.
pub proof fn law_cancellation_answer_is_shown(
    app: &mut AppState,
    generation: Uuid,
    peer: Uuid,
    transfer_id: Uuid,
    result: TransferCancelResult,
    detail: String,
    payload: Vec<u8>,
    now: Instant,
    k: int,
    r: AppResult<FrameAction>,
)
    requires
        call_ensures(
            AppState::handle_frame,
            (
                app,
                generation,
                Frame {
                    message: Message::TransferCancelAck { transfer_id, result, detail },
                    payload,
                },
                now,
            ),
            r,
        ),
        is_peer(*old(app), generation, peer),
        transfers::is_first_of(old(app).transfers@, k, transfer_id),
    ensures
        transfers::only_changes(old(app).transfers@, final(app).transfers@, k),
        result is Canceled ==> final(app).transfers@[k].state is Canceled,
        result is NotFound ==> final(app).transfers@[k].state is Canceled,
        result is AlreadyCompleted ==> final(app).transfers@[k].state is Completed,
        final(app).transfers@[k].detail@ == detail@,
        final(app).transfers@[k].id == transfer_id,
        final(app).transfers@[k].name == old(app).transfers@[k].name,
        final(app).transfers@[k].bytes_done == old(app).transfers@[k].bytes_done,
        r matches Ok(FrameAction::CancelAnswered { key, waited }) && key.peer == peer && key.item
            == transfer_id && waited == old(app).pending_cancel_acks@.dom().contains(key),
        !final(app).pending_cancel_acks@.dom().contains(PeerItem { peer, item: transfer_id }),
{
    let frame = Frame {
        message: Message::TransferCancelAck { transfer_id, result, detail },
        payload,
    };
    lemma_handled(app, generation, frame, now, r);
    transfers::lemma_updated(
        old(app).transfers@,
        transfer_id,
        None,
        Some(state_after_cancel(result)),
        Some(detail),
        now,
    );
}

/// After the acknowledgement of a file, the transfer is shown as completed if the other device has
/// taken it, and as failed if not, and the sender that has waited for it is told what it was told.
pub proof fn law_acknowledgement_is_shown(
    app: &mut AppState,
    generation: Uuid,
    peer: Uuid,
    transfer_id: Uuid,
    accepted: bool,
    detail: String,
    payload: Vec<u8>,
    now: Instant,
    k: int,
    r: AppResult<FrameAction>,
)
    requires
        call_ensures(
            AppState::handle_frame,
            (
                app,
                generation,
                Frame { message: Message::TransferAck { transfer_id, accepted, detail }, payload },
                now,
            ),
            r,
        ),
        is_peer(*old(app), generation, peer),
        transfers::is_first_of(old(app).transfers@, k, transfer_id),
    ensures
        transfers::only_changes(old(app).transfers@, final(app).transfers@, k),
        accepted ==> final(app).transfers@[k].state is Completed,
        !accepted ==> final(app).transfers@[k].state is Failed,
        final(app).transfers@[k].detail@ == detail@,
        final(app).transfers@[k].bytes_done == old(app).transfers@[k].bytes_done,
        r matches Ok(FrameAction::Acknowledged { key, waited, accepted: told, detail: text })
            && key.peer == peer && key.item == transfer_id && told == accepted && text@ == detail@
            && waited == old(app).transfer_acks@.dom().contains(key),
        !final(app).transfer_acks@.dom().contains(PeerItem { peer, item: transfer_id }),
{
    let frame = Frame { message: Message::TransferAck { transfer_id, accepted, detail }, payload };
    lemma_handled(app, generation, frame, now, r);
    transfers::lemma_updated(
        old(app).transfers@,
        transfer_id,
        None,
        Some(
            if accepted {
                TransferState::Completed
            } else {
                TransferState::Failed
            },
        ),
        Some(detail),
        now,
    );
}

/// A ping is answered with its own number, and the answer to a ping of this device shows that the
/// connection is alive.
pub proof fn law_ping_is_answered(
    app: &mut AppState,
    back: &mut AppState,
    generation: Uuid,
    back_generation: Uuid,
    nonce: Uuid,
    payload: Vec<u8>,
    now: Instant,
    later: Instant,
    reply: Frame,
    r: AppResult<FrameAction>,
    elapsed: Option<crate::clock::Duration>,
)
    requires
        call_ensures(
            AppState::handle_frame,
            (app, generation, Frame { message: Message::Ping { nonce }, payload }, now),
            Ok::<FrameAction, AppError>(FrameAction::Reply(reply)),
        ),
        call_ensures(AppState::handle_frame, (back, back_generation, reply, later), r),
        back.connections@.dom().contains(back_generation),
        call_ensures(AppState::pong_elapsed, (final(back), back_generation, later), elapsed),
    ensures
        reply.message matches Message::Pong { nonce: n } && n == nonce,
        r matches Ok(action) && action is Nothing,
        elapsed matches Some(time) && time.nanos == 0,
{
    let frame = Frame { message: Message::Ping { nonce }, payload };
    lemma_handled(
        app,
        generation,
        frame,
        now,
        Ok::<FrameAction, AppError>(FrameAction::Reply(reply)),
    );
    lemma_handled(back, back_generation, reply, later, r);
}

/// Every ping is answered, whoever it is from.
pub proof fn law_every_ping_is_answered(
    app: &mut AppState,
    generation: Uuid,
    nonce: Uuid,
    payload: Vec<u8>,
    now: Instant,
    r: AppResult<FrameAction>,
)
    requires
        call_ensures(
            AppState::handle_frame,
            (app, generation, Frame { message: Message::Ping { nonce }, payload }, now),
            r,
        ),
    ensures
        r matches Ok(FrameAction::Reply(reply)) && reply.message == (Message::Pong { nonce })
            && reply.payload@.len() == 0,
{
    let frame = Frame { message: Message::Ping { nonce }, payload };
    lemma_handled(app, generation, frame, now, r);
}

/// A message of a known device about a file or a directory is acted on with all that it says, as a
/// message of that device.
pub proof fn law_requests_are_passed_on(
    app: &mut AppState,
    generation: Uuid,
    peer: Uuid,
    frame: Frame,
    now: Instant,
    r: AppResult<FrameAction>,
)
    requires
        call_ensures(AppState::handle_frame, (app, generation, frame, now), r),
        is_peer(*old(app), generation, peer),
    ensures
        frame.message matches Message::FileOffer { transfer_id, name, size, source } ==> r == Ok::<
            FrameAction,
            AppError,
        >(FrameAction::ReceiveFile { device_id: peer, transfer_id, name, size }),
        frame.message matches Message::FileChunk { transfer_id, offset } ==> r == Ok::<
            FrameAction,
            AppError,
        >(
            FrameAction::ReceiveChunk {
                device_id: peer,
                transfer_id,
                offset,
                payload: frame.payload,
            },
        ),
        frame.message matches Message::FileComplete { transfer_id, sha256 } ==> r == Ok::<
            FrameAction,
            AppError,
        >(FrameAction::FinishFile { device_id: peer, transfer_id, sha256 }),
        frame.message matches Message::TransferCancel { transfer_id, reason } ==> r == Ok::<
            FrameAction,
            AppError,
        >(FrameAction::CancelTransfer { device_id: peer, transfer_id, reason }),
        frame.message matches Message::ShareFileRequest { request_id, share_id, relative_path }
            ==> r == Ok::<FrameAction, AppError>(
            FrameAction::SendSharedFile { device_id: peer, request_id, share_id, relative_path },
        ),
        frame.message matches Message::ShareRootsRequest { request_id } ==> r == Ok::<
            FrameAction,
            AppError,
        >(FrameAction::SendShareRoots { device_id: peer, request_id }),
        frame.message matches Message::ShareRoots { request_id, revision } ==> r == Ok::<
            FrameAction,
            AppError,
        >(FrameAction::TakeShareRoots { device_id: peer, revision, payload: frame.payload }),
        frame.message matches Message::DirectoryListRequest {
            request_id,
            share_id,
            relative_path,
            offset,
        } ==> r == Ok::<FrameAction, AppError>(
            FrameAction::SendDirectoryPage {
                device_id: peer,
                request_id,
                share_id,
                relative_path,
                offset,
            },
        ),
        frame.message matches Message::DirectoryListResponse {
            request_id,
            share_id,
            relative_path,
            offset,
            next_offset,
        } ==> r == Ok::<FrameAction, AppError>(
            FrameAction::TakeDirectoryPage {
                device_id: peer,
                request_id,
                share_id,
                relative_path,
                offset,
                next_offset,
                payload: frame.payload,
            },
        ),
{
    lemma_handled(app, generation, frame, now, r);
}

/// A frame over a connection shows that it is in use.
pub proof fn law_frames_keep_connections_in_use(
    app: &mut AppState,
    generation: Uuid,
    frame: Frame,
    now: Instant,
    r: AppResult<FrameAction>,
)
    requires
        call_ensures(AppState::handle_frame, (app, generation, frame, now), r),
        old(app).connections@.dom().contains(generation),
        !(frame.message is Hello),
    ensures
        final(app).connections@.dom() =~= old(app).connections@.dom(),
        final(app).connections@[generation].last_active == now,
        final(app).connections@[generation].peer_device_id
            == old(app).connections@[generation].peer_device_id,
        !(frame.message is Pong)
            ==> final(app).connections@[generation].last_pong
            == old(app).connections@[generation].last_pong,
{
    lemma_handled(app, generation, frame, now, r);
}

/// A device that takes its leave is not connected to again by itself, the connection is closed, and
/// the user is told the reason that was given.
pub proof fn law_leave_is_respected(
    app: &mut AppState,
    generation: Uuid,
    peer: Uuid,
    reason: String,
    payload: Vec<u8>,
    now: Instant,
    session: Uuid,
    r: AppResult<FrameAction>,
)
    requires
        call_ensures(
            AppState::handle_frame,
            (app, generation, Frame { message: Message::Disconnect { reason }, payload }, now),
            r,
        ),
        is_peer(*old(app), generation, peer),
    ensures
        final(app).reconnects@.dom().contains(session) ==> old(app).reconnects@.dom().contains(
            session,
        ) && final(app).reconnects@[session].target.device_id != Some(peer),
        old(app).reconnects@.dom().contains(session)
            && old(app).reconnects@[session].target.device_id != Some(peer)
            ==> final(app).reconnects@.dom().contains(session)
            && final(app).reconnects@[session] == old(app).reconnects@[session],
        r matches Ok(FrameAction::Close { reason: told }) && told@.len() >= reason@.len()
            && told@.skip(
            told@.len() - reason@.len(),
        ) == reason@ || reason@.len() == 0,
        r matches Ok(action) && action is Close,
{
    let frame = Frame { message: Message::Disconnect { reason }, payload };
    lemma_handled(app, generation, frame, now, r);
    if reason@.len() > 0 {
        let told = r->Ok_0->Close_reason@;
        assert(told.skip(told.len() - reason@.len()) =~= reason@);
    }
}

/// An error that another device reports ends the request that it names, if it is waited for, and
/// the user is told it.
pub proof fn law_reported_error_ends_request(
    app: &mut AppState,
    generation: Uuid,
    peer: Uuid,
    request: Uuid,
    message: String,
    payload: Vec<u8>,
    now: Instant,
    r: AppResult<FrameAction>,
)
    requires
        call_ensures(
            AppState::handle_frame,
            (
                app,
                generation,
                Frame { message: Message::Error { request_id: Some(request), message }, payload },
                now,
            ),
            r,
        ),
        is_peer(*old(app), generation, peer),
    ensures
        ({
            let key = PeerItem { peer, item: request };
            &&& !final(app).directory_requests@.dom().contains(key)
            &&& r matches Ok(FrameAction::Reported { waiting, notice })
            &&& waiting == Some(key) <==> old(app).directory_requests@.dom().contains(key)
            &&& waiting is Some ==> waiting == Some(key)
            &&& notice.message@ == message@
            &&& notice.level is Error
        }),
{
    let frame = Frame { message: Message::Error { request_id: Some(request), message }, payload };
    lemma_handled(app, generation, frame, now, r);
}

/// A device that presents itself over a connection is known at its other end from then on, with
/// what it can do, unless it speaks another version or is connected already.
pub proof fn law_greeting_makes_known(
    app: &mut AppState,
    generation: Uuid,
    frame: Frame,
    now: Instant,
    r: AppResult<FrameAction>,
    greeting: Greeting,
)
    requires
        call_ensures(AppState::handle_frame, (app, generation, frame, now), r),
        frame.message is Hello,
        r == Ok::<FrameAction, AppError>(FrameAction::Greeted(greeting)),
    ensures
        is_peer(*final(app), generation, frame.message->Hello_device_id),
        greeting.device_id == frame.message->Hello_device_id,
        final(app).connections@[generation].peer_name@ == frame.message->device_name@,
        final(app).peer_capabilities@.dom().contains(greeting.device_id),
        final(app).peer_capabilities@[greeting.device_id] == frame.message->capabilities,
        forall|g: Uuid| #[trigger]
            old(app).connections@.dom().contains(g) && g != generation
                ==> old(app).connections@[g].peer_device_id != Some(greeting.device_id),
        final(app).transfers == old(app).transfers,
        final(app).trusted_devices == old(app).trusted_devices,
{
    lemma_handled(app, generation, frame, now, r);
    let active = choose|active: AppState| #[trigger]
        AppState::handles(active, *final(app), generation, frame, now, r) && is_at_work(
            *old(app),
            active,
            generation,
        );
    assert forall|g: Uuid| #[trigger]
        old(app).connections@.dom().contains(g) && g != generation
            implies old(app).connections@[g].peer_device_id != Some(greeting.device_id) by {
        if old(app).connections@[g].peer_device_id == Some(greeting.device_id) {
            assert(active.connections@.dom().contains(g));
            assert(active.connects(g, greeting.device_id));
        }
    }
}

/// A device that speaks this version and is not connected otherwise is greeted, and one that speaks
/// another version, or is connected already, is not.
pub proof fn law_greeting_is_answered(
    app: &mut AppState,
    generation: Uuid,
    frame: Frame,
    now: Instant,
    r: AppResult<FrameAction>,
)
    requires
        call_ensures(AppState::handle_frame, (app, generation, frame, now), r),
        frame.message is Hello,
        old(app).connections@.dom().contains(generation),
        frame.message->network_offer is None,
    ensures
        frame.message->protocol_version != 1 ==> r is Err,
        frame.message->protocol_version == 1 && (forall|g: Uuid| #[trigger]
            old(app).connections@.dom().contains(g) && g != generation
                ==> old(app).connections@[g].peer_device_id
                != Some(frame.message->Hello_device_id)) ==> (
        r matches Ok(action) && action is Greeted),
        frame.message->protocol_version == 1 && (exists|g: Uuid| #[trigger]
            old(app).connections@.dom().contains(g) && g != generation
                && old(app).connections@[g].peer_device_id
                == Some(frame.message->Hello_device_id)) ==> (
        r matches Ok(action) && action is Close) && !final(app).connections@.dom().contains(
            generation,
        ),
{
    lemma_handled(app, generation, frame, now, r);
    let active = choose|active: AppState| #[trigger]
        AppState::handles(active, *final(app), generation, frame, now, r) && is_at_work(
            *old(app),
            active,
            generation,
        );
    let device_id = frame.message->Hello_device_id;
    if exists|g: Uuid| #[trigger]
        old(app).connections@.dom().contains(g) && g != generation
            && old(app).connections@[g].peer_device_id == Some(device_id) {
        let g = choose|g: Uuid| #[trigger]
            old(app).connections@.dom().contains(g) && g != generation
                && old(app).connections@[g].peer_device_id == Some(device_id);
        assert(active.connections@.dom().contains(g));
        assert(active.connects(g, device_id));
    } else {
        assert forall|g: Uuid| #[trigger] active.connects(g, device_id) implies g == generation by {
            assert(old(app).connections@.dom().contains(g));
        }
    }
}

/// A request that cannot be met is answered with its number and the reason; a file that cannot be
/// taken, with a refusal. The other device notes each with what it has asked for.
pub proof fn law_refusals_reach_the_asker(
    request: Uuid,
    error: AppError,
    words: String,
    refusal: Frame,
    unwanted: Frame,
    app: &mut AppState,
    generation: Uuid,
    peer: Uuid,
    now: Instant,
    k: int,
    r: AppResult<FrameAction>,
)
    requires
        call_ensures(AppError::to_string, (&error,), words),
        call_ensures(request_refusal, (request, &error), refusal),
        call_ensures(offer_refusal, (request, &error), unwanted),
        call_ensures(AppState::handle_frame, (app, generation, unwanted, now), r),
        is_peer(*old(app), generation, peer),
        transfers::is_first_of(old(app).transfers@, k, request),
    ensures
        refusal.message matches Message::Error { request_id, message } && request_id == Some(request)
            && message@ == words@,
        final(app).transfers@[k].state is Failed,
        final(app).transfers@[k].detail@ == words@,
{
    let detail = unwanted.message->TransferAck_detail;
    assert(unwanted == (Frame {
        message: Message::TransferAck { transfer_id: request, accepted: false, detail },
        payload: unwanted.payload,
    }));
    law_acknowledgement_is_shown(
        app,
        generation,
        peer,
        request,
        false,
        detail,
        unwanted.payload,
        now,
        k,
        r,
    );
}

/// A file that was received and saved is shown as completed on the device that has sent it, and one
/// that was found damaged as failed.
pub proof fn law_receiver_decides_the_outcome(
    there: &mut AppState,
    file: receiving::ReceivedFile,
    shown: &str,
    renamed: Result<(), String>,
    done: receiving::Completion,
    here: &mut AppState,
    generation: Uuid,
    peer: Uuid,
    now: Instant,
    k: int,
    r: AppResult<FrameAction>,
)
    requires
        call_ensures(
            AppState::complete_incoming_file,
            (there, file, shown, renamed, now),
            done,
        ),
        done.reply is Some,
        call_ensures(AppState::handle_frame, (here, generation, done.reply->0, now), r),
        is_peer(*old(here), generation, peer),
        transfers::is_first_of(old(here).transfers@, k, file.transfer_id),
    ensures
        renamed is Ok <==> final(here).transfers@[k].state is Completed,
        renamed is Err <==> final(here).transfers@[k].state is Failed,
{
    let frame = done.reply->0;
    let accepted = frame.message->TransferAck_accepted;
    let detail = frame.message->TransferAck_detail;
    assert(frame == (Frame {
        message: Message::TransferAck { transfer_id: file.transfer_id, accepted, detail },
        payload: frame.payload,
    }));
    law_acknowledgement_is_shown(
        here,
        generation,
        peer,
        file.transfer_id,
        accepted,
        detail,
        frame.payload,
        now,
        k,
        r,
    );
}

/// After a greeting, a device that can browse is told of the shared directories; and where it has
/// offered a network link over Bluetooth, the link is announced, and what was offered is noted.
pub proof fn law_greeting_leads_on(
    app: &mut AppState,
    generation: Uuid,
    frame: Frame,
    now: Instant,
    greeting: Greeting,
)
    requires
        call_ensures(
            AppState::handle_frame,
            (app, generation, frame, now),
            Ok::<FrameAction, AppError>(FrameAction::Greeted(greeting)),
        ),
        frame.message is Hello,
    ensures
        greeting.send_roots <==> exists|i: int|
            0 <= i < frame.message->capabilities@.len() && (
            #[trigger] frame.message->capabilities@[i])@ == "lazy_directory_browse_v1"@,
        greeting.announce_link <==> frame.message->network_offer is Some
            && old(app).connections@[generation].kind is Bluetooth,
        greeting.announce_link ==> {
            let offer = frame.message->network_offer->0;
            let noted = final(app).network_peers@[greeting.device_id];
            &&& final(app).network_peers@.dom().contains(greeting.device_id)
            &&& noted.key@ == offer.key@
            &&& noted.session_id == offer.session_id
            &&& noted.bluetooth_generation == generation
        },
        greeting.notice.level is Success,
{
    let r = Ok::<FrameAction, AppError>(FrameAction::Greeted(greeting));
    lemma_handled(app, generation, frame, now, r);
    let active = choose|active: AppState| #[trigger]
        AppState::handles(active, *final(app), generation, frame, now, r) && is_at_work(
            *old(app),
            active,
            generation,
        );
    let known = choose|known: AppState| #[trigger]
        AppState::identifies(
            active,
            known,
            generation,
            frame.message->Hello_device_id,
            frame.message->device_name,
            frame.message->capabilities,
        ) && AppState::admits(known, *final(app), generation, frame.message, r);
    assert(active.connections@.dom().contains(generation));
    assert(known.connections@[generation].kind == old(app).connections@[generation].kind);
    assert(final(app).peer_capabilities@[greeting.device_id] == frame.message->capabilities);
}

/// An answer about a transfer that is not in the list leaves the list as it is.
pub proof fn law_answer_about_nothing_changes_nothing(
    app: &mut AppState,
    generation: Uuid,
    frame: Frame,
    transfer_id: Uuid,
    now: Instant,
    r: AppResult<FrameAction>,
)
    requires
        call_ensures(AppState::handle_frame, (app, generation, frame, now), r),
        frame.message is TransferAck && frame.message->TransferAck_transfer_id == transfer_id
            || frame.message is TransferCancelAck && frame.message->TransferCancelAck_transfer_id
            == transfer_id,
        forall|j: int|
            0 <= j < old(app).transfers@.len() ==> (#[trigger] old(app).transfers@[j]).id
                != transfer_id,
    ensures
        final(app).transfers@ == old(app).transfers@,
{
    lemma_handled(app, generation, frame, now, r);
    crate::lists::lemma_first_from(
        old(app).transfers@,
        |t: crate::models::TransferView| t.id == transfer_id,
        0,
    );
}

/// The greeting of a network link has no place on a connection.
pub proof fn law_link_greeting_is_refused(
    app: &mut AppState,
    generation: Uuid,
    device_id: Uuid,
    session_id: Uuid,
    connection_id: Uuid,
    payload: Vec<u8>,
    now: Instant,
    r: AppResult<FrameAction>,
)
    requires
        call_ensures(
            AppState::handle_frame,
            (
                app,
                generation,
                Frame {
                    message: Message::NetworkHello { device_id, session_id, connection_id },
                    payload,
                },
                now,
            ),
            r,
        ),
    ensures
        r matches Err(e) && e is Protocol,
        final(app).network_peers == old(app).network_peers,
        final(app).network_connections == old(app).network_connections,
{
    let frame = Frame {
        message: Message::NetworkHello { device_id, session_id, connection_id },
        payload,
    };
    lemma_handled(app, generation, frame, now, r);
}

} // verus!
