//! What the user can ask for, and what the user is told.
use crate::clock::Instant;
use crate::files::canceling;
use crate::identity::TrustedDevice;
use crate::ids::Uuid;
use crate::lists;
use crate::models::{LocalShare, NearbyDevice, Notice, NoticeLevel, TransferState};
use crate::protocol::{Frame, Message, CAPABILITY_LAZY_DIRECTORY};
use crate::settings::UserSettings;
use crate::state::connections;
use crate::state::devices;
use crate::state::reconnects;
use crate::state::trust;
use crate::state::{AppState, MAX_SHARES};
use crate::text;
use vstd::prelude::*;

verus! {

/// The links to a device that are to be closed: the connection, and the network link beside it.
#[derive(Clone, Copy, Debug, PartialEq, Eq, Structural)]
pub struct PeerClosing {
    pub primary: Option<Uuid>,
    pub network: Option<Uuid>,
}

/// Whether the local network may be used after a start: the user has chosen so, and the firewall
/// lets other devices through.
pub fn initial_lan(settings: &UserSettings, firewall_configured: bool) -> (r: bool)
    ensures
        r == (settings.lan_enabled && firewall_configured),
{
    settings.lan_enabled && firewall_configured
}

/// The name of this device: that of the computer, where it has one.
pub fn device_name_or_default(computer_name: Option<String>) -> (r: String)
    ensures
        match computer_name {
            Some(name) => r == name,
            None => r@ == "此电脑"@,
        },
{
    match computer_name {
        Some(name) => name,
        None => String::from_str("此电脑"),
    }
}

/// The identifier that a file holds, where it holds one.
pub fn stored_device_id(content: &str) -> (r: Option<Uuid>)
    ensures
        match r {
            Some(id) => crate::ids::parsed_uuid(text::trimmed(content@)) == Some(id.value),
            None => crate::ids::parsed_uuid(text::trimmed(content@)) is None,
        },
        forall|id: Uuid|
            #![trigger crate::ids::hyphenated(id.value)]
            text::trimmed(content@) == crate::ids::hyphenated(id.value) ==> r == Some(id),
{
    let trimmed = text::trim(content);
    let found = Uuid::parse_str(&trimmed);
    proof {
        assert forall|id: Uuid|
            text::trimmed(content@) == #[trigger] crate::ids::hyphenated(id.value) implies found
            == Some(id) by {}
    }
    found
}

/// What the user is told when the sharing of the clipboard has been turned on or off.
pub fn clipboard_notice(enabled: bool) -> (r: Notice)
    ensures
        r.level == NoticeLevel::Info,
        r.message@ == if enabled {
            "文本剪贴板同步已开启"@
        } else {
            "文本剪贴板同步已暂停"@
        },
{
    let message = if enabled {
        String::from_str("文本剪贴板同步已开启")
    } else {
        String::from_str("文本剪贴板同步已暂停")
    };
    Notice { level: NoticeLevel::Info, message }
}

/// What the user is told when the start with the system has been turned on or off.
pub fn autostart_notice(enabled: bool) -> (r: Notice)
    ensures
        r.level == NoticeLevel::Success,
        r.message@ == if enabled {
            "已开启开机自启动"@
        } else {
            "已关闭开机自启动"@
        },
{
    let message = if enabled {
        String::from_str("已开启开机自启动")
    } else {
        String::from_str("已关闭开机自启动")
    };
    Notice { level: NoticeLevel::Success, message }
}

/// What the user is told when so many records have been removed.
pub fn history_notice(removed: usize) -> (r: Notice)
    ensures
        if removed > 0 {
            r.level == NoticeLevel::Success && r.message@ == "已清理 "@ + text::decimal_of(
                removed as nat,
            ) + " 条传输记录"@
        } else {
            r.level == NoticeLevel::Info && r.message@ == "没有可清理的已完成或失败记录"@
        },
{
    if removed > 0 {
        Notice {
            level: NoticeLevel::Success,
            message: text::joined3("已清理 ", &text::decimal(removed as u128), " 条传输记录"),
        }
    } else {
        Notice {
            level: NoticeLevel::Info,
            message: String::from_str("没有可清理的已完成或失败记录"),
        }
    }
}

/// What the user is told when a record has been removed.
pub fn removal_notice(name: &str) -> (r: Notice)
    ensures
        r.level == NoticeLevel::Success,
        r.message@ == "已删除传输记录："@ + name@,
{
    Notice { level: NoticeLevel::Success, message: text::joined("已删除传输记录：", name) }
}

impl AppState {
    /// Refuses what needs the connection service while it does not run.
    pub fn check_service(&self) -> (r: Result<(), String>)
        ensures
            r is Ok <==> self.listening,
            r matches Err(e) ==> e@ == "连接服务已停止"@,
    {
        if self.receiver_enabled() {
            Ok(())
        } else {
            Err(String::from_str("连接服务已停止"))
        }
    }

    /// Refuses what needs the local network while it may not be used.
    pub fn check_lan(&self) -> (r: Result<(), String>)
        ensures
            r is Ok <==> self.lan_enabled,
            r matches Err(e) ==> e@ == "请先在设置中启用局域网传输"@,
    {
        if self.lan_enabled() {
            Ok(())
        } else {
            Err(String::from_str("请先在设置中启用局域网传输"))
        }
    }

    /// The device that the user wants to connect to, where it is on the list and can be reached.
    pub fn device_to_connect(&self, id: &str) -> (r: Result<NearbyDevice, String>)
        ensures
            match lists::first_where(self.devices@, |d: NearbyDevice| d.id@ == id@) {
                None => r matches Err(e) && e@ == "目标设备不在本次扫描结果中，请重新扫描"@,
                Some(i) => {
                    let device = self.devices@[i];
                    if (self.lan_enabled && device.lan_endpoint is Some)
                        || device.nearweave_enabled {
                        r == Ok::<NearbyDevice, String>(device)
                    } else {
                        r matches Err(e) && e@
                            == "对方当前没有可用的 NearWeave 蓝牙连接；如需局域网直连，请先在设置中启用局域网传输"@
                    }
                },
            },
    {
        let test = |d: &NearbyDevice| -> (b: bool)
            ensures
                b == (d.id@ == id@),
            { text::same(&d.id, id) };
        proof {
            lists::lemma_first_from(self.devices@, |d: NearbyDevice| d.id@ == id@, 0);
        }
        match lists::position(&self.devices, test, Ghost(|d: NearbyDevice| d.id@ == id@)) {
            None => Err(String::from_str("目标设备不在本次扫描结果中，请重新扫描")),
            Some(i) => {
                let device = &self.devices[i];
                let lan_available = self.lan_enabled && device.lan_endpoint.is_some();
                if !lan_available && !device.nearweave_enabled {
                    return Err(
                        String::from_str(
                            "对方当前没有可用的 NearWeave 蓝牙连接；如需局域网直连，请先在设置中启用局域网传输",
                        ),
                    );
                }
                Ok(device.clone())
            },
        }
    }

    /// Whether the services of the local network are to be started now that they may be used.
    pub fn lan_to_start(&self) -> (r: bool)
        ensures
            r == (self.lan_enabled && self.listening && self.network_runtime is None),
    {
        self.lan_enabled && self.listening && self.network_runtime.is_none()
    }

    /// Notes the devices that are trusted after one has been paired.
    pub fn pairing_kept(&mut self, device_id: Uuid, updated: Vec<TrustedDevice>)
        ensures
            *final(self) == (AppState {
                trusted_devices: updated,
                devices: final(self).devices,
                ..*old(self)
            }),
            final(self).seen() == devices::marked_trusted(old(self).seen(), device_id, true),
    {
        self.commit_trusted_devices(updated);
        self.set_device_trusted(device_id, true);
    }

    /// The list of trusted devices that is to be kept once the trust in a device has been
    /// withdrawn, and the name of that device.
    pub fn withdraw_trust(&mut self, device_id: Uuid) -> (r: Result<
        (Vec<TrustedDevice>, String),
        String,
    >)
        ensures
            match r {
                Ok((updated, name)) => {
                    &&& trust::is_trusted(old(self).trusted(), device_id)
                    &&& trust::trusted_models(updated@) == trust::trusted_without(
                        old(self).trusted(),
                        device_id,
                    )
                    &&& name@ == old(self).trusted()[trust::trusted_at(
                        old(self).trusted(),
                        device_id,
                    )->0].name
                    &&& *final(self) == *old(self)
                },
                Err(e) => {
                    &&& !trust::is_trusted(old(self).trusted(), device_id)
                    &&& e@ == "未找到该信任设备"@
                    &&& *final(self) == (AppState { devices: final(self).devices, ..*old(self) })
                    &&& final(self).seen() == devices::marked_trusted(
                        old(self).seen(),
                        device_id,
                        false,
                    )
                },
            },
    {
        match self.remove_trusted_device(device_id) {
            Some(found) => Ok(found),
            None => {
                self.set_device_trusted(device_id, false);
                Err(String::from_str("未找到该信任设备"))
            },
        }
    }

    /// Notes the devices that are trusted after the trust in one has been withdrawn, and ends the
    /// connection to it.
    pub fn trust_withdrawn(&mut self, device_id: Uuid, updated: Vec<TrustedDevice>, name: &str) -> (r:
        (PeerClosing, Notice))
        requires
            old(self).wf(),
        ensures
            final(self).wf(),
            *final(self) == (AppState {
                trusted_devices: updated,
                devices: final(self).devices,
                reconnects: final(self).reconnects,
                connections: final(self).connections,
                transfer_acks: final(self).transfer_acks,
                network_peers: final(self).network_peers,
                network_connecting: final(self).network_connecting,
                network_connections: final(self).network_connections,
                remote_shares: final(self).remote_shares,
                remote_share_revisions: final(self).remote_share_revisions,
                remote_directory_cache: final(self).remote_directory_cache,
                ..*old(self)
            }),
            final(self).seen() == devices::marked_trusted(old(self).seen(), device_id, false),
            !final(self).is_connected(device_id),
            final(self).connections@ == connections::without_peer(
                old(self).connections@,
                Some(device_id),
            ),
            final(self).reconnects@ == reconnects::plans_without(old(self).reconnects@, device_id),
            AppState::forgets_links(*old(self), *final(self), device_id, r.0.network),
            match r.0.primary {
                Some(g) => old(self).connects(g, device_id),
                None => !old(self).is_connected(device_id),
            },
            r.1.level == NoticeLevel::Success,
            r.1.message@ == "已移除对 "@ + name@ + " 的信任"@,
    {
        self.commit_trusted_devices(updated);
        self.set_device_trusted(device_id, false);
        let ghost middle = *self;
        let (primary, network) = self.disconnect_peer(device_id);
        proof {
            assert forall|g: Uuid|
                #![trigger old(self).connects(g, device_id)]
                #![trigger middle.connects(g, device_id)]
                old(self).connects(g, device_id) == middle.connects(g, device_id) by {}
        }
        let notice = Notice {
            level: NoticeLevel::Success,
            message: text::joined3("已移除对 ", name, " 的信任"),
        };
        (PeerClosing { primary, network }, notice)
    }

    /// Begins to end the connection to a device on the user's wish: gives what the device is told,
    /// where it is connected.
    pub fn begin_disconnect(&mut self, device_id: Uuid) -> (r: Option<Frame>)
        requires
            old(self).wf(),
        ensures
            final(self).wf(),
            *final(self) == (AppState { reconnects: final(self).reconnects, ..*old(self) }),
            final(self).reconnects@ == reconnects::plans_without(old(self).reconnects@, device_id),
            r is Some <==> old(self).is_connected(device_id),
            r matches Some(frame) ==> (frame.payload@.len() == 0 && (
            frame.message matches Message::Disconnect { reason } && reason@ == "用户主动断开"@)),
    {
        let connected = self.connection_generation_for_peer(device_id).is_some();
        proof {
            if connected {
                let g = choose|g: Uuid| self.connects(g, device_id);
                assert(self.connects(g, device_id));
            }
        }
        self.cancel_reconnect_for_peer(device_id);
        if !connected {
            return None;
        }
        Some(Frame::new(Message::Disconnect { reason: String::from_str("用户主动断开") }))
    }

    /// Ends the connection to a device on the user's wish: gives the links that are to be closed,
    /// and the files that are to be removed.
    pub fn finish_disconnect(&mut self, device_id: Uuid, now: Instant) -> (r: (
        PeerClosing,
        Vec<String>,
    ))
        requires
            old(self).wf(),
        ensures
            final(self).wf(),
            final(self).connections@ == connections::without_peer(
                old(self).connections@,
                Some(device_id),
            ),
            !final(self).is_connected(device_id),
            match r.0.primary {
                Some(g) => old(self).connects(g, device_id),
                None => !old(self).is_connected(device_id),
            },
            r.1@ == old(self).temporary_paths(
                canceling::keys_of(old(self).incoming.order(), Some(device_id)),
            ),
            exists|middle: AppState, reason: String| #[trigger]
                AppState::cleans_up(
                    middle,
                    *final(self),
                    canceling::keys_of(old(self).incoming.order(), Some(device_id)),
                    TransferState::Failed,
                    reason,
                    now,
                ) && reason@ == "设备已断开，未完成的临时文件已删除"@ && AppState::leaves_peer(
                    *old(self),
                    middle,
                    device_id,
                    r.0.primary,
                    r.0.network,
                ),
    {
        let (primary, network) = self.disconnect_peer(device_id);
        let ghost middle = *self;
        let reason = String::from_str("设备已断开，未完成的临时文件已删除");
        let discard = self.cleanup_incoming_for_peer(device_id, &reason, now);
        proof {
            assert(AppState::cleans_up(
                middle,
                *self,
                canceling::keys_of(old(self).incoming.order(), Some(device_id)),
                TransferState::Failed,
                reason,
                now,
            ));
            assert forall|g: Uuid|
                #![trigger self.connects(g, device_id)]
                self.connects(g, device_id) == middle.connects(g, device_id) by {}
        }
        (PeerClosing { primary, network }, discard)
    }

    /// Refuses to send files while the service does not run, where none is chosen, and to a device
    /// that is not connected.
    pub fn check_send(&self, device_id: Uuid, count: usize) -> (r: Result<(), String>)
        requires
            self.wf(),
        ensures
            r is Ok <==> self.listening && count > 0 && self.is_connected(device_id),
            r matches Err(e) ==> e@ == if !self.listening {
                "连接服务已停止"@
            } else if count == 0 {
                "至少选择一个文件"@
            } else {
                "目标设备尚未连接"@
            },
    {
        match self.check_service() {
            Err(e) => {
                return Err(e);
            },
            Ok(()) => {},
        }
        if count == 0 {
            return Err(String::from_str("至少选择一个文件"));
        }
        match self.connection_generation_for_peer(device_id) {
            Some(g) => {
                proof {
                    assert(self.connects(g, device_id));
                }
                Ok(())
            },
            None => Err(String::from_str("目标设备尚未连接")),
        }
    }

    /// A directory at this place is shared.
    pub open spec fn shares_path(&self, path: Seq<char>) -> bool {
        exists|i: int| 0 <= i < self.local_shares@.len() && #[trigger] self.local_shares@[i].path@
            == path
    }

    /// Shares a directory under this identifier, unless too many are shared or it is already. It
    /// goes by its own name, where it has one, or else by its place.
    pub fn add_shared_directory_as(
        &mut self,
        id: Uuid,
        path: String,
        file_name: Option<String>,
    ) -> (r: Result<(), String>)
        requires
            old(self).wf(),
        ensures
            final(self).wf(),
            r is Ok <==> old(self).local_shares@.len() < MAX_SHARES && !old(self).shares_path(path@),
            match r {
                Ok(()) => {
                    &&& *final(self) == (AppState {
                        local_shares: final(self).local_shares,
                        ..*old(self)
                    })
                    &&& final(self).local_shares@ == old(self).local_shares@.push(
                        LocalShare {
                            id,
                            name: match file_name {
                                Some(name) => name,
                                None => path,
                            },
                            path,
                        },
                    )
                },
                Err(e) => {
                    &&& *final(self) == *old(self)
                    &&& e@ == if old(self).local_shares@.len() >= MAX_SHARES {
                        "最多同时共享 64 个目录"@
                    } else {
                        "该目录已经共享"@
                    }
                },
            },
    {
        if self.local_shares.len() >= MAX_SHARES {
            return Err(String::from_str("最多同时共享 64 个目录"));
        }
        let mut i: usize = 0;
        while i < self.local_shares.len()
            invariant
                *self == *old(self),
                self.wf(),
                i <= self.local_shares@.len(),
                self.local_shares@.len() < MAX_SHARES,
                forall|k: int| 0 <= k < i ==> (#[trigger] self.local_shares@[k]).path@ != path@,
            decreases self.local_shares@.len() - i,
        {
            if text::same(&self.local_shares[i].path, &path) {
                proof {
                    assert(old(self).local_shares@[i as int].path@ == path@);
                }
                return Err(String::from_str("该目录已经共享"));
            }
            i = i + 1;
        }
        let name = match file_name {
            Some(name) => name,
            None => path.clone(),
        };
        self.local_shares.push(LocalShare { id, name, path });
        Ok(())
    }

    /// Shares a directory under a fresh identifier.
    pub fn add_shared_directory(&mut self, path: String, file_name: Option<String>) -> (r: Result<
        Uuid,
        String,
    >)
        requires
            old(self).wf(),
        ensures
            final(self).wf(),
            r is Ok <==> old(self).local_shares@.len() < MAX_SHARES && !old(self).shares_path(path@),
            match r {
                Ok(id) => {
                    &&& id.is_random()
                    &&& *final(self) == (AppState {
                        local_shares: final(self).local_shares,
                        ..*old(self)
                    })
                    &&& final(self).local_shares@ == old(self).local_shares@.push(
                        LocalShare {
                            id,
                            name: match file_name {
                                Some(name) => name,
                                None => path,
                            },
                            path,
                        },
                    )
                },
                Err(e) => {
                    &&& *final(self) == *old(self)
                    &&& e@ == if old(self).local_shares@.len() >= MAX_SHARES {
                        "最多同时共享 64 个目录"@
                    } else {
                        "该目录已经共享"@
                    }
                },
            },
    {
        let id = Uuid::new_v4();
        match self.add_shared_directory_as(id, path, file_name) {
            Ok(()) => Ok(id),
            Err(e) => Err(e),
        }
    }

    /// Stops sharing a directory.
    pub fn remove_shared_directory(&mut self, share_id: Uuid) -> (r: Result<(), String>)
        requires
            old(self).wf(),
        ensures
            final(self).wf(),
            *final(self) == (AppState { local_shares: final(self).local_shares, ..*old(self) }),
            final(self).local_shares@ == old(self).local_shares@.filter(
                |s: LocalShare| s.id != share_id,
            ),
            r is Ok <==> exists|i: int|
                0 <= i < old(self).local_shares@.len() && (#[trigger] old(
                    self,
                ).local_shares@[i]).id == share_id,
            r matches Err(e) ==> e@ == "共享目录不存在"@,
    {
        let count: usize = self.local_shares.len();
        let test = |s: &LocalShare| -> (b: bool)
            ensures
                b == (s.id != share_id),
            { s.id != share_id };
        let ghost p = |s: LocalShare| s.id != share_id;
        proof {
            lemma_filter_length(self.local_shares@, p);
        }
        lists::retain(&mut self.local_shares, test, Ghost(|s: LocalShare| s.id != share_id));
        if self.local_shares.len() == count {
            return Err(String::from_str("共享目录不存在"));
        }
        Ok(())
    }

    /// The connected devices that are to be told when the shared directories change.
    pub open spec fn audience(&self, peers: Seq<Uuid>) -> Seq<Uuid>
        decreases peers.len(),
    {
        if peers.len() == 0 {
            Seq::empty()
        } else {
            let front = self.audience(peers.drop_last());
            if self.is_capable(peers.last(), CAPABILITY_LAZY_DIRECTORY@) {
                front.push(peers.last())
            } else {
                front
            }
        }
    }

    /// The connected devices that are to be told when the shared directories change.
    pub fn share_audience(&self) -> (r: Vec<Uuid>)
        requires
            self.wf(),
        ensures
            r@ == self.audience(
                crate::state::routing::peers_in(self.connections.order(), self.connections@),
            ),
    {
        let peers = self.connected_peer_ids();
        let mut out: Vec<Uuid> = Vec::new();
        let mut i: usize = 0;
        proof {
            assert(peers@.take(0) =~= Seq::<Uuid>::empty());
        }
        while i < peers.len()
            invariant
                self.wf(),
                i <= peers@.len(),
                out@ == self.audience(peers@.take(i as int)),
            decreases peers@.len() - i,
        {
            proof {
                assert(peers@.take(i + 1).drop_last() =~= peers@.take(i as int));
                assert(peers@.take(i + 1).last() == peers@[i as int]);
            }
            if self.supports_capability(peers[i], CAPABILITY_LAZY_DIRECTORY) {
                out.push(peers[i]);
            }
            i = i + 1;
        }
        proof {
            assert(peers@.take(i as int) =~= peers@);
        }
        out
    }

    /// Forgets the directories of a device and gives the request for them.
    pub fn refresh_remote_shares(&mut self, device_id: Uuid) -> (r: Result<Frame, String>)
        requires
            old(self).wf(),
        ensures
            final(self).wf(),
            match r {
                Ok(frame) => {
                    &&& old(self).listening
                    &&& old(self).is_capable(device_id, CAPABILITY_LAZY_DIRECTORY@)
                    &&& *final(self) == (AppState {
                        remote_directory_cache: final(self).remote_directory_cache,
                        ..*old(self)
                    })
                    &&& final(self).remote_directory_cache@ == old(
                        self,
                    ).remote_directory_cache@.remove(device_id)
                    &&& frame.message matches Message::ShareRootsRequest { request_id }
                    &&& request_id.is_random()
                    &&& frame.payload@.len() == 0
                },
                Err(e) => {
                    &&& *final(self) == *old(self)
                    &&& if !old(self).listening {
                        e@ == "连接服务已停止"@
                    } else {
                        !old(self).is_capable(device_id, CAPABILITY_LAZY_DIRECTORY@) && e@
                            == "对方版本不支持按需目录浏览，请升级 NearWeave"@
                    }
                },
            },
    {
        match self.check_service() {
            Err(e) => {
                return Err(e);
            },
            Ok(()) => {},
        }
        if !self.supports_capability(device_id, CAPABILITY_LAZY_DIRECTORY) {
            return Err(
                String::from_str("对方版本不支持按需目录浏览，请升级 NearWeave"),
            );
        }
        self.clear_remote_directory_cache(device_id);
        Ok(Frame::new(Message::ShareRootsRequest { request_id: Uuid::new_v4() }))
    }

    /// A device shares a directory under this identifier.
    pub open spec fn is_shared_by(&self, device_id: Uuid, share_id: Uuid) -> bool {
        self.remote_shares@.dom().contains(device_id) && exists|i: int|
            0 <= i < self.remote_shares@[device_id]@.len()
                && (#[trigger] self.remote_shares@[device_id]@[i]).id == share_id
    }

    /// The request for a file in a directory that a device shares.
    pub fn request_shared_file(&self, device_id: Uuid, share_id: Uuid, relative_path: String) -> (r:
        Result<Frame, String>)
        requires
            self.wf(),
        ensures
            match r {
                Ok(frame) => {
                    &&& self.listening
                    &&& self.is_shared_by(device_id, share_id)
                    &&& frame.message matches Message::ShareFileRequest {
                        request_id,
                        share_id: id,
                        relative_path: path,
                    }
                    &&& request_id.is_random()
                    &&& id == share_id
                    &&& path == relative_path
                    &&& frame.payload@.len() == 0
                },
                Err(e) => if !self.listening {
                    e@ == "连接服务已停止"@
                } else {
                    !self.is_shared_by(device_id, share_id) && e@
                        == "该共享目录已经撤销或尚未加载"@
                },
            },
    {
        match self.check_service() {
            Err(e) => {
                return Err(e);
            },
            Ok(()) => {},
        }
        let roots = self.remote_roots(device_id);
        let mut i: usize = 0;
        while i < roots.len()
            invariant
                self.wf(),
                self.listening,
                i <= roots@.len(),
                roots@ == if self.remote_shares@.dom().contains(device_id) {
                    self.remote_shares@[device_id]@
                } else {
                    Seq::empty()
                },
                forall|k: int| 0 <= k < i ==> (#[trigger] roots@[k]).id != share_id,
            decreases roots@.len() - i,
        {
            if roots[i].id == share_id {
                proof {
                    assert(self.remote_shares@[device_id]@[i as int].id == share_id);
                }
                return Ok(
                    Frame::new(
                        Message::ShareFileRequest {
                            request_id: Uuid::new_v4(),
                            share_id,
                            relative_path,
                        },
                    ),
                );
            }
            i = i + 1;
        }
        Err(String::from_str("该共享目录已经撤销或尚未加载"))
    }
}

proof fn lemma_filter_length(s: Seq<LocalShare>, p: spec_fn(LocalShare) -> bool)
    ensures
        s.filter(p).len() <= s.len(),
        s.filter(p).len() < s.len() <==> exists|i: int| 0 <= i < s.len() && !p(#[trigger] s[i]),
    decreases s.len(),
{
    reveal(Seq::filter);
    if s.len() > 0 {
        let front = s.drop_last();
        lemma_filter_length(front, p);
        if front.filter(p).len() < front.len() {
            let i = choose|i: int| 0 <= i < front.len() && !p(#[trigger] front[i]);
            assert(!p(s[i]));
        } else {
            assert forall|i: int| 0 <= i < front.len() implies p(#[trigger] s[i]) by {
                assert(p(front[i]));
            }
            assert(s[s.len() - 1] == s.last());
        }
    }
}

/// At the start, the local network is used if the user has chosen it and the firewall lets it
/// through.
pub proof fn law_local_network_needs_choice_and_firewall(
    settings: UserSettings,
    firewall: bool,
    r: bool,
)
    requires
        call_ensures(initial_lan, (&settings, firewall), r),
    ensures
        r ==> settings.lan_enabled,
        r ==> firewall,
        settings.lan_enabled && firewall ==> r,
{
}

/// The name of the computer is the name of the device.
pub proof fn law_device_has_name_of_machine(computer_name: Option<String>, r: String)
    requires
        call_ensures(device_name_or_default, (computer_name,), r),
    ensures
        computer_name matches Some(name) ==> r@ == name@,
        computer_name is None ==> r@ == "此电脑"@,
{
}

/// The identifier of the device is read back from the file that it was written to, whatever white
/// space stands around it.
pub proof fn law_device_keeps_its_identifier(id: Uuid, written: String, content: &str, r: Option<Uuid>)
    requires
        call_ensures(Uuid::to_string, (&id,), written),
        text::trimmed(content@) == written@,
        call_ensures(stored_device_id, (content,), r),
    ensures
        r == Some(id),
{
    assert(text::trimmed(content@) == crate::ids::hyphenated(id.value));
}

/// A device is connected to only if it is in the list, and only if there is a way to it: over the
/// local network where the user has chosen that, or over Bluetooth.
pub proof fn law_reachable_device_is_connected_to(
    app: AppState,
    id: &str,
    r: Result<NearbyDevice, String>,
)
    requires
        call_ensures(AppState::device_to_connect, (&app, id), r),
    ensures
        r matches Ok(d) ==> app.devices@.contains(d) && d.id@ == id@ && (d.nearweave_enabled
            || app.lan_enabled && d.lan_endpoint is Some),
        r is Err && (forall|i: int, j: int|
            #![trigger app.devices@[i], app.devices@[j]]
            0 <= i < j < app.devices@.len() ==> app.devices@[i].id@ != app.devices@[j].id@)
            ==> forall|i: int|
            0 <= i < app.devices@.len() && (#[trigger] app.devices@[i]).id@ == id@
                ==> !app.devices@[i].nearweave_enabled && !(app.lan_enabled
                && app.devices@[i].lan_endpoint is Some),
{
    let p = |d: NearbyDevice| d.id@ == id@;
    lists::lemma_first_from(app.devices@, p, 0);
    if r is Err && (forall|i: int, j: int|
        #![trigger app.devices@[i], app.devices@[j]]
        0 <= i < j < app.devices@.len() ==> app.devices@[i].id@ != app.devices@[j].id@) {
        assert forall|i: int|
            0 <= i < app.devices@.len() && (#[trigger] app.devices@[i]).id@
                == id@ implies !app.devices@[i].nearweave_enabled && !(app.lan_enabled
            && app.devices@[i].lan_endpoint is Some) by {
            let k = lists::first_where(app.devices@, p)->0;
            assert(app.devices@[k].id@ == id@);
            if k != i {
                assert(app.devices@[k].id@ != app.devices@[i].id@);
            }
        }
    }
}

/// Files are sent while the service runs, to a device that is connected, and only if there are any.
pub proof fn law_sending_needs_connection(
    app: AppState,
    device_id: Uuid,
    count: usize,
    r: Result<(), String>,
)
    requires
        call_ensures(AppState::check_send, (&app, device_id, count), r),
    ensures
        r is Ok <==> app.listening && count >= 1 && exists|g: Uuid| #[trigger]
            app.connections@.dom().contains(g) && app.connections@[g].peer_device_id == Some(
                device_id,
            ),
{
    if exists|g: Uuid| #[trigger]
        app.connections@.dom().contains(g) && app.connections@[g].peer_device_id == Some(
            device_id,
        ) {
        let g = choose|g: Uuid| #[trigger]
            app.connections@.dom().contains(g) && app.connections@[g].peer_device_id == Some(
                device_id,
            );
        assert(app.connects(g, device_id));
    }
    if app.is_connected(device_id) {
        let g = choose|g: Uuid| app.connects(g, device_id);
        assert(app.connections@.dom().contains(g));
    }
}

/// The service and the local network are used only while they are on.
pub proof fn law_services_are_checked(
    app: AppState,
    service: Result<(), String>,
    lan: Result<(), String>,
    start: bool,
)
    requires
        call_ensures(AppState::check_service, (&app,), service),
        call_ensures(AppState::check_lan, (&app,), lan),
        call_ensures(AppState::lan_to_start, (&app,), start),
    ensures
        service is Ok <==> app.listening,
        lan is Ok <==> app.lan_enabled,
        start <==> service is Ok && lan is Ok && app.network_runtime is None,
{
}

/// A directory is shared from the moment that it was added, under its own name, until it is taken
/// back; at most 64 are, and none twice.
pub proof fn law_added_directory_is_shared(
    app: &mut AppState,
    next: &mut AppState,
    path: String,
    file_name: Option<String>,
    id: Uuid,
    other: LocalShare,
    taken_back: Result<(), String>,
)
    requires
        call_ensures(
            AppState::add_shared_directory,
            (app, path, file_name),
            Ok::<Uuid, String>(id),
        ),
        *next == *final(app),
        call_ensures(AppState::remove_shared_directory, (next, id), taken_back),
        other.id != id,
    ensures
        ({
            let added = final(app).local_shares@.last();
            &&& final(app).local_shares@.len() == old(app).local_shares@.len() + 1
            &&& added.id == id
            &&& added.path@ == path@
            &&& file_name matches Some(name) ==> added.name@ == name@
            &&& file_name is None ==> added.name@ == path@
        }),
        old(app).local_shares@.len() < 64,
        forall|i: int|
            0 <= i < old(app).local_shares@.len() ==> (#[trigger] old(app).local_shares@[i]).path@
                != path@,
        taken_back is Ok,
        final(next).local_shares@.contains(other) <==> old(app).local_shares@.contains(other),
        forall|s: LocalShare| #[trigger] final(next).local_shares@.contains(s) ==> s.id != id,
{
    let before = old(app).local_shares@;
    let middle = final(app).local_shares@;
    let p = |s: LocalShare| s.id != id;
    assert(middle[before.len() as int].id == id);
    lists::lemma_filter_members(middle, p, other);
    if before.contains(other) {
        let i = before.index_of(other);
        assert(middle[i] == other);
    }
    if middle.contains(other) {
        let i = middle.index_of(other);
        assert(i < before.len() && before[i] == other);
    }
    assert forall|s: LocalShare| #[trigger] final(next).local_shares@.contains(s) implies s.id
        != id by {
        lists::lemma_filter_members(middle, p, s);
    }
    assert forall|i: int| 0 <= i < before.len() implies (#[trigger] before[i]).path@ != path@ by {
        if before[i].path@ == path@ {
            assert(old(app).shares_path(path@));
        }
    }
}

/// A directory that is not shared yet can be, as long as there are fewer than 64.
pub proof fn law_new_directory_can_be_shared(
    app: &mut AppState,
    id: Uuid,
    path: String,
    file_name: Option<String>,
    r: Result<(), String>,
)
    requires
        call_ensures(AppState::add_shared_directory_as, (app, id, path, file_name), r),
    ensures
        r is Ok <==> old(app).local_shares@.len() < 64 && forall|i: int|
            0 <= i < old(app).local_shares@.len() ==> (#[trigger] old(app).local_shares@[i]).path@
                != path@,
        r is Err ==> *final(app) == *old(app),
        r is Ok ==> final(app).local_shares@.last().id == id,
{
    let before = old(app).local_shares@;
    if old(app).shares_path(path@) {
        let i = choose|i: int|
            0 <= i < before.len() && #[trigger] before[i].path@ == path@;
        assert(before[i].path@ == path@);
    } else {
        assert forall|i: int| 0 <= i < before.len() implies (#[trigger] before[i]).path@
            != path@ by {}
    }
}

/// Taking back what is not shared changes nothing and is refused.
pub proof fn law_unshared_directory_is_not_taken_back(
    app: &mut AppState,
    share_id: Uuid,
    r: Result<(), String>,
)
    requires
        call_ensures(AppState::remove_shared_directory, (app, share_id), r),
    ensures
        r is Ok <==> exists|s: LocalShare| #[trigger]
            old(app).local_shares@.contains(s) && s.id == share_id,
        forall|s: LocalShare| #[trigger]
            final(app).local_shares@.contains(s) <==> old(app).local_shares@.contains(s) && s.id
                != share_id,
{
    let before = old(app).local_shares@;
    assert forall|s: LocalShare| #[trigger]
        final(app).local_shares@.contains(s) <==> before.contains(s) && s.id != share_id by {
        lists::lemma_filter_members(before, |s: LocalShare| s.id != share_id, s);
    }
    if exists|s: LocalShare| #[trigger] before.contains(s) && s.id == share_id {
        let s = choose|s: LocalShare| #[trigger] before.contains(s) && s.id == share_id;
        let i = before.index_of(s);
        assert(before[i].id == share_id);
    }
    if r is Ok {
        let i = choose|i: int| 0 <= i < before.len() && (#[trigger] before[i]).id == share_id;
        assert(before.contains(before[i]));
    }
}

/// Told of the shared directories is each connected device that can browse them, and no other.
pub proof fn law_browsing_devices_are_told(app: AppState, d: Uuid, r: Vec<Uuid>)
    requires
        app.wf(),
        call_ensures(AppState::share_audience, (&app,), r),
    ensures
        r@.contains(d) <==> app.is_capable(d, CAPABILITY_LAZY_DIRECTORY@) && exists|g: Uuid|
            #[trigger]
            app.connections@.dom().contains(g) && app.connections@[g].peer_device_id == Some(d),
{
    let peers = crate::state::routing::peers_in(app.connections.order(), app.connections@);
    app.lemma_peers_in();
    lemma_audience(app, peers, d);
    if app.is_connected(d) {
        let g = choose|g: Uuid| app.connects(g, d);
        assert(app.connections@.dom().contains(g));
    }
    if exists|g: Uuid| #[trigger]
        app.connections@.dom().contains(g) && app.connections@[g].peer_device_id == Some(d) {
        let g = choose|g: Uuid| #[trigger]
            app.connections@.dom().contains(g) && app.connections@[g].peer_device_id == Some(d);
        assert(app.connects(g, d));
    }
}

proof fn lemma_audience(app: AppState, peers: Seq<Uuid>, d: Uuid)
    ensures
        app.audience(peers).contains(d) <==> peers.contains(d) && app.is_capable(
            d,
            CAPABILITY_LAZY_DIRECTORY@,
        ),
    decreases peers.len(),
{
    if peers.len() > 0 {
        let front = peers.drop_last();
        lemma_audience(app, front, d);
        let kept = app.audience(front);
        let all = app.audience(peers);
        assert(peers[peers.len() - 1] == peers.last());
        if front.contains(d) {
            assert(peers[front.index_of(d)] == d);
        }
        if peers.contains(d) && !front.contains(d) {
            let i = peers.index_of(d);
            assert(i == peers.len() - 1 || front[i] == d);
        }
        if kept.contains(d) {
            assert(all[kept.index_of(d)] == d);
        } else if all.contains(d) {
            let i = all.index_of(d);
            assert(i == kept.len() || kept[i] == d);
        }
        if app.is_capable(peers.last(), CAPABILITY_LAZY_DIRECTORY@) {
            assert(all[kept.len() as int] == peers.last());
        }
    }
}

/// A device is asked again what it shares while the service runs and if it can be browsed; what was
/// known of its directories is forgotten.
pub proof fn law_shares_are_asked_for_again(
    app: &mut AppState,
    device_id: Uuid,
    r: Result<Frame, String>,
)
    requires
        call_ensures(AppState::refresh_remote_shares, (app, device_id), r),
    ensures
        r is Ok <==> old(app).listening && old(app).is_capable(
            device_id,
            CAPABILITY_LAZY_DIRECTORY@,
        ),
        r matches Ok(frame) ==> frame.message is ShareRootsRequest
            && !final(app).remote_directory_cache@.dom().contains(device_id),
        r is Err ==> *final(app) == *old(app),
{
}

/// A file is asked for from a device that shares the directory, by the path that was chosen.
pub proof fn law_shared_file_is_asked_for(
    app: AppState,
    device_id: Uuid,
    share_id: Uuid,
    relative_path: String,
    r: Result<Frame, String>,
)
    requires
        call_ensures(
            AppState::request_shared_file,
            (&app, device_id, share_id, relative_path),
            r,
        ),
    ensures
        r is Ok <==> app.listening && app.remote_shares@.dom().contains(device_id) && exists|
            i: int,
        |
            0 <= i < app.remote_shares@[device_id]@.len() && (
            #[trigger] app.remote_shares@[device_id]@[i]).id == share_id,
        r matches Ok(frame) ==> (frame.message matches Message::ShareFileRequest {
            request_id,
            share_id: share,
            relative_path: path,
        } && share == share_id && path@ == relative_path@),
{
}

/// A device that the user takes leave of is told so if it is connected, and is not connected to
/// again by itself.
pub proof fn law_leave_is_taken(
    app: &mut AppState,
    device_id: Uuid,
    session: Uuid,
    r: Option<Frame>,
)
    requires
        call_ensures(AppState::begin_disconnect, (app, device_id), r),
    ensures
        r is Some <==> exists|g: Uuid| #[trigger]
            old(app).connections@.dom().contains(g) && old(app).connections@[g].peer_device_id
                == Some(device_id),
        r matches Some(frame) ==> frame.message is Disconnect,
        final(app).reconnects@.dom().contains(session) <==> old(app).reconnects@.dom().contains(
            session,
        ) && old(app).reconnects@[session].target.device_id != Some(device_id),
        final(app).connections == old(app).connections,
{
    if exists|g: Uuid| #[trigger]
        old(app).connections@.dom().contains(g) && old(app).connections@[g].peer_device_id == Some(
            device_id,
        ) {
        let g = choose|g: Uuid| #[trigger]
            old(app).connections@.dom().contains(g) && old(app).connections@[g].peer_device_id
                == Some(device_id);
        assert(old(app).connects(g, device_id));
    }
    if old(app).is_connected(device_id) {
        let g = choose|g: Uuid| old(app).connects(g, device_id);
        assert(old(app).connections@.dom().contains(g));
    }
}

/// After the leave the device is not connected, and nothing is received from it; others stay
/// connected.
pub proof fn law_left_device_is_gone(
    app: &mut AppState,
    device_id: Uuid,
    now: Instant,
    key: crate::ids::PeerItem,
    r: (PeerClosing, Vec<String>),
)
    requires
        old(app).wf(),
        call_ensures(AppState::finish_disconnect, (app, device_id, now), r),
        key.peer == device_id,
    ensures
        forall|g: Uuid| #[trigger]
            final(app).connections@.dom().contains(g) <==> old(app).connections@.dom().contains(g)
                && old(app).connections@[g].peer_device_id != Some(device_id),
        !final(app).incoming@.dom().contains(key),
        old(app).incoming@.dom().contains(key) ==> r.1@.contains(
            old(app).incoming@[key].temporary_path,
        ),
        r.0.primary matches Some(g) ==> old(app).connections@.dom().contains(g)
            && old(app).connections@[g].peer_device_id == Some(device_id),
{
    let keys = canceling::keys_of(old(app).incoming.order(), Some(device_id));
    old(app).incoming.lemma_order();
    lists::lemma_filter_members(
        old(app).incoming.order(),
        |k: crate::ids::PeerItem| Some(device_id) is None || k.peer == Some(device_id)->0,
        key,
    );
    assert(keys == old(app).incoming.order().filter(
        |k: crate::ids::PeerItem| Some(device_id) is None || k.peer == Some(device_id)->0,
    ));
    if old(app).incoming@.dom().contains(key) {
        let i = keys.index_of(key);
        assert(keys[i] == key);
        assert(r.1@[i] == old(app).incoming@[key].temporary_path);
    }
    if let Some(g) = r.0.primary {
        assert(old(app).connects(g, device_id));
    }
}

/// Trust that is taken back ends the connections to the device, and it is shown and judged as
/// unknown from then on.
pub proof fn law_trust_is_taken_back(
    app: &mut AppState,
    next: &mut AppState,
    device_id: Uuid,
    updated: Vec<TrustedDevice>,
    name: String,
    shown_name: &str,
    key: &[u8],
    told: (PeerClosing, Notice),
    r: crate::state::TrustMatch,
)
    requires
        forall|i: int, j: int|
            #![trigger old(app).trusted_devices@[i], old(app).trusted_devices@[j]]
            0 <= i < j < old(app).trusted_devices@.len() ==> old(app).trusted_devices@[i].device_id
                != old(app).trusted_devices@[j].device_id,
        call_ensures(
            AppState::withdraw_trust,
            (app, device_id),
            Ok::<(Vec<TrustedDevice>, String), String>((updated, name)),
        ),
        *next == *final(app),
        call_ensures(AppState::trust_withdrawn, (next, device_id, updated, shown_name), told),
        call_ensures(AppState::trust_match, (final(next), device_id, key), r),
    ensures
        r is Unknown,
        forall|g: Uuid| #[trigger]
            final(next).connections@.dom().contains(g)
                ==> final(next).connections@[g].peer_device_id != Some(device_id),
        forall|s: Uuid| #[trigger]
            final(next).reconnects@.dom().contains(s)
                ==> final(next).reconnects@[s].target.device_id != Some(device_id),
        updated@.len() == old(app).trusted_devices@.len() - 1,
{
    let s = old(app).trusted();
    assert forall|i: int, j: int|
        #![trigger s[i], s[j]]
        0 <= i < j < s.len() implies s[i].device_id != s[j].device_id by {
        assert(s[i] == old(app).trusted_devices@[i]@ && s[j] == old(app).trusted_devices@[j]@);
    }
    trust::law_withdrawn_device_is_unknown(s, device_id, key@);
    lists::lemma_first_from(s, |t: trust::TrustedModel| t.device_id == device_id, 0);
    assert(trust::trusted_models(updated@).len() == updated@.len());
    assert forall|g: Uuid| #[trigger]
        final(next).connections@.dom().contains(g)
            implies final(next).connections@[g].peer_device_id != Some(device_id) by {
        assert(!final(next).connects(g, device_id));
    }
}

/// A device that is not trusted cannot lose the trust.
pub proof fn law_unknown_device_has_no_trust(
    app: &mut AppState,
    device_id: Uuid,
    known: bool,
    r: Result<(Vec<TrustedDevice>, String), String>,
)
    requires
        call_ensures(AppState::is_device_trusted, (old(app), device_id), known),
        call_ensures(AppState::withdraw_trust, (app, device_id), r),
    ensures
        r is Ok <==> known,
        final(app).trusted_devices == old(app).trusted_devices,
{
}

/// The user is told what was done, as a success where something was done.
pub proof fn law_user_is_told(
    removed: usize,
    enabled: bool,
    name: &str,
    history: Notice,
    autostart: Notice,
    removal: Notice,
)
    requires
        call_ensures(history_notice, (removed,), history),
        call_ensures(autostart_notice, (enabled,), autostart),
        call_ensures(removal_notice, (name,), removal),
    ensures
        history.level is Success <==> removed > 0,
        history.level is Info <==> removed == 0,
        autostart.level is Success,
        removal.level is Success,
        removal.message@.skip(removal.message@.len() - name@.len()) == name@,
{
    assert(removal.message@.skip(removal.message@.len() - name@.len()) =~= name@);
}

} // verus!
