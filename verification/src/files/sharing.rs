//! Directories that are shared, and pages of them.
use crate::error::{AppError, AppResult};
use crate::ids::{PeerItem, Uuid};
use crate::lists;
use crate::lists::Ranked;
use crate::models::{DirectoryPageView, LocalShare, RemoteEntry, SharedRoot};
use crate::paths;
use crate::protocol::{Frame, Message, CAPABILITY_LAZY_DIRECTORY};
use crate::state::workspace;
use crate::state::{AppState, MAX_SHARES};
use crate::text;
use vstd::prelude::*;

verus! {

/// The seconds for which a page of a directory is waited for.
pub const DIRECTORY_PAGE_SECONDS: u64 = 10;

/// The number of entries on a page of a directory.
pub const DIRECTORY_PAGE_SIZE: usize = 200;

/// What a page of a directory shows.
#[derive(Debug)]
pub struct DirectoryPageMeta {
    pub request_id: Uuid,
    pub share_id: Uuid,
    pub relative_path: String,
    pub offset: u32,
    pub next_offset: Option<u32>,
}

/// What was found in a directory.
#[derive(Debug)]
pub struct ChildFacts {
    /// The path from the root of the share.
    pub relative_path: String,
    pub name: String,
    pub size: u64,
    pub is_file: bool,
    pub is_directory: bool,
    pub is_symlink: bool,
}

/// The stretch of a directory that a page shows.
#[derive(Clone, Copy, Debug, PartialEq, Eq, Structural)]
pub struct PageBounds {
    pub start: usize,
    pub end: usize,
    pub next_offset: Option<u32>,
}

/// How a page of a directory of a peer is come by.
#[derive(Debug)]
pub enum PageRequest {
    /// The page is in the cache.
    Cached,
    /// The peer is asked for the page.
    Ask { request_id: Uuid, frame: Frame },
}

impl Ranked for RemoteEntry {
    /// Directories stand before files, and each of them in the order of their lower-case names.
    open spec fn precedes(&self, other: &Self) -> bool {
        if self.is_directory != other.is_directory {
            self.is_directory
        } else {
            text::before(text::lowercase_of(self.name@), text::lowercase_of(other.name@))
        }
    }

    proof fn lemma_asymmetric(a: &Self, b: &Self) {
        let (s, t) = (text::lowercase_of(a.name@), text::lowercase_of(b.name@));
        if text::before(s, t) && text::before(t, s) {
            text::lemma_before_transitive(s, t, s);
            text::lemma_before_irreflexive(s);
        }
    }

    proof fn lemma_negatively_transitive(a: &Self, b: &Self, c: &Self) {
        let (s, t, u) = (
            text::lowercase_of(a.name@),
            text::lowercase_of(b.name@),
            text::lowercase_of(c.name@),
        );
        text::lemma_before_total(s, t);
        text::lemma_before_total(t, u);
        if text::before(s, u) && s != t && text::before(t, s) {
            text::lemma_before_transitive(t, s, u);
        }
    }

    fn comes_before(&self, other: &Self) -> (r: bool) {
        if self.is_directory != other.is_directory {
            self.is_directory
        } else {
            text::less(&text::to_lowercase(&self.name), &text::to_lowercase(&other.name))
        }
    }
}

/// The stretch of a directory with so many entries that a page from this offset shows.
pub open spec fn page_of(offset: u32, count: nat) -> PageBounds {
    let start = if (offset as nat) < count {
        offset as nat
    } else {
        count
    };
    let end = if start + DIRECTORY_PAGE_SIZE < count {
        start + DIRECTORY_PAGE_SIZE
    } else {
        count as int
    };
    PageBounds {
        start: start as usize,
        end: end as usize,
        next_offset: if end < count {
            Some(
                if end <= u32::MAX {
                    end as u32
                } else {
                    u32::MAX
                },
            )
        } else {
            None
        },
    }
}

/// The stretch of a directory with so many entries that a page from this offset shows.
pub fn page_bounds(offset: u32, count: usize) -> (r: PageBounds)
    ensures
        r == page_of(offset, count as nat),
        r.start <= r.end <= count,
        r.end - r.start <= DIRECTORY_PAGE_SIZE,
{
    let start: usize = if (offset as usize) < count {
        offset as usize
    } else {
        count
    };
    let end: usize = if count - start > DIRECTORY_PAGE_SIZE {
        start + DIRECTORY_PAGE_SIZE
    } else {
        count
    };
    let next_offset = if end < count {
        if end as u64 <= u32::MAX as u64 {
            Some(end as u32)
        } else {
            Some(u32::MAX)
        }
    } else {
        None
    };
    PageBounds { start, end, next_offset }
}

/// The page that follows another starts where that one ends, and the last page ends with the
/// directory.
pub proof fn law_pages_are_consecutive(offset: u32, count: nat)
    requires
        count <= u32::MAX,
    ensures
        ({
            let page = page_of(offset, count);
            match page.next_offset {
                Some(next) => page_of(next, count).start == page.end && page.end > page.start,
                None => page.end == count,
            }
        }),
{
}

/// What was found, but for symbolic links.
pub open spec fn without_links(fs: Seq<ChildFacts>) -> Seq<ChildFacts> {
    fs.filter(|f: ChildFacts| !f.is_symlink)
}

/// An entry as it is told to a peer.
pub open spec fn is_entry(e: RemoteEntry, share: LocalShare, f: ChildFacts) -> bool {
    &&& e.share_id == share.id
    &&& e.share_name == share.name
    &&& paths::is_portable(f.relative_path@) ==> e.relative_path@ == paths::protocol_path_of(
        paths::portable_parts(f.relative_path@),
    )
    &&& paths::has_no_prefix(f.relative_path@) ==> e.relative_path@ == paths::protocol_path_of(
        paths::parts_by(f.relative_path@, false),
    ) || e.relative_path@ == paths::protocol_path_of(paths::parts_by(f.relative_path@, true))
    &&& e.name == f.name
    &&& e.size == if f.is_file {
        f.size
    } else {
        0
    }
    &&& e.is_directory == f.is_directory
}

/// The entries tell of these children, in their order.
pub open spec fn are_entries(
    es: Seq<RemoteEntry>,
    share: LocalShare,
    fs: Seq<ChildFacts>,
) -> bool {
    &&& es.len() == fs.len()
    &&& forall|i: int| 0 <= i < es.len() ==> is_entry(#[trigger] es[i], share, fs[i])
}

/// The entries of a directory: all but symbolic links, directories first, by name.
pub fn list_direct_children(share: &LocalShare, children: Vec<ChildFacts>) -> (r: Vec<RemoteEntry>)
    ensures
        exists|es: Seq<RemoteEntry>| #[trigger]
            are_entries(es, *share, without_links(children@)) && r@ == lists::stable_sorted(es, lists::rank_order::<RemoteEntry>()),
{
    let mut rest = children;
    let keep = |f: &ChildFacts| -> (b: bool)
        ensures
            b == !f.is_symlink,
        { !f.is_symlink };
    lists::retain(&mut rest, keep, Ghost(|f: ChildFacts| !f.is_symlink));
    let mut entries: Vec<RemoteEntry> = Vec::new();
    let mut i: usize = 0;
    while i < rest.len()
        invariant
            i <= rest@.len(),
            rest@ == without_links(children@),
            entries@.len() == i,
            forall|j: int| 0 <= j < i ==> is_entry(#[trigger] entries@[j], *share, rest@[j]),
        decreases rest@.len() - i,
    {
        let f = &rest[i];
        entries.push(
            RemoteEntry {
                share_id: share.id,
                share_name: share.name.clone(),
                relative_path: paths::path_to_protocol(&f.relative_path),
                name: f.name.clone(),
                size: if f.is_file {
                    f.size
                } else {
                    0
                },
                is_directory: f.is_directory,
            },
        );
        i = i + 1;
    }
    let ghost unsorted = entries@;
    assert(are_entries(unsorted, *share, without_links(children@)));
    lists::sort(&mut entries);
    entries
}

impl AppState {
    /// The place of a shared directory.
    pub open spec fn share_at(&self, share_id: Uuid) -> Option<int> {
        lists::first_where(self.local_shares@, |s: LocalShare| s.id == share_id)
    }

    fn find_share(&self, share_id: Uuid) -> (r: Option<LocalShare>)
        ensures
            match self.share_at(share_id) {
                Some(i) => r == Some(self.local_shares@[i]),
                None => r is None,
            },
    {
        let test = |s: &LocalShare| -> (b: bool)
            ensures
                b == (s.id == share_id),
            { s.id == share_id };
        match lists::position(
            &self.local_shares,
            test,
            Ghost(|s: LocalShare| s.id == share_id),
        ) {
            Some(i) => Some(self.local_shares[i].clone()),
            None => None,
        }
    }

    /// The directory that a peer wants to have listed, if the path stays inside it.
    pub fn check_listing(&self, share_id: Uuid, relative_path: &str) -> (r: AppResult<LocalShare>)
        ensures
            paths::is_portable(relative_path@) ==> if !paths::stays_inside(
                paths::portable_parts(relative_path@),
            ) {
                r matches Err(e) && e.is_invalid_input("共享目录相对路径不安全"@)
            } else {
                match self.share_at(share_id) {
                    Some(i) => r == Ok::<LocalShare, AppError>(self.local_shares@[i]),
                    None => r matches Err(e) && e.is_invalid_input("请求的共享目录不存在"@),
                }
            },
            paths::surely_outside(relative_path@) ==> (r matches Err(e) && e.is_invalid_input(
                "共享目录相对路径不安全"@,
            )),
            paths::surely_inside(relative_path@) ==> match self.share_at(share_id) {
                Some(i) => r == Ok::<LocalShare, AppError>(self.local_shares@[i]),
                None => r matches Err(e) && e.is_invalid_input("请求的共享目录不存在"@),
            },
            r matches Ok(share) ==> self.share_at(share_id) is Some && share
                == self.local_shares@[self.share_at(share_id)->0],
    {
        if let Err(e) = paths::validate_relative_path(relative_path) {
            return Err(e);
        }
        match self.find_share(share_id) {
            Some(share) => Ok(share),
            None => Err(AppError::invalid_input("请求的共享目录不存在")),
        }
    }

    /// The directory of the file that a peer wants to have, and the name to send it under, if the
    /// path stays inside the directory.
    pub fn resolve_shared_file(&self, share_id: Uuid, relative_path: &str) -> (r: AppResult<
        (LocalShare, String),
    >)
        ensures
            match self.share_at(share_id) {
                None => r matches Err(e) && e.is_invalid_input("请求的共享目录不存在"@),
                Some(i) => {
                    let share = self.local_shares@[i];
                    match r {
                        Ok((found, display_name)) => {
                            &&& found == share
                            &&& display_name@ == share.name@ + "/"@ + relative_path@
                            &&& !paths::surely_outside(relative_path@)
                            &&& paths::is_portable(relative_path@) ==> paths::stays_inside(
                                paths::portable_parts(relative_path@),
                            )
                        },
                        Err(e) => {
                            &&& e.is_invalid_input("共享文件路径不安全"@)
                            &&& !paths::surely_inside(relative_path@)
                            &&& paths::is_portable(relative_path@) ==> !paths::stays_inside(
                                paths::portable_parts(relative_path@),
                            )
                        },
                    }
                },
            },
    {
        match self.find_share(share_id) {
            None => Err(AppError::invalid_input("请求的共享目录不存在")),
            Some(share) => {
                if !paths::is_safe_relative(relative_path) {
                    return Err(AppError::invalid_input("共享文件路径不安全"));
                }
                let display_name = text::joined3(&share.name, "/", relative_path);
                Ok((share, display_name))
            },
        }
    }

    /// What this device shares, as it is told to peers.
    pub open spec fn roots(&self) -> Seq<SharedRoot> {
        self.local_shares@.map_values(|s: LocalShare| SharedRoot { id: s.id, name: s.name })
    }

    /// What this device shares, as it is told to peers.
    pub fn shared_roots(&self) -> (r: Vec<SharedRoot>)
        ensures
            r@ == self.roots(),
    {
        let ghost all = self.roots();
        let mut out: Vec<SharedRoot> = Vec::new();
        let mut i: usize = 0;
        while i < self.local_shares.len()
            invariant
                i <= self.local_shares@.len(),
                all == self.roots(),
                out@ == all.take(i as int),
            decreases self.local_shares@.len() - i,
        {
            out.push(
                SharedRoot {
                    id: self.local_shares[i].id,
                    name: self.local_shares[i].name.clone(),
                },
            );
            i = i + 1;
        }
        proof {
            assert(all.take(i as int) =~= all);
        }
        out
    }

    /// Takes over what a peer shares, if it is not too much.
    pub fn accept_share_roots(
        &mut self,
        device_id: Uuid,
        revision: Uuid,
        roots: Vec<SharedRoot>,
    ) -> (r: AppResult<()>)
        requires
            old(self).wf(),
        ensures
            final(self).wf(),
            r is Ok <==> roots@.len() <= MAX_SHARES,
            match r {
                Err(e) => e.is_protocol("远端共享根目录数量超过限制"@) && *final(self) == *old(
                    self,
                ),
                Ok(()) => {
                    &&& *final(self) == (AppState {
                        remote_shares: final(self).remote_shares,
                        remote_share_revisions: final(self).remote_share_revisions,
                        remote_directory_cache: final(self).remote_directory_cache,
                        ..*old(self)
                    })
                    &&& final(self).remote_shares@ == old(self).remote_shares@.insert(
                        device_id,
                        roots,
                    )
                    &&& final(self).remote_share_revisions@ == old(
                        self,
                    ).remote_share_revisions@.insert(device_id, revision)
                    &&& if old(self).remote_share_revisions@.dom().contains(device_id) && old(
                        self,
                    ).remote_share_revisions@[device_id] == revision {
                        final(self).remote_directory_cache == old(self).remote_directory_cache
                    } else {
                        final(self).remote_directory_cache@ == old(
                            self,
                        ).remote_directory_cache@.remove(device_id)
                    }
                },
            },
    {
        if roots.len() > MAX_SHARES {
            return Err(AppError::protocol("远端共享根目录数量超过限制"));
        }
        self.set_remote_roots(device_id, revision, roots);
        Ok(())
    }

    /// The page is in the cache.
    pub open spec fn is_cached(
        &self,
        device_id: Uuid,
        share_id: Uuid,
        relative_path: Seq<char>,
        offset: u32,
    ) -> bool {
        &&& self.remote_directory_cache@.dom().contains(device_id)
        &&& lists::first_where(
            self.remote_directory_cache@[device_id]@,
            |p: DirectoryPageView| workspace::page_shows(p, share_id, relative_path, offset),
        ) is Some
    }

    /// Finds a page of a directory of a peer in the cache, or asks the peer under a fresh
    /// identifier.
    pub fn request_directory_page(
        &mut self,
        device_id: Uuid,
        share_id: Uuid,
        relative_path: String,
        offset: u32,
    ) -> (r: AppResult<PageRequest>)
        requires
            old(self).wf(),
        ensures
            final(self).wf(),
            !old(self).is_capable(device_id, CAPABILITY_LAZY_DIRECTORY@) ==> (r matches Err(e)
                && e.is_protocol("对方版本不支持按需目录浏览，请升级 NearWeave"@)),
            old(self).is_capable(device_id, CAPABILITY_LAZY_DIRECTORY@) && paths::is_portable(
                relative_path@,
            ) ==> {
                let inside = paths::stays_inside(paths::portable_parts(relative_path@));
                let cached = old(self).is_cached(device_id, share_id, relative_path@, offset);
                &&& !inside ==> r is Err && r->Err_0.is_invalid_input("共享目录相对路径不安全"@)
                &&& inside && cached ==> r == Ok::<PageRequest, AppError>(PageRequest::Cached)
                &&& inside && !cached ==> r is Ok && r->Ok_0 is Ask
            },
            old(self).is_capable(device_id, CAPABILITY_LAZY_DIRECTORY@) && paths::surely_outside(
                relative_path@,
            ) ==> (r matches Err(e) && e.is_invalid_input("共享目录相对路径不安全"@)),
            old(self).is_capable(device_id, CAPABILITY_LAZY_DIRECTORY@) && paths::surely_inside(
                relative_path@,
            ) ==> if old(self).is_cached(device_id, share_id, relative_path@, offset) {
                r == Ok::<PageRequest, AppError>(PageRequest::Cached)
            } else {
                r is Ok && r->Ok_0 is Ask
            },
            match r {
                Ok(PageRequest::Ask { request_id, frame }) => request_id.is_random() && !old(
                    self,
                ).is_cached(device_id, share_id, relative_path@, offset) && AppState::asks(
                    *old(self),
                    *final(self),
                    device_id,
                    share_id,
                    relative_path,
                    offset,
                    request_id,
                    frame,
                ),
                Ok(PageRequest::Cached) => *final(self) == *old(self) && old(self).is_cached(
                    device_id,
                    share_id,
                    relative_path@,
                    offset,
                ),
                Err(_) => *final(self) == *old(self),
            },
    {
        let request_id = Uuid::new_v4();
        self.request_directory_page_as(request_id, device_id, share_id, relative_path, offset)
    }

    /// What asking for a page changes, and how the peer is asked.
    pub open spec fn asks(
        pre: AppState,
        post: AppState,
        device_id: Uuid,
        share_id: Uuid,
        relative_path: String,
        offset: u32,
        request_id: Uuid,
        frame: Frame,
    ) -> bool {
        &&& post == (AppState { directory_requests: post.directory_requests, ..pre })
        &&& post.directory_requests@ == pre.directory_requests@.insert(
            PeerItem { peer: device_id, item: request_id },
            (),
        )
        &&& frame.payload@.len() == 0
        &&& frame.message == (Message::DirectoryListRequest {
            request_id,
            share_id,
            relative_path,
            offset,
        })
    }

    /// Finds a page of a directory of a peer in the cache, or asks the peer under this
    /// identifier.
    pub fn request_directory_page_as(
        &mut self,
        request_id: Uuid,
        device_id: Uuid,
        share_id: Uuid,
        relative_path: String,
        offset: u32,
    ) -> (r: AppResult<PageRequest>)
        requires
            old(self).wf(),
        ensures
            final(self).wf(),
            !old(self).is_capable(device_id, CAPABILITY_LAZY_DIRECTORY@) ==> (r matches Err(e)
                && e.is_protocol("对方版本不支持按需目录浏览，请升级 NearWeave"@)),
            old(self).is_capable(device_id, CAPABILITY_LAZY_DIRECTORY@) && paths::is_portable(
                relative_path@,
            ) ==> {
                let inside = paths::stays_inside(paths::portable_parts(relative_path@));
                let cached = old(self).is_cached(device_id, share_id, relative_path@, offset);
                &&& !inside ==> r is Err && r->Err_0.is_invalid_input("共享目录相对路径不安全"@)
                &&& inside && cached ==> r == Ok::<PageRequest, AppError>(PageRequest::Cached)
                &&& inside && !cached ==> r is Ok && r->Ok_0 is Ask
            },
            old(self).is_capable(device_id, CAPABILITY_LAZY_DIRECTORY@) && paths::surely_outside(
                relative_path@,
            ) ==> (r matches Err(e) && e.is_invalid_input("共享目录相对路径不安全"@)),
            old(self).is_capable(device_id, CAPABILITY_LAZY_DIRECTORY@) && paths::surely_inside(
                relative_path@,
            ) ==> if old(self).is_cached(device_id, share_id, relative_path@, offset) {
                r == Ok::<PageRequest, AppError>(PageRequest::Cached)
            } else {
                r is Ok && r->Ok_0 is Ask
            },
            match r {
                Ok(PageRequest::Ask { request_id: id, frame }) => id == request_id && !old(
                    self,
                ).is_cached(device_id, share_id, relative_path@, offset) && AppState::asks(
                    *old(self),
                    *final(self),
                    device_id,
                    share_id,
                    relative_path,
                    offset,
                    request_id,
                    frame,
                ),
                Ok(PageRequest::Cached) => *final(self) == *old(self) && old(self).is_cached(
                    device_id,
                    share_id,
                    relative_path@,
                    offset,
                ),
                Err(_) => *final(self) == *old(self),
            },
    {
        if !self.supports_capability(device_id, CAPABILITY_LAZY_DIRECTORY) {
            return Err(
                AppError::protocol("对方版本不支持按需目录浏览，请升级 NearWeave"),
            );
        }
        if let Err(e) = paths::validate_relative_path(&relative_path) {
            return Err(e);
        }
        let cached = self.cached_remote_directory(
            device_id,
            share_id,
            &relative_path,
            offset,
        ).is_some();
        if cached {
            return Ok(PageRequest::Cached);
        }
        self.begin_directory_request(device_id, request_id);
        let frame = Frame::new(
            Message::DirectoryListRequest { request_id, share_id, relative_path, offset },
        );
        Ok(PageRequest::Ask { request_id, frame })
    }

    /// Gives up a page that has not come in time.
    pub fn directory_page_timeout(&mut self, device_id: Uuid, request_id: Uuid) -> (r: AppError)
        requires
            old(self).wf(),
        ensures
            final(self).wf(),
            *final(self) == (AppState {
                directory_requests: final(self).directory_requests,
                ..*old(self)
            }),
            final(self).directory_requests@ == old(self).directory_requests@.remove(
                PeerItem { peer: device_id, item: request_id },
            ),
            r.is_protocol("读取远端目录超时"@),
    {
        self.cancel_directory_request(device_id, request_id);
        AppError::protocol("读取远端目录超时")
    }

    /// Takes a page of a directory of a peer over, and says whether somebody waits for it.
    pub fn accept_directory_page(
        &mut self,
        device_id: Uuid,
        meta: DirectoryPageMeta,
        entries: Vec<RemoteEntry>,
    ) -> (r: AppResult<bool>)
        requires
            old(self).wf(),
        ensures
            final(self).wf(),
            r is Ok <==> entries@.len() <= DIRECTORY_PAGE_SIZE,
            match r {
                Err(e) => e.is_protocol("远端目录分页条目超过限制"@) && *final(self) == *old(
                    self,
                ),
                Ok(waiting) => {
                    let key = PeerItem { peer: device_id, item: meta.request_id };
                    let page = DirectoryPageView {
                        device_id,
                        share_id: meta.share_id,
                        relative_path: meta.relative_path,
                        offset: meta.offset,
                        next_offset: meta.next_offset,
                        entries,
                    };
                    let before = old(self).remote_directory_cache@;
                    let after = final(self).remote_directory_cache@;
                    let pages = if before.dom().contains(device_id) {
                        before[device_id]@
                    } else {
                        Seq::empty()
                    };
                    &&& *final(self) == (AppState {
                        remote_directory_cache: final(self).remote_directory_cache,
                        directory_requests: final(self).directory_requests,
                        ..*old(self)
                    })
                    &&& waiting == old(self).directory_requests@.dom().contains(key)
                    &&& final(self).directory_requests@ == old(self).directory_requests@.remove(
                        key,
                    )
                    &&& after.dom() == before.dom().insert(device_id)
                    &&& after[device_id]@ == workspace::pages_with(pages, page)
                    &&& forall|d: Uuid| #[trigger]
                        before.dom().contains(d) && d != device_id ==> after[d] == before[d]
                },
            },
    {
        if entries.len() > DIRECTORY_PAGE_SIZE {
            return Err(AppError::protocol("远端目录分页条目超过限制"));
        }
        let page = DirectoryPageView {
            device_id,
            share_id: meta.share_id,
            relative_path: meta.relative_path,
            offset: meta.offset,
            next_offset: meta.next_offset,
            entries,
        };
        self.cache_remote_directory(page);
        Ok(self.resolve_directory_request(device_id, meta.request_id))
    }
}

/// Refuses a directory that is a symbolic link.
pub fn check_not_linked_directory(is_symlink: bool) -> (r: AppResult<()>)
    ensures
        r is Ok <==> !is_symlink,
        r matches Err(e) ==> e.is_invalid_input("不允许浏览符号链接目录"@),
{
    if is_symlink {
        Err(AppError::invalid_input("不允许浏览符号链接目录"))
    } else {
        Ok(())
    }
}

/// Refuses what lies outside of the shared directory or is no directory.
pub fn check_listed_directory(inside_root: bool, is_directory: bool) -> (r: AppResult<()>)
    ensures
        r is Ok <==> inside_root && is_directory,
        r matches Err(e) ==> e.is_invalid_input("请求的共享子目录不安全"@),
{
    if !inside_root || !is_directory {
        Err(AppError::invalid_input("请求的共享子目录不安全"))
    } else {
        Ok(())
    }
}

/// Refuses a file that is a symbolic link.
pub fn check_not_linked_file(is_symlink: bool) -> (r: AppResult<()>)
    ensures
        r is Ok <==> !is_symlink,
        r matches Err(e) ==> e.is_invalid_input("不允许下载符号链接文件"@),
{
    if is_symlink {
        Err(AppError::invalid_input("不允许下载符号链接文件"))
    } else {
        Ok(())
    }
}

/// Refuses what lies outside of the shared directory or is no file.
pub fn check_shared_file(inside_root: bool, is_file: bool) -> (r: AppResult<()>)
    ensures
        r is Ok <==> inside_root && is_file,
        r matches Err(e) ==> e.is_invalid_input("共享文件不存在或超出授权目录"@),
{
    if !inside_root || !is_file {
        Err(AppError::invalid_input("共享文件不存在或超出授权目录"))
    } else {
        Ok(())
    }
}

/// What this device shares, told to a peer under a fresh revision.
pub fn share_roots_frame(request_id: Option<Uuid>, payload: Vec<u8>) -> (r: Frame)
    ensures
        r.payload == payload,
        r.message matches Message::ShareRoots { request_id: id, revision } && id == request_id
            && revision.is_random(),
{
    let revision = Uuid::new_v4();
    Frame::with_payload(Message::ShareRoots { request_id, revision }, payload)
}

/// A page of a directory, in answer to a peer.
pub fn directory_page_frame(
    request_id: Uuid,
    share_id: Uuid,
    relative_path: String,
    offset: u32,
    bounds: PageBounds,
    payload: Vec<u8>,
) -> (r: Frame)
    ensures
        r == (Frame {
            message: Message::DirectoryListResponse {
                request_id,
                share_id,
                relative_path,
                offset,
                next_offset: bounds.next_offset,
            },
            payload,
        }),
{
    Frame::with_payload(
        Message::DirectoryListResponse {
            request_id,
            share_id,
            relative_path,
            offset,
            next_offset: bounds.next_offset,
        },
        payload,
    )
}

/// A page starts with the entry that was asked for, and shows two hundred entries or as many as
/// are left.
pub proof fn law_page_starts_where_asked(offset: u32, count: usize, r: PageBounds)
    requires
        call_ensures(page_bounds, (offset, count), r),
    ensures
        offset <= count ==> r.start == offset,
        offset > count ==> r.start == count,
        count - r.start >= 200 ==> r.end == r.start + 200,
        count - r.start < 200 ==> r.end == count,
        r.next_offset is None <==> r.end == count,
        r.next_offset matches Some(next) ==> next == r.end || r.end > u32::MAX,
{
}

/// Each page in turn is the one that the page before it leads to, from the first entry on.
pub open spec fn are_pages(pages: Seq<PageBounds>, count: usize) -> bool {
    &&& pages.len() > 0
    &&& call_ensures(page_bounds, (0u32, count), pages[0])
    &&& forall|k: int| 0 < k < pages.len() ==> #[trigger] is_led_to(pages, count, k)
    &&& pages.last().next_offset is None
}

/// A page is the one that the page before it leads to.
pub open spec fn is_led_to(pages: Seq<PageBounds>, count: usize, k: int) -> bool {
    pages[k - 1].next_offset is Some && call_ensures(
        page_bounds,
        (pages[k - 1].next_offset->0, count),
        pages[k],
    )
}

/// One who begins with the first page and goes from each page to the next until there is none sees
/// each entry of a directory on one page, and on one only.
pub proof fn law_every_entry_is_on_one_page(pages: Seq<PageBounds>, count: usize, i: int)
    requires
        are_pages(pages, count),
        count <= u32::MAX,
        0 <= i < count,
    ensures
        exists|k: int|
            0 <= k < pages.len() && (#[trigger] pages[k]).start <= i < pages[k].end && forall|j: int|
                0 <= j < pages.len() && (#[trigger] pages[j]).start <= i < pages[j].end ==> j == k,
{
    lemma_pages_reach(pages, count, pages.len() - 1);
    let k = lemma_page_with(pages, count, pages.len() - 1, i);
    assert forall|j: int|
        0 <= j < pages.len() && (#[trigger] pages[j]).start <= i < pages[j].end implies j == k by {
        if j < k {
            lemma_pages_ascend(pages, count, j, k);
        } else if k < j {
            lemma_pages_ascend(pages, count, k, j);
        }
    }
}

proof fn lemma_pages_reach(pages: Seq<PageBounds>, count: usize, k: int)
    requires
        are_pages(pages, count),
        count <= u32::MAX,
        0 <= k < pages.len(),
    ensures
        k == 0 ==> pages[k].start == 0,
        k > 0 ==> pages[k].start == pages[k - 1].end,
        pages[k].start <= pages[k].end <= count,
        pages[k].next_offset is None ==> pages[k].end == count,
{
    if k > 0 {
        assert(is_led_to(pages, count, k));
        if k > 1 {
            assert(is_led_to(pages, count, k - 1));
        }
        law_page_starts_where_asked(pages[k - 1].next_offset->0, count, pages[k]);
    }
}

proof fn lemma_page_with(pages: Seq<PageBounds>, count: usize, last: int, i: int) -> (k: int)
    requires
        are_pages(pages, count),
        count <= u32::MAX,
        0 <= last < pages.len(),
        0 <= i < pages[last].end,
    ensures
        0 <= k <= last,
        pages[k].start <= i < pages[k].end,
    decreases last,
{
    lemma_pages_reach(pages, count, last);
    if i >= pages[last].start {
        last
    } else {
        lemma_page_with(pages, count, last - 1, i)
    }
}

proof fn lemma_pages_ascend(pages: Seq<PageBounds>, count: usize, j: int, k: int)
    requires
        are_pages(pages, count),
        count <= u32::MAX,
        0 <= j < k < pages.len(),
    ensures
        pages[j].end <= pages[k].start,
    decreases k - j,
{
    lemma_pages_reach(pages, count, k);
    if j < k - 1 {
        lemma_pages_ascend(pages, count, j, k - 1);
        lemma_pages_reach(pages, count, k - 1);
    }
}

/// A page that a peer gives, with up to 200 entries, is kept, so that it need not be asked for again,
/// and ends the request that it answers.
pub proof fn law_given_page_is_kept(
    state: &mut AppState,
    next: &mut AppState,
    device_id: Uuid,
    meta: DirectoryPageMeta,
    entries: Vec<RemoteEntry>,
    path: &str,
    r: AppResult<bool>,
    found: Option<&DirectoryPageView>,
    again: AppResult<PageRequest>,
)
    requires
        call_ensures(AppState::accept_directory_page, (state, device_id, meta, entries), r),
        path@ == meta.relative_path@,
        call_ensures(
            AppState::cached_remote_directory,
            (final(state), device_id, meta.share_id, path, meta.offset),
            found,
        ),
        *next == *final(state),
        call_ensures(
            AppState::request_directory_page,
            (next, device_id, meta.share_id, meta.relative_path, meta.offset),
            again,
        ),
    ensures
        r is Ok <==> entries@.len() <= 200,
        r matches Ok(waited) ==> {
            let key = PeerItem { peer: device_id, item: meta.request_id };
            &&& waited <==> old(state).directory_requests@.dom().contains(key)
            &&& !final(state).directory_requests@.dom().contains(key)
            &&& found matches Some(page) && page.entries == entries && page.next_offset
                == meta.next_offset && page.share_id == meta.share_id && page.offset == meta.offset
            &&& again is Ok ==> again->Ok_0 is Cached
        },
        r is Err ==> *final(state) == *old(state),
{
    if r is Ok {
        let pages = final(state).remote_directory_cache@[device_id]@;
        lists::lemma_first_is(
            pages,
            |p: DirectoryPageView|
                workspace::page_shows(p, meta.share_id, meta.relative_path@, meta.offset),
            0,
        );
        assert(workspace::page_shows(pages[0], meta.share_id, path@, meta.offset));
        lists::lemma_first_is(
            pages,
            |p: DirectoryPageView| workspace::page_shows(p, meta.share_id, path@, meta.offset),
            0,
        );
        assert(next.is_cached(device_id, meta.share_id, meta.relative_path@, meta.offset));
        if again is Ok {
            assert(next.is_capable(device_id, CAPABILITY_LAZY_DIRECTORY@));
        }
    }
}

/// An entry that is told to a peer is a child of the directory, with its name, its path, its kind and
/// the size of a file, and no symbolic link.
pub open spec fn tells_of(e: RemoteEntry, share: LocalShare, f: ChildFacts) -> bool {
    &&& !f.is_symlink
    &&& e.name@ == f.name@
    &&& e.is_directory == f.is_directory
    &&& f.is_file ==> e.size == f.size
    &&& !f.is_file ==> e.size == 0
    &&& e.share_id == share.id
    &&& e.share_name@ == share.name@
    &&& forall|names: Seq<Seq<char>>| #[trigger]
        paths::is_proper_path(f.relative_path@, names) ==> e.relative_path@ == f.relative_path@
}

proof fn lemma_listing(share: LocalShare, children: Vec<ChildFacts>, r: Vec<RemoteEntry>)
    requires
        call_ensures(list_direct_children, (&share, children), r),
    ensures
        r@.len() == without_links(children@).len(),
        lists::in_order(r@, lists::rank_order::<RemoteEntry>()),
        exists|es: Seq<RemoteEntry>| #[trigger]
            are_entries(es, share, without_links(children@)) && forall|e: RemoteEntry| #[trigger]
                r@.contains(e) <==> es.contains(e),
{
    let es = choose|es: Seq<RemoteEntry>| #[trigger]
        are_entries(es, share, without_links(children@)) && r@ == lists::stable_sorted(
            es,
            lists::rank_order::<RemoteEntry>(),
        );
    lists::lemma_rank_order::<RemoteEntry>();
    lists::lemma_stable_sorted(es, lists::rank_order::<RemoteEntry>());
    assert forall|e: RemoteEntry| #[trigger] r@.contains(e) <==> es.contains(e) by {
        lists::lemma_sorted_members(es, lists::rank_order::<RemoteEntry>(), e);
    }
}

/// The entry tells of one of these children.
pub open spec fn tells_of_one(
    e: RemoteEntry,
    share: LocalShare,
    children: Seq<ChildFacts>,
) -> bool {
    exists|f: ChildFacts| #[trigger] children.contains(f) && tells_of(e, share, f)
}

/// The child is told of in one of these entries.
pub open spec fn is_told_of(entries: Seq<RemoteEntry>, share: LocalShare, f: ChildFacts) -> bool {
    exists|e: RemoteEntry| #[trigger] entries.contains(e) && tells_of(e, share, f)
}

/// A peer is told of each child of a directory that is no symbolic link, and of nothing else.
pub proof fn law_listing_is_complete(
    share: LocalShare,
    children: Vec<ChildFacts>,
    r: Vec<RemoteEntry>,
)
    requires
        call_ensures(list_direct_children, (&share, children), r),
    ensures
        forall|i: int|
            0 <= i < r@.len() ==> tells_of_one(#[trigger] r@[i], share, children@),
        forall|j: int|
            0 <= j < children@.len() && !(#[trigger] children@[j]).is_symlink ==> is_told_of(
                r@,
                share,
                children@[j],
            ),
{
    lemma_listing(share, children, r);
    let kept = without_links(children@);
    let es = choose|es: Seq<RemoteEntry>| #[trigger]
        are_entries(es, share, kept) && forall|e: RemoteEntry| #[trigger]
            r@.contains(e) <==> es.contains(e);
    assert forall|i: int| 0 <= i < r@.len() implies tells_of_one(
        #[trigger] r@[i],
        share,
        children@,
    ) by {
        assert(r@.contains(r@[i]));
        let k = es.index_of(r@[i]);
        assert(is_entry(es[k], share, kept[k]));
        assert(kept.contains(kept[k]));
        lists::lemma_filter_members(children@, |f: ChildFacts| !f.is_symlink, kept[k]);
        lemma_entry_path(es[k], share, kept[k]);
        assert(children@.contains(kept[k]) && tells_of(r@[i], share, kept[k]));
    }
    assert forall|j: int|
        0 <= j < children@.len() && !(#[trigger] children@[j]).is_symlink implies is_told_of(
        r@,
        share,
        children@[j],
    ) by {
        assert(children@.contains(children@[j]));
        lists::lemma_filter_members(children@, |f: ChildFacts| !f.is_symlink, children@[j]);
        let k = kept.index_of(children@[j]);
        assert(is_entry(es[k], share, kept[k]));
        lemma_entry_path(es[k], share, kept[k]);
        assert(es.contains(es[k]));
        assert(r@.contains(es[k]) && tells_of(es[k], share, children@[j]));
    }
}

proof fn lemma_entry_path(e: RemoteEntry, share: LocalShare, f: ChildFacts)
    requires
        is_entry(e, share, f),
    ensures
        forall|names: Seq<Seq<char>>| #[trigger]
            paths::is_proper_path(f.relative_path@, names) ==> e.relative_path@ == f.relative_path@,
{
    assert forall|names: Seq<Seq<char>>| #[trigger]
        paths::is_proper_path(f.relative_path@, names) implies e.relative_path@
        == f.relative_path@ by {
        paths::lemma_proper_path(f.relative_path@, names);
    }
}

/// Directories stand before files, and among each other both stand in the order of their names,
/// whether these are written large or small.
pub proof fn law_listing_is_in_order(
    share: LocalShare,
    children: Vec<ChildFacts>,
    r: Vec<RemoteEntry>,
    i: int,
    j: int,
)
    requires
        call_ensures(list_direct_children, (&share, children), r),
        0 <= i < j < r@.len(),
    ensures
        r@[j].is_directory ==> r@[i].is_directory,
        r@[i].is_directory == r@[j].is_directory ==> {
            let (a, b) = (text::lowercase_of(r@[i].name@), text::lowercase_of(r@[j].name@));
            a == b || text::before(a, b)
        },
{
    lemma_listing(share, children, r);
    let lt = lists::rank_order::<RemoteEntry>();
    assert(!lt(r@[j], r@[i]));
    assert(!r@[j].precedes(&r@[i]));
    text::lemma_before_total(text::lowercase_of(r@[i].name@), text::lowercase_of(r@[j].name@));
}

/// A listing or a file is given only of a directory that is shared under the identifier that was
/// asked for, and only for a path that does not lead out of it.
pub proof fn law_only_shared_directories_are_listed(
    state: AppState,
    share_id: Uuid,
    relative_path: &str,
    listed: AppResult<LocalShare>,
    file: AppResult<(LocalShare, String)>,
)
    requires
        call_ensures(AppState::check_listing, (&state, share_id, relative_path), listed),
        call_ensures(AppState::resolve_shared_file, (&state, share_id, relative_path), file),
    ensures
        listed matches Ok(share) ==> share.id == share_id && state.local_shares@.contains(share),
        file matches Ok((share, name)) ==> share.id == share_id && state.local_shares@.contains(
            share,
        ) && name@ == share.name@ + "/"@ + relative_path@,
        paths::surely_outside(relative_path@) ==> listed is Err && file is Err,
        paths::surely_inside(relative_path@) ==> ((listed is Ok <==> exists|i: int|
            0 <= i < state.local_shares@.len() && (#[trigger] state.local_shares@[i]).id
                == share_id) && (listed is Ok <==> file is Ok)),
{
    let p = |s: LocalShare| s.id == share_id;
    lists::lemma_first_from(state.local_shares@, p, 0);
}

/// Peers are told of each directory that is shared, by its identifier and its name.
pub proof fn law_all_shares_are_told(state: AppState, r: Vec<SharedRoot>)
    requires
        call_ensures(AppState::shared_roots, (&state,), r),
    ensures
        r@.len() == state.local_shares@.len(),
        forall|i: int|
            0 <= i < r@.len() ==> (#[trigger] r@[i]).id == state.local_shares@[i].id && r@[i].name@
                == state.local_shares@[i].name@,
{
}

/// What a peer says that it shares, up to 64 directories, is what is shown of it from then on, and
/// pages of its directories that were known under another revision are forgotten.
pub proof fn law_told_shares_are_shown(
    state: &mut AppState,
    device_id: Uuid,
    revision: Uuid,
    roots: Vec<SharedRoot>,
    other: Uuid,
    r: AppResult<()>,
    shown: Vec<SharedRoot>,
    others_before: Vec<SharedRoot>,
    others_after: Vec<SharedRoot>,
)
    requires
        call_ensures(AppState::accept_share_roots, (state, device_id, revision, roots), r),
        call_ensures(AppState::remote_roots, (final(state), device_id), shown),
        call_ensures(AppState::remote_roots, (old(state), other), others_before),
        call_ensures(AppState::remote_roots, (final(state), other), others_after),
        other != device_id,
    ensures
        r is Ok <==> roots@.len() <= 64,
        r is Ok ==> shown@ == roots@,
        others_after@ == others_before@,
        r is Ok ==> final(state).remote_share_revisions@.dom().contains(device_id)
            && final(state).remote_share_revisions@[device_id] == revision,
        r is Ok && (!old(state).remote_share_revisions@.dom().contains(device_id)
            || old(state).remote_share_revisions@[device_id] != revision)
            ==> !final(state).remote_directory_cache@.dom().contains(device_id),
        old(state).remote_share_revisions@.dom().contains(device_id)
            && old(state).remote_share_revisions@[device_id] == revision
            ==> final(state).remote_directory_cache
            == old(state).remote_directory_cache,
{
}

/// A page that was not seen before is asked for with all that tells which it is, and the answer is
/// waited for.
pub proof fn law_page_is_asked_for(
    state: &mut AppState,
    device_id: Uuid,
    share_id: Uuid,
    relative_path: String,
    offset: u32,
    r: AppResult<PageRequest>,
)
    requires
        call_ensures(
            AppState::request_directory_page,
            (state, device_id, share_id, relative_path, offset),
            r,
        ),
    ensures
        r matches Ok(PageRequest::Ask { request_id, frame }) ==> {
            &&& final(state).directory_requests@.dom().contains(
                PeerItem { peer: device_id, item: request_id },
            )
            &&& frame.message matches Message::DirectoryListRequest {
                request_id: id,
                share_id: share,
                relative_path: path,
                offset: from,
            }
            &&& id == request_id
            &&& share == share_id
            &&& path@ == relative_path@
            &&& from == offset
        },
        paths::surely_outside(relative_path@) ==> r is Err,
        r is Ok ==> old(state).is_capable(device_id, CAPABILITY_LAZY_DIRECTORY@),
        old(state).is_capable(device_id, CAPABILITY_LAZY_DIRECTORY@) && paths::surely_inside(
            relative_path@,
        ) ==> r is Ok,
{
}


/// What may be shown or sent of a shared directory: directories and files that lie in it, and no
/// symbolic links.
pub proof fn law_only_what_lies_inside_is_given(
    link: bool,
    inside: bool,
    is_directory: bool,
    is_file: bool,
    linked_directory: AppResult<()>,
    directory: AppResult<()>,
    linked_file: AppResult<()>,
    file: AppResult<()>,
)
    requires
        call_ensures(check_not_linked_directory, (link,), linked_directory),
        call_ensures(check_listed_directory, (inside, is_directory), directory),
        call_ensures(check_not_linked_file, (link,), linked_file),
        call_ensures(check_shared_file, (inside, is_file), file),
    ensures
        linked_directory is Ok <==> !link,
        linked_file is Ok <==> !link,
        directory is Ok <==> inside && is_directory,
        file is Ok <==> inside && is_file,
{
}

/// A page is given with the number of the request that it answers, where it starts, and where the
/// next one does; what is shared is told with all that was put in.
pub proof fn law_page_answers_its_request(
    request_id: Uuid,
    share_id: Uuid,
    relative_path: String,
    offset: u32,
    count: usize,
    bounds: PageBounds,
    payload: Vec<u8>,
    asked: Option<Uuid>,
    r: Frame,
    roots: Frame,
)
    requires
        call_ensures(page_bounds, (offset, count), bounds),
        call_ensures(
            directory_page_frame,
            (request_id, share_id, relative_path, offset, bounds, payload),
            r,
        ),
        call_ensures(share_roots_frame, (asked, payload), roots),
    ensures
        r.message matches Message::DirectoryListResponse {
            request_id: id,
            share_id: share,
            relative_path: path,
            offset: from,
            next_offset,
        } && id == request_id && share == share_id && path@ == relative_path@ && from == offset && (
        next_offset is Some <==> bounds.end < count),
        r.payload@ == payload@,
        roots.payload@ == payload@,
        roots.message matches Message::ShareRoots { request_id: id, revision } && id == asked,
{
}

/// A page that has not come in time is no longer waited for.
pub proof fn law_late_page_is_given_up(
    state: &mut AppState,
    device_id: Uuid,
    request_id: Uuid,
    other: PeerItem,
    r: AppError,
)
    requires
        call_ensures(AppState::directory_page_timeout, (state, device_id, request_id), r),
        other != (PeerItem { peer: device_id, item: request_id }),
    ensures
        !final(state).directory_requests@.dom().contains(
            PeerItem { peer: device_id, item: request_id },
        ),
        final(state).directory_requests@.dom().contains(other)
            <==> old(state).directory_requests@.dom().contains(other),
{
}

/// A path of proper names is listed, and a file by such a path is given, exactly where the directory
/// is shared; a path that starts at the root is neither.
pub proof fn law_proper_paths_are_served(
    state: AppState,
    share_id: Uuid,
    relative_path: &str,
    names: Seq<Seq<char>>,
    listed: AppResult<LocalShare>,
    file: AppResult<(LocalShare, String)>,
)
    requires
        call_ensures(AppState::check_listing, (&state, share_id, relative_path), listed),
        call_ensures(AppState::resolve_shared_file, (&state, share_id, relative_path), file),
    ensures
        paths::is_proper_path(relative_path@, names) ==> (listed is Ok <==> exists|i: int|
            0 <= i < state.local_shares@.len() && (#[trigger] state.local_shares@[i]).id
                == share_id) && (listed is Ok <==> file is Ok),
        relative_path@.len() > 0 && relative_path@[0] == '/' ==> listed is Err && file is Err,
{
    lists::lemma_first_from(state.local_shares@, |s: LocalShare| s.id == share_id, 0);
    if paths::is_proper_path(relative_path@, names) {
        paths::lemma_proper_path(relative_path@, names);
    }
}

/// A page at a path of proper names is asked for from a device that can be browsed, unless it is
/// known already.
pub proof fn law_unknown_page_is_asked_for(
    state: &mut AppState,
    device_id: Uuid,
    share_id: Uuid,
    relative_path: String,
    path: &str,
    names: Seq<Seq<char>>,
    offset: u32,
    known: Option<&DirectoryPageView>,
    able: bool,
    r: AppResult<PageRequest>,
)
    requires
        call_ensures(
            AppState::request_directory_page,
            (state, device_id, share_id, relative_path, offset),
            r,
        ),
        path@ == relative_path@,
        call_ensures(
            AppState::cached_remote_directory,
            (old(state), device_id, share_id, path, offset),
            known,
        ),
        call_ensures(
            AppState::supports_capability,
            (old(state), device_id, CAPABILITY_LAZY_DIRECTORY),
            able,
        ),
        paths::is_proper_path(relative_path@, names),
    ensures
        r is Ok <==> able,
        r is Ok ==> (r->Ok_0 is Cached <==> known is Some),
{
    paths::lemma_proper_path(relative_path@, names);
}

} // verus!
