//! What devices share: directories here, directories of peers, and pages of them.
use super::{AppState, MAX_CACHED_PAGES};
use crate::ids::{PeerItem, Uuid};
use crate::lists;
use crate::models::{DirectoryPageView, SharedRoot};
use crate::text;
use vstd::prelude::*;

verus! {

/// The page shows this stretch of this directory.
pub open spec fn page_shows(
    page: DirectoryPageView,
    share_id: Uuid,
    relative_path: Seq<char>,
    offset: u32,
) -> bool {
    page.share_id == share_id && page.relative_path@ == relative_path && page.offset == offset
}

/// The pages of a peer after a new one has come: the newest first, none twice, and not too many.
pub open spec fn pages_with(pages: Seq<DirectoryPageView>, page: DirectoryPageView) -> Seq<
    DirectoryPageView,
> {
    let others = pages.filter(
        |p: DirectoryPageView| !page_shows(p, page.share_id, page.relative_path@, page.offset),
    );
    let all = seq![page] + others;
    if all.len() > MAX_CACHED_PAGES {
        all.take(MAX_CACHED_PAGES as int)
    } else {
        all
    }
}

impl AppState {
    /// A device has said that it can do this.
    pub open spec fn is_capable(&self, device_id: Uuid, capability: Seq<char>) -> bool {
        self.peer_capabilities@.dom().contains(device_id) && exists|i: int|
            0 <= i < self.peer_capabilities@[device_id]@.len()
                && (#[trigger] self.peer_capabilities@[device_id]@[i])@ == capability
    }

    /// Whether a device has said that it can do this.
    pub fn supports_capability(&self, device_id: Uuid, capability: &str) -> (r: bool)
        requires
            self.wf(),
        ensures
            r == self.is_capable(device_id, capability@),
    {
        match self.peer_capabilities.get(&device_id) {
            Some(values) => {
                let mut i: usize = 0;
                while i < values.len()
                    invariant
                        i <= values@.len(),
                        forall|j: int| 0 <= j < i ==> (#[trigger] values@[j])@ != capability@,
                        self.peer_capabilities@.dom().contains(device_id),
                        *values == self.peer_capabilities@[device_id],
                    decreases values@.len() - i,
                {
                    if text::same(&values[i], capability) {
                        return true;
                    }
                    i = i + 1;
                }
                false
            },
            None => false,
        }
    }

    /// Notes what a peer shares. A new revision makes the cached pages of the peer void.
    pub fn set_remote_roots(&mut self, device_id: Uuid, revision: Uuid, roots: Vec<SharedRoot>)
        requires
            old(self).wf(),
        ensures
            final(self).wf(),
            *final(self) == (AppState {
                remote_shares: final(self).remote_shares,
                remote_share_revisions: final(self).remote_share_revisions,
                remote_directory_cache: final(self).remote_directory_cache,
                ..*old(self)
            }),
            final(self).remote_shares@ == old(self).remote_shares@.insert(device_id, roots),
            final(self).remote_share_revisions@ == old(self).remote_share_revisions@.insert(
                device_id,
                revision,
            ),
            ({
                let known = old(self).remote_share_revisions@.dom().contains(device_id) && old(
                    self,
                ).remote_share_revisions@[device_id] == revision;
                if known {
                    final(self).remote_directory_cache == old(self).remote_directory_cache
                } else {
                    final(self).remote_directory_cache@ == old(
                        self,
                    ).remote_directory_cache@.remove(device_id)
                }
            }),
    {
        let changed = match self.remote_share_revisions.insert(device_id, revision) {
            Some(previous) => previous != revision,
            None => true,
        };
        if changed {
            self.clear_remote_directory_cache(device_id);
        }
        self.remote_shares.insert(device_id, roots);
    }

    /// A page of a directory of a peer, where it is in the cache.
    pub fn cached_remote_directory(
        &self,
        device_id: Uuid,
        share_id: Uuid,
        relative_path: &str,
        offset: u32,
    ) -> (r: Option<&DirectoryPageView>)
        requires
            self.wf(),
        ensures
            ({
                let shows = |p: DirectoryPageView|
                    page_shows(p, share_id, relative_path@, offset);
                if !self.remote_directory_cache@.dom().contains(device_id) {
                    r is None
                } else {
                    let pages = self.remote_directory_cache@[device_id]@;
                    match lists::first_where(pages, shows) {
                        Some(i) => r matches Some(page) && *page == pages[i],
                        None => r is None,
                    }
                }
            }),
    {
        match self.remote_directory_cache.get(&device_id) {
            Some(pages) => {
                let test = |p: &DirectoryPageView| -> (b: bool)
                    ensures
                        b == page_shows(*p, share_id, relative_path@, offset),
                    {
                        p.share_id == share_id && text::same(&p.relative_path, relative_path)
                            && p.offset == offset
                    };
                let ghost shows = |p: DirectoryPageView|
                    page_shows(p, share_id, relative_path@, offset);
                match lists::position(pages, test, Ghost(shows)) {
                    Some(i) => Some(&pages[i]),
                    None => None,
                }
            },
            None => None,
        }
    }

    /// Keeps a page of a directory of a peer.
    pub fn cache_remote_directory(&mut self, page: DirectoryPageView)
        requires
            old(self).wf(),
        ensures
            final(self).wf(),
            *final(self) == (AppState {
                remote_directory_cache: final(self).remote_directory_cache,
                ..*old(self)
            }),
            ({
                let before = old(self).remote_directory_cache@;
                let after = final(self).remote_directory_cache@;
                let pages = if before.dom().contains(page.device_id) {
                    before[page.device_id]@
                } else {
                    Seq::empty()
                };
                &&& after.dom() == before.dom().insert(page.device_id)
                &&& after[page.device_id]@ == pages_with(pages, page)
                &&& forall|d: Uuid| #[trigger]
                    before.dom().contains(d) && d != page.device_id ==> after[d] == before[d]
            }),
    {
        let device_id = page.device_id;
        let mut pages = match self.remote_directory_cache.remove(&device_id) {
            Some(pages) => pages,
            None => Vec::new(),
        };
        let ghost earlier = pages@;
        proof {
            if !old(self).remote_directory_cache@.dom().contains(device_id) {
                assert(earlier =~= Seq::<DirectoryPageView>::empty());
            }
        }
        let test = |p: &DirectoryPageView| -> (b: bool)
            ensures
                b == !page_shows(*p, page.share_id, page.relative_path@, page.offset),
            {
                p.share_id != page.share_id || p.relative_path != page.relative_path || p.offset
                    != page.offset
            };
        lists::retain(
            &mut pages,
            test,
            Ghost(
                |p: DirectoryPageView|
                    !page_shows(p, page.share_id, page.relative_path@, page.offset),
            ),
        );
        let ghost others = pages@;
        pages.insert(0, page);
        proof {
            assert(pages@ =~= seq![page] + others);
        }
        if pages.len() > MAX_CACHED_PAGES {
            pages.truncate(MAX_CACHED_PAGES);
        }
        self.remote_directory_cache.insert(device_id, pages);
        proof {
            let before = old(self).remote_directory_cache@;
            let after = self.remote_directory_cache@;
            assert(after.dom() =~= before.dom().insert(device_id));
            assert forall|d: Uuid| #[trigger] after.dom().contains(d) implies after[d]@.len()
                <= MAX_CACHED_PAGES by {
                assert(d == device_id || before.dom().contains(d));
            }
        }
    }

    /// Drops the cached pages of a peer.
    pub fn clear_remote_directory_cache(&mut self, device_id: Uuid)
        requires
            old(self).wf(),
        ensures
            final(self).wf(),
            *final(self) == (AppState {
                remote_directory_cache: final(self).remote_directory_cache,
                ..*old(self)
            }),
            final(self).remote_directory_cache@ == old(self).remote_directory_cache@.remove(
                device_id,
            ),
    {
        self.remote_directory_cache.remove(&device_id);
        proof {
            let before = old(self).remote_directory_cache@;
            let after = self.remote_directory_cache@;
            assert forall|d: Uuid| #[trigger] after.dom().contains(d) implies after[d]@.len()
                <= MAX_CACHED_PAGES by {
                assert(before.dom().contains(d));
            }
        }
    }

    /// What a peer shares.
    pub fn remote_roots(&self, device_id: Uuid) -> (r: Vec<SharedRoot>)
        requires
            self.wf(),
        ensures
            r@ == if self.remote_shares@.dom().contains(device_id) {
                self.remote_shares@[device_id]@
            } else {
                Seq::empty()
            },
    {
        match self.remote_shares.get(&device_id) {
            Some(roots) => lists::copy_list(roots),
            None => Vec::new(),
        }
    }

    /// Notes that a page of a directory has been asked for.
    pub fn begin_directory_request(&mut self, device_id: Uuid, request_id: Uuid)
        requires
            old(self).wf(),
        ensures
            final(self).wf(),
            *final(self) == (AppState {
                directory_requests: final(self).directory_requests,
                ..*old(self)
            }),
            final(self).directory_requests@ == old(self).directory_requests@.insert(
                PeerItem { peer: device_id, item: request_id },
                (),
            ),
    {
        self.directory_requests.insert(PeerItem { peer: device_id, item: request_id }, ());
    }

    /// Takes a request back, and says whether somebody waits for its answer.
    pub fn resolve_directory_request(&mut self, device_id: Uuid, request_id: Uuid) -> (r: bool)
        requires
            old(self).wf(),
        ensures
            final(self).wf(),
            *final(self) == (AppState {
                directory_requests: final(self).directory_requests,
                ..*old(self)
            }),
            ({
                let key = PeerItem { peer: device_id, item: request_id };
                &&& r == old(self).directory_requests@.dom().contains(key)
                &&& final(self).directory_requests@ == old(self).directory_requests@.remove(key)
            }),
    {
        self.directory_requests.remove(&PeerItem { peer: device_id, item: request_id }).is_some()
    }

    /// Takes a request back.
    pub fn cancel_directory_request(&mut self, device_id: Uuid, request_id: Uuid)
        requires
            old(self).wf(),
        ensures
            final(self).wf(),
            *final(self) == (AppState {
                directory_requests: final(self).directory_requests,
                ..*old(self)
            }),
            final(self).directory_requests@ == old(self).directory_requests@.remove(
                PeerItem { peer: device_id, item: request_id },
            ),
    {
        self.directory_requests.remove(&PeerItem { peer: device_id, item: request_id });
    }

    /// Takes all requests back; all who wait learn that there is no connection.
    pub fn cancel_all_directory_requests(&mut self)
        requires
            old(self).wf(),
        ensures
            final(self).wf(),
            *final(self) == (AppState {
                directory_requests: final(self).directory_requests,
                ..*old(self)
            }),
            final(self).directory_requests@ == Map::<PeerItem, ()>::empty(),
    {
        self.directory_requests.clear();
    }
}

/// A page that is kept is found again, in place of an earlier one of the same stretch, and the pages
/// of the device are at most 64.
pub proof fn law_kept_page_is_found(
    app: &mut AppState,
    page: DirectoryPageView,
    path: &str,
    r: Option<&DirectoryPageView>,
)
    requires
        call_ensures(AppState::cache_remote_directory, (app, page), ()),
        path@ == page.relative_path@,
        call_ensures(
            AppState::cached_remote_directory,
            (final(app), page.device_id, page.share_id, path, page.offset),
            r,
        ),
    ensures
        r matches Some(found) && *found == page,
        final(app).remote_directory_cache@[page.device_id]@.len() <= 64,
{
    let pages = final(app).remote_directory_cache@[page.device_id]@;
    lists::lemma_first_is(
        pages,
        |p: DirectoryPageView| page_shows(p, page.share_id, path@, page.offset),
        0,
    );
}

/// A page that is found is one of the stretch that was asked for.
pub proof fn law_found_page_is_the_one(
    app: AppState,
    device_id: Uuid,
    share_id: Uuid,
    relative_path: &str,
    offset: u32,
    r: Option<&DirectoryPageView>,
)
    requires
        call_ensures(
            AppState::cached_remote_directory,
            (&app, device_id, share_id, relative_path, offset),
            r,
        ),
    ensures
        r matches Some(page) ==> page.share_id == share_id && page.relative_path@ == relative_path@
            && page.offset == offset && app.remote_directory_cache@.dom().contains(device_id)
            && app.remote_directory_cache@[device_id]@.contains(*page),
        r is None && app.remote_directory_cache@.dom().contains(device_id) ==> forall|i: int|
            0 <= i < app.remote_directory_cache@[device_id]@.len() ==> (
            #[trigger] app.remote_directory_cache@[device_id]@[i]).share_id != share_id
                || app.remote_directory_cache@[device_id]@[i].relative_path@ != relative_path@
                || app.remote_directory_cache@[device_id]@[i].offset != offset,
{
    if app.remote_directory_cache@.dom().contains(device_id) {
        lists::lemma_first_from(
            app.remote_directory_cache@[device_id]@,
            |p: DirectoryPageView| page_shows(p, share_id, relative_path@, offset),
            0,
        );
    }
}

/// To keep a page drops no page of another stretch, as long as there is room, and none of another
/// device.
pub proof fn law_keeping_a_page_keeps_others(
    app: &mut AppState,
    page: DirectoryPageView,
    other: DirectoryPageView,
    device_id: Uuid,
)
    requires
        call_ensures(AppState::cache_remote_directory, (app, page), ()),
        old(app).remote_directory_cache@.dom().contains(device_id),
        old(app).remote_directory_cache@[device_id]@.contains(other),
        device_id != page.device_id || (old(app).remote_directory_cache@[device_id]@.len() < 64 && (
        other.share_id != page.share_id || other.relative_path@ != page.relative_path@
            || other.offset != page.offset)),
    ensures
        final(app).remote_directory_cache@.dom().contains(device_id),
        final(app).remote_directory_cache@[device_id]@.contains(other),
{
    if device_id == page.device_id {
        let before = old(app).remote_directory_cache@[device_id]@;
        let after = final(app).remote_directory_cache@[device_id]@;
        let p = |p: DirectoryPageView|
            !page_shows(p, page.share_id, page.relative_path@, page.offset);
        lists::lemma_filter_members(before, p, other);
        before.lemma_filter_len(p);
        let i = before.filter(p).index_of(other);
        assert(after[i + 1] == other);
    }
}

/// A device can do what it has said that it can, and nothing else.
pub proof fn law_capability_is_told(app: AppState, device_id: Uuid, capability: &str, r: bool)
    requires
        call_ensures(AppState::supports_capability, (&app, device_id, capability), r),
    ensures
        r <==> app.peer_capabilities@.dom().contains(device_id) && exists|i: int|
            0 <= i < app.peer_capabilities@[device_id]@.len() && (
            #[trigger] app.peer_capabilities@[device_id]@[i])@ == capability@,
{
}

/// A request is waited for from its beginning until it is answered, once.
pub proof fn law_directory_request_is_answered_once(
    app: &mut AppState,
    next: &mut AppState,
    last: &mut AppState,
    device_id: Uuid,
    request_id: Uuid,
    first: bool,
    second: bool,
)
    requires
        call_ensures(AppState::begin_directory_request, (app, device_id, request_id), ()),
        *next == *final(app),
        call_ensures(AppState::resolve_directory_request, (next, device_id, request_id), first),
        *last == *final(next),
        call_ensures(AppState::resolve_directory_request, (last, device_id, request_id), second),
    ensures
        first,
        !second,
{
}

/// Of the pages of a device, the oldest goes where there is no room for a new one.
pub proof fn law_oldest_page_goes(app: &mut AppState, page: DirectoryPageView)
    requires
        call_ensures(AppState::cache_remote_directory, (app, page), ()),
        old(app).remote_directory_cache@.dom().contains(page.device_id),
        old(app).remote_directory_cache@[page.device_id]@.len() == 64,
        forall|i: int|
            0 <= i < 64 ==> (
            #[trigger] old(app).remote_directory_cache@[page.device_id]@[i]).share_id
                != page.share_id,
    ensures
        final(app).remote_directory_cache@[page.device_id]@.len() == 64,
        final(app).remote_directory_cache@[page.device_id]@[0] == page,
        forall|i: int|
            0 < i < 64 ==> #[trigger] final(app).remote_directory_cache@[page.device_id]@[i]
                == old(app).remote_directory_cache@[page.device_id]@[i - 1],
{
    let before = old(app).remote_directory_cache@[page.device_id]@;
    let p = |p: DirectoryPageView|
        !page_shows(p, page.share_id, page.relative_path@, page.offset);
    assert forall|i: int| 0 <= i < before.len() implies p(#[trigger] before[i]) by {}
    lists::lemma_filter_all(before, p);
}

} // verus!
