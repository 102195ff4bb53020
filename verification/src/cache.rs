//! The result cache: a time-bounded, per-account/per-folder store of
//! previously fetched folder metadata and message headers. Reads are answered
//! without a network round trip while the data is fresh; a stored folder is
//! fresh at time `now` iff `now - last_sync < cache_duration`.
//!
//! The cache is modelled as a map from account key to a map from folder name
//! to the cached folder ([`table_of`]); every operation's contract is stated
//! over that model.
use vstd::prelude::*;

use crate::strutil::str_eq;
use crate::types::{Email, EmailView, Folder, FolderView};

verus! {

/// Mathematical view of a [`CachedEmail`].
#[verifier::ext_equal]
pub ghost struct CachedEmailView {
    pub email: EmailView,
    pub cached_at: int,
    pub full_body_loaded: bool,
}

/// An email plus the time it entered the cache and whether its full body has
/// been loaded.
#[derive(Debug)]
pub struct CachedEmail {
    pub email: Email,
    pub cached_at: u64,
    pub full_body_loaded: bool,
}

impl View for CachedEmail {
    type V = CachedEmailView;

    open spec fn view(&self) -> CachedEmailView {
        CachedEmailView {
            email: self.email@,
            cached_at: self.cached_at as int,
            full_body_loaded: self.full_body_loaded,
        }
    }
}

impl Clone for CachedEmail {
    fn clone(&self) -> (r: Self)
        ensures
            r@ == self@,
    {
        CachedEmail {
            email: self.email.clone(),
            cached_at: self.cached_at,
            full_body_loaded: self.full_body_loaded,
        }
    }
}

/// Mathematical view of a [`CachedFolder`].
#[verifier::ext_equal]
pub ghost struct CachedFolderView {
    pub folder: FolderView,
    pub emails: Seq<CachedEmailView>,
    pub last_sync: int,
}

/// A folder snapshot plus its cached emails and the time of the last sync.
#[derive(Debug)]
pub struct CachedFolder {
    pub folder: Folder,
    pub emails: Vec<CachedEmail>,
    pub last_sync: u64,
}

impl View for CachedFolder {
    type V = CachedFolderView;

    open spec fn view(&self) -> CachedFolderView {
        CachedFolderView {
            folder: self.folder@,
            emails: self.emails@.map_values(|e: CachedEmail| e@),
            last_sync: self.last_sync as int,
        }
    }
}

impl Clone for CachedFolder {
    fn clone(&self) -> (r: Self)
        ensures
            r@ == self@,
    {
        let mut emails: Vec<CachedEmail> = Vec::new();
        let mut i: usize = 0;
        let n = self.emails.len();
        while i < n
            invariant
                i <= n,
                n == self.emails@.len(),
                emails@.len() == i,
                forall|k: int| 0 <= k < i ==> emails@[k]@ == self.emails@[k]@,
            decreases n - i,
        {
            emails.push(self.emails[i].clone());
            i = i + 1;
        }
        let r = CachedFolder { folder: self.folder.clone(), emails, last_sync: self.last_sync };
        proof {
            assert(r@.emails =~= self@.emails);
        }
        r
    }
}

/// Mathematical view of one account's cache partition.
#[verifier::ext_equal]
pub ghost struct AccountSlotView {
    pub account: Seq<char>,
    pub folders: Seq<CachedFolderView>,
}

/// One account's cache partition.
struct AccountSlot {
    account: String,
    folders: Vec<CachedFolder>,
}

impl View for AccountSlot {
    type V = AccountSlotView;

    closed spec fn view(&self) -> AccountSlotView {
        AccountSlotView {
            account: self.account@,
            folders: self.folders@.map_values(|f: CachedFolder| f@),
        }
    }
}

/// Mathematical view of the whole cache.
#[verifier::ext_equal]
pub ghost struct CacheView {
    pub slots: Seq<AccountSlotView>,
    pub duration: int,
}

/// The result cache. Keys are account email addresses; within an account,
/// folder names.
pub struct EmailCache {
    slots: Vec<AccountSlot>,
    cache_duration: u64,
}

impl View for EmailCache {
    type V = CacheView;

    closed spec fn view(&self) -> CacheView {
        CacheView {
            slots: self.slots@.map_values(|s: AccountSlot| s@),
            duration: self.cache_duration as int,
        }
    }
}

/// The folder map of one partition: folder name to cached folder.
pub open spec fn fmap_of(fs: Seq<CachedFolderView>) -> Map<Seq<char>, CachedFolderView>
    decreases fs.len(),
{
    if fs.len() == 0 {
        Map::empty()
    } else {
        fmap_of(fs.drop_last()).insert(fs.last().folder.name, fs.last())
    }
}

/// The cache table: account key to folder map.
pub open spec fn table_of(ss: Seq<AccountSlotView>) -> Map<
    Seq<char>,
    Map<Seq<char>, CachedFolderView>,
>
    decreases ss.len(),
{
    if ss.len() == 0 {
        Map::empty()
    } else {
        table_of(ss.drop_last()).insert(ss.last().account, fmap_of(ss.last().folders))
    }
}

/// The cached folder stored under (`account`, `folder`), if any, fresh or
/// not.
pub open spec fn lookup2(
    t: Map<Seq<char>, Map<Seq<char>, CachedFolderView>>,
    account: Seq<char>,
    folder: Seq<char>,
) -> Option<CachedFolderView> {
    if t.contains_key(account) && t[account].contains_key(folder) {
        Some(t[account][folder])
    } else {
        None
    }
}

/// The freshness test: data stamped at `ts` is fresh at `now` iff
/// `now - ts < duration`.
pub open spec fn is_fresh_at(ts: int, now: int, duration: int) -> bool {
    now - ts < duration
}

/// What a cache read returns at time `now`: the stored folder if present and
/// fresh, and nothing otherwise. Absent and stale are indistinguishable.
pub open spec fn fresh_lookup(
    t: Map<Seq<char>, Map<Seq<char>, CachedFolderView>>,
    account: Seq<char>,
    folder: Seq<char>,
    now: int,
    duration: int,
) -> Option<CachedFolderView> {
    match lookup2(t, account, folder) {
        Some(c) => if is_fresh_at(c.last_sync, now, duration) {
            Some(c)
        } else {
            None
        },
        None => None,
    }
}

/// Folder names within a partition are unique.
pub open spec fn folders_wf(fs: Seq<CachedFolderView>) -> bool {
    forall|i: int, j: int|
        0 <= i < j < fs.len() ==> fs[i].folder.name != fs[j].folder.name
}

/// Account keys are unique and every partition is well formed.
pub open spec fn slots_wf(ss: Seq<AccountSlotView>) -> bool {
    &&& forall|i: int, j: int| 0 <= i < j < ss.len() ==> ss[i].account != ss[j].account
    &&& forall|i: int| 0 <= i < ss.len() ==> folders_wf(#[trigger] ss[i].folders)
}

/// The cached folder written by `store_folder`: every contained email is
/// stamped `now`, unread bodies, and the folder's last sync is `now`.
pub open spec fn stored_folder(f: FolderView, emails: Seq<EmailView>, now: int) -> CachedFolderView {
    CachedFolderView {
        folder: f,
        emails: emails.map_values(
            |e: EmailView| CachedEmailView { email: e, cached_at: now, full_body_loaded: false },
        ),
        last_sync: now,
    }
}

/// Views of a vector of cached folders.
spec fn cf_views(fs: Seq<CachedFolder>) -> Seq<CachedFolderView> {
    fs.map_values(|f: CachedFolder| f@)
}

/// Views of a vector of account slots.
spec fn slot_views(ss: Seq<AccountSlot>) -> Seq<AccountSlotView> {
    ss.map_values(|s: AccountSlot| s@)
}

/// The partition of `t` at `account`, or empty if there is none.
pub open spec fn partition_or_empty(
    t: Map<Seq<char>, Map<Seq<char>, CachedFolderView>>,
    account: Seq<char>,
) -> Map<Seq<char>, CachedFolderView> {
    if t.contains_key(account) {
        t[account]
    } else {
        Map::empty()
    }
}

/// The cache table after a store: the freshly stamped folder replaces any
/// prior entry under (`account`, `folder.name`); the partition is created if
/// absent.
pub open spec fn store_shape(
    t: Map<Seq<char>, Map<Seq<char>, CachedFolderView>>,
    account: Seq<char>,
    folder: FolderView,
    emails: Seq<EmailView>,
    now: int,
) -> Map<Seq<char>, Map<Seq<char>, CachedFolderView>> {
    t.insert(account, partition_or_empty(t, account).insert(folder.name, stored_folder(folder, emails, now)))
}

/// An optional cache entry filtered by freshness.
pub open spec fn fresh_opt(o: Option<CachedFolderView>, now: int, duration: int) -> Option<
    CachedFolderView,
> {
    match o {
        Some(c) => if is_fresh_at(c.last_sync, now, duration) {
            Some(c)
        } else {
            None
        },
        None => None,
    }
}

/// The entry of `m` at `f`, if any.
pub open spec fn mlookup(m: Map<Seq<char>, CachedFolderView>, f: Seq<char>) -> Option<
    CachedFolderView,
> {
    if m.contains_key(f) {
        Some(m[f])
    } else {
        None
    }
}

/// Index of the first email in `emails` whose id is `id`, if any.
pub open spec fn first_match_id(emails: Seq<CachedEmailView>, id: int) -> Option<int>
    decreases emails.len(),
{
    if emails.len() == 0 {
        None
    } else if emails.first().email.id == id {
        Some(0)
    } else {
        match first_match_id(emails.drop_first(), id) {
            Some(k) => Some(k + 1),
            None => None,
        }
    }
}

/// A cached email after its full body has been loaded.
pub open spec fn loaded_email(ce: CachedEmailView, body: Seq<char>, now: int) -> CachedEmailView {
    CachedEmailView {
        email: EmailView { body: body, ..ce.email },
        cached_at: now,
        full_body_loaded: true,
    }
}

/// A cached folder after the email at index `k` has had its body loaded.
pub open spec fn with_body(c: CachedFolderView, k: int, body: Seq<char>, now: int) -> CachedFolderView {
    CachedFolderView {
        folder: c.folder,
        emails: c.emails.update(k, loaded_email(c.emails[k], body, now)),
        last_sync: c.last_sync,
    }
}

/// The body stored for the first email with id `id` whose full body has been
/// loaded, if any.
pub open spec fn body_lookup(emails: Seq<CachedEmailView>, id: int) -> Option<Seq<char>>
    decreases emails.len(),
{
    if emails.len() == 0 {
        None
    } else if emails.first().email.id == id && emails.first().full_body_loaded {
        Some(emails.first().email.body)
    } else {
        body_lookup(emails.drop_first(), id)
    }
}

/// Index of the folder named `name` in `folders`, if present.
fn find_folder(folders: &Vec<CachedFolder>, name: &str) -> (r: Option<usize>)
    ensures
        match r {
            Some(j) => j < folders@.len() && folders@[j as int]@.folder.name == name@,
            None => forall|k: int|
                0 <= k < folders@.len() ==> (#[trigger] folders@[k])@.folder.name != name@,
        },
{
    let n = folders.len();
    let mut j: usize = 0;
    while j < n
        invariant
            j <= n,
            n == folders@.len(),
            forall|k: int| 0 <= k < j ==> (#[trigger] folders@[k])@.folder.name != name@,
        decreases n - j,
    {
        if str_eq(folders[j].folder.name.as_str(), name) {
            return Some(j);
        }
        j = j + 1;
    }
    None
}

/// Index of the first email in `emails` with id `id`, if any.
fn find_email_idx(emails: &Vec<CachedEmail>, id: usize) -> (r: Option<usize>)
    ensures
        match r {
            Some(k) => k < emails@.len() && emails@[k as int]@.email.id == id as int
                && forall|p: int|
                0 <= p < k ==> (#[trigger] emails@[p])@.email.id != id as int,
            None => forall|p: int|
                0 <= p < emails@.len() ==> (#[trigger] emails@[p])@.email.id != id as int,
        },
{
    let n = emails.len();
    let mut k: usize = 0;
    while k < n
        invariant
            k <= n,
            n == emails@.len(),
            forall|p: int| 0 <= p < k ==> (#[trigger] emails@[p])@.email.id != id as int,
        decreases n - k,
    {
        if emails[k].email.id == id {
            return Some(k);
        }
        k = k + 1;
    }
    None
}

proof fn lemma_fmap_index(fs: Seq<CachedFolderView>, i: int)
    requires
        folders_wf(fs),
        0 <= i < fs.len(),
    ensures
        fmap_of(fs).contains_key(fs[i].folder.name),
        fmap_of(fs)[fs[i].folder.name] == fs[i],
    decreases fs.len(),
{
    if i == fs.len() - 1 {
    } else {
        lemma_fmap_index(fs.drop_last(), i);
        assert(fs.drop_last()[i] == fs[i]);
        assert(fs[i].folder.name != fs.last().folder.name);
    }
}

proof fn lemma_fmap_missing(fs: Seq<CachedFolderView>, name: Seq<char>)
    requires
        forall|i: int| 0 <= i < fs.len() ==> fs[i].folder.name != name,
    ensures
        !fmap_of(fs).contains_key(name),
    decreases fs.len(),
{
    if fs.len() > 0 {
        lemma_fmap_missing(fs.drop_last(), name);
    }
}

proof fn lemma_fmap_update(fs: Seq<CachedFolderView>, i: int, v: CachedFolderView)
    requires
        folders_wf(fs),
        0 <= i < fs.len(),
        v.folder.name == fs[i].folder.name,
    ensures
        fmap_of(fs.update(i, v)) == fmap_of(fs).insert(v.folder.name, v),
    decreases fs.len(),
{
    if i == fs.len() - 1 {
        assert(fs.update(i, v).drop_last() =~= fs.drop_last());
        assert(fmap_of(fs.update(i, v)) =~= fmap_of(fs).insert(v.folder.name, v));
    } else {
        assert(fs.update(i, v).drop_last() =~= fs.drop_last().update(i, v));
        lemma_fmap_update(fs.drop_last(), i, v);
        assert(fs.update(i, v).last() == fs.last());
        assert(v.folder.name != fs.last().folder.name);
        assert(fmap_of(fs.update(i, v)) =~= fmap_of(fs).insert(v.folder.name, v));
    }
}

proof fn lemma_table_index(ss: Seq<AccountSlotView>, i: int)
    requires
        slots_wf(ss),
        0 <= i < ss.len(),
    ensures
        table_of(ss).contains_key(ss[i].account),
        table_of(ss)[ss[i].account] == fmap_of(ss[i].folders),
    decreases ss.len(),
{
    if i == ss.len() - 1 {
    } else {
        assert(slots_wf(ss.drop_last())) by {
            assert(forall|k: int|
                0 <= k < ss.drop_last().len() ==> #[trigger] ss.drop_last()[k].folders == ss[k].folders);
        }
        lemma_table_index(ss.drop_last(), i);
        assert(ss.drop_last()[i] == ss[i]);
        assert(ss[i].account != ss.last().account);
    }
}

proof fn lemma_table_missing(ss: Seq<AccountSlotView>, account: Seq<char>)
    requires
        forall|i: int| 0 <= i < ss.len() ==> ss[i].account != account,
    ensures
        !table_of(ss).contains_key(account),
    decreases ss.len(),
{
    if ss.len() > 0 {
        lemma_table_missing(ss.drop_last(), account);
    }
}

proof fn lemma_table_update(ss: Seq<AccountSlotView>, i: int, v: AccountSlotView)
    requires
        slots_wf(ss),
        0 <= i < ss.len(),
        v.account == ss[i].account,
    ensures
        table_of(ss.update(i, v)) == table_of(ss).insert(v.account, fmap_of(v.folders)),
    decreases ss.len(),
{
    if i == ss.len() - 1 {
        assert(ss.update(i, v).drop_last() =~= ss.drop_last());
        assert(table_of(ss.update(i, v)) =~= table_of(ss).insert(v.account, fmap_of(v.folders)));
    } else {
        assert(ss.update(i, v).drop_last() =~= ss.drop_last().update(i, v));
        assert(slots_wf(ss.drop_last())) by {
            assert(forall|k: int|
                0 <= k < ss.drop_last().len() ==> #[trigger] ss.drop_last()[k].folders == ss[k].folders);
        }
        lemma_table_update(ss.drop_last(), i, v);
        assert(ss.update(i, v).last() == ss.last());
        assert(v.account != ss.last().account);
        assert(table_of(ss.update(i, v)) =~= table_of(ss).insert(v.account, fmap_of(v.folders)));
    }
}

proof fn lemma_table_remove(ss: Seq<AccountSlotView>, i: int)
    requires
        slots_wf(ss),
        0 <= i < ss.len(),
    ensures
        table_of(ss.remove(i)) == table_of(ss).remove(ss[i].account),
    decreases ss.len(),
{
    if i == ss.len() - 1 {
        assert(ss.remove(i) =~= ss.drop_last());
        assert(forall|k: int| 0 <= k < i ==> ss.drop_last()[k].account != ss[i].account);
        lemma_table_missing(ss.drop_last(), ss[i].account);
        assert(table_of(ss.remove(i)) =~= table_of(ss).remove(ss[i].account));
    } else {
        assert(ss.remove(i).drop_last() =~= ss.drop_last().remove(i));
        assert(slots_wf(ss.drop_last())) by {
            assert(forall|k: int|
                0 <= k < ss.drop_last().len() ==> #[trigger] ss.drop_last()[k].folders == ss[k].folders);
        }
        lemma_table_remove(ss.drop_last(), i);
        assert(ss.remove(i).last() == ss.last());
        assert(ss[i].account != ss.last().account);
        assert(table_of(ss.remove(i)) =~= table_of(ss).remove(ss[i].account));
    }
}

proof fn lemma_table_dom_len(ss: Seq<AccountSlotView>)
    requires
        slots_wf(ss),
    ensures
        table_of(ss).dom().finite(),
        table_of(ss).dom().len() == ss.len(),
    decreases ss.len(),
{
    if ss.len() > 0 {
        assert(slots_wf(ss.drop_last())) by {
            assert(forall|k: int|
                0 <= k < ss.drop_last().len() ==> #[trigger] ss.drop_last()[k].folders == ss[k].folders);
        }
        lemma_table_dom_len(ss.drop_last());
        assert(forall|k: int| 0 <= k < ss.len() - 1 ==> ss.drop_last()[k].account != ss.last().account);
        lemma_table_missing(ss.drop_last(), ss.last().account);
    }
}

/// The total number of cached emails in one partition.
pub open spec fn partition_email_total(fs: Seq<CachedFolderView>) -> int
    decreases fs.len(),
{
    if fs.len() == 0 {
        0
    } else {
        partition_email_total(fs.drop_last()) + fs.last().emails.len()
    }
}

/// The total number of cached emails in the whole cache.
pub open spec fn cache_email_total(ss: Seq<AccountSlotView>) -> int
    decreases ss.len(),
{
    if ss.len() == 0 {
        0
    } else {
        cache_email_total(ss.drop_last()) + partition_email_total(ss.last().folders)
    }
}

impl EmailCache {
    /// The cache keys are unique: this is the internal shape every operation
    /// preserves.
    pub open spec fn wf(&self) -> bool {
        slots_wf(self@.slots)
    }

    /// The cache's content as a map of maps.
    pub open spec fn table(&self) -> Map<Seq<char>, Map<Seq<char>, CachedFolderView>> {
        table_of(self@.slots)
    }

    /// The configured freshness bound, in milliseconds.
    pub open spec fn duration(&self) -> int {
        self@.duration
    }

    /// An empty cache with the default five-minute freshness bound.
    pub fn new() -> (r: Self)
        ensures
            r.wf(),
            r.table() == Map::<Seq<char>, Map<Seq<char>, CachedFolderView>>::empty(),
            r.duration() == 300000,
    {
        let r = EmailCache { slots: Vec::new(), cache_duration: 300000 };
        proof {
            assert(r@.slots =~= Seq::<AccountSlotView>::empty());
        }
        r
    }

    /// An empty cache with an explicit freshness bound in milliseconds.
    pub fn with_duration(duration_ms: u64) -> (r: Self)
        ensures
            r.wf(),
            r.table() == Map::<Seq<char>, Map<Seq<char>, CachedFolderView>>::empty(),
            r.duration() == duration_ms as int,
    {
        let r = EmailCache { slots: Vec::new(), cache_duration: duration_ms };
        proof {
            assert(r@.slots =~= Seq::<AccountSlotView>::empty());
        }
        r
    }

    /// Index of the partition for `account`, if one exists.
    fn find_slot(&self, account: &str) -> (r: Option<usize>)
        ensures
            match r {
                Some(i) => i < self@.slots.len() && self@.slots[i as int].account == account@,
                None => forall|i: int|
                    0 <= i < self@.slots.len() ==> self@.slots[i].account != account@,
            },
    {
        let n = self.slots.len();
        let mut i: usize = 0;
        while i < n
            invariant
                i <= n,
                n == self@.slots.len(),
                self@.slots.len() == self.slots@.len(),
                forall|k: int| 0 <= k < i ==> self@.slots[k].account != account@,
                forall|k: int|
                    0 <= k < n ==> #[trigger] self@.slots[k].account == self.slots@[k].account@,
            decreases n - i,
        {
            if str_eq(self.slots[i].account.as_str(), account) {
                return Some(i);
            }
            i = i + 1;
        }
        None
    }

    /// Inserts or replaces the cached folder for (`account`, `folder.name`):
    /// a complete replacement, never a merge. Every contained email is
    /// stamped with `now`, as is the folder's last sync.
    pub fn store_folder(&mut self, account: &str, folder: Folder, emails: Vec<Email>, now: u64)
        requires
            old(self).wf(),
        ensures
            final(self).wf(),
            final(self).duration() == old(self).duration(),
            final(self).table() == store_shape(
                old(self).table(),
                account@,
                folder@,
                emails@.map_values(|e: Email| e@),
                now as int,
            ),
    {
        let ghost old_slots = self@.slots;
        // Stamp the emails.
        let mut cached: Vec<CachedEmail> = Vec::new();
        let mut i: usize = 0;
        let n = emails.len();
        while i < n
            invariant
                i <= n,
                n == emails@.len(),
                cached@.len() == i,
                forall|k: int|
                    0 <= k < i ==> cached@[k]@ == (CachedEmailView {
                        email: emails@[k]@,
                        cached_at: now as int,
                        full_body_loaded: false,
                    }),
            decreases n - i,
        {
            cached.push(
                CachedEmail { email: emails[i].clone(), cached_at: now, full_body_loaded: false },
            );
            i = i + 1;
        }
        let ghost folder_view = folder@;
        let cf = CachedFolder { folder, emails: cached, last_sync: now };
        proof {
            assert(cf@ =~= stored_folder(folder_view, emails@.map_values(|e: Email| e@), now as int));
        }
        match self.find_slot(account) {
            Some(si) => {
                proof {
                    lemma_table_index(self@.slots, si as int);
                }
                let ghost old_slot = self@.slots[si as int];
                let found = find_folder(&self.slots[si].folders, cf.folder.name.as_str());
                match found {
                    Some(fi) => {
                        proof {
                            assert(old_slot.folders[fi as int] == self.slots@[si as int].folders@[
                                fi as int
                            ]@);
                            assert(old_slot.folders[fi as int].folder.name == cf@.folder.name);
                        }
                        let slot = &mut self.slots[si];
                        let dst = &mut slot.folders[fi];
                        *dst = cf;
                        proof {
                            let new_folders = old_slot.folders.update(fi as int, cf@);
                            assert(self@.slots[si as int].folders =~= new_folders);
                            let new_slot = AccountSlotView {
                                account: old_slot.account,
                                folders: new_folders,
                            };
                            assert(self@.slots =~= old_slots.update(si as int, new_slot));
                            assert(folders_wf(new_folders));
                            lemma_fmap_update(old_slot.folders, fi as int, cf@);
                            lemma_table_update(old_slots, si as int, new_slot);
                            assert(final_table_shape(old_slots, self@.slots, account@, cf@)) by {
                                assert(table_of(self@.slots) == table_of(old_slots).insert(
                                    account@,
                                    fmap_of(old_slot.folders).insert(cf@.folder.name, cf@),
                                ));
                                assert(partition_or_empty(table_of(old_slots), account@)
                                    == fmap_of(old_slot.folders));
                            }
                            assert(slots_wf(self@.slots));
                        }
                    },
                    None => {
                        let slot = &mut self.slots[si];
                        slot.folders.push(cf);
                        proof {
                            let new_folders = old_slot.folders.push(cf@);
                            assert(self@.slots[si as int].folders =~= new_folders);
                            assert(new_folders.drop_last() =~= old_slot.folders);
                            let new_slot = AccountSlotView {
                                account: old_slot.account,
                                folders: new_folders,
                            };
                            assert(self@.slots =~= old_slots.update(si as int, new_slot));
                            assert(folders_wf(new_folders)) by {
                                assert(forall|k: int|
                                    0 <= k < old_slot.folders.len()
                                        ==> #[trigger] new_folders[k].folder.name
                                        == old_slot.folders[k].folder.name);
                            }
                            lemma_table_update(old_slots, si as int, new_slot);
                            assert(final_table_shape(old_slots, self@.slots, account@, cf@)) by {
                                assert(fmap_of(new_folders) == fmap_of(old_slot.folders).insert(
                                    cf@.folder.name,
                                    cf@,
                                ));
                                assert(partition_or_empty(table_of(old_slots), account@)
                                    == fmap_of(old_slot.folders));
                            }
                            assert(slots_wf(self@.slots));
                        }
                    },
                }
            },
            None => {
                let mut folders: Vec<CachedFolder> = Vec::new();
                folders.push(cf);
                let slot = AccountSlot { account: account.to_owned(), folders };
                self.slots.push(slot);
                proof {
                    lemma_table_missing(old_slots, account@);
                    let new_slot = self@.slots.last();
                    assert(self@.slots =~= old_slots.push(new_slot));
                    assert(self@.slots.drop_last() =~= old_slots);
                    assert(new_slot.folders =~= seq![cf@]);
                    assert(new_slot.folders.drop_last() =~= Seq::<CachedFolderView>::empty());
                    assert(new_slot.folders.len() == 1 && new_slot.folders.last() == cf@);
                    assert(fmap_of(Seq::<CachedFolderView>::empty()) =~= Map::<
                        Seq<char>,
                        CachedFolderView,
                    >::empty());
                    assert(fmap_of(new_slot.folders) == fmap_of(new_slot.folders.drop_last()).insert(
                        cf@.folder.name,
                        cf@,
                    ));
                    assert(fmap_of(new_slot.folders) =~= Map::<
                        Seq<char>,
                        CachedFolderView,
                    >::empty().insert(cf@.folder.name, cf@));
                    assert(final_table_shape(old_slots, self@.slots, account@, cf@)) by {
                        assert(partition_or_empty(table_of(old_slots), account@) =~= Map::<
                            Seq<char>,
                            CachedFolderView,
                        >::empty());
                    }
                    assert(slots_wf(self@.slots)) by {
                        assert(forall|k: int|
                            0 <= k < old_slots.len() ==> #[trigger] self@.slots[k]
                                == old_slots[k]);
                    }
                }
            },
        }
    }

    /// The cached folder for (`account`, `folder_name`), or nothing if it is
    /// absent or stale: callers cannot distinguish the two, and both mean
    /// "go fetch".
    pub fn get_folder(&self, account: &str, folder_name: &str, now: u64) -> (r: Option<
        &CachedFolder,
    >)
        requires
            self.wf(),
        ensures
            match r {
                Some(cf) => fresh_lookup(self.table(), account@, folder_name@, now as int, self.duration())
                    == Some(cf@),
                None => fresh_lookup(self.table(), account@, folder_name@, now as int, self.duration())
                    is None,
            },
    {
        match self.find_slot(account) {
            None => {
                proof {
                    lemma_table_missing(self@.slots, account@);
                }
                None
            },
            Some(si) => {
                proof {
                    lemma_table_index(self@.slots, si as int);
                }
                let ghost slot_view = self@.slots[si as int];
                match find_folder(&self.slots[si].folders, folder_name) {
                    Some(j) => {
                        proof {
                            lemma_fmap_index(slot_view.folders, j as int);
                        }
                        let cf = &self.slots[si].folders[j];
                        proof {
                            assert(cf@ == slot_view.folders[j as int]);
                        }
                        if self.is_fresh(cf.last_sync, now) {
                            Some(cf)
                        } else {
                            None
                        }
                    },
                    None => {
                        proof {
                            lemma_fmap_missing(slot_view.folders, folder_name@);
                        }
                        None
                    },
                }
            },
        }
    }

    /// The freshness test applied by every read: data stamped `cached_at` is
    /// fresh at `now` iff less than the cache duration has elapsed.
    pub fn is_fresh(&self, cached_at: u64, now: u64) -> (r: bool)
        ensures
            r == is_fresh_at(cached_at as int, now as int, self.duration()),
    {
        if now < cached_at {
            true
        } else {
            now - cached_at < self.cache_duration
        }
    }

    /// Drops the whole partition for `account`.
    pub fn clear_account(&mut self, account: &str)
        requires
            old(self).wf(),
        ensures
            final(self).wf(),
            final(self).duration() == old(self).duration(),
            final(self).table() == old(self).table().remove(account@),
    {
        let ghost old_slots = self@.slots;
        match self.find_slot(account) {
            Some(i) => {
                self.slots.remove(i);
                proof {
                    assert(self@.slots =~= old_slots.remove(i as int));
                    lemma_table_remove(old_slots, i as int);
                    assert(slots_wf(self@.slots)) by {
                        assert(forall|k: int|
                            0 <= k < self@.slots.len() ==> #[trigger] self@.slots[k]
                                == if k < i { old_slots[k] } else { old_slots[k + 1] });
                    }
                }
            },
            None => {
                proof {
                    lemma_table_missing(old_slots, account@);
                    assert(table_of(old_slots).remove(account@) =~= table_of(old_slots));
                }
            },
        }
    }

    /// Number of account partitions and total number of cached emails. If
    /// the true total exceeds `usize::MAX` the second component saturates.
    pub fn cache_stats(&self) -> (r: (usize, usize))
        requires
            self.wf(),
        ensures
            r.0 == self.table().dom().len(),
            cache_email_total(self@.slots) <= usize::MAX ==> r.1 == cache_email_total(self@.slots),
            r.1 <= cache_email_total(self@.slots),
    {
        proof {
            lemma_table_dom_len(self@.slots);
        }
        let account_count = self.slots.len();
        let mut total: usize = 0;
        let n = self.slots.len();
        let mut i: usize = 0;
        while i < n
            invariant
                i <= n,
                n == self@.slots.len(),
                self@.slots.len() == self.slots@.len(),
                forall|k: int| 0 <= k < n ==> #[trigger] self@.slots[k] == self.slots@[k]@,
                cache_email_total(self@.slots.take(i as int)) <= usize::MAX ==> total
                    == cache_email_total(self@.slots.take(i as int)),
                total <= cache_email_total(self@.slots.take(i as int)),
            decreases n - i,
        {
            let slot = &self.slots[i];
            let m = slot.folders.len();
            let mut j: usize = 0;
            let ghost entry_base = cache_email_total(self@.slots.take(i as int));
            while j < m
                invariant
                    j <= m,
                    m == slot.folders@.len(),
                    slot@ == self@.slots[i as int],
                    0 <= i < self@.slots.len(),
                    entry_base == cache_email_total(self@.slots.take(i as int)),
                    forall|k: int|
                        0 <= k < m ==> #[trigger] slot@.folders[k] == slot.folders@[k]@,
                    entry_base + partition_email_total(slot@.folders.take(j as int))
                        <= usize::MAX ==> total == entry_base + partition_email_total(
                        slot@.folders.take(j as int),
                    ),
                    total <= entry_base + partition_email_total(slot@.folders.take(j as int)),
                decreases m - j,
            {
                let len_j = slot.folders[j].emails.len();
                proof {
                    assert(slot@.folders.take(j + 1).drop_last() =~= slot@.folders.take(j as int));
                    assert(slot@.folders.take(j + 1).last() == slot@.folders[j as int]);
                    assert(slot@.folders[j as int].emails.len() == len_j);
                }
                if total > usize::MAX - len_j {
                    total = usize::MAX;
                } else {
                    total = total + len_j;
                }
                j = j + 1;
            }
            proof {
                assert(slot@.folders.take(m as int) =~= slot@.folders);
                assert(self@.slots.take(i + 1).drop_last() =~= self@.slots.take(i as int));
                assert(self@.slots.take(i + 1).last() == self@.slots[i as int]);
            }
            i = i + 1;
        }
        proof {
            assert(self@.slots.take(n as int) =~= self@.slots);
        }
        (account_count, total)
    }

    /// Projection of `get_folder`: the cached emails for a fresh folder,
    /// cloned, or nothing if the folder is absent or stale.
    pub fn get_emails(&self, account: &str, folder_name: &str, now: u64) -> (r: Option<Vec<Email>>)
        requires
            self.wf(),
        ensures
            match r {
                Some(v) => fresh_lookup(self.table(), account@, folder_name@, now as int, self.duration())
                    matches Some(c) && v@.map_values(|e: Email| e@) == c.emails.map_values(
                    |ce: CachedEmailView| ce.email,
                ),
                None => fresh_lookup(self.table(), account@, folder_name@, now as int, self.duration())
                    is None,
            },
    {
        match self.get_folder(account, folder_name, now) {
            None => None,
            Some(cf) => {
                let mut v: Vec<Email> = Vec::new();
                let n = cf.emails.len();
                let mut i: usize = 0;
                while i < n
                    invariant
                        i <= n,
                        n == cf.emails@.len(),
                        v@.len() == i,
                        forall|k: int| 0 <= k < i ==> v@[k]@ == cf.emails@[k]@.email,
                    decreases n - i,
                {
                    v.push(cf.emails[i].email.clone());
                    i = i + 1;
                }
                proof {
                    assert(v@.map_values(|e: Email| e@) =~= cf@.emails.map_values(
                        |ce: CachedEmailView| ce.email,
                    ));
                }
                Some(v)
            },
        }
    }

    /// Whether a fresh cache entry exists for (`account`, `folder_name`).
    pub fn is_folder_fresh(&self, account: &str, folder_name: &str, now: u64) -> (r: bool)
        requires
            self.wf(),
        ensures
            r == (fresh_lookup(self.table(), account@, folder_name@, now as int, self.duration())
                matches Some(c)),
    {
        self.get_folder(account, folder_name, now).is_some()
    }

    /// All folders of `account` that are individually fresh; stale folders
    /// are silently omitted. Each fresh folder appears exactly once.
    #[verifier::rlimit(60)]
    pub fn get_folders(&self, account: &str, now: u64) -> (r: Vec<Folder>)
        requires
            self.wf(),
        ensures
            forall|k: int|
                0 <= k < r@.len() ==> fresh_lookup(
                    self.table(),
                    account@,
                    (#[trigger] r@[k])@.name,
                    now as int,
                    self.duration(),
                ) == Some(
                    CachedFolderView {
                        folder: r@[k]@,
                        ..fresh_lookup(
                            self.table(),
                            account@,
                            r@[k]@.name,
                            now as int,
                            self.duration(),
                        ).unwrap()
                    },
                ),
            forall|name: Seq<char>|
                (#[trigger] fresh_lookup(self.table(), account@, name, now as int, self.duration()))
                    matches Some(c) ==> exists|k: int|
                    0 <= k < r@.len() && r@[k]@ == c.folder,
            forall|k1: int, k2: int| 0 <= k1 < k2 < r@.len() ==> r@[k1]@.name != r@[k2]@.name,
    {
        let mut r: Vec<Folder> = Vec::new();
        match self.find_slot(account) {
            None => {
                proof {
                    lemma_table_missing(self@.slots, account@);
                }
                r
            },
            Some(si) => {
                proof {
                    lemma_table_index(self@.slots, si as int);
                }
                let ghost slot_view = self@.slots[si as int];
                let slot = &self.slots[si];
                let m = slot.folders.len();
                let mut j: usize = 0;
                while j < m
                    invariant
                        j <= m,
                         0 <= si < self@.slots.len(),
                        slot@ == slot_view,
                        slot_view == self@.slots[si as int],
                        self.wf(),
                        m == slot.folders@.len(),
                        slot_view.folders.len() == m,
                        forall|k: int|
                            0 <= k < m ==> slot_view.folders[k] == (#[trigger] slot.folders@[k])@,
                        self.table().contains_key(account@),
                        self.table()[account@] == fmap_of(slot_view.folders),
                        forall|k: int|
                            0 <= k < r@.len() ==> exists|jj: int|
                                0 <= jj < j && (#[trigger] r@[k])@ == slot_view.folders[jj].folder
                                    && slot_view.folders[jj].folder.name == r@[k]@.name
                                    && is_fresh_at(
                                    slot_view.folders[jj].last_sync,
                                    now as int,
                                    self.duration(),
                                ),
                        forall|jj: int|
                            0 <= jj < j && is_fresh_at(
                                (#[trigger] slot_view.folders[jj]).last_sync,
                                now as int,
                                self.duration(),
                            ) ==> exists|k: int|
                                0 <= k < r@.len() && r@[k]@ == slot_view.folders[jj].folder,
                        forall|k1: int, k2: int|
                            0 <= k1 < k2 < r@.len() ==> r@[k1]@.name != r@[k2]@.name,
                    decreases m - j,
                {
                    let ghost r_before = r@;
                    let cf = &slot.folders[j];
                    proof {
                        assert(cf@ == slot_view.folders[j as int]);
                    }
                    if self.is_fresh(cf.last_sync, now) {
                        proof {
                            // The pushed folder's name is new: every folder
                            // already in `r` comes from an earlier index, and
                            // names within a partition are unique.
                            assert(folders_wf(slot_view.folders));
                            assert(forall|k: int|
                                0 <= k < r@.len() ==> (#[trigger] r@[k])@.name
                                    != slot_view.folders[j as int].folder.name);
                        }
                        r.push(cf.folder.clone());
                        proof {
                            assert(r@[r@.len() - 1]@ == slot_view.folders[j as int].folder);
                            assert(forall|k: int|
                                0 <= k < r_before.len() ==> r@[k] == r_before[k]);
                            assert forall|jj: int|
                                0 <= jj < j + 1 && is_fresh_at(
                                    (#[trigger] slot_view.folders[jj]).last_sync,
                                    now as int,
                                    self.duration(),
                                ) implies exists|k: int|
                                0 <= k < r@.len() && r@[k]@ == slot_view.folders[jj].folder by {
                                if jj == j {
                                    assert(r@[r@.len() - 1]@ == slot_view.folders[jj].folder);
                                } else {
                                    let k = choose|k: int|
                                        0 <= k < r_before.len() && r_before[k]@
                                            == slot_view.folders[jj].folder;
                                    assert(r@[k]@ == slot_view.folders[jj].folder);
                                }
                            }
                        }
                    }
                    j = j + 1;
                }
                proof {
                    // Soundness of each returned folder: its fresh cache
                    // entry is exactly the slot folder it came from.
                    assert forall|k: int| 0 <= k < r@.len() implies fresh_lookup(
                        self.table(),
                        account@,
                        (#[trigger] r@[k])@.name,
                        now as int,
                        self.duration(),
                    ) == Some(
                        CachedFolderView {
                            folder: r@[k]@,
                            ..fresh_lookup(
                                self.table(),
                                account@,
                                r@[k]@.name,
                                now as int,
                                self.duration(),
                            ).unwrap()
                        },
                    ) by {
                        let jj = choose|jj: int|
                            0 <= jj < m && r@[k]@ == slot_view.folders[jj].folder
                                && slot_view.folders[jj].folder.name == r@[k]@.name && is_fresh_at(
                                slot_view.folders[jj].last_sync,
                                now as int,
                                self.duration(),
                            );
                        lemma_fmap_index(slot_view.folders, jj);
                    }
                    // Completeness: every fresh entry of the partition was
                    // visited and pushed.
                    assert forall|name: Seq<char>|
                        (#[trigger] fresh_lookup(
                            self.table(),
                            account@,
                            name,
                            now as int,
                            self.duration(),
                        )) is Some implies exists|k: int|
                        0 <= k < r@.len() && r@[k]@ == fresh_lookup(
                            self.table(),
                            account@,
                            name,
                            now as int,
                            self.duration(),
                        ).unwrap().folder by {
                        if !(exists|jj: int|
                            0 <= jj < m && slot_view.folders[jj].folder.name == name) {
                            lemma_fmap_missing(slot_view.folders, name);
                            assert(false);
                        }
                        let jj = choose|jj: int|
                            0 <= jj < m && slot_view.folders[jj].folder.name == name;
                        lemma_fmap_index(slot_view.folders, jj);
                    }
                }
                r
            },
        }
    }

    /// Records the full body for the first cached email with id `email_id`
    /// under (`account`, `folder_name`), marking it loaded and restamping it;
    /// anywhere the lookup fails, the cache is unchanged.
    pub fn store_email_body(
        &mut self,
        account: &str,
        folder_name: &str,
        email_id: usize,
        body: String,
        now: u64,
    )
        requires
            old(self).wf(),
        ensures
            final(self).wf(),
            final(self).duration() == old(self).duration(),
            match lookup2(old(self).table(), account@, folder_name@) {
                Some(c) => match first_match_id(c.emails, email_id as int) {
                    Some(k) => final(self).table() == old(self).table().insert(
                        account@,
                        old(self).table()[account@].insert(
                            folder_name@,
                            with_body(c, k, body@, now as int),
                        ),
                    ),
                    None => final(self)@ == old(self)@,
                },
                None => final(self)@ == old(self)@,
            },
    {
        let ghost old_slots = self@.slots;
        match self.find_slot(account) {
            None => {
                proof {
                    lemma_table_missing(old_slots, account@);
                }
            },
            Some(si) => {
                proof {
                    lemma_table_index(old_slots, si as int);
                }
                let ghost old_slot = self@.slots[si as int];
                match find_folder(&self.slots[si].folders, folder_name) {
                    None => {
                        proof {
                            lemma_fmap_missing(old_slot.folders, folder_name@);
                        }
                    },
                    Some(fj) => {
                        proof {
                            lemma_fmap_index(old_slot.folders, fj as int);
                            assert(old_slot.folders[fj as int] == self.slots@[si as int].folders@[
                                fj as int
                            ]@);
                        }
                        let ghost old_cf = old_slot.folders[fj as int];
                        proof {
                            assert(forall|p: int|
                                0 <= p < old_cf.emails.len() ==> old_cf.emails[p] == (
                                #[trigger] self.slots@[si as int].folders@[fj as int].emails@[p])@);
                        }
                        let found = find_email_idx(&self.slots[si].folders[fj].emails, email_id);
                        match found {
                            None => {
                                proof {
                                    lemma_first_match_id_none(old_cf.emails, email_id as int);
                                }
                            },
                            Some(kk) => {
                                proof {
                                    lemma_first_match_id_found(
                                        old_cf.emails,
                                        email_id as int,
                                        kk as int,
                                    );
                                }
                                let slot = &mut self.slots[si];
                                let cfm = &mut slot.folders[fj];
                                let ce = &mut cfm.emails[kk];
                                ce.email.body = body;
                                ce.full_body_loaded = true;
                                ce.cached_at = now;
                                proof {
                                    let new_cf = with_body(
                                        old_cf,
                                        kk as int,
                                        ce.email.body@,
                                        now as int,
                                    );
                                    assert(self@.slots[si as int].folders[fj as int].emails
                                        =~= new_cf.emails);
                                    assert(self@.slots[si as int].folders[fj as int] =~= new_cf);
                                    let new_folders = old_slot.folders.update(fj as int, new_cf);
                                    assert(self@.slots[si as int].folders =~= new_folders);
                                    let new_slot = AccountSlotView {
                                        account: old_slot.account,
                                        folders: new_folders,
                                    };
                                    assert(self@.slots =~= old_slots.update(si as int, new_slot));
                                    assert(folders_wf(new_folders));
                                    lemma_fmap_update(old_slot.folders, fj as int, new_cf);
                                    lemma_table_update(old_slots, si as int, new_slot);
                                    assert(slots_wf(self@.slots));
                                }
                            },
                        }
                    },
                }
            },
        }
    }

    /// The cached full body of the email with id `email_id` under
    /// (`account`, `folder_name`), if one has been loaded. Freshness is not
    /// consulted: body caching is keyed by the loaded flag, not by expiry.
    pub fn get_email_body(&self, account: &str, folder_name: &str, email_id: usize) -> (r: Option<
        String,
    >)
        requires
            self.wf(),
        ensures
            match lookup2(self.table(), account@, folder_name@) {
                Some(c) => match r {
                    Some(s) => body_lookup(c.emails, email_id as int) == Some(s@),
                    None => body_lookup(c.emails, email_id as int) is None,
                },
                None => r is None,
            },
    {
        match self.find_slot(account) {
            None => {
                proof {
                    lemma_table_missing(self@.slots, account@);
                }
                None
            },
            Some(si) => {
                proof {
                    lemma_table_index(self@.slots, si as int);
                }
                let ghost slot_view = self@.slots[si as int];
                match find_folder(&self.slots[si].folders, folder_name) {
                    None => {
                        proof {
                            lemma_fmap_missing(slot_view.folders, folder_name@);
                        }
                        None
                    },
                    Some(fj) => {
                        proof {
                            lemma_fmap_index(slot_view.folders, fj as int);
                        }
                        let cf = &self.slots[si].folders[fj];
                        let ghost cf_view = slot_view.folders[fj as int];
                        proof {
                            assert(cf@ == cf_view);
                        }
                        let n = cf.emails.len();
                        let mut k: usize = 0;
                        while k < n
                            invariant
                                k <= n,
                                n == cf.emails@.len(),
                                cf_view == cf@,
                                cf_view.emails.len() == n,
                                lookup2(self.table(), account@, folder_name@) == Some(cf_view),
                                forall|p: int|
                                    0 <= p < n ==> cf_view.emails[p] == (
                                    #[trigger] cf.emails@[p])@,
                                forall|p: int|
                                    0 <= p < k ==> !(cf_view.emails[p].email.id == email_id as int
                                        && cf_view.emails[p].full_body_loaded),
                            decreases n - k,
                        {
                            let ce = &cf.emails[k];
                            if ce.email.id == email_id && ce.full_body_loaded {
                                proof {
                                    lemma_body_lookup_found(cf_view.emails, email_id as int, k as int);
                                }
                                return Some(ce.email.body.clone());
                            }
                            k = k + 1;
                        }
                        proof {
                            lemma_body_lookup_none(cf_view.emails, email_id as int);
                        }
                        None
                    },
                }
            },
        }
    }

    /// The explicit maintenance sweep: removes every stale folder entry and
    /// then every account partition left empty. This is the only eviction
    /// path; reads never evict.
    pub fn clear_expired(&mut self, now: u64)
        requires
            old(self).wf(),
        ensures
            final(self).wf(),
            final(self).duration() == old(self).duration(),
            forall|a: Seq<char>, f: Seq<char>|
                #[trigger] lookup2(final(self).table(), a, f) == fresh_lookup(
                    old(self).table(),
                    a,
                    f,
                    now as int,
                    old(self).duration(),
                ),
            forall|a: Seq<char>|
                #[trigger] final(self).table().contains_key(a) <==> exists|f: Seq<char>|
                    (#[trigger] fresh_lookup(
                        old(self).table(),
                        a,
                        f,
                        now as int,
                        old(self).duration(),
                    )) is Some,
    {
        let ghost old_slots = self@.slots;
        let ghost dur = self@.duration;
        let mut kept: Vec<AccountSlot> = Vec::new();
        let n = self.slots.len();
        let mut i: usize = 0;
        while i < n
            invariant
                i <= n,
                n == self.slots@.len(),
                old_slots == self@.slots,
                dur == self@.duration,
                slots_wf(old_slots),
                old_slots.len() == n,
                forall|k: int| 0 <= k < n ==> old_slots[k] == (#[trigger] self.slots@[k])@,
                slots_wf(slot_views(kept@)),
                forall|k: int|
                    0 <= k < kept@.len() ==> exists|ii: int|
                        0 <= ii < i && (#[trigger] kept@[k])@.account == old_slots[ii].account,
                forall|a: Seq<char>, f: Seq<char>|
                    #[trigger] lookup2(table_of(slot_views(kept@)), a, f) == (
                    if exists|ii: int| 0 <= ii < i && old_slots[ii].account == a {
                        fresh_lookup(table_of(old_slots), a, f, now as int, dur)
                    } else {
                        None
                    }),
                forall|a: Seq<char>|
                    #[trigger] table_of(slot_views(kept@)).contains_key(a)
                        <==> ((exists|ii: int| 0 <= ii < i && old_slots[ii].account == a)
                        && exists|f: Seq<char>|
                        (#[trigger] fresh_lookup(table_of(old_slots), a, f, now as int, dur))
                            is Some),
            decreases n - i,
        {
            let ghost kept_before = slot_views(kept@);
            proof {
                lemma_table_index(old_slots, i as int);
            }
            let slot = &self.slots[i];
            let ghost slot_view = old_slots[i as int];
            let ghost acc = slot_view.account;
            let m = slot.folders.len();
            let mut ff: Vec<CachedFolder> = Vec::new();
            let mut j: usize = 0;
            while j < m
                invariant
                    j <= m,
                    0 <= i < old_slots.len(),
                    slot@ == slot_view,
                    slot_view == old_slots[i as int],
                    dur == self@.duration,
                    m == slot.folders@.len(),
                    slot_view.folders.len() == m,
                    folders_wf(slot_view.folders),
                    forall|k: int|
                        0 <= k < m ==> slot_view.folders[k] == (#[trigger] slot.folders@[k])@,
                    folders_wf(cf_views(ff@)),
                    forall|k: int|
                        0 <= k < ff@.len() ==> exists|jj: int|
                            0 <= jj < j && (#[trigger] ff@[k])@ == slot_view.folders[jj],
                    forall|f: Seq<char>|
                        #[trigger] mlookup(fmap_of(cf_views(ff@)), f) == fresh_opt(
                            mlookup(fmap_of(slot_view.folders.take(j as int)), f),
                            now as int,
                            dur,
                        ),
                decreases m - j,
            {
                let ghost ff_before = cf_views(ff@);
                let ghost fv = slot_view.folders[j as int];
                let cf = &slot.folders[j];
                proof {
                    assert(cf@ == fv);
                    assert(slot_view.folders.take(j + 1).drop_last() =~= slot_view.folders.take(
                        j as int,
                    ));
                    assert(slot_view.folders.take(j + 1).last() == fv);
                    assert(fmap_of(slot_view.folders.take(j + 1)) == fmap_of(
                        slot_view.folders.take(j as int),
                    ).insert(fv.folder.name, fv));
                    assert(forall|k: int|
                        0 <= k < j ==> slot_view.folders.take(j as int)[k]
                            == slot_view.folders[k]);
                    lemma_fmap_missing(slot_view.folders.take(j as int), fv.folder.name);
                    assert(mlookup(fmap_of(cf_views(ff@)), fv.folder.name) == fresh_opt(
                        mlookup(fmap_of(slot_view.folders.take(j as int)), fv.folder.name),
                        now as int,
                        dur,
                    ));
                    assert(mlookup(fmap_of(ff_before), fv.folder.name) is None);
                }
                let keep = if now < cf.last_sync {
                    true
                } else {
                    now - cf.last_sync < self.cache_duration
                };
                proof {
                    assert(keep == is_fresh_at(fv.last_sync, now as int, dur));
                }
                if keep {
                    ff.push(cf.clone());
                    proof {
                        let ff_after = cf_views(ff@);
                        assert(ff_after =~= ff_before.push(fv));
                        assert(ff_after.drop_last() =~= ff_before);
                        assert(ff_after.last() == fv);
                        assert(fmap_of(ff_after) == fmap_of(ff_before).insert(fv.folder.name, fv));
                        assert(folders_wf(ff_after)) by {
                            assert(forall|k: int|
                                0 <= k < ff_before.len() ==> ff_after[k] == ff_before[k]);
                        }
                        assert(ff@[ff@.len() - 1]@ == fv);
                        assert forall|f: Seq<char>|
                            #[trigger] mlookup(fmap_of(cf_views(ff@)), f) == fresh_opt(
                                mlookup(fmap_of(slot_view.folders.take(j + 1)), f),
                                now as int,
                                dur,
                            ) by {
                            if f == fv.folder.name {
                                assert(mlookup(fmap_of(ff_after), f) == Some(fv));
                            } else {
                                assert(mlookup(fmap_of(ff_after), f) == mlookup(
                                    fmap_of(ff_before),
                                    f,
                                ));
                                assert(mlookup(fmap_of(slot_view.folders.take(j + 1)), f)
                                    == mlookup(fmap_of(slot_view.folders.take(j as int)), f));
                            }
                        }
                    }
                } else {
                    proof {
                        assert forall|f: Seq<char>|
                            #[trigger] mlookup(fmap_of(cf_views(ff@)), f) == fresh_opt(
                                mlookup(fmap_of(slot_view.folders.take(j + 1)), f),
                                now as int,
                                dur,
                            ) by {
                            if f == fv.folder.name {
                                assert(mlookup(fmap_of(cf_views(ff@)), f) is None);
                                assert(mlookup(fmap_of(slot_view.folders.take(j + 1)), f)
                                    == Some(fv));
                                assert(fresh_opt(Some(fv), now as int, dur) is None);
                            } else {
                                assert(mlookup(fmap_of(slot_view.folders.take(j + 1)), f)
                                    == mlookup(fmap_of(slot_view.folders.take(j as int)), f));
                            }
                        }
                    }
                }
                j = j + 1;
            }
            let ghost ffv = cf_views(ff@);
            proof {
                assert(slot_view.folders.take(m as int) =~= slot_view.folders);
                // The partition's pointwise sweep result, stated against the
                // whole original partition.
                assert(forall|f: Seq<char>|
                    #[trigger] mlookup(fmap_of(ffv), f) == fresh_opt(
                        mlookup(fmap_of(slot_view.folders), f),
                        now as int,
                        dur,
                    ));
                assert(table_of(old_slots).contains_key(acc));
                assert(table_of(old_slots)[acc] == fmap_of(slot_view.folders));
                assert(forall|f: Seq<char>|
                    #[trigger] fresh_lookup(table_of(old_slots), acc, f, now as int, dur)
                        == fresh_opt(mlookup(fmap_of(slot_view.folders), f), now as int, dur));
                // The slot's account is new to `kept`.
                assert forall|k: int|
                    0 <= k < kept_before.len() implies (#[trigger] kept_before[k]).account
                    != acc by {
                    assert(kept_before[k] == kept@[k]@);
                    let ii = choose|ii: int|
                        0 <= ii < i && kept@[k]@.account == old_slots[ii].account;
                    assert(old_slots[ii].account != old_slots[i as int].account);
                }
                lemma_table_missing(kept_before, acc);
            }
            if ff.len() > 0 {
                proof {
                    // The slot keeps a fresh folder, witnessed by the first
                    // kept entry.
                    assert(ffv[0] == ff@[0]@);
                    lemma_fmap_index(ffv, 0);
                    assert(mlookup(fmap_of(ffv), ffv[0].folder.name) == Some(ffv[0]));
                    assert(fresh_lookup(table_of(old_slots), acc, ffv[0].folder.name, now as int, dur)
                        is Some);
                }
                let new_slot = AccountSlot { account: slot.account.clone(), folders: ff };
                kept.push(new_slot);
                proof {
                    let kept_after = slot_views(kept@);
                    assert(kept_after =~= kept_before.push(
                        AccountSlotView { account: acc, folders: ffv },
                    ));
                    assert(kept_after.drop_last() =~= kept_before);
                    assert(kept_after.last() == (AccountSlotView { account: acc, folders: ffv }));
                    assert(table_of(kept_after) == table_of(kept_before).insert(
                        acc,
                        fmap_of(ffv),
                    ));
                    assert(slots_wf(kept_after)) by {
                        assert(forall|k: int|
                            0 <= k < kept_before.len() ==> kept_after[k] == kept_before[k]);
                        assert(kept_after.last().folders == ffv);
                    }
                    assert(kept@[kept@.len() - 1]@.account == old_slots[i as int].account);
                    assert forall|a: Seq<char>, f: Seq<char>|
                        #[trigger] lookup2(table_of(slot_views(kept@)), a, f) == (
                        if exists|ii: int| 0 <= ii < i + 1 && old_slots[ii].account == a {
                            fresh_lookup(table_of(old_slots), a, f, now as int, dur)
                        } else {
                            None
                        }) by {
                        if a == acc {
                            assert(lookup2(table_of(kept_after), a, f) == mlookup(
                                fmap_of(ffv),
                                f,
                            ));
                            assert(0 <= i < i + 1 && old_slots[i as int].account == a);
                        } else {
                            assert(lookup2(table_of(kept_after), a, f) == lookup2(
                                table_of(kept_before),
                                a,
                                f,
                            ));
                            assert((exists|ii: int| 0 <= ii < i + 1 && old_slots[ii].account == a)
                                == (exists|ii: int| 0 <= ii < i && old_slots[ii].account == a));
                        }
                    }
                    assert forall|a: Seq<char>|
                        #[trigger] table_of(slot_views(kept@)).contains_key(a) <==> ((exists|ii: int|
                            0 <= ii < i + 1 && old_slots[ii].account == a) && exists|f: Seq<char>|
                            (#[trigger] fresh_lookup(table_of(old_slots), a, f, now as int, dur))
                                is Some) by {
                        if a == acc {
                            assert(table_of(kept_after).contains_key(a));
                        } else {
                            assert(table_of(kept_after).contains_key(a) == table_of(
                                kept_before,
                            ).contains_key(a));
                            assert((exists|ii: int| 0 <= ii < i + 1 && old_slots[ii].account == a)
                                == (exists|ii: int| 0 <= ii < i && old_slots[ii].account == a));
                        }
                    }
                }
            } else {
                proof {
                    // Every folder of this slot is stale: the partition
                    // disappears entirely.
                    assert(ffv =~= Seq::<CachedFolderView>::empty());
                    assert forall|f: Seq<char>|
                        !((#[trigger] fresh_lookup(
                            table_of(old_slots),
                            acc,
                            f,
                            now as int,
                            dur,
                        )) is Some) by {
                        assert(mlookup(fmap_of(ffv), f) is None);
                    }
                    assert forall|a: Seq<char>, f: Seq<char>|
                        #[trigger] lookup2(table_of(slot_views(kept@)), a, f) == (
                        if exists|ii: int| 0 <= ii < i + 1 && old_slots[ii].account == a {
                            fresh_lookup(table_of(old_slots), a, f, now as int, dur)
                        } else {
                            None
                        }) by {
                        if a == acc {
                            assert(!table_of(kept_before).contains_key(a));
                            assert(lookup2(table_of(kept_before), a, f) is None);
                            assert(fresh_lookup(table_of(old_slots), a, f, now as int, dur)
                                is None);
                            assert(0 <= i < i + 1 && old_slots[i as int].account == a);
                        } else {
                            assert((exists|ii: int| 0 <= ii < i + 1 && old_slots[ii].account == a)
                                == (exists|ii: int| 0 <= ii < i && old_slots[ii].account == a));
                        }
                    }
                    assert forall|a: Seq<char>|
                        #[trigger] table_of(slot_views(kept@)).contains_key(a) <==> ((exists|ii: int|
                            0 <= ii < i + 1 && old_slots[ii].account == a) && exists|f: Seq<char>|
                            (#[trigger] fresh_lookup(table_of(old_slots), a, f, now as int, dur))
                                is Some) by {
                        if a == acc {
                            assert(!table_of(kept_before).contains_key(a));
                        } else {
                            assert((exists|ii: int| 0 <= ii < i + 1 && old_slots[ii].account == a)
                                == (exists|ii: int| 0 <= ii < i && old_slots[ii].account == a));
                        }
                    }
                }
            }
            i = i + 1;
        }
        self.slots = kept;
        proof {
            assert forall|a: Seq<char>, f: Seq<char>|
                #[trigger] lookup2(table_of(self@.slots), a, f) == fresh_lookup(
                    table_of(old_slots),
                    a,
                    f,
                    now as int,
                    dur,
                ) by {
                if !(exists|ii: int| 0 <= ii < n && old_slots[ii].account == a) {
                    lemma_table_missing(old_slots, a);
                }
            }
            assert forall|a: Seq<char>|
                #[trigger] table_of(self@.slots).contains_key(a) <==> exists|f: Seq<char>|
                    (#[trigger] fresh_lookup(table_of(old_slots), a, f, now as int, dur))
                        is Some by {
                if !(exists|ii: int| 0 <= ii < n && old_slots[ii].account == a) {
                    lemma_table_missing(old_slots, a);
                }
            }
        }
    }
}

proof fn lemma_first_match_id_found(emails: Seq<CachedEmailView>, id: int, k: int)
    requires
        0 <= k < emails.len(),
        emails[k].email.id == id,
        forall|p: int| 0 <= p < k ==> emails[p].email.id != id,
    ensures
        first_match_id(emails, id) == Some(k),
    decreases emails.len(),
{
    if k > 0 {
        assert(emails.first().email.id != id);
        lemma_first_match_id_found(emails.drop_first(), id, k - 1);
    }
}

proof fn lemma_first_match_id_none(emails: Seq<CachedEmailView>, id: int)
    requires
        forall|p: int| 0 <= p < emails.len() ==> emails[p].email.id != id,
    ensures
        first_match_id(emails, id) is None,
    decreases emails.len(),
{
    if emails.len() > 0 {
        lemma_first_match_id_none(emails.drop_first(), id);
    }
}

proof fn lemma_body_lookup_found(emails: Seq<CachedEmailView>, id: int, k: int)
    requires
        0 <= k < emails.len(),
        emails[k].email.id == id,
        emails[k].full_body_loaded,
        forall|p: int|
            0 <= p < k ==> !(emails[p].email.id == id && emails[p].full_body_loaded),
    ensures
        body_lookup(emails, id) == Some(emails[k].email.body),
    decreases emails.len(),
{
    if k > 0 {
        lemma_body_lookup_found(emails.drop_first(), id, k - 1);
    }
}

proof fn lemma_body_lookup_none(emails: Seq<CachedEmailView>, id: int)
    requires
        forall|p: int|
            0 <= p < emails.len() ==> !(emails[p].email.id == id && emails[p].full_body_loaded),
    ensures
        body_lookup(emails, id) is None,
    decreases emails.len(),
{
    if emails.len() > 0 {
        lemma_body_lookup_none(emails.drop_first(), id);
    }
}

/// Cache freshness: a stored folder is served iff strictly less than the
/// cache duration has elapsed since its last sync. At exactly the boundary
/// the entry is stale; one instant before, it is still served.
pub proof fn lemma_freshness_boundary(
    t: Map<Seq<char>, Map<Seq<char>, CachedFolderView>>,
    account: Seq<char>,
    folder: Seq<char>,
    c: CachedFolderView,
    duration: int,
)
    requires
        lookup2(t, account, folder) == Some(c),
    ensures
        fresh_lookup(t, account, folder, c.last_sync + duration, duration) is None,
        duration > 0 ==> fresh_lookup(t, account, folder, c.last_sync + duration - 1, duration)
            == Some(c),
        forall|now: int|
            #[trigger] fresh_lookup(t, account, folder, now, duration) is Some <==> now
                - c.last_sync < duration,
{
}

/// Cache overwrite is total: storing folder F for an account with one email
/// list and then again with another leaves exactly the second list in the
/// cache — a complete replacement, never a merge.
pub proof fn lemma_overwrite_total(
    t: Map<Seq<char>, Map<Seq<char>, CachedFolderView>>,
    account: Seq<char>,
    folder: FolderView,
    first_emails: Seq<EmailView>,
    second_emails: Seq<EmailView>,
    t1: int,
    t2: int,
)
    ensures
        ({
            let after = store_shape(
                store_shape(t, account, folder, first_emails, t1),
                account,
                folder,
                second_emails,
                t2,
            );
            &&& lookup2(after, account, folder.name) == Some(
                stored_folder(folder, second_emails, t2),
            )
            &&& stored_folder(folder, second_emails, t2).emails.len() == second_emails.len()
            &&& forall|i: int|
                0 <= i < second_emails.len() ==> stored_folder(folder, second_emails, t2).emails[
                    i
                ].email == second_emails[i]
        }),
{
}

/// Per-account isolation of the cache: a store for one account never changes
/// what any other account's reads return.
pub proof fn lemma_store_isolation(
    t: Map<Seq<char>, Map<Seq<char>, CachedFolderView>>,
    account: Seq<char>,
    other: Seq<char>,
    folder: FolderView,
    emails: Seq<EmailView>,
    now: int,
)
    requires
        other != account,
    ensures
        forall|f: Seq<char>|
            #[trigger] lookup2(store_shape(t, account, folder, emails, now), other, f) == lookup2(
                t,
                other,
                f,
            ),
{
}

/// The shape of the cache table after `store_folder`: the stored folder is
/// inserted into the account's partition, which is created if absent.
pub open spec fn final_table_shape(
    old_slots: Seq<AccountSlotView>,
    new_slots: Seq<AccountSlotView>,
    account: Seq<char>,
    cf: CachedFolderView,
) -> bool {
    table_of(new_slots) == table_of(old_slots).insert(
        account,
        partition_or_empty(table_of(old_slots), account).insert(cf.folder.name, cf),
    )
}

} // verus!
