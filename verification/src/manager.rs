//! The account orchestrator: the sole entry point the front end calls into.
//! It accepts one command enumeration, drives the session bookkeeping, the
//! result cache, and the account registry, and emits events. Commands and
//! events cross an asynchronous boundary: a command-processing step returns
//! the events to deliver, in order, and at most one network request; the
//! runner outside the library performs the request and hands its outcome to
//! the matching `finish_` step.
use vstd::prelude::*;

use crate::cache::{fresh_lookup, lookup2, store_shape, table_of, CachedFolderView, EmailCache};
use crate::credentials::{cred_lookup, keyring_error_text, CredentialsManager, CredPairView};
use crate::protocol::{email_of_header, error_message, icon_for, ImapError, ImapErrorView};
use crate::protocol::{email_from_header, folder_from_listing};
use crate::strutil::str_eq;
use crate::types::{Account, AccountView, Email, EmailView, Folder, FolderView};

verus! {

/// Mathematical view of an [`AccountCommand`].
pub ghost enum AccountCommandView {
    Connect(Seq<char>),
    Disconnect(Seq<char>),
    RefreshFolders(Seq<char>),
    FetchEmails { account_email: Seq<char>, folder: Seq<char>, limit: int },
    StoreCredentials { email: Seq<char>, password: Seq<char> },
    DeleteEmail { account_email: Seq<char>, email_id: int },
}

/// A command submitted by the front end; each carries the key of the account
/// it concerns.
#[derive(Debug)]
pub enum AccountCommand {
    Connect(String),
    Disconnect(String),
    RefreshFolders(String),
    FetchEmails { account_email: String, folder: String, limit: usize },
    StoreCredentials { email: String, password: String },
    DeleteEmail { account_email: String, email_id: usize },
}

impl View for AccountCommand {
    type V = AccountCommandView;

    open spec fn view(&self) -> AccountCommandView {
        match self {
            AccountCommand::Connect(a) => AccountCommandView::Connect(a@),
            AccountCommand::Disconnect(a) => AccountCommandView::Disconnect(a@),
            AccountCommand::RefreshFolders(a) => AccountCommandView::RefreshFolders(a@),
            AccountCommand::FetchEmails { account_email, folder, limit } => AccountCommandView::FetchEmails {
                account_email: account_email@,
                folder: folder@,
                limit: *limit as int,
            },
            AccountCommand::StoreCredentials { email, password } => AccountCommandView::StoreCredentials {
                email: email@,
                password: password@,
            },
            AccountCommand::DeleteEmail { account_email, email_id } => AccountCommandView::DeleteEmail {
                account_email: account_email@,
                email_id: *email_id as int,
            },
        }
    }
}

/// The account that a command concerns.
pub open spec fn command_account(c: AccountCommandView) -> Seq<char> {
    match c {
        AccountCommandView::Connect(a) => a,
        AccountCommandView::Disconnect(a) => a,
        AccountCommandView::RefreshFolders(a) => a,
        AccountCommandView::FetchEmails { account_email, .. } => account_email,
        AccountCommandView::StoreCredentials { email, .. } => email,
        AccountCommandView::DeleteEmail { account_email, .. } => account_email,
    }
}

/// Mathematical view of an [`AccountEvent`].
pub ghost enum AccountEventView {
    Connected(Seq<char>),
    Disconnected(Seq<char>),
    ConnectionFailed(Seq<char>, Seq<char>),
    FoldersUpdated(Seq<char>, Seq<FolderView>),
    EmailsUpdated(Seq<char>, Seq<char>, Seq<EmailView>),
    EmailDeleted(Seq<char>, int),
}

/// An event delivered to the front end's queue, drained once per render
/// tick.
#[derive(Debug)]
pub enum AccountEvent {
    Connected(String),
    Disconnected(String),
    ConnectionFailed(String, String),
    FoldersUpdated(String, Vec<Folder>),
    EmailsUpdated(String, String, Vec<Email>),
    EmailDeleted(String, usize),
}

impl View for AccountEvent {
    type V = AccountEventView;

    open spec fn view(&self) -> AccountEventView {
        match self {
            AccountEvent::Connected(a) => AccountEventView::Connected(a@),
            AccountEvent::Disconnected(a) => AccountEventView::Disconnected(a@),
            AccountEvent::ConnectionFailed(a, reason) => AccountEventView::ConnectionFailed(
                a@,
                reason@,
            ),
            AccountEvent::FoldersUpdated(a, folders) => AccountEventView::FoldersUpdated(
                a@,
                folders@.map_values(|f: Folder| f@),
            ),
            AccountEvent::EmailsUpdated(a, folder, emails) => AccountEventView::EmailsUpdated(
                a@,
                folder@,
                emails@.map_values(|e: Email| e@),
            ),
            AccountEvent::EmailDeleted(a, id) => AccountEventView::EmailDeleted(a@, *id as int),
        }
    }
}

/// Mathematical view of a [`SessionRequest`].
pub ghost enum SessionRequestView {
    Connect { account: Seq<char>, server: Seq<char>, port: int, use_tls: bool, password: Seq<char> },
    ListFolders { account: Seq<char> },
    FetchHeaders { account: Seq<char>, folder: Seq<char>, limit: int },
}

/// The network work that a command-processing step asks its runner to
/// perform. The runner performs it at a suspension point and hands the
/// outcome to the matching `finish_` step.
#[derive(Debug)]
pub enum SessionRequest {
    Connect { account: String, server: String, port: u16, use_tls: bool, password: String },
    ListFolders { account: String },
    FetchHeaders { account: String, folder: String, limit: usize },
}

impl View for SessionRequest {
    type V = SessionRequestView;

    open spec fn view(&self) -> SessionRequestView {
        match self {
            SessionRequest::Connect { account, server, port, use_tls, password } => SessionRequestView::Connect {
                account: account@,
                server: server@,
                port: *port as int,
                use_tls: *use_tls,
                password: password@,
            },
            SessionRequest::ListFolders { account } => SessionRequestView::ListFolders {
                account: account@,
            },
            SessionRequest::FetchHeaders { account, folder, limit } => SessionRequestView::FetchHeaders {
                account: account@,
                folder: folder@,
                limit: *limit as int,
            },
        }
    }
}

/// What one command-processing step produced: the events to deliver, in
/// order, and at most one network request to perform.
#[derive(Debug)]
pub struct CommandOutcome {
    pub events: Vec<AccountEvent>,
    pub request: Option<SessionRequest>,
}

/// The events of an outcome, as views, in delivery order.
pub open spec fn events_of(o: CommandOutcome) -> Seq<AccountEventView> {
    o.events@.map_values(|e: AccountEvent| e@)
}

/// The request of an outcome, as a view.
pub open spec fn request_of(o: CommandOutcome) -> Option<SessionRequestView> {
    match o.request {
        Some(r) => Some(r@),
        None => None,
    }
}

/// One listed mailbox as the session layer reports it: its name and its
/// message count from the subsequent per-folder round trip.
#[derive(Debug)]
pub struct FolderListing {
    pub name: String,
    pub message_count: usize,
}

/// Mathematical view of a [`FolderListing`].
#[verifier::ext_equal]
pub ghost struct FolderListingView {
    pub name: Seq<char>,
    pub message_count: int,
}

impl View for FolderListing {
    type V = FolderListingView;

    open spec fn view(&self) -> FolderListingView {
        FolderListingView { name: self.name@, message_count: self.message_count as int }
    }
}

/// One fetched message as the session layer reports it: the server-assigned
/// sequence number and the raw header section.
#[derive(Debug)]
pub struct RawMessage {
    pub id: usize,
    pub header: String,
}

/// Mathematical view of a [`RawMessage`].
#[verifier::ext_equal]
pub ghost struct RawMessageView {
    pub id: int,
    pub header: Seq<char>,
}

impl View for RawMessage {
    type V = RawMessageView;

    open spec fn view(&self) -> RawMessageView {
        RawMessageView { id: self.id as int, header: self.header@ }
    }
}

/// The registry entry for `email`, if any.
pub open spec fn reg_lookup(accounts: Seq<AccountView>, email: Seq<char>) -> Option<AccountView>
    decreases accounts.len(),
{
    if accounts.len() == 0 {
        None
    } else if accounts.first().email == email {
        Some(accounts.first())
    } else {
        reg_lookup(accounts.drop_first(), email)
    }
}

/// Registry keys are unique.
pub open spec fn reg_wf(accounts: Seq<AccountView>) -> bool {
    forall|i: int, j: int| 0 <= i < j < accounts.len() ==> accounts[i].email != accounts[j].email
}

/// Whether `account` is in the live-session set.
pub open spec fn in_sessions(sessions: Seq<Seq<char>>, account: Seq<char>) -> bool {
    exists|i: int| 0 <= i < sessions.len() && sessions[i] == account
}

/// Live-session keys are unique.
pub open spec fn sessions_wf(sessions: Seq<Seq<char>>) -> bool {
    forall|i: int, j: int| 0 <= i < j < sessions.len() ==> sessions[i] != sessions[j]
}

proof fn lemma_reg_index(accounts: Seq<AccountView>, i: int)
    requires
        reg_wf(accounts),
        0 <= i < accounts.len(),
    ensures
        reg_lookup(accounts, accounts[i].email) == Some(accounts[i]),
    decreases accounts.len(),
{
    if i > 0 {
        assert(accounts.first().email != accounts[i].email);
        lemma_reg_index(accounts.drop_first(), i - 1);
        assert(accounts.drop_first()[i - 1] == accounts[i]);
    }
}

proof fn lemma_reg_missing(accounts: Seq<AccountView>, email: Seq<char>)
    requires
        forall|i: int| 0 <= i < accounts.len() ==> (#[trigger] accounts[i]).email != email,
    ensures
        reg_lookup(accounts, email) is None,
    decreases accounts.len(),
{
    if accounts.len() > 0 {
        lemma_reg_missing(accounts.drop_first(), email);
    }
}

proof fn lemma_reg_update(accounts: Seq<AccountView>, i: int, v: AccountView, email: Seq<char>)
    requires
        reg_wf(accounts),
        0 <= i < accounts.len(),
        v.email == accounts[i].email,
    ensures
        reg_lookup(accounts.update(i, v), email) == (if email == accounts[i].email {
            Some(v)
        } else {
            reg_lookup(accounts, email)
        }),
    decreases accounts.len(),
{
    let updated = accounts.update(i, v);
    if i == 0 {
        if email != accounts[0].email {
            assert(updated.drop_first() =~= accounts.drop_first());
        }
    } else {
        assert(updated.first() == accounts.first());
        assert(updated.drop_first() =~= accounts.drop_first().update(i - 1, v));
        assert(accounts.drop_first()[i - 1] == accounts[i]);
        lemma_reg_update(accounts.drop_first(), i - 1, v, email);
        if email == accounts[i].email {
            assert(accounts.first().email != email);
        }
    }
}

proof fn lemma_reg_push(accounts: Seq<AccountView>, v: AccountView, email: Seq<char>)
    requires
        forall|i: int| 0 <= i < accounts.len() ==> (#[trigger] accounts[i]).email != v.email,
    ensures
        reg_lookup(accounts.push(v), email) == (if email == v.email {
            Some(v)
        } else {
            reg_lookup(accounts, email)
        }),
    decreases accounts.len(),
{
    if accounts.len() == 0 {
        assert(accounts.push(v).first() == v);
        assert(accounts.push(v).drop_first() =~= Seq::<AccountView>::empty());
        if email != v.email {
            lemma_reg_missing(accounts.push(v).drop_first(), email);
        }
    } else {
        assert(accounts.push(v).first() == accounts.first());
        assert(accounts.push(v).drop_first() =~= accounts.drop_first().push(v));
        lemma_reg_push(accounts.drop_first(), v, email);
    }
}

proof fn lemma_reg_remove(accounts: Seq<AccountView>, i: int, email: Seq<char>)
    requires
        reg_wf(accounts),
        0 <= i < accounts.len(),
    ensures
        reg_lookup(accounts.remove(i), email) == (if email == accounts[i].email {
            None
        } else {
            reg_lookup(accounts, email)
        }),
    decreases accounts.len(),
{
    if i == 0 {
        assert(accounts.remove(0) =~= accounts.drop_first());
        if email == accounts[0].email {
            assert(forall|k: int|
                0 <= k < accounts.drop_first().len() ==> (#[trigger] accounts.drop_first()[
                    k
                ]).email != email);
            lemma_reg_missing(accounts.drop_first(), email);
        }
    } else {
        assert(accounts.remove(i).first() == accounts.first());
        assert(accounts.remove(i).drop_first() =~= accounts.drop_first().remove(i - 1));
        assert(accounts.drop_first()[i - 1] == accounts[i]);
        lemma_reg_remove(accounts.drop_first(), i - 1, email);
        if email == accounts[i].email {
            assert(accounts.first().email != email);
        }
    }
}

/// An account with its connection flag set.
pub open spec fn set_connected(a: AccountView, connected: bool) -> AccountView {
    AccountView { is_connected: connected, ..a }
}

/// An account with its folder list replaced.
pub open spec fn with_folders(a: AccountView, folders: Seq<FolderView>) -> AccountView {
    AccountView { folders: folders, ..a }
}

/// An account with its email list replaced.
pub open spec fn with_emails(a: AccountView, emails: Seq<EmailView>) -> AccountView {
    AccountView { emails: emails, ..a }
}

/// The email list with every entry of the given id removed; all other
/// entries are kept, in order.
pub open spec fn keep_emails(emails: Seq<EmailView>, id: int) -> Seq<EmailView>
    decreases emails.len(),
{
    if emails.len() == 0 {
        Seq::empty()
    } else if emails.last().id == id {
        keep_emails(emails.drop_last(), id)
    } else {
        keep_emails(emails.drop_last(), id).push(emails.last())
    }
}

/// The typed error for an operation attempted without a live session.
pub open spec fn no_session_error() -> ImapErrorView {
    ImapErrorView::Operation("No active session for this account"@)
}

/// The reason text of a failed folder refresh.
pub open spec fn refresh_failed_reason(e: ImapErrorView) -> Seq<char> {
    "Failed to refresh folders: "@ + error_message(e)
}

/// The reason text of a failed email fetch.
pub open spec fn fetch_failed_reason(e: ImapErrorView) -> Seq<char> {
    "Failed to fetch emails: "@ + error_message(e)
}

/// The reason text of a failed credential store: always a credentials-kind
/// message, wrapped.
pub open spec fn store_credentials_failed_reason(detail: Seq<char>) -> Seq<char> {
    "Failed to store credentials: "@ + error_message(ImapErrorView::Credentials(detail))
}

/// The folder built from one listed mailbox.
pub open spec fn folder_of_listing(l: FolderListingView) -> FolderView {
    FolderView { name: l.name, icon: icon_for(l.name), count: l.message_count }
}

/// The folders built from a mailbox listing, in listing order.
pub open spec fn folders_of_listings(ls: Seq<FolderListingView>) -> Seq<FolderView> {
    ls.map_values(|l: FolderListingView| folder_of_listing(l))
}

/// The emails parsed from fetched header sections, in fetch order.
pub open spec fn emails_of_raws(rs: Seq<RawMessageView>) -> Seq<EmailView> {
    rs.map_values(|r: RawMessageView| email_of_header(r.id, r.header))
}

/// The cache table after storing every folder of `folders` (empty-email
/// snapshots) for `account` at time `now`, in order.
pub open spec fn store_all(
    t: Map<Seq<char>, Map<Seq<char>, CachedFolderView>>,
    account: Seq<char>,
    folders: Seq<FolderView>,
    now: int,
) -> Map<Seq<char>, Map<Seq<char>, CachedFolderView>>
    decreases folders.len(),
{
    if folders.len() == 0 {
        t
    } else {
        store_shape(
            store_all(t, account, folders.drop_last(), now),
            account,
            folders.last(),
            Seq::empty(),
            now,
        )
    }
}

proof fn lemma_store_all_isolation(
    t: Map<Seq<char>, Map<Seq<char>, CachedFolderView>>,
    account: Seq<char>,
    folders: Seq<FolderView>,
    now: int,
    b: Seq<char>,
)
    requires
        b != account,
    ensures
        forall|f: Seq<char>|
            #[trigger] lookup2(store_all(t, account, folders, now), b, f) == lookup2(t, b, f),
    decreases folders.len(),
{
    if folders.len() > 0 {
        lemma_store_all_isolation(t, account, folders.drop_last(), now, b);
        let prev = store_all(t, account, folders.drop_last(), now);
        assert forall|f: Seq<char>|
            #[trigger] lookup2(store_all(t, account, folders, now), b, f) == lookup2(
                t,
                b,
                f,
            ) by {
            assert(lookup2(store_all(t, account, folders, now), b, f) == lookup2(prev, b, f));
        }
    }
}

/// The first folder named `name` in `folders`, if any.
pub open spec fn folder_in(folders: Seq<FolderView>, name: Seq<char>) -> Option<FolderView>
    decreases folders.len(),
{
    if folders.len() == 0 {
        None
    } else if folders.first().name == name {
        Some(folders.first())
    } else {
        folder_in(folders.drop_first(), name)
    }
}

proof fn lemma_folder_in_found(folders: Seq<FolderView>, name: Seq<char>, i: int)
    requires
        0 <= i < folders.len(),
        folders[i].name == name,
        forall|k: int| 0 <= k < i ==> (#[trigger] folders[k]).name != name,
    ensures
        folder_in(folders, name) == Some(folders[i]),
    decreases folders.len(),
{
    if i > 0 {
        lemma_folder_in_found(folders.drop_first(), name, i - 1);
    }
}

proof fn lemma_folder_in_none(folders: Seq<FolderView>, name: Seq<char>)
    requires
        forall|k: int| 0 <= k < folders.len() ==> (#[trigger] folders[k]).name != name,
    ensures
        folder_in(folders, name) is None,
    decreases folders.len(),
{
    if folders.len() > 0 {
        lemma_folder_in_none(folders.drop_first(), name);
    }
}

/// Mathematical view of the [`AccountManager`].
#[verifier::ext_equal]
pub ghost struct ManagerView {
    pub accounts: Seq<AccountView>,
    pub cache: crate::cache::CacheView,
    pub creds: crate::credentials::CredentialsView,
    pub sessions: Seq<Seq<char>>,
}

/// Per-account isolation: between two orchestrator states, every account
/// other than `account` reads identically from the registry, the cache, the
/// live-session set, and the credential cache.
pub open spec fn isolated_except(o: ManagerView, n: ManagerView, account: Seq<char>) -> bool {
    &&& forall|b: Seq<char>|
        b != account ==> #[trigger] reg_lookup(n.accounts, b) == reg_lookup(o.accounts, b)
    &&& forall|b: Seq<char>, f: Seq<char>|
        b != account ==> #[trigger] lookup2(table_of(n.cache.slots), b, f) == lookup2(
            table_of(o.cache.slots),
            b,
            f,
        )
    &&& forall|b: Seq<char>| b != account ==> (in_sessions(n.sessions, b) <==> in_sessions(o.sessions, b))
    &&& forall|b: Seq<char>|
        b != account ==> #[trigger] cred_lookup(n.creds.cache, b) == cred_lookup(o.creds.cache, b)
}

/// Clones a folder list, preserving views.
fn clone_folders(src: &Vec<Folder>) -> (r: Vec<Folder>)
    ensures
        r@.map_values(|f: Folder| f@) == src@.map_values(|f: Folder| f@),
{
    let n = src.len();
    let mut r: Vec<Folder> = Vec::new();
    let mut i: usize = 0;
    while i < n
        invariant
            i <= n,
            n == src@.len(),
            r@.len() == i,
            forall|k: int| 0 <= k < i ==> (#[trigger] r@[k])@ == src@[k]@,
        decreases n - i,
    {
        r.push(src[i].clone());
        i = i + 1;
    }
    proof {
        assert(r@.map_values(|f: Folder| f@) =~= src@.map_values(|f: Folder| f@));
    }
    r
}

/// Clones an email list, preserving views.
fn clone_emails(src: &Vec<Email>) -> (r: Vec<Email>)
    ensures
        r@.map_values(|e: Email| e@) == src@.map_values(|e: Email| e@),
{
    let n = src.len();
    let mut r: Vec<Email> = Vec::new();
    let mut i: usize = 0;
    while i < n
        invariant
            i <= n,
            n == src@.len(),
            r@.len() == i,
            forall|k: int| 0 <= k < i ==> (#[trigger] r@[k])@ == src@[k]@,
        decreases n - i,
    {
        r.push(src[i].clone());
        i = i + 1;
    }
    proof {
        assert(r@.map_values(|e: Email| e@) =~= src@.map_values(|e: Email| e@));
    }
    r
}

/// The emails of `src` whose id is not `email_id`, in order, cloned.
fn filtered_emails(src: &Vec<Email>, email_id: usize) -> (r: Vec<Email>)
    ensures
        r@.map_values(|e: Email| e@) == keep_emails(
            src@.map_values(|e: Email| e@),
            email_id as int,
        ),
{
    let ghost all = src@.map_values(|e: Email| e@);
    let n = src.len();
    let mut r: Vec<Email> = Vec::new();
    let mut i: usize = 0;
    while i < n
        invariant
            i <= n,
            n == src@.len(),
            all == src@.map_values(|e: Email| e@),
            all.len() == n,
            forall|k: int| 0 <= k < n ==> all[k] == (#[trigger] src@[k])@,
            r@.map_values(|e: Email| e@) == keep_emails(all.take(i as int), email_id as int),
        decreases n - i,
    {
        let ghost r_views = r@.map_values(|e: Email| e@);
        proof {
            assert(all.take(i + 1).drop_last() =~= all.take(i as int));
            assert(all.take(i + 1).last() == all[i as int]);
        }
        if src[i].id != email_id {
            r.push(src[i].clone());
            proof {
                assert(r@.map_values(|e: Email| e@) =~= r_views.push(all[i as int]));
            }
        }
        i = i + 1;
    }
    proof {
        assert(all.take(n as int) =~= all);
    }
    r
}

/// The orchestrator's state: the account registry (in insertion order), the
/// result cache, the secret store façade, and the set of accounts with a
/// live session.
pub struct AccountManager {
    accounts: Vec<Account>,
    email_cache: EmailCache,
    credentials: CredentialsManager,
    sessions: Vec<String>,
}

impl View for AccountManager {
    type V = ManagerView;

    closed spec fn view(&self) -> ManagerView {
        ManagerView {
            accounts: self.accounts@.map_values(|a: Account| a@),
            cache: self.email_cache@,
            creds: self.credentials@,
            sessions: self.sessions@.map_values(|s: String| s@),
        }
    }
}

impl AccountManager {
    /// Registry, cache, credential cache, and session keys are all unique:
    /// the internal shape every operation preserves.
    pub open spec fn wf(&self) -> bool {
        &&& reg_wf(self@.accounts)
        &&& crate::cache::slots_wf(self@.cache.slots)
        &&& crate::credentials::creds_wf(self@.creds.cache)
        &&& sessions_wf(self@.sessions)
    }

    /// The cache content as a map of maps.
    pub open spec fn table(&self) -> Map<Seq<char>, Map<Seq<char>, CachedFolderView>> {
        table_of(self@.cache.slots)
    }

    /// The cache freshness bound, in milliseconds.
    pub open spec fn cache_duration(&self) -> int {
        self@.cache.duration
    }

    /// A fresh orchestrator: no accounts, an empty cache with the default
    /// freshness bound, no cached credentials, no live sessions.
    pub fn new() -> (r: Self)
        ensures
            r.wf(),
            r@.accounts == Seq::<AccountView>::empty(),
            r.table() == Map::<Seq<char>, Map<Seq<char>, CachedFolderView>>::empty(),
            r.cache_duration() == 300000,
            r@.creds.cache == Seq::<CredPairView>::empty(),
            r@.sessions == Seq::<Seq<char>>::empty(),
    {
        let r = AccountManager {
            accounts: Vec::new(),
            email_cache: EmailCache::new(),
            credentials: CredentialsManager::new(),
            sessions: Vec::new(),
        };
        proof {
            assert(r@.accounts =~= Seq::<AccountView>::empty());
            assert(r@.sessions =~= Seq::<Seq<char>>::empty());
        }
        r
    }

    /// Index of the registry entry for `email`, if any.
    fn find_account(&self, email: &str) -> (r: Option<usize>)
        ensures
            match r {
                Some(i) => i < self@.accounts.len() && self@.accounts[i as int].email == email@,
                None => forall|i: int|
                    0 <= i < self@.accounts.len() ==> (#[trigger] self@.accounts[i]).email
                        != email@,
            },
    {
        let n = self.accounts.len();
        let mut i: usize = 0;
        while i < n
            invariant
                i <= n,
                n == self.accounts@.len(),
                self@.accounts.len() == n,
                forall|k: int| 0 <= k < n ==> self@.accounts[k] == (#[trigger] self.accounts@[k])@,
                forall|k: int| 0 <= k < i ==> (#[trigger] self@.accounts[k]).email != email@,
            decreases n - i,
        {
            if str_eq(self.accounts[i].email.as_str(), email) {
                return Some(i);
            }
            i = i + 1;
        }
        None
    }

    /// Index of `account` in the live-session set, if present.
    fn find_session(&self, account: &str) -> (r: Option<usize>)
        ensures
            match r {
                Some(i) => i < self@.sessions.len() && self@.sessions[i as int] == account@,
                None => forall|i: int|
                    0 <= i < self@.sessions.len() ==> #[trigger] self@.sessions[i] != account@,
            },
            r is Some <==> in_sessions(self@.sessions, account@),
    {
        let n = self.sessions.len();
        let mut i: usize = 0;
        while i < n
            invariant
                i <= n,
                n == self.sessions@.len(),
                self@.sessions.len() == n,
                forall|k: int| 0 <= k < n ==> self@.sessions[k] == (#[trigger] self.sessions@[k])@,
                forall|k: int| 0 <= k < i ==> #[trigger] self@.sessions[k] != account@,
            decreases n - i,
        {
            if str_eq(self.sessions[i].as_str(), account) {
                return Some(i);
            }
            i = i + 1;
        }
        None
    }

    /// Adds `account` to the registry, replacing any entry with the same
    /// email. Cache, credentials, and sessions are untouched.
    pub fn add_account(&mut self, account: Account)
        requires
            old(self).wf(),
        ensures
            final(self).wf(),
            reg_lookup(final(self)@.accounts, account@.email) == Some(account@),
            forall|e: Seq<char>|
                e != account@.email ==> #[trigger] reg_lookup(final(self)@.accounts, e)
                    == reg_lookup(old(self)@.accounts, e),
            reg_lookup(old(self)@.accounts, account@.email) is None ==> final(self)@.accounts
                == old(self)@.accounts.push(account@),
            final(self)@.cache == old(self)@.cache,
            final(self)@.creds == old(self)@.creds,
            final(self)@.sessions == old(self)@.sessions,
    {
        let ghost old_accounts = self@.accounts;
        let ghost v = account@;
        match self.find_account(account.email.as_str()) {
            Some(i) => {
                proof {
                    lemma_reg_index(old_accounts, i as int);
                }
                let slot = &mut self.accounts[i];
                *slot = account;
                proof {
                    assert(self@.accounts =~= old_accounts.update(i as int, v));
                    assert forall|e: Seq<char>| true implies #[trigger] reg_lookup(
                        self@.accounts,
                        e,
                    ) == (if e == v.email {
                        Some(v)
                    } else {
                        reg_lookup(old_accounts, e)
                    }) by {
                        lemma_reg_update(old_accounts, i as int, v, e);
                    }
                    assert(reg_wf(self@.accounts));
                }
            },
            None => {
                self.accounts.push(account);
                proof {
                    assert(self@.accounts =~= old_accounts.push(v));
                    assert forall|e: Seq<char>| true implies #[trigger] reg_lookup(
                        self@.accounts,
                        e,
                    ) == (if e == v.email {
                        Some(v)
                    } else {
                        reg_lookup(old_accounts, e)
                    }) by {
                        lemma_reg_push(old_accounts, v, e);
                    }
                    assert(reg_wf(self@.accounts)) by {
                        assert(forall|k: int|
                            0 <= k < old_accounts.len() ==> #[trigger] self@.accounts[k]
                                == old_accounts[k]);
                    }
                }
            },
        }
    }

    /// The registry entry for `email`.
    pub fn get_account(&self, email: &str) -> (r: Option<&Account>)
        requires
            self.wf(),
        ensures
            match r {
                Some(a) => reg_lookup(self@.accounts, email@) == Some(a@),
                None => reg_lookup(self@.accounts, email@) is None,
            },
    {
        match self.find_account(email) {
            Some(i) => {
                proof {
                    lemma_reg_index(self@.accounts, i as int);
                }
                Some(&self.accounts[i])
            },
            None => {
                proof {
                    lemma_reg_missing(self@.accounts, email@);
                }
                None
            },
        }
    }

    /// All configured accounts, in insertion order.
    pub fn get_accounts(&self) -> (r: Vec<&Account>)
        ensures
            r@.len() == self@.accounts.len(),
            forall|i: int| 0 <= i < r@.len() ==> (#[trigger] r@[i])@ == self@.accounts[i],
    {
        let n = self.accounts.len();
        let mut r: Vec<&Account> = Vec::new();
        let mut i: usize = 0;
        while i < n
            invariant
                i <= n,
                n == self.accounts@.len(),
                self@.accounts.len() == n,
                r@.len() == i,
                forall|k: int| 0 <= k < n ==> self@.accounts[k] == (#[trigger] self.accounts@[k])@,
                forall|k: int| 0 <= k < i ==> (#[trigger] r@[k])@ == self@.accounts[k],
            decreases n - i,
        {
            r.push(&self.accounts[i]);
            i = i + 1;
        }
        r
    }

    /// Removes the account and everything owned on its behalf: its session
    /// entry and its whole cache partition. Returns the removed account.
    pub fn remove_account(&mut self, email: &str) -> (r: Option<Account>)
        requires
            old(self).wf(),
        ensures
            final(self).wf(),
            match r {
                Some(a) => reg_lookup(old(self)@.accounts, email@) == Some(a@),
                None => reg_lookup(old(self)@.accounts, email@) is None,
            },
            reg_lookup(final(self)@.accounts, email@) is None,
            forall|e: Seq<char>|
                e != email@ ==> #[trigger] reg_lookup(final(self)@.accounts, e) == reg_lookup(
                    old(self)@.accounts,
                    e,
                ),
            final(self).table() == old(self).table().remove(email@),
            final(self).cache_duration() == old(self).cache_duration(),
            !in_sessions(final(self)@.sessions, email@),
            forall|e: Seq<char>|
                e != email@ ==> (in_sessions(final(self)@.sessions, e) <==> in_sessions(
                    old(self)@.sessions,
                    e,
                )),
            final(self)@.creds == old(self)@.creds,
    {
        self.drop_session(email);
        self.email_cache.clear_account(email);
        let ghost accounts_now = self@.accounts;
        match self.find_account(email) {
            Some(i) => {
                proof {
                    lemma_reg_index(accounts_now, i as int);
                }
                let removed = self.accounts.remove(i);
                proof {
                    assert(self@.accounts =~= accounts_now.remove(i as int));
                    assert forall|e: Seq<char>| true implies #[trigger] reg_lookup(
                        self@.accounts,
                        e,
                    ) == (if e == email@ {
                        None
                    } else {
                        reg_lookup(accounts_now, e)
                    }) by {
                        lemma_reg_remove(accounts_now, i as int, e);
                    }
                    assert(reg_wf(self@.accounts)) by {
                        assert(forall|k: int|
                            0 <= k < self@.accounts.len() ==> #[trigger] self@.accounts[k] == (
                            if k < i { accounts_now[k] } else { accounts_now[k + 1] }));
                    }
                }
                Some(removed)
            },
            None => {
                proof {
                    lemma_reg_missing(accounts_now, email@);
                }
                None
            },
        }
    }

    /// Removes `account` from the live-session set; idempotent.
    fn drop_session(&mut self, account: &str)
        requires
            old(self).wf(),
        ensures
            final(self).wf(),
            !in_sessions(final(self)@.sessions, account@),
            forall|e: Seq<char>|
                e != account@ ==> (in_sessions(final(self)@.sessions, e) <==> in_sessions(
                    old(self)@.sessions,
                    e,
                )),
            final(self)@.accounts == old(self)@.accounts,
            final(self)@.cache == old(self)@.cache,
            final(self)@.creds == old(self)@.creds,
    {
        let ghost old_sessions = self@.sessions;
        match self.find_session(account) {
            Some(i) => {
                self.sessions.remove(i);
                proof {
                    assert(self@.sessions =~= old_sessions.remove(i as int));
                    assert(sessions_wf(self@.sessions)) by {
                        assert(forall|k: int|
                            0 <= k < self@.sessions.len() ==> #[trigger] self@.sessions[k] == (
                            if k < i { old_sessions[k] } else { old_sessions[k + 1] }));
                    }
                    assert(!in_sessions(self@.sessions, account@)) by {
                        assert(forall|k: int|
                            0 <= k < self@.sessions.len() ==> #[trigger] self@.sessions[k]
                                != account@);
                    }
                    assert forall|e: Seq<char>| e != account@ implies (in_sessions(
                        self@.sessions,
                        e,
                    ) <==> in_sessions(old_sessions, e)) by {
                        if in_sessions(old_sessions, e) {
                            let k = choose|k: int|
                                0 <= k < old_sessions.len() && old_sessions[k] == e;
                            if k < i {
                                assert(self@.sessions[k] == e);
                            } else {
                                assert(self@.sessions[k - 1] == e);
                            }
                        }
                        if in_sessions(self@.sessions, e) {
                            let k = choose|k: int|
                                0 <= k < self@.sessions.len() && self@.sessions[k] == e;
                            if k < i {
                                assert(old_sessions[k] == e);
                            } else {
                                assert(old_sessions[k + 1] == e);
                            }
                        }
                    }
                }
            },
            None => {},
        }
    }

    /// Adds `account` to the live-session set; idempotent.
    fn add_session(&mut self, account: &str)
        requires
            old(self).wf(),
        ensures
            final(self).wf(),
            in_sessions(final(self)@.sessions, account@),
            forall|e: Seq<char>|
                e != account@ ==> (in_sessions(final(self)@.sessions, e) <==> in_sessions(
                    old(self)@.sessions,
                    e,
                )),
            final(self)@.accounts == old(self)@.accounts,
            final(self)@.cache == old(self)@.cache,
            final(self)@.creds == old(self)@.creds,
    {
        let ghost old_sessions = self@.sessions;
        match self.find_session(account) {
            Some(_) => {},
            None => {
                self.sessions.push(account.to_owned());
                proof {
                    assert(self@.sessions =~= old_sessions.push(account@));
                    assert(self@.sessions[self@.sessions.len() - 1] == account@);
                    assert(sessions_wf(self@.sessions)) by {
                        assert(forall|k: int|
                            0 <= k < old_sessions.len() ==> #[trigger] self@.sessions[k]
                                == old_sessions[k]);
                    }
                    assert forall|e: Seq<char>| e != account@ implies (in_sessions(
                        self@.sessions,
                        e,
                    ) <==> in_sessions(old_sessions, e)) by {
                        if in_sessions(old_sessions, e) {
                            let k = choose|k: int|
                                0 <= k < old_sessions.len() && old_sessions[k] == e;
                            assert(self@.sessions[k] == e);
                        }
                        if in_sessions(self@.sessions, e) {
                            let k = choose|k: int|
                                0 <= k < self@.sessions.len() && self@.sessions[k] == e;
                            assert(k < old_sessions.len());
                            assert(old_sessions[k] == e);
                        }
                    }
                }
            },
        }
    }

    /// Sets the connection flag of the account at index `i`.
    fn set_flag_at(&mut self, i: usize, connected: bool)
        requires
            old(self).wf(),
            i < old(self)@.accounts.len(),
        ensures
            final(self).wf(),
            final(self)@.accounts == old(self)@.accounts.update(
                i as int,
                set_connected(old(self)@.accounts[i as int], connected),
            ),
            final(self)@.cache == old(self)@.cache,
            final(self)@.creds == old(self)@.creds,
            final(self)@.sessions == old(self)@.sessions,
    {
        let ghost old_accounts = self@.accounts;
        let slot = &mut self.accounts[i];
        slot.is_connected = connected;
        proof {
            assert(self@.accounts =~= old_accounts.update(
                i as int,
                set_connected(old_accounts[i as int], connected),
            ));
            assert(reg_wf(self@.accounts));
        }
    }

    /// Replaces the folder list of the account at index `i`.
    fn set_folders_at(&mut self, i: usize, folders: Vec<Folder>)
        requires
            old(self).wf(),
            i < old(self)@.accounts.len(),
        ensures
            final(self).wf(),
            final(self)@.accounts == old(self)@.accounts.update(
                i as int,
                with_folders(
                    old(self)@.accounts[i as int],
                    folders@.map_values(|f: Folder| f@),
                ),
            ),
            final(self)@.cache == old(self)@.cache,
            final(self)@.creds == old(self)@.creds,
            final(self)@.sessions == old(self)@.sessions,
    {
        let ghost old_accounts = self@.accounts;
        let ghost fv = folders@.map_values(|f: Folder| f@);
        let slot = &mut self.accounts[i];
        slot.folders = folders;
        proof {
            assert(self@.accounts =~= old_accounts.update(
                i as int,
                with_folders(old_accounts[i as int], fv),
            ));
            assert(reg_wf(self@.accounts));
        }
    }

    /// Replaces the email list of the account at index `i`.
    fn set_emails_at(&mut self, i: usize, emails: Vec<Email>)
        requires
            old(self).wf(),
            i < old(self)@.accounts.len(),
        ensures
            final(self).wf(),
            final(self)@.accounts == old(self)@.accounts.update(
                i as int,
                with_emails(old(self)@.accounts[i as int], emails@.map_values(|e: Email| e@)),
            ),
            final(self)@.cache == old(self)@.cache,
            final(self)@.creds == old(self)@.creds,
            final(self)@.sessions == old(self)@.sessions,
    {
        let ghost old_accounts = self@.accounts;
        let ghost ev = emails@.map_values(|e: Email| e@);
        let slot = &mut self.accounts[i];
        slot.emails = emails;
        proof {
            assert(self@.accounts =~= old_accounts.update(
                i as int,
                with_emails(old_accounts[i as int], ev),
            ));
            assert(reg_wf(self@.accounts));
        }
    }

    /// Processes one submitted command as far as it can go without the
    /// network: it reads the cache, resolves credentials, and updates local
    /// state, returning the events to deliver and at most one network
    /// request. Operations on one account never touch another account's
    /// state.
    ///
    /// A deliberate choice, not an accident: a `Connect` or `DeleteEmail`
    /// naming an account that is not registered does nothing and emits no
    /// event, and a successful `StoreCredentials` is equally silent — only
    /// failures and completed work produce events. `StoreCredentials` is the
    /// one command that needs no registry entry, since the secret store is
    /// keyed by the email alone.
    pub fn handle_command(&mut self, command: AccountCommand, now: u64) -> (r: CommandOutcome)
        requires
            old(self).wf(),
        ensures
            final(self).wf(),
            final(self).cache_duration() == old(self).cache_duration(),
            isolated_except(old(self)@, final(self)@, command_account(command@)),
            match command@ {
                AccountCommandView::Connect(a) => match reg_lookup(old(self)@.accounts, a) {
                    None => final(self)@ == old(self)@ && events_of(r).len() == 0 && request_of(r)
                        is None,
                    Some(acc) => if acc.server.len() == 0 {
                        &&& final(self)@ == old(self)@
                        &&& events_of(r) == seq![
                            AccountEventView::ConnectionFailed(a, "Server not configured"@),
                        ]
                        &&& request_of(r) is None
                    } else {
                        &&& final(self)@.accounts == old(self)@.accounts
                        &&& final(self)@.cache == old(self)@.cache
                        &&& final(self)@.sessions == old(self)@.sessions
                        // Success is owed where no outside call decides: a
                        // password already in the in-process credential cache
                        // resolves without the keyring, so the connection
                        // request must be issued with exactly that password.
                        &&& (cred_lookup(old(self)@.creds.cache, a) matches Some(pw)
                            ==> request_of(r) == Some(
                            SessionRequestView::Connect {
                                account: a,
                                server: acc.server,
                                port: acc.port,
                                use_tls: acc.use_tls,
                                password: pw,
                            },
                        ))
                        &&& match request_of(r) {
                            Some(req) => {
                                &&& req matches SessionRequestView::Connect {
                                    account,
                                    server,
                                    port,
                                    use_tls,
                                    password,
                                } && account == a && server == acc.server && port == acc.port
                                    && use_tls == acc.use_tls && cred_lookup(
                                    final(self)@.creds.cache,
                                    a,
                                ) == Some(password)
                                &&& events_of(r).len() == 0
                            },
                            None => {
                                &&& events_of(r).len() == 1
                                &&& events_of(r)[0] matches AccountEventView::ConnectionFailed(
                                    x,
                                    why,
                                ) && x == a && (exists|d: Seq<char>|
                                    why == error_message(ImapErrorView::Credentials(d)))
                                &&& final(self)@.creds == old(self)@.creds
                            },
                        }
                    },
                },
                AccountCommandView::Disconnect(a) => {
                    &&& events_of(r) == seq![AccountEventView::Disconnected(a)]
                    &&& request_of(r) is None
                    &&& !in_sessions(final(self)@.sessions, a)
                    &&& match reg_lookup(old(self)@.accounts, a) {
                        Some(acc) => reg_lookup(final(self)@.accounts, a) == Some(
                            set_connected(acc, false),
                        ),
                        None => reg_lookup(final(self)@.accounts, a) is None,
                    }
                    &&& final(self)@.cache == old(self)@.cache
                    &&& final(self)@.creds == old(self)@.creds
                },
                AccountCommandView::RefreshFolders(a) => {
                    &&& final(self)@ == old(self)@
                    &&& if in_sessions(old(self)@.sessions, a) {
                        events_of(r).len() == 0 && request_of(r) == Some(
                            SessionRequestView::ListFolders { account: a },
                        )
                    } else {
                        events_of(r) == seq![
                            AccountEventView::ConnectionFailed(
                                a,
                                refresh_failed_reason(no_session_error()),
                            ),
                        ] && request_of(r) is None
                    }
                },
                AccountCommandView::FetchEmails { account_email: a, folder: f, limit: l } => {
                    &&& final(self)@ == old(self)@
                    &&& match fresh_lookup(
                        old(self).table(),
                        a,
                        f,
                        now as int,
                        old(self).cache_duration(),
                    ) {
                        Some(c) => events_of(r) == seq![
                            AccountEventView::EmailsUpdated(
                                a,
                                f,
                                c.emails.map_values(
                                    |ce: crate::cache::CachedEmailView| ce.email,
                                ),
                            ),
                        ] && request_of(r) is None,
                        None => if in_sessions(old(self)@.sessions, a) {
                            events_of(r).len() == 0 && request_of(r) == Some(
                                SessionRequestView::FetchHeaders { account: a, folder: f, limit: l },
                            )
                        } else {
                            events_of(r) == seq![
                                AccountEventView::ConnectionFailed(
                                    a,
                                    fetch_failed_reason(no_session_error()),
                                ),
                            ] && request_of(r) is None
                        },
                    }
                },
                AccountCommandView::StoreCredentials { email: a, password: pw } => {
                    &&& final(self)@.accounts == old(self)@.accounts
                    &&& final(self)@.cache == old(self)@.cache
                    &&& final(self)@.sessions == old(self)@.sessions
                    &&& request_of(r) is None
                    &&& if events_of(r).len() == 0 {
                        cred_lookup(final(self)@.creds.cache, a) == Some(pw)
                    } else {
                        &&& events_of(r).len() == 1
                        &&& events_of(r)[0] matches AccountEventView::ConnectionFailed(x, why)
                            && x == a && (exists|d: Seq<char>|
                            why == store_credentials_failed_reason(d))
                        &&& final(self)@.creds == old(self)@.creds
                    }
                },
                AccountCommandView::DeleteEmail { account_email: a, email_id: id } => {
                    &&& request_of(r) is None
                    &&& final(self)@.cache == old(self)@.cache
                    &&& final(self)@.creds == old(self)@.creds
                    &&& final(self)@.sessions == old(self)@.sessions
                    &&& match reg_lookup(old(self)@.accounts, a) {
                        Some(acc) => reg_lookup(final(self)@.accounts, a) == Some(
                            with_emails(acc, keep_emails(acc.emails, id)),
                        ) && events_of(r) == seq![AccountEventView::EmailDeleted(a, id)],
                        None => final(self)@ == old(self)@ && events_of(r).len() == 0,
                    }
                },
            },
    {
        let mut events: Vec<AccountEvent> = Vec::new();
        let mut request: Option<SessionRequest> = None;
        match command {
            AccountCommand::Connect(email) => {
                match self.find_account(email.as_str()) {
                    None => {
                        proof {
                            lemma_reg_missing(self@.accounts, email@);
                        }
                    },
                    Some(i) => {
                        proof {
                            lemma_reg_index(self@.accounts, i as int);
                        }
                        if self.accounts[i].server.as_str().is_empty() {
                            events.push(
                                AccountEvent::ConnectionFailed(
                                    email,
                                    "Server not configured".to_owned(),
                                ),
                            );
                        } else {
                            let server = self.accounts[i].server.clone();
                            let port = self.accounts[i].port;
                            let use_tls = self.accounts[i].use_tls;
                            match self.credentials.get_password(email.as_str()) {
                                Ok(password) => {
                                    request = Some(
                                        SessionRequest::Connect {
                                            account: email,
                                            server,
                                            port,
                                            use_tls,
                                            password,
                                        },
                                    );
                                },
                                Err(e) => {
                                    let detail = keyring_error_text(&e);
                                    let ghost dv = detail@;
                                    let ie = ImapError::Credentials(detail);
                                    let message = ie.message();
                                    proof {
                                        assert(message@ == error_message(
                                            ImapErrorView::Credentials(dv),
                                        ));
                                    }
                                    events.push(
                                        AccountEvent::ConnectionFailed(email, message),
                                    );
                                },
                            }
                        }
                    },
                }
            },
            AccountCommand::Disconnect(email) => {
                self.drop_session(email.as_str());
                let ghost accounts_now = self@.accounts;
                match self.find_account(email.as_str()) {
                    Some(i) => {
                        proof {
                            lemma_reg_index(accounts_now, i as int);
                        }
                        self.set_flag_at(i, false);
                        proof {
                            assert forall|e: Seq<char>| true implies #[trigger] reg_lookup(
                                self@.accounts,
                                e,
                            ) == (if e == email@ {
                                Some(set_connected(accounts_now[i as int], false))
                            } else {
                                reg_lookup(accounts_now, e)
                            }) by {
                                lemma_reg_update(
                                    accounts_now,
                                    i as int,
                                    set_connected(accounts_now[i as int], false),
                                    e,
                                );
                            }
                        }
                    },
                    None => {
                        proof {
                            lemma_reg_missing(accounts_now, email@);
                        }
                    },
                }
                events.push(AccountEvent::Disconnected(email));
            },
            AccountCommand::RefreshFolders(email) => {
                match self.find_session(email.as_str()) {
                    Some(_) => {
                        request = Some(SessionRequest::ListFolders { account: email });
                    },
                    None => {
                        let ie = ImapError::Operation(
                            "No active session for this account".to_owned(),
                        );
                        let mut reason = "Failed to refresh folders: ".to_owned();
                        reason.append(ie.message().as_str());
                        proof {
                            assert(reason@ =~= refresh_failed_reason(no_session_error()));
                        }
                        events.push(AccountEvent::ConnectionFailed(email, reason));
                    },
                }
            },
            AccountCommand::FetchEmails { account_email, folder, limit } => {
                match self.email_cache.get_emails(account_email.as_str(), folder.as_str(), now) {
                    Some(cached) => {
                        events.push(AccountEvent::EmailsUpdated(account_email, folder, cached));
                    },
                    None => {
                        match self.find_session(account_email.as_str()) {
                            Some(_) => {
                                request = Some(
                                    SessionRequest::FetchHeaders {
                                        account: account_email,
                                        folder,
                                        limit,
                                    },
                                );
                            },
                            None => {
                                let ie = ImapError::Operation(
                                    "No active session for this account".to_owned(),
                                );
                                let mut reason = "Failed to fetch emails: ".to_owned();
                                reason.append(ie.message().as_str());
                                proof {
                                    assert(reason@ =~= fetch_failed_reason(no_session_error()));
                                }
                                events.push(
                                    AccountEvent::ConnectionFailed(account_email, reason),
                                );
                            },
                        }
                    },
                }
            },
            AccountCommand::StoreCredentials { email, password } => {
                match self.credentials.store_password(email.as_str(), password.as_str()) {
                    Ok(_) => {},
                    Err(e) => {
                        let detail = keyring_error_text(&e);
                        let ghost dv = detail@;
                        let ie = ImapError::Credentials(detail);
                        let mut reason = "Failed to store credentials: ".to_owned();
                        reason.append(ie.message().as_str());
                        proof {
                            assert(reason@ == store_credentials_failed_reason(dv));
                        }
                        events.push(AccountEvent::ConnectionFailed(email, reason));
                    },
                }
            },
            AccountCommand::DeleteEmail { account_email, email_id } => {
                let ghost accounts_now = self@.accounts;
                match self.find_account(account_email.as_str()) {
                    Some(i) => {
                        proof {
                            lemma_reg_index(accounts_now, i as int);
                        }
                        self.remove_email_from_account(i, email_id);
                        proof {
                            let updated = with_emails(
                                accounts_now[i as int],
                                keep_emails(accounts_now[i as int].emails, email_id as int),
                            );
                            assert forall|e: Seq<char>| true implies #[trigger] reg_lookup(
                                self@.accounts,
                                e,
                            ) == (if e == account_email@ {
                                Some(updated)
                            } else {
                                reg_lookup(accounts_now, e)
                            }) by {
                                lemma_reg_update(accounts_now, i as int, updated, e);
                            }
                        }
                        events.push(AccountEvent::EmailDeleted(account_email, email_id));
                    },
                    None => {
                        proof {
                            lemma_reg_missing(accounts_now, account_email@);
                        }
                    },
                }
            },
        }
        let outcome = CommandOutcome { events, request };
        outcome
    }

    /// Removes every email with id `email_id` from the account at index `i`.
    fn remove_email_from_account(&mut self, i: usize, email_id: usize)
        requires
            old(self).wf(),
            i < old(self)@.accounts.len(),
        ensures
            final(self).wf(),
            final(self)@.accounts == old(self)@.accounts.update(
                i as int,
                with_emails(
                    old(self)@.accounts[i as int],
                    keep_emails(old(self)@.accounts[i as int].emails, email_id as int),
                ),
            ),
            final(self)@.cache == old(self)@.cache,
            final(self)@.creds == old(self)@.creds,
            final(self)@.sessions == old(self)@.sessions,
    {
        let kept = filtered_emails(&self.accounts[i].emails, email_id);
        proof {
            assert(self.accounts@[i as int].emails@.map_values(|e: Email| e@)
                == self@.accounts[i as int].emails);
        }
        self.set_emails_at(i, kept);
    }

    /// Completes a connect request with the session layer's outcome. On
    /// success the session is registered, the account's connection flag is
    /// set, a `Connected` event is emitted, and a folder refresh is
    /// automatically chained as the next request — one connect command fans
    /// out to two events. On failure nothing changes and a single
    /// `ConnectionFailed` event carries the rendered reason.
    pub fn finish_connect(&mut self, account: &str, result: Result<(), ImapError>) -> (r:
        CommandOutcome)
        requires
            old(self).wf(),
        ensures
            final(self).wf(),
            final(self).cache_duration() == old(self).cache_duration(),
            isolated_except(old(self)@, final(self)@, account@),
            final(self)@.cache == old(self)@.cache,
            final(self)@.creds == old(self)@.creds,
            match result {
                Ok(_) => {
                    &&& in_sessions(final(self)@.sessions, account@)
                    &&& match reg_lookup(old(self)@.accounts, account@) {
                        Some(acc) => reg_lookup(final(self)@.accounts, account@) == Some(
                            set_connected(acc, true),
                        ),
                        None => reg_lookup(final(self)@.accounts, account@) is None,
                    }
                    &&& events_of(r) == seq![AccountEventView::Connected(account@)]
                    &&& request_of(r) == Some(
                        SessionRequestView::ListFolders { account: account@ },
                    )
                },
                Err(e) => {
                    &&& final(self)@ == old(self)@
                    &&& events_of(r) == seq![
                        AccountEventView::ConnectionFailed(account@, error_message(e@)),
                    ]
                    &&& request_of(r) is None
                },
            },
    {
        let mut events: Vec<AccountEvent> = Vec::new();
        let mut request: Option<SessionRequest> = None;
        match result {
            Ok(_) => {
                self.add_session(account);
                let ghost accounts_now = self@.accounts;
                match self.find_account(account) {
                    Some(i) => {
                        proof {
                            lemma_reg_index(accounts_now, i as int);
                        }
                        self.set_flag_at(i, true);
                        proof {
                            assert forall|e: Seq<char>| true implies #[trigger] reg_lookup(
                                self@.accounts,
                                e,
                            ) == (if e == account@ {
                                Some(set_connected(accounts_now[i as int], true))
                            } else {
                                reg_lookup(accounts_now, e)
                            }) by {
                                lemma_reg_update(
                                    accounts_now,
                                    i as int,
                                    set_connected(accounts_now[i as int], true),
                                    e,
                                );
                            }
                        }
                    },
                    None => {
                        proof {
                            lemma_reg_missing(accounts_now, account@);
                        }
                    },
                }
                events.push(AccountEvent::Connected(account.to_owned()));
                request = Some(SessionRequest::ListFolders { account: account.to_owned() });
            },
            Err(e) => {
                events.push(AccountEvent::ConnectionFailed(account.to_owned(), e.message()));
            },
        }
        CommandOutcome { events, request }
    }

    /// Completes a folder-list request. On success the listed folders (with
    /// their icons assigned by the well-known-name table) replace the
    /// account's folder list, each folder is stored in the cache as an
    /// empty-email snapshot to be filled by subsequent fetches, and a single
    /// `FoldersUpdated` event carries them. On failure nothing changes and a
    /// `ConnectionFailed` event carries the wrapped reason.
    pub fn finish_list_folders(
        &mut self,
        account: &str,
        result: Result<Vec<FolderListing>, ImapError>,
        now: u64,
    ) -> (r: CommandOutcome)
        requires
            old(self).wf(),
        ensures
            final(self).wf(),
            final(self).cache_duration() == old(self).cache_duration(),
            isolated_except(old(self)@, final(self)@, account@),
            final(self)@.creds == old(self)@.creds,
            final(self)@.sessions == old(self)@.sessions,
            match result {
                Ok(listings) => {
                    let fvs = folders_of_listings(
                        listings@.map_values(|l: FolderListing| l@),
                    );
                    &&& match reg_lookup(old(self)@.accounts, account@) {
                        Some(acc) => reg_lookup(final(self)@.accounts, account@) == Some(
                            with_folders(acc, fvs),
                        ),
                        None => reg_lookup(final(self)@.accounts, account@) is None,
                    }
                    &&& final(self).table() == store_all(
                        old(self).table(),
                        account@,
                        fvs,
                        now as int,
                    )
                    &&& events_of(r) == seq![AccountEventView::FoldersUpdated(account@, fvs)]
                    &&& request_of(r) is None
                },
                Err(e) => {
                    &&& final(self)@ == old(self)@
                    &&& events_of(r) == seq![
                        AccountEventView::ConnectionFailed(account@, refresh_failed_reason(e@)),
                    ]
                    &&& request_of(r) is None
                },
            },
    {
        let mut events: Vec<AccountEvent> = Vec::new();
        match result {
            Ok(listings) => {
                let ghost lviews = listings@.map_values(|l: FolderListing| l@);
                let ghost fvs = folders_of_listings(lviews);
                // Build the folder snapshots, icons assigned by name.
                let n = listings.len();
                let mut folders: Vec<Folder> = Vec::new();
                let mut i: usize = 0;
                while i < n
                    invariant
                        i <= n,
                        n == listings@.len(),
                        lviews == listings@.map_values(|l: FolderListing| l@),
                        lviews.len() == n,
                        forall|k: int| 0 <= k < n ==> lviews[k] == (#[trigger] listings@[k])@,
                        folders@.len() == i,
                        forall|k: int|
                            0 <= k < i ==> (#[trigger] folders@[k])@ == folder_of_listing(
                                lviews[k],
                            ),
                    decreases n - i,
                {
                    let listing = &listings[i];
                    folders.push(
                        folder_from_listing(listing.name.as_str(), listing.message_count),
                    );
                    i = i + 1;
                }
                proof {
                    assert(folders@.map_values(|f: Folder| f@) =~= fvs);
                }
                // Update the registry.
                let ghost accounts_now = self@.accounts;
                match self.find_account(account) {
                    Some(ai) => {
                        proof {
                            lemma_reg_index(accounts_now, ai as int);
                        }
                        let copy = clone_folders(&folders);
                        self.set_folders_at(ai, copy);
                        proof {
                            assert forall|e: Seq<char>| true implies #[trigger] reg_lookup(
                                self@.accounts,
                                e,
                            ) == (if e == account@ {
                                Some(with_folders(accounts_now[ai as int], fvs))
                            } else {
                                reg_lookup(accounts_now, e)
                            }) by {
                                lemma_reg_update(
                                    accounts_now,
                                    ai as int,
                                    with_folders(accounts_now[ai as int], fvs),
                                    e,
                                );
                            }
                        }
                    },
                    None => {
                        proof {
                            lemma_reg_missing(accounts_now, account@);
                        }
                    },
                }
                // Store each folder in the cache as an empty snapshot.
                let ghost table0 = self.table();
                let ghost accounts_after = self@.accounts;
                let mut k: usize = 0;
                while k < n
                    invariant
                        k <= n,
                        n == folders@.len(),
                        fvs.len() == n,
                        forall|p: int| 0 <= p < n ==> (#[trigger] folders@[p])@ == fvs[p],
                        self.wf(),
                        self.table() == store_all(table0, account@, fvs.take(k as int), now as int),
                        self.cache_duration() == old(self).cache_duration(),
                        self@.accounts == accounts_after,
                        self@.creds == old(self)@.creds,
                        self@.sessions == old(self)@.sessions,
                    decreases n - k,
                {
                    let ghost table_before = self.table();
                    let folder_copy = self.clone_one_folder(&folders, k);
                    self.email_cache.store_folder(account, folder_copy, Vec::new(), now);
                    proof {
                        assert(Seq::<Email>::empty().map_values(|e: Email| e@) =~= Seq::<
                            EmailView,
                        >::empty());
                        assert(fvs.take(k + 1).drop_last() =~= fvs.take(k as int));
                        assert(fvs.take(k + 1).last() == fvs[k as int]);
                        assert(self.table() == store_shape(
                            table_before,
                            account@,
                            fvs[k as int],
                            Seq::empty(),
                            now as int,
                        ));
                    }
                    k = k + 1;
                }
                proof {
                    assert(fvs.take(n as int) =~= fvs);
                }
                events.push(AccountEvent::FoldersUpdated(account.to_owned(), folders));
                proof {
                    assert forall|b: Seq<char>, f: Seq<char>| b != account@ implies #[trigger]
                    lookup2(table_of(self@.cache.slots), b, f) == lookup2(
                        table_of(old(self)@.cache.slots),
                        b,
                        f,
                    ) by {
                        lemma_store_all_isolation(table0, account@, fvs, now as int, b);
                    }
                }
            },
            Err(e) => {
                let mut reason = "Failed to refresh folders: ".to_owned();
                reason.append(e.message().as_str());
                proof {
                    assert(reason@ =~= refresh_failed_reason(e@));
                }
                events.push(AccountEvent::ConnectionFailed(account.to_owned(), reason));
            },
        }
        CommandOutcome { events, request: None }
    }

    /// A clone of `folders[k]`.
    fn clone_one_folder(&self, folders: &Vec<Folder>, k: usize) -> (r: Folder)
        requires
            k < folders@.len(),
        ensures
            r@ == folders@[k as int]@,
    {
        folders[k].clone()
    }

    /// Completes a header-fetch request. On success the parsed emails
    /// replace the account's email list and are stored in the cache under
    /// the account's folder of that name (if the account no longer lists the
    /// folder, the cache write is skipped but the event is still emitted),
    /// and a single `EmailsUpdated` event carries them. On failure nothing
    /// changes and a `ConnectionFailed` event carries the wrapped reason.
    pub fn finish_fetch_headers(
        &mut self,
        account: &str,
        folder: &str,
        result: Result<Vec<RawMessage>, ImapError>,
        now: u64,
    ) -> (r: CommandOutcome)
        requires
            old(self).wf(),
        ensures
            final(self).wf(),
            final(self).cache_duration() == old(self).cache_duration(),
            isolated_except(old(self)@, final(self)@, account@),
            final(self)@.creds == old(self)@.creds,
            final(self)@.sessions == old(self)@.sessions,
            match result {
                Ok(raws) => {
                    let evs = emails_of_raws(raws@.map_values(|m: RawMessage| m@));
                    &&& match reg_lookup(old(self)@.accounts, account@) {
                        Some(acc) => reg_lookup(final(self)@.accounts, account@) == Some(
                            with_emails(acc, evs),
                        ) && (match folder_in(acc.folders, folder@) {
                            Some(fv) => final(self).table() == store_shape(
                                old(self).table(),
                                account@,
                                fv,
                                evs,
                                now as int,
                            ),
                            None => final(self).table() == old(self).table(),
                        }),
                        None => reg_lookup(final(self)@.accounts, account@) is None
                            && final(self).table() == old(self).table(),
                    }
                    &&& events_of(r) == seq![
                        AccountEventView::EmailsUpdated(account@, folder@, evs),
                    ]
                    &&& request_of(r) is None
                },
                Err(e) => {
                    &&& final(self)@ == old(self)@
                    &&& events_of(r) == seq![
                        AccountEventView::ConnectionFailed(account@, fetch_failed_reason(e@)),
                    ]
                    &&& request_of(r) is None
                },
            },
    {
        let mut events: Vec<AccountEvent> = Vec::new();
        match result {
            Ok(raws) => {
                let ghost rviews = raws@.map_values(|m: RawMessage| m@);
                let ghost evs = emails_of_raws(rviews);
                // Parse each header section.
                let n = raws.len();
                let mut emails: Vec<Email> = Vec::new();
                let mut i: usize = 0;
                while i < n
                    invariant
                        i <= n,
                        n == raws@.len(),
                        rviews == raws@.map_values(|m: RawMessage| m@),
                        rviews.len() == n,
                        forall|k: int| 0 <= k < n ==> rviews[k] == (#[trigger] raws@[k])@,
                        emails@.len() == i,
                        forall|k: int|
                            0 <= k < i ==> (#[trigger] emails@[k])@ == email_of_header(
                                rviews[k].id,
                                rviews[k].header,
                            ),
                    decreases n - i,
                {
                    let raw = &raws[i];
                    emails.push(email_from_header(raw.id, raw.header.as_str()));
                    i = i + 1;
                }
                proof {
                    assert(emails@.map_values(|e: Email| e@) =~= evs);
                }
                let ghost accounts_now = self@.accounts;
                match self.find_account(account) {
                    Some(ai) => {
                        proof {
                            lemma_reg_index(accounts_now, ai as int);
                        }
                        // Find the account's folder of this name, if any.
                        let ghost acc_view = accounts_now[ai as int];
                        let fidx = self.find_folder_of_account(ai, folder);
                        let copy = clone_emails(&emails);
                        self.set_emails_at(ai, copy);
                        proof {
                            assert forall|e: Seq<char>| true implies #[trigger] reg_lookup(
                                self@.accounts,
                                e,
                            ) == (if e == account@ {
                                Some(with_emails(acc_view, evs))
                            } else {
                                reg_lookup(accounts_now, e)
                            }) by {
                                lemma_reg_update(
                                    accounts_now,
                                    ai as int,
                                    with_emails(acc_view, evs),
                                    e,
                                );
                            }
                        }
                        match fidx {
                            Some(fi) => {
                                proof {
                                    lemma_folder_in_found(acc_view.folders, folder@, fi as int);
                                }
                                let folder_obj = self.clone_account_folder(ai, fi);
                                let cache_emails = clone_emails(&emails);
                                self.email_cache.store_folder(
                                    account,
                                    folder_obj,
                                    cache_emails,
                                    now,
                                );
                            },
                            None => {
                                proof {
                                    lemma_folder_in_none(acc_view.folders, folder@);
                                }
                            },
                        }
                    },
                    None => {
                        proof {
                            lemma_reg_missing(accounts_now, account@);
                        }
                    },
                }
                events.push(
                    AccountEvent::EmailsUpdated(account.to_owned(), folder.to_owned(), emails),
                );
            },
            Err(e) => {
                let mut reason = "Failed to fetch emails: ".to_owned();
                reason.append(e.message().as_str());
                proof {
                    assert(reason@ =~= fetch_failed_reason(e@));
                }
                events.push(AccountEvent::ConnectionFailed(account.to_owned(), reason));
            },
        }
        CommandOutcome { events, request: None }
    }

    /// Index of the first folder named `name` in the folder list of the
    /// account at index `ai`, if any.
    fn find_folder_of_account(&self, ai: usize, name: &str) -> (r: Option<usize>)
        requires
            ai < self@.accounts.len(),
        ensures
            match r {
                Some(fi) => fi < self@.accounts[ai as int].folders.len() && self@.accounts[
                    ai as int
                ].folders[fi as int].name == name@ && forall|k: int|
                    0 <= k < fi ==> (#[trigger] self@.accounts[ai as int].folders[k]).name
                        != name@,
                None => forall|k: int|
                    0 <= k < self@.accounts[ai as int].folders.len() ==> (
                    #[trigger] self@.accounts[ai as int].folders[k]).name != name@,
            },
    {
        let acc = &self.accounts[ai];
        let n = acc.folders.len();
        let mut i: usize = 0;
        while i < n
            invariant
                i <= n,
                ai < self@.accounts.len(),
                acc@ == self@.accounts[ai as int],
                n == acc.folders@.len(),
                self@.accounts[ai as int].folders.len() == n,
                forall|k: int|
                    0 <= k < n ==> self@.accounts[ai as int].folders[k] == (
                    #[trigger] acc.folders@[k])@,
                forall|k: int|
                    0 <= k < i ==> (#[trigger] self@.accounts[ai as int].folders[k]).name
                        != name@,
            decreases n - i,
        {
            if str_eq(acc.folders[i].name.as_str(), name) {
                return Some(i);
            }
            i = i + 1;
        }
        None
    }

    /// A clone of folder `fi` of the account at index `ai`.
    fn clone_account_folder(&self, ai: usize, fi: usize) -> (r: Folder)
        requires
            ai < self@.accounts.len(),
            fi < self@.accounts[ai as int].folders.len(),
        ensures
            r@ == self@.accounts[ai as int].folders[fi as int],
    {
        self.accounts[ai].folders[fi].clone()
    }

    /// Removes every email with id `email_id` from the account at position
    /// `account_index` of the registry's insertion order, emitting one
    /// `EmailDeleted` event; out-of-range indices do nothing. No remote
    /// deletion is issued: delete is local-only by design.
    pub fn delete_email_by_index(&mut self, account_index: usize, email_id: usize) -> (r: Vec<
        AccountEvent,
    >)
        requires
            old(self).wf(),
        ensures
            final(self).wf(),
            final(self)@.cache == old(self)@.cache,
            final(self)@.creds == old(self)@.creds,
            final(self)@.sessions == old(self)@.sessions,
            if account_index < old(self)@.accounts.len() {
                let acc = old(self)@.accounts[account_index as int];
                &&& reg_lookup(final(self)@.accounts, acc.email) == Some(
                    with_emails(acc, keep_emails(acc.emails, email_id as int)),
                )
                &&& forall|e: Seq<char>|
                    e != acc.email ==> #[trigger] reg_lookup(final(self)@.accounts, e)
                        == reg_lookup(old(self)@.accounts, e)
                &&& r@.map_values(|ev: AccountEvent| ev@) == seq![
                    AccountEventView::EmailDeleted(acc.email, email_id as int),
                ]
            } else {
                final(self)@ == old(self)@ && r@.len() == 0
            },
    {
        let mut events: Vec<AccountEvent> = Vec::new();
        if account_index < self.accounts.len() {
            let ghost accounts_now = self@.accounts;
            let target = self.accounts[account_index].email.clone();
            proof {
                assert(accounts_now[account_index as int].email == target@);
            }
            self.remove_email_from_account(account_index, email_id);
            proof {
                let updated = with_emails(
                    accounts_now[account_index as int],
                    keep_emails(accounts_now[account_index as int].emails, email_id as int),
                );
                assert forall|e: Seq<char>| true implies #[trigger] reg_lookup(
                    self@.accounts,
                    e,
                ) == (if e == target@ {
                    Some(updated)
                } else {
                    reg_lookup(accounts_now, e)
                }) by {
                    lemma_reg_update(accounts_now, account_index as int, updated, e);
                }
            }
            events.push(AccountEvent::EmailDeleted(target, email_id));
        }
        events
    }

    /// Whether a credential for `email` is available.
    pub fn has_stored_credentials(&self, email: &str) -> (r: bool)
        requires
            self.wf(),
        ensures
            cred_lookup(self@.creds.cache, email@) is Some ==> r,
    {
        self.credentials.has_credentials(email)
    }

    /// Runs the cache maintenance sweep at time `now`: every stale folder
    /// entry is evicted, and account partitions left empty are removed.
    pub fn cleanup_cache(&mut self, now: u64)
        requires
            old(self).wf(),
        ensures
            final(self).wf(),
            forall|a: Seq<char>, f: Seq<char>|
                #[trigger] lookup2(final(self).table(), a, f) == fresh_lookup(
                    old(self).table(),
                    a,
                    f,
                    now as int,
                    old(self).cache_duration(),
                ),
            forall|a: Seq<char>|
                #[trigger] final(self).table().contains_key(a) <==> exists|f: Seq<char>|
                    (#[trigger] fresh_lookup(
                        old(self).table(),
                        a,
                        f,
                        now as int,
                        old(self).cache_duration(),
                    )) is Some,
            final(self).cache_duration() == old(self).cache_duration(),
            final(self)@.accounts == old(self)@.accounts,
            final(self)@.creds == old(self)@.creds,
            final(self)@.sessions == old(self)@.sessions,
    {
        self.email_cache.clear_expired(now);
    }
}

} // verus!
