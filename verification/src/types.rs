//! The data model: an email message, a mailbox folder, and a configured
//! account. Each type has a mathematical view that the contracts of the
//! cache, registry, and orchestrator are stated over.
use vstd::prelude::*;

use crate::strutil::{dec_of, dec_string, push_char};

verus! {

/// Mathematical view of an [`Email`].
#[verifier::ext_equal]
pub ghost struct EmailView {
    pub id: int,
    pub sender: Seq<char>,
    pub recipient: Seq<char>,
    pub subject: Seq<char>,
    pub date: Seq<char>,
    pub body: Seq<char>,
    pub is_read: bool,
    pub is_selected: bool,
}

/// A message header snapshot: the id is the server-assigned sequence number,
/// unique within a folder at fetch time; the body holds a placeholder until
/// it is explicitly loaded.
#[derive(Debug)]
pub struct Email {
    pub id: usize,
    pub sender: String,
    pub recipient: String,
    pub subject: String,
    pub date: String,
    pub body: String,
    pub is_read: bool,
    pub is_selected: bool,
}

impl View for Email {
    type V = EmailView;

    open spec fn view(&self) -> EmailView {
        EmailView {
            id: self.id as int,
            sender: self.sender@,
            recipient: self.recipient@,
            subject: self.subject@,
            date: self.date@,
            body: self.body@,
            is_read: self.is_read,
            is_selected: self.is_selected,
        }
    }
}

impl Clone for Email {
    fn clone(&self) -> (r: Self)
        ensures
            r@ == self@,
    {
        Email {
            id: self.id,
            sender: self.sender.clone(),
            recipient: self.recipient.clone(),
            subject: self.subject.clone(),
            date: self.date.clone(),
            body: self.body.clone(),
            is_read: self.is_read,
            is_selected: self.is_selected,
        }
    }
}

impl Email {
    /// A freshly fetched email: unread, unselected, no recipient recorded.
    pub fn new(id: usize, sender: &str, subject: &str, date: &str, body: &str) -> (r: Self)
        ensures
            r@ == (EmailView {
                id: id as int,
                sender: sender@,
                recipient: Seq::<char>::empty(),
                subject: subject@,
                date: date@,
                body: body@,
                is_read: false,
                is_selected: false,
            }),
    {
        Email {
            id,
            sender: sender.to_owned(),
            recipient: String::new(),
            subject: subject.to_owned(),
            date: date.to_owned(),
            body: body.to_owned(),
            is_read: false,
            is_selected: false,
        }
    }
}

/// Mathematical view of a [`Folder`].
#[verifier::ext_equal]
pub ghost struct FolderView {
    pub name: Seq<char>,
    pub icon: Seq<char>,
    pub count: int,
}

/// A mailbox folder snapshot: name (unique per account), display icon, and
/// message count. Replaced wholesale on each successful folder refresh.
#[derive(Debug)]
pub struct Folder {
    pub name: String,
    pub icon: String,
    pub count: usize,
}

impl View for Folder {
    type V = FolderView;

    open spec fn view(&self) -> FolderView {
        FolderView { name: self.name@, icon: self.icon@, count: self.count as int }
    }
}

impl Clone for Folder {
    fn clone(&self) -> (r: Self)
        ensures
            r@ == self@,
    {
        Folder { name: self.name.clone(), icon: self.icon.clone(), count: self.count }
    }
}

/// The display label of a folder: icon, name, and, when non-zero, the
/// message count in parentheses.
pub open spec fn folder_label(f: FolderView) -> Seq<char> {
    if f.count > 0 {
        f.icon + seq![' '] + f.name + seq![' ', '('] + dec_of(f.count as nat) + seq![')']
    } else {
        f.icon + seq![' '] + f.name
    }
}

impl Folder {
    pub fn new(name: &str, icon: &str, count: usize) -> (r: Self)
        ensures
            r@ == (FolderView { name: name@, icon: icon@, count: count as int }),
    {
        Folder { name: name.to_owned(), icon: icon.to_owned(), count }
    }

    /// The label shown for this folder in a folder list.
    pub fn display_name(&self) -> (r: String)
        ensures
            r@ == folder_label(self@),
    {
        let mut s = self.icon.clone();
        push_char(&mut s, ' ');
        s.append(self.name.as_str());
        if self.count > 0 {
            push_char(&mut s, ' ');
            push_char(&mut s, '(');
            let digits = dec_string(self.count);
            s.append(digits.as_str());
            push_char(&mut s, ')');
        }
        proof {
            assert(s@ =~= folder_label(self@));
        }
        s
    }
}

/// Mathematical view of an [`Account`].
#[verifier::ext_equal]
pub ghost struct AccountView {
    pub name: Seq<char>,
    pub email: Seq<char>,
    pub server: Seq<char>,
    pub port: int,
    pub use_tls: bool,
    pub folders: Seq<FolderView>,
    pub emails: Seq<EmailView>,
    pub is_connected: bool,
}

/// A configured mail identity: the email address is its unique key. The
/// connection flag, folder list, and email list are mutated only by the
/// orchestrator.
#[derive(Debug)]
pub struct Account {
    pub name: String,
    pub email: String,
    pub server: String,
    pub port: u16,
    pub use_tls: bool,
    pub folders: Vec<Folder>,
    pub emails: Vec<Email>,
    pub is_connected: bool,
}

impl View for Account {
    type V = AccountView;

    open spec fn view(&self) -> AccountView {
        AccountView {
            name: self.name@,
            email: self.email@,
            server: self.server@,
            port: self.port as int,
            use_tls: self.use_tls,
            folders: self.folders@.map_values(|f: Folder| f@),
            emails: self.emails@.map_values(|e: Email| e@),
            is_connected: self.is_connected,
        }
    }
}

impl Clone for Account {
    fn clone(&self) -> (r: Self)
        ensures
            r@ == self@,
    {
        let mut folders: Vec<Folder> = Vec::new();
        let mut i: usize = 0;
        let n = self.folders.len();
        while i < n
            invariant
                i <= n,
                n == self.folders@.len(),
                folders@.len() == i,
                forall|k: int| 0 <= k < i ==> folders@[k]@ == self.folders@[k]@,
            decreases n - i,
        {
            folders.push(self.folders[i].clone());
            i = i + 1;
        }
        let mut emails: Vec<Email> = Vec::new();
        let mut j: usize = 0;
        let m = self.emails.len();
        while j < m
            invariant
                j <= m,
                m == self.emails@.len(),
                emails@.len() == j,
                forall|k: int| 0 <= k < j ==> emails@[k]@ == self.emails@[k]@,
            decreases m - j,
        {
            emails.push(self.emails[j].clone());
            j = j + 1;
        }
        let r = Account {
            name: self.name.clone(),
            email: self.email.clone(),
            server: self.server.clone(),
            port: self.port,
            use_tls: self.use_tls,
            folders,
            emails,
            is_connected: self.is_connected,
        };
        proof {
            assert(r@.folders =~= self@.folders);
            assert(r@.emails =~= self@.emails);
        }
        r
    }
}

/// The default folder set a new account starts with, before any refresh.
pub open spec fn default_folders() -> Seq<FolderView> {
    seq![
        (FolderView { name: "INBOX"@, icon: "\u{1F4E5}"@, count: 0 }),
        (FolderView { name: "Sent"@, icon: "\u{1F4E4}"@, count: 0 }),
        (FolderView { name: "Drafts"@, icon: "\u{1F4DD}"@, count: 0 }),
        (FolderView { name: "Spam"@, icon: "\u{1F5D1}\u{FE0F}"@, count: 0 }),
    ]
}

impl Account {
    /// A new account with no server configured and the default folder set.
    pub fn new(name: &str, email: &str) -> (r: Self)
        ensures
            r@ == (AccountView {
                name: name@,
                email: email@,
                server: Seq::<char>::empty(),
                port: 993,
                use_tls: true,
                folders: default_folders(),
                emails: Seq::<EmailView>::empty(),
                is_connected: false,
            }),
    {
        let mut folders: Vec<Folder> = Vec::new();
        folders.push(Folder::new("INBOX", "\u{1F4E5}", 0));
        folders.push(Folder::new("Sent", "\u{1F4E4}", 0));
        folders.push(Folder::new("Drafts", "\u{1F4DD}", 0));
        folders.push(Folder::new("Spam", "\u{1F5D1}\u{FE0F}", 0));
        let r = Account {
            name: name.to_owned(),
            email: email.to_owned(),
            server: String::new(),
            port: 993,
            use_tls: true,
            folders,
            emails: Vec::new(),
            is_connected: false,
        };
        proof {
            assert(r@.folders =~= default_folders());
            assert(r@.emails =~= Seq::<EmailView>::empty());
        }
        r
    }

    /// A new account with an explicit server configuration and no folders.
    pub fn with_server(name: &str, email: &str, server: &str, port: u16, use_tls: bool) -> (r:
        Self)
        ensures
            r@ == (AccountView {
                name: name@,
                email: email@,
                server: server@,
                port: port as int,
                use_tls,
                folders: Seq::<FolderView>::empty(),
                emails: Seq::<EmailView>::empty(),
                is_connected: false,
            }),
    {
        let r = Account {
            name: name.to_owned(),
            email: email.to_owned(),
            server: server.to_owned(),
            port,
            use_tls,
            folders: Vec::new(),
            emails: Vec::new(),
            is_connected: false,
        };
        proof {
            assert(r@.folders =~= Seq::<FolderView>::empty());
            assert(r@.emails =~= Seq::<EmailView>::empty());
        }
        r
    }

    /// The connection indicator: connected, not configured (no server), or
    /// disconnected.
    pub fn connection_status(&self) -> (r: &'static str)
        ensures
            r@ == (if self@.is_connected {
                "\u{1F7E2} Connected"@
            } else if self@.server.len() == 0 {
                "\u{26AA} Not Configured"@
            } else {
                "\u{1F534} Disconnected"@
            }),
    {
        if self.is_connected {
            "\u{1F7E2} Connected"
        } else if self.server.as_str().is_empty() {
            "\u{26AA} Not Configured"
        } else {
            "\u{1F534} Disconnected"
        }
    }
}

} // verus!
