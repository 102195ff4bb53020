//! Composer dialog state: the draft fields and the prefilled reply and
//! forward templates.
use vstd::prelude::*;

use crate::strutil::{has_prefix, has_prefix_seq, lines_of, split_lines};
use crate::types::{Email, EmailView};
use vstd::string::StrSliceExecFns;

verus! {

/// What the composer dialog asked for.
#[derive(Debug, Clone, PartialEq, Eq, Structural)]
pub enum ComposerAction {
    Send,
    Save,
    Cancel,
}

/// A message handed out of the composer.
#[derive(Debug)]
pub enum ComposerMessage {
    SendEmail { from: String, to: String, subject: String, body: String },
    SaveDraft { from: String, to: String, subject: String, body: String },
}

/// What the draft started from: a blank message, a reply to an email, or a
/// forward of one.
#[derive(Debug)]
pub enum ComposerMode {
    Compose,
    Reply(Box<Email>),
    Forward(Box<Email>),
}

/// The composer dialog's state: the draft fields, the sending account's
/// index, and what the draft started from.
#[derive(Debug)]
pub struct ComposerWindow {
    pub visible: bool,
    pub to: String,
    pub cc: String,
    pub bcc: String,
    pub subject: String,
    pub body: String,
    pub from_account: usize,
    pub mode: ComposerMode,
}

/// The subject of a reply: `Re: ` is prefixed unless already present.
pub open spec fn reply_subject(subject: Seq<char>) -> Seq<char> {
    if has_prefix_seq(subject, "Re: "@) {
        subject
    } else {
        "Re: "@ + subject
    }
}

/// The subject of a forward: `Fwd: ` is prefixed unless already present.
pub open spec fn forward_subject(subject: Seq<char>) -> Seq<char> {
    if has_prefix_seq(subject, "Fwd: "@) {
        subject
    } else {
        "Fwd: "@ + subject
    }
}

/// The lines of `body` joined with a quote prefix: each line break becomes
/// a break followed by `> `.
pub open spec fn quoted_join(ls: Seq<Seq<char>>) -> Seq<char>
    decreases ls.len(),
{
    if ls.len() == 0 {
        Seq::empty()
    } else if ls.len() == 1 {
        ls[0]
    } else {
        quoted_join(ls.drop_last()) + "\n> "@ + ls.last()
    }
}

/// The prefilled body of a reply: an attribution line, then the original
/// body quoted line by line.
pub open spec fn reply_body(date: Seq<char>, sender: Seq<char>, body: Seq<char>) -> Seq<char> {
    "\n\nOn "@ + date + ", "@ + sender + " wrote:\n> "@ + quoted_join(lines_of(body))
}

/// The prefilled body of a forward: the forwarded-message banner with the
/// original header fields, then the original body.
pub open spec fn forward_body(e: EmailView) -> Seq<char> {
    "\n\n---------- Forwarded message ----------\nFrom: "@ + e.sender + "\nDate: "@ + e.date
        + "\nSubject: "@ + e.subject + "\nTo: "@ + e.recipient + "\n\n"@ + e.body
}

impl ComposerWindow {
    /// A hidden, blank composer.
    pub fn new() -> (r: Self)
        ensures
            !r.visible,
            r.to@ == Seq::<char>::empty(),
            r.cc@ == Seq::<char>::empty(),
            r.bcc@ == Seq::<char>::empty(),
            r.subject@ == Seq::<char>::empty(),
            r.body@ == Seq::<char>::empty(),
            r.from_account == 0,
            r.mode is Compose,
    {
        ComposerWindow {
            visible: false,
            to: String::new(),
            cc: String::new(),
            bcc: String::new(),
            subject: String::new(),
            body: String::new(),
            from_account: 0,
            mode: ComposerMode::Compose,
        }
    }

    /// Clears every draft field.
    fn clear_fields(&mut self)
        ensures
            final(self).to@ == Seq::<char>::empty(),
            final(self).cc@ == Seq::<char>::empty(),
            final(self).bcc@ == Seq::<char>::empty(),
            final(self).subject@ == Seq::<char>::empty(),
            final(self).body@ == Seq::<char>::empty(),
            final(self).visible == old(self).visible,
            final(self).from_account == old(self).from_account,
            final(self).mode == old(self).mode,
    {
        self.to = String::new();
        self.cc = String::new();
        self.bcc = String::new();
        self.subject = String::new();
        self.body = String::new();
    }

    /// Opens a blank draft from the given account.
    pub fn show_compose(&mut self, account_index: usize)
        ensures
            final(self).visible,
            final(self).mode is Compose,
            final(self).from_account == account_index,
            final(self).to@ == Seq::<char>::empty(),
            final(self).cc@ == Seq::<char>::empty(),
            final(self).bcc@ == Seq::<char>::empty(),
            final(self).subject@ == Seq::<char>::empty(),
            final(self).body@ == Seq::<char>::empty(),
    {
        self.visible = true;
        self.mode = ComposerMode::Compose;
        self.from_account = account_index;
        self.clear_fields();
    }

    /// Opens a reply draft: addressed to the sender, subject under `Re: `,
    /// and the original body quoted under an attribution line.
    pub fn show_reply(&mut self, email: &Email, account_index: usize)
        ensures
            final(self).visible,
            final(self).mode matches ComposerMode::Reply(b) && b@ == email@,
            final(self).from_account == account_index,
            final(self).to@ == email@.sender,
            final(self).subject@ == reply_subject(email@.subject),
            final(self).body@ == reply_body(email@.date, email@.sender, email@.body),
            final(self).cc@ == Seq::<char>::empty(),
            final(self).bcc@ == Seq::<char>::empty(),
    {
        self.visible = true;
        self.mode = ComposerMode::Reply(Box::new(email.clone()));
        self.from_account = account_index;
        self.to = email.sender.clone();
        if has_prefix(email.subject.as_str(), "Re: ") {
            self.subject = email.subject.clone();
        } else {
            let mut s = "Re: ".to_owned();
            s.append(email.subject.as_str());
            self.subject = s;
        }
        let mut body = "\n\nOn ".to_owned();
        body.append(email.date.as_str());
        body.append(", ");
        body.append(email.sender.as_str());
        body.append(" wrote:\n> ");
        let quoted = quote_lines(email.body.as_str());
        body.append(quoted.as_str());
        proof {
            assert(body@ =~= reply_body(email@.date, email@.sender, email@.body));
        }
        self.body = body;
        self.cc = String::new();
        self.bcc = String::new();
    }

    /// Opens a forward draft: empty recipients, subject under `Fwd: `, and
    /// the original message under a forwarded-message banner.
    pub fn show_forward(&mut self, email: &Email, account_index: usize)
        ensures
            final(self).visible,
            final(self).mode matches ComposerMode::Forward(b) && b@ == email@,
            final(self).from_account == account_index,
            final(self).to@ == Seq::<char>::empty(),
            final(self).cc@ == Seq::<char>::empty(),
            final(self).bcc@ == Seq::<char>::empty(),
            final(self).subject@ == forward_subject(email@.subject),
            final(self).body@ == forward_body(email@),
    {
        self.visible = true;
        self.mode = ComposerMode::Forward(Box::new(email.clone()));
        self.from_account = account_index;
        self.to = String::new();
        self.cc = String::new();
        self.bcc = String::new();
        if has_prefix(email.subject.as_str(), "Fwd: ") {
            self.subject = email.subject.clone();
        } else {
            let mut s = "Fwd: ".to_owned();
            s.append(email.subject.as_str());
            self.subject = s;
        }
        let mut body = "\n\n---------- Forwarded message ----------\nFrom: ".to_owned();
        body.append(email.sender.as_str());
        body.append("\nDate: ");
        body.append(email.date.as_str());
        body.append("\nSubject: ");
        body.append(email.subject.as_str());
        body.append("\nTo: ");
        body.append(email.recipient.as_str());
        body.append("\n\n");
        body.append(email.body.as_str());
        proof {
            assert(body@ =~= forward_body(email@));
        }
        self.body = body;
    }

    /// Records the sending account.
    pub fn set_sender(&mut self, account_index: usize)
        ensures
            final(self).from_account == account_index,
            final(self).visible == old(self).visible,
            final(self).to == old(self).to,
            final(self).cc == old(self).cc,
            final(self).bcc == old(self).bcc,
            final(self).subject == old(self).subject,
            final(self).body == old(self).body,
            final(self).mode == old(self).mode,
    {
        self.from_account = account_index;
    }

    /// Whether every draft field is empty.
    pub fn is_empty(&self) -> (r: bool)
        ensures
            r == (self.to@.len() == 0 && self.cc@.len() == 0 && self.bcc@.len() == 0
                && self.subject@.len() == 0 && self.body@.len() == 0),
    {
        self.to.as_str().is_empty() && self.cc.as_str().is_empty() && self.bcc.as_str().is_empty()
            && self.subject.as_str().is_empty() && self.body.as_str().is_empty()
    }

    /// A draft can be sent once it has a recipient and a subject.
    pub fn is_valid(&self) -> (r: bool)
        ensures
            r == (self.to@.len() > 0 && self.subject@.len() > 0),
    {
        !self.to.as_str().is_empty() && !self.subject.as_str().is_empty()
    }
}

proof fn lemma_lines_nonempty(s: Seq<char>)
    ensures
        lines_of(s).len() > 0,
{
}

/// The lines of `body` joined with `\n> ` between them.
fn quote_lines(body: &str) -> (r: String)
    ensures
        r@ == quoted_join(lines_of(body@)),
{
    let lines = split_lines(body);
    let ghost lviews = lines@.map_values(|x: String| x@);
    proof {
        assert(lviews == lines_of(body@));
        lemma_lines_nonempty(body@);
    }
    let n = lines.len();
    let mut acc = lines[0].clone();
    proof {
        assert(lviews.take(1) =~= seq![lviews[0]]);
        assert(quoted_join(lviews.take(1)) == lviews[0]);
    }
    let mut k: usize = 1;
    while k < n
        invariant
            1 <= k <= n,
            n == lines@.len(),
            lviews == lines@.map_values(|x: String| x@),
            lviews.len() == n,
            forall|p: int| 0 <= p < n ==> lviews[p] == (#[trigger] lines@[p])@,
            acc@ == quoted_join(lviews.take(k as int)),
        decreases n - k,
    {
        proof {
            assert(lviews.take(k + 1).drop_last() =~= lviews.take(k as int));
            assert(lviews.take(k + 1).last() == lviews[k as int]);
        }
        acc.append("\n> ");
        acc.append(lines[k].as_str());
        proof {
            assert(acc@ =~= quoted_join(lviews.take(k + 1)));
        }
        k = k + 1;
    }
    proof {
        assert(lviews.take(n as int) =~= lviews);
    }
    acc
}

} // verus!
