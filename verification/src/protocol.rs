//! The computational half of the protocol session layer: typed session
//! errors with a structured rendering step, case-insensitive header-field
//! extraction from raw RFC822 header text, the well-known folder icon table,
//! and selection of the most recent message ids. The socket work itself
//! lives outside the verified library and hands these functions plain
//! values.
use vstd::prelude::*;

use crate::strutil::{
    ascii_ci_eq, eq_ignore_ascii, find_char, has_prefix, has_prefix_seq, lines_of, lower_of,
    lowercase, push_char, split_lines, substring_copy, trim, trim_of,
};
use crate::types::{Email, EmailView, Folder, FolderView};
use vstd::string::StrSliceExecFns;

verus! {

broadcast use vstd::seq_lib::group_to_multiset_ensures;

/// Mathematical view of an [`ImapError`].
pub ghost enum ImapErrorView {
    Connection(Seq<char>),
    Authentication(Seq<char>),
    Operation(Seq<char>),
    Credentials(Seq<char>),
}

/// A typed protocol error: transport failure, rejected credentials, a failed
/// protocol operation (including "no active session"), or a local secret
/// store failure.
#[derive(Debug)]
pub enum ImapError {
    Connection(String),
    Authentication(String),
    Operation(String),
    Credentials(String),
}

impl View for ImapError {
    type V = ImapErrorView;

    open spec fn view(&self) -> ImapErrorView {
        match self {
            ImapError::Connection(s) => ImapErrorView::Connection(s@),
            ImapError::Authentication(s) => ImapErrorView::Authentication(s@),
            ImapError::Operation(s) => ImapErrorView::Operation(s@),
            ImapError::Credentials(s) => ImapErrorView::Credentials(s@),
        }
    }
}

impl Clone for ImapError {
    fn clone(&self) -> (r: Self)
        ensures
            r@ == self@,
    {
        match self {
            ImapError::Connection(s) => ImapError::Connection(s.clone()),
            ImapError::Authentication(s) => ImapError::Authentication(s.clone()),
            ImapError::Operation(s) => ImapError::Operation(s.clone()),
            ImapError::Credentials(s) => ImapError::Credentials(s.clone()),
        }
    }
}

/// The human-readable rendering of a typed error: its kind, then its detail.
pub open spec fn error_message(e: ImapErrorView) -> Seq<char> {
    match e {
        ImapErrorView::Connection(s) => "Connection error: "@ + s,
        ImapErrorView::Authentication(s) => "Authentication error: "@ + s,
        ImapErrorView::Operation(s) => "Operation error: "@ + s,
        ImapErrorView::Credentials(s) => "Credentials error: "@ + s,
    }
}

impl ImapError {
    /// Renders the error for a `ConnectionFailed` event: the kind label
    /// followed by the detail text.
    pub fn message(&self) -> (r: String)
        ensures
            r@ == error_message(self@),
    {
        match self {
            ImapError::Connection(s) => {
                let mut m = "Connection error: ".to_owned();
                m.append(s.as_str());
                m
            },
            ImapError::Authentication(s) => {
                let mut m = "Authentication error: ".to_owned();
                m.append(s.as_str());
                m
            },
            ImapError::Operation(s) => {
                let mut m = "Operation error: ".to_owned();
                m.append(s.as_str());
                m
            },
            ImapError::Credentials(s) => {
                let mut m = "Credentials error: ".to_owned();
                m.append(s.as_str());
                m
            },
        }
    }
}

/// A header line carries `field` iff, ignoring case, it starts with the
/// field name followed by a colon.
pub open spec fn header_line_matches(line: Seq<char>, field: Seq<char>) -> bool {
    has_prefix_seq(lower_of(line), lower_of(field).push(':'))
}

/// Index of the first header line carrying `field`, if any.
pub open spec fn first_matching_line(lines: Seq<Seq<char>>, field: Seq<char>) -> Option<int>
    decreases lines.len(),
{
    if lines.len() == 0 {
        None
    } else if header_line_matches(lines.first(), field) {
        Some(0)
    } else {
        match first_matching_line(lines.drop_first(), field) {
            Some(i) => Some(i + 1),
            None => None,
        }
    }
}

/// Position of the first colon in `line`.
pub open spec fn first_colon(line: Seq<char>) -> int {
    choose|i: int|
        0 <= i < line.len() && line[i] == ':' && forall|k: int| 0 <= k < i ==> line[k] != ':'
}

/// The value carried by a header line: everything after the first colon,
/// trimmed of surrounding whitespace; empty if the line has no colon.
pub open spec fn value_after_colon(line: Seq<char>) -> Seq<char> {
    if exists|i: int| 0 <= i < line.len() && line[i] == ':' {
        let i = first_colon(line);
        if 0 <= i < line.len() {
            trim_of(line.skip(i + 1))
        } else {
            Seq::empty()
        }
    } else {
        Seq::empty()
    }
}

proof fn lemma_first_matching_line_found(lines: Seq<Seq<char>>, field: Seq<char>, i: int)
    requires
        0 <= i < lines.len(),
        header_line_matches(lines[i], field),
        forall|k: int| 0 <= k < i ==> !header_line_matches(#[trigger] lines[k], field),
    ensures
        first_matching_line(lines, field) == Some(i),
    decreases lines.len(),
{
    if i > 0 {
        lemma_first_matching_line_found(lines.drop_first(), field, i - 1);
    }
}

proof fn lemma_first_matching_line_none(lines: Seq<Seq<char>>, field: Seq<char>)
    requires
        forall|k: int| 0 <= k < lines.len() ==> !header_line_matches(#[trigger] lines[k], field),
    ensures
        first_matching_line(lines, field) is None,
    decreases lines.len(),
{
    if lines.len() > 0 {
        lemma_first_matching_line_none(lines.drop_first(), field);
    }
}

proof fn lemma_first_colon(line: Seq<char>, i: int)
    requires
        0 <= i < line.len(),
        line[i] == ':',
        forall|k: int| 0 <= k < i ==> line[k] != ':',
    ensures
        first_colon(line) == i,
{
    let j = first_colon(line);
    assert(0 <= j < line.len() && line[j] == ':' && forall|k: int| 0 <= k < j ==> line[k] != ':');
    if j < i {
        assert(line[j] != ':');
    }
    if i < j {
        assert(line[i] != ':');
    }
}

/// The value of the first header line that carries `field`, matched on the
/// field name case-insensitively; nothing if no line carries it.
pub fn extract_header_value(header: &str, field: &str) -> (r: Option<String>)
    ensures
        ({
            let lines = lines_of(header@);
            match r {
                Some(v) => first_matching_line(lines, field@) matches Some(i) && v@
                    == value_after_colon(lines[i]),
                None => first_matching_line(lines, field@) is None,
            }
        }),
{
    let lines = split_lines(header);
    let mut needle = lowercase(field);
    push_char(&mut needle, ':');
    let n = lines.len();
    let mut i: usize = 0;
    while i < n
        invariant
            i <= n,
            n == lines@.len(),
            needle@ == lower_of(field@).push(':'),
            lines@.map_values(|x: String| x@) == lines_of(header@),
            forall|k: int|
                0 <= k < i ==> !header_line_matches((#[trigger] lines@[k])@, field@),
        decreases n - i,
    {
        let line = &lines[i];
        let low = lowercase(line.as_str());
        proof {
            assert(lines@.map_values(|x: String| x@)[i as int] == line@);
        }
        if has_prefix(low.as_str(), needle.as_str()) {
            proof {
                lemma_first_matching_line_found(
                    lines@.map_values(|x: String| x@),
                    field@,
                    i as int,
                );
            }
            let line_len = line.as_str().unicode_len();
            match find_char(line.as_str(), ':') {
                Some(ci) => {
                    proof {
                        lemma_first_colon(line@, ci as int);
                    }
                    let after = line.as_str().substring_char(ci + 1, line_len);
                    let v = trim(after);
                    proof {
                        assert(after@ =~= line@.skip(ci + 1));
                    }
                    return Some(v);
                },
                None => {
                    return Some(String::new());
                },
            }
        }
        i = i + 1;
    }
    proof {
        lemma_first_matching_line_none(lines@.map_values(|x: String| x@), field@);
    }
    None
}

/// The header-derived field value, or a placeholder when the field is absent.
pub open spec fn header_field_or(
    header: Seq<char>,
    field: Seq<char>,
    placeholder: Seq<char>,
) -> Seq<char> {
    match first_matching_line(lines_of(header), field) {
        Some(i) => value_after_colon(lines_of(header)[i]),
        None => placeholder,
    }
}

/// The email built from one fetched header section: Subject, From, and Date
/// are extracted case-insensitively, each defaulting to a placeholder; the
/// body holds a fixed preview placeholder until explicitly loaded.
pub open spec fn email_of_header(id: int, header: Seq<char>) -> EmailView {
    EmailView {
        id: id,
        sender: header_field_or(header, "From"@, "Unknown Sender"@),
        recipient: Seq::empty(),
        subject: header_field_or(header, "Subject"@, "(No Subject)"@),
        date: header_field_or(header, "Date"@, "Unknown Date"@),
        body: "(Email content preview...)"@,
        is_read: false,
        is_selected: false,
    }
}

/// Parses one fetched header section into an email.
pub fn email_from_header(id: usize, header: &str) -> (r: Email)
    ensures
        r@ == email_of_header(id as int, header@),
{
    let subject = match extract_header_value(header, "Subject") {
        Some(v) => v,
        None => "(No Subject)".to_owned(),
    };
    let sender = match extract_header_value(header, "From") {
        Some(v) => v,
        None => "Unknown Sender".to_owned(),
    };
    let date = match extract_header_value(header, "Date") {
        Some(v) => v,
        None => "Unknown Date".to_owned(),
    };
    Email::new(id, sender.as_str(), subject.as_str(), date.as_str(), "(Email content preview...)")
}

/// The display icon for a mailbox, selected by its well-known name,
/// compared without regard to ASCII case: inbox, sent, drafts, and
/// spam/trash names get fixed icons; everything else a generic one.
pub open spec fn icon_for(name: Seq<char>) -> Seq<char> {
    if ascii_ci_eq(name, "INBOX"@) {
        "\u{1F4E5}"@
    } else if ascii_ci_eq(name, "SENT"@) || ascii_ci_eq(name, "SENT ITEMS"@) {
        "\u{1F4E4}"@
    } else if ascii_ci_eq(name, "DRAFTS"@) {
        "\u{1F4DD}"@
    } else if ascii_ci_eq(name, "SPAM"@) || ascii_ci_eq(name, "JUNK"@) || ascii_ci_eq(
        name,
        "TRASH"@,
    ) || ascii_ci_eq(name, "DELETED"@) {
        "\u{1F5D1}\u{FE0F}"@
    } else {
        "\u{1F4C1}"@
    }
}

/// The icon shown for the mailbox called `name`.
pub fn icon_for_name(name: &str) -> (r: &'static str)
    ensures
        r@ == icon_for(name@),
{
    if eq_ignore_ascii(name, "INBOX") {
        "\u{1F4E5}"
    } else if eq_ignore_ascii(name, "SENT") || eq_ignore_ascii(name, "SENT ITEMS") {
        "\u{1F4E4}"
    } else if eq_ignore_ascii(name, "DRAFTS") {
        "\u{1F4DD}"
    } else if eq_ignore_ascii(name, "SPAM") || eq_ignore_ascii(name, "JUNK") || eq_ignore_ascii(
        name,
        "TRASH",
    ) || eq_ignore_ascii(name, "DELETED") {
        "\u{1F5D1}\u{FE0F}"
    } else {
        "\u{1F4C1}"
    }
}

/// The folder snapshot built from one listed mailbox: its name, its icon by
/// the well-known-name table, and its reported message count.
pub fn folder_from_listing(name: &str, count: usize) -> (r: Folder)
    ensures
        r@ == (FolderView { name: name@, icon: icon_for(name@), count: count as int }),
{
    Folder::new(name, icon_for_name(name), count)
}

/// `s` is sorted in descending order.
pub open spec fn sorted_desc(s: Seq<u32>) -> bool {
    forall|i: int, j: int| 0 <= i < j < s.len() ==> s[i] >= s[j]
}

/// Index of a maximal element of `pool`.
fn index_of_max(pool: &Vec<u32>) -> (r: usize)
    requires
        pool@.len() > 0,
    ensures
        r < pool@.len(),
        forall|k: int| 0 <= k < pool@.len() ==> pool@[k] <= pool@[r as int],
{
    let n = pool.len();
    let mut best: usize = 0;
    let mut i: usize = 1;
    while i < n
        invariant
            1 <= i <= n,
            n == pool@.len(),
            best < i,
            forall|k: int| 0 <= k < i ==> pool@[k] <= pool@[best as int],
        decreases n - i,
    {
        if pool[i] > pool[best] {
            best = i;
        }
        i = i + 1;
    }
    best
}

/// The most recent messages: the `limit` largest ids of `ids`, most recent
/// (largest) first. Every returned id comes from `ids` (as a multiset), the
/// result is sorted descending, and any id left out is no larger than any id
/// returned.
pub fn pick_recent_ids(ids: Vec<u32>, limit: usize) -> (r: Vec<u32>)
    ensures
        r@.len() == if limit <= ids@.len() {
            limit as int
        } else {
            ids@.len() as int
        },
        sorted_desc(r@),
        forall|x: u32| #[trigger] r@.to_multiset().count(x) <= ids@.to_multiset().count(x),
        forall|x: u32|
            ids@.to_multiset().count(x) > r@.to_multiset().count(x) ==> forall|k: int|
                0 <= k < r@.len() ==> x <= r@[k],
{
    let ghost all = ids@;
    let mut pool = ids;
    let mut r: Vec<u32> = Vec::new();
    while r.len() < limit && pool.len() > 0
        invariant
            r@.len() <= limit,
            r@.len() + pool@.len() == all.len(),
            r@.len() < limit || pool@.len() == 0 || r@.len() == limit,
            sorted_desc(r@),
            r@.to_multiset().add(pool@.to_multiset()) == all.to_multiset(),
            r@.len() > 0 ==> forall|k: int|
                0 <= k < pool@.len() ==> pool@[k] <= r@[r@.len() - 1],
            r@.len() > 0 ==> forall|k: int| 0 <= k < r@.len() ==> r@[r@.len() - 1] <= #[trigger] r@[k],
        decreases pool@.len(),
    {
        let ghost r_before = r@;
        let ghost pool_before = pool@;
        let mi = index_of_max(&pool);
        let v = pool.remove(mi);
        r.push(v);
        proof {
            assert(pool@ =~= pool_before.remove(mi as int));
            assert(r@ =~= r_before.push(v));
            assert(pool_before.remove(mi as int).to_multiset() =~= pool_before.to_multiset()
                .remove(v));
            assert(r_before.push(v).to_multiset() =~= r_before.to_multiset().insert(v));
            assert(r@.to_multiset().add(pool@.to_multiset()) =~= all.to_multiset());
            assert(forall|k: int| 0 <= k < pool@.len() ==> pool@[k] <= v);
        }
    }
    proof {
        if r@.len() < limit {
            assert(pool@.len() == 0);
        }
        assert forall|x: u32| #[trigger] r@.to_multiset().count(x)
            <= all.to_multiset().count(x) by {
            assert(all.to_multiset().count(x) == r@.to_multiset().count(x)
                + pool@.to_multiset().count(x));
        }
        assert forall|x: u32|
            all.to_multiset().count(x) > r@.to_multiset().count(x) implies forall|k: int|
            0 <= k < r@.len() ==> x <= r@[k] by {
            assert(pool@.to_multiset().count(x) > 0);
            assert(pool@.contains(x));
            let pi = choose|pi: int| 0 <= pi < pool@.len() && pool@[pi] == x;
            assert forall|k: int| 0 <= k < r@.len() implies x <= r@[k] by {
                assert(pool@[pi] <= r@[r@.len() - 1]);
                assert(r@[r@.len() - 1] <= r@[k]);
            }
        }
    }
    r
}

} // verus!
