//! Search over fetched emails: query state, case-insensitive matching by
//! subject, sender, body, or all fields, result navigation, and match
//! highlighting.
use vstd::prelude::*;

use crate::strutil::{
    contains_seq, contains_sub, find_sub, lower_of, lowercase, sub_match, substring_copy,
};
use crate::types::{Email, EmailView};
use vstd::string::StrSliceExecFns;

verus! {

use vstd::arithmetic::div_mod::{
    lemma_add_mod_noop, lemma_mod_self_0, lemma_mod_sub_multiples_vanish, lemma_small_mod,
};

/// Which field of an email the query is matched against.
#[derive(Debug, Clone, PartialEq, Eq, Structural)]
pub enum SearchMode {
    Subject,
    Sender,
    Body,
    All,
}

/// Whether the search covers the open email or every fetched email.
#[derive(Debug, Clone, PartialEq, Eq, Structural)]
pub enum SearchScope {
    CurrentEmail,
    AllEmails,
}

/// Search state: whether a search is active, the query, the matches, and
/// the selected match.
#[derive(Debug)]
pub struct SearchState {
    pub active: bool,
    pub query: String,
    pub results: Vec<Email>,
    pub selected_result: usize,
    pub search_mode: SearchMode,
    pub search_scope: SearchScope,
}

/// Whether an email matches the lowercased query `q` under `mode`. Matching
/// is by substring on the lowercased field.
pub open spec fn email_matches(mode: SearchMode, e: EmailView, q: Seq<char>) -> bool {
    match mode {
        SearchMode::Subject => contains_seq(lower_of(e.subject), q),
        SearchMode::Sender => contains_seq(lower_of(e.sender), q),
        SearchMode::Body => contains_seq(lower_of(e.body), q),
        SearchMode::All => contains_seq(lower_of(e.subject), q) || contains_seq(
            lower_of(e.sender),
            q,
        ) || contains_seq(lower_of(e.body), q) || contains_seq(lower_of(e.recipient), q),
    }
}

/// The emails of `emails` matching `q` under `mode`, in order.
pub open spec fn search_filter(mode: SearchMode, emails: Seq<EmailView>, q: Seq<char>) -> Seq<
    EmailView,
>
    decreases emails.len(),
{
    if emails.len() == 0 {
        Seq::empty()
    } else if email_matches(mode, emails.last(), q) {
        search_filter(mode, emails.drop_last(), q).push(emails.last())
    } else {
        search_filter(mode, emails.drop_last(), q)
    }
}

/// The label of a search mode.
pub open spec fn mode_label(mode: SearchMode) -> Seq<char> {
    match mode {
        SearchMode::Subject => "Subject"@,
        SearchMode::Sender => "Sender"@,
        SearchMode::Body => "Body"@,
        SearchMode::All => "All"@,
    }
}

/// The label of a search scope.
pub open spec fn scope_label(scope: SearchScope) -> Seq<char> {
    match scope {
        SearchScope::CurrentEmail => "Current Email"@,
        SearchScope::AllEmails => "All Emails"@,
    }
}

impl SearchState {
    /// No search active: empty query, no results, searching all fields of
    /// all emails.
    pub fn new() -> (r: Self)
        ensures
            !r.active,
            r.query@ == Seq::<char>::empty(),
            r.results@.len() == 0,
            r.selected_result == 0,
            r.search_mode == SearchMode::All,
            r.search_scope == SearchScope::AllEmails,
    {
        SearchState {
            active: false,
            query: String::new(),
            results: Vec::new(),
            selected_result: 0,
            search_mode: SearchMode::All,
            search_scope: SearchScope::AllEmails,
        }
    }

    /// Begins a fresh search over the given scope.
    pub fn start_search(&mut self, scope: SearchScope)
        ensures
            final(self).active,
            final(self).query@ == Seq::<char>::empty(),
            final(self).results@.len() == 0,
            final(self).selected_result == 0,
            final(self).search_scope == scope,
            final(self).search_mode == old(self).search_mode,
    {
        self.active = true;
        self.query = String::new();
        self.results = Vec::new();
        self.selected_result = 0;
        self.search_scope = scope;
    }

    /// Begins a fresh search within the open email.
    pub fn start_search_current_email(&mut self)
        ensures
            final(self).active,
            final(self).query@ == Seq::<char>::empty(),
            final(self).results@.len() == 0,
            final(self).selected_result == 0,
            final(self).search_scope == SearchScope::CurrentEmail,
            final(self).search_mode == old(self).search_mode,
    {
        self.start_search(SearchScope::CurrentEmail);
    }

    /// Begins a fresh search over all emails.
    pub fn start_search_all_emails(&mut self)
        ensures
            final(self).active,
            final(self).query@ == Seq::<char>::empty(),
            final(self).results@.len() == 0,
            final(self).selected_result == 0,
            final(self).search_scope == SearchScope::AllEmails,
            final(self).search_mode == old(self).search_mode,
    {
        self.start_search(SearchScope::AllEmails);
    }

    /// Dismisses the search.
    pub fn cancel_search(&mut self)
        ensures
            !final(self).active,
            final(self).query@ == Seq::<char>::empty(),
            final(self).results@.len() == 0,
            final(self).selected_result == 0,
            final(self).search_mode == old(self).search_mode,
            final(self).search_scope == old(self).search_scope,
    {
        self.active = false;
        self.query = String::new();
        self.results = Vec::new();
        self.selected_result = 0;
    }

    /// Replaces the query; the selection resets.
    pub fn update_query(&mut self, new_query: String)
        ensures
            final(self).query == new_query,
            final(self).selected_result == 0,
            final(self).active == old(self).active,
            final(self).results == old(self).results,
            final(self).search_mode == old(self).search_mode,
            final(self).search_scope == old(self).search_scope,
    {
        self.query = new_query;
        self.selected_result = 0;
    }

    /// Whether `email` matches the already-lowercased query `query_lower`
    /// under the current search mode.
    pub fn matches_search(&self, email: &Email, query_lower: &str) -> (r: bool)
        ensures
            r == email_matches(self.search_mode, email@, query_lower@),
    {
        match self.search_mode {
            SearchMode::Subject => contains_sub(
                lowercase(email.subject.as_str()).as_str(),
                query_lower,
            ),
            SearchMode::Sender => contains_sub(
                lowercase(email.sender.as_str()).as_str(),
                query_lower,
            ),
            SearchMode::Body => contains_sub(
                lowercase(email.body.as_str()).as_str(),
                query_lower,
            ),
            SearchMode::All => contains_sub(
                lowercase(email.subject.as_str()).as_str(),
                query_lower,
            ) || contains_sub(lowercase(email.sender.as_str()).as_str(), query_lower)
                || contains_sub(lowercase(email.body.as_str()).as_str(), query_lower)
                || contains_sub(lowercase(email.recipient.as_str()).as_str(), query_lower),
        }
    }

    /// Runs the query over `emails`: with an empty query the results are
    /// simply cleared; otherwise the results are exactly the matching
    /// emails, in order, and an out-of-range selection resets to the start.
    pub fn perform_search(&mut self, emails: &Vec<Email>)
        ensures
            final(self).active == old(self).active,
            final(self).query == old(self).query,
            final(self).search_mode == old(self).search_mode,
            final(self).search_scope == old(self).search_scope,
            if old(self).query@.len() == 0 {
                final(self).results@.len() == 0 && final(self).selected_result == old(
                    self,
                ).selected_result
            } else {
                &&& final(self).results@.map_values(|e: Email| e@) == search_filter(
                    old(self).search_mode,
                    emails@.map_values(|e: Email| e@),
                    lower_of(old(self).query@),
                )
                &&& final(self).selected_result == (
                if old(self).selected_result >= final(self).results@.len() {
                    0int
                } else {
                    old(self).selected_result as int
                })
            },
    {
        if self.query.as_str().is_empty() {
            self.results = Vec::new();
            return ;
        }
        let ghost all = emails@.map_values(|e: Email| e@);
        let query_lower = lowercase(self.query.as_str());
        let n = emails.len();
        let mut found: Vec<Email> = Vec::new();
        let mut i: usize = 0;
        while i < n
            invariant
                i <= n,
                n == emails@.len(),
                all == emails@.map_values(|e: Email| e@),
                all.len() == n,
                forall|k: int| 0 <= k < n ==> all[k] == (#[trigger] emails@[k])@,
                query_lower@ == lower_of(self.query@),
                self == old(self),
                found@.map_values(|e: Email| e@) == search_filter(
                    self.search_mode,
                    all.take(i as int),
                    query_lower@,
                ),
            decreases n - i,
        {
            let ghost found_views = found@.map_values(|e: Email| e@);
            proof {
                assert(all.take(i + 1).drop_last() =~= all.take(i as int));
                assert(all.take(i + 1).last() == all[i as int]);
            }
            if self.matches_search(&emails[i], query_lower.as_str()) {
                found.push(emails[i].clone());
                proof {
                    assert(found@.map_values(|e: Email| e@) =~= found_views.push(all[i as int]));
                }
            }
            i = i + 1;
        }
        proof {
            assert(all.take(n as int) =~= all);
        }
        self.results = found;
        if self.selected_result >= self.results.len() {
            self.selected_result = 0;
        }
    }

    /// Advances to the next result, modulo the result count: the step after
    /// the last result wraps to the first, and the selection always lands in
    /// range, even from an out-of-range starting state.
    pub fn next_result(&mut self)
        ensures
            final(self).results == old(self).results,
            final(self).active == old(self).active,
            final(self).query == old(self).query,
            final(self).search_mode == old(self).search_mode,
            final(self).search_scope == old(self).search_scope,
            if old(self).results@.len() == 0 {
                final(self).selected_result == old(self).selected_result
            } else {
                final(self).selected_result == (old(self).selected_result + 1) % (old(
                    self,
                ).results@.len() as int)
            },
            old(self).results@.len() > 0 ==> final(self).selected_result < old(
                self,
            ).results@.len(),
    {
        let len = self.results.len();
        if len > 0 {
            let ghost sel = self.selected_result as int;
            let here = self.selected_result % len;
            self.selected_result = if here + 1 == len {
                0
            } else {
                here + 1
            };
            proof {
                lemma_add_mod_noop(sel, 1, len as int);
                if len == 1 {
                    lemma_mod_self_0(1int);
                    lemma_small_mod(0nat, 1nat);
                } else {
                    lemma_small_mod(1nat, len as nat);
                    if here + 1 == len {
                        lemma_mod_self_0(len as int);
                    } else {
                        lemma_small_mod((here + 1) as nat, len as nat);
                    }
                }
            }
        }
    }

    /// Steps back to the previous result, modulo the result count: the step
    /// before the first result wraps to the last, and the selection always
    /// lands in range, even from an out-of-range starting state.
    pub fn prev_result(&mut self)
        ensures
            final(self).results == old(self).results,
            final(self).active == old(self).active,
            final(self).query == old(self).query,
            final(self).search_mode == old(self).search_mode,
            final(self).search_scope == old(self).search_scope,
            if old(self).results@.len() == 0 {
                final(self).selected_result == old(self).selected_result
            } else {
                final(self).selected_result == (old(self).selected_result + old(
                    self,
                ).results@.len() - 1) % (old(self).results@.len() as int)
            },
            old(self).results@.len() > 0 ==> final(self).selected_result < old(
                self,
            ).results@.len(),
    {
        let len = self.results.len();
        if len > 0 {
            let ghost sel = self.selected_result as int;
            let here = self.selected_result % len;
            self.selected_result = if here == 0 {
                len - 1
            } else {
                here - 1
            };
            proof {
                lemma_add_mod_noop(sel, len - 1, len as int);
                lemma_small_mod((len - 1) as nat, len as nat);
                if here == 0 {
                    assert((sel % (len as int) + (len - 1)) % (len as int) == len - 1) by {
                        lemma_small_mod((len - 1) as nat, len as nat);
                    }
                } else {
                    // The remainder sum lands one whole divisor above the
                    // answer.
                    lemma_mod_sub_multiples_vanish(here + (len - 1), len as int);
                    lemma_small_mod((here - 1) as nat, len as nat);
                }
            }
        }
    }

    /// The currently selected result, if the selection is in range.
    pub fn get_selected_email(&self) -> (r: Option<&Email>)
        ensures
            match r {
                Some(e) => self.selected_result < self.results@.len() && e@ == self.results@[
                    self.selected_result as int
                ]@,
                None => self.selected_result >= self.results@.len(),
            },
    {
        if self.selected_result < self.results.len() {
            Some(&self.results[self.selected_result])
        } else {
            None
        }
    }

    /// Whether the last search produced any match.
    pub fn has_results(&self) -> (r: bool)
        ensures
            r == (self.results@.len() > 0),
    {
        self.results.len() > 0
    }

    /// How many matches the last search produced.
    pub fn result_count(&self) -> (r: usize)
        ensures
            r == self.results@.len(),
    {
        self.results.len()
    }

    /// Cycles the matched field: all, subject, sender, body, and around.
    pub fn cycle_search_mode(&mut self)
        ensures
            final(self).search_mode == (match old(self).search_mode {
                SearchMode::All => SearchMode::Subject,
                SearchMode::Subject => SearchMode::Sender,
                SearchMode::Sender => SearchMode::Body,
                SearchMode::Body => SearchMode::All,
            }),
            final(self).active == old(self).active,
            final(self).query == old(self).query,
            final(self).results == old(self).results,
            final(self).selected_result == old(self).selected_result,
            final(self).search_scope == old(self).search_scope,
    {
        self.search_mode = match self.search_mode {
            SearchMode::All => SearchMode::Subject,
            SearchMode::Subject => SearchMode::Sender,
            SearchMode::Sender => SearchMode::Body,
            SearchMode::Body => SearchMode::All,
        };
    }

    /// The matched field's label.
    pub fn get_mode_display(&self) -> (r: &'static str)
        ensures
            r@ == mode_label(self.search_mode),
    {
        match self.search_mode {
            SearchMode::Subject => "Subject",
            SearchMode::Sender => "Sender",
            SearchMode::Body => "Body",
            SearchMode::All => "All",
        }
    }

    /// The scope's label.
    pub fn get_scope_display(&self) -> (r: &'static str)
        ensures
            r@ == scope_label(self.search_scope),
    {
        match self.search_scope {
            SearchScope::CurrentEmail => "Current Email",
            SearchScope::AllEmails => "All Emails",
        }
    }

    /// The search window title: scope, then mode in parentheses.
    pub fn get_search_title(&self) -> (r: String)
        ensures
            r@ == "\u{1F50D} Search "@ + scope_label(self.search_scope) + " ("@ + mode_label(
                self.search_mode,
            ) + ")"@,
    {
        let mut s = "\u{1F50D} Search ".to_owned();
        s.append(self.get_scope_display());
        s.append(" (");
        s.append(self.get_mode_display());
        s.append(")");
        proof {
            assert(s@ =~= "\u{1F50D} Search "@ + scope_label(self.search_scope) + " ("@
                + mode_label(self.search_mode) + ")"@);
        }
        s
    }
}

/// The search bar and results list renderer; only the pure text work lives
/// here.
pub struct SearchPanel;

/// Position of the first case-insensitive occurrence of `p` in `s`, over
/// their lowercased forms.
pub open spec fn first_ci_match(lt: Seq<char>, lq: Seq<char>) -> int {
    choose|i: int| sub_match(lt, lq, i) && forall|k: int| 0 <= k < i ==> !sub_match(lt, lq, k)
}

proof fn lemma_first_ci_match(lt: Seq<char>, lq: Seq<char>, i: int)
    requires
        sub_match(lt, lq, i),
        forall|k: int| 0 <= k < i ==> !sub_match(lt, lq, k),
    ensures
        first_ci_match(lt, lq) == i,
{
    let j = first_ci_match(lt, lq);
    assert(sub_match(lt, lq, j) && forall|k: int| 0 <= k < j ==> !sub_match(lt, lq, k));
    if j < i {
        assert(!sub_match(lt, lq, j));
    }
    if i < j {
        assert(!sub_match(lt, lq, i));
    }
}

/// `text` with the first case-insensitive occurrence of `query` wrapped in
/// `**` markers. The match position is found on the lowercased text and the
/// marked span covers as many characters as the query; if lowercasing moves
/// the match beyond the original text's length, or there is no match, the
/// text is returned unchanged.
pub open spec fn highlight_of(t: Seq<char>, q: Seq<char>) -> Seq<char> {
    if q.len() == 0 {
        t
    } else {
        let lt = lower_of(t);
        let lq = lower_of(q);
        if exists|i: int| sub_match(lt, lq, i) {
            let i = first_ci_match(lt, lq);
            if 0 <= i && i + q.len() <= t.len() {
                t.take(i) + "**"@ + t.subrange(i, i + q.len()) + "**"@ + t.skip(i + q.len())
            } else {
                t
            }
        } else {
            t
        }
    }
}

impl SearchPanel {
    /// Wraps the first case-insensitive match of `query` in `text` in `**`
    /// markers; no match leaves the text unchanged.
    pub fn highlight_search_term(text: &str, query: &str) -> (r: String)
        ensures
            r@ == highlight_of(text@, query@),
    {
        if query.is_empty() {
            return text.to_owned();
        }
        let lt = lowercase(text);
        let lq = lowercase(query);
        match find_sub(lt.as_str(), lq.as_str()) {
            Some(i) => {
                proof {
                    lemma_first_ci_match(lt@, lq@, i as int);
                }
                let qn = query.unicode_len();
                let tn = text.unicode_len();
                if qn <= tn && i <= tn - qn {
                    let mut s = substring_copy(text, 0, i);
                    s.append("**");
                    s.append(substring_copy(text, i, i + qn).as_str());
                    s.append("**");
                    s.append(substring_copy(text, i + qn, tn).as_str());
                    proof {
                        assert(text@.subrange(0, i as int) =~= text@.take(i as int));
                        assert(text@.subrange(i + qn, tn as int) =~= text@.skip(i + qn));
                        assert(s@ =~= highlight_of(text@, query@));
                    }
                    s
                } else {
                    text.to_owned()
                }
            },
            None => text.to_owned(),
        }
    }
}

} // verus!
