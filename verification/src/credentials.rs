//! Secret store access: a thin façade over the platform keyring with an
//! in-process read-through cache. The cache is write-through on store and
//! never independently expires. Only the calls into the keyring itself are
//! trusted; the cache logic is verified.
use vstd::prelude::*;

use crate::strutil::str_eq;

verus! {

#[verifier::external_type_specification]
#[verifier::external_body]
pub struct ExKeyringEntry(keyring::Entry);

#[verifier::external_type_specification]
#[verifier::external_body]
pub struct ExKeyringError(keyring::Error);

/// Relies on keyring::Entry::new: builds a handle for (service, user) in the
/// platform credential store; fails if the names are invalid there. Nothing
/// is promised of the outcome.
#[verifier::external_body]
fn keyring_entry(service: &str, user: &str) -> Result<keyring::Entry, keyring::Error> {
    keyring::Entry::new(service, user)
}

/// Relies on keyring::Entry::set_password: writes the password into the
/// platform store. Nothing is promised of the outcome.
#[verifier::external_body]
fn keyring_set_password(entry: &keyring::Entry, password: &str) -> Result<(), keyring::Error> {
    entry.set_password(password)
}

/// Relies on keyring::Entry::get_password: reads the stored password. The
/// result depends on what the platform store holds, so nothing is promised
/// of it.
#[verifier::external_body]
fn keyring_get_password(entry: &keyring::Entry) -> Result<String, keyring::Error> {
    entry.get_password()
}

/// Relies on keyring::Entry::delete_credential: removes the stored
/// credential. Nothing is promised of the outcome.
#[verifier::external_body]
fn keyring_delete(entry: &keyring::Entry) -> Result<(), keyring::Error> {
    entry.delete_credential()
}

/// Relies on keyring::Error's Display rendering, used for event text.
/// Nothing is promised of the text.
#[verifier::external_body]
pub(crate) fn keyring_error_text(e: &keyring::Error) -> String {
    e.to_string()
}

/// Mathematical view of an [`AccountCredentials`].
#[verifier::ext_equal]
pub ghost struct AccountCredentialsView {
    pub email: Seq<char>,
    pub server: Seq<char>,
    pub port: int,
    pub use_tls: bool,
}

/// The connection parameters handed to the session layer.
#[derive(Debug)]
pub struct AccountCredentials {
    pub email: String,
    pub server: String,
    pub port: u16,
    pub use_tls: bool,
}

impl View for AccountCredentials {
    type V = AccountCredentialsView;

    open spec fn view(&self) -> AccountCredentialsView {
        AccountCredentialsView {
            email: self.email@,
            server: self.server@,
            port: self.port as int,
            use_tls: self.use_tls,
        }
    }
}

impl Clone for AccountCredentials {
    fn clone(&self) -> (r: Self)
        ensures
            r@ == self@,
    {
        AccountCredentials {
            email: self.email.clone(),
            server: self.server.clone(),
            port: self.port,
            use_tls: self.use_tls,
        }
    }
}

/// Mathematical view of one cached credential.
#[verifier::ext_equal]
pub ghost struct CredPairView {
    pub email: Seq<char>,
    pub password: Seq<char>,
}

/// One cached credential.
struct CredPair {
    email: String,
    password: String,
}

impl View for CredPair {
    type V = CredPairView;

    closed spec fn view(&self) -> CredPairView {
        CredPairView { email: self.email@, password: self.password@ }
    }
}

/// Mathematical view of the [`CredentialsManager`].
#[verifier::ext_equal]
pub ghost struct CredentialsView {
    pub service: Seq<char>,
    pub cache: Seq<CredPairView>,
}

/// The secret store façade: a service name and the in-process cache.
pub struct CredentialsManager {
    service_name: String,
    cache: Vec<CredPair>,
}

impl View for CredentialsManager {
    type V = CredentialsView;

    closed spec fn view(&self) -> CredentialsView {
        CredentialsView {
            service: self.service_name@,
            cache: self.cache@.map_values(|p: CredPair| p@),
        }
    }
}

/// The cached password for `email`, if any.
pub open spec fn cred_lookup(cache: Seq<CredPairView>, email: Seq<char>) -> Option<Seq<char>>
    decreases cache.len(),
{
    if cache.len() == 0 {
        None
    } else if cache.first().email == email {
        Some(cache.first().password)
    } else {
        cred_lookup(cache.drop_first(), email)
    }
}

/// Cached emails are unique.
pub open spec fn creds_wf(cache: Seq<CredPairView>) -> bool {
    forall|i: int, j: int| 0 <= i < j < cache.len() ==> cache[i].email != cache[j].email
}

proof fn lemma_cred_index(cache: Seq<CredPairView>, i: int)
    requires
        creds_wf(cache),
        0 <= i < cache.len(),
    ensures
        cred_lookup(cache, cache[i].email) == Some(cache[i].password),
    decreases cache.len(),
{
    if i > 0 {
        assert(cache.first().email != cache[i].email);
        lemma_cred_index(cache.drop_first(), i - 1);
        assert(cache.drop_first()[i - 1] == cache[i]);
    }
}

proof fn lemma_cred_missing(cache: Seq<CredPairView>, email: Seq<char>)
    requires
        forall|i: int| 0 <= i < cache.len() ==> (#[trigger] cache[i]).email != email,
    ensures
        cred_lookup(cache, email) is None,
    decreases cache.len(),
{
    if cache.len() > 0 {
        lemma_cred_missing(cache.drop_first(), email);
    }
}

proof fn lemma_cred_update(cache: Seq<CredPairView>, i: int, pw: Seq<char>, email: Seq<char>)
    requires
        creds_wf(cache),
        0 <= i < cache.len(),
    ensures
        cred_lookup(
            cache.update(i, CredPairView { email: cache[i].email, password: pw }),
            email,
        ) == (if email == cache[i].email {
            Some(pw)
        } else {
            cred_lookup(cache, email)
        }),
    decreases cache.len(),
{
    let updated = cache.update(i, CredPairView { email: cache[i].email, password: pw });
    if i == 0 {
        if email != cache[0].email {
            assert(updated.drop_first() =~= cache.drop_first());
        }
    } else {
        assert(updated.first() == cache.first());
        assert(updated.drop_first() =~= cache.drop_first().update(
            i - 1,
            CredPairView { email: cache[i].email, password: pw },
        ));
        assert(cache.drop_first()[i - 1] == cache[i]);
        lemma_cred_update(cache.drop_first(), i - 1, pw, email);
        if email == cache[i].email {
            assert(cache.first().email != email);
        }
    }
}

proof fn lemma_cred_push(cache: Seq<CredPairView>, p: CredPairView, email: Seq<char>)
    requires
        forall|i: int| 0 <= i < cache.len() ==> (#[trigger] cache[i]).email != p.email,
    ensures
        cred_lookup(cache.push(p), email) == (if email == p.email {
            Some(p.password)
        } else {
            cred_lookup(cache, email)
        }),
    decreases cache.len(),
{
    if cache.len() == 0 {
        assert(cache.push(p).first() == p);
        assert(cache.push(p).drop_first() =~= Seq::<CredPairView>::empty());
        if email != p.email {
            lemma_cred_missing(cache.push(p).drop_first(), email);
        }
    } else {
        assert(cache.push(p).first() == cache.first());
        assert(cache.push(p).drop_first() =~= cache.drop_first().push(p));
        lemma_cred_push(cache.drop_first(), p, email);
    }
}

proof fn lemma_cred_remove(cache: Seq<CredPairView>, i: int, email: Seq<char>)
    requires
        creds_wf(cache),
        0 <= i < cache.len(),
    ensures
        cred_lookup(cache.remove(i), email) == (if email == cache[i].email {
            None
        } else {
            cred_lookup(cache, email)
        }),
    decreases cache.len(),
{
    if i == 0 {
        assert(cache.remove(0) =~= cache.drop_first());
        if email == cache[0].email {
            assert(forall|k: int|
                0 <= k < cache.drop_first().len() ==> (#[trigger] cache.drop_first()[k]).email
                    != email);
            lemma_cred_missing(cache.drop_first(), email);
        }
    } else {
        assert(cache.remove(i).first() == cache.first());
        assert(cache.remove(i).drop_first() =~= cache.drop_first().remove(i - 1));
        assert(cache.drop_first()[i - 1] == cache[i]);
        lemma_cred_remove(cache.drop_first(), i - 1, email);
        if email == cache[i].email {
            assert(cache.first().email != email);
        }
    }
}

impl CredentialsManager {
    /// Cached emails are unique: every operation preserves this.
    pub open spec fn wf(&self) -> bool {
        creds_wf(self@.cache)
    }

    /// A manager for this application's service name, with an empty cache.
    pub fn new() -> (r: Self)
        ensures
            r.wf(),
            r@.service == "mailcross"@,
            r@.cache == Seq::<CredPairView>::empty(),
    {
        let r = CredentialsManager { service_name: "mailcross".to_owned(), cache: Vec::new() };
        proof {
            assert(r@.cache =~= Seq::<CredPairView>::empty());
        }
        r
    }

    /// Index of the cached credential for `email`, if any.
    fn find_cred(&self, email: &str) -> (r: Option<usize>)
        ensures
            match r {
                Some(i) => i < self@.cache.len() && self@.cache[i as int].email == email@,
                None => forall|i: int|
                    0 <= i < self@.cache.len() ==> (#[trigger] self@.cache[i]).email != email@,
            },
    {
        let n = self.cache.len();
        let mut i: usize = 0;
        while i < n
            invariant
                i <= n,
                n == self.cache@.len(),
                self@.cache.len() == n,
                forall|k: int| 0 <= k < n ==> self@.cache[k] == (#[trigger] self.cache@[k])@,
                forall|k: int| 0 <= k < i ==> (#[trigger] self@.cache[k]).email != email@,
            decreases n - i,
        {
            if str_eq(self.cache[i].email.as_str(), email) {
                return Some(i);
            }
            i = i + 1;
        }
        None
    }

    /// Writes the cached password for `email`, inserting or replacing.
    fn cache_upsert(&mut self, email: &str, password: &str)
        requires
            old(self).wf(),
        ensures
            final(self).wf(),
            final(self)@.service == old(self)@.service,
            cred_lookup(final(self)@.cache, email@) == Some(password@),
            forall|e: Seq<char>|
                e != email@ ==> #[trigger] cred_lookup(final(self)@.cache, e) == cred_lookup(
                    old(self)@.cache,
                    e,
                ),
    {
        let ghost old_cache = self@.cache;
        match self.find_cred(email) {
            Some(i) => {
                let slot = &mut self.cache[i];
                slot.password = password.to_owned();
                proof {
                    assert(self@.cache =~= old_cache.update(
                        i as int,
                        CredPairView { email: old_cache[i as int].email, password: password@ },
                    ));
                    assert forall|e: Seq<char>| true implies #[trigger] cred_lookup(
                        self@.cache,
                        e,
                    ) == (if e == email@ {
                        Some(password@)
                    } else {
                        cred_lookup(old_cache, e)
                    }) by {
                        lemma_cred_update(old_cache, i as int, password@, e);
                    }
                    assert(creds_wf(self@.cache));
                }
            },
            None => {
                self.cache.push(
                    CredPair { email: email.to_owned(), password: password.to_owned() },
                );
                proof {
                    let p = CredPairView { email: email@, password: password@ };
                    assert(self@.cache =~= old_cache.push(p));
                    assert forall|e: Seq<char>| true implies #[trigger] cred_lookup(
                        self@.cache,
                        e,
                    ) == (if e == email@ {
                        Some(password@)
                    } else {
                        cred_lookup(old_cache, e)
                    }) by {
                        lemma_cred_push(old_cache, p, e);
                    }
                    assert(creds_wf(self@.cache)) by {
                        assert(forall|k: int|
                            0 <= k < old_cache.len() ==> #[trigger] self@.cache[k]
                                == old_cache[k]);
                    }
                }
            },
        }
    }

    /// Stores the password in the platform keyring; on success it is also
    /// cached (write-through). On any failure the cache is unchanged.
    pub fn store_password(&mut self, email: &str, password: &str) -> (r: Result<
        (),
        keyring::Error,
    >)
        requires
            old(self).wf(),
        ensures
            final(self).wf(),
            final(self)@.service == old(self)@.service,
            r is Ok ==> cred_lookup(final(self)@.cache, email@) == Some(password@) && forall|
                e: Seq<char>,
            |
                e != email@ ==> #[trigger] cred_lookup(final(self)@.cache, e) == cred_lookup(
                    old(self)@.cache,
                    e,
                ),
            r is Err ==> final(self)@ == old(self)@,
    {
        let entry = match keyring_entry(self.service_name.as_str(), email) {
            Ok(e) => e,
            Err(e) => {
                return Err(e);
            },
        };
        match keyring_set_password(&entry, password) {
            Ok(_) => {
                self.cache_upsert(email, password);
                Ok(())
            },
            Err(e) => Err(e),
        }
    }

    /// The password for `email`: answered from the cache when present (with
    /// no keyring access), otherwise read through from the keyring and then
    /// cached.
    pub fn get_password(&mut self, email: &str) -> (r: Result<String, keyring::Error>)
        requires
            old(self).wf(),
        ensures
            final(self).wf(),
            final(self)@.service == old(self)@.service,
            match cred_lookup(old(self)@.cache, email@) {
                Some(pw) => r matches Ok(p) && p@ == pw && final(self)@ == old(self)@,
                None => match r {
                    Ok(p) => cred_lookup(final(self)@.cache, email@) == Some(p@) && forall|
                        e: Seq<char>,
                    |
                        e != email@ ==> #[trigger] cred_lookup(final(self)@.cache, e)
                            == cred_lookup(old(self)@.cache, e),
                    Err(_) => final(self)@ == old(self)@,
                },
            },
    {
        match self.find_cred(email) {
            Some(i) => {
                proof {
                    lemma_cred_index(self@.cache, i as int);
                }
                Ok(self.cache[i].password.clone())
            },
            None => {
                proof {
                    lemma_cred_missing(self@.cache, email@);
                }
                let entry = match keyring_entry(self.service_name.as_str(), email) {
                    Ok(e) => e,
                    Err(e) => {
                        return Err(e);
                    },
                };
                match keyring_get_password(&entry) {
                    Ok(password) => {
                        self.cache_upsert(email, password.as_str());
                        Ok(password)
                    },
                    Err(e) => Err(e),
                }
            },
        }
    }

    /// Deletes the stored credential; on success the cached copy is dropped
    /// too. On any failure the cache is unchanged.
    pub fn delete_password(&mut self, email: &str) -> (r: Result<(), keyring::Error>)
        requires
            old(self).wf(),
        ensures
            final(self).wf(),
            final(self)@.service == old(self)@.service,
            r is Ok ==> cred_lookup(final(self)@.cache, email@) is None && forall|e: Seq<char>|
                e != email@ ==> #[trigger] cred_lookup(final(self)@.cache, e) == cred_lookup(
                    old(self)@.cache,
                    e,
                ),
            r is Err ==> final(self)@ == old(self)@,
    {
        let entry = match keyring_entry(self.service_name.as_str(), email) {
            Ok(e) => e,
            Err(e) => {
                return Err(e);
            },
        };
        match keyring_delete(&entry) {
            Ok(_) => {
                let ghost old_cache = self@.cache;
                match self.find_cred(email) {
                    Some(i) => {
                        self.cache.remove(i);
                        proof {
                            assert(self@.cache =~= old_cache.remove(i as int));
                            assert forall|e: Seq<char>| true implies #[trigger] cred_lookup(
                                self@.cache,
                                e,
                            ) == (if e == email@ {
                                None
                            } else {
                                cred_lookup(old_cache, e)
                            }) by {
                                lemma_cred_remove(old_cache, i as int, e);
                            }
                            assert(creds_wf(self@.cache)) by {
                                assert(forall|k: int|
                                    0 <= k < self@.cache.len() ==> #[trigger] self@.cache[k] == (
                                    if k < i { old_cache[k] } else { old_cache[k + 1] }));
                            }
                        }
                    },
                    None => {
                        proof {
                            lemma_cred_missing(self@.cache, email@);
                        }
                    },
                }
                Ok(())
            },
            Err(e) => Err(e),
        }
    }

    /// Whether a credential for `email` is available: always true when it is
    /// cached; otherwise the platform store is probed.
    pub fn has_credentials(&self, email: &str) -> (r: bool)
        requires
            self.wf(),
        ensures
            cred_lookup(self@.cache, email@) is Some ==> r,
    {
        match self.find_cred(email) {
            Some(i) => {
                proof {
                    lemma_cred_index(self@.cache, i as int);
                }
                true
            },
            None => {
                proof {
                    lemma_cred_missing(self@.cache, email@);
                }
                match keyring_entry(self.service_name.as_str(), email) {
                    Ok(entry) => keyring_get_password(&entry).is_ok(),
                    Err(_) => false,
                }
            },
        }
    }
}

} // verus!
