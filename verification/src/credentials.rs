//! The credential store and the credential lifecycle.
//!
//! The store is a keyed persistence layer: at most one credential per
//! account name, overwritten by `put`, looked up by `get`, enumerated by
//! `list` in insertion order. The application persists the same records
//! on disk; this module holds the logic that decides what the records
//! are, when a credential is stale, and how a refresh rotates it.

use vstd::prelude::*;
use crate::errors::SyncError;

verus! {

/// Seconds before expiry within which a credential counts as stale.
pub const REFRESH_MARGIN_SECS: u64 = 60;

/// One account's OAuth material.
pub struct Credential {
    pub access_token: String,
    pub refresh_token: String,
    /// Seconds since the epoch at which the access token expires.
    pub expires_at: u64,
    /// The scopes the user granted at login.
    pub scopes: Vec<String>,
}

/// Copy a vector of strings element by element.
fn clone_strings(v: &Vec<String>) -> (r: Vec<String>)
    ensures
        r@ == v@,
{
    let mut r: Vec<String> = Vec::new();
    let mut i: usize = 0;
    while i < v.len()
        invariant
            i <= v@.len(),
            r@ == v@.take(i as int),
        decreases v@.len() - i,
    {
        r.push(v[i].clone());
        proof {
            assert(r@ =~= v@.take(i + 1));
        }
        i += 1;
    }
    proof {
        assert(r@ =~= v@);
    }
    r
}

impl Credential {
    /// Stale when the expiry lies within the safety margin of `now`.
    pub open spec fn spec_needs_refresh(self, now: u64) -> bool {
        self.expires_at <= now + REFRESH_MARGIN_SECS
    }

    /// Whether a call made now must refresh first.
    pub fn needs_refresh(&self, now: u64) -> (r: bool)
        ensures
            r == self.spec_needs_refresh(now),
    {
        if self.expires_at <= now {
            true
        } else {
            self.expires_at - now <= REFRESH_MARGIN_SECS
        }
    }

    /// The credential after a successful refresh exchange: new access
    /// token and expiry; the refresh token rotates only when the provider
    /// sent a replacement; the granted scopes stay.
    pub fn rotated(&self, access_token: String, refresh_token: Option<String>, expires_at: u64)
        -> (r: Credential)
        ensures
            r.access_token == access_token,
            (match refresh_token {
                Some(t) => r.refresh_token == t,
                None => r.refresh_token == self.refresh_token,
            }),
            r.expires_at == expires_at,
            r.scopes@ == self.scopes@,
    {
        let new_refresh = match refresh_token {
            Some(t) => t,
            None => self.refresh_token.clone(),
        };
        Credential {
            access_token,
            refresh_token: new_refresh,
            expires_at,
            scopes: clone_strings(&self.scopes),
        }
    }

}

/// Index of the first record whose name reads `name`, or -1.
pub open spec fn find_account(entries: Seq<(Seq<char>, Credential)>, name: Seq<char>) -> int
    decreases entries.len(),
{
    if entries.len() == 0 {
        -1
    } else if entries[0].0 == name {
        0
    } else {
        let r = find_account(entries.skip(1), name);
        if r < 0 {
            -1
        } else {
            r + 1
        }
    }
}

/// The credential recorded under `name`, if any.
pub open spec fn lookup(entries: Seq<(Seq<char>, Credential)>, name: Seq<char>) -> Option<
    Credential,
> {
    let j = find_account(entries, name);
    if j < 0 {
        None
    } else {
        Some(entries[j].1)
    }
}

/// `find_account` lands on the first matching record or reports none.
pub proof fn lemma_find_characterization(entries: Seq<(Seq<char>, Credential)>, name: Seq<char>)
    ensures
        find_account(entries, name) == -1 || (0 <= find_account(entries, name)
            < entries.len()),
        find_account(entries, name) == -1 ==> (forall|i: int|
            0 <= i < entries.len() ==> entries[i].0 != name),
        find_account(entries, name) >= 0 ==> entries[find_account(entries, name)].0 == name,
    decreases entries.len(),
{
    if entries.len() > 0 && entries[0].0 != name {
        lemma_find_characterization(entries.skip(1), name);
        let rest = entries.skip(1);
        if find_account(rest, name) == -1 {
            assert forall|i: int| 0 <= i < entries.len() implies entries[i].0 != name by {
                if i > 0 {
                    assert(entries[i] == rest[i - 1]);
                }
            }
        } else {
            assert(entries[find_account(entries, name)] == rest[find_account(rest, name)]);
        }
    }
}

/// A first match at `i` pins the result of `find_account` to `i`.
pub proof fn lemma_find_first(entries: Seq<(Seq<char>, Credential)>, name: Seq<char>, i: int)
    requires
        0 <= i < entries.len(),
        entries[i].0 == name,
        forall|j: int| 0 <= j < i ==> entries[j].0 != name,
    ensures
        find_account(entries, name) == i,
    decreases i,
{
    if i > 0 {
        lemma_find_first(entries.skip(1), name, i - 1);
    }
}

/// No match anywhere means `find_account` reports none.
pub proof fn lemma_find_absent(entries: Seq<(Seq<char>, Credential)>, name: Seq<char>)
    requires
        forall|j: int| 0 <= j < entries.len() ==> entries[j].0 != name,
    ensures
        find_account(entries, name) == -1,
    decreases entries.len(),
{
    if entries.len() > 0 {
        lemma_find_absent(entries.skip(1), name);
    }
}

/// Two record lists with the same names in the same places are searched
/// identically.
pub proof fn lemma_find_same_names(
    e1: Seq<(Seq<char>, Credential)>,
    e2: Seq<(Seq<char>, Credential)>,
    name: Seq<char>,
)
    requires
        e1.len() == e2.len(),
        forall|i: int| 0 <= i < e1.len() ==> e1[i].0 == e2[i].0,
    ensures
        find_account(e1, name) == find_account(e2, name),
    decreases e1.len(),
{
    if e1.len() > 0 {
        lemma_find_same_names(e1.skip(1), e2.skip(1), name);
    }
}

/// How appending a record moves the search result.
pub proof fn lemma_find_push(
    entries: Seq<(Seq<char>, Credential)>,
    x: (Seq<char>, Credential),
    name: Seq<char>,
)
    ensures
        find_account(entries.push(x), name) == (if find_account(entries, name) >= 0 {
            find_account(entries, name)
        } else if x.0 == name {
            entries.len() as int
        } else {
            -1
        }),
    decreases entries.len(),
{
    let pushed = entries.push(x);
    assert(pushed.len() == entries.len() + 1);
    if entries.len() == 0 {
        assert(pushed[0] == x);
        assert(pushed.skip(1) =~= Seq::<(Seq<char>, Credential)>::empty());
        assert(find_account(pushed.skip(1), name) == -1);
    } else {
        assert(pushed[0] == entries[0]);
        assert(pushed.skip(1) =~= entries.skip(1).push(x));
        lemma_find_push(entries.skip(1), x, name);
        assert(find_account(pushed.skip(1), name) == find_account(entries.skip(1).push(x), name));
    }
}

/// The keyed store: at most one credential record per account name,
/// held in insertion order.
pub struct CredentialStore {
    pub accounts: Vec<(String, Credential)>,
}

impl CredentialStore {
    /// The records as names-with-credentials, in storage order.
    pub open spec fn model(self) -> Seq<(Seq<char>, Credential)> {
        self.accounts@.map_values(|e: (String, Credential)| (e.0@, e.1))
    }

    /// At most one record per name.
    pub open spec fn wf(self) -> bool {
        forall|i: int, j: int|
            0 <= i < j < self.model().len() ==> self.model()[i].0 != self.model()[j].0
    }

    /// An empty store: nobody is logged in.
    pub fn new() -> (r: CredentialStore)
        ensures
            r.wf(),
            r.model() == Seq::<(Seq<char>, Credential)>::empty(),
    {
        let r = CredentialStore { accounts: Vec::new() };
        proof {
            assert(r.model() =~= Seq::<(Seq<char>, Credential)>::empty());
        }
        r
    }

    /// Record `cred` under `name`, overwriting any existing record for
    /// that name and keeping every other record as it was.
    pub fn put(&mut self, name: &String, cred: Credential)
        requires
            old(self).wf(),
        ensures
            final(self).wf(),
            lookup(final(self).model(), name@) == Some(cred),
            (forall|n: Seq<char>|
                n != name@ ==> lookup(final(self).model(), n) == lookup(old(self).model(), n)),
            ({
                let j = find_account(old(self).model(), name@);
                if j < 0 {
                    final(self).model() == old(self).model().push((name@, cred))
                } else {
                    final(self).model() == old(self).model().update(j, (name@, cred))
                }
            }),
    {
        let ghost m0 = self.model();
        let n = self.accounts.len();
        let mut i: usize = 0;
        while i < n
            invariant
                n == self.accounts@.len(),
                self.model() == m0,
                old(self).wf(),
                m0 == old(self).model(),
                i <= n,
                forall|j: int| 0 <= j < i ==> m0[j].0 != name@,
            decreases n - i,
        {
            if self.accounts[i].0 == *name {
                proof {
                    lemma_find_first(m0, name@, i as int);
                }
                let slot = &mut self.accounts[i];
                slot.1 = cred;
                proof {
                    let m1 = self.model();
                    assert(m1 =~= m0.update(i as int, (name@, cred)));
                    assert forall|k: int| 0 <= k < m1.len() implies m1[k].0 == m0[k].0 by {}
                    assert forall|a: int, b: int| 0 <= a < b < m1.len() implies m1[a].0
                        != m1[b].0 by {
                        assert(m0[a].0 != m0[b].0);
                    }
                    lemma_find_same_names(m1, m0, name@);
                    assert forall|nm: Seq<char>| nm != name@ implies lookup(m1, nm) == lookup(
                        m0,
                        nm,
                    ) by {
                        lemma_find_same_names(m1, m0, nm);
                        lemma_find_characterization(m0, nm);
                    }
                }
                return ;
            }
            i += 1;
        }
        proof {
            lemma_find_absent(m0, name@);
        }
        self.accounts.push((name.clone(), cred));
        proof {
            let m1 = self.model();
            assert(m1 =~= m0.push((name@, cred)));
            lemma_find_push(m0, (name@, cred), name@);
            assert forall|nm: Seq<char>| nm != name@ implies lookup(m1, nm) == lookup(
                m0,
                nm,
            ) by {
                lemma_find_push(m0, (name@, cred), nm);
                lemma_find_characterization(m0, nm);
            }
        }
    }

    /// The credential recorded for `name`, or `NotFound`.
    pub fn get(&self, name: &String) -> (r: Result<&Credential, SyncError>)
        ensures
            (match r {
                Ok(c) => lookup(self.model(), name@) == Some(*c),
                Err(e) => lookup(self.model(), name@) is None && e == SyncError::NotFound,
            }),
    {
        let mut i: usize = 0;
        let n = self.accounts.len();
        while i < n
            invariant
                n == self.accounts@.len(),
                i <= n,
                forall|j: int| 0 <= j < i ==> self.model()[j].0 != name@,
            decreases n - i,
        {
            if self.accounts[i].0 == *name {
                proof {
                    lemma_find_first(self.model(), name@, i as int);
                }
                return Ok(&self.accounts[i].1);
            }
            i += 1;
        }
        proof {
            lemma_find_absent(self.model(), name@);
        }
        Err(SyncError::NotFound)
    }

    /// The known account names, in storage order (stable within a run).
    pub fn list(&self) -> (r: Vec<String>)
        ensures
            r@.len() == self.model().len(),
            forall|i: int| 0 <= i < r@.len() ==> r@[i]@ == self.model()[i].0,
    {
        let mut r: Vec<String> = Vec::new();
        let mut i: usize = 0;
        let n = self.accounts.len();
        while i < n
            invariant
                n == self.accounts@.len(),
                i <= n,
                r@.len() == i,
                forall|j: int| 0 <= j < i ==> r@[j]@ == self.model()[j].0,
            decreases n - i,
        {
            r.push(self.accounts[i].0.clone());
            i += 1;
        }
        r
    }
}

} // verus!
