//! The credential store adapter: every credential is a secret string under
//! a `username@host` key, stored through the minimal vault interface —
//! store, existence check, delete — with one round trip per call and no
//! in-process caching. An absent entry is an answer, never an error.

use vstd::prelude::*;
use crate::store::KeyedStore;
use crate::text::key_for;
use crate::text::key_of;

verus! {

/// What deleting a credential reports: it was removed, or nothing was
/// stored under the key.
#[derive(Debug, Clone, Copy, PartialEq, Eq)]
pub enum VaultDelete {
    Deleted,
    NotFound,
}

/// The vault: the secret store behind the adapter. Its view is the map of
/// held credentials. `Err` is a vault failure — backend unreachable,
/// permission refused — and is kept apart from an entry simply not being
/// there, which the answers express directly.
pub trait Vault {
    /// The credentials the vault holds, key text to secret text.
    spec fn entries(&self) -> Map<Seq<char>, Seq<char>>;

    /// Stores `secret` under `key`, overwriting what was there.
    fn set(&mut self, key: &str, secret: &str) -> (r: Result<(), String>)
        ensures
            r matches Ok(_) ==> final(self).entries() == old(self).entries().insert(
                key@,
                secret@,
            ),
            r matches Err(_) ==> final(self).entries() == old(self).entries(),
    ;

    /// The secret under `key`, or `None` if nothing is stored there.
    fn get(&self, key: &str) -> (r: Result<Option<String>, String>)
        ensures
            r matches Ok(Some(secret)) ==> self.entries().contains_key(key@) && secret@
                == self.entries()[key@],
            r matches Ok(None) ==> !self.entries().contains_key(key@),
    ;

    /// Removes the secret under `key`, reporting whether one was there.
    fn delete(&mut self, key: &str) -> (r: Result<VaultDelete, String>)
        ensures
            r matches Ok(d) ==> ((d == VaultDelete::Deleted <==> old(self).entries().contains_key(
                key@,
            )) && final(self).entries() == old(self).entries().remove(key@)),
            r matches Err(_) ==> final(self).entries() == old(self).entries(),
    ;
}

/// An in-memory vault: the shipped implementation, used by tests and by any
/// caller without an OS secret store.
pub struct MemVault {
    store: KeyedStore<String>,
}

impl MemVault {
    #[verifier::type_invariant]
    spec fn inv(&self) -> bool {
        self.store.wf()
    }

    /// An empty vault.
    pub fn new() -> (v: Self)
        ensures
            v.entries() == Map::<Seq<char>, Seq<char>>::empty(),
    {
        let v = MemVault { store: KeyedStore::new() };
        proof {
            assert(v.entries() =~= Map::<Seq<char>, Seq<char>>::empty());
        }
        v
    }
}

impl Vault for MemVault {
    closed spec fn entries(&self) -> Map<Seq<char>, Seq<char>> {
        self.store@.map_values(|v: String| v@)
    }

    fn set(&mut self, key: &str, secret: &str) -> (r: Result<(), String>) {
        proof {
            use_type_invariant(&*self);
        }
        let mut store = KeyedStore::new();
        core::mem::swap(&mut store, &mut self.store);
        store.insert(key, secret.to_owned());
        core::mem::swap(&mut store, &mut self.store);
        proof {
            assert(final(self).entries() =~= old(self).entries().insert(key@, secret@));
        }
        Ok(())
    }

    fn get(&self, key: &str) -> (r: Result<Option<String>, String>) {
        proof {
            use_type_invariant(&*self);
        }
        match self.store.get(key) {
            Some(v) => {
                let secret = v.clone();
                proof {
                    assert(self.entries().contains_key(key@));
                    assert(self.entries()[key@] == self.store@[key@]@);
                }
                Ok(Some(secret))
            },
            None => {
                proof {
                    assert(!self.entries().contains_key(key@));
                }
                Ok(None)
            },
        }
    }

    fn delete(&mut self, key: &str) -> (r: Result<VaultDelete, String>) {
        proof {
            use_type_invariant(&*self);
        }
        let mut store = KeyedStore::new();
        core::mem::swap(&mut store, &mut self.store);
        let removed = store.remove(key);
        core::mem::swap(&mut store, &mut self.store);
        proof {
            assert(final(self).entries() =~= old(self).entries().remove(key@));
        }
        match removed {
            Some(_) => {
                proof {
                    assert(old(self).entries().contains_key(key@));
                }
                Ok(VaultDelete::Deleted)
            },
            None => {
                proof {
                    assert(!old(self).entries().contains_key(key@));
                }
                Ok(VaultDelete::NotFound)
            },
        }
    }
}

/// Stores an SSH credential for `username` on `host`. Empty host or
/// username is rejected without touching the vault.
pub fn store_ssh_credential<V: Vault>(
    vault: &mut V,
    host: &str,
    username: &str,
    password: &str,
) -> (r: Result<(), String>)
    ensures
        host@.len() == 0 || username@.len() == 0 ==> (r matches Err(m)
            && m@ == "host and username must not be empty"@),
        r matches Ok(_) ==> host@.len() > 0 && username@.len() > 0 && final(vault).entries()
            == old(vault).entries().insert(key_of(username@, host@), password@),
        r matches Err(_) ==> final(vault).entries() == old(vault).entries(),
{
    if host.is_empty() || username.is_empty() {
        return Err("host and username must not be empty".to_owned());
    }
    let key = key_for(username, host);
    vault.set(key.as_str(), password)
}

/// Whether a credential exists for `username` on `host`: an existence check
/// only, the secret itself is never handed out. A key that was never stored
/// answers `false`; only a vault failure is an error.
pub fn has_ssh_credential<V: Vault>(vault: &V, host: &str, username: &str) -> (r: Result<
    bool,
    String,
>)
    ensures
        host@.len() == 0 || username@.len() == 0 ==> (r matches Err(m) && m@
            == "host and username must not be empty"@),
        r matches Ok(b) ==> host@.len() > 0 && username@.len() > 0 && b
            == vault.entries().contains_key(key_of(username@, host@)),
{
    if host.is_empty() || username.is_empty() {
        return Err("host and username must not be empty".to_owned());
    }
    let key = key_for(username, host);
    match vault.get(key.as_str()) {
        Ok(Some(_)) => Ok(true),
        Ok(None) => Ok(false),
        Err(e) => Err(e),
    }
}

/// Deletes the credential for `username` on `host`, saying whether one was
/// there: an absent entry is `NotFound`, not an error.
pub fn delete_ssh_credential<V: Vault>(vault: &mut V, host: &str, username: &str) -> (r: Result<
    VaultDelete,
    String,
>)
    ensures
        host@.len() == 0 || username@.len() == 0 ==> (r matches Err(m)
            && m@ == "host and username must not be empty"@),
        r matches Ok(d) ==> host@.len() > 0 && username@.len() > 0
            && (d == VaultDelete::Deleted <==> old(vault).entries().contains_key(
            key_of(username@, host@)))
            && final(vault).entries() == old(vault).entries().remove(key_of(username@, host@)),
        r matches Err(_) ==> final(vault).entries() == old(vault).entries(),
{
    if host.is_empty() || username.is_empty() {
        return Err("host and username must not be empty".to_owned());
    }
    let key = key_for(username, host);
    vault.delete(key.as_str())
}

/// The credential round trip: storing a secret makes the existence check
/// find it, and deleting it afterwards makes the check fail again — on a
/// key never stored, deletion restores the vault exactly as it was. With
/// `has_ssh_credential` answering `contains_key`, this is the check's
/// false / true / false arc.
pub proof fn lemma_credential_round_trip(
    m: Map<Seq<char>, Seq<char>>,
    key: Seq<char>,
    secret: Seq<char>,
)
    ensures
        m.insert(key, secret).contains_key(key),
        !m.insert(key, secret).remove(key).contains_key(key),
        !m.contains_key(key) ==> m.insert(key, secret).remove(key) == m,
{
    if !m.contains_key(key) {
        assert(m.insert(key, secret).remove(key) =~= m);
    }
}

} // verus!
