//! The credential store: a single slot holding one user's verifier record.
//! The record's cryptographic values — the verifier point, the salt or the
//! secret exponent, and the password-hash parameter string — pass through
//! the core as opaque bytes; only the username takes part in its logic.
//!
//! The bound `USERSIZE` on the username's length is a configuration
//! constant: a longer username is rejected whole, never truncated, and a
//! rejected store leaves the slot exactly as it was. The rejection is
//! silent by design — the peer is never told.

use vstd::prelude::*;
use vstd::slice::slice_to_vec;

verus! {

/// A stored record, in the model: username, verifier, salt-or-exponent,
/// parameter string.
pub struct RecordView {
    pub username: Seq<u8>,
    pub verifier: Seq<u8>,
    pub salt_or_exponent: Seq<u8>,
    pub params: Seq<u8>,
}

/// Password-verifier store with room for the credentials of one user.
/// Re-registration overwrites the slot.
pub struct SingleUserDatabase<const USERSIZE: usize> {
    user: Option<Vec<u8>>,
    data: Option<(Vec<u8>, Vec<u8>, Vec<u8>)>,
}

impl<const USERSIZE: usize> SingleUserDatabase<USERSIZE> {
    /// The slot is either empty or holds a username within the bound
    /// together with its record.
    pub closed spec fn wf(&self) -> bool {
        &&& self.user is Some <==> self.data is Some
        &&& self.user is Some ==> self.user.unwrap()@.len() <= USERSIZE
    }

    /// The stored record, if any.
    pub closed spec fn record(&self) -> Option<RecordView> {
        match (self.user, self.data) {
            (Some(u), Some((v, s, p))) => Some(
                RecordView {
                    username: u@,
                    verifier: v@,
                    salt_or_exponent: s@,
                    params: p@,
                },
            ),
            _ => None,
        }
    }

    /// An empty store.
    pub fn new() -> (r: Self)
        ensures
            r.wf(),
            r.record() is None,
    {
        SingleUserDatabase { user: None, data: None }
    }

    /// Looks up the verifier record for a username: the verifier, the salt,
    /// and the parameter string, exactly when the slot holds that username.
    pub fn lookup_verifier(&self, username: &[u8]) -> (r: Option<(Vec<u8>, Vec<u8>, Vec<u8>)>)
        requires
            self.wf(),
        ensures
            match r {
                Some(t) => {
                    &&& self.record() is Some
                    &&& self.record().unwrap().username == username@
                    &&& t.0@ == self.record().unwrap().verifier
                    &&& t.1@ == self.record().unwrap().salt_or_exponent
                    &&& t.2@ == self.record().unwrap().params
                },
                None => self.record() is None || self.record().unwrap().username != username@,
            },
    {
        match (&self.user, &self.data) {
            (Some(u), Some((v, s, p))) => {
                if bytes_eq(u.as_slice(), username) {
                    Some((slice_to_vec(v.as_slice()), slice_to_vec(s.as_slice()), slice_to_vec(p.as_slice())))
                } else {
                    None
                }
            },
            _ => None,
        }
    }

    /// The strong variant of the lookup: the same slot, with the stored
    /// bytes read as the verifier, the secret exponent, and the parameters.
    pub fn lookup_verifier_strong(&self, username: &[u8]) -> (r: Option<
        (Vec<u8>, Vec<u8>, Vec<u8>),
    >)
        requires
            self.wf(),
        ensures
            match r {
                Some(t) => {
                    &&& self.record() is Some
                    &&& self.record().unwrap().username == username@
                    &&& t.0@ == self.record().unwrap().verifier
                    &&& t.1@ == self.record().unwrap().salt_or_exponent
                    &&& t.2@ == self.record().unwrap().params
                },
                None => self.record() is None || self.record().unwrap().username != username@,
            },
    {
        self.lookup_verifier(username)
    }

    /// Stores a verifier record for a username, overwriting whatever the
    /// slot held. A username longer than the bound is silently ignored: the
    /// store is left unchanged from its prior state.
    pub fn store_verifier(
        &mut self,
        username: &[u8],
        salt: Vec<u8>,
        _uad: Option<&[u8]>,
        verifier: Vec<u8>,
        params: Vec<u8>,
    )
        requires
            old(self).wf(),
        ensures
            final(self).wf(),
            username@.len() <= USERSIZE ==> final(self).record() == Some(
                RecordView {
                    username: username@,
                    verifier: verifier@,
                    salt_or_exponent: salt@,
                    params: params@,
                },
            ),
            username@.len() > USERSIZE ==> final(self).record() == old(self).record(),
    {
        if username.len() <= USERSIZE {
            self.user = Some(slice_to_vec(username));
            self.data = Some((verifier, salt, params));
        }
    }

    /// The strong variant of the store: the secret exponent takes the salt's
    /// place in the slot. The same silent bound applies.
    pub fn store_verifier_strong(
        &mut self,
        username: &[u8],
        _uad: Option<&[u8]>,
        verifier: Vec<u8>,
        secret_exponent: Vec<u8>,
        params: Vec<u8>,
    )
        requires
            old(self).wf(),
        ensures
            final(self).wf(),
            username@.len() <= USERSIZE ==> final(self).record() == Some(
                RecordView {
                    username: username@,
                    verifier: verifier@,
                    salt_or_exponent: secret_exponent@,
                    params: params@,
                },
            ),
            username@.len() > USERSIZE ==> final(self).record() == old(self).record(),
    {
        self.store_verifier(username, secret_exponent, _uad, verifier, params);
    }
}

impl<const USERSIZE: usize> Default for SingleUserDatabase<USERSIZE> {
    /// The default store is empty.
    fn default() -> (r: Self)
        ensures
            r.wf(),
            r.record() is None,
    {
        SingleUserDatabase::new()
    }
}

/// Byte-for-byte equality of two slices.
pub fn bytes_eq(a: &[u8], b: &[u8]) -> (r: bool)
    ensures
        r == (a@ == b@),
{
    if a.len() != b.len() {
        proof {
            assert(a@ != b@);
        }
        return false;
    }
    let mut i: usize = 0;
    while i < a.len()
        invariant
            i <= a.len(),
            a@.len() == b@.len(),
            forall|j: int| 0 <= j < i ==> a@[j] == b@[j],
        decreases a.len() - i,
    {
        if a[i] != b[i] {
            proof {
                assert(a@[i as int] != b@[i as int]);
            }
            return false;
        }
        i += 1;
    }
    proof {
        assert(a@ =~= b@);
    }
    true
}

} // verus!
