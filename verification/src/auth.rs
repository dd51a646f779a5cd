use vstd::prelude::*;

verus! {

use crate::assoc::{assoc_map, find_index, lemma_assoc_absent, lemma_assoc_found,
    lemma_assoc_push, lemma_assoc_remove, nodup_keys};
use crate::chaum_pedersen::{check_passes, ChaumPedersenVerifier};
use crate::generator::default_group;
use crate::token::{generate_random_string, is_token_char};

/// The error taxonomy of the coordinator. `Overflow` is reserved for numeric
/// boundary crossings at the wire, where a transported value does not fit.
#[derive(Clone, Copy, PartialEq, Eq, Structural, Debug)]
pub enum AuthError {
    AlreadyExists,
    UnknownUser,
    UnknownToken,
    VerificationFailed,
    Overflow,
}

/// The coordinator's shared state: three independent maps, kept as
/// association lists with distinct keys.
pub struct MyAuthState {
    pub verifiers: Vec<(String, ChaumPedersenVerifier)>,
    pub auth_ids: Vec<(String, String)>,
    pub sessions: Vec<(String, String)>,
}

/// Server-side session coordinator: usernames to verifiers, pending auth
/// tokens to usernames, and completed session tokens to usernames.
///
/// The coordinator is a sequential state machine; a caller that serves
/// concurrent requests must hold one lock around each whole call, which
/// scopes the lock per request rather than per map access and so keeps two
/// requests for the same username from interleaving.
pub struct MyAuth {
    pub state: MyAuthState,
}

/// A freshly registered verifier for the given public commitments.
pub open spec fn fresh_verifier(y1: u64, y2: u64) -> ChaumPedersenVerifier {
    ChaumPedersenVerifier { g: default_group(), y1, y2, r1: 0, r2: 0, c: 0, s: 0 }
}

/// A 32-character token over the alphanumeric alphabet.
pub open spec fn valid_token(t: Seq<char>) -> bool {
    t.len() == 32 && forall|i: int| 0 <= i < t.len() ==> is_token_char(#[trigger] t[i])
}

impl MyAuth {
    /// The map from usernames to their verifiers.
    pub open spec fn verifiers_map(self) -> Map<Seq<char>, ChaumPedersenVerifier> {
        assoc_map(self.state.verifiers@)
    }

    /// The map from pending auth tokens to usernames.
    pub open spec fn auth_ids_map(self) -> Map<Seq<char>, String> {
        assoc_map(self.state.auth_ids@)
    }

    /// The map from completed session tokens to usernames.
    pub open spec fn sessions_map(self) -> Map<Seq<char>, String> {
        assoc_map(self.state.sessions@)
    }

    /// Well-formedness: keys are distinct, every pending token names a
    /// registered user, and every stored verifier works over the default
    /// group.
    pub open spec fn wf(self) -> bool {
        &&& nodup_keys(self.state.verifiers@)
        &&& nodup_keys(self.state.auth_ids@)
        &&& nodup_keys(self.state.sessions@)
        &&& forall|i: int|
            0 <= i < self.state.auth_ids@.len() ==> self.verifiers_map().contains_key(
                (#[trigger] self.state.auth_ids@[i].1)@,
            )
        &&& forall|i: int|
            0 <= i < self.state.verifiers@.len() ==> (#[trigger] self.state.verifiers@[i].1).g
                == default_group()
    }

    /// An empty coordinator.
    pub fn new() -> (a: MyAuth)
        ensures
            a.wf(),
            a.verifiers_map() == Map::<Seq<char>, ChaumPedersenVerifier>::empty(),
            a.auth_ids_map() == Map::<Seq<char>, String>::empty(),
            a.sessions_map() == Map::<Seq<char>, String>::empty(),
    {
        MyAuth {
            state: MyAuthState { verifiers: Vec::new(), auth_ids: Vec::new(), sessions: Vec::new() },
        }
    }

    /// Registers a username with its public commitments. Fails with
    /// `AlreadyExists` exactly when the username is already present;
    /// otherwise stores a fresh verifier and changes nothing else.
    pub fn register(&mut self, username: String, y1: u64, y2: u64) -> (r: Result<(), AuthError>)
        requires
            old(self).wf(),
        ensures
            final(self).wf(),
            old(self).verifiers_map().contains_key(username@) ==> {
                &&& r == Err::<(), AuthError>(AuthError::AlreadyExists)
                &&& final(self).verifiers_map() == old(self).verifiers_map()
                &&& final(self).auth_ids_map() == old(self).auth_ids_map()
                &&& final(self).sessions_map() == old(self).sessions_map()
            },
            !old(self).verifiers_map().contains_key(username@) ==> {
                &&& r == Ok::<(), AuthError>(())
                &&& final(self).verifiers_map() == old(self).verifiers_map().insert(
                    username@,
                    fresh_verifier(y1, y2),
                )
                &&& final(self).auth_ids_map() == old(self).auth_ids_map()
                &&& final(self).sessions_map() == old(self).sessions_map()
            },
    {
        match find_index(&self.state.verifiers, &username) {
            Some(i) => {
                proof {
                    lemma_assoc_found(self.state.verifiers@, i as int);
                }
                Err(AuthError::AlreadyExists)
            },
            None => {
                proof {
                    lemma_assoc_absent(self.state.verifiers@, username@);
                }
                let v = ChaumPedersenVerifier::new(y1, y2);
                let ghost before = self.state.verifiers@;
                self.state.verifiers.push((username, v));
                proof {
                    lemma_assoc_push(before, self.state.verifiers@.last().0, v);
                }
                Ok(())
            },
        }
    }

    /// Issues a challenge for a registered username: stores the received
    /// commitment in the user's verifier, draws a fresh challenge, and binds
    /// a fresh single-use auth token to the username. Fails with
    /// `UnknownUser` exactly when the username is absent.
    pub fn create_authentication_challenge(
        &mut self,
        username: String,
        r1: u64,
        r2: u64,
    ) -> (r: Result<(String, u64), AuthError>)
        requires
            old(self).wf(),
        ensures
            final(self).wf(),
            !old(self).verifiers_map().contains_key(username@) ==> {
                &&& r == Err::<(String, u64), AuthError>(AuthError::UnknownUser)
                &&& final(self).verifiers_map() == old(self).verifiers_map()
                &&& final(self).auth_ids_map() == old(self).auth_ids_map()
                &&& final(self).sessions_map() == old(self).sessions_map()
            },
            old(self).verifiers_map().contains_key(username@) ==> (r matches Ok(tc) && {
                let v = old(self).verifiers_map()[username@];
                &&& valid_token(tc.0@)
                &&& 1 <= tc.1 < default_group().p
                &&& final(self).verifiers_map() == old(self).verifiers_map().insert(
                    username@,
                    (ChaumPedersenVerifier { r1, r2, c: tc.1, ..v }),
                )
                &&& final(self).auth_ids_map() == old(self).auth_ids_map().insert(
                    tc.0@,
                    username,
                )
                &&& final(self).sessions_map() == old(self).sessions_map()
            }),
    {
        match find_index(&self.state.verifiers, &username) {
            None => {
                proof {
                    lemma_assoc_absent(self.state.verifiers@, username@);
                }
                Err(AuthError::UnknownUser)
            },
            Some(i) => {
                proof {
                    lemma_assoc_found(self.state.verifiers@, i as int);
                    lemma_assoc_remove(self.state.verifiers@, i as int);
                }
                let (name, mut v) = self.state.verifiers.remove(i);
                let c = v.verify_sync_a(r1, r2);
                let ghost shrunk = self.state.verifiers@;
                self.state.verifiers.push((name, v));
                proof {
                    lemma_assoc_push(shrunk, self.state.verifiers@.last().0, v);
                    assert(self.verifiers_map() =~= old(self).verifiers_map().insert(
                        username@,
                        (ChaumPedersenVerifier {
                            r1,
                            r2,
                            c,
                            ..old(self).verifiers_map()[username@]
                        }),
                    ));
                }
                let token = generate_random_string(32);
                self.insert_auth_id(token.clone(), username);
                Ok((token, c))
            },
        }
    }

    /// Consumes a pending auth token and checks the response. The token is
    /// removed whatever the outcome; on a passing check a fresh session
    /// token is minted and bound to the user, otherwise the call fails with
    /// `VerificationFailed`. Fails with `UnknownToken` exactly when the
    /// token is absent.
    pub fn verify_authentication(&mut self, auth_id: String, s: u64) -> (r: Result<
        String,
        AuthError,
    >)
        requires
            old(self).wf(),
        ensures
            final(self).wf(),
            !old(self).auth_ids_map().contains_key(auth_id@) ==> {
                &&& r == Err::<String, AuthError>(AuthError::UnknownToken)
                &&& final(self).verifiers_map() == old(self).verifiers_map()
                &&& final(self).auth_ids_map() == old(self).auth_ids_map()
                &&& final(self).sessions_map() == old(self).sessions_map()
            },
            old(self).auth_ids_map().contains_key(auth_id@) ==> {
                let user = old(self).auth_ids_map()[auth_id@];
                let v = old(self).verifiers_map()[user@];
                &&& final(self).auth_ids_map() == old(self).auth_ids_map().remove(auth_id@)
                &&& final(self).verifiers_map() == old(self).verifiers_map().insert(
                    user@,
                    (ChaumPedersenVerifier { s, ..v }),
                )
                &&& (check_passes(v, s) ==> (r matches Ok(tok) && valid_token(tok@)
                    && final(self).sessions_map() == old(self).sessions_map().insert(tok@, user)))
                &&& (!check_passes(v, s) ==> r == Err::<String, AuthError>(
                    AuthError::VerificationFailed,
                ) && final(self).sessions_map() == old(self).sessions_map())
            },
    {
        match find_index(&self.state.auth_ids, &auth_id) {
            None => {
                proof {
                    lemma_assoc_absent(self.state.auth_ids@, auth_id@);
                }
                Err(AuthError::UnknownToken)
            },
            Some(j) => {
                proof {
                    lemma_assoc_found(self.state.auth_ids@, j as int);
                    lemma_assoc_remove(self.state.auth_ids@, j as int);
                }
                // the token entry is consumed before the check runs
                let (_tk, user) = self.state.auth_ids.remove(j);
                let idx = match find_index(&self.state.verifiers, &user) {
                    Some(idx) => idx,
                    None => {
                        proof {
                            lemma_assoc_absent(self.state.verifiers@, user@);
                            assert(false);
                        }
                        return Err(AuthError::UnknownUser);
                    },
                };
                proof {
                    lemma_assoc_found(self.state.verifiers@, idx as int);
                    lemma_assoc_remove(self.state.verifiers@, idx as int);
                }
                let (name, mut v) = self.state.verifiers.remove(idx);
                let ok = v.verify_sync_b(s);
                let ghost shrunk = self.state.verifiers@;
                self.state.verifiers.push((name, v));
                proof {
                    lemma_assoc_push(shrunk, self.state.verifiers@.last().0, v);
                    assert(self.verifiers_map() =~= old(self).verifiers_map().insert(
                        user@,
                        (ChaumPedersenVerifier {
                            s,
                            ..old(self).verifiers_map()[user@]
                        }),
                    ));
                }
                if ok {
                    let session = generate_random_string(32);
                    self.insert_session(session.clone(), user);
                    Ok(session)
                } else {
                    Err(AuthError::VerificationFailed)
                }
            },
        }
    }

    /// Binds an auth token to a username, overwriting any earlier binding of
    /// the same token.
    fn insert_auth_id(&mut self, token: String, username: String)
        requires
            nodup_keys(old(self).state.auth_ids@),
        ensures
            final(self).state.verifiers@ == old(self).state.verifiers@,
            final(self).state.sessions@ == old(self).state.sessions@,
            nodup_keys(final(self).state.auth_ids@),
            final(self).auth_ids_map() == old(self).auth_ids_map().insert(token@, username),
            forall|i: int|
                0 <= i < final(self).state.auth_ids@.len()
                    ==> (#[trigger] final(self).state.auth_ids@[i].1)@ == username@
                    || exists|j: int|
                        0 <= j < old(self).state.auth_ids@.len()
                            && (#[trigger] old(self).state.auth_ids@[j].1)@
                                == final(self).state.auth_ids@[i].1@,
    {
        if let Some(j) = find_index(&self.state.auth_ids, &token) {
            proof {
                lemma_assoc_remove(self.state.auth_ids@, j as int);
            }
            self.state.auth_ids.remove(j);
        } else {
            proof {
                lemma_assoc_absent(self.state.auth_ids@, token@);
            }
        }
        let ghost mid = self.state.auth_ids@;
        proof {
            lemma_assoc_absent(mid, token@);
        }
        self.state.auth_ids.push((token, username));
        proof {
            lemma_assoc_push(mid, self.state.auth_ids@.last().0, self.state.auth_ids@.last().1);
            assert(self.auth_ids_map() =~= old(self).auth_ids_map().insert(
                self.state.auth_ids@.last().0@,
                username,
            ));
        }
    }

    /// Binds a session token to a username, overwriting any earlier binding
    /// of the same token.
    fn insert_session(&mut self, token: String, username: String)
        requires
            nodup_keys(old(self).state.sessions@),
        ensures
            final(self).state.verifiers@ == old(self).state.verifiers@,
            final(self).state.auth_ids@ == old(self).state.auth_ids@,
            nodup_keys(final(self).state.sessions@),
            final(self).sessions_map() == old(self).sessions_map().insert(token@, username),
    {
        if let Some(j) = find_index(&self.state.sessions, &token) {
            proof {
                lemma_assoc_remove(self.state.sessions@, j as int);
            }
            self.state.sessions.remove(j);
        } else {
            proof {
                lemma_assoc_absent(self.state.sessions@, token@);
            }
        }
        let ghost mid = self.state.sessions@;
        proof {
            lemma_assoc_absent(mid, token@);
        }
        self.state.sessions.push((token, username));
        proof {
            lemma_assoc_push(mid, self.state.sessions@.last().0, self.state.sessions@.last().1);
            assert(self.sessions_map() =~= old(self).sessions_map().insert(
                self.state.sessions@.last().0@,
                username,
            ));
        }
    }
}

} // verus!
