//! The state that the protocol keeps: the commitments of the registered
//! users, by user identifier, and the open challenges, by challenge
//! identifier. The two maps are independent of each other.

use crate::bignat::BigNat;
use crate::error::AuthError;
use vstd::hash_map::StringHashMap;
use vstd::prelude::*;

verus! {

/// What is kept of a registered user: the commitments `y1 = g^x mod p` and
/// `y2 = h^x mod p` to the secret `x`.
#[derive(Debug)]
pub struct UserRecord {
    pub y1: BigNat,
    pub y2: BigNat,
}

/// A user's commitments as numbers.
pub struct UserRecordView {
    pub y1: nat,
    pub y2: nat,
}

impl View for UserRecord {
    type V = UserRecordView;

    open spec fn view(&self) -> UserRecordView {
        UserRecordView { y1: self.y1@, y2: self.y2@ }
    }
}

/// An open challenge: the user it was issued to, the commitments
/// `r1 = g^k mod p` and `r2 = h^k mod p` to the prover's nonce `k`, and the
/// challenge `c` that the verifier chose.
#[derive(Debug)]
pub struct ChallengeSession {
    pub user_id: String,
    pub r1: BigNat,
    pub r2: BigNat,
    pub c: BigNat,
}

/// An open challenge as a string and three numbers.
pub struct SessionView {
    pub user_id: Seq<char>,
    pub r1: nat,
    pub r2: nat,
    pub c: nat,
}

impl View for ChallengeSession {
    type V = SessionView;

    open spec fn view(&self) -> SessionView {
        SessionView { user_id: self.user_id@, r1: self.r1@, r2: self.r2@, c: self.c@ }
    }
}

/// The two maps of the store.
pub struct StoreState {
    pub users: Map<Seq<char>, UserRecordView>,
    pub sessions: Map<Seq<char>, SessionView>,
}

impl StoreState {
    /// The store that holds nothing.
    pub open spec fn empty() -> StoreState {
        StoreState { users: Map::empty(), sessions: Map::empty() }
    }

    /// The store after `user_id` has been given the commitments `y1` and
    /// `y2`, in place of any it had.
    pub open spec fn with_user(self, user_id: Seq<char>, y1: nat, y2: nat) -> StoreState {
        StoreState { users: self.users.insert(user_id, UserRecordView { y1, y2 }), ..self }
    }

    /// The store after `session` has been filed under `auth_id`.
    pub open spec fn with_session(self, auth_id: Seq<char>, session: SessionView) -> StoreState {
        StoreState { sessions: self.sessions.insert(auth_id, session), ..self }
    }
}

/// The store of registered users and open challenges.
pub struct StateStore {
    users: StringHashMap<UserRecord>,
    sessions: StringHashMap<ChallengeSession>,
}

impl View for StateStore {
    type V = StoreState;

    closed spec fn view(&self) -> StoreState {
        StoreState {
            users: self.users@.map_values(|record: UserRecord| record@),
            sessions: self.sessions@.map_values(|session: ChallengeSession| session@),
        }
    }
}

impl StateStore {
    /// A store that holds nothing.
    pub fn new() -> (out: StateStore)
        ensures
            out@ == StoreState::empty(),
    {
        let out = StateStore { users: StringHashMap::new(), sessions: StringHashMap::new() };
        assert(out@.users =~= Map::empty());
        assert(out@.sessions =~= Map::empty());
        out
    }

    /// Files the commitments of a user. A user that is registered already
    /// gets the new commitments in place of the old ones.
    pub fn put_user(&mut self, user_id: String, y1: BigNat, y2: BigNat)
        ensures
            final(self)@ == old(self)@.with_user(user_id@, y1@, y2@),
    {
        let ghost key = user_id@;
        let ghost record = (UserRecord { y1, y2 })@;
        self.users.insert(user_id, UserRecord { y1, y2 });
        assert(self@.users =~= old(self)@.users.insert(key, record));
    }

    /// The commitments of a user, or `NotFound` where the user is not
    /// registered.
    pub fn get_user(&self, user_id: &str) -> (out: Result<&UserRecord, AuthError>)
        ensures
            match out {
                Ok(record) => self@.users.contains_key(user_id@) && record@
                    == self@.users[user_id@],
                Err(e) => !self@.users.contains_key(user_id@) && e == AuthError::NotFound,
            },
    {
        match self.users.get(user_id) {
            Some(record) => Ok(record),
            None => Err(AuthError::NotFound),
        }
    }

    /// Files a new challenge. An identifier that is taken already is not
    /// overwritten: the store stays as it is and the failure is `Internal`.
    pub fn put_session(&mut self, auth_id: String, session: ChallengeSession) -> (out: Result<
        (),
        AuthError,
    >)
        ensures
            match out {
                Ok(_) => !old(self)@.sessions.contains_key(auth_id@) && final(self)@ == old(
                    self,
                )@.with_session(auth_id@, session@),
                Err(e) => old(self)@.sessions.contains_key(auth_id@) && e == AuthError::Internal
                    && final(self)@ == old(self)@,
            },
    {
        if self.sessions.contains_key(auth_id.as_str()) {
            return Err(AuthError::Internal);
        }
        let ghost key = auth_id@;
        let ghost filed = session@;
        self.sessions.insert(auth_id, session);
        assert(self@.sessions =~= old(self)@.sessions.insert(key, filed));
        Ok(())
    }

    /// The challenge filed under an identifier, or `NotFound` where there is
    /// none.
    pub fn get_session(&self, auth_id: &str) -> (out: Result<&ChallengeSession, AuthError>)
        ensures
            match out {
                Ok(session) => self@.sessions.contains_key(auth_id@) && session@
                    == self@.sessions[auth_id@],
                Err(e) => !self@.sessions.contains_key(auth_id@) && e == AuthError::NotFound,
            },
    {
        match self.sessions.get(auth_id) {
            Some(session) => Ok(session),
            None => Err(AuthError::NotFound),
        }
    }
}

} // verus!
