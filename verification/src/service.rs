//! The verifying service: registration, challenge and verification.
//!
//! The service owns the public parameters and the store. A user is first
//! registered with two commitments; a registered user is then issued a
//! challenge, which stays open; a response to an open challenge is accepted
//! or rejected, any number of times.

use crate::bignat::{decode, encode, random_number, BigNat};
use crate::encoding::{be_bytes, be_value};
use crate::error::AuthError;
use crate::modular::pow_mod;
use crate::params::{Params, ParamsView};
use crate::protocol::{
    accepts, lemma_honest_response_accepted, lemma_next_response_rejected, response, verify,
};
use crate::soundness::{is_prime, lemma_at_most_one_challenge};
use crate::store::{ChallengeSession, SessionView, StateStore, StoreState, UserRecordView};
use crate::token::fresh_token;
use vstd::prelude::*;

verus! {

/// The state of the service: its parameters and what its store holds.
pub struct AuthView {
    pub params: ParamsView,
    pub store: StoreState,
}

impl AuthView {
    /// The state after `user_id` has registered the commitments `y1` and
    /// `y2`.
    pub open spec fn registered(self, user_id: Seq<char>, y1: nat, y2: nat) -> AuthView {
        AuthView { store: self.store.with_user(user_id, y1, y2), ..self }
    }

    /// Whether a challenge may be opened for `user_id` under `auth_id`: the
    /// user must be registered, and the identifier must be free.
    pub open spec fn may_open(self, user_id: Seq<char>, auth_id: Seq<char>) -> Result<
        (),
        AuthError,
    > {
        if !self.store.users.contains_key(user_id) {
            Err(AuthError::NotFound)
        } else if self.store.sessions.contains_key(auth_id) {
            Err(AuthError::Internal)
        } else {
            Ok(())
        }
    }

    /// The state after the challenge `c` has been opened for `user_id` under
    /// `auth_id`, on the prover's commitments `r1` and `r2`.
    pub open spec fn opened(
        self,
        auth_id: Seq<char>,
        user_id: Seq<char>,
        r1: nat,
        r2: nat,
        c: nat,
    ) -> AuthView {
        AuthView {
            store: self.store.with_session(auth_id, SessionView { user_id, r1, r2, c }),
            ..self
        }
    }

    /// Every open challenge belongs to a registered user.
    pub open spec fn consistent(self) -> bool {
        forall|auth_id: Seq<char>| #[trigger]
            self.store.sessions.contains_key(auth_id) ==> self.store.users.contains_key(
                self.store.sessions[auth_id].user_id,
            )
    }

    /// Whether a challenge is on file under an identifier of 36 characters,
    /// the length of the identifiers that the service draws. Only then can a
    /// fresh identifier be taken already.
    pub open spec fn holds_identifier(self) -> bool {
        exists|id: Seq<char>| id.len() == 36 && #[trigger] self.store.sessions.contains_key(id)
    }

    /// What the service says of the response `s` to the challenge filed
    /// under `auth_id`: `NotFound` where no such challenge is open or its
    /// user is not registered, `Unauthenticated` where the verification
    /// equations fail, and success where they hold.
    pub open spec fn verdict(self, auth_id: Seq<char>, s: nat) -> Result<(), AuthError> {
        if !self.store.sessions.contains_key(auth_id) {
            Err(AuthError::NotFound)
        } else {
            let session = self.store.sessions[auth_id];
            if !self.store.users.contains_key(session.user_id) {
                Err(AuthError::NotFound)
            } else {
                let user = self.store.users[session.user_id];
                if accepts(
                    s,
                    session.r1,
                    session.r2,
                    session.c,
                    user.y1,
                    user.y2,
                    self.params.g,
                    self.params.h,
                    self.params.p,
                ) {
                    Ok(())
                } else {
                    Err(AuthError::Unauthenticated)
                }
            }
        }
    }
}

/// Completeness: in every state with valid parameters, where the user of an
/// open challenge is registered with the commitments `g^x` and `h^x` to a
/// secret `x`, and the challenge was opened on the commitments `g^k` and
/// `h^k` to a nonce `k`, the response `(k - c * x) mod q` to its challenge
/// `c` is accepted.
pub proof fn law_honest_prover_is_accepted(state: AuthView, auth_id: Seq<char>, x: nat, k: nat)
    requires
        state.params.valid(),
        state.store.sessions.contains_key(auth_id),
        state.store.users.contains_key(state.store.sessions[auth_id].user_id),
        state.store.users[state.store.sessions[auth_id].user_id] == (UserRecordView {
            y1: pow_mod(state.params.g, x, state.params.p),
            y2: pow_mod(state.params.h, x, state.params.p),
        }),
        state.store.sessions[auth_id].r1 == pow_mod(state.params.g, k, state.params.p),
        state.store.sessions[auth_id].r2 == pow_mod(state.params.h, k, state.params.p),
    ensures
        state.verdict(
            auth_id,
            response(x, k, state.store.sessions[auth_id].c, state.params.q),
        ) is Ok,
{
    let pp = state.params;
    lemma_honest_response_accepted(x, k, state.store.sessions[auth_id].c, pp.g, pp.h, pp.q, pp.p);
}

/// Completeness of the whole handshake: from any state with valid
/// parameters, registering the commitments to a secret `x`, opening any
/// challenge `c` under a free identifier on the commitments to a nonce `k`,
/// and answering with `(k - c * x) mod q` succeeds at every step.
pub proof fn law_handshake_succeeds(
    state: AuthView,
    user_id: Seq<char>,
    auth_id: Seq<char>,
    x: nat,
    k: nat,
    c: nat,
)
    requires
        state.params.valid(),
        !state.store.sessions.contains_key(auth_id),
    ensures
        ({
            let pp = state.params;
            let registered = state.registered(
                user_id,
                pow_mod(pp.g, x, pp.p),
                pow_mod(pp.h, x, pp.p),
            );
            let challenged = registered.opened(
                auth_id,
                user_id,
                pow_mod(pp.g, k, pp.p),
                pow_mod(pp.h, k, pp.p),
                c,
            );
            &&& registered.may_open(user_id, auth_id) is Ok
            &&& challenged.verdict(auth_id, response(x, k, c, pp.q)) is Ok
        }),
{
    let pp = state.params;
    let registered = state.registered(user_id, pow_mod(pp.g, x, pp.p), pow_mod(pp.h, x, pp.p));
    let challenged = registered.opened(
        auth_id,
        user_id,
        pow_mod(pp.g, k, pp.p),
        pow_mod(pp.h, k, pp.p),
        c,
    );
    law_honest_prover_is_accepted(challenged, auth_id, x, k);
}

/// A response that is off by one is refused: in the setting of
/// [`law_honest_prover_is_accepted`], and with a generator `g` that is not 1
/// modulo `p`, the successor of the honest response is `Unauthenticated`.
pub proof fn law_next_response_is_refused(state: AuthView, auth_id: Seq<char>, x: nat, k: nat)
    requires
        state.params.valid(),
        state.params.g % state.params.p != 1,
        state.store.sessions.contains_key(auth_id),
        state.store.users.contains_key(state.store.sessions[auth_id].user_id),
        state.store.users[state.store.sessions[auth_id].user_id] == (UserRecordView {
            y1: pow_mod(state.params.g, x, state.params.p),
            y2: pow_mod(state.params.h, x, state.params.p),
        }),
        state.store.sessions[auth_id].r1 == pow_mod(state.params.g, k, state.params.p),
        state.store.sessions[auth_id].r2 == pow_mod(state.params.h, k, state.params.p),
    ensures
        state.verdict(
            auth_id,
            response(x, k, state.store.sessions[auth_id].c, state.params.q) + 1,
        ) == Err::<(), AuthError>(AuthError::Unauthenticated),
{
    let pp = state.params;
    lemma_next_response_rejected(x, k, state.store.sessions[auth_id].c, pp.g, pp.h, pp.q, pp.p);
}

/// Soundness: let `q` be prime and `g` and `h` of order `q` modulo `p`, and
/// let a user be registered with commitments `g^a` and `h^b` to exponents
/// that are not congruent modulo `q`. Where two challenges of that user,
/// opened on the same commitments of the prover and both below `q`, have
/// each been answered with success, the two challenges are equal: against
/// any other challenge the prover is `Unauthenticated`, whatever it sends.
pub proof fn law_false_claim_meets_one_challenge(
    state: AuthView,
    first: Seq<char>,
    second: Seq<char>,
    a: nat,
    b: nat,
    s1: nat,
    s2: nat,
)
    requires
        state.params.valid(),
        is_prime(state.params.q),
        state.params.g % state.params.p != 1,
        state.params.h % state.params.p != 1,
        a % state.params.q != b % state.params.q,
        state.store.sessions.contains_key(first),
        state.store.sessions.contains_key(second),
        state.store.sessions[first].user_id == state.store.sessions[second].user_id,
        state.store.sessions[first].r1 == state.store.sessions[second].r1,
        state.store.sessions[first].r2 == state.store.sessions[second].r2,
        state.store.sessions[first].c < state.params.q,
        state.store.sessions[second].c < state.params.q,
        state.store.users.contains_key(state.store.sessions[first].user_id),
        state.store.users[state.store.sessions[first].user_id] == (UserRecordView {
            y1: pow_mod(state.params.g, a, state.params.p),
            y2: pow_mod(state.params.h, b, state.params.p),
        }),
        state.verdict(first, s1) is Ok,
        state.verdict(second, s2) is Ok,
    ensures
        state.store.sessions[first].c == state.store.sessions[second].c,
{
    let pp = state.params;
    let one = state.store.sessions[first];
    let other = state.store.sessions[second];
    lemma_at_most_one_challenge(a, b, one.r1, one.r2, one.c, s1, other.c, s2, pp.g, pp.h, pp.q, pp.p);
}

/// Challenges belong to users: a service starts in a consistent state, and
/// neither a registration nor a challenge that may be opened leaves it. In a
/// consistent state a response to an open challenge is never `NotFound`.
pub proof fn law_challenges_belong_to_users(
    state: AuthView,
    user_id: Seq<char>,
    y1: nat,
    y2: nat,
    auth_id: Seq<char>,
    r1: nat,
    r2: nat,
    c: nat,
    s: nat,
)
    ensures
        (AuthView { params: state.params, store: StoreState::empty() }).consistent(),
        state.consistent() ==> state.registered(user_id, y1, y2).consistent(),
        state.consistent() && state.may_open(user_id, auth_id) is Ok ==> state.opened(
            auth_id,
            user_id,
            r1,
            r2,
            c,
        ).consistent(),
        state.consistent() && state.store.sessions.contains_key(auth_id) ==> state.verdict(
            auth_id,
            s,
        ) != Err::<(), AuthError>(AuthError::NotFound),
{
}

/// Unknown keys: a challenge cannot be opened for a user who is not
/// registered, and a response to a challenge that is not open finds nothing,
/// whatever else the state holds.
pub proof fn law_unknown_keys_are_not_found(
    state: AuthView,
    user_id: Seq<char>,
    auth_id: Seq<char>,
    s: nat,
)
    ensures
        !state.store.users.contains_key(user_id) ==> state.may_open(user_id, auth_id) == Err::<
            (),
            AuthError,
        >(AuthError::NotFound),
        !state.store.sessions.contains_key(auth_id) ==> state.verdict(auth_id, s) == Err::<
            (),
            AuthError,
        >(AuthError::NotFound),
{
}

/// No lost update: two registrations of different users give the same state
/// in either order, and in it each of the two has the commitments that it
/// registered.
pub proof fn law_registrations_are_independent(
    state: AuthView,
    first: Seq<char>,
    first_y1: nat,
    first_y2: nat,
    second: Seq<char>,
    second_y1: nat,
    second_y2: nat,
)
    requires
        first != second,
    ensures
        ({
            let one_way = state.registered(first, first_y1, first_y2).registered(
                second,
                second_y1,
                second_y2,
            );
            let other_way = state.registered(second, second_y1, second_y2).registered(
                first,
                first_y1,
                first_y2,
            );
            &&& one_way == other_way
            &&& one_way.store.users.contains_key(first)
            &&& one_way.store.users[first] == (UserRecordView { y1: first_y1, y2: first_y2 })
            &&& one_way.store.users.contains_key(second)
            &&& one_way.store.users[second] == (UserRecordView { y1: second_y1, y2: second_y2 })
            &&& one_way.store.sessions == state.store.sessions
        }),
{
    let one_way = state.registered(first, first_y1, first_y2).registered(
        second,
        second_y1,
        second_y2,
    );
    let other_way = state.registered(second, second_y1, second_y2).registered(
        first,
        first_y1,
        first_y2,
    );
    assert(one_way.store.users =~= other_way.store.users);
}

/// A challenge as it is handed to the prover: the identifier under which it
/// is filed, and the challenge `c` in its wire format.
#[derive(Debug)]
pub struct AuthenticationChallenge {
    pub auth_id: String,
    pub c: Vec<u8>,
}

/// The verifying service.
pub struct MyAuth {
    params: Params,
    store: StateStore,
}

impl View for MyAuth {
    type V = AuthView;

    closed spec fn view(&self) -> AuthView {
        AuthView { params: self.params@, store: self.store@ }
    }
}

impl MyAuth {
    /// A service with the given parameters and an empty store.
    pub fn new(params: Params) -> (out: MyAuth)
        ensures
            out@ == (AuthView { params: params@, store: StoreState::empty() }),
            out@.params.valid(),
    {
        proof {
            use_type_invariant(&params);
        }
        MyAuth { params, store: StateStore::new() }
    }

    /// The parameters of the service, which never change.
    pub fn params(&self) -> (out: &Params)
        ensures
            out@ == self@.params,
            out@.valid(),
    {
        proof {
            use_type_invariant(&self.params);
        }
        &self.params
    }

    /// Registers a user with the commitments `y1` and `y2`, given in their
    /// wire format. The commitments are stored as they are; a user that is
    /// registered already gets the new ones in place of the old ones.
    pub fn register(&mut self, user_id: String, y1: &[u8], y2: &[u8])
        ensures
            final(self)@ == old(self)@.registered(user_id@, be_value(y1@), be_value(y2@)),
    {
        self.store.put_user(user_id, decode(y1), decode(y2));
    }

    /// Opens the challenge `c` for a user under the identifier `auth_id`, on
    /// the prover's commitments `r1` and `r2`, given in their wire format.
    ///
    /// It fails with `NotFound` where the user is not registered and with
    /// `Internal` where the identifier is taken; the state is then left as
    /// it was. Otherwise the challenge is filed, and the identifier and the
    /// challenge are handed back for the prover.
    pub fn open_challenge(
        &mut self,
        user_id: String,
        r1: &[u8],
        r2: &[u8],
        auth_id: String,
        c: BigNat,
    ) -> (out: Result<AuthenticationChallenge, AuthError>)
        ensures
            match out {
                Ok(issued) => {
                    &&& old(self)@.may_open(user_id@, auth_id@) is Ok
                    &&& issued.auth_id@ == auth_id@
                    &&& issued.c@ == be_bytes(c@)
                    &&& final(self)@ == old(self)@.opened(
                        auth_id@,
                        user_id@,
                        be_value(r1@),
                        be_value(r2@),
                        c@,
                    )
                },
                Err(e) => old(self)@.may_open(user_id@, auth_id@) == Err::<(), AuthError>(e)
                    && final(self)@ == old(self)@,
            },
    {
        if self.store.get_user(user_id.as_str()).is_err() {
            return Err(AuthError::NotFound);
        }
        let wire = encode(&c);
        let session = ChallengeSession { user_id, r1: decode(r1), r2: decode(r2), c };
        match self.store.put_session(auth_id.clone(), session) {
            Ok(_) => Ok(AuthenticationChallenge { auth_id, c: wire }),
            Err(e) => Err(e),
        }
    }

    /// Issues a challenge to a registered user who sent the commitments `r1`
    /// and `r2`. The challenge is a fresh random number below `q`, and it is
    /// filed under a fresh random identifier.
    ///
    /// It fails with `NotFound` where the user is not registered, and with
    /// `Internal` in the event that the fresh identifier is taken already;
    /// the state is then left as it was. An identifier has 36 characters, so
    /// a registered user is always served while no identifier of that length
    /// is on file, as in a store without challenges.
    pub fn create_authentication_challenge(&mut self, user_id: String, r1: &[u8], r2: &[u8]) -> (out:
        Result<AuthenticationChallenge, AuthError>)
        ensures
            !old(self)@.store.users.contains_key(user_id@) ==> out == Err::<
                AuthenticationChallenge,
                AuthError,
            >(AuthError::NotFound),
            old(self)@.store.users.contains_key(user_id@) && !old(self)@.holds_identifier()
                ==> out is Ok,
            match out {
                Ok(issued) => {
                    &&& old(self)@.may_open(user_id@, issued.auth_id@) is Ok
                    &&& issued.auth_id@.len() == 36
                    &&& issued.c@ == be_bytes(be_value(issued.c@))
                    &&& be_value(issued.c@) < old(self)@.params.q
                    &&& final(self)@ == old(self)@.opened(
                        issued.auth_id@,
                        user_id@,
                        be_value(r1@),
                        be_value(r2@),
                        be_value(issued.c@),
                    )
                },
                Err(e) => {
                    &&& final(self)@ == old(self)@
                    &&& e == AuthError::NotFound <==> !old(self)@.store.users.contains_key(
                        user_id@,
                    )
                    &&& e == AuthError::Internal <==> old(self)@.store.users.contains_key(user_id@)
                    &&& e == AuthError::Internal ==> old(self)@.holds_identifier()
                },
            },
    {
        if self.store.get_user(user_id.as_str()).is_err() {
            return Err(AuthError::NotFound);
        }
        proof {
            use_type_invariant(&self.params);
        }
        let auth_id = fresh_token();
        let c = random_number(self.params.q());
        proof {
            crate::encoding::lemma_value_of_bytes(c@);
        }
        self.open_challenge(user_id, r1, r2, auth_id, c)
    }

    /// Checks the response `s`, given in its wire format, to the challenge
    /// filed under `auth_id`. The challenge stays open whatever the outcome.
    pub fn check_answer(&self, auth_id: &str, s: &[u8]) -> (out: Result<(), AuthError>)
        ensures
            out == self@.verdict(auth_id@, be_value(s@)),
    {
        let session = match self.store.get_session(auth_id) {
            Ok(session) => session,
            Err(e) => {
                return Err(e);
            },
        };
        let user = match self.store.get_user(session.user_id.as_str()) {
            Ok(user) => user,
            Err(e) => {
                return Err(e);
            },
        };
        proof {
            use_type_invariant(&self.params);
        }
        let answer = decode(s);
        if verify(
            &answer,
            &session.r1,
            &session.r2,
            &session.c,
            &user.y1,
            &user.y2,
            self.params.g(),
            self.params.h(),
            self.params.p(),
        ) {
            Ok(())
        } else {
            Err(AuthError::Unauthenticated)
        }
    }

    /// Checks the response `s` to the challenge filed under `auth_id` and,
    /// where it is accepted, issues a fresh random session identifier.
    ///
    /// It fails with `NotFound` where no such challenge is open or its user
    /// is not registered, and with `Unauthenticated` where the verification
    /// equations fail. The state is the same after the call, so the same
    /// challenge can be answered again.
    pub fn verify_authentication(&self, auth_id: &str, s: &[u8]) -> (out: Result<String, AuthError>)
        ensures
            !self@.store.sessions.contains_key(auth_id@) ==> out == Err::<String, AuthError>(
                AuthError::NotFound,
            ),
            match out {
                Ok(session_id) => self@.verdict(auth_id@, be_value(s@)) is Ok && session_id@.len()
                    == 36,
                Err(e) => self@.verdict(auth_id@, be_value(s@)) == Err::<(), AuthError>(e),
            },
    {
        match self.check_answer(auth_id, s) {
            Ok(_) => Ok(fresh_token()),
            Err(e) => Err(e),
        }
    }
}

} // verus!
