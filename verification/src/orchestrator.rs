//! One registration as a state machine: a token is presented, validated
//! against the store, credentials are issued for it, and the device's rows
//! are committed. Each step is a transition of its own, so that a caller can
//! hold the store for the two steps that read or write it and let go of it
//! while a secret is hashed.

use vstd::prelude::*;
use crate::auth::{
    contains_text, hashed_at, is_generated_username, is_hyphenated_uuid, password_matches,
    Credentials, Password, MAX_COST, MIN_COST,
};
use crate::config::Config;
use crate::db::Database;
use crate::model::{StoreError, StoreView};
use crate::web::{
    classify, redeem, spec_classify, RegistrationError, RegistrationResponse,
    MAX_GENERATION_ATTEMPTS,
};

verus! {

/// Where a registration stands.
#[derive(Clone, Copy, Debug, PartialEq, Eq, Structural)]
pub enum Phase {
    Presented,
    Validated,
    CredentialsIssued,
    Committed,
    Failed,
}

/// A registration as a mathematical value.
pub enum RegistrationView {
    /// A token was presented and nothing is known of it yet.
    Presented { token: Seq<char> },
    /// The token was live when it was looked up; `attempts` generations of
    /// credentials have been spent on it.
    Validated { token: Seq<char>, attempts: nat },
    /// Credentials are at hand and wait to be committed.
    CredentialsIssued {
        token: Seq<char>,
        attempts: nat,
        username: Seq<char>,
        secret: Seq<char>,
        password_hash: Seq<char>,
    },
    /// The device's rows are in the store; this is what the device is told.
    Committed { username: Seq<char>, secret: Seq<char>, mqtt_host: Seq<char>, mqtt_port: u16 },
    /// The registration was given up.
    Failed { error: RegistrationError },
}

impl RegistrationView {
    /// No further step changes the registration.
    pub open spec fn is_terminal(self) -> bool {
        self is Committed || self is Failed
    }

    /// An upper bound on the steps the registration can still take.
    pub open spec fn remaining(self) -> nat {
        match self {
            RegistrationView::Presented { .. } => 2 * MAX_GENERATION_ATTEMPTS as nat + 2,
            RegistrationView::Validated { attempts, .. } => if attempts < MAX_GENERATION_ATTEMPTS {
                (2 * (MAX_GENERATION_ATTEMPTS - attempts) + 1) as nat
            } else {
                1
            },
            RegistrationView::CredentialsIssued { attempts, .. } => if attempts
                < MAX_GENERATION_ATTEMPTS {
                (2 * (MAX_GENERATION_ATTEMPTS - attempts) + 2) as nat
            } else {
                2
            },
            _ => 0,
        }
    }

    /// The lookup of a presented token: a token that is live at `now` is
    /// validated, any other fails the registration.
    pub open spec fn validate(self, store: StoreView, now: i64) -> RegistrationView {
        match self {
            RegistrationView::Presented { token } => if store.token_live(token, now) {
                RegistrationView::Validated { token, attempts: 0 }
            } else {
                RegistrationView::Failed { error: RegistrationError::TokenInvalid }
            },
            _ => self,
        }
    }

    /// Credentials were generated: they count as one attempt.
    pub open spec fn accept_credentials(
        self,
        username: Seq<char>,
        secret: Seq<char>,
        password_hash: Seq<char>,
    ) -> RegistrationView {
        match self {
            RegistrationView::Validated { token, attempts } => if attempts
                < MAX_GENERATION_ATTEMPTS {
                RegistrationView::CredentialsIssued {
                    token,
                    attempts: attempts + 1,
                    username,
                    secret,
                    password_hash,
                }
            } else {
                RegistrationView::Failed { error: RegistrationError::ProvisioningFailed }
            },
            _ => self,
        }
    }

    /// Generating credentials failed: the attempt is spent, and with the
    /// last one the registration fails.
    pub open spec fn reject_generation(self) -> RegistrationView {
        match self {
            RegistrationView::Validated { token, attempts } => if attempts + 1
                < MAX_GENERATION_ATTEMPTS {
                RegistrationView::Validated { token, attempts: attempts + 1 }
            } else {
                RegistrationView::Failed { error: RegistrationError::ProvisioningFailed }
            },
            _ => self,
        }
    }

    /// Where a registration goes when the store refuses its unit of work: a
    /// taken username sends it back for fresh credentials while attempts
    /// are left; anything else fails it.
    pub open spec fn after_refusal(token: Seq<char>, attempts: nat, e: StoreError)
        -> RegistrationView {
        if e == StoreError::UsernameTaken && attempts < MAX_GENERATION_ATTEMPTS {
            RegistrationView::Validated { token, attempts }
        } else {
            RegistrationView::Failed { error: spec_classify(e) }
        }
    }

    /// The commit of issued credentials: the registration and the store
    /// after the unit of work was tried at `now`.
    pub open spec fn commit(self, store: StoreView, now: i64, mqtt_host: Seq<char>, mqtt_port: u16)
        -> (RegistrationView, StoreView) {
        match self {
            RegistrationView::CredentialsIssued {
                token,
                attempts,
                username,
                secret,
                password_hash,
            } => match store.provision(token, now, username, password_hash) {
                Ok(next) => (
                    RegistrationView::Committed { username, secret, mqtt_host, mqtt_port },
                    next,
                ),
                Err(e) => (RegistrationView::after_refusal(token, attempts, e), store),
            },
            _ => (self, store),
        }
    }

    /// The registration holds credentials that `before` has just accepted.
    pub open spec fn issued_from(self, before: RegistrationView) -> bool {
        self matches RegistrationView::CredentialsIssued { username, secret, password_hash, .. }
            && self == before.accept_credentials(username, secret, password_hash)
    }

    /// Credentials that wait to be committed carry a hash made at the work
    /// factor `cost`.
    pub open spec fn issued_at(self, cost: u32) -> bool {
        self matches RegistrationView::CredentialsIssued { password_hash, .. } ==> hashed_at(
            password_hash,
            cost,
        )
    }

    /// Issued credentials are what the issuer promises: a generated
    /// username, a random secret, and a hash the secret verifies against,
    /// neither of which holds the secret.
    pub open spec fn issued_soundly(self) -> bool {
        self matches RegistrationView::CredentialsIssued { username, secret, password_hash, .. }
            ==> is_generated_username(username) && is_hyphenated_uuid(secret)
            && password_hash.len() == 60 && password_matches(secret, password_hash)
            && !contains_text(password_hash, secret) && !contains_text(username, secret)
    }
}

enum State {
    Presented { token: String },
    Validated { token: String, attempts: u32 },
    CredentialsIssued { token: String, attempts: u32, username: String, password: Password },
    Committed { response: RegistrationResponse },
    Failed { error: RegistrationError },
}

/// One registration in progress.
pub struct Registration {
    state: State,
}

impl View for Registration {
    type V = RegistrationView;

    closed spec fn view(&self) -> RegistrationView {
        match self.state {
            State::Presented { token } => RegistrationView::Presented { token: token@ },
            State::Validated { token, attempts } => RegistrationView::Validated {
                token: token@,
                attempts: attempts as nat,
            },
            State::CredentialsIssued {
                token,
                attempts,
                username,
                password,
            } => RegistrationView::CredentialsIssued {
                token: token@,
                attempts: attempts as nat,
                username: username@,
                secret: password.plain@,
                password_hash: password.hash@,
            },
            State::Committed { response } => RegistrationView::Committed {
                username: response.username@,
                secret: response.password@,
                mqtt_host: response.mqtt_host@,
                mqtt_port: response.mqtt_port,
            },
            State::Failed { error } => RegistrationView::Failed { error },
        }
    }
}

impl Registration {
    /// A registration for a token as it was presented.
    pub fn present(token: String) -> (registration: Registration)
        ensures
            registration@ == (RegistrationView::Presented { token: token@ }),
    {
        Registration { state: State::Presented { token } }
    }

    /// Where the registration stands.
    pub fn phase(&self) -> (phase: Phase)
        ensures
            phase == Phase::Presented <==> self@ is Presented,
            phase == Phase::Validated <==> self@ is Validated,
            phase == Phase::CredentialsIssued <==> self@ is CredentialsIssued,
            phase == Phase::Committed <==> self@ is Committed,
            phase == Phase::Failed <==> self@ is Failed,
    {
        match &self.state {
            State::Presented { .. } => Phase::Presented,
            State::Validated { .. } => Phase::Validated,
            State::CredentialsIssued { .. } => Phase::CredentialsIssued,
            State::Committed { .. } => Phase::Committed,
            State::Failed { .. } => Phase::Failed,
        }
    }

    /// Whether the registration has come to its end.
    pub fn is_terminal(&self) -> (done: bool)
        ensures
            done == self@.is_terminal(),
    {
        match &self.state {
            State::Committed { .. } => true,
            State::Failed { .. } => true,
            _ => false,
        }
    }

    /// Looks the presented token up in the store.
    pub fn validate(self, db: &Database, now: i64) -> (next: Registration)
        requires
            db.wf(),
        ensures
            next@ == self@.validate(db@, now),
    {
        match self.state {
            State::Presented { token } => {
                match db.get_device_id_from_token(token.as_str(), now) {
                    Ok(_) => Registration { state: State::Validated { token, attempts: 0 } },
                    Err(e) => Registration { state: State::Failed { error: classify(e) } },
                }
            },
            state => Registration { state },
        }
    }

    /// Takes generated credentials into a validated registration.
    pub fn accept_credentials(self, username: String, password: Password) -> (next: Registration)
        ensures
            next@ == self@.accept_credentials(username@, password.plain@, password.hash@),
    {
        match self.state {
            State::Validated { token, attempts } => {
                if attempts < MAX_GENERATION_ATTEMPTS {
                    Registration {
                        state: State::CredentialsIssued {
                            token,
                            attempts: attempts + 1,
                            username,
                            password,
                        },
                    }
                } else {
                    Registration {
                        state: State::Failed { error: RegistrationError::ProvisioningFailed },
                    }
                }
            },
            state => Registration { state },
        }
    }

    /// Records that generating credentials failed.
    pub fn reject_generation(self) -> (next: Registration)
        ensures
            next@ == self@.reject_generation(),
    {
        match self.state {
            State::Validated { token, attempts } => {
                if attempts < MAX_GENERATION_ATTEMPTS - 1 {
                    Registration { state: State::Validated { token, attempts: attempts + 1 } }
                } else {
                    Registration {
                        state: State::Failed { error: RegistrationError::ProvisioningFailed },
                    }
                }
            },
            state => Registration { state },
        }
    }

    /// Generates a username and a secret hashed at the given work factor for
    /// a validated registration. Whatever the generators hand back, the
    /// registration either holds sound credentials afterwards, with the hash
    /// made at `cost`, or has spent the attempt.
    pub fn issue(self, cost: u32) -> (next: Registration)
        ensures
            !(self@ is Validated) ==> next@ == self@,
            self@ is Validated ==> next@ == self@.reject_generation() || next@.issued_from(self@),
            self@ is Validated ==> next@.issued_at(cost),
            self@ is Validated && !(MIN_COST <= cost <= MAX_COST) ==> next@
                == self@.reject_generation(),
            self@.issued_soundly() ==> next@.issued_soundly(),
    {
        match self.phase() {
            Phase::Validated => {},
            _ => {
                return self;
            },
        }
        match Credentials::generate(cost) {
            Ok(issued) => self.accept_credentials(issued.username, issued.password),
            Err(_) => self.reject_generation(),
        }
    }

    /// Tries the unit of work for issued credentials at `now`. The store
    /// either takes all of it or is left as it was.
    pub fn commit(self, db: &mut Database, config: &Config, now: i64) -> (next: Registration)
        requires
            old(db).wf(),
        ensures
            final(db).wf(),
            (next@, final(db)@) == self@.commit(
                old(db)@,
                now,
                config.mqtt_host@,
                config.mqtt_port,
            ),
    {
        match self.state {
            State::CredentialsIssued { token, attempts, username, password } => {
                match redeem(db, config, token.as_str(), now, username, password) {
                    Ok(response) => Registration { state: State::Committed { response } },
                    Err(e) => {
                        if e == StoreError::UsernameTaken && attempts < MAX_GENERATION_ATTEMPTS {
                            Registration { state: State::Validated { token, attempts } }
                        } else {
                            Registration { state: State::Failed { error: classify(e) } }
                        }
                    },
                }
            },
            state => Registration { state },
        }
    }

    /// Takes whichever step the registration is waiting for. Where that is
    /// the issuing of credentials, their hash is made at `cost`.
    pub fn advance(self, db: &mut Database, config: &Config, now: i64, cost: u32) -> (next:
        Registration)
        requires
            old(db).wf(),
        ensures
            final(db).wf(),
            self@ is Presented ==> next@ == self@.validate(old(db)@, now) && final(db)@ == old(
                db,
            )@,
            self@ is Validated ==> final(db)@ == old(db)@ && next@.issued_soundly() && (next@
                == self@.reject_generation() || next@.issued_from(self@)),
            self@ is Validated ==> next@.issued_at(cost),
            self@ is Validated && !(MIN_COST <= cost <= MAX_COST) ==> next@
                == self@.reject_generation(),
            self@ is CredentialsIssued ==> (next@, final(db)@) == self@.commit(
                old(db)@,
                now,
                config.mqtt_host@,
                config.mqtt_port,
            ),
            self@.is_terminal() ==> next@ == self@ && final(db)@ == old(db)@,
            !self@.is_terminal() ==> next@.remaining() < self@.remaining(),
    {
        match self.phase() {
            Phase::Presented => self.validate(db, now),
            Phase::Validated => self.issue(cost),
            Phase::CredentialsIssued => self.commit(db, config, now),
            _ => self,
        }
    }

    /// What the registration came to, once it is at its end.
    pub fn into_result(self) -> (res: Option<Result<RegistrationResponse, RegistrationError>>)
        ensures
            match self@ {
                RegistrationView::Committed { username, secret, mqtt_host, mqtt_port } => {
                    &&& res matches Some(Ok(response))
                    &&& response.username@ == username
                    &&& response.password@ == secret
                    &&& response.mqtt_host@ == mqtt_host
                    &&& response.mqtt_port == mqtt_port
                },
                RegistrationView::Failed { error } => res matches Some(Err(e)) && e == error,
                _ => res is None,
            },
    {
        match self.state {
            State::Committed { response } => Some(Ok(response)),
            State::Failed { error } => Some(Err(error)),
            _ => None,
        }
    }
}

} // verus!
