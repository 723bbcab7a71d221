//! Registration: a presented token is checked, credentials are issued, and
//! the device's rows are committed together with the claim on the token.

use vstd::prelude::*;
use vstd::string::*;
use crate::auth::{
    contains_text, hashed_at, is_generated_username, is_hyphenated_uuid, password_matches,
    Password, MAX_COST, MIN_COST,
};
use crate::config::Config;
use crate::db::{accepts, Database};
use crate::laws::lemma_provision_writes;
use crate::model::{StoreError, StoreView};
use crate::orchestrator::{Registration, RegistrationView};

verus! {

/// How many times credentials are generated for one registration before it
/// is given up.
pub const MAX_GENERATION_ATTEMPTS: u32 = 3;

/// What a device presents to register.
pub struct RegistrationRequest {
    pub token: String,
}

/// What a registered device is handed, once.
pub struct RegistrationResponse {
    pub username: String,
    pub password: String,
    pub mqtt_host: String,
    pub mqtt_port: u16,
}

/// The two ways a registration fails, as the caller sees them.
#[derive(Clone, Copy, Debug, PartialEq, Eq, Structural)]
pub enum RegistrationError {
    /// The token is unknown, expired or already used; which of these is
    /// not told.
    TokenInvalid,
    /// Credentials could not be issued or the rows could not be committed.
    ProvisioningFailed,
}

impl RegistrationError {
    pub open spec fn spec_status_code(self) -> u16 {
        match self {
            RegistrationError::TokenInvalid => 400,
            RegistrationError::ProvisioningFailed => 500,
        }
    }

    pub open spec fn spec_message(self) -> Seq<char> {
        match self {
            RegistrationError::TokenInvalid => "Invalid or expired token"@,
            RegistrationError::ProvisioningFailed => "Registration Failed"@,
        }
    }

    /// The HTTP status the failure is answered with.
    pub fn status_code(&self) -> (code: u16)
        ensures
            code == self.spec_status_code(),
    {
        match self {
            RegistrationError::TokenInvalid => 400,
            RegistrationError::ProvisioningFailed => 500,
        }
    }

    /// The message the failure is answered with.
    pub fn message(&self) -> (text: String)
        ensures
            text@ == self.spec_message(),
    {
        match self {
            RegistrationError::TokenInvalid => String::from_str("Invalid or expired token"),
            RegistrationError::ProvisioningFailed => String::from_str("Registration Failed"),
        }
    }
}

/// The caller-visible kind of a refusal by the store.
pub open spec fn spec_classify(e: StoreError) -> RegistrationError {
    match e {
        StoreError::TokenInvalid => RegistrationError::TokenInvalid,
        _ => RegistrationError::ProvisioningFailed,
    }
}

/// Turns a refusal by the store into what the caller is told.
pub fn classify(e: StoreError) -> (kind: RegistrationError)
    ensures
        kind == spec_classify(e),
{
    match e {
        StoreError::TokenInvalid => RegistrationError::TokenInvalid,
        _ => RegistrationError::ProvisioningFailed,
    }
}

/// Redeems a token with the given credentials, as one unit of work. On
/// success the store holds the device's rows and the response carries the
/// plaintext secret; on refusal the store is as it was.
pub fn redeem(
    db: &mut Database,
    config: &Config,
    token: &str,
    now: i64,
    username: String,
    password: Password,
) -> (res: Result<RegistrationResponse, StoreError>)
    requires
        old(db).wf(),
    ensures
        final(db).wf(),
        match old(db)@.provision(token@, now, username@, password.hash@) {
            Ok(next) => {
                &&& final(db)@ == next
                &&& res matches Ok(response)
                &&& response.username@ == username@
                &&& response.password@ == password.plain@
                &&& response.mqtt_host@ == config.mqtt_host@
                &&& response.mqtt_port == config.mqtt_port
            },
            Err(e) => final(db)@ == old(db)@ && (res matches Err(got) && got == e),
        },
{
    match db.provision(token, now, username.as_str(), &password) {
        Ok(_) => Ok(
            RegistrationResponse {
                username,
                password: password.plain,
                mqtt_host: config.mqtt_host.clone(),
                mqtt_port: config.mqtt_port,
            },
        ),
        Err(e) => Err(e),
    }
}

/// What a successful registration leaves behind: the store is the old one
/// with the token redeemed under the issued username and the stored hash,
/// neither text of the credentials row holds the secret, and the secret
/// verifies against the hash.
pub open spec fn provisioned_as(
    before: StoreView,
    after: StoreView,
    token: Seq<char>,
    now: i64,
    username: Seq<char>,
    secret: Seq<char>,
) -> bool {
    let device_id = before.tokens[token].device_id;
    let stored = after.credentials[device_id];
    &&& before.provision(token, now, username, stored.password_hash) == Ok::<
        StoreView,
        StoreError,
    >(after)
    &&& after.credentials.dom().contains(device_id)
    &&& stored.username == username
    &&& stored.password_hash != secret
    &&& !contains_text(stored.password_hash, secret)
    &&& !contains_text(stored.username, secret)
    &&& password_matches(secret, stored.password_hash)
    &&& accepts(after, username, secret)
    &&& is_generated_username(username)
    &&& is_hyphenated_uuid(secret)
}

/// A registration went through: the store is provisioned as the response
/// says, and the response names the configured broker.
pub open spec fn registered(
    before: StoreView,
    after: StoreView,
    token: Seq<char>,
    now: i64,
    config: &Config,
    response: RegistrationResponse,
) -> bool {
    &&& provisioned_as(before, after, token, now, response.username@, response.password@)
    &&& response.mqtt_host@ == config.mqtt_host@
    &&& response.mqtt_port == config.mqtt_port
}

/// The device behind the token already has one of the rows a redemption
/// writes, so no choice of credentials lets the redemption through.
pub open spec fn already_provisioned(store: StoreView, token: Seq<char>) -> bool {
    let device_id = store.tokens[token].device_id;
    ||| store.settings.dom().contains(device_id)
    ||| store.credentials.dom().contains(device_id)
    ||| store.status.dom().contains(device_id)
    ||| (store.needs_iphone_data(device_id) && store.iphone_data.dom().contains(device_id))
}

/// A registration of `token` that started on the store `before` is where it
/// should be: the store is untouched until the commit, credentials are
/// sound once issued, and the end is either a provisioned device or an
/// untouched store with the right kind of failure.
pub open spec fn on_course(
    registration: RegistrationView,
    before: StoreView,
    store: StoreView,
    token: Seq<char>,
    now: i64,
    config: &Config,
) -> bool {
    match registration {
        RegistrationView::Presented { token: presented } => presented == token && store == before,
        RegistrationView::Validated { token: presented, .. } => {
            &&& presented == token
            &&& store == before
            &&& before.token_live(token, now)
        },
        RegistrationView::CredentialsIssued { token: presented, .. } => {
            &&& presented == token
            &&& store == before
            &&& before.token_live(token, now)
            &&& registration.issued_soundly()
        },
        RegistrationView::Committed { username, secret, mqtt_host, mqtt_port } => {
            &&& provisioned_as(before, store, token, now, username, secret)
            &&& mqtt_host == config.mqtt_host@
            &&& mqtt_port == config.mqtt_port
        },
        RegistrationView::Failed { error } => {
            &&& store == before
            &&& error == RegistrationError::TokenInvalid <==> !before.token_live(token, now)
        },
    }
}

/// What a registration of `token` at `now` answers, whatever the hasher
/// and the random source do. The token is refused as invalid exactly when
/// it is not live. A registration that goes through leaves the store
/// provisioned as its response says. Every refusal leaves the store as it
/// was, and a device that already holds one of the rows is always refused.
pub open spec fn registration_answer(
    before: StoreView,
    after: StoreView,
    token: Seq<char>,
    now: i64,
    config: &Config,
    res: Result<RegistrationResponse, RegistrationError>,
) -> bool {
    &&& res == Err::<RegistrationResponse, RegistrationError>(RegistrationError::TokenInvalid)
        <==> !before.token_live(token, now)
    &&& match res {
        Ok(response) => registered(before, after, token, now, config, response),
        Err(_) => after == before,
    }
    &&& already_provisioned(before, token) ==> res is Err
}

/// The hash that the store holds for the device behind `token` was made at
/// the work factor `cost`.
pub open spec fn stored_hash_made_at(
    before: StoreView,
    after: StoreView,
    token: Seq<char>,
    cost: u32,
) -> bool {
    hashed_at(after.credentials[before.tokens[token].device_id].password_hash, cost)
}

/// Registers a device: checks the token, issues a username and a secret
/// hashed at the given work factor, and commits. The hash that a
/// registration stores is made at `cost`. Credentials are generated
/// anew, up to [`MAX_GENERATION_ATTEMPTS`] times, where drawing or hashing
/// fails or the username is taken.
pub fn register_with_token_at_cost(
    db: &mut Database,
    config: &Config,
    payload: RegistrationRequest,
    now: i64,
    cost: u32,
) -> (res: Result<RegistrationResponse, RegistrationError>)
    requires
        old(db).wf(),
    ensures
        final(db).wf(),
        registration_answer(old(db)@, final(db)@, payload.token@, now, config, res),
        res is Ok ==> stored_hash_made_at(old(db)@, final(db)@, payload.token@, cost),
        !(MIN_COST <= cost <= MAX_COST) ==> res is Err,
{
    let ghost token = payload.token@;
    let ghost before = db@;
    let mut registration = Registration::present(payload.token);
    while !registration.is_terminal()
        invariant
            db.wf(),
            on_course(registration@, before, db@, token, now, config),
            already_provisioned(before, token) ==> !(registration@ is Committed),
            !(MIN_COST <= cost <= MAX_COST) ==> !(registration@ is Committed) && !(registration@
                is CredentialsIssued),
            registration@.issued_at(cost),
            registration@ is Committed ==> stored_hash_made_at(before, db@, token, cost),
        decreases registration@.remaining(),
    {
        proof {
            db.lemma_consistent();
            match registration@ {
                RegistrationView::CredentialsIssued { username, password_hash, .. } => {
                    lemma_provision_writes(db@, token, now, username, password_hash);
                },
                _ => {},
            }
        }
        registration = registration.advance(db, config, now, cost);
    }
    match registration.into_result() {
        Some(res) => res,
        None => Err(RegistrationError::ProvisioningFailed),
    }
}

/// Registers a device at the default work factor: the hash that a
/// registration stores is made at [`crate::auth::DEFAULT_COST`].
pub fn register_with_token(
    db: &mut Database,
    config: &Config,
    payload: RegistrationRequest,
    now: i64,
) -> (res: Result<RegistrationResponse, RegistrationError>)
    requires
        old(db).wf(),
    ensures
        final(db).wf(),
        registration_answer(old(db)@, final(db)@, payload.token@, now, config, res),
        res is Ok ==> stored_hash_made_at(
            old(db)@,
            final(db)@,
            payload.token@,
            crate::auth::DEFAULT_COST,
        ),
{
    register_with_token_at_cost(db, config, payload, now, crate::auth::DEFAULT_COST)
}

} // verus!
