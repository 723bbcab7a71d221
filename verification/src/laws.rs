//! What holds of the store over whole histories of writes.

use vstd::prelude::*;
use crate::auth::{
    contains_text, hashed_at, is_generated_username, is_hyphen_position, is_hyphenated_uuid,
    lemma_secret_is_not_held, password_matches,
};
use crate::config::Config;
use crate::db::accepts;
use crate::model::{
    default_settings, CredentialsView, IphoneDataView, StatusView, StoreError, StoreView,
    TokenView,
};
use crate::orchestrator::RegistrationView;
use crate::web::{
    registration_answer, RegistrationError, RegistrationResponse, MAX_GENERATION_ATTEMPTS,
};

verus! {

/// One write that a caller can ask of the store. Every operation of
/// [`crate::db::Database`] that changes it is one of these: minting a token
/// is `InsertToken` with the drawn value, enrolling a device is
/// `InsertDevice` with the drawn identifier, and a registration that
/// reaches its commit is `Provision` with the issued credentials.
pub enum Write {
    InsertDevice { id: Seq<char>, name: Seq<char>, device_type: Seq<char>, created_at: i64 },
    InsertToken { token: Seq<char>, device_id: Seq<char>, created_at: i64, expires_at: i64 },
    InsertSettings { device_id: Seq<char> },
    InsertCredentials { device_id: Seq<char>, username: Seq<char>, password_hash: Seq<char> },
    InsertStatus { device_id: Seq<char>, now: i64 },
    UpsertStatus { device_id: Seq<char>, online: bool, now: i64 },
    InsertIphoneData { device_id: Seq<char> },
    InsertExtension { device_id: Seq<char> },
    MarkUsed { token: Seq<char> },
    Claim { token: Seq<char>, now: i64 },
    Provision { token: Seq<char>, now: i64, username: Seq<char>, password_hash: Seq<char> },
}

/// The state a write is answered with, or the refusal.
pub open spec fn attempt(s: StoreView, w: Write) -> Result<StoreView, StoreError> {
    match w {
        Write::InsertDevice { id, name, device_type, created_at } => s.insert_device(
            id,
            name,
            device_type,
            created_at,
        ),
        Write::InsertToken { token, device_id, created_at, expires_at } => s.insert_token(
            token,
            device_id,
            created_at,
            expires_at,
        ),
        Write::InsertSettings { device_id } => s.insert_settings(device_id),
        Write::InsertCredentials { device_id, username, password_hash } => s.insert_credentials(
            device_id,
            username,
            password_hash,
        ),
        Write::InsertStatus { device_id, now } => s.insert_status(device_id, now),
        Write::UpsertStatus { device_id, online, now } => s.upsert_status(device_id, online, now),
        Write::InsertIphoneData { device_id } => s.insert_iphone_data(device_id),
        Write::InsertExtension { device_id } => s.insert_extension(device_id),
        Write::MarkUsed { token } => Ok(s.mark_used(token)),
        Write::Claim { token, now } => s.claim(token, now),
        Write::Provision { token, now, username, password_hash } => s.provision(
            token,
            now,
            username,
            password_hash,
        ),
    }
}

/// The store after a write: a refused write leaves it as it was.
pub open spec fn apply(s: StoreView, w: Write) -> StoreView {
    match attempt(s, w) {
        Ok(next) => next,
        Err(_) => s,
    }
}

/// The store after a history of writes, oldest first.
pub open spec fn replay(s: StoreView, history: Seq<Write>) -> StoreView
    decreases history.len(),
{
    if history.len() == 0 {
        s
    } else {
        apply(replay(s, history.drop_last()), history.last())
    }
}

/// `later` keeps every row of `earlier`: no row is deleted, no column but a
/// token's `used` flag and a device's presence is rewritten, and that flag
/// is never cleared.
pub open spec fn extends(earlier: StoreView, later: StoreView) -> bool {
    &&& forall|t: Seq<char>| #[trigger]
        earlier.tokens.dom().contains(t) ==> {
            &&& later.tokens.dom().contains(t)
            &&& later.tokens[t].device_id == earlier.tokens[t].device_id
            &&& later.tokens[t].created_at == earlier.tokens[t].created_at
            &&& later.tokens[t].expires_at == earlier.tokens[t].expires_at
            &&& earlier.tokens[t].used ==> later.tokens[t].used
        }
    &&& forall|d: Seq<char>| #[trigger]
        earlier.devices.dom().contains(d) ==> later.devices.dom().contains(d) && later.devices[d]
            == earlier.devices[d]
    &&& forall|d: Seq<char>| #[trigger]
        earlier.credentials.dom().contains(d) ==> later.credentials.dom().contains(d)
            && later.credentials[d] == earlier.credentials[d]
    &&& forall|d: Seq<char>| #[trigger]
        earlier.status.dom().contains(d) ==> later.status.dom().contains(d)
    &&& forall|d: Seq<char>| #[trigger]
        earlier.settings.dom().contains(d) ==> later.settings.dom().contains(d)
            && later.settings[d] == earlier.settings[d]
    &&& forall|d: Seq<char>| #[trigger]
        earlier.iphone_data.dom().contains(d) ==> later.iphone_data.dom().contains(d)
            && later.iphone_data[d] == earlier.iphone_data[d]
}

/// A redemption that goes through writes exactly this: the token is marked
/// used, and the device, which had none of them, gets its settings,
/// credentials and status rows together, and its battery row where its type
/// has one. Nothing else changes. A redemption is refused as an invalid
/// token exactly when the token is not live.
pub proof fn lemma_provision_writes(
    s: StoreView,
    token: Seq<char>,
    now: i64,
    username: Seq<char>,
    password_hash: Seq<char>,
)
    requires
        s.consistent(),
    ensures
        match s.provision(token, now, username, password_hash) {
            Ok(next) => {
                let d = s.tokens[token].device_id;
                &&& next.consistent()
                &&& s.token_live(token, now)
                &&& !s.settings.dom().contains(d)
                &&& !s.credentials.dom().contains(d)
                &&& !s.status.dom().contains(d)
                &&& !s.username_taken(username)
                &&& next.devices == s.devices
                &&& next.tokens == s.tokens.insert(token, TokenView { used: true, ..s.tokens[token] })
                &&& next.settings == s.settings.insert(d, default_settings())
                &&& next.credentials == s.credentials.insert(
                    d,
                    CredentialsView { username, password_hash },
                )
                &&& next.status == s.status.insert(d, StatusView { online: false, updated_at: now })
                &&& next.iphone_data == if s.needs_iphone_data(d) {
                    s.iphone_data.insert(d, IphoneDataView { battery_level: None })
                } else {
                    s.iphone_data
                }
            },
            Err(e) => e == StoreError::TokenInvalid <==> !s.token_live(token, now),
        },
{
    if s.token_live(token, now) {
        let d = s.tokens[token].device_id;
        assert(s.devices.dom().contains(d));
    }
}

/// Every write keeps the store's constraints and every row it found.
pub proof fn lemma_write_preserves(s: StoreView, w: Write)
    requires
        s.consistent(),
    ensures
        apply(s, w).consistent(),
        extends(s, apply(s, w)),
{
    match w {
        Write::Provision { token, now, username, password_hash } => {
            lemma_provision_writes(s, token, now, username, password_hash);
        },
        _ => {},
    }
}

/// Every history keeps the store's constraints and every row it started
/// with.
pub proof fn lemma_history_preserves(s: StoreView, history: Seq<Write>)
    requires
        s.consistent(),
    ensures
        replay(s, history).consistent(),
        extends(s, replay(s, history)),
    decreases history.len(),
{
    if history.len() > 0 {
        let before = replay(s, history.drop_last());
        lemma_history_preserves(s, history.drop_last());
        lemma_write_preserves(before, history.last());
    }
}

/// A token is redeemed at most once: after a redemption went through, every
/// later redemption of the same token is refused as an invalid token,
/// whatever was written in between and whatever the time and credentials.
pub proof fn lemma_redeemed_at_most_once(
    s: StoreView,
    token: Seq<char>,
    now: i64,
    username: Seq<char>,
    password_hash: Seq<char>,
    between: Seq<Write>,
    later_now: i64,
    later_username: Seq<char>,
    later_hash: Seq<char>,
)
    requires
        s.consistent(),
        s.provision(token, now, username, password_hash) is Ok,
    ensures
        replay(s.provision(token, now, username, password_hash)->Ok_0, between).provision(
            token,
            later_now,
            later_username,
            later_hash,
        ) == Err::<StoreView, StoreError>(StoreError::TokenInvalid),
{
    let next = s.provision(token, now, username, password_hash)->Ok_0;
    lemma_provision_writes(s, token, now, username, password_hash);
    assert(next.tokens.dom().contains(token) && next.tokens[token].used);
    lemma_history_preserves(next, between);
}

/// A token that has reached its expiry is refused as invalid, used or not,
/// and stays refused whatever is written afterwards.
pub proof fn lemma_expired_token_refused(
    s: StoreView,
    token: Seq<char>,
    between: Seq<Write>,
    now: i64,
    username: Seq<char>,
    password_hash: Seq<char>,
)
    requires
        s.consistent(),
        s.tokens.dom().contains(token),
        now >= s.tokens[token].expires_at,
    ensures
        s.provision(token, now, username, password_hash) == Err::<StoreView, StoreError>(
            StoreError::TokenInvalid,
        ),
        replay(s, between).provision(token, now, username, password_hash) == Err::<
            StoreView,
            StoreError,
        >(StoreError::TokenInvalid),
{
    lemma_history_preserves(s, between);
}

/// One redemption attempt: when it arrives and the credentials it brings.
pub struct Attempt {
    pub now: i64,
    pub username: Seq<char>,
    pub password_hash: Seq<char>,
}

/// The write an attempt on `token` asks for.
pub open spec fn redemption(token: Seq<char>, a: Attempt) -> Write {
    Write::Provision {
        token,
        now: a.now,
        username: a.username,
        password_hash: a.password_hash,
    }
}

/// The store after the attempts on `token` were served one after another,
/// in the order the store took them.
pub open spec fn serve(s: StoreView, token: Seq<char>, attempts: Seq<Attempt>) -> StoreView
    decreases attempts.len(),
{
    if attempts.len() == 0 {
        s
    } else {
        apply(serve(s, token, attempts.drop_last()), redemption(token, attempts.last()))
    }
}

/// What the attempt at position `i` was answered with.
pub open spec fn answer(s: StoreView, token: Seq<char>, attempts: Seq<Attempt>, i: int) -> Result<
    StoreView,
    StoreError,
> {
    attempt(serve(s, token, attempts.take(i)), redemption(token, attempts[i]))
}

/// Of any number of competing redemptions of one token, each of which would
/// go through if it were alone, exactly one goes through: the one the store
/// serves first. Every other is refused as an invalid token, and the store
/// ends with the winner's rows for the device: one each of settings,
/// credentials and status, so that each of these tables has grown by one
/// row.
pub proof fn lemma_one_winner(s: StoreView, token: Seq<char>, attempts: Seq<Attempt>)
    requires
        s.consistent(),
        attempts.len() > 0,
        forall|i: int|
            0 <= i < attempts.len() ==> #[trigger] attempt(s, redemption(token, attempts[i])) is Ok,
    ensures
        answer(s, token, attempts, 0) is Ok,
        forall|i: int|
            1 <= i < attempts.len() ==> #[trigger] answer(s, token, attempts, i) == Err::<
                StoreView,
                StoreError,
            >(StoreError::TokenInvalid),
        serve(s, token, attempts) == attempt(s, redemption(token, attempts[0]))->Ok_0,
        ({
            let d = s.tokens[token].device_id;
            let end = serve(s, token, attempts);
            &&& !s.settings.dom().contains(d) && end.settings == s.settings.insert(
                d,
                default_settings(),
            )
            &&& !s.credentials.dom().contains(d) && end.credentials == s.credentials.insert(
                d,
                CredentialsView {
                    username: attempts[0].username,
                    password_hash: attempts[0].password_hash,
                },
            )
            &&& !s.status.dom().contains(d) && end.status == s.status.insert(
                d,
                StatusView { online: false, updated_at: attempts[0].now },
            )
            &&& s.settings.dom().finite() ==> end.settings.dom().len() == s.settings.dom().len()
                + 1
            &&& s.credentials.dom().finite() ==> end.credentials.dom().len()
                == s.credentials.dom().len() + 1
            &&& s.status.dom().finite() ==> end.status.dom().len() == s.status.dom().len() + 1
        }),
{
    let first = attempts[0];
    let won = attempt(s, redemption(token, first))->Ok_0;
    lemma_provision_writes(s, token, first.now, first.username, first.password_hash);
    assert(attempts.take(0) =~= Seq::<Attempt>::empty());
    lemma_served_after_win(s, token, attempts, attempts.len() as int);
    assert(attempts.take(attempts.len() as int) =~= attempts);
    assert forall|i: int| 1 <= i < attempts.len() implies #[trigger] answer(s, token, attempts, i)
        == Err::<StoreView, StoreError>(StoreError::TokenInvalid) by {
        lemma_served_after_win(s, token, attempts, i);
    }
}

/// Once the first attempt has won, the store stays as the winner left it
/// however many further attempts are served.
proof fn lemma_served_after_win(s: StoreView, token: Seq<char>, attempts: Seq<Attempt>, k: int)
    requires
        s.consistent(),
        1 <= k <= attempts.len(),
        attempt(s, redemption(token, attempts[0])) is Ok,
    ensures
        serve(s, token, attempts.take(k)) == attempt(s, redemption(token, attempts[0]))->Ok_0,
    decreases k,
{
    let first = attempts[0];
    let won = attempt(s, redemption(token, first))->Ok_0;
    let served = attempts.take(k);
    assert(served.drop_last() =~= attempts.take(k - 1));
    assert(served.last() == attempts[k - 1]);
    if k == 1 {
        assert(attempts.take(0) =~= Seq::<Attempt>::empty());
        assert(serve(s, token, attempts.take(0)) == s);
    } else {
        lemma_served_after_win(s, token, attempts, k - 1);
        lemma_provision_writes(s, token, first.now, first.username, first.password_hash);
        assert(won.tokens[token].used);
    }
}

/// The secret handed out at a redemption verifies under the issued
/// username from then on, whatever is written later. What the store keeps
/// for the device is the username and the hash it was given and no other
/// text, and for credentials as the issuer makes them neither holds the
/// secret: a bcrypt hash and a generated username have no hyphen, and the
/// secret has four.
pub proof fn lemma_issued_secret_verifies(
    s: StoreView,
    token: Seq<char>,
    now: i64,
    username: Seq<char>,
    password_hash: Seq<char>,
    cost: u32,
    secret: Seq<char>,
    later: Seq<Write>,
)
    requires
        s.consistent(),
        s.provision(token, now, username, password_hash) is Ok,
    ensures
        ({
            let next = s.provision(token, now, username, password_hash)->Ok_0;
            let d = s.tokens[token].device_id;
            let kept = replay(next, later).credentials[d];
            &&& next.credentials[d] == CredentialsView { username, password_hash }
            &&& kept == next.credentials[d]
            &&& password_matches(secret, password_hash) ==> accepts(next, username, secret)
                && accepts(replay(next, later), username, secret)
            &&& is_hyphenated_uuid(secret) && hashed_at(password_hash, cost) ==> kept.password_hash
                != secret && !contains_text(kept.password_hash, secret)
            &&& is_hyphenated_uuid(secret) && is_generated_username(username) ==> kept.username
                != secret && !contains_text(kept.username, secret)
        }),
{
    let next = s.provision(token, now, username, password_hash)->Ok_0;
    let d = s.tokens[token].device_id;
    lemma_provision_writes(s, token, now, username, password_hash);
    assert(next.credentials.dom().contains(d));
    lemma_history_preserves(next, later);
    assert(replay(next, later).credentials.dom().contains(d));
    if is_hyphenated_uuid(secret) {
        lemma_secret_is_not_held(password_hash, cost, username, secret);
        assert(is_hyphen_position(8));
        assert(secret[8] == '-');
    }
}

/// A redemption whose status row is refused, after its claim, its settings
/// row and its credentials row were all accepted, is refused as a whole.
pub proof fn lemma_refusal_at_status_row(
    s: StoreView,
    token: Seq<char>,
    now: i64,
    username: Seq<char>,
    password_hash: Seq<char>,
)
    requires
        s.consistent(),
        s.token_live(token, now),
        !s.settings.dom().contains(s.tokens[token].device_id),
        !s.credentials.dom().contains(s.tokens[token].device_id),
        !s.username_taken(username),
        s.status.dom().contains(s.tokens[token].device_id),
    ensures
        s.claim(token, now) is Ok,
        s.claim(token, now)->Ok_0.insert_settings(s.tokens[token].device_id) is Ok,
        s.claim(token, now)->Ok_0.insert_settings(
            s.tokens[token].device_id,
        )->Ok_0.insert_credentials(s.tokens[token].device_id, username, password_hash) is Ok,
        s.provision(token, now, username, password_hash) == Err::<StoreView, StoreError>(
            StoreError::DuplicateKey,
        ),
        apply(s, Write::Provision { token, now, username, password_hash }) == s,
{
    let d = s.tokens[token].device_id;
    assert(s.devices.dom().contains(d));
}

/// Two redemptions that both go through never issue the same username,
/// whatever is written between them.
pub proof fn lemma_usernames_never_collide(
    s: StoreView,
    token: Seq<char>,
    now: i64,
    username: Seq<char>,
    password_hash: Seq<char>,
    between: Seq<Write>,
    other_token: Seq<char>,
    other_now: i64,
    other_username: Seq<char>,
    other_hash: Seq<char>,
)
    requires
        s.consistent(),
        s.provision(token, now, username, password_hash) is Ok,
        replay(s.provision(token, now, username, password_hash)->Ok_0, between).provision(
            other_token,
            other_now,
            other_username,
            other_hash,
        ) is Ok,
    ensures
        username != other_username,
        s.tokens[token].device_id != replay(
            s.provision(token, now, username, password_hash)->Ok_0,
            between,
        ).tokens[other_token].device_id,
{
    let next = s.provision(token, now, username, password_hash)->Ok_0;
    let d = s.tokens[token].device_id;
    lemma_provision_writes(s, token, now, username, password_hash);
    assert(next.credentials.dom().contains(d));
    lemma_history_preserves(next, between);
    let mid = replay(next, between);
    assert(mid.credentials.dom().contains(d));
    lemma_provision_writes(mid, other_token, other_now, other_username, other_hash);
    assert(mid.credentials[d].username == username);
}

/// A presence report changes the reported device's status row and nothing
/// else, and reporting the same again changes nothing more.
pub proof fn lemma_presence_report_idempotent(
    s: StoreView,
    device_id: Seq<char>,
    online: bool,
    now: i64,
)
    ensures
        ({
            let report = Write::UpsertStatus { device_id, online, now };
            let once = apply(s, report);
            &&& apply(once, report) == once
            &&& once.devices == s.devices
            &&& once.tokens == s.tokens
            &&& once.credentials == s.credentials
            &&& once.settings == s.settings
            &&& once.iphone_data == s.iphone_data
            &&& forall|d: Seq<char>|
                d != device_id ==> once.status.dom().contains(d) == s.status.dom().contains(d)
                    && once.status[d] == s.status[d]
        }),
{
    let report = Write::UpsertStatus { device_id, online, now };
    let once = apply(s, report);
    assert(apply(once, report).status =~= once.status);
}

/// The registration after `n` failed generations of credentials in a row.
pub open spec fn after_failed_generations(r: RegistrationView, n: nat) -> RegistrationView
    decreases n,
{
    if n == 0 {
        r
    } else {
        after_failed_generations(r.reject_generation(), (n - 1) as nat)
    }
}

/// Every step of a registration that is not at its end brings it closer to
/// its end: no registration takes more than twice the allowed attempts plus
/// two steps.
pub proof fn lemma_steps_are_bounded(
    r: RegistrationView,
    store: StoreView,
    now: i64,
    username: Seq<char>,
    secret: Seq<char>,
    password_hash: Seq<char>,
    mqtt_host: Seq<char>,
    mqtt_port: u16,
)
    ensures
        r.remaining() <= 2 * MAX_GENERATION_ATTEMPTS + 2,
        r.is_terminal() <==> r.remaining() == 0,
        r is Presented ==> r.validate(store, now).remaining() < r.remaining(),
        r is Validated ==> r.accept_credentials(username, secret, password_hash).remaining()
            < r.remaining(),
        r is Validated ==> r.reject_generation().remaining() < r.remaining(),
        r is CredentialsIssued ==> r.commit(store, now, mqtt_host, mqtt_port).0.remaining()
            < r.remaining(),
{
}

/// From every state that is not an end, the registration can fail: a
/// presented token may be unknown, generating credentials may fail until
/// the attempts are spent, and the token may be gone by the time of the
/// commit.
pub proof fn lemma_failure_is_reachable(
    r: RegistrationView,
    now: i64,
    mqtt_host: Seq<char>,
    mqtt_port: u16,
)
    requires
        !r.is_terminal(),
    ensures
        r is Presented ==> r.validate(StoreView::empty(), now) is Failed,
        r is Validated ==> after_failed_generations(r, MAX_GENERATION_ATTEMPTS as nat) is Failed,
        r is CredentialsIssued ==> r.commit(StoreView::empty(), now, mqtt_host, mqtt_port).0
            is Failed,
{
    reveal_with_fuel(after_failed_generations, 4);
}

/// A refused redemption leaves the store as it was, so a later attempt is
/// answered as if the first had never been made. Where the refusal was a
/// taken username, an attempt with a free one goes through while the token
/// is live and no row stands in the way.
pub proof fn lemma_refused_redemption_can_be_retried(
    s: StoreView,
    token: Seq<char>,
    now: i64,
    username: Seq<char>,
    password_hash: Seq<char>,
    later_now: i64,
    later_username: Seq<char>,
    later_hash: Seq<char>,
)
    requires
        s.consistent(),
        s.provision(token, now, username, password_hash) is Err,
    ensures
        ({
            let after = apply(s, Write::Provision { token, now, username, password_hash });
            let d = s.tokens[token].device_id;
            &&& after == s
            &&& after.provision(token, later_now, later_username, later_hash) == s.provision(
                token,
                later_now,
                later_username,
                later_hash,
            )
            &&& s.provision(token, now, username, password_hash) == Err::<StoreView, StoreError>(
                StoreError::UsernameTaken,
            ) && s.token_live(token, later_now) && !s.username_taken(later_username)
                && !s.status.dom().contains(d) && !(s.needs_iphone_data(d)
                && s.iphone_data.dom().contains(d)) ==> after.provision(
                token,
                later_now,
                later_username,
                later_hash,
            ) is Ok
        }),
{
    if s.token_live(token, later_now) {
        assert(s.devices.dom().contains(s.tokens[token].device_id));
    }
}

/// One call of a registration in a run of them: when it was made and what
/// it answered.
pub struct Call {
    pub now: i64,
    pub res: Result<RegistrationResponse, RegistrationError>,
}

/// The call at `i` took the store from `states[i]` to `states[i + 1]` as a
/// registration of `token` answers.
pub open spec fn call_answered(
    states: Seq<StoreView>,
    calls: Seq<Call>,
    token: Seq<char>,
    config: &Config,
    i: int,
) -> bool {
    registration_answer(states[i], states[i + 1], token, calls[i].now, config, calls[i].res)
}

/// A run of registrations of one token, in the order in which the store
/// took them: `states` holds the store before the first call and after each.
pub open spec fn run_of_calls(
    states: Seq<StoreView>,
    calls: Seq<Call>,
    token: Seq<char>,
    config: &Config,
) -> bool {
    &&& states.len() == calls.len() + 1
    &&& forall|i: int| 0 <= i < calls.len() ==> #[trigger] call_answered(states, calls, token, config, i)
}

/// After the first `k` calls of a run the store keeps its constraints. It
/// is the store the run began with while no call has gone through, and
/// once one has, the token is used and the store stays as that call left it.
proof fn lemma_run_prefix(
    states: Seq<StoreView>,
    calls: Seq<Call>,
    token: Seq<char>,
    config: &Config,
    k: int,
)
    requires
        run_of_calls(states, calls, token, config),
        states[0].consistent(),
        0 <= k <= calls.len(),
    ensures
        states[k].consistent(),
        (forall|i: int| 0 <= i < k ==> (#[trigger] calls[i]).res is Err) ==> states[k] == states[0],
        forall|i: int|
            0 <= i < k && (#[trigger] calls[i]).res is Ok ==> states[k] == states[i + 1]
                && states[k].tokens.dom().contains(token) && states[k].tokens[token].used,
        forall|i: int, j: int|
            0 <= i < j < k ==> !((#[trigger] calls[i]).res is Ok && (#[trigger] calls[j]).res
                is Ok),
    decreases k,
{
    if k > 0 {
        lemma_run_prefix(states, calls, token, config, k - 1);
        let before = states[k - 1];
        let last = calls[k - 1];
        assert(call_answered(states, calls, token, config, k - 1));
        match last.res {
            Ok(response) => {
                let d = before.tokens[token].device_id;
                let hash = states[k].credentials[d].password_hash;
                lemma_provision_writes(before, token, last.now, response.username@, hash);
                assert forall|i: int| 0 <= i < k - 1 implies (#[trigger] calls[i]).res is Err by {
                    if calls[i].res is Ok {
                        assert(before.tokens[token].used);
                    }
                }
            },
            Err(_) => {},
        }
    }
}

/// Of any number of calls that register one token, served in any order,
/// at most one goes through, and every call after it is refused as an
/// invalid token. The store ends as the winner left it: the token used, and
/// for its device one row each of settings, credentials and status, the
/// credentials under the username the winner was told. Where the token is
/// live when the first call is served and no call fails to provision,
/// exactly one call goes through: the first.
pub proof fn lemma_one_call_wins(
    states: Seq<StoreView>,
    calls: Seq<Call>,
    token: Seq<char>,
    config: &Config,
)
    requires
        run_of_calls(states, calls, token, config),
        states[0].consistent(),
    ensures
        forall|i: int, j: int|
            0 <= i < j < calls.len() && (#[trigger] calls[i]).res is Ok ==> (#[trigger] calls[j]).res
                == Err::<RegistrationResponse, RegistrationError>(RegistrationError::TokenInvalid),
        forall|i: int|
            0 <= i < calls.len() && (#[trigger] calls[i]).res is Ok ==> ({
                let end = states.last();
                let d = states[0].tokens[token].device_id;
                &&& end.tokens[token].used
                &&& end.settings.dom().contains(d) && !states[0].settings.dom().contains(d)
                &&& end.status.dom().contains(d) && !states[0].status.dom().contains(d)
                &&& end.credentials.dom().contains(d) && !states[0].credentials.dom().contains(d)
                &&& end.credentials[d].username == calls[i].res->Ok_0.username@
                &&& end.settings == states[0].settings.insert(d, default_settings())
                &&& end.credentials == states[0].credentials.insert(d, end.credentials[d])
                &&& end.status == states[0].status.insert(d, end.status[d])
            }),
        (forall|i: int| 0 <= i < calls.len() ==> (#[trigger] calls[i]).res is Err)
            ==> states.last() == states[0],
        calls.len() > 0 && states[0].token_live(token, calls[0].now) && (forall|i: int|
            0 <= i < calls.len() ==> (#[trigger] calls[i]).res != Err::<
                RegistrationResponse,
                RegistrationError,
            >(RegistrationError::ProvisioningFailed)) ==> calls[0].res is Ok,
{
    let n = calls.len() as int;
    lemma_run_prefix(states, calls, token, config, n);
    assert forall|i: int, j: int|
        0 <= i < j < calls.len() && (#[trigger] calls[i]).res is Ok implies (#[trigger] calls[j]).res
        == Err::<RegistrationResponse, RegistrationError>(RegistrationError::TokenInvalid) by {
        lemma_run_prefix(states, calls, token, config, j);
        assert(call_answered(states, calls, token, config, j));
    }
    assert forall|i: int| 0 <= i < calls.len() && (#[trigger] calls[i]).res is Ok implies ({
        let end = states.last();
        let d = states[0].tokens[token].device_id;
        &&& end.tokens[token].used
        &&& end.settings.dom().contains(d) && !states[0].settings.dom().contains(d)
        &&& end.status.dom().contains(d) && !states[0].status.dom().contains(d)
        &&& end.credentials.dom().contains(d) && !states[0].credentials.dom().contains(d)
        &&& end.credentials[d].username == calls[i].res->Ok_0.username@
        &&& end.settings == states[0].settings.insert(d, default_settings())
        &&& end.credentials == states[0].credentials.insert(d, end.credentials[d])
        &&& end.status == states[0].status.insert(d, end.status[d])
    }) by {
        lemma_run_prefix(states, calls, token, config, i);
        assert(call_answered(states, calls, token, config, i));
        let before = states[i];
        let d = before.tokens[token].device_id;
        let response = calls[i].res->Ok_0;
        let hash = states[i + 1].credentials[d].password_hash;
        lemma_provision_writes(before, token, calls[i].now, response.username@, hash);
    }
    if calls.len() > 0 && states[0].token_live(token, calls[0].now) && (forall|i: int|
        0 <= i < calls.len() ==> (#[trigger] calls[i]).res != Err::<
            RegistrationResponse,
            RegistrationError,
        >(RegistrationError::ProvisioningFailed)) {
        assert(call_answered(states, calls, token, config, 0));
        let first = calls[0];
        match first.res {
            Ok(_) => {},
            Err(e) => {
                assert(e == RegistrationError::TokenInvalid || e
                    == RegistrationError::ProvisioningFailed);
                assert(first.res == Err::<RegistrationResponse, RegistrationError>(e));
            },
        }
    }
}

} // verus!
