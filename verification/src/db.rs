//! The provisioning store: devices, enrollment tokens and the rows a
//! redemption creates, with the constraints a relational store enforces.

use vstd::prelude::*;
use crate::auth::{
    generate_token, is_hyphenated_uuid, password_matches, verify_password, Password,
};
use crate::model::{
    CredentialsView, DeviceView, IphoneDataView, SettingsView, StatusView, StoreError, StoreView,
    TokenView,
};
use crate::table::{keys_distinct, lemma_covered, lemma_lookup, rows_to_map, Table};

verus! {

/// How long a token stays redeemable where the caller names no other span:
/// six hours, in seconds.
pub const DEFAULT_TOKEN_TTL_SECS: i64 = 21600;

/// The columns of a device row; the key is the device identifier.
pub struct Device {
    pub name: String,
    pub device_type: String,
    pub created_at: i64,
}

/// The columns of a token row; the key is the token's value.
pub struct RegistrationToken {
    pub device_id: String,
    pub created_at: i64,
    pub expires_at: i64,
    pub used: bool,
}

/// The columns of a credentials row; the key is the device identifier.
pub struct DeviceCredentials {
    pub username: String,
    pub password_hash: String,
}

/// The columns of a status row; the key is the device identifier.
pub struct DeviceStatus {
    pub online: bool,
    pub updated_at: i64,
}

/// The columns of a settings row; the key is the device identifier.
pub struct DeviceSettings {
    pub visible: bool,
    pub public_battery: bool,
    pub public_activity: bool,
    pub public_last_seen: bool,
}

/// The columns of a row of battery data; the key is the device identifier.
pub struct IphoneData {
    pub battery_level: Option<i64>,
}

impl View for Device {
    type V = DeviceView;

    open spec fn view(&self) -> DeviceView {
        DeviceView {
            name: self.name@,
            device_type: self.device_type@,
            created_at: self.created_at,
        }
    }
}

impl View for RegistrationToken {
    type V = TokenView;

    open spec fn view(&self) -> TokenView {
        TokenView {
            device_id: self.device_id@,
            created_at: self.created_at,
            expires_at: self.expires_at,
            used: self.used,
        }
    }
}

impl View for DeviceCredentials {
    type V = CredentialsView;

    open spec fn view(&self) -> CredentialsView {
        CredentialsView { username: self.username@, password_hash: self.password_hash@ }
    }
}

impl View for DeviceStatus {
    type V = StatusView;

    open spec fn view(&self) -> StatusView {
        StatusView { online: self.online, updated_at: self.updated_at }
    }
}

impl View for DeviceSettings {
    type V = SettingsView;

    open spec fn view(&self) -> SettingsView {
        SettingsView {
            visible: self.visible,
            public_battery: self.public_battery,
            public_activity: self.public_activity,
            public_last_seen: self.public_last_seen,
        }
    }
}

impl View for IphoneData {
    type V = IphoneDataView;

    open spec fn view(&self) -> IphoneDataView {
        IphoneDataView { battery_level: self.battery_level }
    }
}

/// A write went as `outcome` prescribes: on success the store is the new
/// state, on refusal it is untouched and the error is reported.
pub open spec fn carried_out(
    before: StoreView,
    after: StoreView,
    outcome: Result<StoreView, StoreError>,
    res: Result<(), StoreError>,
) -> bool {
    match outcome {
        Ok(next) => after == next && res is Ok,
        Err(e) => after == before && res == Err::<(), StoreError>(e),
    }
}

/// The text of a drawn value, where there is one.
pub open spec fn text_of(drawn: Option<String>) -> Option<Seq<char>> {
    match drawn {
        Some(text) => Some(text@),
        None => None,
    }
}

/// A write under a drawn key went as `outcome` prescribes: on success the
/// store is the new state and the key is handed back, on refusal the store
/// is untouched and the error is reported.
pub open spec fn carried_out_under(
    before: StoreView,
    after: StoreView,
    drawn: Option<Seq<char>>,
    outcome: Result<StoreView, StoreError>,
    res: Result<String, StoreError>,
) -> bool {
    match outcome {
        Ok(next) => after == next && (res matches Ok(key) && Some(key@) == drawn),
        Err(e) => after == before && res == Err::<String, StoreError>(e),
    }
}

/// What a draw may give: nothing, or the text of a random UUID.
pub open spec fn may_be_drawn(drawn: Option<Seq<char>>) -> bool {
    drawn matches Some(text) ==> is_hyphenated_uuid(text)
}

/// Minting answered as it answers for `drawn`.
pub open spec fn minted(
    before: StoreView,
    after: StoreView,
    drawn: Option<Seq<char>>,
    device_id: Seq<char>,
    now: i64,
    ttl_secs: i64,
    res: Result<String, StoreError>,
) -> bool {
    carried_out_under(before, after, drawn, before.mint(drawn, device_id, now, ttl_secs), res)
}

/// Enrolling answered as it answers for `drawn`.
pub open spec fn enrolled(
    before: StoreView,
    after: StoreView,
    drawn: Option<Seq<char>>,
    name: Seq<char>,
    device_type: Seq<char>,
    now: i64,
    res: Result<String, StoreError>,
) -> bool {
    carried_out_under(before, after, drawn, before.enroll(drawn, name, device_type, now), res)
}

/// Some device holds `username` with a hash that `attempt` verifies against.
pub open spec fn accepts(store: StoreView, username: Seq<char>, attempt: Seq<char>) -> bool {
    exists|d: Seq<char>| #[trigger]
        store.credentials.dom().contains(d) && store.credentials[d].username == username
            && password_matches(attempt, store.credentials[d].password_hash)
}

/// The store: one table per kind of row. Its contents can only be changed
/// through the operations below, each of which keeps the constraints.
pub struct Database {
    devices: Table<Device>,
    tokens: Table<RegistrationToken>,
    credentials: Table<DeviceCredentials>,
    status: Table<DeviceStatus>,
    settings: Table<DeviceSettings>,
    iphone_data: Table<IphoneData>,
}

impl View for Database {
    type V = StoreView;

    closed spec fn view(&self) -> StoreView {
        StoreView {
            devices: self.devices@,
            tokens: self.tokens@,
            credentials: self.credentials@,
            status: self.status@,
            settings: self.settings@,
            iphone_data: self.iphone_data@,
        }
    }
}

impl Database {
    /// Every table keeps its primary key and the store's constraints hold.
    pub closed spec fn wf(&self) -> bool {
        &&& self.devices.wf()
        &&& self.tokens.wf()
        &&& self.credentials.wf()
        &&& self.status.wf()
        &&& self.settings.wf()
        &&& self.iphone_data.wf()
        &&& self@.consistent()
    }

    /// A well-formed store is consistent.
    pub proof fn lemma_consistent(&self)
        requires
            self.wf(),
        ensures
            self@.consistent(),
    {
    }

    /// An empty store.
    pub fn new() -> (db: Self)
        ensures
            db.wf(),
            db@ == StoreView::empty(),
    {
        Database {
            devices: Table::new(),
            tokens: Table::new(),
            credentials: Table::new(),
            status: Table::new(),
            settings: Table::new(),
            iphone_data: Table::new(),
        }
    }

    /// Registers a device under a given identifier.
    pub fn insert_device(
        &mut self,
        id: String,
        name: &str,
        device_type: &str,
        created_at: i64,
    ) -> (res: Result<(), StoreError>)
        requires
            old(self).wf(),
        ensures
            final(self).wf(),
            carried_out(
                old(self)@,
                final(self)@,
                old(self)@.insert_device(id@, name@, device_type@, created_at),
                res,
            ),
    {
        let row = Device { name: name.to_owned(), device_type: device_type.to_owned(), created_at };
        if self.devices.insert(id, row) {
            Ok(())
        } else {
            Err(StoreError::DuplicateKey)
        }
    }

    /// Registers a device under a drawn identifier and returns it. Without
    /// a draw nothing is written.
    pub fn enroll_device(
        &mut self,
        drawn: Option<String>,
        name: &str,
        device_type: &str,
        now: i64,
    ) -> (res: Result<String, StoreError>)
        requires
            old(self).wf(),
        ensures
            final(self).wf(),
            enrolled(old(self)@, final(self)@, text_of(drawn), name@, device_type@, now, res),
    {
        let id = match drawn {
            Some(id) => id,
            None => {
                return Err(StoreError::NoRandomness);
            },
        };
        match self.insert_device(id.clone(), name, device_type, now) {
            Ok(()) => Ok(id),
            Err(e) => Err(e),
        }
    }

    /// Registers a device under a fresh random identifier and returns it:
    /// an identifier is drawn, and the answer is that of
    /// [`Database::enroll_device`] for what the draw gave. So the only
    /// refusals are a failed draw and an identifier that is already a
    /// device of the store.
    pub fn create_device(&mut self, name: &str, device_type: &str, now: i64) -> (res: Result<
        String,
        StoreError,
    >)
        requires
            old(self).wf(),
        ensures
            final(self).wf(),
            exists|drawn: Option<Seq<char>>|
                may_be_drawn(drawn) && #[trigger] enrolled(
                    old(self)@,
                    final(self)@,
                    drawn,
                    name@,
                    device_type@,
                    now,
                    res,
                ),
    {
        let drawn = generate_token();
        let ghost given = text_of(drawn);
        let res = self.enroll_device(drawn, name, device_type, now);
        assert(may_be_drawn(given) && enrolled(
            old(self)@,
            self@,
            given,
            name@,
            device_type@,
            now,
            res,
        ));
        res
    }

    /// Stores a token with the given value and life span for a device.
    pub fn insert_registration_token(
        &mut self,
        token: String,
        device_id: &str,
        created_at: i64,
        expires_at: i64,
    ) -> (res: Result<(), StoreError>)
        requires
            old(self).wf(),
        ensures
            final(self).wf(),
            carried_out(
                old(self)@,
                final(self)@,
                old(self)@.insert_token(token@, device_id@, created_at, expires_at),
                res,
            ),
    {
        if !self.devices.contains_key(device_id) {
            return Err(StoreError::UnknownDevice);
        }
        let row = RegistrationToken {
            device_id: device_id.to_owned(),
            created_at,
            expires_at,
            used: false,
        };
        if self.tokens.insert(token, row) {
            Ok(())
        } else {
            Err(StoreError::DuplicateKey)
        }
    }

    /// Mints a token for a device from a drawn value, to stay redeemable
    /// for `ttl_secs` seconds from `now`, and returns it. Earlier tokens of
    /// the device stay as they are.
    pub fn mint_token(
        &mut self,
        drawn: Option<String>,
        device_id: &str,
        now: i64,
        ttl_secs: i64,
    ) -> (res: Result<String, StoreError>)
        requires
            old(self).wf(),
        ensures
            final(self).wf(),
            minted(old(self)@, final(self)@, text_of(drawn), device_id@, now, ttl_secs, res),
    {
        let expires_at = match now.checked_add(ttl_secs) {
            Some(t) => t,
            None => {
                return Err(StoreError::TimestampOverflow);
            },
        };
        if !self.devices.contains_key(device_id) {
            return Err(StoreError::UnknownDevice);
        }
        let token = match drawn {
            Some(token) => token,
            None => {
                return Err(StoreError::NoRandomness);
            },
        };
        match self.insert_registration_token(token.clone(), device_id, now, expires_at) {
            Ok(()) => Ok(token),
            Err(e) => Err(e),
        }
    }

    /// Mints a token for a device that stays redeemable for `ttl_secs`
    /// seconds from `now`, and returns its value: a value is drawn, and the
    /// answer is that of [`Database::mint_token`] for what the draw gave. So
    /// beyond an expiry that does not fit and an unknown device, the only
    /// refusals are a failed draw and a value that is already a token of
    /// the store. A device may hold any number of live tokens: minting one
    /// leaves the earlier ones as they are.
    pub fn create_registration_token_with_ttl(
        &mut self,
        device_id: &str,
        now: i64,
        ttl_secs: i64,
    ) -> (res: Result<String, StoreError>)
        requires
            old(self).wf(),
        ensures
            final(self).wf(),
            exists|drawn: Option<Seq<char>>|
                may_be_drawn(drawn) && #[trigger] minted(
                    old(self)@,
                    final(self)@,
                    drawn,
                    device_id@,
                    now,
                    ttl_secs,
                    res,
                ),
    {
        let drawn = generate_token();
        let ghost given = text_of(drawn);
        let res = self.mint_token(drawn, device_id, now, ttl_secs);
        assert(may_be_drawn(given) && minted(
            old(self)@,
            self@,
            given,
            device_id@,
            now,
            ttl_secs,
            res,
        ));
        res
    }

    /// Mints a token for a device with the default life span of six hours.
    pub fn create_registration_token(&mut self, device_id: &str, now: i64) -> (res: Result<
        String,
        StoreError,
    >)
        requires
            old(self).wf(),
        ensures
            final(self).wf(),
            exists|drawn: Option<Seq<char>>|
                may_be_drawn(drawn) && #[trigger] minted(
                    old(self)@,
                    final(self)@,
                    drawn,
                    device_id@,
                    now,
                    DEFAULT_TOKEN_TTL_SECS,
                    res,
                ),
    {
        self.create_registration_token_with_ttl(device_id, now, DEFAULT_TOKEN_TTL_SECS)
    }

    /// Gives a device its default settings.
    pub fn create_device_settings(&mut self, device_id: &str) -> (res: Result<(), StoreError>)
        requires
            old(self).wf(),
        ensures
            final(self).wf(),
            carried_out(old(self)@, final(self)@, old(self)@.insert_settings(device_id@), res),
    {
        if !self.devices.contains_key(device_id) {
            return Err(StoreError::UnknownDevice);
        }
        let row = DeviceSettings {
            visible: false,
            public_battery: false,
            public_activity: false,
            public_last_seen: true,
        };
        if self.settings.insert(device_id.to_owned(), row) {
            Ok(())
        } else {
            Err(StoreError::DuplicateKey)
        }
    }

    /// Where the credentials row that holds `username` is stored.
    fn find_username(&self, username: &str) -> (found: Option<usize>)
        requires
            self.wf(),
        ensures
            match found {
                Some(i) => {
                    &&& i < self.credentials.rows().len()
                    &&& self.credentials.rows()[i as int].1.username == username@
                    &&& self@.credentials.dom().contains(self.credentials.rows()[i as int].0)
                    &&& self@.credentials[self.credentials.rows()[i as int].0]
                        == self.credentials.rows()[i as int].1
                },
                None => !self@.username_taken(username@),
            },
    {
        let wanted = username.to_owned();
        let n = self.credentials.len();
        let mut i: usize = 0;
        proof {
            self.credentials.lemma_view();
            self.credentials.lemma_wf();
        }
        while i < n
            invariant
                i <= n,
                n == self.credentials.rows().len(),
                wanted@ == username@,
                keys_distinct(self.credentials.rows()),
                self@.credentials == rows_to_map(self.credentials.rows()),
                forall|j: int|
                    0 <= j < i ==> (#[trigger] self.credentials.rows()[j]).1.username != username@,
            decreases n - i,
        {
            match self.credentials.value_at(i) {
                Some(row) => {
                    if row.username == wanted {
                        proof {
                            lemma_lookup(self.credentials.rows(), i as int);
                        }
                        return Some(i);
                    }
                },
                None => {},
            }
            i += 1;
        }
        proof {
            assert forall|d: Seq<char>| #[trigger]
                self@.credentials.dom().contains(d) implies self@.credentials[d].username
                != username@ by {
                lemma_covered(self.credentials.rows(), d);
            }
        }
        None
    }

    /// Whether some device already holds `username`.
    pub fn username_taken(&self, username: &str) -> (taken: bool)
        requires
            self.wf(),
        ensures
            taken == self@.username_taken(username@),
    {
        self.find_username(username).is_some()
    }

    /// Stores a device's username and the hash of its secret. The plaintext
    /// of `password` is not read.
    pub fn create_device_credentials(
        &mut self,
        device_id: &str,
        username: &str,
        password: &Password,
    ) -> (res: Result<(), StoreError>)
        requires
            old(self).wf(),
        ensures
            final(self).wf(),
            carried_out(
                old(self)@,
                final(self)@,
                old(self)@.insert_credentials(device_id@, username@, password.hash@),
                res,
            ),
    {
        if !self.devices.contains_key(device_id) {
            return Err(StoreError::UnknownDevice);
        }
        if self.credentials.contains_key(device_id) {
            return Err(StoreError::DuplicateKey);
        }
        if self.username_taken(username) {
            return Err(StoreError::UsernameTaken);
        }
        let row = DeviceCredentials {
            username: username.to_owned(),
            password_hash: password.hash.clone(),
        };
        let added = self.credentials.insert(device_id.to_owned(), row);
        assert(added);
        Ok(())
    }

    /// Records a device as offline as of `now`.
    pub fn create_device_status(&mut self, device_id: &str, now: i64) -> (res: Result<
        (),
        StoreError,
    >)
        requires
            old(self).wf(),
        ensures
            final(self).wf(),
            carried_out(old(self)@, final(self)@, old(self)@.insert_status(device_id@, now), res),
    {
        if !self.devices.contains_key(device_id) {
            return Err(StoreError::UnknownDevice);
        }
        let row = DeviceStatus { online: false, updated_at: now };
        if self.status.insert(device_id.to_owned(), row) {
            Ok(())
        } else {
            Err(StoreError::DuplicateKey)
        }
    }

    /// Records what the broker reports of a device's presence. Reporting the
    /// same twice leaves the store as reporting it once.
    pub fn upsert_device_status(&mut self, device_id: &str, online: bool, now: i64) -> (res: Result<
        (),
        StoreError,
    >)
        requires
            old(self).wf(),
        ensures
            final(self).wf(),
            carried_out(
                old(self)@,
                final(self)@,
                old(self)@.upsert_status(device_id@, online, now),
                res,
            ),
    {
        if !self.devices.contains_key(device_id) {
            return Err(StoreError::UnknownDevice);
        }
        self.status.remove(device_id);
        let row = DeviceStatus { online, updated_at: now };
        let added = self.status.insert(device_id.to_owned(), row);
        assert(added);
        assert(self.status@ =~= old(self).status@.insert(device_id@, row@));
        Ok(())
    }

    /// Gives a device its row of battery data, with no level known yet.
    pub fn create_iphone_data(&mut self, device_id: &str) -> (res: Result<(), StoreError>)
        requires
            old(self).wf(),
        ensures
            final(self).wf(),
            carried_out(old(self)@, final(self)@, old(self)@.insert_iphone_data(device_id@), res),
    {
        if !self.devices.contains_key(device_id) {
            return Err(StoreError::UnknownDevice);
        }
        let row = IphoneData { battery_level: None };
        if self.iphone_data.insert(device_id.to_owned(), row) {
            Ok(())
        } else {
            Err(StoreError::DuplicateKey)
        }
    }

    /// The device a token belongs to, for a token that is live at `now`.
    pub fn get_device_id_from_token(&self, token: &str, now: i64) -> (res: Result<
        String,
        StoreError,
    >)
        requires
            self.wf(),
        ensures
            match res {
                Ok(device_id) => self@.token_live(token@, now) && device_id@
                    == self@.tokens[token@].device_id,
                Err(e) => !self@.token_live(token@, now) && e == StoreError::TokenInvalid,
            },
    {
        match self.tokens.get(token) {
            Some(row) => {
                if !row.used && row.expires_at > now {
                    Ok(row.device_id.clone())
                } else {
                    Err(StoreError::TokenInvalid)
                }
            },
            None => Err(StoreError::TokenInvalid),
        }
    }

    /// Sets a token's `used` flag. A token that is not stored changes nothing.
    pub fn mark_token_as_used(&mut self, token: &str) -> (res: Result<(), StoreError>)
        requires
            old(self).wf(),
        ensures
            final(self).wf(),
            res is Ok,
            final(self)@ == old(self)@.mark_used(token@),
    {
        self.set_token_used(token, true);
        Ok(())
    }

    /// Writes a token's `used` flag and leaves the rest of its row.
    fn set_token_used(&mut self, token: &str, used: bool)
        requires
            old(self).wf(),
        ensures
            final(self).wf(),
            old(self)@.tokens.dom().contains(token@) ==> final(self)@ == (StoreView {
                tokens: old(self)@.tokens.insert(
                    token@,
                    TokenView { used, ..old(self)@.tokens[token@] },
                ),
                ..old(self)@
            }),
            !old(self)@.tokens.dom().contains(token@) ==> final(self)@ == old(self)@,
    {
        match self.tokens.remove(token) {
            Some(row) => {
                let updated = RegistrationToken { used, ..row };
                let added = self.tokens.insert(token.to_owned(), updated);
                assert(added);
                assert(self.tokens@ =~= old(self).tokens@.insert(token@, updated@));
            },
            None => {
                assert(self.tokens@ =~= old(self).tokens@);
            },
        }
    }

    /// Consumes a token that is live at `now` and returns its device. Any
    /// other token is refused and nothing changes.
    pub fn claim_token(&mut self, token: &str, now: i64) -> (res: Result<String, StoreError>)
        requires
            old(self).wf(),
        ensures
            final(self).wf(),
            match old(self)@.claim(token@, now) {
                Ok(next) => final(self)@ == next && (res matches Ok(device_id) && device_id@
                    == old(self)@.tokens[token@].device_id),
                Err(e) => final(self)@ == old(self)@ && res == Err::<String, StoreError>(e),
            },
    {
        match self.get_device_id_from_token(token, now) {
            Ok(device_id) => {
                self.set_token_used(token, true);
                Ok(device_id)
            },
            Err(e) => Err(e),
        }
    }

    /// Whether the device is of the type that carries battery data.
    pub fn needs_iphone_data(&self, device_id: &str) -> (needed: bool)
        requires
            self.wf(),
        ensures
            needed == self@.needs_iphone_data(device_id@),
    {
        match self.devices.get(device_id) {
            Some(device) => device.device_type == "iphone".to_owned(),
            None => false,
        }
    }

    /// Writes the device-type row where the device's type has one.
    pub fn create_extension(&mut self, device_id: &str) -> (res: Result<(), StoreError>)
        requires
            old(self).wf(),
        ensures
            final(self).wf(),
            carried_out(old(self)@, final(self)@, old(self)@.insert_extension(device_id@), res),
    {
        if self.needs_iphone_data(device_id) {
            self.create_iphone_data(device_id)
        } else {
            Ok(())
        }
    }

    /// Takes back the rows a unit of work has written for a device so far,
    /// latest first, and frees the token it had claimed.
    fn roll_back(
        &mut self,
        token: &str,
        device_id: &str,
        settings: bool,
        credentials: bool,
        status: bool,
    )
        requires
            old(self).wf(),
            old(self)@.tokens.dom().contains(token@),
        ensures
            final(self).wf(),
            final(self)@ == (StoreView {
                tokens: old(self)@.tokens.insert(
                    token@,
                    TokenView { used: false, ..old(self)@.tokens[token@] },
                ),
                settings: if settings {
                    old(self)@.settings.remove(device_id@)
                } else {
                    old(self)@.settings
                },
                credentials: if credentials {
                    old(self)@.credentials.remove(device_id@)
                } else {
                    old(self)@.credentials
                },
                status: if status {
                    old(self)@.status.remove(device_id@)
                } else {
                    old(self)@.status
                },
                ..old(self)@
            }),
    {
        if status {
            self.status.remove(device_id);
        }
        if credentials {
            self.credentials.remove(device_id);
        }
        if settings {
            self.settings.remove(device_id);
        }
        self.set_token_used(token, false);
    }

    /// Redeems a token as one unit of work: claims it, then writes the
    /// device's settings, credentials, status and device-type row. Either
    /// all of it is kept, or the first refusal is reported and the store is
    /// as it was before the call.
    pub fn provision(&mut self, token: &str, now: i64, username: &str, password: &Password) -> (res:
        Result<String, StoreError>)
        requires
            old(self).wf(),
        ensures
            final(self).wf(),
            match old(self)@.provision(token@, now, username@, password.hash@) {
                Ok(next) => final(self)@ == next && (res matches Ok(device_id) && device_id@
                    == old(self)@.tokens[token@].device_id),
                Err(e) => final(self)@ == old(self)@ && res == Err::<String, StoreError>(e),
            },
    {
        let ghost start = self@;
        let device_id = match self.claim_token(token, now) {
            Ok(device_id) => device_id,
            Err(e) => {
                return Err(e);
            },
        };
        let device = device_id.as_str();
        match self.create_device_settings(device) {
            Ok(()) => {},
            Err(e) => {
                self.roll_back(token, device, false, false, false);
                assert(self@.tokens =~= start.tokens);
                return Err(e);
            },
        }
        match self.create_device_credentials(device, username, password) {
            Ok(()) => {},
            Err(e) => {
                self.roll_back(token, device, true, false, false);
                assert(self@.tokens =~= start.tokens);
                assert(self@.settings =~= start.settings);
                return Err(e);
            },
        }
        match self.create_device_status(device, now) {
            Ok(()) => {},
            Err(e) => {
                self.roll_back(token, device, true, true, false);
                assert(self@.tokens =~= start.tokens);
                assert(self@.settings =~= start.settings);
                assert(self@.credentials =~= start.credentials);
                return Err(e);
            },
        }
        match self.create_extension(device) {
            Ok(()) => {},
            Err(e) => {
                self.roll_back(token, device, true, true, true);
                assert(self@.tokens =~= start.tokens);
                assert(self@.settings =~= start.settings);
                assert(self@.credentials =~= start.credentials);
                assert(self@.status =~= start.status);
                return Err(e);
            },
        }
        Ok(device_id)
    }

    /// Checks a presented secret against the hash stored for `username`.
    pub fn verify(&self, username: &str, attempt: &str) -> (accepted: bool)
        requires
            self.wf(),
        ensures
            accepted == accepts(self@, username@, attempt@),
    {
        match self.find_username(username) {
            Some(i) => {
                let row = match self.credentials.value_at(i) {
                    Some(row) => row,
                    None => {
                        return false;
                    },
                };
                let ok = verify_password(attempt, row.password_hash.as_str());
                proof {
                    let d = self.credentials.rows()[i as int].0;
                    if accepts(self@, username@, attempt@) {
                        let other = choose|o: Seq<char>| #[trigger]
                            self@.credentials.dom().contains(o) && self@.credentials[o].username
                                == username@ && password_matches(
                                attempt@,
                                self@.credentials[o].password_hash,
                            );
                        assert(other == d);
                    }
                }
                ok
            },
            None => false,
        }
    }

    /// How many devices the store holds.
    pub fn device_count(&self) -> (n: usize)
        requires
            self.wf(),
        ensures
            self@.devices.dom().finite(),
            n == self@.devices.dom().len(),
    {
        self.devices.len()
    }

    /// How many tokens the store holds.
    pub fn token_count(&self) -> (n: usize)
        requires
            self.wf(),
        ensures
            self@.tokens.dom().finite(),
            n == self@.tokens.dom().len(),
    {
        self.tokens.len()
    }

    /// How many credentials rows the store holds.
    pub fn credentials_count(&self) -> (n: usize)
        requires
            self.wf(),
        ensures
            self@.credentials.dom().finite(),
            n == self@.credentials.dom().len(),
    {
        self.credentials.len()
    }

    /// How many status rows the store holds.
    pub fn status_count(&self) -> (n: usize)
        requires
            self.wf(),
        ensures
            self@.status.dom().finite(),
            n == self@.status.dom().len(),
    {
        self.status.len()
    }

    /// How many settings rows the store holds.
    pub fn settings_count(&self) -> (n: usize)
        requires
            self.wf(),
        ensures
            self@.settings.dom().finite(),
            n == self@.settings.dom().len(),
    {
        self.settings.len()
    }

    /// How many rows of battery data the store holds.
    pub fn iphone_data_count(&self) -> (n: usize)
        requires
            self.wf(),
        ensures
            self@.iphone_data.dom().finite(),
            n == self@.iphone_data.dom().len(),
    {
        self.iphone_data.len()
    }

    /// The row of a device.
    pub fn device(&self, id: &str) -> (row: Option<&Device>)
        requires
            self.wf(),
        ensures
            match row {
                Some(device) => self@.devices.dom().contains(id@) && device@ == self@.devices[id@],
                None => !self@.devices.dom().contains(id@),
            },
    {
        self.devices.get(id)
    }

    /// The row of a token.
    pub fn token(&self, token: &str) -> (row: Option<&RegistrationToken>)
        requires
            self.wf(),
        ensures
            match row {
                Some(found) => self@.tokens.dom().contains(token@) && found@
                    == self@.tokens[token@],
                None => !self@.tokens.dom().contains(token@),
            },
    {
        self.tokens.get(token)
    }

    /// The credentials row of a device.
    pub fn credentials(&self, device_id: &str) -> (row: Option<&DeviceCredentials>)
        requires
            self.wf(),
        ensures
            match row {
                Some(found) => self@.credentials.dom().contains(device_id@) && found@
                    == self@.credentials[device_id@],
                None => !self@.credentials.dom().contains(device_id@),
            },
    {
        self.credentials.get(device_id)
    }

    /// The status row of a device.
    pub fn status(&self, device_id: &str) -> (row: Option<&DeviceStatus>)
        requires
            self.wf(),
        ensures
            match row {
                Some(found) => self@.status.dom().contains(device_id@) && found@
                    == self@.status[device_id@],
                None => !self@.status.dom().contains(device_id@),
            },
    {
        self.status.get(device_id)
    }

    /// The settings row of a device.
    pub fn settings(&self, device_id: &str) -> (row: Option<&DeviceSettings>)
        requires
            self.wf(),
        ensures
            match row {
                Some(found) => self@.settings.dom().contains(device_id@) && found@
                    == self@.settings[device_id@],
                None => !self@.settings.dom().contains(device_id@),
            },
    {
        self.settings.get(device_id)
    }

    /// The row of battery data of a device.
    pub fn iphone_data(&self, device_id: &str) -> (row: Option<&IphoneData>)
        requires
            self.wf(),
        ensures
            match row {
                Some(found) => self@.iphone_data.dom().contains(device_id@) && found@
                    == self@.iphone_data[device_id@],
                None => !self@.iphone_data.dom().contains(device_id@),
            },
    {
        self.iphone_data.get(device_id)
    }
}

} // verus!
