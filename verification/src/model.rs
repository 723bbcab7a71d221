//! The relational state as a mathematical value: one map per table, keyed by
//! primary key, and each write as a function from state to state.

use vstd::prelude::*;

verus! {

/// Why the store refused a write.
#[derive(Clone, Copy, Debug, PartialEq, Eq, Structural)]
pub enum StoreError {
    /// The row points at a device that does not exist.
    UnknownDevice,
    /// A row with this primary key is already there.
    DuplicateKey,
    /// Another device already owns the username.
    UsernameTaken,
    /// The token is unknown, expired or already used.
    TokenInvalid,
    /// The expiry time does not fit the timestamp type.
    TimestampOverflow,
    /// No random bytes could be drawn for a new identifier.
    NoRandomness,
}

/// A device: its display name, its type tag and when it was created.
pub struct DeviceView {
    pub name: Seq<char>,
    pub device_type: Seq<char>,
    pub created_at: i64,
}

/// An enrollment token: the device it is bound to, its life span and
/// whether it has been redeemed.
pub struct TokenView {
    pub device_id: Seq<char>,
    pub created_at: i64,
    pub expires_at: i64,
    pub used: bool,
}

/// What a device authenticates with: its username and the hash of its
/// secret.
pub struct CredentialsView {
    pub username: Seq<char>,
    pub password_hash: Seq<char>,
}

/// Whether a device is online, and since when that is known.
pub struct StatusView {
    pub online: bool,
    pub updated_at: i64,
}

/// What a device shares with others.
pub struct SettingsView {
    pub visible: bool,
    pub public_battery: bool,
    pub public_activity: bool,
    pub public_last_seen: bool,
}

/// The battery level of an iPhone, where one was reported.
pub struct IphoneDataView {
    pub battery_level: Option<i64>,
}

/// The device type whose devices carry a row of battery data.
pub open spec fn iphone_type() -> Seq<char> {
    "iphone"@
}

/// The settings every device starts with: nothing shared but the time it
/// was last seen.
pub open spec fn default_settings() -> SettingsView {
    SettingsView {
        visible: false,
        public_battery: false,
        public_activity: false,
        public_last_seen: true,
    }
}

/// The whole store. Every table but `devices` and `tokens` is keyed by
/// device id; `tokens` is keyed by the token's value.
pub struct StoreView {
    pub devices: Map<Seq<char>, DeviceView>,
    pub tokens: Map<Seq<char>, TokenView>,
    pub credentials: Map<Seq<char>, CredentialsView>,
    pub status: Map<Seq<char>, StatusView>,
    pub settings: Map<Seq<char>, SettingsView>,
    pub iphone_data: Map<Seq<char>, IphoneDataView>,
}

impl StoreView {
    pub open spec fn empty() -> StoreView {
        StoreView {
            devices: Map::empty(),
            tokens: Map::empty(),
            credentials: Map::empty(),
            status: Map::empty(),
            settings: Map::empty(),
            iphone_data: Map::empty(),
        }
    }

    /// Every row points at an existing device.
    pub open spec fn references_hold(self) -> bool {
        &&& forall|t: Seq<char>| #[trigger]
            self.tokens.dom().contains(t) ==> self.devices.dom().contains(self.tokens[t].device_id)
        &&& forall|d: Seq<char>| #[trigger]
            self.credentials.dom().contains(d) ==> self.devices.dom().contains(d)
        &&& forall|d: Seq<char>| #[trigger]
            self.status.dom().contains(d) ==> self.devices.dom().contains(d)
        &&& forall|d: Seq<char>| #[trigger]
            self.settings.dom().contains(d) ==> self.devices.dom().contains(d)
        &&& forall|d: Seq<char>| #[trigger]
            self.iphone_data.dom().contains(d) ==> self.devices.dom().contains(d)
    }

    /// No two devices share a username.
    pub open spec fn usernames_unique(self) -> bool {
        forall|a: Seq<char>, b: Seq<char>|
            #![trigger self.credentials[a], self.credentials[b]]
            self.credentials.dom().contains(a) && self.credentials.dom().contains(b) && a != b
                ==> self.credentials[a].username != self.credentials[b].username
    }

    /// The constraints the store enforces on every state it reaches.
    pub open spec fn consistent(self) -> bool {
        self.references_hold() && self.usernames_unique()
    }

    /// The token can be redeemed at `now`: it exists, is unused and has not
    /// reached its expiry.
    pub open spec fn token_live(self, token: Seq<char>, now: i64) -> bool {
        &&& self.tokens.dom().contains(token)
        &&& !self.tokens[token].used
        &&& self.tokens[token].expires_at > now
    }

    /// Some device already holds `username`.
    pub open spec fn username_taken(self, username: Seq<char>) -> bool {
        exists|d: Seq<char>| #[trigger]
            self.credentials.dom().contains(d) && self.credentials[d].username == username
    }

    /// The device behind `device_id` is of the type that carries battery data.
    pub open spec fn needs_iphone_data(self, device_id: Seq<char>) -> bool {
        self.devices.dom().contains(device_id) && self.devices[device_id].device_type
            == iphone_type()
    }

    pub open spec fn insert_device(
        self,
        id: Seq<char>,
        name: Seq<char>,
        device_type: Seq<char>,
        created_at: i64,
    ) -> Result<StoreView, StoreError> {
        if self.devices.dom().contains(id) {
            Err(StoreError::DuplicateKey)
        } else {
            Ok(
                StoreView {
                    devices: self.devices.insert(id, DeviceView { name, device_type, created_at }),
                    ..self
                },
            )
        }
    }

    pub open spec fn insert_token(
        self,
        token: Seq<char>,
        device_id: Seq<char>,
        created_at: i64,
        expires_at: i64,
    ) -> Result<StoreView, StoreError> {
        if !self.devices.dom().contains(device_id) {
            Err(StoreError::UnknownDevice)
        } else if self.tokens.dom().contains(token) {
            Err(StoreError::DuplicateKey)
        } else {
            Ok(
                StoreView {
                    tokens: self.tokens.insert(
                        token,
                        TokenView { device_id, created_at, expires_at, used: false },
                    ),
                    ..self
                },
            )
        }
    }

    /// Enrolling a device under a drawn identifier: without a draw nothing
    /// is written; with one, the device is inserted under it.
    pub open spec fn enroll(
        self,
        drawn: Option<Seq<char>>,
        name: Seq<char>,
        device_type: Seq<char>,
        created_at: i64,
    ) -> Result<StoreView, StoreError> {
        match drawn {
            Some(id) => self.insert_device(id, name, device_type, created_at),
            None => Err(StoreError::NoRandomness),
        }
    }

    /// Minting a token for `device_id` at `now` from a drawn value. An
    /// expiry that does not fit the timestamp is refused first, then an
    /// unknown device, then a missing draw. Otherwise the drawn value is
    /// stored as an unused token that expires at `now + ttl_secs`, unless it
    /// is a token of the store already.
    pub open spec fn mint(
        self,
        drawn: Option<Seq<char>>,
        device_id: Seq<char>,
        now: i64,
        ttl_secs: i64,
    ) -> Result<StoreView, StoreError> {
        if !(i64::MIN <= now + ttl_secs <= i64::MAX) {
            Err(StoreError::TimestampOverflow)
        } else if !self.devices.dom().contains(device_id) {
            Err(StoreError::UnknownDevice)
        } else {
            match drawn {
                Some(token) => self.insert_token(token, device_id, now, (now + ttl_secs) as i64),
                None => Err(StoreError::NoRandomness),
            }
        }
    }

    pub open spec fn insert_settings(self, device_id: Seq<char>) -> Result<StoreView, StoreError> {
        if !self.devices.dom().contains(device_id) {
            Err(StoreError::UnknownDevice)
        } else if self.settings.dom().contains(device_id) {
            Err(StoreError::DuplicateKey)
        } else {
            Ok(StoreView { settings: self.settings.insert(device_id, default_settings()), ..self })
        }
    }

    pub open spec fn insert_credentials(
        self,
        device_id: Seq<char>,
        username: Seq<char>,
        password_hash: Seq<char>,
    ) -> Result<StoreView, StoreError> {
        if !self.devices.dom().contains(device_id) {
            Err(StoreError::UnknownDevice)
        } else if self.credentials.dom().contains(device_id) {
            Err(StoreError::DuplicateKey)
        } else if self.username_taken(username) {
            Err(StoreError::UsernameTaken)
        } else {
            Ok(
                StoreView {
                    credentials: self.credentials.insert(
                        device_id,
                        CredentialsView { username, password_hash },
                    ),
                    ..self
                },
            )
        }
    }

    pub open spec fn insert_status(self, device_id: Seq<char>, now: i64) -> Result<
        StoreView,
        StoreError,
    > {
        if !self.devices.dom().contains(device_id) {
            Err(StoreError::UnknownDevice)
        } else if self.status.dom().contains(device_id) {
            Err(StoreError::DuplicateKey)
        } else {
            Ok(
                StoreView {
                    status: self.status.insert(
                        device_id,
                        StatusView { online: false, updated_at: now },
                    ),
                    ..self
                },
            )
        }
    }

    /// The presence report of the broker: the device's status row is written
    /// anew, or created where there was none.
    pub open spec fn upsert_status(self, device_id: Seq<char>, online: bool, now: i64) -> Result<
        StoreView,
        StoreError,
    > {
        if !self.devices.dom().contains(device_id) {
            Err(StoreError::UnknownDevice)
        } else {
            Ok(
                StoreView {
                    status: self.status.insert(device_id, StatusView { online, updated_at: now }),
                    ..self
                },
            )
        }
    }

    pub open spec fn insert_iphone_data(self, device_id: Seq<char>) -> Result<
        StoreView,
        StoreError,
    > {
        if !self.devices.dom().contains(device_id) {
            Err(StoreError::UnknownDevice)
        } else if self.iphone_data.dom().contains(device_id) {
            Err(StoreError::DuplicateKey)
        } else {
            Ok(
                StoreView {
                    iphone_data: self.iphone_data.insert(
                        device_id,
                        IphoneDataView { battery_level: None },
                    ),
                    ..self
                },
            )
        }
    }

    /// The token's row with its `used` flag set; every other row as it was.
    pub open spec fn mark_used(self, token: Seq<char>) -> StoreView {
        if self.tokens.dom().contains(token) {
            StoreView {
                tokens: self.tokens.insert(token, TokenView { used: true, ..self.tokens[token] }),
                ..self
            }
        } else {
            self
        }
    }

    /// The conditional update that consumes a token: it goes through only
    /// for a token that is live at `now`.
    pub open spec fn claim(self, token: Seq<char>, now: i64) -> Result<StoreView, StoreError> {
        if self.token_live(token, now) {
            Ok(self.mark_used(token))
        } else {
            Err(StoreError::TokenInvalid)
        }
    }

    /// The device-type row, written only for the device type that has one.
    pub open spec fn insert_extension(self, device_id: Seq<char>) -> Result<StoreView, StoreError> {
        if self.needs_iphone_data(device_id) {
            self.insert_iphone_data(device_id)
        } else {
            Ok(self)
        }
    }

    /// One redemption as a unit of work: the claim, then settings,
    /// credentials, status and the device-type row, in this order. The first
    /// write that is refused decides the error, and nothing is kept.
    pub open spec fn provision(
        self,
        token: Seq<char>,
        now: i64,
        username: Seq<char>,
        password_hash: Seq<char>,
    ) -> Result<StoreView, StoreError> {
        let device_id = self.tokens[token].device_id;
        match self.claim(token, now) {
            Err(e) => Err(e),
            Ok(claimed) => match claimed.insert_settings(device_id) {
                Err(e) => Err(e),
                Ok(with_settings) => match with_settings.insert_credentials(
                    device_id,
                    username,
                    password_hash,
                ) {
                    Err(e) => Err(e),
                    Ok(with_credentials) => match with_credentials.insert_status(device_id, now) {
                        Err(e) => Err(e),
                        Ok(with_status) => with_status.insert_extension(device_id),
                    },
                },
            },
        }
    }
}

} // verus!
