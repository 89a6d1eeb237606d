//! The configuration that a frontend hands in, and what is made of it.
use crate::encoding;
use crate::ffi_types::{AudioFormat, Bitrate};
use crate::text;
use vstd::prelude::*;

verus! {

/// What is said of a configuration without one of the texts that it must name.
pub const MISSING_STRINGS: &'static str =
    "Mandatory configuration strings (name, type, cache_dir, persisted_cache_dir) are NULL";

/// What is said of stored credentials that are not of the kind that is stored.
pub const NOT_STORED_CREDENTIALS: &'static str =
    "FFI: Playback credentials were incomplete or had the wrong authentication type";

/// How a user proves who they are. The variants that the library makes have
/// names; others are known by their number.
#[derive(Debug, Clone, Copy, PartialEq, Eq, Structural)]
pub enum AuthenticationType {
    UserPass,
    StoredSpotifyCredentials,
    SpotifyToken,
    Other(i32),
}

/// Who a user is, and the proof of it.
#[derive(Debug)]
pub struct Credentials {
    pub username: Option<String>,
    pub auth_type: AuthenticationType,
    pub auth_data: Vec<u8>,
}

/// A copy of the bytes of a text.
fn text_bytes(content: &str) -> (bytes: Vec<u8>)
    ensures
        bytes@ == vstd::utf8::encode_utf8(content@),
{
    let mut bytes: Vec<u8> = Vec::new();
    bytes.extend_from_slice(content.as_bytes());
    assert(bytes@ =~= vstd::utf8::encode_utf8(content@));
    bytes
}

/// Whether an optional text is missing or empty.
pub open spec fn is_blank(content: Option<String>) -> bool {
    content matches Some(value) ==> value@.len() == 0
}

impl Credentials {
    /// Whether these are credentials that were stored after a login: only those
    /// may come from where a frontend keeps them.
    pub open spec fn is_stored(self) -> bool {
        &&& self.auth_type == AuthenticationType::StoredSpotifyCredentials
        &&& !is_blank(self.username)
        &&& self.auth_data@.len() > 0
    }

    /// Credentials that consist of an access token.
    pub fn with_access_token(token: &str) -> (credentials: Credentials)
        ensures
            credentials.username is None,
            credentials.auth_type == AuthenticationType::SpotifyToken,
            credentials.auth_data@ == vstd::utf8::encode_utf8(token@),
    {
        Credentials {
            username: None,
            auth_type: AuthenticationType::SpotifyToken,
            auth_data: text_bytes(token),
        }
    }

    /// Credentials that consist of a user name and a password.
    pub fn with_password(username: String, password: &str) -> (credentials: Credentials)
        ensures
            credentials.username == Some(username),
            credentials.auth_type == AuthenticationType::UserPass,
            credentials.auth_data@ == vstd::utf8::encode_utf8(password@),
    {
        Credentials {
            username: Some(username),
            auth_type: AuthenticationType::UserPass,
            auth_data: text_bytes(password),
        }
    }

    /// Whether these are credentials that were stored after a login.
    pub fn complete_and_stored(&self) -> (stored: bool)
        ensures
            stored == self.is_stored(),
    {
        let named = match &self.username {
            Some(name) => !text::is_empty(name.as_str()),
            None => false,
        };
        self.auth_type == AuthenticationType::StoredSpotifyCredentials && named
            && self.auth_data.len() > 0
    }
}

/// The range of the mixer's logarithmic volume control, in decibels.
pub const VOLUME_RANGE_DB: u32 = 60;

/// The configuration that a frontend hands in.
#[derive(Debug)]
pub struct LibrespotConfig {
    pub device_name: Option<String>,
    pub device_type: Option<String>,
    pub cache_dir: Option<String>,
    pub persisted_cache_dir: Option<String>,
    pub enable_discovery: bool,
    pub enable_volume_normalisation: bool,
    pub bitrate: Bitrate,
    pub format: AudioFormat,
    pub initial_volume: u16,
    pub username: Option<String>,
    pub password: Option<String>,
    pub access_token: Option<String>,
    /// The stored credentials, or why their text could not be read.
    pub playback_credentials: Option<Result<Credentials, String>>,
}

/// What a runner is set up with. `D` is the type of device types.
#[derive(Debug)]
pub struct RunnerSetup<D> {
    pub device_name: String,
    pub device_id: String,
    pub device_type: D,
    pub cache_dir: String,
    pub persisted_cache_dir: String,
    pub enable_discovery: bool,
    pub normalisation: bool,
    pub bitrate: Bitrate,
    pub audio_format: AudioFormat,
    pub initial_volume: u16,
    /// The range of the mixer's logarithmic volume control, in decibels.
    pub volume_range_db: u32,
    pub initial_creds: Option<Credentials>,
    pub zeroconf_port: u16,
}

/// Whether all that a configuration must name is there.
pub open spec fn has_mandatory(config: LibrespotConfig) -> bool {
    &&& config.device_name is Some
    &&& config.device_type is Some
    &&& config.cache_dir is Some
    &&& config.persisted_cache_dir is Some
}

/// Whether the stored credentials, if there are any, could be read.
pub open spec fn credentials_read(config: LibrespotConfig) -> bool {
    config.playback_credentials matches Some(stored) ==> stored is Ok
}

/// Whether the stored credentials, if there are any, are complete and of the
/// kind that may be stored.
pub open spec fn credentials_stored(config: LibrespotConfig) -> bool {
    config.playback_credentials matches Some(stored) ==> stored matches Ok(credentials)
        && credentials.is_stored()
}

/// Whether `credentials` are those that a configuration gives: stored ones come
/// before a token, a token before a password, and a password needs a name.
pub open spec fn chosen_credentials(
    config: LibrespotConfig,
    credentials: Option<Credentials>,
) -> bool {
    match (config.playback_credentials, config.access_token, config.username, config.password) {
        (Some(stored), _, _, _) => stored matches Ok(kept) && credentials == Some(kept),
        (None, Some(token), _, _) => credentials matches Some(made) && made.username is None
            && made.auth_type == AuthenticationType::SpotifyToken && made.auth_data@
            == vstd::utf8::encode_utf8(token@),
        (None, None, Some(username), Some(password)) => credentials matches Some(made)
            && made.username == Some(username) && made.auth_type == AuthenticationType::UserPass
            && made.auth_data@ == vstd::utf8::encode_utf8(password@),
        _ => credentials is None,
    }
}

/// Whether a runner is set up as a configuration says.
pub open spec fn is_setup<D>(
    config: LibrespotConfig,
    device_type: Option<D>,
    speaker: D,
    setup: RunnerSetup<D>,
) -> bool {
    &&& config.device_name == Some(setup.device_name)
    &&& setup.device_id@ == encoding::lower_hex(
        encoding::sha1_digest(vstd::utf8::encode_utf8(setup.device_name@)),
    )
    &&& setup.device_type == match device_type {
        Some(kind) => kind,
        None => speaker,
    }
    &&& config.cache_dir == Some(setup.cache_dir)
    &&& config.persisted_cache_dir == Some(setup.persisted_cache_dir)
    &&& setup.enable_discovery == config.enable_discovery
    &&& setup.normalisation == config.enable_volume_normalisation
    &&& setup.bitrate == config.bitrate
    &&& setup.audio_format == config.format
    &&& setup.initial_volume == config.initial_volume
    &&& setup.volume_range_db == VOLUME_RANGE_DB
    &&& chosen_credentials(config, setup.initial_creds)
    &&& setup.zeroconf_port == 0
}

/// What a runner is set up with for a configuration. `device_type` is what the
/// named device type was understood as, `speaker` the type that is taken where
/// it was not, and `backend_found` says whether there is an audio backend.
pub fn parse_ffi_config<D>(
    config: LibrespotConfig,
    device_type: Option<D>,
    speaker: D,
    backend_found: bool,
) -> (result: Result<RunnerSetup<D>, String>)
    ensures
        result is Ok <==> has_mandatory(config) && credentials_stored(config) && backend_found,
        !has_mandatory(config) ==> text::fails_with(result, MISSING_STRINGS@),
        has_mandatory(config) && !credentials_read(config) ==> text::fails_with(
            result,
            "FFI: Invalid playback credentials: "@ + config.playback_credentials->Some_0->Err_0@,
        ),
        has_mandatory(config) && credentials_read(config) && !credentials_stored(config)
            ==> text::fails_with(result, NOT_STORED_CREDENTIALS@),
        has_mandatory(config) && credentials_stored(config) && !backend_found
            ==> text::fails_with(result, "FFI: No audio backend found"@),
        result matches Ok(setup) ==> is_setup(config, device_type, speaker, setup),
{
    let (device_name, cache_dir, persisted_cache_dir) = match (
        config.device_name,
        config.device_type,
        config.cache_dir,
        config.persisted_cache_dir,
    ) {
        (Some(name), Some(_), Some(cache), Some(persisted)) => (name, cache, persisted),
        _ => {
            return Err(MISSING_STRINGS.to_owned());
        },
    };
    let initial_creds = match config.playback_credentials {
        Some(Ok(credentials)) => {
            if !credentials.complete_and_stored() {
                return Err(NOT_STORED_CREDENTIALS.to_owned());
            }
            Some(credentials)
        },
        Some(Err(error)) => {
            return Err(text::concat("FFI: Invalid playback credentials: ", error.as_str()));
        },
        None => match (config.access_token, config.username, config.password) {
            (Some(token), _, _) => Some(Credentials::with_access_token(token.as_str())),
            (None, Some(username), Some(password)) => Some(
                Credentials::with_password(username, password.as_str()),
            ),
            _ => None,
        },
    };
    let device_id = encoding::sha1_hex(device_name.as_str().as_bytes());
    let device_type = match device_type {
        Some(kind) => kind,
        None => speaker,
    };
    if !backend_found {
        return Err("FFI: No audio backend found".to_owned());
    }
    Ok(
        RunnerSetup {
            device_name,
            device_id,
            device_type,
            cache_dir,
            persisted_cache_dir,
            enable_discovery: config.enable_discovery,
            normalisation: config.enable_volume_normalisation,
            bitrate: config.bitrate,
            audio_format: config.format,
            initial_volume: config.initial_volume,
            volume_range_db: VOLUME_RANGE_DB,
            initial_creds,
            zeroconf_port: 0,
        },
    )
}

/// A configuration that is complete gives the strongest proof of who its user is:
/// credentials that were stored, or else a token, or else a name with a
/// password, and nothing exactly where it has none of these. What is sent is the
/// text of the token or of the password, and only a password needs the name.
pub proof fn law_the_best_credentials_are_used(
    config: LibrespotConfig,
    credentials: Option<Credentials>,
)
    requires
        chosen_credentials(config, credentials),
        credentials_stored(config),
    ensures
        credentials is None <==> config.playback_credentials is None && config.access_token is None
            && (config.username is None || config.password is None),
        config.playback_credentials matches Some(Ok(stored)) ==> credentials == Some(stored),
        config.playback_credentials is Some ==> credentials->Some_0.auth_type
            == AuthenticationType::StoredSpotifyCredentials,
        config.playback_credentials is None ==> match credentials {
            Some(made) => {
                &&& config.access_token matches Some(token) ==> made.auth_type
                    == AuthenticationType::SpotifyToken && made.username is None && made.auth_data@
                    == vstd::utf8::encode_utf8(token@)
                &&& config.access_token is None ==> made.auth_type == AuthenticationType::UserPass
                    && made.username == config.username && config.username is Some
                &&& config.access_token is None ==> (config.password matches Some(password)
                    && made.auth_data@ == vstd::utf8::encode_utf8(password@))
            },
            None => true,
        },
{
}

/// Credentials may come from where a frontend keeps them only if they were stored
/// after a login, and name a user and a proof.
pub proof fn law_only_complete_credentials_are_stored(credentials: Credentials)
    ensures
        credentials.is_stored() ==> credentials.auth_type
            == AuthenticationType::StoredSpotifyCredentials,
        credentials.is_stored() ==> (credentials.username matches Some(name) && name@.len() > 0),
        credentials.is_stored() ==> credentials.auth_data@.len() > 0,
        credentials.auth_type == AuthenticationType::StoredSpotifyCredentials
            && credentials.auth_data@.len() > 0 && (credentials.username matches Some(name)
            && name@.len() > 0) ==> credentials.is_stored(),
{
}

/// A configuration must name a device, its type and both directories, and its
/// stored credentials, if it has any, must have been read.
pub proof fn law_a_configuration_must_be_complete(config: LibrespotConfig)
    ensures
        has_mandatory(config) <==> !(config.device_name is None || config.device_type is None
            || config.cache_dir is None || config.persisted_cache_dir is None),
        credentials_stored(config) ==> credentials_read(config),
        config.playback_credentials is None ==> credentials_stored(config),
        config.playback_credentials matches Some(Err(_)) ==> !credentials_read(config),
        config.playback_credentials matches Some(Ok(credentials)) ==> credentials_read(config) && (
        credentials_stored(config) <==> credentials.is_stored()),
{
}

/// A runner is set up with what its configuration names: the name of the device,
/// the directories, each switch and number, and the type of the device, which is
/// a speaker where the type was not understood. Its identifier is made of the
/// name alone, so that a device is known again.
pub proof fn law_a_runner_is_set_up_as_configured<D>(
    config: LibrespotConfig,
    other: LibrespotConfig,
    device_type: Option<D>,
    other_type: Option<D>,
    speaker: D,
    setup: RunnerSetup<D>,
    other_setup: RunnerSetup<D>,
)
    requires
        is_setup(config, device_type, speaker, setup),
        is_setup(other, other_type, speaker, other_setup),
    ensures
        Some(setup.device_name) == config.device_name,
        Some(setup.cache_dir) == config.cache_dir,
        Some(setup.persisted_cache_dir) == config.persisted_cache_dir,
        setup.enable_discovery == config.enable_discovery,
        setup.normalisation == config.enable_volume_normalisation,
        setup.bitrate == config.bitrate,
        setup.audio_format == config.format,
        setup.initial_volume == config.initial_volume,
        setup.volume_range_db == 60,
        setup.zeroconf_port == 0,
        device_type matches Some(kind) ==> setup.device_type == kind,
        device_type is None ==> setup.device_type == speaker,
        chosen_credentials(config, setup.initial_creds),
        encoding::hex_bytes(setup.device_id@) == encoding::sha1_digest(
            vstd::utf8::encode_utf8(setup.device_name@),
        ),
        setup.device_name@ == other_setup.device_name@ ==> setup.device_id@
            == other_setup.device_id@,
{
    encoding::law_hex_round_trip(
        encoding::sha1_digest(vstd::utf8::encode_utf8(setup.device_name@)),
    );
}

} // verus!
