//! The server's configuration.

use vstd::prelude::*;
use vstd::string::*;

use crate::text;
use crate::text_laws::law_trimming_takes_the_white_space_at_both_ends;

verus! {

/// The address that the server listens on, unless another is given.
pub const DEFAULT_BIND: &'static str = "0.0.0.0:3000";

/// The directory for media files.
pub const DEFAULT_TEMP_DIR: &'static str = "/sdcard/arisa_temp";

/// The package that calls are made in the name of, unless another is given.
pub const DEFAULT_CALLING_PACKAGE: &'static str = "com.android.shell";

/// The time between two looks at the database in milliseconds, unless another is given.
pub const DEFAULT_DB_PULL_DELAY: u64 = 100;

/// The largest gRPC message, in bytes.
pub const MAX_GRPC_MESSAGE_BYTES: usize = 64 * 1024 * 1024;

/// Stands before the referer in the application's preferences.
pub const REFERER_START: &'static str = "<string name=\"NotificationReferer\">";

/// Stands after the referer in the application's preferences.
pub const REFERER_END: &'static str = "</string>";

/// What the server runs with.
#[derive(Debug, PartialEq, Eq)]
pub struct RuntimeConfig {
    pub bind: String,
    pub app_path: String,
    pub referer: String,
    pub database_key: String,
    pub temp_dir: String,
    pub uid: Option<i32>,
    pub calling_package: String,
    pub db_pull_delay: u64,
    pub exit_on_stdin_close: bool,
}

/// What a [`RuntimeConfig`] holds.
pub struct RuntimeConfigView {
    pub bind: Seq<char>,
    pub app_path: Seq<char>,
    pub referer: Seq<char>,
    pub database_key: Seq<char>,
    pub temp_dir: Seq<char>,
    pub uid: Option<i32>,
    pub calling_package: Seq<char>,
    pub db_pull_delay: u64,
    pub exit_on_stdin_close: bool,
}

impl View for RuntimeConfig {
    type V = RuntimeConfigView;

    open spec fn view(&self) -> RuntimeConfigView {
        RuntimeConfigView {
            bind: self.bind@,
            app_path: self.app_path@,
            referer: self.referer@,
            database_key: self.database_key@,
            temp_dir: self.temp_dir@,
            uid: self.uid,
            calling_package: self.calling_package@,
            db_pull_delay: self.db_pull_delay,
            exit_on_stdin_close: self.exit_on_stdin_close,
        }
    }
}

/// The environment variables that the server reads; `None` for one that is not set.
#[derive(Debug, PartialEq, Eq)]
pub struct Environment {
    /// `ARISA_BIND`
    pub bind: Option<String>,
    /// `ARISA_UID`
    pub uid: Option<String>,
    /// `ARISA_CALLING_PKG`
    pub calling_package: Option<String>,
    /// `ARISA_DB_PULL_DELAY`
    pub db_pull_delay: Option<String>,
    /// `ARISA_EXIT_ON_STDIN_CLOSE`
    pub exit_on_stdin_close: Option<String>,
}

/// What an [`Environment`] holds.
pub struct EnvironmentView {
    pub bind: Option<Seq<char>>,
    pub uid: Option<Seq<char>>,
    pub calling_package: Option<Seq<char>>,
    pub db_pull_delay: Option<Seq<char>>,
    pub exit_on_stdin_close: Option<Seq<char>>,
}

impl View for Environment {
    type V = EnvironmentView;

    open spec fn view(&self) -> EnvironmentView {
        EnvironmentView {
            bind: self.bind.deep_view(),
            uid: self.uid.deep_view(),
            calling_package: self.calling_package.deep_view(),
            db_pull_delay: self.db_pull_delay.deep_view(),
            exit_on_stdin_close: self.exit_on_stdin_close.deep_view(),
        }
    }
}

/// Why there is no key for the application's database.
#[derive(Clone, Copy, Debug, PartialEq, Eq, Structural)]
pub enum KeyError {
    /// The file with the seed could not be read.
    Unreadable,
    /// The file holds no seed.
    NoSeed,
    /// No key could be derived from the seed.
    Underivable,
}

/// Why the server cannot be configured.
#[derive(Clone, Copy, Debug, PartialEq, Eq, Structural)]
pub enum ConfigError {
    /// A variable should hold an integer and does not.
    InvalidInteger,
    /// A variable should hold `true` or `false` and does not.
    InvalidBoolean,
    /// The application's data is in none of the places where it may be.
    NoAppPath,
    /// There is no referer in the application's preferences.
    NoReferer,
    /// There is no key for the application's database.
    NoKey(KeyError),
}

impl ConfigError {
    /// What went wrong, in words.
    pub fn message(self) -> (res: &'static str)
        ensures
            res@ == match self {
                ConfigError::InvalidInteger => "invalid integer environment variable"@,
                ConfigError::InvalidBoolean => "invalid boolean environment variable"@,
                ConfigError::NoAppPath => "failed to find KakaoTalk app path"@,
                ConfigError::NoReferer => "failed to read notification referer"@,
                ConfigError::NoKey(KeyError::Unreadable) =>
                    "failed to read KakaoTalk preferences"@,
                ConfigError::NoKey(KeyError::NoSeed) => "failed to read database seed"@,
                ConfigError::NoKey(KeyError::Underivable) => "failed to derive database key"@,
            },
    {
        match self {
            ConfigError::InvalidInteger => "invalid integer environment variable",
            ConfigError::InvalidBoolean => "invalid boolean environment variable",
            ConfigError::NoAppPath => "failed to find KakaoTalk app path",
            ConfigError::NoReferer => "failed to read notification referer",
            ConfigError::NoKey(KeyError::Unreadable) => "failed to read KakaoTalk preferences",
            ConfigError::NoKey(KeyError::NoSeed) => "failed to read database seed",
            ConfigError::NoKey(KeyError::Underivable) => "failed to derive database key",
        }
    }
}

// ---------------------------------------------------------------------------
// Single variables
// ---------------------------------------------------------------------------

/// The text of a variable, without the white space around it; `None` where it is not
/// set or nothing is left of it.
pub open spec fn setting(value: Option<Seq<char>>) -> Option<Seq<char>> {
    match value {
        Some(value) if text::trimmed(value).len() > 0 => Some(text::trimmed(value)),
        _ => None,
    }
}

/// The `i32` that a variable holds, if any.
pub open spec fn i32_setting(value: Option<Seq<char>>) -> Result<Option<i32>, ConfigError> {
    match setting(value) {
        None => Ok(None),
        Some(value) => match text::i32_value(value) {
            Some(n) => Ok(Some(n)),
            None => Err(ConfigError::InvalidInteger),
        },
    }
}

/// The `u64` that a variable holds, if any.
pub open spec fn u64_setting(value: Option<Seq<char>>) -> Result<Option<u64>, ConfigError> {
    match setting(value) {
        None => Ok(None),
        Some(value) => match text::u64_value(value) {
            Some(n) => Ok(Some(n)),
            None => Err(ConfigError::InvalidInteger),
        },
    }
}

/// The truth value that a variable holds, if any.
pub open spec fn bool_setting(value: Option<Seq<char>>) -> Result<Option<bool>, ConfigError> {
    match setting(value) {
        None => Ok(None),
        Some(value) => match text::bool_value(value) {
            Some(b) => Ok(Some(b)),
            None => Err(ConfigError::InvalidBoolean),
        },
    }
}

/// Reads a variable that may hold an `i32`.
pub fn optional_i32(value: Option<&str>) -> (res: Result<Option<i32>, ConfigError>)
    ensures
        res == i32_setting(value.deep_view()),
        res == Ok::<Option<i32>, ConfigError>(None) <==> (value matches Some(v) ==> forall|i: int|
            0 <= i < v@.len() ==> text::is_white_space(#[trigger] v@[i])),
        res matches Ok(Some(x)) ==> value matches Some(v) && text::i32_value(text::trimmed(v@)) == Some(
            x,
        ),
        res matches Err(error) ==> error == ConfigError::InvalidInteger,
        res is Err ==> (value matches Some(v) && text::i32_value(text::trimmed(v@)) is None),
{
    match value {
        None => Ok(None),
        Some(value) => {
            proof {
                law_trimming_takes_the_white_space_at_both_ends(value@);
            }
            let value = text::trim(value);
            if value.is_empty() {
                return Ok(None);
            }
            match text::parse_i32(value) {
                Some(n) => Ok(Some(n)),
                None => Err(ConfigError::InvalidInteger),
            }
        },
    }
}

/// Reads a variable that may hold a `u64`.
pub fn optional_u64(value: Option<&str>) -> (res: Result<Option<u64>, ConfigError>)
    ensures
        res == u64_setting(value.deep_view()),
        res == Ok::<Option<u64>, ConfigError>(None) <==> (value matches Some(v) ==> forall|i: int|
            0 <= i < v@.len() ==> text::is_white_space(#[trigger] v@[i])),
        res matches Ok(Some(x)) ==> value matches Some(v) && text::u64_value(text::trimmed(v@)) == Some(
            x,
        ),
        res matches Err(error) ==> error == ConfigError::InvalidInteger,
        res is Err ==> (value matches Some(v) && text::u64_value(text::trimmed(v@)) is None),
{
    match value {
        None => Ok(None),
        Some(value) => {
            proof {
                law_trimming_takes_the_white_space_at_both_ends(value@);
            }
            let value = text::trim(value);
            if value.is_empty() {
                return Ok(None);
            }
            match text::parse_u64(value) {
                Some(n) => Ok(Some(n)),
                None => Err(ConfigError::InvalidInteger),
            }
        },
    }
}

/// Reads a variable that may hold `true` or `false`.
pub fn optional_bool(value: Option<&str>) -> (res: Result<Option<bool>, ConfigError>)
    ensures
        res == bool_setting(value.deep_view()),
        res == Ok::<Option<bool>, ConfigError>(None) <==> (value matches Some(v) ==> forall|i: int|
            0 <= i < v@.len() ==> text::is_white_space(#[trigger] v@[i])),
        res matches Ok(Some(x)) ==> value matches Some(v) && text::bool_value(text::trimmed(v@)) == Some(
            x,
        ),
        res matches Err(error) ==> error == ConfigError::InvalidBoolean,
        res is Err ==> (value matches Some(v) && text::bool_value(text::trimmed(v@)) is None),
{
    match value {
        None => Ok(None),
        Some(value) => {
            proof {
                law_trimming_takes_the_white_space_at_both_ends(value@);
            }
            let value = text::trim(value);
            if value.is_empty() {
                return Ok(None);
            }
            match text::parse_bool(value) {
                Some(b) => Ok(Some(b)),
                None => Err(ConfigError::InvalidBoolean),
            }
        },
    }
}

// ---------------------------------------------------------------------------
// The application's files
// ---------------------------------------------------------------------------

/// The directories where the application's data may be, the likeliest first.
pub open spec fn app_paths(uid: Option<i32>) -> Seq<Seq<char>> {
    let user = match uid {
        Some(uid) => uid as int,
        None => 0,
    };
    seq![
        "/data/data/com.kakao.talk/"@,
        "/data_mirror/data_ce/null/"@ + text::decimal(user) + "/com.kakao.talk/"@,
        "/data_mirror/data_ce/null/0/com.kakao.talk/"@,
    ]
}

/// The first of the directories that exists.
pub open spec fn first_existing(uid: Option<i32>, exists: Seq<bool>) -> Option<Seq<char>> {
    if exists[0] {
        Some(app_paths(uid)[0])
    } else if exists[1] {
        Some(app_paths(uid)[1])
    } else if exists[2] {
        Some(app_paths(uid)[2])
    } else {
        None
    }
}

/// The directories where the application's data may be, the likeliest first.
pub fn app_path_candidates(uid: Option<i32>) -> (res: [String; 3])
    ensures
        forall|i: int| 0 <= i < 3 ==> (#[trigger] res@[i])@ == app_paths(uid)[i],
        res@[0]@ == "/data/data/com.kakao.talk/"@,
        res@[1]@ == "/data_mirror/data_ce/null/"@ + text::decimal(
            match uid {
                Some(uid) => uid as int,
                None => 0,
            },
        ) + "/com.kakao.talk/"@,
        res@[2]@ == "/data_mirror/data_ce/null/0/com.kakao.talk/"@,
{
    let user: i32 = match uid {
        Some(uid) => uid,
        None => 0,
    };
    let mut mirror = "/data_mirror/data_ce/null/".to_owned();
    mirror.append(&text::format_i32(user));
    mirror.append("/com.kakao.talk/");
    [
        "/data/data/com.kakao.talk/".to_owned(),
        mirror,
        "/data_mirror/data_ce/null/0/com.kakao.talk/".to_owned(),
    ]
}

/// The directory of the application's data: the first of the candidates that exists.
/// `exists` says of each of them whether it does.
pub fn find_app_path(uid: Option<i32>, exists: [bool; 3]) -> (res: Option<String>)
    ensures
        res.deep_view() == first_existing(uid, exists@),
        res matches Some(path) ==> exists|i: int|
            0 <= i < 3 && #[trigger] exists@[i] && path@ == app_paths(uid)[i] && forall|j: int|
                0 <= j < i ==> !#[trigger] exists@[j],
        res is None <==> forall|i: int| 0 <= i < 3 ==> !#[trigger] exists@[i],
{
    let candidates = app_path_candidates(uid);
    if exists[0] {
        Some(candidates[0].clone())
    } else if exists[1] {
        Some(candidates[1].clone())
    } else if exists[2] {
        Some(candidates[2].clone())
    } else {
        None
    }
}

/// The file with the referer, for an application whose data is in `app_path`.
pub fn referer_path(app_path: &str) -> (res: String)
    ensures
        res@ == app_path@ + "/shared_prefs/KakaoTalk.hw.perferences.xml"@,
{
    let mut path = app_path.to_owned();
    path.append("/shared_prefs/KakaoTalk.hw.perferences.xml");
    path
}

/// The file with the seed of the database key, for an application whose data is in
/// `app_path`.
pub fn preferences_path(app_path: &str) -> (res: String)
    ensures
        res@ == app_path@ + "/files/datastore/Feature_DataStore.pref.preferences_pb"@,
{
    let mut path = app_path.to_owned();
    path.append("/files/datastore/Feature_DataStore.pref.preferences_pb");
    path
}

/// The referer in `content`: what stands between the first start tag and what follows
/// it, be that an end tag, another start tag or the end of the text.
pub open spec fn referer_in(content: Seq<char>) -> Option<Seq<char>> {
    match text::after(content, REFERER_START@) {
        None => None,
        Some(rest) => Some(text::before(text::before(rest, REFERER_START@), REFERER_END@)),
    }
}

/// The referer in the preferences; `None` also where they could not be read.
pub open spec fn referer_of(content: Option<Seq<char>>) -> Option<Seq<char>> {
    match content {
        None => None,
        Some(content) => referer_in(content),
    }
}

/// Reads the referer from the application's preferences; `None` also where they could
/// not be read.
pub fn read_notification_referer(content: Option<&str>) -> (res: Option<String>)
    ensures
        res.deep_view() == referer_of(content.deep_view()),
        res is Some <==> (content matches Some(text) && text::occurs(
            text@,
            "<string name=\"NotificationReferer\">"@,
        )),
        res matches Some(referer) ==> (content matches Some(text) && referer_in(text@) == Some(
            referer@,
        )),
{
    let content = match content {
        None => return None,
        Some(content) => content,
    };
    match text::text_after(content, REFERER_START) {
        None => None,
        Some(rest) => {
            let value = text::text_before(rest, REFERER_START);
            Some(text::text_before(value, REFERER_END).to_owned())
        },
    }
}

// ---------------------------------------------------------------------------
// The whole configuration
// ---------------------------------------------------------------------------

/// The configuration that an environment asks for, for an application whose data is in
/// `app_path`.
pub open spec fn configured(
    environment: EnvironmentView,
    app_path: Seq<char>,
    referer: Seq<char>,
    database_key: Seq<char>,
) -> Result<RuntimeConfigView, ConfigError> {
    match (
        i32_setting(environment.uid),
        u64_setting(environment.db_pull_delay),
        bool_setting(environment.exit_on_stdin_close),
    ) {
        (Err(error), _, _) => Err(error),
        (_, Err(error), _) => Err(error),
        (_, _, Err(error)) => Err(error),
        (Ok(uid), Ok(db_pull_delay), Ok(exit_on_stdin_close)) => Ok(
            RuntimeConfigView {
                bind: match environment.bind {
                    Some(bind) => bind,
                    None => DEFAULT_BIND@,
                },
                app_path,
                referer,
                database_key,
                temp_dir: DEFAULT_TEMP_DIR@,
                uid,
                calling_package: match environment.calling_package {
                    Some(package) if !text::is_blank(package) => package,
                    _ => DEFAULT_CALLING_PACKAGE@,
                },
                db_pull_delay: match db_pull_delay {
                    Some(delay) => delay,
                    None => DEFAULT_DB_PULL_DELAY,
                },
                exit_on_stdin_close: match exit_on_stdin_close {
                    Some(exit) => exit,
                    None => true,
                },
            },
        ),
    }
}

/// The configuration for the application that was looked up: `exists` says which of
/// the places of its data exist, `preferences` what its preferences hold, where they
/// could be read, and `database_key` what its database key is, where there is one.
pub open spec fn loaded(
    environment: EnvironmentView,
    exists: Seq<bool>,
    preferences: Option<Seq<char>>,
    database_key: Result<Seq<char>, KeyError>,
) -> Result<RuntimeConfigView, ConfigError> {
    match i32_setting(environment.uid) {
        Err(error) => Err(error),
        Ok(uid) => match first_existing(uid, exists) {
            None => Err(ConfigError::NoAppPath),
            Some(app_path) => match referer_of(preferences) {
                None => Err(ConfigError::NoReferer),
                Some(referer) => match database_key {
                    Err(error) => Err(ConfigError::NoKey(error)),
                    Ok(key) => configured(environment, app_path, referer, key),
                },
            },
        },
    }
}

fn as_text(value: &Option<String>) -> (res: Option<&str>)
    ensures
        res.deep_view() == value.deep_view(),
{
    match value {
        Some(value) => Some(value.as_str()),
        None => None,
    }
}

/// Puts the configuration together from the environment and from what is known of the
/// application.
pub fn assemble(
    environment: Environment,
    app_path: String,
    referer: String,
    database_key: String,
) -> (res: Result<RuntimeConfig, ConfigError>)
    ensures
        match res {
            Ok(config) => Ok::<_, ConfigError>(config@),
            Err(error) => Err(error),
        } == configured(environment@, app_path@, referer@, database_key@),
        res matches Ok(config) ==> {
            &&& config.app_path == app_path
            &&& config.referer == referer
            &&& config.database_key == database_key
            &&& config.temp_dir@ == "/sdcard/arisa_temp"@
            &&& environment.bind matches Some(bind) ==> config.bind == bind
            &&& environment.bind is None ==> config.bind@ == "0.0.0.0:3000"@
            &&& environment.calling_package matches Some(package) ==> {
                ||| config.calling_package == package && exists|i: int|
                    0 <= i < package@.len() && !text::is_white_space(#[trigger] package@[i])
                ||| config.calling_package@ == "com.android.shell"@ && forall|i: int|
                    0 <= i < package@.len() ==> text::is_white_space(#[trigger] package@[i])
            }
            &&& environment.calling_package is None ==> config.calling_package@
                == "com.android.shell"@
            &&& Ok::<_, ConfigError>(config.uid) == i32_setting(environment@.uid)
            &&& u64_setting(environment@.db_pull_delay) == Ok::<_, ConfigError>(
                Some(config.db_pull_delay),
            ) || u64_setting(environment@.db_pull_delay) == Ok::<Option<u64>, ConfigError>(None)
                && config.db_pull_delay == 100
            &&& bool_setting(environment@.exit_on_stdin_close) == Ok::<_, ConfigError>(
                Some(config.exit_on_stdin_close),
            ) || bool_setting(environment@.exit_on_stdin_close) == Ok::<Option<bool>, ConfigError>(
                None,
            ) && config.exit_on_stdin_close
        },
{
    let uid: Option<i32> = match optional_i32(as_text(&environment.uid)) {
        Ok(uid) => uid,
        Err(error) => return Err(error),
    };
    let db_pull_delay: u64 = match optional_u64(as_text(&environment.db_pull_delay)) {
        Ok(Some(delay)) => delay,
        Ok(None) => DEFAULT_DB_PULL_DELAY,
        Err(error) => return Err(error),
    };
    let exit_on_stdin_close: bool = match optional_bool(
        as_text(&environment.exit_on_stdin_close),
    ) {
        Ok(Some(exit)) => exit,
        Ok(None) => true,
        Err(error) => return Err(error),
    };
    let calling_package: String = match environment.calling_package {
        Some(package) => if text::blank(&package) {
            DEFAULT_CALLING_PACKAGE.to_owned()
        } else {
            package
        },
        None => DEFAULT_CALLING_PACKAGE.to_owned(),
    };
    let bind: String = match environment.bind {
        Some(bind) => bind,
        None => DEFAULT_BIND.to_owned(),
    };
    Ok(
        RuntimeConfig {
            bind,
            app_path,
            referer,
            database_key,
            temp_dir: DEFAULT_TEMP_DIR.to_owned(),
            uid,
            calling_package,
            db_pull_delay,
            exit_on_stdin_close,
        },
    )
}

/// Loads the configuration. `exists` says of each of the [`app_path_candidates`] for the
/// user id in `environment` whether it exists. `preferences` is the text of the file at
/// the [`referer_path`] of the first that does, and `database_key` comes from the file at
/// its [`preferences_path`].
pub fn load(
    environment: Environment,
    exists: [bool; 3],
    preferences: Option<&str>,
    database_key: Result<String, KeyError>,
) -> (res: Result<RuntimeConfig, ConfigError>)
    ensures
        match res {
            Ok(config) => Ok::<_, ConfigError>(config@),
            Err(error) => Err(error),
        } == loaded(
            environment@,
            exists@,
            preferences.deep_view(),
            match database_key {
                Ok(key) => Ok(key@),
                Err(error) => Err(error),
            },
        ),
        res matches Ok(config) ==> {
            &&& i32_setting(environment@.uid) == Ok::<_, ConfigError>(config.uid)
            &&& first_existing(config.uid, exists@) == Some(config.app_path@)
            &&& exists|i: int|
                0 <= i < 3 && #[trigger] exists@[i] && config.app_path@ == app_paths(config.uid)[i]
                    && forall|j: int| 0 <= j < i ==> !#[trigger] exists@[j]
            &&& preferences matches Some(text) && referer_in(text@) == Some(config.referer@)
            &&& database_key matches Ok(key) && config.database_key@ == key@
        },
{
    let uid: Option<i32> = match optional_i32(as_text(&environment.uid)) {
        Ok(uid) => uid,
        Err(error) => return Err(error),
    };
    let app_path: String = match find_app_path(uid, exists) {
        Some(app_path) => app_path,
        None => return Err(ConfigError::NoAppPath),
    };
    let referer: String = match read_notification_referer(preferences) {
        Some(referer) => referer,
        None => return Err(ConfigError::NoReferer),
    };
    let database_key: String = match database_key {
        Ok(key) => key,
        Err(error) => return Err(ConfigError::NoKey(error)),
    };
    assemble(environment, app_path, referer, database_key)
}

// ---------------------------------------------------------------------------
// Laws
// ---------------------------------------------------------------------------

/// An environment in which the numbers and the truth value stand in white space asks
/// for the same as one without it.
pub proof fn law_white_space_does_not_matter(
    environment: EnvironmentView,
    app_path: Seq<char>,
    referer: Seq<char>,
    database_key: Seq<char>,
)
    ensures
        ({
            let bare = |value: Option<Seq<char>>|
                match value {
                    Some(value) => Some(text::trimmed(value)),
                    None => None,
                };
            configured(environment, app_path, referer, database_key) == configured(
                (EnvironmentView {
                    uid: bare(environment.uid),
                    db_pull_delay: bare(environment.db_pull_delay),
                    exit_on_stdin_close: bare(environment.exit_on_stdin_close),
                    ..environment
                }),
                app_path,
                referer,
                database_key,
            )
        }),
{
    if let Some(value) = environment.uid {
        text::lemma_trimmed_twice(value);
    }
    if let Some(value) = environment.db_pull_delay {
        text::lemma_trimmed_twice(value);
    }
    if let Some(value) = environment.exit_on_stdin_close {
        text::lemma_trimmed_twice(value);
    }
}

/// A blank variable, or one that is not set, stands for its default: no user id, calls
/// in the name of the shell, a look at the database every tenth of a second, and an
/// exit when the standard input is closed. An address counts even where it is blank.
pub proof fn law_blank_variables_are_defaults(
    environment: EnvironmentView,
    app_path: Seq<char>,
    referer: Seq<char>,
    database_key: Seq<char>,
)
    requires
        environment.uid matches Some(value) ==> text::is_blank(value),
        environment.calling_package matches Some(value) ==> text::is_blank(value),
        environment.db_pull_delay matches Some(value) ==> text::is_blank(value),
        environment.exit_on_stdin_close matches Some(value) ==> text::is_blank(value),
    ensures
        configured(environment, app_path, referer, database_key) == Ok::<_, ConfigError>(
            RuntimeConfigView {
                bind: match environment.bind {
                    Some(bind) => bind,
                    None => "0.0.0.0:3000"@,
                },
                app_path,
                referer,
                database_key,
                temp_dir: "/sdcard/arisa_temp"@,
                uid: None,
                calling_package: "com.android.shell"@,
                db_pull_delay: 100,
                exit_on_stdin_close: true,
            },
        ),
{
    if let Some(value) = environment.uid {
        text::lemma_trimmed_empty_iff_blank(value);
    }
    if let Some(value) = environment.db_pull_delay {
        text::lemma_trimmed_empty_iff_blank(value);
    }
    if let Some(value) = environment.exit_on_stdin_close {
        text::lemma_trimmed_empty_iff_blank(value);
    }
}

/// A user id that is given in decimal is the one that is used, in the configuration
/// and in the path of the user's data.
pub proof fn law_user_ids_are_read_back(uid: i32)
    ensures
        i32_setting(Some(text::decimal(uid as int))) == Ok::<_, ConfigError>(Some(uid)),
        app_paths(Some(uid))[1] == "/data_mirror/data_ce/null/"@ + text::decimal(uid as int)
            + "/com.kakao.talk/"@,
{
    text::law_decimal_reads_back(uid);
    text::lemma_decimal_is_trimmed(uid as int);
}

/// A configuration is loaded exactly when everything that it is made of is there and
/// can be read.
pub proof fn law_loading_needs_every_piece(
    environment: EnvironmentView,
    exists: Seq<bool>,
    preferences: Option<Seq<char>>,
    database_key: Result<Seq<char>, KeyError>,
)
    requires
        exists.len() == 3,
    ensures
        loaded(environment, exists, preferences, database_key) is Ok <==> {
            &&& i32_setting(environment.uid) is Ok
            &&& exists.contains(true)
            &&& preferences matches Some(text) && text::occurs(text, REFERER_START@)
            &&& database_key is Ok
            &&& u64_setting(environment.db_pull_delay) is Ok
            &&& bool_setting(environment.exit_on_stdin_close) is Ok
        },
{
    if exists.contains(true) {
        let i = exists.index_of(true);
        assert(exists[i]);
    }
    if exists[0] || exists[1] || exists[2] {
        assert(exists.contains(true));
    }
}

/// A referer in its tags is found, whatever stands around it, unless a start tag stands
/// before it or it holds a tag itself.
pub proof fn law_referers_are_found(prefix: Seq<char>, value: Seq<char>, suffix: Seq<char>)
    requires
        !text::occurs(prefix, REFERER_START@),
        !text::occurs(value, REFERER_START@),
        !text::occurs(value, REFERER_END@),
    ensures
        referer_in(prefix + REFERER_START@ + value + REFERER_END@ + suffix) == Some(value),
{
    reveal_strlit("<string name=\"NotificationReferer\">");
    reveal_strlit("</string>");
    let start = REFERER_START@;
    let end = REFERER_END@;
    let content = prefix + start + value + end + suffix;
    let rest = value + end + suffix;
    let n = start.len() as int;
    // The first start tag is the one after the prefix.
    assert(content.subrange(prefix.len() as int, prefix.len() + n) =~= start);
    assert forall|i: int| 0 <= i < prefix.len() implies !#[trigger] text::occurs_at(
        content,
        start,
        i,
    ) by {
        if text::occurs_at(content, start, i) {
            let there = content.subrange(i, i + n);
            if i + n <= prefix.len() {
                assert(prefix.subrange(i, i + n) =~= there);
                assert(text::occurs_at(prefix, start, i));
            } else {
                let k = prefix.len() - i;
                assert(there[k] == content[prefix.len() as int]);
                assert(content[prefix.len() as int] == '<');
                assert(start[k] != '<');
            }
        }
    }
    text::lemma_first_occurrence(content, start, prefix.len() as int);
    assert(content.skip(prefix.len() + n) =~= rest);
    // No start tag begins before the end tag is over.
    let m = value.len() + end.len();
    assert forall|i: int| 0 <= i < m implies !#[trigger] text::occurs_at(rest, start, i) by {
        if text::occurs_at(rest, start, i) {
            let there = rest.subrange(i, i + n);
            assert(there[0] == rest[i] && there[1] == rest[i + 1]);
            if i + n <= value.len() {
                assert(value.subrange(i, i + n) =~= there);
                assert(text::occurs_at(value, start, i));
            } else if i < value.len() {
                let k = value.len() - i;
                assert(there[k] == rest[value.len() as int]);
                assert(start[k] != '<');
            } else if i == value.len() {
                assert(rest[i + 1] == '/');
            } else {
                assert(rest[i] == end[i - value.len()]);
            }
        }
    }
    let piece = text::before(rest, start);
    if text::occurs(rest, start) {
        let at = choose|i: int| text::occurs_at(rest, start, i);
        text::lemma_first_occurrence_exists(rest, start, at);
        assert(!(0 <= text::first_occurrence(rest, start) < m));
    }
    assert(piece.len() >= m);
    assert forall|j: int| 0 <= j < m implies #[trigger] piece[j] == (value + end)[j] by {
        assert(piece[j] == rest[j]);
    }
    // So the value ends at the first end tag.
    assert(piece.subrange(value.len() as int, m as int) =~= end);
    assert forall|i: int| 0 <= i < value.len() implies !#[trigger] text::occurs_at(
        piece,
        end,
        i,
    ) by {
        if text::occurs_at(piece, end, i) {
            let there = piece.subrange(i, i + end.len());
            if i + end.len() <= value.len() {
                assert forall|j: int| 0 <= j < end.len() implies there[j] == value[i + j] by {
                    assert(there[j] == piece[i + j]);
                }
                assert(value.subrange(i, i + end.len()) =~= there);
                assert(text::occurs_at(value, end, i));
            } else {
                let k = value.len() - i;
                assert(there[k] == piece[value.len() as int]);
                assert(end[k] != '<');
            }
        }
    }
    text::lemma_first_occurrence(piece, end, value.len() as int);
    assert(piece.take(value.len() as int) =~= value);
}

} // verus!
