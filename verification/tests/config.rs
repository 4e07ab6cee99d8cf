use arisa::config::{
    app_path_candidates, assemble, find_app_path, load, optional_bool, optional_i32,
    optional_u64, preferences_path, read_notification_referer, referer_path, ConfigError,
    Environment, KeyError, RuntimeConfig, MAX_GRPC_MESSAGE_BYTES,
};

fn unset() -> Environment {
    Environment {
        bind: None,
        uid: None,
        calling_package: None,
        db_pull_delay: None,
        exit_on_stdin_close: None,
    }
}

fn loaded(environment: Environment) -> Result<RuntimeConfig, ConfigError> {
    assemble(environment, "app/".to_string(), "ref".to_string(), "key".to_string())
}

fn some(value: &str) -> Option<String> {
    Some(value.to_string())
}

#[test]
fn unset_variables_have_their_documented_defaults() {
    assert_eq!(
        loaded(unset()),
        Ok(RuntimeConfig {
            bind: "0.0.0.0:3000".to_string(),
            app_path: "app/".to_string(),
            referer: "ref".to_string(),
            database_key: "key".to_string(),
            temp_dir: "/sdcard/arisa_temp".to_string(),
            uid: None,
            calling_package: "com.android.shell".to_string(),
            db_pull_delay: 100,
            exit_on_stdin_close: true,
        })
    );
}

#[test]
fn set_variables_are_used() {
    let config = loaded(Environment {
        bind: some("127.0.0.1:1"),
        uid: some(" 10 "),
        calling_package: some(" com.example "),
        db_pull_delay: some("\t250\n"),
        exit_on_stdin_close: some("false"),
    })
    .unwrap();
    assert_eq!(config.bind, "127.0.0.1:1");
    assert_eq!(config.uid, Some(10));
    assert_eq!(config.calling_package, " com.example ");
    assert_eq!(config.db_pull_delay, 250);
    assert!(!config.exit_on_stdin_close);
}

#[test]
fn blank_variables_count_as_unset_except_the_address() {
    let config = loaded(Environment {
        bind: some("  "),
        uid: some(""),
        calling_package: some(" \u{3000}"),
        db_pull_delay: some(" "),
        exit_on_stdin_close: some("\n"),
    })
    .unwrap();
    assert_eq!(config.bind, "  ");
    assert_eq!(config.uid, None);
    assert_eq!(config.calling_package, "com.android.shell");
    assert_eq!(config.db_pull_delay, 100);
    assert!(config.exit_on_stdin_close);
}

#[test]
fn bad_variables_are_refused_in_order() {
    let bad_uid = Environment { uid: some("ten"), exit_on_stdin_close: some("maybe"), ..unset() };
    assert_eq!(loaded(bad_uid), Err(ConfigError::InvalidInteger));
    let bad_delay = Environment { db_pull_delay: some("-1"), ..unset() };
    assert_eq!(loaded(bad_delay), Err(ConfigError::InvalidInteger));
    let bad_exit = Environment { exit_on_stdin_close: some("yes"), ..unset() };
    assert_eq!(loaded(bad_exit), Err(ConfigError::InvalidBoolean));
    assert_eq!(
        ConfigError::InvalidInteger.message(),
        "invalid integer environment variable"
    );
    assert_eq!(
        ConfigError::InvalidBoolean.message(),
        "invalid boolean environment variable"
    );
}

#[test]
fn single_variables() {
    assert_eq!(optional_i32(None), Ok(None));
    assert_eq!(optional_i32(Some(" -3 ")), Ok(Some(-3)));
    assert_eq!(optional_i32(Some("3000000000")), Err(ConfigError::InvalidInteger));
    assert_eq!(optional_u64(Some("3000000000")), Ok(Some(3_000_000_000)));
    assert_eq!(optional_u64(Some("   ")), Ok(None));
    assert_eq!(optional_u64(Some("x")), Err(ConfigError::InvalidInteger));
    assert_eq!(optional_bool(Some(" true ")), Ok(Some(true)));
    assert_eq!(optional_bool(Some("")), Ok(None));
    assert_eq!(optional_bool(Some("TRUE")), Err(ConfigError::InvalidBoolean));
}

#[test]
fn the_first_existing_directory_is_taken() {
    let candidates = app_path_candidates(Some(10));
    assert_eq!(candidates[0], "/data/data/com.kakao.talk/");
    assert_eq!(candidates[1], "/data_mirror/data_ce/null/10/com.kakao.talk/");
    assert_eq!(candidates[2], "/data_mirror/data_ce/null/0/com.kakao.talk/");
    assert_eq!(app_path_candidates(None)[1], candidates[2]);
    assert_eq!(find_app_path(Some(10), [true, true, true]).as_ref(), Some(&candidates[0]));
    assert_eq!(find_app_path(Some(10), [false, true, true]).as_ref(), Some(&candidates[1]));
    assert_eq!(find_app_path(Some(10), [false, false, true]).as_ref(), Some(&candidates[2]));
    assert_eq!(find_app_path(Some(10), [false, false, false]), None);
}

#[test]
fn user_ids_are_read_back() {
    for uid in [0, 10, 150, -7, i32::MAX, i32::MIN] {
        assert_eq!(optional_i32(Some(&uid.to_string())), Ok(Some(uid)));
        assert_eq!(
            app_path_candidates(Some(uid))[1],
            format!("/data_mirror/data_ce/null/{uid}/com.kakao.talk/")
        );
    }
}

#[test]
fn files_of_the_application() {
    assert_eq!(
        referer_path("/data/data/com.kakao.talk/"),
        "/data/data/com.kakao.talk//shared_prefs/KakaoTalk.hw.perferences.xml"
    );
    assert_eq!(
        preferences_path("/d"),
        "/d/files/datastore/Feature_DataStore.pref.preferences_pb"
    );
}

#[test]
fn referers_are_found() {
    let tag = r#"<string name="NotificationReferer">"#;
    let read = |content: &str| read_notification_referer(Some(content));
    assert_eq!(read_notification_referer(None), None);
    assert_eq!(read(""), None);
    assert_eq!(read("<map></map>"), None);
    assert_eq!(read(&format!("<map>{tag}abc</string></map>")), Some("abc".to_string()));
    assert_eq!(read(&format!("{tag}</string>")), Some(String::new()));
    assert_eq!(read(&format!("{tag}open")), Some("open".to_string()));
    assert_eq!(read(tag), Some(String::new()));
    assert_eq!(read(&format!("{tag}a{tag}b</string>")), Some("a".to_string()));
    assert_eq!(
        read(&format!("{tag}first</string>{tag}second</string>")),
        Some("first".to_string())
    );
    assert_eq!(
        read(&format!("<str{tag}값</string>")),
        Some("값".to_string())
    );
}

#[test]
fn referers_are_read_as_splitting_reads_them() {
    let tag = r#"<string name="NotificationReferer">"#;
    for content in [
        format!("x{tag}y</string>z"),
        format!("{tag}{tag}q</string>"),
        format!("</string>{tag}a</string></string>{tag}"),
        format!("{tag}a<b>c</string>"),
        "nothing".to_string(),
    ] {
        let expected = content
            .split(tag)
            .nth(1)
            .and_then(|value| value.split("</string>").next())
            .map(str::to_string);
        assert_eq!(read_notification_referer(Some(&content)), expected);
    }
}

#[test]
fn messages_are_limited_to_64_mebibytes() {
    assert_eq!(MAX_GRPC_MESSAGE_BYTES, 67_108_864);
}

const PREFERENCES: &str = r#"<map><string name="NotificationReferer">ref</string></map>"#;

fn key() -> Result<String, KeyError> {
    Ok("key".to_string())
}

#[test]
fn the_configuration_is_that_of_the_application_found() {
    let environment = Environment { uid: some("10"), ..unset() };
    let config = load(environment, [false, true, true], Some(PREFERENCES), key()).unwrap();
    assert_eq!(
        config,
        RuntimeConfig {
            bind: "0.0.0.0:3000".to_string(),
            app_path: "/data_mirror/data_ce/null/10/com.kakao.talk/".to_string(),
            referer: "ref".to_string(),
            database_key: "key".to_string(),
            temp_dir: "/sdcard/arisa_temp".to_string(),
            uid: Some(10),
            calling_package: "com.android.shell".to_string(),
            db_pull_delay: 100,
            exit_on_stdin_close: true,
        }
    );
    let config = load(unset(), [true, false, false], Some(PREFERENCES), key()).unwrap();
    assert_eq!(config.app_path, "/data/data/com.kakao.talk/");
    assert_eq!(config.uid, None);
}

#[test]
fn loading_stops_at_the_first_piece_that_is_missing() {
    let bad = |uid: &str| Environment {
        uid: some(uid),
        db_pull_delay: some("soon"),
        exit_on_stdin_close: some("maybe"),
        ..unset()
    };
    let none = [false, false, false];
    let all = [true, true, true];
    let no_key = Err(KeyError::NoSeed);
    assert_eq!(load(bad("x"), none, None, no_key.clone()), Err(ConfigError::InvalidInteger));
    assert_eq!(load(bad("1"), none, None, no_key.clone()), Err(ConfigError::NoAppPath));
    assert_eq!(load(bad("1"), all, None, no_key.clone()), Err(ConfigError::NoReferer));
    assert_eq!(load(bad("1"), all, Some("<map/>"), no_key), Err(ConfigError::NoReferer));
    for error in [KeyError::Unreadable, KeyError::NoSeed, KeyError::Underivable] {
        assert_eq!(
            load(bad("1"), all, Some(PREFERENCES), Err(error)),
            Err(ConfigError::NoKey(error))
        );
    }
    assert_eq!(load(bad("1"), all, Some(PREFERENCES), key()), Err(ConfigError::InvalidInteger));
    let bad_exit = Environment { exit_on_stdin_close: some("maybe"), ..unset() };
    assert_eq!(load(bad_exit, all, Some(PREFERENCES), key()), Err(ConfigError::InvalidBoolean));
}

#[test]
fn failures_to_load_are_told_in_words() {
    for (error, message) in [
        (ConfigError::NoAppPath, "failed to find KakaoTalk app path"),
        (ConfigError::NoReferer, "failed to read notification referer"),
        (ConfigError::NoKey(KeyError::Unreadable), "failed to read KakaoTalk preferences"),
        (ConfigError::NoKey(KeyError::NoSeed), "failed to read database seed"),
        (ConfigError::NoKey(KeyError::Underivable), "failed to derive database key"),
    ] {
        assert_eq!(error.message(), message);
    }
}
