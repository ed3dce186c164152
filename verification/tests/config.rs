use hc_rtc_demo::config::load_config;
use hc_rtc_demo::config::Config;
use hc_rtc_demo::config::ConfigError;

fn config(name: &str, shout: &str) -> Config {
    Config {
        friendly_name: name.to_string(),
        shoutout: shout.to_string(),
        signal: vec!["hc-rtc-sig:x/127.0.0.1:1".to_string()],
        lair_tag: "tag".to_string(),
        lair_passphrase: "pass".to_string(),
    }
}

#[test]
fn config_within_bounds_is_handed_back() {
    let c = config("Holochain<3", "Holochain rocks!");
    assert_eq!(load_config(c.clone()), Ok(c));
    let c = config(&"a".repeat(32), &"b".repeat(32));
    assert_eq!(load_config(c.clone()), Ok(c));
    let c = config("", "");
    assert_eq!(load_config(c.clone()), Ok(c));
}

#[test]
fn long_name_is_refused() {
    assert_eq!(load_config(config(&"a".repeat(33), "s")), Err(ConfigError::FriendlyNameTooLong));
    assert_eq!(
        load_config(config(&"a".repeat(33), &"b".repeat(40))),
        Err(ConfigError::FriendlyNameTooLong)
    );
}

#[test]
fn long_shoutout_is_refused() {
    assert_eq!(load_config(config("n", &"b".repeat(33))), Err(ConfigError::ShoutoutTooLong));
}

#[test]
fn length_is_counted_in_bytes() {
    let seventeen = "é".repeat(17);
    assert_eq!(seventeen.chars().count(), 17);
    assert_eq!(load_config(config(&seventeen, "s")), Err(ConfigError::FriendlyNameTooLong));
    let sixteen = "é".repeat(16);
    let c = config(&sixteen, &sixteen);
    assert_eq!(load_config(c.clone()), Ok(c));
}

#[test]
fn errors_in_words() {
    assert_eq!(
        ConfigError::FriendlyNameTooLong.message(),
        "friendlyName cannot be > 32 utf8 bytes"
    );
    assert_eq!(ConfigError::ShoutoutTooLong.message(), "shoutout cannot be > 32 utf8 bytes");
}

#[test]
fn new_config_has_defaults_and_fresh_secrets() {
    let a = Config::new();
    let b = Config::new();
    assert_eq!(a.friendly_name, "Holochain<3");
    assert_eq!(a.shoutout, "Holochain rocks!");
    assert_eq!(
        a.signal,
        vec![
            "hc-rtc-sig:z9_7dB5HPV8tK6y8Q86yBtO-99Aa2QFZOZxfy0w0lDo/127.0.0.1:43489/[::1]:38559"
                .to_string()
        ]
    );
    assert_eq!(a.lair_tag.len(), 32);
    assert_eq!(a.lair_passphrase.len(), 32);
    assert_eq!(b.lair_tag.len(), 32);
    assert_ne!(a.lair_tag, a.lair_passphrase);
    assert_ne!(a.lair_tag, b.lair_tag);
    assert_eq!(load_config(a.clone()), Ok(a));
}
