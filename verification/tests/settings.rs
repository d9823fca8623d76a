use reddit_video::config::{Config, ConfigError, Entry, Setting};

fn entry(section: &str, key: &str, value: Setting) -> Entry {
    Entry { section: section.to_string(), key: key.to_string(), value }
}

fn text(value: &str) -> Setting {
    Setting::Text(value.to_string())
}

#[test]
fn an_empty_document_gives_the_standard_settings() {
    let config = Config::from_entries(&Vec::new()).unwrap();
    let standard = Config::default();
    assert_eq!(format!("{config:?}"), format!("{standard:?}"));
}

#[test]
fn every_setting_can_be_given() {
    let entries = vec![
        entry("assets", "background", text("bg.mp4")),
        entry("assets", "watermark", text("@me")),
        entry("out", "name", text("out.mp4")),
        entry("out", "overwrite", Setting::Flag(true)),
        entry("content", "subreddit", text("rust")),
        entry("content", "sort", text("new")),
        entry("content", "time", text("all")),
        entry("content", "comments", Setting::Flag(false)),
        entry("content", "limit", Setting::Number(12)),
        entry("voice", "language", text("en-US")),
        entry("voice", "gender", text("female")),
        entry("voice", "pitch", Setting::Decimal("0.25".to_string())),
        entry("voice", "rate", Setting::Number(1)),
    ];
    let config = Config::from_entries(&entries).unwrap();
    assert_eq!(config.assets.background, "bg.mp4");
    assert_eq!(config.assets.watermark, Some("@me".to_string()));
    assert_eq!(config.out.name, "out.mp4");
    assert!(config.out.overwrite);
    assert_eq!(config.content.subreddit, "rust");
    assert_eq!(config.content.sort, "new");
    assert_eq!(config.content.time, "all");
    assert!(!config.content.comments);
    assert_eq!(config.content.limit, 12);
    assert_eq!(config.voice.language, "en-US");
    assert_eq!(config.voice.gender, "female");
    assert_eq!(config.voice.pitch, "0.25");
    assert_eq!(config.voice.rate, "1");
}

#[test]
fn a_setting_leaves_the_others_as_they_are() {
    let mut config = Config::default();
    assert_eq!(config.set("content", "limit", Setting::Number(0)), Ok(()));
    assert_eq!(config.content.limit, 0);
    assert_eq!(config.content.subreddit, "askreddit");
    assert_eq!(config.out.name, "video.mp4");
    assert_eq!(config.set("content", "limit", Setting::Number(4_294_967_295)), Ok(()));
    assert_eq!(config.content.limit, u32::MAX);
}

#[test]
fn the_later_of_two_values_stays() {
    let entries = vec![entry("out", "name", text("a.mp4")), entry("out", "name", text("b.mp4"))];
    assert_eq!(Config::from_entries(&entries).unwrap().out.name, "b.mp4");
}

#[test]
fn an_unknown_group_is_refused() {
    let mut config = Config::default();
    assert_eq!(
        config.set("reddit", "limit", Setting::Number(3)),
        Err(ConfigError::UnknownSection("reddit".to_string()))
    );
    assert_eq!(config.content.limit, 5);
}

#[test]
fn an_unknown_setting_is_refused() {
    let mut config = Config::default();
    assert_eq!(
        config.set("out", "title", text("x")),
        Err(ConfigError::UnknownKey("out".to_string(), "title".to_string()))
    );
    assert_eq!(
        config.set("assets", "name", text("x")),
        Err(ConfigError::UnknownKey("assets".to_string(), "name".to_string()))
    );
    assert_eq!(
        config.set("content", "", Setting::Other),
        Err(ConfigError::UnknownKey("content".to_string(), String::new()))
    );
    assert_eq!(
        config.set("voice", "volume", Setting::Number(1)),
        Err(ConfigError::UnknownKey("voice".to_string(), "volume".to_string()))
    );
}

#[test]
fn a_value_of_the_wrong_kind_is_refused() {
    let mut config = Config::default();
    let invalid = |section: &str, key: &str| {
        Err(ConfigError::InvalidValue(section.to_string(), key.to_string()))
    };
    assert_eq!(config.set("assets", "background", Setting::Flag(true)), invalid("assets", "background"));
    assert_eq!(config.set("assets", "watermark", Setting::Number(1)), invalid("assets", "watermark"));
    assert_eq!(config.set("out", "overwrite", text("yes")), invalid("out", "overwrite"));
    assert_eq!(config.set("content", "comments", Setting::Number(1)), invalid("content", "comments"));
    assert_eq!(config.set("content", "limit", Setting::Number(-1)), invalid("content", "limit"));
    assert_eq!(
        config.set("content", "limit", Setting::Number(4_294_967_296)),
        invalid("content", "limit")
    );
    assert_eq!(
        config.set("content", "limit", Setting::Decimal("1.5".to_string())),
        invalid("content", "limit")
    );
    assert_eq!(config.set("voice", "pitch", text("0.5")), invalid("voice", "pitch"));
    assert_eq!(config.set("voice", "rate", Setting::Other), invalid("voice", "rate"));
    let standard = Config::default();
    assert_eq!(format!("{config:?}"), format!("{standard:?}"));
}

#[test]
fn the_first_refusal_fails_the_document() {
    let entries = vec![
        entry("out", "name", text("a.mp4")),
        entry("out", "colour", text("red")),
        entry("nowhere", "x", text("y")),
    ];
    assert_eq!(
        Config::from_entries(&entries).unwrap_err(),
        ConfigError::UnknownKey("out".to_string(), "colour".to_string())
    );
}

#[test]
fn whole_numbers_become_numerals() {
    let mut config = Config::default();
    assert_eq!(config.set("voice", "pitch", Setting::Number(0)), Ok(()));
    assert_eq!(config.voice.pitch, "0");
    assert_eq!(config.set("voice", "pitch", Setting::Number(-12)), Ok(()));
    assert_eq!(config.voice.pitch, "-12");
    assert_eq!(config.set("voice", "rate", Setting::Number(i64::MIN)), Ok(()));
    assert_eq!(config.voice.rate, i64::MIN.to_string());
    assert_eq!(Setting::Number(3).copy(), Setting::Number(3));
    assert_eq!(text("a").copy(), text("a"));
}
