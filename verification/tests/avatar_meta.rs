use shittuber::avatar::TalkModeSetting;
use shittuber::meta::{avatar_config, parse_avatar_meta, AvatarConfig, AvatarConfigError, MetaElement, MetaLeaf, MetaValue};

fn ok(text: &str) -> AvatarConfig {
    avatar_config(text).unwrap()
}

fn err(text: &str) -> AvatarConfigError {
    avatar_config(text).unwrap_err()
}

#[test]
fn empty_file_gives_one_plain_emotion_on_green() {
    let c = ok("");
    assert!(!c.nearest_filter);
    assert_eq!(c.background, 0x00ff00);
    assert_eq!(c.emotions.len(), 1);
    assert!(matches!(c.emotions[0].talk_mode, TalkModeSetting::Plain));
    assert!(c.emotions[0].idle_size.is_none());
    assert!(c.emotions[0].speak_size.is_none());
}

#[test]
fn full_file_is_read() {
    let text = "filtermode = \"nearest\"\nbgcol = \"1e2030\"\n\n[[emotions]]\ntalkmode = \"jump:5:9.8\"\nidlesize = \"100x200\"\n\n[[emotions]]\nspeaksize = \"3x4\"\ntalkmode = 5\n";
    let c = ok(text);
    assert!(c.nearest_filter);
    assert_eq!(c.background, 0x1e2030);
    assert_eq!(c.emotions.len(), 2);
    match &c.emotions[0].talk_mode {
        TalkModeSetting::Jump(m, g) => {
            assert_eq!(m, "5");
            assert_eq!(g, "9.8");
        }
        other => panic!("{:?}", other),
    }
    assert_eq!(c.emotions[0].idle_size, Some(("100".to_string(), "200".to_string())));
    assert_eq!(c.emotions[0].speak_size, None);
    assert!(matches!(c.emotions[1].talk_mode, TalkModeSetting::Plain));
    assert_eq!(c.emotions[1].speak_size, Some(("3".to_string(), "4".to_string())));
}

#[test]
fn other_filter_and_non_string_background_use_defaults() {
    let c = ok("filtermode = \"linear\"\nbgcol = 5\n");
    assert!(!c.nearest_filter);
    assert_eq!(c.background, 0x00ff00);
    let c = ok("filtermode = 1\n");
    assert!(!c.nearest_filter);
}

#[test]
fn unreadable_files_and_colours_are_refused() {
    assert_eq!(err("this is = = not toml"), AvatarConfigError::NotToml);
    assert_eq!(err("bgcol = \"zz\""), AvatarConfigError::BadBackground);
}

#[test]
fn malformed_emotions_are_refused() {
    assert_eq!(err("emotions = \"x\""), AvatarConfigError::EmotionsNotArray);
    assert_eq!(err("emotions = [1]"), AvatarConfigError::EmotionNotTable);
    assert_eq!(err("[[emotions]]\ntalkmode = \"jump:5\""), AvatarConfigError::MissingGravity);
    assert_eq!(err("[[emotions]]\nidlesize = 5"), AvatarConfigError::SizeNotText);
    assert_eq!(err("[[emotions]]\nspeaksize = \"100\""), AvatarConfigError::SizeWithoutX);
}

#[test]
fn background_error_comes_before_emotion_errors() {
    assert_eq!(err("bgcol = \"zz\"\nemotions = 3"), AvatarConfigError::BadBackground);
}

#[test]
fn toml_is_read_into_plain_values() {
    assert!(parse_avatar_meta("= broken").is_none());
    let m = parse_avatar_meta("a = \"x\"\nb = 2\n[[c]]\nd = \"y\"\ne = 1.5\n").unwrap();
    assert_eq!(m.entries.len(), 3);
    assert_eq!(m.entries[0].0, "a");
    assert!(matches!(&m.entries[0].1, MetaValue::Text(s) if s == "x"));
    assert!(matches!(&m.entries[1].1, MetaValue::Other));
    match &m.entries[2].1 {
        MetaValue::Array(els) => {
            assert_eq!(els.len(), 1);
            match &els[0] {
                MetaElement::Table(es) => {
                    assert_eq!(es.len(), 2);
                    assert_eq!(es[0].0, "d");
                    assert!(matches!(&es[0].1, MetaLeaf::Text(s) if s == "y"));
                    assert!(matches!(&es[1].1, MetaLeaf::Other));
                }
                MetaElement::Other => panic!("table expected"),
            }
        }
        other => panic!("{:?}", other),
    }
}
