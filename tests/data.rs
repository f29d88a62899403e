use mctrlrs::config::{
    check_base_url, default_max_password_len, default_min_password_len, resolve_tls_config,
    ConfigValidationError,
};
use mctrlrs::menu::ActiveMenu;
use mctrlrs::properties::{Error, Properties};
use mctrlrs::text::{parse_u16, trim};
use mctrlrs::user::{is_strong_password, EnrollToken, InvalidTokenError, InvalidUsernameError, Username};
use mctrlrs::world::{capitalize, id_to_name, title_case_word, WorldError, Worlds};

fn lines(text: &[&str]) -> Vec<String> {
    text.iter().map(|l| l.to_string()).collect()
}

fn sample() -> Properties {
    Properties::parse(
        "server.properties".to_string(),
        lines(&["#Minecraft server properties", "level-name = survival ", "rcon.port=25575", "rcon.password=hunter2", "motd=A = B"]),
    )
    .ok()
    .unwrap()
}

#[test]
fn properties_parse_and_lookup() {
    let props = sample();
    assert_eq!(props.level_name(), "survival");
    assert_eq!(props.path(), "server.properties");
    let rcon = props.rcon_properties().ok().unwrap();
    assert_eq!(rcon.port, 25575);
    assert_eq!(rcon.password, "hunter2");
    assert_eq!(
        props.render(),
        "level-name=survival\nrcon.port=25575\nrcon.password=hunter2\nmotd=A = B\n"
    );
}

#[test]
fn properties_later_line_wins() {
    let props = Properties::parse(String::new(), lines(&["a=1", "b=2", "a=3"])).ok().unwrap();
    assert_eq!(props.render(), "a=3\nb=2\n");
}

#[test]
fn properties_malformed_line() {
    let r = Properties::parse(String::new(), lines(&["# header", "a=1", "no separator"]));
    assert!(matches!(r, Err(Error::MalformedLine(2))));
    let r = Properties::parse(String::new(), lines(&["a=1", ""]));
    assert!(matches!(r, Err(Error::MalformedLine(1))));
}

#[test]
fn properties_default_level_name() {
    let props = Properties::parse(String::new(), lines(&["motd=hi"])).ok().unwrap();
    assert_eq!(props.level_name(), "world");
}

#[test]
fn properties_rcon_errors() {
    let props = Properties::parse(String::new(), lines(&["rcon.password=x"])).ok().unwrap();
    assert!(matches!(props.rcon_properties(), Err(Error::InvalidRconPort)));
    let props = Properties::parse(String::new(), lines(&["rcon.port=70000", "rcon.password=x"])).ok().unwrap();
    assert!(matches!(props.rcon_properties(), Err(Error::InvalidRconPort)));
    let props = Properties::parse(String::new(), lines(&["rcon.port=abc", "rcon.password=x"])).ok().unwrap();
    assert!(matches!(props.rcon_properties(), Err(Error::InvalidRconPort)));
    let props = Properties::parse(String::new(), lines(&["rcon.port=25575"])).ok().unwrap();
    assert!(matches!(props.rcon_properties(), Err(Error::MissingRconPassword)));
}

#[test]
fn properties_with_level_name_replaces_in_place() {
    let props = sample().with_level_name("creative".to_string());
    assert_eq!(props.level_name(), "creative");
    assert_eq!(
        props.render(),
        "level-name=creative\nrcon.port=25575\nrcon.password=hunter2\nmotd=A = B\n"
    );
    let props = Properties::parse(String::new(), lines(&["motd=hi"])).ok().unwrap();
    let props = props.with_level_name("new".to_string());
    assert_eq!(props.render(), "motd=hi\nlevel-name=new\n");
}

#[test]
fn u16_parsing_follows_std() {
    for text in ["0", "25575", "+80", "0080", "65535", "", "+", "-1", "65536", "12a", " 1"] {
        assert_eq!(parse_u16(text), text.parse::<u16>().ok(), "{text:?}");
    }
}

#[test]
fn trimming_follows_std() {
    for text in ["", "  ", " a b ", "\tx\n", "\u{3000}y\u{a0}", "plain"] {
        assert_eq!(trim(text), text.trim(), "{text:?}");
    }
}

fn worlds() -> Worlds {
    Worlds::new(sample(), lines(&["creative", "survival", "my_old_world"]))
}

#[test]
fn worlds_list_marks_active() {
    let w = worlds();
    let list: Vec<(String, bool)> = w.list().iter().map(|x| (x.id(), x.is_active)).collect();
    assert_eq!(
        list,
        vec![
            ("creative".to_string(), false),
            ("survival".to_string(), true),
            ("my_old_world".to_string(), false)
        ]
    );
}

#[test]
fn worlds_switch() {
    let (world, props) = worlds().switch("creative".to_string()).ok().unwrap();
    assert_eq!(world.id(), "creative");
    assert_eq!(props.level_name(), "creative");
    assert_eq!(props.path(), "server.properties");
}

#[test]
fn worlds_switch_errors() {
    assert!(matches!(
        worlds().switch("survival".to_string()),
        Err(WorldError::AlreadyActive(name)) if name == "survival"
    ));
    assert!(matches!(
        worlds().switch("missing".to_string()),
        Err(WorldError::NoSuchWorld(name)) if name == "missing"
    ));
}

#[test]
fn world_display_names() {
    assert_eq!(id_to_name("my_old_world"), "My Old World");
    assert_eq!(id_to_name("survival"), "Survival");
    assert_eq!(id_to_name("a__b"), "A  B");
    assert_eq!(id_to_name(""), "");
    assert_eq!(title_case_word("hello"), "Hello");
    assert_eq!(title_case_word("ßtraße"), "SStraße");
    assert_eq!(title_case_word(""), "");
    assert_eq!(capitalize("X".to_string(), "yz"), "Xz");
}

#[test]
fn usernames() {
    assert!(matches!(Username::parse(String::new()), Err(InvalidUsernameError::TooShort)));
    assert!(matches!(Username::parse("a".repeat(65)), Err(InvalidUsernameError::TooLong(64))));
    assert!(matches!(
        Username::parse("bad name".to_string()),
        Err(InvalidUsernameError::InvalidCharacters(v)) if v == "bad name"
    ));
    assert_eq!(Username::parse("a".repeat(64)).unwrap().as_str(), "a".repeat(64));
    assert_eq!(Username::parse("Steve_42".to_string()).unwrap().as_str(), "Steve_42");
}

#[test]
fn enroll_tokens() {
    assert_eq!(EnrollToken::parse("abc_123".to_string()).unwrap().as_str(), "abc_123");
    assert_eq!(EnrollToken::parse("a-b".to_string()).unwrap().as_str(), "a-b");
    assert!(matches!(EnrollToken::parse("-".repeat(128)), Err(InvalidTokenError)));
    assert!(EnrollToken::parse("a".repeat(128)).is_ok());
    let a = EnrollToken::parse("tok".to_string()).unwrap();
    assert!(a == EnrollToken::parse("tok".to_string()).unwrap());
    assert!(a != EnrollToken::parse("other".to_string()).unwrap());
}

#[test]
fn strong_passwords() {
    assert!(is_strong_password("abcDEF123"));
    assert!(is_strong_password("abc!DEF"));
    assert!(!is_strong_password("abcdef123"));
    assert!(!is_strong_password(""));
    assert!(!is_strong_password("ABC!!!"));
}

#[test]
fn tls_configuration() {
    let tls = resolve_tls_config(Some("k.pem".to_string()), Some("c.pem".to_string()))
        .ok()
        .unwrap()
        .unwrap();
    assert_eq!(tls.key, "k.pem");
    assert_eq!(tls.chain, "c.pem");
    assert!(resolve_tls_config(None, None).ok().unwrap().is_none());
    assert!(matches!(
        resolve_tls_config(Some("k".to_string()), None),
        Err(ConfigValidationError::Tls)
    ));
    assert!(matches!(
        resolve_tls_config(None, Some("c".to_string())),
        Err(ConfigValidationError::Tls)
    ));
}

#[test]
fn base_url_and_defaults() {
    assert_eq!(check_base_url("https://x/".to_string(), "https"), Ok("https://x/".to_string()));
    assert_eq!(
        check_base_url("ftp://x/".to_string(), "ftp"),
        Err(ConfigValidationError::InvalidBaseUrl("ftp://x/".to_string()))
    );
    assert_eq!(default_min_password_len(), 10);
    assert_eq!(default_max_password_len(), 128);
}

#[test]
fn menu_names() {
    assert_eq!(ActiveMenu::default().as_str(), "");
    assert_eq!(ActiveMenu::Home.as_str(), "home");
    assert_eq!(ActiveMenu::Worlds.as_str(), "worlds");
}
