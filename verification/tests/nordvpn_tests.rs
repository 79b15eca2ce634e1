use std::io::{Cursor, Write};

use vopono_nordvpn::archive::{extract_configs, open_archive};
use vopono_nordvpn::config_type::CONFIG_TYPE_COUNT;
use vopono_nordvpn::nordvpn::{
    auth_source, credentials_from_answers, AuthSource,
    choose_config_type, config_type_for_choice, output_name_for_server, password_question,
    plan_entry, protocol_dir_name, resolve_config_source, username_question,
};
use vopono_nordvpn::server_name::parse_server_name;
use vopono_nordvpn::text::str_chars;
use vopono_nordvpn::{
    BoolChoice, ConfigError, ConfigType, ConfigurationChoice, CountryMap, EntryAction, Input,
    InputNumericu16, NonInteractiveUiClient, NordVPN, OpenVpnProtocol, Password, UiClient,
    UiError,
};
use zip::write::SimpleFileOptions;
use zip::{CompressionMethod, ZipWriter};

const ALL: [ConfigType; 6] = [
    ConfigType::DefaultTcp,
    ConfigType::Udp,
    ConfigType::OnionTcp,
    ConfigType::OnionUdp,
    ConfigType::DoubleTcp,
    ConfigType::DoubleUdp,
];

fn countries() -> CountryMap {
    let mut m = CountryMap::new();
    m.insert("us".to_string(), "United States".to_string());
    m.insert("al".to_string(), "Albania".to_string());
    m.insert("ch".to_string(), "Switzerland".to_string());
    m
}

fn write_name(a: EntryAction) -> Option<String> {
    match a {
        EntryAction::Write(n) => Some(n),
        _ => None,
    }
}

// ----------------------------------------------------------------------------
// Configuration types

#[test]
fn config_type_index_round_trip() {
    for (i, c) in ALL.iter().enumerate() {
        assert_eq!(ConfigType::index_to_variant(i), *c);
    }
    assert_eq!(CONFIG_TYPE_COUNT, 6);
}

#[test]
fn config_type_protocols_and_kinds() {
    let tcp = [true, false, true, false, true, false];
    let onion = [false, false, true, true, false, false];
    let double = [false, false, false, false, true, true];
    for (i, c) in ALL.iter().enumerate() {
        let p = if tcp[i] { OpenVpnProtocol::TCP } else { OpenVpnProtocol::UDP };
        assert_eq!(c.get_protocol(), p);
        assert_eq!(c.is_onion(), onion[i]);
        assert_eq!(c.is_double(), double[i]);
    }
}

#[test]
fn config_type_names_and_descriptions() {
    let c = ConfigType::default();
    assert_eq!(c, ConfigType::DefaultTcp);
    assert_eq!(
        c.prompt(),
        "Please choose the set of OpenVPN configuration files you wish to install"
    );
    assert_eq!(
        c.all_names(),
        vec!["Default (TCP)", "UDP", "Onion (TCP)", "Onion (UDP)", "Double TCP", "Double UDP"]
    );
    let descriptions = c.all_descriptions().unwrap();
    assert_eq!(descriptions.len(), 6);
    assert_eq!(descriptions[0], "These files connect over TCP.");
    assert_eq!(descriptions[3], "These files connect via Onion over VPN, using UDP.");
    assert_eq!(
        ConfigType::DoubleUdp.description().unwrap(),
        "These files connect over UDP across two separate VPN servers. The country listed is the initial outgoing VPN server."
    );
    assert_eq!(ConfigType::OnionTcp.display_name(), "Onion (TCP)");
}

#[test]
fn config_choice_answers() {
    assert_eq!(config_type_for_choice(Ok(0)).ok(), Some(ConfigType::DefaultTcp));
    assert_eq!(config_type_for_choice(Ok(5)).ok(), Some(ConfigType::DoubleUdp));
    assert!(matches!(config_type_for_choice(Ok(6)), Err(ConfigError::InvalidChoice { index: 6 })));
    let failed = UiError::Failed { message: "no terminal".to_string() };
    match config_type_for_choice(Err(failed)) {
        Err(ConfigError::Ui(e)) => assert_eq!(e.message(), "no terminal"),
        _ => panic!("expected a client error"),
    }
}

#[test]
fn non_interactive_client_chooses_default_config() {
    let client = NonInteractiveUiClient;
    assert_eq!(choose_config_type(&client).ok(), Some(ConfigType::DefaultTcp));
}

#[test]
fn protocol_directories() {
    assert_eq!(protocol_dir_name(OpenVpnProtocol::TCP), "ovpn_tcp");
    assert_eq!(protocol_dir_name(OpenVpnProtocol::UDP), "ovpn_udp");
}

// ----------------------------------------------------------------------------
// DNS

#[test]
fn nordvpn_dns_servers() {
    assert_eq!(
        NordVPN.provider_dns(),
        Some(vec![(103, 86, 96, 100), (103, 86, 99, 100)])
    );
}

// ----------------------------------------------------------------------------
// Download source

fn source(alt: Option<&str>) -> (String, bool) {
    let s = resolve_config_source(alt);
    (s.url, s.is_github_repo)
}

#[test]
fn source_defaults_without_alternative() {
    let default = "https://downloads.nordcdn.com/configs/archives/servers/ovpn.zip".to_string();
    assert_eq!(source(None), (default.clone(), false));
    assert_eq!(source(Some("")), (default, false));
}

#[test]
fn source_zip_urls_are_used_directly() {
    assert_eq!(
        source(Some("https://example.com/configs.zip")),
        ("https://example.com/configs.zip".to_string(), false)
    );
    assert_eq!(
        source(Some("https://github.com/user/repo/archive/refs/heads/dev.zip")),
        ("https://github.com/user/repo/archive/refs/heads/dev.zip".to_string(), true)
    );
}

#[test]
fn source_github_repository_becomes_main_archive() {
    let expected = ("https://github.com/user/repo/archive/refs/heads/main.zip".to_string(), true);
    assert_eq!(source(Some("https://github.com/user/repo")), expected);
    assert_eq!(source(Some("https://github.com/user/repo///")), expected);
    assert_eq!(
        source(Some("https://github.com/user/repo/tree/x")),
        expected
    );
}

#[test]
fn source_malformed_github_and_other_urls_kept() {
    assert_eq!(
        source(Some("https://github.com/user")),
        ("https://github.com/user".to_string(), false)
    );
    assert_eq!(
        source(Some("https://github.com/user/")),
        ("https://github.com/user/".to_string(), false)
    );
    assert_eq!(
        source(Some("http://mirror.example.org/nord")),
        ("http://mirror.example.org/nord".to_string(), false)
    );
}

// ----------------------------------------------------------------------------
// Server names

fn parse(s: &str) -> Option<(String, Option<String>)> {
    parse_server_name(&str_chars(s)).map(|m| {
        (
            m.code.iter().collect::<String>(),
            m.special.map(|v| v.iter().collect::<String>()),
        )
    })
}

fn regex_parse(re: &regex::Regex, s: &str) -> Option<(String, Option<String>)> {
    re.captures(s).map(|c| {
        (
            c.get(1).unwrap().as_str().to_string(),
            c.get(2).map(|m| m.as_str().to_string()),
        )
    })
}

#[test]
fn server_name_examples() {
    assert_eq!(parse("us1234"), Some(("us".to_string(), None)));
    assert_eq!(parse("al-onion1"), Some(("al".to_string(), Some("onion".to_string()))));
    assert_eq!(parse("us-ca12"), Some(("us".to_string(), Some("ca".to_string()))));
    assert_eq!(parse("us-onionx7"), Some(("us".to_string(), Some("onionx".to_string()))));
    assert_eq!(parse("ad"), None);
    assert_eq!(parse("1234"), None);
    assert_eq!(parse(""), None);
    assert_eq!(parse("us-12"), None);
    assert_eq!(parse("x-y-z9"), Some(("y".to_string(), Some("z".to_string()))));
    assert_eq!(parse("12ab34"), Some(("ab".to_string(), None)));
}

#[test]
fn server_name_agrees_with_regex() {
    let re = regex::Regex::new(r"([a-z]+)(?:-(onion|[a-z]+))?([0-9]+)").unwrap();
    let alphabet = ['a', 'o', 'n', 'i', '-', '1', '0', 'Z', '_'];
    // every string of length up to 5 over the alphabet
    let mut current: Vec<String> = vec![String::new()];
    for _ in 0..5 {
        let mut next = Vec::new();
        for s in &current {
            for c in alphabet {
                let mut t = s.clone();
                t.push(c);
                assert_eq!(parse(&t), regex_parse(&re, &t), "on {:?}", t);
                next.push(t);
            }
        }
        current = next;
    }
    for s in [
        "us-onion123", "us-onionion1", "onion-onion1", "a-onion", "ab-cd-ef12", "uk1000",
        "de-nl5", "us-ca-1", "-a1", "a--b1", "ça1", "é-a1", "us-onion", "zz-onio1",
    ] {
        assert_eq!(parse(s), regex_parse(&re, s), "on {:?}", s);
    }
}

// ----------------------------------------------------------------------------
// Which archive entries are installed

#[test]
fn plan_standard_tcp_entry() {
    let m = countries();
    let a = plan_entry("ovpn_tcp/us1234.nordvpn.com.tcp.ovpn", false, ConfigType::DefaultTcp, &m);
    assert_eq!(write_name(a), Some("united_states-us1234.ovpn".to_string()));
}

#[test]
fn plan_lowercases_server_names() {
    let m = countries();
    let a = plan_entry("ovpn_tcp/US1234.nordvpn.com.tcp.ovpn", false, ConfigType::DefaultTcp, &m);
    assert_eq!(write_name(a), Some("united_states-us1234.ovpn".to_string()));
}

#[test]
fn plan_unknown_country_uses_code() {
    let m = countries();
    let a = plan_entry("ovpn_udp/zz7.nordvpn.com.udp.ovpn", false, ConfigType::Udp, &m);
    assert_eq!(write_name(a), Some("zz-zz7.ovpn".to_string()));
}

#[test]
fn plan_ignores_other_protocol_directories_and_files() {
    let m = countries();
    assert!(matches!(
        plan_entry("ovpn_udp/us1.nordvpn.com.udp.ovpn", false, ConfigType::DefaultTcp, &m),
        EntryAction::Ignore
    ));
    assert!(matches!(
        plan_entry("ovpn_tcp/readme.txt", false, ConfigType::DefaultTcp, &m),
        EntryAction::Ignore
    ));
    assert!(matches!(
        plan_entry("ovpn_tcp/", false, ConfigType::DefaultTcp, &m),
        EntryAction::Ignore
    ));
    assert!(matches!(
        plan_entry("us1.nordvpn.com.tcp.ovpn", false, ConfigType::DefaultTcp, &m),
        EntryAction::Ignore
    ));
}

#[test]
fn plan_onion_and_double_selection() {
    let m = countries();
    let onion = "ovpn_tcp/al-onion1.nordvpn.com.tcp.ovpn";
    let double = "ovpn_tcp/us-ch2.nordvpn.com.tcp.ovpn";
    let plain = "ovpn_tcp/us3.nordvpn.com.tcp.ovpn";
    assert_eq!(
        write_name(plan_entry(onion, false, ConfigType::OnionTcp, &m)),
        Some("albania-al_onion1.ovpn".to_string())
    );
    assert!(matches!(plan_entry(double, false, ConfigType::OnionTcp, &m), EntryAction::Skip));
    assert!(matches!(plan_entry(plain, false, ConfigType::OnionTcp, &m), EntryAction::Skip));
    assert_eq!(
        write_name(plan_entry(double, false, ConfigType::DoubleTcp, &m)),
        Some("united_states-us_ch2.ovpn".to_string())
    );
    assert!(matches!(plan_entry(onion, false, ConfigType::DoubleTcp, &m), EntryAction::Skip));
    assert!(matches!(plan_entry(plain, false, ConfigType::DoubleTcp, &m), EntryAction::Skip));
    assert!(matches!(plan_entry(onion, false, ConfigType::DefaultTcp, &m), EntryAction::Skip));
    assert!(matches!(plan_entry(double, false, ConfigType::DefaultTcp, &m), EntryAction::Skip));
}

#[test]
fn plan_unmatched_server_keeps_file_name() {
    let m = countries();
    let a = plan_entry("ovpn_tcp/My Server.tcp.ovpn", false, ConfigType::DefaultTcp, &m);
    assert_eq!(write_name(a), Some("my_server.tcp.ovpn".to_string()));
}

#[test]
fn plan_github_archive_skips_top_directory() {
    let m = countries();
    let name = "repo-main/ovpn_udp/ad1.nordvpn.com.udp.ovpn";
    assert_eq!(
        write_name(plan_entry(name, true, ConfigType::Udp, &m)),
        Some("ad-ad1.ovpn".to_string())
    );
    assert!(matches!(plan_entry(name, false, ConfigType::Udp, &m), EntryAction::Ignore));
    // a single-piece path keeps its only piece in a GitHub archive too
    assert!(matches!(
        plan_entry("ovpn_udp", true, ConfigType::Udp, &m),
        EntryAction::Ignore
    ));
}

#[test]
fn server_output_names() {
    let m = countries();
    let out = output_name_for_server(
        &str_chars("us-ch2.nordvpn.com.tcp.ovpn"),
        &str_chars("us-ch2"),
        ConfigType::DoubleUdp,
        &m,
    );
    assert_eq!(out.map(|v| v.iter().collect::<String>()), Some("United States-us_ch2.ovpn".to_string()));
    let out = output_name_for_server(&str_chars("x.ovpn"), &str_chars("x"), ConfigType::Udp, &m);
    assert_eq!(out.map(|v| v.iter().collect::<String>()), Some("x.ovpn".to_string()));
}

// ----------------------------------------------------------------------------
// Country map

#[test]
fn country_map_insert_and_get() {
    let mut m = CountryMap::new();
    assert_eq!(m.get(&"us".to_string()), None);
    m.insert("us".to_string(), "United States".to_string());
    m.insert("de".to_string(), "Germany".to_string());
    assert_eq!(m.get(&"us".to_string()), Some("United States".to_string()));
    m.insert("us".to_string(), "USA".to_string());
    assert_eq!(m.get(&"us".to_string()), Some("USA".to_string()));
    assert_eq!(m.get(&"de".to_string()), Some("Germany".to_string()));
    assert_eq!(m.get(&"fr".to_string()), None);
}

// ----------------------------------------------------------------------------
// Reading the archive

fn build_archive(entries: &[(&str, &[u8])], dirs: &[&str]) -> Vec<u8> {
    let mut w = ZipWriter::new(Cursor::new(Vec::new()));
    let opts = SimpleFileOptions::default().compression_method(CompressionMethod::Stored);
    for d in dirs {
        w.add_directory(*d, opts).unwrap();
    }
    for (name, data) in entries {
        w.start_file(*name, opts).unwrap();
        w.write_all(data).unwrap();
    }
    w.finish().unwrap().into_inner()
}

#[test]
fn extract_from_archive() {
    let bytes = build_archive(
        &[
            ("ovpn_tcp/us1.nordvpn.com.tcp.ovpn", b"tcp us1"),
            ("ovpn_udp/us1.nordvpn.com.udp.ovpn", b"udp us1"),
            ("ovpn_tcp/al-onion2.nordvpn.com.tcp.ovpn", b"onion"),
            ("ovpn_tcp/notes.txt", b"notes"),
            ("ovpn_tcp/ch9.nordvpn.com.tcp.ovpn", b"tcp ch9"),
        ],
        &["ovpn_tcp/"],
    );
    let m = countries();
    let mut archive = open_archive(bytes).ok().unwrap();
    let out = extract_configs(&mut archive, false, ConfigType::DefaultTcp, &m);
    assert!(out.error.is_none());
    assert!(out.found_files);
    let names: Vec<&str> = out.files.iter().map(|f| f.name.as_str()).collect();
    assert_eq!(names, vec!["united_states-us1.ovpn", "switzerland-ch9.ovpn"]);
    assert_eq!(out.files[0].contents, b"tcp us1".to_vec());
    assert_eq!(out.files[1].contents, b"tcp ch9".to_vec());
}

#[test]
fn extract_onion_only_and_nothing_found() {
    let bytes = build_archive(
        &[
            ("ovpn_udp/us1.nordvpn.com.udp.ovpn", b"udp us1"),
            ("ovpn_udp/al-onion2.nordvpn.com.udp.ovpn", b"onion"),
        ],
        &[],
    );
    let m = countries();
    let mut archive = open_archive(bytes.clone()).ok().unwrap();
    let out = extract_configs(&mut archive, false, ConfigType::OnionUdp, &m);
    assert!(out.error.is_none());
    assert!(out.found_files);
    assert_eq!(out.files.len(), 1);
    assert_eq!(out.files[0].name, "albania-al_onion2.ovpn");
    let mut archive = open_archive(bytes).ok().unwrap();
    let out = extract_configs(&mut archive, false, ConfigType::OnionTcp, &m);
    assert!(out.error.is_none());
    assert!(!out.found_files);
    assert!(out.files.is_empty());
}

#[test]
fn extract_special_type_absent_counts_as_nothing_found() {
    let bytes = build_archive(&[("ovpn_tcp/us1.nordvpn.com.tcp.ovpn", b"x")], &[]);
    let mut archive = open_archive(bytes).ok().unwrap();
    let out = extract_configs(&mut archive, false, ConfigType::DoubleTcp, &countries());
    assert!(out.error.is_none());
    assert!(!out.found_files);
    assert!(out.files.is_empty());
}

#[test]
fn open_archive_rejects_garbage() {
    assert!(matches!(open_archive(b"not a zip archive".to_vec()), Err(ConfigError::Archive(_))));
}

// ----------------------------------------------------------------------------
// Credentials

struct AskingClient;

impl UiClient for AskingClient {
    fn get_configuration_choice(&self, _c: &dyn ConfigurationChoice) -> Result<usize, UiError> {
        Ok(1)
    }
    fn get_bool_choice(&self, b: BoolChoice) -> Result<bool, UiError> {
        Ok(b.default)
    }
    fn get_input(&self, input: Input) -> Result<String, UiError> {
        Ok(format!("answer to {}", input.prompt))
    }
    fn get_input_numeric_u16(&self, _input: InputNumericu16) -> Result<u16, UiError> {
        Ok(1)
    }
    fn get_password(&self, password: Password) -> Result<String, UiError> {
        Ok(format!("secret for {} ({})", password.prompt, password.confirm))
    }
    fn is_interactive(&self) -> bool {
        true
    }
}

#[test]
fn credentials_from_environment() {
    let r = NordVPN.prompt_for_auth(
        Some("alice".to_string()),
        Some("pw".to_string()),
        false,
        &NonInteractiveUiClient,
    );
    assert_eq!(r.ok(), Some(("alice".to_string(), "pw".to_string())));
}

#[test]
fn credentials_missing_non_interactive() {
    for (u, p) in [
        (None, None),
        (Some("alice".to_string()), None),
        (Some(String::new()), Some("pw".to_string())),
        (Some("alice".to_string()), Some(String::new())),
    ] {
        let r = NordVPN.prompt_for_auth(u, p, NonInteractiveUiClient.is_interactive(), &NonInteractiveUiClient);
        assert!(matches!(r, Err(ConfigError::MissingCredentials)));
    }
}

#[test]
fn credentials_prompted_interactively() {
    let r = NordVPN.prompt_for_auth(None, Some("pw".to_string()), AskingClient.is_interactive(), &AskingClient);
    assert_eq!(
        r.ok(),
        Some((
            "answer to NordVPN username".to_string(),
            "secret for Password (true)".to_string()
        ))
    );
    assert_eq!(choose_config_type(&AskingClient).ok(), Some(ConfigType::Udp));
}

#[test]
fn credential_questions() {
    let q = username_question();
    assert_eq!(q.prompt, "NordVPN username");
    assert!(q.validator.is_none());
    let p = password_question();
    assert_eq!(p.prompt, "Password");
    assert!(p.confirm);
}

#[test]
fn credential_sources() {
    let some = |s: &str| Some(s.to_string());
    assert_eq!(auth_source(&some("a"), &some("b"), false), AuthSource::Environment);
    assert_eq!(auth_source(&some("a"), &some("b"), true), AuthSource::Environment);
    assert_eq!(auth_source(&some(""), &some("b"), true), AuthSource::Prompt);
    assert_eq!(auth_source(&None, &some("b"), false), AuthSource::Unavailable);
    assert_eq!(auth_source(&some("a"), &None, false), AuthSource::Unavailable);
}

#[test]
fn credentials_pair_answers_in_order() {
    let r = credentials_from_answers("user".to_string(), Ok("secret".to_string()));
    assert_eq!(r.ok(), Some(("user".to_string(), "secret".to_string())));
    let r = credentials_from_answers(
        "user".to_string(),
        Err(UiError::Failed { message: "cancelled".to_string() }),
    );
    match r {
        Err(ConfigError::Ui(e)) => assert_eq!(e.message(), "cancelled"),
        _ => panic!("expected a client error"),
    }
}

#[test]
fn credentials_interactive_flag_decides_without_environment() {
    // the flag, not the client, decides: a client that could answer is not asked
    let r = NordVPN.prompt_for_auth(Some("user".to_string()), Some(String::new()), false, &AskingClient);
    assert!(matches!(r, Err(ConfigError::MissingCredentials)));
}

#[test]
fn extract_installs_entry_bytes() {
    let bytes = build_archive(
        &[
            ("ovpn_tcp/us-onion1.nordvpn.com.tcp.ovpn", b"X"),
            ("ovpn_tcp/us1.nordvpn.com.tcp.ovpn", b"Y"),
        ],
        &[],
    );
    let mut archive = open_archive(bytes).ok().unwrap();
    let out = extract_configs(&mut archive, false, ConfigType::DefaultTcp, &countries());
    assert!(out.error.is_none());
    assert!(out.found_files);
    assert_eq!(out.files.len(), 1);
    assert_eq!(out.files[0].name, "united_states-us1.ovpn");
    assert_eq!(out.files[0].contents, b"Y".to_vec());
}

#[test]
fn display_names_distinct_with_kind_prefixes() {
    for (i, u) in ALL.iter().enumerate() {
        let name = u.display_name();
        assert_eq!(name.starts_with("Onion"), u.is_onion());
        assert_eq!(name.starts_with("Double"), u.is_double());
        for (j, v) in ALL.iter().enumerate() {
            if i != j {
                assert_ne!(name, v.display_name());
            }
        }
    }
}

#[test]
fn descriptions_mention_transport_and_kind() {
    for c in ALL {
        let d = c.description().unwrap();
        assert_eq!(d.contains("TCP"), c.get_protocol() == OpenVpnProtocol::TCP);
        assert_eq!(d.contains("UDP"), c.get_protocol() == OpenVpnProtocol::UDP);
        assert_eq!(d.contains("Onion"), c.is_onion());
        assert_eq!(d.contains("two separate VPN servers"), c.is_double());
    }
}

#[test]
fn extract_stops_at_unreadable_entry_keeping_earlier_files() {
    let mut bytes = build_archive(
        &[
            ("ovpn_tcp/us1.nordvpn.com.tcp.ovpn", b"AAAA"),
            ("ovpn_tcp/ch2.nordvpn.com.tcp.ovpn", b"BBBB"),
            ("ovpn_tcp/al3.nordvpn.com.tcp.ovpn", b"CCCC"),
        ],
        &[],
    );
    // damage the stored contents of the second entry, so that its checksum fails
    let at = bytes.windows(4).position(|w| w == b"BBBB").unwrap();
    bytes[at + 3] = b'X';
    let mut archive = open_archive(bytes).ok().unwrap();
    let out = extract_configs(&mut archive, false, ConfigType::DefaultTcp, &countries());
    assert!(matches!(out.error, Some(ConfigError::Io(_))));
    assert_eq!(out.files.len(), 1);
    assert_eq!(out.files[0].name, "united_states-us1.ovpn");
    assert_eq!(out.files[0].contents, b"AAAA".to_vec());
    assert!(out.found_files);
}

#[test]
fn credentials_from_client_asks_client_only_without_environment() {
    let r = NordVPN.credentials_from_client(Some("a".to_string()), Some("b".to_string()), &AskingClient);
    assert_eq!(r.ok(), Some(("a".to_string(), "b".to_string())));
    let r = NordVPN.credentials_from_client(None, None, &AskingClient);
    assert_eq!(
        r.ok(),
        Some(("answer to NordVPN username".to_string(), "secret for Password (true)".to_string()))
    );
    let r = NordVPN.credentials_from_client(None, None, &NonInteractiveUiClient);
    assert!(matches!(r, Err(ConfigError::MissingCredentials)));
}
