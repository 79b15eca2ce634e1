//! NordVPN as an OpenVPN provider: its DNS servers, where its configuration files come from,
//! which files of its archive are installed and under which names, and how its credentials
//! are obtained.

use vstd::prelude::*;

use crate::config_type::{ConfigType, OpenVpnProtocol, CONFIG_TYPE_COUNT};
use crate::country_map::CountryMap;
use crate::server_name::{
    is_lower, lemma_server_name_shape, parse_server_name, server_name_match, ServerNameParts,
};
use crate::text::{
    chars_equal, chars_to_string, contains, ends_with, extend_chars, has_infix, has_prefix,
    has_suffix, lowercase, occurs_at, push_str_chars, replace, replace_char, split, split_char, starts_with,
    str_chars, to_lowercase, trim_end, trim_end_char, is_ascii_text, is_upper,
    ascii_lowercase_of, lemma_ascii_lowercase, lemma_split_ascii, lemma_split_last_suffix,
};
use crate::ui::{ConfigurationChoice, Input, Password, UiClient, UiError};

verus! {

/// The NordVPN provider.
pub struct NordVPN;

/// Why setting up the NordVPN configuration failed.
#[derive(Debug)]
pub enum ConfigError {
    /// The user-interface client could not answer.
    Ui(UiError),
    /// The client chose an option that does not exist.
    InvalidChoice { index: usize },
    /// The configuration archive could not be read.
    Archive(zip::result::ZipError),
    /// A file of the configuration archive could not be read.
    Io(std::io::Error),
    /// No credentials in the environment, and no person to ask for them.
    MissingCredentials,
}

// ---------------------------------------------------------------------------------------
// DNS

impl NordVPN {
    /// NordVPN's DNS servers, as IPv4 octets: 103.86.96.100 and 103.86.99.100.
    pub fn provider_dns(&self) -> (r: Option<Vec<(u8, u8, u8, u8)>>)
        ensures
            r matches Some(v) && v@ == seq![(103u8, 86u8, 96u8, 100u8), (103u8, 86u8, 99u8, 100u8)],
    {
        let mut v: Vec<(u8, u8, u8, u8)> = Vec::new();
        v.push((103, 86, 96, 100));
        v.push((103, 86, 99, 100));
        Some(v)
    }
}

// ---------------------------------------------------------------------------------------
// Where the configuration archive comes from

/// NordVPN's own archive of OpenVPN configuration files.
pub open spec fn default_config_url() -> Seq<char> {
    "https://downloads.nordcdn.com/configs/archives/servers/ovpn.zip"@
}

/// The URL of the configuration archive and whether it comes from a GitHub repository,
/// given the alternative URL configured by the user, if any.
///
/// An empty alternative counts as none. One ending in `.zip` is used as it is, and counts
/// as GitHub's when it mentions `github.com`. A GitHub repository URL
/// (`https://github.com/<user>/<repo>`, trailing slashes ignored) becomes the archive of
/// the repository's `main` branch; a malformed one, and any other URL, is used as it is.
pub open spec fn config_source(alt_url: Option<Seq<char>>) -> (Seq<char>, bool) {
    match alt_url {
        Some(a) => if a.len() == 0 {
            (default_config_url(), false)
        } else if has_suffix(a, ".zip"@) {
            (a, has_infix(a, "github.com"@))
        } else if has_prefix(a, "https://github.com/"@) {
            let parts = split_char(trim_end_char(a, '/'), '/');
            if parts.len() >= 5 {
                (
                    "https://github.com/"@ + parts[3] + "/"@ + parts[4]
                        + "/archive/refs/heads/main.zip"@,
                    true,
                )
            } else {
                (a, false)
            }
        } else {
            (a, false)
        },
        None => (default_config_url(), false),
    }
}

/// A source taken to be a GitHub repository's is always the URL of a `.zip` archive.
pub proof fn lemma_github_source_is_zip(alt_url: Option<Seq<char>>)
    ensures
        config_source(alt_url).1 ==> has_suffix(config_source(alt_url).0, ".zip"@),
{
    if let Some(a) = alt_url {
        if a.len() > 0 && !has_suffix(a, ".zip"@) && has_prefix(a, "https://github.com/"@) {
            let parts = split_char(trim_end_char(a, '/'), '/');
            if parts.len() >= 5 {
                reveal_strlit(".zip");
                reveal_strlit("/archive/refs/heads/main.zip");
                let head = "https://github.com/"@ + parts[3] + "/"@ + parts[4];
                let url = head + "/archive/refs/heads/main.zip"@;
                assert(url.subrange(url.len() - 4, url.len() as int) =~= ".zip"@);
            }
        }
    }
}

/// An alternative URL ending in `.zip` is used as it is, and the archive counts as a GitHub
/// repository's exactly when `github.com` occurs in the URL.
pub proof fn lemma_zip_source(a: Seq<char>)
    requires
        a.len() >= 4,
        a.subrange(a.len() - 4, a.len() as int) == ".zip"@,
    ensures
        config_source(Some(a)).0 == a,
        config_source(Some(a)).1 <==> exists|i: int|
            0 <= i && i + 10 <= a.len() && #[trigger] a.subrange(i, i + 10) == "github.com"@,
{
    reveal_strlit(".zip");
    reveal_strlit("github.com");
    assert(has_suffix(a, ".zip"@));
    if config_source(Some(a)).1 {
        let i = choose|i: int| occurs_at(a, "github.com"@, i);
        assert(0 <= i && i + 10 <= a.len() && a.subrange(i, i + 10) == "github.com"@);
    }
    if exists|i: int| 0 <= i && i + 10 <= a.len() && #[trigger] a.subrange(i, i + 10) == "github.com"@ {
        let i = choose|i: int| 0 <= i && i + 10 <= a.len() && #[trigger] a.subrange(i, i + 10) == "github.com"@;
        assert(occurs_at(a, "github.com"@, i));
    }
}

/// Where to download the configuration archive from.
pub struct ConfigSource {
    pub url: String,
    /// The archive is a GitHub repository's, whose entries sit below one top directory.
    pub is_github_repo: bool,
}

/// Decides where to download the configuration archive from, given the alternative URL
/// configured by the user (`NORDVPN_ALT_CONFIG_URL`), if any.
pub fn resolve_config_source(alt_url: Option<&str>) -> (r: ConfigSource)
    ensures
        (r.url@, r.is_github_repo) == config_source(
            match alt_url {
                Some(a) => Some(a@),
                None => None,
            },
        ),
        forall|a: &str|
            alt_url == Some(a) && a@.len() >= 4 && #[trigger] a@.subrange(a@.len() - 4, a@.len() as int)
                == ".zip"@ ==> r.url@ == a@ && (r.is_github_repo <==> exists|i: int|
                0 <= i && i + 10 <= a@.len() && #[trigger] a@.subrange(i, i + 10) == "github.com"@),
{
    proof {
        if let Some(a) = alt_url {
            if a@.len() >= 4 && a@.subrange(a@.len() - 4, a@.len() as int) == ".zip"@ {
                lemma_zip_source(a@);
            }
        }
    }
    let default_source = ConfigSource {
        url: String::from_str("https://downloads.nordcdn.com/configs/archives/servers/ovpn.zip"),
        is_github_repo: false,
    };
    match alt_url {
        None => default_source,
        Some(a) => {
            let av = str_chars(a);
            if av.len() == 0 {
                return default_source;
            }
            if ends_with(&av, &str_chars(".zip")) {
                let is_github_repo = contains(&av, &str_chars("github.com"));
                return ConfigSource { url: String::from_str(a), is_github_repo };
            }
            if starts_with(&av, &str_chars("https://github.com/")) {
                let trimmed = trim_end(&av, '/');
                let parts = split(&trimmed, '/');
                if parts.len() >= 5 {
                    let mut url: Vec<char> = Vec::new();
                    push_str_chars(&mut url, "https://github.com/");
                    extend_chars(&mut url, &parts[3]);
                    push_str_chars(&mut url, "/");
                    extend_chars(&mut url, &parts[4]);
                    push_str_chars(&mut url, "/archive/refs/heads/main.zip");
                    return ConfigSource { url: chars_to_string(&url), is_github_repo: true };
                }
                return ConfigSource { url: String::from_str(a), is_github_repo: false };
            }
            ConfigSource { url: String::from_str(a), is_github_repo: false }
        },
    }
}

// ---------------------------------------------------------------------------------------
// Choosing the set of configuration files

/// What a client's answer to the configuration question makes of the choice.
pub open spec fn config_for_choice(choice: Result<usize, UiError>) -> Result<ConfigType, ConfigError> {
    match choice {
        Ok(index) => if index < 6 {
            Ok(ConfigType::spec_from_index(index as nat))
        } else {
            Err(ConfigError::InvalidChoice { index })
        },
        Err(e) => Err(ConfigError::Ui(e)),
    }
}

/// The configuration type a client's answer selects: the option at that index, or an error
/// when there is no such option or the client failed.
pub fn config_type_for_choice(choice: Result<usize, UiError>) -> (r: Result<ConfigType, ConfigError>)
    ensures
        r == config_for_choice(choice),
{
    match choice {
        Ok(index) => if index < CONFIG_TYPE_COUNT {
            Ok(ConfigType::index_to_variant(index))
        } else {
            Err(ConfigError::InvalidChoice { index })
        },
        Err(e) => Err(ConfigError::Ui(e)),
    }
}

/// Asks the client which set of configuration files to install, offering the options of
/// `ConfigType` with the default one as the question.
///
/// The result is what the client's answer selects: the option at the index it answered, or
/// an error for an index past the options or a failed answer.
pub fn choose_config_type<U: UiClient + ?Sized>(uiclient: &U) -> (r: Result<ConfigType, ConfigError>)
    ensures
        exists|answer: Result<usize, UiError>|
            #[trigger] call_ensures(U::get_configuration_choice, (uiclient, CONFIG_QUESTION), answer)
                && r == config_for_choice(answer),
        r matches Err(e) ==> (e matches ConfigError::Ui(_) || e matches ConfigError::InvalidChoice { .. }),
{
    let choice = uiclient.get_configuration_choice(CONFIG_QUESTION);
    config_type_for_choice(choice)
}

/// The configuration question put to the client: the default configuration type, whose
/// `ConfigurationChoice` offers all of them.
pub const CONFIG_QUESTION: &'static dyn ConfigurationChoice = &ConfigType::DefaultTcp;

/// The configuration type chosen is the option at the index answered: index `i` of the six
/// gives the `i`-th option of the list (standard TCP, UDP, Onion TCP, Onion UDP, Double TCP,
/// Double UDP), whose position is `i`; any other index is refused, and a failed answer is
/// passed on.
pub proof fn lemma_choice_is_answered_option(i: usize, e: UiError)
    ensures
        i < 6 ==> (config_for_choice(Ok(i)) matches Ok(c) && c.spec_index() == i),
        i >= 6 ==> (config_for_choice(Ok(i)) matches Err(ConfigError::InvalidChoice { index }) && index == i),
        config_for_choice(Err(e)) matches Err(ConfigError::Ui(f)) && f == e,
        config_for_choice(Ok(2)) == Ok::<ConfigType, ConfigError>(ConfigType::OnionTcp),
        config_for_choice(Ok(3)) == Ok::<ConfigType, ConfigError>(ConfigType::OnionUdp),
{
}

/// A non-interactive client, which picks the first option, installs the default set of
/// configuration files.
pub proof fn lemma_first_choice_is_default()
    ensures
        config_for_choice(Ok(0)) == Ok::<ConfigType, ConfigError>(ConfigType::DefaultTcp),
{
}

// ---------------------------------------------------------------------------------------
// Which files of the archive are installed, and under which names

/// The directory of the archive that holds the files of a transport.
pub open spec fn protocol_dir(protocol: OpenVpnProtocol) -> Seq<char> {
    match protocol {
        OpenVpnProtocol::TCP => "ovpn_tcp"@,
        OpenVpnProtocol::UDP => "ovpn_udp"@,
    }
}

/// The directory of the archive that holds the files of a transport.
pub fn protocol_dir_name(protocol: OpenVpnProtocol) -> (r: &'static str)
    ensures
        r@ == protocol_dir(protocol),
{
    match protocol {
        OpenVpnProtocol::TCP => "ovpn_tcp",
        OpenVpnProtocol::UDP => "ovpn_udp",
    }
}

/// An archive entry is a directory when its name ends with `/` or `\`.
pub open spec fn is_dir_name(name: Seq<char>) -> bool {
    name.len() > 0 && (name.last() == '/' || name.last() == '\\')
}

/// Whether a server's special kind suits the chosen configuration type: Onion types take
/// only `onion` servers, Double types only servers with another special kind, and standard
/// types only servers without one.
pub open spec fn special_fits(config: ConfigType, special: Option<Seq<char>>) -> bool {
    if config.spec_is_onion() {
        special == Some("onion"@)
    } else if config.spec_is_double() {
        special is Some && special != Some("onion"@)
    } else {
        special is None
    }
}

/// The file name given to a configuration file, before it is lowercased, given the name of
/// the file in the archive (`simple`) and its lowercased server name (`server`); `None`
/// when the server does not suit the configuration type.
///
/// A server name that matches the server-name grammar gives
/// `<country>-<server with '-' as '_'>.ovpn`, where the country is the name of its code in
/// `countries`, or the code itself; any other keeps the archive's file name.
pub open spec fn server_output_name(
    simple: Seq<char>,
    server: Seq<char>,
    config: ConfigType,
    countries: Map<Seq<char>, Seq<char>>,
) -> Option<Seq<char>> {
    match server_name_match(server) {
        Some(m) => if !special_fits(config, m.special) {
            None
        } else {
            let country = if countries.dom().contains(m.code) {
                countries[m.code]
            } else {
                m.code
            };
            Some(country + "-"@ + replace_char(server, '-', '_') + ".ovpn"@)
        },
        None => Some(simple),
    }
}

/// What is done with one entry of the configuration archive.
pub enum EntryAction {
    /// The entry is not a configuration file of the chosen transport.
    Ignore,
    /// The entry is such a file, but it is not installed.
    Skip,
    /// The entry is installed under this file name.
    Write(String),
}

/// What is done with an archive entry, as text.
pub enum EntryActionSpec {
    Ignore,
    Skip,
    Write(Seq<char>),
}

impl View for EntryAction {
    type V = EntryActionSpec;

    open spec fn view(&self) -> EntryActionSpec {
        match self {
            EntryAction::Ignore => EntryActionSpec::Ignore,
            EntryAction::Skip => EntryActionSpec::Skip,
            EntryAction::Write(s) => EntryActionSpec::Write(s@),
        }
    }
}

/// The pieces of an entry's path that are matched: all of them, but for the repository's
/// top directory in an archive of a GitHub repository.
pub open spec fn relevant_parts(name: Seq<char>, is_github_repo: bool) -> Seq<Seq<char>> {
    let parts = split_char(name, '/');
    if is_github_repo && parts.len() > 1 {
        parts.skip(1)
    } else {
        parts
    }
}

/// What is done with the archive entry `name`.
///
/// Directories are ignored, and so is every entry outside the transport's directory (the
/// first piece of its relevant path) or not ending in `.ovpn`. The remaining entries are
/// configuration files: one whose file name (the last piece) is empty, or whose server does
/// not suit the configuration type, is skipped; any other is written under its output
/// name, lowercased, with spaces as `_`. The server name is the lowercased part of the file
/// name before its first `.`.
pub open spec fn entry_action(
    name: Seq<char>,
    is_github_repo: bool,
    config: ConfigType,
    countries: Map<Seq<char>, Seq<char>>,
) -> EntryActionSpec {
    let rel = relevant_parts(name, is_github_repo);
    if is_dir_name(name) {
        EntryActionSpec::Ignore
    } else if rel.len() == 0 || rel[0] != protocol_dir(config.spec_protocol()) {
        EntryActionSpec::Ignore
    } else if !has_suffix(name, ".ovpn"@) {
        EntryActionSpec::Ignore
    } else if rel.last().len() == 0 {
        EntryActionSpec::Skip
    } else {
        let simple = rel.last();
        let server = lowercase(split_char(simple, '.')[0]);
        match server_output_name(simple, server, config, countries) {
            Some(out) => EntryActionSpec::Write(replace_char(lowercase(out), ' ', '_')),
            None => EntryActionSpec::Skip,
        }
    }
}

/// Only configuration files are installed: a written entry is not a directory, ends with
/// `.ovpn`, lies in the chosen transport's directory, and belongs to a server of the chosen
/// kind where its name matches the server-name grammar; and the name it is installed under
/// has no spaces.
pub proof fn lemma_written_entry(
    name: Seq<char>,
    is_github_repo: bool,
    config: ConfigType,
    countries: Map<Seq<char>, Seq<char>>,
)
    ensures
        entry_action(name, is_github_repo, config, countries) matches EntryActionSpec::Write(n) ==> {
            let rel = relevant_parts(name, is_github_repo);
            let server = lowercase(split_char(rel.last(), '.')[0]);
            &&& !is_dir_name(name)
            &&& has_suffix(name, ".ovpn"@)
            &&& rel[0] == protocol_dir(config.spec_protocol())
            &&& (server_name_match(server) matches Some(m) ==> special_fits(config, m.special))
            &&& forall|k: int| 0 <= k < n.len() ==> n[k] != ' '
        },
{
}

/// What kind of server is installed for each configuration type: where a written entry's
/// server name matches the grammar, a standard type (neither Onion nor Double) takes only
/// servers without a special kind, an Onion type only `onion` servers, and a Double type
/// only servers with another special kind.
pub proof fn lemma_written_server_kind(
    name: Seq<char>,
    is_github_repo: bool,
    config: ConfigType,
    countries: Map<Seq<char>, Seq<char>>,
)
    ensures
        entry_action(name, is_github_repo, config, countries) is Write ==> ({
            let server = lowercase(split_char(relevant_parts(name, is_github_repo).last(), '.')[0]);
            server_name_match(server) matches Some(sp) ==> {
                &&& (!config.spec_is_onion() && !config.spec_is_double()) ==> sp.special is None
                &&& config.spec_is_onion() ==> sp.special == Some("onion"@)
                &&& config.spec_is_double() ==> (sp.special is Some && sp.special != Some("onion"@))
            }
        }),
{
}

/// Whether the special kind of a server suits the configuration type.
fn special_fits_exec(config: ConfigType, special: &Option<Vec<char>>) -> (r: bool)
    ensures
        r == special_fits(
            config,
            match special {
                Some(v) => Some(v@),
                None => None,
            },
        ),
{
    let onion = str_chars("onion");
    if config.is_onion() {
        match special {
            Some(v) => chars_equal(v, &onion),
            None => false,
        }
    } else if config.is_double() {
        match special {
            Some(v) => !chars_equal(v, &onion),
            None => false,
        }
    } else {
        special.is_none()
    }
}

/// The file name given to a configuration file, before it is lowercased, given the name of
/// the file in the archive and its lowercased server name; `None` when the server does not
/// suit the configuration type.
pub fn output_name_for_server(
    simple: &Vec<char>,
    server: &Vec<char>,
    config: ConfigType,
    countries: &CountryMap,
) -> (r: Option<Vec<char>>)
    ensures
        match r {
            Some(v) => server_output_name(simple@, server@, config, countries@) == Some(v@),
            None => server_output_name(simple@, server@, config, countries@) is None,
        },
{
    match parse_server_name(server) {
        None => Some(simple.clone()),
        Some(m) => {
            let ServerNameParts { code, special } = m;
            if !special_fits_exec(config, &special) {
                return None;
            }
            let code_text = chars_to_string(&code);
            let country = match countries.get(&code_text) {
                Some(name) => str_chars(name.as_str()),
                None => code,
            };
            let mut out = country;
            push_str_chars(&mut out, "-");
            extend_chars(&mut out, &replace(server, '-', '_'));
            push_str_chars(&mut out, ".ovpn");
            Some(out)
        },
    }
}

/// Every country name of the map is ASCII text.
pub open spec fn countries_ascii(countries: Map<Seq<char>, Seq<char>>) -> bool {
    forall|k: Seq<char>| countries.dom().contains(k) ==> is_ascii_text(#[trigger] countries[k])
}

/// For ASCII text, the output name of a configuration file is ASCII and, like the archive's
/// file name, ends with `.ovpn`.
proof fn lemma_output_ascii(
    simple: Seq<char>,
    server: Seq<char>,
    config: ConfigType,
    countries: Map<Seq<char>, Seq<char>>,
)
    requires
        is_ascii_text(simple),
        is_ascii_text(server),
        countries_ascii(countries),
        has_suffix(simple, ".ovpn"@),
    ensures
        server_output_name(simple, server, config, countries) matches Some(out) ==> is_ascii_text(
            out,
        ) && has_suffix(out, ".ovpn"@),
{
    reveal_strlit("-");
    reveal_strlit(".ovpn");
    if let Some(m) = server_name_match(server) {
        if special_fits(config, m.special) {
            lemma_server_name_shape(server);
            let country = if countries.dom().contains(m.code) {
                countries[m.code]
            } else {
                m.code
            };
            assert(is_ascii_text(country)) by {
                if !countries.dom().contains(m.code) {
                    assert forall|i: int| 0 <= i < m.code.len() implies (#[trigger] m.code[i] as u32) < 128 by {
                        assert(is_lower(m.code[i]));
                    }
                }
            }
            let id = replace_char(server, '-', '_');
            assert(is_ascii_text(id)) by {
                assert forall|i: int| 0 <= i < id.len() implies (#[trigger] id[i] as u32) < 128 by {
                    assert((server[i] as u32) < 128);
                }
            }
            let out = country + "-"@ + id + ".ovpn"@;
            assert(is_ascii_text(out)) by {
                assert forall|i: int| 0 <= i < out.len() implies (#[trigger] out[i] as u32) < 128 by {
                    if i < country.len() {
                        assert(out[i] == country[i]);
                    } else if i < country.len() + 1 {
                    } else if i < country.len() + 1 + id.len() {
                        assert(out[i] == id[i - country.len() - 1]);
                    } else {
                        assert(out[i] == ".ovpn"@[i - country.len() - 1 - id.len()]);
                    }
                }
            }
            assert(out.subrange(out.len() - 5, out.len() as int) =~= ".ovpn"@);
        }
    }
}

/// Lowercasing an ASCII name that ends with `.ovpn`, and writing its spaces as `_`, leaves a
/// name with no uppercase letter that still ends with `.ovpn`.
proof fn lemma_final_name(out: Seq<char>, lowered: Seq<char>)
    requires
        is_ascii_text(out),
        has_suffix(out, ".ovpn"@),
        ascii_lowercase_of(out, lowered),
    ensures
        has_suffix(replace_char(lowered, ' ', '_'), ".ovpn"@),
        forall|i: int|
            0 <= i < replace_char(lowered, ' ', '_').len() ==> !is_upper(
                #[trigger] replace_char(lowered, ' ', '_')[i],
            ),
{
    reveal_strlit(".ovpn");
    lemma_ascii_lowercase(out, lowered);
    let n = replace_char(lowered, ' ', '_');
    assert forall|j: int| 0 <= j < 5 implies n.subrange(n.len() - 5, n.len() as int)[j] == ".ovpn"@[j] by {
        let k = out.len() - 5 + j;
        assert(out.subrange(out.len() - 5, out.len() as int)[j] == out[k]);
        assert(!is_upper(out[k]));
        assert(lowered[k] == out[k]);
    }
    assert(n.subrange(n.len() - 5, n.len() as int) =~= ".ovpn"@);
}

/// Decides what is done with the archive entry `name` for the chosen configuration type.
///
/// Where the entry name and the country names are ASCII, a file is installed under a name
/// with no uppercase letter that ends with `.ovpn`.
pub fn plan_entry(name: &str, is_github_repo: bool, config: ConfigType, countries: &CountryMap) -> (r:
    EntryAction)
    ensures
        r@ == entry_action(name@, is_github_repo, config, countries@),
        is_ascii_text(name@) && countries_ascii(countries@) ==> (r@ matches EntryActionSpec::Write(n)
            ==> has_suffix(n, ".ovpn"@) && forall|i: int| 0 <= i < n.len() ==> !is_upper(#[trigger] n[i])),
{
    let nv = str_chars(name);
    if nv.len() > 0 && (nv[nv.len() - 1] == '/' || nv[nv.len() - 1] == '\\') {
        return EntryAction::Ignore;
    }
    let parts = split(&nv, '/');
    proof {
        crate::text::lemma_split_char_len(nv@, '/');
    }
    let start: usize = if is_github_repo && parts.len() > 1 {
        1
    } else {
        0
    };
    let ghost rel = relevant_parts(name@, is_github_repo);
    assert(rel.len() == parts@.len() - start);
    assert(rel[0] == parts@[start as int]@);
    let dir = str_chars(protocol_dir_name(config.get_protocol()));
    if !chars_equal(&parts[start], &dir) {
        return EntryAction::Ignore;
    }
    if !ends_with(&nv, &str_chars(".ovpn")) {
        return EntryAction::Ignore;
    }
    let simple = &parts[parts.len() - 1];
    assert(rel.last() == simple@);
    if simple.len() == 0 {
        return EntryAction::Skip;
    }
    let pieces = split(simple, '.');
    proof {
        crate::text::lemma_split_char_len(simple@, '.');
    }
    let server = str_chars(to_lowercase(chars_to_string(&pieces[0]).as_str()).as_str());
    let ghost ascii = is_ascii_text(name@) && countries_ascii(countries@);
    proof {
        if ascii {
            reveal_strlit(".ovpn");
            lemma_split_ascii(nv@, '/');
            lemma_split_ascii(simple@, '.');
            assert(is_ascii_text(parts@[parts@.len() - 1]@));
            assert(is_ascii_text(pieces@[0]@));
            lemma_ascii_lowercase(pieces@[0]@, server@);
            lemma_split_last_suffix(nv@, '/', ".ovpn"@);
            lemma_output_ascii(simple@, server@, config, countries@);
        }
    }
    match output_name_for_server(simple, &server, config, countries) {
        None => EntryAction::Skip,
        Some(out) => {
            let lowered = str_chars(to_lowercase(chars_to_string(&out).as_str()).as_str());
            proof {
                if ascii {
                    lemma_final_name(out@, lowered@);
                }
            }
            EntryAction::Write(chars_to_string(&replace(&lowered, ' ', '_')))
        },
    }
}

// ---------------------------------------------------------------------------------------
// Credentials

/// Credentials from the environment, when both are present and not empty.
pub open spec fn env_credentials(username: Option<Seq<char>>, password: Option<Seq<char>>) -> Option<(Seq<char>, Seq<char>)> {
    match (username, password) {
        (Some(u), Some(p)) => if u.len() > 0 && p.len() > 0 {
            Some((u, p))
        } else {
            None
        },
        _ => None,
    }
}

/// The text of an optional string.
pub open spec fn opt_view(s: Option<String>) -> Option<Seq<char>> {
    match s {
        Some(v) => Some(v@),
        None => None,
    }
}

/// The question for the NordVPN user name.
pub fn username_question() -> (r: Input)
    ensures
        r.prompt@ == "NordVPN username"@,
        r.validator is None,
{
    Input { prompt: String::from_str("NordVPN username"), validator: None }
}

/// The question for the NordVPN password, asked twice.
pub fn password_question() -> (r: Password)
    ensures
        r.prompt@ == "Password"@,
        r.confirm,
{
    Password { prompt: String::from_str("Password"), confirm: true }
}

/// Where credentials come from.
#[derive(PartialEq, Eq, Structural, Clone, Copy, Debug)]
pub enum AuthSource {
    /// Both are in the environment.
    Environment,
    /// A person is asked for them.
    Prompt,
    /// Neither: there is no way to obtain them.
    Unavailable,
}

/// Where credentials come from, given those in the environment and whether the client can
/// ask a person.
pub open spec fn auth_source_spec(username: Option<Seq<char>>, password: Option<Seq<char>>, interactive: bool) -> AuthSource {
    if env_credentials(username, password) is Some {
        AuthSource::Environment
    } else if interactive {
        AuthSource::Prompt
    } else {
        AuthSource::Unavailable
    }
}

/// Decides where credentials come from: the environment when both values are there and not
/// empty, else a person when the client is interactive, else nowhere.
pub fn auth_source(env_username: &Option<String>, env_password: &Option<String>, interactive: bool) -> (r: AuthSource)
    ensures
        r == auth_source_spec(opt_view(*env_username), opt_view(*env_password), interactive),
{
    match (env_username, env_password) {
        (Some(username), Some(password)) => {
            if !username.as_str().is_empty() && !password.as_str().is_empty() {
                return AuthSource::Environment;
            }
        },
        _ => {},
    }
    if interactive {
        AuthSource::Prompt
    } else {
        AuthSource::Unavailable
    }
}

impl NordVPN {
    /// The user name and password to connect with, given the values of `NORDVPN_USERNAME`
    /// and `NORDVPN_PASSWORD` in the environment and whether the client can ask a person
    /// (`interactive`, as its `is_interactive` answers).
    ///
    /// Both present and not empty: they are used. Otherwise an interactive client is asked
    /// for them (first the user name, then the password), and a non-interactive one fails.
    pub fn prompt_for_auth<U: UiClient + ?Sized>(
        &self,
        env_username: Option<String>,
        env_password: Option<String>,
        interactive: bool,
        uiclient: &U,
    ) -> (r: Result<(String, String), ConfigError>)
        ensures
            env_credentials(opt_view(env_username), opt_view(env_password)) matches Some((u, p))
                ==> r matches Ok((ru, rp)) && ru@ == u && rp@ == p,
            env_credentials(opt_view(env_username), opt_view(env_password)) is None && !interactive
                ==> r matches Err(ConfigError::MissingCredentials),
            env_credentials(opt_view(env_username), opt_view(env_password)) is None && interactive
                ==> (r is Ok || r matches Err(ConfigError::Ui(_))),
            r matches Err(e) ==> (e matches ConfigError::Ui(_) || e matches ConfigError::MissingCredentials),
    {
        match auth_source(&env_username, &env_password, interactive) {
            AuthSource::Environment => Ok((env_username.unwrap(), env_password.unwrap())),
            AuthSource::Prompt => {
                let username = match uiclient.get_input(username_question()) {
                    Ok(u) => u,
                    Err(e) => return Err(ConfigError::Ui(e)),
                };
                credentials_from_answers(username, uiclient.get_password(password_question()))
            },
            AuthSource::Unavailable => Err(ConfigError::MissingCredentials),
        }
    }
}

impl NordVPN {
    /// The user name and password to connect with, given the values of `NORDVPN_USERNAME`
    /// and `NORDVPN_PASSWORD` in the environment: as `prompt_for_auth` decides it, with the
    /// client asked whether it is interactive only when the environment does not hold both.
    ///
    /// It fails for want of credentials only when they are not in the environment and the
    /// client answered that it is not interactive.
    pub fn credentials_from_client<U: UiClient + ?Sized>(
        &self,
        env_username: Option<String>,
        env_password: Option<String>,
        uiclient: &U,
    ) -> (r: Result<(String, String), ConfigError>)
        ensures
            env_credentials(opt_view(env_username), opt_view(env_password)) matches Some((u, p))
                ==> r matches Ok((ru, rp)) && ru@ == u && rp@ == p,
            r matches Err(ConfigError::MissingCredentials) ==> env_credentials(
                opt_view(env_username),
                opt_view(env_password),
            ) is None && call_ensures(U::is_interactive, (uiclient,), false),
            env_credentials(opt_view(env_username), opt_view(env_password)) is None
                && (forall|b: bool| call_ensures(U::is_interactive, (uiclient,), b) ==> !b)
                ==> r matches Err(ConfigError::MissingCredentials),
            env_credentials(opt_view(env_username), opt_view(env_password)) is None
                && (forall|b: bool| call_ensures(U::is_interactive, (uiclient,), b) ==> b)
                ==> (r is Ok || r matches Err(ConfigError::Ui(_))),
            r matches Err(e) ==> (e matches ConfigError::Ui(_) || e matches ConfigError::MissingCredentials),
    {
        let interactive = match auth_source(&env_username, &env_password, false) {
            AuthSource::Environment => false,
            _ => uiclient.is_interactive(),
        };
        self.prompt_for_auth(env_username, env_password, interactive, uiclient)
    }
}

/// The credentials made of a person's answers: the user name, and the answer to the password
/// question, which may have failed.
pub fn credentials_from_answers(username: String, password: Result<String, UiError>) -> (r: Result<
    (String, String),
    ConfigError,
>)
    ensures
        match password {
            Ok(p) => r == Ok::<(String, String), ConfigError>((username, p)),
            Err(e) => r == Err::<(String, String), ConfigError>(ConfigError::Ui(e)),
        },
{
    match password {
        Ok(p) => Ok((username, p)),
        Err(e) => Err(ConfigError::Ui(e)),
    }
}

/// A non-interactive client obtains credentials only from the environment: without both of
/// them there, there is no way to obtain them.
pub proof fn lemma_non_interactive_needs_environment(username: Option<Seq<char>>, password: Option<Seq<char>>)
    ensures
        env_credentials(username, password) is None ==> auth_source_spec(username, password, false)
            == AuthSource::Unavailable,
        env_credentials(username, password) is Some ==> auth_source_spec(username, password, false)
            == AuthSource::Environment,
{
}

} // verus!
