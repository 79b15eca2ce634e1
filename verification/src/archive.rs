//! Reading NordVPN's configuration archive: which of its files are installed, under which
//! names, and with which contents.

use vstd::prelude::*;

use std::io::{Cursor, Read};
use zip::result::ZipError;
use zip::ZipArchive;

use crate::config_type::ConfigType;
use crate::country_map::CountryMap;
use crate::nordvpn::{entry_action, plan_entry, ConfigError, EntryAction, EntryActionSpec};

verus! {

/// `zip::ZipArchive`, read from memory here.
#[verifier::external_type_specification]
#[verifier::external_body]
#[verifier::reject_recursive_types(R)]
pub struct ExZipArchive<R>(ZipArchive<R>);

/// `std::io::Cursor`, which the archive reads its bytes through.
#[verifier::external_type_specification]
#[verifier::external_body]
#[verifier::reject_recursive_types(T)]
pub struct ExCursor<T>(Cursor<T>);

/// `zip::result::ZipError`.
#[verifier::external_type_specification]
#[verifier::external_body]
pub struct ExZipError(ZipError);

/// `std::io::Error`.
#[verifier::external_type_specification]
#[verifier::external_body]
pub struct ExIoError(std::io::Error);

/// The names of an archive's entries, in the order in which each name first appears in
/// its central directory (entries with a repeated name are merged into one, which holds the
/// last such entry).
pub uninterp spec fn archive_names(archive: ZipArchive<Cursor<Vec<u8>>>) -> Seq<Seq<char>>;

/// What reading each entry of an archive gives, one per name of `archive_names`: `None`
/// when the entry cannot be opened, `Some(None)` when it opens but cannot be read to its
/// end, and `Some(Some(bytes))` for the bytes it holds once decompressed.
pub uninterp spec fn archive_entries(archive: ZipArchive<Cursor<Vec<u8>>>) -> Seq<Option<Option<Seq<u8>>>>;

/// What `ZipArchive::new` makes of an archive's bytes: `None` when it refuses them, else
/// what the archive it gives holds, as `archive_names` and `archive_entries` state it.
pub uninterp spec fn zip_archive_contents(bytes: Seq<u8>) -> Option<(Seq<Seq<char>>, Seq<Option<Option<Seq<u8>>>>)>;

/// Calls `ZipArchive::new` on the bytes (through a `Cursor`). The contract claims that
/// whether it succeeds, and what the archive it gives holds, depend on the bytes alone (the
/// default configuration is used, and the reader is an in-memory cursor). Which error it
/// gives, and which bytes it accepts, is left unsaid.
#[verifier::external_body]
fn zip_open(bytes: Vec<u8>) -> (r: Result<ZipArchive<Cursor<Vec<u8>>>, ZipError>)
    ensures
        (r is Ok) == (zip_archive_contents(bytes@) is Some),
        r matches Ok(a) ==> zip_archive_contents(bytes@) == Some((archive_names(a), archive_entries(a))),
{
    ZipArchive::new(Cursor::new(bytes))
}

/// Calls `ZipArchive::len`: the number of entries, which is the number of names.
#[verifier::external_body]
fn zip_len(archive: &ZipArchive<Cursor<Vec<u8>>>) -> (n: usize)
    ensures
        n == archive_names(*archive).len(),
        n == archive_entries(*archive).len(),
{
    archive.len()
}

/// Calls `ZipArchive::name_for_index`: the name of entry `i`, or `None` past the last entry.
#[verifier::external_body]
fn zip_name_for_index(archive: &ZipArchive<Cursor<Vec<u8>>>, i: usize) -> (r: Option<String>)
    ensures
        r is Some <==> i < archive_names(*archive).len(),
        r matches Some(name) ==> name@ == archive_names(*archive)[i as int],
{
    match archive.name_for_index(i) {
        Some(name) => Some(name.to_string()),
        None => None,
    }
}

/// Calls `ZipArchive::by_index` and drops the entry it opened: `Ok` exactly when entry `i`
/// exists and can be opened. Opening an entry only moves the archive's reader, so what the
/// archive holds is unchanged. Which error it gives is left unsaid.
#[verifier::external_body]
fn zip_open_entry(archive: &mut ZipArchive<Cursor<Vec<u8>>>, i: usize) -> (r: Result<(), ZipError>)
    ensures
        archive_names(*final(archive)) == archive_names(*old(archive)),
        archive_entries(*final(archive)) == archive_entries(*old(archive)),
        (r is Ok) == (i < archive_entries(*old(archive)).len()
            && archive_entries(*old(archive))[i as int] is Some),
{
    match archive.by_index(i) {
        Ok(_) => Ok(()),
        Err(e) => Err(e),
    }
}

/// Why an entry could not be read.
#[derive(Debug)]
pub enum EntryReadError {
    /// The entry could not be opened.
    Open(ZipError),
    /// The opened entry could not be read to its end.
    Read(std::io::Error),
}

/// Calls `ZipArchive::by_index` and then `Read::read_to_end` on the entry it opened, into a
/// new buffer: the bytes of entry `i`. The entry borrows the archive and cannot be handed
/// to verified code, so the two calls stand together. The contract claims that the result
/// is what `archive_entries` holds for the entry, and that reading leaves what the archive
/// holds unchanged (only its reader moves). Which error is given is left unsaid.
#[verifier::external_body]
fn zip_read_entry(archive: &mut ZipArchive<Cursor<Vec<u8>>>, i: usize) -> (r: Result<Vec<u8>, EntryReadError>)
    ensures
        archive_names(*final(archive)) == archive_names(*old(archive)),
        archive_entries(*final(archive)) == archive_entries(*old(archive)),
        r matches Ok(b) ==> i < archive_entries(*old(archive)).len()
            && archive_entries(*old(archive))[i as int] == Some(Some(b@)),
        r matches Err(EntryReadError::Open(_)) ==> i >= archive_entries(*old(archive)).len()
            || archive_entries(*old(archive))[i as int] is None,
        r matches Err(EntryReadError::Read(_)) ==> i < archive_entries(*old(archive)).len()
            && archive_entries(*old(archive))[i as int] == Some(None::<Seq<u8>>),
{
    let mut file = match archive.by_index(i) {
        Ok(f) => f,
        Err(e) => return Err(EntryReadError::Open(e)),
    };
    let mut buf: Vec<u8> = Vec::new();
    match file.read_to_end(&mut buf) {
        Ok(_) => Ok(buf),
        Err(e) => Err(EntryReadError::Read(e)),
    }
}

/// Opens the configuration archive held in `bytes`: it succeeds exactly when the bytes
/// form an archive, and then holds the entries that the bytes give.
pub fn open_archive(bytes: Vec<u8>) -> (r: Result<ZipArchive<Cursor<Vec<u8>>>, ConfigError>)
    ensures
        (r is Ok) == (zip_archive_contents(bytes@) is Some),
        r matches Ok(a) ==> zip_archive_contents(bytes@) == Some((archive_names(a), archive_entries(a))),
        r is Err ==> r matches Err(ConfigError::Archive(_)),
{
    match zip_open(bytes) {
        Ok(a) => Ok(a),
        Err(e) => Err(ConfigError::Archive(e)),
    }
}

/// A configuration file to install.
pub struct ConfigFile {
    pub name: String,
    pub contents: Vec<u8>,
}

/// What reading the archive gave: the files to install, in archive order, whether there is
/// any (when there is none, the archive held no configuration file of the chosen type), and
/// the error that ended the reading early, if one did (the files are then those read before
/// it).
pub struct ExtractedConfigs {
    pub files: Vec<ConfigFile>,
    pub found_files: bool,
    pub error: Option<ConfigError>,
}

/// The bytes read from an entry, or nothing where it cannot be read.
pub open spec fn entry_bytes(entry: Option<Option<Seq<u8>>>) -> Seq<u8> {
    match entry {
        Some(Some(b)) => b,
        _ => Seq::empty(),
    }
}

/// The files installed, as name and contents, for the archive entries `names` (and what
/// reading them gives, `entries`), in order.
pub open spec fn written_files(
    names: Seq<Seq<char>>,
    entries: Seq<Option<Option<Seq<u8>>>>,
    is_github_repo: bool,
    config: ConfigType,
    countries: Map<Seq<char>, Seq<char>>,
) -> Seq<(Seq<char>, Seq<u8>)>
    decreases names.len(),
{
    if names.len() == 0 {
        Seq::empty()
    } else {
        let k = names.len() - 1;
        let rest = written_files(names.drop_last(), entries, is_github_repo, config, countries);
        match entry_action(names[k], is_github_repo, config, countries) {
            EntryActionSpec::Write(n) => rest.push((n, entry_bytes(entries[k]))),
            _ => rest,
        }
    }
}

/// Whether some entry of `names` is installed.
pub open spec fn any_written(
    names: Seq<Seq<char>>,
    is_github_repo: bool,
    config: ConfigType,
    countries: Map<Seq<char>, Seq<char>>,
) -> bool {
    exists|i: int|
        0 <= i < names.len() && entry_action(names[i], is_github_repo, config, countries) is Write
}

/// Whether an entry can be handled: an ignored entry must open, and a configuration file
/// must be read to its end.
pub open spec fn entry_handled(action: EntryActionSpec, entry: Option<Option<Seq<u8>>>) -> bool {
    if action is Ignore {
        entry is Some
    } else {
        entry matches Some(Some(_))
    }
}

/// Whether every entry of the archive can be handled.
pub open spec fn all_handled(
    names: Seq<Seq<char>>,
    entries: Seq<Option<Option<Seq<u8>>>>,
    is_github_repo: bool,
    config: ConfigType,
    countries: Map<Seq<char>, Seq<char>>,
) -> bool {
    forall|i: int|
        0 <= i < names.len() ==> #[trigger] entry_handled(
            entry_action(names[i], is_github_repo, config, countries),
            entries[i],
        )
}

proof fn lemma_not_all_handled(
    names: Seq<Seq<char>>,
    entries: Seq<Option<Option<Seq<u8>>>>,
    is_github_repo: bool,
    config: ConfigType,
    countries: Map<Seq<char>, Seq<char>>,
    i: int,
)
    requires
        0 <= i < names.len(),
        !entry_handled(entry_action(names[i], is_github_repo, config, countries), entries[i]),
    ensures
        !all_handled(names, entries, is_github_repo, config, countries),
{
}

/// The position of the first entry, from `i` on, that cannot be handled, or the number of
/// entries when there is none.
pub open spec fn first_unhandled(
    names: Seq<Seq<char>>,
    entries: Seq<Option<Option<Seq<u8>>>>,
    is_github_repo: bool,
    config: ConfigType,
    countries: Map<Seq<char>, Seq<char>>,
    i: int,
) -> int
    decreases names.len() - i,
{
    if i >= names.len() {
        names.len() as int
    } else if !entry_handled(entry_action(names[i], is_github_repo, config, countries), entries[i]) {
        i
    } else {
        first_unhandled(names, entries, is_github_repo, config, countries, i + 1)
    }
}

/// Where reading `archive` stops: at its first entry that cannot be handled, or after its
/// last entry.
pub open spec fn reading_stop(
    archive: ZipArchive<Cursor<Vec<u8>>>,
    is_github_repo: bool,
    config: ConfigType,
    countries: Map<Seq<char>, Seq<char>>,
) -> int {
    first_unhandled(
        archive_names(archive),
        archive_entries(archive),
        is_github_repo,
        config,
        countries,
        0,
    )
}

proof fn lemma_first_unhandled_skip(
    names: Seq<Seq<char>>,
    entries: Seq<Option<Option<Seq<u8>>>>,
    is_github_repo: bool,
    config: ConfigType,
    countries: Map<Seq<char>, Seq<char>>,
    i: int,
)
    requires
        0 <= i <= names.len(),
        forall|j: int|
            0 <= j < i ==> #[trigger] entry_handled(
                entry_action(names[j], is_github_repo, config, countries),
                entries[j],
            ),
    ensures
        first_unhandled(names, entries, is_github_repo, config, countries, 0) == first_unhandled(
            names,
            entries,
            is_github_repo,
            config,
            countries,
            i,
        ),
    decreases i,
{
    if i > 0 {
        lemma_first_unhandled_skip(names, entries, is_github_repo, config, countries, i - 1);
        assert(entry_handled(
            entry_action(names[i - 1], is_github_repo, config, countries),
            entries[i - 1],
        ));
    }
}

/// The files to install, as name and contents.
pub open spec fn files_view(files: Seq<ConfigFile>) -> Seq<(Seq<char>, Seq<u8>)> {
    files.map_values(|f: ConfigFile| (f.name@, f.contents@))
}

/// Reads the configuration files of the chosen type out of `archive`, and decides the name
/// each is installed under.
///
/// Every entry is opened in turn, and every configuration file of the chosen transport is
/// read, until an entry cannot be: the reading then stops with an archive error when the
/// entry cannot be opened, and an I/O error when it cannot be read to its end. The files
/// installed are the entries before that point planned to be written, in archive order,
/// with the bytes they hold; the archive counts as having had configuration files exactly
/// when one is installed.
pub fn extract_configs(
    archive: &mut ZipArchive<Cursor<Vec<u8>>>,
    is_github_repo: bool,
    config: ConfigType,
    countries: &CountryMap,
) -> (r: ExtractedConfigs)
    ensures
        files_view(r.files@) == written_files(
            archive_names(*old(archive)).take(reading_stop(*old(archive), is_github_repo, config, countries@)),
            archive_entries(*old(archive)),
            is_github_repo,
            config,
            countries@,
        ),
        r.found_files == any_written(
            archive_names(*old(archive)).take(reading_stop(*old(archive), is_github_repo, config, countries@)),
            is_github_repo,
            config,
            countries@,
        ),
        (r.error is None) == (reading_stop(*old(archive), is_github_repo, config, countries@)
            == archive_names(*old(archive)).len()),
        (r.error is None) == all_handled(
            archive_names(*old(archive)),
            archive_entries(*old(archive)),
            is_github_repo,
            config,
            countries@,
        ),
        r.error matches Some(e) ==> (archive_entries(*old(archive))[reading_stop(*old(archive), is_github_repo, config, countries@)] is None
            ==> e matches ConfigError::Archive(_)),
        r.error matches Some(e) ==> (archive_entries(*old(archive))[reading_stop(*old(archive), is_github_repo, config, countries@)] is Some
            ==> e matches ConfigError::Io(_)),
{
    let ghost names = archive_names(*archive);
    let ghost entries = archive_entries(*archive);
    let n = zip_len(archive);
    let mut entry_names: Vec<String> = Vec::new();
    let mut i: usize = 0;
    while i < n
        invariant
            n == names.len(),
            i <= n,
            names == archive_names(*archive),
            entry_names@.len() == i,
            forall|j: int| 0 <= j < i ==> #[trigger] entry_names@[j]@ == names[j],
        decreases n - i,
    {
        let name = zip_name_for_index(archive, i).unwrap();
        entry_names.push(name);
        i = i + 1;
    }
    let mut files: Vec<ConfigFile> = Vec::new();
    let mut found_files = false;
    let mut i: usize = 0;
    while i < n
        invariant
            n == names.len(),
            n == entries.len(),
            i <= n,
            names == archive_names(*old(archive)),
            entries == archive_entries(*old(archive)),
            names == archive_names(*archive),
            entries == archive_entries(*archive),
            entry_names@.len() == n,
            forall|j: int| 0 <= j < n ==> #[trigger] entry_names@[j]@ == names[j],
            forall|j: int|
                0 <= j < i ==> #[trigger] entry_handled(
                    entry_action(names[j], is_github_repo, config, countries@),
                    entries[j],
                ),
            files_view(files@) == written_files(
                names.take(i as int),
                entries,
                is_github_repo,
                config,
                countries@,
            ),
            found_files == any_written(names.take(i as int), is_github_repo, config, countries@),
        decreases n - i,
    {
        proof {
            lemma_first_unhandled_skip(names, entries, is_github_repo, config, countries@, i as int);
        }
        let action = plan_entry(entry_names[i].as_str(), is_github_repo, config, countries);
        assert(action@ == entry_action(names[i as int], is_github_repo, config, countries@));
        let ghost prefix = names.take(i as int);
        let ghost next = names.take(i + 1);
        assert(next.drop_last() == prefix);
        assert(next[i as int] == names[i as int]);
        let ghost before_files = files@;
        let error = match action {
            EntryAction::Ignore => {
                match zip_open_entry(archive, i) {
                    Ok(()) => None,
                    Err(e) => Some(ConfigError::Archive(e)),
                }
            },
            EntryAction::Skip => {
                match zip_read_entry(archive, i) {
                    Ok(_) => None,
                    Err(EntryReadError::Open(e)) => Some(ConfigError::Archive(e)),
                    Err(EntryReadError::Read(e)) => Some(ConfigError::Io(e)),
                }
            },
            EntryAction::Write(name) => {
                match zip_read_entry(archive, i) {
                    Ok(contents) => {
                        found_files = true;
                        files.push(ConfigFile { name, contents });
                        assert(files_view(files@) =~= files_view(before_files).push(
                            (files@.last().name@, files@.last().contents@),
                        ));
                        assert(entry_action(next[i as int], is_github_repo, config, countries@) is Write);
                        None
                    },
                    Err(EntryReadError::Open(e)) => Some(ConfigError::Archive(e)),
                    Err(EntryReadError::Read(e)) => Some(ConfigError::Io(e)),
                }
            },
        };
        if error.is_some() {
            proof {
                lemma_not_all_handled(names, entries, is_github_repo, config, countries@, i as int);
            }
            return ExtractedConfigs { files, found_files, error };
        }
        i = i + 1;
    }
    proof {
        lemma_first_unhandled_skip(names, entries, is_github_repo, config, countries@, n as int);
    }
    assert(names.take(n as int) == names);
    ExtractedConfigs { files, found_files, error: None }
}

} // verus!
