//! The installation on this host: whether it is complete, which versions
//! it reports, what it lacks, and where the missing files come from.

use crate::decode::{text_of, utf8_or_gbk_to_string};
use crate::efile::EFile;
use crate::error::Error;
use crate::http::{easytier_releases, narrowed, resolve_url, resolved_url, suits_host};
use crate::model::{text_view, EVersion, GAsset, GRelease};
use crate::platform::{required_files_of, required_view, Platform};
use crate::text::{chars_of, matches_at, string_of};
use vstd::prelude::*;
use vstd::string::*;

verus! {

/// What running an executable with the version flag gave: whether it ended
/// well, and what it printed.
#[derive(Debug)]
pub struct ProbeOutput {
    pub success: bool,
    pub stdout: Vec<u8>,
}

/// Where a download comes from and where it goes: the address, the
/// directory and the file name to store the archive under, and the roles of
/// the files to take from it.
#[derive(Debug)]
pub struct Download {
    pub url: String,
    pub dir: String,
    pub file_name: String,
    pub need_file: Vec<EFile>,
}

/// Whether the file at position `i` of the required files was found. A file
/// that nothing is reported of counts as not found.
pub open spec fn is_present(present: Seq<bool>, i: int) -> bool {
    0 <= i < present.len() && present[i]
}

/// Whether every required file of a host was found.
pub open spec fn installed(windows: bool, present: Seq<bool>) -> bool {
    forall|i: int| 0 <= i < required_files_of(windows).len() ==> is_present(present, i)
}

/// The roles of the first `n` required files that were not found, in the
/// order of the required files.
pub open spec fn missing_below(required: Seq<(Seq<char>, EFile)>, present: Seq<bool>, n: nat) -> Seq<
    EFile,
>
    decreases n,
{
    if n == 0 {
        Seq::empty()
    } else {
        let rest = missing_below(required, present, (n - 1) as nat);
        if is_present(present, n - 1) {
            rest
        } else {
            rest.push(required[n - 1].1)
        }
    }
}

/// The roles to fetch: the wildcard when everything is to be replaced,
/// otherwise the roles of the required files that were not found.
pub open spec fn missing_roles(force: bool, windows: bool, present: Seq<bool>) -> Seq<EFile> {
    if force {
        seq![EFile::All]
    } else {
        missing_below(required_files_of(windows), present, required_files_of(windows).len())
    }
}

/// `s` without the line feeds at its end.
pub open spec fn without_trailing_newlines(s: Seq<char>) -> Seq<char>
    decreases s.len(),
{
    if s.len() > 0 && s.last() == '\n' {
        without_trailing_newlines(s.drop_last())
    } else {
        s
    }
}

/// `s` without `prefix` at its front, where it starts with it.
pub open spec fn without_prefix(s: Seq<char>, prefix: Seq<char>) -> Seq<char> {
    if prefix.is_prefix_of(s) {
        s.skip(prefix.len() as int)
    } else {
        s
    }
}

/// The version in what an executable printed: the text without the line
/// feeds at its end and without the executable's name and a space in front.
pub open spec fn version_in(output: Seq<char>, prefix: Seq<char>) -> Seq<char> {
    without_prefix(without_trailing_newlines(output), prefix)
}

/// The version that a probe gives: none where the executable is missing,
/// could not be run or ended badly, otherwise the version in what it
/// printed, decoded as the host calls for.
pub open spec fn probed_version(probe: Option<ProbeOutput>, prefix: Seq<char>, windows: bool) -> Option<
    Seq<char>,
> {
    match probe {
        Some(output) => if output.success {
            Some(version_in(text_of(output.stdout@, windows), prefix))
        } else {
            None
        },
        None => None,
    }
}

/// The words before the version of the primary executable.
pub open spec fn core_prefix() -> Seq<char> {
    seq!['e', 'a', 's', 'y', 't', 'i', 'e', 'r', '-', 'c', 'o', 'r', 'e', ' ']
}

/// The words before the version of the command-line executable.
pub open spec fn cli_prefix() -> Seq<char> {
    seq!['e', 'a', 's', 'y', 't', 'i', 'e', 'r', '-', 'c', 'l', 'i', ' ']
}

/// Whether an installation in this state calls for the latest release: it
/// is absent, or one of its executables reports no version.
pub open spec fn update_pending(current: Option<EVersion>) -> bool {
    match current {
        None => true,
        Some(version) => version.core is None || version.cli is None,
    }
}

/// Whether the whole installation is there: every required file of the host
/// was found.
pub fn is_installed(platform: &Platform, present: &Vec<bool>) -> (r: bool)
    ensures
        r == installed(platform.spec_is_windows(), present@),
{
    let required = platform.required_files();
    let n = required.len();
    assert(n == required_view(required@).len());
    let mut i: usize = 0;
    while i < n
        invariant
            i <= n,
            n == required_files_of(platform.spec_is_windows()).len(),
            forall|j: int| 0 <= j < i ==> is_present(present@, j),
        decreases n - i,
    {
        if !(i < present.len() && present[i]) {
            assert(!is_present(present@, i as int));
            return false;
        }
        i = i + 1;
    }
    true
}

/// The roles whose files are to be fetched: the wildcard alone when `force`
/// asks for a full replacement, otherwise the role of each required file
/// that was not found. An empty answer means that nothing is to be done.
pub fn check_exists(force: bool, platform: &Platform, present: &Vec<bool>) -> (need_file: Vec<EFile>)
    ensures
        need_file@ == missing_roles(force, platform.spec_is_windows(), present@),
{
    let mut need_file: Vec<EFile> = Vec::new();
    if force {
        need_file.push(EFile::All);
        return need_file;
    }
    let required = platform.required_files();
    let n = required.len();
    let ghost wanted = required_files_of(platform.spec_is_windows());
    assert(n == required_view(required@).len());
    let mut i: usize = 0;
    while i < n
        invariant
            i <= n,
            n == required@.len(),
            wanted == required_view(required@),
            need_file@ == missing_below(wanted, present@, i as nat),
        decreases n - i,
    {
        if !(i < present.len() && present[i]) {
            assert(wanted[i as int].1 == required@[i as int].role);
            need_file.push(required[i].role);
        }
        i = i + 1;
    }
    need_file
}

/// The version in what an executable printed: `output` without the line
/// feeds at its end, and without `prefix` where what is left starts with it.
pub fn parse_version(output: &str, prefix: &str) -> (r: String)
    ensures
        r@ == version_in(output@, prefix@),
{
    let text = chars_of(output);
    let lead = chars_of(prefix);
    let mut end: usize = text.len();
    assert(text@.take(end as int) == text@);
    while end > 0 && text[end - 1] == '\n'
        invariant
            end <= text.len(),
            without_trailing_newlines(text@) == without_trailing_newlines(text@.take(end as int)),
        decreases end,
    {
        assert(text@.take(end as int).drop_last() == text@.take(end - 1));
        end = end - 1;
    }
    let ghost trimmed = text@.take(end as int);
    assert(without_trailing_newlines(text@) == trimmed);
    let start: usize = if matches_at(&text, 0, &lead) && lead.len() <= end {
        lead.len()
    } else {
        0
    };
    proof {
        assert(text@.skip(0) == text@);
        if lead@.is_prefix_of(trimmed) {
            assert(lead@ =~= text@.subrange(0, lead@.len() as int));
        }
        if lead@.is_prefix_of(text@) && lead@.len() <= end {
            assert(lead@ =~= trimmed.subrange(0, lead@.len() as int));
        }
        assert(trimmed.skip(start as int) == text@.subrange(start as int, end as int));
    }
    string_of(&text, start, end)
}

/// The version that a probe gives: none where the executable is missing,
/// could not be run or ended badly, otherwise the version in what it
/// printed.
pub fn get_version(probe: &Option<ProbeOutput>, prefix: &str, windows: bool) -> (r: Option<String>)
    ensures
        text_view(r) == probed_version(*probe, prefix@, windows),
{
    match probe {
        Some(output) => {
            if output.success {
                let text = utf8_or_gbk_to_string(output.stdout.as_slice(), windows);
                Some(parse_version(text.as_str(), prefix))
            } else {
                None
            }
        },
        None => None,
    }
}

/// The versions of an installation. It fails with `NotInstalled` where a
/// required file was not found; otherwise each executable gives its
/// version, or none where its probe failed.
pub fn version(
    platform: &Platform,
    present: &Vec<bool>,
    core: &Option<ProbeOutput>,
    cli: &Option<ProbeOutput>,
) -> (r: Result<EVersion, Error>)
    ensures
        r is Ok <==> installed(platform.spec_is_windows(), present@),
        r matches Err(e) ==> e is NotInstalled,
        r matches Ok(found) ==> found@ == (
            probed_version(*core, core_prefix(), platform.spec_is_windows()),
            probed_version(*cli, cli_prefix(), platform.spec_is_windows()),
        ),
{
    if !is_installed(platform, present) {
        return Err(Error::NotInstalled);
    }
    proof {
        reveal_strlit("easytier-core ");
        reveal_strlit("easytier-cli ");
        assert("easytier-core "@ =~= core_prefix());
        assert("easytier-cli "@ =~= cli_prefix());
    }
    let windows = platform.is_windows();
    let core = get_version(core, "easytier-core ", windows);
    let cli = get_version(cli, "easytier-cli ", windows);
    Ok(EVersion { core, cli })
}

/// Whether an answer is the one that a look at the catalog calls for: the
/// error of a catalog that could not be fetched; nothing where upstream has
/// no release or the installation is complete; otherwise the first release
/// of the catalog, with its assets narrowed to the host.
pub open spec fn update_decision(
    answer: Result<Option<GRelease>, Error>,
    catalog: Result<Vec<GRelease>, Error>,
    current: Option<EVersion>,
    os: Seq<char>,
    arch: Seq<char>,
) -> bool {
    match catalog {
        Err(e) => answer == Err::<Option<GRelease>, Error>(e),
        Ok(releases) => if releases@.len() > 0 && update_pending(current) {
            answer matches Ok(Some(latest)) && narrowed(latest, releases@[0], os, arch)
        } else {
            answer == Ok::<Option<GRelease>, Error>(None)
        },
    }
}

/// Whether the latest release is to be installed. An upstream without
/// releases calls for nothing; otherwise the first release of the catalog
/// is pending where the installation is absent or one of its executables
/// reports no version. A catalog that could not be fetched is an error.
pub fn check_update(
    catalog: Result<Vec<GRelease>, Error>,
    current: &Option<EVersion>,
    platform: &Platform,
) -> (r: Result<Option<GRelease>, Error>)
    ensures
        update_decision(r, catalog, *current, platform.os@, platform.arch@),
{
    let releases = match catalog {
        Ok(releases) => releases,
        Err(e) => {
            return Err(e);
        },
    };
    let mut releases = easytier_releases(true, releases, platform);
    if releases.len() == 0 {
        return Ok(None);
    }
    let pending = match current {
        None => true,
        Some(version) => version.core.is_none() || version.cli.is_none(),
    };
    if pending {
        Ok(Some(releases.swap_remove(0)))
    } else {
        Ok(None)
    }
}

/// A download as contracts speak of it: the address, the directory, the
/// file name and the roles.
pub struct DownloadModel {
    pub url: Seq<char>,
    pub dir: Seq<char>,
    pub file_name: Seq<char>,
    pub need_file: Seq<EFile>,
}

impl View for Download {
    type V = DownloadModel;

    open spec fn view(&self) -> DownloadModel {
        DownloadModel {
            url: self.url@,
            dir: self.dir@,
            file_name: self.file_name@,
            need_file: self.need_file@,
        }
    }
}

/// The assets of the latest release that suit a host, in their order.
pub open spec fn latest_assets(releases: Seq<GRelease>, os: Seq<char>, arch: Seq<char>) -> Seq<
    GAsset,
>
    recommends
        releases.len() > 0,
{
    releases[0].assets@.filter(suits_host(os, arch))
}

/// Whether a download is the one that a catalog offers for an installation
/// directory: the first asset of the first release that suits the host,
/// fetched through the mirror if there is one, stored under the asset's
/// name.
pub open spec fn download_for(
    download: DownloadModel,
    asset: GAsset,
    dir: Seq<char>,
    need_file: Seq<EFile>,
    mirror: Option<Seq<char>>,
) -> bool {
    &&& download.url == resolved_url(asset.browser_download_url@, mirror)
    &&& download.dir == dir
    &&& download.file_name == asset.name@
    &&& download.need_file == need_file
}

/// Whether an answer is the choice of a download that a catalog calls for:
/// the catalog's own error where it could not be fetched, `NoRelease`
/// where it is empty, `NoAsset` where no asset of its first release suits
/// the host, and otherwise the download of the first asset that does.
pub open spec fn download_decision(
    answer: Result<Download, Error>,
    catalog: Result<Vec<GRelease>, Error>,
    dir: Seq<char>,
    need_file: Seq<EFile>,
    os: Seq<char>,
    arch: Seq<char>,
    mirror: Option<Seq<char>>,
) -> bool {
    match catalog {
        Err(e) => answer matches Err(f) && f == e,
        Ok(releases) => if releases@.len() == 0 {
            answer matches Err(f) && f is NoRelease
        } else if latest_assets(releases@, os, arch).len() == 0 {
            answer matches Err(f) && f is NoAsset
        } else {
            answer matches Ok(download) && download_for(
                download@,
                latest_assets(releases@, os, arch)[0],
                dir,
                need_file,
                mirror,
            )
        },
    }
}

/// Chooses what to download for the missing files: the first asset of the
/// latest release that suits the host. It fails with the catalog's own
/// error where the catalog could not be fetched, with `NoRelease` where
/// upstream has published nothing, and with `NoAsset` where the latest
/// release has no asset for this host.
pub fn download_missing_files(
    prefix: &str,
    need_file: Vec<EFile>,
    catalog: Result<Vec<GRelease>, Error>,
    platform: &Platform,
    mirror: Option<&str>,
) -> (r: Result<Download, Error>)
    ensures
        download_decision(
            r,
            catalog,
            prefix@,
            need_file@,
            platform.os@,
            platform.arch@,
            text_option(mirror),
        ),
{
    let releases = match catalog {
        Ok(releases) => releases,
        Err(e) => {
            return Err(e);
        },
    };
    let releases = easytier_releases(true, releases, platform);
    if releases.len() == 0 {
        return Err(Error::NoRelease);
    }
    let latest = &releases[0];
    if latest.assets.len() == 0 {
        return Err(Error::NoAsset);
    }
    let asset = &latest.assets[0];
    Ok(
        Download {
            url: resolve_url(asset.browser_download_url.as_str(), mirror),
            dir: String::from_str(prefix),
            file_name: asset.name.clone(),
            need_file,
        },
    )
}

/// An optional borrowed text by its characters.
pub open spec fn text_option(text: Option<&str>) -> Option<Seq<char>> {
    match text {
        Some(t) => Some(t@),
        None => None,
    }
}

/// An installation is complete exactly when nothing is missing from it.
pub proof fn lemma_complete_iff_nothing_missing(windows: bool, present: Seq<bool>)
    ensures
        installed(windows, present) <==> missing_roles(false, windows, present).len() == 0,
{
    let required = required_files_of(windows);
    lemma_missing_below_empty(required, present, required.len());
}

/// No role is missing among the first `n` required files exactly when each
/// of them was found.
pub proof fn lemma_missing_below_empty(
    required: Seq<(Seq<char>, EFile)>,
    present: Seq<bool>,
    n: nat,
)
    ensures
        missing_below(required, present, n).len() == 0 <==> forall|i: int|
            0 <= i < n ==> is_present(present, i),
    decreases n,
{
    if n > 0 {
        lemma_missing_below_empty(required, present, (n - 1) as nat);
        if !is_present(present, n - 1) {
            assert(missing_below(required, present, n).len() > 0);
        }
    }
}

/// Where none of the required files is found, every one of their roles is
/// missing, in the order of the required files.
pub proof fn lemma_absent_installation_misses_all(windows: bool, present: Seq<bool>)
    requires
        forall|i: int| 0 <= i < required_files_of(windows).len() ==> !is_present(present, i),
    ensures
        missing_roles(false, windows, present) == required_files_of(windows).map_values(
            |file: (Seq<char>, EFile)| file.1,
        ),
{
    let required = required_files_of(windows);
    let roles = required.map_values(|file: (Seq<char>, EFile)| file.1);
    assert forall|n: nat| n <= required.len() implies #[trigger] missing_below(required, present, n)
        == roles.take(n as int) by {
        lemma_all_missing_below(required, present, n);
    }
    assert(roles.take(required.len() as int) == roles);
}

proof fn lemma_all_missing_below(required: Seq<(Seq<char>, EFile)>, present: Seq<bool>, n: nat)
    requires
        n <= required.len(),
        forall|i: int| 0 <= i < required.len() ==> !is_present(present, i),
    ensures
        missing_below(required, present, n) == required.map_values(
            |file: (Seq<char>, EFile)| file.1,
        ).take(n as int),
    decreases n,
{
    let roles = required.map_values(|file: (Seq<char>, EFile)| file.1);
    if n > 0 {
        lemma_all_missing_below(required, present, (n - 1) as nat);
        assert(roles.take(n as int) =~= roles.take(n - 1).push(required[n - 1].1));
    } else {
        assert(roles.take(0) =~= Seq::<EFile>::empty());
    }
}

/// A full replacement asks for the wildcard whatever was found.
pub proof fn lemma_force_asks_for_all(windows: bool, present: Seq<bool>)
    ensures
        missing_roles(true, windows, present) == seq![EFile::All],
{
}

/// An upstream without releases calls for no update, and that is no error.
pub proof fn lemma_no_release_no_update(
    answer: Result<Option<GRelease>, Error>,
    releases: Vec<GRelease>,
    current: Option<EVersion>,
    os: Seq<char>,
    arch: Seq<char>,
)
    requires
        releases@.len() == 0,
        update_decision(answer, Ok(releases), current, os, arch),
    ensures
        answer == Ok::<Option<GRelease>, Error>(None),
{
}

} // verus!
