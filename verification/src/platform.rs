//! The host that the toolset is installed on, as a plain value: which
//! system and processor it has, and so which files an installation holds.

use crate::efile::EFile;
use vstd::prelude::*;
use vstd::string::*;

verus! {

/// The host: the names of its operating system and of its processor
/// architecture, as release assets spell them.
#[derive(Debug)]
pub struct Platform {
    pub os: String,
    pub arch: String,
}

/// A file that an installation must hold, with the role it plays.
#[derive(Debug)]
pub struct RequiredFile {
    pub name: String,
    pub role: EFile,
}

/// The name of the operating system on which the toolset needs its two
/// supporting libraries.
pub open spec fn windows_os() -> Seq<char> {
    seq!['w', 'i', 'n', 'd', 'o', 'w', 's']
}

/// The directory of the installation: `./easytier-`, the system, a hyphen
/// and the architecture.
pub open spec fn install_dir_of(os: Seq<char>, arch: Seq<char>) -> Seq<char> {
    seq!['.', '/', 'e', 'a', 's', 'y', 't', 'i', 'e', 'r', '-'] + os + seq!['-'] + arch
}

/// The file names and roles that an installation holds, in the order in
/// which they are looked for.
pub open spec fn required_files_of(windows: bool) -> Seq<(Seq<char>, EFile)> {
    if windows {
        seq![
            (
                seq!['e', 'a', 's', 'y', 't', 'i', 'e', 'r', '-', 'c', 'o', 'r', 'e', '.', 'e', 'x', 'e'],
                EFile::Core,
            ),
            (
                seq!['e', 'a', 's', 'y', 't', 'i', 'e', 'r', '-', 'c', 'l', 'i', '.', 'e', 'x', 'e'],
                EFile::Cli,
            ),
            (seq!['P', 'a', 'c', 'k', 'e', 't', '.', 'd', 'l', 'l'], EFile::Packet),
            (seq!['w', 'i', 'n', 't', 'u', 'n', '.', 'd', 'l', 'l'], EFile::Wintun),
        ]
    } else {
        seq![
            (seq!['e', 'a', 's', 'y', 't', 'i', 'e', 'r', '-', 'c', 'o', 'r', 'e'], EFile::Core),
            (seq!['e', 'a', 's', 'y', 't', 'i', 'e', 'r', '-', 'c', 'l', 'i'], EFile::Cli),
        ]
    }
}

/// A list of required files as contracts speak of it.
pub open spec fn required_view(files: Seq<RequiredFile>) -> Seq<(Seq<char>, EFile)> {
    files.map_values(|f: RequiredFile| (f.name@, f.role))
}

impl Clone for Platform {
    fn clone(&self) -> (r: Platform)
        ensures
            r == *self,
    {
        Platform { os: self.os.clone(), arch: self.arch.clone() }
    }
}

impl Clone for RequiredFile {
    fn clone(&self) -> (r: RequiredFile)
        ensures
            r == *self,
    {
        RequiredFile { name: self.name.clone(), role: self.role }
    }
}

impl Platform {
    /// The host with the given system and architecture.
    pub fn new(os: &str, arch: &str) -> (r: Platform)
        ensures
            r.os@ == os@,
            r.arch@ == arch@,
    {
        Platform { os: String::from_str(os), arch: String::from_str(arch) }
    }

    /// Whether the host runs Windows.
    pub open spec fn spec_is_windows(&self) -> bool {
        self.os@ == windows_os()
    }

    /// Whether the host runs Windows.
    #[verifier::when_used_as_spec(spec_is_windows)]
    pub fn is_windows(&self) -> (r: bool)
        ensures
            r == self.spec_is_windows(),
    {
        proof {
            reveal_strlit("windows");
            assert("windows"@ =~= windows_os());
        }
        let windows = String::from_str("windows");
        self.os == windows
    }

    /// The directory that holds the installation, relative to where the
    /// service runs.
    pub fn install_dir(&self) -> (r: String)
        ensures
            r@ == install_dir_of(self.os@, self.arch@),
    {
        proof {
            reveal_strlit("./easytier-");
            reveal_strlit("-");
            assert("./easytier-"@ =~= seq!['.', '/', 'e', 'a', 's', 'y', 't', 'i', 'e', 'r', '-']);
            assert("-"@ =~= seq!['-']);
        }
        String::from_str("./easytier-").concat(self.os.as_str()).concat("-").concat(
            self.arch.as_str(),
        )
    }

    /// The files that an installation on this host holds, with their roles:
    /// the two executables, and on Windows the two libraries as well.
    pub fn required_files(&self) -> (r: Vec<RequiredFile>)
        ensures
            required_view(r@) == required_files_of(self.spec_is_windows()),
    {
        let mut files: Vec<RequiredFile> = Vec::new();
        if self.is_windows() {
            proof {
                reveal_strlit("easytier-core.exe");
                reveal_strlit("easytier-cli.exe");
                reveal_strlit("Packet.dll");
                reveal_strlit("wintun.dll");
            }
            files.push(RequiredFile { name: String::from_str("easytier-core.exe"), role: EFile::Core });
            files.push(RequiredFile { name: String::from_str("easytier-cli.exe"), role: EFile::Cli });
            files.push(RequiredFile { name: String::from_str("Packet.dll"), role: EFile::Packet });
            files.push(RequiredFile { name: String::from_str("wintun.dll"), role: EFile::Wintun });
            assert(required_view(files@) =~= required_files_of(true)) by {
                assert(required_view(files@).len() == 4);
                assert(required_view(files@)[0].0 =~= required_files_of(true)[0].0);
                assert(required_view(files@)[1].0 =~= required_files_of(true)[1].0);
                assert(required_view(files@)[2].0 =~= required_files_of(true)[2].0);
                assert(required_view(files@)[3].0 =~= required_files_of(true)[3].0);
            }
        } else {
            proof {
                reveal_strlit("easytier-core");
                reveal_strlit("easytier-cli");
            }
            files.push(RequiredFile { name: String::from_str("easytier-core"), role: EFile::Core });
            files.push(RequiredFile { name: String::from_str("easytier-cli"), role: EFile::Cli });
            assert(required_view(files@) =~= required_files_of(false)) by {
                assert(required_view(files@).len() == 2);
                assert(required_view(files@)[0].0 =~= required_files_of(false)[0].0);
                assert(required_view(files@)[1].0 =~= required_files_of(false)[1].0);
            }
        }
        files
    }
}

} // verus!
