use easytier_service::efile::EFile;
use easytier_service::platform::Platform;

#[test]
fn a_host_is_windows_by_the_name_of_its_system() {
    assert!(Platform::new("windows", "x86_64").is_windows());
    assert!(!Platform::new("linux", "x86_64").is_windows());
    assert!(!Platform::new("macos", "aarch64").is_windows());
    assert!(!Platform::new("Windows", "x86_64").is_windows());
    assert!(!Platform::new("", "").is_windows());
}

#[test]
fn the_installation_directory_names_the_host() {
    assert_eq!(
        Platform::new("linux", "x86_64").install_dir(),
        "./easytier-linux-x86_64"
    );
    assert_eq!(
        Platform::new("windows", "aarch64").install_dir(),
        "./easytier-windows-aarch64"
    );
}

#[test]
fn every_host_requires_the_two_executables() {
    let files = Platform::new("linux", "x86_64").required_files();
    let names: Vec<&str> = files.iter().map(|f| f.name.as_str()).collect();
    let roles: Vec<EFile> = files.iter().map(|f| f.role).collect();
    assert_eq!(names, vec!["easytier-core", "easytier-cli"]);
    assert_eq!(roles, vec![EFile::Core, EFile::Cli]);
}

#[test]
fn windows_requires_the_two_libraries_as_well() {
    let files = Platform::new("windows", "x86_64").required_files();
    let names: Vec<&str> = files.iter().map(|f| f.name.as_str()).collect();
    let roles: Vec<EFile> = files.iter().map(|f| f.role).collect();
    assert_eq!(
        names,
        vec!["easytier-core.exe", "easytier-cli.exe", "Packet.dll", "wintun.dll"]
    );
    assert_eq!(
        roles,
        vec![EFile::Core, EFile::Cli, EFile::Packet, EFile::Wintun]
    );
}

#[test]
fn required_file_names_map_back_to_their_roles() {
    for (os, windows) in [("linux", false), ("windows", true)] {
        for file in Platform::new(os, "x86_64").required_files() {
            assert_eq!(EFile::from_str(&file.name, windows), file.role);
        }
    }
}

#[test]
fn a_host_can_be_cloned() {
    let host = Platform::new("linux", "x86_64");
    let copy = host.clone();
    assert_eq!(copy.os, "linux");
    assert_eq!(copy.arch, "x86_64");
    let file = host.required_files()[1].clone();
    assert_eq!(file.name, "easytier-cli");
    assert_eq!(file.role, EFile::Cli);
}
