use easytier_service::error::Error;
use easytier_service::handlers::auth_token::{get, post};
use easytier_service::handlers::{failure, info, repair, success, CODE_FAILED, CODE_OK};
use easytier_service::model::{EVersion, REasytier, RInfo, RRepair, Resp};
use easytier_service::platform::Platform;

fn both(core: &str, cli: &str) -> EVersion {
    EVersion {
        core: Some(String::from(core)),
        cli: Some(String::from(cli)),
    }
}

#[test]
fn info_tells_the_service_the_host_and_the_installation() {
    let host = Platform::new("linux", "x86_64");
    let answer = info("0.1.0-abcdef12", &host, Ok(both("1.2.3", "1.2.4")));
    assert_eq!(answer.code, Some(200));
    assert_eq!(answer.msg, None);
    let told = answer.data.unwrap();
    assert_eq!(told.version, "0.1.0-abcdef12");
    assert_eq!(told.os, "linux");
    assert_eq!(told.arch, "x86_64");
    assert_eq!(told.list.len(), 1);
    assert_eq!(told.list[0].instance_id, None);
    assert_eq!(told.list[0].instance_name, None);
    assert!(!told.list[0].running);
    assert_eq!(told.list[0].version.core, Some(String::from("1.2.3")));
    assert_eq!(told.list[0].version.cli, Some(String::from("1.2.4")));
}

#[test]
fn info_lists_nothing_where_no_version_can_be_read() {
    let host = Platform::new("windows", "x86_64");
    let answer = info("0.1.0", &host, Err(Error::NotInstalled));
    assert_eq!(answer.code, Some(CODE_OK));
    let told = answer.data.unwrap();
    assert_eq!(told.os, "windows");
    assert!(told.list.is_empty());
}

#[test]
fn repair_tells_the_versions_found_after_it() {
    let answer = repair(Ok(both("1.2.3", "1.2.3")));
    assert_eq!(answer.code, Some(200));
    assert_eq!(answer.msg, None);
    let told = answer.data.unwrap();
    assert_eq!(told.version.core, Some(String::from("1.2.3")));
    assert_eq!(told.version.cli, Some(String::from("1.2.3")));
}

#[test]
fn repair_tells_the_words_of_its_error() {
    let answer = repair(Err(Error::NoRelease));
    assert_eq!(answer.code, Some(500));
    assert_eq!(answer.msg, Some(String::from("No releases found")));
    assert!(answer.data.is_none());
    let answer = repair(Err(Error::Download(String::from("status 404"))));
    assert_eq!(answer.code, Some(CODE_FAILED));
    assert_eq!(answer.msg, Some(String::from("status 404")));
    let answer = repair(Err(Error::NotInstalled));
    assert_eq!(answer.msg, Some(String::from("easytier not exists")));
}

#[test]
fn the_envelopes_carry_their_codes() {
    let good: Resp<u8> = success(Some(7));
    assert_eq!(good.code, Some(200));
    assert_eq!(good.msg, None);
    assert_eq!(good.data, Some(7));
    let empty: Resp<u8> = success(None);
    assert_eq!(empty.code, Some(200));
    assert_eq!(empty.data, None);
    let bad: Resp<u8> = failure(&Error::NoAsset);
    assert_eq!(bad.code, Some(500));
    assert_eq!(
        bad.msg,
        Some(String::from("No assets found in the latest release"))
    );
    assert_eq!(bad.data, None);
}

#[test]
fn making_a_token_answers_with_an_empty_success() {
    let answer = post(Ok(()));
    assert_eq!(answer.code, Some(200));
    assert_eq!(answer.msg, None);
    assert_eq!(answer.data, None);
    let answer = post(Err(Error::TokenFile(String::from("disk full"))));
    assert_eq!(answer.code, Some(500));
    assert_eq!(answer.msg, Some(String::from("disk full")));
    assert_eq!(answer.data, None);
}

#[test]
fn asking_for_the_tokens_answers_with_all_of_them() {
    let answer = get(vec![String::from("a"), String::from("b")]);
    assert_eq!(answer.code, Some(200));
    assert_eq!(answer.msg, None);
    assert_eq!(answer.data, Some(vec![String::from("a"), String::from("b")]));
}

#[test]
fn the_default_values_are_empty() {
    let version = EVersion::default();
    assert_eq!(version.core, None);
    assert_eq!(version.cli, None);
    let installation = REasytier::default();
    assert_eq!(installation.instance_id, None);
    assert_eq!(installation.instance_name, None);
    assert!(!installation.running);
    assert_eq!(installation.version.core, None);
    let told = RInfo::default();
    assert_eq!(told.version, "");
    assert_eq!(told.os, "");
    assert_eq!(told.arch, "");
    assert!(told.list.is_empty());
    let envelope: Resp<RRepair> = Resp::default();
    assert_eq!(envelope.code, None);
    assert_eq!(envelope.msg, None);
    assert!(envelope.data.is_none());
}

#[test]
fn the_values_can_be_cloned() {
    let version = both("1", "2");
    let copy = version.clone();
    assert_eq!(copy.core, version.core);
    assert_eq!(copy.cli, version.cli);
    let told = RInfo {
        version: String::from("v"),
        os: String::from("o"),
        arch: String::from("a"),
        list: vec![REasytier {
            instance_id: Some(String::from("i")),
            instance_name: None,
            running: true,
            version,
        }],
    };
    let copy = told.clone();
    assert_eq!(copy.version, "v");
    assert_eq!(copy.os, "o");
    assert_eq!(copy.arch, "a");
    assert_eq!(copy.list.len(), 1);
    assert_eq!(copy.list[0].instance_id, Some(String::from("i")));
    assert!(copy.list[0].running);
    assert_eq!(copy.list[0].version.cli, Some(String::from("2")));
    let envelope = Resp {
        code: Some(1),
        msg: Some(String::from("m")),
        data: Some(RRepair {
            version: both("3", "4"),
        }),
    };
    let copy = envelope.clone();
    assert_eq!(copy.code, Some(1));
    assert_eq!(copy.msg, Some(String::from("m")));
    assert_eq!(copy.data.unwrap().version.core, Some(String::from("3")));
}

#[test]
fn errors_have_their_words() {
    assert_eq!(Error::Network(String::from("n")).message(), "n");
    assert_eq!(Error::Decode(String::from("d")).message(), "d");
    assert_eq!(Error::NotInstalled.message(), "easytier not exists");
    assert_eq!(Error::Download(String::from("x")).message(), "x");
    assert_eq!(
        Error::Archive {
            entry: Some(2),
            detail: String::from("bad crc")
        }
        .message(),
        "bad crc"
    );
    assert_eq!(Error::NoRelease.message(), "No releases found");
    assert_eq!(Error::TokenFile(String::from("t")).message(), "t");
    assert_eq!(
        Error::NoAsset.message(),
        "No assets found in the latest release"
    );
    let copy = Error::Archive {
        entry: Some(2),
        detail: String::from("bad crc"),
    }
    .clone();
    assert!(matches!(copy, Error::Archive { entry: Some(2), .. }));
    assert_eq!(copy.message(), "bad crc");
}
