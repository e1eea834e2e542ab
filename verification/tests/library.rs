use adoptopenjdk_installer::api::AdoptOpenJDK;
use adoptopenjdk_installer::download::{
    content_length, disposition_file_name, download_address, plan_download, range_header, resume_offset, resume_range,
};
use adoptopenjdk_installer::error::AdoptOpenJDKError;
use adoptopenjdk_installer::installer::{
    alternatives_args, alternatives_program, install_root, path_join, tool_path, EntryAction, Unpacker,
};
use adoptopenjdk_installer::request::{feature_version_from_line, LatestBinary};
use adoptopenjdk_installer::response::{
    Architecture, AvailableReleases, HeapSize, Imagetype, JVMImpl, Project, ReleaseType, Vendor, OS,
};
use adoptopenjdk_installer::settings::{Install, Settings};
use adoptopenjdk_installer::text::{
    i64_to_decimal, parse_i64, parse_u64, split_field, str_equal, ParseIntError,
};

fn sample_request() -> LatestBinary {
    LatestBinary {
        arch: Architecture::x64,
        feature_version: 11,
        heap_size: HeapSize::normal,
        image_type: Imagetype::jdk,
        jvm_impl: JVMImpl::hotspot,
        os: OS::linux,
        release_type: ReleaseType::ga,
        vendor: Vendor::adoptopenjdk,
    }
}

#[test]
fn request_path_lists_fields_in_api_order() {
    assert_eq!(sample_request().to_string(), "11/ga/linux/x64/jdk/hotspot/normal/adoptopenjdk");
}

#[test]
fn request_path_with_other_values() {
    let b = LatestBinary {
        arch: Architecture::aarch64,
        feature_version: -3,
        heap_size: HeapSize::large,
        image_type: Imagetype::jre,
        jvm_impl: JVMImpl::openj9,
        os: OS::alpine_linux,
        release_type: ReleaseType::ea,
        vendor: Vendor::openjdk,
    };
    assert_eq!(b.to_string(), "-3/ea/alpine_linux/aarch64/jre/openj9/large/openjdk");
}

#[test]
fn request_path_segments_are_the_fields() {
    let path = sample_request().to_string();
    let expected = ["11", "ga", "linux", "x64", "jdk", "hotspot", "normal", "adoptopenjdk"];
    for (i, e) in expected.iter().enumerate() {
        assert_eq!(split_field(&path, "/", i).unwrap(), *e);
    }
    assert_eq!(split_field(&path, "/", 8), None);
}

#[test]
fn latest_ga_uses_installer_defaults() {
    let b = LatestBinary::latest_ga(17, Architecture::x86);
    assert_eq!(b.to_string(), "17/ga/linux/x86/jdk/hotspot/normal/adoptopenjdk");
}

#[test]
fn enum_names() {
    assert_eq!(Architecture::ppc64le.to_string(), "ppc64le");
    assert_eq!(Architecture::riscv64.to_string(), "riscv64");
    assert_eq!(Project::shenandoah.to_string(), "shenandoah");
    assert_eq!(Imagetype::staticlibs.to_string(), "staticlibs");
    assert_eq!(OS::windows.to_string(), "windows");
    assert_eq!(Vendor::openjdk.to_string(), "openjdk");
}

#[test]
fn architecture_from_platform_names() {
    assert_eq!(Architecture::from_str("x86"), Ok(Architecture::x86));
    assert_eq!(Architecture::from_str("x32"), Ok(Architecture::x32));
    assert_eq!(Architecture::from_str("x86_64"), Ok(Architecture::x64));
    assert_eq!(
        Architecture::from_str("aarch64"),
        Err(AdoptOpenJDKError::Custom("Unable to find Architecture ".to_string()))
    );
    assert!(Architecture::from_str("x64").is_err());
}

#[test]
fn build_url_roots_paths_at_api() {
    let jdk = AdoptOpenJDK::new("agent".to_string());
    assert_eq!(jdk.user_agent(), "agent");
    assert_eq!(jdk.build_url("info/x"), "https://api.adoptopenjdk.net/v3/info/x");
    assert_eq!(jdk.releases_url(), "https://api.adoptopenjdk.net/v3/info/available_releases");
    assert_eq!(
        jdk.binary_url(&sample_request()),
        "https://api.adoptopenjdk.net/v3/binary/latest/11/ga/linux/x64/jdk/hotspot/normal/adoptopenjdk"
    );
    assert_eq!(
        AdoptOpenJDK::binary_label(&sample_request()),
        "Adopt Open JDK 11/ga/linux/x64/jdk/hotspot/normal/adoptopenjdk"
    );
}

#[test]
fn respond_judges_status() {
    assert_eq!(AdoptOpenJDK::respond(Ok(200)), Ok(200));
    assert_eq!(AdoptOpenJDK::respond(Ok(299)), Ok(299));
    assert_eq!(AdoptOpenJDK::respond(Ok(199)), Err(AdoptOpenJDKError::HTTPError(199)));
    assert_eq!(AdoptOpenJDK::respond(Ok(300)), Err(AdoptOpenJDKError::HTTPError(300)));
    assert_eq!(AdoptOpenJDK::respond(Ok(404)), Err(AdoptOpenJDKError::HTTPError(404)));
    let e = AdoptOpenJDKError::ReqwestError("timed out".to_string());
    assert_eq!(AdoptOpenJDK::respond(Err(e.clone())), Err(e));
    assert!(AdoptOpenJDK::is_success(201));
    assert!(!AdoptOpenJDK::is_success(500));
}

#[test]
fn error_messages() {
    assert_eq!(
        AdoptOpenJDKError::HTTPError(404).to_string(),
        "The API returned a non-success error code 404"
    );
    assert_eq!(
        AdoptOpenJDKError::ReqwestError("x".to_string()).to_string(),
        "An error occurred while processing the HTTP response"
    );
    assert_eq!(
        AdoptOpenJDKError::JSONError("x".to_string()).to_string(),
        "The JSON sent by AdoptOpenJDK did not match what this app was expecting"
    );
    assert_eq!(AdoptOpenJDKError::STDIoError("denied".to_string()).to_string(), "IO Error denied");
    assert_eq!(AdoptOpenJDKError::Custom("IDK".to_string()).to_string(), "IDK");
}

fn releases() -> AvailableReleases {
    AvailableReleases {
        available_lts_releases: vec![8, 11],
        available_releases: vec![8, 9, 10, 11, 12],
        most_recent_feature_release: 12,
        most_recent_feature_version: 13,
        most_recent_lts: 11,
        tip_version: 13,
    }
}

#[test]
fn releases_listing_with_and_without_colours() {
    colored::control::set_override(false);
    let plain = releases().to_string();
    colored::control::set_override(true);
    let painted = releases().to_string();
    colored::control::unset_override();
    assert_eq!(plain, "[8,9,10,11,12]");
    assert_eq!(painted, "[\u{1b}[32m8\u{1b}[0m,9,10,\u{1b}[32m11\u{1b}[0m,12]");
}

#[test]
fn releases_listing_single() {
    let r = AvailableReleases {
        available_lts_releases: vec![],
        available_releases: vec![15],
        most_recent_feature_release: 15,
        most_recent_feature_version: 15,
        most_recent_lts: 11,
        tip_version: 16,
    };
    assert_eq!(r.to_string(), "[15]");
}

#[test]
fn settings_start_empty_and_grow() {
    let mut s = Settings::initial();
    assert_eq!(s.install_location, "/opt/adoptopenjdk");
    assert!(s.installs.is_empty());
    let mut i = Install::for_request(&sample_request());
    assert_eq!(i.jvm_version, 11);
    assert_eq!(i.jvm_impl, JVMImpl::hotspot);
    assert_eq!(i.location, "");
    i.set_location("/opt/adoptopenjdk/jdk-11".to_string());
    assert_eq!(i.location, "/opt/adoptopenjdk/jdk-11");
    s.add_install(i);
    s.add_install(Install { jvm_version: 8, jvm_impl: JVMImpl::openj9, location: "x".to_string() });
    assert_eq!(s.installs.len(), 2);
    assert_eq!(s.installs[0].jvm_version, 11);
    assert_eq!(s.installs[1].jvm_version, 8);
    assert_eq!(s.install_location, "/opt/adoptopenjdk");
}

#[test]
fn unpacker_defers_directories() {
    let mut u = Unpacker::new();
    assert!(!u.needs_path(false));
    assert_eq!(u.on_entry(false, None), EntryAction::UnpackNow);
    assert!(u.needs_path(true));
    assert_eq!(u.on_entry(true, Some("jdk-11/".to_string())), EntryAction::Defer);
    assert!(!u.needs_path(true));
    assert_eq!(u.on_entry(false, None), EntryAction::UnpackNow);
    assert_eq!(u.on_entry(true, None), EntryAction::Defer);
    let (dirs, first) = u.finish().unwrap();
    assert_eq!(dirs, vec![1, 3]);
    assert_eq!(first, "jdk-11/");
}

#[test]
fn unpacker_without_directories_has_no_result() {
    let mut u = Unpacker::new();
    u.on_entry(false, None);
    assert!(u.finish().is_none());
    assert!(Unpacker::new().finish().is_none());
}

#[test]
fn paths_join_like_std() {
    assert_eq!(path_join("/opt", "adoptopenjdk"), "/opt/adoptopenjdk");
    assert_eq!(path_join("/opt/", "x"), "/opt/x");
    assert_eq!(path_join("/opt", "/abs"), "/abs");
    assert_eq!(path_join("", "rel"), "rel");
    assert_eq!(install_root(), "/opt/adoptopenjdk");
    assert_eq!(tool_path("/opt/adoptopenjdk", "jdk-11.0.9+11/", "java"), "/opt/adoptopenjdk/jdk-11.0.9+11/bin/java");
    assert_eq!(tool_path("/opt/adoptopenjdk", "jdk-11", "javac"), "/opt/adoptopenjdk/jdk-11/bin/javac");
}

#[test]
fn alternatives_registration() {
    assert_eq!(alternatives_program(), "update-alternatives");
    assert_eq!(
        alternatives_args("java", "/opt/adoptopenjdk/jdk/bin/java"),
        vec!["--install", "/usr/bin/java", "java", "/opt/adoptopenjdk/jdk/bin/java", "1"]
    );
}

#[test]
fn download_decisions() {
    assert_eq!(
        disposition_file_name("attachment; filename=OpenJDK11U-jdk_x64_linux_hotspot_11.0.9_11.tar.gz").unwrap(),
        "OpenJDK11U-jdk_x64_linux_hotspot_11.0.9_11.tar.gz"
    );
    assert_eq!(disposition_file_name("attachment"), None);
    assert_eq!(disposition_file_name("attachment; filename"), None);
    assert_eq!(disposition_file_name("a; b=c=d; e").unwrap(), "c");
    assert_eq!(content_length(Some("1234")), 1234);
    assert_eq!(content_length(Some("12a")), 0);
    assert_eq!(content_length(None), 0);
    assert_eq!(resume_offset(100), 99);
    assert_eq!(range_header(99), "bytes=99-");
    assert_eq!(range_header(0), "bytes=0-");
}

#[test]
fn integers_render_and_parse() {
    assert_eq!(i64_to_decimal(0), "0");
    assert_eq!(i64_to_decimal(-42), "-42");
    assert_eq!(i64_to_decimal(i64::MIN), "-9223372036854775808");
    assert_eq!(i64_to_decimal(i64::MAX), "9223372036854775807");
    for n in [0i64, 1, -1, 9, 10, 11, -12345, i64::MIN, i64::MAX] {
        assert_eq!(parse_i64(&i64_to_decimal(n)), Ok(n));
        assert_eq!(parse_i64(&n.to_string()), Ok(n));
    }
    assert_eq!(parse_i64(""), Err(ParseIntError::Empty));
    assert_eq!(parse_i64("-"), Err(ParseIntError::InvalidDigit));
    assert_eq!(parse_i64("+"), Err(ParseIntError::InvalidDigit));
    assert_eq!(parse_i64("+7"), Ok(7));
    assert_eq!(parse_i64("1 "), Err(ParseIntError::InvalidDigit));
    assert_eq!(parse_i64("9223372036854775808"), Err(ParseIntError::PosOverflow));
    assert_eq!(parse_i64("-9223372036854775809"), Err(ParseIntError::NegOverflow));
    assert_eq!(parse_i64("99999999999999999999x"), Err(ParseIntError::PosOverflow));
    assert_eq!(parse_u64("18446744073709551615"), Ok(u64::MAX));
    assert_eq!(parse_u64("18446744073709551616"), Err(ParseIntError::PosOverflow));
    assert_eq!(parse_u64("-1"), Err(ParseIntError::InvalidDigit));
    assert_eq!(ParseIntError::InvalidDigit.message(), "invalid digit found in string");
    assert_eq!(ParseIntError::Empty.message(), "cannot parse integer from empty string");
}

#[test]
fn parse_agrees_with_std() {
    for s in ["", "-", "+", "0", "-0", "+5", "12x", "x", "007", "9223372036854775807", "9223372036854775808",
        "-9223372036854775808", "-9223372036854775809", "1-", "١"] {
        let ours = parse_i64(s);
        let std = s.parse::<i64>();
        match (ours, std) {
            (Ok(a), Ok(b)) => assert_eq!(a, b),
            (Err(e), Err(f)) => assert_eq!(e.message(), f.to_string()),
            _ => panic!("disagree on {:?}", s),
        }
    }
}

#[test]
fn version_line_loses_its_break() {
    assert_eq!(feature_version_from_line("11\n"), Ok(11));
    assert_eq!(feature_version_from_line("x\n"), Err(ParseIntError::InvalidDigit));
    assert_eq!(feature_version_from_line("\n"), Err(ParseIntError::Empty));
}

#[test]
fn string_helpers() {
    assert!(str_equal("abc", "abc"));
    assert!(!str_equal("abc", "abd"));
    assert!(!str_equal("ab", "abc"));
    assert_eq!(split_field("a; b; c", "; ", 2).unwrap(), "c");
    assert_eq!(split_field("a;;b", ";", 1).unwrap(), "");
    assert_eq!(split_field("", ";", 0).unwrap(), "");
}

#[test]
fn download_address_is_the_parsed_url() {
    assert_eq!(download_address("https://api.adoptopenjdk.net/v3/a b").unwrap(), "https://api.adoptopenjdk.net/v3/a%20b");
    assert_eq!(download_address("HTTPS://Example.COM").unwrap(), "https://example.com/");
    assert_eq!(download_address("not a url"), None);
}

#[test]
fn plan_download_decisions() {
    assert_eq!(
        plan_download(404, Some("attachment; filename=a.tar.gz"), Some("10")),
        Err(AdoptOpenJDKError::HTTPError(404))
    );
    assert_eq!(plan_download(200, None, Some("10")), Err(AdoptOpenJDKError::Custom("Fail".to_string())));
    assert_eq!(
        plan_download(200, Some("attachment; filename=a.tar.gz"), Some("10")),
        Ok(("a.tar.gz".to_string(), 10))
    );
    assert_eq!(
        plan_download(206, Some("attachment; filename=a.tar.gz"), None),
        Ok(("a.tar.gz".to_string(), 0))
    );
}

#[test]
fn resume_range_only_with_partial_file() {
    assert_eq!(resume_range(None), None);
    assert_eq!(resume_range(Some(1)).unwrap(), "bytes=0-");
    assert_eq!(resume_range(Some(5000)).unwrap(), "bytes=4999-");
}

#[test]
fn user_agent_header_checks_the_value() {
    let ok = AdoptOpenJDK::new("AdoptOpenJDK Installer by Wyatt Herkamp (github.com/wherkamp)".to_string());
    assert_eq!(
        ok.user_agent_header().unwrap().to_str().unwrap(),
        "AdoptOpenJDK Installer by Wyatt Herkamp (github.com/wherkamp)"
    );
    assert!(AdoptOpenJDK::new("tab\tok é".to_string()).user_agent_header().is_some());
    assert!(AdoptOpenJDK::new("bad\nline".to_string()).user_agent_header().is_none());
    assert!(AdoptOpenJDK::new("del\u{7f}".to_string()).user_agent_header().is_none());
}

#[test]
fn unpacker_counts_entries() {
    let mut u = Unpacker::new();
    assert_eq!(u.count(), 0);
    u.on_entry(false, None);
    u.on_entry(true, Some("d/".to_string()));
    assert_eq!(u.count(), 2);
}
