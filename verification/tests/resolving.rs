use pacdump::matcher::Match;
use pacdump::resolver::PkgInfo;
use pacdump::resolver::ResolveError;
use pacdump::resolver::TargetInfo;
use pacdump::resolver::contains_url_marker_in;
use pacdump::resolver::filter_packages;
use pacdump::resolver::resolve_targets;
use pacdump::resolver::want_pkg;
use pacdump::scanner::OutputItem;
use pacdump::scanner::scan_archive;
use pacdump::scanner::ArchiveEvent;
use pacdump::status::aggregate_status;

fn strings(v: &[&str]) -> Vec<String> {
    v.iter().map(|s| s.to_string()).collect()
}

fn pkg(name: &str, manifest: &[&str]) -> PkgInfo {
    PkgInfo { name: name.to_string(), manifest: strings(manifest) }
}

#[test]
fn url_marker_detection() {
    assert!(contains_url_marker_in("https://example.org/p.pkg"));
    assert!(contains_url_marker_in("x://y"));
    assert!(!contains_url_marker_in("no-url-here"));
    assert!(!contains_url_marker_in(":/"));
    assert!(!contains_url_marker_in(""));
}

#[test]
fn package_wins_over_existing_file() {
    let m = Match::new(false, strings(&["foo"])).unwrap();
    let infos = vec![TargetInfo {
        target: "ambiguous".to_string(),
        package: Some(pkg("ambiguous", &["usr/bin/foo"])),
        file_exists: true,
    }];
    let plan = resolve_targets(&infos, &m).unwrap();
    assert_eq!(plan.packages, strings(&["ambiguous"]));
    assert!(plan.local_files.is_empty());
    assert!(plan.literal_urls.is_empty());
}

#[test]
fn resolved_package_without_matching_manifest_is_dropped() {
    let m = Match::new(false, strings(&["foo"])).unwrap();
    let infos = vec![TargetInfo {
        target: "quux".to_string(),
        package: Some(pkg("quux", &["usr/bin/quux"])),
        file_exists: false,
    }];
    let plan = resolve_targets(&infos, &m).unwrap();
    assert!(plan.packages.is_empty());
    assert!(plan.local_files.is_empty());
    assert!(plan.literal_urls.is_empty());
}

#[test]
fn url_and_file_classification() {
    let m = Match::new(false, strings(&["foo"])).unwrap();
    let infos = vec![
        TargetInfo {
            target: "https://mirror/pkg.tar".to_string(),
            package: None,
            file_exists: false,
        },
        TargetInfo { target: "./local.pkg.tar".to_string(), package: None, file_exists: true },
    ];
    let plan = resolve_targets(&infos, &m).unwrap();
    assert_eq!(plan.literal_urls, strings(&["https://mirror/pkg.tar"]));
    assert_eq!(plan.local_files, strings(&["./local.pkg.tar"]));
    let urls = plan.fetch_urls(&strings(&["https://mirror/from-pkg.tar"]));
    assert_eq!(urls, strings(&["https://mirror/pkg.tar", "https://mirror/from-pkg.tar"]));
    let paths = plan.final_paths(&strings(&["/cache/a.tar", "/cache/b.tar"]));
    assert_eq!(paths, strings(&["./local.pkg.tar", "/cache/a.tar", "/cache/b.tar"]));
}

#[test]
fn unresolvable_target_aborts_resolution() {
    let m = Match::new(false, strings(&["foo"])).unwrap();
    let infos = vec![
        TargetInfo { target: "fine".to_string(), package: None, file_exists: true },
        TargetInfo { target: "nonsense".to_string(), package: None, file_exists: false },
    ];
    let r = resolve_targets(&infos, &m);
    match r {
        Err(ResolveError::UnresolvableTarget(t)) => assert_eq!(t, "nonsense"),
        _ => panic!("expected an unresolvable-target failure"),
    }
}

#[test]
fn manifest_filter() {
    let m = Match::new(false, strings(&["foo"])).unwrap();
    assert!(want_pkg(&m, &strings(&["usr/bin/foo", "usr/share/doc"])));
    assert!(!want_pkg(&m, &strings(&["usr/bin/bar"])));
}

#[test]
fn whole_database_filter_keeps_matching_packages() {
    let m = Match::new(false, strings(&["foo"])).unwrap();
    let pkgs = vec![
        pkg("with-foo", &["usr/bin/foo"]),
        pkg("without", &["usr/bin/bar"]),
        pkg("also-foo", &["opt/foo"]),
    ];
    let names = filter_packages(&pkgs, &m);
    assert_eq!(names, strings(&["with-foo", "also-foo"]));
}

#[test]
fn end_to_end_package_target_found_and_missing() {
    let files = strings(&["usr/bin/foo"]);
    let m = Match::new(false, files).unwrap();
    let infos = vec![TargetInfo {
        target: "foo".to_string(),
        package: Some(pkg("foo", &["usr/bin/foo", "usr/share/licenses/foo"])),
        file_exists: false,
    }];
    let plan = resolve_targets(&infos, &m).unwrap();
    assert_eq!(plan.packages, strings(&["foo"]));
    let urls = plan.fetch_urls(&strings(&["https://mirror/foo.pkg.tar"]));
    let paths = plan.final_paths(&strings(&["/cache/foo.pkg.tar"]));
    assert_eq!(paths, strings(&["/cache/foo.pkg.tar"]));
    assert_eq!(urls.len(), 1);

    let events = vec![
        ArchiveEvent::Start("usr/bin/foo".to_string()),
        ArchiveEvent::Data(b"#!/bin/sh\n".to_vec()),
        ArchiveEvent::End,
    ];
    let r = scan_archive(&events, &m, false, false).unwrap();
    assert_eq!(r.found, 1);
    assert_eq!(r.status, 0);
    assert!(matches!(&r.output[0], OutputItem::Bytes(b) if b == b"#!/bin/sh\n"));
    assert_eq!(aggregate_status(&vec![r.status]), 0);

    let events = vec![ArchiveEvent::Start("usr/bin/other".to_string()), ArchiveEvent::End];
    let r = scan_archive(&events, &m, false, false).unwrap();
    assert_eq!(r.found, 0);
    assert_eq!(r.status, 1);
    assert!(r.output.is_empty());
    assert_eq!(aggregate_status(&vec![r.status]), 1);
}

#[test]
fn whole_database_with_no_matching_package_is_vacuous_success() {
    let m = Match::new(false, strings(&["missingfile"])).unwrap();
    let pkgs = vec![pkg("one", &["usr/bin/one"]), pkg("two", &["usr/bin/two"])];
    let names = filter_packages(&pkgs, &m);
    assert!(names.is_empty());
    let statuses: Vec<i32> = Vec::new();
    assert_eq!(aggregate_status(&statuses), 0);
}

#[test]
fn aggregate_is_zero_only_when_every_archive_succeeded() {
    assert_eq!(aggregate_status(&vec![0, 0, 0]), 0);
    assert_eq!(aggregate_status(&vec![0, 1, 0]), 1);
    assert_eq!(aggregate_status(&vec![1]), 1);
}
