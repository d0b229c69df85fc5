use certbot_api::scripts::fix_cert_symlinks::{
    archive_dir, archive_file, backup_candidate, backup_dir, cert_kind, cert_version, file_name,
    latest_archive_version, link_target, live_dir, live_path, DirListing, LiveEntry, RepairAction,
    RepairEvent, SymlinkRepair, CERT_FILE_COUNT,
};

fn names(v: &[&str]) -> DirListing {
    DirListing::Entries(v.iter().map(|x| x.to_string()).collect())
}

fn step(r: &mut SymlinkRepair, e: RepairEvent) -> RepairAction {
    assert!(r.accepts(&e));
    r.step(e)
}

fn ok() -> RepairEvent {
    RepairEvent::Done(Ok(()))
}

fn expect_path(a: RepairAction, which: &str, path: &str) {
    let got = match (which, a) {
        ("list", RepairAction::ListArchive(p)) => p,
        ("check", RepairAction::CheckArchiveFile(p)) => p,
        ("mkdir", RepairAction::CreateDir(p)) => p,
        ("inspect", RepairAction::InspectLive(p)) => p,
        ("remove", RepairAction::RemoveFile(p)) => p,
        ("probe", RepairAction::ProbeBackup(p)) => p,
        _ => panic!("unexpected action for {}", which),
    };
    assert_eq!(got, path);
}

fn expect_link(a: RepairAction, target: &str, link: &str) {
    match a {
        RepairAction::CreateSymlink { target: t, link: l } => {
            assert_eq!(t, target);
            assert_eq!(l, link);
        }
        _ => panic!("expected CreateSymlink"),
    }
}

fn expect_error(a: RepairAction) -> String {
    match a {
        RepairAction::Finish(Err(m)) => m,
        _ => panic!("expected a failed finish"),
    }
}

#[test]
fn lineage_paths() {
    assert_eq!(archive_dir("a.com"), "/etc/letsencrypt/archive/a.com");
    assert_eq!(live_dir("a.com"), "/etc/letsencrypt/live/a.com");
    assert_eq!(backup_dir("a.com"), "/etc/letsencrypt/broken-live-backup/a.com");
    assert_eq!(CERT_FILE_COUNT, 4);
    let kinds: Vec<&str> = (0..CERT_FILE_COUNT).map(cert_kind).collect();
    assert_eq!(kinds, vec!["cert", "chain", "fullchain", "privkey"]);
    assert_eq!(archive_file("a.com", 2, 7), "/etc/letsencrypt/archive/a.com/fullchain7.pem");
    assert_eq!(file_name(3), "privkey.pem");
    assert_eq!(live_path("a.com", 1), "/etc/letsencrypt/live/a.com/chain.pem");
    assert_eq!(link_target("a.com", 0, 12), "../../archive/a.com/cert12.pem");
    assert_eq!(backup_candidate("a.com", 0, 0), "/etc/letsencrypt/broken-live-backup/a.com/cert.pem");
    assert_eq!(backup_candidate("a.com", 0, 3), "/etc/letsencrypt/broken-live-backup/a.com/cert.pem.3");
}

#[test]
fn cert_versions() {
    assert_eq!(cert_version("cert12.pem"), Some(12));
    assert_eq!(cert_version("cert0.pem"), Some(0));
    assert_eq!(cert_version("cert+3.pem"), Some(3));
    assert_eq!(cert_version("cert4294967295.pem"), Some(4294967295));
    assert_eq!(cert_version("cert4294967296.pem"), None);
    assert_eq!(cert_version("cert.pem"), None);
    assert_eq!(cert_version("cert-1.pem"), None);
    assert_eq!(cert_version("chain3.pem"), None);
    assert_eq!(cert_version("cert3.pem.bak"), None);
    assert_eq!(cert_version("cert1a.pem"), None);
}

#[test]
fn latest_version_of_archive() {
    let dir = "/etc/letsencrypt/archive/a.com";
    assert_eq!(
        latest_archive_version(dir, &names(&["cert1.pem", "chain9.pem", "cert10.pem", "cert2.pem", "README"])),
        Ok(10)
    );
    assert_eq!(
        latest_archive_version(dir, &names(&["chain1.pem", "privkey1.pem"])),
        Err("No certN.pem files found in /etc/letsencrypt/archive/a.com. Nothing to restore symlinks from — re-issue the certificate.".to_string())
    );
    assert_eq!(
        latest_archive_version(dir, &DirListing::NotFound),
        Err("Archive directory not found: /etc/letsencrypt/archive/a.com. Nothing to restore symlinks from — re-issue the certificate.".to_string())
    );
    assert_eq!(
        latest_archive_version(dir, &DirListing::Failed("denied".to_string())),
        Err("Failed to read directory /etc/letsencrypt/archive/a.com: denied".to_string())
    );
    assert_eq!(
        latest_archive_version(dir, &DirListing::EntryFailed("io".to_string())),
        Err("Failed to read directory entry: io".to_string())
    );
}

#[test]
fn repair_full_run() {
    let (mut r, a) = SymlinkRepair::start(" *.example.com ");
    expect_path(a, "list", "/etc/letsencrypt/archive/example.com");
    let a = step(&mut r, RepairEvent::Listed(names(&["cert1.pem", "cert2.pem", "chain2.pem"])));
    expect_path(a, "check", "/etc/letsencrypt/archive/example.com/cert2.pem");
    let a = step(&mut r, RepairEvent::Exists(true));
    expect_path(a, "check", "/etc/letsencrypt/archive/example.com/chain2.pem");
    let a = step(&mut r, RepairEvent::Exists(true));
    expect_path(a, "check", "/etc/letsencrypt/archive/example.com/fullchain2.pem");
    let a = step(&mut r, RepairEvent::Exists(true));
    expect_path(a, "check", "/etc/letsencrypt/archive/example.com/privkey2.pem");
    let a = step(&mut r, RepairEvent::Exists(true));
    expect_path(a, "mkdir", "/etc/letsencrypt/live/example.com");
    let a = step(&mut r, ok());
    expect_path(a, "inspect", "/etc/letsencrypt/live/example.com/cert.pem");

    // cert.pem already links to the right place
    let a = step(
        &mut r,
        RepairEvent::Inspected(LiveEntry::Symlink(Ok("../../archive/example.com/cert2.pem".to_string()))),
    );
    expect_path(a, "inspect", "/etc/letsencrypt/live/example.com/chain.pem");

    // chain.pem is a regular file; the first backup name is taken
    let a = step(&mut r, RepairEvent::Inspected(LiveEntry::Regular));
    expect_path(a, "mkdir", "/etc/letsencrypt/broken-live-backup/example.com");
    let a = step(&mut r, ok());
    expect_path(a, "probe", "/etc/letsencrypt/broken-live-backup/example.com/chain.pem");
    let a = step(&mut r, RepairEvent::Exists(true));
    expect_path(a, "probe", "/etc/letsencrypt/broken-live-backup/example.com/chain.pem.1");
    let a = step(&mut r, RepairEvent::Exists(false));
    match a {
        RepairAction::MoveFile { from, to } => {
            assert_eq!(from, "/etc/letsencrypt/live/example.com/chain.pem");
            assert_eq!(to, "/etc/letsencrypt/broken-live-backup/example.com/chain.pem.1");
        }
        _ => panic!("expected MoveFile"),
    }
    let a = step(&mut r, ok());
    expect_link(a, "../../archive/example.com/chain2.pem", "/etc/letsencrypt/live/example.com/chain.pem");
    let a = step(&mut r, ok());
    expect_path(a, "inspect", "/etc/letsencrypt/live/example.com/fullchain.pem");

    // fullchain.pem is missing
    let a = step(&mut r, RepairEvent::Inspected(LiveEntry::Absent));
    expect_link(a, "../../archive/example.com/fullchain2.pem", "/etc/letsencrypt/live/example.com/fullchain.pem");
    let a = step(&mut r, ok());
    expect_path(a, "inspect", "/etc/letsencrypt/live/example.com/privkey.pem");

    // privkey.pem links to an old version
    let a = step(
        &mut r,
        RepairEvent::Inspected(LiveEntry::Symlink(Ok("../../archive/example.com/privkey1.pem".to_string()))),
    );
    expect_path(a, "remove", "/etc/letsencrypt/live/example.com/privkey.pem");
    let a = step(&mut r, ok());
    expect_link(a, "../../archive/example.com/privkey2.pem", "/etc/letsencrypt/live/example.com/privkey.pem");
    let a = step(&mut r, ok());

    let result = match a {
        RepairAction::Finish(Ok(res)) => res,
        _ => panic!("expected a successful finish"),
    };
    assert_eq!(result.domain, "example.com");
    assert_eq!(result.archive_version, 2);
    let files: Vec<(String, String, Option<String>)> = result
        .files
        .iter()
        .map(|f| (f.file.clone(), f.action.clone(), f.backup_path.clone()))
        .collect();
    assert_eq!(
        files,
        vec![
            ("cert.pem".to_string(), "already_valid".to_string(), None),
            (
                "chain.pem".to_string(),
                "backed_up_and_linked".to_string(),
                Some("/etc/letsencrypt/broken-live-backup/example.com/chain.pem.1".to_string())
            ),
            ("fullchain.pem".to_string(), "created".to_string(), None),
            ("privkey.pem".to_string(), "relinked".to_string(), None),
        ]
    );
    // a finished repair waits for nothing
    assert!(!r.accepts(&ok()));
}

#[test]
fn repair_refuses_incomplete_archive() {
    let (mut r, _) = SymlinkRepair::start("a.com");
    step(&mut r, RepairEvent::Listed(names(&["cert3.pem"])));
    step(&mut r, RepairEvent::Exists(true));
    let a = step(&mut r, RepairEvent::Exists(false));
    assert_eq!(
        expect_error(a),
        "Archive file not found: /etc/letsencrypt/archive/a.com/chain3.pem. Archive is incomplete — re-issue the certificate instead of fixing symlinks."
    );
}

#[test]
fn repair_missing_archive_dir() {
    let (mut r, _) = SymlinkRepair::start("a.com");
    let a = step(&mut r, RepairEvent::Listed(DirListing::NotFound));
    assert_eq!(
        expect_error(a),
        "Archive directory not found: /etc/letsencrypt/archive/a.com. Nothing to restore symlinks from — re-issue the certificate."
    );
}

fn to_inspecting(domain: &str) -> SymlinkRepair {
    let (mut r, _) = SymlinkRepair::start(domain);
    step(&mut r, RepairEvent::Listed(names(&["cert1.pem"])));
    for _ in 0..4 {
        step(&mut r, RepairEvent::Exists(true));
    }
    step(&mut r, ok());
    r
}

#[test]
fn repair_failure_messages() {
    let (mut r, _) = SymlinkRepair::start("a.com");
    step(&mut r, RepairEvent::Listed(names(&["cert1.pem"])));
    for _ in 0..4 {
        step(&mut r, RepairEvent::Exists(true));
    }
    let a = step(&mut r, RepairEvent::Done(Err("ro fs".to_string())));
    assert_eq!(expect_error(a), "Failed to create live directory /etc/letsencrypt/live/a.com: ro fs");

    let mut r = to_inspecting("a.com");
    let a = step(&mut r, RepairEvent::Inspected(LiveEntry::Symlink(Err("bad".to_string()))));
    assert_eq!(expect_error(a), "Failed to read symlink /etc/letsencrypt/live/a.com/cert.pem: bad");

    let mut r = to_inspecting("a.com");
    step(&mut r, RepairEvent::Inspected(LiveEntry::Symlink(Ok("elsewhere".to_string()))));
    let a = step(&mut r, RepairEvent::Done(Err("busy".to_string())));
    assert_eq!(expect_error(a), "Failed to remove /etc/letsencrypt/live/a.com/cert.pem: busy");

    let mut r = to_inspecting("a.com");
    step(&mut r, RepairEvent::Inspected(LiveEntry::Regular));
    let a = step(&mut r, RepairEvent::Done(Err("denied".to_string())));
    assert_eq!(
        expect_error(a),
        "Failed to create backup directory /etc/letsencrypt/broken-live-backup/a.com: denied"
    );

    let mut r = to_inspecting("a.com");
    step(&mut r, RepairEvent::Inspected(LiveEntry::Regular));
    step(&mut r, ok());
    step(&mut r, RepairEvent::Exists(false));
    let a = step(&mut r, RepairEvent::Done(Err("xdev".to_string())));
    assert_eq!(
        expect_error(a),
        "Failed to move /etc/letsencrypt/live/a.com/cert.pem to /etc/letsencrypt/broken-live-backup/a.com/cert.pem: xdev"
    );

    let mut r = to_inspecting("a.com");
    step(&mut r, RepairEvent::Inspected(LiveEntry::Absent));
    let a = step(&mut r, RepairEvent::Done(Err("exists".to_string())));
    assert_eq!(
        expect_error(a),
        "Failed to create symlink /etc/letsencrypt/live/a.com/cert.pem -> ../../archive/a.com/cert1.pem: exists"
    );
}

#[test]
fn repair_accepts_only_the_awaited_answer() {
    let (r, _) = SymlinkRepair::start("a.com");
    assert!(r.accepts(&RepairEvent::Listed(DirListing::NotFound)));
    assert!(!r.accepts(&RepairEvent::Exists(true)));
    assert!(!r.accepts(&ok()));
}

#[test]
fn repair_equal_paths_count_as_valid() {
    // a doubled separator names the same path
    let mut r = to_inspecting("a.com");
    let a = step(
        &mut r,
        RepairEvent::Inspected(LiveEntry::Symlink(Ok("../../archive//a.com/cert1.pem".to_string()))),
    );
    expect_path(a, "inspect", "/etc/letsencrypt/live/a.com/chain.pem");
}

#[test]
fn repair_of_healthy_dir_changes_nothing() {
    let mut r = to_inspecting("a.com");
    for k in 0..CERT_FILE_COUNT {
        let target = link_target("a.com", k, 1);
        let a = step(&mut r, RepairEvent::Inspected(LiveEntry::Symlink(Ok(target))));
        if k + 1 < CERT_FILE_COUNT {
            expect_path(a, "inspect", &live_path("a.com", k + 1));
        } else {
            match a {
                RepairAction::Finish(Ok(res)) => {
                    assert_eq!(res.archive_version, 1);
                    assert!(res.files.iter().all(|f| f.action == "already_valid" && f.backup_path.is_none()));
                    assert_eq!(res.files.len(), 4);
                }
                _ => panic!("expected a successful finish"),
            }
        }
    }
}

#[test]
fn repair_same_text_link_is_valid() {
    let mut r = to_inspecting("a.com");
    let a = step(
        &mut r,
        RepairEvent::Inspected(LiveEntry::Symlink(Ok("../../archive/a.com/cert1.pem".to_string()))),
    );
    expect_path(a, "inspect", "/etc/letsencrypt/live/a.com/chain.pem");
}
