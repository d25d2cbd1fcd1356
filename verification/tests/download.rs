use codeg::error::{AppCommandError, AppErrorCode};
use codeg::workspace::path::{read_posix_path, PathComponent, PathReading};
use codeg::workspace::download::{
    archive_built, archive_created, download_workspace_dir, download_workspace_file, file_measured,
    root_found, slot_acquired, source_ready, target_found, target_resolved, ArchiveOutcome,
    DownloadKind, DownloadStep, DownloadTarget, DownloadWorkspaceParams, EntryState,
};

fn params(path: &str) -> DownloadWorkspaceParams {
    DownloadWorkspaceParams { root_path: "/home/ws".to_string(), path: path.to_string() }
}

fn begin(step: DownloadStep, is_dir: bool) -> DownloadStep {
    match step {
        DownloadStep::CheckRoot(kind, p) => {
            let root = read_posix_path(&p.root_path);
            let rel = read_posix_path(&p.path);
            root_found(kind, p, is_dir, root, rel)
        }
        _ => panic!("looks at the root first"),
    }
}

fn file(path: &str) -> DownloadTarget {
    match begin(download_workspace_file(params(path)), true) {
        DownloadStep::Inspect(t) => t,
        _ => panic!("{path:?} is looked at"),
    }
}

fn dir(path: &str) -> DownloadTarget {
    match begin(download_workspace_dir(params(path)), true) {
        DownloadStep::Inspect(t) | DownloadStep::AcquireSlot(t) => t,
        _ => panic!("{path:?} is looked at"),
    }
}

/// The paths that say where something is.
fn place(t: &DownloadTarget) -> (&str, Option<&str>) {
    (&t.location.root, t.location.rel.as_deref())
}

fn refusal(step: DownloadStep) -> (AppErrorCode, String, Option<String>) {
    match step {
        DownloadStep::Fail(e) => (e.code, e.message, e.detail),
        _ => panic!("fails"),
    }
}

fn plain(code: AppErrorCode, message: &str) -> (AppErrorCode, String, Option<String>) {
    (code, message.to_string(), None)
}

fn reason<T>() -> Result<T, String> {
    Err("why".to_string())
}

#[test]
fn a_file_is_sent_under_its_name() {
    let t = file("docs/Q3 ü.pdf");
    assert_eq!(place(&t), ("/home/ws", Some("docs/Q3 ü.pdf")));
    assert_eq!(t.name, "Q3 ü.pdf");
    let t = match target_found(t, EntryState::File) {
        DownloadStep::Resolve(t) => t,
        _ => panic!("is resolved"),
    };
    let t = match target_resolved(t, Ok(read_posix_path("/srv/ws")), Ok(read_posix_path("/srv/ws/docs/Q3 ü.pdf"))) {
        DownloadStep::Measure(t) => t,
        _ => panic!("is measured"),
    };
    let (t, size) = match file_measured(t, Ok(4096)) {
        DownloadStep::OpenFile(t, size) => (t, size),
        _ => panic!("is opened"),
    };
    match source_ready(t, size, Ok(())) {
        DownloadStep::Respond(head) => {
            assert_eq!(head.content_type, "application/octet-stream");
            assert_eq!(head.content_length.unwrap(), b"4096");
            assert_eq!(
                head.content_disposition.unwrap(),
                b"attachment; filename=\"Q3 _.pdf\"; filename*=UTF-8''Q3%20%C3%BC.pdf"
            );
        }
        _ => panic!("is sent"),
    }
}

#[test]
fn a_directory_is_sent_as_an_archive() {
    let t = dir("src/");
    assert_eq!((place(&t), t.name.as_str()), (("/home/ws", Some("src/")), "src.zip"));
    let t = match target_found(t, EntryState::Directory) {
        DownloadStep::Resolve(t) => t,
        _ => panic!("is resolved"),
    };
    let t = match target_resolved(t, Ok(read_posix_path("/srv/ws")), Ok(read_posix_path("/srv/ws/src"))) {
        DownloadStep::AcquireSlot(t) => t,
        _ => panic!("waits for a slot"),
    };
    let t = match slot_acquired(t, Ok(())) {
        DownloadStep::CreateArchive(t) => t,
        _ => panic!("makes a temporary file"),
    };
    let t = match archive_created(t, Ok(())) {
        DownloadStep::BuildArchive(t) => t,
        _ => panic!("packs the directory"),
    };
    let (t, size) = match archive_built(t, ArchiveOutcome::Built(22)) {
        DownloadStep::OpenArchive(t, size) => (t, size),
        _ => panic!("opens the archive"),
    };
    match source_ready(t, size, Ok(())) {
        DownloadStep::Respond(head) => {
            assert_eq!(head.content_type, "application/zip");
            assert_eq!(head.content_length.unwrap(), b"22");
            assert_eq!(
                head.content_disposition.unwrap(),
                b"attachment; filename=\"src.zip\"; filename*=UTF-8''src.zip"
            );
        }
        _ => panic!("is sent"),
    }
}

#[test]
fn an_empty_path_is_the_whole_workspace() {
    match begin(download_workspace_dir(params("")), true) {
        DownloadStep::AcquireSlot(t) => {
            assert_eq!((place(&t), t.name.as_str()), (("/home/ws", None), "ws.zip"));
        }
        _ => panic!("the workspace needs no check"),
    }
    let top = DownloadWorkspaceParams { root_path: "/".to_string(), path: String::new() };
    match begin(download_workspace_dir(top), true) {
        DownloadStep::AcquireSlot(t) => assert_eq!(t.name, "workspace.zip"),
        _ => panic!("the workspace needs no check"),
    }
    assert_eq!(place(&file("")), ("/home/ws", Some("")));
}

#[test]
fn paths_without_a_name_get_one() {
    let root = |path: &str| DownloadWorkspaceParams { root_path: "/".to_string(), path: path.to_string() };
    match begin(download_workspace_file(root(".")), true) {
        DownloadStep::Inspect(t) => assert_eq!(t.name, "download"),
        _ => panic!("is looked at"),
    }
    match begin(download_workspace_dir(root(".")), true) {
        DownloadStep::Inspect(t) => assert_eq!(t.name, "folder.zip"),
        _ => panic!("is looked at"),
    }
}

#[test]
fn downloads_are_refused_for_a_reason() {
    let none = plain(AppErrorCode::NotFound, "Workspace folder does not exist");
    assert_eq!(refusal(begin(download_workspace_file(params("a")), false)), none);
    assert_eq!(refusal(begin(download_workspace_dir(params("")), false)), none);
    for path in ["../x", "a/../../x"] {
        let up = plain(AppErrorCode::InvalidInput, "Path cannot contain '..'");
        assert_eq!(refusal(begin(download_workspace_file(params(path)), true)), up);
        assert_eq!(refusal(begin(download_workspace_dir(params(path)), true)), up);
    }
    let absolute = plain(AppErrorCode::InvalidInput, "Path must be relative");
    assert_eq!(refusal(begin(download_workspace_file(params("/etc/passwd")), true)), absolute);
    assert_eq!(
        refusal(target_found(file("a"), EntryState::Missing)),
        plain(AppErrorCode::NotFound, "File does not exist")
    );
    for state in [EntryState::Directory, EntryState::Other] {
        let wrong = plain(AppErrorCode::InvalidInput, "Path is not a file");
        assert_eq!(refusal(target_found(file("a"), state)), wrong);
    }
    assert_eq!(
        refusal(target_found(dir("a"), EntryState::Missing)),
        plain(AppErrorCode::NotFound, "Directory does not exist")
    );
    for state in [EntryState::File, EntryState::Other] {
        let wrong = plain(AppErrorCode::InvalidInput, "Path is not a directory");
        assert_eq!(refusal(target_found(dir("a"), state)), wrong);
    }
}

#[test]
fn nothing_outside_the_workspace_is_sent() {
    let escaped = plain(AppErrorCode::InvalidInput, "Resolved path escapes workspace root");
    for t in [file("a"), dir("a")] {
        let step = target_resolved(t, Ok(read_posix_path("/srv/ws")), Ok(read_posix_path("/etc/passwd")));
        assert_eq!(refusal(step), escaped);
    }
    let os = plain(AppErrorCode::Os, "why");
    assert_eq!(refusal(target_resolved(file("a"), reason(), Ok(read_posix_path("/srv")))), os);
    assert_eq!(refusal(target_resolved(file("a"), Ok(read_posix_path("/srv")), reason())), os);
}

#[test]
fn failed_downloads_carry_their_reasons() {
    let os = plain(AppErrorCode::Os, "why");
    assert_eq!(refusal(file_measured(file("a"), reason())), os);
    assert_eq!(refusal(source_ready(file("a"), 1, reason())), os);
    let io = |m: &str| (AppErrorCode::IoError, m.to_string(), Some("why".to_string()));
    assert_eq!(refusal(slot_acquired(dir("a"), reason())), io("Zip concurrency gate closed"));
    assert_eq!(refusal(archive_created(dir("a"), reason())), io("Failed to create zip temp file"));
    assert_eq!(
        refusal(archive_built(dir("a"), ArchiveOutcome::Lost("why".to_string()))),
        io("Zip task failed")
    );
    let e = AppCommandError::invalid_input("too big");
    assert_eq!(
        refusal(archive_built(dir("a"), ArchiveOutcome::Failed(e))),
        plain(AppErrorCode::InvalidInput, "too big")
    );
    assert_eq!(file("a").kind, DownloadKind::File);
    assert_eq!(dir("a").kind, DownloadKind::Directory);
}

#[test]
fn the_host_decides_how_a_path_is_read() {
    let drive = || PathComponent::Prefix("C:".to_string());
    let name = |s: &str| PathComponent::Normal(s.to_string());
    let root = || PathReading { is_absolute: true, components: vec![drive(), PathComponent::RootDir] };
    let ask = |path: &str, components: Vec<PathComponent>| {
        let p = DownloadWorkspaceParams { root_path: "C:\\".to_string(), path: path.to_string() };
        root_found(DownloadKind::File, p, true, root(), PathReading { is_absolute: false, components })
    };
    assert_eq!(
        refusal(ask("a\\..\\b", vec![name("a"), PathComponent::ParentDir, name("b")])).1,
        "Path cannot contain '..'"
    );
    assert_eq!(refusal(ask("D:x", vec![drive(), name("x")])).1, "Invalid path component");
    match ask("a\\b", vec![name("a"), name("b")]) {
        DownloadStep::Inspect(t) => {
            assert_eq!((place(&t), t.name.as_str()), (("C:\\", Some("a\\b")), "b"));
        }
        _ => panic!("is looked at"),
    }
    let whole = DownloadWorkspaceParams { root_path: "C:\\".to_string(), path: String::new() };
    let rel = PathReading { is_absolute: false, components: vec![] };
    match root_found(DownloadKind::Directory, whole, true, root(), rel) {
        DownloadStep::AcquireSlot(t) => assert_eq!(t.name, "workspace.zip"),
        _ => panic!("the workspace needs no check"),
    }
}
