use std::collections::{BTreeMap, BTreeSet, VecDeque};

use codeg::error::{AppCommandError, AppErrorCode, TooLarge};
use codeg::workspace::chain::Probe;
use codeg::workspace::upload::{
    chunk_read, chunk_written, dirs_created, field_arrived, field_drained, final_checked,
    link_probed, file_removed, parent_canonicalized, root_canonicalized, root_checked, staging_flushed,
    staging_linked, staging_name, staging_opened, staging_removed, staging_renamed,
    target_inspected, target_verified, text_read, upload_workspace_file,
};
use codeg::workspace::path::{read_posix_path, EntryPath, PathReading};
use codeg::workspace::upload_step::{
    CommitMethod, FieldHead, LinkOutcome, MissingFile, TargetState, TextField, UploadStep,
    UploadWorkspaceFileResult,
};

/// A field of a request: its name, its file name and its chunks.
struct Field {
    name: Option<&'static str>,
    file_name: Option<&'static str>,
    chunks: Vec<&'static str>,
}

fn text_field(name: &'static str, value: &'static str) -> Field {
    Field { name: Some(name), file_name: None, chunks: vec![value] }
}

fn file_field(file_name: &'static str, chunks: &[&'static str]) -> Field {
    Field { name: Some("file"), file_name: Some(file_name), chunks: chunks.to_vec() }
}

/// A file system with a workspace at `/ws`.
struct Disk {
    files: BTreeMap<String, String>,
    dirs: BTreeSet<String>,
    links: BTreeMap<String, String>,
    /// Whether hard links work.
    can_link: bool,
    /// Whether renaming works.
    can_rename: bool,
    /// Whether a file vanishes when it is put in place.
    loses_files: bool,
    /// The staging files that were opened.
    staged: Vec<String>,
}

fn disk() -> Disk {
    Disk {
        files: BTreeMap::new(),
        dirs: BTreeSet::from(["/ws".to_string(), "/ws/docs".to_string()]),
        links: BTreeMap::new(),
        can_link: true,
        can_rename: true,
        loses_files: false,
        staged: Vec::new(),
    }
}

/// A place as a path of this file system.
fn text(place: &EntryPath) -> String {
    let mut out = place.base.clone();
    for name in &place.names {
        out = format!("{out}/{name}");
    }
    out
}

impl Disk {
    fn resolve(&self, path: &str) -> Result<PathReading, String> {
        let mut out = String::new();
        for piece in path.split('/').filter(|p| !p.is_empty()) {
            out = format!("{out}/{piece}");
            if let Some(to) = self.links.get(&out) {
                out = to.clone();
            }
        }
        if self.dirs.contains(&out) || self.files.contains_key(&out) || out == "/outside" {
            Ok(read_posix_path(&out))
        } else {
            Err(format!("no such entry: {out}"))
        }
    }

    fn has_entry(&self, path: &str) -> bool {
        self.files.contains_key(path) || self.dirs.contains(path)
    }

    /// Runs a whole upload.
    fn upload(&mut self, max_bytes: u64, fields: Vec<Field>) -> Result<UploadWorkspaceFileResult, AppCommandError> {
        let mut fields: VecDeque<Field> = fields.into();
        let mut current: VecDeque<&'static str> = VecDeque::new();
        let mut step = upload_workspace_file(max_bytes);
        loop {
            step = match step {
                UploadStep::NextField(form) => match fields.pop_front() {
                    None => field_arrived(form, Ok(None)),
                    Some(f) => {
                        current = f.chunks.into();
                        field_arrived(
                            form,
                            Ok(Some(FieldHead {
                                name: f.name.map(|n| n.to_string()),
                                file_name: f.file_name.map(|n| n.to_string()),
                            })),
                        )
                    }
                },
                UploadStep::ReadText(form, field) => {
                    let text: String = current.drain(..).collect();
                    text_read(form, field, Ok(text))
                }
                UploadStep::Drain(form) => field_drained(form),
                UploadStep::CheckRoot(req) => {
                    let is_dir = self.dirs.contains(&req.root);
                    let reading = read_posix_path(&req.root);
                    root_checked(req, is_dir, reading)
                }
                UploadStep::CanonicalizeRoot(req, reading) => {
                    let root = self.resolve(&req.root);
                    root_canonicalized(req, reading, root)
                }
                UploadStep::ProbeLink(place, walk) => {
                    let current = text(&walk.current);
                    let answer = if self.links.contains_key(&current) {
                        Probe::Link
                    } else if self.has_entry(&current) {
                        Probe::Other
                    } else {
                        Probe::Missing
                    };
                    link_probed(place, walk, answer)
                }
                UploadStep::CreateDirs(place) => {
                    let mut dir = String::new();
                    for piece in text(&place.parent).split('/').filter(|p| !p.is_empty()) {
                        dir = format!("{dir}/{piece}");
                        self.dirs.insert(dir.clone());
                    }
                    dirs_created(place, Ok(()))
                }
                UploadStep::CanonicalizeParent(place) => {
                    let parent = self.resolve(&text(&place.parent));
                    parent_canonicalized(place, parent)
                }
                UploadStep::InspectTarget(place) => {
                    let state = if self.dirs.contains(&text(&place.target)) {
                        TargetState::Directory
                    } else if self.files.contains_key(&text(&place.target)) {
                        TargetState::Present
                    } else {
                        TargetState::Absent
                    };
                    target_inspected(place, state)
                }
                UploadStep::OpenStaging(staged) => {
                    self.staged.push(text(&staged.staging));
                    self.files.insert(text(&staged.staging), String::new());
                    staging_opened(staged, Ok(()))
                }
                UploadStep::ReadChunk(staged) => {
                    let next = current.pop_front();
                    chunk_read(staged, Ok(next.map(|c| c.as_bytes().to_vec())))
                }
                UploadStep::WriteChunk(staged, total, bytes) => {
                    self.files.get_mut(&text(&staged.staging)).unwrap().push_str(&String::from_utf8(bytes).unwrap());
                    chunk_written(staged, total, Ok(()))
                }
                UploadStep::Flush(staged) => staging_flushed(staged, Ok(())),
                UploadStep::HardLink(staged) => {
                    let outcome = if !self.can_link {
                        LinkOutcome::Failed("links are off".to_string())
                    } else if self.has_entry(&text(&staged.place.target)) {
                        LinkOutcome::AlreadyExists
                    } else {
                        let body = self.files[&text(&staged.staging)].clone();
                        self.files.insert(text(&staged.place.target), body);
                        LinkOutcome::Linked
                    };
                    staging_linked(staged, outcome)
                }
                UploadStep::Rename(staged, reason) => {
                    let outcome = if self.can_rename {
                        let body = self.files.remove(&text(&staged.staging)).unwrap();
                        self.files.insert(text(&staged.place.target), body);
                        Ok(())
                    } else {
                        Err("read only".to_string())
                    };
                    staging_renamed(staged, reason, outcome)
                }
                UploadStep::RemoveStaging(staged) => {
                    self.files.remove(&text(&staged.staging));
                    staging_removed(staged)
                }
                UploadStep::VerifyTarget(staged, method) => {
                    let root = self.resolve(&staged.place.root);
                    let target = self.resolve(&text(&staged.place.target));
                    target_verified(staged, method, root, target)
                }
                UploadStep::CheckFinal(staged, method) => {
                    if self.loses_files {
                        self.files.remove(&text(&staged.place.target));
                    }
                    let present = if self.files.contains_key(&text(&staged.place.target)) {
                        Ok(())
                    } else {
                        Err(MissingFile {
                            shown: text(&staged.place.target),
                            reason: "not found".to_string(),
                        })
                    };
                    final_checked(staged, method, present)
                }
                UploadStep::DiscardStaging(staged, e) => {
                    self.files.remove(&text(&staged.staging));
                    file_removed(e)
                }
                UploadStep::RemoveFinal(staged, e) => {
                    self.files.remove(&text(&staged.place.target));
                    file_removed(e)
                }
                UploadStep::Done(result) => return Ok(result),
                UploadStep::Fail(e) => return Err(e),
            };
        }
    }
}

#[test]
fn a_file_is_stored_below_the_target_directory() {
    let mut d = disk();
    let r = d
        .upload(
            100,
            vec![
                text_field("root_path", "/ws"),
                text_field("targetPath", "docs/new/"),
                text_field("unknown", "x"),
                file_field("C:\\tmp\\a b.txt", &["hello ", "", "world"]),
            ],
        )
        .unwrap();
    assert_eq!(r.path, "docs/new/a b.txt");
    assert_eq!(r.name, "a b.txt");
    assert_eq!(r.size, 11);
    assert_eq!(d.files, BTreeMap::from([("/ws/docs/new/a b.txt".to_string(), "hello world".to_string())]));
}

#[test]
fn a_relative_path_takes_the_place_of_the_name() {
    let mut d = disk();
    let r = d
        .upload(
            100,
            vec![
                text_field("rootPath", "/nowhere"),
                text_field("rootPath", "/ws"),
                text_field("relative_path", "tree\\leaf.txt"),
                file_field("ignored", &[]),
            ],
        )
        .unwrap();
    assert_eq!((r.path.as_str(), r.name.as_str(), r.size), ("tree/leaf.txt", "leaf.txt", 0));
    assert_eq!(d.files["/ws/tree/leaf.txt"], "");
}

#[test]
fn a_file_without_a_name_is_called_file() {
    let mut d = disk();
    let unnamed = Field { name: Some("file"), file_name: None, chunks: vec!["x"] };
    let r = d.upload(1, vec![text_field("root_path", "/ws"), unnamed]).unwrap();
    assert_eq!((r.path.as_str(), r.name.as_str(), r.size), ("file", "file", 1));
}

#[test]
fn staging_files_have_random_names_beside_the_destination() {
    let mut d = disk();
    for name in ["one", "two"] {
        d.upload(9, vec![text_field("root_path", "/ws"), text_field("target_path", "docs"), file_field(name, &["x"])])
            .unwrap();
    }
    assert_eq!(d.staged.len(), 2);
    assert_ne!(d.staged[0], d.staged[1]);
    for path in &d.staged {
        let token = path
            .strip_prefix("/ws/docs/.codeg-upload-")
            .and_then(|rest| rest.strip_suffix(".part"))
            .unwrap();
        assert_eq!(token.len(), 32);
        assert!(token.chars().all(|c| matches!(c, '0'..='9' | 'a'..='f')));
        assert_eq!(token.as_bytes()[12], b'4');
        assert!(matches!(token.as_bytes()[16], b'8' | b'9' | b'a' | b'b'));
    }
    assert_eq!(staging_name("0a"), ".codeg-upload-0a.part");
}

#[test]
fn a_file_over_the_limit_leaves_nothing_behind() {
    let mut d = disk();
    let e = d
        .upload(10, vec![text_field("root_path", "/ws"), file_field("big", &["123456", "7890", "1"])])
        .unwrap_err();
    assert_eq!(e.code, AppErrorCode::IoError);
    assert_eq!(e.message, "Upload exceeds the maximum allowed size");
    assert_eq!(e.detail.as_deref(), Some("size=11 limit=10"));
    assert_eq!(e.too_large, Some(TooLarge { size: 11, limit: 10 }));
    assert!(d.files.is_empty());
    let r = d
        .upload(10, vec![text_field("root_path", "/ws"), file_field("big", &["123456", "7890"])])
        .unwrap();
    assert_eq!(r.size, 10);
}

#[test]
fn a_file_in_the_way_is_kept() {
    let mut d = disk();
    d.files.insert("/ws/a".to_string(), "old".to_string());
    let e = d.upload(9, vec![text_field("root_path", "/ws"), file_field("a", &["new"])]).unwrap_err();
    assert_eq!((e.code, e.message.as_str()), (AppErrorCode::AlreadyExists, "A file with this name already exists"));
    let e = d.upload(9, vec![text_field("root_path", "/ws"), file_field("docs", &["new"])]).unwrap_err();
    assert_eq!(
        (e.code, e.message.as_str()),
        (AppErrorCode::InvalidInput, "Refusing to overwrite an existing directory with a file")
    );
    assert_eq!(d.files, BTreeMap::from([("/ws/a".to_string(), "old".to_string())]));
}

#[test]
fn a_symlink_on_the_way_is_not_followed() {
    let mut d = disk();
    d.links.insert("/ws/link".to_string(), "/outside".to_string());
    let e = d
        .upload(
            9,
            vec![text_field("root_path", "/ws"), text_field("target_path", "link/sub"), file_field("a", &["x"])],
        )
        .unwrap_err();
    assert_eq!(e.message, "Upload path traverses a symlink; refuse to follow it");
    assert_eq!(d.dirs.len(), 2);
    assert!(d.files.is_empty());
}

#[test]
fn a_rename_stands_in_for_a_link() {
    let mut d = disk();
    d.can_link = false;
    let r = d.upload(9, vec![text_field("root_path", "/ws"), file_field("a", &["x"])]).unwrap();
    assert_eq!(r.size, 1);
    assert_eq!(d.files, BTreeMap::from([("/ws/a".to_string(), "x".to_string())]));
    d.can_rename = false;
    let e = d.upload(9, vec![text_field("root_path", "/ws"), file_field("b", &["x"])]).unwrap_err();
    assert_eq!(e.message, "Failed to commit upload");
    assert_eq!(e.detail.as_deref(), Some("hard_link_err=links are off rename_err=read only"));
    assert_eq!(d.files.len(), 1);
}

#[test]
fn a_file_that_vanishes_is_reported() {
    let mut d = disk();
    d.loses_files = true;
    let e = d.upload(9, vec![text_field("root_path", "/ws"), file_field("a", &["x"])]).unwrap_err();
    assert_eq!(e.message, "Upload appeared to succeed but the file is missing");
    assert_eq!(e.detail.as_deref(), Some("final_abs=/ws/a commit_method=hard_link err=not found"));
    d.can_link = false;
    let e = d.upload(9, vec![text_field("root_path", "/ws"), file_field("a", &["x"])]).unwrap_err();
    assert_eq!(e.detail.as_deref(), Some("final_abs=/ws/a commit_method=rename err=not found"));
}

#[test]
fn requests_out_of_order_are_refused() {
    let message = |fields: Vec<Field>| disk().upload(9, fields).unwrap_err().message;
    assert_eq!(message(vec![]), "Missing `file` field");
    assert_eq!(message(vec![text_field("root_path", "/ws")]), "Missing `file` field");
    assert_eq!(
        message(vec![file_field("a", &["x"]), text_field("root_path", "/ws")]),
        "root_path field must appear before the file field"
    );
    assert_eq!(
        message(vec![text_field("root_path", "/ws"), file_field("a", &["x"]), file_field("b", &["y"])]),
        "Multiple `file` fields are not supported per request"
    );
    assert_eq!(
        message(vec![text_field("root_path", "/none"), file_field("a", &["x"])]),
        "Workspace folder does not exist"
    );
    assert_eq!(
        message(vec![text_field("root_path", "/ws"), text_field("target_path", "../x"), file_field("a", &["x"])]),
        "Path cannot contain '..'"
    );
    let nameless = Field { name: None, file_name: None, chunks: vec!["x"] };
    assert_eq!(message(vec![nameless]), "Missing `file` field");
}

/// The state of an upload that waits for the resolved root.
fn at_root() -> codeg::workspace::upload_step::FileRequest {
    let form = match upload_workspace_file(9) {
        UploadStep::NextField(form) => form,
        _ => panic!("begins with a field"),
    };
    let form = match text_read(form, TextField::RootPath, Ok("/ws".to_string())) {
        UploadStep::NextField(form) => form,
        _ => panic!("goes on with a field"),
    };
    let head = FieldHead { name: Some("file".to_string()), file_name: Some("a".to_string()) };
    match field_arrived(form, Ok(Some(head))) {
        UploadStep::CheckRoot(req) => req,
        _ => panic!("looks at the root"),
    }
}

/// The state of an upload that waits for its directory to be created.
fn at_dirs() -> codeg::workspace::upload_step::Placement {
    match root_canonicalized(at_root(), read_posix_path("/ws"), Ok(read_posix_path("/real/ws"))) {
        UploadStep::CreateDirs(place) => place,
        _ => panic!("the root needs no walk"),
    }
}

/// The state of an upload with an open staging file.
fn at_chunks() -> codeg::workspace::upload_step::Staged {
    match target_inspected(at_dirs(), TargetState::Absent) {
        UploadStep::OpenStaging(staged) => staged,
        _ => panic!("the name is free"),
    }
}

fn failure(step: UploadStep) -> (AppErrorCode, String, Option<String>) {
    match step {
        UploadStep::Fail(e) => (e.code, e.message, e.detail),
        _ => panic!("fails"),
    }
}

/// The error that a step fails with once the staging file is gone.
fn discarded(step: UploadStep) -> (AppErrorCode, String, Option<String>) {
    match step {
        UploadStep::DiscardStaging(_, e) => failure(file_removed(e)),
        _ => panic!("discards the staging file"),
    }
}

fn io(message: &str) -> (AppErrorCode, String, Option<String>) {
    (AppErrorCode::IoError, message.to_string(), Some("why".to_string()))
}

fn os() -> (AppErrorCode, String, Option<String>) {
    (AppErrorCode::Os, "why".to_string(), None)
}

fn why<T>() -> Result<T, String> {
    Err("why".to_string())
}

#[test]
fn failures_of_an_upload_carry_their_reasons() {
    let form = || at_root().form;
    assert_eq!(failure(field_arrived(form(), why())), io("Invalid multipart upload"));
    assert_eq!(failure(text_read(form(), TextField::RootPath, why())), io("Failed to read root_path field"));
    assert_eq!(failure(text_read(form(), TextField::TargetPath, why())), io("Failed to read target_path field"));
    assert_eq!(failure(text_read(form(), TextField::RelativePath, why())), io("Failed to read relative_path field"));
    assert_eq!(failure(root_canonicalized(at_root(), read_posix_path("/ws"), why())), os());
    assert_eq!(failure(dirs_created(at_dirs(), why())), io("Failed to create upload directory"));
    assert_eq!(failure(parent_canonicalized(at_dirs(), why())), os());
    assert_eq!(failure(staging_opened(at_chunks(), why())), io("Failed to create staging file"));
    assert_eq!(discarded(chunk_read(at_chunks(), why())), io("Failed to read upload chunk"));
    assert_eq!(discarded(chunk_written(at_chunks(), 1, why())), io("Failed to write chunk"));
    assert_eq!(discarded(staging_flushed(at_chunks(), why())), io("Failed to flush staging file"));
    assert_eq!(
        discarded(staging_linked(at_chunks(), LinkOutcome::AlreadyExists)),
        (AppErrorCode::AlreadyExists, "A file with this name already exists".to_string(), None)
    );
}

#[test]
fn a_destination_outside_the_workspace_is_taken_back() {
    let escaped = (AppErrorCode::InvalidInput, "Resolved path escapes workspace root".to_string(), None);
    assert_eq!(failure(parent_canonicalized(at_dirs(), Ok(read_posix_path("/elsewhere")))), escaped);
    assert!(matches!(
        parent_canonicalized(at_dirs(), Ok(read_posix_path("/real/ws"))),
        UploadStep::InspectTarget(_)
    ));
    let verified = |root: Result<PathReading, String>, target: Result<PathReading, String>| {
        match target_verified(at_chunks(), CommitMethod::HardLink, root, target) {
            UploadStep::RemoveFinal(_, e) => Some(failure(file_removed(e))),
            UploadStep::CheckFinal(_, _) => None,
            _ => panic!("keeps or removes the file"),
        }
    };
    let root = || -> Result<PathReading, String> { Ok(read_posix_path("/real/ws")) };
    assert_eq!(verified(root(), Ok(read_posix_path("/real/other/a"))), Some(escaped));
    assert_eq!(verified(root(), why()), Some(os()));
    assert_eq!(verified(why(), Ok(read_posix_path("/real/ws/a"))), Some(os()));
    assert_eq!(verified(root(), Ok(read_posix_path("/real/ws/a"))), None);
}
