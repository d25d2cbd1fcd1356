use codeg::error::{AppCommandError, AppErrorCode};
use codeg::workspace::chain::{chain_probed, ensure_no_symlink_in_chain, ChainStep, Probe};
use codeg::workspace::path::read_posix_path;

/// Walks from `root` to `target`, where `answer` knows the file system, and returns the paths
/// that were asked about.
fn walk<F: Fn(&str) -> Probe>(root: &str, target: &str, answer: F) -> (Vec<String>, Result<(), AppCommandError>) {
    let mut asked = Vec::new();
    let mut step = ensure_no_symlink_in_chain(root, &read_posix_path(root), read_posix_path(target));
    loop {
        step = match step {
            ChainStep::Probe(w) => {
                let path = format!("{}/{}", w.current.base, w.current.names.join("/"));
                let a = answer(&path);
                asked.push(path);
                chain_probed(w, a)
            }
            ChainStep::Clear => return (asked, Ok(())),
            ChainStep::Rejected(e) => return (asked, Err(e)),
        };
    }
}

#[test]
fn ensure_no_symlink_in_chain_rejects_intermediate_symlink() {
    let disk = |p: &str| match p {
        "/root/link" => Probe::Link,
        "/root/real" => Probe::Other,
        _ => Probe::Missing,
    };
    let (_, r) = walk("/root", "/root/link/sub", disk);
    let err = r.expect_err("should reject symlink in chain");
    assert!(
        err.message.contains("symlink"),
        "unexpected error: {}",
        err.message
    );
    // Sanity: no symlink in chain → ok.
    let (asked, r) = walk("/root", "/root/real/nested/file.txt", disk);
    assert!(r.is_ok());
    assert_eq!(asked, vec!["/root/real", "/root/real/nested"]);
}

#[test]
fn the_walk_asks_about_every_component_that_exists() {
    let (asked, r) = walk("/r", "/r/a/./b//c", |_| Probe::Other);
    assert!(r.is_ok());
    assert_eq!(asked, vec!["/r/a", "/r/a/b", "/r/a/b/c"]);
    let (asked, r) = walk("/r", "/r", |_| Probe::Link);
    assert!(r.is_ok());
    assert!(asked.is_empty());
}

#[test]
fn the_walk_stays_below_the_root() {
    let (_, r) = walk("/r", "/q/a", |_| Probe::Other);
    assert_eq!(r.unwrap_err().message, "Target path is not under workspace root");
    let (_, r) = walk("/r", "/r/a/../b", |_| Probe::Other);
    assert_eq!(
        r.unwrap_err().message,
        "Invalid path component while validating upload target"
    );
}

#[test]
fn an_unanswered_question_ends_the_walk() {
    let (_, r) = walk("/r", "/r/a", |_| Probe::Failed("denied".to_string()));
    let e = r.unwrap_err();
    assert_eq!((e.code, e.message.as_str()), (AppErrorCode::Os, "denied"));
}
