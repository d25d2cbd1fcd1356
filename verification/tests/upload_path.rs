use codeg::error::AppErrorCode;
use codeg::workspace::path::{read_posix_path, validate_relative_components};
use codeg::workspace::upload_path::{compute_final_rel, sanitize_relative_subpath, sanitize_segment};

#[test]
fn sanitize_segment_replaces_hostile_chars_and_handles_dots() {
    assert_eq!(sanitize_segment("a:b*c?\"d"), "a_b_c__d");
    assert_eq!(sanitize_segment("..."), "file");
    assert_eq!(sanitize_segment(""), "file");
    assert_eq!(sanitize_segment("normal.txt"), "normal.txt");
}

#[test]
fn sanitize_relative_subpath_joins_clean() {
    assert_eq!(
        sanitize_relative_subpath("a/b/c.txt").unwrap(),
        "a/b/c.txt"
    );
    assert_eq!(
        sanitize_relative_subpath("a\\b\\c.txt").unwrap(),
        "a/b/c.txt"
    );
    assert_eq!(sanitize_relative_subpath("./a/./b").unwrap(), "a/b");
}

#[test]
fn sanitize_relative_subpath_rejects_empty_and_traversal() {
    assert!(sanitize_relative_subpath("").is_err());
    assert!(sanitize_relative_subpath("/").is_err());
    assert!(sanitize_relative_subpath("../escape").is_err());
}

#[test]
fn compute_final_rel_uses_file_name_when_no_relative() {
    assert_eq!(
        compute_final_rel("dir", "", "report.txt").unwrap(),
        "dir/report.txt"
    );
    assert_eq!(compute_final_rel("", "", "report.txt").unwrap(), "report.txt");
}

#[test]
fn compute_final_rel_prefers_relative_path() {
    assert_eq!(
        compute_final_rel("dir", "sub/a.txt", "ignored").unwrap(),
        "dir/sub/a.txt"
    );
    assert_eq!(
        compute_final_rel("", "a/b/c.txt", "ignored").unwrap(),
        "a/b/c.txt"
    );
}

#[test]
fn validate_relative_components_rejects_dotdot_and_absolute() {
    assert!(validate_relative_components(&read_posix_path("../escape")).is_err());
    assert!(validate_relative_components(&read_posix_path("/etc/passwd")).is_err());
    assert!(validate_relative_components(&read_posix_path("a/b")).is_ok());
}

#[test]
fn segments_lose_controls_and_white_space() {
    assert_eq!(sanitize_segment("a\u{0}b\nc"), "abc");
    assert_eq!(sanitize_segment("  x.txt \t"), "x.txt");
    assert_eq!(sanitize_segment("x . ."), "x . ");
    assert_eq!(sanitize_segment("<a|b>\\c/d"), "_a_b__c_d");
    assert_eq!(sanitize_segment("\u{85}\u{9f}"), "file");
    assert_eq!(sanitize_segment(" . "), "file");
    assert_eq!(sanitize_segment("naïve.txt"), "naïve.txt");
}

#[test]
fn refused_subpaths_say_why() {
    let e = sanitize_relative_subpath("./").unwrap_err();
    assert_eq!(e.code, AppErrorCode::InvalidInput);
    assert_eq!(e.message, "Invalid upload path");
    let e = sanitize_relative_subpath("a\\..\\b").unwrap_err();
    assert_eq!(e.message, "Path cannot contain '..'");
    assert_eq!(e.detail, None);
}

#[test]
fn final_rel_follows_the_target_directory() {
    assert_eq!(compute_final_rel(" dir/sub// ", " ", "C:\\tmp\\a.txt").unwrap(), "dir/sub/a.txt");
    assert_eq!(compute_final_rel("/", "", "a.txt").unwrap(), "a.txt");
    assert_eq!(compute_final_rel("", "", "dir/").unwrap(), "file");
    assert_eq!(compute_final_rel("..", "", "a").unwrap_err().message, "Path cannot contain '..'");
    assert_eq!(compute_final_rel("d", "/", "a").unwrap_err().message, "Invalid upload path");
    assert_eq!(compute_final_rel("...", "", "a").unwrap(), "file/a");
    assert_eq!(compute_final_rel("/abs/dir", "", "a").unwrap(), "abs/dir/a");
}

#[test]
fn every_upload_path_stays_below_the_root() {
    let raws = ["a", "/etc/passwd", "x/../y", "a//b", "\\\\srv\\share", "C:\\x", ". /.. /b", "~", "a/ . /b"];
    for target in raws {
        for hint in raws {
            for rel in ["", "p/q", "../q"] {
                if let Ok(path) = compute_final_rel(target, rel, hint) {
                    assert!(validate_relative_components(&read_posix_path(&path)).is_ok());
                    for segment in path.split('/') {
                        assert!(!segment.is_empty() && segment != "." && segment != "..");
                        assert_eq!(sanitize_segment(segment).trim_end(), segment.trim_end());
                    }
                }
            }
        }
    }
}
