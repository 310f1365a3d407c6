use std::path::Path;

use model_assistant::paths::{
    is_loader_name, PathProbe, ResolvedPaths, RootfsProbe, StartupError, StartupValidation,
};
use model_assistant::report::RunnerWarnings;
use model_assistant::unix_path::UnixPath;

fn path(text: &str) -> UnixPath {
    UnixPath::from_text(text)
}

fn rootfs() -> RootfsProbe {
    RootfsProbe {
        dev: true,
        proc: true,
        tmp: true,
        usr_lib: true,
        usr_lib64: false,
        library_entries: vec![vec![path("libc.so"), path("ld-musl-x86_64.so.1")]],
    }
}

fn probe() -> PathProbe {
    PathProbe {
        models_root_is_dir: true,
        runner_root_is_dir: true,
        rootfs: rootfs(),
        files_root_is_dir: true,
        config_is_file: true,
    }
}

#[test]
fn joining_is_that_of_the_standard_library() {
    let heads = ["", "/", "a", "a/", "/a", "/a//", ".", "./"];
    let tails = ["", "b", "/b", "b/", "./b", "..", "."];
    for head in heads {
        for tail in tails {
            let expected = Path::new(head).join(tail);
            assert_eq!(path(head).join_text(tail).display(), expected.to_str().unwrap());
            assert_eq!(path(head).join(&path(tail)).display(), expected.to_str().unwrap());
        }
    }
}

#[test]
fn the_parent_is_that_of_the_standard_library() {
    let samples = [
        "", "/", "//", ".", "./", "..", "../", "a", "a/", "a//", "/a", "/a/", "//a", "a/b", "a//b", "a/./b",
        "a/b/.", "a/b/./", "./a", "././a", "./.", "/.", "/./a", "/usr/bin/program", "a/..", "../a", ".a", "a.",
        "/usr//bin///", "a/.b", ".//",
    ];
    for sample in samples {
        let expected = Path::new(sample).parent().map(|parent| parent.to_str().unwrap().to_string());
        assert_eq!(path(sample).parent().map(|parent| parent.display()), expected, "{sample}");
    }
}

#[test]
fn the_parent_of_an_entry_is_its_directory() {
    for dir in ["/m/Runner", "m", "../m", "./m", "/m/.."] {
        for name in ["dev", "..", ".profile", "a.b"] {
            assert_eq!(path(dir).join_text(name).parent().unwrap().display(), dir);
        }
    }
}

#[test]
fn a_path_need_not_be_text() {
    let odd = UnixPath::new(vec![b'a', 0xff, b'/', b'b']);
    assert_eq!(odd.display(), "a\u{fffd}/b");
    assert_eq!(odd.parent().unwrap().bytes, vec![b'a', 0xff]);
    assert_eq!(odd.join_text("c").bytes, vec![b'a', 0xff, b'/', b'b', b'/', b'c']);
    assert_eq!(odd.clone().bytes, odd.bytes);
}

#[test]
fn the_layout_under_the_models_root() {
    let paths = ResolvedPaths::discover(Some(path("/srv/models"))).unwrap();
    assert_eq!(paths.models_root.display(), "/srv/models");
    assert_eq!(paths.runner_root.display(), "/srv/models/Runner");
    assert_eq!(paths.files_root.display(), "/srv/models/Files");
    assert_eq!(paths.config_path.display(), "/srv/models/Files/assistant.toml");
    assert_eq!(paths.clone().config_path.display(), "/srv/models/Files/assistant.toml");
}

#[test]
fn the_directories_of_the_runner() {
    let rootfs = ResolvedPaths::discover(Some(path("/m"))).unwrap().rootfs_paths();
    assert_eq!(rootfs.dev.display(), "/m/Runner/dev");
    assert_eq!(rootfs.proc.display(), "/m/Runner/proc");
    assert_eq!(rootfs.tmp.display(), "/m/Runner/tmp");
    assert_eq!(rootfs.usr_lib.display(), "/m/Runner/usr/lib");
    assert_eq!(rootfs.usr_lib64.display(), "/m/Runner/usr/lib64");
    let dirs: Vec<String> = rootfs.library_dirs.iter().map(|dir| dir.display()).collect();
    assert_eq!(
        dirs,
        vec!["/m/Runner/lib", "/m/Runner/lib64", "/m/Runner/usr/lib", "/m/Runner/usr/lib64"]
    );
}

#[test]
fn the_models_root_has_to_be_set() {
    match ResolvedPaths::discover(None) {
        Err(error) => assert_eq!(error.message(), "MODELS_ROOT environment variable is not set"),
        Ok(_) => panic!("there is no root"),
    }
}

#[test]
fn directories_in_order_have_no_errors() {
    let paths = ResolvedPaths::discover(Some(path("/m"))).unwrap();
    assert!(!paths.validate(&probe()).has_errors());
}

#[test]
fn everything_that_is_missing_is_told() {
    let paths = ResolvedPaths::discover(Some(path("/m"))).unwrap();
    let nothing = PathProbe {
        models_root_is_dir: false,
        runner_root_is_dir: false,
        files_root_is_dir: false,
        config_is_file: false,
        ..probe()
    };
    assert_eq!(
        paths.validate(&nothing).errors,
        vec![
            "MODELS_ROOT does not exist or is not a directory: /m",
            "Runner directory does not exist: /m/Runner",
            "Files directory does not exist: /m/Files",
            "config file does not exist: /m/Files/assistant.toml",
        ]
    );
}

#[test]
fn a_runner_without_a_loader_is_refused() {
    let paths = ResolvedPaths::discover(Some(path("/m"))).unwrap();
    let bare = PathProbe {
        rootfs: RootfsProbe { library_entries: vec![vec![], vec![path("libc.so")]], ..rootfs() },
        ..probe()
    };
    assert_eq!(
        paths.validate(&bare).errors,
        vec!["Runner does not look like a chroot rootfs: /m/Runner"]
    );
}

#[test]
fn what_makes_a_root_file_system() {
    assert!(rootfs().looks_like_chroot());
    assert!(RootfsProbe { usr_lib: false, usr_lib64: true, ..rootfs() }.looks_like_chroot());
    assert!(!RootfsProbe { usr_lib: false, ..rootfs() }.looks_like_chroot());
    assert!(!RootfsProbe { dev: false, ..rootfs() }.looks_like_chroot());
    assert!(!RootfsProbe { proc: false, ..rootfs() }.looks_like_chroot());
    assert!(!RootfsProbe { tmp: false, ..rootfs() }.looks_like_chroot());
    assert!(!RootfsProbe { library_entries: vec![], ..rootfs() }.has_dynamic_loader());
    assert!(is_loader_name("ld-linux-aarch64.so.1"));
    assert!(is_loader_name("ld-musl-x86_64.so.1"));
    assert!(!is_loader_name("ld.so"));
}

#[test]
fn loader_names_are_read_as_text() {
    let odd = UnixPath::new(vec![b'l', b'd', b'-', b'm', b'u', b's', b'l', b'-', 0xff]);
    assert!(RootfsProbe { library_entries: vec![vec![odd]], ..rootfs() }.has_dynamic_loader());
    let other = UnixPath::new(vec![0xff, b'l', b'd', b'-', b'm', b'u', b's', b'l', b'-']);
    assert!(!RootfsProbe { library_entries: vec![vec![other]], ..rootfs() }.has_dynamic_loader());
}

#[test]
fn errors_are_collected() {
    let mut validation = StartupValidation::new();
    assert!(!validation.has_errors());
    validation.push("first".to_string());
    validation.extend(StartupValidation::from_message("second".to_string()));
    assert!(validation.has_errors());
    assert_eq!(validation.body(), "first\nsecond");
    let unread = StartupValidation::from_single(StartupError::ConfigUnreadable { path: path("/m/x") });
    assert_eq!(unread.errors, vec!["failed to read config file at /m/x"]);
    let invalid = StartupValidation::from_single(StartupError::ConfigInvalid);
    assert_eq!(invalid.body(), "failed to parse config file");
}

#[test]
fn warnings_are_collected() {
    let mut warnings = RunnerWarnings::new();
    assert!(warnings.is_empty());
    assert_eq!(warnings.body(), "");
    warnings.push("one".to_string());
    warnings.push("two".to_string());
    assert!(!warnings.is_empty());
    assert_eq!(warnings.clone().body(), "one\ntwo");
}
