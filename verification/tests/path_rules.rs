use file_sync::paths::{
    download_name, download_path, final_name, local_path, normalize_parts, normalize_path,
    partial_hash_name, partial_name, relative_text, resolve_safe_path, PathPart, ResolveError,
    ResolveStep,
};

fn resolve(path: &str, link: Option<&str>) -> Result<Vec<String>, ResolveError> {
    let mut resolver = resolve_safe_path(path);
    let mut is_symlink = false;
    loop {
        match resolver.step(is_symlink) {
            ResolveStep::Probe => {
                is_symlink = link == Some(resolver.names().join("/").as_str());
            }
            ResolveStep::Done => return Ok(resolver.names().clone()),
            ResolveStep::Refused(e) => return Err(e),
        }
    }
}

fn names(v: &[&str]) -> Result<Vec<String>, ResolveError> {
    Ok(v.iter().map(|s| s.to_string()).collect())
}

#[test]
fn plain_paths_are_resolved() {
    assert_eq!(resolve("a/b.txt", None), names(&["a", "b.txt"]));
    assert_eq!(resolve("", None), names(&[]));
    assert_eq!(resolve("a/../b", None), names(&["b"]));
    assert_eq!(resolve("a/b/../../c", None), names(&["c"]));
    assert_eq!(resolve("日本/語", None), names(&["日本", "語"]));
}

#[test]
fn root_and_dots_count_for_nothing() {
    assert_eq!(resolve("/a/./b", None), names(&["a", "b"]));
    assert_eq!(resolve("./a//b/", None), names(&["a", "b"]));
    assert_eq!(resolve("//etc", None), names(&["etc"]));
}

#[test]
fn colons_are_part_of_names() {
    assert_eq!(resolve("logs/12:30.txt", None), names(&["logs", "12:30.txt"]));
    assert_eq!(resolve("1:30/a", None), names(&["1:30", "a"]));
    assert_eq!(final_name("logs/12:30.txt"), Some("12:30.txt".to_string()));
    let p = download_path("logs/12:30.txt").map(|p| p.replace('\\', "/"));
    assert_eq!(p, Some("logs/12:30.txt.download".to_string()));
    assert_eq!(local_path("dl", "1:30").replace('\\', "/"), "dl/1:30");
}

#[test]
fn backslashes_are_read_by_the_system() {
    let resolved = resolve("a\\b/c", None);
    if std::path::is_separator('\\') {
        assert_eq!(resolved, names(&["a", "b", "c"]));
        assert_eq!(resolve("c:\\a", None), names(&["a"]));
        assert_eq!(resolve("\\\\server\\share\\a", None), names(&["a"]));
    } else {
        assert_eq!(resolved, names(&["a\\b", "c"]));
        assert_eq!(resolve("c:\\a", None), names(&["c:\\a"]));
        assert_eq!(resolve("\\\\server\\share\\a", None), names(&["\\\\server\\share\\a"]));
        assert_eq!(resolve("//server/share/a", None), names(&["server", "share", "a"]));
        assert_eq!(final_name("C:/x\\y/b.txt"), Some("b.txt".to_string()));
        assert_eq!(final_name("x/\\y"), Some("\\y".to_string()));
        assert_eq!(download_path("x/\\y"), Some("x/\\y.download".to_string()));
        assert_eq!(download_path("a//./b"), Some("a/b.download".to_string()));
        assert_eq!(local_path("dl", "C:x"), "dl/C:x");
    }
}

#[test]
fn resolved_paths_resolve_to_themselves() {
    for path in ["a/./b/../c", "/x//y/", "../a", "", "logs/12:30.txt", "//a"] {
        let first = resolve(path, None);
        assert_eq!(resolve(&format!("/{}", path), None), first);
        if let Ok(v) = &first {
            let text = v.join("/");
            assert_eq!(resolve(&text, None), first);
            assert_eq!(resolve(&format!("./{}", text), None), first);
        }
    }
}

#[test]
fn paths_above_the_base_are_refused() {
    assert_eq!(resolve("..", None), Err(ResolveError::Traversal));
    assert_eq!(resolve("a/../../b", None), Err(ResolveError::Traversal));
    assert_eq!(resolve("/../a", None), Err(ResolveError::Traversal));
    assert_eq!(ResolveError::Traversal.message(), "パストラバーサル攻撃を検知しました");
}

#[test]
fn paths_through_links_are_refused() {
    assert_eq!(resolve("a/b/c", Some("a/b")), Err(ResolveError::Symlink));
    assert_eq!(resolve("a/b", Some("a/b")), Err(ResolveError::Symlink));
    assert_eq!(resolve("a/b/c", Some("b")), names(&["a", "b", "c"]));
    assert_eq!(resolve("a/../b", Some("a")), Err(ResolveError::Symlink));
    assert_eq!(resolve("a/../../b", Some("a")), Err(ResolveError::Symlink));
    assert_eq!(resolve("../a", Some("a")), Err(ResolveError::Traversal));
    assert_eq!(
        ResolveError::Symlink.message(),
        "シンボリックリンクを経由したアクセスはセキュリティのため禁止されています"
    );
}

#[test]
fn names_are_joined_with_slashes() {
    let v = vec!["Public".to_string(), "x\\y".to_string()];
    assert_eq!(relative_text(&v), "Public/x/y");
    assert_eq!(relative_text(&vec![]), "");
}

fn plain(parts: Vec<PathPart>) -> String {
    let mut out = String::new();
    for p in parts {
        match p {
            PathPart::Prefix(s) => out.push_str(&format!("[{}]", s)),
            PathPart::RootDir => out.push_str("<root>"),
            PathPart::CurDir => out.push_str("<.>"),
            PathPart::ParentDir => out.push_str("<..>"),
            PathPart::Normal(s) => out.push_str(&format!("<{}>", s)),
        }
    }
    out
}

#[test]
fn dots_are_taken_out_of_paths() {
    assert_eq!(plain(normalize_path("/a/./b/../c")), "<root><a><c>");
    assert_eq!(plain(normalize_path("/../a")), "<root><a>");
    assert_eq!(plain(normalize_path("../a")), "<a>");
    assert_eq!(plain(normalize_path("/")), "<root>");
    let parts = vec![
        PathPart::Prefix("C:".to_string()),
        PathPart::RootDir,
        PathPart::ParentDir,
        PathPart::Normal("x".to_string()),
    ];
    assert_eq!(plain(normalize_parts(parts)), "[C:]<root><x>");
}

#[test]
fn normalised_paths_stay_as_they_are() {
    let once = normalize_path("/srv/./data/../files");
    let again = normalize_path("/srv/files");
    assert_eq!(plain(normalize_parts(once)), plain(again));
}

#[test]
fn saved_files_lie_below_the_save_directory() {
    let shown = |p: String| p.replace('\\', "/");
    assert_eq!(shown(local_path("/home/u/dl", "/a/b.txt")), "/home/u/dl/a/b.txt");
    assert_eq!(shown(local_path("/home/u/dl", "\\/a.txt")), "/home/u/dl/a.txt");
    assert_eq!(shown(local_path("dl", "a.txt")), "dl/a.txt");
    assert_eq!(shown(local_path("dl/", "a.txt")), "dl/a.txt");
    assert_eq!(shown(local_path("", "//a.txt")), "a.txt");
    assert_eq!(shown(local_path(".\\Download", "a\\b.txt")), "./Download/a/b.txt");
    assert_eq!(shown(local_path("dl", "")), "dl/");
}

#[test]
fn downloads_are_kept_beside_their_final_place() {
    assert_eq!(download_name("a.txt"), "a.txt.download");
    let p = download_path("/dl/a/b.txt").map(|p| p.replace('\\', "/"));
    assert_eq!(p, Some("/dl/a/b.txt.download".to_string()));
    assert_eq!(download_path("/"), None);
    assert_eq!(download_path("a/.."), None);
    let p = download_path(".\\Download\\a.txt").map(|p| p.replace('\\', "/"));
    assert_eq!(p, Some("./Download/a.txt.download".to_string()));
}

#[test]
fn names_are_taken_from_paths() {
    assert_eq!(final_name("/x/y.txt"), Some("y.txt".to_string()));
    assert_eq!(final_name("y.txt"), Some("y.txt".to_string()));
    assert_eq!(final_name(".."), None);
    assert!(final_name("C:\\x\\y.txt").unwrap().ends_with("y.txt"));
}

#[test]
fn uploads_are_kept_under_names_of_their_own() {
    assert_eq!(partial_name("a.txt"), "a.txt.mysync_partial");
    assert_eq!(partial_hash_name("a.txt"), "a.txt.mysync_partial.hash");
}
