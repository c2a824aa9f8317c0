use capsule_core::directory::{
    compact_components, nearest_git_root, DirectoryModule, ModuleSpeed, RenderContext,
};
use capsule_core::path::components;

fn make_ctx(cwd: &str, home: &str) -> RenderContext {
    RenderContext {
        cwd: cwd.to_owned(),
        home_dir: home.to_owned(),
        last_exit_code: 0,
        duration_ms: None,
        keymap: "main".to_owned(),
        cols: 80,
    }
}

// -- Non-git paths (home abbreviation) --

#[test]
fn test_module_cwd_is_home() {
    let home = "/Users/testuser";
    let ctx = make_ctx(home, home);
    let output = DirectoryModule::new().render(&ctx);
    assert_eq!(output.map(|o| o.content), Some("~".to_owned()));
}

#[test]
fn test_module_cwd_outside_home() {
    let home = "/Users/testuser";
    let cwd = "/nonexistent-capsule-test/dir";
    let ctx = make_ctx(cwd, home);
    let output = DirectoryModule::new().render(&ctx);
    // No .git above, so home-abbreviated
    let content = output.map(|o| o.content);
    assert!(
        content.as_ref().is_some_and(|c| !c.is_empty()),
        "should produce output: {content:?}"
    );
}

#[test]
fn test_module_cwd_is_root() {
    let home = "/Users/testuser";
    let cwd = "/";
    let ctx = make_ctx(cwd, home);
    let output = DirectoryModule::new().render(&ctx);
    assert_eq!(output.map(|o| o.content), Some("/".to_owned()));
}

#[test]
fn test_module_cwd_under_home_no_git() {
    // Use a path that does not exist on disk (no .git can be found)
    let home = "/Users/testuser";
    let cwd = "/Users/testuser/nonexistent/projects/capsule";
    let ctx = make_ctx(cwd, home);
    let output = DirectoryModule::new().render(&ctx);
    assert_eq!(
        output.map(|o| o.content),
        Some("~/n/p/capsule".to_owned()),
        "should shorten ancestors and preserve the current directory when no .git"
    );
}

// -- Repository roots given directly --

#[test]
fn compact_at_repo_root_under_home() {
    let home = "/home/u";
    let repo = "/home/u/capsule";
    assert_eq!(compact_components(repo, home, Some(repo)), "~/capsule");
}

#[test]
fn compact_inside_repo_keeps_repo_name_and_suffix() {
    let home = "/home/u";
    let repo = "/home/u/capsule";
    assert_eq!(
        compact_components("/home/u/capsule/src/module", home, Some(repo)),
        "~/capsule/src/module"
    );
}

#[test]
fn compact_inside_nested_repo_shortens_ancestors() {
    let home = "/tmp/h";
    let repo = "/tmp/h/dev/work/tip-extra/tipextra-frontend";
    assert_eq!(
        compact_components("/tmp/h/dev/work/tip-extra/tipextra-frontend/frontend", home, Some(repo)),
        "~/d/w/t/tipextra-frontend/frontend"
    );
}

#[test]
fn compact_outside_home_absolute() {
    assert_eq!(compact_components("/var/log/nginx", "/home/u", None), "/v/l/nginx");
}

#[test]
fn compact_relative_path() {
    assert_eq!(compact_components("src/module", "/home/u", None), "./s/module");
}

#[test]
fn compact_repo_outside_home_keeps_repo_name() {
    assert_eq!(
        compact_components("/srv/repo/src/lib", "/home/u", Some("/srv/repo")),
        "/s/repo/src/lib"
    );
    assert_eq!(
        compact_components("/opt/repo/src", "/Users/x", Some("/opt/repo")),
        "/o/repo/src"
    );
}

#[test]
fn compact_repo_under_home_counts_below_home() {
    // A root under home counts its components below home, as the search
    // result does, even when the directory lies outside home.
    assert_eq!(compact_components("/srv/x/y", "/home/u", Some("/home/u/r")), "/srv/x/y");
}

#[test]
fn compact_repo_root_not_an_ancestor_is_ignored() {
    assert_eq!(
        compact_components("/srv/other/src/lib", "/home/u", Some("/srv/repo")),
        "/s/o/s/lib"
    );
}

#[test]
fn nearest_root_from_answers() {
    let start = components("/a/b/c");
    // Directories looked at, nearest first: /a/b/c, /a/b, /a, /
    assert_eq!(nearest_git_root(&start, &vec![true]).map(|r| r.len()), Some(4));
    assert_eq!(nearest_git_root(&start, &vec![false, false, true]).map(|r| r.len()), Some(2));
    assert_eq!(nearest_git_root(&start, &vec![false, false, false, true]).map(|r| r.len()), Some(1));
    assert_eq!(nearest_git_root(&start, &vec![false, false, false, false]).map(|r| r.len()), None);
    // Answers beyond the root are not looked at.
    assert_eq!(nearest_git_root(&start, &vec![false, false, false, false, true]).map(|r| r.len()), None);
    assert_eq!(nearest_git_root(&start, &vec![]).map(|r| r.len()), None);
}

#[test]
fn compact_normalizes_separators_and_dots() {
    assert_eq!(compact_components("/home/u//./a/b/", "/home/u", None), "~/a/b");
    assert_eq!(compact_components("/home/u/", "/home/u", None), "~");
}

#[test]
fn compact_parent_components_are_not_shown() {
    assert_eq!(compact_components("/home/u/a/../b", "/home/u", None), "~/a/b");
}

#[test]
fn compact_shortens_to_first_character() {
    assert_eq!(compact_components("/home/u/émigré/x", "/home/u", None), "~/é/x");
}

#[test]
fn module_name_and_speed() {
    let module = DirectoryModule::new();
    assert_eq!(module.name(), "directory");
    assert_eq!(module.speed(), ModuleSpeed::Fast);
}
