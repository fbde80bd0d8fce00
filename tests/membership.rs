use cargo_member::cli::{
    CargoMember, CargoMemberCp, CargoMemberDeactivate, CargoMemberExclude, CargoMemberFocus,
    CargoMemberInclude, CargoMemberMv, CargoMemberNew, CargoMemberRm, ColorChoice,
};
use cargo_member::error::ErrorKind;
use cargo_member::locate::{find_package, resolve_path, PackageInfo, WorkspaceMetadata};
use cargo_member::membership::{Membership, MembershipDelta};
use cargo_member::ops::{
    commit, deactivate_delta, exclude_delta, file_name, include_delta, plan_cp, plan_deactivate,
    plan_exclude, plan_focus, plan_include, plan_mv, plan_new, plan_rm, DirAction, Plan,
};
use cargo_member::path::{join, parent, relative, trim_leading_dots};
use cargo_member::project::{error_message, find_root_manifest, root_from_located};

fn strings(v: &[&str]) -> Vec<String> {
    v.iter().map(|s| s.to_string()).collect()
}

fn lists(members: &[&str], exclude: &[&str]) -> Membership {
    Membership { members: strings(members), exclude: strings(exclude) }
}

fn pkg(name: &str, dir: &str) -> PackageInfo {
    PackageInfo {
        id: format!("{} 0.1.0 (path+file://{})", name, dir),
        name: name.to_string(),
        version: "0.1.0".to_string(),
        manifest_dir: dir.to_string(),
    }
}

fn metadata(pkgs: &[(&str, &str)], members: &[&str]) -> WorkspaceMetadata {
    WorkspaceMetadata {
        workspace_root: "/ws".to_string(),
        packages: pkgs.iter().map(|(n, d)| pkg(n, d)).collect(),
        member_dirs: strings(members),
    }
}

fn include_opt(paths: &[&str], force: bool, dry_run: bool) -> CargoMemberInclude {
    CargoMemberInclude {
        manifest_path: None,
        color: ColorChoice::Auto,
        offline: false,
        force,
        dry_run,
        paths: strings(paths),
    }
}

fn apply(m: Membership, plan: Plan) -> Membership {
    commit(m, plan, false).lists
}

#[test]
fn trims_leading_dots() {
    assert_eq!(trim_leading_dots("./a/b"), "a/b");
    assert_eq!(trim_leading_dots("././a"), "a");
    assert_eq!(trim_leading_dots(".//a"), "a");
    assert_eq!(trim_leading_dots("."), "");
    assert_eq!(trim_leading_dots(".hidden"), ".hidden");
    assert_eq!(trim_leading_dots("a/./b"), "a/./b");
    assert_eq!(trim_leading_dots("/abs"), "/abs");
}

#[test]
fn joins_and_splits_paths() {
    assert_eq!(join("/ws", "a"), "/ws/a");
    assert_eq!(join("/ws/", "a"), "/ws/a");
    assert_eq!(join("/ws", "/other"), "/other");
    assert_eq!(join("/ws", ""), "/ws");
    assert_eq!(resolve_path("/ws", "./crates/x"), "/ws/crates/x");
    assert_eq!(parent("/ws/Cargo.toml"), "/ws");
    assert_eq!(parent("/Cargo.toml"), "/");
    assert_eq!(parent("Cargo.toml"), "");
    assert_eq!(relative("/ws", "/ws/a/b"), Some("a/b".to_string()));
    assert_eq!(relative("/ws", "/ws"), None);
    assert_eq!(relative("/ws", "/wsx/a"), None);
    assert_eq!(file_name("moved/pkg"), "pkg");
    assert_eq!(file_name("pkg"), "pkg");
}

#[test]
fn color_names() {
    assert_eq!(ColorChoice::parse("always"), Some(ColorChoice::Always));
    assert_eq!(ColorChoice::parse("never"), Some(ColorChoice::Never));
    assert_eq!(ColorChoice::parse("auto"), Some(ColorChoice::Auto));
    assert_eq!(ColorChoice::parse("sometimes"), None);
    assert_eq!(ColorChoice::Never.as_str(), "never");
    let opt = CargoMember::Include(CargoMemberInclude {
        color: ColorChoice::Never,
        ..include_opt(&["a"], false, false)
    });
    assert_eq!(opt.color(), ColorChoice::Never);
}

#[test]
fn locates_root_from_cargo_output() {
    let out = r#"{"root":"/ws/Cargo.toml"}"#;
    assert_eq!(find_root_manifest(true, out, "").unwrap(), "/ws");
    let err = find_root_manifest(false, "", "error: could not find `Cargo.toml`\n").unwrap_err();
    assert_eq!(err.kind, ErrorKind::Collaborator);
    assert_eq!(err.subject, "could not find `Cargo.toml`");
    let err = find_root_manifest(true, "not json", "").unwrap_err();
    assert_eq!(err.kind, ErrorKind::MalformedOutput);
    let err = find_root_manifest(true, r#"{"other":1}"#, "").unwrap_err();
    assert_eq!(err.kind, ErrorKind::MalformedOutput);
    assert_eq!(root_from_located("x", Some("/a/b/Cargo.toml".to_string())).unwrap(), "/a/b");
    assert_eq!(error_message("error: error: boom  \n"), "boom");
}

#[test]
fn finds_packages_by_spec() {
    let md = metadata(&[("a", "/ws/a"), ("b", "/ws/b"), ("b", "/ws/c")], &[]);
    assert_eq!(find_package(&md, "a").unwrap(), 0);
    assert_eq!(find_package(&md, "a:0.1.0").unwrap(), 0);
    assert_eq!(find_package(&md, "a@0.1.0").unwrap(), 0);
    assert_eq!(find_package(&md, &md.packages[2].id.clone()).unwrap(), 2);
    assert_eq!(find_package(&md, "b").unwrap_err().kind, ErrorKind::AmbiguousSpec);
    assert_eq!(find_package(&md, "zzz").unwrap_err().kind, ErrorKind::UnknownSpec);
}

#[test]
fn include_adds_members_and_clears_exclude() {
    let plan = plan_include(&include_opt(&["./c", "b"], false, false), "/ws", "/ws", &vec![true, true])
        .unwrap();
    let m = apply(lists(&["a"], &["b"]), plan);
    assert_eq!(m.members, strings(&["a", "c", "b"]));
    assert!(m.exclude.is_empty());
}

#[test]
fn include_outside_workspace_fails() {
    let err = plan_include(&include_opt(&["/elsewhere/x"], true, false), "/ws", "/ws", &vec![])
        .unwrap_err();
    assert_eq!(err.kind, ErrorKind::OutsideWorkspace);
    assert_eq!(err.subject, "/elsewhere/x");
}

#[test]
fn include_non_package_without_force_fails() {
    let r = plan_include(&include_opt(&["junk"], false, false), "/ws", "/ws", &vec![false]);
    let err = r.unwrap_err();
    assert_eq!(err.kind, ErrorKind::NotAPackage);
    assert_eq!(err.subject, "junk");
    assert!(err.is_resolution());
    let forced = plan_include(&include_opt(&["junk"], true, false), "/ws", "/ws", &vec![false]);
    assert!(forced.is_ok());
}

#[test]
fn include_then_deactivate_round_trip() {
    let before = lists(&["a", "b"], &["z"]);
    let targets = strings(&["c", "d"]);
    let m = apply(before, Plan { delta: include_delta(&targets), actions: vec![], write_at: 0 });
    assert_eq!(m.members, strings(&["a", "b", "c", "d"]));
    let m = apply(m, Plan { delta: deactivate_delta(&targets), actions: vec![], write_at: 0 });
    assert_eq!(m.members, strings(&["a", "b"]));
    assert_eq!(m.exclude, strings(&["z"]));
}

#[test]
fn include_twice_is_idempotent() {
    let targets = strings(&["b", "c"]);
    let once = apply(lists(&["a"], &["b", "q"]), Plan { delta: include_delta(&targets), actions: vec![], write_at: 0 });
    let twice = apply(
        lists(&["a"], &["b", "q"]),
        Plan { delta: include_delta(&targets), actions: vec![], write_at: 0 },
    );
    let twice = apply(twice, Plan { delta: include_delta(&targets), actions: vec![], write_at: 0 });
    assert_eq!(once.members, twice.members);
    assert_eq!(once.exclude, twice.exclude);
    assert_eq!(once.members, strings(&["a", "b", "c"]));
    assert_eq!(once.exclude, strings(&["q"]));
}

#[test]
fn no_path_in_both_lists_after_operations() {
    let m = lists(&["a", "b"], &["c"]);
    let m = apply(m, Plan { delta: exclude_delta(&strings(&["a"])), actions: vec![], write_at: 0 });
    assert_eq!(m.members, strings(&["b"]));
    assert_eq!(m.exclude, strings(&["c", "a"]));
    let m = apply(m, Plan { delta: include_delta(&strings(&["a", "c"])), actions: vec![], write_at: 0 });
    for p in &m.members {
        assert!(!m.exclude.contains(p));
    }
    assert_eq!(m.members, strings(&["b", "a", "c"]));
    assert!(m.exclude.is_empty());
}

#[test]
fn dry_run_reports_same_lists_and_does_nothing() {
    let md = metadata(&[("pkg", "/ws/pkg")], &["/ws/pkg"]);
    let opt = CargoMemberRm {
        package: strings(&["pkg"]),
        manifest_path: None,
        color: ColorChoice::Auto,
        offline: false,
        force: false,
        dry_run: true,
        paths: vec![],
    };
    let dry = commit(lists(&["pkg"], &[]), plan_rm(&opt, "/ws", &md, &vec![]).unwrap(), true);
    let real = commit(lists(&["pkg"], &[]), plan_rm(&opt, "/ws", &md, &vec![]).unwrap(), false);
    assert_eq!(dry.lists.members, real.lists.members);
    assert_eq!(dry.lists.exclude, real.lists.exclude);
    assert_eq!(format!("{:?}", dry.actions), format!("{:?}", real.actions));
    assert_eq!(dry.write_at, real.write_at);
    assert_eq!(real.write_at, real.actions.len());
    assert_eq!(real.write_at, 1);
    assert!(!dry.perform);
    assert!(real.perform);
    assert!(matches!(&real.actions[0], DirAction::RemoveTree { path } if path == "pkg"));
    assert!(real.lists.members.is_empty());
}

#[test]
fn focus_excludes_the_others() {
    let md = metadata(&[("a", "/ws/a"), ("b", "/ws/b")], &["/ws/a", "/ws/b"]);
    let opt = CargoMemberFocus {
        exclude: true,
        dry_run: false,
        manifest_path: None,
        color: ColorChoice::Auto,
        offline: false,
        path: "b".to_string(),
    };
    let m = apply(lists(&["a", "b"], &[]), plan_focus(&opt, "/ws", &md, true).unwrap());
    assert_eq!(m.members, strings(&["b"]));
    assert_eq!(m.exclude, strings(&["a"]));
}

#[test]
fn focus_deactivates_the_others() {
    let md = metadata(&[("a", "/ws/a"), ("b", "/ws/b")], &["/ws", "/ws/a", "/ws/b"]);
    let opt = CargoMemberFocus {
        exclude: false,
        dry_run: false,
        manifest_path: None,
        color: ColorChoice::Auto,
        offline: false,
        path: "./a".to_string(),
    };
    let m = apply(lists(&["a", "b"], &["b"]), plan_focus(&opt, "/ws", &md, true).unwrap());
    assert_eq!(m.members, strings(&["a"]));
    assert!(m.exclude.is_empty());
    let err = plan_focus(&opt, "/ws", &md, false).unwrap_err();
    assert_eq!(err.kind, ErrorKind::NotAPackage);
}

#[test]
fn exclude_and_deactivate_by_path_and_spec() {
    let md = metadata(&[("a", "/ws/a"), ("b", "/ws/b")], &["/ws/a", "/ws/b"]);
    let opt = CargoMemberExclude {
        package: strings(&["b"]),
        manifest_path: None,
        color: ColorChoice::Auto,
        offline: false,
        dry_run: false,
        paths: strings(&["a"]),
    };
    let m = apply(lists(&["a", "b", "c"], &[]), plan_exclude(&opt, "/ws", &md).unwrap());
    assert_eq!(m.members, strings(&["c"]));
    assert_eq!(m.exclude, strings(&["a", "b"]));
    let opt = CargoMemberDeactivate {
        package: strings(&["a"]),
        manifest_path: None,
        color: ColorChoice::Auto,
        offline: false,
        dry_run: false,
        paths: vec![],
    };
    let m = apply(m, plan_deactivate(&opt, "/ws", &md).unwrap());
    assert_eq!(m.exclude, strings(&["b"]));
    let bad = CargoMemberDeactivate { package: strings(&["nope"]), ..opt };
    assert_eq!(plan_deactivate(&bad, "/ws", &md).unwrap_err().kind, ErrorKind::UnknownSpec);
}

#[test]
fn new_member_is_added() {
    let opt = CargoMemberNew {
        manifest_path: None,
        registry: None,
        vcs: None,
        lib: true,
        name: None,
        color: ColorChoice::Auto,
        offline: false,
        dry_run: false,
        path: "crates/fresh".to_string(),
    };
    let m = apply(lists(&["a"], &["crates/fresh"]), plan_new(&opt, "/ws", "/ws").unwrap());
    assert_eq!(m.members, strings(&["a", "crates/fresh"]));
    assert!(m.exclude.is_empty());
}

#[test]
fn cp_copies_renames_and_adds() {
    let md = metadata(&[("pkg", "/ws/pkg")], &["/ws/pkg"]);
    let opt = CargoMemberCp {
        manifest_path: None,
        color: ColorChoice::Auto,
        offline: false,
        dry_run: false,
        no_rename: false,
        src: "pkg".to_string(),
        dst: "copy/pkg2".to_string(),
    };
    let plan = plan_cp(&opt, "/ws", &md, false).unwrap();
    assert!(matches!(&plan.actions[0], DirAction::CopyTree { src, dst } if src == "pkg" && dst == "copy/pkg2"));
    assert!(matches!(&plan.actions[1], DirAction::Rename { dir, name } if dir == "copy/pkg2" && name == "pkg2"));
    let m = apply(lists(&["pkg"], &[]), plan);
    assert_eq!(m.members, strings(&["pkg", "copy/pkg2"]));
    let err = plan_cp(&opt, "/ws", &md, true).unwrap_err();
    assert_eq!(err.kind, ErrorKind::DestinationExists);
    assert_eq!(plan_cp(&opt, "/ws", &md, false).unwrap().write_at, 2);
    let keep = CargoMemberCp { no_rename: true, ..opt };
    assert_eq!(plan_cp(&keep, "/ws", &md, false).unwrap().actions.len(), 1);
}

#[test]
fn mv_moves_the_member() {
    let md = metadata(&[("pkg", "/ws/pkg")], &["/ws/pkg"]);
    let opt = CargoMemberMv {
        manifest_path: None,
        color: ColorChoice::Auto,
        offline: false,
        dry_run: false,
        no_rename: false,
        src: "pkg".to_string(),
        dst: "moved/pkg".to_string(),
    };
    let plan = plan_mv(&opt, "/ws", &md, false).unwrap();
    assert_eq!(plan.actions.len(), 3);
    let ordered = commit(lists(&["pkg"], &[]), plan_mv(&opt, "/ws", &md, false).unwrap(), false);
    assert_eq!(ordered.write_at, 2);
    assert!(matches!(&plan.actions[0], DirAction::CopyTree { src, dst } if src == "pkg" && dst == "moved/pkg"));
    assert!(matches!(&plan.actions[2], DirAction::RemoveTree { path } if path == "pkg"));
    let m = apply(lists(&["pkg"], &[]), plan);
    assert_eq!(m.members, strings(&["moved/pkg"]));
    assert!(m.exclude.is_empty());
}

#[test]
fn rm_non_package_path_needs_force() {
    let md = metadata(&[], &[]);
    let mut opt = CargoMemberRm {
        package: vec![],
        manifest_path: None,
        color: ColorChoice::Auto,
        offline: false,
        force: false,
        dry_run: false,
        paths: strings(&["junk"]),
    };
    assert_eq!(plan_rm(&opt, "/ws", &md, &vec![false]).unwrap_err().kind, ErrorKind::NotAPackage);
    opt.force = true;
    let plan = plan_rm(&opt, "/ws", &md, &vec![false]).unwrap();
    assert!(matches!(&plan.actions[0], DirAction::RemoveTree { path } if path == "junk"));
    assert_eq!(plan.write_at, plan.actions.len());
}

#[test]
fn apply_keeps_order_and_skips_duplicates() {
    let mut m = lists(&["a", "b", "a"], &[]);
    m.apply(&MembershipDelta {
        add_members: strings(&["c", "b", "c"]),
        remove_members: strings(&["a"]),
        add_exclude: vec![],
        remove_exclude: vec![],
    });
    assert_eq!(m.members, strings(&["b", "c"]));
}

#[test]
fn member_entries_are_clean() {
    assert_eq!(relative("/ws", "/ws//a"), Some("a".to_string()));
    assert_eq!(relative("/ws", "/ws/./a"), Some("a".to_string()));
    assert_eq!(relative("/ws", "/ws/.//./b/c"), Some("b/c".to_string()));
    assert_eq!(relative("/ws", "/ws/."), None);
    assert_eq!(relative("/ws", "/ws//"), None);
    let plan = plan_include(&include_opt(&["/ws//a"], true, false), "/ws", "/ws", &vec![]).unwrap();
    assert_eq!(apply(lists(&[], &[]), plan).members, strings(&["a"]));
}

#[test]
fn members_take_precedence_over_exclude() {
    let plan = plan_include(&include_opt(&["c"], false, false), "/ws", "/ws", &vec![true]).unwrap();
    let m = apply(lists(&["a", "b"], &["b", "z"]), plan);
    assert_eq!(m.members, strings(&["a", "b", "c"]));
    assert_eq!(m.exclude, strings(&["z"]));
}

#[test]
fn trims_unicode_whitespace_from_messages() {
    assert_eq!(error_message("error: x\u{a0}"), "x");
    assert_eq!(error_message("x\u{3000}\u{2028} \n"), "x");
    assert_eq!(error_message("x\u{200b}"), "x\u{200b}");
}
