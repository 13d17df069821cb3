use cute::dict::Dict;
use cute::entry::{
    collect_test_inputs, find_all_cute_files, resolve_default_entry, resolve_entry,
    resolve_entry_in_dir, DirFile, EntryDir, FileNode,
};
use cute::install::{
    clone_args, clone_dir_name, codex_target, cursor_target, cute_install, host_triple,
    install_cute_ui,
    install_from_consumer_manifest, install_kate, install_skills, install_vscode,
    looks_like_git_url, overwrite_error, parse_extension_version, report_skills, runtime_prefix,
    runtime_source, split_git_spec, InstallSource, LibraryAction, SkillTarget,
};
use cute::manifest::{CuteLibSpec, Manifest};
use cute::scaffold::{init_project, is_valid_project_name, ProjectKind, Templates};
use cute::watch::{
    collect_max_mtime, error_summary, exit_code, fmt_action, FmtAction, Watch, WatchAction,
    WatchedFile,
};

fn s(x: &str) -> Option<String> {
    Some(x.to_string())
}

fn dir(has_named: bool, has_main: bool, files: &[(&str, bool)]) -> EntryDir {
    EntryDir {
        path: "/w/app".to_string(),
        base: s("app"),
        has_named,
        has_main,
        files: files
            .iter()
            .map(|(n, f)| DirFile { name: n.to_string(), is_file: *f })
            .collect(),
    }
}

#[test]
fn entry_files_are_looked_for_in_order() {
    assert_eq!(resolve_entry(s("x.cute"), &dir(true, true, &[])), Ok("x.cute".to_string()));
    assert_eq!(resolve_entry(None, &dir(true, true, &[])), Ok("/w/app/app.cute".to_string()));
    assert_eq!(resolve_entry(None, &dir(false, true, &[])), Ok("/w/app/main.cute".to_string()));
    let one = dir(false, false, &[("a.txt", true), ("only.cute", true), ("d.cute", false), (".cute", true)]);
    assert_eq!(resolve_entry(None, &one), Ok("/w/app/only.cute".to_string()));
    let two = dir(false, false, &[("a.cute", true), ("b.cute", true)]);
    assert_eq!(
        resolve_entry(None, &two),
        Err("no entry `.cute` file found in /w/app; expected `<dir>.cute`, `main.cute`, or a single `.cute` file".to_string())
    );
    assert_eq!(
        resolve_entry_in_dir(&two),
        Err("no entry `.cute` file in /w/app; expected `<dir-basename>.cute`, `main.cute`, or a single `.cute` file".to_string())
    );
    match resolve_default_entry(&two) {
        Err(e) => assert!(e.message().contains("cute doctor <file>"), "{}", e.message()),
        Ok(_) => panic!("expected an error"),
    }
}

fn file(path: &str) -> FileNode {
    FileNode {
        path: path.to_string(),
        name: path.rsplit('/').next().map(|n| n.to_string()),
        is_dir: false,
        children: vec![],
    }
}

fn folder(path: &str, children: Vec<FileNode>) -> FileNode {
    FileNode { is_dir: true, children, ..file(path) }
}

fn tree() -> Vec<FileNode> {
    vec![
        file("/w/z.cute"),
        file("/w/main.cute"),
        folder("/w/target", vec![file("/w/target/t.cute")]),
        folder("/w/.git", vec![file("/w/.git/g.cute")]),
        folder("/w/a", vec![file("/w/a/b.cute"), file("/w/a/note.md")]),
        file("/w/a-b.cute"),
        folder("/w/own", vec![file("/w/own/o.cute")]),
    ]
}

#[test]
fn sources_are_found_and_sorted_by_names() {
    assert_eq!(
        find_all_cute_files(&tree(), &vec!["own".to_string()]),
        vec!["/w/a/b.cute", "/w/a-b.cute", "/w/main.cute", "/w/z.cute"]
    );
    assert_eq!(find_all_cute_files(&tree(), &vec![]).len(), 5);
}

#[test]
fn test_inputs_start_with_the_entry() {
    let also = vec!["own".to_string()];
    assert_eq!(
        collect_test_inputs("/w", &s("w"), &tree(), &also),
        vec!["/w/main.cute", "/w/a-b.cute", "/w/a/b.cute", "/w/z.cute"]
    );
    assert_eq!(
        collect_test_inputs("/w", &s("z"), &tree(), &also)[0],
        "/w/z.cute",
        "the file that is named after the directory comes first"
    );
    assert_eq!(
        collect_test_inputs("/elsewhere", &None, &tree(), &also)[0],
        "/w/a/b.cute"
    );
    let sole = vec![folder("/w/a", vec![file("/w/a/b.cute")]), file("/w/z.cute")];
    assert_eq!(
        collect_test_inputs("/w", &None, &sole, &vec![]),
        vec!["/w/z.cute", "/w/a/b.cute"],
        "the only source right in the directory comes first"
    );
    assert!(collect_test_inputs("/w", &None, &vec![], &vec![]).is_empty());
}

#[test]
fn repositories_and_paths() {
    for url in ["https://x/y", "http://x", "ssh://x", "git://x", "git@host:me/lib", "me@host:lib", "lib.git"] {
        assert!(looks_like_git_url(url), "{url}");
    }
    for path in ["lib", "./lib", "/a:b", "../x:y", "host:lib", "file:///x@y", "a@b", "./me@host:x"] {
        assert!(!looks_like_git_url(path), "{path}");
    }
    assert_eq!(split_git_spec("https://x/y.git@v1"), ("https://x/y.git".to_string(), s("v1")));
    assert_eq!(split_git_spec("git@host:me/lib"), ("git@host:me/lib".to_string(), None));
    assert_eq!(split_git_spec("https://x/y"), ("https://x/y".to_string(), None));
    assert_eq!(clone_dir_name("https://x/y.git.git//"), "y");
    assert_eq!(clone_dir_name("solo"), "solo");
}

#[test]
fn install_targets() {
    let home = s("/h");
    match cute_install(s("https://x/lib.git@v2"), &home) {
        InstallSource::Git { url, rev, work } => {
            assert_eq!(url, "https://x/lib.git");
            assert_eq!(rev, s("v2"));
            assert_eq!(work, "/h/.cache/cute/install-scratch/lib");
            assert_eq!(
                clone_args(&url, &work),
                vec!["clone", "--depth=1", "https://x/lib.git", "/h/.cache/cute/install-scratch/lib"]
            );
        }
        other => panic!("{other:?}"),
    }
    assert!(matches!(cute_install(s("./lib"), &home), InstallSource::Local(p) if p == "./lib"));
    assert!(matches!(cute_install(None, &home), InstallSource::Manifest));
    match cute_install(s("me@a:b"), &None) {
        InstallSource::Git { work, .. } => {
            assert_eq!(work, "/tmp/.cache/cute/install-scratch/me@a:b");
        }
        other => panic!("{other:?}"),
    }
}

#[test]
fn manifest_libraries_are_installed() {
    let lib = |git: Option<&str>, rev: Option<&str>, path: Option<&str>| CuteLibSpec {
        git: git.map(|x| x.to_string()),
        rev: rev.map(|x| x.to_string()),
        path: path.map(|x| x.to_string()),
        version: None,
    };
    let mut m = Manifest::default();
    let specs: Dict<CuteLibSpec> = Dict::new();
    m.cute_libraries.specs = specs
        .insert("Z".to_string(), lib(None, None, None))
        .insert("A".to_string(), lib(Some("https://x/a"), Some("v1"), Some("ignored")))
        .insert("P".to_string(), lib(None, None, Some("../p")))
        .insert("B".to_string(), lib(Some("https://x/b"), None, None));
    let v = install_from_consumer_manifest(&m, "/w");
    assert_eq!(v.iter().map(|x| x.0.as_str()).collect::<Vec<_>>(), vec!["A", "B", "P", "Z"]);
    assert!(matches!(&v[0].1, LibraryAction::Git(t) if t == "https://x/a@v1"));
    assert!(matches!(&v[1].1, LibraryAction::Git(t) if t == "https://x/b"));
    assert!(matches!(&v[2].1, LibraryAction::Path(t) if t == "/w/../p"));
    assert!(matches!(&v[3].1, LibraryAction::Skip));
}

#[test]
fn the_runtime_is_planned() {
    assert_eq!(host_triple("x86_64", "linux"), "x86_64-linux");
    assert_eq!(runtime_source(None, &s("/repo")), s("/repo/runtime/cute-ui"));
    assert_eq!(runtime_source(s("/src"), &s("/repo")), s("/src"));
    let prefix = runtime_prefix(None, &s("/h"), "1.0", "x86_64-linux");
    assert_eq!(prefix, s("/h/.cache/cute/cute-ui-runtime/1.0/x86_64-linux"));
    let plan = install_cute_ui(s("/src"), true, prefix, &s("/qt")).expect("plan");
    assert_eq!(
        plan.configure,
        vec![
            "-S",
            "/src",
            "-B",
            "/src/build",
            "-DCMAKE_BUILD_TYPE=Release",
            "-DCUTE_UI_BUILD_EXAMPLES=OFF",
            "-DCMAKE_PREFIX_PATH=/qt",
        ]
    );
    assert_eq!(plan.build, vec!["--build", "/src/build", "-j"]);
    assert_eq!(plan.install[3], "/h/.cache/cute/cute-ui-runtime/1.0/x86_64-linux");
    assert_eq!(
        install_cute_ui(s("/src"), false, s("/p"), &None).err().as_deref(),
        Some("could not locate runtime/cute-ui source. Pass --source <path> explicitly.")
    );
    assert_eq!(
        install_cute_ui(s("/src"), true, None, &None).err().as_deref(),
        Some("could not determine install prefix; pass --prefix")
    );
}

#[test]
fn editors_are_installed_in_their_places() {
    let json = "{\n  \"name\": \"cute\",\n  \"version\": \"0.3.1\",\n}\n";
    assert_eq!(parse_extension_version(json), "0.3.1");
    assert_eq!(parse_extension_version("{}"), "0.0.0");
    assert_eq!(install_vscode("/h", json), "/h/.vscode/extensions/i2y.cute-language-0.3.1");
    assert_eq!(
        install_kate(true, "/h", &s("/x")),
        "/h/Library/Application Support/org.kde.syntax-highlighting/syntax"
    );
    assert_eq!(install_kate(false, "/h", &s("/x")), "/x/org.kde.syntax-highlighting/syntax");
    assert_eq!(
        install_kate(false, "/h", &None),
        "/h/.local/share/org.kde.syntax-highlighting/syntax"
    );
    assert_eq!(
        overwrite_error("/f", true, false),
        s("/f already exists; pass --force to overwrite")
    );
    assert_eq!(overwrite_error("/f", true, true), None);
    assert_eq!(overwrite_error("/f", false, false), None);
}

#[test]
fn agents_are_told() {
    let target = |agent: &str, named: bool, detected: bool| SkillTarget {
        agent: agent.to_string(),
        dir: format!(".{agent}/rules"),
        file: "cute.mdc".to_string(),
        head: "---\n".to_string(),
        named,
        detected,
    };
    let v = install_skills(
        "/h",
        "body",
        &vec![target("one", false, true), target("two", true, false)],
    );
    assert_eq!(v.len(), 1);
    assert_eq!(v[0].path, "/h/.two/rules/cute.mdc");
    assert_eq!(v[0].text, "---\nbody");
    let found = install_skills(
        "/h",
        "body",
        &vec![target("one", false, true), target("two", false, false), target("three", false, true)],
    );
    let agents: Vec<&str> = found.iter().map(|f| f.agent.as_str()).collect();
    assert_eq!(agents, ["one", "three"], "without a name, those in use are told");
    assert_eq!(report_skills(&vec![]), "");
    assert_eq!(
        report_skills(&vec!["/h/x".to_string(), "/h/y".to_string()]),
        "installed Cute agent skill:\n  /h/x\n  /h/y\n\n\
         These trigger on `.cute` file edits or questions about Cute.\n"
    );
}

#[test]
fn known_agents() {
    let v = install_skills(
        "/h",
        "body",
        &vec![cursor_target(true, false), codex_target(true, false)],
    );
    assert_eq!(v[0].path, "/h/.cursor/rules/cute.mdc");
    assert!(v[0].text.starts_with("---\ndescription: Cute language reference — Qt 6"));
    assert!(v[0].text.ends_with("alwaysApply: false\n---\nbody"));
    assert_eq!(v[1].path, "/h/.codex/AGENTS.md");
    assert_eq!(v[1].text, "body");
    assert!(install_skills("/h", "b", &vec![cursor_target(false, false)]).is_empty());
}

fn templates() -> Templates {
    Templates {
        entry: "fn main { println(\"{NAME}\") }\n".to_string(),
        manifest: "# none\n".to_string(),
        gitignore: "/{NAME}\n".to_string(),
        vscode_settings: "{}".to_string(),
        vscode_extensions: "[]".to_string(),
    }
}

#[test]
fn project_names() {
    assert!(is_valid_project_name("demo_1"));
    assert!(is_valid_project_name("_x"));
    assert!(!is_valid_project_name("1x"));
    assert!(!is_valid_project_name(""));
    assert!(!is_valid_project_name("a-b"));
    assert!(!is_valid_project_name("näme"));
}

#[test]
fn projects_are_planned() {
    let t = templates();
    let p = init_project("demo", ProjectKind::Qml, true, false, &t).expect("plan");
    let files: Vec<(&str, &str)> =
        p.files.iter().map(|f| (f.path.as_str(), f.text.as_str())).collect();
    assert_eq!(
        files,
        vec![
            ("demo/demo.cute", "fn main { println(\"demo\") }\n"),
            ("demo/cute.toml", "# none\n"),
            ("demo/.gitignore", "/demo\n"),
            ("demo/.vscode/settings.json", "{}"),
            ("demo/.vscode/extensions.json", "[]"),
        ]
    );
    assert_eq!(p.dirs, vec!["demo", "demo/.vscode"]);
    assert!(p.report.starts_with("created demo/\n  template: qml_app (QtQuick)\n  vscode: "));
    assert!(p.report.ends_with("  next:\n    cd demo\n    cute build demo.cute\n    ./demo\n"));
    assert_eq!(
        init_project("a b", ProjectKind::Cli, false, false, &t).err().as_deref(),
        Some("error: `a b` is not a valid project name (use letters, digits, `_`, starting with letter or `_`)")
    );
    assert_eq!(
        init_project("demo", ProjectKind::Cli, false, true, &t).err().as_deref(),
        Some("error: `demo` already exists; aborting")
    );
}

#[test]
fn project_kinds() {
    assert_eq!(ProjectKind::pick(false, false, false, false, false, false), ProjectKind::Qml);
    assert_eq!(ProjectKind::pick(true, false, false, false, false, false), ProjectKind::Qml);
    assert_eq!(ProjectKind::pick(false, false, false, false, false, true), ProjectKind::Gpu);
    assert_eq!(ProjectKind::pick(false, true, true, false, false, false), ProjectKind::Widget);
    assert_eq!(ProjectKind::Kirigami.cute_toml_template(), "cute.toml.kirigami");
    assert_eq!(ProjectKind::Cli.cute_toml_template(), "cute.toml.empty");
    assert_eq!(ProjectKind::Server.cute_template(), "server.cute.tmpl");
    assert_eq!(ProjectKind::Gpu.label(), "gpu_app (Qt 6.11 Canvas Painter)");
}

#[test]
fn changes_are_watched() {
    let f = |name: &str, modified: Option<u64>| WatchedFile { name: name.to_string(), modified };
    let files = vec![
        f("a.cute", Some(3)),
        f("b.txt", Some(99)),
        f("cute.toml", Some(7)),
        f("c.cute", None),
    ];
    assert_eq!(collect_max_mtime(&files), 7);
    assert_eq!(collect_max_mtime(&vec![]), 0);
    let w = Watch { last: 7, running: true };
    assert_eq!(w.look(false, 7), (w, WatchAction::Wait));
    assert_eq!(w.look(true, 7).0, Watch { last: 7, running: false });
    assert_eq!(
        w.look(false, 8),
        (Watch { last: 8, running: false }, WatchAction::Rebuild { stop: true })
    );
    assert_eq!(w.look(true, 8).1, WatchAction::Rebuild { stop: false });
    assert_eq!(w.built(false).running, false);
}

#[test]
fn results_of_runs() {
    assert_eq!(exit_code(Some(0)), 0);
    assert_eq!(exit_code(Some(42)), 42);
    assert_eq!(exit_code(Some(256)), 1);
    assert_eq!(exit_code(Some(-1)), 1);
    assert_eq!(exit_code(None), 1);
    assert_eq!(error_summary(0), None);
    assert_eq!(error_summary(1), s("1 error"));
    assert_eq!(error_summary(12), s("12 errors"));
    assert_eq!(fmt_action(true, "a", "a"), FmtAction::Keep);
    assert_eq!(fmt_action(true, "a", "b"), FmtAction::Complain);
    assert_eq!(fmt_action(false, "a", "b"), FmtAction::Write);
}
