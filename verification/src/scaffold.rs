//! New projects.

use crate::sources::{join_path, path_join};
use crate::text::{chars_of, is_ascii_digit, is_ascii_lower, is_ascii_upper, replace, replaced};
use vstd::prelude::*;
use vstd::string::*;

verus! {

/// The kinds of new projects.
#[derive(Debug, Clone, Copy, PartialEq, Eq, Structural)]
pub enum ProjectKind {
    Qml,
    Widget,
    Server,
    Cli,
    Kirigami,
    Gpu,
}

/// The kind that the flags ask for; a QtQuick program where none is given.
pub open spec fn picked_kind(
    widget: bool,
    server: bool,
    cli: bool,
    kirigami: bool,
    gpu: bool,
) -> ProjectKind {
    if widget {
        ProjectKind::Widget
    } else if server {
        ProjectKind::Server
    } else if cli {
        ProjectKind::Cli
    } else if kirigami {
        ProjectKind::Kirigami
    } else if gpu {
        ProjectKind::Gpu
    } else {
        ProjectKind::Qml
    }
}

pub open spec fn kind_label(k: ProjectKind) -> Seq<char> {
    match k {
        ProjectKind::Qml => "qml_app (QtQuick)"@,
        ProjectKind::Widget => "widget_app (QtWidgets)"@,
        ProjectKind::Server => "server_app (HTTP / event loop)"@,
        ProjectKind::Cli => "cli_app"@,
        ProjectKind::Kirigami => "Kirigami (KDE Frameworks 6)"@,
        ProjectKind::Gpu => "gpu_app (Qt 6.11 Canvas Painter)"@,
    }
}

/// The template of the entry file.
pub open spec fn entry_template(k: ProjectKind) -> Seq<char> {
    match k {
        ProjectKind::Qml => "qml.cute.tmpl"@,
        ProjectKind::Widget => "widget.cute.tmpl"@,
        ProjectKind::Server => "server.cute.tmpl"@,
        ProjectKind::Cli => "cli.cute.tmpl"@,
        ProjectKind::Kirigami => "kirigami.cute.tmpl"@,
        ProjectKind::Gpu => "gpu.cute.tmpl"@,
    }
}

/// The template of the manifest.
pub open spec fn manifest_template(k: ProjectKind) -> Seq<char> {
    match k {
        ProjectKind::Kirigami => "cute.toml.kirigami"@,
        ProjectKind::Gpu => "cute.toml.gpu"@,
        _ => "cute.toml.empty"@,
    }
}

impl ProjectKind {
    /// The kind that the flags ask for.
    pub fn pick(
        qml: bool,
        widget: bool,
        server: bool,
        cli: bool,
        kirigami: bool,
        gpu: bool,
    ) -> (r: ProjectKind)
        ensures
            r == picked_kind(widget, server, cli, kirigami, gpu),
    {
        let _ = qml;
        if widget {
            ProjectKind::Widget
        } else if server {
            ProjectKind::Server
        } else if cli {
            ProjectKind::Cli
        } else if kirigami {
            ProjectKind::Kirigami
        } else if gpu {
            ProjectKind::Gpu
        } else {
            ProjectKind::Qml
        }
    }

    /// The name of the template of the entry file.
    pub fn cute_template(self) -> (r: &'static str)
        ensures
            r@ == entry_template(self),
    {
        match self {
            ProjectKind::Qml => "qml.cute.tmpl",
            ProjectKind::Widget => "widget.cute.tmpl",
            ProjectKind::Server => "server.cute.tmpl",
            ProjectKind::Cli => "cli.cute.tmpl",
            ProjectKind::Kirigami => "kirigami.cute.tmpl",
            ProjectKind::Gpu => "gpu.cute.tmpl",
        }
    }

    /// The name of the template of the manifest.
    pub fn cute_toml_template(self) -> (r: &'static str)
        ensures
            r@ == manifest_template(self),
    {
        match self {
            ProjectKind::Kirigami => "cute.toml.kirigami",
            ProjectKind::Gpu => "cute.toml.gpu",
            _ => "cute.toml.empty",
        }
    }

    /// What the kind is called.
    pub fn label(self) -> (r: &'static str)
        ensures
            r@ == kind_label(self),
    {
        match self {
            ProjectKind::Qml => "qml_app (QtQuick)",
            ProjectKind::Widget => "widget_app (QtWidgets)",
            ProjectKind::Server => "server_app (HTTP / event loop)",
            ProjectKind::Cli => "cli_app",
            ProjectKind::Kirigami => "Kirigami (KDE Frameworks 6)",
            ProjectKind::Gpu => "gpu_app (Qt 6.11 Canvas Painter)",
        }
    }
}

// ---- names --------------------------------------------------------------------------

pub open spec fn starts_name(c: char) -> bool {
    is_ascii_lower(c) || is_ascii_upper(c) || c == '_'
}

/// A name of letters, digits and `_` that does not start with a digit.
pub open spec fn is_project_name(s: Seq<char>) -> bool {
    &&& s.len() > 0
    &&& starts_name(s[0])
    &&& forall|i: int| 0 <= i < s.len() ==> starts_name(#[trigger] s[i]) || is_ascii_digit(s[i])
}

fn char_starts_name(c: char) -> (r: bool)
    ensures
        r == starts_name(c),
{
    ('a' <= c && c <= 'z') || ('A' <= c && c <= 'Z') || c == '_'
}

/// Whether a project can have this name.
pub fn is_valid_project_name(name: &str) -> (r: bool)
    ensures
        r == is_project_name(name@),
{
    let v = chars_of(name);
    if v.len() == 0 || !char_starts_name(v[0]) {
        return false;
    }
    let mut i: usize = 1;
    while i < v.len()
        invariant
            1 <= i <= v@.len(),
            v@ == name@,
            forall|j: int| 0 <= j < i ==> starts_name(#[trigger] v@[j]) || is_ascii_digit(v@[j]),
        decreases v@.len() - i,
    {
        let c = v[i];
        if !char_starts_name(c) && !('0' <= c && c <= '9') {
            assert(!(starts_name(name@[i as int]) || is_ascii_digit(name@[i as int])));
            return false;
        }
        i += 1;
    }
    true
}

// ---- projects -----------------------------------------------------------------------

/// A file to write.
#[derive(Debug)]
pub struct NewFile {
    pub path: String,
    pub text: String,
}

/// The texts that a project is made from.
#[derive(Debug)]
pub struct Templates {
    pub entry: String,
    pub manifest: String,
    pub gitignore: String,
    pub vscode_settings: String,
    pub vscode_extensions: String,
}

/// A new project: the directories to make, the files to write, and what to say.
#[derive(Debug)]
pub struct NewProject {
    pub dirs: Vec<String>,
    pub files: Vec<NewFile>,
    pub report: String,
}

pub open spec fn file_views(v: Seq<NewFile>) -> Seq<(Seq<char>, Seq<char>)> {
    Seq::new(v.len(), |i: int| (v[i].path@, v[i].text@))
}

/// The files of a project.
pub open spec fn project_files(name: Seq<char>, t: Templates, vscode: bool) -> Seq<
    (Seq<char>, Seq<char>),
> {
    let base = seq![
        (path_join(name, name + ".cute"@), replace(t.entry@, "{NAME}"@, name)),
        (path_join(name, "cute.toml"@), t.manifest@),
        (path_join(name, ".gitignore"@), replace(t.gitignore@, "{NAME}"@, name)),
    ];
    if vscode {
        let dir = path_join(name, ".vscode"@);
        base + seq![
            (path_join(dir, "settings.json"@), t.vscode_settings@),
            (path_join(dir, "extensions.json"@), t.vscode_extensions@),
        ]
    } else {
        base
    }
}

/// The directories of a project.
pub open spec fn project_dirs(name: Seq<char>, vscode: bool) -> Seq<Seq<char>> {
    if vscode {
        seq![name, path_join(name, ".vscode"@)]
    } else {
        seq![name]
    }
}

/// What is said of a new project.
pub open spec fn project_report(name: Seq<char>, k: ProjectKind, vscode: bool) -> Seq<char> {
    "created "@ + name + "/\n  template: "@ + kind_label(k) + "\n"@ + (if vscode {
        "  vscode:   .vscode/settings.json + extensions.json wired to cute-lsp\n"@
    } else {
        Seq::empty()
    }) + "  next:\n    cd "@ + name + "\n    cute build "@ + name + ".cute\n    ./"@ + name + "\n"@
}

/// Why no project of this name can be made.
pub open spec fn init_error(name: Seq<char>, exists_already: bool) -> Option<Seq<char>> {
    if !is_project_name(name) {
        Some(
            "error: `"@ + name
                + "` is not a valid project name (use letters, digits, `_`, starting with letter or `_`)"@,
        )
    } else if exists_already {
        Some("error: `"@ + name + "` already exists; aborting"@)
    } else {
        None
    }
}

fn report_project(name: &str, kind: ProjectKind, vscode: bool) -> (r: String)
    ensures
        r@ == project_report(name@, kind, vscode),
{
    let mut out = "created ".to_owned().concat(name).concat("/\n  template: ").concat(
        kind.label(),
    ).concat("\n");
    if vscode {
        out = out.concat("  vscode:   .vscode/settings.json + extensions.json wired to cute-lsp\n");
    } else {
        assert(out@ + Seq::<char>::empty() =~= out@);
    }
    out.concat("  next:\n    cd ").concat(name).concat("\n    cute build ").concat(name).concat(
        ".cute\n    ./",
    ).concat(name).concat("\n")
}

/// Plans a new project. `exists_already` says whether there is something of
/// this name.
pub fn init_project(
    name: &str,
    kind: ProjectKind,
    vscode: bool,
    exists_already: bool,
    templates: &Templates,
) -> (r: Result<NewProject, String>)
    ensures
        match init_error(name@, exists_already) {
            Some(m) => match r {
                Err(e) => e@ == m,
                Ok(_) => false,
            },
            None => match r {
                Ok(p) => {
                    &&& crate::text::views(p.dirs@) == project_dirs(name@, vscode)
                    &&& file_views(p.files@) == project_files(name@, *templates, vscode)
                    &&& p.report@ == project_report(name@, kind, vscode)
                },
                Err(_) => false,
            },
        },
{
    if !is_valid_project_name(name) {
        return Err(
            "error: `".to_owned().concat(name).concat(
                "` is not a valid project name (use letters, digits, `_`, starting with letter or `_`)",
            ),
        );
    }
    if exists_already {
        return Err("error: `".to_owned().concat(name).concat("` already exists; aborting"));
    }
    proof {
        reveal_strlit("{NAME}");
    }
    let mut dirs: Vec<String> = Vec::new();
    dirs.push(name.to_owned());
    let mut files: Vec<NewFile> = Vec::new();
    files.push(
        NewFile {
            path: join_path(name, name.to_owned().concat(".cute").as_str()),
            text: replaced(templates.entry.as_str(), "{NAME}", name),
        },
    );
    files.push(
        NewFile { path: join_path(name, "cute.toml"), text: templates.manifest.clone() },
    );
    files.push(
        NewFile {
            path: join_path(name, ".gitignore"),
            text: replaced(templates.gitignore.as_str(), "{NAME}", name),
        },
    );
    if vscode {
        let dir = join_path(name, ".vscode");
        files.push(
            NewFile {
                path: join_path(dir.as_str(), "settings.json"),
                text: templates.vscode_settings.clone(),
            },
        );
        files.push(
            NewFile {
                path: join_path(dir.as_str(), "extensions.json"),
                text: templates.vscode_extensions.clone(),
            },
        );
        dirs.push(dir);
    }
    assert(file_views(files@) =~= project_files(name@, *templates, vscode));
    assert(crate::text::views(dirs@) =~= project_dirs(name@, vscode));
    let report = report_project(name, kind, vscode);
    Ok(NewProject { dirs, files, report })
}

} // verus!
