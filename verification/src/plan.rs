//! Builds: what is written, and with which arguments CMake runs.

use crate::bundle::{
    build_bundle_config, bundle_entitlements, entitlements, env_block, plist_text,
    render_info_plist, rpaths, BundleConfig,
};
use crate::cmake::{
    cmake_text, combine_output, combined_output, config_template_text, configure_failure,
    format_cmake_configure_failure, generate_cmake, generate_library_cmake,
    generate_library_config_template, library_cmake_text, EmitResult, EmittedView,
};
use crate::dict::{lemma_sorted_list, sorted_list, sorted_set};
use crate::frontend::{prepend_after_pragma_once, prepended};
use crate::ast::Module;
use crate::library_qpi::{generate_library_qpi, library_qpi_text};
use crate::manifest::{DriverError, Library, Manifest};
use crate::modes::{
    detect_build_extras, detect_mode, detect_qml_basename, extra_list, macosx_bundle_for_mode,
    mode_name, mode_of, needs_kf6, qml_basename, uses_kf6, BuildMode,
};
use crate::sources::{join_path, path_join};
use crate::text::{
    add_missing, added, append_hex, contains, contains_string, copy_strings, has, hex, join, joined,
    lemma_views_push, opt_view, views,
};
use vstd::prelude::*;
use vstd::string::*;

verus! {

// ---- what a build starts from ------------------------------------------------------

/// What kind of build a manifest asks for.
#[derive(Debug, Clone, Copy, PartialEq, Eq, Structural)]
pub enum BuildTarget {
    Library,
    Binary,
}

/// What to build: a library where the manifest declares one, and else a
/// program.
pub fn compile_to_binary(manifest: &Manifest) -> (r: BuildTarget)
    ensures
        r == if manifest.library is Some {
            BuildTarget::Library
        } else {
            BuildTarget::Binary
        },
{
    match &manifest.library {
        Some(_) => BuildTarget::Library,
        None => BuildTarget::Binary,
    }
}

/// The inputs of a test build: the first one names it, the others are merged
/// in. Without inputs there is nothing to build.
pub fn compile_to_test_binary_multi(inputs: &Vec<String>) -> (r: Result<
    (String, Vec<String>),
    DriverError,
>)
    ensures
        match r {
            Ok((primary, extras)) => {
                &&& inputs@.len() > 0
                &&& primary == inputs@[0]
                &&& extras@ == inputs@.drop_first()
            },
            Err(DriverError::NoStem(p)) => inputs@.len() == 0 && p@ == "<empty>"@,
            Err(_) => false,
        },
{
    if inputs.len() == 0 {
        return Err(DriverError::NoStem("<empty>".to_owned()));
    }
    let mut extras: Vec<String> = Vec::new();
    let mut i: usize = 1;
    while i < inputs.len()
        invariant
            1 <= i <= inputs@.len(),
            extras@ == inputs@.subrange(1, i as int),
        decreases inputs@.len() - i,
    {
        extras.push(inputs[i].clone());
        i += 1;
        assert(extras@ =~= inputs@.subrange(1, i as int));
    }
    assert(extras@ =~= inputs@.drop_first());
    Ok((inputs[0].clone(), extras))
}

/// The inputs of a test build of one file.
pub fn compile_to_test_binary(input: &str) -> (r: Result<(String, Vec<String>), DriverError>)
    ensures
        match r {
            Ok((primary, extras)) => primary@ == input@ && extras@.len() == 0,
            Err(_) => false,
        },
{
    let mut inputs: Vec<String> = Vec::new();
    inputs.push(input.to_owned());
    compile_to_test_binary_multi(&inputs)
}

// ---- the cache -------------------------------------------------------------------------

/// One step of the FNV-1a hash.
pub open spec fn fnv_step(h: u64, b: u8) -> u64 {
    (h ^ (b as u64)).wrapping_mul(0x100000001b3)
}

/// The FNV-1a hash of the first `n` bytes.
pub open spec fn fnv(data: Seq<u8>, n: int) -> u64
    decreases n,
{
    if n <= 0 {
        0xcbf29ce484222325
    } else {
        fnv_step(fnv(data, n - 1), data[n - 1])
    }
}

/// The FNV-1a hash.
pub fn fnv1a_64(data: &[u8]) -> (r: u64)
    ensures
        r == fnv(data@, data@.len() as int),
{
    let mut h: u64 = 0xcbf29ce484222325;
    let mut i: usize = 0;
    while i < data.len()
        invariant
            i <= data@.len(),
            h == fnv(data@, i as int),
        decreases data@.len() - i,
    {
        h = (h ^ (data[i] as u64)).wrapping_mul(0x100000001b3);
        i += 1;
    }
    h
}

/// The root of the user's cache: what `XDG_CACHE_HOME` says, else `.cache` in
/// the home directory, else the directory for temporary files.
pub fn cache_root(xdg: &Option<String>, home: &Option<String>, temp: &str) -> (r: String)
    ensures
        r@ == if opt_view(*xdg) is Some && opt_view(*xdg)->0.len() > 0 {
            opt_view(*xdg)->0
        } else if home is Some {
            path_join(home->0@, ".cache"@)
        } else {
            temp@
        },
{
    match xdg {
        Some(p) => {
            if !p.as_str().is_empty() {
                return p.clone();
            }
        },
        None => {},
    }
    match home {
        Some(h) => join_path(h.as_str(), ".cache"),
        None => temp.to_owned(),
    }
}

/// The build directory of a source: named by the hash of its path.
pub open spec fn cache_dir(root: Seq<char>, path: Seq<u8>) -> Seq<char> {
    path_join(
        path_join(path_join(root, "cute"@), "build"@),
        hex(fnv(path, path.len() as int) as nat, 16),
    )
}

/// The build directory of the source with this canonical path.
pub fn cache_dir_for(root: &str, canonical: &[u8]) -> (r: String)
    ensures
        r@ == cache_dir(root@, canonical@),
{
    let mut key = String::new();
    append_hex(&mut key, fnv1a_64(canonical), 16);
    assert(key@ =~= hex(fnv(canonical@, canonical@.len() as int) as nat, 16));
    let base = join_path(join_path(root, "cute").as_str(), "build");
    join_path(base.as_str(), key.as_str())
}

// ---- planned files ----------------------------------------------------------------------

/// A file of the build directory.
#[derive(Debug, Clone)]
pub struct PlannedFile {
    pub path: String,
    pub text: String,
}

/// The files by path and text.
pub open spec fn file_texts(v: Seq<PlannedFile>) -> Seq<(Seq<char>, Seq<char>)> {
    Seq::new(v.len(), |i: int| (v[i].path@, v[i].text@))
}

fn put_file(files: Vec<PlannedFile>, path: String, text: String) -> (r: Vec<PlannedFile>)
    ensures
        file_texts(r@) == file_texts(files@).push((path@, text@)),
{
    let ghost before = files@;
    let ghost entry = (path@, text@);
    let mut out = files;
    out.push(PlannedFile { path, text });
    assert(file_texts(out@) =~= file_texts(before).push(entry));
    out
}

// ---- the generated header -----------------------------------------------------------------

/// The header with the server headers, where the program is a server.
pub open spec fn server_header(mode: BuildMode, header: Seq<char>) -> Seq<char> {
    if mode == BuildMode::Server {
        prepended(header, "#include <QtHttpServer>\n#include <QtNetwork>\n"@)
    } else {
        header
    }
}

/// The header with the first `n` lines put in, one before the other.
pub open spec fn with_lines(header: Seq<char>, lines: Seq<Seq<char>>, n: int) -> Seq<char>
    decreases n,
{
    if n <= 0 {
        header
    } else {
        prepended(with_lines(header, lines, n - 1), lines[n - 1])
    }
}

/// The text that tells what a program needs beyond its mode: the source, and
/// the header, where members are initialized.
pub open spec fn scanned(emit: EmitResult) -> Seq<char> {
    emit.source@ + server_header(mode_of(emit.source@), emit.header@)
}

/// The `#include` lines that the generated text asks for.
pub open spec fn extra_include_lines(cpp: Seq<char>) -> Seq<Seq<char>> {
    extra_list(
        cpp,
        seq!["#include <QtNetwork>\n"@],
        seq!["#include \"cute_code_highlighter.h\"\n"@],
    )
}

/// The header as it is written.
pub open spec fn final_header(emit: EmitResult) -> Seq<char> {
    let lines = extra_include_lines(scanned(emit));
    with_lines(
        server_header(mode_of(emit.source@), emit.header@),
        lines,
        lines.len() as int,
    )
}

// ---- QML ------------------------------------------------------------------------------------

/// The QML file that the program loads.
pub open spec fn qml_name(source: Seq<char>) -> Seq<char> {
    match qml_basename(source) {
        Some(b) => b,
        None => "main.qml"@,
    }
}

/// The files of the views.
pub open spec fn view_names(views: Seq<EmittedView>) -> Seq<Seq<char>> {
    Seq::new(views.len(), |i: int| views[i].filename@)
}

/// The QML file is none of the views, so it must stand beside the source.
pub open spec fn needs_sibling(emit: EmitResult) -> bool {
    !view_names(emit.views@).contains(qml_name(emit.source@))
}

/// The lines of the resource file.
pub open spec fn qrc_lines(s: Seq<char>, files: Seq<Seq<char>>, n: int) -> Seq<char>
    decreases n,
{
    if n <= 0 {
        s
    } else {
        qrc_lines(s, files, n - 1) + "        <file>"@ + files[n - 1] + "</file>\n"@
    }
}

/// The resource file: it lists the files in order.
pub open spec fn qrc_text(files: Seq<Seq<char>>) -> Seq<char> {
    qrc_lines("<RCC>\n    <qresource prefix=\"/\">\n"@, files, files.len() as int)
        + "    </qresource>\n</RCC>\n"@
}

/// The files of the views behind `files`.
pub open spec fn with_views(
    files: Seq<(Seq<char>, Seq<char>)>,
    views: Seq<EmittedView>,
    n: int,
) -> Seq<(Seq<char>, Seq<char>)>
    decreases n,
{
    if n <= 0 {
        files
    } else {
        with_views(files, views, n - 1).push((views[n - 1].filename@, views[n - 1].qml@))
    }
}

/// The files of a QML program behind `files`: those of the views, the QML file
/// beside the source where it is none of them, and the resource file that lists
/// them all.
pub open spec fn with_qml(
    files: Seq<(Seq<char>, Seq<char>)>,
    emit: EmitResult,
    sibling: Seq<char>,
) -> Seq<(Seq<char>, Seq<char>)> {
    let name = qml_name(emit.source@);
    let a = with_views(files, emit.views@, emit.views@.len() as int);
    let b = if needs_sibling(emit) {
        a.push((name, sibling))
    } else {
        a
    };
    b.push(("qml.qrc"@, qrc_text(sorted_list(added(view_names(emit.views@), name)))))
}

fn collect_view_names(emitted: &Vec<EmittedView>) -> (r: Vec<String>)
    ensures
        views(r@) == view_names(emitted@),
{
    let mut out: Vec<String> = Vec::new();
    let mut i: usize = 0;
    while i < emitted.len()
        invariant
            i <= emitted@.len(),
            views(out@) == view_names(emitted@).take(i as int),
        decreases emitted@.len() - i,
    {
        proof {
            lemma_views_push(out@, emitted@[i as int].filename);
        }
        out.push(emitted[i].filename.clone());
        i += 1;
        assert(views(out@) =~= view_names(emitted@).take(i as int));
    }
    assert(views(out@) =~= view_names(emitted@));
    out
}

fn render_qrc(files: &Vec<String>) -> (r: String)
    ensures
        r@ == qrc_text(views(files@)),
{
    let mut s = "<RCC>\n    <qresource prefix=\"/\">\n".to_owned();
    let ghost head = s@;
    let mut i: usize = 0;
    while i < files.len()
        invariant
            i <= files@.len(),
            s@ == qrc_lines(head, views(files@), i as int),
        decreases files@.len() - i,
    {
        s = s.concat("        <file>").concat(files[i].as_str()).concat("</file>\n");
        i += 1;
    }
    assert(views(files@).len() == files@.len());
    s.concat("    </qresource>\n</RCC>\n")
}

fn put_views(files: Vec<PlannedFile>, emitted: &Vec<EmittedView>) -> (r: Vec<PlannedFile>)
    ensures
        file_texts(r@) == with_views(file_texts(files@), emitted@, emitted@.len() as int),
{
    let ghost start = file_texts(files@);
    let mut out = files;
    let mut i: usize = 0;
    while i < emitted.len()
        invariant
            i <= emitted@.len(),
            file_texts(out@) == with_views(start, emitted@, i as int),
        decreases emitted@.len() - i,
    {
        out = put_file(out, emitted[i].filename.clone(), emitted[i].qml.clone());
        i += 1;
    }
    out
}

// ---- the plan of a program --------------------------------------------------------------------

/// What the host has.
#[derive(Debug)]
pub struct HostFacts {
    pub on_macos: bool,
    /// Whether headers are precompiled.
    pub pch: bool,
    pub craft_prefix: Option<String>,
    pub qt_prefix: Option<String>,
    pub cute_ui_prefix: Option<String>,
    pub brew_prefix: String,
    /// The prefixes of the installed libraries that the manifest names.
    pub library_prefixes: Vec<String>,
    /// Their library directories.
    pub library_rpaths: Vec<String>,
}

/// What is written for a program, and how CMake is called.
#[derive(Debug)]
pub struct BuildPlan {
    pub mode: BuildMode,
    pub files: Vec<PlannedFile>,
    /// Present where the program becomes an application bundle.
    pub bundle: Option<BundleConfig>,
    pub configure_args: Vec<String>,
}

/// The program becomes an application bundle.
pub open spec fn is_bundled(mode: BuildMode, host: HostFacts) -> bool {
    host.on_macos && (mode == BuildMode::Qml || mode == BuildMode::Widgets || mode
        == BuildMode::CuteUi)
}

/// The run paths of the bundle, where there is one.
pub open spec fn planned_bundle(
    mode: BuildMode,
    manifest: Manifest,
    host: HostFacts,
) -> Option<Seq<Seq<char>>> {
    if is_bundled(mode, host) {
        Some(rpaths(manifest, opt_view(host.craft_prefix), host.brew_prefix@))
    } else {
        None
    }
}

/// The CMake project of the program.
pub open spec fn planned_cmake(
    stem: Seq<char>,
    emit: EmitResult,
    manifest: Manifest,
    host: HostFacts,
) -> Seq<char> {
    let mode = mode_of(emit.source@);
    let cpp = scanned(emit);
    cmake_text(
        stem,
        mode,
        manifest,
        host.pch,
        planned_bundle(mode, manifest, host),
        extra_list(cpp, seq!["Network"@], seq!["Gui"@, "Widgets"@]),
        extra_list(cpp, seq!["Qt6::Network"@], seq!["Qt6::Gui"@, "Qt6::Widgets"@]),
        extra_list(cpp, seq!["<QtNetwork>"@], seq!["<QSyntaxHighlighter>"@]),
        views(host.library_rpaths@),
    )
}

/// The files of the build directory: the generated code, the QML files where
/// the program is a QML program, the CMake project, and what a bundle needs.
pub open spec fn planned_files(
    stem: Seq<char>,
    emit: EmitResult,
    manifest: Manifest,
    host: HostFacts,
    sibling: Seq<char>,
) -> Seq<(Seq<char>, Seq<char>)> {
    let mode = mode_of(emit.source@);
    let e = Seq::<Seq<char>>::empty();
    let generated = Seq::<(Seq<char>, Seq<char>)>::empty().push(
        ("generated/"@ + emit.header_filename@, final_header(emit)),
    ).push(("generated/"@ + emit.source_filename@, emit.source@));
    let with_views = if mode == BuildMode::Qml {
        with_qml(generated, emit, sibling)
    } else {
        generated
    };
    let with_cmake = with_views.push(
        ("CMakeLists.txt"@, planned_cmake(stem, emit, manifest, host)),
    );
    if is_bundled(mode, host) {
        with_cmake.push(("Info.plist"@, plist_text(stem, env_block(e, e, e)))).push(
            ("cute.entitlements"@, entitlements()),
        )
    } else {
        with_cmake
    }
}

/// The string of an option, as a list.
pub open spec fn opt_list(o: Option<String>) -> Seq<Seq<char>> {
    match o {
        Some(s) => seq![s@],
        None => Seq::empty(),
    }
}

/// Where CMake looks for packages: Craft first where the manifest needs KDE
/// Frameworks, then Qt, then the CuteUI runtime where the program needs it,
/// then the libraries.
pub open spec fn prefix_paths(
    mode: BuildMode,
    manifest: Manifest,
    host: HostFacts,
) -> Seq<Seq<char>> {
    (if needs_kf6(manifest) {
        opt_list(host.craft_prefix)
    } else {
        Seq::empty()
    }) + opt_list(host.qt_prefix) + (if mode == BuildMode::CuteUi {
        opt_list(host.cute_ui_prefix)
    } else {
        Seq::empty()
    }) + views(host.library_prefixes@)
}

/// The arguments that configure a build in the directory `work`.
pub open spec fn configure_arguments(work: Seq<char>, prefixes: Seq<Seq<char>>) -> Seq<Seq<char>> {
    let base = seq!["-S"@, work, "-B"@, path_join(work, "build"@), "-DCMAKE_BUILD_TYPE=Release"@];
    if prefixes.len() == 0 {
        base
    } else {
        base.push("-DCMAKE_PREFIX_PATH="@ + join(prefixes, ";"@))
    }
}

fn push_opt(v: Vec<String>, o: &Option<String>) -> (r: Vec<String>)
    ensures
        views(r@) == views(v@) + opt_list(*o),
{
    let ghost before = v@;
    let mut out = v;
    match o {
        Some(s) => {
            out.push(s.clone());
        },
        None => {},
    }
    assert(views(out@) =~= views(before) + opt_list(*o));
    out
}

fn collect_prefixes(mode: BuildMode, manifest: &Manifest, host: &HostFacts) -> (r: Vec<String>)
    ensures
        views(r@) == prefix_paths(mode, *manifest, *host),
{
    let mut v: Vec<String> = Vec::new();
    let ghost e = Seq::<Seq<char>>::empty();
    assert(views(v@) =~= e);
    if uses_kf6(manifest) {
        v = push_opt(v, &host.craft_prefix);
        assert(views(v@) =~= opt_list(host.craft_prefix));
    }
    v = push_opt(v, &host.qt_prefix);
    let ghost two = views(v@);
    if mode == BuildMode::CuteUi {
        v = push_opt(v, &host.cute_ui_prefix);
    } else {
        assert(two + e =~= two);
    }
    crate::text::chain(v, copy_strings(&host.library_prefixes))
}

fn render_configure(work: &str, prefixes: &Vec<String>) -> (r: Vec<String>)
    ensures
        views(r@) == configure_arguments(work@, views(prefixes@)),
{
    let mut out: Vec<String> = Vec::new();
    out.push("-S".to_owned());
    out.push(work.to_owned());
    out.push("-B".to_owned());
    out.push(join_path(work, "build"));
    out.push("-DCMAKE_BUILD_TYPE=Release".to_owned());
    let ghost base = seq![
        "-S"@,
        work@,
        "-B"@,
        path_join(work@, "build"@),
        "-DCMAKE_BUILD_TYPE=Release"@,
    ];
    assert(views(out@) =~= base);
    assert(views(prefixes@).len() == prefixes@.len());
    if prefixes.len() > 0 {
        let arg = "-DCMAKE_PREFIX_PATH=".to_owned().concat(joined(prefixes, ";").as_str());
        proof {
            lemma_views_push(out@, arg);
        }
        out.push(arg);
    }
    out
}

/// Puts the lines into the header.
fn insert_lines(header: String, lines: &Vec<String>) -> (r: String)
    ensures
        r@ == with_lines(header@, views(lines@), lines@.len() as int),
{
    let ghost start = header@;
    let mut h = header;
    let mut i: usize = 0;
    while i < lines.len()
        invariant
            i <= lines@.len(),
            h@ == with_lines(start, views(lines@), i as int),
        decreases lines@.len() - i,
    {
        prepend_after_pragma_once(&mut h, lines[i].as_str());
        i += 1;
    }
    h
}

/// Plans the build of a program. `sibling` is the text of the QML file beside
/// the source, where it exists; `input_dir` is the directory of the source, and
/// `work` the build directory.
pub fn compile_binary_with_mode(
    stem: &str,
    emit: &EmitResult,
    manifest: &Manifest,
    host: &HostFacts,
    sibling: &Option<String>,
    input_dir: &Option<String>,
    work: &str,
) -> (r: Result<BuildPlan, DriverError>)
    ensures
        match r {
            Ok(p) => {
                let mode = mode_of(emit.source@);
                &&& mode == BuildMode::Qml && needs_sibling(*emit) ==> sibling is Some
                &&& p.mode == mode
                &&& file_texts(p.files@) == planned_files(
                    stem@,
                    *emit,
                    *manifest,
                    *host,
                    opt_view(*sibling)->0,
                )
                &&& match p.bundle {
                    Some(b) => {
                        &&& planned_bundle(mode, *manifest, *host) == Some(views(b.rpath_dirs@))
                        &&& b.dyld_framework_paths@.len() == 0
                        &&& b.dyld_library_paths@.len() == 0
                        &&& b.qml_import_paths@.len() == 0
                    },
                    None => planned_bundle(mode, *manifest, *host) is None,
                }
                &&& views(p.configure_args@) == configure_arguments(
                    work@,
                    prefix_paths(mode, *manifest, *host),
                )
            },
            Err(DriverError::MissingQml(path)) => {
                &&& mode_of(emit.source@) == BuildMode::Qml
                &&& needs_sibling(*emit)
                &&& sibling is None
                &&& path@ == path_join(
                    match opt_view(*input_dir) {
                        Some(d) => d,
                        None => "."@,
                    },
                    qml_name(emit.source@),
                )
            },
            Err(_) => false,
        },
{
    let mode = detect_mode(emit.source.as_str());
    let mut header = emit.header.clone();
    if mode == BuildMode::Server {
        prepend_after_pragma_once(
            &mut header,
            "#include <QtHttpServer>\n#include <QtNetwork>\n",
        );
    }
    let cpp = emit.source.clone().concat(header.as_str());
    let extras = detect_build_extras(cpp.as_str());
    assert(views(extras.extra_includes@).len() == extras.extra_includes@.len());
    let header = insert_lines(header, &extras.extra_includes);
    let mut files: Vec<PlannedFile> = Vec::new();
    assert(file_texts(files@) =~= Seq::<(Seq<char>, Seq<char>)>::empty());
    files = put_file(
        files,
        "generated/".to_owned().concat(emit.header_filename.as_str()),
        header,
    );
    files = put_file(
        files,
        "generated/".to_owned().concat(emit.source_filename.as_str()),
        emit.source.clone(),
    );
    if mode == BuildMode::Qml {
        let name = match detect_qml_basename(emit.source.as_str()) {
            Some(b) => b,
            None => "main.qml".to_owned(),
        };
        let names = collect_view_names(&emit.views);
        files = put_views(files, &emit.views);
        if !contains_string(&names, name.as_str()) {
            match sibling {
                Some(text) => {
                    files = put_file(files, name.clone(), text.clone());
                },
                None => {
                    let dir: &str = match input_dir {
                        Some(d) => d.as_str(),
                        None => ".",
                    };
                    return Err(DriverError::MissingQml(join_path(dir, name.as_str())));
                },
            }
        }
        let all = sorted_set(&add_missing(names, name.as_str()));
        proof {
            lemma_sorted_list(added(view_names(emit.views@), name@), views(all@));
        }
        files = put_file(files, "qml.qrc".to_owned(), render_qrc(&all));
    }
    let bundle = if macosx_bundle_for_mode(mode, host.on_macos) {
        build_bundle_config(manifest, &host.craft_prefix, host.brew_prefix.as_str())
    } else {
        None
    };
    let cmake = match &bundle {
        Some(b) => generate_cmake(
            stem,
            mode,
            manifest,
            host.pch,
            Some(b),
            &extras,
            &host.library_rpaths,
        ),
        None => generate_cmake(
            stem,
            mode,
            manifest,
            host.pch,
            None,
            &extras,
            &host.library_rpaths,
        ),
    };
    files = put_file(files, "CMakeLists.txt".to_owned(), cmake);
    match &bundle {
        Some(b) => {
            proof {
                let e = Seq::<Seq<char>>::empty();
                assert(views(b.dyld_framework_paths@) =~= e);
                assert(views(b.dyld_library_paths@) =~= e);
                assert(views(b.qml_import_paths@) =~= e);
            }
            files = put_file(files, "Info.plist".to_owned(), render_info_plist(stem, b));
            files = put_file(files, "cute.entitlements".to_owned(), bundle_entitlements());
        },
        None => {},
    }
    let prefixes = collect_prefixes(mode, manifest, host);
    let configure_args = render_configure(work, &prefixes);
    Ok(BuildPlan { mode, files, bundle, configure_args })
}

/// What follows a run of CMake that configures: its failure is reported with
/// its output.
pub fn after_configure(success: bool, out: &str, err: &str) -> (r: Result<(), DriverError>)
    ensures
        match r {
            Ok(_) => success,
            Err(DriverError::CmakeConfigure(s)) => !success && s@ == configure_failure(out@, err@),
            Err(_) => false,
        },
{
    if success {
        Ok(())
    } else {
        Err(DriverError::CmakeConfigure(format_cmake_configure_failure(out, err)))
    }
}

/// What follows a run of CMake that builds or installs.
pub fn after_build(success: bool, out: &str, err: &str) -> (r: Result<(), DriverError>)
    ensures
        match r {
            Ok(_) => success,
            Err(DriverError::CmakeBuild(s)) => !success && s@ == combined_output(out@, err@),
            Err(_) => false,
        },
{
    if success {
        Ok(())
    } else {
        Err(DriverError::CmakeBuild(combine_output(out, err)))
    }
}

/// The places where the build may have left its product, the likelier one
/// first.
pub open spec fn product_places(build_dir: Seq<char>, stem: Seq<char>, bundled: bool) -> Seq<
    Seq<char>,
> {
    let name = if bundled {
        stem + ".app"@
    } else {
        stem
    };
    seq![path_join(build_dir, name), path_join(path_join(build_dir, "Release"@), name)]
}

/// The places where the build may have left its product.
pub fn product_candidates(build_dir: &str, stem: &str, bundled: bool) -> (r: Vec<String>)
    ensures
        views(r@) == product_places(build_dir@, stem@, bundled),
{
    let name = if bundled {
        stem.to_owned().concat(".app")
    } else {
        stem.to_owned()
    };
    let mut out: Vec<String> = Vec::new();
    out.push(join_path(build_dir, name.as_str()));
    out.push(join_path(join_path(build_dir, "Release").as_str(), name.as_str()));
    assert(views(out@) =~= product_places(build_dir@, stem@, bundled));
    out
}

/// The first of the places that exists.
pub fn pick_product(
    candidates: &Vec<String>,
    exists: &Vec<bool>,
    build_dir: &str,
) -> (r: Result<String, DriverError>)
    requires
        exists@.len() == candidates@.len(),
    ensures
        match r {
            Ok(p) => exists|i: int|
                0 <= i < candidates@.len() && exists@[i] && (forall|k: int|
                    0 <= k < i ==> !exists@[k]) && p == #[trigger] candidates@[i],
            Err(DriverError::BinaryNotFound(d)) => {
                &&& d@ == build_dir@
                &&& forall|k: int| 0 <= k < candidates@.len() ==> !exists@[k]
            },
            Err(_) => false,
        },
{
    let mut i: usize = 0;
    while i < candidates.len()
        invariant
            i <= candidates@.len(),
            exists@.len() == candidates@.len(),
            forall|k: int| 0 <= k < i ==> !exists@[k],
        decreases candidates@.len() - i,
    {
        if exists[i] {
            let p = candidates[i].clone();
            assert(p == candidates@[i as int]);
            return Ok(p);
        }
        i += 1;
    }
    Err(DriverError::BinaryNotFound(build_dir.to_owned()))
}

// ---- the plan of a library ----------------------------------------------------------------------

/// Where a library is installed: by name, version and host.
pub open spec fn library_prefix(home: Seq<char>, library: Library, triple: Seq<char>) -> Seq<char> {
    path_join(
        path_join(
            path_join(path_join(home, ".cache/cute/libraries"@), library.name@),
            library.version@,
        ),
        triple,
    )
}

/// Where a library is installed. Without a home directory there is no place.
pub fn library_install_prefix(
    library: &Library,
    home: &Option<String>,
    triple: &str,
) -> (r: Result<String, DriverError>)
    ensures
        match r {
            Ok(p) => home is Some && p@ == library_prefix(home->0@, *library, triple@),
            Err(DriverError::Manifest(m)) => home is None && m@
                == "HOME not set; can't pick library prefix"@,
            Err(_) => false,
        },
{
    match home {
        Some(h) => {
            let a = join_path(h.as_str(), ".cache/cute/libraries");
            let b = join_path(a.as_str(), library.name.as_str());
            let c = join_path(b.as_str(), library.version.as_str());
            Ok(join_path(c.as_str(), triple))
        },
        None => Err(
            DriverError::Manifest("HOME not set; can't pick library prefix".to_owned()),
        ),
    }
}

/// The name of the host: its architecture and its system.
pub fn host_triple_short(arch: &str, os: &str) -> (r: String)
    ensures
        r@ == arch@ + "-"@ + os@,
{
    arch.to_owned().concat("-").concat(os)
}

/// The generated code has an entry point.
pub open spec fn defines_main(source: Seq<char>) -> bool {
    contains(source, "\nint main("@) || contains(source, "\nstatic int main("@)
}

/// The files of a library's build directory.
pub open spec fn library_files(
    library: Library,
    emit: EmitResult,
    manifest: Manifest,
    user_module: Module,
) -> Seq<(Seq<char>, Seq<char>)> {
    Seq::<(Seq<char>, Seq<char>)>::empty().push(
        ("generated/"@ + emit.header_filename@, emit.header@),
    ).push(("generated/"@ + emit.source_filename@, emit.source@)).push(
        ("CMakeLists.txt"@, library_cmake_text(library, emit, manifest)),
    ).push(
        (
            library.name@ + "Config.cmake.in"@,
            config_template_text(library.name@, library.description@),
        ),
    ).push(
        (library.name@ + ".qpi"@, library_qpi_text(library, user_module)),
    )
}

/// The arguments that configure a library's build.
pub open spec fn library_arguments(
    work: Seq<char>,
    prefix: Seq<char>,
    qt_prefix: Option<Seq<char>>,
) -> Seq<Seq<char>> {
    let base = seq![
        "-S"@,
        work,
        "-B"@,
        path_join(work, "build"@),
        "-DCMAKE_BUILD_TYPE=Release"@,
        "-DCMAKE_INSTALL_PREFIX="@ + prefix,
    ];
    match qt_prefix {
        Some(p) => base.push("-DCMAKE_PREFIX_PATH="@ + p),
        None => base,
    }
}

/// What is written for a library, and how CMake is called.
#[derive(Debug)]
pub struct LibraryPlan {
    pub files: Vec<PlannedFile>,
    pub configure_args: Vec<String>,
}

/// A library has no place for the intrinsics of a program.
pub open spec fn intrinsic_error(mode: BuildMode) -> Seq<char> {
    "[library] declared but source uses an app intrinsic ("@ + mode_name(mode)
        + ") — libraries can't have qml_app / widget_app / server_app / gpu_app"@
}

/// Why a library cannot be built: there is none declared, or its source is that
/// of a program.
pub open spec fn library_error(manifest: Manifest, source: Seq<char>) -> Option<Seq<char>> {
    let mode = mode_of(source);
    if manifest.library is None {
        Some("missing [library] block in cute.toml"@)
    } else if mode != BuildMode::Plain && mode != BuildMode::Cli {
        Some(intrinsic_error(mode))
    } else if defines_main(source) {
        Some("[library] declared but source defines `fn main` — libraries shouldn't have main"@)
    } else {
        None
    }
}

fn render_library_configure(
    work: &str,
    prefix: &str,
    qt_prefix: &Option<String>,
) -> (r: Vec<String>)
    ensures
        views(r@) == library_arguments(work@, prefix@, opt_view(*qt_prefix)),
{
    let mut args: Vec<String> = Vec::new();
    args.push("-S".to_owned());
    args.push(work.to_owned());
    args.push("-B".to_owned());
    args.push(join_path(work, "build"));
    args.push("-DCMAKE_BUILD_TYPE=Release".to_owned());
    args.push("-DCMAKE_INSTALL_PREFIX=".to_owned().concat(prefix));
    match qt_prefix {
        Some(p) => {
            args.push("-DCMAKE_PREFIX_PATH=".to_owned().concat(p.as_str()));
        },
        None => {},
    }
    assert(views(args@) =~= library_arguments(work@, prefix@, opt_view(*qt_prefix)));
    args
}

fn plan_library_files(
    library: &Library,
    emit: &EmitResult,
    manifest: &Manifest,
    user_module: &Module,
) -> (r: Vec<PlannedFile>)
    ensures
        file_texts(r@) == library_files(*library, *emit, *manifest, *user_module),
{
    let mut files: Vec<PlannedFile> = Vec::new();
    assert(file_texts(files@) =~= Seq::<(Seq<char>, Seq<char>)>::empty());
    files = put_file(
        files,
        "generated/".to_owned().concat(emit.header_filename.as_str()),
        emit.header.clone(),
    );
    files = put_file(
        files,
        "generated/".to_owned().concat(emit.source_filename.as_str()),
        emit.source.clone(),
    );
    files = put_file(
        files,
        "CMakeLists.txt".to_owned(),
        generate_library_cmake(library, emit, manifest),
    );
    files = put_file(
        files,
        library.name.clone().concat("Config.cmake.in"),
        generate_library_config_template(library),
    );
    files = put_file(
        files,
        library.name.clone().concat(".qpi"),
        generate_library_qpi(library, user_module),
    );
    files
}

/// Plans the build of a library that is installed at `prefix`.
pub fn compile_to_library(
    emit: &EmitResult,
    manifest: &Manifest,
    user_module: &Module,
    work: &str,
    prefix: &str,
    qt_prefix: &Option<String>,
) -> (r: Result<LibraryPlan, DriverError>)
    ensures
        match r {
            Ok(p) => {
                &&& library_error(*manifest, emit.source@) is None
                &&& file_texts(p.files@) == library_files(
                    manifest.library->0,
                    *emit,
                    *manifest,
                    *user_module,
                )
                &&& views(p.configure_args@) == library_arguments(
                    work@,
                    prefix@,
                    opt_view(*qt_prefix),
                )
            },
            Err(DriverError::Manifest(m)) => library_error(*manifest, emit.source@) == Some(m@),
            Err(_) => false,
        },
{
    let library = match &manifest.library {
        Some(l) => l,
        None => {
            return Err(DriverError::Manifest("missing [library] block in cute.toml".to_owned()));
        },
    };
    let source = emit.source.as_str();
    let mode = detect_mode(source);
    if mode != BuildMode::Plain && mode != BuildMode::Cli {
        let m = "[library] declared but source uses an app intrinsic (".to_owned().concat(
            mode.name(),
        ).concat(") — libraries can't have qml_app / widget_app / server_app / gpu_app");
        return Err(DriverError::Manifest(m));
    }
    if has(source, "\nint main(") || has(source, "\nstatic int main(") {
        return Err(
            DriverError::Manifest(
                "[library] declared but source defines `fn main` — libraries shouldn't have main".to_owned(),
            ),
        );
    }
    let files = plan_library_files(library, emit, manifest, user_module);
    let args = render_library_configure(work, prefix, qt_prefix);
    Ok(LibraryPlan { files, configure_args: args })
}

// ---- laws ---------------------------------------------------------------------------

/// Craft comes before every other prefix where the manifest needs KDE
/// Frameworks and Craft is installed.
pub proof fn law_craft_comes_first(mode: BuildMode, manifest: Manifest, host: HostFacts)
    requires
        needs_kf6(manifest),
        host.craft_prefix is Some,
    ensures
        prefix_paths(mode, manifest, host).len() > 0,
        prefix_paths(mode, manifest, host)[0] == host.craft_prefix->0@,
{
}

/// The resource file lists every view, and the QML file that the program loads.
pub proof fn law_resources_are_complete(emit: EmitResult, files: Seq<Seq<char>>)
    requires
        crate::dict::sorted_set_of(
            added(view_names(emit.views@), qml_name(emit.source@)),
            files,
        ),
    ensures
        files.contains(qml_name(emit.source@)),
        forall|i: int| 0 <= i < emit.views@.len() ==> files.contains((#[trigger] emit.views@[i]).filename@),
{
    let n = view_names(emit.views@);
    let a = added(n, qml_name(emit.source@));
    if !n.contains(qml_name(emit.source@)) {
        assert(a[n.len() as int] == qml_name(emit.source@));
    }
    assert(a.contains(qml_name(emit.source@)));
    assert forall|i: int| 0 <= i < emit.views@.len() implies files.contains(
        (#[trigger] emit.views@[i]).filename@,
    ) by {
        assert(n[i] == emit.views@[i].filename@);
        assert(a[i] == n[i]);
        assert(a.contains(emit.views@[i].filename@));
    }
}

} // verus!
