//! CMake projects.

use crate::bundle::BundleConfig;
use crate::manifest::{Library, Manifest};
use crate::modes::{
    mode_components, mode_libs, mode_pch, mode_qrc, pch_headers_for_mode, qt6_components_for_mode,
    qt6_link_libs_for_mode, sources_qrc_for_mode, BuildExtras, BuildMode,
};
use crate::text::{
    add_all_missing, all_added, chain, contains, copy_strings, has, join, joined, lines,
    matches_at, text_lines, text_words, views, words, wrap_each, wrapped,
};
use vstd::prelude::*;
use vstd::string::*;

verus! {

/// The generated C++ of a program.
#[derive(Debug)]
pub struct EmitResult {
    pub header_filename: String,
    pub header: String,
    pub source_filename: String,
    pub source: String,
    /// The QML files of the views.
    pub views: Vec<EmittedView>,
}

/// The QML file of a view.
#[derive(Debug, Clone)]
pub struct EmittedView {
    pub filename: String,
    pub qml: String,
}

// ---- programs -------------------------------------------------------------------

/// `base` with what is missing of `extra`, between spaces.
pub open spec fn with_extras(base: Seq<char>, extra: Seq<Seq<char>>) -> Seq<char> {
    join(all_added(words(base), extra, extra.len() as int), " "@)
}

fn list_with_extras(base: &str, extra: &Vec<String>) -> (r: String)
    ensures
        r@ == with_extras(base@, views(extra@)),
{
    assert(views(extra@).len() == extra@.len());
    joined(&add_all_missing(text_words(base), extra), " ")
}

/// The line of the resource file, where the mode has one.
pub open spec fn qrc_line(mode: BuildMode) -> Seq<char> {
    if mode_qrc(mode).len() == 0 {
        ""@
    } else {
        "    "@ + mode_qrc(mode) + "\n"@
    }
}

fn render_qrc_line(mode: BuildMode) -> (r: String)
    ensures
        r@ == qrc_line(mode),
{
    let file = sources_qrc_for_mode(mode);
    if file.is_empty() {
        "".to_owned()
    } else {
        "    ".to_owned().concat(file).concat("\n")
    }
}

/// The `find_package` lines of the manifest: its own packages first, then the
/// libraries.
pub open spec fn manifest_packages(manifest: Manifest) -> Seq<char> {
    join(
        wrapped(views(manifest.cmake.find_package@), "find_package("@, " REQUIRED)"@) + wrapped(
            views(manifest.cute_libraries.deps@),
            "find_package("@,
            " REQUIRED)"@,
        ),
        "\n"@,
    )
}

fn render_manifest_packages(manifest: &Manifest) -> (r: String)
    ensures
        r@ == manifest_packages(*manifest),
{
    let a = wrap_each(&manifest.cmake.find_package, "find_package(", " REQUIRED)");
    let b = wrap_each(&manifest.cute_libraries.deps, "find_package(", " REQUIRED)");
    joined(&chain(a, b), "\n")
}

/// ` Name::Name` for each of the first `n` libraries.
pub open spec fn library_links(deps: Seq<Seq<char>>, n: int) -> Seq<char>
    decreases n,
{
    if n <= 0 {
        ""@
    } else {
        library_links(deps, n - 1) + " "@ + deps[n - 1] + "::"@ + deps[n - 1]
    }
}

/// What the manifest adds to the link line.
pub open spec fn manifest_links(manifest: Manifest) -> Seq<char> {
    let libs = views(manifest.cmake.link_libraries@);
    let deps = views(manifest.cute_libraries.deps@);
    if libs.len() == 0 && deps.len() == 0 {
        ""@
    } else {
        " "@ + join(libs, " "@) + library_links(deps, deps.len() as int)
    }
}

fn render_manifest_links(manifest: &Manifest) -> (r: String)
    ensures
        r@ == manifest_links(*manifest),
{
    let deps = &manifest.cute_libraries.deps;
    let mut links = "".to_owned();
    let mut i: usize = 0;
    while i < deps.len()
        invariant
            i <= deps@.len(),
            links@ == library_links(views(deps@), i as int),
        decreases deps@.len() - i,
    {
        links = links.concat(" ").concat(deps[i].as_str()).concat("::").concat(deps[i].as_str());
        i += 1;
    }
    assert(views(deps@).len() == deps@.len());
    assert(views(manifest.cmake.link_libraries@).len() == manifest.cmake.link_libraries@.len());
    if manifest.cmake.link_libraries.len() == 0 && deps.len() == 0 {
        return "".to_owned();
    }
    " ".to_owned().concat(joined(&manifest.cmake.link_libraries, " ").as_str()).concat(
        links.as_str(),
    )
}

/// The least version of Qt, where the mode has one.
pub open spec fn version_words(mode: BuildMode) -> Seq<char> {
    if mode == BuildMode::CuteUi {
        " 6.11"@
    } else {
        ""@
    }
}

/// The line that finds the CuteUI runtime, where the mode needs it.
pub open spec fn cuteui_line(mode: BuildMode) -> Seq<char> {
    if mode == BuildMode::CuteUi {
        "find_package(CuteUI REQUIRED)\n"@
    } else {
        ""@
    }
}

/// The precompiled headers of a program.
pub open spec fn pch_list(mode: BuildMode, extra: Seq<Seq<char>>) -> Seq<char> {
    join(
        wrapped(all_added(words(mode_pch(mode)), extra, extra.len() as int), "    \""@, "\""@),
        "\n"@,
    )
}

fn render_pch_list(mode: BuildMode, extra: &Vec<String>) -> (r: String)
    ensures
        r@ == pch_list(mode, views(extra@)),
{
    assert(views(extra@).len() == extra@.len());
    let all = add_all_missing(pch_headers_for_mode(mode), extra);
    joined(&wrap_each(&all, "    \"", "\""), "\n")
}

/// The block that precompiles the headers.
pub open spec fn pch_block_text(stem: Seq<char>, list: Seq<char>) -> Seq<char> {
    "\n"@
        + "# Precompile the Qt umbrella headers — they dominate compile\n"@
        + "# time on Qt projects and rarely change. Disable with CUTE_NO_PCH=1.\n"@
        + "target_precompile_headers("@
        + stem
        + " PRIVATE\n"@
        + list
        + "\n"@
        + ")\n"@
}

fn pch_block(stem: &str, list: &str) -> (r: String)
    ensures
        r@ == pch_block_text(stem@, list@),
{
    "\n".to_owned()
        .concat("# Precompile the Qt umbrella headers — they dominate compile\n")
        .concat("# time on Qt projects and rarely change. Disable with CUTE_NO_PCH=1.\n")
        .concat("target_precompile_headers(")
        .concat(stem)
        .concat(" PRIVATE\n")
        .concat(list)
        .concat("\n")
        .concat(")\n")
}

/// The run paths of the libraries.
pub open spec fn rpath_block_text(stem: Seq<char>, paths: Seq<char>) -> Seq<char> {
    "set_target_properties("@
        + stem
        + " PROPERTIES\n"@
        + "    INSTALL_RPATH \""@
        + paths
        + "\"\n"@
        + "    BUILD_WITH_INSTALL_RPATH TRUE\n"@
        + "    MACOSX_RPATH TRUE\n"@
        + ")\n"@
}

fn rpath_block(stem: &str, paths: &str) -> (r: String)
    ensures
        r@ == rpath_block_text(stem@, paths@),
{
    "set_target_properties(".to_owned()
        .concat(stem)
        .concat(" PROPERTIES\n")
        .concat("    INSTALL_RPATH \"")
        .concat(paths)
        .concat("\"\n")
        .concat("    BUILD_WITH_INSTALL_RPATH TRUE\n")
        .concat("    MACOSX_RPATH TRUE\n")
        .concat(")\n")
}

/// The target properties of a plain binary.
pub open spec fn flat_block_text(stem: Seq<char>, rpaths: Seq<char>) -> Seq<char> {
    "# Plain CLI binary (not a .app bundle), so users get `./"@
        + stem
        + "` directly.\n"@
        + "set_target_properties("@
        + stem
        + " PROPERTIES MACOSX_BUNDLE FALSE)\n"@
        + rpaths
}

fn flat_block(stem: &str, rpaths: &str) -> (r: String)
    ensures
        r@ == flat_block_text(stem@, rpaths@),
{
    "# Plain CLI binary (not a .app bundle), so users get `./".to_owned()
        .concat(stem)
        .concat("` directly.\n")
        .concat("set_target_properties(")
        .concat(stem)
        .concat(" PROPERTIES MACOSX_BUNDLE FALSE)\n")
        .concat(rpaths)
}

/// The target properties of an application bundle.
pub open spec fn app_block_text(stem: Seq<char>, rpaths: Seq<char>) -> Seq<char> {
    "# Emit a `.app` bundle so the GUI binary is `open Foo.app`-able\n"@
        + "# without DYLD env. INSTALL_RPATH bakes in the linked Qt /\n"@
        + "# Kirigami framework dirs. Codesign + entitlements are\n"@
        + "# applied driver-side after the build (see finalize_bundle).\n"@
        + "set_target_properties("@
        + stem
        + " PROPERTIES\n"@
        + "    MACOSX_BUNDLE TRUE\n"@
        + "    MACOSX_BUNDLE_INFO_PLIST \"${CMAKE_SOURCE_DIR}/Info.plist\"\n"@
        + "    INSTALL_RPATH \""@
        + rpaths
        + "\"\n"@
        + "    BUILD_WITH_INSTALL_RPATH TRUE\n"@
        + "    MACOSX_RPATH TRUE\n"@
        + ")\n"@
}

fn app_block(stem: &str, rpaths: &str) -> (r: String)
    ensures
        r@ == app_block_text(stem@, rpaths@),
{
    "# Emit a `.app` bundle so the GUI binary is `open Foo.app`-able\n".to_owned()
        .concat("# without DYLD env. INSTALL_RPATH bakes in the linked Qt /\n")
        .concat("# Kirigami framework dirs. Codesign + entitlements are\n")
        .concat("# applied driver-side after the build (see finalize_bundle).\n")
        .concat("set_target_properties(")
        .concat(stem)
        .concat(" PROPERTIES\n")
        .concat("    MACOSX_BUNDLE TRUE\n")
        .concat("    MACOSX_BUNDLE_INFO_PLIST \"${CMAKE_SOURCE_DIR}/Info.plist\"\n")
        .concat("    INSTALL_RPATH \"")
        .concat(rpaths)
        .concat("\"\n")
        .concat("    BUILD_WITH_INSTALL_RPATH TRUE\n")
        .concat("    MACOSX_RPATH TRUE\n")
        .concat(")\n")
}

/// The run paths of a bundle, where there is one.
pub open spec fn bundle_dirs(bundle: Option<&BundleConfig>) -> Option<Seq<Seq<char>>> {
    match bundle {
        Some(b) => Some(views(b.rpath_dirs@)),
        None => None,
    }
}

/// The bundling block of a target: a plain binary with the run paths of the
/// libraries, or an application bundle with those of the frameworks before
/// them.
pub open spec fn bundle_block(
    stem: Seq<char>,
    bundle: Option<Seq<Seq<char>>>,
    rpaths: Seq<Seq<char>>,
) -> Seq<char> {
    match bundle {
        None => flat_block_text(
            stem,
            if rpaths.len() == 0 {
                ""@
            } else {
                rpath_block_text(stem, join(rpaths, ";"@))
            },
        ),
        Some(dirs) => app_block_text(
            stem,
            join(seq!["@executable_path/../Frameworks"@] + dirs + rpaths, ";"@),
        ),
    }
}

pub fn render_bundle_target_block(
    stem: &str,
    bundle: Option<&BundleConfig>,
    cute_lib_rpaths: &Vec<String>,
) -> (r: String)
    ensures
        r@ == bundle_block(stem@, bundle_dirs(bundle), views(cute_lib_rpaths@)),
{
    assert(views(cute_lib_rpaths@).len() == cute_lib_rpaths@.len());
    match bundle {
        None => {
            let block = if cute_lib_rpaths.len() == 0 {
                "".to_owned()
            } else {
                rpath_block(stem, joined(cute_lib_rpaths, ";").as_str())
            };
            flat_block(stem, block.as_str())
        },
        Some(b) => {
            let mut head: Vec<String> = Vec::new();
            head.push("@executable_path/../Frameworks".to_owned());
            assert(views(head@) =~= seq!["@executable_path/../Frameworks"@]);
            let all = chain(chain(head, copy_strings(&b.rpath_dirs)), copy_strings(cute_lib_rpaths));
            app_block(stem, joined(&all, ";").as_str())
        },
    }
}

/// The whole project file.
pub open spec fn project_text(
    stem: Seq<char>,
    version: Seq<char>,
    components: Seq<char>,
    cuteui: Seq<char>,
    packages: Seq<char>,
    qrc: Seq<char>,
    bundle: Seq<char>,
    libs: Seq<char>,
    links: Seq<char>,
    pch: Seq<char>,
) -> Seq<char> {
    "cmake_minimum_required(VERSION 3.21)\n"@
        + "project("@
        + stem
        + " CXX)\n"@
        + "\n"@
        + "set(CMAKE_CXX_STANDARD 20)\n"@
        + "set(CMAKE_CXX_STANDARD_REQUIRED ON)\n"@
        + "# cutec emits the qt_create_metaobjectdata<Tag> template specialization\n"@
        + "# itself (Qt 6.9+ moc-output form). AUTORCC packages embedded resources.\n"@
        + "set(CMAKE_AUTOMOC OFF)\n"@
        + "set(CMAKE_AUTORCC ON)\n"@
        + "\n"@
        + "find_package(Qt6"@
        + version
        + " REQUIRED COMPONENTS "@
        + components
        + ")\n"@
        + cuteui
        + packages
        + "\n"@
        + "\n"@
        + "add_executable("@
        + stem
        + "\n"@
        + qrc
        + "    generated/"@
        + stem
        + ".cpp\n"@
        + ")\n"@
        + "\n"@
        + bundle
        + "\n"@
        + "target_include_directories("@
        + stem
        + " PRIVATE\n"@
        + "    generated\n"@
        + "    runtime/cpp\n"@
        + ")\n"@
        + "\n"@
        + "target_link_libraries("@
        + stem
        + " PRIVATE "@
        + libs
        + links
        + ")\n"@
        + pch
}

fn project(
    stem: &str,
    version: &str,
    components: &str,
    cuteui: &str,
    packages: &str,
    qrc: &str,
    bundle: &str,
    libs: &str,
    links: &str,
    pch: &str,
) -> (r: String)
    ensures
        r@ == project_text(stem@, version@, components@, cuteui@, packages@, qrc@, bundle@, libs@, links@, pch@),
{
    "cmake_minimum_required(VERSION 3.21)\n".to_owned()
        .concat("project(")
        .concat(stem)
        .concat(" CXX)\n")
        .concat("\n")
        .concat("set(CMAKE_CXX_STANDARD 20)\n")
        .concat("set(CMAKE_CXX_STANDARD_REQUIRED ON)\n")
        .concat("# cutec emits the qt_create_metaobjectdata<Tag> template specialization\n")
        .concat("# itself (Qt 6.9+ moc-output form). AUTORCC packages embedded resources.\n")
        .concat("set(CMAKE_AUTOMOC OFF)\n")
        .concat("set(CMAKE_AUTORCC ON)\n")
        .concat("\n")
        .concat("find_package(Qt6")
        .concat(version)
        .concat(" REQUIRED COMPONENTS ")
        .concat(components)
        .concat(")\n")
        .concat(cuteui)
        .concat(packages)
        .concat("\n")
        .concat("\n")
        .concat("add_executable(")
        .concat(stem)
        .concat("\n")
        .concat(qrc)
        .concat("    generated/")
        .concat(stem)
        .concat(".cpp\n")
        .concat(")\n")
        .concat("\n")
        .concat(bundle)
        .concat("\n")
        .concat("target_include_directories(")
        .concat(stem)
        .concat(" PRIVATE\n")
        .concat("    generated\n")
        .concat("    runtime/cpp\n")
        .concat(")\n")
        .concat("\n")
        .concat("target_link_libraries(")
        .concat(stem)
        .concat(" PRIVATE ")
        .concat(libs)
        .concat(links)
        .concat(")\n")
        .concat(pch)
}

/// The `CMakeLists.txt` of a program that needs further components, libraries
/// and precompiled headers besides those of its mode.
pub open spec fn cmake_text(
    stem: Seq<char>,
    mode: BuildMode,
    manifest: Manifest,
    pch: bool,
    bundle: Option<Seq<Seq<char>>>,
    components: Seq<Seq<char>>,
    libs: Seq<Seq<char>>,
    headers: Seq<Seq<char>>,
    rpaths: Seq<Seq<char>>,
) -> Seq<char> {
    project_text(
        stem,
        version_words(mode),
        with_extras(mode_components(mode), components),
        cuteui_line(mode),
        manifest_packages(manifest),
        qrc_line(mode),
        bundle_block(stem, bundle, rpaths),
        with_extras(mode_libs(mode), libs),
        manifest_links(manifest),
        if pch {
            pch_block_text(stem, pch_list(mode, headers))
        } else {
            ""@
        },
    )
}

/// The `CMakeLists.txt` of a program. `cute_lib_rpaths` are the library
/// directories of the installed libraries that the manifest names.
pub fn generate_cmake(
    stem: &str,
    mode: BuildMode,
    manifest: &Manifest,
    pch: bool,
    bundle: Option<&BundleConfig>,
    extras: &BuildExtras,
    cute_lib_rpaths: &Vec<String>,
) -> (r: String)
    ensures
        r@ == cmake_text(
            stem@,
            mode,
            *manifest,
            pch,
            bundle_dirs(bundle),
            views(extras.qt6_components@),
            views(extras.qt6_link_libs@),
            views(extras.pch_headers@),
            views(cute_lib_rpaths@),
        ),
{
    let version: &str = if mode == BuildMode::CuteUi {
        " 6.11"
    } else {
        ""
    };
    let cuteui: &str = if mode == BuildMode::CuteUi {
        "find_package(CuteUI REQUIRED)\n"
    } else {
        ""
    };
    let pch_text = if pch {
        pch_block(stem, render_pch_list(mode, &extras.pch_headers).as_str())
    } else {
        "".to_owned()
    };
    project(
        stem,
        version,
        list_with_extras(qt6_components_for_mode(mode), &extras.qt6_components).as_str(),
        cuteui,
        render_manifest_packages(manifest).as_str(),
        render_qrc_line(mode).as_str(),
        render_bundle_target_block(stem, bundle, cute_lib_rpaths).as_str(),
        list_with_extras(qt6_link_libs_for_mode(mode), &extras.qt6_link_libs).as_str(),
        render_manifest_links(manifest).as_str(),
        pch_text.as_str(),
    )
}

// ---- libraries ------------------------------------------------------------------

/// The project file of a library.
pub open spec fn library_project_text(
    name: Seq<char>,
    version: Seq<char>,
    packages: Seq<char>,
    source_file: Seq<char>,
    header_file: Seq<char>,
    links: Seq<char>,
) -> Seq<char> {
    "cmake_minimum_required(VERSION 3.21)\n"@
        + "project("@
        + name
        + " VERSION "@
        + version
        + " LANGUAGES CXX)\n"@
        + "\n"@
        + "set(CMAKE_CXX_STANDARD 20)\n"@
        + "set(CMAKE_CXX_STANDARD_REQUIRED ON)\n"@
        + "set(CMAKE_AUTOMOC OFF)\n"@
        + "set(CMAKE_AUTORCC ON)\n"@
        + "\n"@
        + "find_package(Qt6 REQUIRED COMPONENTS Core Gui)\n"@
        + packages
        + "\n"@
        + "\n"@
        + "add_library("@
        + name
        + " SHARED\n"@
        + "    generated/"@
        + source_file
        + "\n"@
        + ")\n"@
        + "target_include_directories("@
        + name
        + "\n"@
        + "    PRIVATE\n"@
        + "        generated\n"@
        + "        runtime/cpp\n"@
        + "    PUBLIC\n"@
        + "        $<BUILD_INTERFACE:${CMAKE_SOURCE_DIR}/generated>\n"@
        + "        $<INSTALL_INTERFACE:include>\n"@
        + ")\n"@
        + "target_link_libraries("@
        + name
        + " PUBLIC Qt6::Core Qt6::Gui"@
        + links
        + ")\n"@
        + "set_target_properties("@
        + name
        + " PROPERTIES\n"@
        + "    VERSION "@
        + version
        + "\n"@
        + "    SOVERSION "@
        + version
        + "\n"@
        + "    MACOSX_RPATH TRUE\n"@
        + ")\n"@
        + "\n"@
        + "include(GNUInstallDirs)\n"@
        + "install(TARGETS "@
        + name
        + "\n"@
        + "    EXPORT "@
        + name
        + "Targets\n"@
        + "    LIBRARY DESTINATION ${CMAKE_INSTALL_LIBDIR}\n"@
        + "    ARCHIVE DESTINATION ${CMAKE_INSTALL_LIBDIR}\n"@
        + "    RUNTIME DESTINATION ${CMAKE_INSTALL_BINDIR}\n"@
        + ")\n"@
        + "install(FILES generated/"@
        + header_file
        + " RENAME "@
        + name
        + ".h DESTINATION ${CMAKE_INSTALL_INCLUDEDIR})\n"@
        + "install(FILES "@
        + name
        + ".qpi DESTINATION share/cute/bindings)\n"@
        + "install(EXPORT "@
        + name
        + "Targets\n"@
        + "    FILE "@
        + name
        + "Targets.cmake\n"@
        + "    NAMESPACE "@
        + name
        + "::\n"@
        + "    DESTINATION ${CMAKE_INSTALL_LIBDIR}/cmake/"@
        + name
        + "\n"@
        + ")\n"@
        + "include(CMakePackageConfigHelpers)\n"@
        + "configure_package_config_file(\n"@
        + "    "@
        + name
        + "Config.cmake.in\n"@
        + "    ${CMAKE_CURRENT_BINARY_DIR}/"@
        + name
        + "Config.cmake\n"@
        + "    INSTALL_DESTINATION ${CMAKE_INSTALL_LIBDIR}/cmake/"@
        + name
        + "\n"@
        + ")\n"@
        + "write_basic_package_version_file(\n"@
        + "    ${CMAKE_CURRENT_BINARY_DIR}/"@
        + name
        + "ConfigVersion.cmake\n"@
        + "    VERSION "@
        + version
        + "\n"@
        + "    COMPATIBILITY SameMajorVersion\n"@
        + ")\n"@
        + "install(FILES\n"@
        + "    ${CMAKE_CURRENT_BINARY_DIR}/"@
        + name
        + "Config.cmake\n"@
        + "    ${CMAKE_CURRENT_BINARY_DIR}/"@
        + name
        + "ConfigVersion.cmake\n"@
        + "    DESTINATION ${CMAKE_INSTALL_LIBDIR}/cmake/"@
        + name
        + "\n"@
        + ")\n"@
}

fn library_project(
    name: &str,
    version: &str,
    packages: &str,
    source_file: &str,
    header_file: &str,
    links: &str,
) -> (r: String)
    ensures
        r@ == library_project_text(name@, version@, packages@, source_file@, header_file@, links@),
{
    "cmake_minimum_required(VERSION 3.21)\n".to_owned()
        .concat("project(")
        .concat(name)
        .concat(" VERSION ")
        .concat(version)
        .concat(" LANGUAGES CXX)\n")
        .concat("\n")
        .concat("set(CMAKE_CXX_STANDARD 20)\n")
        .concat("set(CMAKE_CXX_STANDARD_REQUIRED ON)\n")
        .concat("set(CMAKE_AUTOMOC OFF)\n")
        .concat("set(CMAKE_AUTORCC ON)\n")
        .concat("\n")
        .concat("find_package(Qt6 REQUIRED COMPONENTS Core Gui)\n")
        .concat(packages)
        .concat("\n")
        .concat("\n")
        .concat("add_library(")
        .concat(name)
        .concat(" SHARED\n")
        .concat("    generated/")
        .concat(source_file)
        .concat("\n")
        .concat(")\n")
        .concat("target_include_directories(")
        .concat(name)
        .concat("\n")
        .concat("    PRIVATE\n")
        .concat("        generated\n")
        .concat("        runtime/cpp\n")
        .concat("    PUBLIC\n")
        .concat("        $<BUILD_INTERFACE:${CMAKE_SOURCE_DIR}/generated>\n")
        .concat("        $<INSTALL_INTERFACE:include>\n")
        .concat(")\n")
        .concat("target_link_libraries(")
        .concat(name)
        .concat(" PUBLIC Qt6::Core Qt6::Gui")
        .concat(links)
        .concat(")\n")
        .concat("set_target_properties(")
        .concat(name)
        .concat(" PROPERTIES\n")
        .concat("    VERSION ")
        .concat(version)
        .concat("\n")
        .concat("    SOVERSION ")
        .concat(version)
        .concat("\n")
        .concat("    MACOSX_RPATH TRUE\n")
        .concat(")\n")
        .concat("\n")
        .concat("include(GNUInstallDirs)\n")
        .concat("install(TARGETS ")
        .concat(name)
        .concat("\n")
        .concat("    EXPORT ")
        .concat(name)
        .concat("Targets\n")
        .concat("    LIBRARY DESTINATION ${CMAKE_INSTALL_LIBDIR}\n")
        .concat("    ARCHIVE DESTINATION ${CMAKE_INSTALL_LIBDIR}\n")
        .concat("    RUNTIME DESTINATION ${CMAKE_INSTALL_BINDIR}\n")
        .concat(")\n")
        .concat("install(FILES generated/")
        .concat(header_file)
        .concat(" RENAME ")
        .concat(name)
        .concat(".h DESTINATION ${CMAKE_INSTALL_INCLUDEDIR})\n")
        .concat("install(FILES ")
        .concat(name)
        .concat(".qpi DESTINATION share/cute/bindings)\n")
        .concat("install(EXPORT ")
        .concat(name)
        .concat("Targets\n")
        .concat("    FILE ")
        .concat(name)
        .concat("Targets.cmake\n")
        .concat("    NAMESPACE ")
        .concat(name)
        .concat("::\n")
        .concat("    DESTINATION ${CMAKE_INSTALL_LIBDIR}/cmake/")
        .concat(name)
        .concat("\n")
        .concat(")\n")
        .concat("include(CMakePackageConfigHelpers)\n")
        .concat("configure_package_config_file(\n")
        .concat("    ")
        .concat(name)
        .concat("Config.cmake.in\n")
        .concat("    ${CMAKE_CURRENT_BINARY_DIR}/")
        .concat(name)
        .concat("Config.cmake\n")
        .concat("    INSTALL_DESTINATION ${CMAKE_INSTALL_LIBDIR}/cmake/")
        .concat(name)
        .concat("\n")
        .concat(")\n")
        .concat("write_basic_package_version_file(\n")
        .concat("    ${CMAKE_CURRENT_BINARY_DIR}/")
        .concat(name)
        .concat("ConfigVersion.cmake\n")
        .concat("    VERSION ")
        .concat(version)
        .concat("\n")
        .concat("    COMPATIBILITY SameMajorVersion\n")
        .concat(")\n")
        .concat("install(FILES\n")
        .concat("    ${CMAKE_CURRENT_BINARY_DIR}/")
        .concat(name)
        .concat("Config.cmake\n")
        .concat("    ${CMAKE_CURRENT_BINARY_DIR}/")
        .concat(name)
        .concat("ConfigVersion.cmake\n")
        .concat("    DESTINATION ${CMAKE_INSTALL_LIBDIR}/cmake/")
        .concat(name)
        .concat("\n")
        .concat(")\n")
}

/// What the manifest adds to the link line of a library.
pub open spec fn library_extra_links(libs: Seq<Seq<char>>) -> Seq<char> {
    if libs.len() == 0 {
        ""@
    } else {
        " "@ + join(libs, " "@)
    }
}

/// The `CMakeLists.txt` of a library.
pub open spec fn library_cmake_text(
    library: Library,
    emit: EmitResult,
    manifest: Manifest,
) -> Seq<char> {
    library_project_text(
        library.name@,
        library.version@,
        join(
            wrapped(views(manifest.cmake.find_package@), "find_package("@, " REQUIRED)"@),
            "\n"@,
        ),
        emit.source_filename@,
        emit.header_filename@,
        library_extra_links(views(manifest.cmake.link_libraries@)),
    )
}

/// The `CMakeLists.txt` of a library: a shared library with its header, its
/// binding and its package configuration.
pub fn generate_library_cmake(
    library: &Library,
    emit: &EmitResult,
    manifest: &Manifest,
) -> (r: String)
    ensures
        r@ == library_cmake_text(*library, *emit, *manifest),
{
    let libs = &manifest.cmake.link_libraries;
    assert(views(libs@).len() == libs@.len());
    let links = if libs.len() == 0 {
        "".to_owned()
    } else {
        " ".to_owned().concat(joined(libs, " ").as_str())
    };
    let packages = joined(
        &wrap_each(&manifest.cmake.find_package, "find_package(", " REQUIRED)"),
        "\n",
    );
    library_project(
        library.name.as_str(),
        library.version.as_str(),
        packages.as_str(),
        emit.source_filename.as_str(),
        emit.header_filename.as_str(),
        links.as_str(),
    )
}

/// The comment by which a package shows its one-line summary.
pub open spec fn summary_comment(description: Seq<char>) -> Seq<char> {
    let v = lines(description);
    if v.len() == 0 || v[0].len() == 0 {
        ""@
    } else {
        "# "@ + v[0] + "\n\n"@
    }
}

/// The package configuration template of a library, with its summary.
pub open spec fn config_template_text(name: Seq<char>, description: Seq<char>) -> Seq<char> {
    "@PACKAGE_INIT@\n"@
        + "\n"@
        + summary_comment(description)
        + "include(CMakeFindDependencyMacro)\n"@
        + "find_dependency(Qt6 COMPONENTS Core Gui)\n"@
        + "\n"@
        + "include(\"${CMAKE_CURRENT_LIST_DIR}/"@
        + name
        + "Targets.cmake\")\n"@
}

fn summary_line(description: &str) -> (r: String)
    ensures
        r@ == summary_comment(description@),
{
    let v = text_lines(description);
    assert(views(v@).len() == v@.len());
    if v.len() == 0 || v[0].as_str().is_empty() {
        "".to_owned()
    } else {
        "# ".to_owned().concat(v[0].as_str()).concat("\n\n")
    }
}

/// The package configuration template of a library.
pub fn generate_library_config_template(library: &Library) -> (r: String)
    ensures
        r@ == config_template_text(library.name@, library.description@),
{
    let summary = summary_line(library.description.as_str());
    "@PACKAGE_INIT@\n".to_owned()
        .concat("\n")
        .concat(summary.as_str())
        .concat("include(CMakeFindDependencyMacro)\n")
        .concat("find_dependency(Qt6 COMPONENTS Core Gui)\n")
        .concat("\n")
        .concat("include(\"${CMAKE_CURRENT_LIST_DIR}/")
        .concat(library.name.as_str())
        .concat("Targets.cmake\")\n")
}

// ---- output of CMake --------------------------------------------------------------

/// What a command wrote to its two outputs, each under a heading.
pub open spec fn combined_output(out: Seq<char>, err: Seq<char>) -> Seq<char> {
    let s = if out.len() == 0 {
        ""@
    } else {
        "--- stdout ---\n"@ + out
    };
    if err.len() == 0 {
        s
    } else if s.len() == 0 {
        s + "--- stderr ---\n"@ + err
    } else {
        s + "\n"@ + "--- stderr ---\n"@ + err
    }
}

/// What a command wrote to its two outputs, each under a heading.
pub fn combine_output(out: &str, err: &str) -> (r: String)
    ensures
        r@ == combined_output(out@, err@),
{
    let s = if out.is_empty() {
        "".to_owned()
    } else {
        "--- stdout ---\n".to_owned().concat(out)
    };
    if err.is_empty() {
        s
    } else if s.as_str().is_empty() {
        s.concat("--- stderr ---\n").concat(err)
    } else {
        s.concat("\n").concat("--- stderr ---\n").concat(err)
    }
}

/// CMake says that it did not find a package.
pub open spec fn names_missing_package(text: Seq<char>) -> bool {
    ||| contains(text, "Could NOT find Qt6"@)
    ||| contains(text, "Could NOT find KF6"@)
    ||| contains(text, "Could NOT find CuteUI"@)
    ||| contains(text, "By not providing \"FindQt6.cmake\""@)
    ||| contains(text, "By not providing \"FindKF6.cmake\""@)
}

/// Whether CMake says that it did not find a package.
pub fn looks_like_missing_package(text: &str) -> (r: bool)
    ensures
        r == names_missing_package(text@),
{
    has(text, "Could NOT find Qt6")
        || has(text, "Could NOT find KF6")
        || has(text, "Could NOT find CuteUI")
        || has(text, "By not providing \"FindQt6.cmake\"")
        || has(text, "By not providing \"FindKF6.cmake\"")
}

/// What is said of a failed configuration: the output, with a hint where a
/// package is missing.
pub open spec fn configure_failure(out: Seq<char>, err: Seq<char>) -> Seq<char> {
    let c = combined_output(out, err);
    if names_missing_package(c) {
        c + "\nhint: run `cute doctor` to diagnose missing dependencies."@
    } else {
        c
    }
}

/// What is said of a failed configuration.
pub fn format_cmake_configure_failure(out: &str, err: &str) -> (r: String)
    ensures
        r@ == configure_failure(out@, err@),
{
    let c = combine_output(out, err);
    if looks_like_missing_package(c.as_str()) {
        c.concat("\nhint: run `cute doctor` to diagnose missing dependencies.")
    } else {
        c
    }
}

// ---- laws -----------------------------------------------------------------------------

proof fn lemma_contains_add(a: Seq<char>, b: Seq<char>, p: Seq<char>)
    requires
        contains(a, p) || contains(b, p),
    ensures
        contains(a + b, p),
{
    let t = a + b;
    if contains(a, p) {
        let k = choose|k: int| matches_at(a, p, k);
        assert(t.subrange(k, k + p.len()) =~= a.subrange(k, k + p.len()));
        assert(matches_at(t, p, k));
    } else {
        let k = choose|k: int| matches_at(b, p, k);
        let n = a.len() as int;
        assert(t.subrange(n + k, n + k + p.len()) =~= b.subrange(k, k + p.len()));
        assert(matches_at(t, p, n + k));
    }
}

proof fn lemma_contains_self(p: Seq<char>)
    ensures
        contains(p, p),
{
    assert(p.subrange(0, p.len() as int) =~= p);
    assert(matches_at(p, p, 0));
}

proof fn lemma_contains_join(parts: Seq<Seq<char>>, sep: Seq<char>, i: int)
    requires
        0 <= i < parts.len(),
    ensures
        contains(join(parts, sep), parts[i]),
    decreases parts.len(),
{
    if parts.len() == 1 {
        lemma_contains_self(parts[0]);
    } else {
        let rest = join(parts.drop_last(), sep);
        if i == parts.len() - 1 {
            lemma_contains_self(parts[i]);
            lemma_contains_add(rest + sep, parts.last(), parts[i]);
        } else {
            lemma_contains_join(parts.drop_last(), sep, i);
            assert(parts.drop_last()[i] == parts[i]);
            lemma_contains_add(rest, sep, parts[i]);
            lemma_contains_add(rest + sep, parts.last(), parts[i]);
        }
    }
}

proof fn lemma_library_links(deps: Seq<Seq<char>>, n: int, i: int)
    requires
        0 <= i < n <= deps.len(),
    ensures
        contains(library_links(deps, n), deps[i] + "::"@ + deps[i]),
    decreases n,
{
    let q = deps[i] + "::"@ + deps[i];
    let before = library_links(deps, n - 1);
    let d = deps[n - 1];
    assert(before + " "@ + d + "::"@ + d =~= (before + " "@) + (d + "::"@ + d));
    if i == n - 1 {
        lemma_contains_self(q);
    } else {
        lemma_library_links(deps, n - 1, i);
        lemma_contains_add(before, " "@, q);
    }
    lemma_contains_add(before + " "@, d + "::"@ + d, q);
}

/// What stands in the packages or in the links of a project stands in the
/// project.
proof fn lemma_project_holds(
    stem: Seq<char>,
    version: Seq<char>,
    components: Seq<char>,
    cuteui: Seq<char>,
    packages: Seq<char>,
    qrc: Seq<char>,
    bundle: Seq<char>,
    libs: Seq<char>,
    links: Seq<char>,
    pch: Seq<char>,
    q: Seq<char>,
)
    requires
        contains(packages, q) || contains(links, q),
    ensures
        contains(
            project_text(
                stem,
                version,
                components,
                cuteui,
                packages,
                qrc,
                bundle,
                libs,
                links,
                pch,
            ),
            q,
        ),
{
    assert forall|a: Seq<char>, b: Seq<char>| contains(a, q) || contains(b, q) implies
        #[trigger] contains(a + b, q) by {
        lemma_contains_add(a, b, q);
    }
}

/// Every library that a manifest depends on is looked for and linked.
pub proof fn law_dependencies_are_found_and_linked(
    stem: Seq<char>,
    mode: BuildMode,
    manifest: Manifest,
    pch: bool,
    bundle: Option<Seq<Seq<char>>>,
    components: Seq<Seq<char>>,
    libs: Seq<Seq<char>>,
    headers: Seq<Seq<char>>,
    rpaths: Seq<Seq<char>>,
    i: int,
)
    requires
        0 <= i < manifest.cute_libraries.deps@.len(),
    ensures
        contains(
            cmake_text(stem, mode, manifest, pch, bundle, components, libs, headers, rpaths),
            "find_package("@ + manifest.cute_libraries.deps@[i]@ + " REQUIRED)"@,
        ),
        contains(
            cmake_text(stem, mode, manifest, pch, bundle, components, libs, headers, rpaths),
            manifest.cute_libraries.deps@[i]@ + "::"@ + manifest.cute_libraries.deps@[i]@,
        ),
{
    let deps = views(manifest.cute_libraries.deps@);
    let own = wrapped(views(manifest.cmake.find_package@), "find_package("@, " REQUIRED)"@);
    let all = own + wrapped(deps, "find_package("@, " REQUIRED)"@);
    let d = deps[i];
    let found = "find_package("@ + d + " REQUIRED)"@;
    let linked = d + "::"@ + d;
    assert(all[own.len() + i] == found);
    lemma_contains_join(all, "\n"@, own.len() + i);
    lemma_library_links(deps, deps.len() as int, i);
    lemma_contains_add(
        " "@ + join(views(manifest.cmake.link_libraries@), " "@),
        library_links(deps, deps.len() as int),
        linked,
    );
    let pch_text = if pch {
        pch_block_text(stem, pch_list(mode, headers))
    } else {
        ""@
    };
    lemma_project_holds(
        stem,
        version_words(mode),
        with_extras(mode_components(mode), components),
        cuteui_line(mode),
        manifest_packages(manifest),
        qrc_line(mode),
        bundle_block(stem, bundle, rpaths),
        with_extras(mode_libs(mode), libs),
        manifest_links(manifest),
        pch_text,
        found,
    );
    lemma_project_holds(
        stem,
        version_words(mode),
        with_extras(mode_components(mode), components),
        cuteui_line(mode),
        manifest_packages(manifest),
        qrc_line(mode),
        bundle_block(stem, bundle, rpaths),
        with_extras(mode_libs(mode), libs),
        manifest_links(manifest),
        pch_text,
        linked,
    );
}

/// Every package that a manifest names is looked for.
pub proof fn law_packages_are_found(
    stem: Seq<char>,
    mode: BuildMode,
    manifest: Manifest,
    pch: bool,
    bundle: Option<Seq<Seq<char>>>,
    components: Seq<Seq<char>>,
    libs: Seq<Seq<char>>,
    headers: Seq<Seq<char>>,
    rpaths: Seq<Seq<char>>,
    i: int,
)
    requires
        0 <= i < manifest.cmake.find_package@.len(),
    ensures
        contains(
            cmake_text(stem, mode, manifest, pch, bundle, components, libs, headers, rpaths),
            "find_package("@ + manifest.cmake.find_package@[i]@ + " REQUIRED)"@,
        ),
{
    let own = wrapped(views(manifest.cmake.find_package@), "find_package("@, " REQUIRED)"@);
    let all = own + wrapped(
        views(manifest.cute_libraries.deps@),
        "find_package("@,
        " REQUIRED)"@,
    );
    let found = "find_package("@ + manifest.cmake.find_package@[i]@ + " REQUIRED)"@;
    assert(all[i] == found);
    lemma_contains_join(all, "\n"@, i);
    lemma_project_holds(
        stem,
        version_words(mode),
        with_extras(mode_components(mode), components),
        cuteui_line(mode),
        manifest_packages(manifest),
        qrc_line(mode),
        bundle_block(stem, bundle, rpaths),
        with_extras(mode_libs(mode), libs),
        manifest_links(manifest),
        if pch {
            pch_block_text(stem, pch_list(mode, headers))
        } else {
            ""@
        },
        found,
    );
}

} // verus!
