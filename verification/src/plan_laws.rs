//! What holds of planned builds: which files they write, what these hold, and
//! where CMake looks.

use crate::ast::Module;
use crate::bundle::entitlements;
use crate::cmake::{
    config_template_text, library_cmake_text, library_extra_links, library_project_text, EmitResult,
    EmittedView,
};
use crate::build_laws::lemma_contains_add;
use crate::library_qpi::library_qpi_text;
use crate::manifest::{Library, Manifest};
use crate::meta_laws::lemma_ends_contains;
use crate::modes::{mode_of, needs_kf6, uses_highlighter, uses_network, BuildMode};
use crate::plan::{
    configure_arguments, extra_include_lines, final_header, is_bundled, library_arguments,
    library_error, library_files, opt_list, planned_cmake, planned_files, prefix_paths, qml_name,
    scanned, server_header, with_lines, with_qml, with_views, HostFacts,
};
use crate::project_laws::{lemma_left, lemma_prepended_holds, lemma_pushed, lemma_right};
use crate::sources::path_join;
use crate::text::{contains, join, views, wrapped};
use vstd::prelude::*;

verus! {

// ---- libraries ---------------------------------------------------------------------

/// The `find_package` line of each package that the manifest names.
pub open spec fn asked_packages(manifest: Manifest) -> Seq<char> {
    join(
        views(manifest.cmake.find_package@).map_values(
            |p: Seq<char>| "find_package("@ + p + " REQUIRED)"@,
        ),
        "\n"@,
    )
}

/// The libraries that the manifest names, each behind a space.
pub open spec fn asked_links(manifest: Manifest) -> Seq<char> {
    if manifest.cmake.link_libraries@.len() == 0 {
        ""@
    } else {
        " "@ + join(views(manifest.cmake.link_libraries@), " "@)
    }
}

pub(crate) proof fn lemma_longer_contains()
    ensures
        forall|a: Seq<char>, b: Seq<char>, q: Seq<char>|
            contains(a, q) || contains(b, q) ==> #[trigger] contains(a + b, q),
{
    assert forall|a: Seq<char>, b: Seq<char>, q: Seq<char>|
        contains(a, q) || contains(b, q) implies #[trigger] contains(a + b, q) by {
        lemma_contains_add(a, b, q);
    }
}

#[verifier::rlimit(30)]
proof fn lemma_library_project(
    name: Seq<char>,
    version: Seq<char>,
    packages: Seq<char>,
    source_file: Seq<char>,
    header_file: Seq<char>,
    links: Seq<char>,
)
    ensures
        contains(
            library_project_text(name, version, packages, source_file, header_file, links),
            "project("@ + name + " VERSION "@ + version + " LANGUAGES CXX)\n"@,
        ),
{
    let q = "project("@ + name + " VERSION "@ + version + " LANGUAGES CXX)\n"@;
    let p = "cmake_minimum_required(VERSION 3.21)\n"@;
    assert(p + "project("@ + name + " VERSION "@ + version + " LANGUAGES CXX)\n"@ =~= p + q);
    lemma_ends_contains(p, q);
    lemma_longer_contains();
    let m = "cmake_minimum_required(VERSION 3.21)\n"@ + "project("@ + name + " VERSION "@ + version
        + " LANGUAGES CXX)\n"@ + "\n"@ + "set(CMAKE_CXX_STANDARD 20)\n"@
        + "set(CMAKE_CXX_STANDARD_REQUIRED ON)\n"@ + "set(CMAKE_AUTOMOC OFF)\n"@
        + "set(CMAKE_AUTORCC ON)\n"@ + "\n"@ + "find_package(Qt6 REQUIRED COMPONENTS Core Gui)\n"@
        + packages + "\n"@ + "\n"@ + "add_library("@ + name + " SHARED\n"@ + "    generated/"@
        + source_file + "\n"@ + ")\n"@ + "target_include_directories("@ + name + "\n"@
        + "    PRIVATE\n"@ + "        generated\n"@ + "        runtime/cpp\n"@ + "    PUBLIC\n"@
        + "        $<BUILD_INTERFACE:${CMAKE_SOURCE_DIR}/generated>\n"@
        + "        $<INSTALL_INTERFACE:include>\n"@ + ")\n"@ + "target_link_libraries("@ + name
        + " PUBLIC Qt6::Core Qt6::Gui"@ + links + ")\n"@ + "set_target_properties("@ + name
        + " PROPERTIES\n"@ + "    VERSION "@ + version + "\n"@ + "    SOVERSION "@ + version;
    assert(contains(m, q));
}

#[verifier::rlimit(30)]
proof fn lemma_library_packages(
    name: Seq<char>,
    version: Seq<char>,
    packages: Seq<char>,
    source_file: Seq<char>,
    header_file: Seq<char>,
    links: Seq<char>,
)
    ensures
        contains(
            library_project_text(name, version, packages, source_file, header_file, links),
            "find_package(Qt6 REQUIRED COMPONENTS Core Gui)\n"@ + packages + "\n"@,
        ),
{
    let q = "find_package(Qt6 REQUIRED COMPONENTS Core Gui)\n"@ + packages + "\n"@;
    let p = "cmake_minimum_required(VERSION 3.21)\n"@ + "project("@ + name + " VERSION "@ + version
        + " LANGUAGES CXX)\n"@ + "\n"@ + "set(CMAKE_CXX_STANDARD 20)\n"@
        + "set(CMAKE_CXX_STANDARD_REQUIRED ON)\n"@ + "set(CMAKE_AUTOMOC OFF)\n"@
        + "set(CMAKE_AUTORCC ON)\n"@ + "\n"@;
    assert(p + "find_package(Qt6 REQUIRED COMPONENTS Core Gui)\n"@ + packages + "\n"@ =~= p + q);
    lemma_ends_contains(p, q);
    lemma_longer_contains();
    let m = "cmake_minimum_required(VERSION 3.21)\n"@ + "project("@ + name + " VERSION "@ + version
        + " LANGUAGES CXX)\n"@ + "\n"@ + "set(CMAKE_CXX_STANDARD 20)\n"@
        + "set(CMAKE_CXX_STANDARD_REQUIRED ON)\n"@ + "set(CMAKE_AUTOMOC OFF)\n"@
        + "set(CMAKE_AUTORCC ON)\n"@ + "\n"@ + "find_package(Qt6 REQUIRED COMPONENTS Core Gui)\n"@
        + packages + "\n"@ + "\n"@ + "add_library("@ + name + " SHARED\n"@ + "    generated/"@
        + source_file + "\n"@ + ")\n"@ + "target_include_directories("@ + name + "\n"@
        + "    PRIVATE\n"@ + "        generated\n"@ + "        runtime/cpp\n"@ + "    PUBLIC\n"@
        + "        $<BUILD_INTERFACE:${CMAKE_SOURCE_DIR}/generated>\n"@
        + "        $<INSTALL_INTERFACE:include>\n"@ + ")\n"@ + "target_link_libraries("@ + name
        + " PUBLIC Qt6::Core Qt6::Gui"@ + links + ")\n"@ + "set_target_properties("@ + name
        + " PROPERTIES\n"@ + "    VERSION "@ + version + "\n"@ + "    SOVERSION "@ + version + "\n"@
        + "    MACOSX_RPATH TRUE\n"@ + ")\n"@ + "\n"@ + "include(GNUInstallDirs)\n"@
        + "install(TARGETS "@ + name + "\n"@ + "    EXPORT "@;
    assert(contains(m, q));
}

#[verifier::rlimit(30)]
proof fn lemma_library_source(
    name: Seq<char>,
    version: Seq<char>,
    packages: Seq<char>,
    source_file: Seq<char>,
    header_file: Seq<char>,
    links: Seq<char>,
)
    ensures
        contains(
            library_project_text(name, version, packages, source_file, header_file, links),
            "add_library("@ + name + " SHARED\n"@ + "    generated/"@ + source_file + "\n"@ + ")\n"@,
        ),
{
    let q = "add_library("@ + name + " SHARED\n"@ + "    generated/"@ + source_file + "\n"@ + ")\n"@;
    let p = "cmake_minimum_required(VERSION 3.21)\n"@ + "project("@ + name + " VERSION "@ + version
        + " LANGUAGES CXX)\n"@ + "\n"@ + "set(CMAKE_CXX_STANDARD 20)\n"@
        + "set(CMAKE_CXX_STANDARD_REQUIRED ON)\n"@ + "set(CMAKE_AUTOMOC OFF)\n"@
        + "set(CMAKE_AUTORCC ON)\n"@ + "\n"@ + "find_package(Qt6 REQUIRED COMPONENTS Core Gui)\n"@
        + packages + "\n"@ + "\n"@;
    assert(p + "add_library("@ + name + " SHARED\n"@ + "    generated/"@ + source_file + "\n"@
        + ")\n"@ =~= p + q);
    lemma_ends_contains(p, q);
    lemma_longer_contains();
    let m = "cmake_minimum_required(VERSION 3.21)\n"@ + "project("@ + name + " VERSION "@ + version
        + " LANGUAGES CXX)\n"@ + "\n"@ + "set(CMAKE_CXX_STANDARD 20)\n"@
        + "set(CMAKE_CXX_STANDARD_REQUIRED ON)\n"@ + "set(CMAKE_AUTOMOC OFF)\n"@
        + "set(CMAKE_AUTORCC ON)\n"@ + "\n"@ + "find_package(Qt6 REQUIRED COMPONENTS Core Gui)\n"@
        + packages + "\n"@ + "\n"@ + "add_library("@ + name + " SHARED\n"@ + "    generated/"@
        + source_file + "\n"@ + ")\n"@ + "target_include_directories("@ + name + "\n"@
        + "    PRIVATE\n"@ + "        generated\n"@ + "        runtime/cpp\n"@ + "    PUBLIC\n"@
        + "        $<BUILD_INTERFACE:${CMAKE_SOURCE_DIR}/generated>\n"@
        + "        $<INSTALL_INTERFACE:include>\n"@ + ")\n"@ + "target_link_libraries("@ + name
        + " PUBLIC Qt6::Core Qt6::Gui"@ + links + ")\n"@ + "set_target_properties("@ + name
        + " PROPERTIES\n"@ + "    VERSION "@ + version + "\n"@ + "    SOVERSION "@ + version + "\n"@
        + "    MACOSX_RPATH TRUE\n"@ + ")\n"@ + "\n"@ + "include(GNUInstallDirs)\n"@
        + "install(TARGETS "@ + name + "\n"@ + "    EXPORT "@ + name + "Targets\n"@
        + "    LIBRARY DESTINATION ${CMAKE_INSTALL_LIBDIR}\n"@
        + "    ARCHIVE DESTINATION ${CMAKE_INSTALL_LIBDIR}\n"@
        + "    RUNTIME DESTINATION ${CMAKE_INSTALL_BINDIR}\n"@ + ")\n"@
        + "install(FILES generated/"@ + header_file;
    assert(contains(m, q));
}

#[verifier::rlimit(30)]
proof fn lemma_library_links(
    name: Seq<char>,
    version: Seq<char>,
    packages: Seq<char>,
    source_file: Seq<char>,
    header_file: Seq<char>,
    links: Seq<char>,
)
    ensures
        contains(
            library_project_text(name, version, packages, source_file, header_file, links),
            "target_link_libraries("@ + name + " PUBLIC Qt6::Core Qt6::Gui"@ + links + ")\n"@,
        ),
{
    let q = "target_link_libraries("@ + name + " PUBLIC Qt6::Core Qt6::Gui"@ + links + ")\n"@;
    let p = "cmake_minimum_required(VERSION 3.21)\n"@ + "project("@ + name + " VERSION "@ + version
        + " LANGUAGES CXX)\n"@ + "\n"@ + "set(CMAKE_CXX_STANDARD 20)\n"@
        + "set(CMAKE_CXX_STANDARD_REQUIRED ON)\n"@ + "set(CMAKE_AUTOMOC OFF)\n"@
        + "set(CMAKE_AUTORCC ON)\n"@ + "\n"@ + "find_package(Qt6 REQUIRED COMPONENTS Core Gui)\n"@
        + packages + "\n"@ + "\n"@ + "add_library("@ + name + " SHARED\n"@ + "    generated/"@
        + source_file + "\n"@ + ")\n"@ + "target_include_directories("@ + name + "\n"@
        + "    PRIVATE\n"@ + "        generated\n"@ + "        runtime/cpp\n"@ + "    PUBLIC\n"@
        + "        $<BUILD_INTERFACE:${CMAKE_SOURCE_DIR}/generated>\n"@
        + "        $<INSTALL_INTERFACE:include>\n"@ + ")\n"@;
    assert(p + "target_link_libraries("@ + name + " PUBLIC Qt6::Core Qt6::Gui"@ + links + ")\n"@ =~= p + q);
    lemma_ends_contains(p, q);
    lemma_longer_contains();
    let m = "cmake_minimum_required(VERSION 3.21)\n"@ + "project("@ + name + " VERSION "@ + version
        + " LANGUAGES CXX)\n"@ + "\n"@ + "set(CMAKE_CXX_STANDARD 20)\n"@
        + "set(CMAKE_CXX_STANDARD_REQUIRED ON)\n"@ + "set(CMAKE_AUTOMOC OFF)\n"@
        + "set(CMAKE_AUTORCC ON)\n"@ + "\n"@ + "find_package(Qt6 REQUIRED COMPONENTS Core Gui)\n"@
        + packages + "\n"@ + "\n"@ + "add_library("@ + name + " SHARED\n"@ + "    generated/"@
        + source_file + "\n"@ + ")\n"@ + "target_include_directories("@ + name + "\n"@
        + "    PRIVATE\n"@ + "        generated\n"@ + "        runtime/cpp\n"@ + "    PUBLIC\n"@
        + "        $<BUILD_INTERFACE:${CMAKE_SOURCE_DIR}/generated>\n"@
        + "        $<INSTALL_INTERFACE:include>\n"@ + ")\n"@ + "target_link_libraries("@ + name
        + " PUBLIC Qt6::Core Qt6::Gui"@ + links + ")\n"@ + "set_target_properties("@ + name
        + " PROPERTIES\n"@ + "    VERSION "@ + version + "\n"@ + "    SOVERSION "@ + version + "\n"@
        + "    MACOSX_RPATH TRUE\n"@ + ")\n"@ + "\n"@ + "include(GNUInstallDirs)\n"@
        + "install(TARGETS "@ + name + "\n"@ + "    EXPORT "@ + name + "Targets\n"@
        + "    LIBRARY DESTINATION ${CMAKE_INSTALL_LIBDIR}\n"@
        + "    ARCHIVE DESTINATION ${CMAKE_INSTALL_LIBDIR}\n"@
        + "    RUNTIME DESTINATION ${CMAKE_INSTALL_BINDIR}\n"@ + ")\n"@
        + "install(FILES generated/"@ + header_file + " RENAME "@ + name
        + ".h DESTINATION ${CMAKE_INSTALL_INCLUDEDIR})\n"@ + "install(FILES "@ + name
        + ".qpi DESTINATION share/cute/bindings)\n"@ + "install(EXPORT "@ + name + "Targets\n"@
        + "    FILE "@ + name + "Targets.cmake\n"@ + "    NAMESPACE "@ + name + "::\n"@;
    assert(contains(m, q));
}

#[verifier::rlimit(30)]
proof fn lemma_library_version(
    name: Seq<char>,
    version: Seq<char>,
    packages: Seq<char>,
    source_file: Seq<char>,
    header_file: Seq<char>,
    links: Seq<char>,
)
    ensures
        contains(
            library_project_text(name, version, packages, source_file, header_file, links),
            "set_target_properties("@ + name + " PROPERTIES\n"@ + "    VERSION "@ + version + "\n"@
                + "    SOVERSION "@ + version + "\n"@,
        ),
{
    let q = "set_target_properties("@ + name + " PROPERTIES\n"@ + "    VERSION "@ + version + "\n"@
        + "    SOVERSION "@ + version + "\n"@;
    let p = "cmake_minimum_required(VERSION 3.21)\n"@ + "project("@ + name + " VERSION "@ + version
        + " LANGUAGES CXX)\n"@ + "\n"@ + "set(CMAKE_CXX_STANDARD 20)\n"@
        + "set(CMAKE_CXX_STANDARD_REQUIRED ON)\n"@ + "set(CMAKE_AUTOMOC OFF)\n"@
        + "set(CMAKE_AUTORCC ON)\n"@ + "\n"@ + "find_package(Qt6 REQUIRED COMPONENTS Core Gui)\n"@
        + packages + "\n"@ + "\n"@ + "add_library("@ + name + " SHARED\n"@ + "    generated/"@
        + source_file + "\n"@ + ")\n"@ + "target_include_directories("@ + name + "\n"@
        + "    PRIVATE\n"@ + "        generated\n"@ + "        runtime/cpp\n"@ + "    PUBLIC\n"@
        + "        $<BUILD_INTERFACE:${CMAKE_SOURCE_DIR}/generated>\n"@
        + "        $<INSTALL_INTERFACE:include>\n"@ + ")\n"@ + "target_link_libraries("@ + name
        + " PUBLIC Qt6::Core Qt6::Gui"@ + links + ")\n"@;
    assert(p + "set_target_properties("@ + name + " PROPERTIES\n"@ + "    VERSION "@ + version
        + "\n"@ + "    SOVERSION "@ + version + "\n"@ =~= p + q);
    lemma_ends_contains(p, q);
    lemma_longer_contains();
    let m = "cmake_minimum_required(VERSION 3.21)\n"@ + "project("@ + name + " VERSION "@ + version
        + " LANGUAGES CXX)\n"@ + "\n"@ + "set(CMAKE_CXX_STANDARD 20)\n"@
        + "set(CMAKE_CXX_STANDARD_REQUIRED ON)\n"@ + "set(CMAKE_AUTOMOC OFF)\n"@
        + "set(CMAKE_AUTORCC ON)\n"@ + "\n"@ + "find_package(Qt6 REQUIRED COMPONENTS Core Gui)\n"@
        + packages + "\n"@ + "\n"@ + "add_library("@ + name + " SHARED\n"@ + "    generated/"@
        + source_file + "\n"@ + ")\n"@ + "target_include_directories("@ + name + "\n"@
        + "    PRIVATE\n"@ + "        generated\n"@ + "        runtime/cpp\n"@ + "    PUBLIC\n"@
        + "        $<BUILD_INTERFACE:${CMAKE_SOURCE_DIR}/generated>\n"@
        + "        $<INSTALL_INTERFACE:include>\n"@ + ")\n"@ + "target_link_libraries("@ + name
        + " PUBLIC Qt6::Core Qt6::Gui"@ + links + ")\n"@ + "set_target_properties("@ + name
        + " PROPERTIES\n"@ + "    VERSION "@ + version + "\n"@ + "    SOVERSION "@ + version + "\n"@
        + "    MACOSX_RPATH TRUE\n"@ + ")\n"@ + "\n"@ + "include(GNUInstallDirs)\n"@
        + "install(TARGETS "@ + name + "\n"@ + "    EXPORT "@ + name + "Targets\n"@
        + "    LIBRARY DESTINATION ${CMAKE_INSTALL_LIBDIR}\n"@
        + "    ARCHIVE DESTINATION ${CMAKE_INSTALL_LIBDIR}\n"@
        + "    RUNTIME DESTINATION ${CMAKE_INSTALL_BINDIR}\n"@ + ")\n"@
        + "install(FILES generated/"@ + header_file + " RENAME "@ + name
        + ".h DESTINATION ${CMAKE_INSTALL_INCLUDEDIR})\n"@ + "install(FILES "@ + name
        + ".qpi DESTINATION share/cute/bindings)\n"@ + "install(EXPORT "@ + name + "Targets\n"@
        + "    FILE "@ + name + "Targets.cmake\n"@ + "    NAMESPACE "@ + name + "::\n"@
        + "    DESTINATION ${CMAKE_INSTALL_LIBDIR}/cmake/"@ + name + "\n"@ + ")\n"@
        + "include(CMakePackageConfigHelpers)\n"@ + "configure_package_config_file(\n"@ + "    "@
        + name + "Config.cmake.in\n"@;
    assert(contains(m, q));
}

#[verifier::rlimit(30)]
proof fn lemma_library_header(
    name: Seq<char>,
    version: Seq<char>,
    packages: Seq<char>,
    source_file: Seq<char>,
    header_file: Seq<char>,
    links: Seq<char>,
)
    ensures
        contains(
            library_project_text(name, version, packages, source_file, header_file, links),
            "install(FILES generated/"@ + header_file + " RENAME "@ + name
                + ".h DESTINATION ${CMAKE_INSTALL_INCLUDEDIR})\n"@,
        ),
{
    let q = "install(FILES generated/"@ + header_file + " RENAME "@ + name
        + ".h DESTINATION ${CMAKE_INSTALL_INCLUDEDIR})\n"@;
    let p = "cmake_minimum_required(VERSION 3.21)\n"@ + "project("@ + name + " VERSION "@ + version
        + " LANGUAGES CXX)\n"@ + "\n"@ + "set(CMAKE_CXX_STANDARD 20)\n"@
        + "set(CMAKE_CXX_STANDARD_REQUIRED ON)\n"@ + "set(CMAKE_AUTOMOC OFF)\n"@
        + "set(CMAKE_AUTORCC ON)\n"@ + "\n"@ + "find_package(Qt6 REQUIRED COMPONENTS Core Gui)\n"@
        + packages + "\n"@ + "\n"@ + "add_library("@ + name + " SHARED\n"@ + "    generated/"@
        + source_file + "\n"@ + ")\n"@ + "target_include_directories("@ + name + "\n"@
        + "    PRIVATE\n"@ + "        generated\n"@ + "        runtime/cpp\n"@ + "    PUBLIC\n"@
        + "        $<BUILD_INTERFACE:${CMAKE_SOURCE_DIR}/generated>\n"@
        + "        $<INSTALL_INTERFACE:include>\n"@ + ")\n"@ + "target_link_libraries("@ + name
        + " PUBLIC Qt6::Core Qt6::Gui"@ + links + ")\n"@ + "set_target_properties("@ + name
        + " PROPERTIES\n"@ + "    VERSION "@ + version + "\n"@ + "    SOVERSION "@ + version + "\n"@
        + "    MACOSX_RPATH TRUE\n"@ + ")\n"@ + "\n"@ + "include(GNUInstallDirs)\n"@
        + "install(TARGETS "@ + name + "\n"@ + "    EXPORT "@ + name + "Targets\n"@
        + "    LIBRARY DESTINATION ${CMAKE_INSTALL_LIBDIR}\n"@
        + "    ARCHIVE DESTINATION ${CMAKE_INSTALL_LIBDIR}\n"@
        + "    RUNTIME DESTINATION ${CMAKE_INSTALL_BINDIR}\n"@ + ")\n"@;
    assert(p + "install(FILES generated/"@ + header_file + " RENAME "@ + name
        + ".h DESTINATION ${CMAKE_INSTALL_INCLUDEDIR})\n"@ =~= p + q);
    lemma_ends_contains(p, q);
    lemma_longer_contains();
    let m = "cmake_minimum_required(VERSION 3.21)\n"@ + "project("@ + name + " VERSION "@ + version
        + " LANGUAGES CXX)\n"@ + "\n"@ + "set(CMAKE_CXX_STANDARD 20)\n"@
        + "set(CMAKE_CXX_STANDARD_REQUIRED ON)\n"@ + "set(CMAKE_AUTOMOC OFF)\n"@
        + "set(CMAKE_AUTORCC ON)\n"@ + "\n"@ + "find_package(Qt6 REQUIRED COMPONENTS Core Gui)\n"@
        + packages + "\n"@ + "\n"@ + "add_library("@ + name + " SHARED\n"@ + "    generated/"@
        + source_file + "\n"@ + ")\n"@ + "target_include_directories("@ + name + "\n"@
        + "    PRIVATE\n"@ + "        generated\n"@ + "        runtime/cpp\n"@ + "    PUBLIC\n"@
        + "        $<BUILD_INTERFACE:${CMAKE_SOURCE_DIR}/generated>\n"@
        + "        $<INSTALL_INTERFACE:include>\n"@ + ")\n"@ + "target_link_libraries("@ + name
        + " PUBLIC Qt6::Core Qt6::Gui"@ + links + ")\n"@ + "set_target_properties("@ + name
        + " PROPERTIES\n"@ + "    VERSION "@ + version + "\n"@ + "    SOVERSION "@ + version + "\n"@
        + "    MACOSX_RPATH TRUE\n"@ + ")\n"@ + "\n"@ + "include(GNUInstallDirs)\n"@
        + "install(TARGETS "@ + name + "\n"@ + "    EXPORT "@ + name + "Targets\n"@
        + "    LIBRARY DESTINATION ${CMAKE_INSTALL_LIBDIR}\n"@
        + "    ARCHIVE DESTINATION ${CMAKE_INSTALL_LIBDIR}\n"@
        + "    RUNTIME DESTINATION ${CMAKE_INSTALL_BINDIR}\n"@ + ")\n"@
        + "install(FILES generated/"@ + header_file + " RENAME "@ + name
        + ".h DESTINATION ${CMAKE_INSTALL_INCLUDEDIR})\n"@ + "install(FILES "@ + name
        + ".qpi DESTINATION share/cute/bindings)\n"@ + "install(EXPORT "@ + name + "Targets\n"@
        + "    FILE "@ + name + "Targets.cmake\n"@ + "    NAMESPACE "@ + name + "::\n"@
        + "    DESTINATION ${CMAKE_INSTALL_LIBDIR}/cmake/"@ + name + "\n"@ + ")\n"@
        + "include(CMakePackageConfigHelpers)\n"@ + "configure_package_config_file(\n"@ + "    "@
        + name + "Config.cmake.in\n"@ + "    ${CMAKE_CURRENT_BINARY_DIR}/"@ + name
        + "Config.cmake\n"@ + "    INSTALL_DESTINATION ${CMAKE_INSTALL_LIBDIR}/cmake/"@ + name
        + "\n"@ + ")\n"@ + "write_basic_package_version_file(\n"@
        + "    ${CMAKE_CURRENT_BINARY_DIR}/"@ + name + "ConfigVersion.cmake\n"@ + "    VERSION "@
        + version + "\n"@ + "    COMPATIBILITY SameMajorVersion\n"@ + ")\n"@ + "install(FILES\n"@
        + "    ${CMAKE_CURRENT_BINARY_DIR}/"@ + name;
    assert(contains(m, q));
}

#[verifier::rlimit(30)]
proof fn lemma_library_binding(
    name: Seq<char>,
    version: Seq<char>,
    packages: Seq<char>,
    source_file: Seq<char>,
    header_file: Seq<char>,
    links: Seq<char>,
)
    ensures
        contains(
            library_project_text(name, version, packages, source_file, header_file, links),
            "install(FILES "@ + name + ".qpi DESTINATION share/cute/bindings)\n"@,
        ),
{
    let q = "install(FILES "@ + name + ".qpi DESTINATION share/cute/bindings)\n"@;
    let p = "cmake_minimum_required(VERSION 3.21)\n"@ + "project("@ + name + " VERSION "@ + version
        + " LANGUAGES CXX)\n"@ + "\n"@ + "set(CMAKE_CXX_STANDARD 20)\n"@
        + "set(CMAKE_CXX_STANDARD_REQUIRED ON)\n"@ + "set(CMAKE_AUTOMOC OFF)\n"@
        + "set(CMAKE_AUTORCC ON)\n"@ + "\n"@ + "find_package(Qt6 REQUIRED COMPONENTS Core Gui)\n"@
        + packages + "\n"@ + "\n"@ + "add_library("@ + name + " SHARED\n"@ + "    generated/"@
        + source_file + "\n"@ + ")\n"@ + "target_include_directories("@ + name + "\n"@
        + "    PRIVATE\n"@ + "        generated\n"@ + "        runtime/cpp\n"@ + "    PUBLIC\n"@
        + "        $<BUILD_INTERFACE:${CMAKE_SOURCE_DIR}/generated>\n"@
        + "        $<INSTALL_INTERFACE:include>\n"@ + ")\n"@ + "target_link_libraries("@ + name
        + " PUBLIC Qt6::Core Qt6::Gui"@ + links + ")\n"@ + "set_target_properties("@ + name
        + " PROPERTIES\n"@ + "    VERSION "@ + version + "\n"@ + "    SOVERSION "@ + version + "\n"@
        + "    MACOSX_RPATH TRUE\n"@ + ")\n"@ + "\n"@ + "include(GNUInstallDirs)\n"@
        + "install(TARGETS "@ + name + "\n"@ + "    EXPORT "@ + name + "Targets\n"@
        + "    LIBRARY DESTINATION ${CMAKE_INSTALL_LIBDIR}\n"@
        + "    ARCHIVE DESTINATION ${CMAKE_INSTALL_LIBDIR}\n"@
        + "    RUNTIME DESTINATION ${CMAKE_INSTALL_BINDIR}\n"@ + ")\n"@
        + "install(FILES generated/"@ + header_file + " RENAME "@ + name
        + ".h DESTINATION ${CMAKE_INSTALL_INCLUDEDIR})\n"@;
    assert(p + "install(FILES "@ + name + ".qpi DESTINATION share/cute/bindings)\n"@ =~= p + q);
    lemma_ends_contains(p, q);
    lemma_longer_contains();
    let m = "cmake_minimum_required(VERSION 3.21)\n"@ + "project("@ + name + " VERSION "@ + version
        + " LANGUAGES CXX)\n"@ + "\n"@ + "set(CMAKE_CXX_STANDARD 20)\n"@
        + "set(CMAKE_CXX_STANDARD_REQUIRED ON)\n"@ + "set(CMAKE_AUTOMOC OFF)\n"@
        + "set(CMAKE_AUTORCC ON)\n"@ + "\n"@ + "find_package(Qt6 REQUIRED COMPONENTS Core Gui)\n"@
        + packages + "\n"@ + "\n"@ + "add_library("@ + name + " SHARED\n"@ + "    generated/"@
        + source_file + "\n"@ + ")\n"@ + "target_include_directories("@ + name + "\n"@
        + "    PRIVATE\n"@ + "        generated\n"@ + "        runtime/cpp\n"@ + "    PUBLIC\n"@
        + "        $<BUILD_INTERFACE:${CMAKE_SOURCE_DIR}/generated>\n"@
        + "        $<INSTALL_INTERFACE:include>\n"@ + ")\n"@ + "target_link_libraries("@ + name
        + " PUBLIC Qt6::Core Qt6::Gui"@ + links + ")\n"@ + "set_target_properties("@ + name
        + " PROPERTIES\n"@ + "    VERSION "@ + version + "\n"@ + "    SOVERSION "@ + version + "\n"@
        + "    MACOSX_RPATH TRUE\n"@ + ")\n"@ + "\n"@ + "include(GNUInstallDirs)\n"@
        + "install(TARGETS "@ + name + "\n"@ + "    EXPORT "@ + name + "Targets\n"@
        + "    LIBRARY DESTINATION ${CMAKE_INSTALL_LIBDIR}\n"@
        + "    ARCHIVE DESTINATION ${CMAKE_INSTALL_LIBDIR}\n"@
        + "    RUNTIME DESTINATION ${CMAKE_INSTALL_BINDIR}\n"@ + ")\n"@
        + "install(FILES generated/"@ + header_file + " RENAME "@ + name
        + ".h DESTINATION ${CMAKE_INSTALL_INCLUDEDIR})\n"@ + "install(FILES "@ + name
        + ".qpi DESTINATION share/cute/bindings)\n"@ + "install(EXPORT "@ + name + "Targets\n"@
        + "    FILE "@ + name + "Targets.cmake\n"@ + "    NAMESPACE "@ + name + "::\n"@
        + "    DESTINATION ${CMAKE_INSTALL_LIBDIR}/cmake/"@ + name + "\n"@ + ")\n"@
        + "include(CMakePackageConfigHelpers)\n"@ + "configure_package_config_file(\n"@ + "    "@
        + name + "Config.cmake.in\n"@ + "    ${CMAKE_CURRENT_BINARY_DIR}/"@ + name
        + "Config.cmake\n"@ + "    INSTALL_DESTINATION ${CMAKE_INSTALL_LIBDIR}/cmake/"@ + name
        + "\n"@ + ")\n"@ + "write_basic_package_version_file(\n"@
        + "    ${CMAKE_CURRENT_BINARY_DIR}/"@ + name + "ConfigVersion.cmake\n"@ + "    VERSION "@
        + version + "\n"@ + "    COMPATIBILITY SameMajorVersion\n"@ + ")\n"@ + "install(FILES\n"@
        + "    ${CMAKE_CURRENT_BINARY_DIR}/"@ + name + "Config.cmake\n"@
        + "    ${CMAKE_CURRENT_BINARY_DIR}/"@ + name;
    assert(contains(m, q));
}

#[verifier::rlimit(30)]
proof fn lemma_library_targets(
    name: Seq<char>,
    version: Seq<char>,
    packages: Seq<char>,
    source_file: Seq<char>,
    header_file: Seq<char>,
    links: Seq<char>,
)
    ensures
        contains(
            library_project_text(name, version, packages, source_file, header_file, links),
            "install(TARGETS "@ + name + "\n"@ + "    EXPORT "@ + name + "Targets\n"@,
        ),
{
    let q = "install(TARGETS "@ + name + "\n"@ + "    EXPORT "@ + name + "Targets\n"@;
    let p = "cmake_minimum_required(VERSION 3.21)\n"@ + "project("@ + name + " VERSION "@ + version
        + " LANGUAGES CXX)\n"@ + "\n"@ + "set(CMAKE_CXX_STANDARD 20)\n"@
        + "set(CMAKE_CXX_STANDARD_REQUIRED ON)\n"@ + "set(CMAKE_AUTOMOC OFF)\n"@
        + "set(CMAKE_AUTORCC ON)\n"@ + "\n"@ + "find_package(Qt6 REQUIRED COMPONENTS Core Gui)\n"@
        + packages + "\n"@ + "\n"@ + "add_library("@ + name + " SHARED\n"@ + "    generated/"@
        + source_file + "\n"@ + ")\n"@ + "target_include_directories("@ + name + "\n"@
        + "    PRIVATE\n"@ + "        generated\n"@ + "        runtime/cpp\n"@ + "    PUBLIC\n"@
        + "        $<BUILD_INTERFACE:${CMAKE_SOURCE_DIR}/generated>\n"@
        + "        $<INSTALL_INTERFACE:include>\n"@ + ")\n"@ + "target_link_libraries("@ + name
        + " PUBLIC Qt6::Core Qt6::Gui"@ + links + ")\n"@ + "set_target_properties("@ + name
        + " PROPERTIES\n"@ + "    VERSION "@ + version + "\n"@ + "    SOVERSION "@ + version + "\n"@
        + "    MACOSX_RPATH TRUE\n"@ + ")\n"@ + "\n"@ + "include(GNUInstallDirs)\n"@;
    assert(p + "install(TARGETS "@ + name + "\n"@ + "    EXPORT "@ + name + "Targets\n"@ =~= p + q);
    lemma_ends_contains(p, q);
    lemma_longer_contains();
    let m = "cmake_minimum_required(VERSION 3.21)\n"@ + "project("@ + name + " VERSION "@ + version
        + " LANGUAGES CXX)\n"@ + "\n"@ + "set(CMAKE_CXX_STANDARD 20)\n"@
        + "set(CMAKE_CXX_STANDARD_REQUIRED ON)\n"@ + "set(CMAKE_AUTOMOC OFF)\n"@
        + "set(CMAKE_AUTORCC ON)\n"@ + "\n"@ + "find_package(Qt6 REQUIRED COMPONENTS Core Gui)\n"@
        + packages + "\n"@ + "\n"@ + "add_library("@ + name + " SHARED\n"@ + "    generated/"@
        + source_file + "\n"@ + ")\n"@ + "target_include_directories("@ + name + "\n"@
        + "    PRIVATE\n"@ + "        generated\n"@ + "        runtime/cpp\n"@ + "    PUBLIC\n"@
        + "        $<BUILD_INTERFACE:${CMAKE_SOURCE_DIR}/generated>\n"@
        + "        $<INSTALL_INTERFACE:include>\n"@ + ")\n"@ + "target_link_libraries("@ + name
        + " PUBLIC Qt6::Core Qt6::Gui"@ + links + ")\n"@ + "set_target_properties("@ + name
        + " PROPERTIES\n"@ + "    VERSION "@ + version + "\n"@ + "    SOVERSION "@ + version + "\n"@
        + "    MACOSX_RPATH TRUE\n"@ + ")\n"@ + "\n"@ + "include(GNUInstallDirs)\n"@
        + "install(TARGETS "@ + name + "\n"@ + "    EXPORT "@ + name + "Targets\n"@
        + "    LIBRARY DESTINATION ${CMAKE_INSTALL_LIBDIR}\n"@
        + "    ARCHIVE DESTINATION ${CMAKE_INSTALL_LIBDIR}\n"@
        + "    RUNTIME DESTINATION ${CMAKE_INSTALL_BINDIR}\n"@ + ")\n"@
        + "install(FILES generated/"@ + header_file + " RENAME "@ + name
        + ".h DESTINATION ${CMAKE_INSTALL_INCLUDEDIR})\n"@ + "install(FILES "@ + name
        + ".qpi DESTINATION share/cute/bindings)\n"@ + "install(EXPORT "@ + name + "Targets\n"@
        + "    FILE "@ + name + "Targets.cmake\n"@ + "    NAMESPACE "@ + name + "::\n"@
        + "    DESTINATION ${CMAKE_INSTALL_LIBDIR}/cmake/"@ + name + "\n"@ + ")\n"@
        + "include(CMakePackageConfigHelpers)\n"@ + "configure_package_config_file(\n"@ + "    "@
        + name + "Config.cmake.in\n"@ + "    ${CMAKE_CURRENT_BINARY_DIR}/"@ + name
        + "Config.cmake\n"@ + "    INSTALL_DESTINATION ${CMAKE_INSTALL_LIBDIR}/cmake/"@ + name
        + "\n"@ + ")\n"@ + "write_basic_package_version_file(\n"@
        + "    ${CMAKE_CURRENT_BINARY_DIR}/"@ + name;
    assert(contains(m, q));
}

#[verifier::rlimit(30)]
proof fn lemma_library_namespace(
    name: Seq<char>,
    version: Seq<char>,
    packages: Seq<char>,
    source_file: Seq<char>,
    header_file: Seq<char>,
    links: Seq<char>,
)
    ensures
        contains(
            library_project_text(name, version, packages, source_file, header_file, links),
            "    FILE "@ + name + "Targets.cmake\n"@ + "    NAMESPACE "@ + name + "::\n"@,
        ),
{
    let q = "    FILE "@ + name + "Targets.cmake\n"@ + "    NAMESPACE "@ + name + "::\n"@;
    let p = "cmake_minimum_required(VERSION 3.21)\n"@ + "project("@ + name + " VERSION "@ + version
        + " LANGUAGES CXX)\n"@ + "\n"@ + "set(CMAKE_CXX_STANDARD 20)\n"@
        + "set(CMAKE_CXX_STANDARD_REQUIRED ON)\n"@ + "set(CMAKE_AUTOMOC OFF)\n"@
        + "set(CMAKE_AUTORCC ON)\n"@ + "\n"@ + "find_package(Qt6 REQUIRED COMPONENTS Core Gui)\n"@
        + packages + "\n"@ + "\n"@ + "add_library("@ + name + " SHARED\n"@ + "    generated/"@
        + source_file + "\n"@ + ")\n"@ + "target_include_directories("@ + name + "\n"@
        + "    PRIVATE\n"@ + "        generated\n"@ + "        runtime/cpp\n"@ + "    PUBLIC\n"@
        + "        $<BUILD_INTERFACE:${CMAKE_SOURCE_DIR}/generated>\n"@
        + "        $<INSTALL_INTERFACE:include>\n"@ + ")\n"@ + "target_link_libraries("@ + name
        + " PUBLIC Qt6::Core Qt6::Gui"@ + links + ")\n"@ + "set_target_properties("@ + name
        + " PROPERTIES\n"@ + "    VERSION "@ + version + "\n"@ + "    SOVERSION "@ + version + "\n"@
        + "    MACOSX_RPATH TRUE\n"@ + ")\n"@ + "\n"@ + "include(GNUInstallDirs)\n"@
        + "install(TARGETS "@ + name + "\n"@ + "    EXPORT "@ + name + "Targets\n"@
        + "    LIBRARY DESTINATION ${CMAKE_INSTALL_LIBDIR}\n"@
        + "    ARCHIVE DESTINATION ${CMAKE_INSTALL_LIBDIR}\n"@
        + "    RUNTIME DESTINATION ${CMAKE_INSTALL_BINDIR}\n"@ + ")\n"@
        + "install(FILES generated/"@ + header_file + " RENAME "@ + name
        + ".h DESTINATION ${CMAKE_INSTALL_INCLUDEDIR})\n"@ + "install(FILES "@ + name
        + ".qpi DESTINATION share/cute/bindings)\n"@ + "install(EXPORT "@ + name + "Targets\n"@;
    assert(p + "    FILE "@ + name + "Targets.cmake\n"@ + "    NAMESPACE "@ + name + "::\n"@ =~= p + q);
    lemma_ends_contains(p, q);
    lemma_longer_contains();
    let m = "cmake_minimum_required(VERSION 3.21)\n"@ + "project("@ + name + " VERSION "@ + version
        + " LANGUAGES CXX)\n"@ + "\n"@ + "set(CMAKE_CXX_STANDARD 20)\n"@
        + "set(CMAKE_CXX_STANDARD_REQUIRED ON)\n"@ + "set(CMAKE_AUTOMOC OFF)\n"@
        + "set(CMAKE_AUTORCC ON)\n"@ + "\n"@ + "find_package(Qt6 REQUIRED COMPONENTS Core Gui)\n"@
        + packages + "\n"@ + "\n"@ + "add_library("@ + name + " SHARED\n"@ + "    generated/"@
        + source_file + "\n"@ + ")\n"@ + "target_include_directories("@ + name + "\n"@
        + "    PRIVATE\n"@ + "        generated\n"@ + "        runtime/cpp\n"@ + "    PUBLIC\n"@
        + "        $<BUILD_INTERFACE:${CMAKE_SOURCE_DIR}/generated>\n"@
        + "        $<INSTALL_INTERFACE:include>\n"@ + ")\n"@ + "target_link_libraries("@ + name
        + " PUBLIC Qt6::Core Qt6::Gui"@ + links + ")\n"@ + "set_target_properties("@ + name
        + " PROPERTIES\n"@ + "    VERSION "@ + version + "\n"@ + "    SOVERSION "@ + version + "\n"@
        + "    MACOSX_RPATH TRUE\n"@ + ")\n"@ + "\n"@ + "include(GNUInstallDirs)\n"@
        + "install(TARGETS "@ + name + "\n"@ + "    EXPORT "@ + name + "Targets\n"@
        + "    LIBRARY DESTINATION ${CMAKE_INSTALL_LIBDIR}\n"@
        + "    ARCHIVE DESTINATION ${CMAKE_INSTALL_LIBDIR}\n"@
        + "    RUNTIME DESTINATION ${CMAKE_INSTALL_BINDIR}\n"@ + ")\n"@
        + "install(FILES generated/"@ + header_file + " RENAME "@ + name
        + ".h DESTINATION ${CMAKE_INSTALL_INCLUDEDIR})\n"@ + "install(FILES "@ + name
        + ".qpi DESTINATION share/cute/bindings)\n"@ + "install(EXPORT "@ + name + "Targets\n"@
        + "    FILE "@ + name + "Targets.cmake\n"@ + "    NAMESPACE "@ + name + "::\n"@
        + "    DESTINATION ${CMAKE_INSTALL_LIBDIR}/cmake/"@ + name + "\n"@ + ")\n"@
        + "include(CMakePackageConfigHelpers)\n"@ + "configure_package_config_file(\n"@ + "    "@
        + name + "Config.cmake.in\n"@ + "    ${CMAKE_CURRENT_BINARY_DIR}/"@ + name
        + "Config.cmake\n"@ + "    INSTALL_DESTINATION ${CMAKE_INSTALL_LIBDIR}/cmake/"@ + name
        + "\n"@ + ")\n"@ + "write_basic_package_version_file(\n"@
        + "    ${CMAKE_CURRENT_BINARY_DIR}/"@ + name + "ConfigVersion.cmake\n"@ + "    VERSION "@
        + version + "\n"@ + "    COMPATIBILITY SameMajorVersion\n"@ + ")\n"@ + "install(FILES\n"@
        + "    ${CMAKE_CURRENT_BINARY_DIR}/"@ + name + "Config.cmake\n"@
        + "    ${CMAKE_CURRENT_BINARY_DIR}/"@ + name + "ConfigVersion.cmake\n"@
        + "    DESTINATION ${CMAKE_INSTALL_LIBDIR}/cmake/"@ + name + "\n"@ + ")\n"@;
    assert(contains(m, q));
}

/// A library is a shared library of its generated source, under its own name and
/// version. It finds the packages and links the libraries that the manifest
/// names, and installs its header, its binding and its targets under its name.
pub proof fn law_libraries_are_installed_by_name(
    library: Library,
    emit: EmitResult,
    manifest: Manifest,
)
    ensures
        contains(
            library_cmake_text(library, emit, manifest),
            "project("@ + library.name@ + " VERSION "@ + library.version@ + " LANGUAGES CXX)\n"@,
        ),
        contains(
            library_cmake_text(library, emit, manifest),
            "find_package(Qt6 REQUIRED COMPONENTS Core Gui)\n"@ + asked_packages(manifest) + "\n"@,
        ),
        contains(
            library_cmake_text(library, emit, manifest),
            "add_library("@ + library.name@ + " SHARED\n"@ + "    generated/"@
                + emit.source_filename@ + "\n"@ + ")\n"@,
        ),
        contains(
            library_cmake_text(library, emit, manifest),
            "target_link_libraries("@ + library.name@ + " PUBLIC Qt6::Core Qt6::Gui"@
                + asked_links(manifest) + ")\n"@,
        ),
        contains(
            library_cmake_text(library, emit, manifest),
            "set_target_properties("@ + library.name@ + " PROPERTIES\n"@ + "    VERSION "@
                + library.version@ + "\n"@ + "    SOVERSION "@ + library.version@ + "\n"@,
        ),
        contains(
            library_cmake_text(library, emit, manifest),
            "install(FILES generated/"@ + emit.header_filename@ + " RENAME "@ + library.name@
                + ".h DESTINATION ${CMAKE_INSTALL_INCLUDEDIR})\n"@,
        ),
        contains(
            library_cmake_text(library, emit, manifest),
            "install(FILES "@ + library.name@ + ".qpi DESTINATION share/cute/bindings)\n"@,
        ),
        contains(
            library_cmake_text(library, emit, manifest),
            "install(TARGETS "@ + library.name@ + "\n"@ + "    EXPORT "@ + library.name@ + "Targets\n"@,
        ),
        contains(
            library_cmake_text(library, emit, manifest),
            "    FILE "@ + library.name@ + "Targets.cmake\n"@ + "    NAMESPACE "@ + library.name@ + "::\n"@,
        ),
{
    let packages = asked_packages(manifest);
    let links = asked_links(manifest);
    assert(library_extra_links(views(manifest.cmake.link_libraries@)) =~= links);
    let wanted = wrapped(views(manifest.cmake.find_package@), "find_package("@, " REQUIRED)"@);
    assert(wanted =~= views(manifest.cmake.find_package@).map_values(
        |p: Seq<char>| "find_package("@ + p + " REQUIRED)"@,
    ));
    lemma_library_project(
        library.name@,
        library.version@,
        packages,
        emit.source_filename@,
        emit.header_filename@,
        links,
    );
    lemma_library_packages(
        library.name@,
        library.version@,
        packages,
        emit.source_filename@,
        emit.header_filename@,
        links,
    );
    lemma_library_source(
        library.name@,
        library.version@,
        packages,
        emit.source_filename@,
        emit.header_filename@,
        links,
    );
    lemma_library_links(
        library.name@,
        library.version@,
        packages,
        emit.source_filename@,
        emit.header_filename@,
        links,
    );
    lemma_library_version(
        library.name@,
        library.version@,
        packages,
        emit.source_filename@,
        emit.header_filename@,
        links,
    );
    lemma_library_header(
        library.name@,
        library.version@,
        packages,
        emit.source_filename@,
        emit.header_filename@,
        links,
    );
    lemma_library_binding(
        library.name@,
        library.version@,
        packages,
        emit.source_filename@,
        emit.header_filename@,
        links,
    );
    lemma_library_targets(
        library.name@,
        library.version@,
        packages,
        emit.source_filename@,
        emit.header_filename@,
        links,
    );
    lemma_library_namespace(
        library.name@,
        library.version@,
        packages,
        emit.source_filename@,
        emit.header_filename@,
        links,
    );
}

/// The build directory of a library holds its code, its project, its package
/// configuration and its binding, and nothing else.
pub proof fn law_library_files(
    library: Library,
    emit: EmitResult,
    manifest: Manifest,
    user_module: Module,
)
    ensures
        ({
            let f = library_files(library, emit, manifest, user_module);
            &&& f.len() == 5
            &&& f.contains(("generated/"@ + emit.header_filename@, emit.header@))
            &&& f.contains(("generated/"@ + emit.source_filename@, emit.source@))
            &&& f.contains(("CMakeLists.txt"@, library_cmake_text(library, emit, manifest)))
            &&& f.contains(
                (
                    library.name@ + "Config.cmake.in"@,
                    config_template_text(library.name@, library.description@),
                ),
            )
            &&& f.contains((library.name@ + ".qpi"@, library_qpi_text(library, user_module)))
        }),
{
    let f = library_files(library, emit, manifest, user_module);
    assert(f[0] == ("generated/"@ + emit.header_filename@, emit.header@));
    assert(f[1] == ("generated/"@ + emit.source_filename@, emit.source@));
    assert(f[2] == ("CMakeLists.txt"@, library_cmake_text(library, emit, manifest)));
    assert(f[3] == (
        library.name@ + "Config.cmake.in"@,
        config_template_text(library.name@, library.description@),
    ));
    assert(f[4] == (library.name@ + ".qpi"@, library_qpi_text(library, user_module)));
}

/// A library is built into the prefix that it is installed in, and looks for
/// packages in that of Qt.
pub proof fn law_libraries_are_configured(
    work: Seq<char>,
    prefix: Seq<char>,
    qt_prefix: Option<Seq<char>>,
)
    ensures
        ({
            let args = library_arguments(work, prefix, qt_prefix);
            &&& args.contains("-DCMAKE_INSTALL_PREFIX="@ + prefix)
            &&& args[0] == "-S"@ && args[1] == work
            &&& args[2] == "-B"@ && args[3] == path_join(work, "build"@)
            &&& qt_prefix is Some ==> args.len() == 7 && args.last() == "-DCMAKE_PREFIX_PATH="@
                + qt_prefix->0
            &&& qt_prefix is None ==> args.len() == 6
        }),
{
    let args = library_arguments(work, prefix, qt_prefix);
    assert(args[5] == "-DCMAKE_INSTALL_PREFIX="@ + prefix);
}

/// A library can be built where the manifest declares one, its source is not
/// that of a program with a window or a server, and it has no entry point.
pub proof fn law_libraries_that_can_be_built(manifest: Manifest, source: Seq<char>)
    ensures
        library_error(manifest, source) is None <==> {
            &&& manifest.library is Some
            &&& mode_of(source) == BuildMode::Plain || mode_of(source) == BuildMode::Cli
            &&& !contains(source, "\nint main("@)
            &&& !contains(source, "\nstatic int main("@)
        },
{
}

// ---- programs ----------------------------------------------------------------------

/// A program becomes a bundle on macOS only, and there where it has windows.
pub proof fn law_bundles(mode: BuildMode, host: HostFacts)
    ensures
        is_bundled(mode, host) <==> host.on_macos && !(mode == BuildMode::Plain || mode
            == BuildMode::Cli || mode == BuildMode::Server),
{
}

proof fn lemma_with_views(files: Seq<(Seq<char>, Seq<char>)>, v: Seq<EmittedView>, n: int)
    requires
        0 <= n <= v.len(),
    ensures
        with_views(files, v, n).len() == files.len() + n,
        forall|i: int|
            #![trigger files[i]]
            0 <= i < files.len() ==> with_views(files, v, n)[i] == files[i],
        forall|i: int|
            #![trigger v[i]]
            0 <= i < n ==> with_views(files, v, n).contains((v[i].filename@, v[i].qml@)),
    decreases n,
{
    if n > 0 {
        lemma_with_views(files, v, n - 1);
        let before = with_views(files, v, n - 1);
        let x = (v[n - 1].filename@, v[n - 1].qml@);
        assert forall|i: int| #![trigger v[i]] 0 <= i < n implies with_views(files, v, n).contains(
            (v[i].filename@, v[i].qml@),
        ) by {
            lemma_pushed(before, x, (v[i].filename@, v[i].qml@));
        }
    }
}

/// Every build writes the generated header and source and the CMake project.
pub proof fn law_every_build_writes_its_code(
    stem: Seq<char>,
    emit: EmitResult,
    manifest: Manifest,
    host: HostFacts,
    sibling: Seq<char>,
)
    ensures
        ({
            let f = planned_files(stem, emit, manifest, host, sibling);
            &&& f.contains(("generated/"@ + emit.header_filename@, final_header(emit)))
            &&& f.contains(("generated/"@ + emit.source_filename@, emit.source@))
            &&& f.contains(("CMakeLists.txt"@, planned_cmake(stem, emit, manifest, host)))
        }),
{
    let f = planned_files(stem, emit, manifest, host, sibling);
    let h = ("generated/"@ + emit.header_filename@, final_header(emit));
    let s = ("generated/"@ + emit.source_filename@, emit.source@);
    let generated = Seq::<(Seq<char>, Seq<char>)>::empty().push(h).push(s);
    assert(generated[0] == h && generated[1] == s);
    lemma_with_views(generated, emit.views@, emit.views@.len() as int);
    assert(f[0] == h);
    assert(f[1] == s);
    let n = if is_bundled(mode_of(emit.source@), host) {
        f.len() - 3
    } else {
        f.len() - 1
    };
    assert(f[n] == ("CMakeLists.txt"@, planned_cmake(stem, emit, manifest, host)));
}

/// A QML program brings the file of each view, the file that it loads, and the
/// list of all of them.
pub proof fn law_qml_programs_bring_their_views(
    stem: Seq<char>,
    emit: EmitResult,
    manifest: Manifest,
    host: HostFacts,
    sibling: Seq<char>,
    i: int,
)
    requires
        mode_of(emit.source@) == BuildMode::Qml,
    ensures
        ({
            let f = planned_files(stem, emit, manifest, host, sibling);
            let name = qml_name(emit.source@);
            &&& 0 <= i < emit.views@.len() ==> f.contains(
                (emit.views@[i].filename@, emit.views@[i].qml@),
            )
            &&& (forall|k: int|
                0 <= k < emit.views@.len() ==> (#[trigger] emit.views@[k]).filename@ != name)
                ==> f.contains((name, sibling))
            &&& exists|listed: Seq<char>| f.contains(#[trigger] named("qml.qrc"@, listed))
        }),
{
    let f = planned_files(stem, emit, manifest, host, sibling);
    let name = qml_name(emit.source@);
    let h = ("generated/"@ + emit.header_filename@, final_header(emit));
    let s = ("generated/"@ + emit.source_filename@, emit.source@);
    let generated = Seq::<(Seq<char>, Seq<char>)>::empty().push(h).push(s);
    let v = emit.views@;
    let a = with_views(generated, v, v.len() as int);
    let all = with_qml(generated, emit, sibling);
    lemma_with_views(generated, v, v.len() as int);
    let c = ("CMakeLists.txt"@, planned_cmake(stem, emit, manifest, host));
    assert forall|x: (Seq<char>, Seq<char>)| all.contains(x) implies #[trigger] f.contains(x) by {
        let k = choose|k: int| 0 <= k < all.len() && all[k] == x;
        assert(f[k] == x);
    }
    if 0 <= i < v.len() {
        let x = (v[i].filename@, v[i].qml@);
        let k = choose|k: int| 0 <= k < a.len() && a[k] == x;
        assert(all[k] == x);
        assert(all.contains(x));
    }
    if forall|k: int| 0 <= k < v.len() ==> (#[trigger] v[k]).filename@ != name {
        let names = crate::plan::view_names(v);
        assert(!names.contains(name)) by {
            if names.contains(name) {
                let k = choose|k: int| 0 <= k < names.len() && names[k] == name;
                assert(v[k].filename@ == name);
            }
        }
        assert(all[a.len() as int] == (name, sibling));
        assert(all.contains((name, sibling)));
    }
    let listed = all.last().1;
    assert(all[all.len() - 1] == named("qml.qrc"@, listed));
    assert(all.contains(named("qml.qrc"@, listed)));
}

/// A file by its path and text.
pub open spec fn named(path: Seq<char>, text: Seq<char>) -> (Seq<char>, Seq<char>) {
    (path, text)
}

/// A bundle brings its description and its rights, in this order and last.
pub proof fn law_bundles_bring_their_description(
    stem: Seq<char>,
    emit: EmitResult,
    manifest: Manifest,
    host: HostFacts,
    sibling: Seq<char>,
)
    requires
        is_bundled(mode_of(emit.source@), host),
    ensures
        ({
            let f = planned_files(stem, emit, manifest, host, sibling);
            &&& f[f.len() - 2].0 == "Info.plist"@
            &&& f[f.len() - 1] == ("cute.entitlements"@, entitlements())
        }),
{
}

/// A program that is no QML program and no bundle brings its code and its
/// project alone.
pub proof fn law_plain_builds_bring_no_more(
    stem: Seq<char>,
    emit: EmitResult,
    manifest: Manifest,
    host: HostFacts,
    sibling: Seq<char>,
)
    requires
        mode_of(emit.source@) != BuildMode::Qml,
        !host.on_macos,
    ensures
        planned_files(stem, emit, manifest, host, sibling).len() == 3,
{
}

/// The header of a server reads the headers of servers, that of a program
/// which uses the network those of the network, and that of one which colours
/// code that of the colouring.
pub proof fn law_headers_read_what_they_need(emit: EmitResult)
    ensures
        mode_of(emit.source@) == BuildMode::Server ==> contains(
            server_header(mode_of(emit.source@), emit.header@),
            "#include <QtHttpServer>\n#include <QtNetwork>\n"@,
        ),
        uses_highlighter(scanned(emit)) ==> contains(
            final_header(emit),
            "#include \"cute_code_highlighter.h\"\n"@,
        ),
        uses_network(scanned(emit)) && !uses_highlighter(scanned(emit)) ==> contains(
            final_header(emit),
            "#include <QtNetwork>\n"@,
        ),
        !uses_network(scanned(emit)) && !uses_highlighter(scanned(emit)) ==> final_header(emit)
            == server_header(mode_of(emit.source@), emit.header@),
{
    let base = server_header(mode_of(emit.source@), emit.header@);
    let cpp = scanned(emit);
    let lines = extra_include_lines(cpp);
    let net = "#include <QtNetwork>\n"@;
    let high = "#include \"cute_code_highlighter.h\"\n"@;
    let server = "#include <QtHttpServer>\n#include <QtNetwork>\n"@;
    crate::build_laws::lemma_contains_self(server);
    crate::build_laws::lemma_contains_self(net);
    crate::build_laws::lemma_contains_self(high);
    lemma_prepended_holds(emit.header@, server, server);
    reveal_with_fuel(with_lines, 3);
    if uses_highlighter(cpp) {
        assert(lines.last() == high);
        let n = lines.len() as int;
        lemma_prepended_holds(with_lines(base, lines, n - 1), high, high);
    } else if uses_network(cpp) {
        assert(lines.len() == 1 && lines[0] == net);
        lemma_prepended_holds(base, net, net);
    } else {
        assert(lines.len() == 0);
    }
}

/// CMake looks for packages in the prefix of Qt, in those of the libraries, in
/// that of the CuteUI runtime where the program needs it, and in that of Craft
/// where the manifest needs KDE Frameworks; and nowhere else.
pub proof fn law_places_of_packages(
    mode: BuildMode,
    manifest: Manifest,
    host: HostFacts,
    place: Seq<char>,
)
    ensures
        prefix_paths(mode, manifest, host).contains(place) <==> {
            ||| (host.qt_prefix matches Some(p) && p@ == place)
            ||| views(host.library_prefixes@).contains(place)
            ||| mode == BuildMode::CuteUi && (host.cute_ui_prefix matches Some(p) && p@ == place)
            ||| needs_kf6(manifest) && (host.craft_prefix matches Some(p) && p@ == place)
        },
{
    let e = Seq::<Seq<char>>::empty();
    let a = if needs_kf6(manifest) {
        opt_list(host.craft_prefix)
    } else {
        e
    };
    let b = opt_list(host.qt_prefix);
    let c = if mode == BuildMode::CuteUi {
        opt_list(host.cute_ui_prefix)
    } else {
        e
    };
    let d = views(host.library_prefixes@);
    lemma_in_sum(a + b + c, d, place);
    lemma_in_sum(a + b, c, place);
    lemma_in_sum(a, b, place);
    lemma_opt_list(host.craft_prefix, place);
    lemma_opt_list(host.qt_prefix, place);
    lemma_opt_list(host.cute_ui_prefix, place);
}

proof fn lemma_in_sum(a: Seq<Seq<char>>, b: Seq<Seq<char>>, x: Seq<char>)
    ensures
        (a + b).contains(x) <==> a.contains(x) || b.contains(x),
{
    if a.contains(x) {
        lemma_left(a, b, x);
    }
    if b.contains(x) {
        lemma_right(a, b, x);
    }
    if (a + b).contains(x) {
        let k = choose|k: int| 0 <= k < (a + b).len() && (a + b)[k] == x;
        if k < a.len() {
            assert(a[k] == x);
        } else {
            assert(b[k - a.len()] == x);
        }
    }
}

proof fn lemma_opt_list(o: Option<String>, x: Seq<char>)
    ensures
        opt_list(o).contains(x) <==> (o matches Some(p) && p@ == x),
{
    if let Some(p) = o {
        assert(opt_list(o)[0] == p@);
    }
}

/// A build is configured in its directory, for a release, and is told of the
/// places to look in, where there are any.
pub proof fn law_builds_are_configured(work: Seq<char>, prefixes: Seq<Seq<char>>)
    ensures
        ({
            let args = configure_arguments(work, prefixes);
            &&& args[0] == "-S"@ && args[1] == work
            &&& args[2] == "-B"@ && args[3] == path_join(work, "build"@)
            &&& args[4] == "-DCMAKE_BUILD_TYPE=Release"@
            &&& prefixes.len() == 0 ==> args.len() == 5
            &&& prefixes.len() > 0 ==> args.len() == 6 && args[5] == "-DCMAKE_PREFIX_PATH="@ + join(
                prefixes,
                ";"@,
            )
        }),
{
}

} // verus!
