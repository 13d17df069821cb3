//! Application bundles on macOS.

use crate::manifest::Manifest;
use crate::modes::{needs_kf6, uses_kf6};
use crate::text::{join, joined, opt_view, views};
use vstd::prelude::*;
use vstd::string::*;

verus! {

/// What a bundle is built with.
#[derive(Debug, Clone)]
pub struct BundleConfig {
    /// The run paths of the binary.
    pub rpath_dirs: Vec<String>,
    pub dyld_framework_paths: Vec<String>,
    pub dyld_library_paths: Vec<String>,
    pub qml_import_paths: Vec<String>,
}

/// The run paths of a bundle: those of Craft where the manifest needs KDE
/// Frameworks and Craft is installed, and else those of Homebrew's Qt.
pub open spec fn rpaths(
    manifest: Manifest,
    craft_prefix: Option<Seq<char>>,
    brew_prefix: Seq<char>,
) -> Seq<Seq<char>> {
    if needs_kf6(manifest) && craft_prefix is Some {
        seq![craft_prefix->0 + "/lib"@]
    } else {
        seq![brew_prefix + "/opt/qtbase/lib"@, brew_prefix + "/opt/qtdeclarative/lib"@]
    }
}

/// What a bundle of this program is built with: run paths alone suffice.
pub fn build_bundle_config(
    manifest: &Manifest,
    craft_prefix: &Option<String>,
    brew_prefix: &str,
) -> (r: Option<BundleConfig>)
    ensures
        match r {
            Some(c) => {
                &&& views(c.rpath_dirs@) == rpaths(*manifest, opt_view(*craft_prefix), brew_prefix@)
                &&& c.dyld_framework_paths@.len() == 0
                &&& c.dyld_library_paths@.len() == 0
                &&& c.qml_import_paths@.len() == 0
            },
            None => false,
        },
{
    let mut dirs: Vec<String> = Vec::new();
    let craft = if uses_kf6(manifest) {
        match craft_prefix {
            Some(c) => Some(c.clone()),
            None => None,
        }
    } else {
        None
    };
    match craft {
        Some(c) => {
            dirs.push(c.concat("/lib"));
        },
        None => {
            dirs.push(brew_prefix.to_owned().concat("/opt/qtbase/lib"));
            dirs.push(brew_prefix.to_owned().concat("/opt/qtdeclarative/lib"));
        },
    }
    assert(views(dirs@) =~= rpaths(*manifest, opt_view(*craft_prefix), brew_prefix@));
    Some(
        BundleConfig {
            rpath_dirs: dirs,
            dyld_framework_paths: Vec::new(),
            dyld_library_paths: Vec::new(),
            qml_import_paths: Vec::new(),
        },
    )
}

/// The Homebrew prefix: what the environment says, where it says something.
pub fn brew_prefix(env: &Option<String>) -> (r: String)
    ensures
        r@ == match opt_view(*env) {
            Some(p) => if p.len() > 0 {
                p
            } else {
                "/opt/homebrew"@
            },
            None => "/opt/homebrew"@,
        },
{
    match env {
        Some(p) => if p.as_str().is_empty() {
            "/opt/homebrew".to_owned()
        } else {
            p.clone()
        },
        None => "/opt/homebrew".to_owned(),
    }
}

/// One variable of the launch environment.
pub open spec fn env_entry_text(s: Seq<char>, key: Seq<char>, value: Seq<char>) -> Seq<char> {
    s
        + "        <key>"@
        + key
        + "</key>\n"@
        + "        <string>"@
        + value
        + "</string>\n"@
}

fn env_entry(s: String, key: &str, value: &str) -> (r: String)
    ensures
        r@ == env_entry_text(s@, key@, value@),
{
    s
        .concat("        <key>")
        .concat(key)
        .concat("</key>\n")
        .concat("        <string>")
        .concat(value)
        .concat("</string>\n")
}

/// A variable of the launch environment that lists paths: left out where there
/// are none.
pub open spec fn path_entry(s: Seq<char>, key: Seq<char>, paths: Seq<Seq<char>>) -> Seq<char> {
    if paths.len() == 0 {
        s
    } else {
        env_entry_text(s, key, join(paths, ":"@))
    }
}

fn append_path_entry(s: String, key: &str, paths: &Vec<String>) -> (r: String)
    ensures
        r@ == path_entry(s@, key@, views(paths@)),
{
    assert(views(paths@).len() == paths@.len());
    if paths.len() == 0 {
        s
    } else {
        env_entry(s, key, joined(paths, ":").as_str())
    }
}

/// The launch environment of a bundle: none where no variable is set.
pub open spec fn env_block(
    frameworks: Seq<Seq<char>>,
    libraries: Seq<Seq<char>>,
    imports: Seq<Seq<char>>,
) -> Seq<char> {
    if frameworks.len() == 0 && libraries.len() == 0 && imports.len() == 0 {
        ""@
    } else {
        let s0 = "    <key>LSEnvironment</key>\n    <dict>\n"@;
        let s1 = path_entry(s0, "DYLD_FRAMEWORK_PATH"@, frameworks);
        let s2 = path_entry(s1, "DYLD_LIBRARY_PATH"@, libraries);
        path_entry(s2, "QML_IMPORT_PATH"@, imports) + "    </dict>\n"@
    }
}

fn render_env_block(cfg: &BundleConfig) -> (r: String)
    ensures
        r@ == env_block(
            views(cfg.dyld_framework_paths@),
            views(cfg.dyld_library_paths@),
            views(cfg.qml_import_paths@),
        ),
{
    assert(views(cfg.dyld_framework_paths@).len() == cfg.dyld_framework_paths@.len());
    assert(views(cfg.dyld_library_paths@).len() == cfg.dyld_library_paths@.len());
    assert(views(cfg.qml_import_paths@).len() == cfg.qml_import_paths@.len());
    if cfg.dyld_framework_paths.len() == 0 && cfg.dyld_library_paths.len() == 0
        && cfg.qml_import_paths.len() == 0 {
        return "".to_owned();
    }
    let s = "    <key>LSEnvironment</key>\n    <dict>\n".to_owned();
    let s = append_path_entry(s, "DYLD_FRAMEWORK_PATH", &cfg.dyld_framework_paths);
    let s = append_path_entry(s, "DYLD_LIBRARY_PATH", &cfg.dyld_library_paths);
    append_path_entry(s, "QML_IMPORT_PATH", &cfg.qml_import_paths).concat("    </dict>\n")
}

/// The property list of a bundle.
pub open spec fn plist_text(stem: Seq<char>, env: Seq<char>) -> Seq<char> {
    "<?xml version=\"1.0\" encoding=\"UTF-8\"?>\n"@
        + "<!DOCTYPE plist PUBLIC \"-//Apple//DTD PLIST 1.0//EN\" \"http://www.apple.com/DTDs/PropertyList-1.0.dtd\">\n"@
        + "<plist version=\"1.0\">\n"@
        + "<dict>\n"@
        + "    <key>CFBundleExecutable</key>\n"@
        + "    <string>"@
        + stem
        + "</string>\n"@
        + "    <key>CFBundleIdentifier</key>\n"@
        + "    <string>org.cute."@
        + stem
        + "</string>\n"@
        + "    <key>CFBundleName</key>\n"@
        + "    <string>"@
        + stem
        + "</string>\n"@
        + "    <key>CFBundlePackageType</key>\n"@
        + "    <string>APPL</string>\n"@
        + "    <key>CFBundleShortVersionString</key>\n"@
        + "    <string>0.1.0</string>\n"@
        + "    <key>CFBundleVersion</key>\n"@
        + "    <string>0.1.0</string>\n"@
        + "    <key>LSMinimumSystemVersion</key>\n"@
        + "    <string>12.0</string>\n"@
        + "    <key>NSHighResolutionCapable</key>\n"@
        + "    <true/>\n"@
        + "    <key>NSRequiresAquaSystemAppearance</key>\n"@
        + "    <false/>\n"@
        + env
        + "</dict>\n"@
        + "</plist>\n"@
}

fn plist(stem: &str, env: &str) -> (r: String)
    ensures
        r@ == plist_text(stem@, env@),
{
    "<?xml version=\"1.0\" encoding=\"UTF-8\"?>\n".to_owned()
        .concat("<!DOCTYPE plist PUBLIC \"-//Apple//DTD PLIST 1.0//EN\" \"http://www.apple.com/DTDs/PropertyList-1.0.dtd\">\n")
        .concat("<plist version=\"1.0\">\n")
        .concat("<dict>\n")
        .concat("    <key>CFBundleExecutable</key>\n")
        .concat("    <string>")
        .concat(stem)
        .concat("</string>\n")
        .concat("    <key>CFBundleIdentifier</key>\n")
        .concat("    <string>org.cute.")
        .concat(stem)
        .concat("</string>\n")
        .concat("    <key>CFBundleName</key>\n")
        .concat("    <string>")
        .concat(stem)
        .concat("</string>\n")
        .concat("    <key>CFBundlePackageType</key>\n")
        .concat("    <string>APPL</string>\n")
        .concat("    <key>CFBundleShortVersionString</key>\n")
        .concat("    <string>0.1.0</string>\n")
        .concat("    <key>CFBundleVersion</key>\n")
        .concat("    <string>0.1.0</string>\n")
        .concat("    <key>LSMinimumSystemVersion</key>\n")
        .concat("    <string>12.0</string>\n")
        .concat("    <key>NSHighResolutionCapable</key>\n")
        .concat("    <true/>\n")
        .concat("    <key>NSRequiresAquaSystemAppearance</key>\n")
        .concat("    <false/>\n")
        .concat(env)
        .concat("</dict>\n")
        .concat("</plist>\n")
}

/// The property list of a bundle.
pub fn render_info_plist(stem: &str, cfg: &BundleConfig) -> (r: String)
    ensures
        r@ == plist_text(
            stem@,
            env_block(
                views(cfg.dyld_framework_paths@),
                views(cfg.dyld_library_paths@),
                views(cfg.qml_import_paths@),
            ),
        ),
{
    plist(stem, render_env_block(cfg).as_str())
}

/// The entitlements that a bundle is signed with.
pub open spec fn entitlements() -> Seq<char> {
    "<?xml version=\"1.0\" encoding=\"UTF-8\"?>\n"@
        + "<!DOCTYPE plist PUBLIC \"-//Apple//DTD PLIST 1.0//EN\" \"http://www.apple.com/DTDs/PropertyList-1.0.dtd\">\n"@
        + "<plist version=\"1.0\">\n"@
        + "<dict>\n"@
        + "    <key>com.apple.security.cs.disable-library-validation</key>\n"@
        + "    <true/>\n"@
        + "    <key>com.apple.security.cs.allow-dyld-environment-variables</key>\n"@
        + "    <true/>\n"@
        + "    <key>com.apple.security.cs.allow-unsigned-executable-memory</key>\n"@
        + "    <true/>\n"@
        + "</dict>\n"@
        + "</plist>\n"@
}

pub fn bundle_entitlements() -> (r: String)
    ensures
        r@ == entitlements(),
{
    "<?xml version=\"1.0\" encoding=\"UTF-8\"?>\n".to_owned()
        .concat("<!DOCTYPE plist PUBLIC \"-//Apple//DTD PLIST 1.0//EN\" \"http://www.apple.com/DTDs/PropertyList-1.0.dtd\">\n")
        .concat("<plist version=\"1.0\">\n")
        .concat("<dict>\n")
        .concat("    <key>com.apple.security.cs.disable-library-validation</key>\n")
        .concat("    <true/>\n")
        .concat("    <key>com.apple.security.cs.allow-dyld-environment-variables</key>\n")
        .concat("    <true/>\n")
        .concat("    <key>com.apple.security.cs.allow-unsigned-executable-memory</key>\n")
        .concat("    <true/>\n")
        .concat("</dict>\n")
        .concat("</plist>\n")
}

/// The script that signs a Kirigami binary and starts it with the library paths
/// that it needs.
pub open spec fn kirigami_wrapper_text(bin_name: Seq<char>) -> Seq<char> {
    "#!/bin/sh\n"@
        + "# Auto-generated by cutec for Kirigami binaries on macOS.\n"@
        + "# Re-signs the binary with the library-validation entitlements (one\n"@
        + "# time per build) and sets DYLD / QML env vars so the binary loads\n"@
        + "# Qt 6.11 from Homebrew (matching what cmake linked against) and\n"@
        + "# Kirigami / KF6 from CraftRoot.\n"@
        + "#\n"@
        + "# Why two prefixes: `cute build`'s cmake step finds Homebrew Qt\n"@
        + "# 6.11 first, so the binary is linked against Homebrew QtCore /\n"@
        + "# QtGui / QtQml / QtQuick. libKirigami's RPATH points at\n"@
        + "# CraftRoot/lib, which carries an *older* Qt (6.10.x); naively\n"@
        + "# pointing DYLD at CraftRoot loads the older Qt and dies with\n"@
        + "# \"Symbol not found: QQmlTypeLoader::QQmlTypeLoader(...)\" at startup.\n"@
        + "# Setting DYLD_FRAMEWORK_PATH to Homebrew's qtbase + qtdeclarative\n"@
        + "# forces dyld to consistently load Qt 6.11 from Homebrew while\n"@
        + "# Kirigami still loads from CraftRoot via its baked absolute path.\n"@
        + "#\n"@
        + "# QML_IMPORT_PATH must combine both: Homebrew for QtQuick.Controls\n"@
        + "# imports, CraftRoot for org.kde.kirigami's qmldir.\n"@
        + "#\n"@
        + "# Override paths via env: HOMEBREW_PREFIX (default /opt/homebrew),\n"@
        + "# CRAFT_ROOT (default $HOME/CraftRoot).\n"@
        + "set -eu\n"@
        + "HERE=\"$(cd \"$(dirname \"$0\")\" && pwd)\"\n"@
        + "BIN=\"$HERE/"@
        + bin_name
        + "\"\n"@
        + "CRAFT=\"${CRAFT_ROOT:-$HOME/CraftRoot}\"\n"@
        + "BREW=\"${HOMEBREW_PREFIX:-/opt/homebrew}\"\n"@
        + "\n"@
        + "MARK=\"$BIN.cs_resigned\"\n"@
        + "if [ ! -f \"$MARK\" ] || [ \"$BIN\" -nt \"$MARK\" ]; then\n"@
        + "  ENTITLEMENTS=\"$(mktemp -t cute-lv.entitlements)\"\n"@
        + "  cat > \"$ENTITLEMENTS\" <<'PLIST'\n"@
        + "<?xml version=\"1.0\" encoding=\"UTF-8\"?>\n"@
        + "<!DOCTYPE plist PUBLIC \"-//Apple//DTD PLIST 1.0//EN\" \"http://www.apple.com/DTDs/PropertyList-1.0.dtd\">\n"@
        + "<plist version=\"1.0\">\n"@
        + "<dict>\n"@
        + "    <key>com.apple.security.cs.disable-library-validation</key>\n"@
        + "    <true/>\n"@
        + "    <key>com.apple.security.cs.allow-dyld-environment-variables</key>\n"@
        + "    <true/>\n"@
        + "    <key>com.apple.security.cs.allow-unsigned-executable-memory</key>\n"@
        + "    <true/>\n"@
        + "</dict>\n"@
        + "</plist>\n"@
        + "PLIST\n"@
        + "  codesign --force --sign - --entitlements \"$ENTITLEMENTS\" \"$BIN\"\n"@
        + "  rm -f \"$ENTITLEMENTS\"\n"@
        + "  : > \"$MARK\"\n"@
        + "fi\n"@
        + "\n"@
        + "DYLD_FRAMEWORK_PATH=\"$BREW/opt/qtbase/lib:$BREW/opt/qtdeclarative/lib\" \\\n"@
        + "  DYLD_LIBRARY_PATH=\"$CRAFT/lib\" \\\n"@
        + "  QML_IMPORT_PATH=\"$BREW/share/qt/qml:$CRAFT/qml\" \\\n"@
        + "  exec \"$BIN\" \"$@\"\n"@
}

pub fn kirigami_wrapper(bin_name: &str) -> (r: String)
    ensures
        r@ == kirigami_wrapper_text(bin_name@),
{
    "#!/bin/sh\n".to_owned()
        .concat("# Auto-generated by cutec for Kirigami binaries on macOS.\n")
        .concat("# Re-signs the binary with the library-validation entitlements (one\n")
        .concat("# time per build) and sets DYLD / QML env vars so the binary loads\n")
        .concat("# Qt 6.11 from Homebrew (matching what cmake linked against) and\n")
        .concat("# Kirigami / KF6 from CraftRoot.\n")
        .concat("#\n")
        .concat("# Why two prefixes: `cute build`'s cmake step finds Homebrew Qt\n")
        .concat("# 6.11 first, so the binary is linked against Homebrew QtCore /\n")
        .concat("# QtGui / QtQml / QtQuick. libKirigami's RPATH points at\n")
        .concat("# CraftRoot/lib, which carries an *older* Qt (6.10.x); naively\n")
        .concat("# pointing DYLD at CraftRoot loads the older Qt and dies with\n")
        .concat("# \"Symbol not found: QQmlTypeLoader::QQmlTypeLoader(...)\" at startup.\n")
        .concat("# Setting DYLD_FRAMEWORK_PATH to Homebrew's qtbase + qtdeclarative\n")
        .concat("# forces dyld to consistently load Qt 6.11 from Homebrew while\n")
        .concat("# Kirigami still loads from CraftRoot via its baked absolute path.\n")
        .concat("#\n")
        .concat("# QML_IMPORT_PATH must combine both: Homebrew for QtQuick.Controls\n")
        .concat("# imports, CraftRoot for org.kde.kirigami's qmldir.\n")
        .concat("#\n")
        .concat("# Override paths via env: HOMEBREW_PREFIX (default /opt/homebrew),\n")
        .concat("# CRAFT_ROOT (default $HOME/CraftRoot).\n")
        .concat("set -eu\n")
        .concat("HERE=\"$(cd \"$(dirname \"$0\")\" && pwd)\"\n")
        .concat("BIN=\"$HERE/")
        .concat(bin_name)
        .concat("\"\n")
        .concat("CRAFT=\"${CRAFT_ROOT:-$HOME/CraftRoot}\"\n")
        .concat("BREW=\"${HOMEBREW_PREFIX:-/opt/homebrew}\"\n")
        .concat("\n")
        .concat("MARK=\"$BIN.cs_resigned\"\n")
        .concat("if [ ! -f \"$MARK\" ] || [ \"$BIN\" -nt \"$MARK\" ]; then\n")
        .concat("  ENTITLEMENTS=\"$(mktemp -t cute-lv.entitlements)\"\n")
        .concat("  cat > \"$ENTITLEMENTS\" <<'PLIST'\n")
        .concat("<?xml version=\"1.0\" encoding=\"UTF-8\"?>\n")
        .concat("<!DOCTYPE plist PUBLIC \"-//Apple//DTD PLIST 1.0//EN\" \"http://www.apple.com/DTDs/PropertyList-1.0.dtd\">\n")
        .concat("<plist version=\"1.0\">\n")
        .concat("<dict>\n")
        .concat("    <key>com.apple.security.cs.disable-library-validation</key>\n")
        .concat("    <true/>\n")
        .concat("    <key>com.apple.security.cs.allow-dyld-environment-variables</key>\n")
        .concat("    <true/>\n")
        .concat("    <key>com.apple.security.cs.allow-unsigned-executable-memory</key>\n")
        .concat("    <true/>\n")
        .concat("</dict>\n")
        .concat("</plist>\n")
        .concat("PLIST\n")
        .concat("  codesign --force --sign - --entitlements \"$ENTITLEMENTS\" \"$BIN\"\n")
        .concat("  rm -f \"$ENTITLEMENTS\"\n")
        .concat("  : > \"$MARK\"\n")
        .concat("fi\n")
        .concat("\n")
        .concat("DYLD_FRAMEWORK_PATH=\"$BREW/opt/qtbase/lib:$BREW/opt/qtdeclarative/lib\" \\\n")
        .concat("  DYLD_LIBRARY_PATH=\"$CRAFT/lib\" \\\n")
        .concat("  QML_IMPORT_PATH=\"$BREW/share/qt/qml:$CRAFT/qml\" \\\n")
        .concat("  exec \"$BIN\" \"$@\"\n")
}

} // verus!
