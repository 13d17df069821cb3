//! The doctor: what a build needs, what of it is there, and how to get the rest.

use crate::dict::{lemma_sorted_list, sorted_list, sorted_set};
use crate::manifest::Manifest;
use crate::modes::{
    lit_view, min_version, mode_name, needed_components, needs_kf6, required_deps_for, BuildMode,
    RequiredDeps,
};
use crate::packages::{
    brew_prefix, components_of, distro_label, install_prefix, is_kind_of, kf6_package,
    kf6_packages_for, parse_kf6_components_from_find_package, qt_component_kind, qt_package,
    qt_packages_for, DistroId, QtComponentKind,
};
use crate::probe::{has_cmake_config, is_configured};
use crate::text::{
    chain, chars_of, decimal, decimal_string, is_ascii_digit, join, joined, lemma_views_push,
    opt_view, pieces, split_on, starts_with, views,
};
use vstd::prelude::*;
use vstd::string::*;

verus! {

// ---- reports ----------------------------------------------------------------------

/// What the doctor found.
#[derive(Debug)]
pub struct DoctorReport {
    pub project_path: String,
    /// Libraries are not examined.
    pub library_mode_skipped: bool,
    pub distro: DistroId,
    pub mode_and_deps: Option<ModeAndDeps>,
    pub qt: Option<QtToolchainStatus>,
    pub kf6: Option<Kf6ToolchainStatus>,
    pub cute_ui: Option<CuteUiStatus>,
    pub cute_libraries: Vec<CuteLibraryStatus>,
}

#[derive(Debug)]
pub struct ModeAndDeps {
    pub mode: BuildMode,
    pub deps: RequiredDeps,
}

#[derive(Debug)]
pub struct QtToolchainStatus {
    pub prefix: Option<String>,
    pub version: Option<String>,
    /// The least version that the program needs.
    pub required_min_version: Option<&'static str>,
    pub modules: Vec<QtModuleStatus>,
}

#[derive(Debug)]
pub struct QtModuleStatus {
    pub component: String,
    pub kind: QtComponentKind,
    pub present: bool,
}

#[derive(Debug)]
pub struct Kf6ToolchainStatus {
    pub prefix: Option<String>,
    pub modules: Vec<Kf6ModuleStatus>,
}

#[derive(Debug)]
pub struct Kf6ModuleStatus {
    pub component: String,
    pub present: bool,
}

#[derive(Debug)]
pub struct CuteUiStatus {
    pub prefix: Option<String>,
    pub qt_min: &'static str,
}

#[derive(Debug)]
pub struct CuteLibraryStatus {
    pub name: String,
    pub prefix: Option<String>,
}

// ---- versions -----------------------------------------------------------------------

/// The number that the first `n` digits stand for.
pub open spec fn digits_value(s: Seq<char>, n: int) -> int
    decreases n,
{
    if n <= 0 {
        0
    } else {
        digits_value(s, n - 1) * 10 + (s[n - 1] as int - '0' as int)
    }
}

/// The digits of a number: all of the text, or what follows a plus sign.
pub open spec fn number_digits(s: Seq<char>) -> Seq<char> {
    if s.len() > 1 && s[0] == '+' {
        s.drop_first()
    } else {
        s
    }
}

/// The 32-bit number that a text stands for.
pub open spec fn number_of(s: Seq<char>) -> Option<int> {
    let d = number_digits(s);
    if d.len() > 0 && (forall|i: int| 0 <= i < d.len() ==> is_ascii_digit(#[trigger] d[i]))
        && digits_value(d, d.len() as int) <= u32::MAX {
        Some(digits_value(d, d.len() as int))
    } else {
        None
    }
}

proof fn lemma_digits_grow(s: Seq<char>, a: int, b: int)
    requires
        0 <= a <= b <= s.len(),
        forall|i: int| 0 <= i < s.len() ==> is_ascii_digit(#[trigger] s[i]),
    ensures
        0 <= digits_value(s, a) <= digits_value(s, b),
    decreases b,
{
    if b > 0 {
        assert(is_ascii_digit(s[b - 1]));
        if a < b {
            lemma_digits_grow(s, a, b - 1);
        } else {
            lemma_digits_grow(s, a - 1, b - 1);
        }
    }
}

fn parse_number(s: &str) -> (r: Option<u32>)
    ensures
        match r {
            Some(n) => number_of(s@) == Some(n as int),
            None => number_of(s@) is None,
        },
{
    let v = chars_of(s);
    let n: usize = v.len();
    let start: usize = if n > 1 && v[0] == '+' {
        1
    } else {
        0
    };
    let ghost d = number_digits(v@);
    assert(d =~= v@.subrange(start as int, n as int));
    if start == n {
        return None;
    }
    let mut i: usize = start;
    while i < n
        invariant
            start <= i <= n,
            n == v@.len(),
            d == v@.subrange(start as int, n as int),
            d == number_digits(s@),
            forall|k: int| 0 <= k < i - start ==> is_ascii_digit(#[trigger] d[k]),
        decreases n - i,
    {
        let c: char = v[i];
        assert(d[i - start] == c);
        if !('0' <= c && c <= '9') {
            assert(!is_ascii_digit(d[i - start]));
            return None;
        }
        i += 1;
    }
    let mut value: u64 = 0;
    let mut k: usize = start;
    while k < n
        invariant
            start <= k <= n,
            n == v@.len(),
            d == v@.subrange(start as int, n as int),
            d.len() == n - start,
            forall|j: int| 0 <= j < d.len() ==> is_ascii_digit(#[trigger] d[j]),
            value == digits_value(d, k - start),
            value <= u32::MAX,
            d == number_digits(s@),
            d.len() > 0,
        decreases n - k,
    {
        let c: char = v[k];
        assert(d[k - start] == c);
        assert(is_ascii_digit(d[k - start]));
        let digit: u64 = (c as u32 - 48) as u64;
        value = value * 10 + digit;
        k += 1;
        if value > 0xffff_ffff {
            proof {
                lemma_digits_grow(d, k - start, d.len() as int);
            }
            return None;
        }
    }
    Some(value as u32)
}

/// The numbers among the first `n` texts.
pub open spec fn numbers(parts: Seq<Seq<char>>, n: int) -> Seq<int>
    decreases n,
{
    if n <= 0 {
        Seq::empty()
    } else {
        match number_of(parts[n - 1]) {
            Some(x) => numbers(parts, n - 1).push(x),
            None => numbers(parts, n - 1),
        }
    }
}

/// The numbers of a dotted version. What is no number does not count.
pub open spec fn version_numbers(s: Seq<char>) -> Seq<int> {
    numbers(split_on(s, '.'), split_on(s, '.').len() as int)
}

/// Number `i` of a version; missing ones are zero.
pub open spec fn part(v: Seq<int>, i: int) -> int {
    if 0 <= i < v.len() {
        v[i]
    } else {
        0
    }
}

/// The version `h` is at least `r`, from number `i` on.
pub open spec fn at_least_from(h: Seq<int>, r: Seq<int>, i: int) -> bool
    decreases h.len() + r.len() - i,
{
    if i < 0 || (i >= h.len() && i >= r.len()) {
        true
    } else if part(h, i) != part(r, i) {
        part(h, i) > part(r, i)
    } else {
        at_least_from(h, r, i + 1)
    }
}

/// The version `have` is at least `req`.
pub open spec fn at_least(have: Seq<char>, req: Seq<char>) -> bool {
    at_least_from(version_numbers(have), version_numbers(req), 0)
}

fn parse_version(s: &str) -> (r: Vec<u32>)
    ensures
        r@.len() == version_numbers(s@).len(),
        forall|i: int| 0 <= i < r@.len() ==> r@[i] as int == #[trigger] version_numbers(s@)[i],
{
    let parts = pieces(s, '.');
    let mut out: Vec<u32> = Vec::new();
    let mut i: usize = 0;
    while i < parts.len()
        invariant
            i <= parts@.len(),
            out@.len() == numbers(views(parts@), i as int).len(),
            forall|k: int|
                0 <= k < out@.len() ==> out@[k] as int == #[trigger] numbers(views(parts@), i as int)[k],
        decreases parts@.len() - i,
    {
        match parse_number(parts[i].as_str()) {
            Some(x) => {
                out.push(x);
            },
            None => {},
        }
        i += 1;
    }
    assert(views(parts@).len() == parts@.len());
    out
}

/// Whether the version `have` is at least `req`, number by number.
pub fn version_at_least(have: &str, req: &str) -> (r: bool)
    ensures
        r == at_least(have@, req@),
{
    let h = parse_version(have);
    let q = parse_version(req);
    let ghost hs = version_numbers(have@);
    let ghost rs = version_numbers(req@);
    let mut i: usize = 0;
    while i < h.len() || i < q.len()
        invariant
            i <= h@.len() || i <= q@.len(),
            h@.len() == hs.len(),
            q@.len() == rs.len(),
            forall|k: int| 0 <= k < h@.len() ==> h@[k] as int == #[trigger] hs[k],
            forall|k: int| 0 <= k < q@.len() ==> q@[k] as int == #[trigger] rs[k],
            at_least_from(hs, rs, 0) == at_least_from(hs, rs, i as int),
            hs == version_numbers(have@),
            rs == version_numbers(req@),
        decreases h@.len() + q@.len() - i,
    {
        let x: u32 = if i < h.len() {
            h[i]
        } else {
            0
        };
        let y: u32 = if i < q.len() {
            q[i]
        } else {
            0
        };
        assert(part(hs, i as int) == x);
        assert(part(rs, i as int) == y);
        if x != y {
            return x > y;
        }
        i += 1;
    }
    true
}

// ---- health -------------------------------------------------------------------------

/// The module is there, comes with another, or is a preview: no system packages
/// a preview, so that a missing one is noted and does not count as a failure.
pub open spec fn module_ok(m: QtModuleStatus) -> bool {
    m.kind is PrivateUmbrella || m.kind is TechPreview || m.present
}

/// The version is old: one is required, one is known, and it is less.
pub open spec fn too_old(q: QtToolchainStatus) -> bool {
    match q.required_min_version {
        Some(req) => match q.version {
            Some(have) => !at_least(have@, req@),
            None => false,
        },
        None => false,
    }
}

/// Qt is there, new enough, with all its modules but previews.
pub open spec fn qt_ok(q: QtToolchainStatus) -> bool {
    &&& q.prefix is Some
    &&& !too_old(q)
    &&& forall|i: int| 0 <= i < q.modules@.len() ==> module_ok(#[trigger] q.modules@[i])
}

/// KDE Frameworks is there, with all its modules.
pub open spec fn kf6_ok(k: Kf6ToolchainStatus) -> bool {
    &&& k.prefix is Some
    &&& forall|i: int| 0 <= i < k.modules@.len() ==> (#[trigger] k.modules@[i]).present
}

/// Everything that the build needs is there. A library is not examined.
pub open spec fn healthy(r: DoctorReport) -> bool {
    r.library_mode_skipped || {
        &&& r.qt is Some && qt_ok(r.qt->0)
        &&& r.kf6 is Some ==> kf6_ok(r.kf6->0)
        &&& r.cute_ui is Some ==> r.cute_ui->0.prefix is Some
        &&& forall|i: int|
            0 <= i < r.cute_libraries@.len() ==> (#[trigger] r.cute_libraries@[i]).prefix is Some
    }
}

pub fn qt_module_is_ok(m: &QtModuleStatus) -> (r: bool)
    ensures
        r == module_ok(*m),
{
    match m.kind {
        QtComponentKind::PrivateUmbrella { .. } => true,
        QtComponentKind::TechPreview => true,
        QtComponentKind::Standard => m.present,
    }
}

fn qt_is_too_old(q: &QtToolchainStatus) -> (r: bool)
    ensures
        r == too_old(*q),
{
    match q.required_min_version {
        Some(req) => match &q.version {
            Some(have) => !version_at_least(have.as_str(), req),
            None => false,
        },
        None => false,
    }
}

pub fn qt_status_is_ok(q: &QtToolchainStatus) -> (r: bool)
    ensures
        r == qt_ok(*q),
{
    if q.prefix.is_none() || qt_is_too_old(q) {
        return false;
    }
    let mut i: usize = 0;
    while i < q.modules.len()
        invariant
            i <= q.modules@.len(),
            forall|j: int| 0 <= j < i ==> module_ok(#[trigger] q.modules@[j]),
        decreases q.modules@.len() - i,
    {
        if !qt_module_is_ok(&q.modules[i]) {
            assert(!module_ok(q.modules@[i as int]));
            return false;
        }
        i += 1;
    }
    true
}

pub fn kf6_status_is_ok(k: &Kf6ToolchainStatus) -> (r: bool)
    ensures
        r == kf6_ok(*k),
{
    if k.prefix.is_none() {
        return false;
    }
    let mut i: usize = 0;
    while i < k.modules.len()
        invariant
            i <= k.modules@.len(),
            forall|j: int| 0 <= j < i ==> (#[trigger] k.modules@[j]).present,
        decreases k.modules@.len() - i,
    {
        if !k.modules[i].present {
            assert(!k.modules@[i as int].present);
            return false;
        }
        i += 1;
    }
    true
}

impl DoctorReport {
    /// Whether everything that the build needs is there.
    pub fn is_healthy(&self) -> (r: bool)
        ensures
            r == healthy(*self),
    {
        if self.library_mode_skipped {
            return true;
        }
        match &self.qt {
            Some(q) => {
                if !qt_status_is_ok(q) {
                    return false;
                }
            },
            None => {
                return false;
            },
        }
        match &self.kf6 {
            Some(k) => {
                if !kf6_status_is_ok(k) {
                    return false;
                }
            },
            None => {},
        }
        match &self.cute_ui {
            Some(s) => {
                if s.prefix.is_none() {
                    return false;
                }
            },
            None => {},
        }
        let mut i: usize = 0;
        while i < self.cute_libraries.len()
            invariant
                i <= self.cute_libraries@.len(),
                !self.library_mode_skipped,
                forall|j: int|
                    0 <= j < i ==> (#[trigger] self.cute_libraries@[j]).prefix is Some,
            decreases self.cute_libraries@.len() - i,
        {
            if self.cute_libraries[i].prefix.is_none() {
                assert(!(self.cute_libraries@[i as int].prefix is Some));
                return false;
            }
            i += 1;
        }
        true
    }
}

// ---- examination --------------------------------------------------------------------

/// What was found on the host.
#[derive(Debug)]
pub struct HostProbes {
    pub distro: DistroId,
    pub qt_prefix: Option<String>,
    pub qt_version: Option<String>,
    pub craft_prefix: Option<String>,
    pub cute_ui_prefix: Option<String>,
    /// The prefixes of the manifest's libraries, in its order.
    pub library_prefixes: Vec<Option<String>>,
    /// The package configuration files that exist.
    pub present: Vec<String>,
}

/// The package whose configuration shows that a component is there: that of
/// the component, or of the one that it comes with.
pub open spec fn qt_config_package(component: Seq<char>) -> Seq<char> {
    if component == "GuiPrivate"@ {
        "Qt6"@ + "Gui"@
    } else {
        "Qt6"@ + component
    }
}

/// The component is there.
pub open spec fn component_present(component: Seq<char>, p: HostProbes) -> bool {
    match p.qt_prefix {
        Some(prefix) => is_configured(prefix@, qt_config_package(component), views(p.present@)),
        None => false,
    }
}

/// `m` is the state of the component.
pub open spec fn is_module_status(component: Seq<char>, p: HostProbes, m: QtModuleStatus) -> bool {
    &&& m.component@ == component
    &&& is_kind_of(component, m.kind)
    &&& m.present == component_present(component, p)
}

/// `q` is the state of Qt for these needs.
pub open spec fn is_qt_status(deps: RequiredDeps, p: HostProbes, q: QtToolchainStatus) -> bool {
    &&& opt_view(q.prefix) == opt_view(p.qt_prefix)
    &&& opt_view(q.version) == if p.qt_prefix is Some {
        opt_view(p.qt_version)
    } else {
        None
    }
    &&& q.required_min_version == deps.qt6_min_version
    &&& q.modules@.len() == deps.qt6_components@.len()
    &&& forall|i: int|
        0 <= i < q.modules@.len() ==> is_module_status(
            deps.qt6_components@[i]@,
            p,
            #[trigger] q.modules@[i],
        )
}

fn copy_opt(o: &Option<String>) -> (r: Option<String>)
    ensures
        opt_view(r) == opt_view(*o),
{
    match o {
        Some(s) => Some(s.clone()),
        None => None,
    }
}

/// The state of Qt.
pub fn collect_qt_status(deps: &RequiredDeps, p: &HostProbes) -> (r: QtToolchainStatus)
    ensures
        is_qt_status(*deps, *p, r),
{
    let mut modules: Vec<QtModuleStatus> = Vec::new();
    let mut i: usize = 0;
    while i < deps.qt6_components.len()
        invariant
            i <= deps.qt6_components@.len(),
            modules@.len() == i,
            forall|k: int|
                0 <= k < i ==> is_module_status(
                    deps.qt6_components@[k]@,
                    *p,
                    #[trigger] modules@[k],
                ),
        decreases deps.qt6_components@.len() - i,
    {
        let c = &deps.qt6_components[i];
        let kind = qt_component_kind(c.as_str());
        let package = match kind {
            QtComponentKind::PrivateUmbrella { parent } => "Qt6".to_owned().concat(parent),
            _ => "Qt6".to_owned().concat(c.as_str()),
        };
        let present = match &p.qt_prefix {
            Some(prefix) => has_cmake_config(prefix.as_str(), package.as_str(), &p.present),
            None => false,
        };
        modules.push(QtModuleStatus { component: c.clone(), kind, present });
        i += 1;
    }
    QtToolchainStatus {
        prefix: copy_opt(&p.qt_prefix),
        version: match &p.qt_prefix {
            Some(_) => copy_opt(&p.qt_version),
            None => None,
        },
        required_min_version: deps.qt6_min_version,
        modules,
    }
}

/// The KDE Frameworks components that the first `n` arguments name.
pub open spec fn kf6_components(args: Seq<Seq<char>>, n: int) -> Seq<Seq<char>>
    decreases n,
{
    if n <= 0 {
        Seq::empty()
    } else {
        kf6_components(args, n - 1) + components_of(args[n - 1], "KF6"@)
    }
}

/// The KDE Frameworks components of the manifest, sorted and each once.
pub open spec fn needed_kf6(deps: RequiredDeps) -> Seq<Seq<char>> {
    sorted_list(
        kf6_components(
            views(deps.manifest_find_packages@),
            deps.manifest_find_packages@.len() as int,
        ),
    )
}

/// `m` is the state of the component.
pub open spec fn is_kf6_module_status(
    component: Seq<char>,
    p: HostProbes,
    m: Kf6ModuleStatus,
) -> bool {
    &&& m.component@ == component
    &&& m.present == match p.craft_prefix {
        Some(prefix) => is_configured(prefix@, "KF6"@ + component, views(p.present@)),
        None => false,
    }
}

/// `k` is the state of KDE Frameworks for these needs.
pub open spec fn is_kf6_status(deps: RequiredDeps, p: HostProbes, k: Kf6ToolchainStatus) -> bool {
    &&& opt_view(k.prefix) == opt_view(p.craft_prefix)
    &&& k.modules@.len() == needed_kf6(deps).len()
    &&& forall|i: int|
        0 <= i < k.modules@.len() ==> is_kf6_module_status(
            needed_kf6(deps)[i],
            p,
            #[trigger] k.modules@[i],
        )
}

/// The state of KDE Frameworks.
pub fn collect_kf6_status(deps: &RequiredDeps, p: &HostProbes) -> (r: Kf6ToolchainStatus)
    ensures
        is_kf6_status(*deps, *p, r),
{
    let args = &deps.manifest_find_packages;
    let mut all: Vec<String> = Vec::new();
    let mut i: usize = 0;
    assert(views(all@) =~= kf6_components(views(args@), 0));
    while i < args.len()
        invariant
            i <= args@.len(),
            views(all@) == kf6_components(views(args@), i as int),
        decreases args@.len() - i,
    {
        all = crate::text::chain(all, parse_kf6_components_from_find_package(args[i].as_str()));
        i += 1;
    }
    let components = sorted_set(&all);
    proof {
        lemma_sorted_list(views(all@), views(components@));
    }
    assert(views(components@).len() == components@.len());
    let mut modules: Vec<Kf6ModuleStatus> = Vec::new();
    let mut k: usize = 0;
    while k < components.len()
        invariant
            k <= components@.len(),
            modules@.len() == k,
            views(components@).len() == components@.len(),
            forall|j: int|
                0 <= j < k ==> is_kf6_module_status(
                    views(components@)[j],
                    *p,
                    #[trigger] modules@[j],
                ),
        decreases components@.len() - k,
    {
        let package = "KF6".to_owned().concat(components[k].as_str());
        let present = match &p.craft_prefix {
            Some(prefix) => has_cmake_config(prefix.as_str(), package.as_str(), &p.present),
            None => false,
        };
        modules.push(Kf6ModuleStatus { component: components[k].clone(), present });
        k += 1;
    }
    Kf6ToolchainStatus { prefix: copy_opt(&p.craft_prefix), modules }
}

/// `s` is the state of each of the libraries.
pub open spec fn are_library_statuses(
    names: Seq<String>,
    prefixes: Seq<Option<String>>,
    s: Seq<CuteLibraryStatus>,
) -> bool {
    &&& s.len() == names.len()
    &&& forall|i: int|
        0 <= i < s.len() ==> (#[trigger] s[i]).name == names[i] && opt_view(s[i].prefix)
            == opt_view(prefixes[i])
}

/// Examines a project. Of a library nothing is said.
pub fn run(
    entry: &str,
    manifest: &Manifest,
    mode: BuildMode,
    p: &HostProbes,
) -> (r: DoctorReport)
    requires
        p.library_prefixes@.len() == manifest.cute_libraries.deps@.len(),
    ensures
        r.project_path@ == entry@,
        r.distro == p.distro,
        r.library_mode_skipped == (manifest.library is Some),
        r.library_mode_skipped ==> r.mode_and_deps is None && r.qt is None && r.kf6 is None
            && r.cute_ui is None && r.cute_libraries@.len() == 0,
        !r.library_mode_skipped ==> {
            let deps = r.mode_and_deps->0.deps;
            &&& r.mode_and_deps is Some
            &&& r.mode_and_deps->0.mode == mode
            &&& deps.mode == mode
            &&& views(deps.qt6_components@) == needed_components(mode, *manifest)
            &&& lit_view(deps.qt6_min_version) == min_version(mode)
            &&& deps.needs_cute_ui == (mode == BuildMode::CuteUi)
            &&& deps.uses_kf6 == needs_kf6(*manifest)
            &&& deps.manifest_find_packages@ == manifest.cmake.find_package@
            &&& deps.cute_libraries@ == manifest.cute_libraries.deps@
            &&& r.qt is Some && is_qt_status(deps, *p, r.qt->0)
            &&& r.kf6 is Some == needs_kf6(*manifest)
            &&& r.kf6 is Some ==> is_kf6_status(deps, *p, r.kf6->0)
            &&& r.cute_ui is Some == (mode == BuildMode::CuteUi)
            &&& r.cute_ui is Some ==> opt_view(r.cute_ui->0.prefix) == opt_view(p.cute_ui_prefix)
                && r.cute_ui->0.qt_min@ == "6.11"@
            &&& are_library_statuses(
                manifest.cute_libraries.deps@,
                p.library_prefixes@,
                r.cute_libraries@,
            )
        },
{
    if manifest.library.is_some() {
        return DoctorReport {
            project_path: entry.to_owned(),
            library_mode_skipped: true,
            distro: p.distro,
            mode_and_deps: None,
            qt: None,
            kf6: None,
            cute_ui: None,
            cute_libraries: Vec::new(),
        };
    }
    let deps = required_deps_for(mode, manifest);
    let qt = collect_qt_status(&deps, p);
    let kf6 = if deps.uses_kf6 {
        Some(collect_kf6_status(&deps, p))
    } else {
        None
    };
    let cute_ui = if deps.needs_cute_ui {
        Some(
            CuteUiStatus {
                prefix: copy_opt(&p.cute_ui_prefix),
                qt_min: match deps.qt6_min_version {
                    Some(v) => v,
                    None => "6.11",
                },
            },
        )
    } else {
        None
    };
    let mut libraries: Vec<CuteLibraryStatus> = Vec::new();
    let mut i: usize = 0;
    while i < manifest.cute_libraries.deps.len()
        invariant
            i <= manifest.cute_libraries.deps@.len(),
            p.library_prefixes@.len() == manifest.cute_libraries.deps@.len(),
            libraries@.len() == i,
            forall|k: int|
                0 <= k < i ==> (#[trigger] libraries@[k]).name
                    == manifest.cute_libraries.deps@[k] && opt_view(libraries@[k].prefix)
                    == opt_view(p.library_prefixes@[k]),
        decreases manifest.cute_libraries.deps@.len() - i,
    {
        libraries.push(
            CuteLibraryStatus {
                name: manifest.cute_libraries.deps[i].clone(),
                prefix: copy_opt(&p.library_prefixes[i]),
            },
        );
        i += 1;
    }
    DoctorReport {
        project_path: entry.to_owned(),
        library_mode_skipped: false,
        distro: p.distro,
        mode_and_deps: Some(ModeAndDeps { mode, deps }),
        qt: Some(qt),
        kf6,
        cute_ui,
        cute_libraries: libraries,
    }
}

// ---- install commands ------------------------------------------------------------------

/// The module's package is to be installed: every ordinary module where there
/// is no Qt, and else those that are missing.
pub open spec fn wants_package(q: QtToolchainStatus, m: QtModuleStatus) -> bool {
    m.kind is Standard && (q.prefix is None || !m.present)
}

/// The packages of the first `n` modules that are to be installed.
pub open spec fn qt_missing_packages(
    q: QtToolchainStatus,
    distro: DistroId,
    n: int,
) -> Seq<Seq<char>>
    decreases n,
{
    if n <= 0 {
        Seq::empty()
    } else {
        let before = qt_missing_packages(q, distro, n - 1);
        let m = q.modules@[n - 1];
        match qt_package(m.component@, distro) {
            Some(p) => if wants_package(q, m) {
                before.push(p)
            } else {
                before
            },
            None => before,
        }
    }
}

/// The packages of the first `n` KDE Frameworks modules that are to be
/// installed.
pub open spec fn kf6_missing_packages(
    k: Kf6ToolchainStatus,
    distro: DistroId,
    n: int,
) -> Seq<Seq<char>>
    decreases n,
{
    if n <= 0 {
        Seq::empty()
    } else {
        let before = kf6_missing_packages(k, distro, n - 1);
        let m = k.modules@[n - 1];
        match kf6_package(m.component@, distro) {
            Some(p) => if k.prefix is None || !m.present {
                before.push(p)
            } else {
                before
            },
            None => before,
        }
    }
}

/// The KDE Frameworks packages to install: Kirigami's where nothing is there
/// and no module is named.
pub open spec fn kf6_wanted(k: Kf6ToolchainStatus, distro: DistroId) -> Seq<Seq<char>> {
    let named = kf6_missing_packages(k, distro, k.modules@.len() as int);
    if k.prefix is None && k.modules@.len() == 0 {
        match kf6_package("Kirigami"@, distro) {
            Some(p) => named.push(p),
            None => named,
        }
    } else {
        named
    }
}

/// Those of the first `n` modules whose packages are to be installed, by their
/// names.
pub open spec fn missing_components(q: QtToolchainStatus, n: int) -> Seq<Seq<char>>
    decreases n,
{
    if n <= 0 {
        Seq::empty()
    } else if wants_package(q, q.modules@[n - 1]) {
        missing_components(q, n - 1).push(q.modules@[n - 1].component@)
    } else {
        missing_components(q, n - 1)
    }
}

/// Qt is missing, or one of its ordinary modules is.
pub open spec fn qt_is_missing(q: QtToolchainStatus) -> bool {
    q.prefix is None || missing_components(q, q.modules@.len() as int).len() > 0
}

/// What is said where the names of the packages are not known.
pub open spec fn generic_message() -> Seq<char> {
    "# Install Qt 6 development packages from your distro:"@
}

/// What is said where there is no distribution to install from.
pub open spec fn installer_message() -> Seq<char> {
    "# Install Qt 6 with the online installer: https://www.qt.io/download-qt-installer"@
}

/// The lines with those that install Qt where no distribution packages it: the
/// formula on macOS, a message with the missing modules on an unknown Linux, and
/// the address of the installer on other systems.
pub open spec fn with_qt_lines(
    lines: Seq<Seq<char>>,
    distro: DistroId,
    q: QtToolchainStatus,
) -> Seq<Seq<char>> {
    let n = q.modules@.len() as int;
    let packages = sorted_list(qt_missing_packages(q, distro, n));
    let components = sorted_list(missing_components(q, n));
    match distro {
        DistroId::UnknownLinux => if !qt_is_missing(q) {
            lines
        } else if components.len() == 0 {
            lines.push(generic_message())
        } else {
            lines.push(generic_message()).push("#   needed: "@ + join(components, " "@))
        },
        DistroId::Other => if qt_is_missing(q) {
            lines.push(installer_message())
        } else {
            lines
        },
        DistroId::MacOS => if packages.len() == 0 {
            lines
        } else {
            lines.push(brew_prefix(distro) + join(packages, " "@))
        },
        _ => lines,
    }
}

/// The packages to install: those of Qt, then those of KDE Frameworks.
pub open spec fn wanted_packages(r: DoctorReport) -> Seq<Seq<char>> {
    (match r.qt {
        Some(q) => sorted_list(qt_missing_packages(q, r.distro, q.modules@.len() as int)),
        None => Seq::empty(),
    }) + (match r.kf6 {
        Some(k) => sorted_list(kf6_wanted(k, r.distro)),
        None => Seq::empty(),
    })
}

/// The system is a Linux distribution whose packages are known.
pub open spec fn is_packaged(distro: DistroId) -> bool {
    match distro {
        DistroId::MacOS | DistroId::UnknownLinux | DistroId::Other => false,
        _ => true,
    }
}

/// The lines with the one that installs packages, on the distributions that have
/// them.
pub open spec fn with_package_line(
    lines: Seq<Seq<char>>,
    distro: DistroId,
    packages: Seq<Seq<char>>,
) -> Seq<Seq<char>> {
    if packages.len() == 0 || !is_packaged(distro) {
        lines
    } else {
        lines.push(install_prefix(distro) + join(packages, " "@))
    }
}

/// The lines with one for each of the first `n` libraries that is missing.
pub open spec fn with_library_lines(
    lines: Seq<Seq<char>>,
    libs: Seq<CuteLibraryStatus>,
    n: int,
) -> Seq<Seq<char>>
    decreases n,
{
    if n <= 0 {
        lines
    } else {
        let before = with_library_lines(lines, libs, n - 1);
        if libs[n - 1].prefix is None {
            before.push("cute install <path-or-git-url-for-"@ + libs[n - 1].name@ + ">"@)
        } else {
            before
        }
    }
}

/// The commands that install what is missing: Qt is upgraded where it is old,
/// then come the packages of Qt and of KDE Frameworks in one command, the CuteUI
/// runtime, and the libraries.
pub open spec fn install_lines(r: DoctorReport) -> Seq<Seq<char>> {
    let e = Seq::<Seq<char>>::empty();
    let upgraded = if r.qt is Some && r.qt->0.prefix is Some && too_old(r.qt->0) && r.distro
        == DistroId::MacOS {
        e.push("brew upgrade qt"@)
    } else {
        e
    };
    let a = match r.qt {
        Some(q) => with_qt_lines(upgraded, r.distro, q),
        None => upgraded,
    };
    let b = with_package_line(a, r.distro, wanted_packages(r));
    let c = if r.cute_ui is Some && r.cute_ui->0.prefix is None {
        b.push("cute install-cute-ui"@)
    } else {
        b
    };
    with_library_lines(c, r.cute_libraries@, r.cute_libraries@.len() as int)
}

fn push_text(v: Vec<String>, s: String) -> (r: Vec<String>)
    ensures
        views(r@) == views(v@).push(s@),
{
    let mut out = v;
    proof {
        lemma_views_push(out@, s);
    }
    out.push(s);
    out
}

fn collect_qt_packages(q: &QtToolchainStatus, distro: DistroId) -> (r: Vec<String>)
    ensures
        views(r@) == sorted_list(qt_missing_packages(*q, distro, q.modules@.len() as int)),
{
    let mut all: Vec<String> = Vec::new();
    let mut i: usize = 0;
    assert(views(all@) =~= qt_missing_packages(*q, distro, 0));
    while i < q.modules.len()
        invariant
            i <= q.modules@.len(),
            views(all@) == qt_missing_packages(*q, distro, i as int),
        decreases q.modules@.len() - i,
    {
        let m = &q.modules[i];
        let standard = match m.kind {
            QtComponentKind::Standard => true,
            _ => false,
        };
        if standard && (q.prefix.is_none() || !m.present) {
            match qt_packages_for(m.component.as_str(), distro) {
                Some(pkgs) => {
                    all = push_text(all, pkgs[0].to_owned());
                },
                None => {},
            }
        }
        i += 1;
    }
    let out = sorted_set(&all);
    proof {
        lemma_sorted_list(views(all@), views(out@));
    }
    out
}

fn collect_kf6_packages(k: &Kf6ToolchainStatus, distro: DistroId) -> (r: Vec<String>)
    ensures
        views(r@) == sorted_list(kf6_wanted(*k, distro)),
{
    let mut all: Vec<String> = Vec::new();
    let mut i: usize = 0;
    assert(views(all@) =~= kf6_missing_packages(*k, distro, 0));
    while i < k.modules.len()
        invariant
            i <= k.modules@.len(),
            views(all@) == kf6_missing_packages(*k, distro, i as int),
        decreases k.modules@.len() - i,
    {
        let m = &k.modules[i];
        if k.prefix.is_none() || !m.present {
            match kf6_packages_for(m.component.as_str(), distro) {
                Some(pkgs) => {
                    all = push_text(all, pkgs[0].to_owned());
                },
                None => {},
            }
        }
        i += 1;
    }
    if k.prefix.is_none() && k.modules.len() == 0 {
        match kf6_packages_for("Kirigami", distro) {
            Some(pkgs) => {
                all = push_text(all, pkgs[0].to_owned());
            },
            None => {},
        }
    }
    let out = sorted_set(&all);
    proof {
        lemma_sorted_list(views(all@), views(out@));
    }
    out
}

fn collect_components(q: &QtToolchainStatus) -> (r: Vec<String>)
    ensures
        views(r@) == missing_components(*q, q.modules@.len() as int),
{
    let mut all: Vec<String> = Vec::new();
    let mut i: usize = 0;
    assert(views(all@) =~= missing_components(*q, 0));
    while i < q.modules.len()
        invariant
            i <= q.modules@.len(),
            views(all@) == missing_components(*q, i as int),
        decreases q.modules@.len() - i,
    {
        let m = &q.modules[i];
        let standard = match m.kind {
            QtComponentKind::Standard => true,
            _ => false,
        };
        if standard && (q.prefix.is_none() || !m.present) {
            all = push_text(all, m.component.clone());
        }
        i += 1;
    }
    all
}

fn push_generic_lines(lines: Vec<String>, q: &QtToolchainStatus) -> (r: Vec<String>)
    ensures
        views(r@) == with_qt_lines(views(lines@), DistroId::UnknownLinux, *q),
{
    let all = collect_components(q);
    assert(views(all@).len() == all@.len());
    if q.prefix.is_some() && all.len() == 0 {
        return lines;
    }
    let names = sorted_set(&all);
    proof {
        lemma_sorted_list(views(all@), views(names@));
        assert(views(names@).len() == names@.len());
    }
    let first = push_text(
        lines,
        "# Install Qt 6 development packages from your distro:".to_owned(),
    );
    if names.len() == 0 {
        return first;
    }
    push_text(first, "#   needed: ".to_owned().concat(joined(&names, " ").as_str()))
}

fn push_installer_line(lines: Vec<String>, q: &QtToolchainStatus) -> (r: Vec<String>)
    ensures
        views(r@) == with_qt_lines(views(lines@), DistroId::Other, *q),
{
    let all = collect_components(q);
    assert(views(all@).len() == all@.len());
    if q.prefix.is_some() && all.len() == 0 {
        return lines;
    }
    push_text(
        lines,
        "# Install Qt 6 with the online installer: https://www.qt.io/download-qt-installer".to_owned(),
    )
}

fn push_qt_lines(lines: Vec<String>, distro: DistroId, q: &QtToolchainStatus) -> (r: Vec<String>)
    ensures
        views(r@) == with_qt_lines(views(lines@), distro, *q),
{
    match distro {
        DistroId::UnknownLinux => {
            return push_generic_lines(lines, q);
        },
        DistroId::Other => {
            return push_installer_line(lines, q);
        },
        DistroId::MacOS => {},
        _ => {
            return lines;
        },
    }
    let packages = collect_qt_packages(q, distro);
    assert(views(packages@).len() == packages@.len());
    if packages.len() == 0 {
        return lines;
    }
    let list = joined(&packages, " ");
    push_text(lines, distro.brew_install_command_prefix().to_owned().concat(list.as_str()))
}

fn collect_packages(r: &DoctorReport) -> (v: Vec<String>)
    ensures
        views(v@) == wanted_packages(*r),
{
    let empty: Vec<String> = Vec::new();
    let none: Vec<String> = Vec::new();
    assert(views(empty@) =~= Seq::<Seq<char>>::empty());
    assert(views(none@) =~= Seq::<Seq<char>>::empty());
    let qt = match &r.qt {
        Some(q) => collect_qt_packages(q, r.distro),
        None => empty,
    };
    let kf6 = match &r.kf6 {
        Some(k) => collect_kf6_packages(k, r.distro),
        None => none,
    };
    chain(qt, kf6)
}

fn push_package_line(lines: Vec<String>, distro: DistroId, packages: &Vec<String>) -> (r: Vec<
    String,
>)
    ensures
        views(r@) == with_package_line(views(lines@), distro, views(packages@)),
{
    assert(views(packages@).len() == packages@.len());
    if packages.len() == 0 {
        return lines;
    }
    match distro {
        DistroId::MacOS | DistroId::UnknownLinux | DistroId::Other => lines,
        _ => push_text(
            lines,
            distro.install_command_prefix().to_owned().concat(joined(packages, " ").as_str()),
        ),
    }
}

/// The commands that install what is missing.
pub fn build_install_command_lines(r: &DoctorReport) -> (lines: Vec<String>)
    ensures
        views(lines@) == install_lines(*r),
{
    let mut lines: Vec<String> = Vec::new();
    let ghost e = Seq::<Seq<char>>::empty();
    assert(views(lines@) =~= e);
    match &r.qt {
        Some(q) => {
            if q.prefix.is_some() && qt_is_too_old(q) && r.distro == DistroId::MacOS {
                lines = push_text(lines, "brew upgrade qt".to_owned());
            }
            lines = push_qt_lines(lines, r.distro, q);
        },
        None => {},
    }
    let wanted = collect_packages(r);
    lines = push_package_line(lines, r.distro, &wanted);
    match &r.cute_ui {
        Some(c) => {
            if c.prefix.is_none() {
                lines = push_text(lines, "cute install-cute-ui".to_owned());
            }
        },
        None => {},
    }
    let ghost start = views(lines@);
    let mut i: usize = 0;
    while i < r.cute_libraries.len()
        invariant
            i <= r.cute_libraries@.len(),
            views(lines@) == with_library_lines(start, r.cute_libraries@, i as int),
        decreases r.cute_libraries@.len() - i,
    {
        if r.cute_libraries[i].prefix.is_none() {
            lines = push_text(
                lines,
                "cute install <path-or-git-url-for-".to_owned().concat(
                    r.cute_libraries[i].name.as_str(),
                ).concat(">"),
            );
        }
        i += 1;
    }
    lines
}

// ---- the text of a report -----------------------------------------------------------------

/// An old Qt.
pub open spec fn qt_old_line_text(
    s: Seq<char>,
    v: Seq<char>,
    p: Seq<char>,
    req: Seq<char>,
) -> Seq<char> {
    s
        + "  ! Found Qt "@
        + v
        + " at "@
        + p
        + " — required: "@
        + req
        + " or newer.\n"@
}

fn qt_old_line(s: String, v: &str, p: &str, req: &str) -> (r: String)
    ensures
        r@ == qt_old_line_text(s@, v@, p@, req@),
{
    s
        .concat("  ! Found Qt ")
        .concat(v)
        .concat(" at ")
        .concat(p)
        .concat(" — required: ")
        .concat(req)
        .concat(" or newer.\n")
}

/// The line that says where Qt is.
pub open spec fn qt_found(s: Seq<char>, q: QtToolchainStatus) -> Seq<char> {
    match (q.prefix, q.version) {
        (Some(p), Some(v)) => if too_old(q) {
            qt_old_line_text(s, v@, p@, q.required_min_version->0@)
        } else {
            s + "  + Found at "@ + p@ + " ("@ + v@ + ")\n"@
        },
        (Some(p), None) => s + "  + Found at "@ + p@ + " (version unknown)\n"@,
        (None, _) => s + "  - Qt 6 not found on this system.\n"@,
    }
}

fn render_qt_found(s: String, q: &QtToolchainStatus) -> (r: String)
    ensures
        r@ == qt_found(s@, *q),
{
    match &q.prefix {
        Some(p) => match &q.version {
            Some(v) => {
                match q.required_min_version {
                    Some(req) => {
                        if !version_at_least(v.as_str(), req) {
                            return qt_old_line(s, v.as_str(), p.as_str(), req);
                        }
                    },
                    None => {},
                }
                s.concat("  + Found at ").concat(p.as_str()).concat(" (").concat(v.as_str()).concat(
                    ")\n",
                )
            },
            None => s.concat("  + Found at ").concat(p.as_str()).concat(" (version unknown)\n"),
        },
        None => s.concat("  - Qt 6 not found on this system.\n"),
    }
}

/// The lines of one module.
pub open spec fn qt_module_lines(s: Seq<char>, m: QtModuleStatus) -> Seq<char> {
    match m.kind {
        QtComponentKind::PrivateUmbrella { parent } => s + "  + Qt6::"@ + m.component@
            + " (ships with Qt6::"@ + parent@ + ")\n"@,
        QtComponentKind::TechPreview => if m.present {
            s + "  + Qt6::"@ + m.component@ + " (Tech Preview)\n"@
        } else {
            s + "  ! Qt6::"@ + m.component@
                + " (Tech Preview) — not yet packaged by mainstream distros.\n"@
                + "      Build Qt 6.11+ from source with `-feature-qtcanvaspainter`,\n"@
                + "      or wait for upstream packaging.\n"@
        },
        QtComponentKind::Standard => if m.present {
            s + "  + Qt6::"@ + m.component@ + "\n"@
        } else {
            s + "  - Qt6::"@ + m.component@ + " — missing\n"@
        },
    }
}

fn render_qt_module(s: String, m: &QtModuleStatus) -> (r: String)
    ensures
        r@ == qt_module_lines(s@, *m),
{
    let c = m.component.as_str();
    match m.kind {
        QtComponentKind::PrivateUmbrella { parent } => s.concat("  + Qt6::").concat(c).concat(
            " (ships with Qt6::",
        ).concat(parent).concat(")\n"),
        QtComponentKind::TechPreview => if m.present {
            s.concat("  + Qt6::").concat(c).concat(" (Tech Preview)\n")
        } else {
            s.concat("  ! Qt6::").concat(c).concat(
                " (Tech Preview) — not yet packaged by mainstream distros.\n",
            ).concat("      Build Qt 6.11+ from source with `-feature-qtcanvaspainter`,\n").concat(
                "      or wait for upstream packaging.\n",
            )
        },
        QtComponentKind::Standard => if m.present {
            s.concat("  + Qt6::").concat(c).concat("\n")
        } else {
            s.concat("  - Qt6::").concat(c).concat(" — missing\n")
        },
    }
}

/// The lines of the first `n` modules.
pub open spec fn qt_modules_lines(s: Seq<char>, v: Seq<QtModuleStatus>, n: int) -> Seq<char>
    decreases n,
{
    if n <= 0 {
        s
    } else {
        qt_module_lines(qt_modules_lines(s, v, n - 1), v[n - 1])
    }
}

fn render_qt_modules(s: String, v: &Vec<QtModuleStatus>) -> (r: String)
    ensures
        r@ == qt_modules_lines(s@, v@, v@.len() as int),
{
    let ghost start = s@;
    let mut s = s;
    let mut i: usize = 0;
    while i < v.len()
        invariant
            i <= v@.len(),
            s@ == qt_modules_lines(start, v@, i as int),
        decreases v@.len() - i,
    {
        s = render_qt_module(s, &v[i]);
        i += 1;
    }
    s
}

/// The section on Qt.
pub open spec fn qt_section(s: Seq<char>, q: QtToolchainStatus) -> Seq<char> {
    let found = qt_found(s + "Qt 6 toolchain\n"@, q);
    let head = found + "\n"@ + "Required Qt 6 modules ("@ + decimal(q.modules@.len()) + ")\n"@;
    qt_modules_lines(head, q.modules@, q.modules@.len() as int) + "\n"@
}

pub fn render_qt_section(s: String, q: &QtToolchainStatus) -> (r: String)
    ensures
        r@ == qt_section(s@, *q),
{
    let found = render_qt_found(s.concat("Qt 6 toolchain\n"), q);
    let head = found.concat("\n").concat("Required Qt 6 modules (").concat(
        decimal_string(q.modules.len() as u64).as_str(),
    ).concat(")\n");
    render_qt_modules(head, &q.modules).concat("\n")
}

/// The line of one KDE Frameworks module.
pub open spec fn kf6_module_line(s: Seq<char>, m: Kf6ModuleStatus) -> Seq<char> {
    if m.present {
        s + "    + KF6"@ + m.component@ + "\n"@
    } else {
        s + "    - KF6"@ + m.component@ + " — missing\n"@
    }
}

fn render_kf6_module(s: String, m: &Kf6ModuleStatus) -> (r: String)
    ensures
        r@ == kf6_module_line(s@, *m),
{
    if m.present {
        s.concat("    + KF6").concat(m.component.as_str()).concat("\n")
    } else {
        s.concat("    - KF6").concat(m.component.as_str()).concat(" — missing\n")
    }
}

/// The lines of the first `n` KDE Frameworks modules.
pub open spec fn kf6_module_lines(s: Seq<char>, v: Seq<Kf6ModuleStatus>, n: int) -> Seq<char>
    decreases n,
{
    if n <= 0 {
        s
    } else {
        kf6_module_line(kf6_module_lines(s, v, n - 1), v[n - 1])
    }
}

fn render_kf6_modules(s: String, v: &Vec<Kf6ModuleStatus>) -> (r: String)
    ensures
        r@ == kf6_module_lines(s@, v@, v@.len() as int),
{
    let ghost start = s@;
    let mut s = s;
    let mut i: usize = 0;
    while i < v.len()
        invariant
            i <= v@.len(),
            s@ == kf6_module_lines(start, v@, i as int),
        decreases v@.len() - i,
    {
        s = render_kf6_module(s, &v[i]);
        i += 1;
    }
    s
}

/// How to install KDE Frameworks on macOS.
pub open spec fn craft_hint_text(s: Seq<char>) -> Seq<char> {
    s
        + "  - KF 6 not found at $CRAFT_ROOT or ~/CraftRoot.\n"@
        + "    Install via KDE Craft (https://community.kde.org/Craft):\n"@
        + "      python3 -m venv ~/CraftRoot && source ~/CraftRoot/bin/activate\n"@
        + "      curl -O https://invent.kde.org/packaging/craft/-/raw/master/setup/CraftBootstrap.py\n"@
        + "      python3 CraftBootstrap.py\n"@
        + "      craft kirigami\n"@
}

fn craft_hint(s: String) -> (r: String)
    ensures
        r@ == craft_hint_text(s@),
{
    s
        .concat("  - KF 6 not found at $CRAFT_ROOT or ~/CraftRoot.\n")
        .concat("    Install via KDE Craft (https://community.kde.org/Craft):\n")
        .concat("      python3 -m venv ~/CraftRoot && source ~/CraftRoot/bin/activate\n")
        .concat("      curl -O https://invent.kde.org/packaging/craft/-/raw/master/setup/CraftBootstrap.py\n")
        .concat("      python3 CraftBootstrap.py\n")
        .concat("      craft kirigami\n")
}

/// The section on KDE Frameworks.
pub open spec fn kf6_section(s: Seq<char>, k: Kf6ToolchainStatus, distro: DistroId) -> Seq<char> {
    let head = s + "KF 6 / Kirigami toolchain\n"@;
    let found = match k.prefix {
        Some(p) => head + "  + Found at "@ + p@ + "\n"@,
        None => if distro == DistroId::MacOS {
            craft_hint_text(head)
        } else {
            head + "  - KF 6 not found.\n"@
        },
    };
    kf6_module_lines(found, k.modules@, k.modules@.len() as int) + "\n"@
}

pub fn render_kf6_section(s: String, k: &Kf6ToolchainStatus, distro: DistroId) -> (r: String)
    ensures
        r@ == kf6_section(s@, *k, distro),
{
    let head = s.concat("KF 6 / Kirigami toolchain\n");
    let found = match &k.prefix {
        Some(p) => head.concat("  + Found at ").concat(p.as_str()).concat("\n"),
        None => if distro == DistroId::MacOS {
            craft_hint(head)
        } else {
            head.concat("  - KF 6 not found.\n")
        },
    };
    render_kf6_modules(found, &k.modules).concat("\n")
}

/// The section on the CuteUI runtime.
pub open spec fn cute_ui_section(s: Seq<char>, c: CuteUiStatus) -> Seq<char> {
    let head = s + "CuteUI runtime\n"@;
    (match c.prefix {
        Some(p) => head + "  + Installed at "@ + p@ + "\n"@,
        None => head + "  - CuteUI runtime not installed.\n"@
            + "    Install with: cute install-cute-ui\n"@ + "    (Requires Qt "@ + c.qt_min@
            + " or newer for QtCanvasPainter.)\n"@,
    }) + "\n"@
}

pub fn render_cute_ui_section(s: String, c: &CuteUiStatus) -> (r: String)
    ensures
        r@ == cute_ui_section(s@, *c),
{
    let head = s.concat("CuteUI runtime\n");
    let body = match &c.prefix {
        Some(p) => head.concat("  + Installed at ").concat(p.as_str()).concat("\n"),
        None => head.concat("  - CuteUI runtime not installed.\n").concat(
            "    Install with: cute install-cute-ui\n",
        ).concat("    (Requires Qt ").concat(c.qt_min).concat(" or newer for QtCanvasPainter.)\n"),
    };
    body.concat("\n")
}

/// The line of one library.
pub open spec fn library_line(s: Seq<char>, l: CuteLibraryStatus) -> Seq<char> {
    match l.prefix {
        Some(p) => s + "  + "@ + l.name@ + " at "@ + p@ + "\n"@,
        None => s + "  - "@ + l.name@
            + " — missing. Install with: cute install <path-or-git-url>\n"@,
    }
}

fn render_library(s: String, l: &CuteLibraryStatus) -> (r: String)
    ensures
        r@ == library_line(s@, *l),
{
    match &l.prefix {
        Some(p) => s.concat("  + ").concat(l.name.as_str()).concat(" at ").concat(
            p.as_str(),
        ).concat("\n"),
        None => s.concat("  - ").concat(l.name.as_str()).concat(
            " — missing. Install with: cute install <path-or-git-url>\n",
        ),
    }
}

/// The lines of the first `n` libraries.
pub open spec fn library_lines(s: Seq<char>, v: Seq<CuteLibraryStatus>, n: int) -> Seq<char>
    decreases n,
{
    if n <= 0 {
        s
    } else {
        library_line(library_lines(s, v, n - 1), v[n - 1])
    }
}

fn render_libraries(s: String, v: &Vec<CuteLibraryStatus>) -> (r: String)
    ensures
        r@ == library_lines(s@, v@, v@.len() as int),
{
    let ghost start = s@;
    let mut s = s;
    let mut i: usize = 0;
    while i < v.len()
        invariant
            i <= v@.len(),
            s@ == library_lines(start, v@, i as int),
        decreases v@.len() - i,
    {
        s = render_library(s, &v[i]);
        i += 1;
    }
    s
}

/// The section on libraries.
pub open spec fn libraries_section(s: Seq<char>, libs: Seq<CuteLibraryStatus>) -> Seq<char> {
    library_lines(
        s + "Cute libraries ("@ + decimal(libs.len()) + ")\n"@,
        libs,
        libs.len() as int,
    ) + "\n"@
}

pub fn render_cute_libraries_section(s: String, libs: &Vec<CuteLibraryStatus>) -> (r: String)
    ensures
        r@ == libraries_section(s@, libs@),
{
    let head = s.concat("Cute libraries (").concat(
        decimal_string(libs.len() as u64).as_str(),
    ).concat(")\n");
    render_libraries(head, libs).concat("\n")
}

/// The first `n` commands, indented.
pub open spec fn command_lines(s: Seq<char>, v: Seq<Seq<char>>, n: int) -> Seq<char>
    decreases n,
{
    if n <= 0 {
        s
    } else {
        command_lines(s, v, n - 1) + "    "@ + v[n - 1] + "\n"@
    }
}

/// The section with the install commands.
pub open spec fn install_block(s: Seq<char>, r: DoctorReport) -> Seq<char> {
    let lines = install_lines(r);
    let head = s + "To install missing dependencies, run:\n"@ + "\n"@;
    (if lines.len() == 0 {
        head + "    (no automatic install command available — see notes above)\n"@
    } else {
        command_lines(head, lines, lines.len() as int)
    }) + "\n"@ + "Then run `cute build` again.\n"@
}

pub fn render_install_block(s: String, r: &DoctorReport) -> (t: String)
    ensures
        t@ == install_block(s@, *r),
{
    let lines = build_install_command_lines(r);
    assert(views(lines@).len() == lines@.len());
    let mut s = s.concat("To install missing dependencies, run:\n").concat("\n");
    let ghost head = s@;
    if lines.len() == 0 {
        s = s.concat("    (no automatic install command available — see notes above)\n");
    } else {
        let mut i: usize = 0;
        while i < lines.len()
            invariant
                i <= lines@.len(),
                s@ == command_lines(head, views(lines@), i as int),
            decreases lines@.len() - i,
        {
            s = s.concat("    ").concat(lines[i].as_str()).concat("\n");
            i += 1;
        }
    }
    s.concat("\n").concat("Then run `cute build` again.\n")
}

/// The text of a report.
pub open spec fn report_text(r: DoctorReport) -> Seq<char> {
    let head = "==> Cute doctor\n\n"@;
    if r.library_mode_skipped {
        head + "Project: "@ + r.project_path@ + " ([library] mode)\n"@ + "\n"@
            + "Library-mode doctoring is deferred to v1.1. Run `cute build`\n"@
            + "directly to surface any missing dependencies for now.\n"@
    } else {
        let s1 = match r.mode_and_deps {
            Some(md) => head + "Project: "@ + r.project_path@ + " (BuildMode::"@ + mode_name(md.mode)
                + ")\n"@ + "\n"@,
            None => head,
        };
        let s2 = match r.qt {
            Some(q) => qt_section(s1, q),
            None => s1,
        };
        let s3 = match r.kf6 {
            Some(k) => kf6_section(s2, k, r.distro),
            None => s2,
        };
        let s4 = match r.cute_ui {
            Some(c) => cute_ui_section(s3, c),
            None => s3,
        };
        let s5 = if r.cute_libraries@.len() > 0 {
            libraries_section(s4, r.cute_libraries@)
        } else {
            s4
        };
        let s6 = s5 + "Detected distro: "@ + distro_label(r.distro) + "\n"@ + "\n"@;
        if healthy(r) {
            s6 + "All dependencies present. `cute build` should succeed.\n"@
        } else {
            install_block(s6, r)
        }
    }
}

impl DoctorReport {
    /// The text of the report.
    pub fn render(&self) -> (t: String)
        ensures
            t@ == report_text(*self),
    {
        let head = "==> Cute doctor\n\n".to_owned();
        if self.library_mode_skipped {
            return head.concat("Project: ").concat(self.project_path.as_str()).concat(
                " ([library] mode)\n",
            ).concat("\n").concat(
                "Library-mode doctoring is deferred to v1.1. Run `cute build`\n",
            ).concat("directly to surface any missing dependencies for now.\n");
        }
        let mut s = match &self.mode_and_deps {
            Some(md) => head.concat("Project: ").concat(self.project_path.as_str()).concat(
                " (BuildMode::",
            ).concat(md.mode.name()).concat(")\n").concat("\n"),
            None => head,
        };
        match &self.qt {
            Some(q) => {
                s = render_qt_section(s, q);
            },
            None => {},
        }
        match &self.kf6 {
            Some(k) => {
                s = render_kf6_section(s, k, self.distro);
            },
            None => {},
        }
        match &self.cute_ui {
            Some(c) => {
                s = render_cute_ui_section(s, c);
            },
            None => {},
        }
        if self.cute_libraries.len() > 0 {
            s = render_cute_libraries_section(s, &self.cute_libraries);
        }
        s = s.concat("Detected distro: ").concat(self.distro.label()).concat("\n").concat("\n");
        if self.is_healthy() {
            s.concat("All dependencies present. `cute build` should succeed.\n")
        } else {
            render_install_block(s, self)
        }
    }
}

// ---- laws ---------------------------------------------------------------------------

proof fn lemma_at_least_pointwise(h: Seq<int>, r: Seq<int>, i: int)
    requires
        0 <= i,
        forall|k: int| i <= k ==> part(h, k) == #[trigger] part(r, k),
    ensures
        at_least_from(h, r, i),
    decreases h.len() + r.len() - i,
{
    if i < h.len() || i < r.len() {
        assert(part(h, i) == part(r, i));
        lemma_at_least_pointwise(h, r, i + 1);
    }
}

/// A version is at least itself.
pub proof fn law_version_reflexive(v: Seq<char>)
    ensures
        at_least(v, v),
{
    lemma_at_least_pointwise(version_numbers(v), version_numbers(v), 0);
}

/// Of two versions one is at least the other.
pub proof fn law_version_total(a: Seq<char>, b: Seq<char>)
    ensures
        at_least(a, b) || at_least(b, a),
{
    lemma_total_from(version_numbers(a), version_numbers(b), 0);
}

proof fn lemma_total_from(h: Seq<int>, r: Seq<int>, i: int)
    requires
        0 <= i,
    ensures
        at_least_from(h, r, i) || at_least_from(r, h, i),
    decreases h.len() + r.len() - i,
{
    if (i < h.len() || i < r.len()) && part(h, i) == part(r, i) {
        lemma_total_from(h, r, i + 1);
    }
}

/// What is at least something that is at least a third is at least the third.
pub proof fn law_version_transitive(a: Seq<char>, b: Seq<char>, c: Seq<char>)
    requires
        at_least(a, b),
        at_least(b, c),
    ensures
        at_least(a, c),
{
    lemma_numbers_are_natural(split_on(a, '.'), split_on(a, '.').len() as int);
    lemma_numbers_are_natural(split_on(b, '.'), split_on(b, '.').len() as int);
    lemma_numbers_are_natural(split_on(c, '.'), split_on(c, '.').len() as int);
    lemma_transitive_from(version_numbers(a), version_numbers(b), version_numbers(c), 0);
}

proof fn lemma_digits_natural(s: Seq<char>, n: int)
    requires
        0 <= n <= s.len(),
        forall|i: int| 0 <= i < s.len() ==> is_ascii_digit(#[trigger] s[i]),
    ensures
        0 <= digits_value(s, n),
    decreases n,
{
    if n > 0 {
        lemma_digits_natural(s, n - 1);
        assert(is_ascii_digit(s[n - 1]));
    }
}

proof fn lemma_numbers_are_natural(parts: Seq<Seq<char>>, n: int)
    requires
        0 <= n <= parts.len(),
    ensures
        forall|i: int| 0 <= i < numbers(parts, n).len() ==> 0 <= #[trigger] numbers(parts, n)[i],
    decreases n,
{
    if n > 0 {
        lemma_numbers_are_natural(parts, n - 1);
        let d = number_digits(parts[n - 1]);
        if number_of(parts[n - 1]) is Some {
            lemma_digits_natural(d, d.len() as int);
        }
        let before = numbers(parts, n - 1);
        assert forall|i: int| 0 <= i < numbers(parts, n).len() implies 0 <= #[trigger] numbers(
            parts,
            n,
        )[i] by {
            if i < before.len() {
                assert(numbers(parts, n)[i] == before[i]);
            }
        }
    }
}

/// Behind both versions, the comparison of natural numbers with zeros holds.
proof fn lemma_beyond(h: Seq<int>, r: Seq<int>, i: int)
    requires
        0 <= i,
        i >= r.len(),
        forall|k: int| 0 <= k < h.len() ==> 0 <= #[trigger] h[k],
    ensures
        at_least_from(h, r, i),
    decreases h.len() + r.len() - i,
{
    if i < h.len() {
        assert(0 <= h[i]);
        if h[i] == 0 {
            lemma_beyond(h, r, i + 1);
        }
    }
}

proof fn lemma_transitive_from(a: Seq<int>, b: Seq<int>, c: Seq<int>, i: int)
    requires
        0 <= i,
        at_least_from(a, b, i),
        at_least_from(b, c, i),
        forall|k: int| 0 <= k < a.len() ==> 0 <= #[trigger] a[k],
        forall|k: int| 0 <= k < b.len() ==> 0 <= #[trigger] b[k],
        forall|k: int| 0 <= k < c.len() ==> 0 <= #[trigger] c[k],
    ensures
        at_least_from(a, c, i),
    decreases a.len() + b.len() + c.len() - i,
{
    if i >= c.len() {
        lemma_beyond(a, c, i);
    } else {
        assert(0 <= c[i]);
        if i < a.len() {
            assert(0 <= a[i]);
        }
        if i < b.len() {
            assert(0 <= b[i]);
        }
        if part(a, i) == part(c, i) {
            if part(a, i) == part(b, i) {
                if i < a.len() || i < b.len() {
                    lemma_transitive_from(a, b, c, i + 1);
                } else {
                    lemma_skip(a, b, i);
                    lemma_transitive_from(a, b, c, i + 1);
                }
            }
        }
    }
}

proof fn lemma_skip(a: Seq<int>, b: Seq<int>, i: int)
    requires
        0 <= i,
        i >= a.len(),
        i >= b.len(),
    ensures
        at_least_from(a, b, i + 1),
{
}

/// Numbers that are missing count as zero: versions that agree in all numbers
/// are each at least the other.
pub proof fn law_missing_numbers_are_zero(a: Seq<char>, b: Seq<char>)
    requires
        forall|k: int|
            0 <= k ==> part(version_numbers(a), k) == #[trigger] part(version_numbers(b), k),
    ensures
        at_least(a, b),
        at_least(b, a),
{
    lemma_at_least_pointwise(version_numbers(a), version_numbers(b), 0);
    assert forall|k: int| 0 <= k implies part(version_numbers(b), k) == #[trigger] part(
        version_numbers(a),
        k,
    ) by {
        assert(part(version_numbers(a), k) == part(version_numbers(b), k));
    }
    lemma_at_least_pointwise(version_numbers(b), version_numbers(a), 0);
}

/// For a healthy project there is nothing to install.
pub proof fn law_healthy_report(r: DoctorReport)
    requires
        healthy(r),
        !r.library_mode_skipped,
    ensures
        install_lines(r) == Seq::<Seq<char>>::empty(),
{
    let e = Seq::<Seq<char>>::empty();
    let q = r.qt->0;
    assert(crate::dict::sorted_set_of(e, e));
    lemma_sorted_list(e, e);
    lemma_no_qt_packages(q, r.distro, q.modules@.len() as int);
    if r.kf6 is Some {
        lemma_no_kf6_packages(r.kf6->0, r.distro, r.kf6->0.modules@.len() as int);
    }
    lemma_no_library_lines(e, r.cute_libraries@, r.cute_libraries@.len() as int);
}

proof fn lemma_no_qt_packages(q: QtToolchainStatus, distro: DistroId, n: int)
    requires
        0 <= n <= q.modules@.len(),
        qt_ok(q),
    ensures
        qt_missing_packages(q, distro, n) == Seq::<Seq<char>>::empty(),
        missing_components(q, n) == Seq::<Seq<char>>::empty(),
    decreases n,
{
    if n > 0 {
        lemma_no_qt_packages(q, distro, n - 1);
        assert(module_ok(q.modules@[n - 1]));
    }
}

proof fn lemma_no_kf6_packages(k: Kf6ToolchainStatus, distro: DistroId, n: int)
    requires
        0 <= n <= k.modules@.len(),
        kf6_ok(k),
    ensures
        kf6_missing_packages(k, distro, n) == Seq::<Seq<char>>::empty(),
    decreases n,
{
    if n > 0 {
        lemma_no_kf6_packages(k, distro, n - 1);
        assert(k.modules@[n - 1].present);
    }
}

proof fn lemma_no_library_lines(lines: Seq<Seq<char>>, libs: Seq<CuteLibraryStatus>, n: int)
    requires
        0 <= n <= libs.len(),
        forall|i: int| 0 <= i < libs.len() ==> (#[trigger] libs[i]).prefix is Some,
    ensures
        with_library_lines(lines, libs, n) == lines,
    decreases n,
{
    if n > 0 {
        lemma_no_library_lines(lines, libs, n - 1);
        assert(libs[n - 1].prefix is Some);
    }
}

/// A missing preview makes no project unhealthy: a report stays as healthy as it
/// is, whether its previews are there or not.
pub proof fn law_previews_do_not_fail(a: QtToolchainStatus, b: QtToolchainStatus)
    requires
        a.prefix is Some == b.prefix is Some,
        too_old(a) == too_old(b),
        a.modules@.len() == b.modules@.len(),
        forall|i: int|
            0 <= i < a.modules@.len() ==> (#[trigger] a.modules@[i]).kind == b.modules@[i].kind
                && (a.modules@[i].kind is TechPreview || a.modules@[i].present
                == b.modules@[i].present),
    ensures
        qt_ok(a) == qt_ok(b),
{
    assert forall|i: int| 0 <= i < a.modules@.len() implies module_ok(#[trigger] a.modules@[i])
        == module_ok(b.modules@[i]) by {}
    if qt_ok(a) {
        assert forall|i: int| 0 <= i < b.modules@.len() implies module_ok(#[trigger] b.modules@[i]) by {
            assert(module_ok(a.modules@[i]));
        }
    }
    if qt_ok(b) {
        assert forall|i: int| 0 <= i < a.modules@.len() implies module_ok(#[trigger] a.modules@[i]) by {
            assert(module_ok(b.modules@[i]));
        }
    }
}

/// A line that runs a package manager.
pub open spec fn runs_package_manager(line: Seq<char>) -> bool {
    starts_with(line, "sudo "@) || starts_with(line, "brew "@)
}

proof fn lemma_library_lines(lines: Seq<Seq<char>>, libs: Seq<CuteLibraryStatus>, n: int)
    requires
        0 <= n <= libs.len(),
    ensures
        lines.is_prefix_of(with_library_lines(lines, libs, n)),
        forall|i: int|
            lines.len() <= i < with_library_lines(lines, libs, n).len() ==> !runs_package_manager(
                #[trigger] with_library_lines(lines, libs, n)[i],
            ),
    decreases n,
{
    if n > 0 {
        lemma_library_lines(lines, libs, n - 1);
        let before = with_library_lines(lines, libs, n - 1);
        let line = "cute install <path-or-git-url-for-"@ + libs[n - 1].name@ + ">"@;
        reveal_strlit("cute install <path-or-git-url-for-");
        assert(line[0] == 'c');
        lemma_no_manager(line, 'c');
        let now = with_library_lines(lines, libs, n);
        assert forall|i: int| lines.len() <= i < now.len() implies !runs_package_manager(
            #[trigger] now[i],
        ) by {
            if i < before.len() {
                assert(now[i] == before[i]);
            }
        }
        assert(lines =~= now.subrange(0, lines.len() as int)) by {
            assert(lines =~= before.subrange(0, lines.len() as int));
        }
    } else {
        assert(lines =~= lines.subrange(0, lines.len() as int));
    }
}

proof fn lemma_no_manager(line: Seq<char>, c: char)
    requires
        line.len() > 0,
        line[0] == c,
        c != 's',
        c != 'b',
    ensures
        !runs_package_manager(line),
{
    reveal_strlit("sudo ");
    reveal_strlit("brew ");
    if starts_with(line, "sudo "@) {
        assert(line.subrange(0, 5)[0] == "sudo "@[0]);
    }
    if starts_with(line, "brew "@) {
        assert(line.subrange(0, 5)[0] == "brew "@[0]);
    }
}

/// On an unknown Linux without Qt, or without one of its ordinary modules, a
/// message says what to install, and no package manager is run.
pub proof fn law_unknown_linux_is_told(r: DoctorReport)
    requires
        r.distro == DistroId::UnknownLinux,
        r.qt is Some,
        qt_is_missing(r.qt->0),
    ensures
        install_lines(r).contains(generic_message()),
        forall|i: int|
            0 <= i < install_lines(r).len() ==> !runs_package_manager(
                #[trigger] install_lines(r)[i],
            ),
{
    let e = Seq::<Seq<char>>::empty();
    let a = with_qt_lines(e, r.distro, r.qt->0);
    let c = if r.cute_ui is Some && r.cute_ui->0.prefix is None {
        a.push("cute install-cute-ui"@)
    } else {
        a
    };
    reveal_strlit("# Install Qt 6 development packages from your distro:");
    reveal_strlit("#   needed: ");
    reveal_strlit("cute install-cute-ui");
    lemma_no_manager(generic_message(), '#');
    lemma_no_manager("cute install-cute-ui"@, 'c');
    let components = sorted_list(missing_components(r.qt->0, r.qt->0.modules@.len() as int));
    let needed = "#   needed: "@ + join(components, " "@);
    assert(needed[0] == '#');
    lemma_no_manager(needed, '#');
    assert(a[0] == generic_message());
    lemma_library_lines(c, r.cute_libraries@, r.cute_libraries@.len() as int);
    let all = install_lines(r);
    assert(all == with_library_lines(c, r.cute_libraries@, r.cute_libraries@.len() as int));
    assert forall|i: int| 0 <= i < c.len() implies all[i] == #[trigger] c[i] by {
        assert(c =~= all.subrange(0, c.len() as int));
        assert(all.subrange(0, c.len() as int)[i] == all[i]);
    }
    assert forall|i: int| 0 <= i < all.len() implies !runs_package_manager(#[trigger] all[i]) by {
        if i < c.len() {
            assert(all[i] == c[i]);
        }
    }
    assert(all[0] == c[0]);
}

/// On a Linux distribution whose packages are known, one command installs them
/// all: no two lines run its package manager.
pub proof fn law_one_command_installs_packages(r: DoctorReport)
    requires
        is_packaged(r.distro),
    ensures
        forall|i: int, j: int|
            0 <= i < install_lines(r).len() && 0 <= j < install_lines(r).len()
                && runs_package_manager(#[trigger] install_lines(r)[i]) && runs_package_manager(
                #[trigger] install_lines(r)[j],
            ) ==> i == j,
{
    let e = Seq::<Seq<char>>::empty();
    let b = with_package_line(e, r.distro, wanted_packages(r));
    let c = if r.cute_ui is Some && r.cute_ui->0.prefix is None {
        b.push("cute install-cute-ui"@)
    } else {
        b
    };
    reveal_strlit("cute install-cute-ui");
    lemma_no_manager("cute install-cute-ui"@, 'c');
    lemma_library_lines(c, r.cute_libraries@, r.cute_libraries@.len() as int);
    let all = install_lines(r);
    assert(all == with_library_lines(c, r.cute_libraries@, r.cute_libraries@.len() as int));
    assert forall|i: int| 1 <= i < all.len() implies !runs_package_manager(#[trigger] all[i]) by {
        if i < c.len() {
            assert(c =~= all.subrange(0, c.len() as int));
            assert(all.subrange(0, c.len() as int)[i] == all[i]);
        }
    }
    if b.len() == 0 && all.len() > 0 {
        if c.len() > 0 {
            assert(c =~= all.subrange(0, c.len() as int));
            assert(all.subrange(0, c.len() as int)[0] == all[0]);
        }
        assert(!runs_package_manager(all[0]));
    }
}

/// On a system that is neither macOS nor Linux, the address of the installer
/// is given where Qt or one of its ordinary modules is missing.
pub proof fn law_other_systems_get_the_installer(r: DoctorReport)
    requires
        r.distro == DistroId::Other,
        r.qt is Some,
        qt_is_missing(r.qt->0),
    ensures
        install_lines(r).contains(installer_message()),
{
    let e = Seq::<Seq<char>>::empty();
    let a = with_qt_lines(e, r.distro, r.qt->0);
    let c = if r.cute_ui is Some && r.cute_ui->0.prefix is None {
        a.push("cute install-cute-ui"@)
    } else {
        a
    };
    reveal_strlit("# Install Qt 6 with the online installer: https://www.qt.io/download-qt-installer");
    reveal_strlit("cute install-cute-ui");
    lemma_no_manager(installer_message(), '#');
    lemma_no_manager("cute install-cute-ui"@, 'c');
    assert(a[0] == installer_message());
    lemma_library_lines(c, r.cute_libraries@, r.cute_libraries@.len() as int);
    let all = install_lines(r);
    assert(all[0] == c[0]) by {
        assert(c =~= all.subrange(0, c.len() as int));
    }
}

} // verus!
