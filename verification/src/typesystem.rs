//! Type systems: which classes are bound, and where their headers are.

use crate::dict::{before, entry_keys, strictly_sorted, Dict};
use crate::packages::HostOs;
use crate::qpi_types::ClassSpec;
use crate::text::{
    ascii_uppercase, chars_of, contains, debug_string, debug_text, has, index_of, index_of_char,
    lemma_views_push, string_of, to_ascii_upper, views,
};
use vstd::prelude::*;
use vstd::string::*;

verus! {

/// A type system.
#[derive(Debug)]
pub struct TypeSystem {
    /// Variables that paths may refer to as `${name}`.
    pub vars: Dict<String>,
    pub clang: ClangConfig,
    /// C++ type names and the names that they are bound to.
    pub type_map: Dict<String>,
    pub classes: Vec<ClassSpec>,
}

/// How headers are parsed.
#[derive(Debug)]
pub struct ClangConfig {
    pub includes: Vec<String>,
    pub frameworks: Vec<String>,
    /// The language standard.
    pub std: Option<String>,
}

/// A map of strings by its texts.
pub open spec fn texts(m: Map<Seq<char>, String>) -> Map<Seq<char>, Seq<char>> {
    m.map_values(|s: String| s@)
}

// ---- references ---------------------------------------------------------------------

/// What is said of a variable that is not known.
pub open spec fn unknown_var(name: Seq<char>) -> Seq<char> {
    "unknown var `"@ + name + "` (define under [vars] or set CUTE_QPI_"@ + to_ascii_upper(name)
        + "=)"@
}

/// The text `s` from position `i` on, with its references replaced by the
/// values of the variables.
pub open spec fn expanded_from(
    s: Seq<char>,
    vars: Map<Seq<char>, Seq<char>>,
    i: int,
) -> Result<Seq<char>, Seq<char>>
    decreases s.len() - i,
{
    if i < 0 || i >= s.len() {
        Ok(Seq::empty())
    } else if s[i] == '$' && i + 1 < s.len() && s[i + 1] == '{' {
        let rest = s.subrange(i + 2, s.len() as int);
        let e = index_of(rest, '}');
        if 0 <= e < rest.len() {
            let name = rest.subrange(0, e);
            if vars.contains_key(name) {
                match expanded_from(s, vars, i + 3 + e) {
                    Ok(t) => Ok(vars[name] + t),
                    Err(m) => Err(m),
                }
            } else {
                Err(unknown_var(name))
            }
        } else {
            Err("unterminated `${` in "@ + debug_text(s))
        }
    } else {
        match expanded_from(s, vars, i + 1) {
            Ok(t) => Ok(seq![s[i]] + t),
            Err(m) => Err(m),
        }
    }
}

/// `s` with its references replaced.
pub open spec fn expanded(s: Seq<char>, vars: Map<Seq<char>, Seq<char>>) -> Result<
    Seq<char>,
    Seq<char>,
> {
    expanded_from(s, vars, 0)
}

/// A result with something before it.
pub open spec fn behind(out: Seq<char>, r: Result<Seq<char>, Seq<char>>) -> Result<
    Seq<char>,
    Seq<char>,
> {
    match r {
        Ok(t) => Ok(out + t),
        Err(m) => Err(m),
    }
}

/// A result by its text.
pub open spec fn result_text(r: Result<String, String>) -> Result<Seq<char>, Seq<char>> {
    match r {
        Ok(s) => Ok(s@),
        Err(m) => Err(m@),
    }
}

/// `s` with its `${name}` references replaced by the values of the variables.
/// A name that is not known is an error.
pub fn substitute(s: &str, vars: &Dict<String>) -> (r: Result<String, String>)
    ensures
        result_text(r) == expanded(s@, texts(vars@)),
{
    let v = chars_of(s);
    let n: usize = v.len();
    let ghost t = texts(vars@);
    let mut out = String::new();
    let mut i: usize = 0;
    assert(expanded(v@, t) == behind(out@, expanded_from(v@, t, 0))) by {
        match expanded_from(v@, t, 0) {
            Ok(x) => {
                assert(out@ + x =~= x);
            },
            Err(_) => {},
        }
    }
    while i < n
        invariant
            i <= n,
            n == v@.len(),
            v@ == s@,
            t == texts(vars@),
            expanded(v@, t) == behind(out@, expanded_from(v@, t, i as int)),
        decreases n - i,
    {
        let ghost start = out@;
        if v[i] == '$' && n - i > 1 && v[i + 1] == '{' {
            let e: usize = index_of_char(&v, '}', i + 2);
            let ghost rest = v@.subrange(i + 2, n as int);
            if e == n {
                return Err("unterminated `${` in ".to_owned().concat(debug_string(s).as_str()));
            }
            let name = string_of(&v, i + 2, e);
            assert(name@ =~= rest.subrange(0, e - (i + 2)));
            match vars.get(name.as_str()) {
                Some(val) => {
                    assert(t[name@] == val@);
                    out = out.concat(val.as_str());
                    proof {
                        match expanded_from(v@, t, e + 1) {
                            Ok(x) => {
                                assert(start + (val@ + x) =~= (start + val@) + x);
                            },
                            Err(_) => {},
                        }
                    }
                    i = e + 1;
                },
                None => {
                    let upper = ascii_uppercase(name.as_str());
                    return Err(
                        "unknown var `".to_owned().concat(name.as_str()).concat(
                            "` (define under [vars] or set CUTE_QPI_",
                        ).concat(upper.as_str()).concat("=)"),
                    );
                },
            }
        } else {
            out.push(v[i]);
            proof {
                match expanded_from(v@, t, i + 1) {
                    Ok(x) => {
                        assert(start + (seq![v@[i as int]] + x) =~= start.push(v@[i as int]) + x);
                    },
                    Err(_) => {},
                }
            }
            i += 1;
        }
    }
    assert(out@ + Seq::<char>::empty() =~= out@);
    Ok(out)
}

// ---- variables ------------------------------------------------------------------------

/// The variables that are predefined on a system: where the headers of Qt are.
pub open spec fn platform_vars(os: HostOs) -> Seq<(Seq<char>, Seq<char>)> {
    match os {
        HostOs::MacOs => seq![
            ("qt_frameworks"@, "/opt/homebrew/lib"@),
            ("qt_core"@, "/opt/homebrew/lib/QtCore.framework/Headers"@),
            ("qt_gui"@, "/opt/homebrew/lib/QtGui.framework/Headers"@),
            ("qt_widgets"@, "/opt/homebrew/lib/QtWidgets.framework/Headers"@),
            ("qt_charts"@, "/opt/homebrew/lib/QtCharts.framework/Headers"@),
            ("qt_quick"@, "/opt/homebrew/lib/QtQuick.framework/Headers"@),
            ("qt_qml"@, "/opt/homebrew/lib/QtQml.framework/Headers"@),
            ("qt_svg"@, "/opt/homebrew/lib/QtSvg.framework/Headers"@),
            ("qt_svg_widgets"@, "/opt/homebrew/lib/QtSvgWidgets.framework/Headers"@),
            ("qt_network"@, "/opt/homebrew/lib/QtNetwork.framework/Headers"@),
            ("qt_multimedia"@, "/opt/homebrew/lib/QtMultimedia.framework/Headers"@),
        ],
        HostOs::Linux => seq![
            ("qt_frameworks"@, "/usr/include/qt6"@),
            ("qt_core"@, "/usr/include/qt6/QtCore"@),
            ("qt_gui"@, "/usr/include/qt6/QtGui"@),
            ("qt_widgets"@, "/usr/include/qt6/QtWidgets"@),
            ("qt_charts"@, "/usr/include/qt6/QtCharts"@),
            ("qt_quick"@, "/usr/include/qt6/QtQuick"@),
            ("qt_qml"@, "/usr/include/qt6/QtQml"@),
            ("qt_svg"@, "/usr/include/qt6/QtSvg"@),
            ("qt_svg_widgets"@, "/usr/include/qt6/QtSvgWidgets"@),
            ("qt_network"@, "/usr/include/qt6/QtNetwork"@),
            ("qt_multimedia"@, "/usr/include/qt6/QtMultimedia"@),
        ],
        HostOs::Other => Seq::empty(),
    }
}

/// The pairs by their texts.
pub open spec fn pair_texts(v: Seq<(String, String)>) -> Seq<(Seq<char>, Seq<char>)> {
    Seq::new(v.len(), |i: int| (v[i].0@, v[i].1@))
}

pub fn pair(k: &str, v: &str) -> (r: (String, String))
    ensures
        r.0@ == k@,
        r.1@ == v@,
{
    (k.to_owned(), v.to_owned())
}

/// The variables that are predefined on a system.
pub fn builtin_platform_vars(os: HostOs) -> (r: Vec<(String, String)>)
    ensures
        pair_texts(r@) == platform_vars(os),
{
    let mut v: Vec<(String, String)> = Vec::new();
    match os {
        HostOs::MacOs => {
            v.push(pair("qt_frameworks", "/opt/homebrew/lib"));
            v.push(pair("qt_core", "/opt/homebrew/lib/QtCore.framework/Headers"));
            v.push(pair("qt_gui", "/opt/homebrew/lib/QtGui.framework/Headers"));
            v.push(pair("qt_widgets", "/opt/homebrew/lib/QtWidgets.framework/Headers"));
            v.push(pair("qt_charts", "/opt/homebrew/lib/QtCharts.framework/Headers"));
            v.push(pair("qt_quick", "/opt/homebrew/lib/QtQuick.framework/Headers"));
            v.push(pair("qt_qml", "/opt/homebrew/lib/QtQml.framework/Headers"));
            v.push(pair("qt_svg", "/opt/homebrew/lib/QtSvg.framework/Headers"));
            v.push(pair("qt_svg_widgets", "/opt/homebrew/lib/QtSvgWidgets.framework/Headers"));
            v.push(pair("qt_network", "/opt/homebrew/lib/QtNetwork.framework/Headers"));
            v.push(pair("qt_multimedia", "/opt/homebrew/lib/QtMultimedia.framework/Headers"));
        },
        HostOs::Linux => {
            v.push(pair("qt_frameworks", "/usr/include/qt6"));
            v.push(pair("qt_core", "/usr/include/qt6/QtCore"));
            v.push(pair("qt_gui", "/usr/include/qt6/QtGui"));
            v.push(pair("qt_widgets", "/usr/include/qt6/QtWidgets"));
            v.push(pair("qt_charts", "/usr/include/qt6/QtCharts"));
            v.push(pair("qt_quick", "/usr/include/qt6/QtQuick"));
            v.push(pair("qt_qml", "/usr/include/qt6/QtQml"));
            v.push(pair("qt_svg", "/usr/include/qt6/QtSvg"));
            v.push(pair("qt_svg_widgets", "/usr/include/qt6/QtSvgWidgets"));
            v.push(pair("qt_network", "/usr/include/qt6/QtNetwork"));
            v.push(pair("qt_multimedia", "/usr/include/qt6/QtMultimedia"));
        },
        HostOs::Other => {},
    }
    assert(pair_texts(v@) =~= platform_vars(os));
    v
}

/// The variables with the first `n` predefined ones, where they are not set.
pub open spec fn with_defaults(
    vars: Map<Seq<char>, Seq<char>>,
    defaults: Seq<(Seq<char>, Seq<char>)>,
    n: int,
) -> Map<Seq<char>, Seq<char>>
    decreases n,
{
    if n <= 0 {
        vars
    } else {
        let m = with_defaults(vars, defaults, n - 1);
        if m.contains_key(defaults[n - 1].0) {
            m
        } else {
            m.insert(defaults[n - 1].0, defaults[n - 1].1)
        }
    }
}

/// The environment variable that overrides a variable.
pub open spec fn env_key(name: Seq<char>) -> Seq<char> {
    "CUTE_QPI_"@ + to_ascii_upper(name)
}

/// The variables as the environment overrides them.
pub open spec fn with_env(
    vars: Map<Seq<char>, Seq<char>>,
    env: Map<Seq<char>, Seq<char>>,
) -> Map<Seq<char>, Seq<char>> {
    vars.map_entries(
        |k: Seq<char>, v: Seq<char>|
            if env.contains_key(env_key(k)) {
                env[env_key(k)]
            } else {
                v
            },
    )
}

/// The value of `k` cannot be expanded.
pub open spec fn is_bad(vars: Map<Seq<char>, Seq<char>>, k: Seq<char>) -> bool {
    vars.contains_key(k) && expanded(vars[k], vars) is Err
}

/// `k` is the first variable whose value cannot be expanded.
pub open spec fn is_first_bad(vars: Map<Seq<char>, Seq<char>>, k: Seq<char>) -> bool {
    is_bad(vars, k) && forall|j: Seq<char>| #[trigger] is_bad(vars, j) ==> j == k || before(k, j)
}

/// The variables with their references replaced once.
pub open spec fn one_round(vars: Map<Seq<char>, Seq<char>>) -> Map<Seq<char>, Seq<char>> {
    vars.map_entries(|k: Seq<char>, v: Seq<char>| expanded(v, vars)->Ok_0)
}

/// The variables with their references replaced until nothing changes, but at
/// most `rounds` times.
pub open spec fn settled(vars: Map<Seq<char>, Seq<char>>, rounds: nat) -> Result<
    Map<Seq<char>, Seq<char>>,
    Seq<char>,
>
    decreases rounds,
{
    if rounds == 0 {
        Ok(vars)
    } else if exists|k: Seq<char>| is_bad(vars, k) {
        Err(expanded(vars[choose|k: Seq<char>| is_first_bad(vars, k)], vars)->Err_0)
    } else if one_round(vars) == vars {
        Ok(vars)
    } else {
        settled(one_round(vars), (rounds - 1) as nat)
    }
}

/// The value of `k` still holds a reference.
pub open spec fn is_open(vars: Map<Seq<char>, Seq<char>>, k: Seq<char>) -> bool {
    vars.contains_key(k) && contains(vars[k], "${"@)
}

/// `k` is the first variable whose value still holds a reference.
pub open spec fn is_first_open(vars: Map<Seq<char>, Seq<char>>, k: Seq<char>) -> bool {
    is_open(vars, k) && forall|j: Seq<char>| #[trigger] is_open(vars, j) ==> j == k || before(k, j)
}

/// What is said of a variable whose value never comes to an end.
pub open spec fn unresolved_var(name: Seq<char>, value: Seq<char>) -> Seq<char> {
    "var `"@ + name + "` does not resolve: "@ + debug_text(value)
}

/// The variables of a type system: the predefined ones where they are not set,
/// overridden by the environment, with their references replaced. One that
/// refers to itself is an error.
pub open spec fn resolved_vars(
    vars: Map<Seq<char>, Seq<char>>,
    defaults: Seq<(Seq<char>, Seq<char>)>,
    env: Map<Seq<char>, Seq<char>>,
) -> Result<Map<Seq<char>, Seq<char>>, Seq<char>> {
    let start = with_env(with_defaults(vars, defaults, defaults.len() as int), env);
    match settled(start, 16) {
        Ok(m) => if exists|k: Seq<char>| is_open(m, k) {
            let k = choose|k: Seq<char>| is_first_open(m, k);
            Err(unresolved_var(k, m[k]))
        } else {
            Ok(m)
        },
        Err(e) => Err(e),
    }
}

fn add_defaults(vars: Dict<String>, defaults: Vec<(String, String)>) -> (r: Dict<String>)
    ensures
        texts(r@) == with_defaults(
            texts(vars@),
            pair_texts(defaults@),
            defaults@.len() as int,
        ),
{
    let ghost start = texts(vars@);
    let ghost ds = defaults@;
    let mut vars = vars;
    for d in it: defaults
        invariant
            it.seq() == ds,
            texts(vars@) == with_defaults(start, pair_texts(ds), it.index() as int),
    {
        let ghost i = it.index() as int;
        let ghost this = d;
        assert(this == ds[i]);
        assert(pair_texts(ds)[i] == (this.0@, this.1@));
        let ghost m0 = vars@;
        if !vars.contains_key(d.0.as_str()) {
            let (k, v) = d;
            vars = vars.insert(k, v);
            assert(texts(vars@) =~= texts(m0).insert(this.0@, this.1@));
        }
    }
    vars
}

fn apply_env(vars: &Dict<String>, env: &Dict<String>) -> (r: Dict<String>)
    ensures
        texts(r@) == with_env(texts(vars@), texts(env@)),
{
    let n: usize = vars.len();
    let ghost items = vars.items();
    let ghost want = with_env(texts(vars@), texts(env@));
    let mut out: Dict<String> = Dict::new();
    let mut i: usize = 0;
    while i < n
        invariant
            i <= n,
            n == vars.items().len(),
            items == vars.items(),
            want == with_env(texts(vars@), texts(env@)),
            forall|k: Seq<char>|
                #[trigger] vars@.contains_key(k) <==> exists|j: int|
                    0 <= j < items.len() && #[trigger] items[j].0@ == k,
            forall|k: Seq<char>|
                #[trigger] out@.contains_key(k) <==> exists|j: int|
                    0 <= j < i && #[trigger] items[j].0@ == k,
            forall|k: Seq<char>| #[trigger] out@.contains_key(k) ==> out@[k]@ == want[k],
        decreases n - i,
    {
        let k = vars.key_at(i).clone();
        let v = vars.value_at(i);
        let key = "CUTE_QPI_".to_owned().concat(ascii_uppercase(k.as_str()).as_str());
        let new = match env.get(key.as_str()) {
            Some(e) => e.clone(),
            None => v.clone(),
        };
        let ghost kt = k@;
        let ghost nt = new@;
        let ghost before_out = out@;
        proof {
            assert(texts(vars@)[kt] == v@);
            assert(want[kt] == nt);
        }
        out = out.insert(k, new);
        proof {
            assert forall|x: Seq<char>| #[trigger] out@.contains_key(x) <==> exists|j: int|
                0 <= j < i + 1 && #[trigger] items[j].0@ == x by {
                if out@.contains_key(x) {
                    if x == kt {
                        assert(items[i as int].0@ == x);
                    } else {
                        assert(before_out.contains_key(x));
                        let j = choose|j: int| 0 <= j < i && #[trigger] items[j].0@ == x;
                        assert(items[j].0@ == x);
                    }
                }
                if exists|j: int| 0 <= j < i + 1 && #[trigger] items[j].0@ == x {
                    let j = choose|j: int| 0 <= j < i + 1 && #[trigger] items[j].0@ == x;
                    if j < i {
                        assert(before_out.contains_key(x));
                    }
                }
            }
        }
        i += 1;
    }
    assert(texts(out@) =~= want);
    out
}

/// The least of the keys for which something holds comes first among sorted
/// keys.
proof fn lemma_first_bad(vars: Map<Seq<char>, Seq<char>>, keys: Seq<Seq<char>>, i: int)
    requires
        strictly_sorted(keys),
        forall|k: Seq<char>| #[trigger] vars.contains_key(k) <==> keys.contains(k),
        0 <= i < keys.len(),
        is_bad(vars, keys[i]),
        forall|j: int| 0 <= j < i ==> !is_bad(vars, #[trigger] keys[j]),
    ensures
        is_first_bad(vars, keys[i]),
        (choose|k: Seq<char>| is_first_bad(vars, k)) == keys[i],
{
    assert forall|j: Seq<char>| #[trigger] is_bad(vars, j) implies j == keys[i] || before(keys[i], j) by {
        assert(keys.contains(j));
        let p = choose|p: int| 0 <= p < keys.len() && keys[p] == j;
        if p < i {
            assert(!is_bad(vars, keys[p]));
        }
    }
    assert(is_first_bad(vars, keys[i]));
    let c = choose|k: Seq<char>| is_first_bad(vars, k);
    assert(is_first_bad(vars, c));
    if c != keys[i] {
        assert(before(keys[i], c));
        assert(before(c, keys[i]));
        crate::dict::lemma_before_transitive(c, keys[i], c);
        crate::dict::lemma_before_irreflexive(c);
    }
}

proof fn lemma_first_open(vars: Map<Seq<char>, Seq<char>>, keys: Seq<Seq<char>>, i: int)
    requires
        strictly_sorted(keys),
        forall|k: Seq<char>| #[trigger] vars.contains_key(k) <==> keys.contains(k),
        0 <= i < keys.len(),
        is_open(vars, keys[i]),
        forall|j: int| 0 <= j < i ==> !is_open(vars, #[trigger] keys[j]),
    ensures
        is_first_open(vars, keys[i]),
        (choose|k: Seq<char>| is_first_open(vars, k)) == keys[i],
{
    assert forall|j: Seq<char>| #[trigger] is_open(vars, j) implies j == keys[i] || before(keys[i], j) by {
        assert(keys.contains(j));
        let p = choose|p: int| 0 <= p < keys.len() && keys[p] == j;
        if p < i {
            assert(!is_open(vars, keys[p]));
        }
    }
    assert(is_first_open(vars, keys[i]));
    let c = choose|k: Seq<char>| is_first_open(vars, k);
    assert(is_first_open(vars, c));
    if c != keys[i] {
        assert(before(keys[i], c));
        assert(before(c, keys[i]));
        crate::dict::lemma_before_transitive(c, keys[i], c);
        crate::dict::lemma_before_irreflexive(c);
    }
}

/// The variables after one round, and whether anything changed.
fn expand_once(vars: &Dict<String>) -> (r: Result<(Dict<String>, bool), String>)
    ensures
        match r {
            Ok((d, changed)) => {
                &&& forall|k: Seq<char>| !#[trigger] is_bad(texts(vars@), k)
                &&& texts(d@) == one_round(texts(vars@))
                &&& changed == (one_round(texts(vars@)) != texts(vars@))
            },
            Err(e) => {
                &&& exists|k: Seq<char>| is_bad(texts(vars@), k)
                &&& e@ == expanded(
                    texts(vars@)[choose|k: Seq<char>| is_first_bad(texts(vars@), k)],
                    texts(vars@),
                )->Err_0
            },
        },
{
    let n: usize = vars.len();
    let ghost t = texts(vars@);
    let ghost items = vars.items();
    let ghost keys = entry_keys(items);
    let ghost want = one_round(t);
    proof {
        assert forall|k: Seq<char>| #[trigger] t.contains_key(k) <==> keys.contains(k) by {
            if t.contains_key(k) {
                assert(vars@.contains_key(k));
                let j = choose|j: int| 0 <= j < items.len() && #[trigger] items[j].0@ == k;
                assert(keys[j] == k);
            }
            if keys.contains(k) {
                let j = choose|j: int| 0 <= j < keys.len() && keys[j] == k;
                assert(items[j].0@ == k);
            }
        }
    }
    let mut out: Dict<String> = Dict::new();
    let mut changed = false;
    let mut i: usize = 0;
    while i < n
        invariant
            i <= n,
            n == items.len(),
            items == vars.items(),
            keys == entry_keys(items),
            strictly_sorted(keys),
            t == texts(vars@),
            want == one_round(t),
            forall|k: Seq<char>| #[trigger] t.contains_key(k) <==> keys.contains(k),
            forall|j: int| 0 <= j < i ==> !is_bad(t, #[trigger] keys[j]),
            forall|k: Seq<char>|
                #[trigger] out@.contains_key(k) <==> exists|j: int|
                    0 <= j < i && #[trigger] keys[j] == k,
            forall|k: Seq<char>| #[trigger] out@.contains_key(k) ==> out@[k]@ == want[k],
            changed <==> exists|j: int| 0 <= j < i && want[#[trigger] keys[j]] != t[keys[j]],
        decreases n - i,
    {
        let k = vars.key_at(i).clone();
        let v = vars.value_at(i);
        let ghost kt = k@;
        proof {
            assert(keys[i as int] == kt);
            assert(keys.contains(kt));
            assert(t.contains_key(kt));
            assert(t[kt] == v@);
        }
        match substitute(v.as_str(), vars) {
            Ok(new) => {
                let same = crate::text::same(new.as_str(), v.as_str());
                let ghost nt = new@;
                let ghost before_out = out@;
                proof {
                    assert(!is_bad(t, kt));
                    assert(want[kt] == nt);
                }
                if !same {
                    changed = true;
                    assert(want[keys[i as int]] != t[keys[i as int]]);
                }
                out = out.insert(k, new);
                proof {
                    assert forall|x: Seq<char>| #[trigger] out@.contains_key(x) <==> exists|j: int|
                        0 <= j < i + 1 && #[trigger] keys[j] == x by {
                        if out@.contains_key(x) {
                            if x == kt {
                                assert(keys[i as int] == x);
                            } else {
                                assert(before_out.contains_key(x));
                                let j = choose|j: int| 0 <= j < i && #[trigger] keys[j] == x;
                                assert(keys[j] == x);
                            }
                        }
                        if exists|j: int| 0 <= j < i + 1 && #[trigger] keys[j] == x {
                            let j = choose|j: int| 0 <= j < i + 1 && #[trigger] keys[j] == x;
                            if j < i {
                                assert(before_out.contains_key(x));
                            }
                        }
                    }
                }
            },
            Err(e) => {
                proof {
                    assert(is_bad(t, kt));
                    lemma_first_bad(t, keys, i as int);
                }
                return Err(e);
            },
        }
        i += 1;
    }
    proof {
        assert forall|k: Seq<char>| !#[trigger] is_bad(t, k) by {
            if t.contains_key(k) {
                assert(keys.contains(k));
                let j = choose|j: int| 0 <= j < keys.len() && keys[j] == k;
                assert(!is_bad(t, keys[j]));
            }
        }
        assert(texts(out@) =~= want) by {
            assert forall|k: Seq<char>| texts(out@).contains_key(k) == #[trigger] want.contains_key(k) by {
                if want.contains_key(k) {
                    assert(t.contains_key(k));
                    assert(keys.contains(k));
                    let j = choose|j: int| 0 <= j < keys.len() && keys[j] == k;
                    assert(keys[j] == k);
                    assert(out@.contains_key(k));
                }
                if out@.contains_key(k) {
                    let j = choose|j: int| 0 <= j < n && #[trigger] keys[j] == k;
                    assert(keys.contains(k));
                    assert(t.contains_key(k));
                }
            }
        }
        if changed {
            let j = choose|j: int| 0 <= j < n && want[#[trigger] keys[j]] != t[keys[j]];
            assert(want[keys[j]] != t[keys[j]]);
        } else {
            assert(want =~= t) by {
                assert forall|k: Seq<char>| #[trigger] want.contains_key(k) implies want[k] == t[k] by {
                    assert(keys.contains(k));
                    let j = choose|j: int| 0 <= j < keys.len() && keys[j] == k;
                    assert(want[keys[j]] == t[keys[j]]);
                }
            }
        }
    }
    Ok((out, changed))
}

/// The first variable whose value still holds a reference is an error.
fn check_closed(vars: &Dict<String>) -> (r: Result<(), String>)
    ensures
        match r {
            Ok(_) => forall|k: Seq<char>| !#[trigger] is_open(texts(vars@), k),
            Err(e) => {
                &&& exists|k: Seq<char>| is_open(texts(vars@), k)
                &&& e@ == unresolved_var(
                    choose|k: Seq<char>| is_first_open(texts(vars@), k),
                    texts(vars@)[choose|k: Seq<char>| is_first_open(texts(vars@), k)],
                )
            },
        },
{
    let n: usize = vars.len();
    let ghost t = texts(vars@);
    let ghost items = vars.items();
    let ghost keys = entry_keys(items);
    proof {
        assert forall|k: Seq<char>| #[trigger] t.contains_key(k) <==> keys.contains(k) by {
            if t.contains_key(k) {
                assert(vars@.contains_key(k));
                let j = choose|j: int| 0 <= j < items.len() && #[trigger] items[j].0@ == k;
                assert(keys[j] == k);
            }
            if keys.contains(k) {
                let j = choose|j: int| 0 <= j < keys.len() && keys[j] == k;
                assert(items[j].0@ == k);
            }
        }
    }
    let mut i: usize = 0;
    while i < n
        invariant
            i <= n,
            n == items.len(),
            items == vars.items(),
            keys == entry_keys(items),
            strictly_sorted(keys),
            t == texts(vars@),
            forall|k: Seq<char>| #[trigger] t.contains_key(k) <==> keys.contains(k),
            forall|j: int| 0 <= j < i ==> !is_open(t, #[trigger] keys[j]),
        decreases n - i,
    {
        let k = vars.key_at(i);
        let v = vars.value_at(i);
        proof {
            assert(keys[i as int] == k@);
            assert(keys.contains(k@));
            assert(t[k@] == v@);
        }
        if has(v.as_str(), "${") {
            proof {
                assert(is_open(t, k@));
                lemma_first_open(t, keys, i as int);
            }
            return Err(
                "var `".to_owned().concat(k.as_str()).concat("` does not resolve: ").concat(
                    debug_string(v.as_str()).as_str(),
                ),
            );
        }
        i += 1;
    }
    proof {
        assert forall|k: Seq<char>| !#[trigger] is_open(t, k) by {
            if t.contains_key(k) {
                assert(keys.contains(k));
                let j = choose|j: int| 0 <= j < keys.len() && keys[j] == k;
                assert(!is_open(t, keys[j]));
            }
        }
    }
    Ok(())
}

/// A result by its texts.
pub open spec fn dict_result(r: Result<Dict<String>, String>) -> Result<
    Map<Seq<char>, Seq<char>>,
    Seq<char>,
> {
    match r {
        Ok(d) => Ok(texts(d@)),
        Err(e) => Err(e@),
    }
}

fn settle(vars: Dict<String>, rounds: u32) -> (r: Result<Dict<String>, String>)
    ensures
        dict_result(r) == settled(texts(vars@), rounds as nat),
    decreases rounds,
{
    if rounds == 0 {
        return Ok(vars);
    }
    match expand_once(&vars) {
        Ok((next, changed)) => {
            if changed {
                settle(next, rounds - 1)
            } else {
                Ok(next)
            }
        },
        Err(e) => Err(e),
    }
}

/// The variables of a type system.
pub fn resolve_vars(
    vars: Dict<String>,
    os: HostOs,
    env: &Dict<String>,
) -> (r: Result<Dict<String>, String>)
    ensures
        dict_result(r) == resolved_vars(texts(vars@), platform_vars(os), texts(env@)),
{
    let defaults = builtin_platform_vars(os);
    assert(pair_texts(defaults@).len() == defaults@.len());
    let start = apply_env(&add_defaults(vars, defaults), env);
    match settle(start, 16) {
        Ok(d) => match check_closed(&d) {
            Ok(_) => Ok(d),
            Err(e) => Err(e),
        },
        Err(e) => Err(e),
    }
}

// ---- paths ----------------------------------------------------------------------------

/// The first `n` paths with their references replaced; the first that cannot
/// be is an error.
pub open spec fn expanded_paths(
    v: Seq<Seq<char>>,
    vars: Map<Seq<char>, Seq<char>>,
    n: int,
) -> Result<Seq<Seq<char>>, Seq<char>>
    decreases n,
{
    if n <= 0 {
        Ok(Seq::empty())
    } else {
        match expanded_paths(v, vars, n - 1) {
            Ok(done) => match expanded(v[n - 1], vars) {
                Ok(p) => Ok(done.push(p)),
                Err(e) => Err(e),
            },
            Err(e) => Err(e),
        }
    }
}

/// A path with its references replaced.
pub fn substitute_path(p: &str, vars: &Dict<String>) -> (r: Result<String, String>)
    ensures
        result_text(r) == expanded(p@, texts(vars@)),
{
    substitute(p, vars)
}

fn expand_paths(v: &Vec<String>, vars: &Dict<String>) -> (r: Result<Vec<String>, String>)
    ensures
        match r {
            Ok(w) => expanded_paths(views(v@), texts(vars@), v@.len() as int) == Ok::<
                Seq<Seq<char>>,
                Seq<char>,
            >(views(w@)),
            Err(e) => expanded_paths(views(v@), texts(vars@), v@.len() as int) == Err::<
                Seq<Seq<char>>,
                Seq<char>,
            >(e@),
        },
{
    let ghost t = texts(vars@);
    let mut out: Vec<String> = Vec::new();
    let mut i: usize = 0;
    assert(views(out@) =~= Seq::<Seq<char>>::empty());
    while i < v.len()
        invariant
            i <= v@.len(),
            t == texts(vars@),
            expanded_paths(views(v@), t, i as int) == Ok::<Seq<Seq<char>>, Seq<char>>(views(out@)),
        decreases v@.len() - i,
    {
        match substitute_path(v[i].as_str(), vars) {
            Ok(p) => {
                proof {
                    lemma_views_push(out@, p);
                }
                out.push(p);
            },
            Err(e) => {
                proof {
                    lemma_error_stays(views(v@), t, i + 1, v@.len() as int);
                }
                return Err(e);
            },
        }
        i += 1;
    }
    Ok(out)
}

proof fn lemma_error_stays(v: Seq<Seq<char>>, vars: Map<Seq<char>, Seq<char>>, a: int, b: int)
    requires
        0 <= a <= b,
        expanded_paths(v, vars, a) is Err,
    ensures
        expanded_paths(v, vars, b) == expanded_paths(v, vars, a),
    decreases b - a,
{
    if a < b {
        lemma_error_stays(v, vars, a, b - 1);
    }
}

/// The headers of classes.
pub open spec fn headers(v: Seq<ClassSpec>) -> Seq<Seq<char>> {
    Seq::new(v.len(), |i: int| v[i].header@)
}

fn collect_headers(v: &Vec<ClassSpec>) -> (r: Vec<String>)
    ensures
        views(r@) == headers(v@),
{
    let mut out: Vec<String> = Vec::new();
    let mut i: usize = 0;
    while i < v.len()
        invariant
            i <= v@.len(),
            views(out@) == headers(v@).take(i as int),
        decreases v@.len() - i,
    {
        proof {
            lemma_views_push(out@, v@[i as int].header);
        }
        out.push(v[i].header.clone());
        i += 1;
        assert(views(out@) =~= headers(v@).take(i as int));
    }
    assert(views(out@) =~= headers(v@));
    out
}

/// `b` is the class `a` with another header.
pub open spec fn only_header_differs(a: ClassSpec, b: ClassSpec) -> bool {
    b == (ClassSpec { header: b.header, ..a })
}

fn set_headers(v: Vec<ClassSpec>, hs: Vec<String>) -> (r: Vec<ClassSpec>)
    requires
        hs@.len() == v@.len(),
    ensures
        r@.len() == v@.len(),
        headers(r@) == views(hs@),
        forall|i: int| 0 <= i < v@.len() ==> only_header_differs(#[trigger] v@[i], r@[i]),
{
    let ghost vs = v@;
    let mut out: Vec<ClassSpec> = Vec::new();
    for c in it: v
        invariant
            it.seq() == vs,
            hs@.len() == vs.len(),
            out@.len() == it.index(),
            forall|i: int|
                0 <= i < it.index() ==> only_header_differs(#[trigger] vs[i], out@[i]),
            forall|i: int| 0 <= i < it.index() ==> #[trigger] out@[i].header@ == hs@[i]@,
    {
        let ghost this = c;
        assert(this == vs[it.index() as int]);
        let at: usize = out.len();
        let header = hs[at].clone();
        let new = ClassSpec { header, ..c };
        assert(only_header_differs(this, new));
        assert(new.header@ == hs@[it.index() as int]@);
        out.push(new);
    }
    assert(out@.len() == vs.len());
    assert(headers(out@) =~= views(hs@));
    out
}

/// What the paths of a type system become: first the include paths, then the
/// framework paths, then the headers of the classes.
pub open spec fn expanded_system(ts: TypeSystem, vars: Map<Seq<char>, Seq<char>>) -> Result<
    (Seq<Seq<char>>, Seq<Seq<char>>, Seq<Seq<char>>),
    Seq<char>,
> {
    let inc = views(ts.clang.includes@);
    let fwk = views(ts.clang.frameworks@);
    let hdr = headers(ts.classes@);
    match expanded_paths(inc, vars, inc.len() as int) {
        Ok(a) => match expanded_paths(fwk, vars, fwk.len() as int) {
            Ok(b) => match expanded_paths(hdr, vars, hdr.len() as int) {
                Ok(c) => Ok((a, b, c)),
                Err(e) => Err(e),
            },
            Err(e) => Err(e),
        },
        Err(e) => Err(e),
    }
}

proof fn lemma_expanded_len(v: Seq<Seq<char>>, vars: Map<Seq<char>, Seq<char>>, n: int)
    requires
        0 <= n,
        expanded_paths(v, vars, n) is Ok,
    ensures
        expanded_paths(v, vars, n)->Ok_0.len() == n,
    decreases n,
{
    if n > 0 {
        lemma_expanded_len(v, vars, n - 1);
    }
}

impl TypeSystem {
    /// Resolves the variables, with the environment `env`, and replaces the
    /// references in every path.
    pub fn expand_templates(self, os: HostOs, env: &Dict<String>) -> (r: Result<TypeSystem, String>)
        ensures
            match resolved_vars(texts(self.vars@), platform_vars(os), texts(env@)) {
                Ok(vars) => match expanded_system(self, vars) {
                    Ok((a, b, c)) => match r {
                        Ok(ts) => {
                            &&& texts(ts.vars@) == vars
                            &&& views(ts.clang.includes@) == a
                            &&& views(ts.clang.frameworks@) == b
                            &&& headers(ts.classes@) == c
                            &&& ts.clang.std == self.clang.std
                            &&& ts.type_map == self.type_map
                            &&& ts.classes@.len() == self.classes@.len()
                            &&& forall|i: int|
                                0 <= i < self.classes@.len() ==> only_header_differs(
                                    #[trigger] self.classes@[i],
                                    ts.classes@[i],
                                )
                        },
                        Err(_) => false,
                    },
                    Err(e) => match r {
                        Err(m) => m@ == e,
                        Ok(_) => false,
                    },
                },
                Err(e) => match r {
                    Err(m) => m@ == e,
                    Ok(_) => false,
                },
            },
    {
        let vars = match resolve_vars(self.vars, os, env) {
            Ok(v) => v,
            Err(e) => {
                return Err(e);
            },
        };
        assert(views(self.clang.includes@).len() == self.clang.includes@.len());
        assert(views(self.clang.frameworks@).len() == self.clang.frameworks@.len());
        assert(headers(self.classes@).len() == self.classes@.len());
        let includes = match expand_paths(&self.clang.includes, &vars) {
            Ok(v) => v,
            Err(e) => {
                return Err(e);
            },
        };
        let frameworks = match expand_paths(&self.clang.frameworks, &vars) {
            Ok(v) => v,
            Err(e) => {
                return Err(e);
            },
        };
        let old_headers = collect_headers(&self.classes);
        assert(views(old_headers@).len() == old_headers@.len());
        let new_headers = match expand_paths(&old_headers, &vars) {
            Ok(v) => v,
            Err(e) => {
                return Err(e);
            },
        };
        proof {
            lemma_expanded_len(headers(self.classes@), texts(vars@), old_headers@.len() as int);
            assert(views(new_headers@).len() == new_headers@.len());
        }
        let classes = set_headers(self.classes, new_headers);
        Ok(
            TypeSystem {
                vars,
                clang: ClangConfig { includes, frameworks, std: self.clang.std },
                type_map: self.type_map,
                classes,
            },
        )
    }
}

// ---- laws ---------------------------------------------------------------------------

/// A text without a reference is not changed.
pub proof fn law_plain_text_stays(s: Seq<char>, vars: Map<Seq<char>, Seq<char>>)
    requires
        !contains(s, "${"@),
    ensures
        expanded(s, vars) == Ok::<Seq<char>, Seq<char>>(s),
{
    lemma_plain_from(s, vars, 0);
    assert(s.subrange(0, s.len() as int) =~= s);
}

proof fn lemma_plain_from(s: Seq<char>, vars: Map<Seq<char>, Seq<char>>, i: int)
    requires
        !contains(s, "${"@),
        0 <= i <= s.len(),
    ensures
        expanded_from(s, vars, i) == Ok::<Seq<char>, Seq<char>>(s.subrange(i, s.len() as int)),
    decreases s.len() - i,
{
    if i < s.len() {
        lemma_plain_from(s, vars, i + 1);
        reveal_strlit("${");
        if s[i] == '$' && i + 1 < s.len() && s[i + 1] == '{' {
            assert(s.subrange(i, i + 2) =~= "${"@);
            assert(crate::text::matches_at(s, "${"@, i));
        }
        assert(seq![s[i]] + s.subrange(i + 1, s.len() as int) =~= s.subrange(
            i,
            s.len() as int,
        ));
    } else {
        assert(s.subrange(i, s.len() as int) =~= Seq::<char>::empty());
    }
}

/// What the type system sets wins over what is predefined.
pub proof fn law_set_vars_win(
    vars: Map<Seq<char>, Seq<char>>,
    defaults: Seq<(Seq<char>, Seq<char>)>,
    n: int,
    k: Seq<char>,
)
    requires
        0 <= n <= defaults.len(),
        vars.contains_key(k),
    ensures
        with_defaults(vars, defaults, n).contains_key(k),
        with_defaults(vars, defaults, n)[k] == vars[k],
    decreases n,
{
    if n > 0 {
        law_set_vars_win(vars, defaults, n - 1, k);
    }
}

/// The environment wins over everything.
pub proof fn law_environment_wins(
    vars: Map<Seq<char>, Seq<char>>,
    env: Map<Seq<char>, Seq<char>>,
    k: Seq<char>,
)
    requires
        vars.contains_key(k),
        env.contains_key(env_key(k)),
    ensures
        with_env(vars, env).contains_key(k),
        with_env(vars, env)[k] == env[env_key(k)],
{
}

/// Where the variables resolve, no value holds a reference.
pub proof fn law_resolved_vars_are_closed(
    vars: Map<Seq<char>, Seq<char>>,
    defaults: Seq<(Seq<char>, Seq<char>)>,
    env: Map<Seq<char>, Seq<char>>,
    k: Seq<char>,
)
    requires
        resolved_vars(vars, defaults, env) is Ok,
        resolved_vars(vars, defaults, env)->Ok_0.contains_key(k),
    ensures
        !contains(resolved_vars(vars, defaults, env)->Ok_0[k], "${"@),
{
    let m = resolved_vars(vars, defaults, env)->Ok_0;
    assert(!is_open(m, k));
}

/// In what `s` becomes from position `i` on, a `$` that ends one piece (a
/// character of `s` or a value) stands before a `{` that begins what follows.
pub open spec fn joins_reference(s: Seq<char>, vars: Map<Seq<char>, Seq<char>>, i: int) -> bool
    decreases s.len() - i,
{
    if i < 0 || i >= s.len() {
        false
    } else if s[i] == '$' && i + 1 < s.len() && s[i + 1] == '{' {
        let rest = s.subrange(i + 2, s.len() as int);
        let e = index_of(rest, '}');
        if 0 <= e < rest.len() {
            ||| meets_brace(vars[rest.subrange(0, e)], expanded_from(s, vars, i + 3 + e))
            ||| joins_reference(s, vars, i + 3 + e)
        } else {
            false
        }
    } else {
        ||| meets_brace(seq![s[i]], expanded_from(s, vars, i + 1))
        ||| joins_reference(s, vars, i + 1)
    }
}

/// `piece` ends in `$`, and what follows begins with `{`.
pub open spec fn meets_brace(piece: Seq<char>, rest: Result<Seq<char>, Seq<char>>) -> bool {
    match rest {
        Ok(t) => piece.len() > 0 && piece.last() == '$' && t.len() > 0 && t[0] == '{',
        Err(_) => false,
    }
}

proof fn lemma_contains_joined(a: Seq<char>, b: Seq<char>)
    ensures
        contains(a + b, "${"@) <==> contains(a, "${"@) || contains(b, "${"@) || meets_brace(
            a,
            Ok::<Seq<char>, Seq<char>>(b),
        ),
{
    reveal_strlit("${");
    let p = "${"@;
    let n = a.len() as int;
    if contains(a, p) {
        let i = choose|i: int| crate::text::matches_at(a, p, i);
        assert((a + b).subrange(i, i + 2) =~= a.subrange(i, i + 2));
        assert(crate::text::matches_at(a + b, p, i));
    }
    if contains(b, p) {
        let i = choose|i: int| crate::text::matches_at(b, p, i);
        assert((a + b).subrange(n + i, n + i + 2) =~= b.subrange(i, i + 2));
        assert(crate::text::matches_at(a + b, p, n + i));
    }
    if meets_brace(a, Ok::<Seq<char>, Seq<char>>(b)) {
        assert((a + b).subrange(n - 1, n + 1) =~= p);
        assert(crate::text::matches_at(a + b, p, n - 1));
    }
    if contains(a + b, p) {
        let i = choose|i: int| crate::text::matches_at(a + b, p, i);
        assert((a + b)[i] == (a + b).subrange(i, i + 2)[0]);
        assert((a + b)[i + 1] == (a + b).subrange(i, i + 2)[1]);
        if i + 2 <= n {
            assert(a.subrange(i, i + 2) =~= (a + b).subrange(i, i + 2));
            assert(crate::text::matches_at(a, p, i));
        } else if i >= n {
            assert(b.subrange(i - n, i - n + 2) =~= (a + b).subrange(i, i + 2));
            assert(crate::text::matches_at(b, p, i - n));
        }
    }
}

proof fn lemma_joined_from(s: Seq<char>, vars: Map<Seq<char>, Seq<char>>, i: int)
    requires
        0 <= i,
        forall|k: Seq<char>| #[trigger] vars.contains_key(k) ==> !contains(vars[k], "${"@),
        expanded_from(s, vars, i) is Ok,
    ensures
        contains(expanded_from(s, vars, i)->Ok_0, "${"@) <==> joins_reference(s, vars, i),
    decreases s.len() - i,
{
    if i >= s.len() {
        reveal_strlit("${");
    } else if s[i] == '$' && i + 1 < s.len() && s[i + 1] == '{' {
        let rest = s.subrange(i + 2, s.len() as int);
        let e = index_of(rest, '}');
        lemma_joined_from(s, vars, i + 3 + e);
        lemma_contains_joined(vars[rest.subrange(0, e)], expanded_from(s, vars, i + 3 + e)->Ok_0);
    } else {
        lemma_joined_from(s, vars, i + 1);
        lemma_contains_joined(seq![s[i]], expanded_from(s, vars, i + 1)->Ok_0);
        reveal_strlit("${");
        assert(!contains(seq![s[i]], "${"@));
    }
}

/// Where no value holds `${`, a text whose references are replaced holds `${`
/// exactly where a `$` and a `{` of two pieces meet: no reference of its own is
/// left.
pub proof fn law_no_reference_is_left(s: Seq<char>, vars: Map<Seq<char>, Seq<char>>)
    requires
        forall|k: Seq<char>| #[trigger] vars.contains_key(k) ==> !contains(vars[k], "${"@),
        expanded(s, vars) is Ok,
    ensures
        contains(expanded(s, vars)->Ok_0, "${"@) <==> joins_reference(s, vars, 0),
{
    lemma_joined_from(s, vars, 0);
}

/// Where the variables of a type system resolve and its paths can be expanded,
/// a path holds `${` exactly where a `$` and a `{` of two pieces meet.
pub proof fn law_expanded_paths_are_closed(
    vars: Map<Seq<char>, Seq<char>>,
    defaults: Seq<(Seq<char>, Seq<char>)>,
    env: Map<Seq<char>, Seq<char>>,
    v: Seq<Seq<char>>,
    n: int,
    i: int,
)
    requires
        0 <= i < n <= v.len(),
        resolved_vars(vars, defaults, env) is Ok,
        expanded_paths(v, resolved_vars(vars, defaults, env)->Ok_0, n) is Ok,
    ensures
        expanded_paths(v, resolved_vars(vars, defaults, env)->Ok_0, n)->Ok_0.len() == n,
        contains(expanded_paths(v, resolved_vars(vars, defaults, env)->Ok_0, n)->Ok_0[i], "${"@)
            <==> joins_reference(v[i], resolved_vars(vars, defaults, env)->Ok_0, 0),
    decreases n,
{
    let m = resolved_vars(vars, defaults, env)->Ok_0;
    lemma_expanded_len(v, m, n);
    lemma_expanded_len(v, m, n - 1);
    if i < n - 1 {
        law_expanded_paths_are_closed(vars, defaults, env, v, n - 1, i);
    } else {
        assert forall|k: Seq<char>| #[trigger] m.contains_key(k) implies !contains(
            m[k],
            "${"@,
        ) by {
            law_resolved_vars_are_closed(vars, defaults, env, k);
        }
        law_no_reference_is_left(v[i], m);
    }
}

} // verus!
