use vstd::prelude::*;
use vstd::string::*;
use crate::text::{ascii_upper, concat, push_char, str_eq, upper_char};

verus! {

/// The character that stands for `c` in an environment variable's name.
pub open spec fn envify_char(c: char) -> char {
    if ascii_upper(c) == '-' {
        '_'
    } else {
        ascii_upper(c)
    }
}

/// A library's name as it appears in environment variable names: upper case,
/// with `_` for `-`.
pub open spec fn envify_spec(name: Seq<char>) -> Seq<char> {
    name.map_values(|c: char| envify_char(c))
}

/// The form of `name` used in environment variable names.
pub fn envify(name: &str) -> (r: String)
    ensures
        r@ == envify_spec(name@),
{
    let n = name.unicode_len();
    let mut out = String::new();
    let mut i: usize = 0;
    while i < n
        invariant
            n == name@.len(),
            i <= n,
            out@ == envify_spec(name@.subrange(0, i as int)),
        decreases n - i,
    {
        let c = upper_char(name.get_char(i));
        let d = if c == '-' { '_' } else { c };
        push_char(&mut out, d);
        assert(envify_spec(name@.subrange(0, i + 1)) =~= envify_spec(name@.subrange(0, i as int)).push(d));
        i = i + 1;
    }
    assert(name@ =~= name@.subrange(0, n as int));
    out
}

/// An environment as the values of its variables, in order; a name that
/// occurs twice is read at its first occurrence.
pub type Env = Seq<(Seq<char>, Seq<char>)>;

pub open spec fn env_view(vars: Seq<(String, String)>) -> Env {
    vars.map_values(|p: (String, String)| (p.0@, p.1@))
}

pub open spec fn opt_view(o: Option<String>) -> Option<Seq<char>> {
    match o {
        Some(s) => Some(s@),
        None => None,
    }
}

/// The value of the variable `key` in `env`, if it is set.
pub open spec fn env_get(env: Env, key: Seq<char>) -> Option<Seq<char>>
    decreases env.len(),
{
    if env.len() == 0 {
        None
    } else if env[0].0 == key {
        Some(env[0].1)
    } else {
        env_get(env.subrange(1, env.len() as int), key)
    }
}

pub open spec fn env_has(env: Env, key: Seq<char>) -> bool {
    env_get(env, key) is Some
}

/// The value of the variable `key` among `vars`, if it is set.
pub fn var(vars: &Vec<(String, String)>, key: &str) -> (r: Option<String>)
    ensures
        opt_view(r) == env_get(env_view(vars@), key@),
{
    let ghost e = env_view(vars@);
    let mut i: usize = 0;
    assert(e.subrange(0, e.len() as int) =~= e);
    while i < vars.len()
        invariant
            e == env_view(vars@),
            i <= vars.len(),
            env_get(e, key@) == env_get(e.subrange(i as int, e.len() as int), key@),
        decreases vars.len() - i,
    {
        let ghost rest = e.subrange(i as int, e.len() as int);
        assert(rest.subrange(1, rest.len() as int) =~= e.subrange(i + 1, e.len() as int));
        assert(rest[0] == (vars@[i as int].0@, vars@[i as int].1@));
        if str_eq(vars[i].0.as_str(), key) {
            return Some(vars[i].1.clone());
        }
        i = i + 1;
    }
    None
}

/// Whether the variable `key` is set among `vars`.
pub fn var_is_set(vars: &Vec<(String, String)>, key: &str) -> (r: bool)
    ensures
        r == env_has(env_view(vars@), key@),
{
    var(vars, key).is_some()
}

pub open spec fn host_var() -> Seq<char> {
    "HOST"@
}

pub open spec fn target_var() -> Seq<char> {
    "TARGET"@
}

pub open spec fn allow_cross_var() -> Seq<char> {
    "PKG_CONFIG_ALLOW_CROSS"@
}

pub open spec fn all_static_var() -> Seq<char> {
    "PKG_CONFIG_ALL_STATIC"@
}

pub open spec fn all_dynamic_var() -> Seq<char> {
    "PKG_CONFIG_ALL_DYNAMIC"@
}

/// The variable that turns off `pkg-config` for the library `name`.
pub open spec fn no_pkg_config_var(name: Seq<char>) -> Seq<char> {
    envify_spec(name) + "_NO_PKG_CONFIG"@
}

/// The variable that asks for static linking of the library `name`.
pub open spec fn static_var(name: Seq<char>) -> Seq<char> {
    envify_spec(name) + "_STATIC"@
}

/// The variable that asks for dynamic linking of the library `name`.
pub open spec fn dynamic_var(name: Seq<char>) -> Seq<char> {
    envify_spec(name) + "_DYNAMIC"@
}

/// Whether `pkg-config` may run: host and target are the same (both unset
/// counts as the same), or cross compilation was allowed explicitly.
pub open spec fn target_supported_spec(env: Env) -> bool {
    env_get(env, host_var()) == env_get(env, target_var()) || env_has(env, allow_cross_var())
}

/// Whether `pkg-config` has been turned off for the library `name`.
pub open spec fn disabled_spec(env: Env, name: Seq<char>) -> bool {
    env_has(env, no_pkg_config_var(name))
}

/// The link mode that the environment asks for, the first rule that applies
/// deciding: the library's own static, then its own dynamic variable, then the
/// global static, then the global dynamic one; dynamic when none is set.
pub open spec fn infer_static_spec(env: Env, name: Seq<char>) -> bool {
    if env_has(env, static_var(name)) {
        true
    } else if env_has(env, dynamic_var(name)) {
        false
    } else if env_has(env, all_static_var()) {
        true
    } else {
        false
    }
}

/// Whether `pkg-config` may run for the target of this build.
pub fn target_supported(vars: &Vec<(String, String)>) -> (r: bool)
    ensures
        r == target_supported_spec(env_view(vars@)),
{
    let host = var(vars, "HOST");
    let target = var(vars, "TARGET");
    let same = match (host, target) {
        (None, None) => true,
        (Some(h), Some(t)) => {
            let e = str_eq(h.as_str(), t.as_str());
            e
        },
        _ => false,
    };
    same || var_is_set(vars, "PKG_CONFIG_ALLOW_CROSS")
}

/// Whether `pkg-config` has been turned off for the library `name`.
pub fn disabled(vars: &Vec<(String, String)>, name: &str) -> (r: bool)
    ensures
        r == disabled_spec(env_view(vars@), name@),
{
    let key = concat(envify(name).as_str(), "_NO_PKG_CONFIG");
    var_is_set(vars, key.as_str())
}

/// The link mode that the environment asks for the library `name`: `true`
/// for static.
pub fn infer_static(vars: &Vec<(String, String)>, name: &str) -> (r: bool)
    ensures
        r == infer_static_spec(env_view(vars@), name@),
{
    let base = envify(name);
    if var_is_set(vars, concat(base.as_str(), "_STATIC").as_str()) {
        true
    } else if var_is_set(vars, concat(base.as_str(), "_DYNAMIC").as_str()) {
        false
    } else if var_is_set(vars, "PKG_CONFIG_ALL_STATIC") {
        true
    } else if var_is_set(vars, "PKG_CONFIG_ALL_DYNAMIC") {
        false
    } else {
        false
    }
}

/// Deriving a variable name from a name made of ASCII letters, digits and
/// `-` upper-cases each letter and puts `_` for each `-`, keeping the length;
/// deriving it again from the result changes nothing.
pub proof fn lemma_envify_shape(name: Seq<char>)
    requires
        forall|i: int|
            0 <= i < name.len() ==> {
                let c = #[trigger] name[i];
                ('a' <= c && c <= 'z') || ('A' <= c && c <= 'Z') || ('0' <= c && c <= '9') || c
                    == '-'
            },
    ensures
        envify_spec(name).len() == name.len(),
        forall|i: int|
            0 <= i < name.len() ==> #[trigger] envify_spec(name)[i] == if name[i] == '-' {
                '_'
            } else {
                ascii_upper(name[i])
            },
        envify_spec(envify_spec(name)) == envify_spec(name),
{
    lemma_envify_idempotent(name);
}

/// Deriving a variable name twice gives the same name as deriving it once.
pub proof fn lemma_envify_idempotent(name: Seq<char>)
    ensures
        envify_spec(envify_spec(name)) == envify_spec(name),
{
    assert(envify_spec(envify_spec(name)) =~= envify_spec(name));
}

/// A library's own static variable decides static linking, whatever else is
/// set: its own dynamic variable or the global dynamic one.
pub proof fn lemma_own_static_wins(env: Env, name: Seq<char>)
    requires
        env_has(env, static_var(name)),
    ensures
        infer_static_spec(env, name),
{
}

/// Without its own static variable, a library's own dynamic variable decides
/// dynamic linking, whatever global variable is set.
pub proof fn lemma_own_dynamic_wins(env: Env, name: Seq<char>)
    requires
        !env_has(env, static_var(name)),
        env_has(env, dynamic_var(name)),
    ensures
        !infer_static_spec(env, name),
{
}

/// With no variable of the four set, linking is dynamic.
pub proof fn lemma_default_dynamic(env: Env, name: Seq<char>)
    requires
        !env_has(env, static_var(name)),
        !env_has(env, dynamic_var(name)),
        !env_has(env, all_static_var()),
        !env_has(env, all_dynamic_var()),
    ensures
        !infer_static_spec(env, name),
{
}

} // verus!
