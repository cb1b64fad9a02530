use vstd::prelude::*;
use vstd::string::*;
use crate::environ::{
    disabled, disabled_spec, env_view, infer_static, infer_static_spec, opt_view,
    target_supported, target_supported_spec, Env,
};
use crate::output::views;
use crate::text::concat;

verus! {

/// How `pkg-config` is to be run: an explicit link mode, which overrides the
/// one that the environment asks for, and a least version of the library.
#[derive(Clone, Debug)]
pub struct Config {
    statik: Option<bool>,
    atleast_version: Option<String>,
}

/// One run of `pkg-config`, ready to be made: the program, its arguments, the
/// variables added to its environment, and the link mode that was chosen.
#[derive(Debug)]
pub struct Probe {
    pub program: String,
    pub args: Vec<String>,
    pub envs: Vec<(String, String)>,
    pub statik: bool,
}

/// The link mode of a run: the explicit one where there is one, else the one
/// that the environment asks for.
pub open spec fn chosen_statik(over: Option<bool>, env: Env, name: Seq<char>) -> bool {
    match over {
        Some(b) => b,
        None => infer_static_spec(env, name),
    }
}

/// The query handed to `pkg-config`: the name, with a least version if one
/// was asked for.
pub open spec fn query_spec(name: Seq<char>, version: Option<Seq<char>>) -> Seq<char> {
    match version {
        Some(v) => name + " >= "@ + v,
        None => name,
    }
}

/// The arguments of a run.
pub open spec fn args_spec(statik: bool, query: Seq<char>) -> Seq<Seq<char>> {
    (if statik {
        seq!["--static"@]
    } else {
        Seq::empty()
    }) + seq!["--libs"@, "--cflags"@, query]
}

pub open spec fn disabled_message(name: Seq<char>) -> Seq<char> {
    "pkg-config requested to be aborted for "@ + name
}

pub open spec fn cross_message() -> Seq<char> {
    "pkg-config doesn't handle cross compilation. Use PKG_CONFIG_ALLOW_CROSS=1 to override"@
}

/// The run that resolving `name` asks for, given an explicit link mode
/// `over`, a least version `version` and the environment `env`: it is refused
/// where the environment turns `pkg-config` off for `name`, else where it
/// cross compiles without leave; else it is made with the chosen link mode.
pub open spec fn find_outcome(
    r: Result<Probe, String>,
    over: Option<bool>,
    version: Option<Seq<char>>,
    env: Env,
    name: Seq<char>,
) -> bool {
    if disabled_spec(env, name) {
        r is Err && r->Err_0@ == disabled_message(name)
    } else if !target_supported_spec(env) {
        r is Err && r->Err_0@ == cross_message()
    } else {
        &&& r is Ok
        &&& r->Ok_0.program@ == "pkg-config"@
        &&& r->Ok_0.statik == chosen_statik(over, env, name)
        &&& views(r->Ok_0.args@) == args_spec(
            chosen_statik(over, env, name),
            query_spec(name, version),
        )
        &&& r->Ok_0.envs@.len() == 1
        &&& r->Ok_0.envs@[0].0@ == "PKG_CONFIG_ALLOW_SYSTEM_LIBS"@
        &&& r->Ok_0.envs@[0].1@ == "1"@
    }
}

impl Config {
    /// The explicit link mode, if one was set: `true` for static.
    pub closed spec fn link_override(&self) -> Option<bool> {
        self.statik
    }

    /// The least version asked for, if any.
    pub closed spec fn min_version(&self) -> Option<Seq<char>> {
        opt_view(self.atleast_version)
    }

    /// A configuration with nothing set.
    pub fn new() -> (r: Config)
        ensures
            r.link_override() == None::<bool>,
            r.min_version() == None::<Seq<char>>,
    {
        Config { statik: None, atleast_version: None }
    }

    /// Sets the link mode, which then overrides what the environment asks for.
    pub fn statik(&mut self, statik: bool) -> (r: &mut Config)
        ensures
            r.link_override() == Some(statik),
            r.min_version() == old(self).min_version(),
            *final(self) == *final(r),
    {
        self.statik = Some(statik);
        self
    }

    /// Asks for version `vers` of the library or a later one.
    pub fn atleast_version(&mut self, vers: &str) -> (r: &mut Config)
        ensures
            r.link_override() == old(self).link_override(),
            r.min_version() == Some(vers@),
            *final(self) == *final(r),
    {
        self.atleast_version = Some(vers.to_string());
        self
    }

    /// The run of `pkg-config` that resolves the library `name` in the
    /// environment `vars`, or why none may be made.
    pub fn find(&self, name: &str, vars: &Vec<(String, String)>) -> (r: Result<Probe, String>)
        ensures
            find_outcome(r, self.link_override(), self.min_version(), env_view(vars@), name@),
    {
        if disabled(vars, name) {
            return Err(concat("pkg-config requested to be aborted for ", name));
        }
        if !target_supported(vars) {
            return Err(
                "pkg-config doesn't handle cross compilation. Use PKG_CONFIG_ALLOW_CROSS=1 to override".to_string(),
            );
        }
        let statik = match self.statik {
            Some(b) => b,
            None => infer_static(vars, name),
        };
        let mut args: Vec<String> = Vec::new();
        if statik {
            args.push("--static".to_string());
        }
        args.push("--libs".to_string());
        args.push("--cflags".to_string());
        let query = match &self.atleast_version {
            Some(v) => {
                let head = concat(name, " >= ");
                concat(head.as_str(), v.as_str())
            },
            None => name.to_string(),
        };
        args.push(query);
        let mut envs: Vec<(String, String)> = Vec::new();
        envs.push(("PKG_CONFIG_ALLOW_SYSTEM_LIBS".to_string(), "1".to_string()));
        assert(views(args@) =~= args_spec(statik, query_spec(name@, self.min_version())));
        Ok(Probe { program: "pkg-config".to_string(), args, envs, statik })
    }
}

/// The run of `pkg-config` that resolves the library `name` in the
/// environment `vars`, with nothing configured.
pub fn find_library(name: &str, vars: &Vec<(String, String)>) -> (r: Result<Probe, String>)
    ensures
        find_outcome(r, None, None, env_view(vars@), name@),
{
    Config::new().find(name, vars)
}

/// The message for a run that exited with failure: `head`, then the output
/// and the error output where they are not empty, each under a heading.
pub fn exit_failure_message(head: &str, stdout: &str, stderr: &str) -> (r: String)
    ensures
        r@ == head@ + (if stdout@.len() > 0 {
            "\n--- stdout\n"@ + stdout@
        } else {
            Seq::empty()
        }) + (if stderr@.len() > 0 {
            "\n--- stderr\n"@ + stderr@
        } else {
            Seq::empty()
        }),
{
    let mut msg = head.to_string();
    if stdout.unicode_len() > 0 {
        msg.append("\n--- stdout\n");
        msg.append(stdout);
    }
    let ghost mid = msg@;
    if stderr.unicode_len() > 0 {
        msg.append("\n--- stderr\n");
        msg.append(stderr);
    }
    assert(msg@ =~= head@ + (if stdout@.len() > 0 {
        "\n--- stdout\n"@ + stdout@
    } else {
        Seq::empty()
    }) + (if stderr@.len() > 0 {
        "\n--- stderr\n"@ + stderr@
    } else {
        Seq::empty()
    }));
    msg
}

} // verus!
