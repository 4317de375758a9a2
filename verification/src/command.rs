//! Composing the command line and environment for one invocation of the
//! external package-configuration tool.

use crate::config::rerun_lines;
use crate::config::spec_attempted;
use crate::config::spec_is_static;
use crate::config::spec_is_static_attempts;
use crate::config::spec_targetted;
use crate::config::spec_targetted_candidates;
use crate::config::Config;
use crate::env::Env;
use crate::strutil::concat3;
use crate::Statik;
use vstd::prelude::*;
use vstd::string::StringExecFns;

verus! {

/// A fully composed invocation: the program, its arguments in order, and
/// the variables set in its environment.
#[derive(Debug)]
pub struct CommandSpec {
    /// The executable name, overridable through `PKG_CONFIG`.
    pub program: String,
    /// The arguments, in order.
    pub args: Vec<String>,
    /// The `(name, value)` pairs added to the spawned environment.
    pub env_overrides: Vec<(String, String)>,
}

/// The executable name: the `PKG_CONFIG` override when set, else the
/// conventional name.
pub open spec fn spec_program(env: &Env) -> Seq<char> {
    match env.spec_get("PKG_CONFIG"@) {
        Some(v) => v,
        None => "pkg-config"@,
    }
}

/// The library specification argument: the bare name, or a version demand.
pub open spec fn spec_libspec(cfg: &Config, name: Seq<char>) -> Seq<char> {
    match cfg.atleast_version {
        Some(v) => name + " >= "@ + v@,
        None => name,
    }
}

/// The argument list: a static request when the resolved policy is not
/// dynamic, then the query flags, then the user's extra arguments, then the
/// library specification.
pub open spec fn spec_command_args(
    cfg: &Config,
    env: &Env,
    name: Seq<char>,
    query: Seq<Seq<char>>,
) -> Seq<Seq<char>> {
    (if spec_is_static(cfg, env, name) != Statik::No {
        seq!["--static"@]
    } else {
        Seq::empty()
    }) + query + cfg.extra_args.deep_view() + seq![spec_libspec(cfg, name)]
}

/// One optional environment entry.
pub open spec fn opt_entry(name: Seq<char>, v: Option<Seq<char>>) -> Seq<(Seq<char>, Seq<char>)> {
    match v {
        Some(x) => seq![(name, x)],
        None => Seq::empty(),
    }
}

/// The variables set for the spawned process: the three targeted passthrough
/// variables when they resolve, and the allow-system-libs request when
/// configured.
pub open spec fn spec_env_overrides(cfg: &Config, env: &Env) -> Seq<(Seq<char>, Seq<char>)> {
    opt_entry("PKG_CONFIG_PATH"@, spec_targetted(env, "PKG_CONFIG_PATH"@)) + opt_entry(
        "PKG_CONFIG_LIBDIR"@,
        spec_targetted(env, "PKG_CONFIG_LIBDIR"@),
    ) + opt_entry("PKG_CONFIG_SYSROOT_DIR"@, spec_targetted(env, "PKG_CONFIG_SYSROOT_DIR"@)) + (
    if cfg.print_system_libs {
        seq![("PKG_CONFIG_ALLOW_SYSTEM_LIBS"@, "1"@)]
    } else {
        Seq::empty()
    })
}

/// The variable names composing a command looks up, in order.
pub open spec fn spec_command_attempts(cfg: &Config, env: &Env, name: Seq<char>) -> Seq<Seq<char>> {
    seq!["PKG_CONFIG"@] + spec_is_static_attempts(cfg, env, name) + spec_attempted(
        env,
        spec_targetted_candidates(env, "PKG_CONFIG_PATH"@),
    ) + spec_attempted(env, spec_targetted_candidates(env, "PKG_CONFIG_LIBDIR"@)) + spec_attempted(
        env,
        spec_targetted_candidates(env, "PKG_CONFIG_SYSROOT_DIR"@),
    )
}

/// Appends clones of all of `src` to `dst`.
fn push_all(dst: &mut Vec<String>, src: &Vec<String>)
    ensures
        final(dst).deep_view() == old(dst).deep_view() + src.deep_view(),
{
    let ghost before = dst.deep_view();
    let n = src.len();
    let mut i: usize = 0;
    proof {
        assert(src.deep_view().subrange(0, 0) =~= Seq::<Seq<char>>::empty());
        assert(before + src.deep_view().subrange(0, 0) =~= before);
    }
    while i < n
        invariant
            n == src.len(),
            i <= n,
            dst.deep_view() == before + src.deep_view().subrange(0, i as int),
        decreases n - i,
    {
        let ghost dv = dst.deep_view();
        dst.push(src[i].clone());
        proof {
            assert(src.deep_view()[i as int] == src[i as int]@);
            assert(dst.deep_view() =~= dv.push(src.deep_view()[i as int]));
            assert(dv.push(src.deep_view()[i as int]) =~= before + src.deep_view().subrange(
                0,
                i as int + 1,
            ));
        }
        i = i + 1;
    }
    assert(src.deep_view().subrange(0, n as int) =~= src.deep_view());
}

impl Config {
    /// Composes the invocation of the external tool for `name` with the
    /// given query flags: resolves the executable name, prepends the static
    /// request when the policy asks for one, appends the extra arguments and
    /// the library specification, and collects the environment overrides.
    pub fn command(&self, name: &str, args: &Vec<String>, env: &Env, log: &mut Vec<String>) -> (r:
        CommandSpec)
        ensures
            r.program@ == spec_program(env),
            r.args.deep_view() == spec_command_args(self, env, name@, args.deep_view()),
            r.env_overrides.deep_view() == spec_env_overrides(self, env),
            final(log).deep_view() == old(log).deep_view() + rerun_lines(
                self.env_metadata,
                spec_command_attempts(self, env, name@),
            ),
    {
        let ghost l0 = log.deep_view();
        let exe = match self.env_var(env, "PKG_CONFIG", log) {
            Some(v) => v,
            None => "pkg-config".to_owned(),
        };
        let ghost l1 = log.deep_view();
        let statik = self.is_static(env, name, log);
        let ghost l2 = log.deep_view();

        let mut out_args: Vec<String> = Vec::new();
        proof {
            assert(out_args.deep_view() =~= Seq::<Seq<char>>::empty());
        }
        let ghost static_part: Seq<Seq<char>> = if statik != Statik::No {
            seq!["--static"@]
        } else {
            Seq::<Seq<char>>::empty()
        };
        if !matches!(statik, Statik::No) {
            out_args.push("--static".to_owned());
            assert(out_args.deep_view() =~= static_part);
        } else {
            assert(out_args.deep_view() =~= static_part);
        }
        push_all(&mut out_args, args);
        push_all(&mut out_args, &self.extra_args);

        let mut env_overrides: Vec<(String, String)> = Vec::new();
        proof {
            assert(env_overrides.deep_view() =~= Seq::<(Seq<char>, Seq<char>)>::empty());
        }
        let r1 = self.targetted_env_var(env, "PKG_CONFIG_PATH", log);
        let ghost l3 = log.deep_view();
        if let Some(value) = r1 {
            env_overrides.push(("PKG_CONFIG_PATH".to_owned(), value));
        }
        proof {
            assert(env_overrides.deep_view() =~= opt_entry(
                "PKG_CONFIG_PATH"@,
                spec_targetted(env, "PKG_CONFIG_PATH"@),
            ));
        }
        let ghost eo1 = env_overrides.deep_view();
        let r2 = self.targetted_env_var(env, "PKG_CONFIG_LIBDIR", log);
        let ghost l4 = log.deep_view();
        if let Some(value) = r2 {
            let ghost ev = env_overrides.deep_view();
            env_overrides.push(("PKG_CONFIG_LIBDIR".to_owned(), value));
            assert(env_overrides.deep_view() =~= ev + opt_entry(
                "PKG_CONFIG_LIBDIR"@,
                spec_targetted(env, "PKG_CONFIG_LIBDIR"@),
            ));
        } else {
            assert(env_overrides.deep_view() =~= eo1 + opt_entry(
                "PKG_CONFIG_LIBDIR"@,
                spec_targetted(env, "PKG_CONFIG_LIBDIR"@),
            ));
        }
        let ghost eo2 = env_overrides.deep_view();
        let r3 = self.targetted_env_var(env, "PKG_CONFIG_SYSROOT_DIR", log);
        let ghost l5 = log.deep_view();
        if let Some(value) = r3 {
            let ghost ev = env_overrides.deep_view();
            env_overrides.push(("PKG_CONFIG_SYSROOT_DIR".to_owned(), value));
            assert(env_overrides.deep_view() =~= ev + opt_entry(
                "PKG_CONFIG_SYSROOT_DIR"@,
                spec_targetted(env, "PKG_CONFIG_SYSROOT_DIR"@),
            ));
        } else {
            assert(env_overrides.deep_view() =~= eo2 + opt_entry(
                "PKG_CONFIG_SYSROOT_DIR"@,
                spec_targetted(env, "PKG_CONFIG_SYSROOT_DIR"@),
            ));
        }
        let ghost eo3 = env_overrides.deep_view();
        if self.print_system_libs {
            let ghost ev = env_overrides.deep_view();
            env_overrides.push(("PKG_CONFIG_ALLOW_SYSTEM_LIBS".to_owned(), "1".to_owned()));
            assert(env_overrides.deep_view() =~= ev.push(("PKG_CONFIG_ALLOW_SYSTEM_LIBS"@, "1"@)));
        }
        proof {
            assert(env_overrides.deep_view() =~= spec_env_overrides(self, env));
        }

        let libspec = match &self.atleast_version {
            Some(version) => {
                let r = concat3(name, " >= ", version.as_str());
                r
            },
            None => name.to_owned(),
        };
        assert(libspec@ == spec_libspec(self, name@));
        let ghost oa = out_args.deep_view();
        out_args.push(libspec);
        proof {
            assert(out_args.deep_view() =~= oa.push(spec_libspec(self, name@)));
            assert(oa.push(spec_libspec(self, name@)) =~= static_part + args.deep_view()
                + self.extra_args.deep_view() + seq![spec_libspec(self, name@)]);
            assert(out_args.deep_view() =~= spec_command_args(self, env, name@, args.deep_view()));
        }
        proof {
            assert(log.deep_view() =~= l0 + rerun_lines(
                self.env_metadata,
                spec_command_attempts(self, env, name@),
            ));
        }
        CommandSpec { program: exe, args: out_args, env_overrides }
    }
}

/// One part of the rendered command description, in quotation marks.
pub open spec fn spec_quoted(s: Seq<char>) -> Seq<char> {
    seq!['"'] + s + seq!['"']
}

/// The rendering of the arguments from index `k` on, each preceded by a
/// space and quoted.
pub open spec fn spec_render_tail(args: Seq<Seq<char>>, k: int) -> Seq<char>
    decreases args.len() - k,
{
    if k < 0 || k >= args.len() {
        Seq::empty()
    } else {
        seq![' '] + spec_quoted(args[k]) + spec_render_tail(args, k + 1)
    }
}

/// The description of a composed command: the program and each argument
/// quoted, separated by spaces.
pub open spec fn spec_render(c: &CommandSpec) -> Seq<char> {
    spec_quoted(c.program@) + spec_render_tail(c.args.deep_view(), 0)
}

impl CommandSpec {
    /// Renders the command for diagnostics: the program and arguments, each
    /// in quotation marks, joined with spaces.
    pub fn render(&self) -> (r: String)
        ensures
            r@ == spec_render(self),
    {
        proof {
            reveal_strlit("\"");
            assert("\""@ =~= seq!['"']);
        }
        let ghost aa = self.args.deep_view();
        let mut out = concat3("\"", self.program.as_str(), "\"");
        assert(out@ =~= spec_quoted(self.program@));
        let n = self.args.len();
        let mut i: usize = 0;
        while i < n
            invariant
                n == self.args.len(),
                aa == self.args.deep_view(),
                i <= n,
                spec_render(self) == out@ + spec_render_tail(aa, i as int),
            decreases n - i,
        {
            let piece = concat3(" \"", self.args[i].as_str(), "\"");
            proof {
                reveal_strlit(" \"");
                reveal_strlit("\"");
                assert(" \""@ =~= seq![' ', '"']);
                assert("\""@ =~= seq!['"']);
                assert(aa[i as int] == self.args[i as int]@);
                assert(piece@ =~= seq![' '] + spec_quoted(aa[i as int]));
            }
            let ghost o0 = out@;
            out.append(piece.as_str());
            proof {
                assert(out@ =~= o0 + (seq![' '] + spec_quoted(aa[i as int])));
                assert(spec_render_tail(aa, i as int) == seq![' '] + spec_quoted(aa[i as int])
                    + spec_render_tail(aa, i as int + 1));
                assert(o0 + (seq![' '] + spec_quoted(aa[i as int])) + spec_render_tail(
                    aa,
                    i as int + 1,
                ) =~= o0 + spec_render_tail(aa, i as int));
            }
            i = i + 1;
        }
        assert(spec_render_tail(aa, n as int) =~= Seq::<char>::empty());
        assert(out@ + Seq::<char>::empty() =~= out@);
        out
    }
}

} // verus!
