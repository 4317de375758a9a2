//! Probe orchestration: the precheck, the two tool invocations, and the
//! assembly of the result descriptor.  The two invocations are handed in as
//! a transcript of outcomes, so the whole probe is a function of its inputs;
//! the host layer produces the same steps one by one against the real tool.

use crate::command::spec_command_attempts;
use crate::config::rerun_lines;
use crate::config::spec_is_static;
use crate::config::spec_is_static_attempts;
use crate::config::Config;
use crate::env::Env;
use crate::error::spec_run_ok;
use crate::error::Error;
use crate::error::RunOutcome;
use crate::fs::Fs;
use crate::library::meta_emitted;
use crate::library::spec_class_meta;
use crate::library::spec_framework_meta;
use crate::library::spec_frameworks;
use crate::library::spec_expand;
use crate::library::spec_libs;
use crate::library::spec_defines;
use crate::library::spec_is_msvc;
use crate::library::spec_parts;
use crate::library::spec_vals;
use crate::library::Library;
use crate::strutil::concat2;
use crate::strutil::spec_envify;
use crate::strutil::spec_trim;
use crate::strutil::spec_trim_end;
use crate::strutil::trim_end_str;
use crate::tokenizer::spec_split_flags;
use vstd::prelude::*;
use vstd::string::StringExecFns;

verus! {

/// The per-library disable variable: the envified name with the
/// disable suffix.
pub open spec fn spec_abort_var(name: Seq<char>) -> Seq<char> {
    spec_envify(name) + "_NO_PKG_CONFIG"@
}

/// Whether probing is supported for the configured build: host and target
/// agree, or cross compilation was explicitly allowed.
pub open spec fn spec_target_supported(env: &Env) -> bool {
    let target = match env.spec_get("TARGET"@) {
        Some(t) => t,
        None => Seq::<char>::empty(),
    };
    let host = match env.spec_get("HOST"@) {
        Some(h) => h,
        None => Seq::<char>::empty(),
    };
    host == target || env.spec_get("PKG_CONFIG_ALLOW_CROSS"@) is Some
}

/// True when the external tool is used for this build: host and target
/// agree, or cross compilation was explicitly allowed.
pub fn target_supported(env: &Env) -> (r: bool)
    ensures
        r == spec_target_supported(env),
{
    let target = match env.get("TARGET") {
        Some(t) => t,
        None => String::new(),
    };
    let host = match env.get("HOST") {
        Some(h) => h,
        None => String::new(),
    };
    if crate::strutil::str_eq(host.as_str(), target.as_str()) {
        true
    } else {
        env.is_set("PKG_CONFIG_ALLOW_CROSS")
    }
}

/// The fields of a successful probe, stated from the transcript: the
/// classifier output over the first invocation's tokens and the trimmed
/// version from the second.
pub open spec fn spec_probe_ok(
    env: &Env,
    flags_out: Seq<char>,
    version_out: Seq<char>,
    lib: &Library,
) -> bool {
    let toks = spec_split_flags(flags_out);
    let parts = spec_parts(toks);
    let is_msvc = spec_is_msvc(env);
    &&& lib.libs.deep_view() == spec_libs(parts, is_msvc)
    &&& lib.link_paths.deep_view() == spec_vals(parts, "-L"@)
    &&& lib.framework_paths.deep_view() == spec_vals(parts, "-F"@)
    &&& lib.include_paths.deep_view() == spec_vals(parts, "-I"@)
    &&& lib.frameworks.deep_view() == spec_frameworks(spec_expand(toks))
    &&& lib.defines_map() == spec_defines(parts, Map::empty())
    &&& lib.version@ == spec_trim(version_out)
}

/// The lines a probe records, step by step: the precheck's notification,
/// then — once the probe is allowed — the lookups of the first command,
/// and after a successful first run the classifier's policy lookups, the
/// emitted metadata, and the lookups of the version command.
pub open spec fn spec_probe_log(
    cfg: &Config,
    env: &Env,
    fs: &Fs,
    name: Seq<char>,
    runs: Seq<RunOutcome>,
) -> Seq<Seq<char>> {
    let pre = rerun_lines(cfg.env_metadata, seq![spec_abort_var(name)]);
    if env.spec_get(spec_abort_var(name)) is Some || !spec_target_supported(env) {
        pre
    } else {
        let a = pre + rerun_lines(cfg.env_metadata, spec_command_attempts(cfg, env, name));
        if !spec_run_ok(&runs[0]) {
            a
        } else {
            let toks = spec_split_flags(spec_run_stdout(&runs[0]));
            let parts = spec_parts(toks);
            let statik = spec_is_static(cfg, env, name);
            let is_msvc = spec_is_msvc(env);
            a + rerun_lines(cfg.env_metadata, spec_is_static_attempts(cfg, env, name))
                + meta_emitted(
                cfg.cargo_metadata,
                spec_class_meta(parts, Seq::empty(), cfg, fs, statik, is_msvc)
                    + spec_framework_meta(spec_expand(toks)),
            ) + rerun_lines(cfg.env_metadata, spec_command_attempts(cfg, env, name))
        }
    }
}

impl Config {
    /// The deliberate-skip checks run before any process is spawned: the
    /// per-library disable variable aborts the probe, and an unconfirmed
    /// cross compile refuses it.
    pub fn probe_precheck(&self, name: &str, env: &Env, log: &mut Vec<String>) -> (r: Result<
        (),
        Error,
    >)
        ensures
            match r {
                Ok(()) => env.spec_get(spec_abort_var(name@)) is None && spec_target_supported(env),
                Err(e) => match e {
                    Error::EnvNoPkgConfig(v) => env.spec_get(spec_abort_var(name@)) is Some && v@
                        == spec_abort_var(name@),
                    Error::CrossCompilation => env.spec_get(spec_abort_var(name@)) is None
                        && !spec_target_supported(env),
                    _ => false,
                },
            },
            final(log).deep_view() == old(log).deep_view() + crate::config::rerun_lines(
                self.env_metadata,
                seq![spec_abort_var(name@)],
            ),
    {
        let up = crate::strutil::envify(name);
        let abort_var_name = concat2(up.as_str(), "_NO_PKG_CONFIG");
        if self.env_var(env, abort_var_name.as_str(), log).is_some() {
            Err(Error::EnvNoPkgConfig(abort_var_name))
        } else if !target_supported(env) {
            Err(Error::CrossCompilation)
        } else {
            Ok(())
        }
    }

    /// Runs the whole probe for `name` against a transcript of the two tool
    /// invocations: the flags/cflags query first, the version query second.
    /// The probe aborts on the disable variable or an unconfirmed cross
    /// compile without consuming the transcript, fails when either
    /// invocation failed, and otherwise returns the classified descriptor
    /// with the trimmed version attached.
    pub fn probe(&self, name: &str, env: &Env, fs: &Fs, runs: &Vec<RunOutcome>, log: &mut Vec<
        String,
    >) -> (r: Result<Library, Error>)
        requires
            runs@.len() == 2,
        ensures
            r is Ok <==> (env.spec_get(spec_abort_var(name@)) is None && spec_target_supported(env)
                && spec_run_ok(&runs@[0]) && spec_run_ok(&runs@[1])),
            match r {
                Ok(lib) => {
                    &&& runs@[0] matches RunOutcome::Ran(o1) && o1.success && spec_probe_ok(
                        env,
                        o1.stdout@,
                        spec_run_stdout(&runs@[1]),
                        &lib,
                    )
                },
                Err(e) => match e {
                    Error::EnvNoPkgConfig(v) => env.spec_get(spec_abort_var(name@)) is Some && v@
                        == spec_abort_var(name@),
                    Error::CrossCompilation => env.spec_get(spec_abort_var(name@)) is None
                        && !spec_target_supported(env),
                    Error::Command { command, cause } => env.spec_get(spec_abort_var(name@)) is None
                        && spec_target_supported(env) && ((runs@[0] matches RunOutcome::SpawnFailed(
                        c,
                    ) && cause@ == c@) || (runs@[1] matches RunOutcome::SpawnFailed(c)
                        && spec_run_ok(&runs@[0]) && cause@ == c@)),
                    Error::Failure { command, output } => env.spec_get(
                        spec_abort_var(name@),
                    ) is None && spec_target_supported(env) && ((
                    runs@[0] matches RunOutcome::Ran(o) && !o.success && output == o) || (
                    runs@[1] matches RunOutcome::Ran(o) && spec_run_ok(&runs@[0]) && !o.success
                        && output == o)),
                    Error::Unknown => false,
                },
            },
            final(log).deep_view() == old(log).deep_view() + spec_probe_log(
                self,
                env,
                fs,
                name@,
                runs@,
            ),
    {
        let ghost l0 = log.deep_view();
        if let Err(e) = self.probe_precheck(name, env, log) {
            return Err(e);
        }
        let mut library = Library::new();

        let mut query1: Vec<String> = Vec::new();
        query1.push("--libs".to_owned());
        query1.push("--cflags".to_owned());
        let cmd1 = self.command(name, &query1, env, log);
        proof {
            assert(log.deep_view() =~= l0 + (rerun_lines(
                self.env_metadata,
                seq![spec_abort_var(name@)],
            ) + rerun_lines(self.env_metadata, spec_command_attempts(self, env, name@))));
        }
        let ghost l1 = log.deep_view();
        let output = match crate::error::interpret_run(&cmd1, &runs[0]) {
            Ok(s) => s,
            Err(e) => {
                return Err(e);
            },
        };
        library.parse_libs_cflags(name, output.as_str(), self, env, fs, log);
        let ghost l2 = log.deep_view();

        let mut query2: Vec<String> = Vec::new();
        query2.push("--modversion".to_owned());
        let cmd2 = self.command(name, &query2, env, log);
        proof {
            let toks = spec_split_flags(output@);
            let parts = spec_parts(toks);
            let statik = spec_is_static(self, env, name@);
            let is_msvc = spec_is_msvc(env);
            assert(log.deep_view() =~= l0 + ((rerun_lines(
                self.env_metadata,
                seq![spec_abort_var(name@)],
            ) + rerun_lines(self.env_metadata, spec_command_attempts(self, env, name@)))
                + rerun_lines(self.env_metadata, spec_is_static_attempts(self, env, name@))
                + meta_emitted(
                self.cargo_metadata,
                spec_class_meta(parts, Seq::empty(), self, fs, statik, is_msvc)
                    + spec_framework_meta(spec_expand(toks)),
            ) + rerun_lines(self.env_metadata, spec_command_attempts(self, env, name@))));
        }
        let version_out = match crate::error::interpret_run(&cmd2, &runs[1]) {
            Ok(s) => s,
            Err(e) => {
                return Err(e);
            },
        };
        library.parse_modversion(version_out.as_str());
        proof {
            let toks = spec_split_flags(output@);
            let parts = spec_parts(toks);
            let is_msvc = spec_is_msvc(env);
            assert(Seq::<Seq<char>>::empty() + spec_libs(parts, is_msvc) =~= spec_libs(
                parts,
                is_msvc,
            ));
            assert(Seq::<Seq<char>>::empty() + spec_vals(parts, "-L"@) =~= spec_vals(parts, "-L"@));
            assert(Seq::<Seq<char>>::empty() + spec_vals(parts, "-F"@) =~= spec_vals(parts, "-F"@));
            assert(Seq::<Seq<char>>::empty() + spec_vals(parts, "-I"@) =~= spec_vals(parts, "-I"@));
            assert(Seq::<Seq<char>>::empty() + spec_frameworks(spec_expand(toks))
                =~= spec_frameworks(spec_expand(toks)));
            assert(crate::library::spec_assoc_map(Seq::<(Seq<char>, Option<Seq<char>>)>::empty())
                =~= Map::<Seq<char>, Option<Seq<char>>>::empty());
            assert(Seq::<char>::empty() + spec_trim(version_out@) =~= spec_trim(version_out@));
        }
        Ok(library)
    }

    /// The variable query with its error rendered as a plain message.
    pub fn get_variable(package: &str, variable: &str, env: &Env, run: &RunOutcome, log: &mut Vec<
        String,
    >) -> (r: Result<String, String>)
        ensures
            r is Ok <==> spec_run_ok(run),
            r matches Ok(v) ==> v@ == spec_trim_end(spec_run_stdout(run)),
    {
        match get_variable(package, variable, env, run, log) {
            Ok(v) => Ok(v),
            Err(e) => Err(e.message()),
        }
    }

    /// The probe with its error rendered as a plain message.
    pub fn find(&self, name: &str, env: &Env, fs: &Fs, runs: &Vec<RunOutcome>, log: &mut Vec<
        String,
    >) -> (r: Result<Library, String>)
        requires
            runs@.len() == 2,
        ensures
            r is Ok <==> (env.spec_get(spec_abort_var(name@)) is None && spec_target_supported(env)
                && spec_run_ok(&runs@[0]) && spec_run_ok(&runs@[1])),
            final(log).deep_view() == old(log).deep_view() + spec_probe_log(
                self,
                env,
                fs,
                name@,
                runs@,
            ),
    {
        match self.probe(name, env, fs, runs, log) {
            Ok(lib) => Ok(lib),
            Err(e) => Err(e.message()),
        }
    }
}

/// The captured standard output of a run that completed.
pub open spec fn spec_run_stdout(outcome: &RunOutcome) -> Seq<char> {
    match outcome {
        RunOutcome::Ran(o) => o.stdout@,
        RunOutcome::SpawnFailed(c) => Seq::empty(),
    }
}

/// The lines a default-options probe records: with rebuild notifications
/// off, only the classifier's metadata of a successful first run remains.
pub open spec fn spec_default_probe_log(
    env: &Env,
    fs: &Fs,
    name: Seq<char>,
    runs: Seq<RunOutcome>,
) -> Seq<Seq<char>> {
    if env.spec_get(spec_abort_var(name)) is Some || !spec_target_supported(env) || !spec_run_ok(
        &runs[0],
    ) {
        Seq::empty()
    } else {
        let toks = spec_split_flags(spec_run_stdout(&runs[0]));
        let parts = spec_parts(toks);
        crate::library::spec_class_meta_for(
            parts,
            Seq::empty(),
            Seq::empty(),
            fs,
            crate::config::spec_infer(env, name),
            spec_is_msvc(env),
        ) + spec_framework_meta(spec_expand(toks))
    }
}

/// Probes the library `name` with all default options against a transcript
/// of the two tool invocations.
pub fn probe_library(name: &str, env: &Env, fs: &Fs, runs: &Vec<RunOutcome>, log: &mut Vec<
    String,
>) -> (r: Result<Library, Error>)
    requires
        runs@.len() == 2,
    ensures
        r is Ok <==> (env.spec_get(spec_abort_var(name@)) is None && spec_target_supported(env)
            && spec_run_ok(&runs@[0]) && spec_run_ok(&runs@[1])),
        match r {
            Ok(lib) => runs@[0] matches RunOutcome::Ran(o1) && o1.success && spec_probe_ok(
                env,
                o1.stdout@,
                spec_run_stdout(&runs@[1]),
                &lib,
            ),
            Err(e) => !(e matches Error::Unknown),
        },
        final(log).deep_view() == old(log).deep_view() + spec_default_probe_log(
            env,
            fs,
            name@,
            runs@,
        ),
{
    let cfg = Config::new();
    let r = cfg.probe(name, env, fs, runs, log);
    proof {
        lemma_default_probe_log(&cfg, env, fs, name@, runs@);
    }
    r
}

proof fn lemma_default_probe_log(cfg: &Config, env: &Env, fs: &Fs, name: Seq<char>, runs: Seq<
    RunOutcome,
>)
    requires
        cfg.statik is None,
        cfg.statik_blacklist.deep_view() == Seq::<Seq<char>>::empty(),
        cfg.env_metadata == false,
        cfg.cargo_metadata == true,
    ensures
        spec_probe_log(cfg, env, fs, name, runs) == spec_default_probe_log(env, fs, name, runs),
{
    let pre = rerun_lines(cfg.env_metadata, seq![spec_abort_var(name)]);
    assert(pre =~= Seq::<Seq<char>>::empty());
    if env.spec_get(spec_abort_var(name)) is Some || !spec_target_supported(env) {
        assert(spec_probe_log(cfg, env, fs, name, runs) =~= spec_default_probe_log(
            env,
            fs,
            name,
            runs,
        ));
    } else {
        let a = pre + rerun_lines(cfg.env_metadata, spec_command_attempts(cfg, env, name));
        assert(a =~= Seq::<Seq<char>>::empty());
        if !spec_run_ok(&runs[0]) {
            assert(spec_probe_log(cfg, env, fs, name, runs) =~= spec_default_probe_log(
                env,
                fs,
                name,
                runs,
            ));
        } else {
            let toks = spec_split_flags(spec_run_stdout(&runs[0]));
            let parts = spec_parts(toks);
            let statik = spec_is_static(cfg, env, name);
            assert(!cfg.statik_blacklist.deep_view().contains(name));
            assert(statik == crate::config::spec_infer(env, name));
            let meta = crate::library::spec_class_meta_for(
                parts,
                Seq::empty(),
                Seq::empty(),
                fs,
                statik,
                spec_is_msvc(env),
            ) + spec_framework_meta(spec_expand(toks));
            assert(spec_class_meta(parts, Seq::empty(), cfg, fs, statik, spec_is_msvc(env))
                == crate::library::spec_class_meta_for(
                parts,
                Seq::empty(),
                Seq::empty(),
                fs,
                statik,
                spec_is_msvc(env),
            ));
            assert(meta_emitted(cfg.cargo_metadata, spec_class_meta(
                parts,
                Seq::empty(),
                cfg,
                fs,
                statik,
                spec_is_msvc(env),
            ) + spec_framework_meta(spec_expand(toks))) == meta);
            assert(spec_probe_log(cfg, env, fs, name, runs) =~= a + rerun_lines(
                cfg.env_metadata,
                spec_is_static_attempts(cfg, env, name),
            ) + meta + rerun_lines(cfg.env_metadata, spec_command_attempts(cfg, env, name)));
            assert(spec_probe_log(cfg, env, fs, name, runs) =~= meta);
        }
    }
}

/// Probes with all default options, rendering the error as a message.
pub fn find_library(name: &str, env: &Env, fs: &Fs, runs: &Vec<RunOutcome>, log: &mut Vec<
    String,
>) -> (r: Result<Library, String>)
    requires
        runs@.len() == 2,
    ensures
        r is Ok <==> (env.spec_get(spec_abort_var(name@)) is None && spec_target_supported(env)
            && spec_run_ok(&runs@[0]) && spec_run_ok(&runs@[1])),
        final(log).deep_view() == old(log).deep_view() + spec_default_probe_log(
            env,
            fs,
            name@,
            runs@,
        ),
{
    match probe_library(name, env, fs, runs, log) {
        Ok(lib) => Ok(lib),
        Err(e) => Err(e.message()),
    }
}

/// Asks the external tool for the value of one variable of a package: the
/// command uses the default options, and a successful run yields the
/// captured output without its trailing whitespace.
pub fn get_variable(package: &str, variable: &str, env: &Env, run: &RunOutcome, log: &mut Vec<
    String,
>) -> (r: Result<String, Error>)
    ensures
        r is Ok <==> spec_run_ok(run),
        match r {
            Ok(v) => v@ == spec_trim_end(spec_run_stdout(run)),
            Err(e) => !(e matches Error::Unknown) && !(e matches Error::EnvNoPkgConfig(_))
                && !(e matches Error::CrossCompilation),
        },
        final(log).deep_view() == old(log).deep_view(),
{
    let arg = concat2("--variable=", variable);
    let cfg = Config::new();
    let mut args: Vec<String> = Vec::new();
    args.push(arg);
    let ghost l0 = log.deep_view();
    let cmd = cfg.command(package, &args, env, log);
    proof {
        assert(log.deep_view() =~= l0);
    }
    match crate::error::interpret_run(&cmd, run) {
        Ok(out) => Ok(trim_end_str(out.as_str())),
        Err(e) => Err(e),
    }
}

} // verus!
