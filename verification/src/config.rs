//! Probe options and environment-driven configuration resolution: the
//! cross-target variable override chain, the static/dynamic linking policy,
//! and the bookkeeping notifications a lookup may emit.

use crate::env::Env;
use crate::strutil::concat2;
use crate::strutil::concat3;
use crate::strutil::spec_envify;
use crate::strutil::spec_underscore;
use crate::strutil::str_eq;
use crate::strutil::underscore_dashes;
use crate::Statik;
use vstd::prelude::*;

verus! {

/// The notification line recorded when a lookup of `name` must mark the
/// build as depending on that variable.
pub open spec fn rerun_line(name: Seq<char>) -> Seq<char> {
    "rerun-if-env-changed="@ + name
}

/// The notification lines for a list of attempted variable names, empty when
/// the bookkeeping toggle is off.
pub open spec fn rerun_lines(emit: bool, names: Seq<Seq<char>>) -> Seq<Seq<char>> {
    if emit {
        names.map_values(|n: Seq<char>| rerun_line(n))
    } else {
        Seq::empty()
    }
}

/// First set variable of `names` wins.
pub open spec fn spec_chain(env: &Env, names: Seq<Seq<char>>) -> Option<Seq<char>>
    decreases names.len(),
{
    if names.len() == 0 {
        None
    } else {
        match env.spec_get(names[0]) {
            Some(v) => Some(v),
            None => spec_chain(env, names.drop_first()),
        }
    }
}

/// The prefix of `names` actually looked up before the chain stopped: every
/// name up to and including the first one that is set.
pub open spec fn spec_attempted(env: &Env, names: Seq<Seq<char>>) -> Seq<Seq<char>>
    decreases names.len(),
{
    if names.len() == 0 {
        Seq::empty()
    } else {
        match env.spec_get(names[0]) {
            Some(v) => seq![names[0]],
            None => seq![names[0]] + spec_attempted(env, names.drop_first()),
        }
    }
}

/// Which of `HOST_` or `TARGET_` prefixes applies: the one naming the side
/// that the runtime host plays.
pub open spec fn spec_kind(host: Seq<char>, target: Seq<char>) -> Seq<char> {
    if host == target {
        "HOST"@
    } else {
        "TARGET"@
    }
}

/// The candidate variable names for a targeted lookup of `base`, in
/// precedence order.  Without a target triple only the plain name is tried;
/// with a target but no host, nothing is tried.
pub open spec fn spec_targetted_candidates(env: &Env, base: Seq<char>) -> Seq<Seq<char>> {
    match env.spec_get("TARGET"@) {
        None => seq![base],
        Some(target) => match env.spec_get("HOST"@) {
            None => Seq::empty(),
            Some(host) => seq![
                base + "_"@ + target,
                base + "_"@ + spec_underscore(target),
                spec_kind(host, target) + "_"@ + base,
                base,
            ],
        },
    }
}

/// The value a targeted lookup of `base` resolves to.
pub open spec fn spec_targetted(env: &Env, base: Seq<char>) -> Option<Seq<char>> {
    spec_chain(env, spec_targetted_candidates(env, base))
}

/// The candidate variable names consulted when inferring the linking policy
/// for a library whose environment-variable base name is `up`.
pub open spec fn spec_infer_candidates(up: Seq<char>) -> Seq<Seq<char>> {
    seq![
        up + "_STATIC_FORCE"@,
        up + "_STATIC"@,
        up + "_DYNAMIC"@,
        "PKG_CONFIG_ALL_STATIC"@,
        "PKG_CONFIG_ALL_DYNAMIC"@,
    ]
}

/// The linking policy inferred from the environment: the per-library
/// variables win over the global ones, and the default is dynamic.
pub open spec fn spec_infer(env: &Env, name: Seq<char>) -> Statik {
    let up = spec_envify(name);
    if env.spec_get(up + "_STATIC_FORCE"@) is Some {
        Statik::Force
    } else if env.spec_get(up + "_STATIC"@) is Some {
        Statik::Yes
    } else if env.spec_get(up + "_DYNAMIC"@) is Some {
        Statik::No
    } else if env.spec_get("PKG_CONFIG_ALL_STATIC"@) is Some {
        Statik::Yes
    } else if env.spec_get("PKG_CONFIG_ALL_DYNAMIC"@) is Some {
        Statik::No
    } else {
        Statik::No
    }
}

/// Options for how the external tool is found, invoked and interpreted.
pub struct Config {
    /// The explicit linking policy, overriding environment inference.
    pub statik: Option<Statik>,
    /// Libraries that are always linked dynamically.
    pub statik_blacklist: Vec<String>,
    /// The minimum version demanded of the library, if any.
    pub atleast_version: Option<String>,
    /// Raw arguments appended after the generated ones.
    pub extra_args: Vec<String>,
    /// Whether recognised flags are reported as build metadata.
    pub cargo_metadata: bool,
    /// Whether every variable lookup records a rebuild notification.
    pub env_metadata: bool,
    /// Whether the tool is asked to print system library paths too.
    pub print_system_libs: bool,
}

/// True when `name` stands on the static-exception list.
pub open spec fn spec_blacklist_contains(cfg: &Config, name: Seq<char>) -> bool {
    cfg.statik_blacklist.deep_view().contains(name)
}

/// The linking policy resolved for one library: the static-exception list
/// wins over everything, then the explicit policy, then the environment.
pub open spec fn spec_is_static(cfg: &Config, env: &Env, name: Seq<char>) -> Statik {
    if spec_blacklist_contains(cfg, name) {
        Statik::No
    } else {
        match cfg.statik {
            Some(s) => s,
            None => spec_infer(env, name),
        }
    }
}

/// The variable names the policy resolution actually looks up.
pub open spec fn spec_is_static_attempts(cfg: &Config, env: &Env, name: Seq<char>) -> Seq<
    Seq<char>,
> {
    if spec_blacklist_contains(cfg, name) {
        Seq::empty()
    } else {
        match cfg.statik {
            Some(s) => Seq::empty(),
            None => spec_attempted(env, spec_infer_candidates(spec_envify(name))),
        }
    }
}

impl Config {
    /// Creates a new set of configuration options, all initially blank:
    /// no explicit policy, no exceptions, no version floor, no extra
    /// arguments, metadata emission on, rebuild notifications off, system
    /// library paths requested.
    pub fn new() -> (r: Config)
        ensures
            r.statik is None,
            r.statik_blacklist.deep_view() == Seq::<Seq<char>>::empty(),
            r.atleast_version is None,
            r.extra_args.deep_view() == Seq::<Seq<char>>::empty(),
            r.cargo_metadata == true,
            r.env_metadata == false,
            r.print_system_libs == true,
    {
        let r = Config {
            statik: None,
            statik_blacklist: Vec::new(),
            atleast_version: None,
            extra_args: Vec::new(),
            print_system_libs: true,
            cargo_metadata: true,
            env_metadata: false,
        };
        assert(r.statik_blacklist.deep_view() =~= Seq::<Seq<char>>::empty());
        assert(r.extra_args.deep_view() =~= Seq::<Seq<char>>::empty());
        r
    }

    /// Sets the explicit linking policy, overriding environment inference.
    pub fn statik(self, statik: Statik) -> (r: Config)
        ensures
            r == (Config { statik: Some(statik), ..self }),
    {
        Config { statik: Some(statik), ..self }
    }

    /// Appends libraries to the static-exception list.
    pub fn statik_blacklist(self, blacklist: Vec<String>) -> (r: Config)
        ensures
            r == (Config {
                statik_blacklist: r.statik_blacklist,
                ..self
            }),
            r.statik_blacklist.deep_view() == self.statik_blacklist.deep_view()
                + blacklist.deep_view(),
    {
        let mut sb = self.statik_blacklist;
        let ghost before = sb.deep_view();
        let mut rest = blacklist;
        sb.append(&mut rest);
        let r = Config { statik_blacklist: sb, ..self };
        assert(r.statik_blacklist.deep_view() =~= before + blacklist.deep_view());
        r
    }

    /// True when `val` stands on the static-exception list.
    pub fn statik_blacklist_contains(&self, val: &str) -> (r: bool)
        ensures
            r == spec_blacklist_contains(self, val@),
    {
        let n = self.statik_blacklist.len();
        let mut i: usize = 0;
        while i < n
            invariant
                n == self.statik_blacklist.len(),
                i <= n,
                forall|j: int| 0 <= j < i ==> self.statik_blacklist.deep_view()[j] != val@,
            decreases n - i,
        {
            proof {
                assert(self.statik_blacklist.deep_view()[i as int] == self.statik_blacklist[i as int]@);
            }
            if str_eq(self.statik_blacklist[i].as_str(), val) {
                assert(self.statik_blacklist.deep_view().contains(val@));
                return true;
            }
            i = i + 1;
        }
        assert(!self.statik_blacklist.deep_view().contains(val@)) by {
            if self.statik_blacklist.deep_view().contains(val@) {
                let j = choose|j: int|
                    0 <= j < self.statik_blacklist.deep_view().len()
                        && self.statik_blacklist.deep_view()[j] == val@;
            }
        }
        false
    }

    /// Demands that the library be at least version `vers`.
    pub fn atleast_version(self, vers: &str) -> (r: Config)
        ensures
            r == (Config { atleast_version: r.atleast_version, ..self }),
            r.atleast_version matches Some(v) && v@ == vers@,
    {
        Config { atleast_version: Some(vers.to_owned()), ..self }
    }

    /// Adds an argument to pass to the external tool, after all generated
    /// arguments.
    pub fn arg(self, arg: &str) -> (r: Config)
        ensures
            r == (Config { extra_args: r.extra_args, ..self }),
            r.extra_args.deep_view() == self.extra_args.deep_view().push(arg@),
    {
        let mut extra = self.extra_args;
        let ghost before = extra.deep_view();
        extra.push(arg.to_owned());
        let r = Config { extra_args: extra, ..self };
        assert(r.extra_args.deep_view() =~= before.push(arg@));
        r
    }

    /// Defines whether build metadata is emitted for recognised flags.
    pub fn cargo_metadata(self, cargo_metadata: bool) -> (r: Config)
        ensures
            r == (Config { cargo_metadata, ..self }),
    {
        Config { cargo_metadata, ..self }
    }

    /// Defines whether each variable lookup records a rebuild notification.
    pub fn env_metadata(self, env_metadata: bool) -> (r: Config)
        ensures
            r == (Config { env_metadata, ..self }),
    {
        Config { env_metadata, ..self }
    }

    /// Enables or disables asking the tool to print system library paths.
    pub fn print_system_libs(self, print: bool) -> (r: Config)
        ensures
            r == (Config { print_system_libs: print, ..self }),
    {
        Config { print_system_libs: print, ..self }
    }

    /// Looks one variable up in the snapshot, recording the rebuild
    /// notification when the bookkeeping toggle asks for it.
    pub fn env_var(&self, env: &Env, name: &str, log: &mut Vec<String>) -> (r: Option<String>)
        ensures
            final(log).deep_view() == old(log).deep_view() + rerun_lines(
                self.env_metadata,
                seq![name@],
            ),
            match r {
                Some(v) => env.spec_get(name@) == Some(v@),
                None => env.spec_get(name@) is None,
            },
    {
        let ghost before = log.deep_view();
        if self.env_metadata {
            let line = concat2("rerun-if-env-changed=", name);
            log.push(line);
            assert(log.deep_view() =~= before + rerun_lines(true, seq![name@]));
        } else {
            assert(log.deep_view() =~= before + rerun_lines(false, seq![name@]));
        }
        env.get(name)
    }

    /// Resolves `var_base` with the cross-target override chain: the full
    /// target triple suffix first, then the normalised triple, then the
    /// host-or-target prefix, then the plain name; the first set variable
    /// wins.
    pub fn targetted_env_var(&self, env: &Env, var_base: &str, log: &mut Vec<String>) -> (r: Option<
        String,
    >)
        ensures
            final(log).deep_view() == old(log).deep_view() + rerun_lines(
                self.env_metadata,
                spec_attempted(env, spec_targetted_candidates(env, var_base@)),
            ),
            match r {
                Some(v) => spec_targetted(env, var_base@) == Some(v@),
                None => spec_targetted(env, var_base@) is None,
            },
    {
        proof {
            reveal_with_fuel(spec_chain, 6);
            reveal_with_fuel(spec_attempted, 6);
        }
        let ghost before = log.deep_view();
        let ghost cands = spec_targetted_candidates(env, var_base@);
        match env.get("TARGET") {
            Some(target) => {
                match env.get("HOST") {
                    None => {
                        assert(cands =~= Seq::<Seq<char>>::empty());
                        assert(log.deep_view() =~= before + rerun_lines(
                            self.env_metadata,
                            spec_attempted(env, cands),
                        ));
                        None
                    },
                    Some(host) => {
                        let kind: &str = if str_eq(host.as_str(), target.as_str()) {
                            "HOST"
                        } else {
                            "TARGET"
                        };
                        let n1 = concat3(var_base, "_", target.as_str());
                        let tu = underscore_dashes(target.as_str());
                        let n2 = concat3(var_base, "_", tu.as_str());
                        let n3 = concat3(kind, "_", var_base);
                        proof {
                            assert(cands =~= seq![n1@, n2@, n3@, var_base@]);
                        }
                        let r1 = self.env_var(env, n1.as_str(), log);
                        if r1.is_some() {
                            proof {
                                assert(spec_attempted(env, cands) =~= seq![n1@]);
                            }
                            return r1;
                        }
                        proof {
                            assert(cands.drop_first() =~= seq![n2@, n3@, var_base@]);
                        }
                        let ghost l1 = log.deep_view();
                        let r2 = self.env_var(env, n2.as_str(), log);
                        if r2.is_some() {
                            proof {
                                assert(spec_attempted(env, cands) =~= seq![n1@, n2@]);
                                lemma_rerun_concat(
                                    self.env_metadata,
                                    before,
                                    seq![n1@],
                                    seq![n2@],
                                );
                            }
                            return r2;
                        }
                        proof {
                            assert(cands.drop_first().drop_first() =~= seq![n3@, var_base@]);
                        }
                        let r3 = self.env_var(env, n3.as_str(), log);
                        if r3.is_some() {
                            proof {
                                assert(spec_attempted(env, cands) =~= seq![n1@, n2@, n3@]);
                                lemma_rerun_concat(
                                    self.env_metadata,
                                    before,
                                    seq![n1@, n2@],
                                    seq![n3@],
                                );
                            }
                            return r3;
                        }
                        proof {
                            assert(cands.drop_first().drop_first().drop_first() =~= seq![
                                var_base@,
                            ]);
                        }
                        let r4 = self.env_var(env, var_base, log);
                        proof {
                            assert(spec_attempted(env, cands) =~= seq![n1@, n2@, n3@, var_base@]);
                            lemma_rerun_concat(
                                self.env_metadata,
                                before,
                                seq![n1@, n2@, n3@],
                                seq![var_base@],
                            );
                        }
                        r4
                    },
                }
            },
            None => {
                proof {
                    assert(cands =~= seq![var_base@]);
                    assert(spec_attempted(env, cands) =~= seq![var_base@]);
                }
                let r = self.env_var(env, var_base, log);
                r
            },
        }
    }

    /// Infers the linking policy for `name` from the environment, trying the
    /// per-library force, static and dynamic variables, then the global
    /// static and dynamic ones, defaulting to dynamic.
    pub fn infer_static(&self, env: &Env, name: &str, log: &mut Vec<String>) -> (r: Statik)
        ensures
            r == spec_infer(env, name@),
            final(log).deep_view() == old(log).deep_view() + rerun_lines(
                self.env_metadata,
                spec_attempted(env, spec_infer_candidates(spec_envify(name@))),
            ),
    {
        proof {
            reveal_with_fuel(spec_chain, 7);
            reveal_with_fuel(spec_attempted, 7);
        }
        let ghost before = log.deep_view();
        let up = crate::strutil::envify(name);
        let ghost cands = spec_infer_candidates(spec_envify(name@));
        let n1 = concat2(up.as_str(), "_STATIC_FORCE");
        let n2 = concat2(up.as_str(), "_STATIC");
        let n3 = concat2(up.as_str(), "_DYNAMIC");
        proof {
            assert(cands =~= seq![
                n1@,
                n2@,
                n3@,
                "PKG_CONFIG_ALL_STATIC"@,
                "PKG_CONFIG_ALL_DYNAMIC"@,
            ]);
        }
        if self.env_var(env, n1.as_str(), log).is_some() {
            proof {
                assert(spec_attempted(env, cands) =~= seq![n1@]);
            }
            Statik::Force
        } else if self.env_var(env, n2.as_str(), log).is_some() {
            proof {
                assert(cands.drop_first() =~= seq![
                    n2@,
                    n3@,
                    "PKG_CONFIG_ALL_STATIC"@,
                    "PKG_CONFIG_ALL_DYNAMIC"@,
                ]);
                assert(spec_attempted(env, cands) =~= seq![n1@, n2@]);
                lemma_rerun_concat(self.env_metadata, before, seq![n1@], seq![n2@]);
            }
            Statik::Yes
        } else if self.env_var(env, n3.as_str(), log).is_some() {
            proof {
                assert(cands.drop_first() =~= seq![
                    n2@,
                    n3@,
                    "PKG_CONFIG_ALL_STATIC"@,
                    "PKG_CONFIG_ALL_DYNAMIC"@,
                ]);
                assert(cands.drop_first().drop_first() =~= seq![
                    n3@,
                    "PKG_CONFIG_ALL_STATIC"@,
                    "PKG_CONFIG_ALL_DYNAMIC"@,
                ]);
                assert(spec_attempted(env, cands) =~= seq![n1@, n2@, n3@]);
                lemma_rerun_concat(self.env_metadata, before, seq![n1@, n2@], seq![n3@]);
            }
            Statik::No
        } else if self.env_var(env, "PKG_CONFIG_ALL_STATIC", log).is_some() {
            proof {
                assert(cands.drop_first() =~= seq![
                    n2@,
                    n3@,
                    "PKG_CONFIG_ALL_STATIC"@,
                    "PKG_CONFIG_ALL_DYNAMIC"@,
                ]);
                assert(cands.drop_first().drop_first() =~= seq![
                    n3@,
                    "PKG_CONFIG_ALL_STATIC"@,
                    "PKG_CONFIG_ALL_DYNAMIC"@,
                ]);
                assert(cands.drop_first().drop_first().drop_first() =~= seq![
                    "PKG_CONFIG_ALL_STATIC"@,
                    "PKG_CONFIG_ALL_DYNAMIC"@,
                ]);
                assert(spec_attempted(env, cands) =~= seq![
                    n1@,
                    n2@,
                    n3@,
                    "PKG_CONFIG_ALL_STATIC"@,
                ]);
                lemma_rerun_concat(
                    self.env_metadata,
                    before,
                    seq![n1@, n2@, n3@],
                    seq!["PKG_CONFIG_ALL_STATIC"@],
                );
            }
            Statik::Yes
        } else {
            let r4 = self.env_var(env, "PKG_CONFIG_ALL_DYNAMIC", log);
            proof {
                assert(cands.drop_first() =~= seq![
                    n2@,
                    n3@,
                    "PKG_CONFIG_ALL_STATIC"@,
                    "PKG_CONFIG_ALL_DYNAMIC"@,
                ]);
                assert(cands.drop_first().drop_first() =~= seq![
                    n3@,
                    "PKG_CONFIG_ALL_STATIC"@,
                    "PKG_CONFIG_ALL_DYNAMIC"@,
                ]);
                assert(cands.drop_first().drop_first().drop_first() =~= seq![
                    "PKG_CONFIG_ALL_STATIC"@,
                    "PKG_CONFIG_ALL_DYNAMIC"@,
                ]);
                assert(cands.drop_first().drop_first().drop_first().drop_first() =~= seq![
                    "PKG_CONFIG_ALL_DYNAMIC"@,
                ]);
                assert(spec_attempted(env, cands) =~= seq![
                    n1@,
                    n2@,
                    n3@,
                    "PKG_CONFIG_ALL_STATIC"@,
                    "PKG_CONFIG_ALL_DYNAMIC"@,
                ]);
                lemma_rerun_concat(
                    self.env_metadata,
                    before,
                    seq![n1@, n2@, n3@, "PKG_CONFIG_ALL_STATIC"@],
                    seq!["PKG_CONFIG_ALL_DYNAMIC"@],
                );
            }
            if r4.is_some() {
                Statik::No
            } else {
                Statik::No
            }
        }
    }

    /// Resolves the linking policy for `name`: the static-exception list
    /// forces dynamic linking, an explicit policy comes next, and otherwise
    /// the environment is consulted.
    pub fn is_static(&self, env: &Env, name: &str, log: &mut Vec<String>) -> (r: Statik)
        ensures
            r == spec_is_static(self, env, name@),
            final(log).deep_view() == old(log).deep_view() + rerun_lines(
                self.env_metadata,
                spec_is_static_attempts(self, env, name@),
            ),
    {
        let ghost before = log.deep_view();
        if self.statik_blacklist_contains(name) {
            assert(log.deep_view() =~= before + rerun_lines(
                self.env_metadata,
                spec_is_static_attempts(self, env, name@),
            ));
            Statik::No
        } else {
            match &self.statik {
                Some(s) => {
                    assert(log.deep_view() =~= before + rerun_lines(
                        self.env_metadata,
                        spec_is_static_attempts(self, env, name@),
                    ));
                    *s
                },
                None => self.infer_static(env, name, log),
            }
        }
    }
}

/// Concatenating notification lines over a split attempt list.
proof fn lemma_rerun_concat(emit: bool, before: Seq<Seq<char>>, a: Seq<Seq<char>>, b: Seq<Seq<char>>)
    ensures
        (before + rerun_lines(emit, a)) + rerun_lines(emit, b) == before + rerun_lines(emit, a + b),
{
    if emit {
        assert(rerun_lines(emit, a + b) =~= rerun_lines(emit, a) + rerun_lines(emit, b));
    } else {
        assert(rerun_lines(emit, a + b) =~= rerun_lines(emit, a) + rerun_lines(emit, b));
    }
    assert((before + rerun_lines(emit, a)) + rerun_lines(emit, b) =~= before + (rerun_lines(emit, a)
        + rerun_lines(emit, b)));
}

/// Law: a library on the static-exception list always resolves to dynamic
/// linking, whatever explicit policy is set and whatever variables — global
/// force-static included — stand in the environment.
pub proof fn lemma_blacklist_forces_dynamic(cfg: &Config, env: &Env, name: Seq<char>)
    requires
        spec_blacklist_contains(cfg, name),
    ensures
        spec_is_static(cfg, env, name) == Statik::No,
{
}

/// Law: when the per-library static-request variable is set and the
/// per-library force variable is not, inference yields the prefer-static
/// policy, whatever the global force-all variables say.
pub proof fn lemma_per_library_static_precedence(env: &Env, name: Seq<char>)
    requires
        env.spec_get(spec_envify(name) + "_STATIC"@) is Some,
        env.spec_get(spec_envify(name) + "_STATIC_FORCE"@) is None,
    ensures
        spec_infer(env, name) == Statik::Yes,
{
}

/// Law: with a target triple set and none of the target-suffixed or
/// host/target-prefixed variants present, a targeted lookup resolves to the
/// plain base variable.
pub proof fn lemma_targetted_plain_fallback(
    env: &Env,
    base: Seq<char>,
    target: Seq<char>,
    host: Seq<char>,
)
    requires
        env.spec_get("TARGET"@) == Some(target),
        env.spec_get("HOST"@) == Some(host),
        env.spec_get(base + "_"@ + target) is None,
        env.spec_get(base + "_"@ + spec_underscore(target)) is None,
        env.spec_get(spec_kind(host, target) + "_"@ + base) is None,
    ensures
        spec_targetted(env, base) == env.spec_get(base),
{
    reveal_with_fuel(spec_chain, 6);
    let cands = spec_targetted_candidates(env, base);
    assert(cands =~= seq![
        base + "_"@ + target,
        base + "_"@ + spec_underscore(target),
        spec_kind(host, target) + "_"@ + base,
        base,
    ]);
    assert(cands.drop_first() =~= seq![
        base + "_"@ + spec_underscore(target),
        spec_kind(host, target) + "_"@ + base,
        base,
    ]);
    assert(cands.drop_first().drop_first() =~= seq![spec_kind(host, target) + "_"@ + base, base]);
    assert(cands.drop_first().drop_first().drop_first() =~= seq![base]);
    match env.spec_get(base) {
        Some(v) => {
            assert(spec_chain(env, cands) == Some(v));
        },
        None => {
            assert(cands.drop_first().drop_first().drop_first().drop_first()
                =~= Seq::<Seq<char>>::empty());
        },
    }
}

/// Law: with a target triple set, the variant suffixed with the full target
/// triple takes precedence over every later candidate, the plain base
/// variable included.
pub proof fn lemma_targetted_target_override(
    env: &Env,
    base: Seq<char>,
    target: Seq<char>,
    host: Seq<char>,
    v: Seq<char>,
)
    requires
        env.spec_get("TARGET"@) == Some(target),
        env.spec_get("HOST"@) == Some(host),
        env.spec_get(base + "_"@ + target) == Some(v),
    ensures
        spec_targetted(env, base) == Some(v),
{
    let cands = spec_targetted_candidates(env, base);
    assert(cands =~= seq![
        base + "_"@ + target,
        base + "_"@ + spec_underscore(target),
        spec_kind(host, target) + "_"@ + base,
        base,
    ]);
}

} // verus!
