//! The structured result of a probe, and the classifier that fills it from
//! the tokenized tool output.

use crate::config::rerun_lines;
use crate::config::spec_is_static;
use crate::config::spec_is_static_attempts;
use crate::config::Config;
use crate::env::Env;
use crate::fs::spec_static_available;
use crate::fs::Fs;
use crate::strutil::spec_contains;
use crate::strutil::spec_has_prefix;
use crate::strutil::spec_trim;
use crate::strutil::str_contains;
use crate::strutil::str_eq;
use crate::strutil::trim_str;
use crate::tokenizer::spec_split_flags;
use crate::tokenizer::split_flags;
use crate::Statik;
use vstd::prelude::*;
use vstd::string::StrSliceExecFns;
use vstd::string::StringExecFns;

verus! {

/// The structured description of how to link against one library.  All
/// sequences keep the order in which the flags were seen.
#[derive(Debug)]
pub struct Library {
    /// Names of the libraries to link.
    pub libs: Vec<String>,
    /// Linker search-path directories.
    pub link_paths: Vec<String>,
    /// Framework names to link.
    pub frameworks: Vec<String>,
    /// Framework search-path directories.
    pub framework_paths: Vec<String>,
    /// Include-path directories.
    pub include_paths: Vec<String>,
    /// Preprocessor defines as `(name, value)` entries; a later entry for
    /// the same name supersedes an earlier one.
    pub defines: Vec<(String, Option<String>)>,
    /// The version string, verbatim as reported.
    pub version: String,
}

/// Tokens long enough to carry a flag and a value, split into the
/// two-character prefix and the remainder.
pub open spec fn spec_parts(toks: Seq<Seq<char>>) -> Seq<(Seq<char>, Seq<char>)>
    decreases toks.len(),
{
    if toks.len() == 0 {
        Seq::empty()
    } else {
        let rest = spec_parts(toks.drop_first());
        if toks[0].len() > 2 {
            seq![(toks[0].subrange(0, 2), toks[0].skip(2))] + rest
        } else {
            rest
        }
    }
}

/// The values of all parts carrying the given two-character flag, in order.
pub open spec fn spec_vals(parts: Seq<(Seq<char>, Seq<char>)>, flag: Seq<char>) -> Seq<Seq<char>>
    decreases parts.len(),
{
    if parts.len() == 0 {
        Seq::empty()
    } else {
        let rest = spec_vals(parts.drop_first(), flag);
        if parts[0].0 == flag {
            seq![parts[0].1] + rest
        } else {
            rest
        }
    }
}

/// A library provided unconditionally by the MSVC runtime, skipped when the
/// target uses that toolchain.
pub open spec fn spec_skip_msvc(is_msvc: bool, v: Seq<char>) -> bool {
    is_msvc && (v == "m"@ || v == "c"@ || v == "pthread"@)
}

/// The library names recorded from `-l` flags, in order, with the MSVC
/// runtime libraries skipped on such targets.
pub open spec fn spec_libs(parts: Seq<(Seq<char>, Seq<char>)>, is_msvc: bool) -> Seq<Seq<char>>
    decreases parts.len(),
{
    if parts.len() == 0 {
        Seq::empty()
    } else {
        let rest = spec_libs(parts.drop_first(), is_msvc);
        if parts[0].0 == "-l"@ && !spec_skip_msvc(is_msvc, parts[0].1) {
            seq![parts[0].1] + rest
        } else {
            rest
        }
    }
}

/// The index of the first `=` in `v`, or `v.len()` when there is none.
pub open spec fn spec_eq_index(v: Seq<char>) -> int
    decreases v.len(),
{
    if v.len() == 0 {
        0
    } else if v[0] == '=' {
        0
    } else {
        1 + spec_eq_index(v.drop_first())
    }
}

/// The define name and optional value carried by a `-D` remainder: the part
/// before the first `=`, and everything after it when one is present.
pub open spec fn spec_define_kv(v: Seq<char>) -> (Seq<char>, Option<Seq<char>>) {
    let i = spec_eq_index(v);
    (v.subrange(0, i), if i < v.len() {
        Some(v.subrange(i + 1, v.len() as int))
    } else {
        None
    })
}

proof fn lemma_eq_index_from_scan(v: Seq<char>, i: int)
    requires
        0 <= i <= v.len(),
        forall|j: int| 0 <= j < i ==> v[j] != '=',
        i < v.len() ==> v[i] == '=',
    ensures
        spec_eq_index(v) == i,
    decreases i,
{
    if i == 0 {
    } else {
        assert(v[0] != '=');
        assert(forall|j: int| 0 <= j < i - 1 ==> v.drop_first()[j] == v[j + 1]);
        lemma_eq_index_from_scan(v.drop_first(), i - 1);
    }
}

proof fn lemma_flag_literals_distinct()
    ensures
        "-L"@ != "-F"@,
        "-L"@ != "-I"@,
        "-L"@ != "-l"@,
        "-L"@ != "-D"@,
        "-F"@ != "-I"@,
        "-F"@ != "-l"@,
        "-F"@ != "-D"@,
        "-I"@ != "-l"@,
        "-I"@ != "-D"@,
        "-l"@ != "-D"@,
{
    reveal_strlit("-L");
    reveal_strlit("-F");
    reveal_strlit("-I");
    reveal_strlit("-l");
    reveal_strlit("-D");
    assert("-L"@[1] == 'L');
    assert("-F"@[1] == 'F');
    assert("-I"@[1] == 'I');
    assert("-l"@[1] == 'l');
    assert("-D"@[1] == 'D');
}

/// The map view of an association list: a later entry for a name supersedes
/// an earlier one.
pub open spec fn spec_assoc_map(d: Seq<(Seq<char>, Option<Seq<char>>)>) -> Map<
    Seq<char>,
    Option<Seq<char>>,
>
    decreases d.len(),
{
    if d.len() == 0 {
        Map::empty()
    } else {
        spec_assoc_map(d.drop_last()).insert(d.last().0, d.last().1)
    }
}

/// The define map after classifying `parts`, starting from `m`.
pub open spec fn spec_defines(parts: Seq<(Seq<char>, Seq<char>)>, m: Map<Seq<char>, Option<Seq<char>>>) -> Map<
    Seq<char>,
    Option<Seq<char>>,
>
    decreases parts.len(),
{
    if parts.len() == 0 {
        m
    } else {
        let m1 = if parts[0].0 == "-D"@ {
            m.insert(spec_define_kv(parts[0].1).0, spec_define_kv(parts[0].1).1)
        } else {
            m
        };
        spec_defines(parts.drop_first(), m1)
    }
}

/// The metadata line registering a native search path.
pub open spec fn spec_native_search_line(v: Seq<char>) -> Seq<char> {
    "rustc-link-search=native="@ + v
}

/// The metadata line registering a framework search path.
pub open spec fn spec_framework_search_line(v: Seq<char>) -> Seq<char> {
    "rustc-link-search=framework="@ + v
}

/// The metadata line linking a framework.
pub open spec fn spec_framework_link_line(v: Seq<char>) -> Seq<char> {
    "rustc-link-lib=framework="@ + v
}

/// Whether the `-l` value is linked statically: the resolved policy demands
/// it (always for force, only with a locatable archive for prefer-static),
/// and the library is not on the given static-exception list.
pub open spec fn spec_statik_applies_for(
    blacklist: Seq<Seq<char>>,
    fs: &Fs,
    statik: Statik,
    v: Seq<char>,
    dirs: Seq<Seq<char>>,
) -> bool {
    (match statik {
        Statik::Force => true,
        Statik::Yes => spec_static_available(v, dirs, fs),
        Statik::No => false,
    }) && !blacklist.contains(v)
}

/// The same, for a configuration's static-exception list.
pub open spec fn spec_statik_applies(
    cfg: &Config,
    fs: &Fs,
    statik: Statik,
    v: Seq<char>,
    dirs: Seq<Seq<char>>,
) -> bool {
    spec_statik_applies_for(cfg.statik_blacklist.deep_view(), fs, statik, v, dirs)
}

/// The metadata line emitted for one `-l` value.
pub open spec fn spec_lib_link_line_for(
    blacklist: Seq<Seq<char>>,
    fs: &Fs,
    statik: Statik,
    v: Seq<char>,
    dirs: Seq<Seq<char>>,
) -> Seq<char> {
    if spec_statik_applies_for(blacklist, fs, statik, v, dirs) {
        "rustc-link-lib=static="@ + v
    } else {
        "rustc-link-lib="@ + v
    }
}

/// The same, for a configuration's static-exception list.
pub open spec fn spec_lib_link_line(
    cfg: &Config,
    fs: &Fs,
    statik: Statik,
    v: Seq<char>,
    dirs: Seq<Seq<char>>,
) -> Seq<char> {
    spec_lib_link_line_for(cfg.statik_blacklist.deep_view(), fs, statik, v, dirs)
}

/// The metadata lines of the prefix pass, in order: `dirs` holds the
/// search-path directories discovered so far, which the static-availability
/// check for later `-l` values consults.
pub open spec fn spec_class_meta_for(
    parts: Seq<(Seq<char>, Seq<char>)>,
    dirs: Seq<Seq<char>>,
    blacklist: Seq<Seq<char>>,
    fs: &Fs,
    statik: Statik,
    is_msvc: bool,
) -> Seq<Seq<char>>
    decreases parts.len(),
{
    if parts.len() == 0 {
        Seq::empty()
    } else {
        let f = parts[0].0;
        let v = parts[0].1;
        if f == "-L"@ {
            seq![spec_native_search_line(v)] + spec_class_meta_for(
                parts.drop_first(),
                dirs.push(v),
                blacklist,
                fs,
                statik,
                is_msvc,
            )
        } else if f == "-F"@ {
            seq![spec_framework_search_line(v)] + spec_class_meta_for(
                parts.drop_first(),
                dirs,
                blacklist,
                fs,
                statik,
                is_msvc,
            )
        } else if f == "-l"@ && !spec_skip_msvc(is_msvc, v) {
            seq![spec_lib_link_line_for(blacklist, fs, statik, v, dirs)] + spec_class_meta_for(
                parts.drop_first(),
                dirs,
                blacklist,
                fs,
                statik,
                is_msvc,
            )
        } else {
            spec_class_meta_for(parts.drop_first(), dirs, blacklist, fs, statik, is_msvc)
        }
    }
}

/// The same, for a configuration's static-exception list.
pub open spec fn spec_class_meta(
    parts: Seq<(Seq<char>, Seq<char>)>,
    dirs: Seq<Seq<char>>,
    cfg: &Config,
    fs: &Fs,
    statik: Statik,
    is_msvc: bool,
) -> Seq<Seq<char>> {
    spec_class_meta_for(parts, dirs, cfg.statik_blacklist.deep_view(), fs, statik, is_msvc)
}

/// One token of the linker-passthrough expansion: the pieces of the
/// remainder of `-Wl,` split at commas, or the token itself.
pub open spec fn commas_step(s: Seq<char>, word: Seq<char>, acc: Seq<Seq<char>>) -> Seq<Seq<char>>
    decreases s.len(),
{
    if s.len() == 0 {
        acc.push(word)
    } else if s[0] == ',' {
        commas_step(s.drop_first(), Seq::empty(), acc.push(word))
    } else {
        commas_step(s.drop_first(), word.push(s[0]), acc)
    }
}

/// The pieces of `s` split at every comma; empty pieces are kept.
pub open spec fn spec_split_commas(s: Seq<char>) -> Seq<Seq<char>> {
    commas_step(s, Seq::empty(), Seq::empty())
}

/// The token stream of the framework pass: any token beginning with `-Wl,`
/// is replaced by its comma-separated pieces.
pub open spec fn spec_expand(toks: Seq<Seq<char>>) -> Seq<Seq<char>>
    decreases toks.len(),
{
    if toks.len() == 0 {
        Seq::empty()
    } else {
        let head = if spec_has_prefix(toks[0], "-Wl,"@) {
            spec_split_commas(toks[0].skip(4))
        } else {
            seq![toks[0]]
        };
        head + spec_expand(toks.drop_first())
    }
}

/// The framework names recognised in the expanded stream: each literal
/// `-framework` token consumes the token after it.
pub open spec fn spec_frameworks(ex: Seq<Seq<char>>) -> Seq<Seq<char>>
    decreases ex.len(),
{
    if ex.len() == 0 {
        Seq::empty()
    } else if ex[0] == "-framework"@ {
        if ex.len() >= 2 {
            seq![ex[1]] + spec_frameworks(ex.skip(2))
        } else {
            Seq::empty()
        }
    } else {
        spec_frameworks(ex.drop_first())
    }
}

/// The metadata lines of the framework pass, in order.
pub open spec fn spec_framework_meta(ex: Seq<Seq<char>>) -> Seq<Seq<char>> {
    spec_frameworks(ex).map_values(|f: Seq<char>| spec_framework_link_line(f))
}

/// The metadata lines actually recorded: all of them when the emission
/// toggle is on, none otherwise.
pub open spec fn meta_emitted(emit: bool, lines: Seq<Seq<char>>) -> Seq<Seq<char>> {
    if emit {
        lines
    } else {
        Seq::empty()
    }
}

/// Whether the target triple names the MSVC toolchain.
pub open spec fn spec_is_msvc(env: &Env) -> bool {
    match env.spec_get("TARGET"@) {
        Some(t) => spec_contains(t, "msvc"@),
        None => false,
    }
}

/// Records one metadata line when the emission toggle asks for it.
fn print_metadata(config: &Config, line: String, log: &mut Vec<String>)
    ensures
        final(log).deep_view() == old(log).deep_view() + meta_emitted(config.cargo_metadata, seq![line@]),
{
    let ghost before = log.deep_view();
    if config.cargo_metadata {
        log.push(line);
        assert(log.deep_view() =~= before + meta_emitted(true, seq![line@]));
    } else {
        assert(log.deep_view() =~= before + meta_emitted(false, seq![line@]));
    }
}

/// Splits `s` at every comma, keeping empty pieces.
fn split_commas(s: &str) -> (r: Vec<String>)
    ensures
        r.deep_view() == spec_split_commas(s@),
{
    let len = s.unicode_len();
    let mut acc: Vec<String> = Vec::new();
    let mut word: String = String::new();
    let mut i: usize = 0;
    assert(s@.subrange(0, len as int) =~= s@);
    assert(acc.deep_view() =~= Seq::<Seq<char>>::empty());
    while i < len
        invariant
            len == s@.len(),
            i <= len,
            spec_split_commas(s@) == commas_step(
                s@.subrange(i as int, len as int),
                word@,
                acc.deep_view(),
            ),
        decreases len - i,
    {
        let c = s.get_char(i);
        let ghost s_i = s@.subrange(i as int, len as int);
        let ghost w0 = word@;
        let ghost a0 = acc.deep_view();
        proof {
            assert(s_i.drop_first() =~= s@.subrange(i as int + 1, len as int));
            assert(s_i[0] == s@[i as int]);
        }
        if c == ',' {
            acc.push(word);
            word = String::new();
            assert(acc.deep_view() =~= a0.push(w0));
        } else {
            crate::strutil::push_char(&mut word, c);
        }
        i = i + 1;
    }
    assert(s@.subrange(len as int, len as int) =~= Seq::<char>::empty());
    let ghost w0 = word@;
    let ghost a0 = acc.deep_view();
    acc.push(word);
    assert(acc.deep_view() =~= a0.push(w0));
    acc
}

impl Library {
    /// An empty descriptor: nothing to link, no paths, no defines, and an
    /// empty version string.
    pub fn new() -> (r: Library)
        ensures
            r.libs.deep_view() == Seq::<Seq<char>>::empty(),
            r.link_paths.deep_view() == Seq::<Seq<char>>::empty(),
            r.frameworks.deep_view() == Seq::<Seq<char>>::empty(),
            r.framework_paths.deep_view() == Seq::<Seq<char>>::empty(),
            r.include_paths.deep_view() == Seq::<Seq<char>>::empty(),
            r.defines.deep_view() == Seq::<(Seq<char>, Option<Seq<char>>)>::empty(),
            r.version@ == Seq::<char>::empty(),
    {
        let r = Library {
            libs: Vec::new(),
            link_paths: Vec::new(),
            include_paths: Vec::new(),
            frameworks: Vec::new(),
            framework_paths: Vec::new(),
            defines: Vec::new(),
            version: String::new(),
        };
        assert(r.libs.deep_view() =~= Seq::<Seq<char>>::empty());
        assert(r.link_paths.deep_view() =~= Seq::<Seq<char>>::empty());
        assert(r.frameworks.deep_view() =~= Seq::<Seq<char>>::empty());
        assert(r.framework_paths.deep_view() =~= Seq::<Seq<char>>::empty());
        assert(r.include_paths.deep_view() =~= Seq::<Seq<char>>::empty());
        assert(r.defines.deep_view() =~= Seq::<(Seq<char>, Option<Seq<char>>)>::empty());
        r
    }

    /// The map view of the recorded preprocessor defines.
    pub open spec fn defines_map(&self) -> Map<Seq<char>, Option<Seq<char>>> {
        spec_assoc_map(self.defines.deep_view())
    }

    /// The recorded value of one define name: `None` when the name was never
    /// seen, `Some(None)` when it was seen without a value.
    pub fn get_define(&self, key: &str) -> (r: Option<Option<String>>)
        ensures
            match r {
                Some(v) => self.defines_map().contains_key(key@) && self.defines_map()[key@]
                    == v.deep_view(),
                None => !self.defines_map().contains_key(key@),
            },
    {
        let n = self.defines.len();
        let mut i: usize = n;
        assert(self.defines.deep_view().subrange(0, n as int) =~= self.defines.deep_view());
        while i > 0
            invariant
                n == self.defines.len(),
                i <= n,
                spec_assoc_map(self.defines.deep_view()).contains_key(key@) == spec_assoc_map(
                    self.defines.deep_view().subrange(0, i as int),
                ).contains_key(key@),
                spec_assoc_map(self.defines.deep_view()).contains_key(key@)
                    ==> spec_assoc_map(self.defines.deep_view())[key@] == spec_assoc_map(
                    self.defines.deep_view().subrange(0, i as int),
                )[key@],
            decreases i,
        {
            let ghost d = self.defines.deep_view().subrange(0, i as int);
            proof {
                assert(d.drop_last() =~= self.defines.deep_view().subrange(0, i as int - 1));
                assert(d.last() == self.defines.deep_view()[i as int - 1]);
                assert(self.defines.deep_view()[i as int - 1].0 == self.defines[i as int - 1].0@);
            }
            if str_eq(self.defines[i - 1].0.as_str(), key) {
                let v = match &self.defines[i - 1].1 {
                    Some(s) => Some(s.clone()),
                    None => None,
                };
                proof {
                    assert(spec_assoc_map(d).contains_key(key@));
                    assert(spec_assoc_map(d)[key@] == d.last().1);
                    assert(self.defines.deep_view()[i as int - 1].1 == self.defines[i as int
                        - 1].1.deep_view());
                }
                return Some(v);
            }
            i = i - 1;
        }
        assert(self.defines.deep_view().subrange(0, 0) =~= Seq::<(
            Seq<char>,
            Option<Seq<char>>,
        )>::empty());
        None
    }

    /// Attaches the version reported by the companion query, trimmed of
    /// surrounding whitespace.
    pub fn parse_modversion(&mut self, output: &str)
        ensures
            final(self).version@ == old(self).version@ + spec_trim(output@),
            final(self).libs == old(self).libs,
            final(self).link_paths == old(self).link_paths,
            final(self).frameworks == old(self).frameworks,
            final(self).framework_paths == old(self).framework_paths,
            final(self).include_paths == old(self).include_paths,
            final(self).defines == old(self).defines,
    {
        let t = trim_str(output);
        self.version.append(t.as_str());
    }

    /// Classifies the tokenized flag output into this descriptor: search
    /// paths, framework paths, include paths, libraries, defines and
    /// frameworks, recording the corresponding metadata lines in `log`.
    pub fn parse_libs_cflags(
        &mut self,
        name: &str,
        output: &str,
        config: &Config,
        env: &Env,
        fs: &Fs,
        log: &mut Vec<String>,
    )
        ensures
            ({
                let toks = spec_split_flags(output@);
                let parts = spec_parts(toks);
                let is_msvc = spec_is_msvc(env);
                let statik = spec_is_static(config, env, name@);
                &&& final(self).libs.deep_view() == old(self).libs.deep_view() + spec_libs(
                    parts,
                    is_msvc,
                )
                &&& final(self).link_paths.deep_view() == old(self).link_paths.deep_view()
                    + spec_vals(parts, "-L"@)
                &&& final(self).framework_paths.deep_view() == old(
                    self,
                ).framework_paths.deep_view() + spec_vals(parts, "-F"@)
                &&& final(self).include_paths.deep_view() == old(self).include_paths.deep_view()
                    + spec_vals(parts, "-I"@)
                &&& final(self).frameworks.deep_view() == old(self).frameworks.deep_view()
                    + spec_frameworks(spec_expand(toks))
                &&& final(self).defines_map() == spec_defines(parts, old(self).defines_map())
                &&& final(self).version == old(self).version
                &&& final(log).deep_view() == old(log).deep_view() + rerun_lines(
                    config.env_metadata,
                    spec_is_static_attempts(config, env, name@),
                ) + meta_emitted(
                    config.cargo_metadata,
                    spec_class_meta(parts, Seq::empty(), config, fs, statik, is_msvc)
                        + spec_framework_meta(spec_expand(toks)),
                )
            }),
    {
        let is_msvc = match env.get("TARGET") {
            Some(t) => str_contains(t.as_str(), "msvc"),
            None => false,
        };
        let words = split_flags(output);
        let statik = config.is_static(env, name, log);
        let ghost toks = spec_split_flags(output@);
        let ghost parts = spec_parts(toks);
        let ghost log1 = log.deep_view();
        let ghost meta_total = spec_class_meta(parts, Seq::empty(), config, fs, statik, is_msvc);

        let mut dirs: Vec<String> = Vec::new();
        let ghost libs0 = self.libs.deep_view();
        let ghost lp0 = self.link_paths.deep_view();
        let ghost fp0 = self.framework_paths.deep_view();
        let ghost ip0 = self.include_paths.deep_view();
        let ghost dm0 = self.defines_map();
        let ghost fw0 = self.frameworks.deep_view();
        let ghost version0 = self.version;
        let ghost mut libs_added: Seq<Seq<char>> = Seq::empty();
        let ghost mut lp_added: Seq<Seq<char>> = Seq::empty();
        let ghost mut fp_added: Seq<Seq<char>> = Seq::empty();
        let ghost mut ip_added: Seq<Seq<char>> = Seq::empty();
        let ghost mut meta_done: Seq<Seq<char>> = Seq::empty();

        let n = words.len();
        let mut i: usize = 0;
        proof {
            assert(dirs.deep_view() =~= Seq::<Seq<char>>::empty());
            assert(toks.skip(0) =~= toks);
            assert(libs0 + libs_added =~= libs0);
            assert(lp0 + lp_added =~= lp0);
            assert(fp0 + fp_added =~= fp0);
            assert(ip0 + ip_added =~= ip0);
            assert(libs_added + spec_libs(parts, is_msvc) =~= spec_libs(parts, is_msvc));
            assert(lp_added + spec_vals(parts, "-L"@) =~= spec_vals(parts, "-L"@));
            assert(fp_added + spec_vals(parts, "-F"@) =~= spec_vals(parts, "-F"@));
            assert(ip_added + spec_vals(parts, "-I"@) =~= spec_vals(parts, "-I"@));
            assert(meta_done + meta_total =~= meta_total);
            assert(log.deep_view() =~= log1 + meta_emitted(config.cargo_metadata, meta_done));
        }
        while i < n
            invariant
                n == words.len(),
                i <= n,
                words.deep_view() == toks,
                parts == spec_parts(toks),
                meta_total == spec_class_meta(parts, Seq::empty(), config, fs, statik, is_msvc),
                is_msvc == spec_is_msvc(env),
                statik == spec_is_static(config, env, name@),
                self.libs.deep_view() == libs0 + libs_added,
                self.link_paths.deep_view() == lp0 + lp_added,
                self.framework_paths.deep_view() == fp0 + fp_added,
                self.include_paths.deep_view() == ip0 + ip_added,
                self.frameworks.deep_view() == fw0,
                self.version == version0,
                dirs.deep_view() == lp_added,
                spec_libs(parts, is_msvc) == libs_added + spec_libs(
                    spec_parts(toks.skip(i as int)),
                    is_msvc,
                ),
                spec_vals(parts, "-L"@) == lp_added + spec_vals(
                    spec_parts(toks.skip(i as int)),
                    "-L"@,
                ),
                spec_vals(parts, "-F"@) == fp_added + spec_vals(
                    spec_parts(toks.skip(i as int)),
                    "-F"@,
                ),
                spec_vals(parts, "-I"@) == ip_added + spec_vals(
                    spec_parts(toks.skip(i as int)),
                    "-I"@,
                ),
                spec_defines(parts, dm0) == spec_defines(
                    spec_parts(toks.skip(i as int)),
                    self.defines_map(),
                ),
                meta_total == meta_done + spec_class_meta(
                    spec_parts(toks.skip(i as int)),
                    dirs.deep_view(),
                    config,
                    fs,
                    statik,
                    is_msvc,
                ),
                log.deep_view() == log1 + meta_emitted(config.cargo_metadata, meta_done),
            decreases n - i,
        {
            let w = &words[i];
            let wlen = w.as_str().unicode_len();
            let ghost tks_i = toks.skip(i as int);
            let ghost tks_i1 = toks.skip(i as int + 1);
            proof {
                assert(tks_i[0] == toks[i as int]);
                assert(toks[i as int] == words.deep_view()[i as int]);
                assert(words.deep_view()[i as int] == w@);
                assert(tks_i.drop_first() =~= tks_i1);
            }
            if wlen > 2 {
                let flag = w.as_str().substring_char(0, 2);
                let val = w.as_str().substring_char(2, wlen);
                let ghost p = (toks[i as int].subrange(0, 2), toks[i as int].skip(2));
                proof {
                    assert(flag@ == p.0);
                    assert(val@ =~= p.1);
                    assert(spec_parts(tks_i) =~= seq![p] + spec_parts(tks_i1));
                    assert((seq![p] + spec_parts(tks_i1)).drop_first() =~= spec_parts(tks_i1));
                }
                let ghost ps = spec_parts(tks_i);
                let ghost ps1 = spec_parts(tks_i1);
                proof {
                    lemma_flag_literals_distinct();
                }
                if str_eq(flag, "-L") {
                    let meta = crate::strutil::concat2("rustc-link-search=native=", val);
                    print_metadata(config, meta, log);
                    let ghost lpv0 = self.link_paths.deep_view();
                    let ghost dirs_b = dirs.deep_view();
                    let ghost md_b = meta_done;
                    let ghost la_b = lp_added;
                    dirs.push(val.to_owned());
                    self.link_paths.push(val.to_owned());
                    proof {
                        let line = spec_native_search_line(p.1);
                        lp_added = la_b.push(p.1);
                        meta_done = md_b.push(line);
                        assert(dirs.deep_view() =~= dirs_b.push(p.1));
                        assert(dirs_b.push(p.1) == lp_added);
                        assert(self.link_paths.deep_view() =~= lpv0.push(p.1));
                        assert(lpv0.push(p.1) =~= lp0 + lp_added);
                        assert(spec_vals(ps, "-L"@) =~= seq![p.1] + spec_vals(ps1, "-L"@));
                        assert(la_b + (seq![p.1] + spec_vals(ps1, "-L"@)) =~= lp_added + spec_vals(
                            ps1,
                            "-L"@,
                        ));
                        assert(spec_vals(ps, "-F"@) =~= spec_vals(ps1, "-F"@));
                        assert(spec_vals(ps, "-I"@) =~= spec_vals(ps1, "-I"@));
                        assert(spec_libs(ps, is_msvc) =~= spec_libs(ps1, is_msvc));
                        assert(spec_defines(ps, self.defines_map()) == spec_defines(
                            ps1,
                            self.defines_map(),
                        ));
                        assert(spec_class_meta(ps, dirs_b, config, fs, statik, is_msvc) =~= seq![
                            line,
                        ] + spec_class_meta(ps1, dirs.deep_view(), config, fs, statik, is_msvc));
                        assert(md_b + (seq![line] + spec_class_meta(
                            ps1,
                            dirs.deep_view(),
                            config,
                            fs,
                            statik,
                            is_msvc,
                        )) =~= meta_done + spec_class_meta(
                            ps1,
                            dirs.deep_view(),
                            config,
                            fs,
                            statik,
                            is_msvc,
                        ));
                        assert(log.deep_view() =~= log1 + meta_emitted(
                            config.cargo_metadata,
                            meta_done,
                        ));
                    }
                } else if str_eq(flag, "-F") {
                    let meta = crate::strutil::concat2("rustc-link-search=framework=", val);
                    print_metadata(config, meta, log);
                    let ghost fpv0 = self.framework_paths.deep_view();
                    let ghost md_b = meta_done;
                    let ghost fa_b = fp_added;
                    self.framework_paths.push(val.to_owned());
                    proof {
                        let line = spec_framework_search_line(p.1);
                        fp_added = fa_b.push(p.1);
                        meta_done = md_b.push(line);
                        assert(self.framework_paths.deep_view() =~= fpv0.push(p.1));
                        assert(fpv0.push(p.1) =~= fp0 + fp_added);
                        assert(spec_vals(ps, "-F"@) =~= seq![p.1] + spec_vals(ps1, "-F"@));
                        assert(fa_b + (seq![p.1] + spec_vals(ps1, "-F"@)) =~= fp_added + spec_vals(
                            ps1,
                            "-F"@,
                        ));
                        assert(spec_vals(ps, "-L"@) =~= spec_vals(ps1, "-L"@));
                        assert(spec_vals(ps, "-I"@) =~= spec_vals(ps1, "-I"@));
                        assert(spec_libs(ps, is_msvc) =~= spec_libs(ps1, is_msvc));
                        assert(spec_defines(ps, self.defines_map()) == spec_defines(
                            ps1,
                            self.defines_map(),
                        ));
                        assert(spec_class_meta(ps, dirs.deep_view(), config, fs, statik, is_msvc)
                            =~= seq![line] + spec_class_meta(
                            ps1,
                            dirs.deep_view(),
                            config,
                            fs,
                            statik,
                            is_msvc,
                        ));
                        assert(md_b + (seq![line] + spec_class_meta(
                            ps1,
                            dirs.deep_view(),
                            config,
                            fs,
                            statik,
                            is_msvc,
                        )) =~= meta_done + spec_class_meta(
                            ps1,
                            dirs.deep_view(),
                            config,
                            fs,
                            statik,
                            is_msvc,
                        ));
                        assert(log.deep_view() =~= log1 + meta_emitted(
                            config.cargo_metadata,
                            meta_done,
                        ));
                    }
                } else if str_eq(flag, "-I") {
                    let ghost ipv0 = self.include_paths.deep_view();
                    let ghost ia_b = ip_added;
                    self.include_paths.push(val.to_owned());
                    proof {
                        ip_added = ia_b.push(p.1);
                        assert(self.include_paths.deep_view() =~= ipv0.push(p.1));
                        assert(ipv0.push(p.1) =~= ip0 + ip_added);
                        assert(spec_vals(ps, "-I"@) =~= seq![p.1] + spec_vals(ps1, "-I"@));
                        assert(ia_b + (seq![p.1] + spec_vals(ps1, "-I"@)) =~= ip_added
                            + spec_vals(ps1, "-I"@));
                        assert(spec_vals(ps, "-L"@) =~= spec_vals(ps1, "-L"@));
                        assert(spec_vals(ps, "-F"@) =~= spec_vals(ps1, "-F"@));
                        assert(spec_libs(ps, is_msvc) =~= spec_libs(ps1, is_msvc));
                        assert(spec_defines(ps, self.defines_map()) == spec_defines(
                            ps1,
                            self.defines_map(),
                        ));
                        assert(spec_class_meta(ps, dirs.deep_view(), config, fs, statik, is_msvc)
                            =~= spec_class_meta(ps1, dirs.deep_view(), config, fs, statik, is_msvc));
                    }
                } else if str_eq(flag, "-l") {
                    let skip_it = is_msvc && (str_eq(val, "m") || str_eq(val, "c") || str_eq(
                        val,
                        "pthread",
                    ));
                    if skip_it {
                        proof {
                            assert(spec_skip_msvc(is_msvc, p.1));
                            assert(spec_vals(ps, "-L"@) =~= spec_vals(ps1, "-L"@));
                            assert(spec_vals(ps, "-F"@) =~= spec_vals(ps1, "-F"@));
                            assert(spec_vals(ps, "-I"@) =~= spec_vals(ps1, "-I"@));
                            assert(spec_libs(ps, is_msvc) =~= spec_libs(ps1, is_msvc));
                            assert(spec_defines(ps, self.defines_map()) == spec_defines(
                                ps1,
                                self.defines_map(),
                            ));
                            assert(spec_class_meta(ps, dirs.deep_view(), config, fs, statik, is_msvc)
                                =~= spec_class_meta(
                                ps1,
                                dirs.deep_view(),
                                config,
                                fs,
                                statik,
                                is_msvc,
                            ));
                        }
                    } else {
                        let lnk_static = (match statik {
                            Statik::Force => true,
                            Statik::Yes => crate::fs::is_static_available(val, &dirs, fs),
                            Statik::No => false,
                        }) && !config.statik_blacklist_contains(val);
                        proof {
                            assert(lnk_static == spec_statik_applies(
                                config,
                                fs,
                                statik,
                                p.1,
                                dirs.deep_view(),
                            ));
                        }
                        let meta = if lnk_static {
                            crate::strutil::concat2("rustc-link-lib=static=", val)
                        } else {
                            crate::strutil::concat2("rustc-link-lib=", val)
                        };
                        proof {
                            assert(meta@ == spec_lib_link_line(
                                config,
                                fs,
                                statik,
                                p.1,
                                dirs.deep_view(),
                            ));
                        }
                        print_metadata(config, meta, log);
                        let ghost lbv0 = self.libs.deep_view();
                        let ghost md_b = meta_done;
                        let ghost lb_b = libs_added;
                        self.libs.push(val.to_owned());
                        proof {
                            let line = spec_lib_link_line(config, fs, statik, p.1, dirs.deep_view());
                            libs_added = lb_b.push(p.1);
                            meta_done = md_b.push(line);
                            assert(self.libs.deep_view() =~= lbv0.push(p.1));
                            assert(lbv0.push(p.1) =~= libs0 + libs_added);
                            assert(spec_libs(ps, is_msvc) =~= seq![p.1] + spec_libs(ps1, is_msvc));
                            assert(lb_b + (seq![p.1] + spec_libs(ps1, is_msvc)) =~= libs_added
                                + spec_libs(ps1, is_msvc));
                            assert(spec_vals(ps, "-L"@) =~= spec_vals(ps1, "-L"@));
                            assert(spec_vals(ps, "-F"@) =~= spec_vals(ps1, "-F"@));
                            assert(spec_vals(ps, "-I"@) =~= spec_vals(ps1, "-I"@));
                            assert(spec_defines(ps, self.defines_map()) == spec_defines(
                                ps1,
                                self.defines_map(),
                            ));
                            assert(spec_class_meta(ps, dirs.deep_view(), config, fs, statik, is_msvc)
                                =~= seq![line] + spec_class_meta(
                                ps1,
                                dirs.deep_view(),
                                config,
                                fs,
                                statik,
                                is_msvc,
                            ));
                            assert(md_b + (seq![line] + spec_class_meta(
                                ps1,
                                dirs.deep_view(),
                                config,
                                fs,
                                statik,
                                is_msvc,
                            )) =~= meta_done + spec_class_meta(
                                ps1,
                                dirs.deep_view(),
                                config,
                                fs,
                                statik,
                                is_msvc,
                            ));
                            assert(log.deep_view() =~= log1 + meta_emitted(
                                config.cargo_metadata,
                                meta_done,
                            ));
                        }
                    }
                } else if str_eq(flag, "-D") {
                    let vlen = val.unicode_len();
                    let mut eq: usize = 0;
                    while eq < vlen && val.get_char(eq) != '='
                        invariant
                            vlen == val@.len(),
                            eq <= vlen,
                            forall|j: int| 0 <= j < eq ==> val@[j] != '=',
                        decreases vlen - eq,
                    {
                        eq = eq + 1;
                    }
                    proof {
                        lemma_eq_index_from_scan(val@, eq as int);
                    }
                    let k = val.substring_char(0, eq);
                    let v: Option<String> = if eq < vlen {
                        Some(val.substring_char(eq + 1, vlen).to_owned())
                    } else {
                        None
                    };
                    let ghost dm_before = self.defines_map();
                    let ghost dv_before = self.defines.deep_view();
                    let ghost vv = v.deep_view();
                    self.defines.push((k.to_owned(), v));
                    proof {
                        let kv = spec_define_kv(p.1);
                        assert(self.defines.deep_view() =~= dv_before.push((k@, vv)));
                        assert(self.defines.deep_view().drop_last() =~= dv_before);
                        assert(k@ == kv.0);
                        assert(vv == kv.1);
                        assert(self.defines_map() == dm_before.insert(kv.0, kv.1));
                        assert(spec_defines(ps, dm_before) == spec_defines(
                            ps1,
                            dm_before.insert(kv.0, kv.1),
                        ));
                        assert(spec_vals(ps, "-L"@) =~= spec_vals(ps1, "-L"@));
                        assert(spec_vals(ps, "-F"@) =~= spec_vals(ps1, "-F"@));
                        assert(spec_vals(ps, "-I"@) =~= spec_vals(ps1, "-I"@));
                        assert(spec_libs(ps, is_msvc) =~= spec_libs(ps1, is_msvc));
                        assert(spec_class_meta(ps, dirs.deep_view(), config, fs, statik, is_msvc)
                            =~= spec_class_meta(ps1, dirs.deep_view(), config, fs, statik, is_msvc));
                    }
                } else {
                    proof {
                        assert(spec_vals(ps, "-L"@) =~= spec_vals(ps1, "-L"@));
                        assert(spec_vals(ps, "-F"@) =~= spec_vals(ps1, "-F"@));
                        assert(spec_vals(ps, "-I"@) =~= spec_vals(ps1, "-I"@));
                        assert(spec_libs(ps, is_msvc) =~= spec_libs(ps1, is_msvc));
                        assert(spec_defines(ps, self.defines_map()) == spec_defines(
                            ps1,
                            self.defines_map(),
                        ));
                        assert(spec_class_meta(ps, dirs.deep_view(), config, fs, statik, is_msvc)
                            =~= spec_class_meta(ps1, dirs.deep_view(), config, fs, statik, is_msvc));
                    }
                }
            } else {
                proof {
                    assert(spec_parts(tks_i) =~= spec_parts(tks_i1));
                }
            }
            i = i + 1;
        }
        proof {
            assert(toks.skip(n as int) =~= Seq::<Seq<char>>::empty());
            assert(spec_parts(toks.skip(n as int)) =~= Seq::<(Seq<char>, Seq<char>)>::empty());
            assert(libs_added + Seq::<Seq<char>>::empty() =~= libs_added);
            assert(lp_added + Seq::<Seq<char>>::empty() =~= lp_added);
            assert(fp_added + Seq::<Seq<char>>::empty() =~= fp_added);
            assert(ip_added + Seq::<Seq<char>>::empty() =~= ip_added);
            assert(meta_done + Seq::<Seq<char>>::empty() =~= meta_done);
            assert(meta_total == meta_done);
        }

        // framework pass: expand linker-passthrough tokens, then scan for
        // `-framework` directives
        let ghost log2 = log.deep_view();
        let mut expanded: Vec<String> = Vec::new();
        let mut j: usize = 0;
        proof {
            assert(expanded.deep_view() =~= Seq::<Seq<char>>::empty());
            assert(toks.skip(0) =~= toks);
            assert(expanded.deep_view() + spec_expand(toks) =~= spec_expand(toks));
        }
        while j < n
            invariant
                n == words.len(),
                j <= n,
                words.deep_view() == toks,
                spec_expand(toks) == expanded.deep_view() + spec_expand(toks.skip(j as int)),
            decreases n - j,
        {
            let w = &words[j];
            let wlen = w.as_str().unicode_len();
            let ghost tks_j = toks.skip(j as int);
            let ghost tks_j1 = toks.skip(j as int + 1);
            let ghost e0 = expanded.deep_view();
            proof {
                assert(tks_j[0] == toks[j as int]);
                assert(toks[j as int] == w@);
                assert(tks_j.drop_first() =~= tks_j1);
            }
            if crate::strutil::has_prefix(w.as_str(), "-Wl,") {
                proof {
                    reveal_strlit("-Wl,");
                }
                let restw = w.as_str().substring_char(4, wlen);
                proof {
                    assert(restw@ =~= w@.skip(4));
                }
                let mut pieces = split_commas(restw);
                let ghost pv = pieces.deep_view();
                expanded.append(&mut pieces);
                proof {
                    assert(expanded.deep_view() =~= e0 + pv);
                    assert(spec_expand(tks_j) == pv + spec_expand(tks_j1));
                    assert((e0 + pv) + spec_expand(tks_j1) =~= e0 + (pv + spec_expand(tks_j1)));
                }
            } else {
                expanded.push(words[j].clone());
                proof {
                    assert(!spec_has_prefix(w@, "-Wl,"@));
                    assert(expanded.deep_view() =~= e0.push(w@));
                    assert(spec_expand(tks_j) == seq![w@] + spec_expand(tks_j1));
                    assert(e0.push(w@) + spec_expand(tks_j1) =~= e0 + (seq![w@] + spec_expand(
                        tks_j1,
                    )));
                }
            }
            j = j + 1;
        }
        proof {
            assert(toks.skip(n as int) =~= Seq::<Seq<char>>::empty());
            assert(spec_expand(toks.skip(n as int)) =~= Seq::<Seq<char>>::empty());
            assert(expanded.deep_view() + Seq::<Seq<char>>::empty() =~= expanded.deep_view());
        }
        let ghost ex = expanded.deep_view();
        let ghost mut fw_added: Seq<Seq<char>> = Seq::empty();
        let m = expanded.len();
        let mut k: usize = 0;
        proof {
            assert(ex.skip(0) =~= ex);
            assert(fw_added + spec_frameworks(ex) =~= spec_frameworks(ex));
            assert(fw0 + fw_added =~= fw0);
            assert(fw_added.map_values(|f: Seq<char>| spec_framework_link_line(f))
                =~= Seq::<Seq<char>>::empty());
            assert(log.deep_view() =~= log2 + meta_emitted(
                config.cargo_metadata,
                fw_added.map_values(|f: Seq<char>| spec_framework_link_line(f)),
            ));
        }
        while k < m
            invariant
                m == expanded.len(),
                k <= m,
                expanded.deep_view() == ex,
                self.frameworks.deep_view() == fw0 + fw_added,
                spec_frameworks(ex) == fw_added + spec_frameworks(ex.skip(k as int)),
                log.deep_view() == log2 + meta_emitted(
                    config.cargo_metadata,
                    fw_added.map_values(|f: Seq<char>| spec_framework_link_line(f)),
                ),
                self.libs.deep_view() == libs0 + libs_added,
                self.link_paths.deep_view() == lp0 + lp_added,
                self.framework_paths.deep_view() == fp0 + fp_added,
                self.include_paths.deep_view() == ip0 + ip_added,
                self.version == version0,
                spec_defines(parts, dm0) == self.defines_map(),
            decreases m - k,
        {
            let ghost ex_k = ex.skip(k as int);
            proof {
                assert(ex_k[0] == ex[k as int]);
                assert(ex[k as int] == expanded.deep_view()[k as int]);
                assert(ex_k.drop_first() =~= ex.skip(k as int + 1));
            }
            if str_eq(expanded[k].as_str(), "-framework") {
                if k + 1 < m {
                    let lib = expanded[k + 1].clone();
                    let meta = crate::strutil::concat2("rustc-link-lib=framework=", lib.as_str());
                    print_metadata(config, meta, log);
                    let ghost fwv0 = self.frameworks.deep_view();
                    let ghost fa_b = fw_added;
                    self.frameworks.push(lib);
                    proof {
                        let f = ex[k as int + 1];
                        assert(ex_k.len() >= 2);
                        assert(ex_k[1] == f);
                        assert(ex_k.skip(2) =~= ex.skip(k as int + 2));
                        fw_added = fa_b.push(f);
                        assert(self.frameworks.deep_view() =~= fwv0.push(f));
                        assert(fwv0.push(f) =~= fw0 + fw_added);
                        assert(spec_frameworks(ex_k) == seq![f] + spec_frameworks(
                            ex.skip(k as int + 2),
                        ));
                        assert(fa_b + (seq![f] + spec_frameworks(ex.skip(k as int + 2)))
                            =~= fw_added + spec_frameworks(ex.skip(k as int + 2)));
                        assert(fw_added.map_values(|g: Seq<char>| spec_framework_link_line(g))
                            =~= fa_b.map_values(|g: Seq<char>| spec_framework_link_line(g)).push(
                            spec_framework_link_line(f),
                        ));
                        assert(log.deep_view() =~= log2 + meta_emitted(
                            config.cargo_metadata,
                            fw_added.map_values(|g: Seq<char>| spec_framework_link_line(g)),
                        ));
                    }
                    k = k + 2;
                } else {
                    proof {
                        assert(ex_k.len() == 1);
                        assert(spec_frameworks(ex_k) =~= Seq::<Seq<char>>::empty());
                        assert(ex.skip(k as int + 1) =~= Seq::<Seq<char>>::empty());
                        assert(spec_frameworks(ex.skip(k as int + 1)) =~= Seq::<Seq<char>>::empty());
                    }
                    k = k + 1;
                }
            } else {
                proof {
                    assert(spec_frameworks(ex_k) == spec_frameworks(ex.skip(k as int + 1)));
                }
                k = k + 1;
            }
        }
        proof {
            assert(ex.skip(m as int) =~= Seq::<Seq<char>>::empty());
            assert(spec_frameworks(ex.skip(m as int)) =~= Seq::<Seq<char>>::empty());
            assert(fw_added + Seq::<Seq<char>>::empty() =~= fw_added);
            assert(spec_frameworks(ex) == fw_added);
            assert(spec_defines(spec_parts(toks.skip(n as int)), self.defines_map())
                == self.defines_map());
            assert(spec_framework_meta(spec_expand(toks)) == fw_added.map_values(
                |f: Seq<char>| spec_framework_link_line(f),
            ));
            assert(log.deep_view() =~= old(log).deep_view() + rerun_lines(
                config.env_metadata,
                spec_is_static_attempts(config, env, name@),
            ) + meta_emitted(
                config.cargo_metadata,
                spec_class_meta(parts, Seq::empty(), config, fs, statik, is_msvc)
                    + spec_framework_meta(spec_expand(toks)),
            ));
        }
    }
}


} // verus!
