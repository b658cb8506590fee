//! The orchestrator: the manifests found, the host target, and the one-shot
//! request to watch the host's manifest.
use vstd::prelude::*;
use crate::discovery::BuildInfoSet;
use crate::env::{ps1_script, sh_script};
use crate::error::ConanError;
use crate::keyed::lookup;
use crate::manifest::{cxx_name, BuildInfo, BuildInfoView};
use crate::resolve::{
    first_missing, lib_directive, request_directives, resolve, resolve_optional, Applyable,
};
use crate::text::{str_equal, strs_view};

verus! {

/// Whether the line that watches the host's manifest has been handed out.
#[derive(Debug, Clone, Copy, PartialEq, Eq, Structural)]
pub enum RerunState {
    NotTriggered,
    Triggered,
}

/// The manifests found, the host target, and whether the host's manifest is
/// watched yet.
pub struct Conan {
    build_info_set: BuildInfoSet,
    host: String,
    rerun: RerunState,
}

pub struct ConanView {
    pub targets: Seq<(Seq<char>, BuildInfoView)>,
    pub host: Seq<char>,
    pub rerun: RerunState,
}

impl View for Conan {
    type V = ConanView;

    closed spec fn view(&self) -> ConanView {
        ConanView { targets: self.build_info_set@, host: self.host@, rerun: self.rerun }
    }
}

/// The build-pipeline line that watches a file.
pub open spec fn rerun_directive(path: Seq<char>) -> Seq<char> {
    "cargo:rerun-if-changed="@ + path
}

/// The manifest of the host target.
pub open spec fn host_info(c: ConanView) -> Option<BuildInfoView> {
    lookup(c.targets, c.host)
}

/// The lines that watch the host's manifest `b`: one the first time, none after.
pub open spec fn rerun_lines(c: ConanView, b: BuildInfoView) -> Seq<Seq<char>> {
    if c.rerun == RerunState::Triggered {
        Seq::empty()
    } else {
        seq![rerun_directive(b.path)]
    }
}

pub open spec fn triggered(c: ConanView) -> ConanView {
    ConanView { rerun: RerunState::Triggered, ..c }
}

/// The error for a host target without a manifest: the host, and the targets found.
pub open spec fn no_build_info(c: ConanView, e: ConanError) -> bool {
    e matches ConanError::NoBuildInfo { host, available } && host@ == c.host && strs_view(available@)
        == c.targets.map_values(|p: (Seq<char>, BuildInfoView)| p.0)
}

/// Both scripts of every target, in order; a target is the host where its triple
/// is `host`.
pub open spec fn env_scripts(targets: Seq<(Seq<char>, BuildInfoView)>, host: Seq<char>) -> (Seq<char>, Seq<char>)
    decreases targets.len(),
{
    if targets.len() == 0 {
        (Seq::empty(), Seq::empty())
    } else {
        let prev = env_scripts(targets.drop_last(), host);
        let (t, m) = targets.last();
        (prev.0 + sh_script(m, t, t == host), prev.1 + ps1_script(m, t, t == host))
    }
}

/// The name of the option that says whether a package is built shared.
pub open spec fn shared_option(package: Seq<char>) -> Seq<char> {
    package + ":shared"@
}

/// The value of the first option of this name.
pub open spec fn option_value(options: Seq<(Seq<char>, Seq<char>)>, key: Seq<char>) -> Option<Seq<char>>
    decreases options.len(),
{
    if options.len() == 0 {
        None
    } else if options[0].0 == key {
        Some(options[0].1)
    } else {
        option_value(options.drop_first(), key)
    }
}

/// The boolean that a lower-case word spells.
pub open spec fn bool_of(s: Seq<char>) -> Option<bool> {
    if s == "true"@ {
        Some(true)
    } else if s == "false"@ {
        Some(false)
    } else {
        None
    }
}

/// The lower-case form of a string, as Unicode defines it.
pub uninterp spec fn lower_of(s: Seq<char>) -> Seq<char>;

/// Relies on str::to_lowercase: the lower-case form depends on the characters alone.
#[verifier::external_body]
fn lowercase(s: &str) -> (r: String)
    ensures
        r@ == lower_of(s@),
{
    s.to_lowercase()
}

/// The boolean that a lower-case option value spells: `true` or `false`.
pub fn parse_bool_flag(lowered: &str) -> (r: Option<bool>)
    ensures
        r == bool_of(lowered@),
{
    if str_equal(lowered, "true") {
        Some(true)
    } else if str_equal(lowered, "false") {
        Some(false)
    } else {
        None
    }
}

fn option_lookup<'a>(options: &'a Vec<(String, String)>, key: &String) -> (r: Option<&'a String>)
    ensures
        r is None <==> option_value(options@.map_values(|p: (String, String)| (p.0@, p.1@)), key@) is None,
        r matches Some(v) ==> option_value(options@.map_values(|p: (String, String)| (p.0@, p.1@)), key@)
            == Some(v@),
{
    let ghost os = options@.map_values(|p: (String, String)| (p.0@, p.1@));
    let mut i: usize = 0;
    assert(os.subrange(0, os.len() as int) =~= os);
    while i < options.len()
        invariant
            i <= options@.len(),
            os == options@.map_values(|p: (String, String)| (p.0@, p.1@)),
            option_value(os, key@) == option_value(os.subrange(i as int, os.len() as int), key@),
        decreases options@.len() - i,
    {
        assert(os.subrange(i as int, os.len() as int).drop_first() =~= os.subrange(i + 1, os.len() as int));
        assert(os.subrange(i as int, os.len() as int)[0] == os[i as int]);
        if options[i].0 == *key {
            return Some(&options[i].1);
        }
        i = i + 1;
    }
    None
}

impl Conan {
    /// The orchestrator for the host target named by `target_var` (the build
    /// pipeline's `TARGET` variable), which must be set.
    pub fn new(target_var: Option<String>, build_info_set: BuildInfoSet) -> (r: Result<Conan, ConanError>)
        ensures
            r is Ok <==> target_var is Some,
            r matches Ok(c) ==> c@ == (ConanView {
                targets: build_info_set@,
                host: target_var->Some_0@,
                rerun: RerunState::NotTriggered,
            }),
            r matches Err(e) ==> e == ConanError::MissingTarget,
    {
        match target_var {
            Some(host) => Ok(Self::with_host(host, build_info_set)),
            None => Err(ConanError::MissingTarget),
        }
    }

    /// The orchestrator for the host target `host`.
    pub fn with_host(host: String, build_info_set: BuildInfoSet) -> (r: Conan)
        ensures
            r@ == (ConanView { targets: build_info_set@, host: host@, rerun: RerunState::NotTriggered }),
    {
        Conan { build_info_set, host, rerun: RerunState::NotTriggered }
    }

    /// The manifests found.
    pub fn build_info_set(&self) -> (r: &BuildInfoSet)
        ensures
            r@ == self@.targets,
    {
        &self.build_info_set
    }

    /// The manifest of the host target; an error, naming the targets found, where
    /// there is none.
    pub fn build_info(&self) -> (r: Result<&BuildInfo, ConanError>)
        ensures
            r is Ok <==> host_info(self@) is Some,
            r matches Ok(b) ==> host_info(self@) == Some(b@),
            r matches Err(e) ==> no_build_info(self@, e),
    {
        match self.build_info_set.get_current_target(self.host.as_str()) {
            Some(b) => Ok(b),
            None => Err(
                ConanError::NoBuildInfo { host: self.host.clone(), available: self.build_info_set.targets() },
            ),
        }
    }

    /// The line that watches the host's manifest, the first time only.
    pub fn mark_rerun_if_changed(&mut self) -> (r: Result<Vec<String>, ConanError>)
        ensures
            old(self)@.rerun == RerunState::Triggered ==> (r matches Ok(v) && v@.len() == 0),
            old(self)@.rerun == RerunState::Triggered ==> final(self)@ == old(self)@,
            old(self)@.rerun == RerunState::NotTriggered ==> match host_info(old(self)@) {
                Some(b) => (r matches Ok(v) && strs_view(v@) == seq![rerun_directive(b.path)]) && final(self)@
                    == triggered(old(self)@),
                None => (r matches Err(e) && no_build_info(old(self)@, e)) && final(self)@ == old(self)@,
            },
    {
        if self.rerun == RerunState::Triggered {
            return Ok(Vec::new());
        }
        let mut line = "cargo:rerun-if-changed=".to_owned();
        {
            let b = self.build_info()?;
            line.append(b.path().as_str());
        }
        self.rerun = RerunState::Triggered;
        let mut out: Vec<String> = Vec::new();
        out.push(line);
        assert(strs_view(out@) =~= seq![line@]);
        Ok(out)
    }

    /// The lines that link the named packages of the host's manifest, after the
    /// line that watches it (the first time); an error where there is no host
    /// manifest or it lacks a package, and then nothing changes.
    pub fn depends_on(&mut self, packages: &Vec<String>) -> (r: Result<Vec<String>, ConanError>)
        ensures
            match host_info(old(self)@) {
                None => (r matches Err(e) && no_build_info(old(self)@, e)) && final(self)@ == old(self)@,
                Some(b) => match resolve(b, strs_view(packages@)) {
                    None => (r matches Err(e) && (e matches ConanError::MissingDependency(n) && first_missing(
                        b,
                        strs_view(packages@),
                    ) == Some(n@))) && final(self)@ == old(self)@,
                    Some(d) => (r matches Ok(v) && strs_view(v@) == rerun_lines(old(self)@, b)
                        + request_directives(d)) && final(self)@ == triggered(old(self)@),
                },
            },
    {
        let request = {
            let info = self.build_info()?;
            info.get_depends_on(packages)?
        };
        let more = request.apply();
        let mut lines = self.mark_rerun_if_changed()?;
        append_lines(&mut lines, more);
        Ok(lines)
    }

    /// The lines that link those of the named packages that the host's manifest
    /// declares, after the line that watches it (the first time).
    pub fn depends_on_optional(&mut self, packages: &Vec<String>) -> (r: Result<Vec<String>, ConanError>)
        ensures
            match host_info(old(self)@) {
                None => (r matches Err(e) && no_build_info(old(self)@, e)) && final(self)@ == old(self)@,
                Some(b) => (r matches Ok(v) && strs_view(v@) == rerun_lines(old(self)@, b) + request_directives(
                    resolve_optional(b, strs_view(packages@)),
                )) && final(self)@ == triggered(old(self)@),
            },
    {
        let request = {
            let info = self.build_info()?;
            info.get_depends_on_optional(packages)
        };
        let more = request.apply();
        let mut lines = self.mark_rerun_if_changed()?;
        append_lines(&mut lines, more);
        Ok(lines)
    }

    /// The line that links the C++ standard library of the host's manifest, shared,
    /// if its settings name one, after the line that watches it (the first time).
    pub fn depends_on_libcxx(&mut self) -> (r: Result<Vec<String>, ConanError>)
        ensures
            match host_info(old(self)@) {
                None => (r matches Err(e) && no_build_info(old(self)@, e)) && final(self)@ == old(self)@,
                Some(b) => (r matches Ok(v) && strs_view(v@) == rerun_lines(old(self)@, b) + match cxx_name(
                    b.settings.libcxx,
                ) {
                    Some(n) => seq![lib_directive((n, false))],
                    None => Seq::empty(),
                }) && final(self)@ == triggered(old(self)@),
            },
    {
        let cxx = {
            let info = self.build_info()?;
            info.libcxx()
        };
        let more = match cxx {
            Some(lib) => lib.apply(),
            None => Vec::new(),
        };
        let mut lines = self.mark_rerun_if_changed()?;
        append_lines(&mut lines, more);
        Ok(lines)
    }

    /// The environment scripts of every target found, for POSIX shells and for
    /// PowerShell, one target after another.
    pub fn generate_env_source(&self) -> (r: (String, String))
        ensures
            (r.0@, r.1@) == env_scripts(self@.targets, self@.host),
    {
        let set = &self.build_info_set;
        set.keys_are_targets();
        let targets = set.all_targets(self.host.as_str());
        let ghost ts = set@;
        let mut sh = String::new();
        let mut ps1 = String::new();
        let mut i: usize = 0;
        assert(ts.subrange(0, 0) =~= Seq::<(Seq<char>, BuildInfoView)>::empty());
        while i < targets.len()
            invariant
                i <= targets@.len(),
                ts == set@,
                ts == self@.targets,
                targets@.len() == ts.len(),
                forall|k: int|
                    0 <= k < targets@.len() ==> (#[trigger] targets@[k]).0 == (ts[k].0 == self@.host)
                        && targets@[k].1@ == ts[k].1,
                forall|k: int| 0 <= k < ts.len() ==> crate::manifest::target_of((#[trigger] ts[k]).1.settings) == Some(ts[k].0),
                (sh@, ps1@) == env_scripts(ts.subrange(0, i as int), self@.host),
            decreases targets@.len() - i,
        {
            let (is_host, info) = targets[i];
            assert(ts.subrange(0, i + 1).drop_last() =~= ts.subrange(0, i as int));
            assert(ts.subrange(0, i + 1).last() == ts[i as int]);
            match info.write_env_source(is_host) {
                Ok((a, b)) => {
                    sh.append(a.as_str());
                    ps1.append(b.as_str());
                },
                Err(_) => {
                    assert(crate::manifest::target_of(ts[i as int].1.settings) is Some);
                },
            }
            i = i + 1;
        }
        assert(ts.subrange(0, ts.len() as int) =~= ts);
        (sh, ps1)
    }

    /// Whether the options say that `package` is built shared: the value of the
    /// first option named `<package>:shared`, which, in lower case, must be `true`
    /// or `false`; `None` where there is no such option.
    pub fn package_is_shared(options: &Vec<(String, String)>, package: &str) -> (r: Result<Option<bool>, ConanError>)
        ensures
            match option_value(options@.map_values(|p: (String, String)| (p.0@, p.1@)), shared_option(package@)) {
                None => r matches Ok(None),
                Some(v) => match bool_of(lower_of(v)) {
                    Some(b) => (r matches Ok(Some(x)) && x == b),
                    None => (r matches Err(ConanError::InvalidOption { key, value }) && key@ == shared_option(
                        package@,
                    ) && value@ == v),
                },
            },
    {
        let mut key = package.to_owned();
        key.append(":shared");
        match option_lookup(options, &key) {
            None => Ok(None),
            Some(v) => {
                let lowered = lowercase(v.as_str());
                match parse_bool_flag(lowered.as_str()) {
                    Some(b) => Ok(Some(b)),
                    None => Err(ConanError::InvalidOption { key, value: v.clone() }),
                }
            },
        }
    }
}

fn append_lines(lines: &mut Vec<String>, more: Vec<String>)
    ensures
        strs_view(final(lines)@) == strs_view(old(lines)@) + strs_view(more@),
{
    let mut more = more;
    let ghost a = lines@;
    let ghost b = more@;
    lines.append(&mut more);
    assert(strs_view(lines@) =~= strs_view(a) + strs_view(b));
}

} // verus!
