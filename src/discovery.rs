//! Finding manifests: the paths at which one may stand, and the set of manifests
//! found, keyed by target triple.
use vstd::prelude::*;
use crate::error::ConanError;
use crate::keyed::{
    get_vec, index_all, keys_unique, lemma_index_all, lemma_last_value_at, lookup, pairs_view,
    upsert, upsert_vec,
};
use crate::manifest::{target_error, target_of, BuildInfo, BuildInfoView};
use crate::text::{ends_with, has_suffix, join_path, join_path_str, str_equal, strs_view};

verus! {

/// The file name of a manifest.
pub open spec fn manifest_file() -> Seq<char> {
    "conanbuildinfo.json"@
}

/// A directory, and the paths of the entries that it holds, in listing order.
pub struct DirChildren {
    pub dir: String,
    pub children: Vec<String>,
}

impl View for DirChildren {
    type V = (Seq<char>, Seq<Seq<char>>);

    open spec fn view(&self) -> (Seq<char>, Seq<Seq<char>>) {
        (self.dir@, strs_view(self.children@))
    }
}

/// Where a manifest may stand for one directory: inside each of its entries, then
/// inside the directory itself.
pub open spec fn dir_candidates(d: (Seq<char>, Seq<Seq<char>>)) -> Seq<Seq<char>> {
    d.1.map_values(|c: Seq<char>| join_path(c, manifest_file())).push(join_path(d.0, manifest_file()))
}

/// The candidates of directories listed innermost first, taken outermost first.
pub open spec fn fs_candidates(dirs: Seq<(Seq<char>, Seq<Seq<char>>)>) -> Seq<Seq<char>>
    decreases dirs.len(),
{
    if dirs.len() == 0 {
        Seq::empty()
    } else {
        fs_candidates(dirs.drop_first()) + dir_candidates(dirs[0])
    }
}

/// Whether an environment variable names a manifest: `CONANBUILDINFO`, or a name
/// that ends in `_CONANBUILDINFO`.
pub open spec fn is_manifest_var(name: Seq<char>) -> bool {
    name == "CONANBUILDINFO"@ || has_suffix(name, "_CONANBUILDINFO"@)
}

/// The values of the variables that name manifests, in order.
pub open spec fn env_candidates(vars: Seq<(Seq<char>, Seq<char>)>) -> Seq<Seq<char>>
    decreases vars.len(),
{
    if vars.len() == 0 {
        Seq::empty()
    } else {
        env_candidates(vars.drop_last()) + if is_manifest_var(vars.last().0) {
            seq![vars.last().1]
        } else {
            Seq::empty()
        }
    }
}

/// Each manifest keyed by its target; a later manifest of a target replaces an
/// earlier one.
pub open spec fn indexed(ms: Seq<BuildInfoView>) -> Seq<(Seq<char>, BuildInfoView)> {
    index_all(ms.map_values(|m: BuildInfoView| (target_of(m.settings)->Some_0, m)))
}

pub open spec fn all_targets_known(ms: Seq<BuildInfoView>) -> bool {
    forall|i: int| 0 <= i < ms.len() ==> (#[trigger] target_of(ms[i].settings)) is Some
}

pub open spec fn views_of(ms: Seq<BuildInfo>) -> Seq<BuildInfoView> {
    ms.map_values(|m: BuildInfo| m@)
}

fn dir_candidates_of(d: &DirChildren, out: &mut Vec<String>)
    ensures
        strs_view(final(out)@) == strs_view(old(out)@) + dir_candidates(d@),
{
    let ghost cs = strs_view(d.children@);
    let mut i: usize = 0;
    while i < d.children.len()
        invariant
            i <= d.children@.len(),
            cs == strs_view(d.children@),
            strs_view(out@) == strs_view(old(out)@) + cs.subrange(0, i as int).map_values(
                |c: Seq<char>| join_path(c, manifest_file()),
            ),
        decreases d.children@.len() - i,
    {
        proof {
            reveal_strlit("conanbuildinfo.json");
        }
        let ghost prev = out@;
        out.push(join_path_str(d.children[i].as_str(), "conanbuildinfo.json"));
        assert(strs_view(out@) =~= strs_view(prev).push(join_path(cs[i as int], manifest_file())));
        assert(cs.subrange(0, i + 1).map_values(|c: Seq<char>| join_path(c, manifest_file()))
            =~= cs.subrange(0, i as int).map_values(|c: Seq<char>| join_path(c, manifest_file())).push(
            join_path(cs[i as int], manifest_file()),
        ));
        i = i + 1;
    }
    assert(cs.subrange(0, d.children@.len() as int) =~= cs);
    let ghost prev = out@;
    out.push(join_path_str(d.dir.as_str(), "conanbuildinfo.json"));
    assert(strs_view(out@) =~= strs_view(prev).push(join_path(d.dir@, manifest_file())));
    assert(strs_view(out@) =~= strs_view(old(out)@) + dir_candidates(d@));
}

/// The set of manifests found, keyed by target triple.
pub struct BuildInfoSet {
    info: Vec<(String, BuildInfo)>,
}

impl View for BuildInfoSet {
    type V = Seq<(Seq<char>, BuildInfoView)>;

    closed spec fn view(&self) -> Seq<(Seq<char>, BuildInfoView)> {
        pairs_view(self.info@)
    }
}

impl BuildInfoSet {
    #[verifier::type_invariant]
    spec fn inv(&self) -> bool {
        keys_unique(pairs_view(self.info@)) && forall|i: int|
            0 <= i < self.info@.len() ==> target_of((#[trigger] self.info@[i]).1@.settings) == Some(
                self.info@[i].0@,
            )
    }

    /// Every key of the set is the target of the manifest under it.
    pub fn keys_are_targets(&self)
        ensures
            keys_unique(self@),
            forall|i: int| 0 <= i < self@.len() ==> target_of((#[trigger] self@[i]).1.settings) == Some(self@[i].0),
    {
        proof {
            use_type_invariant(self);
        }
        assert forall|i: int| 0 <= i < self@.len() implies target_of((#[trigger] self@[i]).1.settings) == Some(self@[i].0) by {
            assert(self@[i] == (self.info@[i].0@, self.info@[i].1@));
        }
    }

    /// Indexes the manifests, in the order in which they were found, by their
    /// targets; a later manifest of a target replaces an earlier one. Fails, with
    /// that manifest's error, at the first manifest whose target is unknown.
    pub fn find_all(manifests: Vec<BuildInfo>) -> (r: Result<BuildInfoSet, ConanError>)
        ensures
            r is Ok <==> all_targets_known(views_of(manifests@)),
            r matches Ok(s) ==> s@ == indexed(views_of(manifests@)),
            r matches Err(e) ==> exists|i: int|
                0 <= i < manifests@.len() && target_of(#[trigger] manifests@[i]@.settings) is None
                    && target_error(manifests@[i]@.settings, e) && all_targets_known(
                    views_of(manifests@.subrange(0, i)),
                ),
    {
        let ghost views = views_of(manifests@);
        let ghost all = manifests@;
        let ghost pairs = views.map_values(|m: BuildInfoView| (target_of(m.settings)->Some_0, m));
        let mut info: Vec<(String, BuildInfo)> = Vec::new();
        let mut rest = manifests;
        let ghost mut i: int = 0;
        assert(pairs.subrange(0, 0) =~= Seq::<(Seq<char>, BuildInfoView)>::empty());
        while rest.len() > 0
            invariant
                0 <= i <= all.len(),
                all == manifests@,
                i + rest@.len() == all.len(),
                views == views_of(all),
                pairs == views.map_values(|m: BuildInfoView| (target_of(m.settings)->Some_0, m)),
                forall|k: int| 0 <= k < rest@.len() ==> #[trigger] rest@[k] == all[i + k],
                all_targets_known(views_of(all.subrange(0, i))),
                pairs_view(info@) == index_all(pairs.subrange(0, i)),
                keys_unique(pairs_view(info@)),
                forall|k: int|
                    0 <= k < info@.len() ==> target_of((#[trigger] info@[k]).1@.settings) == Some(info@[k].0@),
            decreases rest@.len(),
        {
            let ghost old_rest = rest@;
            let m = rest.remove(0);
            assert(old_rest[0] == all[i]);
            assert forall|k: int| 0 <= k < rest@.len() implies #[trigger] rest@[k] == all[i + 1 + k] by {
                assert(rest@[k] == old_rest[k + 1]);
            }
            match m.target() {
                Ok(t) => {
                    let ghost before = info@;
                    proof {
                        assert(pairs.subrange(0, i + 1).drop_last() =~= pairs.subrange(0, i));
                        assert(pairs[i] == (t@, m@));
                        assert(views_of(all.subrange(0, i + 1)) =~= views_of(all.subrange(0, i)).push(m@));
                        let vs = views_of(all.subrange(0, i + 1));
                        assert forall|k: int| 0 <= k < vs.len() implies (#[trigger] target_of(vs[k].settings)) is Some by {
                            if k < i {
                                assert(vs[k] == views_of(all.subrange(0, i))[k]);
                            }
                        }
                    }
                    upsert_vec(&mut info, t, m);
                    proof {
                        let bp = pairs_view(before);
                        assert forall|k: int| 0 <= k < info@.len() implies target_of(
                            (#[trigger] info@[k]).1@.settings,
                        ) == Some(info@[k].0@) by {
                            let up = upsert(bp, pairs[i].0, pairs[i].1);
                            assert(pairs_view(info@)[k] == (info@[k].0@, info@[k].1@));
                            if crate::keyed::has_key(bp, pairs[i].0) {
                                let idx = crate::keyed::key_index(bp, pairs[i].0);
                                if k != idx {
                                    assert(pairs_view(info@)[k] == bp[k]);
                                    assert(bp[k] == (before[k].0@, before[k].1@));
                                }
                            } else {
                                if k < before.len() {
                                    assert(pairs_view(info@)[k] == bp[k]);
                                    assert(bp[k] == (before[k].0@, before[k].1@));
                                }
                            }
                        }
                        i = i + 1;
                    }
                },
                Err(e) => {
                    proof {
                        assert(all[i]@ == m@);
                        assert(views[i] == m@);
                        assert(target_of(all[i]@.settings) is None);
                        assert(target_error(all[i]@.settings, e));
                        assert(all_targets_known(views_of(all.subrange(0, i))));
                        if all_targets_known(views) {
                            assert(target_of(views[i].settings) is Some);
                        }
                    }
                    return Err(e);
                },
            }
        }
        assert(pairs.subrange(0, i) =~= pairs);
        assert(views_of(all.subrange(0, i)) =~= views);
        Ok(BuildInfoSet { info })
    }

    /// Where a manifest may stand: for the given directories, listed innermost
    /// first with their entries, outermost first (see [`dir_candidates`]).
    pub fn path_from_filesystem(ancestors: &Vec<DirChildren>) -> (r: Vec<String>)
        ensures
            strs_view(r@) == fs_candidates(ancestors@.map_values(|d: DirChildren| d@)),
    {
        let ghost ds = ancestors@.map_values(|d: DirChildren| d@);
        let n = ancestors.len();
        let mut out: Vec<String> = Vec::new();
        let mut i: usize = n;
        assert(ds.subrange(n as int, n as int) =~= Seq::<(Seq<char>, Seq<Seq<char>>)>::empty());
        while i > 0
            invariant
                i <= n,
                n == ancestors@.len(),
                ds == ancestors@.map_values(|d: DirChildren| d@),
                strs_view(out@) == fs_candidates(ds.subrange(i as int, n as int)),
            decreases i,
        {
            assert(ds.subrange(i - 1, n as int).drop_first() =~= ds.subrange(i as int, n as int));
            assert(ds.subrange(i - 1, n as int)[0] == ancestors@[i - 1]@);
            dir_candidates_of(&ancestors[i - 1], &mut out);
            i = i - 1;
        }
        assert(ds.subrange(0, n as int) =~= ds);
        out
    }

    /// The paths that environment variables give for manifests, in order.
    pub fn path_from_env(vars: &Vec<(String, String)>) -> (r: Vec<String>)
        ensures
            strs_view(r@) == env_candidates(vars@.map_values(|p: (String, String)| (p.0@, p.1@))),
    {
        let ghost vs = vars@.map_values(|p: (String, String)| (p.0@, p.1@));
        let mut out: Vec<String> = Vec::new();
        let mut i: usize = 0;
        while i < vars.len()
            invariant
                i <= vars@.len(),
                vs == vars@.map_values(|p: (String, String)| (p.0@, p.1@)),
                strs_view(out@) == env_candidates(vs.subrange(0, i as int)),
            decreases vars@.len() - i,
        {
            assert(vs.subrange(0, i + 1).drop_last() =~= vs.subrange(0, i as int));
            let key = vars[i].0.as_str();
            if str_equal(key, "CONANBUILDINFO") || ends_with(key, "_CONANBUILDINFO") {
                let ghost prev = out@;
                out.push(vars[i].1.clone());
                assert(strs_view(out@) =~= strs_view(prev) + seq![vars@[i as int].1@]);
            } else {
                assert(strs_view(out@) =~= strs_view(out@) + Seq::<Seq<char>>::empty());
            }
            i = i + 1;
        }
        assert(vs.subrange(0, vars@.len() as int) =~= vs);
        out
    }

    /// Every path at which a manifest may stand, in the order in which manifests
    /// are taken: those of the directories (see [`BuildInfoSet::path_from_filesystem`]),
    /// then those that environment variables give.
    pub fn candidate_paths(ancestors: &Vec<DirChildren>, vars: &Vec<(String, String)>) -> (r: Vec<String>)
        ensures
            strs_view(r@) == fs_candidates(ancestors@.map_values(|d: DirChildren| d@)) + env_candidates(
                vars@.map_values(|p: (String, String)| (p.0@, p.1@)),
            ),
    {
        let mut out = Self::path_from_filesystem(ancestors);
        let mut more = Self::path_from_env(vars);
        let ghost a = out@;
        let ghost b = more@;
        out.append(&mut more);
        assert(strs_view(out@) =~= strs_view(a) + strs_view(b));
        out
    }

    /// The manifest of a target.
    pub fn get_current_target(&self, host: &str) -> (r: Option<&BuildInfo>)
        ensures
            r is None <==> lookup(self@, host@) is None,
            r matches Some(b) ==> lookup(self@, host@) == Some(b@),
    {
        proof {
            use_type_invariant(self);
        }
        let key = host.to_owned();
        get_vec(&self.info, &key)
    }

    /// The targets, in order.
    pub fn targets(&self) -> (r: Vec<String>)
        ensures
            strs_view(r@) == self@.map_values(|p: (Seq<char>, BuildInfoView)| p.0),
    {
        let mut out: Vec<String> = Vec::new();
        let mut i: usize = 0;
        while i < self.info.len()
            invariant
                i <= self.info@.len(),
                strs_view(out@) == pairs_view(self.info@).subrange(0, i as int).map_values(
                    |p: (Seq<char>, BuildInfoView)| p.0,
                ),
            decreases self.info@.len() - i,
        {
            let ghost prev = out@;
            out.push(self.info[i].0.clone());
            assert(strs_view(out@) =~= strs_view(prev).push(self.info@[i as int].0@));
            assert(pairs_view(self.info@).subrange(0, i + 1).map_values(|p: (Seq<char>, BuildInfoView)| p.0)
                =~= pairs_view(self.info@).subrange(0, i as int).map_values(
                |p: (Seq<char>, BuildInfoView)| p.0,
            ).push(self.info@[i as int].0@));
            i = i + 1;
        }
        assert(pairs_view(self.info@).subrange(0, self.info@.len() as int) =~= pairs_view(self.info@));
        out
    }

    /// Each manifest, in order, with whether its target is the host's.
    pub fn all_targets(&self, host: &str) -> (r: Vec<(bool, &BuildInfo)>)
        ensures
            r@.len() == self@.len(),
            forall|i: int|
                0 <= i < r@.len() ==> (#[trigger] r@[i]).0 == (self@[i].0 == host@) && r@[i].1@ == self@[i].1,
    {
        let mut out: Vec<(bool, &BuildInfo)> = Vec::new();
        let mut i: usize = 0;
        while i < self.info.len()
            invariant
                i <= self.info@.len(),
                out@.len() == i,
                forall|k: int|
                    0 <= k < i ==> (#[trigger] out@[k]).0 == (self.info@[k].0@ == host@) && out@[k].1@
                        == self.info@[k].1@,
            decreases self.info@.len() - i,
        {
            let is_host = str_equal(self.info[i].0.as_str(), host);
            out.push((is_host, &self.info[i].1));
            i = i + 1;
        }
        out
    }

    /// Each target with the path of its manifest, in order.
    pub fn targets_and_paths(&self) -> (r: Vec<(String, String)>)
        ensures
            r@.len() == self@.len(),
            forall|i: int|
                0 <= i < r@.len() ==> (#[trigger] r@[i]).0@ == self@[i].0 && r@[i].1@ == self@[i].1.path,
    {
        let mut out: Vec<(String, String)> = Vec::new();
        let mut i: usize = 0;
        while i < self.info.len()
            invariant
                i <= self.info@.len(),
                out@.len() == i,
                forall|k: int|
                    0 <= k < i ==> (#[trigger] out@[k]).0@ == self.info@[k].0@ && out@[k].1@
                        == self.info@[k].1@.path,
            decreases self.info@.len() - i,
        {
            out.push((self.info[i].0.clone(), self.info[i].1.path().clone()));
            i = i + 1;
        }
        out
    }
}

/// Of two manifests found for one target, the set keeps exactly one: the one
/// found later (where no manifest found after it has that target).
pub proof fn lemma_later_manifest_wins(ms: Seq<BuildInfoView>, i: int, j: int)
    requires
        all_targets_known(ms),
        0 <= i < j < ms.len(),
        target_of(ms[i].settings) == target_of(ms[j].settings),
        forall|k: int| j < k < ms.len() ==> target_of((#[trigger] ms[k]).settings) != target_of(ms[j].settings),
    ensures
        keys_unique(indexed(ms)),
        lookup(indexed(ms), target_of(ms[j].settings)->Some_0) == Some(ms[j]),
{
    let pairs = ms.map_values(|m: BuildInfoView| (target_of(m.settings)->Some_0, m));
    lemma_index_all(pairs);
    assert forall|k: int| j < k < pairs.len() implies (#[trigger] pairs[k]).0 != pairs[j].0 by {
        assert(target_of(ms[k].settings) is Some);
        assert(target_of(ms[j].settings) is Some);
    }
    lemma_last_value_at(pairs, j);
}

} // verus!
