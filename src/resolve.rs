//! Link requests: the libraries to link and the directories to search, and how
//! a manifest's packages resolve to them.
use vstd::prelude::*;
use crate::error::ConanError;
use crate::keyed::lookup;
use crate::manifest::{cxx_name, shared_in, BuildInfo, BuildInfoView, Link, PackageView};
use crate::text::strs_view;

verus! {

/// A library to link, and whether statically.
pub struct Lib {
    pub is_static: bool,
    pub name: String,
}

impl View for Lib {
    type V = (Seq<char>, bool);

    open spec fn view(&self) -> (Seq<char>, bool) {
        (self.name@, self.is_static)
    }
}

/// A directory for the linker to search.
pub struct LibDir(pub String);

impl View for LibDir {
    type V = Seq<char>;

    open spec fn view(&self) -> Seq<char> {
        self.0@
    }
}

/// Libraries to link and directories to search, each in order.
pub struct DependsOn {
    pub libs: Vec<Lib>,
    pub libdirs: Vec<LibDir>,
}

pub struct DependsOnView {
    pub libs: Seq<(Seq<char>, bool)>,
    pub libdirs: Seq<Seq<char>>,
}

impl View for DependsOn {
    type V = DependsOnView;

    open spec fn view(&self) -> DependsOnView {
        DependsOnView {
            libs: self.libs@.map_values(|l: Lib| l@),
            libdirs: self.libdirs@.map_values(|d: LibDir| d@),
        }
    }
}

pub open spec fn empty_request() -> DependsOnView {
    DependsOnView { libs: Seq::empty(), libdirs: Seq::empty() }
}

/// The entries of `a`, then those of `b`.
pub open spec fn concat(a: DependsOnView, b: DependsOnView) -> DependsOnView {
    DependsOnView { libs: a.libs + b.libs, libdirs: a.libdirs + b.libdirs }
}

/// The requests, one after another.
pub open spec fn concat_all(s: Seq<DependsOnView>) -> DependsOnView
    decreases s.len(),
{
    if s.len() == 0 {
        empty_request()
    } else {
        concat(concat_all(s.drop_last()), s.last())
    }
}

/// What one package asks for: each of its libraries, static unless it links as a
/// shared one, and each of its library directories.
pub open spec fn package_request(libs: Seq<(Seq<char>, Link)>, p: PackageView) -> DependsOnView {
    DependsOnView {
        libs: p.libs.map_values(|l: Seq<char>| (l, !shared_in(libs, l))),
        libdirs: p.lib_paths,
    }
}

/// What the named packages ask for, in order; `None` where one is missing.
pub open spec fn resolve(m: BuildInfoView, names: Seq<Seq<char>>) -> Option<DependsOnView>
    decreases names.len(),
{
    if names.len() == 0 {
        Some(empty_request())
    } else {
        match (resolve(m, names.drop_last()), lookup(m.packages, names.last())) {
            (Some(d), Some(p)) => Some(concat(d, package_request(m.libs, p))),
            _ => None,
        }
    }
}

/// The first of the names that the manifest does not declare.
pub open spec fn first_missing(m: BuildInfoView, names: Seq<Seq<char>>) -> Option<Seq<char>>
    decreases names.len(),
{
    if names.len() == 0 {
        None
    } else {
        match first_missing(m, names.drop_last()) {
            Some(n) => Some(n),
            None => if lookup(m.packages, names.last()) is None {
                Some(names.last())
            } else {
                None
            },
        }
    }
}

/// What those of the named packages that the manifest declares ask for, in order.
pub open spec fn resolve_optional(m: BuildInfoView, names: Seq<Seq<char>>) -> DependsOnView
    decreases names.len(),
{
    if names.len() == 0 {
        empty_request()
    } else {
        match lookup(m.packages, names.last()) {
            Some(p) => concat(resolve_optional(m, names.drop_last()), package_request(m.libs, p)),
            None => resolve_optional(m, names.drop_last()),
        }
    }
}

/// The build-pipeline line that links a library.
pub open spec fn lib_directive(l: (Seq<char>, bool)) -> Seq<char> {
    "cargo:rustc-link-lib="@ + (if l.1 {
        "static="@
    } else {
        Seq::empty()
    }) + l.0
}

/// The build-pipeline line that adds a search directory.
pub open spec fn libdir_directive(d: Seq<char>) -> Seq<char> {
    "cargo:rustc-link-search="@ + d
}

/// The lines of a request: its libraries, then its directories.
pub open spec fn request_directives(d: DependsOnView) -> Seq<Seq<char>> {
    d.libs.map_values(|l: (Seq<char>, bool)| lib_directive(l)) + d.libdirs.map_values(
        |x: Seq<char>| libdir_directive(x),
    )
}

/// Something that becomes lines for the build pipeline.
pub trait Applyable {
    spec fn directives(&self) -> Seq<Seq<char>>;

    /// The lines, in order.
    fn apply(&self) -> (r: Vec<String>)
        ensures
            strs_view(r@) == self.directives(),
    ;
}

impl Lib {
    pub fn directive(&self) -> (r: String)
        ensures
            r@ == lib_directive(self@),
    {
        let mut s = "cargo:rustc-link-lib=".to_owned();
        if self.is_static {
            s.append("static=");
        }
        s.append(self.name.as_str());
        s
    }
}

impl Applyable for Lib {
    open spec fn directives(&self) -> Seq<Seq<char>> {
        seq![lib_directive(self@)]
    }

    fn apply(&self) -> (r: Vec<String>) {
        let mut out: Vec<String> = Vec::new();
        out.push(self.directive());
        assert(strs_view(out@) =~= seq![lib_directive(self@)]);
        out
    }
}

impl LibDir {
    pub fn directive(&self) -> (r: String)
        ensures
            r@ == libdir_directive(self@),
    {
        let mut s = "cargo:rustc-link-search=".to_owned();
        s.append(self.0.as_str());
        s
    }
}

impl Applyable for LibDir {
    open spec fn directives(&self) -> Seq<Seq<char>> {
        seq![libdir_directive(self@)]
    }

    fn apply(&self) -> (r: Vec<String>) {
        let mut out: Vec<String> = Vec::new();
        out.push(self.directive());
        assert(strs_view(out@) =~= seq![libdir_directive(self@)]);
        out
    }
}

impl Applyable for DependsOn {
    open spec fn directives(&self) -> Seq<Seq<char>> {
        request_directives(self@)
    }

    fn apply(&self) -> (r: Vec<String>) {
        let ghost lv = self@.libs.map_values(|l: (Seq<char>, bool)| lib_directive(l));
        let ghost dv = self@.libdirs.map_values(|x: Seq<char>| libdir_directive(x));
        let mut out: Vec<String> = Vec::new();
        let mut i: usize = 0;
        while i < self.libs.len()
            invariant
                i <= self.libs@.len(),
                lv == self@.libs.map_values(|l: (Seq<char>, bool)| lib_directive(l)),
                strs_view(out@) == lv.subrange(0, i as int),
            decreases self.libs@.len() - i,
        {
            let ghost prev = out@;
            out.push(self.libs[i].directive());
            assert(strs_view(out@) =~= strs_view(prev).push(lv[i as int]));
            assert(lv.subrange(0, i + 1) =~= lv.subrange(0, i as int).push(lv[i as int]));
            i = i + 1;
        }
        assert(lv.subrange(0, self.libs@.len() as int) =~= lv);
        let mut j: usize = 0;
        while j < self.libdirs.len()
            invariant
                j <= self.libdirs@.len(),
                dv == self@.libdirs.map_values(|x: Seq<char>| libdir_directive(x)),
                strs_view(out@) == lv + dv.subrange(0, j as int),
            decreases self.libdirs@.len() - j,
        {
            let ghost prev = out@;
            out.push(self.libdirs[j].directive());
            assert(strs_view(out@) =~= strs_view(prev).push(dv[j as int]));
            assert(lv + dv.subrange(0, j + 1) =~= (lv + dv.subrange(0, j as int)).push(dv[j as int]));
            j = j + 1;
        }
        assert(dv.subrange(0, self.libdirs@.len() as int) =~= dv);
        out
    }
}

impl Default for DependsOn {
    fn default() -> (r: DependsOn)
        ensures
            r@ == empty_request(),
    {
        let r = DependsOn { libs: Vec::new(), libdirs: Vec::new() };
        assert(r@.libs =~= Seq::<(Seq<char>, bool)>::empty());
        assert(r@.libdirs =~= Seq::<Seq<char>>::empty());
        r
    }
}

impl DependsOn {
    /// Appends the entries of `rhs`, libraries to libraries and directories to
    /// directories.
    pub fn extend(&mut self, rhs: DependsOn)
        ensures
            final(self)@ == concat(old(self)@, rhs@),
    {
        let ghost a = self@;
        let ghost b = rhs@;
        let DependsOn { libs: mut more_libs, libdirs: mut more_dirs } = rhs;
        let ghost l0 = self.libs@;
        let ghost ml = more_libs@;
        self.libs.append(&mut more_libs);
        assert(self.libs@ == l0 + ml);
        assert(self@.libs =~= a.libs + b.libs);
        let ghost d0 = self.libdirs@;
        let ghost md = more_dirs@;
        self.libdirs.append(&mut more_dirs);
        assert(self.libdirs@ == d0 + md);
        assert(self@.libdirs =~= a.libdirs + b.libdirs);
    }

    /// The requests, one after another.
    pub fn extend_all(iter: Vec<DependsOn>) -> (r: DependsOn)
        ensures
            r@ == concat_all(iter@.map_values(|d: DependsOn| d@)),
    {
        let ghost views = iter@.map_values(|d: DependsOn| d@);
        let mut acc = DependsOn::default();
        let mut rest = iter;
        let ghost n = rest@.len();
        let ghost mut i: int = 0;
        assert(views.subrange(0, 0) =~= Seq::<DependsOnView>::empty());
        while rest.len() > 0
            invariant
                i + rest@.len() == n,
                views.len() == n,
                forall|k: int| 0 <= k < rest@.len() ==> #[trigger] rest@[k]@ == views[i + k],
                0 <= i,
                acc@ == concat_all(views.subrange(0, i)),
            decreases rest@.len(),
        {
            let ghost old_rest = rest@;
            let next = rest.remove(0);
            assert(old_rest[0]@ == views[i]);
            assert forall|k: int| 0 <= k < rest@.len() implies #[trigger] rest@[k]@ == views[i + 1 + k] by {
                assert(rest@[k] == old_rest[k + 1]);
            }
            assert(views.subrange(0, i + 1).drop_last() =~= views.subrange(0, i));
            acc.extend(next);
            proof {
                i = i + 1;
            }
        }
        assert(views.subrange(0, n as int) =~= views);
        acc
    }
}

impl BuildInfo {
    /// What one package asks for; an error where the manifest does not declare it.
    pub fn get_depends_on_package(&self, package: &str) -> (r: Result<DependsOn, ConanError>)
        ensures
            r is Ok <==> lookup(self@.packages, package@) is Some,
            r matches Ok(d) ==> d@ == package_request(self@.libs, lookup(self@.packages, package@)->Some_0),
            r matches Err(e) ==> e matches ConanError::MissingDependency(n) && n@ == package@,
    {
        let p = self.package(package)?;
        let ghost pv = p@;
        let mut libs: Vec<Lib> = Vec::new();
        let mut i: usize = 0;
        while i < p.libs.len()
            invariant
                i <= p.libs@.len(),
                pv == p@,
                libs@.map_values(|l: Lib| l@) == pv.libs.subrange(0, i as int).map_values(
                    |l: Seq<char>| (l, !shared_in(self@.libs, l)),
                ),
            decreases p.libs@.len() - i,
        {
            let name = &p.libs[i];
            let lib = Lib { is_static: !self.is_shared(name.as_str()), name: name.clone() };
            let ghost prev = libs@;
            libs.push(lib);
            assert(libs@.map_values(|l: Lib| l@) =~= prev.map_values(|l: Lib| l@).push(
                (pv.libs[i as int], !shared_in(self@.libs, pv.libs[i as int])),
            ));
            assert(pv.libs.subrange(0, i + 1).map_values(|l: Seq<char>| (l, !shared_in(self@.libs, l)))
                =~= pv.libs.subrange(0, i as int).map_values(|l: Seq<char>| (l, !shared_in(self@.libs, l))).push(
                (pv.libs[i as int], !shared_in(self@.libs, pv.libs[i as int])),
            ));
            i = i + 1;
        }
        assert(pv.libs.subrange(0, p.libs@.len() as int) =~= pv.libs);
        let mut libdirs: Vec<LibDir> = Vec::new();
        let mut j: usize = 0;
        while j < p.lib_paths.len()
            invariant
                j <= p.lib_paths@.len(),
                pv == p@,
                libdirs@.map_values(|d: LibDir| d@) == pv.lib_paths.subrange(0, j as int),
            decreases p.lib_paths@.len() - j,
        {
            let ghost prev = libdirs@;
            libdirs.push(LibDir(p.lib_paths[j].clone()));
            assert(libdirs@.map_values(|d: LibDir| d@) =~= prev.map_values(|d: LibDir| d@).push(
                pv.lib_paths[j as int],
            ));
            assert(pv.lib_paths.subrange(0, j + 1) =~= pv.lib_paths.subrange(0, j as int).push(
                pv.lib_paths[j as int],
            ));
            j = j + 1;
        }
        assert(pv.lib_paths.subrange(0, p.lib_paths@.len() as int) =~= pv.lib_paths);
        Ok(DependsOn { libs, libdirs })
    }

    /// What the named packages ask for, in order; an error naming the first that
    /// the manifest does not declare.
    pub fn get_depends_on(&self, packages: &Vec<String>) -> (r: Result<DependsOn, ConanError>)
        ensures
            r is Ok <==> resolve(self@, strs_view(packages@)) is Some,
            r matches Ok(d) ==> resolve(self@, strs_view(packages@)) == Some(d@),
            r matches Err(e) ==> e matches ConanError::MissingDependency(n) && first_missing(
                self@,
                strs_view(packages@),
            ) == Some(n@),
    {
        let ghost names = strs_view(packages@);
        let mut acc = DependsOn::default();
        let mut i: usize = 0;
        proof {
            lemma_resolve_first_missing(self@, names);
        }
        while i < packages.len()
            invariant
                i <= packages@.len(),
                names == strs_view(packages@),
                resolve(self@, names.subrange(0, i as int)) == Some(acc@),
                first_missing(self@, names.subrange(0, i as int)) is None,
            decreases packages@.len() - i,
        {
            assert(names.subrange(0, i + 1).drop_last() =~= names.subrange(0, i as int));
            match self.get_depends_on_package(packages[i].as_str()) {
                Ok(d) => {
                    acc.extend(d);
                },
                Err(e) => {
                    proof {
                        assert(names[i as int] == packages@[i as int]@);
                        lemma_first_missing_prefix(self@, names, i + 1);
                        lemma_resolve_first_missing(self@, names);
                    }
                    return Err(e);
                },
            }
            i = i + 1;
        }
        assert(names.subrange(0, packages@.len() as int) =~= names);
        Ok(acc)
    }

    /// What those of the named packages that the manifest declares ask for, in
    /// order; the others are passed over.
    pub fn get_depends_on_optional(&self, packages: &Vec<String>) -> (r: DependsOn)
        ensures
            r@ == resolve_optional(self@, strs_view(packages@)),
    {
        let ghost names = strs_view(packages@);
        let mut acc = DependsOn::default();
        let mut i: usize = 0;
        while i < packages.len()
            invariant
                i <= packages@.len(),
                names == strs_view(packages@),
                resolve_optional(self@, names.subrange(0, i as int)) == acc@,
            decreases packages@.len() - i,
        {
            assert(names.subrange(0, i + 1).drop_last() =~= names.subrange(0, i as int));
            if self.try_package(packages[i].as_str()).is_some() {
                match self.get_depends_on_package(packages[i].as_str()) {
                    Ok(d) => {
                        acc.extend(d);
                    },
                    Err(_) => {},
                }
            }
            i = i + 1;
        }
        assert(names.subrange(0, packages@.len() as int) =~= names);
        acc
    }

    /// The C++ standard library to link, shared, if the settings name one.
    pub fn libcxx(&self) -> (r: Option<Lib>)
        ensures
            r is None <==> cxx_name(self@.settings.libcxx) is None,
            r matches Some(l) ==> cxx_name(self@.settings.libcxx) == Some(l.name@) && !l.is_static,
    {
        match self.libcxx_name() {
            Some(name) => Some(Lib { is_static: false, name }),
            None => None,
        }
    }
}

proof fn lemma_resolve_first_missing(m: BuildInfoView, names: Seq<Seq<char>>)
    ensures
        resolve(m, names) is Some <==> first_missing(m, names) is None,
    decreases names.len(),
{
    if names.len() > 0 {
        lemma_resolve_first_missing(m, names.drop_last());
    }
}

proof fn lemma_first_missing_prefix(m: BuildInfoView, names: Seq<Seq<char>>, i: int)
    requires
        0 < i <= names.len(),
        first_missing(m, names.subrange(0, i - 1)) is None,
        lookup(m.packages, names[i - 1]) is None,
    ensures
        first_missing(m, names) == Some(names[i - 1]),
    decreases names.len() - i,
{
    assert(names.subrange(0, i).drop_last() =~= names.subrange(0, i - 1));
    if i < names.len() {
        lemma_first_missing_prefix_keep(m, names, i);
    } else {
        assert(names.subrange(0, i) =~= names);
    }
}

proof fn lemma_first_missing_prefix_keep(m: BuildInfoView, names: Seq<Seq<char>>, i: int)
    requires
        0 < i <= names.len(),
        first_missing(m, names.subrange(0, i)) is Some,
    ensures
        first_missing(m, names) == first_missing(m, names.subrange(0, i)),
    decreases names.len() - i,
{
    if i < names.len() {
        assert(names.subrange(0, i + 1).drop_last() =~= names.subrange(0, i));
        lemma_first_missing_prefix_keep(m, names, i + 1);
    } else {
        assert(names.subrange(0, i) =~= names);
    }
}

/// Resolving the packages `a` and then `b` in one request gives the request of
/// `a` followed by that of `b`, libraries and directories alike; it fails exactly
/// where either part fails.
pub proof fn lemma_resolve_concat(m: BuildInfoView, a: Seq<Seq<char>>, b: Seq<Seq<char>>)
    ensures
        resolve(m, a + b) == match (resolve(m, a), resolve(m, b)) {
            (Some(x), Some(y)) => Some(concat(x, y)),
            _ => None,
        },
    decreases b.len(),
{
    if b.len() == 0 {
        assert(a + b =~= a);
        if let Some(x) = resolve(m, a) {
            assert(concat(x, empty_request()).libs =~= x.libs);
            assert(concat(x, empty_request()).libdirs =~= x.libdirs);
        }
    } else {
        assert((a + b).drop_last() =~= a + b.drop_last());
        assert((a + b).last() == b.last());
        lemma_resolve_concat(m, a, b.drop_last());
        if let (Some(x), Some(y), Some(p)) = (resolve(m, a), resolve(m, b.drop_last()), lookup(m.packages, b.last())) {
            let w = package_request(m.libs, p);
            assert(concat(concat(x, y), w).libs =~= concat(x, concat(y, w)).libs);
            assert(concat(concat(x, y), w).libdirs =~= concat(x, concat(y, w)).libdirs);
        }
    }
}

/// Those of the names that the manifest declares, in order.
pub open spec fn declared(m: BuildInfoView, names: Seq<Seq<char>>) -> Seq<Seq<char>>
    decreases names.len(),
{
    if names.len() == 0 {
        Seq::empty()
    } else {
        declared(m, names.drop_last()) + if lookup(m.packages, names.last()) is Some {
            seq![names.last()]
        } else {
            Seq::empty()
        }
    }
}

/// Asking optionally for packages gives what asking, as required, for those of
/// them that the manifest declares gives: the others add nothing and fail nothing.
pub proof fn lemma_optional_is_required_of_declared(m: BuildInfoView, names: Seq<Seq<char>>)
    ensures
        resolve(m, declared(m, names)) == Some(resolve_optional(m, names)),
    decreases names.len(),
{
    if names.len() > 0 {
        lemma_optional_is_required_of_declared(m, names.drop_last());
        let d = declared(m, names.drop_last());
        if lookup(m.packages, names.last()) is Some {
            assert(declared(m, names).drop_last() =~= d);
            assert(declared(m, names).last() == names.last());
        } else {
            assert(declared(m, names) =~= d);
        }
    }
}

/// Asking, optionally, for a package that the manifest does not declare adds
/// nothing to a request and fails nothing.
pub proof fn lemma_optional_absent(m: BuildInfoView, names: Seq<Seq<char>>, absent: Seq<char>)
    requires
        lookup(m.packages, absent) is None,
    ensures
        resolve_optional(m, names.push(absent)) == resolve_optional(m, names),
        resolve_optional(m, seq![absent]) == empty_request(),
{
    assert(names.push(absent).drop_last() =~= names);
    assert(seq![absent].drop_last() =~= Seq::<Seq<char>>::empty());
    assert(resolve_optional(m, Seq::<Seq<char>>::empty()) == empty_request());
}

} // verus!
