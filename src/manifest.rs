//! One build-info manifest: its settings, its packages keyed by name, and the
//! link kind of each library found in the packages' library directories.
use vstd::prelude::*;
use crate::error::ConanError;
use crate::json::{field, json_document, parse_json, string_list, string_value, Json, JsonModel};
use crate::keyed::{index_all, keys_unique, lemma_index_all, pairs_view, upsert_vec};
use crate::keyed::{get_vec, lemma_last_value_append, lookup};
use crate::target::{is_unsupported_error, target_from_arch_and_os, triple_of};
use crate::text::{
    ends_with, has_prefix, has_suffix, join_path, join_path_str, last_index_of, parent_dir,
    parent_dir_str, rfind_char, starts_with, strs_view,
};
use vstd::string::*;

verus! {

/// How a library is linked.
#[derive(Debug, PartialEq, Eq, PartialOrd, Ord, Clone, Copy, Structural)]
pub enum Link {
    Static,
    Shared,
}

impl View for Link {
    type V = Link;

    open spec fn view(&self) -> Link {
        *self
    }
}

/// One dependency as the manifest declares it.
pub struct PackageDescriptor {
    pub name: String,
    pub libs: Vec<String>,
    pub lib_paths: Vec<String>,
    pub include_paths: Vec<String>,
    pub bin_paths: Vec<String>,
    pub rootpath: String,
}

pub struct PackageView {
    pub name: Seq<char>,
    pub libs: Seq<Seq<char>>,
    pub lib_paths: Seq<Seq<char>>,
    pub include_paths: Seq<Seq<char>>,
    pub bin_paths: Seq<Seq<char>>,
    pub rootpath: Seq<char>,
}

impl View for PackageDescriptor {
    type V = PackageView;

    open spec fn view(&self) -> PackageView {
        PackageView {
            name: self.name@,
            libs: strs_view(self.libs@),
            lib_paths: strs_view(self.lib_paths@),
            include_paths: strs_view(self.include_paths@),
            bin_paths: strs_view(self.bin_paths@),
            rootpath: self.rootpath@,
        }
    }
}

/// The settings that this library reads from a manifest.
pub struct Settings {
    pub arch: Option<String>,
    pub os: Option<String>,
    pub libcxx: Option<String>,
}

pub struct SettingsView {
    pub arch: Option<Seq<char>>,
    pub os: Option<Seq<char>>,
    pub libcxx: Option<Seq<char>>,
}

pub open spec fn opt_view(o: Option<String>) -> Option<Seq<char>> {
    match o {
        Some(s) => Some(s@),
        None => None,
    }
}

impl View for Settings {
    type V = SettingsView;

    open spec fn view(&self) -> SettingsView {
        SettingsView { arch: opt_view(self.arch), os: opt_view(self.os), libcxx: opt_view(self.libcxx) }
    }
}

/// An optional string member: absent, or a string (`None` where it is something else).
pub open spec fn optional_string(f: Option<JsonModel>) -> Option<Option<Seq<char>>> {
    match f {
        None => Some(None),
        Some(JsonModel::Str(s)) => Some(Some(s)),
        Some(_) => None,
    }
}

/// The settings object of a manifest, read.
pub open spec fn settings_of(j: JsonModel) -> Option<SettingsView> {
    if j is Object {
        match (
            optional_string(field(j, "arch"@)),
            optional_string(field(j, "os"@)),
            optional_string(field(j, "compiler.libcxx"@)),
        ) {
            (Some(a), Some(o), Some(c)) => Some(SettingsView { arch: a, os: o, libcxx: c }),
            _ => None,
        }
    } else {
        None
    }
}

pub open spec fn list_field(j: JsonModel, key: Seq<char>) -> Option<Seq<Seq<char>>> {
    match field(j, key) {
        Some(x) => string_list(x),
        None => None,
    }
}

/// One entry of the dependency list, read.
pub open spec fn package_of(j: JsonModel) -> Option<PackageView> {
    match (
        string_value(field(j, "name"@)),
        list_field(j, "libs"@),
        list_field(j, "lib_paths"@),
        list_field(j, "include_paths"@),
        list_field(j, "bin_paths"@),
        string_value(field(j, "rootpath"@)),
    ) {
        (Some(n), Some(l), Some(lp), Some(ip), Some(bp), Some(r)) => Some(
            PackageView { name: n, libs: l, lib_paths: lp, include_paths: ip, bin_paths: bp, rootpath: r },
        ),
        _ => None,
    }
}

/// Every entry of the dependency list, read; `None` where one cannot be.
pub open spec fn packages_of(items: Seq<JsonModel>) -> Option<Seq<PackageView>>
    decreases items.len(),
{
    if items.len() == 0 {
        Some(Seq::empty())
    } else {
        match (packages_of(items.drop_last()), package_of(items.last())) {
            (Some(ps), Some(p)) => Some(ps.push(p)),
            _ => None,
        }
    }
}

/// Each package paired with its name.
pub open spec fn named(ps: Seq<PackageView>) -> Seq<(Seq<char>, PackageView)> {
    ps.map_values(|p: PackageView| (p.name, p))
}

pub struct DocView {
    pub settings: SettingsView,
    pub packages: Seq<(Seq<char>, PackageView)>,
}

/// A manifest document, read: its settings, and its packages keyed by name, where
/// a later entry with a name replaces an earlier one.
pub open spec fn doc_of(j: JsonModel) -> Option<DocView> {
    match (field(j, "settings"@), field(j, "dependencies"@)) {
        (Some(s), Some(JsonModel::Array(items))) => match (settings_of(s), packages_of(items)) {
            (Some(st), Some(ps)) => Some(DocView { settings: st, packages: index_all(named(ps)) }),
            _ => None,
        },
        _ => None,
    }
}

/// What a manifest's text yields: its document, or the error it fails with.
pub open spec fn doc_of_text(text: Seq<char>) -> Result<DocView, ConanError> {
    match json_document(text) {
        None => Err(ConanError::InvalidJson),
        Some(j) => match doc_of(j) {
            Some(d) => Ok(d),
            None => Err(ConanError::InvalidManifest),
        },
    }
}

/// A manifest's settings and packages, before its library directories are read.
pub struct BuildInfoDoc {
    settings: Settings,
    info: Vec<(String, PackageDescriptor)>,
}

impl BuildInfoDoc {
    #[verifier::type_invariant]
    spec fn inv(&self) -> bool {
        keys_unique(pairs_view(self.info@))
    }
}

impl View for BuildInfoDoc {
    type V = DocView;

    closed spec fn view(&self) -> DocView {
        DocView { settings: self.settings@, packages: pairs_view(self.info@) }
    }
}

fn optional_string_field(j: &Json, key: &str) -> (r: Option<Option<String>>)
    ensures
        r is None <==> optional_string(field(j@, key@)) is None,
        r matches Some(o) ==> optional_string(field(j@, key@)) == Some(opt_view(o)),
{
    match j.get(key) {
        None => Some(None),
        Some(x) => match x.as_str() {
            Some(s) => Some(Some(s.clone())),
            None => None,
        },
    }
}

fn settings_from_json(j: &Json) -> (r: Option<Settings>)
    ensures
        r is None <==> settings_of(j@) is None,
        r matches Some(s) ==> settings_of(j@) == Some(s@),
{
    let is_object = match j {
        Json::Object(_, _) => true,
        _ => false,
    };
    if !is_object {
        return None;
    }
    let arch = optional_string_field(j, "arch");
    let os = optional_string_field(j, "os");
    let libcxx = optional_string_field(j, "compiler.libcxx");
    match (arch, os, libcxx) {
        (Some(a), Some(o), Some(c)) => Some(Settings { arch: a, os: o, libcxx: c }),
        _ => None,
    }
}

fn list_from_json(j: &Json, key: &str) -> (r: Option<Vec<String>>)
    ensures
        r is None <==> list_field(j@, key@) is None,
        r matches Some(v) ==> list_field(j@, key@) == Some(strs_view(v@)),
{
    match j.get(key) {
        Some(x) => x.as_string_list(),
        None => None,
    }
}

fn string_from_json(j: &Json, key: &str) -> (r: Option<String>)
    ensures
        r is None <==> string_value(field(j@, key@)) is None,
        r matches Some(s) ==> string_value(field(j@, key@)) == Some(s@),
{
    match j.get(key) {
        Some(x) => match x.as_str() {
            Some(s) => Some(s.clone()),
            None => None,
        },
        None => None,
    }
}

/// Reads one entry of a manifest's dependency list.
pub fn package_from_json(j: &Json) -> (r: Option<PackageDescriptor>)
    ensures
        r is None <==> package_of(j@) is None,
        r matches Some(p) ==> package_of(j@) == Some(p@),
{
    let name = string_from_json(j, "name");
    let libs = list_from_json(j, "libs");
    let lib_paths = list_from_json(j, "lib_paths");
    let include_paths = list_from_json(j, "include_paths");
    let bin_paths = list_from_json(j, "bin_paths");
    let rootpath = string_from_json(j, "rootpath");
    match (name, libs, lib_paths, include_paths, bin_paths, rootpath) {
        (Some(n), Some(l), Some(lp), Some(ip), Some(bp), Some(rp)) => Some(
            PackageDescriptor { name: n, libs: l, lib_paths: lp, include_paths: ip, bin_paths: bp, rootpath: rp },
        ),
        _ => None,
    }
}

proof fn lemma_packages_prefix(items: Seq<JsonModel>, i: int)
    requires
        0 <= i <= items.len(),
        packages_of(items.subrange(0, i)) is None,
    ensures
        packages_of(items) is None,
    decreases items.len() - i,
{
    if i < items.len() {
        assert(items.subrange(0, i + 1).drop_last() =~= items.subrange(0, i));
        lemma_packages_prefix(items, i + 1);
    } else {
        assert(items.subrange(0, i) =~= items);
    }
}

/// Keys the dependency list of a manifest by package name; a later entry with a
/// name replaces an earlier one.
pub fn build_info(items: &Vec<Json>) -> (r: Option<Vec<(String, PackageDescriptor)>>)
    ensures
        r is None <==> packages_of(items@.map_values(|x: Json| x@)) is None,
        r matches Some(v) ==> packages_of(items@.map_values(|x: Json| x@)) matches Some(ps) && pairs_view(v@)
            == index_all(named(ps)),
        r matches Some(v) ==> keys_unique(pairs_view(v@)),
{
    let ghost models = items@.map_values(|x: Json| x@);
    let mut out: Vec<(String, PackageDescriptor)> = Vec::new();
    let ghost mut ps: Seq<PackageView> = Seq::empty();
    let mut i: usize = 0;
    assert(models.subrange(0, 0) =~= Seq::<JsonModel>::empty());
    while i < items.len()
        invariant
            i <= items@.len(),
            models == items@.map_values(|x: Json| x@),
            packages_of(models.subrange(0, i as int)) == Some(ps),
            pairs_view(out@) == index_all(named(ps)),
            keys_unique(pairs_view(out@)),
        decreases items@.len() - i,
    {
        assert(models.subrange(0, i + 1).drop_last() =~= models.subrange(0, i as int));
        assert(models.subrange(0, i + 1).last() == items@[i as int]@);
        match package_from_json(&items[i]) {
            Some(p) => {
                let name = p.name.clone();
                proof {
                    assert(named(ps.push(p@)) =~= named(ps).push((p@.name, p@)));
                    assert(named(ps.push(p@)).drop_last() =~= named(ps));
                    ps = ps.push(p@);
                }
                upsert_vec(&mut out, name, p);
            },
            None => {
                proof {
                    lemma_packages_prefix(models, i + 1);
                }
                return None;
            },
        }
        i = i + 1;
    }
    assert(models.subrange(0, items@.len() as int) =~= models);
    Some(out)
}

impl BuildInfoDoc {
    /// Reads a manifest document: an object with a `settings` object and a
    /// `dependencies` array of packages.
    pub fn from_json(j: &Json) -> (r: Result<BuildInfoDoc, ConanError>)
        ensures
            r is Ok <==> doc_of(j@) is Some,
            r matches Ok(d) ==> doc_of(j@) == Some(d@),
            r matches Err(e) ==> e == ConanError::InvalidManifest,
    {
        let settings = match j.get("settings") {
            Some(s) => settings_from_json(s),
            None => None,
        };
        let deps = match j.get("dependencies") {
            Some(x) => match x {
                Json::Array(items) => {
                    assert(x@->Array_0 =~= items@.map_values(|y: Json| y@));
                    build_info(items)
                },
                _ => None,
            },
            None => None,
        };
        match (settings, deps) {
            (Some(st), Some(info)) => Ok(BuildInfoDoc { settings: st, info }),
            _ => Err(ConanError::InvalidManifest),
        }
    }

    /// The library directories of every package, package by package.
    pub fn lib_dirs(&self) -> (r: Vec<String>)
        ensures
            strs_view(r@) == all_lib_dirs(self@.packages),
    {
        all_lib_dirs_of(&self.info)
    }
}

/// The library directories of the packages, in order.
pub open spec fn all_lib_dirs(ps: Seq<(Seq<char>, PackageView)>) -> Seq<Seq<char>>
    decreases ps.len(),
{
    if ps.len() == 0 {
        Seq::empty()
    } else {
        all_lib_dirs(ps.drop_last()) + ps.last().1.lib_paths
    }
}

fn append_strings(out: &mut Vec<String>, more: &Vec<String>)
    ensures
        strs_view(final(out)@) == strs_view(old(out)@) + strs_view(more@),
{
    let mut i: usize = 0;
    while i < more.len()
        invariant
            i <= more@.len(),
            strs_view(out@) == strs_view(old(out)@) + strs_view(more@.subrange(0, i as int)),
        decreases more@.len() - i,
    {
        let ghost prev = out@;
        out.push(more[i].clone());
        assert(strs_view(out@) =~= strs_view(prev).push(more@[i as int]@));
        assert(strs_view(more@.subrange(0, i + 1)) =~= strs_view(more@.subrange(0, i as int)).push(more@[i as int]@));
        assert(strs_view(out@) =~= strs_view(old(out)@) + strs_view(more@.subrange(0, i + 1)));
        i = i + 1;
    }
    assert(more@.subrange(0, more@.len() as int) =~= more@);
}

fn all_lib_dirs_of(info: &Vec<(String, PackageDescriptor)>) -> (r: Vec<String>)
    ensures
        strs_view(r@) == all_lib_dirs(pairs_view(info@)),
{
    let mut out: Vec<String> = Vec::new();
    let mut i: usize = 0;
    while i < info.len()
        invariant
            i <= info@.len(),
            strs_view(out@) == all_lib_dirs(pairs_view(info@.subrange(0, i as int))),
        decreases info@.len() - i,
    {
        append_strings(&mut out, &info[i].1.lib_paths);
        assert(pairs_view(info@.subrange(0, i + 1)).drop_last() =~= pairs_view(info@.subrange(0, i as int)));
        i = i + 1;
    }
    assert(info@.subrange(0, info@.len() as int) =~= info@);
    out
}

/// Reads a manifest's text.
pub fn parse_build_info(text: &str) -> (r: Result<BuildInfoDoc, ConanError>)
    ensures
        r is Ok <==> doc_of_text(text@) is Ok,
        r matches Ok(d) ==> doc_of_text(text@) == Ok::<DocView, ConanError>(d@),
        r matches Err(e) ==> doc_of_text(text@) == Err::<DocView, ConanError>(e),
{
    match parse_json(text) {
        None => Err(ConanError::InvalidJson),
        Some(j) => BuildInfoDoc::from_json(&j),
    }
}

/// A file found in a library directory, and whether the dynamic library that
/// would stand beside it (see [`dll_path_for`]) exists.
pub struct LibFile {
    pub file_name: String,
    pub dll_present: bool,
}

impl View for LibFile {
    type V = (Seq<char>, bool);

    open spec fn view(&self) -> (Seq<char>, bool) {
        (self.file_name@, self.dll_present)
    }
}

/// A library's name without a leading `lib` and without its last extension.
pub open spec fn bare_name(name: Seq<char>) -> Seq<char> {
    let n = if has_prefix(name, "lib"@) {
        name.subrange("lib"@.len() as int, name.len() as int)
    } else {
        name
    };
    match last_index_of(n, '.') {
        Some(i) => n.subrange(0, i),
        None => n,
    }
}

/// `name` without a leading `lib`.
pub open spec fn strip_lib(name: Seq<char>) -> Seq<char> {
    if has_prefix(name, "lib"@) {
        name.subrange("lib"@.len() as int, name.len() as int)
    } else {
        name
    }
}

/// Whether `.so.` stands at position `i` of `s`.
pub open spec fn so_dot_at(s: Seq<char>, i: int) -> bool {
    0 <= i && i + ".so."@.len() <= s.len() && s.subrange(i, i + ".so."@.len()) == ".so."@
}

/// The first position, from `i` on, at which `.so.` stands in `s`.
pub open spec fn first_so_dot_from(s: Seq<char>, i: int) -> Option<int>
    decreases s.len() - i,
{
    if i < 0 || i >= s.len() {
        None
    } else if so_dot_at(s, i) {
        Some(i)
    } else {
        first_so_dot_from(s, i + 1)
    }
}

/// A version suffix: digits and dots, at least one character.
pub open spec fn is_version(v: Seq<char>) -> bool {
    v.len() > 0 && forall|k: int| 0 <= k < v.len() ==> ('0' <= #[trigger] v[k] <= '9' || v[k] == '.')
}

/// The library that a versioned shared object (`libfoo.so.1.2`) is: its name
/// without `lib` and without everything from the first `.so.` on, where what
/// follows that `.so.` is a version.
pub open spec fn versioned_so(name: Seq<char>) -> Option<Seq<char>> {
    let n = strip_lib(name);
    match first_so_dot_from(n, 0) {
        Some(i) => if is_version(n.subrange(i + ".so."@.len(), n.len() as int)) {
            Some(n.subrange(0, i))
        } else {
            None
        },
        None => None,
    }
}

/// The library that a file of a library directory is, and how it links: an
/// import library (`.lib`) is shared where its dynamic library exists; a `.so`,
/// plain or versioned, is shared; a `.a` is static; anything else is no library.
pub open spec fn classify_file(name: Seq<char>, dll_present: bool) -> Option<(Seq<char>, Link)> {
    if has_suffix(name, ".lib"@) {
        Some(
            (
                name.subrange(0, name.len() - ".lib"@.len()),
                if dll_present {
                    Link::Shared
                } else {
                    Link::Static
                },
            ),
        )
    } else if has_suffix(name, ".so"@) {
        Some((bare_name(name), Link::Shared))
    } else if has_suffix(name, ".a"@) {
        Some((bare_name(name), Link::Static))
    } else if versioned_so(name) is Some {
        Some((versioned_so(name)->Some_0, Link::Shared))
    } else {
        None
    }
}

/// The libraries among the files, in order.
pub open spec fn classified(files: Seq<(Seq<char>, bool)>) -> Seq<(Seq<char>, Link)>
    decreases files.len(),
{
    if files.len() == 0 {
        Seq::empty()
    } else {
        classified(files.drop_last()) + match classify_file(files.last().0, files.last().1) {
            Some(p) => seq![p],
            None => Seq::empty(),
        }
    }
}

/// The link kind of each library among the files; a later file of a name wins.
pub open spec fn link_kinds(files: Seq<(Seq<char>, bool)>) -> Seq<(Seq<char>, Link)> {
    index_all(classified(files))
}

pub open spec fn files_view(files: Seq<LibFile>) -> Seq<(Seq<char>, bool)> {
    files.map_values(|f: LibFile| f@)
}

/// Where the dynamic library of an import library would stand: in `bin`, beside
/// the directory that holds the library directory.
pub open spec fn dll_probe(dir: Seq<char>, name: Seq<char>) -> Option<Seq<char>> {
    if has_suffix(name, ".lib"@) {
        Some(
            join_path(
                join_path(parent_dir(dir), "bin"@),
                name.subrange(0, name.len() - ".lib"@.len()) + ".dll"@,
            ),
        )
    } else {
        None
    }
}

fn bare_name_of(name: &str) -> (r: String)
    ensures
        r@ == bare_name(name@),
{
    let n = name.unicode_len();
    let p = "lib".unicode_len();
    let rest: &str = if starts_with(name, "lib") {
        name.substring_char(p, n)
    } else {
        name
    };
    match rfind_char(rest, '.') {
        Some(i) => rest.substring_char(0, i).to_owned(),
        None => rest.to_owned(),
    }
}

fn first_so_dot_of(s: &str) -> (r: Option<usize>)
    ensures
        r is None <==> first_so_dot_from(s@, 0) is None,
        r matches Some(i) ==> first_so_dot_from(s@, 0) == Some(i as int) && so_dot_at(s@, i as int),
{
    let n = s.unicode_len();
    let k = ".so.".unicode_len();
    let mut i: usize = 0;
    while i < n
        invariant
            n == s@.len(),
            i <= n,
            k == ".so."@.len(),
            first_so_dot_from(s@, 0) == first_so_dot_from(s@, i as int),
        decreases n - i,
    {
        let rest = s.substring_char(i, n);
        if starts_with(rest, ".so.") {
            assert(s@.subrange(i as int, i + k) =~= rest@.subrange(0, k as int));
            return Some(i);
        }
        assert(!so_dot_at(s@, i as int)) by {
            if so_dot_at(s@, i as int) {
                assert(rest@.subrange(0, k as int) =~= s@.subrange(i as int, i + k));
            }
        }
        i = i + 1;
    }
    None
}

fn all_version_chars(v: &str) -> (r: bool)
    ensures
        r == is_version(v@),
{
    let n = v.unicode_len();
    if n == 0 {
        return false;
    }
    let mut i: usize = 0;
    while i < n
        invariant
            n == v@.len(),
            i <= n,
            forall|k: int| 0 <= k < i ==> ('0' <= #[trigger] v@[k] <= '9' || v@[k] == '.'),
        decreases n - i,
    {
        let c = v.get_char(i);
        if !(('0' <= c && c <= '9') || c == '.') {
            return false;
        }
        i = i + 1;
    }
    true
}

fn versioned_so_name(name: &str) -> (r: Option<String>)
    ensures
        r is None <==> versioned_so(name@) is None,
        r matches Some(x) ==> versioned_so(name@) == Some(x@),
{
    let len = name.unicode_len();
    let p = "lib".unicode_len();
    let rest: &str = if starts_with(name, "lib") {
        name.substring_char(p, len)
    } else {
        name
    };
    assert(rest@ == strip_lib(name@));
    match first_so_dot_of(rest) {
        Some(i) => {
            let n = rest.unicode_len();
            let k = ".so.".unicode_len();
            if all_version_chars(rest.substring_char(i + k, n)) {
                Some(rest.substring_char(0, i).to_owned())
            } else {
                None
            }
        },
        None => None,
    }
}

/// Classifies one file of a library directory.
pub fn classify_file_name(name: &str, dll_present: bool) -> (r: Option<(String, Link)>)
    ensures
        r is None <==> classify_file(name@, dll_present) is None,
        r matches Some(p) ==> classify_file(name@, dll_present) == Some((p.0@, p.1)),
{
    if ends_with(name, ".lib") {
        let n = name.unicode_len();
        let k = ".lib".unicode_len();
        let stem = name.substring_char(0, n - k).to_owned();
        if dll_present {
            Some((stem, Link::Shared))
        } else {
            Some((stem, Link::Static))
        }
    } else if ends_with(name, ".so") {
        Some((bare_name_of(name), Link::Shared))
    } else if ends_with(name, ".a") {
        Some((bare_name_of(name), Link::Static))
    } else {
        match versioned_so_name(name) {
            Some(n) => Some((n, Link::Shared)),
            None => None,
        }
    }
}

/// The path at which the dynamic library of the import library `file_name`, found
/// in `dir`, would stand; `None` for a file that is no import library.
pub fn dll_path_for(dir: &str, file_name: &str) -> (r: Option<String>)
    ensures
        r is None <==> dll_probe(dir@, file_name@) is None,
        r matches Some(p) ==> dll_probe(dir@, file_name@) == Some(p@),
{
    if !ends_with(file_name, ".lib") {
        return None;
    }
    let n = file_name.unicode_len();
    let k = ".lib".unicode_len();
    let mut dll = file_name.substring_char(0, n - k).to_owned();
    dll.append(".dll");
    let parent = parent_dir_str(dir);
    let bin = join_path_str(parent.as_str(), "bin");
    Some(join_path_str(bin.as_str(), dll.as_str()))
}

/// The link kind of every library among the files of the library directories, in
/// the order in which they were listed; a later file of a name wins.
pub fn find_all_libs(files: &Vec<LibFile>) -> (r: Vec<(String, Link)>)
    ensures
        pairs_view(r@) == link_kinds(files_view(files@)),
        keys_unique(pairs_view(r@)),
{
    let ghost fv = files_view(files@);
    let mut out: Vec<(String, Link)> = Vec::new();
    let mut i: usize = 0;
    while i < files.len()
        invariant
            i <= files@.len(),
            fv == files_view(files@),
            pairs_view(out@) == index_all(classified(fv.subrange(0, i as int))),
            keys_unique(pairs_view(out@)),
        decreases files@.len() - i,
    {
        let ghost before = classified(fv.subrange(0, i as int));
        assert(fv.subrange(0, i + 1).drop_last() =~= fv.subrange(0, i as int));
        assert(fv.subrange(0, i + 1).last() == files@[i as int]@);
        let f = &files[i];
        match classify_file_name(f.file_name.as_str(), f.dll_present) {
            Some(p) => {
                let ghost pv = (p.0@, p.1);
                assert(classified(fv.subrange(0, i + 1)) == before + seq![pv]);
                assert((before + seq![pv]).drop_last() =~= before);
                upsert_vec(&mut out, p.0, p.1);
            },
            None => {
                assert(classified(fv.subrange(0, i + 1)) =~= before);
            },
        }
        i = i + 1;
    }
    assert(fv.subrange(0, files@.len() as int) =~= fv);
    out
}

proof fn lemma_classified_append(a: Seq<(Seq<char>, bool)>, b: Seq<(Seq<char>, bool)>)
    ensures
        classified(a + b) == classified(a) + classified(b),
    decreases b.len(),
{
    if b.len() == 0 {
        assert(a + b =~= a);
        assert(classified(a) + classified(b) =~= classified(a));
    } else {
        assert((a + b).drop_last() =~= a + b.drop_last());
        assert((a + b).last() == b.last());
        lemma_classified_append(a, b.drop_last());
        let tail = match classify_file(b.last().0, b.last().1) {
            Some(p) => seq![p],
            None => Seq::empty(),
        };
        assert(classified(a) + classified(b.drop_last()) + tail =~= classified(a) + (classified(b.drop_last()) + tail));
    }
}

/// Classifying the same files again gives the same link kinds: each library
/// keeps its kind when the listing is read twice over.
pub proof fn lemma_classification_idempotent(files: Seq<(Seq<char>, bool)>)
    ensures
        keys_unique(link_kinds(files + files)),
        forall|k: Seq<char>| #[trigger] lookup(link_kinds(files + files), k) == lookup(link_kinds(files), k),
{
    let c = classified(files);
    lemma_classified_append(files, files);
    lemma_index_all(c + c);
    lemma_index_all(c);
    assert forall|k: Seq<char>| #[trigger] lookup(link_kinds(files + files), k) == lookup(link_kinds(files), k) by {
        lemma_last_value_append(c, c, k);
    }
}

/// A manifest's target depends on its architecture and operating system alone.
pub proof fn lemma_target_depends_on_arch_os(a: SettingsView, b: SettingsView)
    requires
        a.arch == b.arch,
        a.os == b.os,
    ensures
        target_of(a) == target_of(b),
{
}

/// One manifest: where it was read from, its settings, its packages keyed by
/// name, and the link kind of each library found in their library directories.
pub struct BuildInfo {
    path: String,
    settings: Settings,
    info: Vec<(String, PackageDescriptor)>,
    libs: Vec<(String, Link)>,
}

pub struct BuildInfoView {
    pub path: Seq<char>,
    pub settings: SettingsView,
    pub packages: Seq<(Seq<char>, PackageView)>,
    pub libs: Seq<(Seq<char>, Link)>,
}

impl View for BuildInfo {
    type V = BuildInfoView;

    closed spec fn view(&self) -> BuildInfoView {
        BuildInfoView {
            path: self.path@,
            settings: self.settings@,
            packages: pairs_view(self.info@),
            libs: pairs_view(self.libs@),
        }
    }
}

/// Whether a library links as a shared one: so unless it was found static. A
/// library that was not found at all counts as shared.
pub open spec fn shared_in(libs: Seq<(Seq<char>, Link)>, lib: Seq<char>) -> bool {
    lookup(libs, lib) != Some(Link::Static)
}

/// The target triple of a manifest's settings.
pub open spec fn target_of(s: SettingsView) -> Option<Seq<char>> {
    match (s.arch, s.os) {
        (Some(a), Some(o)) => triple_of(a, o),
        _ => None,
    }
}

/// The error that a manifest's settings give in place of a target triple.
pub open spec fn target_error(s: SettingsView, e: ConanError) -> bool {
    match (s.arch, s.os) {
        (None, _) => e matches ConanError::MissingSetting(k) && k@ == "arch"@,
        (Some(_), None) => e matches ConanError::MissingSetting(k) && k@ == "os"@,
        (Some(a), Some(o)) => is_unsupported_error(e, a, o),
    }
}

/// The C++ standard library that a `compiler.libcxx` setting names: any variant
/// of GNU's `libstdc++` is `stdc++`; otherwise a leading `lib` is dropped.
pub open spec fn cxx_name(libcxx: Option<Seq<char>>) -> Option<Seq<char>> {
    match libcxx {
        None => None,
        Some(x) => if has_prefix(x, "libstdc++"@) {
            Some("stdc++"@)
        } else if has_prefix(x, "lib"@) {
            Some(x.subrange("lib"@.len() as int, x.len() as int))
        } else {
            Some(x)
        },
    }
}

impl BuildInfo {
    #[verifier::type_invariant]
    spec fn inv(&self) -> bool {
        keys_unique(pairs_view(self.info@)) && keys_unique(pairs_view(self.libs@))
    }

    /// A manifest read from `path`: its document, and the files found in its
    /// packages' library directories (those of [`BuildInfoDoc::lib_dirs`], in order).
    pub fn read_build_info(path: String, doc: BuildInfoDoc, files: &Vec<LibFile>) -> (r: BuildInfo)
        ensures
            r@ == (BuildInfoView {
                path: path@,
                settings: doc@.settings,
                packages: doc@.packages,
                libs: link_kinds(files_view(files@)),
            }),
    {
        proof {
            use_type_invariant(&doc);
        }
        let libs = find_all_libs(files);
        let BuildInfoDoc { settings, info } = doc;
        BuildInfo { path, settings, info, libs }
    }

    /// How many packages the manifest declares.
    pub fn package_count(&self) -> (r: usize)
        ensures
            r == self@.packages.len(),
    {
        self.info.len()
    }

    /// The package at position `i`, in the order of first declaration.
    pub fn package_at(&self, i: usize) -> (r: &PackageDescriptor)
        requires
            i < self@.packages.len(),
        ensures
            r@ == self@.packages[i as int].1,
    {
        &self.info[i].1
    }

    /// Where this manifest was read from.
    pub fn path(&self) -> (r: &String)
        ensures
            r@ == self@.path,
    {
        &self.path
    }

    /// The target triple of this manifest's settings.
    pub fn target(&self) -> (r: Result<String, ConanError>)
        ensures
            r is Ok <==> target_of(self@.settings) is Some,
            r matches Ok(t) ==> target_of(self@.settings) == Some(t@),
            r matches Err(e) ==> target_error(self@.settings, e),
    {
        match (&self.settings.arch, &self.settings.os) {
            (None, _) => Err(ConanError::MissingSetting("arch".to_owned())),
            (Some(_), None) => Err(ConanError::MissingSetting("os".to_owned())),
            (Some(a), Some(o)) => target_from_arch_and_os(a.as_str(), o.as_str()),
        }
    }

    /// The names of all packages, in order.
    pub fn all_deps(&self) -> (r: Vec<String>)
        ensures
            strs_view(r@) == self@.packages.map_values(|p: (Seq<char>, PackageView)| p.0),
    {
        let mut out: Vec<String> = Vec::new();
        let mut i: usize = 0;
        while i < self.info.len()
            invariant
                i <= self.info@.len(),
                strs_view(out@) == pairs_view(self.info@).subrange(0, i as int).map_values(
                    |p: (Seq<char>, PackageView)| p.0,
                ),
            decreases self.info@.len() - i,
        {
            let ghost prev = out@;
            out.push(self.info[i].0.clone());
            assert(strs_view(out@) =~= strs_view(prev).push(self.info@[i as int].0@));
            assert(pairs_view(self.info@).subrange(0, i + 1).map_values(|p: (Seq<char>, PackageView)| p.0)
                =~= pairs_view(self.info@).subrange(0, i as int).map_values(|p: (Seq<char>, PackageView)| p.0).push(
                self.info@[i as int].0@,
            ));
            i = i + 1;
        }
        assert(pairs_view(self.info@).subrange(0, self.info@.len() as int) =~= pairs_view(self.info@));
        out
    }

    /// The package of this name, if the manifest declares one.
    pub fn try_package(&self, package: &str) -> (r: Option<&PackageDescriptor>)
        ensures
            r is None <==> lookup(self@.packages, package@) is None,
            r matches Some(p) ==> lookup(self@.packages, package@) == Some(p@),
    {
        proof {
            use_type_invariant(self);
        }
        let key = package.to_owned();
        get_vec(&self.info, &key)
    }

    /// The package of this name; an error where the manifest declares none.
    pub fn package(&self, package: &str) -> (r: Result<&PackageDescriptor, ConanError>)
        ensures
            r is Ok <==> lookup(self@.packages, package@) is Some,
            r matches Ok(p) ==> lookup(self@.packages, package@) == Some(p@),
            r matches Err(e) ==> e matches ConanError::MissingDependency(n) && n@ == package@,
    {
        match self.try_package(package) {
            Some(p) => Ok(p),
            None => Err(ConanError::MissingDependency(package.to_owned())),
        }
    }

    /// Whether the library links as a shared one (so where it was not found).
    pub fn is_shared(&self, lib: &str) -> (r: bool)
        ensures
            r == shared_in(self@.libs, lib@),
    {
        proof {
            use_type_invariant(self);
        }
        let key = lib.to_owned();
        match get_vec(&self.libs, &key) {
            Some(link) => *link == Link::Shared,
            None => true,
        }
    }

    /// The library directories of a package.
    pub fn libdir_for_package(value: &PackageDescriptor) -> (r: Vec<String>)
        ensures
            strs_view(r@) == value@.lib_paths,
    {
        let mut out: Vec<String> = Vec::new();
        append_strings(&mut out, &value.lib_paths);
        out
    }

    /// The library directories of the named package.
    pub fn libdir_for(&self, package: &str) -> (r: Result<Vec<String>, ConanError>)
        ensures
            r is Ok <==> lookup(self@.packages, package@) is Some,
            r matches Ok(v) ==> strs_view(v@) == lookup(self@.packages, package@)->Some_0.lib_paths,
            r matches Err(e) ==> e matches ConanError::MissingDependency(n) && n@ == package@,
    {
        let p = self.package(package)?;
        Ok(Self::libdir_for_package(p))
    }

    /// The libraries of the named package.
    pub fn libs_for(&self, package: &str) -> (r: Result<Vec<String>, ConanError>)
        ensures
            r is Ok <==> lookup(self@.packages, package@) is Some,
            r matches Ok(v) ==> strs_view(v@) == lookup(self@.packages, package@)->Some_0.libs,
            r matches Err(e) ==> e matches ConanError::MissingDependency(n) && n@ == package@,
    {
        let p = self.package(package)?;
        let mut out: Vec<String> = Vec::new();
        append_strings(&mut out, &p.libs);
        Ok(out)
    }

    /// The include directories of the named package.
    pub fn includes_for(&self, package: &str) -> (r: Result<Vec<String>, ConanError>)
        ensures
            r is Ok <==> lookup(self@.packages, package@) is Some,
            r matches Ok(v) ==> strs_view(v@) == lookup(self@.packages, package@)->Some_0.include_paths,
            r matches Err(e) ==> e matches ConanError::MissingDependency(n) && n@ == package@,
    {
        let p = self.package(package)?;
        let mut out: Vec<String> = Vec::new();
        append_strings(&mut out, &p.include_paths);
        Ok(out)
    }

    /// The executable directories of the named package.
    pub fn bindir_for(&self, package: &str) -> (r: Result<Vec<String>, ConanError>)
        ensures
            r is Ok <==> lookup(self@.packages, package@) is Some,
            r matches Ok(v) ==> strs_view(v@) == lookup(self@.packages, package@)->Some_0.bin_paths,
            r matches Err(e) ==> e matches ConanError::MissingDependency(n) && n@ == package@,
    {
        let p = self.package(package)?;
        let mut out: Vec<String> = Vec::new();
        append_strings(&mut out, &p.bin_paths);
        Ok(out)
    }

    /// The installation root of the named package.
    pub fn rootpath_for(&self, package: &str) -> (r: Result<String, ConanError>)
        ensures
            r is Ok <==> lookup(self@.packages, package@) is Some,
            r matches Ok(v) ==> v@ == lookup(self@.packages, package@)->Some_0.rootpath,
            r matches Err(e) ==> e matches ConanError::MissingDependency(n) && n@ == package@,
    {
        let p = self.package(package)?;
        Ok(p.rootpath.clone())
    }

    /// The C++ standard library that the settings name, if they name one.
    pub fn libcxx_name(&self) -> (r: Option<String>)
        ensures
            r is None <==> cxx_name(self@.settings.libcxx) is None,
            r matches Some(n) ==> cxx_name(self@.settings.libcxx) == Some(n@),
    {
        match &self.settings.libcxx {
            None => None,
            Some(x) => {
                if starts_with(x.as_str(), "libstdc++") {
                    Some("stdc++".to_owned())
                } else if starts_with(x.as_str(), "lib") {
                    let n = x.as_str().unicode_len();
                    let p = "lib".unicode_len();
                    Some(x.as_str().substring_char(p, n).to_owned())
                } else {
                    Some(x.clone())
                }
            },
        }
    }
}

} // verus!
