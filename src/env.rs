//! The environment scripts of a manifest: one for POSIX shells, one for
//! PowerShell.
use vstd::prelude::*;
use crate::error::ConanError;
use crate::keyed::lookup;
use crate::manifest::{
    shared_in, target_error, target_of, BuildInfo, BuildInfoView, Link, PackageDescriptor, PackageView,
};
use vstd::string::*;
use crate::text::{
    double_backslashes, escape_backslashes, join_strings, joined, replace_char, replace_chars,
    strs_view,
};

verus! {

/// Whether at least one library of the package links as a shared one.
pub open spec fn has_shared_lib(libs: Seq<(Seq<char>, Link)>, p: PackageView) -> bool {
    exists|i: int| 0 <= i < p.libs.len() && shared_in(libs, #[trigger] p.libs[i])
}

/// The library directories (or, with `bins`, the executable directories) of the
/// packages that have a shared library, in order.
pub open spec fn shared_dirs(ps: Seq<(Seq<char>, PackageView)>, libs: Seq<(Seq<char>, Link)>, bins: bool) -> Seq<Seq<char>>
    decreases ps.len(),
{
    if ps.len() == 0 {
        Seq::empty()
    } else {
        shared_dirs(ps.drop_last(), libs, bins) + if has_shared_lib(libs, ps.last().1) {
            if bins {
                ps.last().1.bin_paths
            } else {
                ps.last().1.lib_paths
            }
        } else {
            Seq::empty()
        }
    }
}

/// The prefix of a target's variables: its triple with `_` for `-`.
pub open spec fn env_prefix(triple: Seq<char>) -> Seq<char> {
    replace_char(triple, '-', '_')
}

/// The POSIX shell script of a manifest for a target.
pub open spec fn sh_script(m: BuildInfoView, triple: Seq<char>, is_host: bool) -> Seq<char> {
    let prefix = env_prefix(triple);
    let libdirs = joined(shared_dirs(m.packages, m.libs, false), ":"@);
    "export "@ + prefix + "_CONANBUILDINFO="@ + m.path + "\n"@ + (if is_host && libdirs.len() > 0 {
        "export LD_LIBRARY_PATH="@ + libdirs + "\n"@
    } else {
        Seq::empty()
    }) + match lookup(m.packages, "openssl"@) {
        Some(p) => "export "@ + prefix + "_OPENSSL_DIR="@ + p.rootpath + "\n"@ + (if is_host {
            "export OPENSSL_DIR="@ + p.rootpath + "\n"@
        } else {
            Seq::empty()
        }),
        None => Seq::empty(),
    }
}

/// The PowerShell script of a manifest for a target.
pub open spec fn ps1_script(m: BuildInfoView, triple: Seq<char>, is_host: bool) -> Seq<char> {
    let prefix = env_prefix(triple);
    let bindirs = double_backslashes(joined(shared_dirs(m.packages, m.libs, true), ";"@));
    "$env:"@ + prefix + "_CONANBUILDINFO=\""@ + m.path + "\"\n"@ + (if is_host && bindirs.len() > 0 {
        "$env:PATH=\""@ + bindirs + ";$env:PATH\"\n"@
    } else {
        Seq::empty()
    }) + match lookup(m.packages, "openssl"@) {
        Some(p) => "$env:"@ + prefix + "_OPENSSL_DIR=\""@ + p.rootpath + "\"\n"@ + (if is_host {
            "$env:OPENSSL_DIR=\""@ + p.rootpath + "\"\n"@
        } else {
            Seq::empty()
        }),
        None => Seq::empty(),
    }
}

fn append_all(out: &mut Vec<String>, more: &Vec<String>)
    ensures
        strs_view(final(out)@) == strs_view(old(out)@) + strs_view(more@),
{
    let mut i: usize = 0;
    while i < more.len()
        invariant
            i <= more@.len(),
            strs_view(out@) == strs_view(old(out)@) + strs_view(more@.subrange(0, i as int)),
        decreases more@.len() - i,
    {
        let ghost prev = out@;
        out.push(more[i].clone());
        assert(strs_view(out@) =~= strs_view(prev).push(more@[i as int]@));
        assert(strs_view(more@.subrange(0, i + 1)) =~= strs_view(more@.subrange(0, i as int)).push(more@[i as int]@));
        i = i + 1;
    }
    assert(more@.subrange(0, more@.len() as int) =~= more@);
}

impl BuildInfo {
    fn package_has_shared(&self, p: &PackageDescriptor) -> (r: bool)
        ensures
            r == has_shared_lib(self@.libs, p@),
    {
        let libs = &p.libs;
        let ghost pv = p@;
        let mut i: usize = 0;
        while i < libs.len()
            invariant
                i <= libs@.len(),
                pv == p@,
                libs == &p.libs,
                forall|j: int| 0 <= j < i ==> !shared_in(self@.libs, #[trigger] pv.libs[j]),
            decreases libs@.len() - i,
        {
            assert(pv.libs[i as int] == libs@[i as int]@);
            if self.is_shared(libs[i].as_str()) {
                return true;
            }
            i = i + 1;
        }
        false
    }

    fn shared_dirs_of(&self, bins: bool) -> (r: Vec<String>)
        ensures
            strs_view(r@) == shared_dirs(self@.packages, self@.libs, bins),
    {
        let ghost ps = self@.packages;
        let n = self.package_count();
        let mut out: Vec<String> = Vec::new();
        let mut i: usize = 0;
        while i < n
            invariant
                i <= n,
                n == ps.len(),
                ps == self@.packages,
                strs_view(out@) == shared_dirs(ps.subrange(0, i as int), self@.libs, bins),
            decreases n - i,
        {
            let p = self.package_at(i);
            assert(ps.subrange(0, i + 1).drop_last() =~= ps.subrange(0, i as int));
            if self.package_has_shared(p) {
                if bins {
                    append_all(&mut out, &p.bin_paths);
                } else {
                    append_all(&mut out, &p.lib_paths);
                }
            } else {
                assert(strs_view(out@) + Seq::<Seq<char>>::empty() =~= strs_view(out@));
            }
            i = i + 1;
        }
        assert(ps.subrange(0, n as int) =~= ps);
        out
    }

    /// The two environment scripts of this manifest, for POSIX shells and for
    /// PowerShell: its path; where it is the host's, the library and executable
    /// search paths of its packages with shared libraries; and the root of an
    /// `openssl` package, where it has one.
    pub fn write_env_source(&self, is_host: bool) -> (r: Result<(String, String), ConanError>)
        ensures
            r is Ok <==> target_of(self@.settings) is Some,
            r matches Ok(scripts) ==> scripts.0@ == sh_script(self@, target_of(self@.settings)->Some_0, is_host)
                && scripts.1@ == ps1_script(self@, target_of(self@.settings)->Some_0, is_host),
            r matches Err(e) ==> target_error(self@.settings, e),
    {
        let triple = self.target()?;
        proof {
            reveal_strlit("_");
        }
        let prefix = replace_chars(triple.as_str(), '-', "_");
        let path = self.path();

        let mut sh = "export ".to_owned();
        sh.append(prefix.as_str());
        sh.append("_CONANBUILDINFO=");
        sh.append(path.as_str());
        sh.append("\n");
        let mut ps1 = "$env:".to_owned();
        ps1.append(prefix.as_str());
        ps1.append("_CONANBUILDINFO=\"");
        ps1.append(path.as_str());
        ps1.append("\"\n");
        let ghost sh1 = sh@;
        let ghost ps11 = ps1@;

        let libdirs = join_strings(&self.shared_dirs_of(false), ":");
        let mut sh2 = String::new();
        if is_host && libdirs.unicode_len() > 0 {
            sh2.append("export LD_LIBRARY_PATH=");
            sh2.append(libdirs.as_str());
            sh2.append("\n");
        }
        let bindirs = escape_backslashes(join_strings(&self.shared_dirs_of(true), ";").as_str());
        let mut ps2 = String::new();
        if is_host && bindirs.unicode_len() > 0 {
            ps2.append("$env:PATH=\"");
            ps2.append(bindirs.as_str());
            ps2.append(";$env:PATH\"\n");
        }

        let mut sh3 = String::new();
        let mut ps3 = String::new();
        match self.try_package("openssl") {
            Some(p) => {
                let dir = p.rootpath.as_str();
                sh3.append("export ");
                sh3.append(prefix.as_str());
                sh3.append("_OPENSSL_DIR=");
                sh3.append(dir);
                sh3.append("\n");
                ps3.append("$env:");
                ps3.append(prefix.as_str());
                ps3.append("_OPENSSL_DIR=\"");
                ps3.append(dir);
                ps3.append("\"\n");
                let ghost sh3a = sh3@;
                let ghost ps3a = ps3@;
                if is_host {
                    sh3.append("export OPENSSL_DIR=");
                    sh3.append(dir);
                    sh3.append("\n");
                    ps3.append("$env:OPENSSL_DIR=\"");
                    ps3.append(dir);
                    ps3.append("\"\n");
                }
                proof {
                    let tail_sh = if is_host {
                        "export OPENSSL_DIR="@ + p@.rootpath + "\n"@
                    } else {
                        Seq::empty()
                    };
                    assert(sh3@ =~= sh3a + tail_sh);
                    let tail_ps = if is_host {
                        "$env:OPENSSL_DIR=\""@ + p@.rootpath + "\"\n"@
                    } else {
                        Seq::empty()
                    };
                    assert(ps3@ =~= ps3a + tail_ps);
                }
            },
            None => {},
        }
        sh.append(sh2.as_str());
        sh.append(sh3.as_str());
        ps1.append(ps2.as_str());
        ps1.append(ps3.as_str());
        proof {
            let m = self@;
            let t = target_of(self@.settings)->Some_0;
            assert(prefix@ == env_prefix(t));
            assert(sh@ =~= sh_script(m, t, is_host));
            assert(ps1@ =~= ps1_script(m, t, is_host));
        }
        Ok((sh, ps1))
    }
}

} // verus!
