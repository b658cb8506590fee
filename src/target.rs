//! The table from a manifest's architecture and operating system to the
//! target triple that names them.
use vstd::prelude::*;
use crate::error::ConanError;
use crate::text::str_equal;

verus! {

pub open spec fn os_known(os: Seq<char>) -> bool {
    os == "Linux"@ || os == "Windows"@ || os == "Macos"@ || os == "iOS"@ || os == "Android"@
}

/// The target triple of an architecture on an operating system, where the table has one.
pub open spec fn triple_of(arch: Seq<char>, os: Seq<char>) -> Option<Seq<char>> {
    if os == "Linux"@ {
        if arch == "x86_64"@ {
            Some("x86_64-unknown-linux-gnu"@)
        } else if arch == "x86"@ {
            Some("i686-unknown-linux-gnu"@)
        } else {
            None
        }
    } else if os == "Windows"@ {
        if arch == "x86_64"@ {
            Some("x86_64-pc-windows-msvc"@)
        } else if arch == "x86"@ {
            Some("i686-pc-windows-msvc"@)
        } else {
            None
        }
    } else if os == "Macos"@ {
        if arch == "armv8"@ {
            Some("aarch64-apple-darwin"@)
        } else if arch == "x86_64"@ {
            Some("x86_64-apple-darwin"@)
        } else {
            None
        }
    } else if os == "iOS"@ {
        if arch == "armv8"@ {
            Some("aarch64-apple-ios"@)
        } else {
            None
        }
    } else if os == "Android"@ {
        if arch == "armv8"@ {
            Some("aarch64-linux-android"@)
        } else if arch == "armv7"@ {
            Some("armv7-linux-androideabi"@)
        } else if arch == "x86"@ {
            Some("i686-linux-android"@)
        } else if arch == "x86_64"@ {
            Some("x86_64-linux-android"@)
        } else {
            None
        }
    } else {
        None
    }
}

/// The error that the table gives for a pair it does not hold.
pub open spec fn is_unsupported_error(e: ConanError, arch: Seq<char>, os: Seq<char>) -> bool {
    if os_known(os) {
        e matches ConanError::UnsupportedArch { arch: a, os: o } && a@ == arch && o@ == os
    } else {
        e matches ConanError::UnsupportedOs(o) && o@ == os
    }
}

fn unsupported_arch(arch: &str, os: &str) -> (r: ConanError)
    ensures
        r matches ConanError::UnsupportedArch { arch: a, os: o } && a@ == arch@ && o@ == os@,
{
    ConanError::UnsupportedArch { arch: arch.to_owned(), os: os.to_owned() }
}

/// The target triple of `arch` on `os`.
pub fn target_from_arch_and_os(arch: &str, os: &str) -> (r: Result<String, ConanError>)
    ensures
        r is Ok <==> triple_of(arch@, os@) is Some,
        r matches Ok(t) ==> triple_of(arch@, os@) == Some(t@),
        r matches Err(e) ==> is_unsupported_error(e, arch@, os@),
{
    if str_equal(os, "Linux") {
        if str_equal(arch, "x86_64") {
            Ok("x86_64-unknown-linux-gnu".to_owned())
        } else if str_equal(arch, "x86") {
            Ok("i686-unknown-linux-gnu".to_owned())
        } else {
            Err(unsupported_arch(arch, os))
        }
    } else if str_equal(os, "Windows") {
        if str_equal(arch, "x86_64") {
            Ok("x86_64-pc-windows-msvc".to_owned())
        } else if str_equal(arch, "x86") {
            Ok("i686-pc-windows-msvc".to_owned())
        } else {
            Err(unsupported_arch(arch, os))
        }
    } else if str_equal(os, "Macos") {
        if str_equal(arch, "armv8") {
            Ok("aarch64-apple-darwin".to_owned())
        } else if str_equal(arch, "x86_64") {
            Ok("x86_64-apple-darwin".to_owned())
        } else {
            Err(unsupported_arch(arch, os))
        }
    } else if str_equal(os, "iOS") {
        if str_equal(arch, "armv8") {
            Ok("aarch64-apple-ios".to_owned())
        } else {
            Err(unsupported_arch(arch, os))
        }
    } else if str_equal(os, "Android") {
        if str_equal(arch, "armv8") {
            Ok("aarch64-linux-android".to_owned())
        } else if str_equal(arch, "armv7") {
            Ok("armv7-linux-androideabi".to_owned())
        } else if str_equal(arch, "x86") {
            Ok("i686-linux-android".to_owned())
        } else if str_equal(arch, "x86_64") {
            Ok("x86_64-linux-android".to_owned())
        } else {
            Err(unsupported_arch(arch, os))
        }
    } else {
        Err(ConanError::UnsupportedOs(os.to_owned()))
    }
}

} // verus!
