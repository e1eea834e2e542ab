//! The vocabulary of the AdoptOpenJDK API: the values a binary request is
//! made of, and the list of available releases.

use vstd::prelude::*;
use vstd::string::*;
use colored::Colorize;
use crate::error::AdoptOpenJDKError;
use crate::text::{chars_of, string_of_range, int_decimal, nat_decimal, is_digit, push_char, push_int_decimal, str_equal};

verus! {
/// The processor architecture a build is made for.
/// Each value is written as its own name (`to_string`).
#[allow(non_camel_case_types)]
#[derive(Clone, Copy, Debug, PartialEq, Eq, Structural)]
pub enum Architecture {
    x64,
    x86,
    x32,
    ppc64,
    ppc64le,
    s390x,
    aarch64,
    arm,
    sparcv9,
    riscv64,
}

impl Architecture {
    /// The name the value is written as.
    pub open spec fn spec_to_string(self) -> Seq<char> {
        match self {
            Architecture::x64 => "x64"@,
            Architecture::x86 => "x86"@,
            Architecture::x32 => "x32"@,
            Architecture::ppc64 => "ppc64"@,
            Architecture::ppc64le => "ppc64le"@,
            Architecture::s390x => "s390x"@,
            Architecture::aarch64 => "aarch64"@,
            Architecture::arm => "arm"@,
            Architecture::sparcv9 => "sparcv9"@,
            Architecture::riscv64 => "riscv64"@,
        }
    }

    /// The name the value is written as.
    pub fn to_string(&self) -> (r: String)
        ensures
            r@ == self.spec_to_string(),
    {
        match self {
            Architecture::x64 => String::from_str("x64"),
            Architecture::x86 => String::from_str("x86"),
            Architecture::x32 => String::from_str("x32"),
            Architecture::ppc64 => String::from_str("ppc64"),
            Architecture::ppc64le => String::from_str("ppc64le"),
            Architecture::s390x => String::from_str("s390x"),
            Architecture::aarch64 => String::from_str("aarch64"),
            Architecture::arm => String::from_str("arm"),
            Architecture::sparcv9 => String::from_str("sparcv9"),
            Architecture::riscv64 => String::from_str("riscv64"),
        }
    }
}

/// The Java virtual machine a build uses.
/// Each value is written as its own name (`to_string`).
#[allow(non_camel_case_types)]
#[derive(Clone, Copy, Debug, PartialEq, Eq, Structural)]
pub enum JVMImpl {
    hotspot,
    openj9,
}

impl JVMImpl {
    /// The name the value is written as.
    pub open spec fn spec_to_string(self) -> Seq<char> {
        match self {
            JVMImpl::hotspot => "hotspot"@,
            JVMImpl::openj9 => "openj9"@,
        }
    }

    /// The name the value is written as.
    pub fn to_string(&self) -> (r: String)
        ensures
            r@ == self.spec_to_string(),
    {
        match self {
            JVMImpl::hotspot => String::from_str("hotspot"),
            JVMImpl::openj9 => String::from_str("openj9"),
        }
    }
}

/// The heap layout a build is made for.
/// Each value is written as its own name (`to_string`).
#[allow(non_camel_case_types)]
#[derive(Clone, Copy, Debug, PartialEq, Eq, Structural)]
pub enum HeapSize {
    normal,
    large,
}

impl HeapSize {
    /// The name the value is written as.
    pub open spec fn spec_to_string(self) -> Seq<char> {
        match self {
            HeapSize::normal => "normal"@,
            HeapSize::large => "large"@,
        }
    }

    /// The name the value is written as.
    pub fn to_string(&self) -> (r: String)
        ensures
            r@ == self.spec_to_string(),
    {
        match self {
            HeapSize::normal => String::from_str("normal"),
            HeapSize::large => String::from_str("large"),
        }
    }
}

/// The OpenJDK project a build comes from.
/// Each value is written as its own name (`to_string`).
#[allow(non_camel_case_types)]
#[derive(Clone, Copy, Debug, PartialEq, Eq, Structural)]
pub enum Project {
    jdk,
    valhalla,
    metropolis,
    jfr,
    shenandoah,
}

impl Project {
    /// The name the value is written as.
    pub open spec fn spec_to_string(self) -> Seq<char> {
        match self {
            Project::jdk => "jdk"@,
            Project::valhalla => "valhalla"@,
            Project::metropolis => "metropolis"@,
            Project::jfr => "jfr"@,
            Project::shenandoah => "shenandoah"@,
        }
    }

    /// The name the value is written as.
    pub fn to_string(&self) -> (r: String)
        ensures
            r@ == self.spec_to_string(),
    {
        match self {
            Project::jdk => String::from_str("jdk"),
            Project::valhalla => String::from_str("valhalla"),
            Project::metropolis => String::from_str("metropolis"),
            Project::jfr => String::from_str("jfr"),
            Project::shenandoah => String::from_str("shenandoah"),
        }
    }
}

/// The kind of image a build is packaged as.
/// Each value is written as its own name (`to_string`).
#[allow(non_camel_case_types)]
#[derive(Clone, Copy, Debug, PartialEq, Eq, Structural)]
pub enum Imagetype {
    jdk,
    jre,
    testimage,
    debugimage,
    staticlibs,
}

impl Imagetype {
    /// The name the value is written as.
    pub open spec fn spec_to_string(self) -> Seq<char> {
        match self {
            Imagetype::jdk => "jdk"@,
            Imagetype::jre => "jre"@,
            Imagetype::testimage => "testimage"@,
            Imagetype::debugimage => "debugimage"@,
            Imagetype::staticlibs => "staticlibs"@,
        }
    }

    /// The name the value is written as.
    pub fn to_string(&self) -> (r: String)
        ensures
            r@ == self.spec_to_string(),
    {
        match self {
            Imagetype::jdk => String::from_str("jdk"),
            Imagetype::jre => String::from_str("jre"),
            Imagetype::testimage => String::from_str("testimage"),
            Imagetype::debugimage => String::from_str("debugimage"),
            Imagetype::staticlibs => String::from_str("staticlibs"),
        }
    }
}

/// The operating system a build is made for.
/// Each value is written as its own name (`to_string`).
#[allow(non_camel_case_types)]
#[derive(Clone, Copy, Debug, PartialEq, Eq, Structural)]
pub enum OS {
    linux,
    windows,
    mac,
    solaris,
    aix,
    alpine_linux,
}

impl OS {
    /// The name the value is written as.
    pub open spec fn spec_to_string(self) -> Seq<char> {
        match self {
            OS::linux => "linux"@,
            OS::windows => "windows"@,
            OS::mac => "mac"@,
            OS::solaris => "solaris"@,
            OS::aix => "aix"@,
            OS::alpine_linux => "alpine_linux"@,
        }
    }

    /// The name the value is written as.
    pub fn to_string(&self) -> (r: String)
        ensures
            r@ == self.spec_to_string(),
    {
        match self {
            OS::linux => String::from_str("linux"),
            OS::windows => String::from_str("windows"),
            OS::mac => String::from_str("mac"),
            OS::solaris => String::from_str("solaris"),
            OS::aix => String::from_str("aix"),
            OS::alpine_linux => String::from_str("alpine_linux"),
        }
    }
}

/// Whether a build is an early-access or a general-availability release.
/// Each value is written as its own name (`to_string`).
#[allow(non_camel_case_types)]
#[derive(Clone, Copy, Debug, PartialEq, Eq, Structural)]
pub enum ReleaseType {
    ea,
    ga,
}

impl ReleaseType {
    /// The name the value is written as.
    pub open spec fn spec_to_string(self) -> Seq<char> {
        match self {
            ReleaseType::ea => "ea"@,
            ReleaseType::ga => "ga"@,
        }
    }

    /// The name the value is written as.
    pub fn to_string(&self) -> (r: String)
        ensures
            r@ == self.spec_to_string(),
    {
        match self {
            ReleaseType::ea => String::from_str("ea"),
            ReleaseType::ga => String::from_str("ga"),
        }
    }
}

/// Who publishes a build.
/// Each value is written as its own name (`to_string`).
#[allow(non_camel_case_types)]
#[derive(Clone, Copy, Debug, PartialEq, Eq, Structural)]
pub enum Vendor {
    adoptopenjdk,
    openjdk,
}

impl Vendor {
    /// The name the value is written as.
    pub open spec fn spec_to_string(self) -> Seq<char> {
        match self {
            Vendor::adoptopenjdk => "adoptopenjdk"@,
            Vendor::openjdk => "openjdk"@,
        }
    }

    /// The name the value is written as.
    pub fn to_string(&self) -> (r: String)
        ensures
            r@ == self.spec_to_string(),
    {
        match self {
            Vendor::adoptopenjdk => String::from_str("adoptopenjdk"),
            Vendor::openjdk => String::from_str("openjdk"),
        }
    }
}

impl Architecture {
    /// Reads the architecture from the name the platform gives it:
    /// "x86", "x32" and "x86_64" (which is `x64`) are known, others are refused.
    pub fn from_str(s: &str) -> (r: Result<Architecture, AdoptOpenJDKError>)
        ensures
            s@ == "x86"@ ==> r == Ok::<Architecture, AdoptOpenJDKError>(Architecture::x86),
            s@ == "x32"@ ==> r == Ok::<Architecture, AdoptOpenJDKError>(Architecture::x32),
            s@ == "x86_64"@ ==> r == Ok::<Architecture, AdoptOpenJDKError>(Architecture::x64),
            s@ != "x86"@ && s@ != "x32"@ && s@ != "x86_64"@ ==> (r matches Err(
                AdoptOpenJDKError::Custom(m),
            ) && m@ == "Unable to find Architecture "@),
    {
        proof {
            reveal_strlit("x86");
            reveal_strlit("x32");
            reveal_strlit("x86_64");
            assert("x86"@[1] != "x32"@[1]);
            assert("x86"@.len() != "x86_64"@.len());
            assert("x32"@.len() != "x86_64"@.len());
        }
        if str_equal(s, "x86") {
            Ok(Architecture::x86)
        } else if str_equal(s, "x32") {
            Ok(Architecture::x32)
        } else if str_equal(s, "x86_64") {
            Ok(Architecture::x64)
        } else {
            Err(AdoptOpenJDKError::Custom(String::from_str("Unable to find Architecture ")))
        }
    }
}

impl Architecture {
    /// The name of a value holds no '/'.
    pub proof fn lemma_name_has_no_slash(self)
        ensures
            !self.spec_to_string().contains('/'),
    {
        match self {
            Architecture::x64 => {
                reveal_strlit("x64");
                assert(!"x64"@.contains('/'));
            },
            Architecture::x86 => {
                reveal_strlit("x86");
                assert(!"x86"@.contains('/'));
            },
            Architecture::x32 => {
                reveal_strlit("x32");
                assert(!"x32"@.contains('/'));
            },
            Architecture::ppc64 => {
                reveal_strlit("ppc64");
                assert(!"ppc64"@.contains('/'));
            },
            Architecture::ppc64le => {
                reveal_strlit("ppc64le");
                assert(!"ppc64le"@.contains('/'));
            },
            Architecture::s390x => {
                reveal_strlit("s390x");
                assert(!"s390x"@.contains('/'));
            },
            Architecture::aarch64 => {
                reveal_strlit("aarch64");
                assert(!"aarch64"@.contains('/'));
            },
            Architecture::arm => {
                reveal_strlit("arm");
                assert(!"arm"@.contains('/'));
            },
            Architecture::sparcv9 => {
                reveal_strlit("sparcv9");
                assert(!"sparcv9"@.contains('/'));
            },
            Architecture::riscv64 => {
                reveal_strlit("riscv64");
                assert(!"riscv64"@.contains('/'));
            },
        }
    }
}

impl JVMImpl {
    /// The name of a value holds no '/'.
    pub proof fn lemma_name_has_no_slash(self)
        ensures
            !self.spec_to_string().contains('/'),
    {
        match self {
            JVMImpl::hotspot => {
                reveal_strlit("hotspot");
                assert(!"hotspot"@.contains('/'));
            },
            JVMImpl::openj9 => {
                reveal_strlit("openj9");
                assert(!"openj9"@.contains('/'));
            },
        }
    }
}

impl HeapSize {
    /// The name of a value holds no '/'.
    pub proof fn lemma_name_has_no_slash(self)
        ensures
            !self.spec_to_string().contains('/'),
    {
        match self {
            HeapSize::normal => {
                reveal_strlit("normal");
                assert(!"normal"@.contains('/'));
            },
            HeapSize::large => {
                reveal_strlit("large");
                assert(!"large"@.contains('/'));
            },
        }
    }
}

impl Project {
    /// The name of a value holds no '/'.
    pub proof fn lemma_name_has_no_slash(self)
        ensures
            !self.spec_to_string().contains('/'),
    {
        match self {
            Project::jdk => {
                reveal_strlit("jdk");
                assert(!"jdk"@.contains('/'));
            },
            Project::valhalla => {
                reveal_strlit("valhalla");
                assert(!"valhalla"@.contains('/'));
            },
            Project::metropolis => {
                reveal_strlit("metropolis");
                assert(!"metropolis"@.contains('/'));
            },
            Project::jfr => {
                reveal_strlit("jfr");
                assert(!"jfr"@.contains('/'));
            },
            Project::shenandoah => {
                reveal_strlit("shenandoah");
                assert(!"shenandoah"@.contains('/'));
            },
        }
    }
}

impl Imagetype {
    /// The name of a value holds no '/'.
    pub proof fn lemma_name_has_no_slash(self)
        ensures
            !self.spec_to_string().contains('/'),
    {
        match self {
            Imagetype::jdk => {
                reveal_strlit("jdk");
                assert(!"jdk"@.contains('/'));
            },
            Imagetype::jre => {
                reveal_strlit("jre");
                assert(!"jre"@.contains('/'));
            },
            Imagetype::testimage => {
                reveal_strlit("testimage");
                assert(!"testimage"@.contains('/'));
            },
            Imagetype::debugimage => {
                reveal_strlit("debugimage");
                assert(!"debugimage"@.contains('/'));
            },
            Imagetype::staticlibs => {
                reveal_strlit("staticlibs");
                assert(!"staticlibs"@.contains('/'));
            },
        }
    }
}

impl OS {
    /// The name of a value holds no '/'.
    pub proof fn lemma_name_has_no_slash(self)
        ensures
            !self.spec_to_string().contains('/'),
    {
        match self {
            OS::linux => {
                reveal_strlit("linux");
                assert(!"linux"@.contains('/'));
            },
            OS::windows => {
                reveal_strlit("windows");
                assert(!"windows"@.contains('/'));
            },
            OS::mac => {
                reveal_strlit("mac");
                assert(!"mac"@.contains('/'));
            },
            OS::solaris => {
                reveal_strlit("solaris");
                assert(!"solaris"@.contains('/'));
            },
            OS::aix => {
                reveal_strlit("aix");
                assert(!"aix"@.contains('/'));
            },
            OS::alpine_linux => {
                reveal_strlit("alpine_linux");
                assert(!"alpine_linux"@.contains('/'));
            },
        }
    }
}

impl ReleaseType {
    /// The name of a value holds no '/'.
    pub proof fn lemma_name_has_no_slash(self)
        ensures
            !self.spec_to_string().contains('/'),
    {
        match self {
            ReleaseType::ea => {
                reveal_strlit("ea");
                assert(!"ea"@.contains('/'));
            },
            ReleaseType::ga => {
                reveal_strlit("ga");
                assert(!"ga"@.contains('/'));
            },
        }
    }
}

impl Vendor {
    /// The name of a value holds no '/'.
    pub proof fn lemma_name_has_no_slash(self)
        ensures
            !self.spec_to_string().contains('/'),
    {
        match self {
            Vendor::adoptopenjdk => {
                reveal_strlit("adoptopenjdk");
                assert(!"adoptopenjdk"@.contains('/'));
            },
            Vendor::openjdk => {
                reveal_strlit("openjdk");
                assert(!"openjdk"@.contains('/'));
            },
        }
    }
}

impl Architecture {
    /// Different values are written differently: the name written for a
    /// value identifies it.
    pub proof fn lemma_names_identify(self, other: Self)
        ensures
            self.spec_to_string() == other.spec_to_string() ==> self == other,
    {
        reveal_strlit("x64");
        reveal_strlit("x86");
        reveal_strlit("x32");
        reveal_strlit("ppc64");
        reveal_strlit("ppc64le");
        reveal_strlit("s390x");
        reveal_strlit("aarch64");
        reveal_strlit("arm");
        reveal_strlit("sparcv9");
        reveal_strlit("riscv64");
        assert("x64"@[1] != "x86"@[1]);
        assert("x64"@[1] != "x32"@[1]);
        assert("x64"@.len() != "ppc64"@.len());
        assert("x64"@.len() != "ppc64le"@.len());
        assert("x64"@.len() != "s390x"@.len());
        assert("x64"@.len() != "aarch64"@.len());
        assert("x64"@[0] != "arm"@[0]);
        assert("x64"@.len() != "sparcv9"@.len());
        assert("x64"@.len() != "riscv64"@.len());
        assert("x86"@[1] != "x32"@[1]);
        assert("x86"@.len() != "ppc64"@.len());
        assert("x86"@.len() != "ppc64le"@.len());
        assert("x86"@.len() != "s390x"@.len());
        assert("x86"@.len() != "aarch64"@.len());
        assert("x86"@[0] != "arm"@[0]);
        assert("x86"@.len() != "sparcv9"@.len());
        assert("x86"@.len() != "riscv64"@.len());
        assert("x32"@.len() != "ppc64"@.len());
        assert("x32"@.len() != "ppc64le"@.len());
        assert("x32"@.len() != "s390x"@.len());
        assert("x32"@.len() != "aarch64"@.len());
        assert("x32"@[0] != "arm"@[0]);
        assert("x32"@.len() != "sparcv9"@.len());
        assert("x32"@.len() != "riscv64"@.len());
        assert("ppc64"@.len() != "ppc64le"@.len());
        assert("ppc64"@[0] != "s390x"@[0]);
        assert("ppc64"@.len() != "aarch64"@.len());
        assert("ppc64"@.len() != "arm"@.len());
        assert("ppc64"@.len() != "sparcv9"@.len());
        assert("ppc64"@.len() != "riscv64"@.len());
        assert("ppc64le"@.len() != "s390x"@.len());
        assert("ppc64le"@[0] != "aarch64"@[0]);
        assert("ppc64le"@.len() != "arm"@.len());
        assert("ppc64le"@[0] != "sparcv9"@[0]);
        assert("ppc64le"@[0] != "riscv64"@[0]);
        assert("s390x"@.len() != "aarch64"@.len());
        assert("s390x"@.len() != "arm"@.len());
        assert("s390x"@.len() != "sparcv9"@.len());
        assert("s390x"@.len() != "riscv64"@.len());
        assert("aarch64"@.len() != "arm"@.len());
        assert("aarch64"@[0] != "sparcv9"@[0]);
        assert("aarch64"@[0] != "riscv64"@[0]);
        assert("arm"@.len() != "sparcv9"@.len());
        assert("arm"@.len() != "riscv64"@.len());
        assert("sparcv9"@[0] != "riscv64"@[0]);
    }
}

impl JVMImpl {
    /// Different values are written differently: the name written for a
    /// value identifies it.
    pub proof fn lemma_names_identify(self, other: Self)
        ensures
            self.spec_to_string() == other.spec_to_string() ==> self == other,
    {
        reveal_strlit("hotspot");
        reveal_strlit("openj9");
        assert("hotspot"@.len() != "openj9"@.len());
    }
}

impl HeapSize {
    /// Different values are written differently: the name written for a
    /// value identifies it.
    pub proof fn lemma_names_identify(self, other: Self)
        ensures
            self.spec_to_string() == other.spec_to_string() ==> self == other,
    {
        reveal_strlit("normal");
        reveal_strlit("large");
        assert("normal"@.len() != "large"@.len());
    }
}

impl Project {
    /// Different values are written differently: the name written for a
    /// value identifies it.
    pub proof fn lemma_names_identify(self, other: Self)
        ensures
            self.spec_to_string() == other.spec_to_string() ==> self == other,
    {
        reveal_strlit("jdk");
        reveal_strlit("valhalla");
        reveal_strlit("metropolis");
        reveal_strlit("jfr");
        reveal_strlit("shenandoah");
        assert("jdk"@.len() != "valhalla"@.len());
        assert("jdk"@.len() != "metropolis"@.len());
        assert("jdk"@[1] != "jfr"@[1]);
        assert("jdk"@.len() != "shenandoah"@.len());
        assert("valhalla"@.len() != "metropolis"@.len());
        assert("valhalla"@.len() != "jfr"@.len());
        assert("valhalla"@.len() != "shenandoah"@.len());
        assert("metropolis"@.len() != "jfr"@.len());
        assert("metropolis"@[0] != "shenandoah"@[0]);
        assert("jfr"@.len() != "shenandoah"@.len());
    }
}

impl Imagetype {
    /// Different values are written differently: the name written for a
    /// value identifies it.
    pub proof fn lemma_names_identify(self, other: Self)
        ensures
            self.spec_to_string() == other.spec_to_string() ==> self == other,
    {
        reveal_strlit("jdk");
        reveal_strlit("jre");
        reveal_strlit("testimage");
        reveal_strlit("debugimage");
        reveal_strlit("staticlibs");
        assert("jdk"@[1] != "jre"@[1]);
        assert("jdk"@.len() != "testimage"@.len());
        assert("jdk"@.len() != "debugimage"@.len());
        assert("jdk"@.len() != "staticlibs"@.len());
        assert("jre"@.len() != "testimage"@.len());
        assert("jre"@.len() != "debugimage"@.len());
        assert("jre"@.len() != "staticlibs"@.len());
        assert("testimage"@.len() != "debugimage"@.len());
        assert("testimage"@.len() != "staticlibs"@.len());
        assert("debugimage"@[0] != "staticlibs"@[0]);
    }
}

impl OS {
    /// Different values are written differently: the name written for a
    /// value identifies it.
    pub proof fn lemma_names_identify(self, other: Self)
        ensures
            self.spec_to_string() == other.spec_to_string() ==> self == other,
    {
        reveal_strlit("linux");
        reveal_strlit("windows");
        reveal_strlit("mac");
        reveal_strlit("solaris");
        reveal_strlit("aix");
        reveal_strlit("alpine_linux");
        assert("linux"@.len() != "windows"@.len());
        assert("linux"@.len() != "mac"@.len());
        assert("linux"@.len() != "solaris"@.len());
        assert("linux"@.len() != "aix"@.len());
        assert("linux"@.len() != "alpine_linux"@.len());
        assert("windows"@.len() != "mac"@.len());
        assert("windows"@[0] != "solaris"@[0]);
        assert("windows"@.len() != "aix"@.len());
        assert("windows"@.len() != "alpine_linux"@.len());
        assert("mac"@.len() != "solaris"@.len());
        assert("mac"@[0] != "aix"@[0]);
        assert("mac"@.len() != "alpine_linux"@.len());
        assert("solaris"@.len() != "aix"@.len());
        assert("solaris"@.len() != "alpine_linux"@.len());
        assert("aix"@.len() != "alpine_linux"@.len());
    }
}

impl ReleaseType {
    /// Different values are written differently: the name written for a
    /// value identifies it.
    pub proof fn lemma_names_identify(self, other: Self)
        ensures
            self.spec_to_string() == other.spec_to_string() ==> self == other,
    {
        reveal_strlit("ea");
        reveal_strlit("ga");
        assert("ea"@[0] != "ga"@[0]);
    }
}

impl Vendor {
    /// Different values are written differently: the name written for a
    /// value identifies it.
    pub proof fn lemma_names_identify(self, other: Self)
        ensures
            self.spec_to_string() == other.spec_to_string() ==> self == other,
    {
        reveal_strlit("adoptopenjdk");
        reveal_strlit("openjdk");
        assert("adoptopenjdk"@.len() != "openjdk"@.len());
    }
}

/// The escape sequences that colour `s` green on a terminal.
pub open spec fn green_escape(s: Seq<char>) -> Seq<char> {
    "\u{1b}[32m"@ + s + "\u{1b}[0m"@
}

/// colored's `Colorize::green`, rendered as a string. Whether colours are
/// used depends on the environment (the terminal and the colour variables),
/// so the result is either `s` unchanged or `s` wrapped in the green escape
/// sequences; for an `s` that holds an escape character colored rewrites the
/// inner reset sequences, which is left unsaid here.
#[verifier::external_body]
fn paint_green(s: &str) -> (r: String)
    ensures
        !s@.contains('\u{1b}') ==> (r@ == s@ || r@ == green_escape(s@)),
{
    s.green().to_string()
}

/// The list of feature releases, as the API reports it.
#[derive(Clone, Debug)]
pub struct AvailableReleases {
    pub available_lts_releases: Vec<i64>,
    pub available_releases: Vec<i64>,
    pub most_recent_feature_release: i64,
    pub most_recent_feature_version: i64,
    pub most_recent_lts: i64,
    pub tip_version: i64,
}

/// Pieces joined with commas between them.
pub open spec fn join_commas(items: Seq<Seq<char>>) -> Seq<char>
    decreases items.len(),
{
    if items.len() == 0 {
        Seq::empty()
    } else if items.len() == 1 {
        items[0]
    } else {
        join_commas(items.drop_last()) + seq![','] + items.last()
    }
}

/// How one release is shown: its number, painted green (where the
/// environment allows colours) when it is a long-term-support release.
pub open spec fn shown_release(x: i64, lts: Seq<i64>, item: Seq<char>) -> bool {
    if lts.contains(x) {
        item == int_decimal(x as int) || item == green_escape(int_decimal(x as int))
    } else {
        item == int_decimal(x as int)
    }
}

/// `items` shows the releases `rel` one by one.
pub open spec fn shows_releases(rel: Seq<i64>, lts: Seq<i64>, items: Seq<Seq<char>>) -> bool {
    &&& items.len() == rel.len()
    &&& forall|i: int| 0 <= i < rel.len() ==> shown_release(rel[i], lts, #[trigger] items[i])
}

/// The listing reads nothing but the releases and whether each of them is a
/// long-term-support release: two lists of releases that agree on these can
/// be shown in exactly the same ways (the other fields, and long-term-support
/// entries that are not among the releases, play no part).
pub proof fn lemma_listing_reads_only_membership(
    a: AvailableReleases,
    b: AvailableReleases,
    items: Seq<Seq<char>>,
)
    requires
        a.available_releases@ == b.available_releases@,
        forall|i: int|
            0 <= i < a.available_releases@.len() ==> (a.available_lts_releases@.contains(
                #[trigger] a.available_releases@[i],
            ) <==> b.available_lts_releases@.contains(a.available_releases@[i])),
    ensures
        shows_releases(a.available_releases@, a.available_lts_releases@, items)
            <==> shows_releases(b.available_releases@, b.available_lts_releases@, items),
{
    let rel = a.available_releases@;
    if shows_releases(rel, a.available_lts_releases@, items) {
        assert forall|i: int| 0 <= i < rel.len() implies shown_release(
            rel[i],
            b.available_lts_releases@,
            #[trigger] items[i],
        ) by {
            assert(shown_release(rel[i], a.available_lts_releases@, items[i]));
        }
    }
    if shows_releases(rel, b.available_lts_releases@, items) {
        assert forall|i: int| 0 <= i < rel.len() implies shown_release(
            rel[i],
            a.available_lts_releases@,
            #[trigger] items[i],
        ) by {
            assert(shown_release(rel[i], b.available_lts_releases@, items[i]));
        }
    }
}

fn contains_release(v: &Vec<i64>, x: i64) -> (r: bool)
    ensures
        r == v@.contains(x),
{
    let mut i: usize = 0;
    while i < v.len()
        invariant
            i <= v@.len(),
            forall|j: int| 0 <= j < i ==> v@[j] != x,
        decreases v@.len() - i,
    {
        if v[i] == x {
            assert(v@[i as int] == x);
            return true;
        }
        i = i + 1;
    }
    false
}

proof fn lemma_decimal_has_no_escape(x: int)
    ensures
        !int_decimal(x).contains('\u{1b}'),
{
    let m: nat = if x < 0 { (-x) as nat } else { x as nat };
    crate::text::lemma_nat_decimal_facts(m);
    let s = int_decimal(x);
    if s.contains('\u{1b}') {
        let i = choose|i: int| 0 <= i < s.len() && s[i] == '\u{1b}';
        if x < 0 {
            assert(s[i] == '-' || is_digit(nat_decimal(m)[i - 1]));
        } else {
            assert(is_digit(nat_decimal(m)[i]));
        }
    }
}

/// How one release is shown when the listing uses colours (`colours`) or not:
/// its number, painted green when colours are used and it is a
/// long-term-support release.
pub open spec fn listing_item(x: i64, lts: Seq<i64>, colours: bool) -> Seq<char> {
    if colours && lts.contains(x) {
        green_escape(int_decimal(x as int))
    } else {
        int_decimal(x as int)
    }
}

/// The items of a listing, one per release, in order.
pub open spec fn listing_items(rel: Seq<i64>, lts: Seq<i64>, colours: bool) -> Seq<Seq<char>> {
    Seq::new(rel.len(), |k: int| listing_item(rel[k], lts, colours))
}

/// The listing "[a,b,c]" of the releases, with or without colours.
pub open spec fn listing(rel: Seq<i64>, lts: Seq<i64>, colours: bool) -> Seq<char> {
    seq!['['] + join_commas(listing_items(rel, lts, colours)) + seq![']']
}

/// A listing paints all its long-term-support releases alike: with colours
/// every one of them is painted green and no other release is, without
/// colours none is; every release keeps its place and its number.
pub proof fn lemma_listing_paints_alike(rel: Seq<i64>, lts: Seq<i64>, colours: bool)
    ensures
        listing_items(rel, lts, colours).len() == rel.len(),
        forall|i: int|
            0 <= i < rel.len() ==> (#[trigger] listing_items(rel, lts, colours)[i] == green_escape(
                int_decimal(rel[i] as int),
            ) <==> (colours && lts.contains(rel[i]))),
        forall|i: int|
            0 <= i < rel.len() && !(colours && lts.contains(rel[i])) ==> #[trigger] listing_items(
                rel,
                lts,
                colours,
            )[i] == int_decimal(rel[i] as int),
        shows_releases(rel, lts, listing_items(rel, lts, colours)),
{
    assert forall|i: int| 0 <= i < rel.len() implies (#[trigger] listing_items(rel, lts, colours)[i]
        == green_escape(int_decimal(rel[i] as int)) <==> (colours && lts.contains(rel[i]))) by {
        let d = int_decimal(rel[i] as int);
        assert(green_escape(d).len() > d.len()) by {
            reveal_strlit("\u{1b}[32m");
        }
    }
}

/// Two lists that agree on their releases and on which of them are
/// long-term-support releases give the same listing, with colours and
/// without: the other fields, and long-term-support entries that are not
/// among the releases, play no part.
pub proof fn lemma_listing_same_for_same_membership(
    a: AvailableReleases,
    b: AvailableReleases,
    colours: bool,
)
    requires
        a.available_releases@ == b.available_releases@,
        forall|i: int|
            0 <= i < a.available_releases@.len() ==> (a.available_lts_releases@.contains(
                #[trigger] a.available_releases@[i],
            ) <==> b.available_lts_releases@.contains(a.available_releases@[i])),
    ensures
        listing(a.available_releases@, a.available_lts_releases@, colours) == listing(
            b.available_releases@,
            b.available_lts_releases@,
            colours,
        ),
{
    let rel = a.available_releases@;
    assert(listing_items(rel, a.available_lts_releases@, colours) =~= listing_items(
        rel,
        b.available_lts_releases@,
        colours,
    ));
}

impl AvailableReleases {
    /// The releases written as "[a,b,c]", long-term-support releases painted
    /// green where the environment allows colours, all of them alike. The
    /// list must not be empty.
    pub fn to_string(&self) -> (r: String)
        requires
            self.available_releases@.len() > 0,
        ensures
            exists|items: Seq<Seq<char>>|
                shows_releases(self.available_releases@, self.available_lts_releases@, items)
                    && r@ == seq!['['] + join_commas(items) + seq![']'],
            r@ == listing(self.available_releases@, self.available_lts_releases@, false) || r@
                == listing(self.available_releases@, self.available_lts_releases@, true),
    {
        let ghost rel = self.available_releases@;
        let ghost lts = self.available_lts_releases@;
        proof {
            reveal_strlit("\u{1b}[32m");
            reveal_strlit("\u{1b}[0m");
        }
        let mut r = String::new();
        push_char(&mut r, '[');
        let mut decided: Option<bool> = None;
        let mut pre = String::new();
        let mut suf = String::new();
        let mut i: usize = 0;
        while i < self.available_releases.len()
            invariant
                rel == self.available_releases@,
                lts == self.available_lts_releases@,
                i <= rel.len(),
                decided is None ==> forall|j: int| 0 <= j < i ==> !lts.contains(#[trigger] rel[j]),
                decided == Some(true) ==> pre@ == "\u{1b}[32m"@ && suf@ == "\u{1b}[0m"@,
                r@ == seq!['['] + join_commas(
                    listing_items(
                        rel,
                        lts,
                        match decided {
                            Some(c) => c,
                            None => false,
                        },
                    ).take(i as int),
                ),
            decreases rel.len() - i,
        {
            let ghost before = match decided {
                Some(c) => c,
                None => false,
            };
            let x = self.available_releases[i];
            let mut item = String::new();
            push_int_decimal(&mut item, x);
            assert(item@ =~= int_decimal(x as int));
            if contains_release(&self.available_lts_releases, x) {
                match decided {
                    None => {
                        proof {
                            lemma_decimal_has_no_escape(x as int);
                        }
                        let painted = paint_green(item.as_str());
                        if str_equal(painted.as_str(), item.as_str()) {
                            decided = Some(false);
                        } else {
                            let v = chars_of(painted.as_str());
                            proof {
                                reveal_strlit("\u{1b}[32m");
                                reveal_strlit("\u{1b}[0m");
                                assert("\u{1b}[32m"@.len() == 5);
                                assert("\u{1b}[0m"@.len() == 4);
                            }
                            assert(v@ =~= "\u{1b}[32m"@ + item@ + "\u{1b}[0m"@);
                            pre = string_of_range(&v, 0, 5);
                            suf = string_of_range(&v, v.len() - 4, v.len());
                            assert(pre@ =~= "\u{1b}[32m"@);
                            assert(suf@ =~= "\u{1b}[0m"@);
                            decided = Some(true);
                            proof {
                                assert(listing_items(rel, lts, true).take(i as int) =~= listing_items(
                                    rel,
                                    lts,
                                    false,
                                ).take(i as int));
                            }
                            item = painted;
                        }
                    },
                    Some(false) => {},
                    Some(true) => {
                        let mut p = pre.clone();
                        p.append(item.as_str());
                        p.append(suf.as_str());
                        item = p;
                    },
                }
            }
            let ghost now = match decided {
                Some(c) => c,
                None => false,
            };
            assert(item@ == listing_item(x, lts, now));
            if i > 0 {
                push_char(&mut r, ',');
            }
            r.append(item.as_str());
            proof {
                let all = listing_items(rel, lts, now);
                let prev = all.take(i as int);
                let next = all.take(i + 1);
                assert(next.drop_last() =~= prev);
                assert(next.last() == item@);
                if i == 0 {
                    assert(prev =~= Seq::<Seq<char>>::empty());
                    assert(join_commas(next) == item@);
                }
                assert(r@ =~= seq!['['] + join_commas(next));
            }
            i = i + 1;
        }
        push_char(&mut r, ']');
        let ghost c = match decided {
            Some(c) => c,
            None => false,
        };
        proof {
            lemma_listing_paints_alike(rel, lts, c);
            assert(listing_items(rel, lts, c).take(rel.len() as int) =~= listing_items(rel, lts, c));
        }
        assert(r@ =~= listing(rel, lts, c));
        r
    }
}

} // verus!
