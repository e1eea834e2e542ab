//! A request for the latest binary of a feature release, and the path it is
//! asked for under.

use vstd::prelude::*;
use vstd::string::*;
use crate::response::{Architecture, HeapSize, Imagetype, JVMImpl, OS, ReleaseType, Vendor};
use crate::text::{lemma_i64_decimal_roundtrip, i64_to_decimal, join_strings, views_of, join_with, split_fields, nat_decimal, is_digit, lemma_nat_decimal_facts, lemma_split_join, int_decimal, push_char, push_int_decimal, chars_of, string_of_range, parse_i64, spec_parse_i64, ParseIntError};

verus! {

/// What identifies the latest binary of a feature release.
#[derive(Clone, Copy, Debug, PartialEq, Eq, Structural)]
pub struct LatestBinary {
    pub arch: Architecture,
    pub feature_version: i64,
    pub heap_size: HeapSize,
    pub image_type: Imagetype,
    pub jvm_impl: JVMImpl,
    pub os: OS,
    pub release_type: ReleaseType,
    pub vendor: Vendor,
}

/// The fields of a request in the order the API's path takes them.
pub open spec fn request_fields(b: LatestBinary) -> Seq<Seq<char>> {
    seq![
        int_decimal(b.feature_version as int),
        b.release_type.spec_to_string(),
        b.os.spec_to_string(),
        b.arch.spec_to_string(),
        b.image_type.spec_to_string(),
        b.jvm_impl.spec_to_string(),
        b.heap_size.spec_to_string(),
        b.vendor.spec_to_string(),
    ]
}

impl LatestBinary {
    /// "{feature_version}/{release_type}/{os}/{arch}/{image_type}/{jvm_impl}/{heap_size}/{vendor}":
    /// the request's fields joined with '/'.
    pub open spec fn spec_to_string(self) -> Seq<char> {
        join_with(request_fields(self), '/')
    }

    /// The request written as the path the API serves it under:
    /// "{feature_version}/{release_type}/{os}/{arch}/{image_type}/{jvm_impl}/{heap_size}/{vendor}".
    pub fn to_string(&self) -> (r: String)
        ensures
            r@ == self.spec_to_string(),
    {
        let mut parts: Vec<String> = Vec::new();
        parts.push(i64_to_decimal(self.feature_version));
        parts.push(self.release_type.to_string());
        parts.push(self.os.to_string());
        parts.push(self.arch.to_string());
        parts.push(self.image_type.to_string());
        parts.push(self.jvm_impl.to_string());
        parts.push(self.heap_size.to_string());
        parts.push(self.vendor.to_string());
        assert(views_of(parts@) =~= request_fields(*self));
        join_strings(&parts, '/')
    }

    /// The request the installer makes for a feature release on this
    /// machine: a general-availability HotSpot JDK for Linux with the normal
    /// heap, published by AdoptOpenJDK.
    pub fn latest_ga(feature_version: i64, arch: Architecture) -> (r: LatestBinary)
        ensures
            r == (LatestBinary {
                arch,
                feature_version,
                heap_size: HeapSize::normal,
                image_type: Imagetype::jdk,
                jvm_impl: JVMImpl::hotspot,
                os: OS::linux,
                release_type: ReleaseType::ga,
                vendor: Vendor::adoptopenjdk,
            }),
    {
        LatestBinary {
            arch,
            feature_version,
            heap_size: HeapSize::normal,
            image_type: Imagetype::jdk,
            jvm_impl: JVMImpl::hotspot,
            os: OS::linux,
            release_type: ReleaseType::ga,
            vendor: Vendor::adoptopenjdk,
        }
    }
}

/// Reads the feature version the user typed: the line loses its last
/// character (the line break) and the rest is read as an `i64`.
/// The line must end with a one-byte (ASCII) character.
pub fn feature_version_from_line(line: &str) -> (r: Result<i64, ParseIntError>)
    requires
        line@.len() > 0,
        (line@.last() as u32) < 128,
    ensures
        match spec_parse_i64(line@.drop_last()) {
            Ok(x) => r == Ok::<i64, ParseIntError>(x as i64),
            Err(e) => r == Err::<i64, ParseIntError>(e),
        },
{
    let v = chars_of(line);
    let body = string_of_range(&v, 0, v.len() - 1);
    assert(body@ =~= line@.drop_last());
    parse_i64(body.as_str())
}


proof fn lemma_decimal_has_no_slash(x: int)
    ensures
        !int_decimal(x).contains('/'),
{
    let m: nat = if x < 0 { (-x) as nat } else { x as nat };
    lemma_nat_decimal_facts(m);
    let s = int_decimal(x);
    if s.contains('/') {
        let i = choose|i: int| 0 <= i < s.len() && s[i] == '/';
        if x < 0 {
            assert(s[i] == '-' || is_digit(nat_decimal(m)[i - 1]));
        } else {
            assert(is_digit(nat_decimal(m)[i]));
        }
    }
}

proof fn lemma_request_fields_have_no_slash(b: LatestBinary)
    ensures
        forall|k: int|
            0 <= k < request_fields(b).len() ==> !(#[trigger] request_fields(b)[k]).contains('/'),
{
    lemma_decimal_has_no_slash(b.feature_version as int);
    b.release_type.lemma_name_has_no_slash();
    b.os.lemma_name_has_no_slash();
    b.arch.lemma_name_has_no_slash();
    b.image_type.lemma_name_has_no_slash();
    b.jvm_impl.lemma_name_has_no_slash();
    b.heap_size.lemma_name_has_no_slash();
    b.vendor.lemma_name_has_no_slash();
}

/// The path a request is asked under splits at '/' into exactly the
/// request's fields, in the order the API reads them.
pub proof fn lemma_request_path_fields(b: LatestBinary)
    ensures
        split_fields(b.spec_to_string(), seq!['/']) == request_fields(b),
{
    lemma_request_fields_have_no_slash(b);
    lemma_split_join(request_fields(b), '/');
}


/// Two requests asked under the same path are the same request: every field
/// (the feature version and each of the seven names) can be read back from
/// the path.
pub proof fn lemma_request_path_identifies(a: LatestBinary, b: LatestBinary)
    ensures
        a.spec_to_string() == b.spec_to_string() ==> a == b,
{
    if a.spec_to_string() == b.spec_to_string() {
        lemma_request_path_fields(a);
        lemma_request_path_fields(b);
        let fa = request_fields(a);
        let fb = request_fields(b);
        assert(fa == fb);
        assert(fa[0] == fb[0]);
        lemma_i64_decimal_roundtrip(a.feature_version);
        lemma_i64_decimal_roundtrip(b.feature_version);
        assert(fa[1] == fb[1]);
        a.release_type.lemma_names_identify(b.release_type);
        assert(fa[2] == fb[2]);
        a.os.lemma_names_identify(b.os);
        assert(fa[3] == fb[3]);
        a.arch.lemma_names_identify(b.arch);
        assert(fa[4] == fb[4]);
        a.image_type.lemma_names_identify(b.image_type);
        assert(fa[5] == fb[5]);
        a.jvm_impl.lemma_names_identify(b.jvm_impl);
        assert(fa[6] == fb[6]);
        a.heap_size.lemma_names_identify(b.heap_size);
        assert(fa[7] == fb[7]);
        a.vendor.lemma_names_identify(b.vendor);
    }
}

} // verus!
