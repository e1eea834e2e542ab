//! What the installer remembers: where it installs and what it installed.

use vstd::prelude::*;
use vstd::string::*;
use crate::request::LatestBinary;
use crate::response::JVMImpl;

verus! {

/// One installed Java build.
#[derive(Clone, Debug)]
pub struct Install {
    pub jvm_version: i64,
    pub jvm_impl: JVMImpl,
    pub location: String,
}

/// The installer's settings: where builds go and which are installed.
#[derive(Clone, Debug)]
pub struct Settings {
    pub install_location: String,
    pub installs: Vec<Install>,
}

/// Some install in `installs` has the feature version and virtual machine of `install`.
pub open spec fn records_install(installs: Seq<Install>, install: Install) -> bool {
    exists|i: int|
        0 <= i < installs.len() && (#[trigger] installs[i]).jvm_version == install.jvm_version
            && installs[i].jvm_impl == install.jvm_impl
}

/// Once added, an install is found; and adding one forgets none found before.
pub proof fn lemma_added_install_is_found(installs: Seq<Install>, added: Install, other: Install)
    ensures
        records_install(installs.push(added), added),
        records_install(installs, other) ==> records_install(installs.push(added), other),
{
    let n = installs.len() as int;
    assert(installs.push(added)[n] == added);
    if records_install(installs, other) {
        let i = choose|i: int|
            0 <= i < installs.len() && (#[trigger] installs[i]).jvm_version == other.jvm_version
                && installs[i].jvm_impl == other.jvm_impl;
        assert(installs.push(added)[i] == installs[i]);
    }
}

/// An install counts as recorded exactly when some recorded install has both
/// its feature version and its virtual machine: a build of another version
/// of the same virtual machine does not count, nor one of another virtual
/// machine of the same version.
pub proof fn lemma_recorded_means_same_version_and_vm(installs: Seq<Install>, x: Install)
    ensures
        records_install(installs, x) <==> exists|i: int|
            0 <= i < installs.len() && (#[trigger] installs[i]).jvm_version == x.jvm_version
                && installs[i].jvm_impl == x.jvm_impl,
        forall|i: int|
            0 <= i < installs.len() ==> (#[trigger] installs[i]).jvm_version != x.jvm_version
                ==> records_install(installs.remove(i), x) == records_install(installs, x),
        forall|a: Install|
            #![trigger records_install(seq![a], x)]
            records_install(seq![a], x) <==> (a.jvm_version == x.jvm_version && a.jvm_impl
                == x.jvm_impl),
{
    assert forall|i: int|
        0 <= i < installs.len() && (#[trigger] installs[i]).jvm_version != x.jvm_version implies records_install(
        installs.remove(i),
        x,
    ) == records_install(installs, x) by {
        let r = installs.remove(i);
        if records_install(installs, x) {
            let j = choose|j: int|
                0 <= j < installs.len() && (#[trigger] installs[j]).jvm_version == x.jvm_version
                    && installs[j].jvm_impl == x.jvm_impl;
            if j < i {
                assert(r[j] == installs[j]);
            } else {
                assert(r[j - 1] == installs[j]);
            }
        }
        if records_install(r, x) {
            let j = choose|j: int|
                0 <= j < r.len() && (#[trigger] r[j]).jvm_version == x.jvm_version && r[j].jvm_impl
                    == x.jvm_impl;
            if j < i {
                assert(installs[j] == r[j]);
            } else {
                assert(installs[j + 1] == r[j]);
            }
        }
    }
    assert forall|a: Install| #![trigger records_install(seq![a], x)] records_install(seq![a], x) <==> (a.jvm_version == x.jvm_version && a.jvm_impl == x.jvm_impl) by {
        if a.jvm_version == x.jvm_version && a.jvm_impl == x.jvm_impl {
            assert(seq![a][0] == a);
        }
    }
}

impl Install {
    /// Records where the build now lives; the rest is unchanged.
    pub fn set_location(&mut self, location: String)
        ensures
            final(self).location@ == location@,
            final(self).jvm_version == old(self).jvm_version,
            final(self).jvm_impl == old(self).jvm_impl,
    {
        self.location = location;
    }

    /// The record of a build about to be installed for `request`: its feature
    /// version and virtual machine, with no location yet.
    pub fn for_request(request: &LatestBinary) -> (r: Install)
        ensures
            r.jvm_version == request.feature_version,
            r.jvm_impl == request.jvm_impl,
            r.location@ == Seq::<char>::empty(),
    {
        Install { jvm_version: request.feature_version, jvm_impl: request.jvm_impl, location: String::new() }
    }
}

impl Settings {
    /// The settings written on first start: builds go to
    /// "/opt/adoptopenjdk" and none is installed.
    pub fn initial() -> (r: Settings)
        ensures
            r.install_location@ == "/opt/adoptopenjdk"@,
            r.installs@.len() == 0,
    {
        Settings { install_location: String::from_str("/opt/adoptopenjdk"), installs: Vec::new() }
    }

    /// Whether a build of the same feature version and virtual machine as
    /// `install` is recorded.
    pub fn contains_install(&self, install: &Install) -> (r: bool)
        ensures
            r == records_install(self.installs@, *install),
            r ==> exists|i: int|
                0 <= i < self.installs@.len() && (#[trigger] self.installs@[i]).jvm_version
                    == install.jvm_version && self.installs@[i].jvm_impl == install.jvm_impl,
            !r ==> forall|i: int|
                0 <= i < self.installs@.len() ==> !((#[trigger] self.installs@[i]).jvm_version
                    == install.jvm_version && self.installs@[i].jvm_impl == install.jvm_impl),
    {
        let mut i: usize = 0;
        while i < self.installs.len()
            invariant
                i <= self.installs@.len(),
                forall|j: int|
                    0 <= j < i ==> !((#[trigger] self.installs@[j]).jvm_version
                        == install.jvm_version && self.installs@[j].jvm_impl == install.jvm_impl),
            decreases self.installs@.len() - i,
        {
            if self.installs[i].jvm_version == install.jvm_version && self.installs[i].jvm_impl
                == install.jvm_impl {
                return true;
            }
            i = i + 1;
        }
        false
    }

    /// Adds `install` after the installs already recorded.
    pub fn add_install(&mut self, install: Install)
        ensures
            final(self).installs@ == old(self).installs@.push(install),
            final(self).install_location == old(self).install_location,
    {
        self.installs.push(install);
    }
}

} // verus!
