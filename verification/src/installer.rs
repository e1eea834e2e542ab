//! Installing an unpacked build: the order an archive's entries are
//! unpacked in, where the build lands, and how its tools are registered.

use vstd::prelude::*;
use vstd::string::*;
use crate::text::{chars_of, push_char};

verus! {

/// What to do with an archive entry when it is met.
#[derive(Clone, Copy, Debug, PartialEq, Eq, Structural)]
pub enum EntryAction {
    /// Unpack it now (it is not a directory).
    UnpackNow,
    /// Keep it and unpack it after all other entries (it is a directory).
    Defer,
}

/// The positions, in order, of the directory entries among the entries
/// whose kinds (`true` for a directory) are `kinds`.
pub open spec fn directory_positions(kinds: Seq<bool>) -> Seq<usize>
    decreases kinds.len(),
{
    if kinds.len() == 0 {
        Seq::empty()
    } else if kinds.last() {
        directory_positions(kinds.drop_last()).push((kinds.len() - 1) as usize)
    } else {
        directory_positions(kinds.drop_last())
    }
}

/// The directory positions of an archive are exactly the positions of its
/// directory entries, in increasing order: a directory is unpacked after
/// every other entry, and directories keep the archive's order.
pub proof fn lemma_directory_positions(kinds: Seq<bool>)
    requires
        kinds.len() <= usize::MAX,
    ensures
        forall|i: int, j: int|
            0 <= i < j < directory_positions(kinds).len() ==> directory_positions(kinds)[i]
                < directory_positions(kinds)[j],
        forall|k: int|
            0 <= k < kinds.len() ==> (kinds[k] <==> directory_positions(kinds).contains(
                k as usize,
            )),
        forall|i: int|
            0 <= i < directory_positions(kinds).len() ==> directory_positions(kinds)[i]
                < kinds.len(),
    decreases kinds.len(),
{
    if kinds.len() > 0 {
        let prev = kinds.drop_last();
        lemma_directory_positions(prev);
        let p = directory_positions(prev);
        let n = (kinds.len() - 1) as usize;
        assert forall|k: int| 0 <= k < kinds.len() implies (kinds[k]
            <==> directory_positions(kinds).contains(k as usize)) by {
            if k < kinds.len() - 1 {
                assert(kinds[k] == prev[k]);
                if kinds.last() {
                    if p.push(n).contains(k as usize) {
                        let t = choose|t: int| 0 <= t < p.push(n).len() && p.push(n)[t] == k as usize;
                        if t < p.len() {
                            assert(p.contains(k as usize));
                        }
                    }
                    if p.contains(k as usize) {
                        let t = choose|t: int| 0 <= t < p.len() && p[t] == k as usize;
                        assert(p.push(n)[t] == k as usize);
                    }
                }
            } else {
                if kinds.last() {
                    assert(p.push(n)[p.len() as int] == n);
                } else {
                    if p.contains(k as usize) {
                        let t = choose|t: int| 0 <= t < p.len() && p[t] == k as usize;
                    }
                }
            }
        }
    }
}

/// Follows the entries of an archive as they are read: files are unpacked
/// at once, directories are kept and unpacked at the end, and the path of
/// the first directory names the unpacked build.
pub struct Unpacker {
    first: Option<String>,
    directories: Vec<usize>,
    seen: usize,
    kinds: Ghost<Seq<bool>>,
}

impl Unpacker {
    #[verifier::type_invariant]
    spec fn well_formed(self) -> bool {
        &&& self.seen == self.kinds@.len()
        &&& self.directories@ == directory_positions(self.kinds@)
        &&& (self.first is Some <==> self.kinds@.contains(true))
    }

    /// The kinds of the entries met so far (`true` for a directory).
    pub closed spec fn kinds(self) -> Seq<bool> {
        self.kinds@
    }

    /// The path of the first directory met, if any.
    pub closed spec fn first(self) -> Option<Seq<char>> {
        match self.first {
            Some(p) => Some(p@),
            None => None,
        }
    }

    /// Nothing met yet.
    pub fn new() -> (r: Unpacker)
        ensures
            r.kinds() == Seq::<bool>::empty(),
            r.first() is None,
    {
        Unpacker { first: None, directories: Vec::new(), seen: 0, kinds: Ghost(Seq::empty()) }
    }

    /// How many entries were met so far: the position of the next one.
    pub fn count(&self) -> (r: usize)
        ensures
            r == self.kinds().len(),
    {
        proof {
            use_type_invariant(self);
        }
        self.seen
    }

    /// Whether the path of the next entry is needed: only for the first directory.
    pub fn needs_path(&self, is_directory: bool) -> (r: bool)
        ensures
            r == (is_directory && self.first() is None),
    {
        is_directory && self.first.is_none()
    }

    /// Meets the next entry: a directory is deferred (and its path kept if it
    /// is the first), anything else is unpacked now.
    pub fn on_entry(&mut self, is_directory: bool, path: Option<String>) -> (r: EntryAction)
        requires
            old(self).kinds().len() < usize::MAX,
            is_directory && old(self).first() is None ==> path is Some,
        ensures
            final(self).kinds() == old(self).kinds().push(is_directory),
            r == (if is_directory {
                EntryAction::Defer
            } else {
                EntryAction::UnpackNow
            }),
            final(self).first() == (if is_directory && old(self).first() is None {
                Some(path.unwrap()@)
            } else {
                old(self).first()
            }),
    {
        proof {
            use_type_invariant(&*self);
        }
        let ghost old_kinds = self.kinds@;
        let ghost new_kinds = old_kinds.push(is_directory);
        assert(new_kinds.drop_last() =~= old_kinds);
        let mut cur = Unpacker::new();
        std::mem::swap(&mut cur, self);
        let Unpacker { first, directories, seen, kinds: _ } = cur;
        let n = seen;
        let mut first = first;
        let mut dirs = directories;
        let action = if is_directory {
            if first.is_none() {
                first = path;
            }
            dirs.push(n);
            EntryAction::Defer
        } else {
            EntryAction::UnpackNow
        };
        proof {
            if new_kinds.contains(true) {
                let t = choose|t: int| 0 <= t < new_kinds.len() && new_kinds[t];
                if t < old_kinds.len() {
                    assert(old_kinds[t]);
                }
            }
            if old_kinds.contains(true) {
                let t = choose|t: int| 0 <= t < old_kinds.len() && old_kinds[t];
                assert(new_kinds[t]);
            }
            if is_directory {
                assert(new_kinds[old_kinds.len() as int]);
            }
        }
        *self = Unpacker { first, directories: dirs, seen: n + 1, kinds: Ghost(new_kinds) };
        action
    }

    /// Ends the archive: the positions of the directories to unpack now, in
    /// order, and the path of the first directory; `None` when the archive
    /// held no directory.
    pub fn finish(self) -> (r: Option<(Vec<usize>, String)>)
        ensures
            r is Some <==> self.kinds().contains(true),
            r is Some <==> self.first() is Some,
            r matches Some((dirs, path)) ==> dirs@ == directory_positions(self.kinds())
                && self.first() == Some(path@),
    {
        proof {
            use_type_invariant(&self);
        }
        let Unpacker { first, directories, seen: _, kinds: _ } = self;
        match first {
            Some(path) => Some((directories, path)),
            None => None,
        }
    }
}

/// Joining a path component onto a path as `Path::join` does on Unix: an
/// absolute component replaces the path, otherwise a '/' is put between them
/// unless the path is empty or already ends with one.
pub open spec fn spec_path_join(base: Seq<char>, comp: Seq<char>) -> Seq<char> {
    if comp.len() > 0 && comp[0] == '/' {
        comp
    } else if base.len() > 0 && base.last() != '/' {
        base + seq!['/'] + comp
    } else {
        base + comp
    }
}

/// `base` joined with `comp`, as `Path::new(base).join(comp)`.
pub fn path_join(base: &str, comp: &str) -> (r: String)
    ensures
        r@ == spec_path_join(base@, comp@),
{
    let b = chars_of(base);
    let c = chars_of(comp);
    if c.len() > 0 && c[0] == '/' {
        return comp.to_owned();
    }
    let mut r = base.to_owned();
    if b.len() > 0 && b[b.len() - 1] != '/' {
        push_char(&mut r, '/');
    }
    r.append(comp);
    r
}

/// Where builds are unpacked: "/opt" joined with "adoptopenjdk".
pub fn install_root() -> (r: String)
    ensures
        r@ == spec_path_join("/opt"@, "adoptopenjdk"@),
        r@ == "/opt/adoptopenjdk"@,
{
    proof {
        reveal_strlit("/opt");
        reveal_strlit("adoptopenjdk");
        reveal_strlit("/opt/adoptopenjdk");
        assert(spec_path_join("/opt"@, "adoptopenjdk"@) =~= "/opt/adoptopenjdk"@);
    }
    path_join("/opt", "adoptopenjdk")
}

/// The path of the tool `tool` of a build unpacked as `unpacked` under
/// `root`: root / unpacked / "bin" / tool.
pub fn tool_path(root: &str, unpacked: &str, tool: &str) -> (r: String)
    ensures
        r@ == spec_path_join(spec_path_join(spec_path_join(root@, unpacked@), "bin"@), tool@),
{
    let home = path_join(root, unpacked);
    let bin = path_join(home.as_str(), "bin");
    path_join(bin.as_str(), tool)
}

/// The program that registers a tool with the system.
pub fn alternatives_program() -> (r: String)
    ensures
        r@ == "update-alternatives"@,
{
    String::from_str("update-alternatives")
}

/// The arguments that register `target` as the tool `name`:
/// `--install /usr/bin/{name} {name} {target} 1`.
pub fn alternatives_args(name: &str, target: &str) -> (r: Vec<String>)
    ensures
        r@.len() == 5,
        r@[0]@ == "--install"@,
        r@[1]@ == "/usr/bin/"@ + name@,
        r@[2]@ == name@,
        r@[3]@ == target@,
        r@[4]@ == "1"@,
{
    let mut link = String::from_str("/usr/bin/");
    link.append(name);
    let mut r: Vec<String> = Vec::new();
    r.push(String::from_str("--install"));
    r.push(link);
    r.push(name.to_owned());
    r.push(target.to_owned());
    r.push(String::from_str("1"));
    r
}

} // verus!
