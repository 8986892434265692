//! The directory resolver's plan, and the decisions of the open and remove
//! paths that precede any substrate call.
//!
//! Resolving a directory walks its virtual path from the root, one hop per
//! name. Each hop first consults the directory cache; on a miss it asks the
//! parent handle for the child, with a `create` bit that this module fixes.
use vstd::prelude::*;
use vstd::string::*;

use crate::error::ErrorKind;
use crate::options::{CreateFileMode, OpenDirType};
use crate::path::{is_name, is_prefix, virtualize, virtualize_spec, VirtualPath};

verus! {

/// Whether the hop that reaches the name at position `i` of `target` asks
/// the substrate to create the directory. Recursive creation creates every
/// hop; plain creation only the last. Without creation, a hop still creates
/// a directory that lies on the current working directory, which is made on
/// demand.
pub open spec fn hop_creates(
    mode: OpenDirType,
    target: Seq<Seq<char>>,
    i: int,
    cwd: Seq<Seq<char>>,
) -> bool {
    match mode {
        OpenDirType::CreateRecursive => true,
        OpenDirType::Create => i == target.len() - 1,
        OpenDirType::NotCreate => is_prefix(target.subrange(0, i + 1), cwd),
    }
}

/// One step of a directory walk: the virtual path reached, the name asked
/// of the parent, and whether to create it when absent.
pub struct Hop {
    pub prefix: VirtualPath,
    pub name: String,
    pub create: bool,
}

/// `hops` walk to `target` from the root, one name per hop, each with the
/// `create` bit of `hop_creates`.
pub open spec fn is_plan(
    hops: Seq<Hop>,
    mode: OpenDirType,
    target: Seq<Seq<char>>,
    cwd: Seq<Seq<char>>,
) -> bool {
    &&& hops.len() == target.len()
    &&& forall|i: int|
        0 <= i < hops.len() ==> {
            &&& (#[trigger] hops[i]).prefix@ == target.subrange(0, i + 1)
            &&& hops[i].name@ == target[i]
            &&& hops[i].create == hop_creates(mode, target, i, cwd)
        }
}

/// The hops that resolve `target` from the root.
pub fn plan_open_dir(target: &VirtualPath, mode: OpenDirType, cwd: &VirtualPath) -> (r: Vec<Hop>)
    ensures
        is_plan(r@, mode, target@, cwd@),
{
    let n = target.depth();
    let mut hops: Vec<Hop> = Vec::new();
    let mut i: usize = 0;
    while i < n
        invariant
            n == target@.len(),
            i <= n,
            hops@.len() == i,
            forall|j: int|
                0 <= j < i ==> {
                    &&& (#[trigger] hops@[j]).prefix@ == target@.subrange(0, j + 1)
                    &&& hops@[j].name@ == target@[j]
                    &&& hops@[j].create == hop_creates(mode, target@, j, cwd@)
                },
        decreases n - i,
    {
        let prefix = target.prefix(i + 1);
        let create = match mode {
            OpenDirType::CreateRecursive => true,
            OpenDirType::Create => i + 1 == n,
            OpenDirType::NotCreate => cwd.starts_with(&prefix),
        };
        let name = target.name(i).clone();
        hops.push(Hop { prefix, name, create });
        i = i + 1;
    }
    hops
}

/// Creating `a/b/c` recursively creates every level on the way: each
/// non-empty prefix of the target is reached by a hop that creates it.
pub proof fn lemma_recursive_creates_every_level(
    hops: Seq<Hop>,
    target: Seq<Seq<char>>,
    cwd: Seq<Seq<char>>,
    k: int,
)
    requires
        is_plan(hops, OpenDirType::CreateRecursive, target, cwd),
        1 <= k <= target.len(),
    ensures
        exists|i: int|
            0 <= i < hops.len() && (#[trigger] hops[i]).prefix@ == target.subrange(0, k)
                && hops[i].create,
{
    assert(hops[k - 1].prefix@ == target.subrange(0, k));
}

/// Where an entry named by a caller path lives: the virtual path of its
/// parent directory, its name, and its own virtual path.
pub struct Target {
    pub parent: VirtualPath,
    pub name: String,
    pub path: VirtualPath,
}

/// The entry that `path` names when the current working directory is
/// `cwd`. The empty path is invalid input; a path that denotes the root has
/// no file name.
pub fn locate(cwd: &VirtualPath, path: &str) -> (r: Result<Target, ErrorKind>)
    requires
        cwd.wf(),
    ensures
        path@.len() == 0 ==> r == Err::<Target, ErrorKind>(ErrorKind::InvalidInput),
        path@.len() > 0 && virtualize_spec(cwd@, path@).len() == 0 ==> r == Err::<
            Target,
            ErrorKind,
        >(ErrorKind::InvalidFilename),
        path@.len() > 0 && virtualize_spec(cwd@, path@).len() > 0 ==> (r matches Ok(t) && t.path@
            == virtualize_spec(cwd@, path@) && t.parent@ == t.path@.drop_last() && t.name@
            == t.path@.last() && is_name(t.name@) && t.path.wf() && t.parent.wf()),
{
    if path.unicode_len() == 0 {
        return Err(ErrorKind::InvalidInput);
    }
    let v = virtualize(cwd, path);
    match v.split_last() {
        Some((parent, name)) => Ok(Target { parent, name, path: v }),
        None => Err(ErrorKind::InvalidFilename),
    }
}

/// The `create` bit of the file lookup once the caller's create mode met
/// the probe of whether the file exists: `create_new` on an existing file
/// fails; otherwise plain opening never creates and the other modes do.
pub open spec fn file_create_bit(mode: CreateFileMode, exists: bool) -> Result<bool, ErrorKind> {
    match mode {
        CreateFileMode::NotCreate => Ok(false),
        CreateFileMode::Create => Ok(true),
        CreateFileMode::CreateNew => if exists {
            Err(ErrorKind::AlreadyExists)
        } else {
            Ok(true)
        },
    }
}

/// Decides the file lookup for `mode` once it is known, under the path's
/// lock, whether the file exists.
pub fn decide_create(mode: CreateFileMode, exists: bool) -> (r: Result<bool, ErrorKind>)
    ensures
        r == file_create_bit(mode, exists),
{
    match mode {
        CreateFileMode::NotCreate => Ok(false),
        CreateFileMode::Create => Ok(true),
        CreateFileMode::CreateNew => if exists {
            Err(ErrorKind::AlreadyExists)
        } else {
            Ok(true)
        },
    }
}

/// The next substrate step of opening a file, once the caller holds its
/// seat on the path.
#[derive(Clone, Copy, Debug, PartialEq, Eq, Structural)]
pub enum OpenStep {
    /// Share the handle cached in the lock table.
    Share,
    /// Probe whether the file exists, then decide again.
    Probe,
    /// Look the file up in its parent with this `create` bit, and open a
    /// new synchronous handle on it.
    Lookup(bool),
}

/// The step that follows: a cached handle is shared, and proves the file
/// exists; otherwise create-new first probes for the file, and the lookup
/// then carries the `create` bit of `file_create_bit`.
pub open spec fn open_step_of(mode: CreateFileMode, cached: bool, probe: Option<bool>) -> Result<
    OpenStep,
    ErrorKind,
> {
    if cached {
        if mode == CreateFileMode::CreateNew {
            Err(ErrorKind::AlreadyExists)
        } else {
            Ok(OpenStep::Share)
        }
    } else if mode == CreateFileMode::CreateNew && probe is None {
        Ok(OpenStep::Probe)
    } else {
        match file_create_bit(
            mode,
            match probe {
                Some(e) => e,
                None => false,
            },
        ) {
            Ok(create) => Ok(OpenStep::Lookup(create)),
            Err(e) => Err(e),
        }
    }
}

/// Decides the next step of opening a file in create mode `mode`, given
/// whether a handle is cached for it and what the existence probe found, if
/// it ran.
pub fn open_step(mode: CreateFileMode, cached: bool, probe: Option<bool>) -> (r: Result<
    OpenStep,
    ErrorKind,
>)
    ensures
        r == open_step_of(mode, cached, probe),
{
    if cached {
        if mode == CreateFileMode::CreateNew {
            Err(ErrorKind::AlreadyExists)
        } else {
            Ok(OpenStep::Share)
        }
    } else if mode == CreateFileMode::CreateNew && probe.is_none() {
        Ok(OpenStep::Probe)
    } else {
        let exists = match probe {
            Some(e) => e,
            None => false,
        };
        match decide_create(mode, exists) {
            Ok(create) => Ok(OpenStep::Lookup(create)),
            Err(e) => Err(e),
        }
    }
}

/// `create_new` fails with already-exists on a path that exists (found by
/// the probe, or open elsewhere with a cached handle), and on a path that
/// does not exist it goes on to a lookup that creates the file.
pub proof fn lemma_create_new(exists: bool, cached: bool)
    ensures
        cached ==> open_step_of(CreateFileMode::CreateNew, cached, None) == Err::<
            OpenStep,
            ErrorKind,
        >(ErrorKind::AlreadyExists),
        !cached ==> open_step_of(CreateFileMode::CreateNew, cached, None) == Ok::<
            OpenStep,
            ErrorKind,
        >(OpenStep::Probe),
        !cached && exists ==> open_step_of(CreateFileMode::CreateNew, cached, Some(exists))
            == Err::<OpenStep, ErrorKind>(ErrorKind::AlreadyExists),
        !cached && !exists ==> open_step_of(CreateFileMode::CreateNew, cached, Some(exists))
            == Ok::<OpenStep, ErrorKind>(OpenStep::Lookup(true)),
{
}

} // verus!
