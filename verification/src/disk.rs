//! Disk volumes and the choice of the primary one.
//!
//! The primary volume stands for "the disk" in the aggregate figures. It is
//! found by its mount path alone: a volume mounted at `/` wins; where there
//! is none, a volume whose mount path holds the drive marker `C:` is taken.
//! Among several candidates of one kind the first in the list is chosen.

use vstd::prelude::*;

verus! {

/// Whether `path` is the root mount path: the single character `/`.
pub open spec fn is_root_mount(path: Seq<char>) -> bool {
    path =~= seq!['/']
}

/// Whether the drive marker `C:` stands at position `at` of `path`.
pub open spec fn drive_marker_at(path: Seq<char>, at: int) -> bool {
    0 <= at && at + 1 < path.len() && path[at] == 'C' && path[at + 1] == ':'
}

/// Whether `path` holds the drive marker `C:` anywhere.
pub open spec fn has_drive_marker(path: Seq<char>) -> bool {
    exists|at: int| drive_marker_at(path, at)
}

/// One mounted volume: where it is mounted, its size, and how much of it is
/// free. A volume never has more free space than it has space.
#[derive(Debug)]
pub struct DiskVolume {
    mount_point: String,
    total_space: u64,
    available_space: u64,
}

impl DiskVolume {
    #[verifier::type_invariant]
    spec fn space_is_consistent(self) -> bool {
        self.available_space <= self.total_space
    }

    /// The mount path, as characters.
    pub closed spec fn mount_path(&self) -> Seq<char> {
        self.mount_point@
    }

    /// The size of the volume in bytes.
    pub closed spec fn spec_total_space(&self) -> u64 {
        self.total_space
    }

    /// The free space of the volume in bytes.
    pub closed spec fn spec_available_space(&self) -> u64 {
        self.available_space
    }

    /// The space in use: the size less the free space.
    pub open spec fn spec_used_space(&self) -> int {
        self.total_space() - self.available_space()
    }

    /// A volume with the given mount path and counters, or `None` where the
    /// counters contradict each other: more free space than space.
    pub fn new(mount_point: String, total_space: u64, available_space: u64) -> (volume: Option<
        DiskVolume,
    >)
        ensures
            volume is Some <==> available_space <= total_space,
            volume matches Some(v) ==> v.mount_path() == mount_point@ && v.total_space()
                == total_space && v.available_space() == available_space,
    {
        if available_space <= total_space {
            Some(DiskVolume { mount_point, total_space, available_space })
        } else {
            None
        }
    }

    /// The mount path.
    pub fn mount_point(&self) -> (path: &String)
        ensures
            path@ == self.mount_path(),
    {
        &self.mount_point
    }

    /// The size of the volume in bytes.
    #[verifier::when_used_as_spec(spec_total_space)]
    pub fn total_space(&self) -> (bytes: u64)
        ensures
            bytes == self.total_space(),
    {
        self.total_space
    }

    /// The free space of the volume in bytes, never more than its size.
    #[verifier::when_used_as_spec(spec_available_space)]
    pub fn available_space(&self) -> (bytes: u64)
        ensures
            bytes == self.available_space(),
            bytes <= self.total_space(),
    {
        proof {
            use_type_invariant(self);
        }
        self.available_space
    }

    /// The space in use. It never goes below zero.
    pub fn used_space(&self) -> (bytes: u64)
        ensures
            bytes == self.spec_used_space(),
    {
        proof {
            use_type_invariant(self);
        }
        self.total_space - self.available_space
    }
}

/// Whether `path` is exactly `/`.
pub fn path_is_root(path: &str) -> (root: bool)
    ensures
        root == is_root_mount(path@),
{
    let mut seen_any = false;
    let mut root = false;
    for c in it: path.chars()
        invariant
            it.seq() == path@,
            seen_any == (it.index() > 0),
            root == (it.index() == 1 && path@[0] == '/'),
    {
        root = !seen_any && c == '/';
        seen_any = true;
    }
    root
}

/// Whether `path` holds `C:`.
pub fn path_has_drive_marker(path: &str) -> (found: bool)
    ensures
        found == has_drive_marker(path@),
{
    let mut found = false;
    let mut after_c = false;
    for c in it: path.chars()
        invariant
            it.seq() == path@,
            found == exists|at: int| drive_marker_at(path@, at) && at + 1 < it.index(),
            after_c == (it.index() > 0 && path@[it.index() - 1] == 'C'),
    {
        if after_c && c == ':' {
            assert(drive_marker_at(path@, it.index() - 1));
            found = true;
        }
        after_c = c == 'C';
    }
    found
}

/// Whether the volume at `index` is the first one mounted at `/`.
pub open spec fn is_first_root(disks: Seq<DiskVolume>, index: int) -> bool {
    &&& 0 <= index < disks.len()
    &&& is_root_mount(disks[index].mount_path())
    &&& forall|j: int| 0 <= j < index ==> !is_root_mount(#[trigger] disks[j].mount_path())
}

/// Whether the volume at `index` is the first one with the drive marker.
pub open spec fn is_first_marked(disks: Seq<DiskVolume>, index: int) -> bool {
    &&& 0 <= index < disks.len()
    &&& has_drive_marker(disks[index].mount_path())
    &&& forall|j: int| 0 <= j < index ==> !has_drive_marker(#[trigger] disks[j].mount_path())
}

/// The index of the primary volume of `disks`: the first volume mounted at
/// `/`; without one, the first volume with the drive marker; `None` where
/// there is neither.
pub open spec fn primary_index(disks: Seq<DiskVolume>) -> Option<int> {
    if exists|i: int| is_first_root(disks, i) {
        Some(choose|i: int| is_first_root(disks, i))
    } else if exists|i: int| is_first_marked(disks, i) {
        Some(choose|i: int| is_first_marked(disks, i))
    } else {
        None
    }
}

/// The size and the used space of the primary volume of `disks`, both zero
/// where there is no primary volume.
pub open spec fn disk_usage(disks: Seq<DiskVolume>) -> (int, int) {
    match primary_index(disks) {
        Some(index) => (disks[index].total_space() as int, disks[index].spec_used_space()),
        None => (0, 0),
    }
}

/// The first volume of `disks` whose mount path is `/`.
fn first_root_mount(disks: &Vec<DiskVolume>) -> (found: Option<usize>)
    ensures
        found matches Some(index) ==> is_first_root(disks@, index as int),
        found is None ==> forall|j: int|
            0 <= j < disks.len() ==> !is_root_mount(#[trigger] disks[j].mount_path()),
{
    let mut index: usize = 0;
    while index < disks.len()
        invariant
            index <= disks.len(),
            forall|j: int| 0 <= j < index ==> !is_root_mount(#[trigger] disks[j].mount_path()),
        decreases disks.len() - index,
    {
        if path_is_root(disks[index].mount_point().as_str()) {
            return Some(index);
        }
        index += 1;
    }
    None
}

/// The first volume of `disks` whose mount path holds `C:`.
fn first_drive_marker(disks: &Vec<DiskVolume>) -> (found: Option<usize>)
    ensures
        found matches Some(index) ==> is_first_marked(disks@, index as int),
        found is None ==> forall|j: int|
            0 <= j < disks.len() ==> !has_drive_marker(#[trigger] disks[j].mount_path()),
{
    let mut index: usize = 0;
    while index < disks.len()
        invariant
            index <= disks.len(),
            forall|j: int| 0 <= j < index ==> !has_drive_marker(#[trigger] disks[j].mount_path()),
        decreases disks.len() - index,
    {
        if path_has_drive_marker(disks[index].mount_point().as_str()) {
            return Some(index);
        }
        index += 1;
    }
    None
}

/// There is at most one first root mount and one first marked volume.
pub proof fn law_first_is_unique(disks: Seq<DiskVolume>, i: int, j: int)
    ensures
        is_first_root(disks, i) && is_first_root(disks, j) ==> i == j,
        is_first_marked(disks, i) && is_first_marked(disks, j) ==> i == j,
{
}

/// What `primary_index` picks: a root mount before any marked volume, the
/// earliest of its kind, and nothing only where no volume qualifies.
pub proof fn law_primary_index(disks: Seq<DiskVolume>)
    ensures
        match primary_index(disks) {
            Some(index) => {
                ||| is_first_root(disks, index)
                ||| (is_first_marked(disks, index) && forall|j: int|
                    0 <= j < disks.len() ==> !is_root_mount(#[trigger] disks[j].mount_path()))
            },
            None => forall|j: int|
                0 <= j < disks.len() ==> !is_root_mount(#[trigger] disks[j].mount_path())
                    && !has_drive_marker(disks[j].mount_path()),
        },
{
    if exists|i: int| is_first_root(disks, i) {
    } else {
        assert forall|j: int| 0 <= j < disks.len() implies !is_root_mount(
            #[trigger] disks[j].mount_path(),
        ) by {
            if is_root_mount(disks[j].mount_path()) {
                lemma_first_exists(disks, j, true);
            }
        }
        if exists|i: int| is_first_marked(disks, i) {
        } else {
            assert forall|j: int| 0 <= j < disks.len() implies !has_drive_marker(
                #[trigger] disks[j].mount_path(),
            ) by {
                if has_drive_marker(disks[j].mount_path()) {
                    lemma_first_exists(disks, j, false);
                }
            }
        }
    }
}

/// Where some volume up to `bound` qualifies, a first one exists.
proof fn lemma_first_exists(disks: Seq<DiskVolume>, bound: int, root: bool)
    requires
        0 <= bound < disks.len(),
        root ==> is_root_mount(disks[bound].mount_path()),
        !root ==> has_drive_marker(disks[bound].mount_path()),
    ensures
        root ==> exists|i: int| is_first_root(disks, i),
        !root ==> exists|i: int| is_first_marked(disks, i),
    decreases bound,
{
    if root {
        if exists|j: int| 0 <= j < bound && is_root_mount(#[trigger] disks[j].mount_path()) {
            let j = choose|j: int| 0 <= j < bound && is_root_mount(#[trigger] disks[j].mount_path());
            lemma_first_exists(disks, j, true);
        } else {
            assert(is_first_root(disks, bound));
        }
    } else {
        if exists|j: int| 0 <= j < bound && has_drive_marker(#[trigger] disks[j].mount_path()) {
            let j = choose|j: int|
                0 <= j < bound && has_drive_marker(#[trigger] disks[j].mount_path());
            lemma_first_exists(disks, j, false);
        } else {
            assert(is_first_marked(disks, bound));
        }
    }
}

/// The index of the primary volume of `disks`: the first volume mounted at
/// `/`; without one, the first volume whose mount path holds `C:`; `None`
/// where no volume is of either kind.
pub fn primary_volume(disks: &Vec<DiskVolume>) -> (found: Option<usize>)
    ensures
        found matches Some(index) ==> primary_index(disks@) == Some(index as int),
        found is None ==> primary_index(disks@) is None,
        found matches Some(index) ==> {
            ||| is_first_root(disks@, index as int)
            ||| (is_first_marked(disks@, index as int) && forall|j: int|
                0 <= j < disks.len() ==> !is_root_mount(#[trigger] disks[j].mount_path()))
        },
        found is None ==> forall|j: int|
            0 <= j < disks.len() ==> !is_root_mount(#[trigger] disks[j].mount_path())
                && !has_drive_marker(disks[j].mount_path()),
{
    match first_root_mount(disks) {
        Some(index) => {
            proof {
                law_first_is_unique(disks@, index as int, choose|i: int| is_first_root(disks@, i));
            }
            Some(index)
        },
        None => {
            match first_drive_marker(disks) {
                Some(index) => {
                    proof {
                        law_first_is_unique(
                            disks@,
                            index as int,
                            choose|i: int| is_first_marked(disks@, i),
                        );
                    }
                    Some(index)
                },
                None => None,
            }
        },
    }
}

/// The size and the used space of the primary volume, `(0, 0)` without one.
pub fn primary_disk_usage(disks: &Vec<DiskVolume>) -> (usage: (u64, u64))
    ensures
        (usage.0 as int, usage.1 as int) == disk_usage(disks@),
        primary_index(disks@) is None ==> usage == (0u64, 0u64),
        disks.len() == 0 ==> usage == (0u64, 0u64),
{
    match primary_volume(disks) {
        Some(index) => {
            let volume = &disks[index];
            (volume.total_space(), volume.used_space())
        },
        None => (0, 0),
    }
}

} // verus!
