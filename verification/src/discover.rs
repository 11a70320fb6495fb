//! The upward search for the file that holds the tree.
//!
//! The search itself reads nothing. It says which directory to read next,
//! is told what was found there, and decides how to go on. Directories are
//! counted from the one the search starts in: level 0 is that directory,
//! level 1 its parent, and so on up to the root of the file system.

use crate::tree::Config;
use vstd::prelude::*;

verus! {

/// The name of the file that is looked for in each directory.
pub const CONFIG_FILE: &'static str = "run.toml";

/// What reading the file in one directory gave.
#[derive(Debug)]
pub enum Probe {
    /// The directory has no such file.
    Absent,
    /// The file was read and holds this tree.
    Loaded(Config),
    /// The file was read and does not hold a tree; the text says why.
    Malformed(String),
    /// The file is there, as far as can be told, and could not be read.
    Unreadable(std::io::Error),
}

/// Why a search found no tree.
#[derive(Debug)]
pub enum DiscoveryError {
    /// No directory up to the root has the file.
    NotFound,
    /// The first file met does not hold a tree; the text says why.
    Malformed(String),
    /// The file could not be read.
    Io(std::io::Error),
}

/// A search that has a directory left to read.
#[derive(Debug)]
pub struct Search {
    levels: usize,
    level: usize,
}

/// How a search stands.
#[derive(Debug)]
pub enum Step {
    /// The file in the directory at `Search::level` is to be read next.
    Read(Search),
    /// The tree was found in the directory at `level`.
    Found { tree: Config, level: usize },
    /// The search is over without a tree.
    Failed(DiscoveryError),
}

/// How a search stands, as a mathematical value: what is known of a search
/// that goes on is how many directories it covers and which it reads next.
pub enum StepView {
    Read { levels: nat, level: nat },
    Found { tree: Config, level: nat },
    Failed(DiscoveryError),
}

impl View for Step {
    type V = StepView;

    open spec fn view(&self) -> StepView {
        match *self {
            Step::Read(search) => StepView::Read { levels: search.levels(), level: search.level() },
            Step::Found { tree, level } => StepView::Found { tree, level: level as nat },
            Step::Failed(error) => StepView::Failed(error),
        }
    }
}

/// The search over `levels` directories that is about to read the one at
/// `level`; past the last directory it has failed.
pub open spec fn reading(levels: nat, level: nat) -> StepView {
    if level < levels {
        StepView::Read { levels, level }
    } else {
        StepView::Failed(DiscoveryError::NotFound)
    }
}

/// How a search over `levels` directories goes on from `level`, where
/// reading the directory gave `probe`.
pub open spec fn after(levels: nat, level: nat, probe: Probe) -> StepView {
    match probe {
        Probe::Absent => reading(levels, level + 1),
        Probe::Loaded(tree) => StepView::Found { tree, level },
        Probe::Malformed(reason) => StepView::Failed(DiscoveryError::Malformed(reason)),
        Probe::Unreadable(error) => StepView::Failed(DiscoveryError::Io(error)),
    }
}

/// Where a search that stands at `step` ends when reading the directory at
/// level `i` gives `probes[i]`.
pub open spec fn conclusion(step: StepView, probes: Seq<Probe>) -> StepView
    decreases
        (match step {
            StepView::Read { levels, level } => probes.len() - level,
            _ => 0,
        }),
{
    match step {
        StepView::Read { levels, level } => if level < probes.len() {
            conclusion(after(levels, level, probes[level as int]), probes)
        } else {
            step
        },
        _ => step,
    }
}

impl Search {
    #[verifier::type_invariant]
    spec fn well_formed(self) -> bool {
        self.level < self.levels
    }

    /// How many directories the search covers.
    pub closed spec fn levels(self) -> nat {
        self.levels as nat
    }

    /// The level of the directory to read next.
    pub closed spec fn level(self) -> nat {
        self.level as nat
    }

    /// Starts a search over `levels` directories: the one to start in and
    /// each of its ancestors.
    pub fn begin(levels: usize) -> (step: Step)
        ensures
            step@ == reading(levels as nat, 0),
    {
        if levels > 0 {
            Step::Read(Search { levels, level: 0 })
        } else {
            Step::Failed(DiscoveryError::NotFound)
        }
    }

    /// The level of the directory to read next: 0 for the directory the
    /// search started in, 1 for its parent, and so on.
    pub fn next_level(&self) -> (level: usize)
        ensures
            level == self.level(),
            level < self.levels(),
    {
        proof {
            use_type_invariant(self);
        }
        self.level
    }

    /// Goes on with what reading the directory at `next_level` gave. A tree
    /// ends the search, and so does a file that holds none or cannot be
    /// read; only where the file is absent the parent directory is next,
    /// and above the root the search has failed.
    pub fn step(self, probe: Probe) -> (step: Step)
        ensures
            step@ == after(self.levels(), self.level(), probe),
    {
        proof {
            use_type_invariant(&self);
        }
        match probe {
            Probe::Absent => {
                if self.level + 1 < self.levels {
                    Step::Read(Search { levels: self.levels, level: self.level + 1 })
                } else {
                    Step::Failed(DiscoveryError::NotFound)
                }
            },
            Probe::Loaded(tree) => Step::Found { tree, level: self.level },
            Probe::Malformed(reason) => Step::Failed(DiscoveryError::Malformed(reason)),
            Probe::Unreadable(error) => Step::Failed(DiscoveryError::Io(error)),
        }
    }
}

/// The first directory whose file is not absent decides: a search that is
/// about to read the directory at `start` ends as the step after that
/// first directory, at `first`, says.
pub proof fn lemma_first_file_decides(probes: Seq<Probe>, start: nat, first: nat)
    requires
        start <= first < probes.len(),
        forall|i: int| start <= i < first ==> probes[i] is Absent,
        !(probes[first as int] is Absent),
    ensures
        conclusion(reading(probes.len(), start), probes) == after(
            probes.len(),
            first,
            probes[first as int],
        ),
    decreases first - start,
{
    reveal_with_fuel(conclusion, 2);
    if start < first {
        assert(probes[start as int] is Absent);
        lemma_first_file_decides(probes, start + 1, first);
    }
}

/// Where the file of the directory at `found` holds `tree` and no
/// directory below it has the file, the search from level 0 finds `tree`,
/// and finds it at `found`.
pub proof fn lemma_finds_nearest_tree(probes: Seq<Probe>, found: nat, tree: Config)
    requires
        found < probes.len(),
        forall|i: int| 0 <= i < found ==> probes[i] is Absent,
        probes[found as int] == Probe::Loaded(tree),
    ensures
        conclusion(reading(probes.len(), 0), probes) == (StepView::Found { tree, level: found }),
{
    lemma_first_file_decides(probes, 0, found);
}

/// A file that holds no tree ends the search, whatever the directories
/// above it hold.
pub proof fn lemma_malformed_file_ends_search(
    probes: Seq<Probe>,
    met: nat,
    reason: String,
)
    requires
        met < probes.len(),
        forall|i: int| 0 <= i < met ==> probes[i] is Absent,
        probes[met as int] == Probe::Malformed(reason),
    ensures
        conclusion(reading(probes.len(), 0), probes) == StepView::Failed(
            DiscoveryError::Malformed(reason),
        ),
{
    lemma_first_file_decides(probes, 0, met);
}

/// Where no directory from `start` up to the root has the file, a search
/// that is about to read the directory at `start` fails as not found.
proof fn lemma_all_absent(probes: Seq<Probe>, start: nat)
    requires
        start <= probes.len(),
        forall|i: int| start <= i < probes.len() ==> probes[i] is Absent,
    ensures
        conclusion(reading(probes.len(), start), probes) == StepView::Failed(
            DiscoveryError::NotFound,
        ),
    decreases probes.len() - start,
{
    reveal_with_fuel(conclusion, 2);
    if start < probes.len() {
        assert(probes[start as int] is Absent);
        lemma_all_absent(probes, start + 1);
    }
}

/// Where no directory up to the root has the file, the search from level 0
/// fails, and it fails as not found, in no other way.
pub proof fn lemma_no_file_not_found(probes: Seq<Probe>)
    requires
        forall|i: int| 0 <= i < probes.len() ==> probes[i] is Absent,
    ensures
        conclusion(reading(probes.len(), 0), probes) == StepView::Failed(DiscoveryError::NotFound),
{
    lemma_all_absent(probes, 0);
}

} // verus!
