use vstd::prelude::*;
use vstd::string::*;
use crate::fetch::{Kind, UpdateConfig, plan_kinds, plan_len, kind_at, lemma_plan_kinds_distinct};

verus! {

// ---------------------------------------------------------------------------
// A model of the directory the protocol acts on.
// ---------------------------------------------------------------------------

/// The modelled content of one artifact destination in the live
/// directory.
#[derive(Clone, Copy, Debug, PartialEq, Eq, Structural)]
pub enum FileContent {
    /// The file does not exist.
    Missing,
    /// The file holds the payload written by the cycle that started at
    /// the given time.
    Stamped(u64),
    /// A copy into the file failed; nothing is known of what it holds.
    Unknown,
}

/// The state of the live directory, as the protocol sees it: the two
/// marker files (by the timestamp they hold), the four artifact
/// destinations, and whether the scratch directory exists.
pub ghost struct DirModel {
    /// Content of the committed marker file, where it exists and parses.
    pub committed: Option<u64>,
    /// Content of the in-progress marker file, likewise.
    pub in_progress: Option<u64>,
    pub asn: FileContent,
    pub cities: FileContent,
    pub countries: FileContent,
    pub iso_csv: FileContent,
    /// Whether the scratch directory exists.
    pub scratch: bool,
}

pub open spec fn file_of(d: DirModel, k: Kind) -> FileContent {
    match k {
        Kind::Asn => d.asn,
        Kind::Cities => d.cities,
        Kind::Countries => d.countries,
        Kind::IsoCsv => d.iso_csv,
    }
}

pub open spec fn set_file(d: DirModel, k: Kind, f: FileContent) -> DirModel {
    match k {
        Kind::Asn => DirModel { asn: f, ..d },
        Kind::Cities => DirModel { cities: f, ..d },
        Kind::Countries => DirModel { countries: f, ..d },
        Kind::IsoCsv => DirModel { iso_csv: f, ..d },
    }
}

proof fn lemma_file_set(d: DirModel, k: Kind, k2: Kind, f: FileContent)
    ensures
        file_of(set_file(d, k, f), k2) == (if k2 == k {
            f
        } else {
            file_of(d, k2)
        }),
{
}

proof fn lemma_file_unchanged(d1: DirModel, d2: DirModel, k: Kind)
    requires
        d1.asn == d2.asn,
        d1.cities == d2.cities,
        d1.countries == d2.countries,
        d1.iso_csv == d2.iso_csv,
    ensures
        file_of(d1, k) == file_of(d2, k),
{
}

// ---------------------------------------------------------------------------
// The protocol.
// ---------------------------------------------------------------------------

/// One step of outside work that the application performs on the cycle's
/// behalf. The application carries each action out against the real
/// directory and reports whether it succeeded.
#[derive(Clone, Copy, Debug, PartialEq, Eq, Structural)]
pub enum Action {
    /// Read the committed marker and ask the freshness oracle.
    CheckFreshness,
    /// Write the in-progress marker file, stamped with the cycle's start
    /// time, inside the live directory.
    WriteInProgressMarker,
    /// Run the staged fetcher: download and unpack every planned artifact
    /// into the scratch directory.
    FetchAll,
    /// Copy one artifact's payload from its scratch subdirectory to its
    /// destination in the live directory.
    CopyArtifact(Kind),
    /// Rename the in-progress marker to the committed marker name: the
    /// single atomic commit point.
    CommitMarker,
    /// Recursively delete the scratch directory.
    RemoveScratch,
}

/// Where the protocol stands.
#[derive(Clone, Copy, Debug)]
pub enum Phase {
    /// Waiting on the freshness decision.
    Start,
    /// Stale: the in-progress marker is to be written.
    WriteMarker,
    /// The staged fetch is to be run.
    Fetch,
    /// Artifacts up to the given position of the plan are copied; the one
    /// at it is to be copied next.
    Copy(usize),
    /// Every artifact is in place; the marker rename is to be done.
    Commit,
    /// Committed; the scratch directory is to be removed.
    Cleanup,
    /// The cycle succeeded.
    DoneUpdated,
    /// The snapshot was fresh; nothing was done.
    DoneNoChange,
    /// A step failed and the cycle stopped. The flag says whether the
    /// failure came after the marker rename.
    Failed(bool),
}

/// How each action moves the directory model. A failed marker write or
/// rename is modelled as no change: the rename is atomic, and a partial
/// in-progress marker never becomes authoritative. A failed copy leaves
/// its own destination in an unknown state and touches nothing else. A
/// fetch attempt may create the scratch directory whether or not it
/// succeeds.
pub open spec fn apply(a: Action, ok: bool, now: u64, d: DirModel) -> DirModel {
    match a {
        Action::CheckFreshness => d,
        Action::WriteInProgressMarker => if ok {
            DirModel { in_progress: Some(now), ..d }
        } else {
            d
        },
        Action::FetchAll => DirModel { scratch: true, ..d },
        Action::CopyArtifact(k) => if ok {
            set_file(d, k, FileContent::Stamped(now))
        } else {
            set_file(d, k, FileContent::Unknown)
        },
        Action::CommitMarker => if ok {
            DirModel { committed: d.in_progress, in_progress: None, ..d }
        } else {
            d
        },
        Action::RemoveScratch => if ok {
            DirModel { scratch: false, ..d }
        } else {
            d
        },
    }
}

/// One update cycle of the publish protocol. The application asks for the
/// pending action, performs it, and reports the outcome; the cycle keeps
/// a ghost model of the directory, moved by `apply`, against which the
/// protocol's guarantees are stated.
pub struct UpdateCycle {
    cfg: UpdateConfig,
    now: u64,
    phase: Phase,
    init: Ghost<DirModel>,
    dir: Ghost<DirModel>,
}

impl UpdateCycle {
    pub closed spec fn cfg(self) -> UpdateConfig {
        self.cfg
    }

    /// The cycle's start time, in Unix seconds.
    pub closed spec fn now(self) -> u64 {
        self.now
    }

    pub closed spec fn phase(self) -> Phase {
        self.phase
    }

    /// The directory as the cycle found it.
    pub closed spec fn init(self) -> DirModel {
        self.init@
    }

    /// The directory after the actions performed so far.
    pub closed spec fn dir(self) -> DirModel {
        self.dir@
    }

    pub open spec fn pending_spec(self) -> Option<Action> {
        match self.phase() {
            Phase::Start => Some(Action::CheckFreshness),
            Phase::WriteMarker => Some(Action::WriteInProgressMarker),
            Phase::Fetch => Some(Action::FetchAll),
            Phase::Copy(i) => Some(Action::CopyArtifact(plan_kinds(self.cfg())[i as int])),
            Phase::Commit => Some(Action::CommitMarker),
            Phase::Cleanup => Some(Action::RemoveScratch),
            Phase::DoneUpdated => None,
            Phase::DoneNoChange => None,
            Phase::Failed(_) => None,
        }
    }

    /// What the protocol guarantees of the directory at each phase. Until
    /// the marker rename, the committed marker is as the cycle found it;
    /// from the rename on, it carries the cycle's start time.
    pub open spec fn inv(self) -> bool {
        let d = self.dir();
        let init = self.init();
        let kinds = plan_kinds(self.cfg());
        let now = self.now();
        match self.phase() {
            Phase::Start => d == init,
            Phase::WriteMarker => d == init,
            Phase::Fetch => d == DirModel { in_progress: Some(now), ..init },
            Phase::Copy(i) => {
                &&& i < kinds.len()
                &&& d.committed == init.committed
                &&& d.in_progress == Some(now)
                &&& d.scratch
                &&& forall|j: int|
                    0 <= j < i ==> #[trigger] file_of(d, kinds[j]) == FileContent::Stamped(now)
                &&& forall|j: int|
                    i <= j < kinds.len() ==> #[trigger] file_of(d, kinds[j]) == file_of(
                        init,
                        kinds[j],
                    )
            },
            Phase::Commit => {
                &&& d.committed == init.committed
                &&& d.in_progress == Some(now)
                &&& d.scratch
                &&& forall|j: int|
                    0 <= j < kinds.len() ==> #[trigger] file_of(d, kinds[j])
                        == FileContent::Stamped(now)
            },
            Phase::Cleanup => {
                &&& d.committed == Some(now)
                &&& d.in_progress is None
                &&& d.scratch
                &&& forall|j: int|
                    0 <= j < kinds.len() ==> #[trigger] file_of(d, kinds[j])
                        == FileContent::Stamped(now)
            },
            Phase::DoneUpdated => {
                &&& d.committed == Some(now)
                &&& d.in_progress is None
                &&& !d.scratch
                &&& forall|j: int|
                    0 <= j < kinds.len() ==> #[trigger] file_of(d, kinds[j])
                        == FileContent::Stamped(now)
            },
            Phase::DoneNoChange => d == init,
            Phase::Failed(after) => if after {
                d.committed == Some(now)
            } else {
                d.committed == init.committed
            },
        }
    }

    /// Begins a cycle at the given start time. Nothing has been done yet:
    /// the modelled directory is the one the cycle found.
    pub fn start(cfg: UpdateConfig, now: u64) -> (m: UpdateCycle)
        ensures
            m.inv(),
            m.cfg() == cfg,
            m.now() == now,
            m.phase() is Start,
            m.dir() == m.init(),
    {
        let ghost d0 = arbitrary::<DirModel>();
        UpdateCycle { cfg, now, phase: Phase::Start, init: Ghost(d0), dir: Ghost(d0) }
    }

    /// What the application must do next; `None` once the cycle is over.
    pub fn pending(&self) -> (a: Option<Action>)
        requires
            self.inv(),
        ensures
            a == self.pending_spec(),
    {
        match self.phase {
            Phase::Start => Some(Action::CheckFreshness),
            Phase::WriteMarker => Some(Action::WriteInProgressMarker),
            Phase::Fetch => Some(Action::FetchAll),
            Phase::Copy(i) => Some(Action::CopyArtifact(kind_at(&self.cfg, i))),
            Phase::Commit => Some(Action::CommitMarker),
            Phase::Cleanup => Some(Action::RemoveScratch),
            Phase::DoneUpdated => None,
            Phase::DoneNoChange => None,
            Phase::Failed(_) => None,
        }
    }

    /// Feeds the freshness decision in. A fresh snapshot ends the cycle
    /// at once, the directory untouched; a stale one proceeds to the
    /// in-progress marker write.
    pub fn observe_freshness(&mut self, stale: bool)
        requires
            old(self).inv(),
            old(self).phase() is Start,
        ensures
            final(self).inv(),
            final(self).cfg() == old(self).cfg(),
            final(self).now() == old(self).now(),
            final(self).init() == old(self).init(),
            final(self).dir() == old(self).dir(),
            stale ==> final(self).phase() is WriteMarker,
            !stale ==> final(self).phase() is DoneNoChange,
    {
        if stale {
            self.phase = Phase::WriteMarker;
        } else {
            self.phase = Phase::DoneNoChange;
        }
    }

    /// Feeds the outcome of the pending action in and advances the
    /// protocol; the modelled directory moves by `apply`. On any failure
    /// the cycle stops, and a failure before the marker rename leaves the
    /// committed marker as the cycle found it; a failure while copying
    /// touches no artifact beyond the one whose copy failed.
    #[verifier::rlimit(60)]
    pub fn observe(&mut self, ok: bool)
        requires
            old(self).inv(),
            old(self).pending_spec() is Some,
            !(old(self).phase() is Start),
        ensures
            final(self).inv(),
            final(self).cfg() == old(self).cfg(),
            final(self).now() == old(self).now(),
            final(self).init() == old(self).init(),
            final(self).dir() == apply(
                old(self).pending_spec()->Some_0,
                ok,
                old(self).now(),
                old(self).dir(),
            ),
            ok ==> (match old(self).phase() {
                Phase::WriteMarker => final(self).phase() is Fetch,
                Phase::Fetch => final(self).phase() matches Phase::Copy(j) && j == 0,
                Phase::Copy(i) => if i + 1 < plan_kinds(old(self).cfg()).len() {
                    final(self).phase() matches Phase::Copy(j) && j == i + 1
                } else {
                    final(self).phase() is Commit
                },
                Phase::Commit => final(self).phase() is Cleanup,
                Phase::Cleanup => final(self).phase() is DoneUpdated,
                _ => true,
            }),
            !ok ==> (final(self).phase() matches Phase::Failed(after) && after == (old(
                self,
            ).phase() is Cleanup)),
            !ok ==> final(self).pending_spec() is None,
            !ok && !(old(self).phase() is Cleanup) ==> final(self).dir().committed == old(
                self,
            ).init().committed,
            (match old(self).phase() {
                Phase::Copy(i) => !ok ==> forall|j: int|
                    i < j < plan_kinds(old(self).cfg()).len() ==> #[trigger] file_of(
                        final(self).dir(),
                        plan_kinds(old(self).cfg())[j],
                    ) == file_of(old(self).init(), plan_kinds(old(self).cfg())[j]),
                _ => true,
            }),
    {
        proof {
            lemma_plan_kinds_distinct(self.cfg);
        }
        let ghost a = self.pending_spec()->Some_0;
        let ghost d0 = self.dir@;
        let ghost d1 = apply(a, ok, self.now, d0);
        match self.phase {
            Phase::WriteMarker => {
                self.phase = if ok {
                    Phase::Fetch
                } else {
                    Phase::Failed(false)
                };
                self.dir = Ghost(d1);
            },
            Phase::Fetch => {
                self.phase = if ok {
                    Phase::Copy(0)
                } else {
                    Phase::Failed(false)
                };
                self.dir = Ghost(d1);
            },
            Phase::Copy(i) => {
                self.dir = Ghost(d1);
                if ok {
                    let n = plan_len(&self.cfg);
                    self.phase = if i + 1 < n {
                        Phase::Copy(i + 1)
                    } else {
                        Phase::Commit
                    };
                    proof {
                        let kinds = plan_kinds(self.cfg);
                        assert forall|j: int| 0 <= j < i + 1 implies #[trigger] file_of(
                            d1,
                            kinds[j],
                        ) == FileContent::Stamped(self.now) by {
                            lemma_file_set(d0, kinds[i as int], kinds[j], FileContent::Stamped(self.now));
                        }
                        assert forall|j: int| i + 1 <= j < kinds.len() implies #[trigger] file_of(
                            d1,
                            kinds[j],
                        ) == file_of(self.init@, kinds[j]) by {
                            lemma_file_set(d0, kinds[i as int], kinds[j], FileContent::Stamped(self.now));
                        }
                    }
                } else {
                    self.phase = Phase::Failed(false);
                    proof {
                        let kinds = plan_kinds(self.cfg);
                        assert forall|j: int| i < j < kinds.len() implies #[trigger] file_of(
                            d1,
                            kinds[j],
                        ) == file_of(self.init@, kinds[j]) by {
                            lemma_file_set(d0, kinds[i as int], kinds[j], FileContent::Unknown);
                        }
                    }
                }
            },
            Phase::Commit => {
                self.phase = if ok {
                    Phase::Cleanup
                } else {
                    Phase::Failed(false)
                };
                self.dir = Ghost(d1);
                proof {
                    let kinds = plan_kinds(self.cfg);
                    assert forall|j: int| 0 <= j < kinds.len() implies #[trigger] file_of(
                        d1,
                        kinds[j],
                    ) == FileContent::Stamped(self.now) by {
                        lemma_file_unchanged(d1, d0, kinds[j]);
                        assert(file_of(d0, kinds[j]) == FileContent::Stamped(self.now));
                    }
                }
            },
            Phase::Cleanup => {
                self.phase = if ok {
                    Phase::DoneUpdated
                } else {
                    Phase::Failed(true)
                };
                self.dir = Ghost(d1);
                proof {
                    let kinds = plan_kinds(self.cfg);
                    assert forall|j: int| 0 <= j < kinds.len() implies #[trigger] file_of(
                        d1,
                        kinds[j],
                    ) == FileContent::Stamped(self.now) by {
                        lemma_file_unchanged(d1, d0, kinds[j]);
                        assert(file_of(d0, kinds[j]) == FileContent::Stamped(self.now));
                    }
                }
            },
            Phase::Start => {
                proof {
                    assert(false);
                }
            },
            Phase::DoneUpdated => {
                proof {
                    assert(false);
                }
            },
            Phase::DoneNoChange => {
                proof {
                    assert(false);
                }
            },
            Phase::Failed(_) => {
                proof {
                    assert(false);
                }
            },
        }
    }

    /// The cycle's outcome as the periodic driver reports it.
    pub fn outcome_message(&self) -> (r: Option<String>)
        ensures
            self.phase() is DoneUpdated ==> (r matches Some(s) && s@ == "updated"@),
            self.phase() is DoneNoChange ==> (r matches Some(s) && s@ == "nochange"@),
            (self.phase() matches Phase::Failed(_)) ==> (r matches Some(s) && s@ == "error"@),
            self.pending_spec() is Some ==> r is None,
    {
        match self.phase {
            Phase::DoneUpdated => Some("updated".to_owned()),
            Phase::DoneNoChange => Some("nochange".to_owned()),
            Phase::Failed(_) => Some("error".to_owned()),
            _ => None,
        }
    }
}

// ---------------------------------------------------------------------------
// The protocol's guarantees, read off the invariant.
// ---------------------------------------------------------------------------

/// After a successful cycle, the committed marker carries the cycle's
/// start time, every planned artifact's destination holds that cycle's
/// payload, and the scratch directory is gone.
pub proof fn lemma_success_snapshot(m: UpdateCycle)
    requires
        m.inv(),
        m.phase() is DoneUpdated,
    ensures
        m.dir().committed == Some(m.now()),
        !m.dir().scratch,
        forall|j: int|
            0 <= j < plan_kinds(m.cfg()).len() ==> #[trigger] file_of(
                m.dir(),
                plan_kinds(m.cfg())[j],
            ) == FileContent::Stamped(m.now()),
{
}

/// A cycle that ends with "nochange" has not touched the directory.
pub proof fn lemma_nochange_no_io(m: UpdateCycle)
    requires
        m.inv(),
        m.phase() is DoneNoChange,
    ensures
        m.dir() == m.init(),
{
}

/// Up to the marker rename — through the marker write, the fetch and
/// every copy — the committed marker is exactly as the cycle found it:
/// the old snapshot stays authoritative until the single commit point.
pub proof fn lemma_marker_stable_before_commit(m: UpdateCycle)
    requires
        m.inv(),
        (match m.phase() {
            Phase::Cleanup | Phase::DoneUpdated => false,
            Phase::Failed(after) => !after,
            _ => true,
        }),
    ensures
        m.dir().committed == m.init().committed,
{
}

/// A cycle that failed before the marker rename leaves the committed
/// marker exactly as it found it: the old snapshot stays authoritative.
pub proof fn lemma_failure_preserves_marker(m: UpdateCycle)
    requires
        m.inv(),
        m.phase() matches Phase::Failed(after) && !after,
    ensures
        m.dir().committed == m.init().committed,
{
}

} // verus!
