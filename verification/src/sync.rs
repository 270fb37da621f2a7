//! One synchronization run as a state machine. The machine decides; what
//! surrounds the library performs each action and reports back with the
//! event that the action names.

use crate::archive::{
    download_file, extraction_of, steps_view, zip_entries_of, ExtractStep, Extraction,
};
use crate::easytier::{
    check_exists, download_decision, download_missing_files, missing_roles, text_option, Download,
};
use crate::efile::EFile;
use crate::error::{error_view, Error};
use crate::model::GRelease;
use crate::platform::{install_dir_of, Platform};
use vstd::prelude::*;

verus! {

/// Where a run stands.
#[derive(Clone, Copy, Debug, PartialEq, Eq, Structural)]
pub enum SyncState {
    /// Nothing is known of the installation yet.
    Unknown,
    /// The required files are being looked for.
    Checking,
    /// Nothing is missing: the run ends without a download.
    UpToDate,
    /// Files are missing: the catalog is being fetched.
    NeedsRepair,
    /// The archive is being downloaded, unpacked and removed.
    Repairing,
    /// The missing files were installed.
    Repaired,
    /// The run failed.
    RepairFailed,
}

/// How far a repair has come.
#[derive(Clone, Copy, Debug, PartialEq, Eq, Structural)]
pub enum RepairPhase {
    /// The archive is being downloaded.
    Downloading,
    /// The entries chosen from the archive are being written.
    Unpacking,
    /// The downloaded archive is being removed.
    Cleaning,
}

/// What the surroundings report to the machine.
#[derive(Debug)]
pub enum SyncEvent {
    /// A run is asked for; `force` asks for a full replacement.
    Start { force: bool },
    /// The required files were looked for: one flag for each, in their
    /// order, set where the file was found.
    Probed(Vec<bool>),
    /// The catalog was fetched, or could not be.
    Catalog(Result<Vec<GRelease>, Error>),
    /// The archive was downloaded, or could not be.
    Downloaded(Result<Vec<u8>, Error>),
    /// The steps were performed, or one of them failed.
    Unpacked(Result<(), Error>),
    /// The downloaded archive was removed, or could not be.
    Removed(Result<(), Error>),
}

/// What the machine asks of the surroundings.
#[derive(Debug)]
pub enum SyncAction {
    /// Look for the required files, then report `Probed`.
    ProbeFiles,
    /// Fetch the catalog, then report `Catalog`.
    FetchCatalog,
    /// Download the archive to its file, then report `Downloaded`.
    Fetch(Download),
    /// Perform the steps in order up to the first that fails, then report
    /// `Unpacked`.
    Unpack(Vec<ExtractStep>),
    /// Remove the downloaded archive, then report `Removed`.
    RemoveArchive,
    /// The run is over: read the installed versions and return them.
    ReadVersion,
    /// The run is over: return the error.
    Fail(Error),
    /// The event does not belong to the state; nothing changes.
    Ignore,
}

/// A synchronization run: its state, how far its repair has come, whether
/// it replaces everything, the roles it found missing, and the failure of
/// the repair that is still to be reported.
#[derive(Debug)]
pub struct Synchronizer {
    pub state: SyncState,
    pub phase: RepairPhase,
    pub force: bool,
    pub need_file: Vec<EFile>,
    pub failure: Option<Error>,
}

/// Whether a run hangs together: a failure is only kept while the archive
/// of a repair is unpacked or removed, and a repair only runs for roles
/// that are missing.
pub open spec fn well_formed(run: Synchronizer) -> bool {
    &&& run.failure is Some ==> run.state is Repairing && !(run.phase is Downloading)
    &&& run.state is NeedsRepair || run.state is Repairing ==> run.need_file@.len() > 0
}

/// Whether a state ends a run.
pub open spec fn is_final(state: SyncState) -> bool {
    state is UpToDate || state is Repaired || state is RepairFailed
}

/// The number of events that a run may still wait for before it is over.
pub open spec fn steps_left(run: Synchronizer) -> nat {
    match run.state {
        SyncState::Unknown => 6,
        SyncState::Checking => 5,
        SyncState::NeedsRepair => 4,
        SyncState::Repairing => match run.phase {
            RepairPhase::Downloading => 3,
            RepairPhase::Unpacking => 2,
            RepairPhase::Cleaning => 1,
        },
        _ => 0,
    }
}

/// Whether an action ends the run with the given error.
pub open spec fn fails_with(action: SyncAction, error: Error) -> bool {
    action matches SyncAction::Fail(f) && f == error
}

/// Whether an event is the one that a run waits for.
pub open spec fn expected(run: Synchronizer, event: SyncEvent) -> bool {
    match run.state {
        SyncState::Unknown => event is Start,
        SyncState::Checking => event is Probed,
        SyncState::NeedsRepair => event is Catalog,
        SyncState::Repairing => match run.phase {
            RepairPhase::Downloading => event is Downloaded,
            RepairPhase::Unpacking => event is Unpacked,
            RepairPhase::Cleaning => event is Removed,
        },
        _ => false,
    }
}

/// Whether `next` and `action` are what follows when `run` meets `event`
/// on a host, with downloads going through the mirror if there is one.
pub open spec fn follows(
    next: Synchronizer,
    action: SyncAction,
    run: Synchronizer,
    event: SyncEvent,
    platform: Platform,
    mirror: Option<Seq<char>>,
) -> bool {
    if !expected(run, event) {
        next == run && action is Ignore
    } else {
        match event {
            SyncEvent::Start { force } => {
                &&& next.state is Checking
                &&& next.phase == run.phase
                &&& next.force == force
                &&& next.need_file == run.need_file
                &&& next.failure == run.failure
                &&& action is ProbeFiles
            },
            SyncEvent::Probed(present) => {
                let missing = missing_roles(run.force, platform.spec_is_windows(), present@);
                &&& next.phase == run.phase
                &&& next.force == run.force
                &&& next.need_file@ == missing
                &&& next.failure == run.failure
                &&& if missing.len() == 0 {
                    next.state is UpToDate && action is ReadVersion
                } else {
                    next.state is NeedsRepair && action is FetchCatalog
                }
            },
            SyncEvent::Catalog(catalog) => {
                &&& next.force == run.force
                &&& next.need_file == run.need_file
                &&& next.failure == run.failure
                &&& match action {
                    SyncAction::Fetch(download) => {
                        &&& next.state is Repairing
                        &&& next.phase is Downloading
                        &&& download_decision(
                            Ok(download),
                            catalog,
                            install_dir_of(platform.os@, platform.arch@),
                            run.need_file@,
                            platform.os@,
                            platform.arch@,
                            mirror,
                        )
                    },
                    SyncAction::Fail(e) => {
                        &&& next.state is RepairFailed
                        &&& next.phase == run.phase
                        &&& download_decision(
                            Err(e),
                            catalog,
                            install_dir_of(platform.os@, platform.arch@),
                            run.need_file@,
                            platform.os@,
                            platform.arch@,
                            mirror,
                        )
                    },
                    _ => false,
                }
            },
            SyncEvent::Downloaded(fetched) => {
                &&& next.force == run.force
                &&& next.need_file == run.need_file
                &&& match fetched {
                    Err(e) => {
                        &&& next.state is RepairFailed
                        &&& next.phase == run.phase
                        &&& next.failure == run.failure
                        &&& fails_with(action, e)
                    },
                    Ok(bytes) => {
                        let found = extraction_of(
                            zip_entries_of(bytes@),
                            run.need_file@,
                            platform.spec_is_windows(),
                        );
                        &&& next.state is Repairing
                        &&& next.phase is Unpacking
                        &&& error_view(next.failure) == found.1
                        &&& action matches SyncAction::Unpack(steps) && steps_view(steps@)
                            == found.0
                    },
                }
            },
            SyncEvent::Unpacked(written) => {
                &&& next.state is Repairing
                &&& next.phase is Cleaning
                &&& next.force == run.force
                &&& next.need_file == run.need_file
                &&& next.failure == match written {
                    Err(e) => Some(e),
                    Ok(_) => run.failure,
                }
                &&& action is RemoveArchive
            },
            SyncEvent::Removed(removed) => {
                &&& next.phase == run.phase
                &&& next.force == run.force
                &&& next.need_file == run.need_file
                &&& next.failure is None
                &&& match run.failure {
                    Some(e) => next.state is RepairFailed && fails_with(action, e),
                    None => next.state is Repaired && action is ReadVersion,
                }
            },
        }
    }
}

/// A copy of a list of roles.
pub fn copy_roles(list: &Vec<EFile>) -> (r: Vec<EFile>)
    ensures
        r@ == list@,
{
    let mut out: Vec<EFile> = Vec::new();
    let mut i: usize = 0;
    while i < list.len()
        invariant
            i <= list.len(),
            out@ == list@.take(i as int),
        decreases list.len() - i,
    {
        out.push(list[i]);
        assert(list@.take(i + 1) == list@.take(i as int).push(list@[i as int]));
        i = i + 1;
    }
    assert(list@.take(list@.len() as int) == list@);
    out
}

impl Synchronizer {
    /// A run that has not begun.
    pub fn new() -> (r: Synchronizer)
        ensures
            r.state is Unknown,
            r.phase is Downloading,
            !r.force,
            r.need_file@.len() == 0,
            r.failure is None,
            well_formed(r),
    {
        Synchronizer {
            state: SyncState::Unknown,
            phase: RepairPhase::Downloading,
            force: false,
            need_file: Vec::new(),
            failure: None,
        }
    }

    /// Whether the run is over.
    pub fn is_finished(&self) -> (r: bool)
        ensures
            r == is_final(self.state),
    {
        match self.state {
            SyncState::UpToDate | SyncState::Repaired | SyncState::RepairFailed => true,
            _ => false,
        }
    }

    /// Takes an event and says what to do next. An event that the run does
    /// not wait for changes nothing and is answered with `Ignore`.
    pub fn step(&mut self, event: SyncEvent, platform: &Platform, mirror: Option<&str>) -> (action:
        SyncAction)
        ensures
            follows(*final(self), action, *old(self), event, *platform, text_option(mirror)),
    {
        match self.state {
            SyncState::Unknown => match event {
                SyncEvent::Start { force } => {
                    self.force = force;
                    self.state = SyncState::Checking;
                    SyncAction::ProbeFiles
                },
                _ => SyncAction::Ignore,
            },
            SyncState::Checking => match event {
                SyncEvent::Probed(present) => {
                    self.need_file = check_exists(self.force, platform, &present);
                    if self.need_file.len() == 0 {
                        self.state = SyncState::UpToDate;
                        SyncAction::ReadVersion
                    } else {
                        self.state = SyncState::NeedsRepair;
                        SyncAction::FetchCatalog
                    }
                },
                _ => SyncAction::Ignore,
            },
            SyncState::NeedsRepair => match event {
                SyncEvent::Catalog(catalog) => {
                    let dir = platform.install_dir();
                    let need_file = copy_roles(&self.need_file);
                    match download_missing_files(dir.as_str(), need_file, catalog, platform, mirror) {
                        Ok(download) => {
                            self.state = SyncState::Repairing;
                            self.phase = RepairPhase::Downloading;
                            SyncAction::Fetch(download)
                        },
                        Err(e) => {
                            self.state = SyncState::RepairFailed;
                            SyncAction::Fail(e)
                        },
                    }
                },
                _ => SyncAction::Ignore,
            },
            SyncState::Repairing => match self.phase {
                RepairPhase::Downloading => match event {
                    SyncEvent::Downloaded(fetched) => match fetched {
                        Ok(bytes) => {
                            let need_file = copy_roles(&self.need_file);
                            let Extraction { steps, failure } = download_file(
                                Ok(bytes),
                                need_file,
                                platform.is_windows(),
                            );
                            self.failure = failure;
                            self.phase = RepairPhase::Unpacking;
                            SyncAction::Unpack(steps)
                        },
                        Err(e) => {
                            self.state = SyncState::RepairFailed;
                            SyncAction::Fail(e)
                        },
                    },
                    _ => SyncAction::Ignore,
                },
                RepairPhase::Unpacking => match event {
                    SyncEvent::Unpacked(written) => {
                        match written {
                            Err(e) => {
                                self.failure = Some(e);
                            },
                            Ok(_) => {},
                        }
                        self.phase = RepairPhase::Cleaning;
                        SyncAction::RemoveArchive
                    },
                    _ => SyncAction::Ignore,
                },
                RepairPhase::Cleaning => match event {
                    SyncEvent::Removed(_) => {
                        let mut failure: Option<Error> = None;
                        core::mem::swap(&mut self.failure, &mut failure);
                        match failure {
                            Some(e) => {
                                self.state = SyncState::RepairFailed;
                                SyncAction::Fail(e)
                            },
                            None => {
                                self.state = SyncState::Repaired;
                                SyncAction::ReadVersion
                            },
                        }
                    },
                    _ => SyncAction::Ignore,
                },
            },
            _ => SyncAction::Ignore,
        }
    }
}

/// A run that hangs together keeps doing so, whatever is reported to it.
pub proof fn lemma_step_keeps_well_formed(
    next: Synchronizer,
    action: SyncAction,
    run: Synchronizer,
    event: SyncEvent,
    platform: Platform,
    mirror: Option<Seq<char>>,
)
    requires
        well_formed(run),
        follows(next, action, run, event, platform, mirror),
    ensures
        well_formed(next),
{
}

/// A run that is over with no failure left to report: every run that hangs
/// together and has ended holds no failure.
pub proof fn lemma_finished_run_holds_no_failure(run: Synchronizer)
    requires
        well_formed(run),
        is_final(run.state),
    ensures
        run.failure is None,
{
}

/// Every run comes to an end: each event that a run waits for brings it
/// nearer to its end, and a run with nothing left to wait for is over.
pub proof fn lemma_every_step_nears_the_end(
    next: Synchronizer,
    action: SyncAction,
    run: Synchronizer,
    event: SyncEvent,
    platform: Platform,
    mirror: Option<Seq<char>>,
)
    requires
        expected(run, event),
        follows(next, action, run, event, platform, mirror),
    ensures
        steps_left(next) < steps_left(run),
        steps_left(next) == 0 <==> is_final(next.state),
        is_final(next.state) <==> action is ReadVersion || action is Fail,
{
}

/// A run that is over stays as it is, whatever is reported to it.
pub proof fn lemma_final_states_absorb(
    next: Synchronizer,
    action: SyncAction,
    run: Synchronizer,
    event: SyncEvent,
    platform: Platform,
    mirror: Option<Seq<char>>,
)
    requires
        is_final(run.state),
        follows(next, action, run, event, platform, mirror),
    ensures
        next == run,
        action is Ignore,
{
}

/// A run goes on to a download exactly when a role is missing: the report
/// of the files ends the run where no role is missing, and asks for the
/// catalog where one is.
pub proof fn lemma_download_only_when_missing(
    next: Synchronizer,
    action: SyncAction,
    run: Synchronizer,
    present: Vec<bool>,
    platform: Platform,
    mirror: Option<Seq<char>>,
)
    requires
        run.state is Checking,
        follows(next, action, run, SyncEvent::Probed(present), platform, mirror),
    ensures
        next.state is UpToDate <==> missing_roles(
            run.force,
            platform.spec_is_windows(),
            present@,
        ).len() == 0,
        next.state is UpToDate ==> action is ReadVersion,
        next.state is NeedsRepair <==> missing_roles(
            run.force,
            platform.spec_is_windows(),
            present@,
        ).len() > 0,
        next.state is NeedsRepair ==> action is FetchCatalog,
{
}

/// A full replacement always downloads: with `force` set, the report of
/// the files asks for the catalog with the wildcard as the one role to
/// fetch, whatever was found.
pub proof fn lemma_force_always_repairs(
    next: Synchronizer,
    action: SyncAction,
    run: Synchronizer,
    present: Vec<bool>,
    platform: Platform,
    mirror: Option<Seq<char>>,
)
    requires
        run.state is Checking,
        run.force,
        follows(next, action, run, SyncEvent::Probed(present), platform, mirror),
    ensures
        next.state is NeedsRepair,
        next.need_file@ == seq![EFile::All],
        action is FetchCatalog,
{
}

/// The downloaded archive is removed whatever became of its entries: once
/// the steps were tried, the next action is the removal, and a failed step
/// is kept to be reported after it.
pub proof fn lemma_archive_always_removed(
    next: Synchronizer,
    action: SyncAction,
    run: Synchronizer,
    written: Result<(), Error>,
    platform: Platform,
    mirror: Option<Seq<char>>,
)
    requires
        run.state is Repairing,
        run.phase is Unpacking,
        follows(next, action, run, SyncEvent::Unpacked(written), platform, mirror),
    ensures
        action is RemoveArchive,
        next.state is Repairing && next.phase is Cleaning,
        written matches Err(e) ==> next.failure == Some(e),
        written is Ok ==> next.failure == run.failure,
{
}

/// A removal that fails never masks an installation that went well, and a
/// removal that goes well never hides a failure: how the run ends depends
/// on the repair alone.
pub proof fn lemma_cleanup_decides_nothing(
    next: Synchronizer,
    action: SyncAction,
    run: Synchronizer,
    removed: Result<(), Error>,
    platform: Platform,
    mirror: Option<Seq<char>>,
)
    requires
        run.state is Repairing,
        run.phase is Cleaning,
        follows(next, action, run, SyncEvent::Removed(removed), platform, mirror),
    ensures
        run.failure is None ==> next.state is Repaired && action is ReadVersion,
        run.failure matches Some(e) ==> next.state is RepairFailed && fails_with(action, e),
{
}

} // verus!
