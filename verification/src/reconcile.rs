//! The reconciliation state machine.
//!
//! A job walks the machine from `Start` to `Done`.  The machine never
//! performs filesystem or network work itself: each `step` consumes the
//! outcome of the previous command as an [`Event`] and answers with the
//! next [`Command`] for the caller to perform.  The decision between
//! uploading, downloading and doing nothing is a single clock comparison,
//! made in [`decide_action`].

use crate::archive::entries_view;
use crate::archive::packable;
use crate::archive::pack;
use crate::archive::unpack;
use crate::archive::zip_entries;
use crate::archive::FileEntry;
use crate::clock::derive_clock;
use crate::clock::spec_derive_clock;
use crate::clock::LocalFile;
use crate::descriptor::encode_descriptor;
use crate::descriptor::parse_descriptor;
use crate::descriptor::spec_descriptor;
use crate::descriptor::spec_parse_descriptor;
use crate::errors::SyncError;
use crate::errors::SyncErrorKind;
use crate::names::clone_bytes;
use crate::names::file_name_view;
use crate::names::find_with_suffix;
use crate::names::json_suffix;
use crate::names::json_suffix_bytes;
use crate::names::make_file_name;
use crate::names::names_view;
use crate::names::spec_find_suffix;
use crate::names::zip_suffix;
use crate::names::zip_suffix_bytes;
use vstd::prelude::*;

verus! {

/// One synchronization request: which save, where it lives locally, and
/// how to reach the remote store.  Consumed by exactly one worker.
pub struct SyncJob {
    pub save_name: Vec<u8>,
    pub local_path: String,
    pub remote_host: String,
    pub remote_port: u16,
    pub user: String,
    pub password: String,
}

/// What the clock comparison decides.
#[derive(Clone, Copy, PartialEq, Eq, Structural, Debug)]
pub enum SyncAction {
    Upload,
    Download,
    NoOp,
}

/// The decision rule: no remote descriptor means upload; otherwise the
/// newer side wins and equal clocks mean nothing to do.
pub open spec fn spec_decide(local_time: u64, remote_time: Option<u64>) -> SyncAction {
    match remote_time {
        None => SyncAction::Upload,
        Some(rt) => if rt > local_time {
            SyncAction::Download
        } else if rt == local_time {
            SyncAction::NoOp
        } else {
            SyncAction::Upload
        },
    }
}

/// Chooses the action for a local clock and a remote descriptor clock, if
/// one exists.
pub fn decide_action(local_time: u64, remote_time: Option<u64>) -> (action: SyncAction)
    ensures
        action == spec_decide(local_time, remote_time),
        remote_time is None ==> action is Upload,
        remote_time matches Some(rt) ==> (action is Download <==> rt > local_time),
        remote_time matches Some(rt) ==> (action is NoOp <==> rt == local_time),
        remote_time matches Some(rt) ==> (action is Upload <==> rt < local_time),
{
    match remote_time {
        None => SyncAction::Upload,
        Some(rt) => {
            if rt > local_time {
                SyncAction::Download
            } else if rt == local_time {
                SyncAction::NoOp
            } else {
                SyncAction::Upload
            }
        },
    }
}

/// The clocks after an action completes with no outside interference: an
/// upload publishes the local clock, a download adopts the remote one, a
/// no-op changes nothing.
pub open spec fn clocks_after(action: SyncAction, local_time: u64, remote_time: Option<u64>) -> (
    u64,
    Option<u64>,
) {
    match action {
        SyncAction::Upload => (local_time, Some(local_time)),
        SyncAction::Download => (
            match remote_time {
                Some(rt) => rt,
                None => local_time,
            },
            remote_time,
        ),
        SyncAction::NoOp => (local_time, remote_time),
    }
}

/// Law: running a second reconciliation right after a completed one, with
/// no local or remote changes in between, decides a no-op.
pub proof fn lemma_sync_idempotent(local_time: u64, remote_time: Option<u64>)
    ensures
        ({
            let (l2, r2) = clocks_after(
                spec_decide(local_time, remote_time),
                local_time,
                remote_time,
            );
            spec_decide(l2, r2) == SyncAction::NoOp
        }),
{
}

/// Law: an upload publishes the descriptor for the local clock; a second
/// run that reads that descriptor back, over an unchanged save, decides a
/// no-op.
pub proof fn lemma_second_run_is_noop(local_time: u64)
    ensures
        spec_parse_descriptor(spec_descriptor(local_time)) == Some(local_time),
        spec_decide(local_time, Some(local_time)) == SyncAction::NoOp,
{
    crate::descriptor::lemma_descriptor_roundtrip(local_time);
}

/// Where a job stands.
#[derive(Clone, Copy, PartialEq, Eq, Structural, Debug)]
pub enum Phase {
    Start,
    LocalScan,
    RemoteProbe,
    DescriptorFetch,
    Download,
    LocalWrite,
    Upload,
    Done,
    Failed,
}

/// What the caller reports back after performing a command.
pub enum Event {
    Begin,
    LocalMissing,
    LocalTree(Vec<LocalFile>),
    RemoteListing(Vec<Vec<u8>>),
    DescriptorBytes(Vec<u8>),
    ArchiveBytes(Vec<u8>),
    Stored,
    Written,
    Failed(SyncError),
}

/// How a job ended.
pub enum Outcome {
    Done,
    Failed(SyncError),
}

/// What the caller must do next.
pub enum Command {
    ScanLocal,
    OpenRemote,
    FetchDescriptor(Vec<u8>),
    FetchArchive(Vec<u8>),
    Publish {
        delete: Vec<Vec<u8>>,
        descriptor_name: Vec<u8>,
        descriptor: Vec<u8>,
        archive_name: Vec<u8>,
        archive: Vec<u8>,
    },
    WriteLocal(Vec<FileEntry>),
    Finish(Outcome),
}

/// The archive entries an upload of these files carries.
pub open spec fn upload_entries(files: Seq<LocalFile>) -> Seq<(Seq<u8>, Seq<u8>)> {
    files.map_values(|f: LocalFile| (f.path@, f.data@))
}

/// The reconciliation state machine for one job.
pub struct Reconciler {
    pub save_name: Vec<u8>,
    pub date: Vec<u8>,
    pub phase: Phase,
    pub local_time: u64,
    pub remote_time: u64,
    pub files: Vec<LocalFile>,
    pub listing: Vec<Vec<u8>>,
}

/// The publish command for a new pair: the given names to delete, the
/// descriptor for the scanned clock and a well-formed archive of the
/// scanned files, both under their dated names.
pub open spec fn published_pair(
    pre: Reconciler,
    post: Reconciler,
    cmd: Command,
    delete_names: Seq<Seq<u8>>,
) -> bool {
    &&& cmd matches Command::Publish { delete, descriptor_name, descriptor, archive_name, archive }
    &&& names_view(delete@) == delete_names
    &&& descriptor_name@ == file_name_view(pre.save_name@, pre.date@, json_suffix())
    &&& archive_name@ == file_name_view(pre.save_name@, pre.date@, zip_suffix())
    &&& descriptor@ == spec_descriptor(pre.local_time)
    &&& zip_entries(archive@) == Some(upload_entries(pre.files@))
    &&& post.phase is Upload
    &&& post.local_time == pre.local_time
}

/// What publishing a new pair achieves: the publish command, or an archive
/// failure where the writer refused an entry -- and a packable file set is
/// always published, never refused.
pub open spec fn upload_outcome(
    pre: Reconciler,
    post: Reconciler,
    cmd: Command,
    delete_names: Seq<Seq<u8>>,
) -> bool {
    &&& {
        ||| published_pair(pre, post, cmd, delete_names)
        ||| {
            &&& post.phase is Failed
            &&& cmd matches Command::Finish(Outcome::Failed(e))
            &&& e.kind == SyncErrorKind::Archive
        }
    }
    &&& (packable(upload_entries(pre.files@)) ==> published_pair(pre, post, cmd, delete_names))
}

/// A step that aborts the job over a malformed or unexpected remote value.
pub open spec fn protocol_failure(post: Reconciler, cmd: Command) -> bool {
    &&& post.phase is Failed
    &&& cmd matches Command::Finish(Outcome::Failed(e))
    &&& e.kind == SyncErrorKind::Protocol
}

/// The transition relation of the machine: what one `step` does for each
/// phase and event.
pub open spec fn next_state(pre: Reconciler, ev: Event, post: Reconciler, cmd: Command) -> bool {
    &&& post.save_name == pre.save_name
    &&& post.date == pre.date
    &&& match (pre.phase, ev) {
        (_, Event::Failed(e)) => {
            &&& post.phase is Failed
            &&& cmd matches Command::Finish(Outcome::Failed(e2))
            &&& e2.kind == e.kind
            &&& e2.reason@ == e.reason@
        },
        (Phase::Start, Event::Begin) => post.phase is LocalScan && cmd is ScanLocal,
        (Phase::LocalScan, Event::LocalMissing) => post.phase is Done && cmd matches Command::Finish(
            Outcome::Done,
        ),
        (Phase::LocalScan, Event::LocalTree(files)) => {
            &&& post.phase is RemoteProbe
            &&& post.local_time == spec_derive_clock(files@)
            &&& post.files == files
            &&& cmd is OpenRemote
        },
        (Phase::RemoteProbe, Event::RemoteListing(names)) => match spec_find_suffix(
            names@,
            json_suffix(),
        ) {
            Some(j) => {
                &&& post.phase is DescriptorFetch
                &&& post.local_time == pre.local_time
                &&& post.files == pre.files
                &&& post.listing == names
                &&& cmd matches Command::FetchDescriptor(n)
                &&& n@ == names@[j]@
            },
            None => upload_outcome(pre, post, cmd, names_view(names@)),
        },
        (Phase::DescriptorFetch, Event::DescriptorBytes(b)) => match spec_parse_descriptor(b@) {
            None => protocol_failure(post, cmd),
            Some(rt) => match spec_decide(pre.local_time, Some(rt)) {
                SyncAction::NoOp => post.phase is Done && cmd matches Command::Finish(
                    Outcome::Done,
                ),
                SyncAction::Download => match spec_find_suffix(pre.listing@, zip_suffix()) {
                    Some(k) => {
                        &&& post.phase is Download
                        &&& post.local_time == pre.local_time
                        &&& post.remote_time == rt
                        &&& cmd matches Command::FetchArchive(n)
                        &&& n@ == pre.listing@[k]@
                    },
                    None => protocol_failure(post, cmd),
                },
                SyncAction::Upload => upload_outcome(pre, post, cmd, names_view(pre.listing@)),
            },
        },
        (Phase::Download, Event::ArchiveBytes(bytes)) => match zip_entries(bytes@) {
            Some(es) => {
                &&& post.phase is LocalWrite
                &&& cmd matches Command::WriteLocal(fs)
                &&& entries_view(fs@) == es
            },
            None => {
                &&& post.phase is Failed
                &&& cmd matches Command::Finish(Outcome::Failed(e))
                &&& e.kind == SyncErrorKind::Archive
            },
        },
        (Phase::LocalWrite, Event::Written) => post.phase is Done && cmd matches Command::Finish(
            Outcome::Done,
        ),
        (Phase::Upload, Event::Stored) => post.phase is Done && cmd matches Command::Finish(
            Outcome::Done,
        ),
        _ => protocol_failure(post, cmd),
    }
}

/// Relies on chrono's Local::now and NaiveDate's rendering: the current
/// civil date as `YYYY-MM-DD` text.  It depends on the system clock and
/// time zone, so nothing is promised of its value.
#[verifier::external_body]
fn today_date() -> (date: Vec<u8>)
{
    chrono::offset::Local::now().date_naive().to_string().into_bytes()
}

/// The files of a scan as archive entries.
fn to_entries(files: &Vec<LocalFile>) -> (out: Vec<FileEntry>)
    ensures
        entries_view(out@) == upload_entries(files@),
{
    let mut out: Vec<FileEntry> = Vec::new();
    let mut i: usize = 0;
    while i < files.len()
        invariant
            i <= files@.len(),
            entries_view(out@) == upload_entries(files@.take(i as int)),
        decreases files@.len() - i,
    {
        let entry = FileEntry {
            path: clone_bytes(&files[i].path),
            data: clone_bytes(&files[i].data),
        };
        proof {
            assert(upload_entries(files@.take(i + 1)) =~= upload_entries(
                files@.take(i as int),
            ).push((files@[i as int].path@, files@[i as int].data@)));
            assert(entries_view(out@.push(entry)) =~= entries_view(out@).push(entry.entry()));
        }
        out.push(entry);
        i = i + 1;
    }
    proof {
        assert(files@.take(files@.len() as int) =~= files@);
    }
    out
}

/// A copy of a listing's names.
fn clone_names(names: &Vec<Vec<u8>>) -> (out: Vec<Vec<u8>>)
    ensures
        names_view(out@) == names_view(names@),
{
    let mut out: Vec<Vec<u8>> = Vec::new();
    let mut i: usize = 0;
    while i < names.len()
        invariant
            i <= names@.len(),
            names_view(out@) == names_view(names@.take(i as int)),
        decreases names@.len() - i,
    {
        let name = clone_bytes(&names[i]);
        proof {
            assert(names_view(names@.take(i + 1)) =~= names_view(names@.take(i as int)).push(
                names@[i as int]@,
            ));
            assert(names_view(out@.push(name)) =~= names_view(out@).push(name@));
        }
        out.push(name);
        i = i + 1;
    }
    proof {
        assert(names@.take(names@.len() as int) =~= names@);
    }
    out
}

impl Reconciler {
    /// A fresh machine for one job, with the date its new pair would carry.
    pub fn new(save_name: Vec<u8>, date: Vec<u8>) -> (r: Reconciler)
        ensures
            r.save_name == save_name,
            r.date == date,
            r.phase is Start,
    {
        Reconciler {
            save_name,
            date,
            phase: Phase::Start,
            local_time: 0,
            remote_time: 0,
            files: Vec::new(),
            listing: Vec::new(),
        }
    }

    /// A fresh machine dated today.
    pub fn for_today(save_name: Vec<u8>) -> (r: Reconciler)
        ensures
            r.save_name == save_name,
            r.phase is Start,
    {
        let date = today_date();
        Reconciler::new(save_name, date)
    }

    /// Aborts over a malformed or unexpected remote value.
    fn fail_protocol(&mut self, why: &str) -> (cmd: Command)
        ensures
            final(self).save_name == old(self).save_name,
            final(self).date == old(self).date,
            protocol_failure(*final(self), cmd),
    {
        self.phase = Phase::Failed;
        Command::Finish(Outcome::Failed(SyncError::protocol(why.to_owned())))
    }

    /// Builds the new pair and asks the caller to publish it.
    fn publish(&mut self, delete: Vec<Vec<u8>>) -> (cmd: Command)
        ensures
            final(self).save_name == old(self).save_name,
            final(self).date == old(self).date,
            upload_outcome(*old(self), *final(self), cmd, names_view(delete@)),
    {
        let entries = to_entries(&self.files);
        match pack(&entries) {
            Ok(archive) => {
                let descriptor = encode_descriptor(self.local_time);
                let json_suf = json_suffix_bytes();
                let zip_suf = zip_suffix_bytes();
                let descriptor_name = make_file_name(&self.save_name, &self.date, &json_suf);
                let archive_name = make_file_name(&self.save_name, &self.date, &zip_suf);
                self.phase = Phase::Upload;
                Command::Publish { delete, descriptor_name, descriptor, archive_name, archive }
            },
            Err(e) => {
                self.phase = Phase::Failed;
                Command::Finish(Outcome::Failed(e))
            },
        }
    }

    /// One transition of the machine: consumes the outcome of the previous
    /// command and answers with the next one.  The whole behaviour is the
    /// transition relation [`next_state`].
    pub fn step(&mut self, ev: Event) -> (cmd: Command)
        requires
            !(old(self).phase is Done),
            !(old(self).phase is Failed),
        ensures
            next_state(*old(self), ev, *final(self), cmd),
    {
        let phase = self.phase;
        match (phase, ev) {
            (_, Event::Failed(e)) => {
                self.phase = Phase::Failed;
                Command::Finish(Outcome::Failed(e))
            },
            (Phase::Start, Event::Begin) => {
                self.phase = Phase::LocalScan;
                Command::ScanLocal
            },
            (Phase::LocalScan, Event::LocalMissing) => {
                self.phase = Phase::Done;
                Command::Finish(Outcome::Done)
            },
            (Phase::LocalScan, Event::LocalTree(files)) => {
                self.local_time = derive_clock(&files);
                self.files = files;
                self.phase = Phase::RemoteProbe;
                Command::OpenRemote
            },
            (Phase::RemoteProbe, Event::RemoteListing(names)) => {
                let json_suf = json_suffix_bytes();
                match find_with_suffix(&names, &json_suf) {
                    Some(j) => {
                        let entry = clone_bytes(&names[j]);
                        self.listing = names;
                        self.phase = Phase::DescriptorFetch;
                        Command::FetchDescriptor(entry)
                    },
                    None => self.publish(names),
                }
            },
            (Phase::DescriptorFetch, Event::DescriptorBytes(b)) => {
                match parse_descriptor(&b) {
                    None => self.fail_protocol("remote descriptor is malformed"),
                    Some(rt) => {
                        match decide_action(self.local_time, Some(rt)) {
                            SyncAction::NoOp => {
                                self.phase = Phase::Done;
                                Command::Finish(Outcome::Done)
                            },
                            SyncAction::Download => {
                                let zip_suf = zip_suffix_bytes();
                                match find_with_suffix(&self.listing, &zip_suf) {
                                    Some(k) => {
                                        self.remote_time = rt;
                                        let entry = clone_bytes(&self.listing[k]);
                                        self.phase = Phase::Download;
                                        Command::FetchArchive(entry)
                                    },
                                    None => self.fail_protocol("remote archive entry is missing"),
                                }
                            },
                            SyncAction::Upload => {
                                let delete = clone_names(&self.listing);
                                self.publish(delete)
                            },
                        }
                    },
                }
            },
            (Phase::Download, Event::ArchiveBytes(bytes)) => {
                match unpack(&bytes) {
                    Ok(entries) => {
                        self.phase = Phase::LocalWrite;
                        Command::WriteLocal(entries)
                    },
                    Err(e) => {
                        self.phase = Phase::Failed;
                        Command::Finish(Outcome::Failed(e))
                    },
                }
            },
            (Phase::LocalWrite, Event::Written) => {
                self.phase = Phase::Done;
                Command::Finish(Outcome::Done)
            },
            (Phase::Upload, Event::Stored) => {
                self.phase = Phase::Done;
                Command::Finish(Outcome::Done)
            },
            (_, _) => self.fail_protocol("event does not fit the current phase"),
        }
    }
}

/// A command that opens or uses the remote session.
pub open spec fn is_remote_command(cmd: Command) -> bool {
    ||| cmd is OpenRemote
    ||| cmd matches Command::FetchDescriptor(_)
    ||| cmd matches Command::FetchArchive(_)
    ||| cmd matches Command::Publish { .. }
}

/// Law: a missing local directory ends the job silently, and that event
/// never leads to a remote command: no session is opened for it.
pub proof fn lemma_local_missing_is_silent(pre: Reconciler, post: Reconciler, cmd: Command)
    requires
        next_state(pre, Event::LocalMissing, post, cmd),
    ensures
        !is_remote_command(cmd),
        pre.phase is LocalScan ==> post.phase is Done && cmd matches Command::Finish(
            Outcome::Done,
        ),
{
}

/// Law: a step reports completion exactly when it reaches a terminal
/// phase, and a report of success only in `Done`; with `step` refusing
/// terminal phases, one job yields exactly one completion report.
pub proof fn lemma_single_completion(pre: Reconciler, ev: Event, post: Reconciler, cmd: Command)
    requires
        next_state(pre, ev, post, cmd),
        !(pre.phase is Done),
        !(pre.phase is Failed),
    ensures
        (cmd matches Command::Finish(_)) <==> (post.phase is Done || post.phase is Failed),
        (cmd matches Command::Finish(Outcome::Done)) ==> post.phase is Done,
{
}

} // verus!
