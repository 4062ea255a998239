//! The record of the last synchronization and the detection of changes
//! against it.
//!
//! The record holds the digest that each of the two files had when they were
//! last synchronized. It is kept outside the project, under a directory named
//! by the digest of the project's absolute path. Reading and writing the
//! record is the caller's part; what it holds and what follows from it is
//! decided here.

use vstd::prelude::*;
use vstd::string::*;
use crate::canonical::{
    compute_mise_toml_semantic_hash, compute_razdfile_semantic_hash, hash_string, mise_digest,
    razdfile_digest, sha256_hex,
};
use crate::razdfile::{opt_view, Manifest, RazdfileConfig};
use crate::text::same_text;

verus! {

/// A point in time: the seconds since the start of 1970 and the nanoseconds
/// within the second.
#[derive(Debug, Clone, Copy, PartialEq, Eq, Structural)]
pub struct Timestamp {
    pub secs: u64,
    pub nanos: u32,
}

/// What was recorded at the last synchronization.
#[derive(Debug, Clone)]
pub struct FileTrackingState {
    /// The semantic digest of the manifest, if the manifest existed.
    pub razdfile_hash: Option<String>,
    /// The semantic digest of the tool manifest, if it existed.
    pub mise_toml_hash: Option<String>,
    /// The format of the record.
    pub format_version: Option<String>,
    /// Kept for records of an older format.
    pub razdfile_modified: Option<Timestamp>,
    /// Kept for records of an older format.
    pub mise_toml_modified: Option<Timestamp>,
    pub last_sync_time: Timestamp,
}

pub struct TrackingRecord {
    pub razdfile_hash: Option<Seq<char>>,
    pub mise_toml_hash: Option<Seq<char>>,
    pub format_version: Option<Seq<char>>,
    pub razdfile_modified: Option<Timestamp>,
    pub mise_toml_modified: Option<Timestamp>,
    pub last_sync_time: Timestamp,
}

impl View for FileTrackingState {
    type V = TrackingRecord;

    open spec fn view(&self) -> TrackingRecord {
        TrackingRecord {
            razdfile_hash: opt_view(self.razdfile_hash),
            mise_toml_hash: opt_view(self.mise_toml_hash),
            format_version: opt_view(self.format_version),
            razdfile_modified: self.razdfile_modified,
            mise_toml_modified: self.mise_toml_modified,
            last_sync_time: self.last_sync_time,
        }
    }
}

/// What has changed since the last synchronization.
#[derive(Debug, Clone, Copy, PartialEq, Eq, Structural)]
pub enum ChangeDetection {
    NoChanges,
    RazdfileChanged,
    MiseTomlChanged,
    BothChanged,
}

/// The format of the records that this crate writes.
pub const TRACKING_FORMAT: &'static str = "semantic-v1";

/// The name of the manifest file.
pub const RAZDFILE_NAME: &'static str = "Razdfile.yml";

/// The name of the tool manifest file.
pub const MISE_TOML_NAME: &'static str = "mise.toml";

/// The digest of the text of a path, which names the directory of a
/// project's record.
pub fn hash_path(path: &str) -> (digest: String)
    ensures
        digest@ == sha256_hex(path@),
        digest@.len() == 64,
{
    hash_string(path)
}

/// The parts of the path of a project's record, from the data directory
/// down: the data directory, `file_tracking`, the digest of the project's
/// path, `tracking.json`.
pub open spec fn tracking_path_parts(data_dir: Seq<char>, project_path: Seq<char>) -> Seq<
    Seq<char>,
> {
    seq![data_dir, "file_tracking"@, sha256_hex(project_path), "tracking.json"@]
}

/// Where the record of the project at `project_path` is kept below
/// `data_dir`, as the parts of the path in order.
///
/// `project_path` is the project's absolute path with all links resolved, so
/// that two checkouts of one repository have two records.
pub fn get_tracking_file_path(data_dir: &str, project_path: &str) -> (parts: Vec<String>)
    ensures
        crate::razdfile::seq_view(parts@) == tracking_path_parts(data_dir@, project_path@),
{
    let mut parts: Vec<String> = Vec::new();
    parts.push(String::from_str(data_dir));
    parts.push(String::from_str("file_tracking"));
    parts.push(hash_path(project_path));
    parts.push(String::from_str("tracking.json"));
    assert(crate::razdfile::seq_view(parts@) =~= tracking_path_parts(data_dir@, project_path@));
    parts
}

/// The digest of a file by its name: the semantic digest of a manifest or
/// of a tool manifest, the digest of the text for any other file.
pub open spec fn semantic_digest(
    file_name: Seq<char>,
    content: Seq<char>,
    manifest: Option<Manifest>,
) -> Seq<char> {
    if file_name == RAZDFILE_NAME@ {
        razdfile_digest(manifest, content)
    } else if file_name == MISE_TOML_NAME@ {
        mise_digest(content)
    } else {
        sha256_hex(content)
    }
}

/// The digest of the file called `file_name` with the text `content`.
///
/// For the manifest, `parsed` is what the text was read as, or `None` where
/// it could not be read; for other files it is not looked at.
pub fn compute_semantic_hash(file_name: &str, content: &str, parsed: Option<&RazdfileConfig>) -> (digest:
    String)
    ensures
        digest@ == semantic_digest(
            file_name@,
            content@,
            match parsed {
                Some(c) => Some(c@),
                None => None,
            },
        ),
        digest@.len() == 64,
{
    if same_text(file_name, RAZDFILE_NAME) {
        compute_razdfile_semantic_hash(parsed, content)
    } else if same_text(file_name, MISE_TOML_NAME) {
        compute_mise_toml_semantic_hash(content)
    } else {
        hash_string(content)
    }
}

/// Whether two optional digests are the same: both absent, or both present
/// and equal.
pub fn same_digest(a: &Option<String>, b: &Option<String>) -> (r: bool)
    ensures
        r == (opt_view(*a) == opt_view(*b)),
{
    match (a, b) {
        (None, None) => true,
        (Some(x), Some(y)) => same_text(x.as_str(), y.as_str()),
        _ => false,
    }
}

/// The change that the current digests show against the recorded ones.
///
/// Without a record, any file that exists counts as a change of the
/// manifest, from which the tool manifest is then made. With a record, each
/// file has changed exactly where its digest differs from the recorded one,
/// a missing file having no digest.
pub open spec fn detect_changes(
    stored: Option<(Option<Seq<char>>, Option<Seq<char>>)>,
    current_razdfile: Option<Seq<char>>,
    current_mise: Option<Seq<char>>,
) -> ChangeDetection {
    match stored {
        None => if current_razdfile is Some || current_mise is Some {
            ChangeDetection::RazdfileChanged
        } else {
            ChangeDetection::NoChanges
        },
        Some((stored_razdfile, stored_mise)) => {
            let razdfile_changed = current_razdfile != stored_razdfile;
            let mise_changed = current_mise != stored_mise;
            if razdfile_changed && mise_changed {
                ChangeDetection::BothChanged
            } else if razdfile_changed {
                ChangeDetection::RazdfileChanged
            } else if mise_changed {
                ChangeDetection::MiseTomlChanged
            } else {
                ChangeDetection::NoChanges
            }
        },
    }
}

/// The digests of a record, if there is a record.
pub open spec fn stored_digests(state: Option<FileTrackingState>) -> Option<
    (Option<Seq<char>>, Option<Seq<char>>),
> {
    match state {
        Some(s) => Some((opt_view(s.razdfile_hash), opt_view(s.mise_toml_hash))),
        None => None,
    }
}

/// What has changed since the last synchronization, given the record of it
/// and the digest that each file has now, `None` for a file that does not
/// exist. Nothing is read or written.
pub fn check_file_changes(
    tracking_state: &Option<FileTrackingState>,
    current_razdfile_hash: &Option<String>,
    current_mise_hash: &Option<String>,
) -> (r: ChangeDetection)
    ensures
        r == detect_changes(
            stored_digests(*tracking_state),
            opt_view(*current_razdfile_hash),
            opt_view(*current_mise_hash),
        ),
{
    match tracking_state {
        None => {
            if current_razdfile_hash.is_some() || current_mise_hash.is_some() {
                ChangeDetection::RazdfileChanged
            } else {
                ChangeDetection::NoChanges
            }
        },
        Some(state) => {
            let razdfile_changed = !same_digest(current_razdfile_hash, &state.razdfile_hash);
            let mise_toml_changed = !same_digest(current_mise_hash, &state.mise_toml_hash);
            if razdfile_changed && mise_toml_changed {
                ChangeDetection::BothChanged
            } else if razdfile_changed {
                ChangeDetection::RazdfileChanged
            } else if mise_toml_changed {
                ChangeDetection::MiseTomlChanged
            } else {
                ChangeDetection::NoChanges
            }
        },
    }
}

/// The four cases of change detection against a record: nothing differs,
/// only the manifest's digest, only the tool manifest's, or both.
pub proof fn law_change_table(
    r0: Option<Seq<char>>,
    m0: Option<Seq<char>>,
    r1: Option<Seq<char>>,
    m1: Option<Seq<char>>,
)
    ensures
        (r1 == r0 && m1 == m0) <==> detect_changes(Some((r0, m0)), r1, m1)
            == ChangeDetection::NoChanges,
        (r1 != r0 && m1 == m0) <==> detect_changes(Some((r0, m0)), r1, m1)
            == ChangeDetection::RazdfileChanged,
        (r1 == r0 && m1 != m0) <==> detect_changes(Some((r0, m0)), r1, m1)
            == ChangeDetection::MiseTomlChanged,
        (r1 != r0 && m1 != m0) <==> detect_changes(Some((r0, m0)), r1, m1)
            == ChangeDetection::BothChanged,
{
}

/// The record of a synchronization at the time `now` after which the files
/// have the given digests.
pub fn update_tracking_state(
    razdfile_hash: Option<String>,
    mise_toml_hash: Option<String>,
    now: Timestamp,
) -> (state: FileTrackingState)
    ensures
        state@ == (TrackingRecord {
            razdfile_hash: opt_view(razdfile_hash),
            mise_toml_hash: opt_view(mise_toml_hash),
            format_version: Some(TRACKING_FORMAT@),
            razdfile_modified: None,
            mise_toml_modified: None,
            last_sync_time: now,
        }),
{
    FileTrackingState {
        razdfile_hash,
        mise_toml_hash,
        format_version: Some(String::from_str(TRACKING_FORMAT)),
        razdfile_modified: None,
        mise_toml_modified: None,
        last_sync_time: now,
    }
}

/// After a record was made of the digests that the files have, nothing has
/// changed.
pub proof fn law_no_change_after_update(r: Option<Seq<char>>, m: Option<Seq<char>>)
    ensures
        detect_changes(Some((r, m)), r, m) == ChangeDetection::NoChanges,
{
}

/// One step of writing a file so that it is never seen half written.
#[derive(Debug, Clone, PartialEq, Eq)]
pub enum WriteStep {
    /// Copy the file `from` to `to`, if there is such a file.
    Backup { from: String, to: String },
    /// Write the whole new text to the temporary file.
    WriteTemp { temp: String, content: String },
    /// Put the temporary file in the place of the target.
    Rename { temp: String, target: String },
    /// Remove the temporary file, after a rename that failed.
    RemoveTemp { temp: String },
}

pub enum WriteStepView {
    Backup { from: Seq<char>, to: Seq<char> },
    WriteTemp { temp: Seq<char>, content: Seq<char> },
    Rename { temp: Seq<char>, target: Seq<char> },
    RemoveTemp { temp: Seq<char> },
}

impl View for WriteStep {
    type V = WriteStepView;

    open spec fn view(&self) -> WriteStepView {
        match *self {
            WriteStep::Backup { from, to } => WriteStepView::Backup { from: from@, to: to@ },
            WriteStep::WriteTemp { temp, content } => WriteStepView::WriteTemp {
                temp: temp@,
                content: content@,
            },
            WriteStep::Rename { temp, target } => WriteStepView::Rename {
                temp: temp@,
                target: target@,
            },
            WriteStep::RemoveTemp { temp } => WriteStepView::RemoveTemp { temp: temp@ },
        }
    }
}

/// The files of a directory: the text of each file by its path.
pub type Files = Map<Seq<char>, Seq<char>>;

/// The files after a step was carried out.
pub open spec fn after_step(files: Files, step: WriteStepView) -> Files {
    match step {
        WriteStepView::Backup { from, to } => if files.dom().contains(from) {
            files.insert(to, files[from])
        } else {
            files
        },
        WriteStepView::WriteTemp { temp, content } => files.insert(temp, content),
        WriteStepView::Rename { temp, target } => if files.dom().contains(temp) {
            files.remove(temp).insert(target, files[temp])
        } else {
            files
        },
        WriteStepView::RemoveTemp { temp } => files.remove(temp),
    }
}

/// The files after the steps `steps` were carried out one after the other.
pub open spec fn after_steps(files: Files, steps: Seq<WriteStepView>) -> Files
    decreases steps.len(),
{
    if steps.len() == 0 {
        files
    } else {
        after_step(after_steps(files, steps.drop_last()), steps.last())
    }
}

/// The name of the copy that is kept of the file `path`.
pub open spec fn backup_path_of(path: Seq<char>) -> Seq<char> {
    path + ".backup"@
}

/// The steps that write `content` to `target` by way of the temporary file
/// `temp`, after a copy of the target was kept where `backup` is set: the
/// text goes to the temporary file, which then takes the target's place.
/// There is no such way where the temporary file is the target itself.
pub open spec fn write_plan_of(
    target: Seq<char>,
    temp: Seq<char>,
    content: Seq<char>,
    backup: bool,
) -> Option<Seq<WriteStepView>> {
    if temp == target {
        None
    } else {
        let copy = if backup {
            seq![WriteStepView::Backup { from: target, to: backup_path_of(target) }]
        } else {
            Seq::empty()
        };
        Some(
            copy + seq![
                WriteStepView::WriteTemp { temp, content },
                WriteStepView::Rename { temp, target },
            ],
        )
    }
}

/// The views of the steps `steps`.
pub open spec fn steps_view(steps: Seq<WriteStep>) -> Seq<WriteStepView> {
    Seq::new(steps.len(), |i: int| steps[i]@)
}

/// The steps that write `content` to `target` by way of `temp`, with a
/// copy of the target kept first where `backup` is set; `None` where `temp`
/// is the target, which would then be written into directly.
pub fn write_plan(target: &str, temp: &str, content: &str, backup: bool) -> (plan: Option<
    Vec<WriteStep>,
>)
    ensures
        match plan {
            Some(steps) => write_plan_of(target@, temp@, content@, backup) == Some(
                steps_view(steps@),
            ),
            None => write_plan_of(target@, temp@, content@, backup) is None,
        },
{
    if same_text(temp, target) {
        return None;
    }
    let mut steps: Vec<WriteStep> = Vec::new();
    if backup {
        let mut to = String::from_str(target);
        to.append(".backup");
        steps.push(WriteStep::Backup { from: String::from_str(target), to });
    }
    steps.push(
        WriteStep::WriteTemp { temp: String::from_str(temp), content: String::from_str(content) },
    );
    steps.push(
        WriteStep::Rename { temp: String::from_str(temp), target: String::from_str(target) },
    );
    assert(steps_view(steps@) =~= write_plan_of(target@, temp@, content@, backup)->Some_0);
    Some(steps)
}

/// The steps that write `content` to `target` by way of `temp`, without a
/// backup; `None` where `temp` is the target.
pub fn atomic_write_steps(target: &str, temp: &str, content: &str) -> (plan: Option<
    Vec<WriteStep>,
>)
    ensures
        match plan {
            Some(steps) => write_plan_of(target@, temp@, content@, false) == Some(
                steps_view(steps@),
            ),
            None => write_plan_of(target@, temp@, content@, false) is None,
        },
{
    write_plan(target, temp, content, false)
}

/// What is done when the rename has failed: the temporary file is removed.
pub fn rename_failed_step(temp: &str) -> (step: WriteStep)
    ensures
        step@ == (WriteStepView::RemoveTemp { temp: temp@ }),
{
    WriteStep::RemoveTemp { temp: String::from_str(temp) }
}

/// Atomicity: if the write stops after the temporary file was written, or
/// the rename fails and the temporary file is removed, the target is as it
/// was before: there or not there, and with the same text.
pub proof fn law_target_untouched_before_rename(
    files: Files,
    target: Seq<char>,
    temp: Seq<char>,
    content: Seq<char>,
)
    requires
        temp != target,
    ensures
        ({
            let written = after_step(files, WriteStepView::WriteTemp { temp, content });
            let cleaned = after_step(written, WriteStepView::RemoveTemp { temp });
            &&& written.dom().contains(target) == files.dom().contains(target)
            &&& files.dom().contains(target) ==> written[target] == files[target]
            &&& cleaned.dom().contains(target) == files.dom().contains(target)
            &&& files.dom().contains(target) ==> cleaned[target] == files[target]
        }),
{
}

/// After both steps the target holds the new text and the temporary file is
/// gone.
pub proof fn law_target_written_after_rename(
    files: Files,
    target: Seq<char>,
    temp: Seq<char>,
    content: Seq<char>,
)
    requires
        temp != target,
    ensures
        ({
            let written = after_step(files, WriteStepView::WriteTemp { temp, content });
            let renamed = after_step(written, WriteStepView::Rename { temp, target });
            &&& renamed.dom().contains(target)
            &&& renamed[target] == content
            &&& !renamed.dom().contains(temp)
        }),
{
}

/// The copy of a file has another name than the file.
pub proof fn lemma_backup_is_another_file(path: Seq<char>)
    ensures
        backup_path_of(path) != path,
{
    reveal_strlit(".backup");
    assert(backup_path_of(path).len() == path.len() + 7);
}

/// Atomicity of every write that follows a plan: wherever the write stops
/// before its last step, the rename, the target is as it was before, there
/// or not there, and with the same text; this holds with and without a
/// backup. After the last step the target holds the new text.
pub proof fn law_plan_is_atomic(
    files: Files,
    target: Seq<char>,
    temp: Seq<char>,
    content: Seq<char>,
    backup: bool,
    done: int,
)
    requires
        write_plan_of(target, temp, content, backup) is Some,
        0 <= done <= write_plan_of(target, temp, content, backup)->Some_0.len(),
    ensures
        ({
            let steps = write_plan_of(target, temp, content, backup)->Some_0;
            let now = after_steps(files, steps.take(done));
            if done < steps.len() {
                &&& now.dom().contains(target) == files.dom().contains(target)
                &&& files.dom().contains(target) ==> now[target] == files[target]
            } else {
                now.dom().contains(target) && now[target] == content
            }
        }),
{
    lemma_backup_is_another_file(target);
    let steps = write_plan_of(target, temp, content, backup)->Some_0;
    let copy = WriteStepView::Backup { from: target, to: backup_path_of(target) };
    let write = WriteStepView::WriteTemp { temp, content };
    let rename = WriteStepView::Rename { temp, target };
    assert(steps.take(0) =~= Seq::<WriteStepView>::empty());
    let none = Seq::<WriteStepView>::empty();
    assert(after_steps(files, none) == files);
    if backup {
        assert(steps =~= seq![copy, write, rename]);
        assert(steps.take(1) =~= seq![copy]);
        assert(steps.take(1).drop_last() =~= Seq::<WriteStepView>::empty());
        assert(steps.take(2) =~= seq![copy, write]);
        assert(steps.take(2).drop_last() =~= seq![copy]);
        assert(steps.take(3) =~= steps);
        assert(steps.drop_last() =~= seq![copy, write]);
        assert(seq![copy].drop_last() =~= none);
        assert(seq![copy].last() == copy);
        assert(seq![copy, write].last() == write);
        assert(seq![copy, write, rename].last() == rename);
        let f1 = after_steps(files, seq![copy]);
        assert(f1 == after_step(files, copy));
        let f2 = after_steps(files, seq![copy, write]);
        assert(f2 == after_step(f1, write));
        let f3 = after_steps(files, steps);
        assert(f3 == after_step(f2, rename));
    } else {
        assert(steps =~= seq![write, rename]);
        assert(steps.take(1) =~= seq![write]);
        assert(steps.take(1).drop_last() =~= Seq::<WriteStepView>::empty());
        assert(steps.take(2) =~= steps);
        assert(steps.drop_last() =~= seq![write]);
        assert(seq![write].drop_last() =~= none);
        assert(seq![write].last() == write);
        assert(seq![write, rename].last() == rename);
        let f1 = after_steps(files, seq![write]);
        assert(f1 == after_step(files, write));
        let f2 = after_steps(files, steps);
        assert(f2 == after_step(f1, rename));
    }
}

} // verus!
