//! The synchronization protocol between the manifest and the tool manifest.
//!
//! The caller reads the files and the record of the last synchronization,
//! hands them over as a [`ProjectState`], and carries out what comes back: it
//! asks the user a question and resumes with the reply, or it writes one of
//! the two files (after a backup, where one is asked for) and records the new
//! digests. Every decision is taken here.

use vstd::prelude::*;
use vstd::string::*;
use crate::canonical::{
    compute_mise_toml_semantic_hash, compute_razdfile_semantic_hash, join_texts, joined,
    mise_digest, razdfile_digest,
};
use crate::error::{join2, ErrorView, RazdError};
use crate::file_tracker::{
    after_steps, check_file_changes, detect_changes, law_plan_is_atomic, steps_view,
    stored_digests, update_tracking_state, write_plan, write_plan_of, ChangeDetection,
    FileTrackingState, Files, Timestamp, WriteStep, WriteStepView, TRACKING_FORMAT,
};
use crate::mise_generator::{generate_mise_toml, mise_toml_text};
use crate::mise_parser::{parse_mise_toml, parsed_section};
use crate::ordered_map::OrderedMap;
use crate::razdfile::{
    manifest_verdict, opt_view, Manifest, MiseConfig, RazdfileConfig, Task, ToolSection,
};
use crate::razdfile::seq_view;
use crate::text::{
    has_prefix, has_suffix, is_prefix, is_suffix, lines_of, lowercase, same_text, split_lines,
    text_of, to_lowercase, trim, trim_of,
};

verus! {

/// How a synchronization is to behave.
#[derive(Debug, Clone, Copy, PartialEq, Eq, Structural)]
pub struct SyncConfig {
    /// Do nothing at all.
    pub no_sync: bool,
    /// Answer every question with yes, and prefer the manifest in a conflict.
    pub auto_approve: bool,
    /// Keep a copy of a file before it is overwritten.
    pub create_backups: bool,
}

impl Default for SyncConfig {
    fn default() -> (r: Self)
        ensures
            r == (SyncConfig { no_sync: false, auto_approve: false, create_backups: true }),
    {
        SyncConfig { no_sync: false, auto_approve: false, create_backups: true }
    }
}

/// How a synchronization ended.
#[derive(Debug, Clone, Copy, PartialEq, Eq, Structural)]
pub enum SyncResult {
    /// Nothing had changed.
    NoChangesNeeded,
    /// The tool manifest was written from the manifest.
    RazdfileToMise,
    /// The manifest was written from the tool manifest.
    MiseToRazdfile,
    /// Synchronization is switched off, or the user declined.
    Skipped,
    /// Both files had changed and the user chose neither.
    Conflict,
}

/// What reading the text of a manifest file gave.
#[derive(Debug, Clone)]
pub enum Reading {
    /// The manifest that the text stands for.
    Manifest(RazdfileConfig),
    /// The reader's message, where the text stands for no manifest.
    Unreadable(String),
}

/// The manifest file as it was found: its text, and what reading it gave.
#[derive(Debug, Clone)]
pub struct RazdfileFile {
    pub content: String,
    pub parsed: Reading,
}

pub struct RazdfileFileView {
    pub content: Seq<char>,
    pub parsed: Result<Manifest, Seq<char>>,
}

impl View for RazdfileFile {
    type V = RazdfileFileView;

    open spec fn view(&self) -> RazdfileFileView {
        RazdfileFileView {
            content: self.content@,
            parsed: match self.parsed {
                Reading::Manifest(c) => Ok(c@),
                Reading::Unreadable(m) => Err(m@),
            },
        }
    }
}

/// What the caller found in the project: the manifest file and the text of
/// the tool manifest, each if it exists, and the record of the last
/// synchronization, if there is one.
#[derive(Debug, Clone)]
pub struct ProjectState {
    pub razdfile: Option<RazdfileFile>,
    pub mise_toml: Option<String>,
    pub tracking: Option<FileTrackingState>,
}

pub struct ProjectView {
    pub razdfile: Option<RazdfileFileView>,
    pub mise_toml: Option<Seq<char>>,
    /// The recorded digests of the manifest and of the tool manifest.
    pub stored: Option<(Option<Seq<char>>, Option<Seq<char>>)>,
}

impl View for ProjectState {
    type V = ProjectView;

    open spec fn view(&self) -> ProjectView {
        ProjectView {
            razdfile: opt_view(self.razdfile),
            mise_toml: opt_view(self.mise_toml),
            stored: stored_digests(self.tracking),
        }
    }
}

/// Where the protocol waits for a reply, with what it needs to go on.
#[derive(Debug, Clone)]
pub enum SyncState {
    /// Both files have changed: which one is to win?
    ResolveConflict(ProjectState),
    /// The manifest names no tools but a tool manifest exists: write the
    /// manifest from it?
    ConfirmReverse(ProjectState),
    /// There is no manifest: create this one?
    ConfirmCreate(RazdfileConfig),
    /// The tool manifest is about to be overwritten with this text: keep a
    /// copy?
    ConfirmBackupMise(String),
    /// The manifest is about to be overwritten with this one: keep a copy?
    ConfirmBackupRazdfile(RazdfileConfig),
}

pub enum SyncStateView {
    ResolveConflict(ProjectView),
    ConfirmReverse(ProjectView),
    ConfirmCreate(Manifest),
    ConfirmBackupMise(Seq<char>),
    ConfirmBackupRazdfile(Manifest),
}

impl View for SyncState {
    type V = SyncStateView;

    open spec fn view(&self) -> SyncStateView {
        match *self {
            SyncState::ResolveConflict(p) => SyncStateView::ResolveConflict(p@),
            SyncState::ConfirmReverse(p) => SyncStateView::ConfirmReverse(p@),
            SyncState::ConfirmCreate(c) => SyncStateView::ConfirmCreate(c@),
            SyncState::ConfirmBackupMise(t) => SyncStateView::ConfirmBackupMise(t@),
            SyncState::ConfirmBackupRazdfile(c) => SyncStateView::ConfirmBackupRazdfile(c@),
        }
    }
}

/// What the caller is to do next.
#[derive(Debug, Clone)]
pub enum SyncStep {
    /// Ask the question of this state and resume with the reply.
    Ask(SyncState),
    /// Write this text to the tool manifest, by the steps that
    /// [`MiseSyncManager::write_steps`] gives for it, and record the new
    /// digests. The result is [`SyncResult::RazdfileToMise`].
    WriteMiseToml { content: String, backup: bool },
    /// Write this manifest, by the steps that
    /// [`MiseSyncManager::write_steps`] gives for it, and record the new
    /// digests. The result is [`SyncResult::MiseToRazdfile`].
    WriteRazdfile { config: RazdfileConfig, backup: bool },
    /// Nothing is left to do.
    Done(SyncResult),
    /// The synchronization has failed and nothing was written.
    Failed(RazdError),
}

pub enum SyncStepView {
    Ask(SyncStateView),
    WriteMiseToml { content: Seq<char>, backup: bool },
    WriteRazdfile { manifest: Manifest, backup: bool },
    Done(SyncResult),
    Failed(ErrorView),
}

impl View for SyncStep {
    type V = SyncStepView;

    open spec fn view(&self) -> SyncStepView {
        match *self {
            SyncStep::Ask(s) => SyncStepView::Ask(s@),
            SyncStep::WriteMiseToml { content, backup } => SyncStepView::WriteMiseToml {
                content: content@,
                backup,
            },
            SyncStep::WriteRazdfile { config, backup } => SyncStepView::WriteRazdfile {
                manifest: config@,
                backup,
            },
            SyncStep::Done(r) => SyncStepView::Done(r),
            SyncStep::Failed(e) => SyncStepView::Failed(e@),
        }
    }
}

/// The manifest that a manifest file gives: an error where its text could
/// not be read or its tool section names something that is refused.
pub open spec fn load_outcome(file: RazdfileFileView) -> Result<Manifest, ErrorView> {
    match file.parsed {
        Ok(manifest) => match manifest_verdict(manifest) {
            Ok(_) => Ok(manifest),
            Err(e) => Err(e),
        },
        Err(message) => Err(ErrorView::Config("Failed to parse Razdfile.yml: "@ + message)),
    }
}

/// The semantic digest of a manifest file: of the manifest where the file
/// gives one, else of its text.
pub open spec fn razdfile_file_digest(file: RazdfileFileView) -> Seq<char> {
    razdfile_digest(
        match load_outcome(file) {
            Ok(m) => Some(m),
            Err(_) => None,
        },
        file.content,
    )
}

/// The digests that the two files of a project have now: of the manifest
/// and of the tool manifest, each if the file exists.
pub open spec fn current_digests(project: ProjectView) -> (Option<Seq<char>>, Option<Seq<char>>) {
    (
        match project.razdfile {
            Some(file) => Some(razdfile_file_digest(file)),
            None => None,
        },
        match project.mise_toml {
            Some(text) => Some(mise_digest(text)),
            None => None,
        },
    )
}

/// What has changed in a project since its last synchronization.
pub open spec fn changes_of(project: ProjectView) -> ChangeDetection {
    detect_changes(project.stored, current_digests(project).0, current_digests(project).1)
}

/// Whether a reply means yes: after the white space around it is dropped
/// and it is put in lower case, it is empty, `y` or `yes`.
pub open spec fn approves_of(reply: Seq<char>) -> bool {
    let answer = lowercase(trim_of(reply));
    answer.len() == 0 || answer == "y"@ || answer == "yes"@
}

/// The last step of writing the tool manifest: with a backup where backups
/// are wanted and there is a file to keep, after asking unless every
/// question is answered with yes.
pub open spec fn write_mise_step(policy: SyncConfig, mise_exists: bool, content: Seq<char>) -> SyncStepView {
    if mise_exists && policy.create_backups {
        if policy.auto_approve {
            SyncStepView::WriteMiseToml { content, backup: true }
        } else {
            SyncStepView::Ask(SyncStateView::ConfirmBackupMise(content))
        }
    } else {
        SyncStepView::WriteMiseToml { content, backup: false }
    }
}

/// The last step of writing a manifest that exists.
pub open spec fn write_razdfile_step(policy: SyncConfig, manifest: Manifest) -> SyncStepView {
    if policy.create_backups {
        if policy.auto_approve {
            SyncStepView::WriteRazdfile { manifest, backup: true }
        } else {
            SyncStepView::Ask(SyncStateView::ConfirmBackupRazdfile(manifest))
        }
    } else {
        SyncStepView::WriteRazdfile { manifest, backup: false }
    }
}

/// The manifest that is made where there is none: version 3, no tasks, and
/// the tool section `section`.
pub open spec fn minimal_manifest(section: ToolSection) -> Manifest {
    Manifest {
        version: "3"@,
        mise: Some(section),
        env: None,
        vars: None,
        tasks: Seq::empty(),
    }
}

/// `manifest` with the tool section `section` in the place of its own.
pub open spec fn with_section(manifest: Manifest, section: ToolSection) -> Manifest {
    Manifest { mise: Some(section), ..manifest }
}

/// Propagating the tool manifest into the manifest.
///
/// The tool manifest must exist and be readable. A manifest that exists
/// must be readable too; it keeps everything but its tool section. Where
/// there is no manifest a minimal one is made, after asking.
pub open spec fn to_razdfile_step(policy: SyncConfig, project: ProjectView) -> SyncStepView {
    match project.mise_toml {
        None => SyncStepView::Failed(ErrorView::Config("mise.toml not found"@)),
        Some(text) => match parsed_section(text) {
            Err(e) => SyncStepView::Failed(e),
            Ok(section) => match project.razdfile {
                Some(file) => match load_outcome(file) {
                    Err(e) => SyncStepView::Failed(e),
                    Ok(manifest) => write_razdfile_step(policy, with_section(manifest, section)),
                },
                None => if policy.auto_approve {
                    SyncStepView::WriteRazdfile {
                        manifest: minimal_manifest(section),
                        backup: false,
                    }
                } else {
                    SyncStepView::Ask(SyncStateView::ConfirmCreate(minimal_manifest(section)))
                },
            },
        },
    }
}

/// Propagating the manifest's tool section into the tool manifest.
///
/// A manifest that exists must be readable. Where it has no tool section
/// but a tool manifest exists, the other direction is taken instead, after
/// asking: an absent section does not erase the tools that were chosen.
/// Where there is no manifest at all but a tool manifest, the other
/// direction is taken as well, and the manifest is made from it.
pub open spec fn to_mise_step(policy: SyncConfig, project: ProjectView) -> SyncStepView {
    match project.razdfile {
        None => if project.mise_toml is Some {
            to_razdfile_step(policy, project)
        } else {
            SyncStepView::Failed(ErrorView::Config("Razdfile.yml not found"@))
        },
        Some(file) => match load_outcome(file) {
            Err(e) => SyncStepView::Failed(e),
            Ok(manifest) => match manifest.mise {
                Some(section) => write_mise_step(
                    policy,
                    project.mise_toml is Some,
                    mise_toml_text(section),
                ),
                None => if project.mise_toml is Some {
                    if policy.auto_approve {
                        to_razdfile_step(policy, project)
                    } else {
                        SyncStepView::Ask(SyncStateView::ConfirmReverse(project))
                    }
                } else {
                    SyncStepView::Done(SyncResult::NoChangesNeeded)
                },
            },
        },
    }
}

/// The first step of a synchronization.
pub open spec fn first_step(policy: SyncConfig, project: ProjectView) -> SyncStepView {
    if policy.no_sync {
        SyncStepView::Done(SyncResult::Skipped)
    } else if project.razdfile is None && project.mise_toml is None {
        SyncStepView::Done(SyncResult::NoChangesNeeded)
    } else {
        match changes_of(project) {
            ChangeDetection::NoChanges => SyncStepView::Done(SyncResult::NoChangesNeeded),
            ChangeDetection::RazdfileChanged => to_mise_step(policy, project),
            ChangeDetection::MiseTomlChanged => to_razdfile_step(policy, project),
            ChangeDetection::BothChanged => if policy.auto_approve {
                to_mise_step(policy, project)
            } else {
                SyncStepView::Ask(SyncStateView::ResolveConflict(project))
            },
        }
    }
}

/// The step that follows a reply.
///
/// In a conflict, `1` takes the manifest, `2` the tool manifest, anything
/// else leaves both files as they are. Every other question is answered by
/// yes or no, and what is not a yes is a no.
pub open spec fn next_step(policy: SyncConfig, state: SyncStateView, reply: Seq<char>) -> SyncStepView {
    match state {
        SyncStateView::ResolveConflict(project) => if trim_of(reply) == "1"@ {
            to_mise_step(policy, project)
        } else if trim_of(reply) == "2"@ {
            to_razdfile_step(policy, project)
        } else {
            SyncStepView::Done(SyncResult::Conflict)
        },
        SyncStateView::ConfirmReverse(project) => if approves_of(reply) {
            to_razdfile_step(policy, project)
        } else {
            SyncStepView::Done(SyncResult::Skipped)
        },
        SyncStateView::ConfirmCreate(manifest) => if approves_of(reply) {
            SyncStepView::WriteRazdfile { manifest, backup: false }
        } else {
            SyncStepView::Done(SyncResult::Skipped)
        },
        SyncStateView::ConfirmBackupMise(content) => SyncStepView::WriteMiseToml {
            content,
            backup: approves_of(reply),
        },
        SyncStateView::ConfirmBackupRazdfile(manifest) => SyncStepView::WriteRazdfile {
            manifest,
            backup: approves_of(reply),
        },
    }
}

/// How a synchronization ends once this step is carried out; nothing yet for
/// a question or a failure.
pub open spec fn result_of(step: SyncStepView) -> Option<SyncResult> {
    match step {
        SyncStepView::WriteMiseToml { .. } => Some(SyncResult::RazdfileToMise),
        SyncStepView::WriteRazdfile { .. } => Some(SyncResult::MiseToRazdfile),
        SyncStepView::Done(r) => Some(r),
        _ => None,
    }
}

impl SyncStep {
    /// How the synchronization ends once this step is carried out.
    pub fn result(&self) -> (r: Option<SyncResult>)
        ensures
            r == result_of(self@),
    {
        match self {
            SyncStep::WriteMiseToml { .. } => Some(SyncResult::RazdfileToMise),
            SyncStep::WriteRazdfile { .. } => Some(SyncResult::MiseToRazdfile),
            SyncStep::Done(r) => Some(*r),
            _ => None,
        }
    }
}

/// With synchronization switched off nothing is asked, written or read:
/// the first step is the last and says `Skipped`.
pub proof fn law_no_sync_skips(policy: SyncConfig, project: ProjectView)
    requires
        policy.no_sync,
    ensures
        first_step(policy, project) == SyncStepView::Done(SyncResult::Skipped),
{
}

/// In a conflict with every question answered by yes, the manifest wins:
/// the tool manifest is written from the manifest's tool section, whatever
/// the tool manifest held before.
pub proof fn law_conflict_prefers_manifest(
    policy: SyncConfig,
    project: ProjectView,
    manifest: Manifest,
    section: ToolSection,
)
    requires
        !policy.no_sync,
        policy.auto_approve,
        changes_of(project) == ChangeDetection::BothChanged,
        project.razdfile is Some,
        load_outcome(project.razdfile->Some_0) == Ok::<Manifest, ErrorView>(manifest),
        manifest.mise == Some(section),
    ensures
        first_step(policy, project) == (SyncStepView::WriteMiseToml {
            content: mise_toml_text(section),
            backup: project.mise_toml is Some && policy.create_backups,
        }),
        result_of(first_step(policy, project)) == Some(SyncResult::RazdfileToMise),
{
}

/// A first synchronization of a project that has a tool manifest and no
/// manifest makes the manifest from the tool manifest: with every question
/// answered by yes, a minimal manifest with the tool section of the tool
/// manifest is written.
pub proof fn law_bootstrap_from_tool_manifest(
    policy: SyncConfig,
    project: ProjectView,
    section: ToolSection,
)
    requires
        !policy.no_sync,
        policy.auto_approve,
        project.razdfile is None,
        project.stored is None,
        project.mise_toml is Some,
        parsed_section(project.mise_toml->Some_0) == Ok::<ToolSection, ErrorView>(section),
    ensures
        first_step(policy, project) == (SyncStepView::WriteRazdfile {
            manifest: minimal_manifest(section),
            backup: false,
        }),
        result_of(first_step(policy, project)) == Some(SyncResult::MiseToRazdfile),
{
}

/// A synchronization that follows a recorded one finds nothing to do:
/// where the record holds the digests that the files have, the first step
/// is the last and says `NoChangesNeeded`.
pub proof fn law_nothing_to_do_after_record(policy: SyncConfig, project: ProjectView)
    requires
        !policy.no_sync,
        project.stored == Some(current_digests(project)),
    ensures
        first_step(policy, project) == SyncStepView::Done(SyncResult::NoChangesNeeded),
{
}

/// How many questions can still follow the question of a state.
pub open spec fn questions_left(state: SyncStateView) -> nat {
    match state {
        SyncStateView::ResolveConflict(_) => 2,
        SyncStateView::ConfirmReverse(_) => 1,
        SyncStateView::ConfirmCreate(_) => 0,
        SyncStateView::ConfirmBackupMise(_) => 0,
        SyncStateView::ConfirmBackupRazdfile(_) => 0,
    }
}

/// The text that a step puts into its file: the text of the tool manifest
/// that it holds or, where it holds a manifest, the text `rendered` of that
/// manifest with blank lines between its sections and tasks. A step that
/// writes nothing has none.
pub open spec fn written_text(step: SyncStepView, rendered: Seq<char>) -> Option<Seq<char>> {
    match step {
        SyncStepView::WriteMiseToml { content, .. } => Some(content),
        SyncStepView::WriteRazdfile { .. } => Some(format_yaml_text(rendered)),
        _ => None,
    }
}

/// A step that writes keeps a copy of the file first where it says so.
pub open spec fn keeps_copy(step: SyncStepView) -> bool {
    match step {
        SyncStepView::WriteMiseToml { backup, .. } => backup,
        SyncStepView::WriteRazdfile { backup, .. } => backup,
        _ => false,
    }
}

/// The steps by which a step of the synchronization writes its text to the
/// file `target`, by way of the temporary file `temp`: those of
/// [`write_plan_of`]. There are none for a step that writes nothing, and
/// none where the temporary file is the target.
pub open spec fn step_plan_of(
    step: SyncStepView,
    rendered: Seq<char>,
    target: Seq<char>,
    temp: Seq<char>,
) -> Option<Seq<WriteStepView>> {
    match written_text(step, rendered) {
        Some(text) => write_plan_of(target, temp, text, keeps_copy(step)),
        None => None,
    }
}

/// Every write of the synchronization is atomic: wherever the steps of a
/// write stop before the last one, the rename, the target is as it was
/// before, there or not there, and with the same text. After the last step
/// it holds the text that the step writes.
pub proof fn law_sync_write_is_atomic(
    files: Files,
    step: SyncStepView,
    rendered: Seq<char>,
    target: Seq<char>,
    temp: Seq<char>,
    done: int,
)
    requires
        step_plan_of(step, rendered, target, temp) is Some,
        0 <= done <= step_plan_of(step, rendered, target, temp)->Some_0.len(),
    ensures
        written_text(step, rendered) is Some,
        ({
            let steps = step_plan_of(step, rendered, target, temp)->Some_0;
            let now = after_steps(files, steps.take(done));
            if done < steps.len() {
                &&& now.dom().contains(target) == files.dom().contains(target)
                &&& files.dom().contains(target) ==> now[target] == files[target]
            } else {
                now.dom().contains(target) && now[target] == written_text(step, rendered)->Some_0
            }
        }),
{
    let text = written_text(step, rendered)->Some_0;
    law_plan_is_atomic(files, target, temp, text, keeps_copy(step), done);
}

/// The questions run out: a question that follows a reply leaves fewer
/// questions to follow than the one before it, so that no synchronization
/// asks more than three.
pub proof fn law_questions_run_out(policy: SyncConfig, state: SyncStateView, reply: Seq<char>)
    ensures
        match next_step(policy, state, reply) {
            SyncStepView::Ask(next) => questions_left(next) < questions_left(state),
            _ => true,
        },
{
}

/// Whether `reply` means yes.
pub fn approves(reply: &str) -> (r: bool)
    ensures
        r == approves_of(reply@),
{
    let answer = to_lowercase(trim(reply));
    answer.as_str().is_empty() || same_text(answer.as_str(), "y") || same_text(
        answer.as_str(),
        "yes",
    )
}

/// The manifest that a manifest file gives.
pub fn load_razdfile(file: RazdfileFile) -> (r: Result<RazdfileConfig, RazdError>)
    ensures
        crate::error::result_view(r) == load_outcome(file@),
{
    match file.parsed {
        Reading::Manifest(config) => match config.validate_mise_config() {
            Ok(_) => Ok(config),
            Err(e) => Err(e),
        },
        Reading::Unreadable(message) => {
            let msg = join2("Failed to parse Razdfile.yml: ", message.as_str());
            Err(RazdError::config(msg.as_str()))
        },
    }
}

/// The semantic digest of a manifest file.
pub fn razdfile_file_hash(file: &RazdfileFile) -> (digest: String)
    ensures
        digest@ == razdfile_file_digest(file@),
{
    match &file.parsed {
        Reading::Manifest(config) => match config.validate_mise_config() {
            Ok(_) => compute_razdfile_semantic_hash(Some(config), file.content.as_str()),
            Err(_) => compute_razdfile_semantic_hash(None, file.content.as_str()),
        },
        Reading::Unreadable(_) => compute_razdfile_semantic_hash(None, file.content.as_str()),
    }
}

/// What has changed in `project` since its last synchronization.
pub fn project_changes(project: &ProjectState) -> (r: ChangeDetection)
    ensures
        r == changes_of(project@),
{
    let current_razdfile = match &project.razdfile {
        Some(file) => Some(razdfile_file_hash(file)),
        None => None,
    };
    let current_mise = match &project.mise_toml {
        Some(text) => Some(compute_mise_toml_semantic_hash(text.as_str())),
        None => None,
    };
    check_file_changes(&project.tracking, &current_razdfile, &current_mise)
}

/// The record of a synchronization at the time `now` after which the files
/// of the project are as `project` holds them: the digests that they have.
pub fn record_sync(project: &ProjectState, now: Timestamp) -> (state: FileTrackingState)
    ensures
        stored_digests(Some(state)) == Some(current_digests(project@)),
        state@.format_version == Some(TRACKING_FORMAT@),
        state@.last_sync_time == now,
{
    let current_razdfile = match &project.razdfile {
        Some(file) => Some(razdfile_file_hash(file)),
        None => None,
    };
    let current_mise = match &project.mise_toml {
        Some(text) => Some(compute_mise_toml_semantic_hash(text.as_str())),
        None => None,
    };
    update_tracking_state(current_razdfile, current_mise, now)
}

/// Which of the two files of a project exist and cannot be read: the
/// manifest, and the tool manifest. Such a file is hashed as the text that
/// it is, and the user is to be told so.
pub fn unreadable_files(project: &ProjectState) -> (r: (bool, bool))
    ensures
        r.0 == (project@.razdfile is Some && load_outcome(project@.razdfile->Some_0) is Err),
        r.1 == (project@.mise_toml is Some && parsed_section(project@.mise_toml->Some_0) is Err),
{
    let razdfile = match &project.razdfile {
        Some(file) => match &file.parsed {
            Reading::Manifest(config) => config.validate_mise_config().is_err(),
            Reading::Unreadable(_) => true,
        },
        None => false,
    };
    let mise = match &project.mise_toml {
        Some(text) => parse_mise_toml(text.as_str()).is_err(),
        None => false,
    };
    (razdfile, mise)
}

/// The manifest that is made where there is none.
pub fn minimal_razdfile(section: MiseConfig) -> (config: RazdfileConfig)
    ensures
        config@ == minimal_manifest(section@),
{
    let tasks: OrderedMap<crate::razdfile::TaskConfig> = OrderedMap::new();
    tasks.entries_known();
    assert(tasks@ =~= Seq::<(Seq<char>, Task)>::empty());
    RazdfileConfig {
        version: String::from_str("3"),
        mise: Some(section),
        env: None,
        vars: None,
        tasks,
    }
}

/// The name of the copy that is kept of the file `path` before it is
/// overwritten.
pub fn backup_path(path: &str) -> (r: String)
    ensures
        r@ == crate::file_tracker::backup_path_of(path@),
{
    join2(path, ".backup")
}

/// A line that begins a section of a manifest: it is not indented and ends
/// in a colon.
pub open spec fn is_top_level(line: Seq<char>) -> bool {
    !is_prefix(" "@, line) && is_suffix(":"@, line)
}

/// A line that states whether a task is internal.
pub open spec fn is_internal_line(line: Seq<char>) -> bool {
    is_prefix("internal:"@, trim_of(line))
}

/// A line that is indented and not blank.
pub open spec fn is_indented_text(line: Seq<char>) -> bool {
    is_prefix("  "@, line) && trim_of(line).len() > 0
}

/// The number of blank lines that are put between `line` and the line `next`
/// that follows it: one between two section lines, one after an `internal`
/// line that is followed by more of the tasks, one after an `internal` line
/// that is followed by a section line.
pub open spec fn blank_lines_between(line: Seq<char>, next: Seq<char>) -> nat {
    let a: nat = if is_top_level(line) && is_top_level(next) {
        1
    } else {
        0
    };
    let b: nat = if is_internal_line(line) && is_indented_text(next) {
        1
    } else {
        0
    };
    let c: nat = if is_internal_line(line) && is_top_level(next) {
        1
    } else {
        0
    };
    a + b + c
}

/// `count` empty lines.
pub open spec fn blank_lines(count: nat) -> Seq<Seq<char>> {
    Seq::new(count, |i: int| Seq::<char>::empty())
}

/// `acc`, then the lines of `lines` from the `i`th on, with blank lines put
/// between them.
pub open spec fn spaced_from(lines: Seq<Seq<char>>, i: int, acc: Seq<Seq<char>>) -> Seq<Seq<char>>
    decreases lines.len() - i,
{
    if i < 0 || i >= lines.len() {
        acc
    } else if i + 1 < lines.len() {
        spaced_from(
            lines,
            i + 1,
            acc.push(lines[i]) + blank_lines(blank_lines_between(lines[i], lines[i + 1])),
        )
    } else {
        spaced_from(lines, i + 1, acc.push(lines[i]))
    }
}

/// The text of a manifest with blank lines between its sections and tasks:
/// its lines, spaced, with a line feed between every two of them.
pub open spec fn format_yaml_text(yaml: Seq<char>) -> Seq<char> {
    joined(spaced_from(lines_of(yaml), 0, Seq::empty()), "\n"@)
}

/// The number of blank lines to put between `line` and `next`.
pub fn count_blank_lines(line: &str, next: &str) -> (n: usize)
    ensures
        n == blank_lines_between(line@, next@),
{
    let line_top = !has_prefix(line, " ") && has_suffix(line, ":");
    let next_top = !has_prefix(next, " ") && has_suffix(next, ":");
    let internal = has_prefix(trim(line), "internal:");
    let indented = has_prefix(next, "  ") && !trim(next).is_empty();
    let mut n: usize = 0;
    if line_top && next_top {
        n = n + 1;
    }
    if internal && indented {
        n = n + 1;
    }
    if internal && next_top {
        n = n + 1;
    }
    n
}

/// Puts blank lines between the sections and the tasks of the manifest text
/// `yaml`.
pub fn format_yaml(yaml: &str) -> (out: String)
    ensures
        out@ == format_yaml_text(yaml@),
{
    let raw = split_lines(yaml);
    let ghost all = lines_of(yaml@);
    let mut lines: Vec<String> = Vec::new();
    let mut k: usize = 0;
    while k < raw.len()
        invariant
            raw@.len() == all.len(),
            forall|j: int| 0 <= j < raw@.len() ==> (#[trigger] raw@[j])@ == all[j],
            k <= raw@.len(),
            lines@.len() == k,
            forall|j: int| 0 <= j < k ==> (#[trigger] lines@[j])@ == all[j],
        decreases raw@.len() - k,
    {
        lines.push(text_of(&raw[k]));
        k = k + 1;
    }
    assert(seq_view(lines@) =~= all);
    let mut formatted: Vec<String> = Vec::new();
    let mut i: usize = 0;
    assert(seq_view(formatted@) =~= Seq::<Seq<char>>::empty());
    while i < lines.len()
        invariant
            all == seq_view(lines@),
            i <= lines@.len(),
            spaced_from(all, 0, Seq::empty()) == spaced_from(all, i as int, seq_view(formatted@)),
        decreases lines@.len() - i,
    {
        let ghost before = seq_view(formatted@);
        formatted.push(lines[i].clone());
        assert(seq_view(formatted@) =~= before.push(all[i as int]));
        if i + 1 < lines.len() {
            let count = count_blank_lines(lines[i].as_str(), lines[i + 1].as_str());
            let ghost with_line = seq_view(formatted@);
            let mut b: usize = 0;
            assert(with_line + blank_lines(0) =~= with_line);
            while b < count
                invariant
                    b <= count,
                    seq_view(formatted@) == with_line + blank_lines(b as nat),
                decreases count - b,
            {
                let ghost prev = seq_view(formatted@);
                formatted.push(String::new());
                assert(seq_view(formatted@) =~= prev.push(Seq::<char>::empty()));
                assert(blank_lines((b + 1) as nat) =~= blank_lines(b as nat).push(
                    Seq::<char>::empty(),
                ));
                assert(seq_view(formatted@) =~= with_line + blank_lines((b + 1) as nat));
                b = b + 1;
            }
        }
        i = i + 1;
    }
    join_texts(&formatted, "\n")
}

/// Decides, step by step, how a project's two files are brought in line.
#[derive(Debug, Clone)]
pub struct MiseSyncManager {
    project_root: String,
    config: SyncConfig,
}

impl MiseSyncManager {
    pub closed spec fn root(&self) -> Seq<char> {
        self.project_root@
    }

    pub closed spec fn policy(&self) -> SyncConfig {
        self.config
    }

    pub fn new(project_root: String, config: SyncConfig) -> (m: Self)
        ensures
            m.root() == project_root@,
            m.policy() == config,
    {
        MiseSyncManager { project_root, config }
    }

    /// The directory of the project.
    pub fn project_root(&self) -> (r: &str)
        ensures
            r@ == self.root(),
    {
        self.project_root.as_str()
    }

    /// The policy that was given.
    pub fn config(&self) -> (r: SyncConfig)
        ensures
            r == self.policy(),
    {
        self.config
    }

    fn write_mise(&self, mise_exists: bool, content: String) -> (r: SyncStep)
        ensures
            r@ == write_mise_step(self.policy(), mise_exists, content@),
    {
        if mise_exists && self.config.create_backups {
            if self.config.auto_approve {
                SyncStep::WriteMiseToml { content, backup: true }
            } else {
                SyncStep::Ask(SyncState::ConfirmBackupMise(content))
            }
        } else {
            SyncStep::WriteMiseToml { content, backup: false }
        }
    }

    fn write_razdfile(&self, config: RazdfileConfig) -> (r: SyncStep)
        ensures
            r@ == write_razdfile_step(self.policy(), config@),
    {
        if self.config.create_backups {
            if self.config.auto_approve {
                SyncStep::WriteRazdfile { config, backup: true }
            } else {
                SyncStep::Ask(SyncState::ConfirmBackupRazdfile(config))
            }
        } else {
            SyncStep::WriteRazdfile { config, backup: false }
        }
    }

    /// Propagates the tool manifest into the manifest, up to the next
    /// question or to the write.
    pub fn sync_mise_to_razdfile(&self, project: ProjectState) -> (r: SyncStep)
        ensures
            r@ == to_razdfile_step(self.policy(), project@),
    {
        let ProjectState { razdfile, mise_toml, tracking } = project;
        let text = match mise_toml {
            Some(text) => text,
            None => {
                return SyncStep::Failed(RazdError::config("mise.toml not found"));
            },
        };
        let section = match parse_mise_toml(text.as_str()) {
            Ok(section) => section,
            Err(e) => {
                return SyncStep::Failed(e);
            },
        };
        match razdfile {
            Some(file) => match load_razdfile(file) {
                Ok(config) => {
                    let mut config = config;
                    config.mise = Some(section);
                    self.write_razdfile(config)
                },
                Err(e) => SyncStep::Failed(e),
            },
            None => {
                let config = minimal_razdfile(section);
                if self.config.auto_approve {
                    SyncStep::WriteRazdfile { config, backup: false }
                } else {
                    SyncStep::Ask(SyncState::ConfirmCreate(config))
                }
            },
        }
    }

    /// Propagates the manifest's tool section into the tool manifest, up to
    /// the next question or to the write.
    pub fn sync_razdfile_to_mise(&self, project: ProjectState) -> (r: SyncStep)
        ensures
            r@ == to_mise_step(self.policy(), project@),
    {
        let mise_exists = project.mise_toml.is_some();
        let content = match &project.razdfile {
            None => {
                if mise_exists {
                    return self.sync_mise_to_razdfile(project);
                }
                return SyncStep::Failed(RazdError::config("Razdfile.yml not found"));
            },
            Some(file) => match &file.parsed {
                Reading::Unreadable(message) => {
                    let msg = join2("Failed to parse Razdfile.yml: ", message.as_str());
                    return SyncStep::Failed(RazdError::config(msg.as_str()));
                },
                Reading::Manifest(config) => {
                    match config.validate_mise_config() {
                        Ok(_) => {},
                        Err(e) => {
                            return SyncStep::Failed(e);
                        },
                    }
                    match &config.mise {
                        Some(section) => match generate_mise_toml(section) {
                            Ok(content) => Some(content),
                            Err(e) => {
                                return SyncStep::Failed(e);
                            },
                        },
                        None => None,
                    }
                },
            },
        };
        match content {
            Some(content) => self.write_mise(mise_exists, content),
            None => {
                if mise_exists {
                    if self.config.auto_approve {
                        self.sync_mise_to_razdfile(project)
                    } else {
                        SyncStep::Ask(SyncState::ConfirmReverse(project))
                    }
                } else {
                    SyncStep::Done(SyncResult::NoChangesNeeded)
                }
            },
        }
    }

    /// What is done where both files have changed: with every question
    /// answered by yes the manifest wins, else the user is asked.
    pub fn handle_conflict(&self, project: ProjectState) -> (r: SyncStep)
        ensures
            r@ == if self.policy().auto_approve {
                to_mise_step(self.policy(), project@)
            } else {
                SyncStepView::Ask(SyncStateView::ResolveConflict(project@))
            },
    {
        if self.config.auto_approve {
            self.sync_razdfile_to_mise(project)
        } else {
            SyncStep::Ask(SyncState::ResolveConflict(project))
        }
    }

    /// Begins a synchronization: sees what has changed and takes the first
    /// step.
    ///
    /// With synchronization switched off the result is `Skipped`, whatever
    /// the project holds. With neither file present, or nothing changed, it
    /// is `NoChangesNeeded`.
    pub fn check_and_sync_if_needed(&self, project: ProjectState) -> (r: SyncStep)
        ensures
            r@ == first_step(self.policy(), project@),
    {
        if self.config.no_sync {
            return SyncStep::Done(SyncResult::Skipped);
        }
        if project.razdfile.is_none() && project.mise_toml.is_none() {
            return SyncStep::Done(SyncResult::NoChangesNeeded);
        }
        match project_changes(&project) {
            ChangeDetection::NoChanges => SyncStep::Done(SyncResult::NoChangesNeeded),
            ChangeDetection::RazdfileChanged => self.sync_razdfile_to_mise(project),
            ChangeDetection::MiseTomlChanged => self.sync_mise_to_razdfile(project),
            ChangeDetection::BothChanged => self.handle_conflict(project),
        }
    }

    /// Puts blank lines between the sections and the tasks of the manifest
    /// text `yaml`, as [`format_yaml`] does.
    pub fn format_yaml(&self, yaml: &str) -> (out: String)
        ensures
            out@ == format_yaml_text(yaml@),
    {
        format_yaml(yaml)
    }

    /// Goes on after the user's reply to the question of `state`.
    pub fn resume(&self, state: SyncState, reply: &str) -> (r: SyncStep)
        ensures
            r@ == next_step(self.policy(), state@, reply@),
    {
        match state {
            SyncState::ResolveConflict(project) => {
                let choice = trim(reply);
                if same_text(choice, "1") {
                    self.sync_razdfile_to_mise(project)
                } else if same_text(choice, "2") {
                    self.sync_mise_to_razdfile(project)
                } else {
                    SyncStep::Done(SyncResult::Conflict)
                }
            },
            SyncState::ConfirmReverse(project) => {
                if approves(reply) {
                    self.sync_mise_to_razdfile(project)
                } else {
                    SyncStep::Done(SyncResult::Skipped)
                }
            },
            SyncState::ConfirmCreate(config) => {
                if approves(reply) {
                    SyncStep::WriteRazdfile { config, backup: false }
                } else {
                    SyncStep::Done(SyncResult::Skipped)
                }
            },
            SyncState::ConfirmBackupMise(content) => {
                let backup = approves(reply);
                SyncStep::WriteMiseToml { content, backup }
            },
            SyncState::ConfirmBackupRazdfile(config) => {
                let backup = approves(reply);
                SyncStep::WriteRazdfile { config, backup }
            },
        }
    }

    /// The steps that carry out the write that `step` asks for, on the file
    /// `target` and by way of the temporary file `temp`; `rendered` is the
    /// text of the manifest of a step that writes one. `None` for a step
    /// that writes nothing, and where `temp` is the target.
    pub fn write_steps(&self, step: &SyncStep, rendered: &str, target: &str, temp: &str) -> (plan:
        Option<Vec<WriteStep>>)
        ensures
            match plan {
                Some(steps) => step_plan_of(step@, rendered@, target@, temp@) == Some(
                    steps_view(steps@),
                ),
                None => step_plan_of(step@, rendered@, target@, temp@) is None,
            },
    {
        match step {
            SyncStep::WriteMiseToml { content, backup } => write_plan(
                target,
                temp,
                content.as_str(),
                *backup,
            ),
            SyncStep::WriteRazdfile { config: _, backup } => {
                let text = format_yaml(rendered);
                write_plan(target, temp, text.as_str(), *backup)
            },
            _ => None,
        }
    }
}

} // verus!
