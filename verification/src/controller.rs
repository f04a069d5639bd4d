//! The decisions of the main controller: in which order the parts of a
//! request are handled, what each kind of request does, which command an
//! action gives, how a project sync starts and ends, and when the project
//! is saved.

use crate::ids::INVALID_ID;
use crate::messages::{Action, Entity};
use crate::playback::TransportMethod;
use crate::text::{i32_to_decimal, signed_decimal};
use vstd::prelude::*;
use vstd::string::StringExecFns;

verus! {

/// Which parts a request holds.
#[derive(Debug, Clone, Copy, PartialEq, Eq, Structural)]
pub struct RequestParts {
    pub add: bool,
    pub get: bool,
    pub load: bool,
    pub remove: bool,
    pub remove_sample: bool,
    pub save: bool,
    pub select: bool,
    pub transport: bool,
    pub update: bool,
    pub begin_upload: bool,
    pub upload: bool,
    pub complete_upload: bool,
    pub add_sample: bool,
    pub add_section: bool,
    pub remove_project: bool,
    pub duplicate_project: bool,
    pub rename_project: bool,
    pub login: bool,
    pub logout: bool,
    pub project_sync: bool,
}

/// One part of a request, handled in turn.
#[derive(Debug, Clone, Copy, PartialEq, Eq, Structural)]
pub enum RequestStep {
    Add,
    Get,
    Load,
    Remove,
    RemoveSample,
    Save,
    Select,
    Transport,
    Update,
    BeginUpload,
    Upload,
    CompleteUpload,
    AddSample,
    AddSection,
    RemoveProject,
    DuplicateProject,
    RenameProject,
    Login,
    Logout,
    ProjectSync,
}

pub open spec fn step_if(present: bool, step: RequestStep) -> Seq<RequestStep> {
    if present {
        seq![step]
    } else {
        Seq::empty()
    }
}

pub open spec fn steps_a(p: RequestParts) -> Seq<RequestStep> {
    step_if(p.add, RequestStep::Add) + step_if(p.get, RequestStep::Get) + step_if(p.load, RequestStep::Load)
        + step_if(p.remove, RequestStep::Remove) + step_if(p.remove_sample, RequestStep::RemoveSample)
}

pub open spec fn steps_b(p: RequestParts) -> Seq<RequestStep> {
    step_if(p.save, RequestStep::Save) + step_if(p.select, RequestStep::Select) + step_if(
        p.transport,
        RequestStep::Transport,
    ) + step_if(p.update, RequestStep::Update) + step_if(p.begin_upload, RequestStep::BeginUpload)
}

pub open spec fn steps_c(p: RequestParts) -> Seq<RequestStep> {
    step_if(p.upload, RequestStep::Upload) + step_if(p.complete_upload, RequestStep::CompleteUpload) + step_if(
        p.add_sample,
        RequestStep::AddSample,
    ) + step_if(p.add_section, RequestStep::AddSection) + step_if(p.remove_project, RequestStep::RemoveProject)
}

pub open spec fn steps_d(p: RequestParts) -> Seq<RequestStep> {
    step_if(p.duplicate_project, RequestStep::DuplicateProject) + step_if(
        p.rename_project,
        RequestStep::RenameProject,
    ) + step_if(p.login, RequestStep::Login) + step_if(p.logout, RequestStep::Logout) + step_if(
        p.project_sync,
        RequestStep::ProjectSync,
    )
}

/// The parts of a request in the order they are handled: add, get, load,
/// remove, remove sample, save, select, transport, update, begin upload,
/// upload, complete upload, add sample, add section, remove project,
/// duplicate project, rename project, login, logout, project sync.
/// `request_start` and `request_after` say how they are taken in turn.
pub open spec fn spec_request_steps(p: RequestParts) -> Seq<RequestStep> {
    steps_a(p) + steps_b(p) + steps_c(p) + steps_d(p)
}

/// What handling a request does next.
#[derive(Debug, Clone, Copy, PartialEq, Eq, Structural)]
pub enum RequestNext {
    /// Handle this part, then report how it went.
    Perform(RequestStep),
    /// Every part succeeded: the project as changed by the request is kept.
    Commit,
    /// A part failed: the request fails, no later part is handled and the
    /// project as it was before the request is kept.
    Abort,
}

pub open spec fn spec_request_after(steps: Seq<RequestStep>, index: int, succeeded: bool) -> RequestNext {
    if !succeeded {
        RequestNext::Abort
    } else if index + 1 < steps.len() {
        RequestNext::Perform(steps[index + 1])
    } else {
        RequestNext::Commit
    }
}

/// Where handling a request with the parts `steps` stands once the parts
/// handled so far gave `outcomes`, in order.
pub open spec fn request_progress(steps: Seq<RequestStep>, outcomes: Seq<bool>) -> RequestNext
    decreases outcomes.len(),
{
    if outcomes.len() == 0 {
        if steps.len() == 0 {
            RequestNext::Commit
        } else {
            RequestNext::Perform(steps[0])
        }
    } else {
        match request_progress(steps, outcomes.drop_last()) {
            RequestNext::Perform(_) => spec_request_after(steps, outcomes.len() - 1, outcomes.last()),
            other => other,
        }
    }
}

/// A request is committed exactly when each of its parts was handled and
/// succeeded, and it is aborted exactly when one part failed; until then the
/// next part in order is handled.
pub proof fn lemma_request_commits_only_when_all_succeed(steps: Seq<RequestStep>, outcomes: Seq<bool>)
    requires
        outcomes.len() <= steps.len(),
    ensures
        request_progress(steps, outcomes) == if exists|i: int| 0 <= i < outcomes.len() && !outcomes[i] {
            RequestNext::Abort
        } else if outcomes.len() < steps.len() {
            RequestNext::Perform(steps[outcomes.len() as int])
        } else {
            RequestNext::Commit
        },
    decreases outcomes.len(),
{
    if outcomes.len() > 0 {
        let prior = outcomes.drop_last();
        lemma_request_commits_only_when_all_succeed(steps, prior);
        if exists|i: int| 0 <= i < prior.len() && !prior[i] {
            let i = choose|i: int| 0 <= i < prior.len() && !prior[i];
            assert(!outcomes[i]);
        } else {
            if !outcomes.last() {
                assert(!outcomes[outcomes.len() - 1]);
            } else {
                assert forall|i: int| 0 <= i < outcomes.len() implies outcomes[i] by {
                    if i < prior.len() {
                        assert(prior[i] == outcomes[i]);
                    }
                }
            }
        }
    }
}

/// The first thing handling a request with the parts `steps` does: its first
/// part, or, with none, keeping the project as it is.
pub fn request_start(steps: &[RequestStep]) -> (r: RequestNext)
    ensures
        r == if steps@.len() == 0 {
            RequestNext::Commit
        } else {
            RequestNext::Perform(steps@[0])
        },
{
    if steps.len() == 0 {
        RequestNext::Commit
    } else {
        RequestNext::Perform(steps[0])
    }
}

/// What handling a request does after part `index` of `steps` was handled
/// and `succeeded` tells how it went: the first failure ends the request;
/// otherwise the next part is handled, and after the last the project is
/// committed.
pub fn request_after(steps: &[RequestStep], index: usize, succeeded: bool) -> (r: RequestNext)
    requires
        index < steps@.len(),
    ensures
        r == spec_request_after(steps@, index as int, succeeded),
{
    if !succeeded {
        RequestNext::Abort
    } else if index < steps.len() - 1 {
        RequestNext::Perform(steps[index + 1])
    } else {
        RequestNext::Commit
    }
}

fn push_if(steps: &mut Vec<RequestStep>, present: bool, step: RequestStep)
    ensures
        final(steps)@ == old(steps)@ + step_if(present, step),
{
    if present {
        steps.push(step);
    }
    assert(final(steps)@ =~= old(steps)@ + step_if(present, step));
}

fn five_steps(
    s1: (bool, RequestStep),
    s2: (bool, RequestStep),
    s3: (bool, RequestStep),
    s4: (bool, RequestStep),
    s5: (bool, RequestStep),
) -> (r: Vec<RequestStep>)
    ensures
        r@ == step_if(s1.0, s1.1) + step_if(s2.0, s2.1) + step_if(s3.0, s3.1) + step_if(s4.0, s4.1) + step_if(
            s5.0,
            s5.1,
        ),
{
    let mut steps: Vec<RequestStep> = Vec::new();
    push_if(&mut steps, s1.0, s1.1);
    assert(steps@ =~= step_if(s1.0, s1.1));
    push_if(&mut steps, s2.0, s2.1);
    push_if(&mut steps, s3.0, s3.1);
    push_if(&mut steps, s4.0, s4.1);
    push_if(&mut steps, s5.0, s5.1);
    steps
}

/// The parts of a request in the order they are handled.
pub fn request_steps(p: &RequestParts) -> (r: Vec<RequestStep>)
    ensures
        r@ == spec_request_steps(*p),
{
    let mut a = five_steps(
        (p.add, RequestStep::Add),
        (p.get, RequestStep::Get),
        (p.load, RequestStep::Load),
        (p.remove, RequestStep::Remove),
        (p.remove_sample, RequestStep::RemoveSample),
    );
    let mut b = five_steps(
        (p.save, RequestStep::Save),
        (p.select, RequestStep::Select),
        (p.transport, RequestStep::Transport),
        (p.update, RequestStep::Update),
        (p.begin_upload, RequestStep::BeginUpload),
    );
    let mut c = five_steps(
        (p.upload, RequestStep::Upload),
        (p.complete_upload, RequestStep::CompleteUpload),
        (p.add_sample, RequestStep::AddSample),
        (p.add_section, RequestStep::AddSection),
        (p.remove_project, RequestStep::RemoveProject),
    );
    let mut d = five_steps(
        (p.duplicate_project, RequestStep::DuplicateProject),
        (p.rename_project, RequestStep::RenameProject),
        (p.login, RequestStep::Login),
        (p.logout, RequestStep::Logout),
        (p.project_sync, RequestStep::ProjectSync),
    );
    a.append(&mut b);
    a.append(&mut c);
    a.append(&mut d);
    a
}

/// What a get request does.
#[derive(Debug)]
pub enum GetPlan {
    /// The entity is not one the server knows: the client is told so.
    InvalidEntity(String),
    /// Refresh the user's login, then send the project, playback state,
    /// project info and user.
    SendAll,
    /// Send the local projects and the cloud ones (none where they cannot be read).
    SendProjects,
    /// Generate the waveform of sample `id`.
    Waveform(u64),
    /// Nothing to do for this entity.
    Nothing,
}

pub enum GetPlanView {
    InvalidEntity(Seq<char>),
    SendAll,
    SendProjects,
    Waveform(u64),
    Nothing,
}

impl View for GetPlan {
    type V = GetPlanView;

    open spec fn view(&self) -> GetPlanView {
        match self {
            GetPlan::InvalidEntity(m) => GetPlanView::InvalidEntity(m@),
            GetPlan::SendAll => GetPlanView::SendAll,
            GetPlan::SendProjects => GetPlanView::SendProjects,
            GetPlan::Waveform(id) => GetPlanView::Waveform(*id),
            GetPlan::Nothing => GetPlanView::Nothing,
        }
    }
}

/// The plan of a get request for `entity` (the raw number where it names no
/// known entity) and `id`.
pub fn get_plan(entity: Result<Entity, i32>, id: u64) -> (r: GetPlan)
    ensures
        r@ == match entity {
            Err(n) => GetPlanView::InvalidEntity("Invalid entity type: "@ + signed_decimal(n as int)),
            Ok(Entity::ALL) => GetPlanView::SendAll,
            Ok(Entity::PROJECTS) => GetPlanView::SendProjects,
            Ok(Entity::WAVEFORM) => GetPlanView::Waveform(id),
            Ok(_) => GetPlanView::Nothing,
        },
{
    match entity {
        Err(n) => {
            let mut m = String::from_str("Invalid entity type: ");
            m.append(i32_to_decimal(n).as_str());
            GetPlan::InvalidEntity(m)
        },
        Ok(Entity::ALL) => GetPlan::SendAll,
        Ok(Entity::PROJECTS) => GetPlan::SendProjects,
        Ok(Entity::WAVEFORM) => GetPlan::Waveform(id),
        Ok(_) => GetPlan::Nothing,
    }
}

/// What an add, select or remove request changes in the project.
#[derive(Debug, Clone, Copy, PartialEq, Eq, Structural)]
pub enum ProjectEdit {
    /// Add a section to the song `parent`.
    AddSection { parent: u64 },
    /// Add one song.
    AddSong,
    /// Start a new project with one song of one section.
    NewProject,
    SelectSong(u64),
    SelectSection(u64),
    RemoveSong(u64),
    RemoveSection(u64),
    /// Leave the project as it is.
    Keep,
}

/// An add request: a section needs its song's id.
pub fn add_edit(entity: Entity, id: u64) -> (r: Result<ProjectEdit, String>)
    ensures
        match entity {
            Entity::SECTION => if id == INVALID_ID {
                r matches Err(m) && m@ == "Missing parent ID"@
            } else {
                r == Ok::<ProjectEdit, String>(ProjectEdit::AddSection { parent: id })
            },
            Entity::SONG => r == Ok::<ProjectEdit, String>(ProjectEdit::AddSong),
            Entity::PROJECT => r == Ok::<ProjectEdit, String>(ProjectEdit::NewProject),
            _ => r == Ok::<ProjectEdit, String>(ProjectEdit::Keep),
        },
{
    match entity {
        Entity::SECTION => {
            if id == INVALID_ID {
                Err(String::from_str("Missing parent ID"))
            } else {
                Ok(ProjectEdit::AddSection { parent: id })
            }
        },
        Entity::SONG => Ok(ProjectEdit::AddSong),
        Entity::PROJECT => Ok(ProjectEdit::NewProject),
        _ => Ok(ProjectEdit::Keep),
    }
}

/// A select request.
pub fn select_edit(entity: Entity, id: u64) -> (r: ProjectEdit)
    ensures
        r == match entity {
            Entity::SONG => ProjectEdit::SelectSong(id),
            Entity::SECTION => ProjectEdit::SelectSection(id),
            _ => ProjectEdit::Keep,
        },
{
    match entity {
        Entity::SONG => ProjectEdit::SelectSong(id),
        Entity::SECTION => ProjectEdit::SelectSection(id),
        _ => ProjectEdit::Keep,
    }
}

/// A remove request.
pub fn remove_edit(entity: Entity, id: u64) -> (r: ProjectEdit)
    ensures
        r == match entity {
            Entity::SONG => ProjectEdit::RemoveSong(id),
            Entity::SECTION => ProjectEdit::RemoveSection(id),
            _ => ProjectEdit::Keep,
        },
{
    match entity {
        Entity::SONG => ProjectEdit::RemoveSong(id),
        Entity::SECTION => ProjectEdit::RemoveSection(id),
        _ => ProjectEdit::Keep,
    }
}

/// What the audio engine is told to do.
#[derive(Debug, Clone, Copy, PartialEq, Eq, Structural)]
pub enum EngineCommand {
    Play,
    Stop,
    EnterLoop,
    ExitLoop,
    Queue { song_id: u64, section_id: u64 },
    ToggleLoop,
    TogglePlay,
}

/// A transport request (`method` is the raw number where it names no known
/// method); queueing takes the song and section to queue.
pub fn transport_command(method: Result<TransportMethod, i32>, song_id: u64, section_id: u64) -> (r: Result<
    EngineCommand,
    String,
>)
    ensures
        match method {
            Err(n) => r matches Err(m) && m@ == "Invalid transport method: "@ + signed_decimal(n as int),
            Ok(TransportMethod::PLAY) => r == Ok::<EngineCommand, String>(EngineCommand::Play),
            Ok(TransportMethod::STOP) => r == Ok::<EngineCommand, String>(EngineCommand::Stop),
            Ok(TransportMethod::LOOP) => r == Ok::<EngineCommand, String>(EngineCommand::EnterLoop),
            Ok(TransportMethod::EXIT_LOOP) => r == Ok::<EngineCommand, String>(EngineCommand::ExitLoop),
            Ok(TransportMethod::QUEUE) => r == Ok::<EngineCommand, String>(
                EngineCommand::Queue { song_id, section_id },
            ),
        },
{
    match method {
        Err(n) => {
            let mut m = String::from_str("Invalid transport method: ");
            m.append(i32_to_decimal(n).as_str());
            Err(m)
        },
        Ok(TransportMethod::PLAY) => Ok(EngineCommand::Play),
        Ok(TransportMethod::STOP) => Ok(EngineCommand::Stop),
        Ok(TransportMethod::LOOP) => Ok(EngineCommand::EnterLoop),
        Ok(TransportMethod::EXIT_LOOP) => Ok(EngineCommand::ExitLoop),
        Ok(TransportMethod::QUEUE) => Ok(EngineCommand::Queue { song_id, section_id }),
    }
}

/// What an action from a switch or MIDI control does.
#[derive(Debug, Clone, Copy, PartialEq, Eq, Structural)]
pub enum ActionCommand {
    Nothing,
    SelectPreviousSong,
    SelectNextSong,
    SelectPreviousSection,
    SelectNextSection,
    Engine(EngineCommand),
}

/// The command of an action; queueing the selection needs a selected song
/// and section.
pub fn action_command(action: Action, selected_song: u64, selected_section: u64) -> (r: ActionCommand)
    ensures
        r == match action {
            Action::ACTION_UNKNOWN => ActionCommand::Nothing,
            Action::ACTION_PREVIOUS_SONG => ActionCommand::SelectPreviousSong,
            Action::ACTION_NEXT_SONG => ActionCommand::SelectNextSong,
            Action::ACTION_PREVIOUS_SECTION => ActionCommand::SelectPreviousSection,
            Action::ACTION_NEXT_SECTION => ActionCommand::SelectNextSection,
            Action::ACTION_QUEUE_SELECTED => if selected_song != INVALID_ID && selected_section != INVALID_ID {
                ActionCommand::Engine(EngineCommand::Queue { song_id: selected_song, section_id: selected_section })
            } else {
                ActionCommand::Nothing
            },
            Action::ACTION_TOGGLE_LOOP => ActionCommand::Engine(EngineCommand::ToggleLoop),
            Action::ACTION_TOGGLE_PLAY => ActionCommand::Engine(EngineCommand::TogglePlay),
        },
{
    match action {
        Action::ACTION_UNKNOWN => ActionCommand::Nothing,
        Action::ACTION_PREVIOUS_SONG => ActionCommand::SelectPreviousSong,
        Action::ACTION_NEXT_SONG => ActionCommand::SelectNextSong,
        Action::ACTION_PREVIOUS_SECTION => ActionCommand::SelectPreviousSection,
        Action::ACTION_NEXT_SECTION => ActionCommand::SelectNextSection,
        Action::ACTION_QUEUE_SELECTED => {
            if selected_song != INVALID_ID && selected_section != INVALID_ID {
                ActionCommand::Engine(EngineCommand::Queue { song_id: selected_song, section_id: selected_section })
            } else {
                ActionCommand::Nothing
            }
        },
        Action::ACTION_TOGGLE_LOOP => ActionCommand::Engine(EngineCommand::ToggleLoop),
        Action::ACTION_TOGGLE_PLAY => ActionCommand::Engine(EngineCommand::TogglePlay),
    }
}

/// How a project is synchronised.
#[allow(non_camel_case_types)]
#[derive(Debug, Clone, Copy, PartialEq, Eq, Structural)]
pub enum SyncMethod {
    SYNC_METHOD_UNDEFINED,
    SYNC_METHOD_PUSH,
    SYNC_METHOD_PULL,
}

#[allow(non_camel_case_types)]
#[derive(Debug, Clone, Copy, PartialEq, Eq, Structural)]
pub enum SyncStatus {
    SYNC_STATUS_IN_PROGRESS,
    SYNC_STATUS_COMPLETE,
    SYNC_STATUS_ERROR,
}

/// Where a project is copied from and to.
#[derive(Debug, Clone, Copy, PartialEq, Eq, Structural)]
pub enum SyncDirection {
    LocalToRemote,
    RemoteToLocal,
}

/// How a sync request starts: refused without a logged in user (before
/// anything is sent); otherwise "in progress" is sent, then the request fails
/// for an undefined method or copies the project in the method's direction.
#[derive(Debug)]
pub enum SyncStart {
    NotLoggedIn(String),
    UndefinedMethod(String),
    Copy(SyncDirection),
}

pub fn start_project_sync(logged_in: bool, method: SyncMethod) -> (r: SyncStart)
    ensures
        !logged_in ==> (r matches SyncStart::NotLoggedIn(m) && m@ == "User not logged in, cannot sync project"@),
        logged_in ==> match method {
            SyncMethod::SYNC_METHOD_UNDEFINED => (r matches SyncStart::UndefinedMethod(m) && m@
                == "Undefined sync method"@),
            SyncMethod::SYNC_METHOD_PUSH => r matches SyncStart::Copy(SyncDirection::LocalToRemote),
            SyncMethod::SYNC_METHOD_PULL => r matches SyncStart::Copy(SyncDirection::RemoteToLocal),
        },
{
    if !logged_in {
        return SyncStart::NotLoggedIn(String::from_str("User not logged in, cannot sync project"));
    }
    match method {
        SyncMethod::SYNC_METHOD_UNDEFINED => SyncStart::UndefinedMethod(String::from_str("Undefined sync method")),
        SyncMethod::SYNC_METHOD_PUSH => SyncStart::Copy(SyncDirection::LocalToRemote),
        SyncMethod::SYNC_METHOD_PULL => SyncStart::Copy(SyncDirection::RemoteToLocal),
    }
}

/// The status a finished sync reports.
pub fn sync_status(copied: bool) -> (r: SyncStatus)
    ensures
        r == if copied {
            SyncStatus::SYNC_STATUS_COMPLETE
        } else {
            SyncStatus::SYNC_STATUS_ERROR
        },
{
    if copied {
        SyncStatus::SYNC_STATUS_COMPLETE
    } else {
        SyncStatus::SYNC_STATUS_ERROR
    }
}

/// Whether the project has changes that the periodic save has to write:
/// set when its songs change, cleared by a save that succeeds.
pub struct SaveTracker {
    should_save: bool,
}

impl SaveTracker {
    pub closed spec fn pending(&self) -> bool {
        self.should_save
    }

    pub fn new() -> (r: Self)
        ensures
            !r.pending(),
    {
        SaveTracker { should_save: false }
    }

    /// The project was replaced; `songs_changed` tells whether its songs differ.
    pub fn note_project(&mut self, songs_changed: bool)
        ensures
            final(self).pending() == (old(self).pending() || songs_changed),
    {
        if songs_changed {
            self.should_save = true;
        }
    }

    /// Whether the periodic save should write the project now.
    pub fn save_due(&self) -> (r: bool)
        ensures
            r == self.pending(),
    {
        self.should_save
    }

    /// The periodic save ran; `saved` tells whether it succeeded.
    pub fn note_save(&mut self, saved: bool)
        ensures
            final(self).pending() == (old(self).pending() && !saved),
    {
        if saved {
            self.should_save = false;
        }
    }
}

} // verus!
