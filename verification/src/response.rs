//! The response the server sends, and the builders that fill it in.
//!
//! The payloads whose message layouts belong to the API schema (projects,
//! their summaries, waveforms, progress, upload acknowledgements, users and
//! project syncs) are type parameters: a response carries them as given.

use crate::playback::PlaybackState;
use vstd::prelude::*;
use vstd::string::StrSliceExecFns;

verus! {

/// The status of the signed-in user. Its other fields are left at their
/// defaults by the builders, so only the user is held.
#[derive(Debug)]
pub struct UserStatusResponse<User> {
    pub user: Option<User>,
}

/// A response: an error text (empty where there is none) and the payloads
/// it carries.
#[derive(Debug)]
pub struct Response<Project, ProjectInfo, Waveform, Progress, UploadAck, User, ProjectSync> {
    pub error: String,
    pub project: Option<Project>,
    pub projects: Vec<ProjectInfo>,
    pub cloud_projects: Vec<ProjectInfo>,
    pub playback_state: Option<PlaybackState>,
    pub waveform: Option<Waveform>,
    pub progress: Option<Progress>,
    pub upload: Option<UploadAck>,
    pub user_status: Option<UserStatusResponse<User>>,
    pub project_info: Option<ProjectInfo>,
    pub project_sync: Option<ProjectSync>,
}

/// `r` holds a clone of each item of `items`, in order.
pub open spec fn cloned_all<T: Clone>(items: Seq<T>, r: Seq<T>) -> bool {
    &&& r.len() == items.len()
    &&& forall|i: int| 0 <= i < items.len() ==> cloned::<T>(items[i], #[trigger] r[i])
}

/// A clone of each item of `items`, in order.
fn clone_items<T: Clone>(items: &[T]) -> (r: Vec<T>)
    ensures
        cloned_all(items@, r@),
{
    let mut r: Vec<T> = Vec::new();
    let mut i: usize = 0;
    while i < items.len()
        invariant
            i <= items@.len(),
            r@.len() == i,
            forall|j: int| 0 <= j < i ==> cloned::<T>(items@[j], #[trigger] r@[j]),
        decreases items@.len() - i,
    {
        let item = items[i].clone();
        r.push(item);
        i = i + 1;
    }
    r
}

impl<Project, ProjectInfo, Waveform, Progress, UploadAck, User, ProjectSync> Default for Response<
    Project,
    ProjectInfo,
    Waveform,
    Progress,
    UploadAck,
    User,
    ProjectSync,
> {
    /// No error and no payload.
    fn default() -> (r: Self)
        ensures
            r.error@ == Seq::<char>::empty(),
            r.project is None,
            r.projects@.len() == 0,
            r.cloud_projects@.len() == 0,
            r.playback_state is None,
            r.waveform is None,
            r.progress is None,
            r.upload is None,
            r.user_status is None,
            r.project_info is None,
            r.project_sync is None,
    {
        Response {
            error: String::new(),
            project: None,
            projects: Vec::new(),
            cloud_projects: Vec::new(),
            playback_state: None,
            waveform: None,
            progress: None,
            upload: None,
            user_status: None,
            project_info: None,
            project_sync: None,
        }
    }
}

impl<
    Project: Clone,
    ProjectInfo: Clone,
    Waveform: Clone,
    Progress: Clone,
    UploadAck: Clone,
    User,
    ProjectSync: Clone,
> Response<Project, ProjectInfo, Waveform, Progress, UploadAck, User, ProjectSync> {
    /// The response with the error text `message`.
    pub fn with_error(self, message: &str) -> (r: Self)
        ensures
            r.error@ == message@,
            r == (Response { error: r.error, ..self }),
    {
        Response { error: message.to_owned(), ..self }
    }

    /// The response carrying a clone of `project`.
    pub fn with_project(self, project: &Project) -> (r: Self)
        ensures
            r.project matches Some(p) && cloned(*project, p),
            r == (Response { project: r.project, ..self }),
    {
        Response { project: Some(project.clone()), ..self }
    }

    /// The response listing clones of `projects`, in order.
    pub fn with_projects(self, projects: &[ProjectInfo]) -> (r: Self)
        ensures
            cloned_all(projects@, r.projects@),
            r == (Response { projects: r.projects, ..self }),
    {
        Response { projects: clone_items(projects), ..self }
    }

    /// The response listing clones of the cloud's `projects`, in order.
    pub fn with_cloud_projects(self, projects: &[ProjectInfo]) -> (r: Self)
        ensures
            cloned_all(projects@, r.cloud_projects@),
            r == (Response { cloud_projects: r.cloud_projects, ..self }),
    {
        Response { cloud_projects: clone_items(projects), ..self }
    }

    /// The response carrying `playback_state`.
    pub fn with_playback_state(self, playback_state: &PlaybackState) -> (r: Self)
        ensures
            r == (Response { playback_state: Some(*playback_state), ..self }),
    {
        Response { playback_state: Some(*playback_state), ..self }
    }

    /// The response carrying a clone of `waveform`.
    pub fn with_waveform(self, waveform: &Waveform) -> (r: Self)
        ensures
            r.waveform matches Some(w) && cloned(*waveform, w),
            r == (Response { waveform: r.waveform, ..self }),
    {
        Response { waveform: Some(waveform.clone()), ..self }
    }

    /// The response carrying a clone of `progress`.
    pub fn with_progress(self, progress: &Progress) -> (r: Self)
        ensures
            r.progress matches Some(p) && cloned(*progress, p),
            r == (Response { progress: r.progress, ..self }),
    {
        Response { progress: Some(progress.clone()), ..self }
    }

    /// The response carrying a clone of `upload_ack`.
    pub fn with_upload_ack(self, upload_ack: &UploadAck) -> (r: Self)
        ensures
            r.upload matches Some(u) && cloned(*upload_ack, u),
            r == (Response { upload: r.upload, ..self }),
    {
        Response { upload: Some(upload_ack.clone()), ..self }
    }

    /// The response carrying a clone of `user_status`.
    pub fn with_user_status(self, user_status: &UserStatusResponse<User>) -> (r: Self) where User: Clone
        ensures
            r.user_status matches Some(s) && match (user_status.user, s.user) {
                (Some(a), Some(b)) => cloned(a, b),
                (None, None) => true,
                _ => false,
            },
            r == (Response { user_status: r.user_status, ..self }),
    {
        let user = match &user_status.user {
            Some(u) => Some(u.clone()),
            None => None,
        };
        Response { user_status: Some(UserStatusResponse { user }), ..self }
    }

    /// The response carrying a clone of `project_info`.
    pub fn with_project_info(self, project_info: &ProjectInfo) -> (r: Self)
        ensures
            r.project_info matches Some(p) && cloned(*project_info, p),
            r == (Response { project_info: r.project_info, ..self }),
    {
        Response { project_info: Some(project_info.clone()), ..self }
    }

    /// The response carrying a user status that holds `user` (or no user).
    pub fn with_user(self, user: Option<User>) -> (r: Self)
        ensures
            r == (Response { user_status: Some(UserStatusResponse { user }), ..self }),
    {
        Response { user_status: Some(UserStatusResponse { user }), ..self }
    }

    /// The response carrying a clone of `project_sync`.
    pub fn with_project_sync(self, project_sync: &ProjectSync) -> (r: Self)
        ensures
            r.project_sync matches Some(p) && cloned(*project_sync, p),
            r == (Response { project_sync: r.project_sync, ..self }),
    {
        Response { project_sync: Some(project_sync.clone()), ..self }
    }
}

} // verus!
