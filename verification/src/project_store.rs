//! The decisions of the project store: what a removal removes and in which
//! order, what is left over from an interrupted cloud refresh, whether the
//! local mirror of a cloud project is current, and which audio a refreshed
//! project needs.

use crate::midi::str_equals;
use crate::text::{decimal, u64_to_decimal};
use vstd::prelude::*;
use vstd::string::StringExecFns;

verus! {

/// The outcome of refreshing a local mirror from the cloud.
#[derive(Debug, Clone, Copy, PartialEq, Eq, Structural)]
pub enum CloudRefresh {
    /// The mirror already held the cloud's revision.
    Current,
    /// The mirror was replaced by the cloud's revision.
    Updated,
}

/// Where a project is to be removed from.
#[allow(non_camel_case_types)]
#[derive(Debug, Clone, Copy, PartialEq, Eq, Structural)]
pub enum ProjectRemovalTarget {
    PROJECT_REMOVAL_TARGET_UNSPECIFIED,
    PROJECT_REMOVAL_TARGET_LOCAL,
    PROJECT_REMOVAL_TARGET_REMOTE,
}

/// One removal of a project.
#[derive(Debug, Clone, Copy, PartialEq, Eq, Structural)]
pub enum RemovalStep {
    Remote,
    Local,
}

/// No target means both, for compatibility with older clients.
pub open spec fn removes_local(targets: Seq<ProjectRemovalTarget>) -> bool {
    targets.len() == 0 || targets.contains(ProjectRemovalTarget::PROJECT_REMOVAL_TARGET_LOCAL)
}

pub open spec fn removes_remote(targets: Seq<ProjectRemovalTarget>) -> bool {
    targets.len() == 0 || targets.contains(ProjectRemovalTarget::PROJECT_REMOVAL_TARGET_REMOTE)
}

/// The removals to make, remote first: a failed remote removal stops
/// before the local project is touched.
pub open spec fn spec_removal_steps(targets: Seq<ProjectRemovalTarget>) -> Option<Seq<RemovalStep>> {
    if !removes_local(targets) && !removes_remote(targets) {
        None
    } else {
        Some(
            (if removes_remote(targets) {
                seq![RemovalStep::Remote]
            } else {
                Seq::empty()
            }) + (if removes_local(targets) {
                seq![RemovalStep::Local]
            } else {
                Seq::empty()
            }),
        )
    }
}

fn contains_target(targets: &[ProjectRemovalTarget], target: ProjectRemovalTarget) -> (r: bool)
    ensures
        r == targets@.contains(target),
{
    let mut i: usize = 0;
    while i < targets.len()
        invariant
            i <= targets@.len(),
            forall|j: int| 0 <= j < i ==> targets@[j] != target,
        decreases targets@.len() - i,
    {
        if targets[i] == target {
            assert(targets@[i as int] == target);
            return true;
        }
        i = i + 1;
    }
    false
}

/// The removals that a request with `targets` makes, in order, or why it
/// makes none.
pub fn removal_steps(targets: &[ProjectRemovalTarget]) -> (r: Result<Vec<RemovalStep>, String>)
    ensures
        match spec_removal_steps(targets@) {
            Some(steps) => r matches Ok(v) && v@ == steps,
            None => r matches Err(e) && e@ == "No project removal targets specified"@,
        },
{
    let remove_local = targets.len() == 0 || contains_target(targets, ProjectRemovalTarget::PROJECT_REMOVAL_TARGET_LOCAL);
    let remove_remote = targets.len() == 0 || contains_target(
        targets,
        ProjectRemovalTarget::PROJECT_REMOVAL_TARGET_REMOTE,
    );
    if !remove_local && !remove_remote {
        return Err(String::from_str("No project removal targets specified"));
    }
    let mut steps: Vec<RemovalStep> = Vec::new();
    if remove_remote {
        steps.push(RemovalStep::Remote);
    }
    if remove_local {
        steps.push(RemovalStep::Local);
    }
    assert(steps@ =~= spec_removal_steps(targets@)->0);
    Ok(steps)
}

/// What a removal does next.
#[derive(Debug, Clone, Copy, PartialEq, Eq, Structural)]
pub enum RemovalNext {
    /// Make this removal, then report how it went.
    Perform(RemovalStep),
    /// Every removal succeeded.
    Finished,
    /// This removal failed: the request fails and nothing more is removed.
    Stopped(RemovalStep),
}

pub open spec fn spec_removal_after(steps: Seq<RemovalStep>, index: int, succeeded: bool) -> RemovalNext {
    if !succeeded {
        RemovalNext::Stopped(steps[index])
    } else if index < steps.len() - 1 {
        RemovalNext::Perform(steps[index + 1])
    } else {
        RemovalNext::Finished
    }
}

/// The first thing a removal of `steps` does.
pub fn removal_start(steps: &[RemovalStep]) -> (r: RemovalNext)
    ensures
        r == if steps@.len() == 0 {
            RemovalNext::Finished
        } else {
            RemovalNext::Perform(steps@[0])
        },
{
    if steps.len() == 0 {
        RemovalNext::Finished
    } else {
        RemovalNext::Perform(steps[0])
    }
}

/// What a removal of `steps` does after step `index` was made and
/// `succeeded` tells how it went: a failure stops at once; otherwise the
/// next step is made, until none is left.
pub fn removal_after(steps: &[RemovalStep], index: usize, succeeded: bool) -> (r: RemovalNext)
    requires
        index < steps@.len(),
    ensures
        r == spec_removal_after(steps@, index as int, succeeded),
{
    if !succeeded {
        RemovalNext::Stopped(steps[index])
    } else if index < steps.len() - 1 {
        RemovalNext::Perform(steps[index + 1])
    } else {
        RemovalNext::Finished
    }
}

/// The stages of a refresh of the local mirror from the cloud. Only the
/// last one touches the local project.
#[derive(Debug, Clone, Copy, PartialEq, Eq, Structural)]
pub enum RefreshStep {
    /// Read the cloud project's metadata (its revision).
    ReadCloudMetadata,
    /// Compare the mirror's revision with the cloud's (`cloud_mirror_is_current`).
    CheckLocalMirror,
    /// Download and parse the cloud project file.
    DownloadProject,
    /// List the cloud project's audio.
    ListCloudAudio,
    /// Build the project, with its referenced audio, in a staging directory.
    StageProject,
    /// Put the staged project in the local project's place
    /// (`ops_before_install`, then `ops_after_install`).
    InstallProject,
}

/// What a refresh does next.
#[derive(Debug, Clone, Copy, PartialEq, Eq, Structural)]
pub enum RefreshNext {
    /// Run this stage, then report how it went.
    Run(RefreshStep),
    /// The refresh is over with this result.
    Finished(CloudRefresh),
    /// A stage failed: the refresh fails.
    Abort,
}

pub open spec fn spec_refresh_after(step: RefreshStep, succeeded: bool, mirror_current: bool) -> RefreshNext {
    if !succeeded {
        RefreshNext::Abort
    } else {
        match step {
            RefreshStep::ReadCloudMetadata => RefreshNext::Run(RefreshStep::CheckLocalMirror),
            RefreshStep::CheckLocalMirror => if mirror_current {
                RefreshNext::Finished(CloudRefresh::Current)
            } else {
                RefreshNext::Run(RefreshStep::DownloadProject)
            },
            RefreshStep::DownloadProject => RefreshNext::Run(RefreshStep::ListCloudAudio),
            RefreshStep::ListCloudAudio => RefreshNext::Run(RefreshStep::StageProject),
            RefreshStep::StageProject => RefreshNext::Run(RefreshStep::InstallProject),
            RefreshStep::InstallProject => RefreshNext::Finished(CloudRefresh::Updated),
        }
    }
}

/// A refresh first reads the cloud project's metadata.
pub fn refresh_start() -> (r: RefreshNext)
    ensures
        r == RefreshNext::Run(RefreshStep::ReadCloudMetadata),
{
    RefreshNext::Run(RefreshStep::ReadCloudMetadata)
}

/// What a refresh does after `step` ran: `succeeded` tells how it went,
/// and, for the mirror check, `mirror_current` whether the mirror already
/// holds the cloud's revision. Any failure aborts; a current mirror ends
/// the refresh untouched; otherwise the stages follow in order.
pub fn refresh_after(step: RefreshStep, succeeded: bool, mirror_current: bool) -> (r: RefreshNext)
    ensures
        r == spec_refresh_after(step, succeeded, mirror_current),
{
    if !succeeded {
        return RefreshNext::Abort;
    }
    match step {
        RefreshStep::ReadCloudMetadata => RefreshNext::Run(RefreshStep::CheckLocalMirror),
        RefreshStep::CheckLocalMirror => if mirror_current {
            RefreshNext::Finished(CloudRefresh::Current)
        } else {
            RefreshNext::Run(RefreshStep::DownloadProject)
        },
        RefreshStep::DownloadProject => RefreshNext::Run(RefreshStep::ListCloudAudio),
        RefreshStep::ListCloudAudio => RefreshNext::Run(RefreshStep::StageProject),
        RefreshStep::StageProject => RefreshNext::Run(RefreshStep::InstallProject),
        RefreshStep::InstallProject => RefreshNext::Finished(CloudRefresh::Updated),
    }
}

pub open spec fn has_prefix(s: Seq<char>, prefix: Seq<char>) -> bool {
    s.len() >= prefix.len() && s.subrange(0, prefix.len() as int) == prefix
}

pub open spec fn has_suffix(s: Seq<char>, suffix: Seq<char>) -> bool {
    s.len() >= suffix.len() && s.subrange(s.len() - suffix.len(), s.len() as int) == suffix
}

/// Whether `s` begins with `prefix`.
pub fn starts_with_text(s: &str, prefix: &str) -> (r: bool)
    ensures
        r == has_prefix(s@, prefix@),
{
    let n = s.unicode_len();
    let m = prefix.unicode_len();
    if m > n {
        return false;
    }
    str_equals(s.substring_char(0, m), prefix)
}

/// Whether `s` ends with `suffix`.
pub fn ends_with_text(s: &str, suffix: &str) -> (r: bool)
    ensures
        r == has_suffix(s@, suffix@),
{
    let n = s.unicode_len();
    let m = suffix.unicode_len();
    if m > n {
        return false;
    }
    str_equals(s.substring_char(n - m, n), suffix)
}

/// What an entry of the projects directory is, by its name.
#[derive(Debug)]
pub enum ProjectDirectoryEntry {
    /// The staging directory of a refresh that did not finish: removed.
    Staging,
    /// The backup of a project taken during a refresh: put back where the
    /// project is missing, removed otherwise.
    Backup { project_id: String },
    /// Anything else: left alone.
    Other,
}

pub enum ProjectDirectoryEntryView {
    Staging,
    Backup { project_id: Seq<char> },
    Other,
}

impl View for ProjectDirectoryEntry {
    type V = ProjectDirectoryEntryView;

    open spec fn view(&self) -> ProjectDirectoryEntryView {
        match self {
            ProjectDirectoryEntry::Staging => ProjectDirectoryEntryView::Staging,
            ProjectDirectoryEntry::Backup { project_id } => ProjectDirectoryEntryView::Backup {
                project_id: project_id@,
            },
            ProjectDirectoryEntry::Other => ProjectDirectoryEntryView::Other,
        }
    }
}

/// Staging directories start with `.cloud-project-`; a backup of project
/// `id` is named `.id.backup`.
pub open spec fn spec_entry_kind(name: Seq<char>) -> ProjectDirectoryEntryView {
    if has_prefix(name, ".cloud-project-"@) {
        ProjectDirectoryEntryView::Staging
    } else if name.len() >= 1 && name[0] == '.' && has_suffix(name.subrange(1, name.len() as int), ".backup"@) {
        ProjectDirectoryEntryView::Backup {
            project_id: name.subrange(1, name.len() - ".backup"@.len()),
        }
    } else {
        ProjectDirectoryEntryView::Other
    }
}

/// What becomes of a project backup left by an interrupted refresh.
#[derive(Debug, Clone, Copy, PartialEq, Eq, Structural)]
pub enum BackupAction {
    /// The project is in its place: the backup is removed.
    Remove,
    /// The project is missing: the backup is moved back to its place.
    Restore,
}

/// A backup is removed where its project exists, and put back otherwise.
pub fn backup_action(destination_exists: bool) -> (r: BackupAction)
    ensures
        r == if destination_exists {
            BackupAction::Remove
        } else {
            BackupAction::Restore
        },
{
    if destination_exists {
        BackupAction::Remove
    } else {
        BackupAction::Restore
    }
}

/// What an entry of the projects directory is, by its name.
pub fn classify_project_entry(name: &str) -> (r: ProjectDirectoryEntry)
    ensures
        r@ == spec_entry_kind(name@),
{
    if starts_with_text(name, ".cloud-project-") {
        return ProjectDirectoryEntry::Staging;
    }
    let n = name.unicode_len();
    if n == 0 || name.get_char(0) != '.' {
        return ProjectDirectoryEntry::Other;
    }
    let rest = name.substring_char(1, n);
    let suffix = ".backup";
    if !ends_with_text(rest, suffix) {
        return ProjectDirectoryEntry::Other;
    }
    let m = suffix.unicode_len();
    let project_id = name.substring_char(1, n - m);
    assert(project_id@ == name@.subrange(1, name@.len() - ".backup"@.len()));
    ProjectDirectoryEntry::Backup { project_id: String::from_str(project_id) }
}

/// Whether the local mirror of a cloud project holds the cloud's revision
/// (and can be read): then it is kept as it is.
pub fn cloud_mirror_is_current(local_revision: Option<&str>, cloud_revision: &str, local_project_readable: bool) -> (r:
    bool)
    ensures
        r == (local_revision matches Some(l) && l@ == cloud_revision@ && local_project_readable),
{
    match local_revision {
        Some(l) => str_equals(l, cloud_revision) && local_project_readable,
        None => false,
    }
}

/// The samples a project's songs refer to, each once, in song order.
pub fn referenced_sample_ids(song_samples: &[Option<u64>]) -> (r: Vec<u64>)
    ensures
        forall|a: int, b: int| 0 <= a < b < r@.len() ==> r@[a] != r@[b],
        forall|id: u64| #[trigger] r@.contains(id) <==> song_samples@.contains(Some(id)),
{
    let mut ids: Vec<u64> = Vec::new();
    let mut i: usize = 0;
    while i < song_samples.len()
        invariant
            i <= song_samples@.len(),
            forall|a: int, b: int| 0 <= a < b < ids@.len() ==> ids@[a] != ids@[b],
            forall|id: u64| #[trigger] ids@.contains(id) <==> song_samples@.take(i as int).contains(Some(id)),
        decreases song_samples@.len() - i,
    {
        let ghost before = ids@;
        let ghost prefix = song_samples@.take(i as int);
        let ghost next = song_samples@.take(i + 1);
        assert(next =~= prefix.push(song_samples@[i as int]));
        match song_samples[i] {
            Some(id) => {
                let mut seen = false;
                let mut k: usize = 0;
                while k < ids.len()
                    invariant
                        k <= ids@.len(),
                        seen <==> exists|m: int| 0 <= m < k && ids@[m] == id,
                    decreases ids@.len() - k,
                {
                    if ids[k] == id {
                        seen = true;
                    }
                    k = k + 1;
                }
                if !seen {
                    ids.push(id);
                }
                proof {
                    assert forall|a: int, b: int| 0 <= a < b < ids@.len() implies ids@[a] != ids@[b] by {
                        if b == before.len() {
                            assert(before[a] == ids@[a]);
                        }
                    }
                    assert forall|x: u64| #[trigger] ids@.contains(x) <==> next.contains(Some(x)) by {
                        if next.contains(Some(x)) {
                            let j = choose|j: int| 0 <= j < next.len() && next[j] == Some(x);
                            if j < prefix.len() {
                                assert(prefix[j] == Some(x));
                                assert(before.contains(x));
                                let m = choose|m: int| 0 <= m < before.len() && before[m] == x;
                                assert(ids@[m] == x);
                            } else if seen {
                                let m = choose|m: int| 0 <= m < before.len() && before[m] == id;
                                assert(ids@[m] == x);
                            } else {
                                assert(ids@[before.len() as int] == x);
                            }
                        }
                        if ids@.contains(x) {
                            let m = choose|m: int| 0 <= m < ids@.len() && ids@[m] == x;
                            if m < before.len() {
                                assert(before.contains(x));
                                let j = choose|j: int| 0 <= j < prefix.len() && prefix[j] == Some(x);
                                assert(next[j] == Some(x));
                            } else {
                                assert(next[i as int] == Some(x));
                            }
                        }
                    }
                }
            },
            None => {
                proof {
                    assert forall|x: u64| #[trigger] ids@.contains(x) <==> next.contains(Some(x)) by {
                        if next.contains(Some(x)) {
                            let j = choose|j: int| 0 <= j < next.len() && next[j] == Some(x);
                            assert(prefix[j] == Some(x));
                        }
                        if prefix.contains(Some(x)) {
                            let j = choose|j: int| 0 <= j < prefix.len() && prefix[j] == Some(x);
                            assert(next[j] == Some(x));
                        }
                    }
                }
            },
        }
        i = i + 1;
    }
    assert(song_samples@.take(i as int) =~= song_samples@);
    ids
}

pub open spec fn names_contain(names: Seq<String>, name: Seq<char>) -> bool {
    exists|j: int| 0 <= j < names.len() && #[trigger] names[j]@ == name
}

fn contains_name(names: &[String], name: &str) -> (r: bool)
    ensures
        r == names_contain(names@, name@),
{
    let mut j: usize = 0;
    while j < names.len()
        invariant
            j <= names@.len(),
            forall|k: int| 0 <= k < j ==> #[trigger] names@[k]@ != name@,
        decreases names@.len() - j,
    {
        if str_equals(names[j].as_str(), name) {
            return true;
        }
        j = j + 1;
    }
    false
}

/// The first referenced sample (in the order given) that the cloud does not
/// hold under its decimal id; a refresh stops there.
pub fn missing_referenced_sample(referenced: &[u64], available: &[String]) -> (r: Option<u64>)
    ensures
        match r {
            Some(id) => exists|i: int|
                0 <= i < referenced@.len() && referenced@[i] == id && !names_contain(available@, decimal(id as nat))
                    && forall|k: int| 0 <= k < i ==> names_contain(available@, decimal(#[trigger] referenced@[k] as nat)),
            None => forall|k: int|
                0 <= k < referenced@.len() ==> names_contain(available@, decimal(#[trigger] referenced@[k] as nat)),
        },
{
    let mut i: usize = 0;
    while i < referenced.len()
        invariant
            i <= referenced@.len(),
            forall|k: int| 0 <= k < i ==> names_contain(available@, decimal(#[trigger] referenced@[k] as nat)),
        decreases referenced@.len() - i,
    {
        let name = u64_to_decimal(referenced[i]);
        if !contains_name(available, name.as_str()) {
            return Some(referenced[i]);
        }
        i = i + 1;
    }
    None
}

/// The error a refresh stops with when the cloud lacks referenced audio.
pub fn missing_audio_error(sample_id: u64) -> (r: String)
    ensures
        r@ == "Cloud project is missing referenced audio: "@ + decimal(sample_id as nat),
{
    let mut message = String::from_str("Cloud project is missing referenced audio: ");
    let id = u64_to_decimal(sample_id);
    message.append(id.as_str());
    message
}

/// What the samples cache holds of a song's sample.
#[derive(Debug, Clone, Copy, PartialEq, Eq, Structural)]
pub struct CachedSample {
    pub id: u64,
    /// The cache knows the sample.
    pub in_cache: bool,
    /// Its audio is in the cache.
    pub cached: bool,
}

/// The samples to copy into a saved project, in song order, and the error
/// that stops the copying: a song's sample that the project lacks is copied
/// from the cache, which must hold its audio.
pub open spec fn copy_plan_spec(songs: Seq<Option<CachedSample>>, project_samples: Seq<String>) -> (
    Seq<u64>,
    Option<Seq<char>>,
)
    decreases songs.len(),
{
    if songs.len() == 0 {
        (Seq::empty(), None)
    } else {
        let (copies, error) = copy_plan_spec(songs.drop_last(), project_samples);
        if error is Some {
            (copies, error)
        } else {
            match songs.last() {
                None => (copies, None),
                Some(s) => if names_contain(project_samples, decimal(s.id as nat)) {
                    (copies, None)
                } else if !s.in_cache {
                    (copies, Some("Missing sample in cache: "@ + decimal(s.id as nat)))
                } else if !s.cached {
                    (copies, Some("Sample isn't cached: "@ + decimal(s.id as nat)))
                } else {
                    (copies.push(s.id), None)
                },
            }
        }
    }
}

fn text_with_id(prefix: &str, id: u64) -> (r: String)
    ensures
        r@ == prefix@ + decimal(id as nat),
{
    let mut m = String::from_str(prefix);
    m.append(u64_to_decimal(id).as_str());
    m
}

/// The samples to copy into a saved project and the error that stops the
/// copying, if any (the samples before it are copied).
pub fn copy_plan(songs: &[Option<CachedSample>], project_samples: &[String]) -> (r: (Vec<u64>, Option<String>))
    ensures
        (r.0@, match r.1 {
            Some(e) => Some(e@),
            None => None,
        }) == copy_plan_spec(songs@, project_samples@),
{
    let mut copies: Vec<u64> = Vec::new();
    let mut i: usize = 0;
    while i < songs.len()
        invariant
            i <= songs@.len(),
            copy_plan_spec(songs@.take(i as int), project_samples@) == (copies@, None::<Seq<char>>),
        decreases songs@.len() - i,
    {
        assert(songs@.take(i + 1).drop_last() =~= songs@.take(i as int));
        assert(songs@.take(i + 1).last() == songs@[i as int]);
        match songs[i] {
            Some(s) => {
                let name = u64_to_decimal(s.id);
                if !contains_name(project_samples, name.as_str()) {
                    if !s.in_cache {
                        proof {
                            lemma_copy_plan_stops(songs@, project_samples@, i + 1);
                        }
                        return (copies, Some(text_with_id("Missing sample in cache: ", s.id)));
                    }
                    if !s.cached {
                        proof {
                            lemma_copy_plan_stops(songs@, project_samples@, i + 1);
                        }
                        return (copies, Some(text_with_id("Sample isn't cached: ", s.id)));
                    }
                    copies.push(s.id);
                }
            },
            None => {},
        }
        i = i + 1;
    }
    assert(songs@.take(i as int) =~= songs@);
    (copies, None)
}

/// Once the copying has stopped, later songs change nothing.
proof fn lemma_copy_plan_stops(songs: Seq<Option<CachedSample>>, project_samples: Seq<String>, i: int)
    requires
        0 <= i <= songs.len(),
        copy_plan_spec(songs.take(i), project_samples).1 is Some,
    ensures
        copy_plan_spec(songs, project_samples) == copy_plan_spec(songs.take(i), project_samples),
    decreases songs.len() - i,
{
    if i < songs.len() {
        assert(songs.take(i + 1).drop_last() =~= songs.take(i));
        lemma_copy_plan_stops(songs, project_samples, i + 1);
    } else {
        assert(songs.take(i) =~= songs);
    }
}

/// The referenced samples to fetch into the cache when a project loads, in
/// the order given, and the error that stops the loading: every referenced
/// sample must be among the project's samples; those the cache already
/// knows are not fetched.
pub open spec fn load_plan_spec(referenced: Seq<u64>, in_cache: Seq<bool>, project_samples: Seq<String>) -> (
    Seq<u64>,
    Option<Seq<char>>,
)
    decreases referenced.len(),
{
    if referenced.len() == 0 || in_cache.len() != referenced.len() {
        (Seq::empty(), None)
    } else {
        let (fetches, error) = load_plan_spec(referenced.drop_last(), in_cache.drop_last(), project_samples);
        let id = referenced.last();
        if error is Some {
            (fetches, error)
        } else if !names_contain(project_samples, decimal(id as nat)) {
            (fetches, Some("Project is missing referenced audio: "@ + decimal(id as nat)))
        } else if in_cache.last() {
            (fetches, None)
        } else {
            (fetches.push(id), None)
        }
    }
}

proof fn lemma_load_plan_stops(referenced: Seq<u64>, in_cache: Seq<bool>, project_samples: Seq<String>, i: int)
    requires
        0 <= i <= referenced.len(),
        in_cache.len() == referenced.len(),
        load_plan_spec(referenced.take(i), in_cache.take(i), project_samples).1 is Some,
    ensures
        load_plan_spec(referenced, in_cache, project_samples) == load_plan_spec(
            referenced.take(i),
            in_cache.take(i),
            project_samples,
        ),
    decreases referenced.len() - i,
{
    if i < referenced.len() {
        assert(referenced.take(i + 1).drop_last() =~= referenced.take(i));
        assert(in_cache.take(i + 1).drop_last() =~= in_cache.take(i));
        lemma_load_plan_stops(referenced, in_cache, project_samples, i + 1);
    } else {
        assert(referenced.take(i) =~= referenced);
        assert(in_cache.take(i) =~= in_cache);
    }
}

/// The samples to fetch when a project loads and the error that stops the
/// loading, if any (`in_cache[k]` tells whether the cache knows `referenced[k]`).
pub fn load_plan(referenced: &[u64], in_cache: &[bool], project_samples: &[String]) -> (r: (Vec<u64>, Option<String>))
    requires
        in_cache@.len() == referenced@.len(),
    ensures
        (r.0@, match r.1 {
            Some(e) => Some(e@),
            None => None,
        }) == load_plan_spec(referenced@, in_cache@, project_samples@),
{
    let mut fetches: Vec<u64> = Vec::new();
    let mut i: usize = 0;
    while i < referenced.len()
        invariant
            i <= referenced@.len(),
            in_cache@.len() == referenced@.len(),
            load_plan_spec(referenced@.take(i as int), in_cache@.take(i as int), project_samples@) == (
                fetches@,
                None::<Seq<char>>,
            ),
        decreases referenced@.len() - i,
    {
        assert(referenced@.take(i + 1).drop_last() =~= referenced@.take(i as int));
        assert(in_cache@.take(i + 1).drop_last() =~= in_cache@.take(i as int));
        assert(referenced@.take(i + 1).last() == referenced@[i as int]);
        assert(in_cache@.take(i + 1).last() == in_cache@[i as int]);
        let id = referenced[i];
        let name = u64_to_decimal(id);
        if !contains_name(project_samples, name.as_str()) {
            proof {
                lemma_load_plan_stops(referenced@, in_cache@, project_samples@, i + 1);
            }
            return (fetches, Some(text_with_id("Project is missing referenced audio: ", id)));
        }
        if !in_cache[i] {
            fetches.push(id);
        }
        i = i + 1;
    }
    assert(referenced@.take(i as int) =~= referenced@);
    assert(in_cache@.take(i as int) =~= in_cache@);
    (fetches, None)
}

/// A change to the directories of a project during a refresh.
#[derive(Debug, Clone, Copy, PartialEq, Eq, Structural)]
pub enum DirectoryOp {
    /// Remove the backup.
    RemoveBackup,
    /// Move the backup to the project's place.
    RestoreBackup,
    /// Move the project to the backup's place.
    BackupProject,
}

/// What sits in the project's place, in its backup's place and in the
/// staging place: each absent or holding some project.
pub struct Places<T> {
    pub project: Option<T>,
    pub backup: Option<T>,
    pub staged: Option<T>,
}

/// A change that succeeds.
pub open spec fn apply_op<T>(op: DirectoryOp, p: Places<T>) -> Places<T> {
    match op {
        DirectoryOp::RemoveBackup => Places { backup: None, ..p },
        DirectoryOp::RestoreBackup => Places { project: p.backup, backup: None, ..p },
        DirectoryOp::BackupProject => Places { backup: p.project, project: None, ..p },
    }
}

pub open spec fn apply_ops<T>(ops: Seq<DirectoryOp>, p: Places<T>) -> Places<T>
    decreases ops.len(),
{
    if ops.len() == 0 {
        p
    } else {
        apply_ops(ops.drop_first(), apply_op(ops[0], p))
    }
}

/// Moving the staged project into the project's place, when it succeeds.
pub open spec fn install<T>(p: Places<T>) -> Places<T> {
    Places { project: p.staged, staged: None, ..p }
}

/// Before the staged project is installed: a backup left by an interrupted
/// refresh is removed where the project exists and put back otherwise; then
/// the project, if any, is moved to the backup's place.
pub open spec fn spec_ops_before_install(backup_exists: bool, project_exists: bool) -> Seq<DirectoryOp> {
    if backup_exists {
        if project_exists {
            seq![DirectoryOp::RemoveBackup, DirectoryOp::BackupProject]
        } else {
            seq![DirectoryOp::RestoreBackup, DirectoryOp::BackupProject]
        }
    } else if project_exists {
        seq![DirectoryOp::BackupProject]
    } else {
        Seq::empty()
    }
}

/// After the install: the backup is removed where it succeeded and put back
/// where it failed (each only where there is a backup).
pub open spec fn spec_ops_after_install(installed: bool, backup_exists: bool) -> Seq<DirectoryOp> {
    if !backup_exists {
        Seq::empty()
    } else if installed {
        seq![DirectoryOp::RemoveBackup]
    } else {
        seq![DirectoryOp::RestoreBackup]
    }
}

/// The changes made before the staged project is installed, given whether
/// a backup and the project exist.
pub fn ops_before_install(backup_exists: bool, project_exists: bool) -> (r: Vec<DirectoryOp>)
    ensures
        r@ == spec_ops_before_install(backup_exists, project_exists),
{
    let mut ops: Vec<DirectoryOp> = Vec::new();
    if backup_exists {
        if project_exists {
            ops.push(DirectoryOp::RemoveBackup);
        } else {
            ops.push(DirectoryOp::RestoreBackup);
        }
        ops.push(DirectoryOp::BackupProject);
    } else if project_exists {
        ops.push(DirectoryOp::BackupProject);
    }
    assert(ops@ =~= spec_ops_before_install(backup_exists, project_exists));
    ops
}

/// The changes made after the install, given whether it succeeded and
/// whether a backup exists.
pub fn ops_after_install(installed: bool, backup_exists: bool) -> (r: Vec<DirectoryOp>)
    ensures
        r@ == spec_ops_after_install(installed, backup_exists),
{
    let mut ops: Vec<DirectoryOp> = Vec::new();
    if backup_exists {
        if installed {
            ops.push(DirectoryOp::RemoveBackup);
        } else {
            ops.push(DirectoryOp::RestoreBackup);
        }
    }
    assert(ops@ =~= spec_ops_after_install(installed, backup_exists));
    ops
}

/// A refresh replaces the local project as one step: where every change
/// succeeds, the staged project takes the project's place and no backup is
/// left; where installing it fails, the project's place holds again what
/// it held (or, after an interrupted refresh, the project that was backed
/// up), and no backup is left.
pub proof fn lemma_replacement_is_transactional<T>(start: Places<T>, installed: bool)
    requires
        start.staged is Some,
    ensures
        ({
            let before = apply_ops(spec_ops_before_install(start.backup is Some, start.project is Some), start);
            let after_install = if installed {
                install(before)
            } else {
                before
            };
            let end = apply_ops(spec_ops_after_install(installed, after_install.backup is Some), after_install);
            &&& end.backup is None
            &&& installed ==> end.project == start.staged
            &&& !installed ==> end.project == (if start.project is Some {
                start.project
            } else {
                start.backup
            })
        }),
{
    let ops = spec_ops_before_install(start.backup is Some, start.project is Some);
    reveal_with_fuel(apply_ops, 3);
    let before = apply_ops(ops, start);
    if start.backup is Some {
        assert(ops.drop_first().drop_first() =~= Seq::<DirectoryOp>::empty());
        assert(ops.drop_first() =~= seq![DirectoryOp::BackupProject]);
    } else if start.project is Some {
        assert(ops.drop_first() =~= Seq::<DirectoryOp>::empty());
    }
    let after_install = if installed {
        install(before)
    } else {
        before
    };
    let post = spec_ops_after_install(installed, after_install.backup is Some);
    if post.len() > 0 {
        assert(post.drop_first() =~= Seq::<DirectoryOp>::empty());
    }
}

} // verus!
