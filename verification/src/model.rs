//! The schema Acre persists: repository state, configuration, and the records inside them.
//! Paths are held as text.

use vstd::prelude::*;

verus! {

/// Untrusted means a fork pull request: no seed files in, no caches out to the pool.
#[derive(Debug, Clone, Copy, PartialEq, Eq, Structural)]
pub enum TrustLevel {
    Trusted,
    Untrusted,
}

#[derive(Debug, Clone, Copy, PartialEq, Eq, Structural)]
pub enum TargetKind {
    Worktree,
    LocalBranch,
    RemoteBranch,
    PullRequest,
    NewBranch,
}

#[derive(Debug, Clone)]
pub struct PullRequestTarget {
    pub number: u64,
    pub title: String,
    pub author: String,
    pub url: String,
    pub base_ref_name: String,
    pub head_ref_name: String,
    pub head_oid: String,
    pub repository: String,
    pub cross_repository: bool,
}

#[derive(Debug, Clone)]
pub struct StoredTarget {
    pub kind: TargetKind,
    pub display_name: String,
    pub oid: String,
    pub local_branch: Option<String>,
    pub remote_branch: Option<String>,
    pub pull_request: Option<PullRequestTarget>,
}

/// Ready: required roots present. Warm: some caches. Cold: nothing. Unknown: recovered,
/// unverified.
#[derive(Debug, Clone, Copy, PartialEq, Eq, Structural)]
pub enum EnvironmentState {
    Ready,
    Warm,
    Cold,
    Unknown,
}

impl EnvironmentState {
    /// The lower-case name shown to users and stored on disk.
    pub fn label(&self) -> (s: &'static str)
        ensures
            s@ == match *self {
                EnvironmentState::Ready => "ready"@,
                EnvironmentState::Warm => "warm"@,
                EnvironmentState::Cold => "cold"@,
                EnvironmentState::Unknown => "unknown"@,
            },
    {
        match self {
            EnvironmentState::Ready => "ready",
            EnvironmentState::Warm => "warm",
            EnvironmentState::Cold => "cold",
            EnvironmentState::Unknown => "unknown",
        }
    }
}

/// How caches arrived: reflinked, copied, reused in place, or never cloned.
#[derive(Debug, Clone, Copy, PartialEq, Eq, Structural)]
pub enum CloneMode {
    Reflink,
    Copy,
    Reuse,
    NotCloned,
}

#[derive(Debug, Clone)]
pub struct EnvironmentSnapshot {
    pub fingerprint: String,
    pub state: EnvironmentState,
    pub cache_roots: Vec<String>,
    pub required_roots: Vec<String>,
    pub present_roots: Vec<String>,
    pub source: Option<String>,
    pub cloned_files: Option<u64>,
    pub cloned_bytes: Option<u64>,
    pub clone_mode: Option<CloneMode>,
}

#[derive(Debug, Clone, Copy, PartialEq, Eq, Structural)]
pub enum WorkspaceOwnership {
    Acre,
    External,
}

impl WorkspaceOwnership {
    /// The lower-case name shown to users and stored on disk.
    pub fn label(&self) -> (s: &'static str)
        ensures
            s@ == match *self {
                WorkspaceOwnership::Acre => "acre"@,
                WorkspaceOwnership::External => "external"@,
            },
    {
        match self {
            WorkspaceOwnership::Acre => "acre",
            WorkspaceOwnership::External => "external",
        }
    }
}

/// Idle is a pool slot; Retained is a recovered workspace kept out of caution.
#[derive(Debug, Clone, Copy, PartialEq, Eq, Structural)]
pub enum WorkspaceStatus {
    Active,
    Idle,
    Retained,
    Broken,
}

#[derive(Debug, Clone)]
pub struct RepositoryState {
    pub schema_version: u32,
    pub repository_id: String,
    pub repository_common_dir: String,
    pub repository_name: String,
    pub updated_at: String,
    pub slots: Vec<WorkspaceSlot>,
    pub workspaces: Vec<WorkspaceRecord>,
    pub leases: Vec<WorkspaceLease>,
}

#[derive(Debug, Clone)]
pub struct WorkspaceSlot {
    pub id: String,
    pub path: String,
    pub head: Option<String>,
    pub status: WorkspaceStatus,
    pub environment: Option<EnvironmentSnapshot>,
    pub created_at: String,
    pub last_used_at: String,
}

#[derive(Debug, Clone)]
pub struct WorkspaceRecord {
    pub id: String,
    pub repository_id: String,
    pub path: String,
    pub ownership: WorkspaceOwnership,
    pub status: WorkspaceStatus,
    /// `None` for external and recovered workspaces, which are never pooled.
    pub slot_id: Option<String>,
    pub target: StoredTarget,
    pub trust: TrustLevel,
    pub environment: Option<EnvironmentSnapshot>,
    /// Ignored paths present at activation; anything beyond these blocks `done`.
    pub baseline_ignored: Vec<String>,
    pub seeded_paths: Vec<String>,
    pub baseline_seed_files: Vec<SeedFileSnapshot>,
    pub activated_at: String,
    pub last_used_at: String,
}

#[derive(Debug, Clone)]
pub struct SeedFileSnapshot {
    pub path: String,
    pub hash: String,
}

/// Who is using a workspace; `done` refuses while another holder remains.
#[derive(Debug, Clone)]
pub struct WorkspaceLease {
    pub id: String,
    pub workspace_id: String,
    pub holder: String,
    pub pid: Option<u32>,
    pub session_id: Option<String>,
    pub acquired_at: String,
    pub updated_at: String,
}

#[derive(Debug, Clone)]
pub struct PendingDoneOperation {
    pub schema_version: u32,
    pub kind: String,
    pub token: String,
    pub repository_common_dir: String,
    pub workspace_id: String,
    pub expected_head: String,
    /// Checked when the resumed `done` comes back: the tree must be exactly as assessed.
    pub expected_status_fingerprint: String,
    pub safe_destination: String,
    pub current_session_id: Option<String>,
    pub created_at: String,
}

#[derive(Debug, Clone)]
pub struct KnownRepository {
    pub id: String,
    pub name: String,
    pub common_dir: String,
    pub top_level: String,
    pub remote_url: Option<String>,
    pub last_seen_at: String,
}

#[derive(Debug, Clone)]
pub struct ShellSessionState {
    pub schema_version: u32,
    pub id: String,
    pub current_directory: Option<String>,
    pub previous_directory: Option<String>,
    pub pid: Option<u32>,
    pub updated_at: String,
}

#[derive(Debug, Clone)]
pub struct AcreConfig {
    pub schema_version: u32,
    pub root: String,
    pub pool: PoolConfig,
    pub environment: EnvironmentConfig,
    pub safety: SafetyConfig,
}

#[derive(Debug, Clone)]
pub struct PoolConfig {
    pub min_slots: usize,
    pub max_slots: usize,
    pub replenish: bool,
    pub idle_retention_days: u64,
}

#[derive(Debug, Clone)]
pub struct EnvironmentConfig {
    pub cache_roots: Vec<String>,
    pub required_roots: Vec<String>,
    pub seed_files: Vec<String>,
    pub excluded_roots: Vec<String>,
}

/// Checked in as `.acre.json`; data only, so a branch can widen cache roots but never run
/// anything.
#[derive(Debug, Clone)]
pub struct RepoConfig {
    pub environment: Option<RepoEnvironmentConfig>,
}

#[derive(Debug, Clone)]
pub struct RepoEnvironmentConfig {
    pub cache_roots: Vec<String>,
    pub required_roots: Vec<String>,
    pub seed_files: Vec<String>,
    pub excluded_roots: Vec<String>,
}

#[derive(Debug, Clone)]
pub struct SafetyConfig {
    pub detect_processes: bool,
    pub block_unknown_ignored_files: bool,
}

} // verus!
