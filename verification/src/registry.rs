//! Project registry: the projects that are online, their manifests, their caches and the
//! paths of their sockets.

use crate::audit::{AuditEvent, EventModel, ManifestInvalidEvent, Timestamp};
use crate::cache::{self, BoundedCache, CacheContents};
use crate::clock::{Moment, Span};
use crate::fetch::{self, dispatch_project, finish_get, BackendReply, GetVerdict, ProjectStep};
use crate::manifest::{self, Manifest, ManifestError, ManifestFault, ManifestModel};
use crate::paths::{self, join};
use crate::proto::admin::AdminErrorCode;
use crate::proto::project::ProjectRequest;
use crate::sockets::{SocketFault, SocketFaultView};
use crate::text::{copy_text, same_text};
use vstd::prelude::*;
use vstd::string::*;

verus! {

/// The mode of a project's socket.
pub const PROJECT_SOCKET_MODE: u32 = 0o660;

/// Why an operation on the registry failed.
#[derive(Debug)]
pub enum RegistryError {
    ProjectExists(String),
    ProjectUnknown(String),
    ManifestNotFound(ManifestError),
    ManifestInvalid(ManifestError),
    BindSocket { path: String, message: String },
    SocketPerms { path: String, message: String },
}

/// The model of a `RegistryError`.
pub enum RegistryFault {
    ProjectExists(Seq<char>),
    ProjectUnknown(Seq<char>),
    ManifestNotFound(ManifestFault),
    ManifestInvalid(ManifestFault),
    BindSocket(Seq<char>, Seq<char>),
    SocketPerms(Seq<char>, Seq<char>),
}

impl View for RegistryError {
    type V = RegistryFault;

    open spec fn view(&self) -> RegistryFault {
        match *self {
            RegistryError::ProjectExists(name) => RegistryFault::ProjectExists(name@),
            RegistryError::ProjectUnknown(name) => RegistryFault::ProjectUnknown(name@),
            RegistryError::ManifestNotFound(e) => RegistryFault::ManifestNotFound(e@),
            RegistryError::ManifestInvalid(e) => RegistryFault::ManifestInvalid(e@),
            RegistryError::BindSocket { path, message } => RegistryFault::BindSocket(
                path@,
                message@,
            ),
            RegistryError::SocketPerms { path, message } => RegistryFault::SocketPerms(
                path@,
                message@,
            ),
        }
    }
}

/// The code by which the admin socket answers a failure.
pub open spec fn fault_code(fault: RegistryFault) -> AdminErrorCode {
    match fault {
        RegistryFault::ProjectExists(_) => AdminErrorCode::ProjectExists,
        RegistryFault::ProjectUnknown(_) => AdminErrorCode::ProjectUnknown,
        RegistryFault::ManifestNotFound(_) => AdminErrorCode::ManifestNotFound,
        RegistryFault::ManifestInvalid(_) => AdminErrorCode::ManifestInvalid,
        RegistryFault::BindSocket(_, _) => AdminErrorCode::InternalError,
        RegistryFault::SocketPerms(_, _) => AdminErrorCode::InternalError,
    }
}

impl RegistryError {
    /// The code by which the admin socket answers this failure.
    pub fn code(&self) -> (r: AdminErrorCode)
        ensures
            r == fault_code(self@),
    {
        match self {
            RegistryError::ProjectExists(_) => AdminErrorCode::ProjectExists,
            RegistryError::ProjectUnknown(_) => AdminErrorCode::ProjectUnknown,
            RegistryError::ManifestNotFound(_) => AdminErrorCode::ManifestNotFound,
            RegistryError::ManifestInvalid(_) => AdminErrorCode::ManifestInvalid,
            RegistryError::BindSocket { .. } => AdminErrorCode::InternalError,
            RegistryError::SocketPerms { .. } => AdminErrorCode::InternalError,
        }
    }
}

/// What the audit log is told of a failure: of a manifest that is missing or refused, that it
/// is and why, and of no other.
pub open spec fn refusal(
    fault: RegistryFault,
    project: Seq<char>,
    manifest_path: Seq<char>,
) -> Option<EventModel> {
    match fault {
        RegistryFault::ManifestNotFound(e) => Some(
            EventModel::ManifestInvalid(project, manifest_path, manifest::refusal_text(e)),
        ),
        RegistryFault::ManifestInvalid(e) => Some(
            EventModel::ManifestInvalid(project, manifest_path, manifest::refusal_text(e)),
        ),
        _ => None,
    }
}

/// The event that a failure leaves in the audit log: one for a manifest that is missing or
/// refused, and none for any other.
pub fn refusal_event(
    e: &RegistryError,
    project: &str,
    manifest_path: &str,
    timestamp: Timestamp,
) -> (r: Option<AuditEvent>)
    ensures
        match r {
            Some(event) => refusal(e@, project@, manifest_path@) == Some(event.told())
                && event.stamp() == timestamp,
            None => refusal(e@, project@, manifest_path@) is None,
        },
        r is Some <==> (e is ManifestNotFound || e is ManifestInvalid),
{
    let refused = match e {
        RegistryError::ManifestNotFound(refused) => refused,
        RegistryError::ManifestInvalid(refused) => refused,
        _ => return None,
    };
    Some(
        AuditEvent::ManifestInvalid(
            ManifestInvalidEvent {
                timestamp,
                project: copy_text(project),
                manifest_path: copy_text(manifest_path),
                error: refused.text(),
            },
        ),
    )
}

/// A project that is online.
#[derive(Debug)]
pub struct Project {
    pub name: String,
    pub project_path: String,
    pub socket_path: String,
    pub manifest_path: String,
    pub manifest: Manifest,
    /// The project's secrets that were fetched; gone with the project.
    pub cache: BoundedCache,
}

/// The model of a `Project`, but for its name.
pub struct ProjectModel {
    pub project_path: Seq<char>,
    pub socket_path: Seq<char>,
    pub manifest_path: Seq<char>,
    pub manifest: ManifestModel,
    pub cache: CacheContents,
    pub cache_bound: nat,
    pub cache_lifetime: Span,
}

impl View for Project {
    type V = ProjectModel;

    open spec fn view(&self) -> ProjectModel {
        ProjectModel {
            project_path: self.project_path@,
            socket_path: self.socket_path@,
            manifest_path: self.manifest_path@,
            manifest: self.manifest@,
            cache: self.cache@,
            cache_bound: self.cache.bound(),
            cache_lifetime: self.cache.lifetime(),
        }
    }
}

impl Project {
    /// The manifest that is in effect.
    pub fn manifest(&self) -> (r: &Manifest)
        ensures
            r@ == self@.manifest,
    {
        &self.manifest
    }
}

/// The cache bounds that hold where a manifest sets none.
#[derive(Debug, Clone, Copy, PartialEq, Eq, Structural)]
pub struct CacheDefaults {
    pub max_entries: u32,
    pub ttl: Span,
}

/// The largest number of entries of a project's cache. A manifest can lower the default
/// and never raises it.
pub open spec fn cache_max(manifest: ManifestModel, defaults: CacheDefaults) -> nat {
    match manifest.max_entries {
        Some(n) => if n <= defaults.max_entries {
            n as nat
        } else {
            defaults.max_entries as nat
        },
        None => defaults.max_entries as nat,
    }
}

/// The time to live in a project's cache. A manifest can lower the default and never
/// raises it.
pub open spec fn cache_ttl(manifest: ManifestModel, defaults: CacheDefaults) -> Span {
    match manifest.ttl_seconds {
        Some(secs) => if Span::seconds(secs as int).nanos <= defaults.ttl.nanos {
            Span::seconds(secs as int)
        } else {
            defaults.ttl
        },
        None => defaults.ttl,
    }
}

/// Works out the bounds of a project's cache.
pub fn resolve_cache_bounds(manifest: &Manifest, defaults: CacheDefaults) -> (r: (usize, Span))
    ensures
        r.0 == cache_max(manifest@, defaults),
        r.1 == cache_ttl(manifest@, defaults),
{
    let max: u32 = match manifest.cache.max_entries {
        Some(n) => if n <= defaults.max_entries {
            n
        } else {
            defaults.max_entries
        },
        None => defaults.max_entries,
    };
    let ttl = match manifest.cache.ttl_seconds {
        Some(secs) => {
            let span = Span::from_secs(secs as u64);
            if span.nanos <= defaults.ttl.nanos {
                span
            } else {
                defaults.ttl
            }
        },
        None => defaults.ttl,
    };
    (max as usize, ttl)
}

/// What loading a manifest came to.
pub type LoadView = Result<(ManifestModel, Seq<char>), ManifestFault>;

pub open spec fn load_view(loaded: Result<(Manifest, String), ManifestError>) -> LoadView {
    match loaded {
        Ok((manifest, path)) => Ok((manifest@, path@)),
        Err(e) => Err(e@),
    }
}

/// What binding a socket came to.
pub open spec fn bound_view(bound: Result<(), SocketFault>) -> Result<(), SocketFaultView> {
    match bound {
        Ok(_) => Ok(()),
        Err(fault) => Err(fault@),
    }
}

/// The manifest to take for the project `name`, given what loading it came to: one that
/// loaded and carries that name.
pub open spec fn accepted_manifest(name: Seq<char>, loaded: LoadView) -> Result<
    (ManifestModel, Seq<char>),
    RegistryFault,
> {
    match loaded {
        Err(fault) => match fault {
            ManifestFault::NotFound(_) => Err(RegistryFault::ManifestNotFound(fault)),
            _ => Err(RegistryFault::ManifestInvalid(fault)),
        },
        Ok((manifest, path)) => if manifest.name != name {
            Err(
                RegistryFault::ManifestInvalid(
                    ManifestFault::NameDirMismatch(manifest.name, name),
                ),
            )
        } else {
            Ok((manifest, path))
        },
    }
}

/// Where the socket of the project `name` stands.
pub open spec fn project_socket(socket_dir: Seq<char>, name: Seq<char>) -> Seq<char> {
    paths::joined(socket_dir, name + ".sock"@)
}

/// What has to be known to take projects on.
pub struct RegistryConfig {
    pub socket_dir: Seq<char>,
    pub defaults: CacheDefaults,
}

/// The projects that are online, by name.
pub type Projects = Map<Seq<char>, ProjectModel>;

/// What registering `name` comes to: the project as it goes online, or why it does not.
/// Its manifest is looked at first, then whether it is online already, then its socket.
pub open spec fn register_outcome(
    projects: Projects,
    config: RegistryConfig,
    name: Seq<char>,
    project_path: Seq<char>,
    loaded: LoadView,
    bound: Result<(), SocketFaultView>,
) -> Result<ProjectModel, RegistryFault> {
    match accepted_manifest(name, loaded) {
        Err(fault) => Err(fault),
        Ok((manifest, manifest_path)) => if projects.contains_key(name) {
            Err(RegistryFault::ProjectExists(name))
        } else {
            let socket_path = project_socket(config.socket_dir, name);
            match bound {
                Err(SocketFaultView::Bind(message)) => Err(
                    RegistryFault::BindSocket(socket_path, message),
                ),
                Err(SocketFaultView::Mode(message)) => Err(
                    RegistryFault::SocketPerms(socket_path, message),
                ),
                Ok(_) => Ok(
                    ProjectModel {
                        project_path,
                        socket_path,
                        manifest_path,
                        manifest,
                        cache: CacheContents::empty(),
                        cache_bound: cache_max(manifest, config.defaults),
                        cache_lifetime: cache_ttl(manifest, config.defaults),
                    },
                ),
            }
        },
    }
}

/// What reloading `name` comes to: the project with its new manifest, or why it keeps the
/// one that it has.
pub open spec fn reload_outcome(
    projects: Projects,
    config: RegistryConfig,
    name: Seq<char>,
    loaded: LoadView,
) -> Result<ProjectModel, RegistryFault> {
    if !projects.contains_key(name) {
        Err(RegistryFault::ProjectUnknown(name))
    } else {
        match accepted_manifest(name, loaded) {
            Err(fault) => Err(fault),
            Ok((manifest, _)) => Ok(
                ProjectModel {
                    manifest,
                    cache_bound: cache_max(manifest, config.defaults),
                    cache_lifetime: cache_ttl(manifest, config.defaults),
                    ..projects[name]
                },
            ),
        }
    }
}

/// The projects after an operation on `name` that came to `outcome`.
pub open spec fn after(
    projects: Projects,
    name: Seq<char>,
    outcome: Result<ProjectModel, RegistryFault>,
) -> Projects {
    match outcome {
        Ok(project) => projects.insert(name, project),
        Err(_) => projects,
    }
}

spec fn names(projects: Seq<Project>) -> Seq<Seq<char>> {
    Seq::new(projects.len(), |i: int| projects[i].name@)
}

spec fn models(projects: Seq<Project>) -> Projects {
    Map::new(
        |name: Seq<char>| names(projects).contains(name),
        |name: Seq<char>| projects[names(projects).index_of(name)]@,
    )
}

spec fn sound(projects: Seq<Project>) -> bool {
    &&& forall|i: int, j: int|
        0 <= i < j < projects.len() ==> (#[trigger] projects[i]).name@ != (
        #[trigger] projects[j]).name@
    &&& forall|i: int| 0 <= i < projects.len() ==> (#[trigger] projects[i]).cache.wf()
}

proof fn lemma_model_at(projects: Seq<Project>, i: int)
    requires
        sound(projects),
        0 <= i < projects.len(),
    ensures
        models(projects).contains_key(projects[i].name@),
        models(projects)[projects[i].name@] == projects[i]@,
{
    let name = projects[i].name@;
    assert(names(projects)[i] == name);
    assert(names(projects).contains(name));
    let j = names(projects).index_of(name);
    assert(names(projects)[j] == name);
    if j < i {
        assert(projects[j].name@ != projects[i].name@);
    } else if i < j {
        assert(projects[i].name@ != projects[j].name@);
    }
}

proof fn lemma_key_at(projects: Seq<Project>, name: Seq<char>) -> (i: int)
    requires
        models(projects).contains_key(name),
    ensures
        0 <= i < projects.len(),
        projects[i].name@ == name,
{
    let i = names(projects).index_of(name);
    assert(names(projects)[i] == name);
    i
}

proof fn lemma_absent(projects: Seq<Project>, name: Seq<char>)
    requires
        forall|i: int| 0 <= i < projects.len() ==> (#[trigger] projects[i]).name@ != name,
    ensures
        !models(projects).contains_key(name),
{
    assert forall|i: int| 0 <= i < projects.len() implies names(projects)[i] != name by {
        assert(projects[i].name@ != name);
    }
}

proof fn lemma_pushed(projects: Seq<Project>, project: Project)
    requires
        sound(projects),
        project.cache.wf(),
        !models(projects).contains_key(project.name@),
    ensures
        sound(projects.push(project)),
        models(projects.push(project)) == models(projects).insert(project.name@, project@),
{
    let longer = projects.push(project);
    assert forall|a: int, b: int| 0 <= a < b < longer.len() implies (#[trigger] longer[a]).name@
        != (#[trigger] longer[b]).name@ by {
        if b < projects.len() {
            assert(projects[a].name@ != projects[b].name@);
        } else {
            lemma_model_at(projects, a);
        }
    }
    assert forall|a: int| 0 <= a < longer.len() implies (#[trigger] longer[a]).cache.wf() by {
        if a < projects.len() {
            assert(projects[a].cache.wf());
        }
    }
    let left = models(longer);
    let right = models(projects).insert(project.name@, project@);
    assert(longer[projects.len() as int] == project);
    lemma_model_at(longer, projects.len() as int);
    assert forall|name: Seq<char>|
        #![trigger left.dom().contains(name)]
        #![trigger right.dom().contains(name)]
        left.dom().contains(name) == right.dom().contains(name) && (left.dom().contains(name)
            ==> left[name] == right[name]) by {
        if left.contains_key(name) {
            let a = lemma_key_at(longer, name);
            lemma_model_at(longer, a);
            if a < projects.len() {
                lemma_model_at(projects, a);
                assert(longer[a] == projects[a]);
            }
        }
        if models(projects).contains_key(name) {
            let a = lemma_key_at(projects, name);
            assert(longer[a] == projects[a]);
            lemma_model_at(longer, a);
        }
    }
    assert(left.dom() =~= right.dom());
    assert(left =~= right);
}

proof fn lemma_removed(projects: Seq<Project>, i: int)
    requires
        sound(projects),
        0 <= i < projects.len(),
    ensures
        sound(projects.remove(i)),
        models(projects.remove(i)) == models(projects).remove(projects[i].name@),
{
    let rest = projects.remove(i);
    let gone = projects[i].name@;
    assert forall|a: int, b: int| 0 <= a < b < rest.len() implies (#[trigger] rest[a]).name@ != (
    #[trigger] rest[b]).name@ by {
        let x = if a < i {
            a
        } else {
            a + 1
        };
        let y = if b < i {
            b
        } else {
            b + 1
        };
        assert(rest[a] == projects[x] && rest[b] == projects[y]);
        assert(projects[x].name@ != projects[y].name@);
    }
    assert forall|a: int| 0 <= a < rest.len() implies (#[trigger] rest[a]).cache.wf() by {
        let x = if a < i {
            a
        } else {
            a + 1
        };
        assert(rest[a] == projects[x]);
        assert(projects[x].cache.wf());
    }
    let left = models(rest);
    let right = models(projects).remove(gone);
    assert forall|name: Seq<char>|
        #![trigger left.dom().contains(name)]
        #![trigger right.dom().contains(name)]
        left.dom().contains(name) == right.dom().contains(name) && (left.dom().contains(name)
            ==> left[name] == right[name]) by {
        if left.contains_key(name) {
            let a = lemma_key_at(rest, name);
            let x = if a < i {
                a
            } else {
                a + 1
            };
            assert(rest[a] == projects[x]);
            lemma_model_at(rest, a);
            lemma_model_at(projects, x);
            if x < i {
                assert(projects[x].name@ != projects[i].name@);
            } else {
                assert(projects[i].name@ != projects[x].name@);
            }
        }
        if right.contains_key(name) {
            let x = lemma_key_at(projects, name);
            let a = if x < i {
                x
            } else {
                x - 1
            };
            assert(rest[a] == projects[x]);
            lemma_model_at(rest, a);
        }
    }
    assert(left.dom() =~= right.dom());
    assert(left =~= right);
}

proof fn lemma_updated(projects: Seq<Project>, i: int, project: Project)
    requires
        sound(projects),
        0 <= i < projects.len(),
        project.cache.wf(),
        project.name@ == projects[i].name@,
    ensures
        sound(projects.update(i, project)),
        models(projects.update(i, project)) == models(projects).insert(project.name@, project@),
{
    let changed = projects.update(i, project);
    assert forall|a: int, b: int| 0 <= a < b < changed.len() implies (#[trigger] changed[a]).name@
        != (#[trigger] changed[b]).name@ by {
        assert(projects[a].name@ != projects[b].name@);
    }
    assert forall|a: int| 0 <= a < changed.len() implies (#[trigger] changed[a]).cache.wf() by {
        assert(projects[a].cache.wf());
    }
    let left = models(changed);
    let right = models(projects).insert(project.name@, project@);
    assert forall|name: Seq<char>|
        #![trigger left.dom().contains(name)]
        #![trigger right.dom().contains(name)]
        left.dom().contains(name) == right.dom().contains(name) && (left.dom().contains(name)
            ==> left[name] == right[name]) by {
        lemma_model_at(changed, i);
        if left.contains_key(name) {
            let a = lemma_key_at(changed, name);
            lemma_model_at(changed, a);
            lemma_model_at(projects, a);
            assert(changed[a].name@ == projects[a].name@);
        }
        if models(projects).contains_key(name) {
            let a = lemma_key_at(projects, name);
            assert(changed[a].name@ == name);
            lemma_model_at(changed, a);
        }
    }
    assert(left.dom() =~= right.dom());
    assert(left =~= right);
}

/// The projects that are online.
#[derive(Debug)]
pub struct ProjectRegistry {
    socket_dir: String,
    cache_defaults: CacheDefaults,
    projects: Vec<Project>,
}

impl View for ProjectRegistry {
    type V = Projects;

    closed spec fn view(&self) -> Projects {
        models(self.projects@)
    }
}

impl ProjectRegistry {
    /// Whether every project is there once, with a sound cache.
    pub closed spec fn wf(&self) -> bool {
        sound(self.projects@)
    }

    pub closed spec fn config(&self) -> RegistryConfig {
        RegistryConfig { socket_dir: self.socket_dir@, defaults: self.cache_defaults }
    }

    /// A registry without projects.
    pub fn new(socket_dir: String, cache_defaults: CacheDefaults) -> (r: ProjectRegistry)
        ensures
            r.wf(),
            r@ == Projects::empty(),
            r.config().socket_dir == socket_dir@,
            r.config().defaults == cache_defaults,
    {
        let r = ProjectRegistry { socket_dir, cache_defaults, projects: Vec::new() };
        assert(r@ =~= Projects::empty()) by {
            assert forall|name: Seq<char>| !models(r.projects@).contains_key(name) by {
                lemma_absent(r.projects@, name);
            }
        }
        r
    }

    /// Where the socket of the project `name` stands.
    pub fn socket_path_for(&self, name: &str) -> (r: String)
        ensures
            r@ == project_socket(self.config().socket_dir, name@),
    {
        let mut file = copy_text(name);
        file.append(".sock");
        join(self.socket_dir.as_str(), file.as_str())
    }

    fn find(&self, name: &str) -> (r: Option<usize>)
        requires
            self.wf(),
        ensures
            match r {
                Some(i) => i < self.projects@.len() && self.projects@[i as int].name@ == name@
                    && self@.contains_key(name@) && self@[name@] == self.projects@[i as int]@
                    && self.projects@[i as int].cache.wf(),
                None => !self@.contains_key(name@),
            },
    {
        let mut i: usize = 0;
        while i < self.projects.len()
            invariant
                self.wf(),
                i <= self.projects@.len(),
                forall|j: int| 0 <= j < i ==> (#[trigger] self.projects@[j]).name@ != name@,
            decreases self.projects@.len() - i,
        {
            if same_text(self.projects[i].name.as_str(), name) {
                proof {
                    lemma_model_at(self.projects@, i as int);
                    assert(self.projects@[i as int].cache.wf());
                }
                return Some(i);
            }
            i = i + 1;
        }
        proof {
            lemma_absent(self.projects@, name@);
        }
        None
    }

    /// The project `name`, if it is online.
    pub fn project(&self, name: &str) -> (r: Option<&Project>)
        requires
            self.wf(),
        ensures
            match r {
                Some(project) => self@.contains_key(name@) && self@[name@] == project@
                    && project.name@ == name@ && project.cache.wf(),
                None => !self@.contains_key(name@),
            },
    {
        match self.find(name) {
            Some(i) => Some(&self.projects[i]),
            None => None,
        }
    }

    /// Tells whether registering `name` has come so far that its socket is to be bound.
    pub fn admits(&self, name: &str, loaded: &Result<(Manifest, String), ManifestError>) -> (r: bool)
        requires
            self.wf(),
        ensures
            r == (accepted_manifest(name@, load_view(*loaded)) is Ok && !self@.contains_key(name@)),
    {
        match loaded {
            Err(_) => false,
            Ok((manifest, _)) => same_text(manifest.project.name.as_str(), name) && self.find(
                name,
            ).is_none(),
        }
    }

    /// Takes a project on. `loaded` is what loading its manifest came to, and `bound` what
    /// binding its socket came to; where `admits` says no, no socket is to be bound, and
    /// `bound` is passed over.
    pub fn register(
        &mut self,
        name: &str,
        project_path: &str,
        loaded: Result<(Manifest, String), ManifestError>,
        bound: Result<(), SocketFault>,
    ) -> (r: Result<(), RegistryError>)
        requires
            old(self).wf(),
        ensures
            final(self).wf(),
            final(self).config() == old(self).config(),
            ({
                let outcome = register_outcome(
                    old(self)@,
                    old(self).config(),
                    name@,
                    project_path@,
                    load_view(loaded),
                    bound_view(bound),
                );
                &&& final(self)@ == after(old(self)@, name@, outcome)
                &&& match r {
                    Ok(_) => outcome is Ok,
                    Err(e) => outcome == Err::<ProjectModel, RegistryFault>(e@),
                }
            }),
    {
        let (manifest, manifest_path) = match accept_manifest(name, loaded) {
            Err(e) => return Err(e),
            Ok(accepted) => accepted,
        };
        if self.find(name).is_some() {
            return Err(RegistryError::ProjectExists(copy_text(name)));
        }
        let socket_path = self.socket_path_for(name);
        if let Err(fault) = bound {
            return Err(bind_error(socket_path, fault));
        }
        let (max, ttl) = resolve_cache_bounds(&manifest, self.cache_defaults);
        let project = Project {
            name: copy_text(name),
            project_path: copy_text(project_path),
            socket_path,
            manifest_path,
            manifest,
            cache: BoundedCache::new(max, ttl),
        };
        proof {
            lemma_pushed(self.projects@, project);
        }
        self.projects.push(project);
        Ok(())
    }

    /// Takes a project off and hands it out. Its cache goes with it.
    pub fn unregister(&mut self, name: &str) -> (r: Result<Project, RegistryError>)
        requires
            old(self).wf(),
        ensures
            final(self).wf(),
            final(self).config() == old(self).config(),
            match r {
                Ok(project) => old(self)@.contains_key(name@) && project.name@ == name@ && project@
                    == old(self)@[name@] && project.cache.wf() && final(self)@
                    == old(self)@.remove(name@),
                Err(e) => !old(self)@.contains_key(name@) && e@ == RegistryFault::ProjectUnknown(
                    name@,
                ) && final(self)@ == old(self)@,
            },
    {
        match self.find(name) {
            None => Err(RegistryError::ProjectUnknown(copy_text(name))),
            Some(i) => {
                proof {
                    lemma_removed(self.projects@, i as int);
                }
                Ok(self.projects.remove(i))
            },
        }
    }

    /// Gives a project the manifest that was loaded anew, and hands that out. Its cache
    /// keeps what it holds; new bounds count for what comes into it from now on. Where the
    /// manifest is refused, the project keeps the one that it has.
    pub fn reload(&mut self, name: &str, loaded: Result<(Manifest, String), ManifestError>) -> (r:
        Result<Manifest, RegistryError>)
        requires
            old(self).wf(),
        ensures
            final(self).wf(),
            final(self).config() == old(self).config(),
            ({
                let outcome = reload_outcome(
                    old(self)@,
                    old(self).config(),
                    name@,
                    load_view(loaded),
                );
                &&& final(self)@ == after(old(self)@, name@, outcome)
                &&& match r {
                    Ok(manifest) => outcome is Ok && manifest@ == outcome->Ok_0.manifest,
                    Err(e) => outcome == Err::<ProjectModel, RegistryFault>(e@),
                }
            }),
    {
        let i: usize = match self.find(name) {
            None => return Err(RegistryError::ProjectUnknown(copy_text(name))),
            Some(i) => i,
        };
        let (manifest, _) = match accept_manifest(name, loaded) {
            Err(e) => return Err(e),
            Ok(accepted) => accepted,
        };
        let (max, ttl) = resolve_cache_bounds(&manifest, self.cache_defaults);
        let handed_out = manifest.clone();
        let ghost before = self.projects@;
        let project = &mut self.projects[i];
        project.cache.set_config(max, ttl);
        project.manifest = manifest;
        proof {
            let changed = self.projects@[i as int];
            assert(self.projects@ =~= before.update(i as int, changed));
            lemma_updated(before, i as int, changed);
        }
        Ok(handed_out)
    }

    /// Takes a request on the socket of the project `name`; `None` where the project has
    /// gone.
    pub fn dispatch(
        &mut self,
        name: &str,
        broker_version: &str,
        request: ProjectRequest,
        now: Moment,
    ) -> (r: Option<ProjectStep>)
        requires
            old(self).wf(),
        ensures
            final(self).wf(),
            final(self).config() == old(self).config(),
            match r {
                None => !old(self)@.contains_key(name@) && final(self)@ == old(self)@,
                Some(step) => {
                    let project = old(self)@[name@];
                    &&& old(self)@.contains_key(name@)
                    &&& fetch::stepped(
                        project.manifest,
                        project.cache,
                        name@,
                        broker_version@,
                        request@,
                        now,
                        step,
                    )
                    &&& final(self)@ == old(self)@.insert(
                        name@,
                        (ProjectModel {
                            cache: fetch::stepped_contents(
                                project.manifest,
                                project.cache,
                                request@,
                                now,
                            ),
                            ..project
                        }),
                    )
                },
            },
    {
        let i: usize = match self.find(name) {
            None => return None,
            Some(i) => i,
        };
        let ghost before = self.projects@;
        let project = &mut self.projects[i];
        let step = dispatch_project(
            name,
            &project.manifest,
            &mut project.cache,
            broker_version,
            request,
            now,
        );
        proof {
            let changed = self.projects@[i as int];
            assert(self.projects@ =~= before.update(i as int, changed));
            lemma_updated(before, i as int, changed);
        }
        Some(step)
    }

    /// Takes what the backend said when it was asked for `secret` on behalf of the project
    /// `name`; `None` where the project has gone meanwhile.
    pub fn settle(&mut self, name: &str, secret: &str, reply: BackendReply, now: Moment) -> (r:
        Option<GetVerdict>)
        requires
            old(self).wf(),
        ensures
            final(self).wf(),
            final(self).config() == old(self).config(),
            match r {
                None => !old(self)@.contains_key(name@) && final(self)@ == old(self)@,
                Some(verdict) => {
                    let project = old(self)@[name@];
                    &&& old(self)@.contains_key(name@)
                    &&& verdict@ == fetch::late_verdict(reply, project.cache_lifetime)
                    &&& final(self)@.contains_key(name@)
                    &&& final(self)@ == old(self)@.insert(
                        name@,
                        (ProjectModel { cache: final(self)@[name@].cache, ..project }),
                    )
                    &&& match reply {
                        BackendReply::Value(value) => cache::inserted(
                            project.cache,
                            final(self)@[name@].cache,
                            secret@,
                            fetch::fetched_slot(value@, now, project.cache_lifetime),
                            project.cache_bound,
                        ),
                        _ => final(self)@[name@].cache == project.cache,
                    }
                },
            },
    {
        let i: usize = match self.find(name) {
            None => return None,
            Some(i) => i,
        };
        let ghost before = self.projects@;
        let verdict = finish_get(&mut self.projects[i].cache, secret, reply, now);
        proof {
            let changed = self.projects@[i as int];
            assert(self.projects@ =~= before.update(i as int, changed));
            lemma_updated(before, i as int, changed);
        }
        Some(verdict)
    }

    /// Every project that is online.
    pub fn snapshot(&self) -> (r: Vec<&Project>)
        requires
            self.wf(),
        ensures
            forall|i: int|
                0 <= i < r@.len() ==> self@.contains_key((#[trigger] r@[i]).name@)
                    && self@[r@[i].name@] == r@[i]@,
            forall|name: Seq<char>| #[trigger]
                self@.contains_key(name) ==> exists|i: int|
                    0 <= i < r@.len() && (#[trigger] r@[i]).name@ == name,
            forall|i: int, j: int|
                0 <= i < j < r@.len() ==> (#[trigger] r@[i]).name@ != (#[trigger] r@[j]).name@,
    {
        let mut r: Vec<&Project> = Vec::new();
        let mut i: usize = 0;
        while i < self.projects.len()
            invariant
                i <= self.projects@.len(),
                r@.len() == i,
                forall|j: int| 0 <= j < i ==> *(#[trigger] r@[j]) == self.projects@[j],
            decreases self.projects@.len() - i,
        {
            r.push(&self.projects[i]);
            i = i + 1;
        }
        proof {
            assert forall|j: int| 0 <= j < r@.len() implies self@.contains_key(
                (#[trigger] r@[j]).name@,
            ) && self@[r@[j].name@] == r@[j]@ by {
                lemma_model_at(self.projects@, j);
            }
            assert forall|name: Seq<char>| #[trigger] self@.contains_key(name) implies exists|j: int|
                0 <= j < r@.len() && (#[trigger] r@[j]).name@ == name by {
                let j = lemma_key_at(self.projects@, name);
                assert(r@[j].name@ == name);
            }
            assert forall|a: int, b: int| 0 <= a < b < r@.len() implies (#[trigger] r@[a]).name@ != (
            #[trigger] r@[b]).name@ by {
                assert(self.projects@[a].name@ != self.projects@[b].name@);
            }
        }
        r
    }
}

/// Sorts a manifest that did not load by whether there was one, and refuses one that does
/// not carry the project's name.
fn accept_manifest(name: &str, loaded: Result<(Manifest, String), ManifestError>) -> (r: Result<
    (Manifest, String),
    RegistryError,
>)
    ensures
        accepted_manifest(name@, load_view(loaded)) == match r {
            Ok((manifest, path)) => Ok((manifest@, path@)),
            Err(e) => Err(e@),
        },
{
    let (manifest, path) = match load_manifest(loaded) {
        Err(e) => return Err(e),
        Ok(found) => found,
    };
    if !same_text(manifest.project.name.as_str(), name) {
        return Err(
            RegistryError::ManifestInvalid(
                ManifestError::NameDirMismatch {
                    name: manifest.project.name,
                    dir: copy_text(name),
                },
            ),
        );
    }
    Ok((manifest, path))
}

/// Sorts a manifest that did not load by whether there was one.
pub fn load_manifest(loaded: Result<(Manifest, String), ManifestError>) -> (r: Result<
    (Manifest, String),
    RegistryError,
>)
    ensures
        match loaded {
            Ok(found) => r is Ok && r->Ok_0 == found,
            Err(e) => r is Err && r->Err_0@ == match e@ {
                ManifestFault::NotFound(_) => RegistryFault::ManifestNotFound(e@),
                _ => RegistryFault::ManifestInvalid(e@),
            },
        },
{
    match loaded {
        Ok(found) => Ok(found),
        Err(e) => {
            let absent = match &e {
                ManifestError::NotFound(_) => true,
                _ => false,
            };
            if absent {
                Err(RegistryError::ManifestNotFound(e))
            } else {
                Err(RegistryError::ManifestInvalid(e))
            }
        },
    }
}

/// The failure of a project whose socket could not be bound.
fn bind_error(path: String, fault: SocketFault) -> (r: RegistryError)
    ensures
        r@ == match fault@ {
            SocketFaultView::Bind(message) => RegistryFault::BindSocket(path@, message),
            SocketFaultView::Mode(message) => RegistryFault::SocketPerms(path@, message),
        },
{
    match fault {
        SocketFault::Bind(message) => RegistryError::BindSocket { path, message },
        SocketFault::Mode(message) => RegistryError::SocketPerms { path, message },
    }
}

/// A manifest that is missing or refused, and only such a one, leaves an event that says so
/// and why, both where a project is taken on, which it then is not, and where one is
/// reloaded, which then stays as it is.
pub proof fn refused_manifests_are_logged(
    projects: Projects,
    config: RegistryConfig,
    name: Seq<char>,
    project_path: Seq<char>,
    loaded: LoadView,
    bound: Result<(), SocketFaultView>,
    manifest_path: Seq<char>,
)
    ensures
        ({
            let refused = accepted_manifest(name, loaded);
            let taken_on = register_outcome(projects, config, name, project_path, loaded, bound);
            let reloaded = reload_outcome(projects, config, name, loaded);
            let told = refusal(refused->Err_0, name, manifest_path);
            &&& refused is Err ==> told is Some && told->0 is ManifestInvalid
            &&& refused is Err ==> taken_on is Err && refusal(
                taken_on->Err_0,
                name,
                manifest_path,
            ) == told && after(projects, name, taken_on) == projects
            &&& refused is Ok && taken_on is Err ==> refusal(
                taken_on->Err_0,
                name,
                manifest_path,
            ) is None
            &&& refused is Err && projects.contains_key(name) ==> reloaded is Err && refusal(
                reloaded->Err_0,
                name,
                manifest_path,
            ) == told && after(projects, name, reloaded) == projects
            &&& (refused is Ok || !projects.contains_key(name)) && reloaded is Err ==> refusal(
                reloaded->Err_0,
                name,
                manifest_path,
            ) is None
        }),
{
}

/// What holds of every project that is online: it goes by the name in its manifest, its
/// socket stands where its name says, and its cache keeps to the daemon's bounds.
pub open spec fn consistent(projects: Projects, config: RegistryConfig) -> bool {
    forall|name: Seq<char>| #[trigger]
        projects.contains_key(name) ==> {
            &&& projects[name].manifest.name == name
            &&& projects[name].socket_path == project_socket(config.socket_dir, name)
            &&& projects[name].cache_bound == cache_max(projects[name].manifest, config.defaults)
            &&& projects[name].cache_lifetime == cache_ttl(projects[name].manifest, config.defaults)
            &&& projects[name].cache_bound <= config.defaults.max_entries
            &&& projects[name].cache_lifetime.nanos <= config.defaults.ttl.nanos
        }
}

/// A registry without projects is consistent, and every operation keeps it so: taking a
/// project on or off, reloading its manifest, and whatever a request does to its cache.
pub proof fn operations_keep_the_registry_consistent(
    projects: Projects,
    config: RegistryConfig,
    name: Seq<char>,
    project_path: Seq<char>,
    loaded: LoadView,
    bound: Result<(), SocketFaultView>,
    cache: CacheContents,
)
    requires
        consistent(projects, config),
    ensures
        consistent(Projects::empty(), config),
        consistent(
            after(
                projects,
                name,
                register_outcome(projects, config, name, project_path, loaded, bound),
            ),
            config,
        ),
        consistent(after(projects, name, reload_outcome(projects, config, name, loaded)), config),
        consistent(projects.remove(name), config),
        projects.contains_key(name) ==> consistent(
            projects.insert(name, (ProjectModel { cache, ..projects[name] })),
            config,
        ),
{
    if let Ok((manifest, _)) = loaded {
        cache_bounds_are_only_lowered(manifest, config.defaults);
    }
}

/// A manifest never raises a cache bound above the daemon's default.
pub proof fn cache_bounds_are_only_lowered(manifest: ManifestModel, defaults: CacheDefaults)
    ensures
        cache_max(manifest, defaults) <= defaults.max_entries,
        cache_ttl(manifest, defaults).nanos <= defaults.ttl.nanos,
        manifest.max_entries is None ==> cache_max(manifest, defaults) == defaults.max_entries,
        manifest.ttl_seconds is None ==> cache_ttl(manifest, defaults) == defaults.ttl,
{
}

/// An operation on one project leaves every other as it is, and one that fails leaves them
/// all.
pub proof fn other_projects_are_untouched(
    projects: Projects,
    config: RegistryConfig,
    name: Seq<char>,
    other: Seq<char>,
    project_path: Seq<char>,
    loaded: LoadView,
    bound: Result<(), SocketFaultView>,
)
    requires
        other != name,
    ensures
        ({
            let outcome = register_outcome(projects, config, name, project_path, loaded, bound);
            let registered = after(projects, name, outcome);
            &&& registered.contains_key(other) == projects.contains_key(other)
            &&& projects.contains_key(other) ==> registered[other] == projects[other]
            &&& outcome is Err ==> registered == projects
        }),
        ({
            let outcome = reload_outcome(projects, config, name, loaded);
            let reloaded = after(projects, name, outcome);
            &&& reloaded.contains_key(other) == projects.contains_key(other)
            &&& projects.contains_key(other) ==> reloaded[other] == projects[other]
            &&& outcome is Err ==> reloaded == projects
        }),
        projects.remove(name).contains_key(other) == projects.contains_key(other),
        projects.contains_key(other) ==> projects.remove(name)[other] == projects[other],
{
}

/// A name that is taken is refused, whatever else is right, and nothing is replaced.
pub proof fn names_are_taken_once(
    projects: Projects,
    config: RegistryConfig,
    name: Seq<char>,
    project_path: Seq<char>,
    loaded: LoadView,
    bound: Result<(), SocketFaultView>,
)
    requires
        projects.contains_key(name),
    ensures
        ({
            let outcome = register_outcome(projects, config, name, project_path, loaded, bound);
            &&& outcome is Err
            &&& accepted_manifest(name, loaded) is Ok ==> outcome == Err::<
                ProjectModel,
                RegistryFault,
            >(RegistryFault::ProjectExists(name))
            &&& after(projects, name, outcome) == projects
        }),
{
}

/// A project that is taken on and off again leaves the registry as it was, and comes off
/// as it went on.
pub proof fn unregistering_undoes_registering(
    projects: Projects,
    config: RegistryConfig,
    name: Seq<char>,
    project_path: Seq<char>,
    loaded: LoadView,
    bound: Result<(), SocketFaultView>,
)
    requires
        register_outcome(projects, config, name, project_path, loaded, bound) is Ok,
    ensures
        ({
            let outcome = register_outcome(projects, config, name, project_path, loaded, bound);
            let registered = after(projects, name, outcome);
            &&& registered.contains_key(name)
            &&& registered[name] == outcome->Ok_0
            &&& registered[name].cache == CacheContents::empty()
            &&& registered.remove(name) == projects
        }),
{
    let outcome = register_outcome(projects, config, name, project_path, loaded, bound);
    assert(after(projects, name, outcome).remove(name) =~= projects);
}

/// Reloading swaps the whole manifest and touches nothing else of the project but the
/// bounds of its cache: what was fetched stays, and so do the paths.
pub proof fn reloading_keeps_what_was_fetched(
    projects: Projects,
    config: RegistryConfig,
    name: Seq<char>,
    loaded: LoadView,
)
    requires
        reload_outcome(projects, config, name, loaded) is Ok,
    ensures
        ({
            let reloaded = after(projects, name, reload_outcome(projects, config, name, loaded));
            &&& loaded is Ok && reloaded[name].manifest == loaded->Ok_0.0
            &&& reloaded[name].cache == projects[name].cache
            &&& reloaded[name].project_path == projects[name].project_path
            &&& reloaded[name].socket_path == projects[name].socket_path
            &&& reloaded[name].manifest_path == projects[name].manifest_path
        }),
{
}

/// What happens to the cache of one project is not seen in another: a value that was
/// fetched for one is not served to the other, even under the same name.
pub proof fn caches_are_not_shared(
    projects: Projects,
    name: Seq<char>,
    other: Seq<char>,
    cache: CacheContents,
    secret: Seq<char>,
    now: Moment,
)
    requires
        projects.contains_key(name),
        projects.contains_key(other),
        other != name,
    ensures
        ({
            let changed = projects.insert(name, (ProjectModel { cache, ..projects[name] }));
            fetch::early_verdict(
                changed[other].manifest.secrets,
                changed[other].cache,
                secret,
                now,
            ) == fetch::early_verdict(
                projects[other].manifest.secrets,
                projects[other].cache,
                secret,
                now,
            )
        }),
{
}

/// The sockets of two projects stand in two places, each right in the socket directory
/// under its project's name; only a project called `admin` would get in the way of the
/// admin socket.
pub proof fn sockets_stand_apart(socket_dir: Seq<char>, a: Seq<char>, b: Seq<char>)
    requires
        manifest::project_name_ok(a),
        manifest::project_name_ok(b),
        a != b,
    ensures
        project_socket(socket_dir, a) != project_socket(socket_dir, b),
        paths::base_name(project_socket(socket_dir, a)) == Some(a + ".sock"@),
        a != "admin"@ ==> project_socket(socket_dir, a) != paths::joined(
            socket_dir,
            "admin.sock"@,
        ),
{
    reveal_strlit(".sock");
    reveal_strlit("admin");
    reveal_strlit("admin.sock");
    let suffix = ".sock"@;
    let file_a = a + suffix;
    let file_b = b + suffix;
    let admin = "admin.sock"@;
    assert(admin =~= "admin"@ + suffix);
    manifest::project_names_are_path_segments(a);
    manifest::project_names_are_path_segments(b);
    lemma_socket_file(a);
    assert(file_a[0] == a[0] && file_b[0] == b[0]);
    assert(manifest::is_name_start(a[0]) && manifest::is_name_start(b[0]));
    paths::joined_ends_in_its_name(socket_dir, file_a);
    if project_socket(socket_dir, a) == project_socket(socket_dir, b) {
        paths::joined_keeps_names_apart(socket_dir, file_a, file_b);
        assert(file_a.take(file_a.len() - 5) =~= a);
        assert(file_b.take(file_b.len() - 5) =~= b);
    }
    if project_socket(socket_dir, a) == paths::joined(socket_dir, admin) {
        assert(admin[0] == 'a');
        paths::joined_keeps_names_apart(socket_dir, file_a, admin);
        assert(file_a.take(file_a.len() - 5) =~= a);
        assert(admin.take(admin.len() - 5) =~= "admin"@);
    }
}

proof fn lemma_socket_file(name: Seq<char>)
    requires
        manifest::project_name_ok(name),
    ensures
        (name + ".sock"@).len() > 2,
        !(name + ".sock"@).contains('/'),
        (name + ".sock"@) != seq!['.'],
        (name + ".sock"@) != seq!['.', '.'],
{
    reveal_strlit(".sock");
    let file = name + ".sock"@;
    manifest::project_names_are_path_segments(name);
    if file.contains('/') {
        let i = choose|i: int| 0 <= i < file.len() && file[i] == '/';
        if i < name.len() {
            assert(name[i] == '/');
            assert(name.contains('/'));
        } else {
            assert(".sock"@[i - name.len()] == '/');
        }
    }
    assert(file.len() == name.len() + 5);
}

/// A bound that a manifest sets below the daemon's default is the one in effect, and one that
/// it sets above, or not at all, is the default; each of the two counts by itself, whatever
/// the manifest says or leaves unsaid of the other or of anything else.
pub proof fn each_cache_bound_is_the_smaller(
    manifest: ManifestModel,
    other: ManifestModel,
    defaults: CacheDefaults,
)
    ensures
        cache_max(manifest, defaults) <= defaults.max_entries,
        cache_ttl(manifest, defaults).nanos <= defaults.ttl.nanos,
        match manifest.max_entries {
            Some(n) => cache_max(manifest, defaults) <= n && (cache_max(manifest, defaults) == n
                || cache_max(manifest, defaults) == defaults.max_entries),
            None => cache_max(manifest, defaults) == defaults.max_entries,
        },
        match manifest.ttl_seconds {
            Some(n) => cache_ttl(manifest, defaults).nanos <= n * 1_000_000_000 && (cache_ttl(
                manifest,
                defaults,
            ).nanos == n * 1_000_000_000 || cache_ttl(manifest, defaults).nanos
                == defaults.ttl.nanos),
            None => cache_ttl(manifest, defaults).nanos == defaults.ttl.nanos,
        },
        manifest.max_entries == other.max_entries ==> cache_max(manifest, defaults) == cache_max(
            other,
            defaults,
        ),
        manifest.ttl_seconds == other.ttl_seconds ==> cache_ttl(manifest, defaults) == cache_ttl(
            other,
            defaults,
        ),
{
}

/// A manifest is accepted exactly where it loaded and carries the name that it is to be taken
/// on by, and then as it is. Otherwise it is missing, where it was not found, or refused for
/// what was wrong with it.
pub proof fn manifests_are_accepted_under_their_name(name: Seq<char>, loaded: LoadView)
    ensures
        ({
            let accepted = accepted_manifest(name, loaded);
            &&& accepted is Ok <==> loaded is Ok && loaded->Ok_0.0.name == name
            &&& accepted is Ok ==> accepted->Ok_0 == loaded->Ok_0
            &&& loaded is Err && loaded->Err_0 is NotFound ==> accepted->Err_0
                == RegistryFault::ManifestNotFound(loaded->Err_0)
            &&& loaded is Err && !(loaded->Err_0 is NotFound) ==> accepted->Err_0
                == RegistryFault::ManifestInvalid(loaded->Err_0)
            &&& loaded is Ok && loaded->Ok_0.0.name != name ==> accepted->Err_0
                == RegistryFault::ManifestInvalid(
                ManifestFault::NameDirMismatch(loaded->Ok_0.0.name, name),
            )
        }),
{
}

/// A project is taken on exactly where its manifest loaded and carries its name, no project
/// goes by the name yet, and its socket was bound. It goes online with what was loaded and
/// where it was loaded from, an empty cache with the bounds of its manifest under the
/// defaults, and its socket in the socket directory under its name.
pub proof fn projects_go_online_as_they_were_loaded(
    projects: Projects,
    config: RegistryConfig,
    name: Seq<char>,
    project_path: Seq<char>,
    loaded: LoadView,
    bound: Result<(), SocketFaultView>,
)
    ensures
        ({
            let outcome = register_outcome(projects, config, name, project_path, loaded, bound);
            let accepted = loaded is Ok && loaded->Ok_0.0.name == name;
            let online = outcome->Ok_0;
            let registered = after(projects, name, outcome);
            &&& outcome is Ok <==> accepted && !projects.contains_key(name) && bound is Ok
            &&& outcome is Ok ==> {
                &&& online.manifest == loaded->Ok_0.0
                &&& online.manifest_path == loaded->Ok_0.1
                &&& online.project_path == project_path
                &&& online.socket_path == paths::joined(config.socket_dir, name + ".sock"@)
                &&& online.cache.dom() == Set::<Seq<char>>::empty()
                &&& online.cache_bound <= config.defaults.max_entries
                &&& online.cache_lifetime.nanos <= config.defaults.ttl.nanos
                &&& online.cache_bound == cache_max(loaded->Ok_0.0, config.defaults)
                &&& online.cache_lifetime == cache_ttl(loaded->Ok_0.0, config.defaults)
                &&& registered.contains_key(name) && registered[name] == online
            }
            &&& loaded is Err && loaded->Err_0 is NotFound ==> outcome->Err_0
                == RegistryFault::ManifestNotFound(loaded->Err_0)
            &&& loaded is Err && !(loaded->Err_0 is NotFound) ==> outcome->Err_0
                == RegistryFault::ManifestInvalid(loaded->Err_0)
            &&& loaded is Ok && loaded->Ok_0.0.name != name ==> outcome->Err_0
                == RegistryFault::ManifestInvalid(
                ManifestFault::NameDirMismatch(loaded->Ok_0.0.name, name),
            )
            &&& accepted && projects.contains_key(name) ==> outcome->Err_0
                == RegistryFault::ProjectExists(name)
            &&& accepted && !projects.contains_key(name) && bound is Err ==> outcome->Err_0
                == match bound->Err_0 {
                SocketFaultView::Bind(message) => RegistryFault::BindSocket(
                    paths::joined(config.socket_dir, name + ".sock"@),
                    message,
                ),
                SocketFaultView::Mode(message) => RegistryFault::SocketPerms(
                    paths::joined(config.socket_dir, name + ".sock"@),
                    message,
                ),
            }
            &&& forall|other: Seq<char>|
                other != name ==> (#[trigger] registered.contains_key(other)
                    <==> projects.contains_key(other))
            &&& forall|other: Seq<char>|
                other != name && #[trigger] registered.contains_key(other) ==> registered[other]
                    == projects[other]
            &&& outcome is Err ==> registered == projects
        }),
{
    assert(CacheContents::empty().dom() =~= Set::<Seq<char>>::empty());
}

/// A project is reloaded exactly where it is online and its manifest loaded and carries its
/// name. It then has that manifest, whole, and its bounds; what was fetched, and all paths,
/// stay. A project that is not online is unknown, whatever was loaded.
pub proof fn reloads_swap_the_manifest_and_the_bounds(
    projects: Projects,
    config: RegistryConfig,
    name: Seq<char>,
    loaded: LoadView,
)
    ensures
        ({
            let outcome = reload_outcome(projects, config, name, loaded);
            let accepted = loaded is Ok && loaded->Ok_0.0.name == name;
            let online = outcome->Ok_0;
            let before = projects[name];
            &&& outcome is Ok <==> accepted && projects.contains_key(name)
            &&& outcome is Ok ==> {
                &&& online.manifest == loaded->Ok_0.0
                &&& online.cache == before.cache
                &&& online.project_path == before.project_path
                &&& online.socket_path == before.socket_path
                &&& online.manifest_path == before.manifest_path
                &&& online.cache_bound == cache_max(loaded->Ok_0.0, config.defaults)
                &&& online.cache_lifetime == cache_ttl(loaded->Ok_0.0, config.defaults)
            }
            &&& !projects.contains_key(name) ==> outcome->Err_0 == RegistryFault::ProjectUnknown(
                name,
            )
            &&& projects.contains_key(name) && loaded is Err && loaded->Err_0 is NotFound
                ==> outcome->Err_0 == RegistryFault::ManifestNotFound(loaded->Err_0)
            &&& projects.contains_key(name) && loaded is Err && !(loaded->Err_0 is NotFound)
                ==> outcome->Err_0 == RegistryFault::ManifestInvalid(loaded->Err_0)
            &&& projects.contains_key(name) && loaded is Ok && loaded->Ok_0.0.name != name
                ==> outcome->Err_0 == RegistryFault::ManifestInvalid(
                ManifestFault::NameDirMismatch(loaded->Ok_0.0.name, name),
            )
            &&& after(projects, name, outcome) == if outcome is Ok {
                projects.insert(name, online)
            } else {
                projects
            }
        }),
{
}

/// What loading or binding came to is told as it is.
pub proof fn outcomes_are_told_as_they_are(
    loaded: Result<(Manifest, String), ManifestError>,
    bound: Result<(), SocketFault>,
)
    ensures
        loaded is Ok ==> load_view(loaded) == Ok::<_, ManifestFault>(
            (loaded->Ok_0.0@, loaded->Ok_0.1@),
        ),
        loaded is Err ==> load_view(loaded) == Err::<(ManifestModel, Seq<char>), _>(
            loaded->Err_0@,
        ),
        bound is Ok <==> bound_view(bound) is Ok,
        bound is Err ==> bound_view(bound)->Err_0 == bound->Err_0@,
{
}

/// A project's socket stands in the socket directory, under the project's name.
pub proof fn sockets_are_named_after_projects(socket_dir: Seq<char>, name: Seq<char>)
    requires
        socket_dir.len() > 0,
        socket_dir.last() != '/',
        manifest::project_name_ok(name),
    ensures
        project_socket(socket_dir, name) == socket_dir + "/"@ + name + ".sock"@,
        project_socket(socket_dir + "/"@, name) == socket_dir + "/"@ + name + ".sock"@,
{
    let file = name + ".sock"@;
    reveal_strlit(".sock");
    assert(manifest::is_name_start(name[0]));
    assert(file[0] == name[0]);
    paths::paths_are_joined_by_one_slash(socket_dir, file);
    assert(socket_dir + "/"@ + file =~= socket_dir + "/"@ + name + ".sock"@);
}

/// Every failure is answered by the code of its kind.
pub proof fn failures_are_answered_by_their_kind(fault: RegistryFault)
    ensures
        fault is ProjectExists <==> fault_code(fault) == AdminErrorCode::ProjectExists,
        fault is ProjectUnknown <==> fault_code(fault) == AdminErrorCode::ProjectUnknown,
        fault is ManifestNotFound <==> fault_code(fault) == AdminErrorCode::ManifestNotFound,
        fault is ManifestInvalid <==> fault_code(fault) == AdminErrorCode::ManifestInvalid,
        fault is BindSocket || fault is SocketPerms <==> fault_code(fault)
            == AdminErrorCode::InternalError,
{
}

/// The event of a refused manifest names the project, the manifest's path and why it is
/// refused, each as it is.
pub proof fn refusals_are_told_as_they_are(
    fault: RegistryFault,
    project: Seq<char>,
    manifest_path: Seq<char>,
)
    ensures
        ({
            let told = refusal(fault, project, manifest_path);
            &&& told is Some <==> fault is ManifestNotFound || fault is ManifestInvalid
            &&& fault is ManifestNotFound ==> told == Some(
                EventModel::ManifestInvalid(
                    project,
                    manifest_path,
                    manifest::refusal_text(fault->ManifestNotFound_0),
                ),
            )
            &&& fault is ManifestInvalid ==> told == Some(
                EventModel::ManifestInvalid(
                    project,
                    manifest_path,
                    manifest::refusal_text(fault->ManifestInvalid_0),
                ),
            )
        }),
{
}

/// A project that is online is told as it is.
pub proof fn projects_are_told_whole(project: Project)
    ensures
        project@.project_path == project.project_path@,
        project@.socket_path == project.socket_path@,
        project@.manifest_path == project.manifest_path@,
        project@.manifest == project.manifest@,
        project@.cache == project.cache@,
        project@.cache_bound == project.cache.bound(),
        project@.cache_lifetime == project.cache.lifetime(),
{
}

/// An error is told as it is.
pub proof fn registry_errors_are_told_as_they_are(error: RegistryError)
    ensures
        match error {
            RegistryError::ProjectExists(name) => error@ == RegistryFault::ProjectExists(name@),
            RegistryError::ProjectUnknown(name) => error@ == RegistryFault::ProjectUnknown(name@),
            RegistryError::ManifestNotFound(e) => error@ == RegistryFault::ManifestNotFound(e@),
            RegistryError::ManifestInvalid(e) => error@ == RegistryFault::ManifestInvalid(e@),
            RegistryError::BindSocket { path, message } => error@ == RegistryFault::BindSocket(
                path@,
                message@,
            ),
            RegistryError::SocketPerms { path, message } => error@ == RegistryFault::SocketPerms(
                path@,
                message@,
            ),
        },
{
}

} // verus!
