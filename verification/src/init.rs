//! Names of the directories and files that the tool keeps, project
//! identifiers, and the registry of indexed projects.

use vstd::prelude::*;
use vstd::string::StringExecFns;
use crate::config::Settings;
use crate::error::IndexError;
use crate::text::{chars_of, hex_of, lemma_hex_len, str_eq, string_of, to_hex};

verus! {

/// The name of the directory, below the home directory, that is shared by
/// all projects.
pub const GLOBAL_DIR_NAME: &'static str = ".codanna";

/// The name of the directory that each project keeps its index in.
pub const LOCAL_DIR_NAME: &'static str = ".codanna";

/// The name of the cache directory of the embedding models.
pub const FASTEMBED_CACHE_NAME: &'static str = ".fastembed_cache";

/// The name of the directory that each project keeps its index in.
pub fn local_dir_name() -> (r: &'static str)
    ensures
        r@ == ".codanna"@,
{
    ".codanna"
}

/// The name of the cache directory of the embedding models.
pub fn fastembed_cache_name() -> (r: &'static str)
    ensures
        r@ == ".fastembed_cache"@,
{
    ".fastembed_cache"
}

/// The path of an entry of a directory: the directory, a slash, and the
/// name of the entry.
pub open spec fn entry_of(dir: Seq<char>, name: Seq<char>) -> Seq<char> {
    dir + "/"@ + name
}

/// The path of an entry of a directory.
pub fn join_path(dir: &str, name: &str) -> (r: String)
    ensures
        r@ == entry_of(dir@, name@),
{
    let mut out = dir.to_owned();
    out.append("/");
    out.append(name);
    out
}

/// The directory shared by all projects, below the given home directory.
pub fn global_dir(home: &str) -> (r: String)
    ensures
        r@ == entry_of(home@, ".codanna"@),
{
    join_path(home, ".codanna")
}

/// The directory of the embedding models, below the shared directory.
pub fn models_dir(global_dir: &str) -> (r: String)
    ensures
        r@ == entry_of(global_dir@, "models"@),
{
    join_path(global_dir, "models")
}

/// The file of the project registry, in the shared directory.
pub fn projects_file(global_dir: &str) -> (r: String)
    ensures
        r@ == entry_of(global_dir@, "projects.json"@),
{
    join_path(global_dir, "projects.json")
}

// ---------------------------------------------------------------------------
// Project identifiers
// ---------------------------------------------------------------------------

/// The identifier of a project.
#[derive(Debug, Clone, PartialEq, Eq, Hash)]
pub struct ProjectId(String);

impl View for ProjectId {
    type V = Seq<char>;

    closed spec fn view(&self) -> Seq<char> {
        self.0@
    }
}

/// The SHA-256 digest of a sequence of bytes.
pub uninterp spec fn sha256_digest(bytes: Seq<u8>) -> Seq<u8>;

/// Sixteen bytes from the thread's random number generator of the `rand`
/// crate. Nothing is promised of them: they differ from call to call.
#[verifier::external_body]
fn random_bytes() -> Vec<u8> {
    let bytes: [u8; 16] = rand::Rng::random(&mut rand::rng());
    bytes.to_vec()
}

/// The SHA-256 digest of the bytes, computed by `Sha256::digest` of the
/// `sha2` crate: 32 bytes that depend on the input alone.
#[verifier::external_body]
fn sha256(bytes: &Vec<u8>) -> (r: Vec<u8>)
    ensures
        r@ == sha256_digest(bytes@),
        r@.len() == 32,
{
    <sha2::Sha256 as sha2::Digest>::digest(bytes.as_slice()).to_vec()
}

impl ProjectId {
    /// The identifier made from a digest: its first sixteen bytes in
    /// lower-case hexadecimal, 32 characters.
    pub fn from_digest(digest: &Vec<u8>) -> (r: Self)
        requires
            digest@.len() >= 16,
        ensures
            r@ == hex_of(digest@.take(16)),
            r@.len() == 32,
    {
        proof {
            lemma_hex_len(digest@.take(16));
        }
        ProjectId(to_hex(digest.as_slice(), 16))
    }

    /// The identifier made from a seed: the first sixteen bytes of the
    /// SHA-256 digest of the seed, in lower-case hexadecimal.
    pub fn from_seed(seed: &Vec<u8>) -> (r: Self)
        ensures
            r@ == hex_of(sha256_digest(seed@).take(16)),
            r@.len() == 32,
    {
        let digest = sha256(seed);
        ProjectId::from_digest(&digest)
    }

    /// A new identifier, made from sixteen random bytes.
    pub fn new() -> (r: Self)
        ensures
            r@.len() == 32,
            exists|seed: Seq<u8>| r@ == hex_of(sha256_digest(seed).take(16)),
    {
        let seed = random_bytes();
        ProjectId::from_seed(&seed)
    }

    /// The identifier that a string holds.
    pub fn from_string(s: String) -> (r: Self)
        ensures
            r@ == s@,
    {
        ProjectId(s)
    }

    /// The identifier as a string.
    pub fn as_str(&self) -> (r: &str)
        ensures
            r@ == self@,
    {
        self.0.as_str()
    }
}

// ---------------------------------------------------------------------------
// The project registry
// ---------------------------------------------------------------------------

/// What the registry knows of a project.
#[derive(Debug, Clone)]
pub struct ProjectInfo {
    /// The absolute path of the project root.
    pub path: String,
    /// The name of the project: the last part of its path.
    pub name: String,
    pub symbol_count: u32,
    pub file_count: u32,
    /// When the project was last modified, in seconds since the epoch.
    pub last_modified: u64,
    pub doc_count: u64,
}

/// The mathematical content of a [`ProjectInfo`].
pub struct ProjectInfoView {
    pub path: Seq<char>,
    pub name: Seq<char>,
    pub symbol_count: u32,
    pub file_count: u32,
    pub last_modified: u64,
    pub doc_count: u64,
}

impl View for ProjectInfo {
    type V = ProjectInfoView;

    open spec fn view(&self) -> ProjectInfoView {
        ProjectInfoView {
            path: self.path@,
            name: self.name@,
            symbol_count: self.symbol_count,
            file_count: self.file_count,
            last_modified: self.last_modified,
            doc_count: self.doc_count,
        }
    }
}

/// The registry of all indexed projects.
#[derive(Debug)]
pub struct ProjectRegistry {
    version: u32,
    projects: Vec<(String, ProjectInfo)>,
    default_project: Option<String>,
}

/// The mathematical content of a [`ProjectRegistry`]: the registered
/// projects, each identifier once, in the order of their registration.
pub struct ProjectRegistryView {
    pub version: u32,
    pub projects: Seq<(Seq<char>, ProjectInfoView)>,
    pub default_project: Option<Seq<char>>,
}

impl View for ProjectRegistry {
    type V = ProjectRegistryView;

    closed spec fn view(&self) -> ProjectRegistryView {
        ProjectRegistryView {
            version: self.version,
            projects: Seq::new(
                self.projects@.len(),
                |i: int| (self.projects@[i].0@, self.projects@[i].1@),
            ),
            default_project: crate::text::opt_view(self.default_project),
        }
    }
}

/// The position of the first project, from position `from` on, that is
/// registered under the identifier.
pub open spec fn project_from(p: Seq<(Seq<char>, ProjectInfoView)>, id: Seq<char>, from: int)
    -> Option<int>
    decreases p.len() - from,
{
    if from < 0 || from >= p.len() {
        None
    } else if p[from].0 == id {
        Some(from)
    } else {
        project_from(p, id, from + 1)
    }
}

/// The position of the first project, from position `from` on, whose root
/// is the path.
pub open spec fn project_at_path(p: Seq<(Seq<char>, ProjectInfoView)>, path: Seq<char>, from: int)
    -> Option<int>
    decreases p.len() - from,
{
    if from < 0 || from >= p.len() {
        None
    } else if p[from].1.path == path {
        Some(from)
    } else {
        project_at_path(p, path, from + 1)
    }
}

/// The pair is the identifier and the record of the project at position
/// `i` of the registry.
pub open spec fn found_project(r: ProjectRegistryView, i: int, pair: (String, &ProjectInfo)) -> bool {
    pair.0@ == r.projects[i].0 && pair.1@ == r.projects[i].1
}

/// What the registry knows of the project with the identifier.
pub open spec fn project_of(r: ProjectRegistryView, id: Seq<char>) -> Option<ProjectInfoView> {
    match project_from(r.projects, id, 0) {
        Some(i) => Some(r.projects[i].1),
        None => None,
    }
}

/// The registry with a project put under an identifier: in the place of
/// what stood under the identifier, or at the end.
pub open spec fn with_project(r: ProjectRegistryView, id: Seq<char>, info: ProjectInfoView)
    -> ProjectRegistryView {
    ProjectRegistryView {
        projects: match project_from(r.projects, id, 0) {
            Some(i) => r.projects.update(i, (id, info)),
            None => r.projects.push((id, info)),
        },
        ..r
    }
}

/// The last part of a path: what follows its last slash. Where nothing
/// follows, the name is `unnamed`.
pub open spec fn last_part_from(path: Seq<char>, end: int) -> int
    decreases end,
{
    if end <= 0 || path[end - 1] == '/' {
        end
    } else {
        last_part_from(path, end - 1)
    }
}

pub open spec fn project_name(path: Seq<char>) -> Seq<char> {
    let start = last_part_from(path, path.len() as int);
    if start >= path.len() {
        "unnamed"@
    } else {
        path.subrange(start, path.len() as int)
    }
}

/// What is recorded of a project that has just been registered at a path.
pub open spec fn fresh_info(path: Seq<char>) -> ProjectInfoView {
    ProjectInfoView {
        path,
        name: project_name(path),
        symbol_count: 0,
        file_count: 0,
        last_modified: 0,
        doc_count: 0,
    }
}

proof fn lemma_project_bounds(p: Seq<(Seq<char>, ProjectInfoView)>, id: Seq<char>, from: int)
    requires
        0 <= from,
    ensures
        project_from(p, id, from) is Some ==> from <= project_from(p, id, from)->0 < p.len()
            && p[project_from(p, id, from)->0].0 == id,
    decreases p.len() - from,
{
    if from < p.len() {
        lemma_project_bounds(p, id, from + 1);
    }
}

proof fn lemma_path_bounds(p: Seq<(Seq<char>, ProjectInfoView)>, path: Seq<char>, from: int)
    requires
        0 <= from,
    ensures
        project_at_path(p, path, from) is Some ==> from <= project_at_path(p, path, from)->0
            < p.len(),
    decreases p.len() - from,
{
    if from < p.len() {
        lemma_path_bounds(p, path, from + 1);
    }
}

/// The name of the project at a path.
pub fn project_name_of(path: &str) -> (r: String)
    ensures
        r@ == project_name(path@),
{
    let chars = chars_of(path);
    let mut start = chars.len();
    while start > 0 && chars[start - 1] != '/'
        invariant
            start <= chars.len(),
            last_part_from(chars@, chars.len() as int) == last_part_from(chars@, start as int),
        decreases start,
    {
        start = start - 1;
    }
    if start >= chars.len() {
        return "unnamed".to_owned();
    }
    let mut name: Vec<char> = Vec::new();
    let mut i = start;
    while i < chars.len()
        invariant
            start <= i <= chars.len(),
            name@ == chars@.subrange(start as int, i as int),
        decreases chars.len() - i,
    {
        name.push(chars[i]);
        proof {
            assert(chars@.subrange(start as int, i + 1) =~= chars@.subrange(
                start as int,
                i as int,
            ).push(chars@[i as int]));
        }
        i = i + 1;
    }
    string_of(&name)
}

impl ProjectRegistry {
    /// An empty registry.
    pub fn new() -> (r: Self)
        ensures
            r@ == (ProjectRegistryView {
                version: 1,
                projects: Seq::empty(),
                default_project: None,
            }),
    {
        let r = ProjectRegistry { version: 1, projects: Vec::new(), default_project: None };
        proof {
            assert(r@.projects =~= Seq::<(Seq<char>, ProjectInfoView)>::empty());
        }
        r
    }

    /// What is recorded of a project that has just been registered at a
    /// path, which the caller has made canonical.
    pub fn create_project_info(canonical_path: &str) -> (r: ProjectInfo)
        ensures
            r@ == fresh_info(canonical_path@),
    {
        ProjectInfo {
            path: canonical_path.to_owned(),
            name: project_name_of(canonical_path),
            symbol_count: 0,
            file_count: 0,
            last_modified: 0,
            doc_count: 0,
        }
    }

    fn position(&self, project_id: &str) -> (r: Option<usize>)
        ensures
            r is Some == project_from(self@.projects, project_id@, 0) is Some,
            r is Some ==> r->0 as int == project_from(self@.projects, project_id@, 0)->0 && r->0
                < self.projects@.len(),
    {
        let mut i: usize = 0;
        while i < self.projects.len()
            invariant
                i <= self.projects.len(),
                project_from(self@.projects, project_id@, 0) == project_from(
                    self@.projects,
                    project_id@,
                    i as int,
                ),
            decreases self.projects.len() - i,
        {
            if str_eq(self.projects[i].0.as_str(), project_id) {
                return Some(i);
            }
            i = i + 1;
        }
        None
    }

    /// Puts a project under an identifier, in the place of what stood
    /// there.
    pub fn add_project(&mut self, project_id: &str, project_info: ProjectInfo)
        ensures
            final(self)@ == with_project(old(self)@, project_id@, project_info@),
    {
        let ghost before = self@;
        match self.position(project_id) {
            Some(i) => {
                self.projects.set(i, (project_id.to_owned(), project_info));
                proof {
                    assert(self@.projects =~= before.projects.update(
                        i as int,
                        (project_id@, project_info@),
                    ));
                }
            },
            None => {
                self.projects.push((project_id.to_owned(), project_info));
                proof {
                    assert(self@.projects =~= before.projects.push((project_id@, project_info@)));
                }
            },
        }
    }

    /// The identifier and the record of the project whose root is the
    /// path, which the caller has made canonical.
    pub fn find_project_by_path(&self, canonical_path: &str) -> (r: Option<(String, &ProjectInfo)>)
        ensures
            r is Some == project_at_path(self@.projects, canonical_path@, 0) is Some,
            r is Some ==> found_project(
                self@,
                project_at_path(self@.projects, canonical_path@, 0)->0,
                r->0,
            ),
    {
        let mut i: usize = 0;
        while i < self.projects.len()
            invariant
                i <= self.projects.len(),
                project_at_path(self@.projects, canonical_path@, 0) == project_at_path(
                    self@.projects,
                    canonical_path@,
                    i as int,
                ),
            decreases self.projects.len() - i,
        {
            if str_eq(self.projects[i].1.path.as_str(), canonical_path) {
                return Some((self.projects[i].0.clone(), &self.projects[i].1));
            }
            i = i + 1;
        }
        None
    }

    /// What the registry knows of the project with the identifier.
    pub fn find_project_by_id(&self, project_id: &str) -> (r: Option<&ProjectInfo>)
        ensures
            r is Some == project_of(self@, project_id@) is Some,
            r is Some ==> r->0@ == project_of(self@, project_id@)->0,
    {
        match self.position(project_id) {
            Some(i) => Some(&self.projects[i].1),
            None => None,
        }
    }

    /// What the registry knows of the project with the identifier, to be
    /// changed in place: the registry then holds the changed record in the
    /// place of the old one, and is otherwise as it was.
    pub fn find_project_by_id_mut(&mut self, project_id: &str) -> (r: Option<&mut ProjectInfo>)
        ensures
            r is Some == project_of(old(self)@, project_id@) is Some,
            r is Some ==> (*r->0)@ == project_of(old(self)@, project_id@)->0,
            r is Some ==> final(self)@.version == old(self)@.version && final(self)@.default_project
                == old(self)@.default_project,
            r is Some ==> final(self)@.projects =~= with_project(
                old(self)@,
                project_id@,
                (*final(r.unwrap()))@,
            ).projects,
            r is None ==> final(self)@ == old(self)@,
    {
        match self.position(project_id) {
            Some(i) => {
                proof {
                    lemma_project_bounds(self@.projects, project_id@, 0);
                }
                Some(&mut self.projects[i].1)
            },
            None => None,
        }
    }

    /// Registers a project under a new identifier and returns the
    /// identifier.
    pub fn register_project(&mut self, canonical_path: &str, project_id: &ProjectId) -> (r: String)
        ensures
            r@ == project_id@,
            final(self)@ == with_project(old(self)@, project_id@, fresh_info(canonical_path@)),
    {
        let info = Self::create_project_info(canonical_path);
        self.add_project(project_id.as_str(), info);
        project_id.as_str().to_owned()
    }

    /// Registers the project at a path, or records it afresh where one is
    /// registered at that path already, and returns its identifier: the one
    /// it had, or `new_id`.
    pub fn register_or_update_project(&mut self, canonical_path: &str, new_id: &ProjectId) -> (r:
        String)
        ensures
            r@ == (match project_at_path(old(self)@.projects, canonical_path@, 0) {
                Some(i) => old(self)@.projects[i].0,
                None => new_id@,
            }),
            final(self)@ == with_project(old(self)@, r@, fresh_info(canonical_path@)),
    {
        let existing = match self.find_project_by_path(canonical_path) {
            Some(found) => Some(found.0),
            None => None,
        };
        let id = match existing {
            Some(id) => id,
            None => new_id.as_str().to_owned(),
        };
        let info = Self::create_project_info(canonical_path);
        self.add_project(id.as_str(), info);
        id
    }

    /// Records that a project has moved to a new path; its name follows
    /// the path. An unknown identifier is an error and changes nothing.
    pub fn update_project_path(&mut self, project_id: &str, new_path: &str) -> (r: Result<
        (),
        IndexError,
    >)
        ensures
            project_of(old(self)@, project_id@) is None ==> (r matches Err(IndexError::General(m))
                && m@ == "Project "@ + project_id@
                + " not found\nSuggestion: Run 'codanna init' in the project directory"@) && final(self)@ == old(self)@,
            project_of(old(self)@, project_id@) is Some ==> r is Ok && final(self)@ == with_project(
                old(self)@,
                project_id@,
                ProjectInfoView {
                    path: new_path@,
                    name: project_name(new_path@),
                    ..project_of(old(self)@, project_id@)->0
                },
            ),
    {
        let ghost before = self@;
        match self.position(project_id) {
            Some(i) => {
                let info = ProjectInfo {
                    path: new_path.to_owned(),
                    name: project_name_of(new_path),
                    symbol_count: self.projects[i].1.symbol_count,
                    file_count: self.projects[i].1.file_count,
                    last_modified: self.projects[i].1.last_modified,
                    doc_count: self.projects[i].1.doc_count,
                };
                self.projects.set(i, (project_id.to_owned(), info));
                proof {
                    assert(self@.projects =~= before.projects.update(
                        i as int,
                        (project_id@, info@),
                    ));
                }
                Ok(())
            },
            None => {
                let mut message = "Project ".to_owned();
                message.append(project_id);
                message.append(" not found\nSuggestion: Run 'codanna init' in the project directory");
                Err(IndexError::General(message))
            },
        }
    }
}

/// A project that is put under an identifier is found under it.
pub proof fn lemma_added_project_is_found(r: ProjectRegistryView, id: Seq<char>, info: ProjectInfoView)
    ensures
        project_of(with_project(r, id, info), id) == Some(info),
{
    lemma_project_bounds(r.projects, id, 0);
    match project_from(r.projects, id, 0) {
        Some(i) => {
            lemma_found_after_update(r.projects, id, info, i, 0);
        },
        None => {
            lemma_found_after_push(r.projects, id, info, 0);
        },
    }
}

proof fn lemma_found_after_update(
    p: Seq<(Seq<char>, ProjectInfoView)>,
    id: Seq<char>,
    info: ProjectInfoView,
    i: int,
    from: int,
)
    requires
        0 <= from <= i < p.len(),
        project_from(p, id, from) == Some(i),
    ensures
        project_from(p.update(i, (id, info)), id, from) == Some(i),
    decreases i - from,
{
    let q = p.update(i, (id, info));
    if from < i {
        lemma_project_bounds(p, id, from + 1);
        assert(p[from].0 != id);
        assert(q[from] == p[from]);
        lemma_found_after_update(p, id, info, i, from + 1);
    }
}

proof fn lemma_found_after_push(
    p: Seq<(Seq<char>, ProjectInfoView)>,
    id: Seq<char>,
    info: ProjectInfoView,
    from: int,
)
    requires
        0 <= from <= p.len(),
        project_from(p, id, from) is None,
    ensures
        project_from(p.push((id, info)), id, from) == Some(p.len() as int),
    decreases p.len() - from,
{
    let q = p.push((id, info));
    if from < p.len() {
        assert(q[from] == p[from]);
        lemma_found_after_push(p, id, info, from + 1);
    } else {
        assert(q[from] == (id, info));
    }
}

// ---------------------------------------------------------------------------
// Resolving the index path
// ---------------------------------------------------------------------------

/// The path starts at the root.
pub open spec fn is_absolute(path: Seq<char>) -> bool {
    path.len() > 0 && path[0] == '/'
}

/// The directory that holds a path: what stands before its last slash, and
/// nothing where it has no slash. The root and the empty path are in no
/// directory.
pub open spec fn parent_of(path: Seq<char>) -> Option<Seq<char>> {
    let start = last_part_from(path, path.len() as int);
    if path.len() == 0 || path == "/"@ {
        None
    } else if start == 0 {
        Some(Seq::empty())
    } else if start == 1 {
        Some("/"@)
    } else {
        Some(path.subrange(0, start - 1))
    }
}

/// The index path below a directory; an empty directory is the current
/// one.
pub open spec fn below(dir: Seq<char>, index_path: Seq<char>) -> Seq<char> {
    if dir.len() == 0 {
        index_path
    } else if dir.last() == '/' {
        dir + index_path
    } else {
        entry_of(dir, index_path)
    }
}

/// Where the index is, given the configured index path, the path of the
/// configuration file where one was named, and the workspace root where
/// one is set. An absolute index path stands as it is. Else it is taken
/// relative to the workspace that holds the configuration file: the
/// directory above the local directory where the file lies in one, else
/// the directory of the file. Without a configuration file it is taken
/// relative to the workspace root, and without that as it is.
pub open spec fn resolved_index_path(
    index_path: Seq<char>,
    config_path: Option<Seq<char>>,
    workspace_root: Option<Seq<char>>,
) -> Seq<char> {
    if is_absolute(index_path) {
        index_path
    } else if config_path is Some && parent_of(config_path->0) is Some {
        let parent = parent_of(config_path->0)->0;
        if project_name(parent) == ".codanna"@ && parent.len() > 0 && parent_of(parent) is Some {
            below(parent_of(parent)->0, index_path)
        } else {
            below(parent, index_path)
        }
    } else if workspace_root is Some {
        below(workspace_root->0, index_path)
    } else {
        index_path
    }
}

fn parent_exec(path: &Vec<char>) -> (r: Option<Vec<char>>)
    ensures
        r is Some == parent_of(path@) is Some,
        r is Some ==> r->0@ == parent_of(path@)->0,
{
    proof {
        reveal_strlit("/");
    }
    if path.len() == 0 || (path.len() == 1 && path[0] == '/') {
        proof {
            if path@.len() == 1 && path@[0] == '/' {
                assert(path@ =~= "/"@);
            }
        }
        return None;
    }
    proof {
        if path@ == "/"@ {
            assert(path@.len() == 1);
        }
    }
    let mut start = path.len();
    while start > 0 && path[start - 1] != '/'
        invariant
            start <= path.len(),
            last_part_from(path@, path.len() as int) == last_part_from(path@, start as int),
        decreases start,
    {
        start = start - 1;
    }
    let mut out: Vec<char> = Vec::new();
    if start == 0 {
        return Some(out);
    }
    if start == 1 {
        out.push('/');
        proof {
            assert(out@ =~= "/"@);
        }
        return Some(out);
    }
    let mut i: usize = 0;
    while i < start - 1
        invariant
            i <= start - 1,
            start <= path.len(),
            out@ == path@.subrange(0, i as int),
        decreases start - 1 - i,
    {
        out.push(path[i]);
        proof {
            assert(path@.subrange(0, i + 1) =~= path@.subrange(0, i as int).push(path@[i as int]));
        }
        i = i + 1;
    }
    Some(out)
}

fn below_exec(dir: &Vec<char>, index_path: &str) -> (r: String)
    ensures
        r@ == below(dir@, index_path@),
{
    if dir.len() == 0 {
        return index_path.to_owned();
    }
    let mut out = string_of(dir);
    if dir[dir.len() - 1] != '/' {
        out.append("/");
    }
    out.append(index_path);
    out
}

/// Resolves the index path of the settings, given the path of the
/// configuration file where one was named.
pub fn resolve_index_path(settings: &Settings, config_path: Option<&str>) -> (r: String)
    ensures
        r@ == resolved_index_path(
            settings.index_path@,
            crate::storage::shapes::opt_str_view(config_path),
            crate::text::opt_view(settings.workspace_root),
        ),
{
    let index_path = settings.index_path.as_str();
    let chars = chars_of(index_path);
    if chars.len() > 0 && chars[0] == '/' {
        return index_path.to_owned();
    }
    match config_path {
        Some(config) => {
            let config_chars = chars_of(config);
            match parent_exec(&config_chars) {
                Some(parent) => {
                    let parent_text = string_of(&parent);
                    let name = project_name_of(parent_text.as_str());
                    if str_eq(name.as_str(), ".codanna") && parent.len() > 0 {
                        match parent_exec(&parent) {
                            Some(workspace) => {
                                return below_exec(&workspace, index_path);
                            },
                            None => {},
                        }
                    }
                    return below_exec(&parent, index_path);
                },
                None => {},
            }
        },
        None => {},
    }
    match &settings.workspace_root {
        Some(root) => {
            let root_chars = chars_of(root.as_str());
            below_exec(&root_chars, index_path)
        },
        None => index_path.to_owned(),
    }
}

} // verus!
