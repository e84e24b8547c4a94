//! Persistent workspace data: projects, folders and their top-level order.
use vstd::prelude::*;

verus! {

/// Color tag of a project or folder.
#[derive(Clone, Copy, Debug, PartialEq, Eq, Structural)]
pub enum FolderColor {
    Default,
    Red,
    Orange,
    Yellow,
    Lime,
    Green,
    Teal,
    Cyan,
    Blue,
    Indigo,
    Purple,
    Pink,
}

impl Default for FolderColor {
    fn default() -> (c: Self)
        ensures
            c == FolderColor::Default,
    {
        FolderColor::Default
    }
}

impl FolderColor {
    /// The color used when none was chosen.
    pub fn default_color() -> (c: FolderColor)
        ensures
            c == FolderColor::Default,
    {
        FolderColor::Default
    }
}

/// Metadata of a project that is a git worktree of another project.
#[derive(Clone, Debug)]
pub struct WorktreeMetadata {
    pub parent_project_id: String,
    pub color_override: Option<FolderColor>,
    pub main_repo_path: String,
    pub worktree_path: String,
    pub branch_name: String,
}

/// One project of the workspace.
#[derive(Clone, Debug)]
pub struct ProjectData {
    pub id: String,
    pub name: String,
    pub path: String,
    pub show_in_overview: bool,
    pub worktree_info: Option<WorktreeMetadata>,
    pub worktree_ids: Vec<String>,
    pub folder_color: FolderColor,
    pub is_remote: bool,
    pub connection_id: Option<String>,
}

/// A sidebar folder grouping projects.
#[derive(Clone, Debug)]
pub struct FolderData {
    pub id: String,
    pub name: String,
    pub project_ids: Vec<String>,
    pub collapsed: bool,
    pub folder_color: FolderColor,
}

/// The persistent workspace: projects, folders and the top-level order
/// (which names both project ids and folder ids).
#[derive(Clone, Debug)]
pub struct WorkspaceData {
    pub version: u32,
    pub projects: Vec<ProjectData>,
    pub project_order: Vec<String>,
    pub folders: Vec<FolderData>,
}

/// A folder as plain values.
pub struct FolderView {
    pub id: Seq<char>,
    pub name: Seq<char>,
    pub project_ids: Seq<Seq<char>>,
    pub collapsed: bool,
    pub folder_color: FolderColor,
}

impl View for FolderData {
    type V = FolderView;

    open spec fn view(&self) -> FolderView {
        FolderView {
            id: self.id@,
            name: self.name@,
            project_ids: ids(self.project_ids@),
            collapsed: self.collapsed,
            folder_color: self.folder_color,
        }
    }
}

/// The folders of `s` as plain values.
pub open spec fn folder_views(s: Seq<FolderData>) -> Seq<FolderView> {
    s.map_values(|f: FolderData| f@)
}

/// The workspace data as plain values (projects are kept as they are).
pub struct WorkspaceView {
    pub version: u32,
    pub projects: Seq<ProjectData>,
    pub order: Seq<Seq<char>>,
    pub folders: Seq<FolderView>,
}

impl View for WorkspaceData {
    type V = WorkspaceView;

    open spec fn view(&self) -> WorkspaceView {
        WorkspaceView {
            version: self.version,
            projects: self.projects@,
            order: ids(self.project_order@),
            folders: folder_views(self.folders@),
        }
    }
}

/// The ids of a vector of strings, as character sequences.
pub open spec fn ids(v: Seq<String>) -> Seq<Seq<char>> {
    v.map_values(|s: String| s@)
}

/// Whether `id` occurs among the strings of `v`.
pub open spec fn has_id(v: Seq<String>, id: Seq<char>) -> bool {
    exists|j: int| 0 <= j < v.len() && #[trigger] v[j]@ == id
}

/// Index of the first project with the given id, from position `i` on.
pub open spec fn find_project_from(projects: Seq<ProjectData>, id: Seq<char>, i: int) -> Option<int>
    decreases projects.len() - i,
{
    if i < 0 || i >= projects.len() {
        None
    } else if projects[i].id@ == id {
        Some(i)
    } else {
        find_project_from(projects, id, i + 1)
    }
}

/// Index of the first project with the given id.
pub open spec fn find_project(projects: Seq<ProjectData>, id: Seq<char>) -> Option<int> {
    find_project_from(projects, id, 0)
}

/// Index of the first folder with the given id, from position `i` on.
pub open spec fn find_folder_from(folders: Seq<FolderData>, id: Seq<char>, i: int) -> Option<int>
    decreases folders.len() - i,
{
    if i < 0 || i >= folders.len() {
        None
    } else if folders[i].id@ == id {
        Some(i)
    } else {
        find_folder_from(folders, id, i + 1)
    }
}

/// Index of the first folder with the given id.
pub open spec fn find_folder(folders: Seq<FolderData>, id: Seq<char>) -> Option<int> {
    find_folder_from(folders, id, 0)
}

pub proof fn lemma_find_project_from(projects: Seq<ProjectData>, id: Seq<char>, i: int)
    requires
        0 <= i <= projects.len(),
    ensures
        find_project_from(projects, id, i) matches Some(k) ==> i <= k < projects.len()
            && projects[k].id@ == id && forall|j: int| i <= j < k ==> projects[j].id@ != id,
        find_project_from(projects, id, i) is None ==> forall|j: int|
            i <= j < projects.len() ==> projects[j].id@ != id,
    decreases projects.len() - i,
{
    if i < projects.len() {
        lemma_find_project_from(projects, id, i + 1);
    }
}

pub proof fn lemma_find_folder_from(folders: Seq<FolderData>, id: Seq<char>, i: int)
    requires
        0 <= i <= folders.len(),
    ensures
        find_folder_from(folders, id, i) matches Some(k) ==> i <= k < folders.len()
            && folders[k].id@ == id && forall|j: int| i <= j < k ==> folders[j].id@ != id,
        find_folder_from(folders, id, i) is None ==> forall|j: int|
            i <= j < folders.len() ==> folders[j].id@ != id,
    decreases folders.len() - i,
{
    if i < folders.len() {
        lemma_find_folder_from(folders, id, i + 1);
    }
}

/// Position of the first project with id `id`.
pub fn project_index(projects: &Vec<ProjectData>, id: &String) -> (r: Option<usize>)
    ensures
        r matches Some(k) ==> find_project(projects@, id@) == Some(k as int) && k < projects@.len()
            && projects@[k as int].id@ == id@,
        r is None ==> find_project(projects@, id@) is None,
{
    let mut i: usize = 0;
    while i < projects.len()
        invariant
            i <= projects.len(),
            find_project(projects@, id@) == find_project_from(projects@, id@, i as int),
        decreases projects.len() - i,
    {
        if projects[i].id == *id {
            return Some(i);
        }
        i += 1;
    }
    None
}

/// Position of the first folder with id `id`.
pub fn folder_index(folders: &Vec<FolderData>, id: &String) -> (r: Option<usize>)
    ensures
        r matches Some(k) ==> find_folder(folders@, id@) == Some(k as int) && k < folders@.len()
            && folders@[k as int].id@ == id@,
        r is None ==> find_folder(folders@, id@) is None,
{
    let mut i: usize = 0;
    while i < folders.len()
        invariant
            i <= folders.len(),
            find_folder(folders@, id@) == find_folder_from(folders@, id@, i as int),
        decreases folders.len() - i,
    {
        if folders[i].id == *id {
            return Some(i);
        }
        i += 1;
    }
    None
}

/// Whether some string of `v` equals `id`.
pub fn contains_id(v: &Vec<String>, id: &String) -> (r: bool)
    ensures
        r == has_id(v@, id@),
{
    let mut i: usize = 0;
    while i < v.len()
        invariant
            i <= v.len(),
            forall|j: int| 0 <= j < i ==> v@[j]@ != id@,
        decreases v.len() - i,
    {
        if v[i] == *id {
            return true;
        }
        i += 1;
    }
    false
}

} // verus!
