//! Keyboard navigation of the sidebar: which rows exist, in the order they
//! are drawn, and how the cursor moves over them.
//!
//! Rows: each top-level entry of the project order is a folder (then, unless
//! it is collapsed, its projects) or a project. A project whose worktrees are
//! listed is a group header with the main project and each worktree below
//! it, shown unless the worktree list is collapsed; any other project is a
//! plain row. An expanded project lists its terminals, services and hook
//! terminals, each group under a header that can be collapsed. Worktrees
//! whose parent project exists are only shown below that parent.
use vstd::prelude::*;
use crate::lifecycle::{id_set, with};
use crate::state::{ProjectData, WorkspaceData, contains_id, find_folder, folder_index};
use crate::workspace::{Workspace, child_ids};

verus! {

broadcast use vstd::string::group_string_axioms;

/// The kinds of rows listed below an expanded project.
#[derive(Clone, Copy, Debug, PartialEq, Eq, Structural)]
pub enum GroupKind {
    Terminals,
    Services,
    Hooks,
}

impl GroupKind {
    /// The header text of the group.
    pub fn label(&self) -> (r: &'static str)
        ensures
            r@ == group_label(*self),
    {
        match self {
            GroupKind::Terminals => "Terminals",
            GroupKind::Services => "Services",
            GroupKind::Hooks => "Hooks",
        }
    }
}

/// The header text of group `g`.
pub open spec fn group_label(g: GroupKind) -> Seq<char> {
    match g {
        GroupKind::Terminals => "Terminals"@,
        GroupKind::Services => "Services"@,
        GroupKind::Hooks => "Hooks"@,
    }
}

/// One row the keyboard cursor can stand on.
#[derive(Clone, Debug)]
pub enum SidebarCursorItem {
    Folder { folder_id: String },
    Project { project_id: String },
    WorktreeProject { project_id: String },
    GroupHeader { project_id: String, group: GroupKind },
    Terminal { project_id: String, terminal_id: String },
    Service { project_id: String, service_name: String },
    Hook { project_id: String, terminal_id: String },
    RemoteConnection { connection_id: String },
    RemoteProject { connection_id: String, project_id: String },
}

/// A cursor row as plain values.
pub enum CursorItemView {
    Folder(Seq<char>),
    Project(Seq<char>),
    WorktreeProject(Seq<char>),
    GroupHeader(Seq<char>, GroupKind),
    Terminal(Seq<char>, Seq<char>),
    Service(Seq<char>, Seq<char>),
    Hook(Seq<char>, Seq<char>),
    RemoteConnection(Seq<char>),
    RemoteProject(Seq<char>, Seq<char>),
}

impl View for SidebarCursorItem {
    type V = CursorItemView;

    open spec fn view(&self) -> CursorItemView {
        match self {
            SidebarCursorItem::Folder { folder_id } => CursorItemView::Folder(folder_id@),
            SidebarCursorItem::Project { project_id } => CursorItemView::Project(project_id@),
            SidebarCursorItem::WorktreeProject { project_id } => CursorItemView::WorktreeProject(project_id@),
            SidebarCursorItem::GroupHeader { project_id, group } => CursorItemView::GroupHeader(project_id@, *group),
            SidebarCursorItem::Terminal { project_id, terminal_id } => CursorItemView::Terminal(project_id@, terminal_id@),
            SidebarCursorItem::Service { project_id, service_name } => CursorItemView::Service(project_id@, service_name@),
            SidebarCursorItem::Hook { project_id, terminal_id } => CursorItemView::Hook(project_id@, terminal_id@),
            SidebarCursorItem::RemoteConnection { connection_id } => CursorItemView::RemoteConnection(connection_id@),
            SidebarCursorItem::RemoteProject { connection_id, project_id } => CursorItemView::RemoteProject(
                connection_id@,
                project_id@,
            ),
        }
    }
}

/// The rows of `v` as plain values.
pub open spec fn item_views(v: Seq<SidebarCursorItem>) -> Seq<CursorItemView> {
    v.map_values(|i: SidebarCursorItem| i@)
}

/// What the sidebar lists below a project that come from elsewhere: the
/// terminals of its layout, its services and its hook terminals, in order.
#[derive(Clone, Debug)]
pub struct ProjectRows {
    pub project_id: String,
    pub terminal_ids: Vec<String>,
    pub service_names: Vec<String>,
    pub hook_terminal_ids: Vec<String>,
}

/// Index of the first entry of `rows` for project `pid`.
pub open spec fn rows_for(rows: Seq<ProjectRows>, pid: Seq<char>) -> Option<int>
    decreases rows.len(),
{
    if rows.len() == 0 {
        None
    } else {
        match rows_for(rows.drop_last(), pid) {
            Some(i) => Some(i),
            None => if rows.last().project_id@ == pid {
                Some(rows.len() - 1)
            } else {
                None
            },
        }
    }
}

/// Index of the last project with id `id` (a later project with the same id
/// hides an earlier one).
pub open spec fn last_project(projects: Seq<ProjectData>, id: Seq<char>) -> Option<int>
    decreases projects.len(),
{
    if projects.len() == 0 {
        None
    } else if projects.last().id@ == id {
        Some(projects.len() - 1)
    } else {
        last_project(projects.drop_last(), id)
    }
}

/// The projects named by the worktree ids `wt[0..k]`, in order, skipping ids
/// that name no project.
pub open spec fn child_list(projects: Seq<ProjectData>, wt: Seq<String>, k: int) -> Seq<int>
    decreases k,
{
    if k <= 0 {
        seq![]
    } else {
        let prev = child_list(projects, wt, k - 1);
        match last_project(projects, wt[k - 1]@) {
            Some(c) => prev.push(c),
            None => prev,
        }
    }
}

/// The listed worktrees of project `projects[q]`.
pub open spec fn children_at(projects: Seq<ProjectData>, q: int) -> Seq<int> {
    child_list(projects, projects[q].worktree_ids@, projects[q].worktree_ids@.len() as int)
}

/// The worktree rows of the parent id `pid`, looking at `projects[0..n]`
/// from the end: the last project with that id and at least one listed
/// worktree decides.
pub open spec fn children_from(projects: Seq<ProjectData>, pid: Seq<char>, n: int) -> Seq<int>
    decreases n,
{
    if n <= 0 || n > projects.len() {
        seq![]
    } else if projects[n - 1].id@ == pid && children_at(projects, n - 1).len() > 0 {
        children_at(projects, n - 1)
    } else {
        children_from(projects, pid, n - 1)
    }
}

/// The worktree rows listed below parent id `pid`.
pub open spec fn children_of(projects: Seq<ProjectData>, pid: Seq<char>) -> Seq<int> {
    children_from(projects, pid, projects.len() as int)
}

/// Whether project `p` is a worktree whose parent project exists (such a
/// project is only listed below its parent).
pub open spec fn shown_under_parent(projects: Seq<ProjectData>, p: ProjectData) -> bool {
    p.worktree_info is Some && last_project(projects, p.worktree_info->0.parent_project_id@) is Some
}

/// The expansion state of the sidebar rows and the keyboard cursor.
pub struct SidebarNav {
    /// Projects whose terminals and services are shown (a set).
    pub expanded_projects: Vec<String>,
    /// Parents whose worktree list is hidden (a set; shown by default).
    pub collapsed_worktrees: Vec<String>,
    /// Collapsed groups below projects (a set).
    pub collapsed_groups: Vec<(String, GroupKind)>,
    /// The row the keyboard cursor stands on.
    pub cursor_index: Option<usize>,
}

/// The collapsed groups as a set.
pub open spec fn group_set(v: Seq<(String, GroupKind)>) -> Set<(Seq<char>, GroupKind)> {
    Set::new(|x: (Seq<char>, GroupKind)| exists|j: int| 0 <= j < v.len() && (#[trigger] v[j]).0@ == x.0 && v[j].1 == x.1)
}

impl SidebarNav {
    pub open spec fn expanded(self) -> Set<Seq<char>> {
        id_set(self.expanded_projects@)
    }

    pub open spec fn worktrees_collapsed(self) -> Set<Seq<char>> {
        id_set(self.collapsed_worktrees@)
    }

    pub open spec fn groups_collapsed(self) -> Set<(Seq<char>, GroupKind)> {
        group_set(self.collapsed_groups@)
    }
}

/// The rows of group `g` of project `pid` listing `names`: nothing when
/// there are none, else a header and, unless the group is collapsed, one
/// row per name.
pub open spec fn group_block(nav: SidebarNav, pid: Seq<char>, g: GroupKind, names: Seq<String>) -> Seq<CursorItemView> {
    if names.len() == 0 {
        seq![]
    } else {
        seq![CursorItemView::GroupHeader(pid, g)] + (if nav.groups_collapsed().contains((pid, g)) {
            seq![]
        } else {
            leaf_rows(pid, g, names, names.len() as int)
        })
    }
}

/// The row of one entry of group `g` of project `pid`.
pub open spec fn leaf_row(pid: Seq<char>, g: GroupKind, name: Seq<char>) -> CursorItemView {
    match g {
        GroupKind::Terminals => CursorItemView::Terminal(pid, name),
        GroupKind::Services => CursorItemView::Service(pid, name),
        GroupKind::Hooks => CursorItemView::Hook(pid, name),
    }
}

/// The rows of `names[0..k]` in group `g` of project `pid`.
pub open spec fn leaf_rows(pid: Seq<char>, g: GroupKind, names: Seq<String>, k: int) -> Seq<CursorItemView>
    decreases k,
{
    if k <= 0 {
        seq![]
    } else {
        leaf_rows(pid, g, names, k - 1).push(leaf_row(pid, g, names[k - 1]@))
    }
}

/// The group rows below expanded project `pid`.
pub open spec fn group_rows(nav: SidebarNav, rows: Seq<ProjectRows>, pid: Seq<char>) -> Seq<CursorItemView> {
    match rows_for(rows, pid) {
        Some(i) => group_block(nav, pid, GroupKind::Terminals, rows[i].terminal_ids@) + group_block(
            nav,
            pid,
            GroupKind::Services,
            rows[i].service_names@,
        ) + group_block(nav, pid, GroupKind::Hooks, rows[i].hook_terminal_ids@),
        None => seq![],
    }
}

/// The group rows of `pid` when it is expanded.
pub open spec fn detail_rows(nav: SidebarNav, rows: Seq<ProjectRows>, pid: Seq<char>) -> Seq<CursorItemView> {
    if nav.expanded().contains(pid) {
        group_rows(nav, rows, pid)
    } else {
        seq![]
    }
}

/// The rows of worktrees `cs[0..k]`: each worktree and its details.
pub open spec fn worktree_rows(
    nav: SidebarNav,
    projects: Seq<ProjectData>,
    rows: Seq<ProjectRows>,
    cs: Seq<int>,
    k: int,
) -> Seq<CursorItemView>
    decreases k,
{
    if k <= 0 {
        seq![]
    } else {
        let id = projects[cs[k - 1]].id@;
        worktree_rows(nav, projects, rows, cs, k - 1) + seq![CursorItemView::WorktreeProject(id)] + detail_rows(
            nav,
            rows,
            id,
        )
    }
}

/// The rows of project `projects[pi]`.
pub open spec fn project_rows(nav: SidebarNav, projects: Seq<ProjectData>, rows: Seq<ProjectRows>, pi: int) -> Seq<CursorItemView> {
    let p = projects[pi];
    let cs = children_of(projects, p.id@);
    if cs.len() > 0 && p.worktree_info is None {
        seq![CursorItemView::Project(p.id@)] + (if !nav.worktrees_collapsed().contains(p.id@) {
            seq![CursorItemView::WorktreeProject(p.id@)] + detail_rows(nav, rows, p.id@) + worktree_rows(
                nav,
                projects,
                rows,
                cs,
                cs.len() as int,
            )
        } else {
            seq![]
        })
    } else {
        seq![CursorItemView::Project(p.id@)] + detail_rows(nav, rows, p.id@)
    }
}

/// The rows of the project with id `id` listed at top level or in a folder:
/// none when there is no such project or it is shown under its parent.
pub open spec fn entry_rows(nav: SidebarNav, projects: Seq<ProjectData>, rows: Seq<ProjectRows>, id: Seq<char>) -> Seq<CursorItemView> {
    match last_project(projects, id) {
        Some(pi) => if shown_under_parent(projects, projects[pi]) {
            seq![]
        } else {
            project_rows(nav, projects, rows, pi)
        },
        None => seq![],
    }
}

/// The rows of the folder's projects `pids[0..k]`.
pub open spec fn folder_rows(
    nav: SidebarNav,
    projects: Seq<ProjectData>,
    rows: Seq<ProjectRows>,
    pids: Seq<String>,
    k: int,
) -> Seq<CursorItemView>
    decreases k,
{
    if k <= 0 {
        seq![]
    } else {
        folder_rows(nav, projects, rows, pids, k - 1) + entry_rows(nav, projects, rows, pids[k - 1]@)
    }
}

/// The rows of top-level entry `id`: a folder and its projects, or a project.
pub open spec fn order_entry_rows(nav: SidebarNav, data: WorkspaceData, rows: Seq<ProjectRows>, id: Seq<char>) -> Seq<CursorItemView> {
    let folders = data.folders@;
    match find_folder(folders, id) {
        Some(fi) => seq![CursorItemView::Folder(folders[fi].id@)] + (if folders[fi].collapsed {
            seq![]
        } else {
            folder_rows(nav, data.projects@, rows, folders[fi].project_ids@, folders[fi].project_ids@.len() as int)
        }),
        None => entry_rows(nav, data.projects@, rows, id),
    }
}

/// The rows of the top-level entries `order[0..k]`.
pub open spec fn order_rows(nav: SidebarNav, data: WorkspaceData, rows: Seq<ProjectRows>, k: int) -> Seq<CursorItemView>
    decreases k,
{
    if k <= 0 {
        seq![]
    } else {
        order_rows(nav, data, rows, k - 1) + order_entry_rows(nav, data, rows, data.project_order@[k - 1]@)
    }
}

/// Every cursor row of the sidebar, in drawing order.
pub open spec fn cursor_rows(nav: SidebarNav, data: WorkspaceData, rows: Seq<ProjectRows>) -> Seq<CursorItemView> {
    order_rows(nav, data, rows, data.project_order@.len() as int)
}

/// The indices of `v` as integers.
pub open spec fn as_ints(v: Seq<usize>) -> Seq<int> {
    v.map_values(|x: usize| x as int)
}

proof fn lemma_views_push(v: Seq<SidebarCursorItem>, x: SidebarCursorItem)
    ensures
        item_views(v.push(x)) == item_views(v).push(x@),
{
    assert(item_views(v.push(x)) =~= item_views(v).push(x@));
}

proof fn lemma_last_project_take(projects: Seq<ProjectData>, id: Seq<char>, i: int)
    requires
        0 < i <= projects.len(),
    ensures
        last_project(projects.take(i), id) == (if projects[i - 1].id@ == id {
            Some(i - 1)
        } else {
            last_project(projects.take(i - 1), id)
        }),
{
    assert(projects.take(i).drop_last() =~= projects.take(i - 1));
}

/// Position of the last project with id `id`.
pub(crate) fn last_project_index(projects: &Vec<ProjectData>, id: &String) -> (r: Option<usize>)
    ensures
        match r {
            Some(k) => last_project(projects@, id@) == Some(k as int) && k < projects@.len(),
            None => last_project(projects@, id@) is None,
        },
{
    let mut i: usize = projects.len();
    assert(projects@.take(i as int) =~= projects@);
    while i > 0
        invariant
            i <= projects@.len(),
            last_project(projects@, id@) == last_project(projects@.take(i as int), id@),
        decreases i,
    {
        proof { lemma_last_project_take(projects@, id@, i as int); }
        if projects[i - 1].id == *id {
            return Some(i - 1);
        }
        i -= 1;
    }
    None
}

/// Position of the first entry of `rows` for project `pid`.
fn rows_index(rows: &Vec<ProjectRows>, pid: &String) -> (r: Option<usize>)
    ensures
        match r {
            Some(k) => rows_for(rows@, pid@) == Some(k as int) && k < rows@.len(),
            None => rows_for(rows@, pid@) is None,
        },
{
    let mut i: usize = 0;
    while i < rows.len()
        invariant
            i <= rows@.len(),
            rows_for(rows@.take(i as int), pid@) is None,
        decreases rows.len() - i,
    {
        assert(rows@.take(i + 1).drop_last() =~= rows@.take(i as int));
        if rows[i].project_id == *pid {
            assert(rows_for(rows@.take(i + 1), pid@) == Some(i as int));
            proof { lemma_rows_for_prefix(rows@, pid@, i + 1); }
            return Some(i);
        }
        i += 1;
    }
    assert(rows@.take(rows@.len() as int) =~= rows@);
    None
}

/// A hit in a prefix of `rows` is the hit of `rows`.
proof fn lemma_rows_for_prefix(rows: Seq<ProjectRows>, pid: Seq<char>, i: int)
    requires
        0 <= i <= rows.len(),
        rows_for(rows.take(i), pid) is Some,
    ensures
        rows_for(rows, pid) == rows_for(rows.take(i), pid),
    decreases rows.len() - i,
{
    if i < rows.len() {
        assert(rows.take(i + 1).drop_last() =~= rows.take(i));
        lemma_rows_for_prefix(rows, pid, i + 1);
    } else {
        assert(rows.take(i) =~= rows);
    }
}

/// The listed worktrees of project `q`.
pub(crate) fn child_indices(projects: &Vec<ProjectData>, q: usize) -> (r: Vec<usize>)
    requires
        q < projects@.len(),
    ensures
        as_ints(r@) == children_at(projects@, q as int),
{
    let wt = &projects[q].worktree_ids;
    let mut r: Vec<usize> = Vec::new();
    let mut k: usize = 0;
    while k < wt.len()
        invariant
            k <= wt@.len(),
            wt@ == projects@[q as int].worktree_ids@,
            as_ints(r@) == child_list(projects@, wt@, k as int),
        decreases wt.len() - k,
    {
        match last_project_index(projects, &wt[k]) {
            Some(c) => {
                r.push(c);
                assert(as_ints(r@) =~= child_list(projects@, wt@, k as int).push(c as int));
            },
            None => {},
        }
        k += 1;
    }
    r
}

/// The worktree rows listed below parent id `pid`.
fn children_of_id(projects: &Vec<ProjectData>, pid: &String) -> (r: Vec<usize>)
    ensures
        as_ints(r@) == children_of(projects@, pid@),
        forall|j: int| 0 <= j < r@.len() ==> (#[trigger] r@[j]) < projects@.len(),
{
    let mut n: usize = projects.len();
    while n > 0
        invariant
            n <= projects@.len(),
            children_of(projects@, pid@) == children_from(projects@, pid@, n as int),
        decreases n,
    {
        if projects[n - 1].id == *pid {
            let cs = child_indices(projects, n - 1);
            if cs.len() > 0 {
                proof { lemma_child_list_bounded(projects@, projects@[n - 1].worktree_ids@, projects@[n - 1].worktree_ids@.len() as int); }
                assert forall|j: int| 0 <= j < cs@.len() implies (#[trigger] cs@[j]) < projects@.len() by {
                    assert(as_ints(cs@)[j] == cs@[j] as int);
                }
                return cs;
            }
        }
        n -= 1;
    }
    let r: Vec<usize> = Vec::new();
    assert(as_ints(r@) =~= seq![]);
    r
}

pub(crate) proof fn lemma_last_project_bounded(projects: Seq<ProjectData>, id: Seq<char>)
    ensures
        last_project(projects, id) matches Some(k) ==> 0 <= k < projects.len() && projects[k].id@ == id,
    decreases projects.len(),
{
    if projects.len() > 0 && projects.last().id@ != id {
        lemma_last_project_bounded(projects.drop_last(), id);
    }
}

pub(crate) proof fn lemma_child_list_bounded(projects: Seq<ProjectData>, wt: Seq<String>, k: int)
    ensures
        forall|j: int| 0 <= j < child_list(projects, wt, k).len() ==> 0 <= #[trigger] child_list(projects, wt, k)[j] < projects.len(),
    decreases k,
{
    if k > 0 {
        lemma_child_list_bounded(projects, wt, k - 1);
        lemma_last_project_bounded(projects, wt[k - 1]@);
        let prev = child_list(projects, wt, k - 1);
        let cur = child_list(projects, wt, k);
        assert forall|j: int| 0 <= j < cur.len() implies 0 <= #[trigger] cur[j] < projects.len() by {
            if j < prev.len() {
                assert(cur[j] == prev[j]);
            }
        }
    }
}

impl SidebarNav {
    /// Whether project `pid` shows its terminals and services.
    pub fn is_expanded(&self, pid: &String) -> (r: bool)
        ensures
            r == self.expanded().contains(pid@),
    {
        contains_id(&self.expanded_projects, pid)
    }

    /// Whether the worktree list of parent `pid` is hidden.
    pub fn is_worktrees_collapsed(&self, pid: &String) -> (r: bool)
        ensures
            r == self.worktrees_collapsed().contains(pid@),
    {
        contains_id(&self.collapsed_worktrees, pid)
    }

    /// Whether group `group` of project `project_id` is collapsed.
    pub fn is_group_collapsed(&self, project_id: &String, group: GroupKind) -> (r: bool)
        ensures
            r == self.groups_collapsed().contains((project_id@, group)),
    {
        let mut i: usize = 0;
        while i < self.collapsed_groups.len()
            invariant
                i <= self.collapsed_groups@.len(),
                forall|j: int| 0 <= j < i ==> !((#[trigger] self.collapsed_groups@[j]).0@ == project_id@
                    && self.collapsed_groups@[j].1 == group),
            decreases self.collapsed_groups.len() - i,
        {
            if self.collapsed_groups[i].0 == *project_id && self.collapsed_groups[i].1 == group {
                assert(group_set(self.collapsed_groups@).contains((project_id@, group)));
                return true;
            }
            i += 1;
        }
        false
    }

    /// Appends the rows of `names` in group `g` of project `pid`.
    fn push_leaves(items: &mut Vec<SidebarCursorItem>, pid: &String, g: GroupKind, names: &Vec<String>)
        ensures
            item_views(final(items)@) == item_views(old(items)@) + leaf_rows(pid@, g, names@, names@.len() as int),
    {
        let ghost start = item_views(items@);
        let mut k: usize = 0;
        while k < names.len()
            invariant
                k <= names@.len(),
                item_views(items@) == start + leaf_rows(pid@, g, names@, k as int),
            decreases names.len() - k,
        {
            let item = match g {
                GroupKind::Terminals => SidebarCursorItem::Terminal { project_id: pid.clone(), terminal_id: names[k].clone() },
                GroupKind::Services => SidebarCursorItem::Service { project_id: pid.clone(), service_name: names[k].clone() },
                GroupKind::Hooks => SidebarCursorItem::Hook { project_id: pid.clone(), terminal_id: names[k].clone() },
            };
            assert(item@ == leaf_row(pid@, g, names@[k as int]@));
            proof { lemma_views_push(items@, item); }
            items.push(item);
            assert(start + leaf_rows(pid@, g, names@, k + 1) =~= (start + leaf_rows(pid@, g, names@, k as int)).push(item@));
            k += 1;
        }
    }

    /// Appends the rows of group `g` of project `pid` listing `names`.
    fn push_group_block(&self, items: &mut Vec<SidebarCursorItem>, pid: &String, g: GroupKind, names: &Vec<String>)
        ensures
            item_views(final(items)@) == item_views(old(items)@) + group_block(*self, pid@, g, names@),
    {
        if names.len() == 0 {
            assert(item_views(items@) + group_block(*self, pid@, g, names@) =~= item_views(items@));
            return;
        }
        let ghost start = item_views(items@);
        let header = SidebarCursorItem::GroupHeader { project_id: pid.clone(), group: g };
        proof { lemma_views_push(items@, header); }
        items.push(header);
        if !self.is_group_collapsed(pid, g) {
            Self::push_leaves(items, pid, g, names);
        }
        assert(item_views(items@) =~= start + group_block(*self, pid@, g, names@));
    }

    /// Appends the group rows below project `pid`.
    fn push_group_rows(&self, items: &mut Vec<SidebarCursorItem>, rows: &Vec<ProjectRows>, pid: &String)
        ensures
            item_views(final(items)@) == item_views(old(items)@) + group_rows(*self, rows@, pid@),
    {
        let ghost start = item_views(items@);
        match rows_index(rows, pid) {
            Some(i) => {
                self.push_group_block(items, pid, GroupKind::Terminals, &rows[i].terminal_ids);
                self.push_group_block(items, pid, GroupKind::Services, &rows[i].service_names);
                self.push_group_block(items, pid, GroupKind::Hooks, &rows[i].hook_terminal_ids);
                assert(item_views(items@) =~= start + group_rows(*self, rows@, pid@));
            },
            None => {
                assert(item_views(items@) =~= start + group_rows(*self, rows@, pid@));
            },
        }
    }

    /// Appends the group rows of `pid` when it is expanded.
    fn push_detail_rows(&self, items: &mut Vec<SidebarCursorItem>, rows: &Vec<ProjectRows>, pid: &String)
        ensures
            item_views(final(items)@) == item_views(old(items)@) + detail_rows(*self, rows@, pid@),
    {
        if self.is_expanded(pid) {
            self.push_group_rows(items, rows, pid);
        } else {
            assert(item_views(items@) + detail_rows(*self, rows@, pid@) =~= item_views(items@));
        }
    }
}

impl SidebarNav {
    /// Appends the rows of project `projects[pi]`.
    fn push_project_rows(
        &self,
        items: &mut Vec<SidebarCursorItem>,
        projects: &Vec<ProjectData>,
        rows: &Vec<ProjectRows>,
        pi: usize,
    )
        requires
            pi < projects@.len(),
        ensures
            item_views(final(items)@) == item_views(old(items)@) + project_rows(*self, projects@, rows@, pi as int),
    {
        let ghost start = item_views(items@);
        let p = &projects[pi];
        let cs = children_of_id(projects, &p.id);
        let head = SidebarCursorItem::Project { project_id: p.id.clone() };
        proof { lemma_views_push(items@, head); }
        items.push(head);
        if cs.len() > 0 && p.worktree_info.is_none() {
            if !self.is_worktrees_collapsed(&p.id) {
                let main = SidebarCursorItem::WorktreeProject { project_id: p.id.clone() };
                proof { lemma_views_push(items@, main); }
                items.push(main);
                self.push_detail_rows(items, rows, &p.id);
                let ghost mid = item_views(items@);
                let mut k: usize = 0;
                while k < cs.len()
                    invariant
                        k <= cs@.len(),
                        forall|j: int| 0 <= j < cs@.len() ==> (#[trigger] cs@[j]) < projects@.len(),
                        item_views(items@) == mid + worktree_rows(*self, projects@, rows@, as_ints(cs@), k as int),
                    decreases cs.len() - k,
                {
                    let c = cs[k];
                    let cid = &projects[c].id;
                    let ghost before = item_views(items@);
                    let row = SidebarCursorItem::WorktreeProject { project_id: cid.clone() };
                    proof { lemma_views_push(items@, row); }
                    items.push(row);
                    self.push_detail_rows(items, rows, cid);
                    assert(as_ints(cs@)[k as int] == c as int);
                    assert(item_views(items@) =~= mid + worktree_rows(*self, projects@, rows@, as_ints(cs@), k + 1));
                    k += 1;
                }
                assert(item_views(items@) =~= start + project_rows(*self, projects@, rows@, pi as int));
            } else {
                assert(item_views(items@) =~= start + project_rows(*self, projects@, rows@, pi as int));
            }
        } else {
            self.push_detail_rows(items, rows, &p.id);
            assert(item_views(items@) =~= start + project_rows(*self, projects@, rows@, pi as int));
        }
    }

    /// Appends the rows of the project with id `id`, unless it is missing or
    /// shown under its parent.
    fn push_entry_rows(
        &self,
        items: &mut Vec<SidebarCursorItem>,
        projects: &Vec<ProjectData>,
        rows: &Vec<ProjectRows>,
        id: &String,
    )
        ensures
            item_views(final(items)@) == item_views(old(items)@) + entry_rows(*self, projects@, rows@, id@),
    {
        match last_project_index(projects, id) {
            Some(pi) => {
                let hidden = match &projects[pi].worktree_info {
                    Some(w) => last_project_index(projects, &w.parent_project_id).is_some(),
                    None => false,
                };
                if hidden {
                    assert(item_views(items@) + entry_rows(*self, projects@, rows@, id@) =~= item_views(items@));
                } else {
                    self.push_project_rows(items, projects, rows, pi);
                }
            },
            None => {
                assert(item_views(items@) + entry_rows(*self, projects@, rows@, id@) =~= item_views(items@));
            },
        }
    }

    /// Every cursor row of the sidebar for `data`, in drawing order; `rows`
    /// gives the terminals, services and hook terminals of each project.
    pub fn build_cursor_items(&self, data: &WorkspaceData, rows: &Vec<ProjectRows>) -> (r: Vec<SidebarCursorItem>)
        ensures
            item_views(r@) == cursor_rows(*self, *data, rows@),
    {
        let mut items: Vec<SidebarCursorItem> = Vec::new();
        assert(item_views(items@) =~= order_rows(*self, *data, rows@, 0));
        let mut k: usize = 0;
        while k < data.project_order.len()
            invariant
                k <= data.project_order@.len(),
                item_views(items@) == order_rows(*self, *data, rows@, k as int),
            decreases data.project_order.len() - k,
        {
            let id = &data.project_order[k];
            let ghost before = item_views(items@);
            match folder_index(&data.folders, id) {
                Some(fi) => {
                    let folder = &data.folders[fi];
                    let head = SidebarCursorItem::Folder { folder_id: folder.id.clone() };
                    proof { lemma_views_push(items@, head); }
                    items.push(head);
                    if !folder.collapsed {
                        let ghost mid = item_views(items@);
                        let pids = &folder.project_ids;
                        let mut j: usize = 0;
                        while j < pids.len()
                            invariant
                                j <= pids@.len(),
                                item_views(items@) == mid + folder_rows(*self, data.projects@, rows@, pids@, j as int),
                            decreases pids.len() - j,
                        {
                            self.push_entry_rows(&mut items, &data.projects, rows, &pids[j]);
                            assert(item_views(items@) =~= mid + folder_rows(*self, data.projects@, rows@, pids@, j + 1));
                            j += 1;
                        }
                    }
                    assert(item_views(items@) =~= before + order_entry_rows(*self, *data, rows@, id@));
                },
                None => {
                    self.push_entry_rows(&mut items, &data.projects, rows, id);
                },
            }
            assert(item_views(items@) =~= order_rows(*self, *data, rows@, k + 1));
            k += 1;
        }
        items
    }
}

/// `v` without the entries equal to `x`, as a set: `x` removed.
fn without_group(v: &Vec<(String, GroupKind)>, pid: &String, g: GroupKind) -> (r: Vec<(String, GroupKind)>)
    ensures
        group_set(r@) == group_set(v@).remove((pid@, g)),
{
    let mut r: Vec<(String, GroupKind)> = Vec::new();
    let mut i: usize = 0;
    while i < v.len()
        invariant
            i <= v@.len(),
            group_set(r@) == group_set(v@.take(i as int)).remove((pid@, g)),
        decreases v.len() - i,
    {
        let ghost before = r@;
        let same = v[i].0 == *pid && v[i].1 == g;
        if !same {
            r.push((v[i].0.clone(), v[i].1));
        }
        assert(group_set(r@) =~= group_set(v@.take(i + 1)).remove((pid@, g))) by {
            assert forall|x: (Seq<char>, GroupKind)| group_set(r@).contains(x) == group_set(v@.take(i + 1)).remove((pid@, g)).contains(x) by {
                if group_set(r@).contains(x) {
                    let j = choose|j: int| 0 <= j < r@.len() && (#[trigger] r@[j]).0@ == x.0 && r@[j].1 == x.1;
                    if j < before.len() {
                        assert(before[j] == r@[j]);
                        assert(group_set(before).contains(x));
                        let m = choose|m: int| 0 <= m < i && (#[trigger] v@.take(i as int)[m]).0@ == x.0 && v@.take(i as int)[m].1 == x.1;
                        assert(v@.take(i + 1)[m] == v@.take(i as int)[m]);
                    } else {
                        assert(v@.take(i + 1)[i as int] == v@[i as int]);
                    }
                }
                if group_set(v@.take(i + 1)).remove((pid@, g)).contains(x) {
                    let m = choose|m: int| 0 <= m < i + 1 && (#[trigger] v@.take(i + 1)[m]).0@ == x.0 && v@.take(i + 1)[m].1 == x.1;
                    if m < i {
                        assert(v@.take(i as int)[m] == v@.take(i + 1)[m]);
                        assert(group_set(v@.take(i as int)).contains(x));
                        assert(group_set(before).contains(x));
                        let j = choose|j: int| 0 <= j < before.len() && (#[trigger] before[j]).0@ == x.0 && before[j].1 == x.1;
                        assert(r@[j] == before[j]);
                    } else {
                        assert(r@[before.len() as int] == (v@[i as int].0, v@[i as int].1));
                    }
                }
            }
        }
        i += 1;
    }
    assert(v@.take(v@.len() as int) =~= v@);
    r
}

/// What the sidebar asks the rest of the window to do after a key.
#[derive(Clone, Debug)]
pub enum SidebarAction {
    /// Focus a project; `individual` leaves its worktrees out.
    FocusProject { project_id: String, individual: bool },
    /// Focus a terminal of a project.
    FocusTerminal { project_id: String, terminal_id: String },
    /// Collapse or expand a folder.
    ToggleFolder { folder_id: String },
    /// Start a stopped service or stop a running one.
    ToggleService { project_id: String, service_name: String },
    /// Collapse or expand a remote connection.
    ToggleConnection { connection_id: String },
}

/// A `SidebarAction` as plain values.
pub enum ActionView {
    FocusProject(Seq<char>, bool),
    FocusTerminal(Seq<char>, Seq<char>),
    ToggleFolder(Seq<char>),
    ToggleService(Seq<char>, Seq<char>),
    ToggleConnection(Seq<char>),
}

impl View for SidebarAction {
    type V = ActionView;

    open spec fn view(&self) -> ActionView {
        match self {
            SidebarAction::FocusProject { project_id, individual } => ActionView::FocusProject(project_id@, *individual),
            SidebarAction::FocusTerminal { project_id, terminal_id } => ActionView::FocusTerminal(project_id@, terminal_id@),
            SidebarAction::ToggleFolder { folder_id } => ActionView::ToggleFolder(folder_id@),
            SidebarAction::ToggleService { project_id, service_name } => ActionView::ToggleService(project_id@, service_name@),
            SidebarAction::ToggleConnection { connection_id } => ActionView::ToggleConnection(connection_id@),
        }
    }
}

/// The row under the cursor, if the cursor stands on one of `items`.
pub open spec fn row_at(cursor: Option<usize>, items: Seq<CursorItemView>) -> Option<CursorItemView> {
    match cursor {
        Some(i) => if i < items.len() {
            Some(items[i as int])
        } else {
            None
        },
        None => None,
    }
}

/// What confirming row `row` asks for; `has_worktrees` tells whether a
/// project row has worktrees (then it focuses the project with them).
pub open spec fn confirm_action(row: CursorItemView, has_worktrees: bool) -> Option<ActionView> {
    match row {
        CursorItemView::Project(pid) => Some(ActionView::FocusProject(pid, !has_worktrees)),
        CursorItemView::WorktreeProject(pid) => Some(ActionView::FocusProject(pid, true)),
        CursorItemView::RemoteProject(_, pid) => Some(ActionView::FocusProject(pid, true)),
        CursorItemView::Terminal(pid, tid) => Some(ActionView::FocusTerminal(pid, tid)),
        CursorItemView::Hook(pid, tid) => Some(ActionView::FocusTerminal(pid, tid)),
        CursorItemView::Folder(fid) => Some(ActionView::ToggleFolder(fid)),
        CursorItemView::Service(pid, name) => Some(ActionView::ToggleService(pid, name)),
        CursorItemView::RemoteConnection(cid) => Some(ActionView::ToggleConnection(cid)),
        CursorItemView::GroupHeader(_, _) => None,
    }
}

/// Whether confirming `row` moves the focus away from the sidebar (the
/// cursor is then put away).
pub open spec fn confirm_leaves(row: CursorItemView) -> bool {
    match row {
        CursorItemView::Project(_) | CursorItemView::WorktreeProject(_) | CursorItemView::RemoteProject(_, _)
        | CursorItemView::Terminal(_, _) | CursorItemView::Hook(_, _) => true,
        _ => false,
    }
}

/// Whether project `pid` of `ws` has worktrees.
pub open spec fn has_worktrees(ws: Workspace, pid: Seq<char>) -> bool {
    child_ids(ws.data.projects@, pid).len() > 0
}

/// Index of the first project or main-worktree row of `items[0..k]` for
/// project `fid`.
pub open spec fn first_focus_row(items: Seq<CursorItemView>, fid: Seq<char>, k: int) -> Option<int>
    decreases k,
{
    if k <= 0 {
        None
    } else {
        match first_focus_row(items, fid, k - 1) {
            Some(i) => Some(i),
            None => match items[k - 1] {
                CursorItemView::Project(pid) => if pid == fid { Some(k - 1) } else { None },
                CursorItemView::WorktreeProject(pid) => if pid == fid { Some(k - 1) } else { None },
                _ => None,
            },
        }
    }
}

/// `s` with `x` taken out when it is in, put in otherwise.
pub open spec fn toggled<A>(s: Set<A>, x: A) -> Set<A> {
    if s.contains(x) {
        s.remove(x)
    } else {
        s.insert(x)
    }
}

/// The cursor kept on one of `n` rows: none without rows, else at most
/// the last row.
pub open spec fn validated(c: Option<usize>, n: usize) -> Option<usize> {
    if n == 0 {
        None
    } else {
        match c {
            Some(i) => Some(if i >= n { (n - 1) as usize } else { i }),
            None => None,
        }
    }
}

/// The cursor one row up among `n` rows: from nowhere to the last row,
/// staying on the first.
pub open spec fn moved_up(c: Option<usize>, n: usize) -> Option<usize> {
    if n == 0 {
        c
    } else {
        match c {
            Some(i) => if i > 0 { Some((i - 1) as usize) } else { Some(i) },
            None => Some((n - 1) as usize),
        }
    }
}

/// The cursor one row down among `n` rows: from nowhere to the first row,
/// staying on the last.
pub open spec fn moved_down(c: Option<usize>, n: usize) -> Option<usize> {
    if n == 0 {
        c
    } else {
        match c {
            Some(i) => if i < n - 1 { Some((i + 1) as usize) } else { Some(i) },
            None => Some(0usize),
        }
    }
}

/// Whether cursor `c` stands on one of `n` rows.
pub open spec fn on_a_row(c: Option<usize>, n: usize) -> bool {
    c matches Some(i) && i < n
}

/// Toggling the same entry twice restores the set (expansion, worktree
/// lists and groups alike).
pub proof fn law_toggle_twice<A>(s: Set<A>, x: A)
    ensures
        toggled(toggled(s, x), x) == s,
{
    assert(toggled(toggled(s, x), x) =~= s);
}

/// Moving the cursor up or down keeps it on a row when there are rows and
/// it was on one or nowhere; keeping it valid always puts it on a row or
/// nowhere.
pub proof fn law_cursor_stays_on_rows(c: Option<usize>, n: usize)
    requires
        n > 0,
        c is None || on_a_row(c, n),
    ensures
        on_a_row(moved_up(c, n), n),
        on_a_row(moved_down(c, n), n),
        validated(c, n) is None || on_a_row(validated(c, n), n),
{
}

/// Away from the edges, one row down undoes one row up, and one row up
/// undoes one row down.
pub proof fn law_up_down_inverse(i: usize, n: usize)
    requires
        i < n,
    ensures
        0 < i ==> moved_down(moved_up(Some(i), n), n) == Some(i),
        i + 1 < n ==> moved_up(moved_down(Some(i), n), n) == Some(i),
{
}

impl SidebarNav {
    /// Nothing expanded or collapsed, and no cursor.
    pub fn new() -> (n: Self)
        ensures
            n.expanded() == Set::<Seq<char>>::empty(),
            n.worktrees_collapsed() == Set::<Seq<char>>::empty(),
            n.groups_collapsed() == Set::<(Seq<char>, GroupKind)>::empty(),
            n.cursor_index is None,
    {
        let n = SidebarNav {
            expanded_projects: Vec::new(),
            collapsed_worktrees: Vec::new(),
            collapsed_groups: Vec::new(),
            cursor_index: None,
        };
        assert(n.expanded() =~= Set::<Seq<char>>::empty());
        assert(n.worktrees_collapsed() =~= Set::<Seq<char>>::empty());
        assert(n.groups_collapsed() =~= Set::<(Seq<char>, GroupKind)>::empty());
        n
    }

    /// Whether a project row shows its children: for a parent of worktrees
    /// unless its worktree list is collapsed, for another project when it
    /// is expanded.
    pub fn is_project_expanded(&self, project_id: &String, has_worktrees: bool) -> (r: bool)
        ensures
            r == (if has_worktrees {
                !self.worktrees_collapsed().contains(project_id@)
            } else {
                self.expanded().contains(project_id@)
            }),
    {
        if has_worktrees {
            !self.is_worktrees_collapsed(project_id)
        } else {
            self.is_expanded(project_id)
        }
    }

    /// Expands project `project_id`'s details, or collapses them.
    pub fn toggle_expanded(&mut self, project_id: &String)
        ensures
            final(self).expanded() == toggled(old(self).expanded(), project_id@),
            final(self).collapsed_worktrees == old(self).collapsed_worktrees,
            final(self).collapsed_groups == old(self).collapsed_groups,
            final(self).cursor_index == old(self).cursor_index,
    {
        if self.is_expanded(project_id) {
            self.expanded_projects = crate::lifecycle::without(&self.expanded_projects, project_id.as_str());
        } else {
            with(&mut self.expanded_projects, project_id.as_str());
        }
    }

    /// Hides parent `project_id`'s worktree list, or shows it again.
    pub fn toggle_worktrees_collapsed(&mut self, project_id: &String)
        ensures
            final(self).worktrees_collapsed() == toggled(old(self).worktrees_collapsed(), project_id@),
            final(self).expanded_projects == old(self).expanded_projects,
            final(self).collapsed_groups == old(self).collapsed_groups,
            final(self).cursor_index == old(self).cursor_index,
    {
        if self.is_worktrees_collapsed(project_id) {
            self.collapsed_worktrees = crate::lifecycle::without(&self.collapsed_worktrees, project_id.as_str());
        } else {
            with(&mut self.collapsed_worktrees, project_id.as_str());
        }
    }

    /// Collapses group `group` of project `project_id`, or expands it.
    pub fn toggle_group(&mut self, project_id: &String, group: GroupKind)
        ensures
            final(self).groups_collapsed() == toggled(old(self).groups_collapsed(), (project_id@, group)),
            final(self).expanded_projects == old(self).expanded_projects,
            final(self).collapsed_worktrees == old(self).collapsed_worktrees,
            final(self).cursor_index == old(self).cursor_index,
    {
        if self.is_group_collapsed(project_id, group) {
            self.collapsed_groups = without_group(&self.collapsed_groups, project_id, group);
        } else {
            let ghost before = self.collapsed_groups@;
            self.collapsed_groups.push((project_id.clone(), group));
            assert(group_set(self.collapsed_groups@) =~= group_set(before).insert((project_id@, group))) by {
                assert forall|x: (Seq<char>, GroupKind)| #[trigger] group_set(self.collapsed_groups@).contains(x) == group_set(before).insert((project_id@, group)).contains(x) by {
                    if group_set(self.collapsed_groups@).contains(x) {
                        let j = choose|j: int| 0 <= j < self.collapsed_groups@.len() && (#[trigger] self.collapsed_groups@[j]).0@ == x.0 && self.collapsed_groups@[j].1 == x.1;
                        if j < before.len() {
                            assert(before[j] == self.collapsed_groups@[j]);
                        }
                    }
                    if group_set(before).contains(x) {
                        let j = choose|j: int| 0 <= j < before.len() && (#[trigger] before[j]).0@ == x.0 && before[j].1 == x.1;
                        assert(self.collapsed_groups@[j] == before[j]);
                    }
                    if x == (project_id@, group) {
                        assert(self.collapsed_groups@[before.len() as int].0@ == project_id@);
                        assert(self.collapsed_groups@[before.len() as int].1 == group);
                    }
                }
            }
        }
    }

    /// Keeps the cursor on a row: none when there are no rows, else at
    /// most on the last one.
    pub fn validate_cursor(&mut self, item_count: usize)
        ensures
            final(self).cursor_index == validated(old(self).cursor_index, item_count),
            final(self).expanded_projects == old(self).expanded_projects,
            final(self).collapsed_worktrees == old(self).collapsed_worktrees,
            final(self).collapsed_groups == old(self).collapsed_groups,
    {
        if item_count == 0 {
            self.cursor_index = None;
        } else {
            match self.cursor_index {
                Some(i) => if i >= item_count {
                    self.cursor_index = Some(item_count - 1);
                },
                None => {},
            }
        }
    }

    /// Moves the cursor one row up among `item_count` rows; from nowhere
    /// it lands on the last row, on the first row it stays.
    pub fn cursor_up(&mut self, item_count: usize)
        ensures
            final(self).cursor_index == moved_up(old(self).cursor_index, item_count),
            final(self).expanded_projects == old(self).expanded_projects,
            final(self).collapsed_worktrees == old(self).collapsed_worktrees,
            final(self).collapsed_groups == old(self).collapsed_groups,
    {
        if item_count == 0 {
            return;
        }
        match self.cursor_index {
            Some(i) => if i > 0 {
                self.cursor_index = Some(i - 1);
            },
            None => {
                self.cursor_index = Some(item_count - 1);
            },
        }
    }

    /// Moves the cursor one row down among `item_count` rows; from nowhere
    /// it lands on the first row, on the last row it stays.
    pub fn cursor_down(&mut self, item_count: usize)
        ensures
            final(self).cursor_index == moved_down(old(self).cursor_index, item_count),
            final(self).expanded_projects == old(self).expanded_projects,
            final(self).collapsed_worktrees == old(self).collapsed_worktrees,
            final(self).collapsed_groups == old(self).collapsed_groups,
    {
        if item_count == 0 {
            return;
        }
        match self.cursor_index {
            Some(i) => if i < item_count - 1 {
                self.cursor_index = Some(i + 1);
            },
            None => {
                self.cursor_index = Some(0);
            },
        }
    }

    /// Puts the cursor away.
    pub fn clear_cursor(&mut self)
        ensures
            final(self).cursor_index is None,
            final(self).expanded_projects == old(self).expanded_projects,
            final(self).collapsed_worktrees == old(self).collapsed_worktrees,
            final(self).collapsed_groups == old(self).collapsed_groups,
    {
        self.cursor_index = None;
    }

    /// Puts the cursor on the row of the focused project (its first project
    /// or main-worktree row), else on the first row; no rows, no cursor.
    pub fn activate_cursor(&mut self, items: &Vec<SidebarCursorItem>, focused: Option<&String>)
        ensures
            final(self).cursor_index == (if items@.len() == 0 {
                None
            } else {
                match focused {
                    Some(f) => match first_focus_row(item_views(items@), f@, items@.len() as int) {
                        Some(i) => Some(i as usize),
                        None => Some(0usize),
                    },
                    None => Some(0usize),
                }
            }),
            final(self).expanded_projects == old(self).expanded_projects,
            final(self).collapsed_worktrees == old(self).collapsed_worktrees,
            final(self).collapsed_groups == old(self).collapsed_groups,
    {
        if items.len() == 0 {
            self.cursor_index = None;
            return;
        }
        match focused {
            Some(f) => {
                let ghost v = item_views(items@);
                let mut i: usize = 0;
                while i < items.len()
                    invariant
                        i <= items@.len(),
                        items@.len() > 0,
                        v == item_views(items@),
                        first_focus_row(v, f@, i as int) is None,
                        *self == *old(self),
                        focused == Some(f),
                    decreases items.len() - i,
                {
                    let hit = match &items[i] {
                        SidebarCursorItem::Project { project_id } => *project_id == *f,
                        SidebarCursorItem::WorktreeProject { project_id } => *project_id == *f,
                        _ => false,
                    };
                    assert(v[i as int] == items@[i as int]@);
                    if hit {
                        assert(first_focus_row(v, f@, i + 1) == Some(i as int));
                        proof { lemma_first_focus_row_prefix(v, f@, i + 1); }
                        assert(v.len() == items@.len());
                        self.cursor_index = Some(i);
                        return;
                    }
                    i += 1;
                }
                self.cursor_index = Some(0);
            },
            None => {
                self.cursor_index = Some(0);
            },
        }
    }

    /// Confirms the row under the cursor among `items`: a project, worktree
    /// or terminal row asks for focus and puts the cursor away; a group
    /// header collapses or expands its group; folder, service and connection
    /// rows ask for their toggle. Nothing happens without a row.
    pub fn confirm(&mut self, ws: &Workspace, items: &Vec<SidebarCursorItem>) -> (r: Option<SidebarAction>)
        ensures
            match row_at(old(self).cursor_index, item_views(items@)) {
                None => r is None && *final(self) == *old(self),
                Some(row) => {
                    &&& (match r {
                        Some(a) => Some(a@),
                        None => None,
                    }) == confirm_action(row, row matches CursorItemView::Project(pid) && has_worktrees(*ws, pid))
                    &&& final(self).cursor_index == (if confirm_leaves(row) {
                        None
                    } else {
                        old(self).cursor_index
                    })
                    &&& final(self).expanded_projects == old(self).expanded_projects
                    &&& final(self).collapsed_worktrees == old(self).collapsed_worktrees
                    &&& (row matches CursorItemView::GroupHeader(pid, g) ==> final(self).groups_collapsed() == toggled(old(self).groups_collapsed(), (pid, g)))
                    &&& (!(row is GroupHeader) ==> final(self).collapsed_groups == old(self).collapsed_groups)
                },
            },
    {
        let idx = match self.cursor_index {
            Some(i) => i,
            None => return None,
        };
        if idx >= items.len() {
            return None;
        }
        assert(item_views(items@)[idx as int] == items@[idx as int]@);
        match &items[idx] {
            SidebarCursorItem::Project { project_id } => {
                let kids = ws.worktree_child_ids(project_id.as_str());
                let has = kids.len() > 0;
                assert(has == has_worktrees(*ws, project_id@)) by {
                    assert(crate::state::ids(kids@).len() == kids@.len());
                }
                self.cursor_index = None;
                Some(SidebarAction::FocusProject { project_id: project_id.clone(), individual: !has })
            },
            SidebarCursorItem::WorktreeProject { project_id } => {
                self.cursor_index = None;
                Some(SidebarAction::FocusProject { project_id: project_id.clone(), individual: true })
            },
            SidebarCursorItem::RemoteProject { connection_id: _, project_id } => {
                self.cursor_index = None;
                Some(SidebarAction::FocusProject { project_id: project_id.clone(), individual: true })
            },
            SidebarCursorItem::Terminal { project_id, terminal_id } => {
                self.cursor_index = None;
                Some(SidebarAction::FocusTerminal { project_id: project_id.clone(), terminal_id: terminal_id.clone() })
            },
            SidebarCursorItem::Hook { project_id, terminal_id } => {
                self.cursor_index = None;
                Some(SidebarAction::FocusTerminal { project_id: project_id.clone(), terminal_id: terminal_id.clone() })
            },
            SidebarCursorItem::Folder { folder_id } => Some(SidebarAction::ToggleFolder { folder_id: folder_id.clone() }),
            SidebarCursorItem::GroupHeader { project_id, group } => {
                self.toggle_group(project_id, *group);
                None
            },
            SidebarCursorItem::Service { project_id, service_name } => Some(
                SidebarAction::ToggleService { project_id: project_id.clone(), service_name: service_name.clone() },
            ),
            SidebarCursorItem::RemoteConnection { connection_id } => Some(
                SidebarAction::ToggleConnection { connection_id: connection_id.clone() },
            ),
        }
    }

    /// Expands or collapses the row under the cursor: a folder asks for its
    /// toggle, a project toggles its worktree list when it has worktrees and
    /// its details otherwise, a worktree row toggles its details, a group
    /// header its group, a connection row asks for its toggle.
    pub fn toggle_expand(&mut self, ws: &Workspace, items: &Vec<SidebarCursorItem>) -> (r: Option<SidebarAction>)
        ensures
            final(self).cursor_index == old(self).cursor_index,
            match row_at(old(self).cursor_index, item_views(items@)) {
                Some(CursorItemView::Folder(fid)) => r matches Some(a) && a@ == ActionView::ToggleFolder(fid)
                    && *final(self) == *old(self),
                Some(CursorItemView::RemoteConnection(cid)) => r matches Some(a) && a@ == ActionView::ToggleConnection(cid)
                    && *final(self) == *old(self),
                Some(CursorItemView::Project(pid)) => r is None && if has_worktrees(*ws, pid) {
                    &&& final(self).worktrees_collapsed() == toggled(old(self).worktrees_collapsed(), pid)
                    &&& final(self).expanded() == old(self).expanded()
                    &&& final(self).groups_collapsed() == old(self).groups_collapsed()
                } else {
                    &&& final(self).expanded() == toggled(old(self).expanded(), pid)
                    &&& final(self).worktrees_collapsed() == old(self).worktrees_collapsed()
                    &&& final(self).groups_collapsed() == old(self).groups_collapsed()
                },
                Some(CursorItemView::WorktreeProject(pid)) => r is None && {
                    &&& final(self).expanded() == toggled(old(self).expanded(), pid)
                    &&& final(self).worktrees_collapsed() == old(self).worktrees_collapsed()
                    &&& final(self).groups_collapsed() == old(self).groups_collapsed()
                },
                Some(CursorItemView::GroupHeader(pid, g)) => r is None && {
                    &&& final(self).groups_collapsed() == toggled(old(self).groups_collapsed(), (pid, g))
                    &&& final(self).expanded() == old(self).expanded()
                    &&& final(self).worktrees_collapsed() == old(self).worktrees_collapsed()
                },
                _ => r is None && *final(self) == *old(self),
            },
    {
        let idx = match self.cursor_index {
            Some(i) => i,
            None => return None,
        };
        if idx >= items.len() {
            return None;
        }
        assert(item_views(items@)[idx as int] == items@[idx as int]@);
        match &items[idx] {
            SidebarCursorItem::Folder { folder_id } => Some(SidebarAction::ToggleFolder { folder_id: folder_id.clone() }),
            SidebarCursorItem::RemoteConnection { connection_id } => Some(
                SidebarAction::ToggleConnection { connection_id: connection_id.clone() },
            ),
            SidebarCursorItem::Project { project_id } => {
                let kids = ws.worktree_child_ids(project_id.as_str());
                assert((kids.len() > 0) == has_worktrees(*ws, project_id@)) by {
                    assert(crate::state::ids(kids@).len() == kids@.len());
                }
                if kids.len() > 0 {
                    self.toggle_worktrees_collapsed(project_id);
                } else {
                    self.toggle_expanded(project_id);
                }
                None
            },
            SidebarCursorItem::WorktreeProject { project_id } => {
                self.toggle_expanded(project_id);
                None
            },
            SidebarCursorItem::GroupHeader { project_id, group } => {
                self.toggle_group(project_id, *group);
                None
            },
            _ => None,
        }
    }
}

proof fn lemma_first_focus_row_prefix(items: Seq<CursorItemView>, fid: Seq<char>, k: int)
    requires
        0 <= k <= items.len(),
        first_focus_row(items, fid, k) is Some,
    ensures
        first_focus_row(items, fid, items.len() as int) == first_focus_row(items, fid, k),
    decreases items.len() - k,
{
    if k < items.len() {
        lemma_first_focus_row_prefix(items, fid, k + 1);
    }
}

} // verus!
