//! The sidebar's item tree: the top-level entries in order, each a folder
//! with its projects or a project, every project with its worktree
//! children, and the flags and services shown on each row.
//!
//! A worktree whose parent project exists is listed only under that parent,
//! with the parent's color; a worktree whose parent is missing is an orphan
//! row of its own. The services of each project (given as plain values)
//! are attached to the first row of that project, and a parent's worktree
//! list to the first row of that parent.
use vstd::prelude::*;
use crate::lifecycle::{id_set, with};
use crate::sidebar_cursor::{
    as_ints, child_indices, child_list, children_at, last_project, last_project_index, lemma_child_list_bounded,
    lemma_last_project_bounded, shown_under_parent,
};
use crate::state::{
    FolderColor, FolderData, FolderView, ProjectData, WorkspaceData, contains_id, find_folder, folder_index,
};

verus! {

broadcast use vstd::string::group_string_axioms;

/// What a sidebar row shows of a project; `S` is what a service row shows.
pub struct SidebarProjectInfo<S> {
    pub id: String,
    pub name: String,
    pub show_in_overview: bool,
    pub folder_color: FolderColor,
    /// A worktree whose parent project no longer exists.
    pub is_orphan: bool,
    /// Number of worktree children listed below the row.
    pub worktree_count: usize,
    pub parent_project_id: Option<String>,
    pub services: Vec<S>,
    /// Being closed (a hook runs or its removal is in progress).
    pub is_closing: bool,
    /// Being created (worktree creation in progress).
    pub is_creating: bool,
    pub is_worktree: bool,
}

/// A `SidebarProjectInfo` as plain values.
pub struct InfoView<S> {
    pub id: Seq<char>,
    pub name: Seq<char>,
    pub show_in_overview: bool,
    pub folder_color: FolderColor,
    pub is_orphan: bool,
    pub worktree_count: usize,
    pub parent_project_id: Option<Seq<char>>,
    pub services: Seq<S>,
    pub is_closing: bool,
    pub is_creating: bool,
    pub is_worktree: bool,
}

impl<S> View for SidebarProjectInfo<S> {
    type V = InfoView<S>;

    open spec fn view(&self) -> InfoView<S> {
        InfoView {
            id: self.id@,
            name: self.name@,
            show_in_overview: self.show_in_overview,
            folder_color: self.folder_color,
            is_orphan: self.is_orphan,
            worktree_count: self.worktree_count,
            parent_project_id: match self.parent_project_id {
                Some(p) => Some(p@),
                None => None,
            },
            services: self.services@,
            is_closing: self.is_closing,
            is_creating: self.is_creating,
            is_worktree: self.is_worktree,
        }
    }
}

/// The rows of `v` as plain values.
pub open spec fn info_views<S>(v: Seq<SidebarProjectInfo<S>>) -> Seq<InfoView<S>> {
    v.map_values(|i: SidebarProjectInfo<S>| i@)
}

/// An entry of the sidebar's top-level order.
pub enum SidebarItem<S> {
    /// A project at `index` of the top-level order, with its worktrees.
    Project { project: SidebarProjectInfo<S>, index: usize, worktree_children: Vec<SidebarProjectInfo<S>> },
    /// A folder at `index` of the top-level order, with its projects and,
    /// for each project that has some, its worktrees.
    Folder {
        folder: FolderData,
        index: usize,
        projects: Vec<SidebarProjectInfo<S>>,
        worktree_children: Vec<(String, Vec<SidebarProjectInfo<S>>)>,
    },
}

/// A `SidebarItem` as plain values.
pub enum ItemView<S> {
    Project { project: InfoView<S>, index: usize, worktree_children: Seq<InfoView<S>> },
    Folder {
        folder: FolderView,
        index: usize,
        projects: Seq<InfoView<S>>,
        worktree_children: Seq<(Seq<char>, Seq<InfoView<S>>)>,
    },
}

/// The worktree lists of a folder as plain values.
pub open spec fn child_lists<S>(v: Seq<(String, Vec<SidebarProjectInfo<S>>)>) -> Seq<(Seq<char>, Seq<InfoView<S>>)> {
    v.map_values(|e: (String, Vec<SidebarProjectInfo<S>>)| (e.0@, info_views(e.1@)))
}

impl<S> View for SidebarItem<S> {
    type V = ItemView<S>;

    open spec fn view(&self) -> ItemView<S> {
        match self {
            SidebarItem::Project { project, index, worktree_children } => ItemView::Project {
                project: project@,
                index: *index,
                worktree_children: info_views(worktree_children@),
            },
            SidebarItem::Folder { folder, index, projects, worktree_children } => ItemView::Folder {
                folder: folder@,
                index: *index,
                projects: info_views(projects@),
                worktree_children: child_lists(worktree_children@),
            },
        }
    }
}

/// The items of `v` as plain values.
pub open spec fn item_views<S>(v: Seq<SidebarItem<S>>) -> Seq<ItemView<S>> {
    v.map_values(|i: SidebarItem<S>| i@)
}

/// Services not yet attached to a row: the entry for a project id, or none
/// once a row took it.
pub open spec fn slot_views<S>(v: Seq<Option<(String, Vec<S>)>>) -> Seq<Option<(Seq<char>, Seq<S>)>> {
    v.map_values(|o: Option<(String, Vec<S>)>| match o {
        Some(e) => Some((e.0@, e.1@)),
        None => None,
    })
}

/// Index of the first service entry from `i` on still waiting for project `id`.
pub open spec fn find_slot<S>(slots: Seq<Option<(Seq<char>, Seq<S>)>>, id: Seq<char>, i: int) -> Option<int>
    decreases slots.len() - i,
{
    if i < 0 || i >= slots.len() {
        None
    } else if slots[i] matches Some(e) && e.0 == id {
        Some(i)
    } else {
        find_slot(slots, id, i + 1)
    }
}

/// `info` with the services of its project attached, and the entries left.
pub open spec fn with_services<S>(info: InfoView<S>, slots: Seq<Option<(Seq<char>, Seq<S>)>>) -> (
    InfoView<S>,
    Seq<Option<(Seq<char>, Seq<S>)>>,
) {
    match find_slot(slots, info.id, 0) {
        Some(j) => (InfoView { services: slots[j].unwrap().1, ..info }, slots.update(j, None)),
        None => (info, slots),
    }
}

/// `infos[0..k]` each with its services attached, in order.
pub open spec fn attach_all<S>(infos: Seq<InfoView<S>>, slots: Seq<Option<(Seq<char>, Seq<S>)>>, k: int) -> (
    Seq<InfoView<S>>,
    Seq<Option<(Seq<char>, Seq<S>)>>,
)
    decreases k,
{
    if k <= 0 {
        (seq![], slots)
    } else {
        let (prev, s) = attach_all(infos, slots, k - 1);
        let (info, s2) = with_services(infos[k - 1], s);
        (prev.push(info), s2)
    }
}

/// The row of project `p` before worktrees and services are known.
pub open spec fn base_info<S>(p: ProjectData, closing: Set<Seq<char>>, creating: Set<Seq<char>>) -> InfoView<S> {
    InfoView {
        id: p.id@,
        name: p.name@,
        show_in_overview: p.show_in_overview,
        folder_color: p.folder_color,
        is_orphan: false,
        worktree_count: 0,
        parent_project_id: match p.worktree_info {
            Some(w) => Some(w.parent_project_id@),
            None => None,
        },
        services: seq![],
        is_closing: closing.contains(p.id@),
        is_creating: creating.contains(p.id@),
        is_worktree: p.worktree_info is Some,
    }
}

/// The project among `projects[0..n]`, looking from the end, whose listed
/// worktrees give the worktree children of parent id `pid`: the last with
/// that id and at least one worktree found.
pub open spec fn children_src(projects: Seq<ProjectData>, pid: Seq<char>, n: int) -> Option<int>
    decreases n,
{
    if n <= 0 || n > projects.len() {
        None
    } else if projects[n - 1].id@ == pid && children_at(projects, n - 1).len() > 0 {
        Some(n - 1)
    } else {
        children_src(projects, pid, n - 1)
    }
}

/// The rows of worktrees `cs[0..k]`, shown in color `color`.
pub open spec fn child_infos<S>(
    projects: Seq<ProjectData>,
    cs: Seq<int>,
    color: FolderColor,
    closing: Set<Seq<char>>,
    creating: Set<Seq<char>>,
    k: int,
) -> Seq<InfoView<S>>
    decreases k,
{
    if k <= 0 {
        seq![]
    } else {
        child_infos(projects, cs, color, closing, creating, k - 1).push(
            InfoView { folder_color: color, ..base_info(projects[cs[k - 1]], closing, creating) },
        )
    }
}

/// The worktree rows of parent id `pid` that its first row takes: none when
/// an earlier row took them (`used`) or it has none.
pub open spec fn taken_children<S>(
    projects: Seq<ProjectData>,
    pid: Seq<char>,
    closing: Set<Seq<char>>,
    creating: Set<Seq<char>>,
    used: Set<Seq<char>>,
) -> Option<Seq<InfoView<S>>> {
    match children_src(projects, pid, projects.len() as int) {
        Some(q) => if used.contains(pid) {
            None
        } else {
            let cs = children_at(projects, q);
            Some(child_infos(projects, cs, projects[q].folder_color, closing, creating, cs.len() as int))
        },
        None => None,
    }
}

/// The row of `projects[pi]` and its worktree rows, with services attached
/// (the worktrees' first, then its own), and what is left taken: the
/// parents whose worktrees went to a row, and the service entries.
pub open spec fn project_row<S>(
    projects: Seq<ProjectData>,
    closing: Set<Seq<char>>,
    creating: Set<Seq<char>>,
    pi: int,
    used: Set<Seq<char>>,
    slots: Seq<Option<(Seq<char>, Seq<S>)>>,
) -> (InfoView<S>, Option<Seq<InfoView<S>>>, Set<Seq<char>>, Seq<Option<(Seq<char>, Seq<S>)>>) {
    let p = projects[pi];
    let taken = taken_children::<S>(projects, p.id@, closing, creating, used);
    let children0 = match taken {
        Some(c) => c,
        None => seq![],
    };
    let info0 = InfoView::<S> {
        is_orphan: p.worktree_info is Some && !shown_under_parent(projects, p),
        worktree_count: children0.len() as usize,
        ..base_info(p, closing, creating)
    };
    let (children, s1) = attach_all(children0, slots, children0.len() as int);
    let (info, s2) = with_services(info0, s1);
    (
        info,
        match taken {
            Some(_) => Some(children),
            None => None,
        },
        if taken is Some {
            used.insert(p.id@)
        } else {
            used
        },
        s2,
    )
}

/// What a folder lists: its rows, the worktree lists of those that have one,
/// and what is taken afterwards.
pub struct FolderAcc<S> {
    pub rows: Seq<InfoView<S>>,
    pub children: Seq<(Seq<char>, Seq<InfoView<S>>)>,
    pub used: Set<Seq<char>>,
    pub slots: Seq<Option<(Seq<char>, Seq<S>)>>,
}

/// The folder's projects `pids[0..k]`: each that exists and is not shown
/// under its parent becomes a row.
pub open spec fn folder_rows<S>(
    projects: Seq<ProjectData>,
    closing: Set<Seq<char>>,
    creating: Set<Seq<char>>,
    pids: Seq<String>,
    k: int,
    used: Set<Seq<char>>,
    slots: Seq<Option<(Seq<char>, Seq<S>)>>,
) -> FolderAcc<S>
    decreases k,
{
    if k <= 0 {
        FolderAcc { rows: seq![], children: seq![], used, slots }
    } else {
        let a = folder_rows(projects, closing, creating, pids, k - 1, used, slots);
        match last_project(projects, pids[k - 1]@) {
            Some(pi) => if shown_under_parent(projects, projects[pi]) {
                a
            } else {
                let (info, ch, u, s) = project_row(projects, closing, creating, pi, a.used, a.slots);
                FolderAcc {
                    rows: a.rows.push(info),
                    children: match ch {
                        Some(c) => a.children.push((info.id, c)),
                        None => a.children,
                    },
                    used: u,
                    slots: s,
                }
            },
            None => a,
        }
    }
}

/// The items of the top-level order `order[0..k]` and what is taken after.
pub open spec fn items_upto<S>(
    data: WorkspaceData,
    closing: Set<Seq<char>>,
    creating: Set<Seq<char>>,
    slots0: Seq<Option<(Seq<char>, Seq<S>)>>,
    k: int,
) -> (Seq<ItemView<S>>, Set<Seq<char>>, Seq<Option<(Seq<char>, Seq<S>)>>)
    decreases k,
{
    if k <= 0 {
        (seq![], Set::empty(), slots0)
    } else {
        let (items, used, slots) = items_upto(data, closing, creating, slots0, k - 1);
        let id = data.project_order@[k - 1]@;
        let projects = data.projects@;
        match find_folder(data.folders@, id) {
            Some(fi) => {
                let f = data.folders@[fi];
                let a = folder_rows(projects, closing, creating, f.project_ids@, f.project_ids@.len() as int, used, slots);
                (
                    items.push(
                        ItemView::Folder { folder: f@, index: (k - 1) as usize, projects: a.rows, worktree_children: a.children },
                    ),
                    a.used,
                    a.slots,
                )
            },
            None => match last_project(projects, id) {
                Some(pi) => if shown_under_parent(projects, projects[pi]) {
                    (items, used, slots)
                } else {
                    let (info, ch, u, s) = project_row(projects, closing, creating, pi, used, slots);
                    (
                        items.push(
                            ItemView::Project {
                                project: info,
                                index: (k - 1) as usize,
                                worktree_children: match ch {
                                    Some(c) => c,
                                    None => seq![],
                                },
                            },
                        ),
                        u,
                        s,
                    )
                },
                None => (items, used, slots),
            },
        }
    }
}

/// The sidebar's items for `data`, with projects `closing` and `creating`
/// flagged and `services` (each project id with its service rows) attached.
pub open spec fn spec_sidebar_items<S>(
    data: WorkspaceData,
    closing: Set<Seq<char>>,
    creating: Set<Seq<char>>,
    services: Seq<(Seq<char>, Seq<S>)>,
) -> Seq<ItemView<S>> {
    items_upto(
        data,
        closing,
        creating,
        services.map_values(|e: (Seq<char>, Seq<S>)| Some(e)),
        data.project_order@.len() as int,
    ).0
}

/// The services argument as plain values.
pub open spec fn service_views<S>(v: Seq<(String, Vec<S>)>) -> Seq<(Seq<char>, Seq<S>)> {
    v.map_values(|e: (String, Vec<S>)| (e.0@, e.1@))
}

proof fn lemma_find_slot_from<S>(slots: Seq<Option<(Seq<char>, Seq<S>)>>, id: Seq<char>, i: int)
    requires
        0 <= i <= slots.len(),
    ensures
        find_slot(slots, id, i) matches Some(j) ==> (i <= j < slots.len() && slots[j] is Some && slots[j].unwrap().0 == id),
    decreases slots.len() - i,
{
    if i < slots.len() {
        lemma_find_slot_from(slots, id, i + 1);
    }
}

/// Position of the first service entry still waiting for project `id`.
fn find_slot_index<S>(slots: &Vec<Option<(String, Vec<S>)>>, id: &String) -> (r: Option<usize>)
    ensures
        match r {
            Some(j) => find_slot(slot_views(slots@), id@, 0) == Some(j as int) && j < slots@.len(),
            None => find_slot(slot_views(slots@), id@, 0) is None,
        },
{
    let ghost sv = slot_views(slots@);
    let mut i: usize = 0;
    while i < slots.len()
        invariant
            i <= slots@.len(),
            sv == slot_views(slots@),
            find_slot(sv, id@, 0) == find_slot(sv, id@, i as int),
        decreases slots.len() - i,
    {
        let hit = match &slots[i] {
            Some(e) => e.0 == *id,
            None => false,
        };
        if hit {
            return Some(i);
        }
        i += 1;
    }
    None
}

/// Attaches to `info` the first service entry still waiting for its project.
fn attach_services<S>(info: &mut SidebarProjectInfo<S>, slots: &mut Vec<Option<(String, Vec<S>)>>)
    ensures
        (final(info)@, slot_views(final(slots)@)) == with_services(old(info)@, slot_views(old(slots)@)),
{
    match find_slot_index(slots, &info.id) {
        Some(j) => {
            let ghost before = slot_views(slots@);
            proof { lemma_find_slot_from(before, info.id@, 0); }
            let taken = slots.remove(j);
            slots.insert(j, None);
            assert(slot_views(slots@) =~= before.update(j as int, None));
            match taken {
                Some(e) => {
                    assert(e.1@ == before[j as int].unwrap().1);
                    info.services = e.1;
                },
                None => {},
            }
        },
        None => {},
    }
}

/// Attaches the services of each of `infos`, in order.
fn attach_each<S>(infos: Vec<SidebarProjectInfo<S>>, slots: &mut Vec<Option<(String, Vec<S>)>>) -> (r: Vec<
    SidebarProjectInfo<S>,
>)
    ensures
        (info_views(r@), slot_views(final(slots)@)) == attach_all(
            info_views(infos@),
            slot_views(old(slots)@),
            infos@.len() as int,
        ),
{
    let ghost orig = info_views(infos@);
    let ghost n: nat = infos.len() as nat;
    let mut rest = infos;
    let mut out: Vec<SidebarProjectInfo<S>> = Vec::new();
    let mut i: usize = 0;
    while rest.len() > 0
        invariant
            i <= n,
            n <= usize::MAX,
            rest@.len() == n - i,
            orig.len() == n,
            info_views(rest@) == orig.skip(i as int),
            (info_views(out@), slot_views(slots@)) == attach_all(orig, slot_views(old(slots)@), i as int),
        decreases rest.len(),
    {
        let ghost rv = info_views(rest@);
        let mut info = rest.remove(0);
        assert(info@ == orig[i as int]) by {
            assert(rv[0] == info@);
        }
        assert(info_views(rest@) =~= orig.skip(i + 1)) by {
            assert(rv.skip(1) =~= orig.skip(i + 1));
            assert(info_views(rest@) =~= rv.skip(1));
        }
        let ghost before_out = info_views(out@);
        attach_services(&mut info, slots);
        out.push(info);
        assert(info_views(out@) =~= before_out.push(info@));
        i += 1;
    }
    out
}

/// The row of project `p` before worktrees and services are known.
fn base_row<S>(p: &ProjectData, closing: &Vec<String>, creating: &Vec<String>) -> (r: SidebarProjectInfo<S>)
    ensures
        r@ == base_info::<S>(*p, id_set(closing@), id_set(creating@)),
{
    let parent = match &p.worktree_info {
        Some(w) => Some(w.parent_project_id.clone()),
        None => None,
    };
    let r = SidebarProjectInfo {
        id: p.id.clone(),
        name: p.name.clone(),
        show_in_overview: p.show_in_overview,
        folder_color: p.folder_color,
        is_orphan: false,
        worktree_count: 0,
        parent_project_id: parent,
        services: Vec::new(),
        is_closing: contains_id(closing, &p.id),
        is_creating: contains_id(creating, &p.id),
        is_worktree: p.worktree_info.is_some(),
    };
    assert(r@.services =~= Seq::<S>::empty());
    r
}

/// The project whose listed worktrees give the children of `pid`, with them.
fn children_source(projects: &Vec<ProjectData>, pid: &String) -> (r: Option<(usize, Vec<usize>)>)
    ensures
        match r {
            Some((q, cs)) => children_src(projects@, pid@, projects@.len() as int) == Some(q as int) && q
                < projects@.len() && as_ints(cs@) == children_at(projects@, q as int) && forall|j: int|
                0 <= j < cs@.len() ==> (#[trigger] cs@[j]) < projects@.len(),
            None => children_src(projects@, pid@, projects@.len() as int) is None,
        },
{
    let mut n: usize = projects.len();
    while n > 0
        invariant
            n <= projects@.len(),
            children_src(projects@, pid@, projects@.len() as int) == children_src(projects@, pid@, n as int),
        decreases n,
    {
        if projects[n - 1].id == *pid {
            let cs = child_indices(projects, n - 1);
            if cs.len() > 0 {
                proof {
                    lemma_child_list_bounded(
                        projects@,
                        projects@[n - 1].worktree_ids@,
                        projects@[n - 1].worktree_ids@.len() as int,
                    );
                }
                assert forall|j: int| 0 <= j < cs@.len() implies (#[trigger] cs@[j]) < projects@.len() by {
                    assert(as_ints(cs@)[j] == cs@[j] as int);
                }
                return Some((n - 1, cs));
            }
        }
        n -= 1;
    }
    None
}

/// The rows of worktrees `cs`, shown in color `color`.
fn child_rows<S>(
    projects: &Vec<ProjectData>,
    cs: &Vec<usize>,
    color: FolderColor,
    closing: &Vec<String>,
    creating: &Vec<String>,
) -> (r: Vec<SidebarProjectInfo<S>>)
    requires
        forall|j: int| 0 <= j < cs@.len() ==> (#[trigger] cs@[j]) < projects@.len(),
    ensures
        info_views(r@) == child_infos::<S>(
            projects@,
            as_ints(cs@),
            color,
            id_set(closing@),
            id_set(creating@),
            cs@.len() as int,
        ),
{
    let mut r: Vec<SidebarProjectInfo<S>> = Vec::new();
    let mut k: usize = 0;
    while k < cs.len()
        invariant
            k <= cs@.len(),
            forall|j: int| 0 <= j < cs@.len() ==> (#[trigger] cs@[j]) < projects@.len(),
            info_views(r@) == child_infos::<S>(
                projects@,
                as_ints(cs@),
                color,
                id_set(closing@),
                id_set(creating@),
                k as int,
            ),
        decreases cs.len() - k,
    {
        let c = cs[k];
        let mut row = base_row::<S>(&projects[c], closing, creating);
        row.folder_color = color;
        let ghost before = info_views(r@);
        r.push(row);
        assert(as_ints(cs@)[k as int] == c as int);
        assert(info_views(r@) =~= before.push(row@));
        k += 1;
    }
    r
}

/// Whether project `p` is a worktree listed under its existing parent.
fn under_parent(projects: &Vec<ProjectData>, p: &ProjectData) -> (r: bool)
    ensures
        r == shown_under_parent(projects@, *p),
{
    match &p.worktree_info {
        Some(w) => last_project_index(projects, &w.parent_project_id).is_some(),
        None => false,
    }
}

/// The row of `projects[pi]` and its worktree rows (see `project_row`).
fn build_project_row<S>(
    projects: &Vec<ProjectData>,
    closing: &Vec<String>,
    creating: &Vec<String>,
    pi: usize,
    used: &mut Vec<String>,
    slots: &mut Vec<Option<(String, Vec<S>)>>,
) -> (r: (SidebarProjectInfo<S>, Option<Vec<SidebarProjectInfo<S>>>))
    requires
        pi < projects@.len(),
    ensures
        ({
            let (info, ch, u, s) = project_row::<S>(
                projects@,
                id_set(closing@),
                id_set(creating@),
                pi as int,
                id_set(old(used)@),
                slot_views(old(slots)@),
            );
            &&& r.0@ == info
            &&& match (r.1, ch) {
                (Some(a), Some(b)) => info_views(a@) == b,
                (None, None) => true,
                _ => false,
            }
            &&& id_set(final(used)@) == u
            &&& slot_views(final(slots)@) == s
        }),
{
    let p = &projects[pi];
    let taken: Option<Vec<SidebarProjectInfo<S>>> = match children_source(projects, &p.id) {
        Some((q, cs)) => if contains_id(used, &p.id) {
            None
        } else {
            with(used, p.id.as_str());
            Some(child_rows::<S>(projects, &cs, projects[q].folder_color, closing, creating))
        },
        None => None,
    };
    let orphan = p.worktree_info.is_some() && !under_parent(projects, p);
    let mut info = base_row::<S>(p, closing, creating);
    info.is_orphan = orphan;
    match taken {
        Some(children0) => {
            info.worktree_count = children0.len();
            let children = attach_each(children0, slots);
            attach_services(&mut info, slots);
            (info, Some(children))
        },
        None => {
            let ghost s0 = slot_views(slots@);
            attach_services(&mut info, slots);
            proof {
                let e: Seq<InfoView<S>> = seq![];
                assert(attach_all(e, s0, 0) == (e, s0));
            }
            (info, None)
        },
    }
}

/// The sidebar's items for `data`: the top-level entries in order, projects
/// in `closing` and `creating` flagged, and `services` (each project id with
/// its service rows) attached to the first row of that project.
pub fn sidebar_items<S>(
    data: &WorkspaceData,
    closing: &Vec<String>,
    creating: &Vec<String>,
    services: Vec<(String, Vec<S>)>,
) -> (r: Vec<SidebarItem<S>>)
    ensures
        item_views(r@) == spec_sidebar_items(*data, id_set(closing@), id_set(creating@), service_views(services@)),
{
    let ghost cl = id_set(closing@);
    let ghost cr = id_set(creating@);
    let ghost all = service_views(services@);
    let ghost sv0 = all.map_values(|e: (Seq<char>, Seq<S>)| Some(e));
    let ghost n: nat = services.len() as nat;
    let mut svc = services;
    let mut slots: Vec<Option<(String, Vec<S>)>> = Vec::new();
    let mut i: usize = 0;
    while svc.len() > 0
        invariant
            i <= n,
            n <= usize::MAX,
            all.len() == n,
            svc@.len() == n - i,
            service_views(svc@) == all.skip(i as int),
            slot_views(slots@) == sv0.take(i as int),
            sv0 == all.map_values(|e: (Seq<char>, Seq<S>)| Some(e)),
        decreases svc.len(),
    {
        let ghost before = service_views(svc@);
        let e = svc.remove(0);
        assert((e.0@, e.1@) == all[i as int]) by {
            assert(before[0] == (e.0@, e.1@));
        }
        assert(service_views(svc@) =~= all.skip(i + 1)) by {
            assert(service_views(svc@) =~= before.skip(1));
        }
        let ghost sb = slot_views(slots@);
        slots.push(Some(e));
        assert(slot_views(slots@) =~= sv0.take(i + 1)) by {
            assert(slot_views(slots@) =~= sb.push(Some((e.0@, e.1@))));
        }
        i += 1;
    }
    assert(sv0.take(n as int) =~= sv0);
    let projects = &data.projects;
    let mut used: Vec<String> = Vec::new();
    let mut items: Vec<SidebarItem<S>> = Vec::new();
    assert(id_set(used@) =~= Set::<Seq<char>>::empty());
    assert(item_views(items@) =~= Seq::<ItemView<S>>::empty());
    let mut k: usize = 0;
    while k < data.project_order.len()
        invariant
            k <= data.project_order@.len(),
            projects == &data.projects,
            cl == id_set(closing@),
            cr == id_set(creating@),
            ({
                let (iv, u, sl) = items_upto(*data, cl, cr, sv0, k as int);
                &&& item_views(items@) == iv
                &&& id_set(used@) == u
                &&& slot_views(slots@) == sl
            }),
        decreases data.project_order.len() - k,
    {
        let id = &data.project_order[k];
        let ghost iv0 = item_views(items@);
        let ghost u0 = id_set(used@);
        let ghost s0 = slot_views(slots@);
        match folder_index(&data.folders, id) {
            Some(fi) => {
                let f = &data.folders[fi];
                let pids = &f.project_ids;
                let mut rows: Vec<SidebarProjectInfo<S>> = Vec::new();
                let mut chs: Vec<(String, Vec<SidebarProjectInfo<S>>)> = Vec::new();
                let mut j: usize = 0;
                while j < pids.len()
                    invariant
                        j <= pids@.len(),
                        projects == &data.projects,
                        ({
                            let a = folder_rows::<S>(projects@, cl, cr, pids@, j as int, u0, s0);
                            &&& info_views(rows@) == a.rows
                            &&& child_lists(chs@) == a.children
                            &&& id_set(used@) == a.used
                            &&& slot_views(slots@) == a.slots
                        }),
                        cl == id_set(closing@),
                        cr == id_set(creating@),
                    decreases pids.len() - j,
                {
                    match last_project_index(projects, &pids[j]) {
                        Some(pi) => {
                            if !under_parent(projects, &projects[pi]) {
                                let ghost rb = info_views(rows@);
                                let ghost cb = child_lists(chs@);
                                let (info, ch) = build_project_row(projects, closing, creating, pi, &mut used, &mut slots);
                                match ch {
                                    Some(c) => {
                                        chs.push((info.id.clone(), c));
                                        assert(child_lists(chs@) =~= cb.push((info@.id, info_views(c@))));
                                    },
                                    None => {},
                                }
                                rows.push(info);
                                assert(info_views(rows@) =~= rb.push(info@));
                            }
                        },
                        None => {},
                    }
                    j += 1;
                }
                let fd = f.duplicate();
                let ghost ib = item_views(items@);
                let item = SidebarItem::Folder { folder: fd, index: k, projects: rows, worktree_children: chs };
                items.push(item);
                assert(item_views(items@) =~= ib.push(item@));
            },
            None => {
                match last_project_index(projects, id) {
                    Some(pi) => {
                        if !under_parent(projects, &projects[pi]) {
                            let (info, ch) = build_project_row(projects, closing, creating, pi, &mut used, &mut slots);
                            let children = match ch {
                                Some(c) => c,
                                None => Vec::new(),
                            };
                            let ghost ib = item_views(items@);
                            let item = SidebarItem::Project { project: info, index: k, worktree_children: children };
                            assert(item@ matches ItemView::Project { worktree_children, .. } && (ch is None ==> worktree_children =~= Seq::<InfoView<S>>::empty()));
                            items.push(item);
                            assert(item_views(items@) =~= ib.push(item@));
                        }
                    },
                    None => {},
                }
            },
        }
        k += 1;
    }
    items
}

/// The fields of a row that attaching services leaves alone agree.
pub open spec fn same_but_services<S>(a: InfoView<S>, b: InfoView<S>) -> bool {
    &&& a.id == b.id
    &&& a.folder_color == b.folder_color
    &&& a.is_orphan == b.is_orphan
    &&& a.worktree_count == b.worktree_count
    &&& a.parent_project_id == b.parent_project_id
}

proof fn lemma_with_services<S>(info: InfoView<S>, slots: Seq<Option<(Seq<char>, Seq<S>)>>)
    ensures
        same_but_services(with_services(info, slots).0, info),
{
}

proof fn lemma_attach_all<S>(infos: Seq<InfoView<S>>, slots: Seq<Option<(Seq<char>, Seq<S>)>>, k: int)
    requires
        0 <= k <= infos.len(),
    ensures
        attach_all(infos, slots, k).0.len() == k,
        forall|i: int| 0 <= i < k ==> same_but_services(#[trigger] attach_all(infos, slots, k).0[i], infos[i]),
    decreases k,
{
    if k > 0 {
        lemma_attach_all(infos, slots, k - 1);
        let (prev, s) = attach_all(infos, slots, k - 1);
        lemma_with_services(infos[k - 1], s);
        let cur = attach_all(infos, slots, k).0;
        assert forall|i: int| 0 <= i < k implies same_but_services(#[trigger] cur[i], infos[i]) by {
            if i < k - 1 {
                assert(cur[i] == prev[i]);
            }
        }
    }
}

proof fn lemma_child_infos<S>(
    projects: Seq<ProjectData>,
    cs: Seq<int>,
    color: FolderColor,
    closing: Set<Seq<char>>,
    creating: Set<Seq<char>>,
    k: int,
)
    requires
        0 <= k,
    ensures
        child_infos::<S>(projects, cs, color, closing, creating, k).len() == k,
        forall|i: int| 0 <= i < k ==> (#[trigger] child_infos::<S>(projects, cs, color, closing, creating, k)[i]).folder_color == color,
    decreases k,
{
    if k > 0 {
        lemma_child_infos::<S>(projects, cs, color, closing, creating, k - 1);
        let prev = child_infos::<S>(projects, cs, color, closing, creating, k - 1);
        let cur = child_infos::<S>(projects, cs, color, closing, creating, k);
        assert forall|i: int| 0 <= i < k implies (#[trigger] cur[i]).folder_color == color by {
            if i < k - 1 {
                assert(cur[i] == prev[i]);
            }
        }
    }
}

proof fn lemma_child_list_len(projects: Seq<ProjectData>, wt: Seq<String>, k: int)
    requires
        0 <= k,
    ensures
        child_list(projects, wt, k).len() <= k,
    decreases k,
{
    if k > 0 {
        lemma_child_list_len(projects, wt, k - 1);
    }
}

proof fn lemma_children_src<S>(projects: Seq<ProjectData>, pid: Seq<char>, n: int)
    requires
        0 <= n <= projects.len(),
    ensures
        children_src(projects, pid, n) matches Some(q) ==> 0 <= q < n && projects[q].id@ == pid,
    decreases n,
{
    if n > 0 {
        lemma_children_src::<S>(projects, pid, n - 1);
    }
}

/// The orphan flag of a row is set exactly when its project is a worktree
/// whose parent project is missing.
pub open spec fn orphan_exact<S>(projects: Seq<ProjectData>, info: InfoView<S>) -> bool {
    info.is_orphan == (info.parent_project_id matches Some(pp) && last_project(projects, pp) is None)
}

/// A row standing at top level or in a folder is no worktree of an existing
/// parent.
pub open spec fn not_under_parent<S>(projects: Seq<ProjectData>, info: InfoView<S>) -> bool {
    info.parent_project_id matches Some(pp) ==> last_project(projects, pp) is None
}

/// Worktree rows `c` listed under the row of project `id` all carry the
/// color of a project with that id (the one whose worktree list they are).
pub open spec fn children_colored<S>(projects: Seq<ProjectData>, id: Seq<char>, c: Seq<InfoView<S>>) -> bool {
    exists|q: int|
        0 <= q < projects.len() && projects[q].id@ == id && forall|i: int|
            0 <= i < c.len() ==> (#[trigger] c[i]).folder_color == projects[q].folder_color
}

/// Some row of `rows` is that of project `entry.0` and counts the
/// `entry.1.len()` worktrees of the entry.
pub open spec fn has_row_for<S>(rows: Seq<InfoView<S>>, entry: (Seq<char>, Seq<InfoView<S>>)) -> bool {
    exists|i: int| 0 <= i < rows.len() && (#[trigger] rows[i]).id == entry.0 && rows[i].worktree_count == entry.1.len()
}

/// What every row of the tree keeps: see the law below.
pub open spec fn item_ok<S>(projects: Seq<ProjectData>, item: ItemView<S>) -> bool {
    match item {
        ItemView::Project { project, worktree_children, .. } => {
            &&& orphan_exact(projects, project)
            &&& not_under_parent(projects, project)
            &&& project.worktree_count == worktree_children.len()
            &&& children_colored(projects, project.id, worktree_children)
        },
        ItemView::Folder { projects: rows, worktree_children: chs, .. } => {
            &&& forall|i: int|
                0 <= i < rows.len() ==> orphan_exact(projects, #[trigger] rows[i]) && not_under_parent(projects, rows[i])
            &&& forall|e: int|
                0 <= e < chs.len() ==> has_row_for(rows, #[trigger] chs[e]) && children_colored(
                    projects,
                    chs[e].0,
                    chs[e].1,
                )
        },
    }
}

proof fn lemma_project_row<S>(
    projects: Seq<ProjectData>,
    closing: Set<Seq<char>>,
    creating: Set<Seq<char>>,
    pi: int,
    used: Set<Seq<char>>,
    slots: Seq<Option<(Seq<char>, Seq<S>)>>,
)
    requires
        0 <= pi < projects.len(),
        !shown_under_parent(projects, projects[pi]),
    ensures
        ({
            let (info, ch, u, s) = project_row::<S>(projects, closing, creating, pi, used, slots);
            &&& info.id == projects[pi].id@
            &&& orphan_exact(projects, info)
            &&& not_under_parent(projects, info)
            &&& info.worktree_count == (match ch {
                Some(c) => c.len(),
                None => 0,
            })
            &&& (ch matches Some(c) ==> children_colored(projects, info.id, c))
        }),
{
    let p = projects[pi];
    let taken = taken_children::<S>(projects, p.id@, closing, creating, used);
    let children0 = match taken {
        Some(c) => c,
        None => seq![],
    };
    let info0 = InfoView::<S> {
        is_orphan: p.worktree_info is Some && !shown_under_parent(projects, p),
        worktree_count: children0.len() as usize,
        ..base_info(p, closing, creating)
    };
    let (children, s1) = attach_all(children0, slots, children0.len() as int);
    lemma_attach_all(children0, slots, children0.len() as int);
    lemma_with_services(info0, s1);
    lemma_children_src::<S>(projects, p.id@, projects.len() as int);
    let info = with_services(info0, s1).0;
    assert(info.id == projects[pi].id@);
    assert(orphan_exact(projects, info));
    assert(not_under_parent(projects, info));
    match children_src(projects, p.id@, projects.len() as int) {
        Some(q) => {
            if !used.contains(p.id@) {
                let wt = projects[q].worktree_ids;
                lemma_child_list_len(projects, wt@, wt@.len() as int);
                assert(wt@.len() == wt.len());
                lemma_child_infos::<S>(projects, children_at(projects, q), projects[q].folder_color, closing, creating, children_at(projects, q).len() as int);
            }
        },
        None => {},
    }
    assert(info.worktree_count == children0.len());
    match children_src(projects, p.id@, projects.len() as int) {
        Some(q) => {
            if !used.contains(p.id@) {
                let cs = children_at(projects, q);
                lemma_child_infos::<S>(projects, cs, projects[q].folder_color, closing, creating, cs.len() as int);
                assert forall|i: int| 0 <= i < children.len() implies (#[trigger] children[i]).folder_color
                    == projects[q].folder_color by {
                    assert(same_but_services(children[i], children0[i]));
                }
                assert(children_colored(projects, p.id@, children));
            }
        },
        None => {},
    }
}

proof fn lemma_folder_rows<S>(
    projects: Seq<ProjectData>,
    closing: Set<Seq<char>>,
    creating: Set<Seq<char>>,
    pids: Seq<String>,
    k: int,
    used: Set<Seq<char>>,
    slots: Seq<Option<(Seq<char>, Seq<S>)>>,
)
    requires
        0 <= k <= pids.len(),
    ensures
        ({
            let a = folder_rows::<S>(projects, closing, creating, pids, k, used, slots);
            &&& forall|i: int|
                0 <= i < a.rows.len() ==> orphan_exact(projects, #[trigger] a.rows[i]) && not_under_parent(
                    projects,
                    a.rows[i],
                )
            &&& forall|e: int|
                0 <= e < a.children.len() ==> has_row_for(a.rows, #[trigger] a.children[e]) && children_colored(
                    projects,
                    a.children[e].0,
                    a.children[e].1,
                )
        }),
    decreases k,
{
    if k > 0 {
        lemma_folder_rows::<S>(projects, closing, creating, pids, k - 1, used, slots);
        let a = folder_rows::<S>(projects, closing, creating, pids, k - 1, used, slots);
        let b = folder_rows::<S>(projects, closing, creating, pids, k, used, slots);
        match last_project(projects, pids[k - 1]@) {
            Some(pi) => {
                lemma_last_project_bounded(projects, pids[k - 1]@);
                if !shown_under_parent(projects, projects[pi]) {
                    lemma_project_row::<S>(projects, closing, creating, pi, a.used, a.slots);
                    let (info, ch, u, sl) = project_row::<S>(projects, closing, creating, pi, a.used, a.slots);
                    assert(b.rows == a.rows.push(info));
                    assert forall|i: int| 0 <= i < b.rows.len() implies orphan_exact(projects, #[trigger] b.rows[i])
                        && not_under_parent(projects, b.rows[i]) by {
                        if i < a.rows.len() {
                            assert(b.rows[i] == a.rows[i]);
                        }
                    }
                    assert forall|e: int| 0 <= e < b.children.len() implies has_row_for(b.rows, #[trigger] b.children[e])
                        && children_colored(projects, b.children[e].0, b.children[e].1) by {
                        if e < a.children.len() {
                            assert(b.children[e] == a.children[e]);
                            assert(has_row_for(a.rows, a.children[e]));
                            let i = choose|i: int|
                                0 <= i < a.rows.len() && (#[trigger] a.rows[i]).id == a.children[e].0
                                    && a.rows[i].worktree_count == a.children[e].1.len();
                            assert(b.rows[i] == a.rows[i]);
                        } else {
                            let last = a.rows.len() as int;
                            assert(b.rows[last] == info);
                            let c = ch.unwrap();
                            assert(b.children[e] == (info.id, c));
                            assert(b.rows[last].id == b.children[e].0);
                            assert(b.rows[last].worktree_count == b.children[e].1.len());
                            assert(children_colored(projects, b.children[e].0, b.children[e].1));
                        }
                    }
                }
            },
            None => {},
        }
    }
}

proof fn lemma_items_upto<S>(
    data: WorkspaceData,
    closing: Set<Seq<char>>,
    creating: Set<Seq<char>>,
    slots0: Seq<Option<(Seq<char>, Seq<S>)>>,
    k: int,
)
    requires
        0 <= k <= data.project_order@.len(),
    ensures
        forall|i: int|
            0 <= i < items_upto(data, closing, creating, slots0, k).0.len() ==> item_ok(
                data.projects@,
                #[trigger] items_upto(data, closing, creating, slots0, k).0[i],
            ),
    decreases k,
{
    if k > 0 {
        lemma_items_upto(data, closing, creating, slots0, k - 1);
        let (items, used, slots) = items_upto(data, closing, creating, slots0, k - 1);
        let cur = items_upto(data, closing, creating, slots0, k).0;
        let id = data.project_order@[k - 1]@;
        let projects = data.projects@;
        match find_folder(data.folders@, id) {
            Some(fi) => {
                crate::state::lemma_find_folder_from(data.folders@, id, 0);
                let f = data.folders@[fi];
                lemma_folder_rows::<S>(projects, closing, creating, f.project_ids@, f.project_ids@.len() as int, used, slots);
                let a = folder_rows::<S>(projects, closing, creating, f.project_ids@, f.project_ids@.len() as int, used, slots);
                assert(cur[items.len() as int] == ItemView::<S>::Folder { folder: f@, index: (k - 1) as usize, projects: a.rows, worktree_children: a.children });
                assert(item_ok(projects, cur[items.len() as int]));
            },
            None => match last_project(projects, id) {
                Some(pi) => {
                    lemma_last_project_bounded(projects, id);
                    if !shown_under_parent(projects, projects[pi]) {
                        lemma_project_row::<S>(projects, closing, creating, pi, used, slots);
                        let (info, ch, u, s) = project_row::<S>(projects, closing, creating, pi, used, slots);
                        if ch is None {
                            assert(children_colored(projects, info.id, Seq::<InfoView<S>>::empty())) by {
                                assert(projects[pi].id@ == info.id);
                            }
                        }
                    }
                },
                None => {},
            },
        }
        assert forall|i: int| 0 <= i < cur.len() implies item_ok(projects, #[trigger] cur[i]) by {
            if i < items.len() {
                assert(cur[i] == items[i]);
            }
        }
    }
}

/// The sidebar tree keeps its promises: a worktree whose parent project
/// exists is never a row of its own (only a child of its parent); a row's
/// orphan flag is set exactly when its project's parent is missing; a
/// project's worktree count is the number of worktree rows below it; and
/// those rows carry the parent's folder color.
pub proof fn law_sidebar_tree<S>(
    data: WorkspaceData,
    closing: Set<Seq<char>>,
    creating: Set<Seq<char>>,
    services: Seq<(Seq<char>, Seq<S>)>,
)
    ensures
        forall|i: int|
            0 <= i < spec_sidebar_items(data, closing, creating, services).len() ==> item_ok(
                data.projects@,
                #[trigger] spec_sidebar_items(data, closing, creating, services)[i],
            ),
{
    lemma_items_upto(
        data,
        closing,
        creating,
        services.map_values(|e: (Seq<char>, Seq<S>)| Some(e)),
        data.project_order@.len() as int,
    );
}

} // verus!
