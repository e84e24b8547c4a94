//! Which projects the sidebar and the column view show, and in what order.
//!
//! Rules: a focused project shows alone (with its worktrees unless focus is
//! individual); a folder filter hides top-level projects and other folders
//! (the focused project still shows); worktree children follow their parent.
use vstd::prelude::*;
use crate::state::{
    contains_id, find_folder, find_project, folder_index, has_id, ids, lemma_find_project_from,
    project_index, FolderData, ProjectData, WorkspaceData,
};

verus! {

/// Projects appended for the worktree ids `wt[0..k]`: each id that names a
/// project adds the first such project; with `need_shown`, only when it is
/// shown in the overview.
pub open spec fn worktree_pushes(projects: Seq<ProjectData>, wt: Seq<String>, need_shown: bool, k: int) -> Seq<usize>
    decreases k,
{
    if k <= 0 {
        seq![]
    } else {
        let prev = worktree_pushes(projects, wt, need_shown, k - 1);
        match find_project(projects, wt[k - 1]@) {
            Some(w) => if !need_shown || projects[w].show_in_overview {
                prev.push(w as usize)
            } else {
                prev
            },
            None => prev,
        }
    }
}

/// What pushing the project at `pi` (and its worktrees) adds to the result.
pub open spec fn project_pushes(projects: Seq<ProjectData>, pi: int, focused: Option<Seq<char>>, individual: bool) -> Seq<usize> {
    let p = projects[pi];
    let wt = p.worktree_ids@;
    match focused {
        None => (if p.show_in_overview { seq![pi as usize] } else { seq![] }) + worktree_pushes(
            projects,
            wt,
            true,
            wt.len() as int,
        ),
        Some(fid) => if p.id@ == fid {
            seq![pi as usize] + (if !individual {
                worktree_pushes(projects, wt, false, wt.len() as int)
            } else {
                seq![]
            })
        } else if has_id(wt, fid) && find_project(projects, fid) is Some {
            seq![find_project(projects, fid)->0 as usize]
        } else {
            seq![]
        },
    }
}

/// Projects of a folder other than the filtered one, when a project is focused:
/// each project of `fpids[0..k]` is pushed as `project_pushes` says.
pub open spec fn focus_through_folder(projects: Seq<ProjectData>, fpids: Seq<String>, focused: Option<Seq<char>>, individual: bool, k: int) -> Seq<usize>
    decreases k,
{
    if k <= 0 {
        seq![]
    } else {
        let prev = focus_through_folder(projects, fpids, focused, individual, k - 1);
        match find_project(projects, fpids[k - 1]@) {
            Some(pi) => prev + project_pushes(projects, pi, focused, individual),
            None => prev,
        }
    }
}

/// Expanding a folder's projects `fpids[0..k]` from state `(res, added)`: a
/// project already added as a worktree child is skipped; under a folder filter
/// the worktree ids of each pushed project are recorded as added.
pub open spec fn expand_folder(
    projects: Seq<ProjectData>,
    fpids: Seq<String>,
    focused: Option<Seq<char>>,
    individual: bool,
    filtered: bool,
    k: int,
    res: Seq<usize>,
    added: Seq<Seq<char>>,
) -> (Seq<usize>, Seq<Seq<char>>)
    decreases k,
{
    if k <= 0 {
        (res, added)
    } else {
        let (r, a) = expand_folder(projects, fpids, focused, individual, filtered, k - 1, res, added);
        let pid = fpids[k - 1]@;
        if a.contains(pid) {
            (r, a)
        } else {
            match find_project(projects, pid) {
                Some(pi) => (
                    r + project_pushes(projects, pi, focused, individual),
                    if filtered {
                        a + ids(projects[pi].worktree_ids@)
                    } else {
                        a
                    },
                ),
                None => (r, a),
            }
        }
    }
}

/// Whether some folder lists `pid` among its projects.
pub open spec fn in_some_folder(folders: Seq<FolderData>, pid: Seq<char>) -> bool {
    exists|f: int| 0 <= f < folders.len() && has_id(#[trigger] folders[f].project_ids@, pid)
}

/// Whether `id` is a worktree whose parent lives in a folder; such worktrees
/// are only shown through their parent's folder.
pub open spec fn folder_owned(projects: Seq<ProjectData>, folders: Seq<FolderData>, id: Seq<char>) -> bool {
    exists|q: int|
        0 <= q < projects.len() && #[trigger] projects[q].id@ == id && projects[q].worktree_info is Some
            && in_some_folder(folders, projects[q].worktree_info->0.parent_project_id@)
}

/// One entry of the top-level order applied to the state `(res, added)`.
pub open spec fn order_step(
    projects: Seq<ProjectData>,
    folders: Seq<FolderData>,
    focused: Option<Seq<char>>,
    individual: bool,
    filter: Option<Seq<char>>,
    id: Seq<char>,
    res: Seq<usize>,
    added: Seq<Seq<char>>,
) -> (Seq<usize>, Seq<Seq<char>>) {
    match find_folder(folders, id) {
        Some(fi) => {
            let f = folders[fi];
            if filter is Some && f.id@ != filter->0 {
                if focused is Some {
                    (
                        res + focus_through_folder(
                            projects,
                            f.project_ids@,
                            focused,
                            individual,
                            f.project_ids@.len() as int,
                        ),
                        added,
                    )
                } else {
                    (res, added)
                }
            } else {
                expand_folder(
                    projects,
                    f.project_ids@,
                    focused,
                    individual,
                    filter is Some,
                    f.project_ids@.len() as int,
                    res,
                    added,
                )
            }
        },
        None => match find_project(projects, id) {
            Some(pi) => if folder_owned(projects, folders, id) || added.contains(id) {
                (res, added)
            } else if filter is Some {
                if focused is Some {
                    (res + project_pushes(projects, pi, focused, individual), added)
                } else {
                    (res, added)
                }
            } else {
                (res + project_pushes(projects, pi, focused, individual), added)
            },
            None => (res, added),
        },
    }
}

/// The state after the first `n` entries of the top-level order.
pub open spec fn order_pass(
    projects: Seq<ProjectData>,
    folders: Seq<FolderData>,
    order: Seq<String>,
    focused: Option<Seq<char>>,
    individual: bool,
    filter: Option<Seq<char>>,
    n: int,
) -> (Seq<usize>, Seq<Seq<char>>)
    decreases n,
{
    if n <= 0 {
        (seq![], seq![])
    } else {
        let (r, a) = order_pass(projects, folders, order, focused, individual, filter, n - 1);
        order_step(projects, folders, focused, individual, filter, order[n - 1]@, r, a)
    }
}

/// Whether some entry of `res` is a project with id `id`.
pub open spec fn in_result(projects: Seq<ProjectData>, res: Seq<usize>, id: Seq<char>) -> bool {
    exists|j: int| 0 <= j < res.len() && #[trigger] projects[res[j] as int].id@ == id
}

/// Whether the project at `q` is a worktree whose parent is in the result.
pub open spec fn is_grouped_child(projects: Seq<ProjectData>, res: Seq<usize>, q: usize) -> bool {
    projects[q as int].worktree_info is Some && in_result(
        projects,
        res,
        projects[q as int].worktree_info->0.parent_project_id@,
    )
}

/// The worktree children of parent `pid` among `res[0..k]`, in result order.
pub open spec fn children_of(projects: Seq<ProjectData>, res: Seq<usize>, pid: Seq<char>, k: int) -> Seq<usize>
    decreases k,
{
    if k <= 0 {
        seq![]
    } else {
        let prev = children_of(projects, res, pid, k - 1);
        let q = res[k - 1];
        if is_grouped_child(projects, res, q) && projects[q as int].worktree_info->0.parent_project_id@
            == pid {
            prev.push(q)
        } else {
            prev
        }
    }
}

/// Whether the project at `q` shares its id with a grouped child; such entries
/// leave their place and reappear after the parent.
pub open spec fn moves_to_parent(projects: Seq<ProjectData>, res: Seq<usize>, q: usize) -> bool {
    exists|j: int|
        0 <= j < res.len() && is_grouped_child(projects, res, #[trigger] res[j])
            && projects[res[j] as int].id@ == projects[q as int].id@
}

/// `res[0..k]` with each worktree child moved right after its parent.
pub open spec fn grouped(projects: Seq<ProjectData>, res: Seq<usize>, k: int) -> Seq<usize>
    decreases k,
{
    if k <= 0 {
        seq![]
    } else {
        let prev = grouped(projects, res, k - 1);
        let q = res[k - 1];
        if moves_to_parent(projects, res, q) {
            prev
        } else {
            prev.push(q) + children_of(projects, res, projects[q as int].id@, res.len() as int)
        }
    }
}

/// The positions (in `data.projects`) of the visible projects, in display order.
pub open spec fn visible_indices(data: WorkspaceData, focused: Option<Seq<char>>, individual: bool, filter: Option<Seq<char>>) -> Seq<usize> {
    let projects = data.projects@;
    let res = order_pass(
        projects,
        data.folders@,
        data.project_order@,
        focused,
        individual,
        filter,
        data.project_order@.len() as int,
    ).0;
    grouped(projects, res, res.len() as int)
}

pub open spec fn opt_view(o: Option<&String>) -> Option<Seq<char>> {
    match o {
        Some(s) => Some(s@),
        None => None,
    }
}

/// All entries of `s` index into `n` projects.
pub open spec fn all_below(s: Seq<usize>, n: int) -> bool {
    forall|j: int| 0 <= j < s.len() ==> (#[trigger] s[j]) < n
}

proof fn lemma_worktree_pushes_below(projects: Seq<ProjectData>, wt: Seq<String>, need_shown: bool, k: int)
    ensures
        all_below(worktree_pushes(projects, wt, need_shown, k), projects.len() as int),
    decreases k,
{
    if k > 0 {
        lemma_worktree_pushes_below(projects, wt, need_shown, k - 1);
        lemma_find_project_from(projects, wt[k - 1]@, 0);
    }
}

proof fn lemma_project_pushes_below(projects: Seq<ProjectData>, pi: int, focused: Option<Seq<char>>, individual: bool)
    requires
        0 <= pi < projects.len(),
    ensures
        all_below(project_pushes(projects, pi, focused, individual), projects.len() as int),
{
    let wt = projects[pi].worktree_ids@;
    lemma_worktree_pushes_below(projects, wt, true, wt.len() as int);
    lemma_worktree_pushes_below(projects, wt, false, wt.len() as int);
    match focused {
        Some(fid) => {
            lemma_find_project_from(projects, fid, 0);
        },
        None => {},
    }
    let r = project_pushes(projects, pi, focused, individual);
    assert(all_below(r, projects.len() as int));
}

/// Appends the worktrees named in `wt` as `worktree_pushes` says.
fn push_worktrees(projects: &Vec<ProjectData>, wt: &Vec<String>, need_shown: bool, result: &mut Vec<usize>)
    ensures
        final(result)@ == old(result)@ + worktree_pushes(projects@, wt@, need_shown, wt@.len() as int),
        all_below(old(result)@, projects@.len() as int) ==> all_below(final(result)@, projects@.len() as int),
{
    proof {
        lemma_worktree_pushes_below(projects@, wt@, need_shown, wt@.len() as int);
    }
    let ghost start = result@;
    let mut i: usize = 0;
    while i < wt.len()
        invariant
            i <= wt.len(),
            result@ == start + worktree_pushes(projects@, wt@, need_shown, i as int),
        decreases wt.len() - i,
    {
        proof {
            lemma_find_project_from(projects@, wt@[i as int]@, 0);
        }
        match project_index(projects, &wt[i]) {
            Some(w) => {
                if !need_shown || projects[w].show_in_overview {
                    result.push(w);
                }
            },
            None => {},
        }
        i += 1;
    }
}

/// Pushes a project and its worktree children into `result`, respecting focus:
/// a focused project shows itself (and its worktrees unless `individual`); a
/// focused worktree shows only itself; without focus, shown projects and shown
/// worktrees are pushed.
pub fn push_project_with_worktrees(
    data: &WorkspaceData,
    pi: usize,
    focused: Option<&String>,
    individual: bool,
    result: &mut Vec<usize>,
)
    requires
        pi < data.projects@.len(),
    ensures
        final(result)@ == old(result)@ + project_pushes(data.projects@, pi as int, opt_view(focused), individual),
        all_below(old(result)@, data.projects@.len() as int) ==> all_below(final(result)@, data.projects@.len() as int),
{
    proof {
        lemma_project_pushes_below(data.projects@, pi as int, opt_view(focused), individual);
    }
    let p = &data.projects[pi];
    let ghost start = result@;
    match focused {
        None => {
            if p.show_in_overview {
                result.push(pi);
            }
            push_worktrees(&data.projects, &p.worktree_ids, true, result);
            assert(result@ =~= start + project_pushes(data.projects@, pi as int, opt_view(focused), individual));
        },
        Some(fid) => {
            if p.id == *fid {
                result.push(pi);
                if !individual {
                    push_worktrees(&data.projects, &p.worktree_ids, false, result);
                }
                assert(result@ =~= start + project_pushes(data.projects@, pi as int, opt_view(focused), individual));
            } else if contains_id(&p.worktree_ids, fid) {
                match project_index(&data.projects, fid) {
                    Some(w) => {
                        result.push(w);
                    },
                    None => {},
                }
                assert(result@ =~= start + project_pushes(data.projects@, pi as int, opt_view(focused), individual));
            }
        },
    }
}


proof fn lemma_has_id_ids(v: Seq<String>, id: Seq<char>)
    ensures
        has_id(v, id) == ids(v).contains(id),
{
    if has_id(v, id) {
        let j = choose|j: int| 0 <= j < v.len() && #[trigger] v[j]@ == id;
        assert(ids(v)[j] == id);
    }
    if ids(v).contains(id) {
        let j = choose|j: int| 0 <= j < ids(v).len() && ids(v)[j] == id;
        assert(v[j]@ == id);
    }
}

/// Appends the ids of `wt` to `added`.
fn extend_ids(added: &mut Vec<String>, wt: &Vec<String>)
    ensures
        ids(final(added)@) == ids(old(added)@) + ids(wt@),
{
    let ghost start = ids(added@);
    let mut i: usize = 0;
    while i < wt.len()
        invariant
            i <= wt.len(),
            ids(added@) == start + ids(wt@.take(i as int)),
        decreases wt.len() - i,
    {
        let ghost before = added@;
        added.push(wt[i].clone());
        assert(added@ == before.push(wt@[i as int]));
        assert(ids(wt@.take(i + 1)) =~= ids(wt@.take(i as int)).push(wt@[i as int]@));
        assert(ids(added@) =~= ids(before).push(wt@[i as int]@));
        assert(ids(added@) =~= start + ids(wt@.take(i + 1)));
        i += 1;
    }
    assert(wt@.take(wt.len() as int) =~= wt@);
}

/// Pushes every project of a non-matching folder as `focus_through_folder` says.
fn push_focus_through_folder(data: &WorkspaceData, folder: &FolderData, focused: Option<&String>, individual: bool, result: &mut Vec<usize>)
    ensures
        final(result)@ == old(result)@ + focus_through_folder(
            data.projects@,
            folder.project_ids@,
            opt_view(focused),
            individual,
            folder.project_ids@.len() as int,
        ),
        all_below(old(result)@, data.projects@.len() as int) ==> all_below(final(result)@, data.projects@.len() as int),
{
    let ghost start = result@;
    let mut i: usize = 0;
    while i < folder.project_ids.len()
        invariant
            i <= folder.project_ids.len(),
            result@ == start + focus_through_folder(data.projects@, folder.project_ids@, opt_view(focused), individual, i as int),
            all_below(start, data.projects@.len() as int) ==> all_below(result@, data.projects@.len() as int),
        decreases folder.project_ids.len() - i,
    {
        proof {
            lemma_find_project_from(data.projects@, folder.project_ids@[i as int]@, 0);
        }
        match project_index(&data.projects, &folder.project_ids[i]) {
            Some(pi) => {
                let ghost before = result@;
                push_project_with_worktrees(data, pi, focused, individual, result);
                assert(result@ =~= start + focus_through_folder(data.projects@, folder.project_ids@, opt_view(focused), individual, i + 1));
            },
            None => {},
        }
        i += 1;
    }
}

/// Expands a folder's projects as `expand_folder` says.
fn push_expand_folder(
    data: &WorkspaceData,
    folder: &FolderData,
    focused: Option<&String>,
    individual: bool,
    filtered: bool,
    result: &mut Vec<usize>,
    added: &mut Vec<String>,
)
    ensures
        (final(result)@, ids(final(added)@)) == expand_folder(
            data.projects@,
            folder.project_ids@,
            opt_view(focused),
            individual,
            filtered,
            folder.project_ids@.len() as int,
            old(result)@,
            ids(old(added)@),
        ),
        all_below(old(result)@, data.projects@.len() as int) ==> all_below(final(result)@, data.projects@.len() as int),
{
    let ghost r0 = result@;
    let ghost a0 = ids(added@);
    let mut i: usize = 0;
    while i < folder.project_ids.len()
        invariant
            i <= folder.project_ids.len(),
            (result@, ids(added@)) == expand_folder(
                data.projects@,
                folder.project_ids@,
                opt_view(focused),
                individual,
                filtered,
                i as int,
                r0,
                a0,
            ),
            all_below(r0, data.projects@.len() as int) ==> all_below(result@, data.projects@.len() as int),
        decreases folder.project_ids.len() - i,
    {
        let pid = &folder.project_ids[i];
        proof {
            lemma_has_id_ids(added@, pid@);
            lemma_find_project_from(data.projects@, pid@, 0);
        }
        if !contains_id(added, pid) {
            match project_index(&data.projects, pid) {
                Some(pi) => {
                    push_project_with_worktrees(data, pi, focused, individual, result);
                    if filtered {
                        extend_ids(added, &data.projects[pi].worktree_ids);
                    }
                },
                None => {},
            }
        }
        i += 1;
    }
}

/// Whether some folder lists `pid`.
fn folder_lists(folders: &Vec<FolderData>, pid: &String) -> (r: bool)
    ensures
        r == in_some_folder(folders@, pid@),
{
    let mut f: usize = 0;
    while f < folders.len()
        invariant
            f <= folders.len(),
            forall|g: int| 0 <= g < f ==> !has_id(#[trigger] folders@[g].project_ids@, pid@),
        decreases folders.len() - f,
    {
        if contains_id(&folders[f].project_ids, pid) {
            return true;
        }
        f += 1;
    }
    false
}

/// Whether the project at `k` is a worktree whose parent lives in a folder.
pub open spec fn owned_at(projects: Seq<ProjectData>, folders: Seq<FolderData>, k: int) -> bool {
    projects[k].worktree_info is Some && in_some_folder(folders, projects[k].worktree_info->0.parent_project_id@)
}

/// Whether one of `projects[0..q]` has id `id` and is owned as `owned_at` says.
pub open spec fn owned_upto(projects: Seq<ProjectData>, folders: Seq<FolderData>, id: Seq<char>, q: int) -> bool {
    exists|k: int| 0 <= k < q && #[trigger] projects[k].id@ == id && owned_at(projects, folders, k)
}

/// The ids of worktrees whose parent lives in a folder.
fn folder_owned_ids(data: &WorkspaceData) -> (r: Vec<String>)
    ensures
        forall|id: Seq<char>| has_id(r@, id) == folder_owned(data.projects@, data.folders@, id),
{
    let ghost projects = data.projects@;
    let ghost folders = data.folders@;
    let mut r: Vec<String> = Vec::new();
    let mut q: usize = 0;
    while q < data.projects.len()
        invariant
            q <= data.projects.len(),
            projects == data.projects@,
            folders == data.folders@,
            forall|id: Seq<char>| has_id(r@, id) == owned_upto(projects, folders, id, q as int),
        decreases data.projects.len() - q,
    {
        let p = &data.projects[q];
        let ghost old_r = r@;
        let mut owned = false;
        match &p.worktree_info {
            Some(wi) => {
                if folder_lists(&data.folders, &wi.parent_project_id) {
                    owned = true;
                }
            },
            None => {},
        }
        if owned {
            r.push(p.id.clone());
        }
        assert(owned == owned_at(projects, folders, q as int));
        assert forall|id: Seq<char>| has_id(r@, id) == owned_upto(projects, folders, id, q + 1) by {
            if has_id(r@, id) {
                let j = choose|j: int| 0 <= j < r@.len() && #[trigger] r@[j]@ == id;
                if j < old_r.len() {
                    assert(old_r[j]@ == id);
                    assert(has_id(old_r, id));
                    assert(owned_upto(projects, folders, id, q as int));
                    let k = choose|k: int| 0 <= k < q && #[trigger] projects[k].id@ == id && owned_at(projects, folders, k);
                    assert(projects[k].id@ == id);
                } else {
                    assert(projects[q as int].id@ == id);
                }
            }
            if owned_upto(projects, folders, id, q + 1) {
                let k = choose|k: int| 0 <= k < q + 1 && #[trigger] projects[k].id@ == id && owned_at(projects, folders, k);
                if k == q {
                    assert(r@[old_r.len() as int]@ == id);
                } else {
                    assert(owned_upto(projects, folders, id, q as int));
                    assert(has_id(old_r, id));
                    let j = choose|j: int| 0 <= j < old_r.len() && #[trigger] old_r[j]@ == id;
                    assert(r@[j]@ == id);
                }
            }
        }
        q += 1;
    }
    assert forall|id: Seq<char>| owned_upto(projects, folders, id, projects.len() as int) == folder_owned(projects, folders, id) by {
        if owned_upto(projects, folders, id, projects.len() as int) {
            let k = choose|k: int| 0 <= k < projects.len() && #[trigger] projects[k].id@ == id && owned_at(projects, folders, k);
            assert(projects[k].id@ == id);
        }
        if folder_owned(projects, folders, id) {
            let k = choose|k: int| 0 <= k < projects.len() && #[trigger] projects[k].id@ == id && projects[k].worktree_info is Some
                && in_some_folder(folders, projects[k].worktree_info->0.parent_project_id@);
            assert(owned_at(projects, folders, k));
        }
    }
    r
}

/// Applies every entry of the top-level order, as `order_pass` says.
fn order_pass_exec(data: &WorkspaceData, focused: Option<&String>, individual: bool, folder_filter: Option<&String>) -> (r: Vec<usize>)
    ensures
        r@ == order_pass(
            data.projects@,
            data.folders@,
            data.project_order@,
            opt_view(focused),
            individual,
            opt_view(folder_filter),
            data.project_order@.len() as int,
        ).0,
        all_below(r@, data.projects@.len() as int),
{
    let owned = folder_owned_ids(data);
    let mut result: Vec<usize> = Vec::new();
    let mut added: Vec<String> = Vec::new();
    let mut n: usize = 0;
    while n < data.project_order.len()
        invariant
            n <= data.project_order.len(),
            forall|id: Seq<char>| has_id(owned@, id) == folder_owned(data.projects@, data.folders@, id),
            (result@, ids(added@)) == order_pass(
                data.projects@,
                data.folders@,
                data.project_order@,
                opt_view(focused),
                individual,
                opt_view(folder_filter),
                n as int,
            ),
            all_below(result@, data.projects@.len() as int),
        decreases data.project_order.len() - n,
    {
        let id = &data.project_order[n];
        proof {
            lemma_has_id_ids(added@, id@);
        }
        match folder_index(&data.folders, id) {
            Some(fi) => {
                let folder = &data.folders[fi];
                let other = match folder_filter {
                    Some(f) => folder.id != *f,
                    None => false,
                };
                if other {
                    if focused.is_some() {
                        push_focus_through_folder(data, folder, focused, individual, &mut result);
                    }
                } else {
                    push_expand_folder(data, folder, focused, individual, folder_filter.is_some(), &mut result, &mut added);
                }
            },
            None => {
                match project_index(&data.projects, id) {
                    Some(pi) => {
                        if contains_id(&owned, id) || contains_id(&added, id) {
                        } else if folder_filter.is_some() {
                            if focused.is_some() {
                                push_project_with_worktrees(data, pi, focused, individual, &mut result);
                            }
                        } else {
                            push_project_with_worktrees(data, pi, focused, individual, &mut result);
                        }
                    },
                    None => {},
                }
            },
        }
        n += 1;
    }
    result
}

/// Whether some entry of `res` is a project with id `id`.
fn result_has(projects: &Vec<ProjectData>, res: &Vec<usize>, id: &String) -> (r: bool)
    requires
        all_below(res@, projects@.len() as int),
    ensures
        r == in_result(projects@, res@, id@),
{
    let mut j: usize = 0;
    while j < res.len()
        invariant
            j <= res.len(),
            all_below(res@, projects@.len() as int),
            forall|k: int| 0 <= k < j ==> #[trigger] projects@[res@[k] as int].id@ != id@,
        decreases res.len() - j,
    {
        if projects[res[j]].id == *id {
            return true;
        }
        j += 1;
    }
    false
}

/// `res` with each worktree child moved right after its parent.
fn group_worktrees(projects: &Vec<ProjectData>, res: &Vec<usize>) -> (r: Vec<usize>)
    requires
        all_below(res@, projects@.len() as int),
    ensures
        r@ == grouped(projects@, res@, res@.len() as int),
        all_below(r@, projects@.len() as int),
{
    // Which entries are grouped children.
    let mut child: Vec<bool> = Vec::new();
    let mut j: usize = 0;
    while j < res.len()
        invariant
            j <= res.len(),
            all_below(res@, projects@.len() as int),
            child@.len() == j,
            forall|k: int| 0 <= k < j ==> child@[k] == is_grouped_child(projects@, res@, #[trigger] res@[k]),
        decreases res.len() - j,
    {
        let c = match &projects[res[j]].worktree_info {
            Some(wi) => result_has(projects, res, &wi.parent_project_id),
            None => false,
        };
        child.push(c);
        j += 1;
    }
    let mut out: Vec<usize> = Vec::new();
    let mut i: usize = 0;
    while i < res.len()
        invariant
            i <= res.len(),
            all_below(res@, projects@.len() as int),
            child@.len() == res@.len(),
            forall|k: int| 0 <= k < res@.len() ==> child@[k] == is_grouped_child(projects@, res@, #[trigger] res@[k]),
            out@ == grouped(projects@, res@, i as int),
            all_below(out@, projects@.len() as int),
        decreases res.len() - i,
    {
        let q = res[i];
        let qid = &projects[q].id;
        // Does an entry sharing this id get grouped under a parent?
        let mut moves = false;
        let mut j: usize = 0;
        while j < res.len()
            invariant
                j <= res.len(),
                all_below(res@, projects@.len() as int),
                child@.len() == res@.len(),
                forall|k: int| 0 <= k < res@.len() ==> child@[k] == is_grouped_child(projects@, res@, #[trigger] res@[k]),
                q == res@[i as int],
                qid@ == projects@[q as int].id@,
                moves == exists|k: int|
                    0 <= k < j && is_grouped_child(projects@, res@, #[trigger] res@[k])
                        && projects@[res@[k] as int].id@ == projects@[q as int].id@,
            decreases res.len() - j,
        {
            if child[j] && projects[res[j]].id == *qid {
                moves = true;
            }
            j += 1;
        }
        if !moves {
            out.push(q);
            // Its worktree children, in result order.
            let ghost base = out@;
            let mut k: usize = 0;
            while k < res.len()
                invariant
                    k <= res.len(),
                    all_below(res@, projects@.len() as int),
                    child@.len() == res@.len(),
                    forall|m: int| 0 <= m < res@.len() ==> child@[m] == is_grouped_child(projects@, res@, #[trigger] res@[m]),
                    qid@ == projects@[q as int].id@,
                    out@ == base + children_of(projects@, res@, qid@, k as int),
                    all_below(out@, projects@.len() as int),
                decreases res.len() - k,
            {
                let c = res[k];
                if child[k] {
                    match &projects[c].worktree_info {
                        Some(wi) => {
                            if wi.parent_project_id == *qid {
                                out.push(c);
                            }
                        },
                        None => {},
                    }
                }
                k += 1;
            }
        }
        i += 1;
    }
    out
}

/// The positions (in `data.projects`) of the visible projects, in display order.
pub fn visible_project_indices(
    data: &WorkspaceData,
    focused: Option<&String>,
    focus_individual: bool,
    folder_filter: Option<&String>,
) -> (r: Vec<usize>)
    ensures
        r@ == visible_indices(*data, opt_view(focused), focus_individual, opt_view(folder_filter)),
        all_below(r@, data.projects@.len() as int),
{
    let res = order_pass_exec(data, focused, focus_individual, folder_filter);
    group_worktrees(&data.projects, &res)
}

/// The visible projects in display order (see the module documentation).
pub fn compute_visible_projects<'a>(
    data: &'a WorkspaceData,
    focused: Option<&String>,
    focus_individual: bool,
    folder_filter: Option<&String>,
) -> (r: Vec<&'a ProjectData>)
    ensures
        r@.len() == visible_indices(*data, opt_view(focused), focus_individual, opt_view(folder_filter)).len(),
        forall|i: int|
            0 <= i < r@.len() ==> *r@[i] == data.projects@[visible_indices(
                *data,
                opt_view(focused),
                focus_individual,
                opt_view(folder_filter),
            )[i] as int],
{
    let idx = visible_project_indices(data, focused, focus_individual, folder_filter);
    let mut r: Vec<&'a ProjectData> = Vec::new();
    let mut i: usize = 0;
    while i < idx.len()
        invariant
            i <= idx.len(),
            all_below(idx@, data.projects@.len() as int),
            r@.len() == i,
            forall|k: int| 0 <= k < i ==> *r@[k] == data.projects@[idx@[k] as int],
        decreases idx.len() - i,
    {
        r.push(&data.projects[idx[i]]);
        i += 1;
    }
    r
}

} // verus!
