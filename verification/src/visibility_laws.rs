//! What every visible project list satisfies, whatever the data: focus and
//! overview rules proved over `visible_indices`.
use vstd::prelude::*;
use crate::state::{find_folder, find_project, has_id, lemma_find_project_from, ProjectData, WorkspaceData};
use crate::visibility::{
    children_of, expand_folder, focus_through_folder, grouped, order_pass, order_step, project_pushes,
    visible_indices, worktree_pushes,
};

verus! {

/// Every entry of `s` satisfies `pred`.
pub open spec fn all_sat(s: Seq<usize>, pred: spec_fn(usize) -> bool) -> bool {
    forall|j: int| 0 <= j < s.len() ==> pred(#[trigger] s[j])
}

/// Every push of every project satisfies `pred`.
pub open spec fn pushes_sat(
    projects: Seq<ProjectData>,
    focused: Option<Seq<char>>,
    individual: bool,
    pred: spec_fn(usize) -> bool,
) -> bool {
    forall|pi: int| 0 <= pi < projects.len() ==> all_sat(#[trigger] project_pushes(projects, pi, focused, individual), pred)
}

proof fn lemma_concat(a: Seq<usize>, b: Seq<usize>, pred: spec_fn(usize) -> bool)
    requires
        all_sat(a, pred),
        all_sat(b, pred),
    ensures
        all_sat(a + b, pred),
{
    assert forall|j: int| 0 <= j < (a + b).len() implies pred(#[trigger] (a + b)[j]) by {
        if j < a.len() {
            assert((a + b)[j] == a[j]);
        } else {
            assert((a + b)[j] == b[j - a.len()]);
        }
    }
}

proof fn lemma_focus_through(
    projects: Seq<ProjectData>,
    fpids: Seq<String>,
    focused: Option<Seq<char>>,
    individual: bool,
    k: int,
    pred: spec_fn(usize) -> bool,
)
    requires
        pushes_sat(projects, focused, individual, pred),
        k <= fpids.len(),
    ensures
        all_sat(focus_through_folder(projects, fpids, focused, individual, k), pred),
    decreases k,
{
    if k > 0 {
        lemma_focus_through(projects, fpids, focused, individual, k - 1, pred);
        lemma_find_project_from(projects, fpids[k - 1]@, 0);
        match find_project(projects, fpids[k - 1]@) {
            Some(pi) => {
                assert(all_sat(project_pushes(projects, pi, focused, individual), pred));
                lemma_concat(
                    focus_through_folder(projects, fpids, focused, individual, k - 1),
                    project_pushes(projects, pi, focused, individual),
                    pred,
                );
            },
            None => {},
        }
    }
}

proof fn lemma_expand(
    projects: Seq<ProjectData>,
    fpids: Seq<String>,
    focused: Option<Seq<char>>,
    individual: bool,
    filtered: bool,
    k: int,
    res: Seq<usize>,
    added: Seq<Seq<char>>,
    pred: spec_fn(usize) -> bool,
)
    requires
        pushes_sat(projects, focused, individual, pred),
        all_sat(res, pred),
        k <= fpids.len(),
    ensures
        all_sat(expand_folder(projects, fpids, focused, individual, filtered, k, res, added).0, pred),
    decreases k,
{
    if k > 0 {
        lemma_expand(projects, fpids, focused, individual, filtered, k - 1, res, added, pred);
        let (r, a) = expand_folder(projects, fpids, focused, individual, filtered, k - 1, res, added);
        let pid = fpids[k - 1]@;
        lemma_find_project_from(projects, pid, 0);
        if !a.contains(pid) {
            match find_project(projects, pid) {
                Some(pi) => {
                    assert(all_sat(project_pushes(projects, pi, focused, individual), pred));
                    lemma_concat(r, project_pushes(projects, pi, focused, individual), pred);
                },
                None => {},
            }
        }
    }
}

proof fn lemma_order_pass(data: WorkspaceData, focused: Option<Seq<char>>, individual: bool, filter: Option<Seq<char>>, n: int, pred: spec_fn(usize) -> bool)
    requires
        pushes_sat(data.projects@, focused, individual, pred),
        n <= data.project_order@.len(),
    ensures
        all_sat(
            order_pass(data.projects@, data.folders@, data.project_order@, focused, individual, filter, n).0,
            pred,
        ),
    decreases n,
{
    let projects = data.projects@;
    let folders = data.folders@;
    let order = data.project_order@;
    if n > 0 {
        lemma_order_pass(data, focused, individual, filter, n - 1, pred);
        let (r, a) = order_pass(projects, folders, order, focused, individual, filter, n - 1);
        let id = order[n - 1]@;
        crate::state::lemma_find_folder_from(folders, id, 0);
        lemma_find_project_from(projects, id, 0);
        match crate::state::find_folder(folders, id) {
            Some(fi) => {
                let f = folders[fi];
                if filter is Some && f.id@ != filter->0 {
                    if focused is Some {
                        lemma_focus_through(projects, f.project_ids@, focused, individual, f.project_ids@.len() as int, pred);
                        lemma_concat(
                            r,
                            focus_through_folder(projects, f.project_ids@, focused, individual, f.project_ids@.len() as int),
                            pred,
                        );
                    }
                } else {
                    lemma_expand(
                        projects,
                        f.project_ids@,
                        focused,
                        individual,
                        filter is Some,
                        f.project_ids@.len() as int,
                        r,
                        a,
                        pred,
                    );
                }
            },
            None => match find_project(projects, id) {
                Some(pi) => {
                    assert(all_sat(project_pushes(projects, pi, focused, individual), pred));
                    lemma_concat(r, project_pushes(projects, pi, focused, individual), pred);
                },
                None => {},
            },
        }
        assert(order_pass(projects, folders, order, focused, individual, filter, n) == order_step(
            projects,
            folders,
            focused,
            individual,
            filter,
            id,
            r,
            a,
        ));
    }
}

proof fn lemma_children(projects: Seq<ProjectData>, res: Seq<usize>, pid: Seq<char>, k: int, pred: spec_fn(usize) -> bool)
    requires
        all_sat(res, pred),
        k <= res.len(),
    ensures
        all_sat(children_of(projects, res, pid, k), pred),
    decreases k,
{
    if k > 0 {
        lemma_children(projects, res, pid, k - 1, pred);
        let prev = children_of(projects, res, pid, k - 1);
        assert(pred(res[k - 1]));
        assert(all_sat(prev.push(res[k - 1]), pred)) by {
            assert forall|j: int| 0 <= j < prev.push(res[k - 1]).len() implies pred(#[trigger] prev.push(res[k - 1])[j]) by {
                if j < prev.len() {
                    assert(prev.push(res[k - 1])[j] == prev[j]);
                }
            }
        }
    }
}

proof fn lemma_grouped(projects: Seq<ProjectData>, res: Seq<usize>, k: int, pred: spec_fn(usize) -> bool)
    requires
        all_sat(res, pred),
        k <= res.len(),
    ensures
        all_sat(grouped(projects, res, k), pred),
    decreases k,
{
    if k > 0 {
        lemma_grouped(projects, res, k - 1, pred);
        let prev = grouped(projects, res, k - 1);
        let q = res[k - 1];
        assert(pred(q));
        let kids = children_of(projects, res, projects[q as int].id@, res.len() as int);
        lemma_children(projects, res, projects[q as int].id@, res.len() as int, pred);
        assert(all_sat(prev.push(q), pred)) by {
            assert forall|j: int| 0 <= j < prev.push(q).len() implies pred(#[trigger] prev.push(q)[j]) by {
                if j < prev.len() {
                    assert(prev.push(q)[j] == prev[j]);
                }
            }
        }
        lemma_concat(prev.push(q), kids, pred);
    }
}

proof fn lemma_visible(data: WorkspaceData, focused: Option<Seq<char>>, individual: bool, filter: Option<Seq<char>>, pred: spec_fn(usize) -> bool)
    requires
        pushes_sat(data.projects@, focused, individual, pred),
    ensures
        all_sat(visible_indices(data, focused, individual, filter), pred),
{
    let n = data.project_order@.len() as int;
    lemma_order_pass(data, focused, individual, filter, n, pred);
    let res = order_pass(data.projects@, data.folders@, data.project_order@, focused, individual, filter, n).0;
    lemma_grouped(data.projects@, res, res.len() as int, pred);
}

proof fn lemma_worktree_pushes_shown(projects: Seq<ProjectData>, wt: Seq<String>, k: int)
    requires
        k <= wt.len(),
        projects.len() <= usize::MAX,
    ensures
        all_sat(worktree_pushes(projects, wt, true, k), |x: usize| projects[x as int].show_in_overview),
    decreases k,
{
    if k > 0 {
        lemma_worktree_pushes_shown(projects, wt, k - 1);
        lemma_find_project_from(projects, wt[k - 1]@, 0);
        let prev = worktree_pushes(projects, wt, true, k - 1);
        match find_project(projects, wt[k - 1]@) {
            Some(w) => {
                if projects[w].show_in_overview {
                    let pred = |x: usize| projects[x as int].show_in_overview;
                    assert forall|j: int| 0 <= j < prev.push(w as usize).len() implies pred(#[trigger] prev.push(w as usize)[j]) by {
                        if j < prev.len() {
                            assert(prev.push(w as usize)[j] == prev[j]);
                        }
                    }
                }
            },
            None => {},
        }
    }
}

/// Without a focused project, only projects marked to show in the overview
/// are visible (whatever the folder filter and the individual flag).
pub proof fn law_unfocused_shows_only_overview_projects(data: WorkspaceData, individual: bool, filter: Option<Seq<char>>)
    ensures
        forall|j: int|
            0 <= j < visible_indices(data, None, individual, filter).len() ==> data.projects@[#[trigger] visible_indices(
                data,
                None,
                individual,
                filter,
            )[j] as int].show_in_overview,
{
    let projects = data.projects@;
    assert(projects.len() <= usize::MAX) by {
        assert(data.projects@.len() == data.projects.len());
    }
    let pred = |x: usize| projects[x as int].show_in_overview;
    assert forall|pi: int| 0 <= pi < projects.len() implies all_sat(#[trigger] project_pushes(projects, pi, None, individual), pred) by {
        let p = projects[pi];
        let wt = p.worktree_ids@;
        lemma_worktree_pushes_shown(projects, wt, wt.len() as int);
        let head: Seq<usize> = if p.show_in_overview {
            seq![pi as usize]
        } else {
            seq![]
        };
        lemma_concat(head, worktree_pushes(projects, wt, true, wt.len() as int), pred);
    }
    lemma_visible(data, None, individual, filter, pred);
}

/// Whether the project at `q` belongs to folder `fid` (the first folder with
/// that id): it is listed there, or it is a worktree listed by a project
/// listed there. No project belongs to an id that names no folder.
pub open spec fn in_folder_family(data: WorkspaceData, fid: Seq<char>, q: usize) -> bool {
    match find_folder(data.folders@, fid) {
        Some(k) => exists|pi: int|
            0 <= pi < data.projects@.len() && #[trigger] has_id(data.folders@[k].project_ids@, data.projects@[pi].id@)
                && (q == pi || has_id(data.projects@[pi].worktree_ids@, data.projects@[q as int].id@)),
        None => false,
    }
}

proof fn lemma_worktree_pushes_listed(projects: Seq<ProjectData>, wt: Seq<String>, k: int)
    requires
        k <= wt.len(),
        projects.len() <= usize::MAX,
    ensures
        all_sat(worktree_pushes(projects, wt, true, k), |x: usize| has_id(wt, projects[x as int].id@)),
    decreases k,
{
    if k > 0 {
        lemma_worktree_pushes_listed(projects, wt, k - 1);
        lemma_find_project_from(projects, wt[k - 1]@, 0);
        let prev = worktree_pushes(projects, wt, true, k - 1);
        match find_project(projects, wt[k - 1]@) {
            Some(w) => {
                let pred = |x: usize| has_id(wt, projects[x as int].id@);
                assert(projects[(w as usize) as int].id@ == wt[k - 1]@);
                assert(pred(w as usize));
                assert forall|j: int| 0 <= j < prev.push(w as usize).len() implies pred(#[trigger] prev.push(w as usize)[j]) by {
                    if j < prev.len() {
                        assert(prev.push(w as usize)[j] == prev[j]);
                    }
                }
            },
            None => {},
        }
    }
}

proof fn lemma_expand_family(
    data: WorkspaceData,
    fid: Seq<char>,
    fi: int,
    individual: bool,
    k: int,
    res: Seq<usize>,
    added: Seq<Seq<char>>,
)
    requires
        find_folder(data.folders@, fid) == Some(fi),
        0 <= fi < data.folders@.len(),
        data.projects@.len() <= usize::MAX,
        k <= data.folders@[fi].project_ids@.len(),
        all_sat(res, |q: usize| in_folder_family(data, fid, q)),
    ensures
        all_sat(
            expand_folder(data.projects@, data.folders@[fi].project_ids@, None, individual, true, k, res, added).0,
            |q: usize| in_folder_family(data, fid, q),
        ),
    decreases k,
{
    let projects = data.projects@;
    let fpids = data.folders@[fi].project_ids@;
    let pred = |q: usize| in_folder_family(data, fid, q);
    if k > 0 {
        lemma_expand_family(data, fid, fi, individual, k - 1, res, added);
        let (r, a) = expand_folder(projects, fpids, None, individual, true, k - 1, res, added);
        let pid = fpids[k - 1]@;
        lemma_find_project_from(projects, pid, 0);
        if !a.contains(pid) {
            match find_project(projects, pid) {
                Some(pi) => {
                    let p = projects[pi];
                    let wt = p.worktree_ids@;
                    assert(has_id(fpids, projects[pi].id@)) by {
                        assert(fpids[k - 1]@ == projects[pi].id@);
                    }
                    let head: Seq<usize> = if p.show_in_overview {
                        seq![pi as usize]
                    } else {
                        seq![]
                    };
                    assert(all_sat(head, pred)) by {
                        if p.show_in_overview {
                            assert(pred(pi as usize));
                        }
                    }
                    lemma_worktree_pushes_listed(projects, wt, wt.len() as int);
                    let tail = worktree_pushes(projects, wt, true, wt.len() as int);
                    assert(all_sat(tail, pred)) by {
                        assert forall|j: int| 0 <= j < tail.len() implies pred(#[trigger] tail[j]) by {
                            let tw = |x: usize| has_id(wt, projects[x as int].id@);
                            assert(tw(tail[j]));
                        }
                    }
                    lemma_concat(head, tail, pred);
                    assert(project_pushes(projects, pi, None, individual) == head + tail);
                    lemma_concat(r, head + tail, pred);
                },
                None => {},
            }
        }
    }
}

proof fn lemma_order_pass_family(data: WorkspaceData, individual: bool, fid: Seq<char>, n: int)
    requires
        n <= data.project_order@.len(),
        data.projects@.len() <= usize::MAX,
    ensures
        all_sat(
            order_pass(data.projects@, data.folders@, data.project_order@, None, individual, Some(fid), n).0,
            |q: usize| in_folder_family(data, fid, q),
        ),
    decreases n,
{
    let projects = data.projects@;
    let folders = data.folders@;
    let order = data.project_order@;
    if n > 0 {
        lemma_order_pass_family(data, individual, fid, n - 1);
        let (r, a) = order_pass(projects, folders, order, None, individual, Some(fid), n - 1);
        let id = order[n - 1]@;
        crate::state::lemma_find_folder_from(folders, id, 0);
        match find_folder(folders, id) {
            Some(fi) => {
                let f = folders[fi];
                if f.id@ == fid {
                    lemma_expand_family(data, fid, fi, individual, f.project_ids@.len() as int, r, a);
                }
            },
            None => {},
        }
        assert(order_pass(projects, folders, order, None, individual, Some(fid), n) == order_step(
            projects,
            folders,
            None,
            individual,
            Some(fid),
            id,
            r,
            a,
        ));
    }
}

/// Without a focused project and with the folder filter on `fid`, every
/// visible project is listed in that folder or is a worktree listed by one of
/// its projects; when no folder has id `fid`, nothing is visible.
pub proof fn law_folder_filter_shows_only_that_folder(data: WorkspaceData, individual: bool, fid: Seq<char>)
    ensures
        forall|j: int|
            0 <= j < visible_indices(data, None, individual, Some(fid)).len() ==> in_folder_family(
                data,
                fid,
                #[trigger] visible_indices(data, None, individual, Some(fid))[j],
            ),
        find_folder(data.folders@, fid) is None ==> visible_indices(data, None, individual, Some(fid)).len() == 0,
{
    assert(data.projects@.len() <= usize::MAX) by {
        assert(data.projects@.len() == data.projects.len());
    }
    let n = data.project_order@.len() as int;
    let pred = |q: usize| in_folder_family(data, fid, q);
    lemma_order_pass_family(data, individual, fid, n);
    let res = order_pass(data.projects@, data.folders@, data.project_order@, None, individual, Some(fid), n).0;
    lemma_grouped(data.projects@, res, res.len() as int, pred);
    let vis = visible_indices(data, None, individual, Some(fid));
    if find_folder(data.folders@, fid) is None && vis.len() > 0 {
        assert(pred(vis[0]));
    }
}

/// With a project focused individually, only that project is visible: no
/// worktree children and nothing else (whatever the folder filter).
pub proof fn law_individual_focus_shows_only_focused(data: WorkspaceData, fid: Seq<char>, filter: Option<Seq<char>>)
    ensures
        forall|j: int|
            0 <= j < visible_indices(data, Some(fid), true, filter).len() ==> data.projects@[#[trigger] visible_indices(
                data,
                Some(fid),
                true,
                filter,
            )[j] as int].id@ == fid,
{
    let projects = data.projects@;
    assert(projects.len() <= usize::MAX) by {
        assert(data.projects@.len() == data.projects.len());
    }
    let pred = |x: usize| projects[x as int].id@ == fid;
    assert forall|pi: int| 0 <= pi < projects.len() implies all_sat(#[trigger] project_pushes(projects, pi, Some(fid), true), pred) by {
        lemma_find_project_from(projects, fid, 0);
    }
    lemma_visible(data, Some(fid), true, filter, pred);
}

/// Whether project `p` is the focused project `fid` or one of the worktrees
/// listed by a project with that id.
pub open spec fn focus_member(projects: Seq<ProjectData>, fid: Seq<char>, p: ProjectData) -> bool {
    p.id@ == fid || exists|q: int|
        0 <= q < projects.len() && (#[trigger] projects[q]).id@ == fid && has_id(projects[q].worktree_ids@, p.id@)
}

proof fn lemma_worktree_pushes_members(projects: Seq<ProjectData>, pi: int, fid: Seq<char>, k: int)
    requires
        0 <= pi < projects.len() <= usize::MAX,
        projects[pi].id@ == fid,
        k <= projects[pi].worktree_ids@.len(),
    ensures
        all_sat(
            worktree_pushes(projects, projects[pi].worktree_ids@, false, k),
            |x: usize| focus_member(projects, fid, projects[x as int]),
        ),
    decreases k,
{
    let wt = projects[pi].worktree_ids@;
    if k > 0 {
        lemma_worktree_pushes_members(projects, pi, fid, k - 1);
        let prev = worktree_pushes(projects, wt, false, k - 1);
        lemma_find_project_from(projects, wt[k - 1]@, 0);
        match find_project(projects, wt[k - 1]@) {
            Some(w) => {
                assert(has_id(wt, projects[w].id@)) by {
                    assert(wt[k - 1]@ == projects[w].id@);
                }
                let pred = |x: usize| focus_member(projects, fid, projects[x as int]);
                assert(pred(w as usize));
                assert forall|j: int| 0 <= j < prev.push(w as usize).len() implies pred(#[trigger] prev.push(w as usize)[j]) by {
                    if j < prev.len() {
                        assert(prev.push(w as usize)[j] == prev[j]);
                    }
                }
            },
            None => {},
        }
    }
}

/// With a project focused (not individually), every visible project is that
/// project or one of its listed worktrees.
pub proof fn law_focus_shows_project_and_worktrees(data: WorkspaceData, fid: Seq<char>, filter: Option<Seq<char>>)
    ensures
        forall|j: int|
            0 <= j < visible_indices(data, Some(fid), false, filter).len() ==> focus_member(
                data.projects@,
                fid,
                data.projects@[#[trigger] visible_indices(data, Some(fid), false, filter)[j] as int],
            ),
{
    let projects = data.projects@;
    assert(projects.len() <= usize::MAX) by {
        assert(data.projects@.len() == data.projects.len());
    }
    let pred = |x: usize| focus_member(projects, fid, projects[x as int]);
    assert forall|pi: int| 0 <= pi < projects.len() implies all_sat(#[trigger] project_pushes(projects, pi, Some(fid), false), pred) by {
        lemma_find_project_from(projects, fid, 0);
        let p = projects[pi];
        let wt = p.worktree_ids@;
        if p.id@ == fid {
            lemma_worktree_pushes_members(projects, pi, fid, wt.len() as int);
            let head: Seq<usize> = seq![pi as usize];
            assert(all_sat(head, pred));
            lemma_concat(head, worktree_pushes(projects, wt, false, wt.len() as int), pred);
        }
    }
    lemma_visible(data, Some(fid), false, filter, pred);
}

} // verus!
