//! The workspace model the sidebar and main view work on: the persistent
//! data, the project focus, and the active folder filter, with the folder
//! actions (create, delete, rename, recolor, collapse, move and reorder).
use vstd::prelude::*;
use crate::state::{
    FolderColor, FolderData, FolderView, ProjectData, WorkspaceData, WorkspaceView, find_folder,
    find_project, folder_index, folder_views, has_id, ids, project_index, contains_id,
};
use crate::text::{chars_of, is_prefix, push_str, vec_starts_with};
use crate::visibility::{compute_visible_projects, opt_view, visible_indices};
use crate::scrollback::opt_string_view;
use crate::lifecycle::{PendingWorktreeClose, ProjectLifecycleTracker};
use crate::remote_sync::RemoteSyncState;

verus! {

/// `s` without the entries equal to `x`, order kept.
pub open spec fn drop_all(s: Seq<Seq<char>>, x: Seq<char>) -> Seq<Seq<char>>
    decreases s.len(),
{
    if s.len() == 0 {
        s
    } else {
        let r = drop_all(s.drop_last(), x);
        if s.last() == x {
            r
        } else {
            r.push(s.last())
        }
    }
}

/// Index of the first `x` in `s` at or after `i`.
pub open spec fn first_index(s: Seq<Seq<char>>, x: Seq<char>, i: int) -> Option<int>
    decreases s.len() - i,
{
    if i < 0 || i >= s.len() {
        None
    } else if s[i] == x {
        Some(i)
    } else {
        first_index(s, x, i + 1)
    }
}

pub open spec fn min_index(i: int, len: int) -> int {
    if i < len {
        i
    } else {
        len
    }
}

/// `s` with the entry at `current` moved so that it lands before the entry
/// that was at `new_index` (after taking it out, a later target moves one
/// left), kept within the sequence.
pub open spec fn moved(s: Seq<Seq<char>>, current: int, new_index: int) -> Seq<Seq<char>> {
    let rest = s.remove(current);
    let target = if new_index > current {
        new_index - 1
    } else {
        new_index
    };
    rest.insert(min_index(target, rest.len() as int), s[current])
}

/// `s` with `x` taken out wherever it occurs in the project lists of the folders.
pub open spec fn strip_project(fs: Seq<FolderView>, x: Seq<char>) -> Seq<FolderView> {
    fs.map_values(
        |f: FolderView|
            FolderView {
                id: f.id,
                name: f.name,
                project_ids: drop_all(f.project_ids, x),
                collapsed: f.collapsed,
                folder_color: f.folder_color,
            },
    )
}

proof fn lemma_push_contains(a: Seq<Seq<char>>, e: Seq<char>, y: Seq<char>)
    ensures
        a.push(e).contains(y) == (a.contains(y) || e == y),
{
    if a.push(e).contains(y) {
        let j = choose|j: int| 0 <= j < a.push(e).len() && a.push(e)[j] == y;
        if j < a.len() {
            assert(a[j] == y);
        }
    }
    if a.contains(y) {
        let j = choose|j: int| 0 <= j < a.len() && a[j] == y;
        assert(a.push(e)[j] == y);
    }
    if e == y {
        assert(a.push(e)[a.len() as int] == y);
    }
}

/// `drop_all(s, x)` holds no `x` and every other entry of `s`.
pub proof fn lemma_drop_all(s: Seq<Seq<char>>, x: Seq<char>)
    ensures
        !drop_all(s, x).contains(x),
        forall|y: Seq<char>| y != x ==> (#[trigger] drop_all(s, x).contains(y) == s.contains(y)),
    decreases s.len(),
{
    if s.len() > 0 {
        let d = s.drop_last();
        lemma_drop_all(d, x);
        let r = drop_all(d, x);
        assert(s =~= d.push(s.last()));
        lemma_push_contains(r, s.last(), x);
        assert forall|y: Seq<char>| y != x implies (#[trigger] drop_all(s, x).contains(y) == s.contains(y)) by {
            lemma_push_contains(d, s.last(), y);
            lemma_push_contains(r, s.last(), y);
        }
    }
}

/// Taking an id out keeps every other entry, in its order: `drop_all(s, x)`
/// is `s` filtered to the entries other than `x`.
pub proof fn law_drop_all_is_filter(s: Seq<Seq<char>>, x: Seq<char>)
    ensures
        drop_all(s, x) == s.filter(|y: Seq<char>| y != x),
    decreases s.len(),
{
    reveal_with_fuel(Seq::filter, 1);
    if s.len() > 0 {
        law_drop_all_is_filter(s.drop_last(), x);
    } else {
        assert(s.filter(|y: Seq<char>| y != x) =~= s);
    }
}

/// Inserting `x` into a sequence without `x` leaves exactly one `x`.
pub proof fn lemma_insert_once(s: Seq<Seq<char>>, pos: int, x: Seq<char>)
    requires
        0 <= pos <= s.len(),
        !s.contains(x),
    ensures
        s.insert(pos, x).to_multiset().count(x) == 1,
{
    broadcast use vstd::seq_lib::to_multiset_insert, vstd::seq_lib::to_multiset_contains;
    broadcast use vstd::multiset::group_multiset_axioms;
    assert(s.to_multiset().count(x) == 0);
}

/// Reordering (a folder's projects or the top-level order) only permutes
/// the entries: the same ids, each as often, and the same length.
pub proof fn law_moved_is_permutation(s: Seq<Seq<char>>, current: int, new_index: int)
    requires
        0 <= current < s.len(),
        0 <= new_index,
    ensures
        moved(s, current, new_index).to_multiset() == s.to_multiset(),
        moved(s, current, new_index).len() == s.len(),
{
    broadcast use vstd::seq_lib::to_multiset_insert, vstd::seq_lib::to_multiset_remove, vstd::seq_lib::to_multiset_contains;
    broadcast use vstd::multiset::group_multiset_axioms;
    let rest = s.remove(current);
    let target = if new_index > current {
        new_index - 1
    } else {
        new_index
    };
    let t = min_index(target, rest.len() as int);
    assert(0 <= t <= rest.len());
    assert(rest.insert(t, s[current]).to_multiset() == rest.to_multiset().insert(s[current]));
    assert(s.to_multiset().count(s[current]) > 0) by {
        assert(s.contains(s[current]));
    }
    assert(s.to_multiset().remove(s[current]).insert(s[current]) =~= s.to_multiset());
}

/// Where a moved entry lands. Moving the entry at `current` down to
/// `new_index` (at most the length) puts it right before the entry that was
/// at `new_index`: the entries between close up behind it. Moving it up puts
/// it at `new_index`, the entries from there on shifting down one. A target
/// past the end puts it last. Everything else keeps its order.
pub proof fn law_moved_lands_before_target(s: Seq<Seq<char>>, current: int, new_index: int)
    requires
        0 <= current < s.len(),
        0 <= new_index,
    ensures
        current < new_index <= s.len() ==> moved(s, current, new_index) == s.take(current) + s.subrange(
            current + 1,
            new_index,
        ) + seq![s[current]] + s.skip(new_index),
        current < new_index <= s.len() ==> moved(s, current, new_index)[new_index - 1] == s[current],
        new_index <= current ==> moved(s, current, new_index) == s.take(new_index) + seq![s[current]]
            + s.subrange(new_index, current) + s.skip(current + 1),
        new_index <= current ==> moved(s, current, new_index)[new_index] == s[current],
        new_index > s.len() ==> moved(s, current, new_index) == s.remove(current).push(s[current]),
{
    let x = s[current];
    let r = moved(s, current, new_index);
    if current < new_index <= s.len() {
        let want = s.take(current) + s.subrange(current + 1, new_index) + seq![x] + s.skip(new_index);
        assert(r.len() == want.len());
        assert forall|i: int| 0 <= i < r.len() implies r[i] == want[i] by {
            if i < current {
            } else if i < new_index - 1 {
                assert(r[i] == s[i + 1]);
            } else if i == new_index - 1 {
            } else {
                assert(r[i] == s[i]);
            }
        }
        assert(r =~= want);
    }
    if new_index <= current {
        let want = s.take(new_index) + seq![x] + s.subrange(new_index, current) + s.skip(current + 1);
        assert(r.len() == want.len());
        assert forall|i: int| 0 <= i < r.len() implies r[i] == want[i] by {
            if i < new_index {
            } else if i == new_index {
            } else if i <= current {
                assert(r[i] == s[i - 1]);
            } else {
                assert(r[i] == s[i]);
            }
        }
        assert(r =~= want);
    }
    if new_index > s.len() {
        assert(r =~= s.remove(current).push(x));
    }
}

proof fn lemma_first_index(s: Seq<Seq<char>>, x: Seq<char>, i: int)
    requires
        0 <= i <= s.len(),
    ensures
        first_index(s, x, i) matches Some(k) ==> i <= k < s.len() && s[k] == x,
    decreases s.len() - i,
{
    if i < s.len() && s[i] != x {
        lemma_first_index(s, x, i + 1);
    }
}

/// Deleting a folder that stands in the top-level order loses no project and
/// adds none: the new order holds the old one without the folder's entry,
/// plus the folder's projects.
pub proof fn law_delete_folder_keeps_projects(order: Seq<Seq<char>>, pids: Seq<Seq<char>>, id: Seq<char>)
    requires
        order.contains(id),
    ensures
        order_after_delete(order, pids, id).to_multiset() == order.to_multiset().remove(id).add(pids.to_multiset()),
{
    broadcast use vstd::seq_lib::lemma_multiset_commutative, vstd::seq_lib::to_multiset_build;
    broadcast use vstd::multiset::group_multiset_axioms;
    let j = choose|j: int| 0 <= j < order.len() && order[j] == id;
    lemma_first_index(order, id, 0);
    if first_index(order, id, 0) is None {
        lemma_first_index_none(order, id, 0, j);
    }
    let p = first_index(order, id, 0)->0;
    let a = order.take(p);
    let b = order.skip(p + 1);
    assert(order =~= a.push(id) + b);
    assert((a.push(id) + b).to_multiset() =~= a.to_multiset().insert(id).add(b.to_multiset()));
    assert((a + pids + b).to_multiset() =~= a.to_multiset().add(pids.to_multiset()).add(b.to_multiset()));
    assert(order.to_multiset().remove(id) =~= a.to_multiset().add(b.to_multiset()));
}

proof fn lemma_first_index_none(s: Seq<Seq<char>>, x: Seq<char>, i: int, j: int)
    requires
        0 <= i <= j < s.len(),
        s[j] == x,
    ensures
        first_index(s, x, i) is Some,
    decreases j - i,
{
    if s[i] != x {
        lemma_first_index_none(s, x, i + 1, j);
    }
}

proof fn lemma_first_index_at(s: Seq<Seq<char>>, x: Seq<char>, i: int, p: int)
    requires
        0 <= i <= p < s.len(),
        s[p] == x,
        forall|k: int| i <= k < p ==> s[k] != x,
    ensures
        first_index(s, x, i) == Some(p),
    decreases p - i,
{
    if i < p {
        lemma_first_index_at(s, x, i + 1, p);
    }
}

/// Deleting a folder whose entry stands once in the top-level order, between
/// `xs` and `ys`, puts its projects `ps` exactly in its place:
/// the new order is `xs ++ ps ++ ys`.
pub proof fn law_delete_folder_splices(xs: Seq<Seq<char>>, ys: Seq<Seq<char>>, ps: Seq<Seq<char>>, id: Seq<char>)
    requires
        !xs.contains(id),
    ensures
        order_after_delete(xs.push(id) + ys, ps, id) == xs + ps + ys,
{
    let order = xs.push(id) + ys;
    let p = xs.len() as int;
    assert forall|k: int| 0 <= k < p implies order[k] != id by {
        assert(order[k] == xs[k]);
    }
    lemma_first_index_at(order, id, 0, p);
    assert(order.take(p) =~= xs);
    assert(order.skip(p + 1) =~= ys);
}

/// `v` without the strings equal to `id`, order kept.
pub fn remove_all_ids(v: &Vec<String>, id: &str) -> (r: Vec<String>)
    ensures
        ids(r@) == drop_all(ids(v@), id@),
{
    let key = id.to_owned();
    let mut r: Vec<String> = Vec::new();
    let mut i: usize = 0;
    while i < v.len()
        invariant
            i <= v@.len(),
            key@ == id@,
            ids(r@) == drop_all(ids(v@.take(i as int)), id@),
        decreases v.len() - i,
    {
        let ghost before = r@;
        assert(ids(v@.take(i + 1)).drop_last() =~= ids(v@.take(i as int)));
        if v[i] != key {
            r.push(v[i].clone());
            assert(ids(r@) =~= ids(before).push(v@[i as int]@));
        }
        i += 1;
    }
    assert(v@.take(v@.len() as int) =~= v@);
    r
}

/// Position of the first string of `v` equal to `id`.
pub fn position_of(v: &Vec<String>, id: &str) -> (r: Option<usize>)
    ensures
        r matches Some(i) ==> i < v@.len() && first_index(ids(v@), id@, 0) == Some(i as int),
        r is None ==> first_index(ids(v@), id@, 0) is None,
{
    let key = id.to_owned();
    let mut i: usize = 0;
    while i < v.len()
        invariant
            i <= v@.len(),
            key@ == id@,
            first_index(ids(v@), id@, 0) == first_index(ids(v@), id@, i as int),
        decreases v.len() - i,
    {
        if v[i] == key {
            return Some(i);
        }
        i += 1;
    }
    None
}

/// A copy of every string of `v`.
pub fn copy_strings(v: &Vec<String>) -> (r: Vec<String>)
    ensures
        r@ == v@,
{
    let mut r: Vec<String> = Vec::new();
    let mut i: usize = 0;
    while i < v.len()
        invariant
            i <= v@.len(),
            r@ == v@.take(i as int),
        decreases v.len() - i,
    {
        r.push(v[i].clone());
        assert(r@ =~= v@.take(i + 1));
        i += 1;
    }
    assert(v@.take(v@.len() as int) =~= v@);
    r
}

/// The project focus of the main view: a focused project, shown with or
/// without its worktree children.
#[derive(Clone, Debug)]
pub struct FocusManager {
    focused_project_id: Option<String>,
    focus_individual: bool,
}

impl FocusManager {
    pub closed spec fn focused(&self) -> Option<Seq<char>> {
        opt_string_view(self.focused_project_id)
    }

    pub closed spec fn individual(&self) -> bool {
        self.focus_individual
    }

    /// No project focused.
    pub fn new() -> (f: Self)
        ensures
            f.focused() is None,
            !f.individual(),
    {
        FocusManager { focused_project_id: None, focus_individual: false }
    }

    /// Focuses a project together with its worktree children.
    pub fn set_focused_project_id(&mut self, id: Option<String>)
        ensures
            final(self).focused() == opt_string_view(id),
            !final(self).individual(),
    {
        self.focused_project_id = id;
        self.focus_individual = false;
    }

    /// Focuses a project alone, without its worktree children.
    pub fn set_focused_project_id_individual(&mut self, id: Option<String>)
        ensures
            final(self).focused() == opt_string_view(id),
            final(self).individual(),
    {
        self.focused_project_id = id;
        self.focus_individual = true;
    }

    pub fn focused_project_id(&self) -> (r: Option<&String>)
        ensures
            opt_view(r) == self.focused(),
    {
        self.focused_project_id.as_ref()
    }

    pub fn is_focus_individual(&self) -> (r: bool)
        ensures
            r == self.individual(),
    {
        self.focus_individual
    }

    /// Clears the focus.
    pub fn clear_all(&mut self)
        ensures
            final(self).focused() is None,
            !final(self).individual(),
    {
        self.focused_project_id = None;
        self.focus_individual = false;
    }
}

impl FolderData {
    /// A copy of this folder.
    pub fn duplicate(&self) -> (r: FolderData)
        ensures
            r@ == self@,
    {
        FolderData {
            id: self.id.clone(),
            name: self.name.clone(),
            project_ids: copy_strings(&self.project_ids),
            collapsed: self.collapsed,
            folder_color: self.folder_color,
        }
    }
}

/// A counter that only ever moves up by one.
pub struct DataVersion {
    value: u64,
}

impl DataVersion {
    /// The current count.
    pub closed spec fn value(&self) -> u64 {
        self.value
    }

    /// A counter at zero.
    pub fn new() -> (v: Self)
        ensures
            v.value() == 0,
    {
        DataVersion { value: 0 }
    }

    /// The current count.
    pub fn get(&self) -> (r: u64)
        ensures
            r == self.value(),
    {
        self.value
    }

    /// Counts one more change.
    pub fn bump(&mut self)
        requires
            old(self).value() < u64::MAX,
        ensures
            final(self).value() == old(self).value() + 1,
    {
        self.value = self.value + 1;
    }
}

/// The workspace: its data, the project focus, the folder filter, and the
/// transient lifecycle and remote-sync state.
pub struct Workspace {
    pub data: WorkspaceData,
    pub focus_manager: FocusManager,
    /// Projects being created or closed and worktrees being removed.
    pub lifecycle: ProjectLifecycleTracker,
    /// Remote projects waiting to be focused.
    pub remote_sync: RemoteSyncState,
    /// Bumped once by every change of the persistent data; the auto-save
    /// compares it to skip saves after changes that touch only the session.
    pub data_version: DataVersion,
    /// When set, only the projects of this folder are shown.
    pub active_folder_filter: Option<String>,
}

/// The folders of `fs` whose id is not `id`, in order.
pub open spec fn folders_without(fs: Seq<FolderView>, id: Seq<char>) -> Seq<FolderView>
    decreases fs.len(),
{
    if fs.len() == 0 {
        fs
    } else {
        let r = folders_without(fs.drop_last(), id);
        if fs.last().id == id {
            r
        } else {
            r.push(fs.last())
        }
    }
}

/// The project ids of the first folder with id `id` (none when there is no such folder).
pub open spec fn folder_projects(folders: Seq<FolderData>, id: Seq<char>) -> Seq<Seq<char>> {
    match find_folder(folders, id) {
        Some(k) => folders[k]@.project_ids,
        None => seq![],
    }
}

/// The top-level order after deleting folder `id`: its projects take its place.
pub open spec fn order_after_delete(order: Seq<Seq<char>>, pids: Seq<Seq<char>>, id: Seq<char>) -> Seq<Seq<char>> {
    match first_index(order, id, 0) {
        Some(p) => order.take(p) + pids + order.skip(p + 1),
        None => order,
    }
}

/// `fs` with the folder at `k` replaced by `f`, when there is one.
pub open spec fn with_folder(fs: Seq<FolderView>, k: Option<int>, f: FolderView) -> Seq<FolderView> {
    match k {
        Some(i) => fs.update(i, f),
        None => fs,
    }
}

impl Workspace {
    /// A workspace showing `data` with nothing focused and no filter.
    pub fn new(data: WorkspaceData) -> (w: Self)
        ensures
            w.data == data,
            w.focus_manager.focused() is None,
            !w.focus_manager.individual(),
            w.active_folder_filter is None,
            w.version() == 0,
            w.lifecycle.creating_set() == Set::<Seq<char>>::empty(),
            w.lifecycle.closing_set() == Set::<Seq<char>>::empty(),
            w.lifecycle.removing_set() == Set::<Seq<char>>::empty(),
            w.remote_sync.pending() == Set::<Seq<char>>::empty(),
    {
        Workspace {
            data,
            focus_manager: FocusManager::new(),
            lifecycle: ProjectLifecycleTracker::new(),
            remote_sync: RemoteSyncState::new(),
            data_version: DataVersion::new(),
            active_folder_filter: None,
        }
    }

    /// The version of the persistent data.
    pub open spec fn version(&self) -> u64 {
        self.data_version.value()
    }

    /// The version of the persistent data.
    pub fn data_version(&self) -> (r: u64)
        ensures
            r == self.version(),
    {
        self.data_version.get()
    }

    /// Records that the persistent data changed.
    pub fn notify_data(&mut self)
        requires
            old(self).version() < u64::MAX,
        ensures
            final(self).version() == old(self).version() + 1,
            final(self).data == old(self).data,
            final(self).focus_manager == old(self).focus_manager,
            final(self).active_folder_filter == old(self).active_folder_filter,
            final(self).lifecycle == old(self).lifecycle,
            final(self).remote_sync == old(self).remote_sync,
    {
        self.data_version.bump();
    }

    pub fn data(&self) -> (r: &WorkspaceData)
        ensures
            *r == self.data,
    {
        &self.data
    }

    /// Replaces the data wholesale (a reload); focus and filter are cleared.
    pub fn replace_data(&mut self, data: WorkspaceData)
        ensures
            final(self).data == data,
            final(self).focus_manager.focused() is None,
            !final(self).focus_manager.individual(),
            final(self).active_folder_filter is None,
            final(self).lifecycle == old(self).lifecycle,
            final(self).remote_sync == old(self).remote_sync,
            final(self).version() == old(self).version(),
    {
        self.data = data;
        self.focus_manager.clear_all();
        self.active_folder_filter = None;
    }

    pub fn active_folder_filter(&self) -> (r: Option<&String>)
        ensures
            opt_view(r) == opt_string_view(self.active_folder_filter),
    {
        self.active_folder_filter.as_ref()
    }

    pub fn set_folder_filter(&mut self, folder_id: Option<String>)
        ensures
            final(self).active_folder_filter == folder_id,
            final(self).data == old(self).data,
            final(self).focus_manager == old(self).focus_manager,
            final(self).lifecycle == old(self).lifecycle,
            final(self).remote_sync == old(self).remote_sync,
            final(self).version() == old(self).version(),
    {
        self.active_folder_filter = folder_id;
    }

    pub fn focused_project_id(&self) -> (r: Option<&String>)
        ensures
            opt_view(r) == self.focus_manager.focused(),
    {
        self.focus_manager.focused_project_id()
    }

    /// The visible projects in display order, as `compute_visible_projects`
    /// gives them for the current focus and folder filter.
    pub fn visible_projects(&self) -> (r: Vec<&ProjectData>)
        ensures
            ({
                let v = visible_indices(
                    self.data,
                    self.focus_manager.focused(),
                    self.focus_manager.individual(),
                    opt_string_view(self.active_folder_filter),
                );
                &&& r@.len() == v.len()
                &&& forall|i: int| 0 <= i < r@.len() ==> *r@[i] == self.data.projects@[v[i] as int]
            }),
    {
        compute_visible_projects(
            &self.data,
            self.focus_manager.focused_project_id(),
            self.focus_manager.is_focus_individual(),
            self.active_folder_filter.as_ref(),
        )
    }

    /// Adds an empty folder with id `id` and name `name` at the end of the
    /// top-level order.
    pub fn create_folder_with_id(&mut self, id: String, name: String)
        requires
            old(self).version() < u64::MAX,
        ensures
            final(self).data@ == (WorkspaceView {
                folders: old(self).data@.folders.push(
                    FolderView {
                        id: id@,
                        name: name@,
                        project_ids: seq![],
                        collapsed: false,
                        folder_color: FolderColor::Default,
                    },
                ),
                order: old(self).data@.order.push(id@),
                ..old(self).data@
            }),
            final(self).focus_manager == old(self).focus_manager,
            final(self).active_folder_filter == old(self).active_folder_filter,
            final(self).lifecycle == old(self).lifecycle,
            final(self).remote_sync == old(self).remote_sync,
            final(self).version() == old(self).version() + 1,
    {
        let f = FolderData {
            id: id.clone(),
            name,
            project_ids: Vec::new(),
            collapsed: false,
            folder_color: FolderColor::default_color(),
        };
        let ghost f_view = f@;
        self.data.folders.push(f);
        self.data.project_order.push(id);
        assert(folder_views(self.data.folders@) =~= folder_views(old(self).data.folders@).push(f_view));
        assert(f_view.project_ids =~= Seq::<Seq<char>>::empty());
        assert(ids(self.data.project_order@) =~= ids(old(self).data.project_order@).push(id@));
        self.notify_data();
    }

    /// Adds an empty folder under a fresh random id, which it returns.
    pub fn create_folder(&mut self, name: String) -> (id: String)
        requires
            old(self).version() < u64::MAX,
        ensures
            final(self).data@ == (WorkspaceView {
                folders: old(self).data@.folders.push(
                    FolderView {
                        id: id@,
                        name: name@,
                        project_ids: seq![],
                        collapsed: false,
                        folder_color: FolderColor::Default,
                    },
                ),
                order: old(self).data@.order.push(id@),
                ..old(self).data@
            }),
            final(self).focus_manager == old(self).focus_manager,
            final(self).active_folder_filter == old(self).active_folder_filter,
            final(self).lifecycle == old(self).lifecycle,
            final(self).remote_sync == old(self).remote_sync,
            final(self).version() == old(self).version() + 1,
            is_v4_uuid_text(id@),
    {
        let id = new_folder_id();
        self.create_folder_with_id(id.clone(), name);
        id
    }

    /// Deletes folder `folder_id`: its projects take its place in the
    /// top-level order, and a filter on it is cleared.
    pub fn delete_folder(&mut self, folder_id: &str)
        requires
            old(self).version() < u64::MAX,
        ensures
            final(self).data@ == (WorkspaceView {
                order: order_after_delete(
                    old(self).data@.order,
                    folder_projects(old(self).data.folders@, folder_id@),
                    folder_id@,
                ),
                folders: folders_without(old(self).data@.folders, folder_id@),
                ..old(self).data@
            }),
            final(self).active_folder_filter == (if opt_string_view(old(self).active_folder_filter) == Some(folder_id@) {
                None
            } else {
                old(self).active_folder_filter
            }),
            final(self).focus_manager == old(self).focus_manager,
            final(self).lifecycle == old(self).lifecycle,
            final(self).remote_sync == old(self).remote_sync,
            final(self).version() == old(self).version() + 1,
    {
        let fid = folder_id.to_owned();
        let clear = match &self.active_folder_filter {
            Some(f) => *f == fid,
            None => false,
        };
        if clear {
            self.active_folder_filter = None;
        }
        let pids: Vec<String> = match folder_index(&self.data.folders, &fid) {
            Some(k) => copy_strings(&self.data.folders[k].project_ids),
            None => Vec::new(),
        };
        assert(ids(pids@) =~= folder_projects(self.data.folders@, folder_id@));
        match position_of(&self.data.project_order, folder_id) {
            Some(pos) => {
                let old_order = copy_strings(&self.data.project_order);
                let mut order: Vec<String> = Vec::new();
                let mut i: usize = 0;
                while i < pos
                    invariant
                        i <= pos < old_order@.len(),
                        order@ == old_order@.take(i as int),
                    decreases pos - i,
                {
                    order.push(old_order[i].clone());
                    assert(order@ =~= old_order@.take(i + 1));
                    i += 1;
                }
                let mut j: usize = 0;
                while j < pids.len()
                    invariant
                        j <= pids@.len(),
                        pos < old_order@.len(),
                        order@ == old_order@.take(pos as int) + pids@.take(j as int),
                    decreases pids.len() - j,
                {
                    order.push(pids[j].clone());
                    assert(order@ =~= old_order@.take(pos as int) + pids@.take(j + 1));
                    j += 1;
                }
                assert(pos < old_order.len());
                let mut k: usize = pos + 1;
                while k < old_order.len()
                    invariant
                        pos + 1 <= k <= old_order@.len(),
                        order@ == old_order@.take(pos as int) + pids@ + old_order@.subrange(pos + 1, k as int),
                    decreases old_order.len() - k,
                {
                    order.push(old_order[k].clone());
                    assert(order@ =~= old_order@.take(pos as int) + pids@ + old_order@.subrange(pos + 1, k + 1));
                    k += 1;
                }
                assert(pids@.take(pids@.len() as int) =~= pids@);
                assert(old_order@.subrange(pos + 1, old_order@.len() as int) =~= old_order@.skip(pos + 1));
                assert(ids(order@) =~= ids(old_order@).take(pos as int) + ids(pids@) + ids(old_order@).skip(pos + 1));
                self.data.project_order = order;
            },
            None => {},
        }
        let kept = folders_without_id(&self.data.folders, &fid);
        self.data.folders = kept;
        self.notify_data();
    }

    /// Renames folder `folder_id`.
    pub fn rename_folder(&mut self, folder_id: &str, new_name: String)
        requires
            old(self).version() < u64::MAX,
        ensures
            final(self).data@ == (WorkspaceView {
                folders: with_folder(
                    old(self).data@.folders,
                    find_folder(old(self).data.folders@, folder_id@),
                    FolderView {
                        name: new_name@,
                        ..old(self).data.folders@[find_folder(old(self).data.folders@, folder_id@)->0]@
                    },
                ),
                ..old(self).data@
            }),
            final(self).focus_manager == old(self).focus_manager,
            final(self).active_folder_filter == old(self).active_folder_filter,
            final(self).lifecycle == old(self).lifecycle,
            final(self).remote_sync == old(self).remote_sync,
            final(self).version() == (if find_folder(old(self).data.folders@, folder_id@) is Some { old(self).version() + 1 } else { old(self).version() as int }),
    {
        let fid = folder_id.to_owned();
        match folder_index(&self.data.folders, &fid) {
            Some(k) => {
                let mut f = self.data.folders.remove(k);
                f.name = new_name;
                self.data.folders.insert(k, f);
                assert(folder_views(self.data.folders@) =~= folder_views(old(self).data.folders@).update(
                    k as int,
                    f@,
                ));
                self.notify_data();
            },
            None => {},
        }
    }

    /// Sets the color of folder `folder_id`.
    pub fn set_folder_item_color(&mut self, folder_id: &str, color: FolderColor)
        requires
            old(self).version() < u64::MAX,
        ensures
            final(self).data@ == (WorkspaceView {
                folders: with_folder(
                    old(self).data@.folders,
                    find_folder(old(self).data.folders@, folder_id@),
                    FolderView {
                        folder_color: color,
                        ..old(self).data.folders@[find_folder(old(self).data.folders@, folder_id@)->0]@
                    },
                ),
                ..old(self).data@
            }),
            final(self).focus_manager == old(self).focus_manager,
            final(self).active_folder_filter == old(self).active_folder_filter,
            final(self).lifecycle == old(self).lifecycle,
            final(self).remote_sync == old(self).remote_sync,
            final(self).version() == (if find_folder(old(self).data.folders@, folder_id@) is Some { old(self).version() + 1 } else { old(self).version() as int }),
    {
        let fid = folder_id.to_owned();
        match folder_index(&self.data.folders, &fid) {
            Some(k) => {
                let mut f = self.data.folders.remove(k);
                f.folder_color = color;
                self.data.folders.insert(k, f);
                assert(folder_views(self.data.folders@) =~= folder_views(old(self).data.folders@).update(
                    k as int,
                    f@,
                ));
                self.notify_data();
            },
            None => {},
        }
    }

    /// Collapses an expanded folder or expands a collapsed one.
    pub fn toggle_folder_collapsed(&mut self, folder_id: &str)
        requires
            old(self).version() < u64::MAX,
        ensures
            final(self).data@ == (WorkspaceView {
                folders: with_folder(
                    old(self).data@.folders,
                    find_folder(old(self).data.folders@, folder_id@),
                    FolderView {
                        collapsed: !old(self).data.folders@[find_folder(old(self).data.folders@, folder_id@)->0]@.collapsed,
                        ..old(self).data.folders@[find_folder(old(self).data.folders@, folder_id@)->0]@
                    },
                ),
                ..old(self).data@
            }),
            final(self).focus_manager == old(self).focus_manager,
            final(self).active_folder_filter == old(self).active_folder_filter,
            final(self).lifecycle == old(self).lifecycle,
            final(self).remote_sync == old(self).remote_sync,
            final(self).version() == (if find_folder(old(self).data.folders@, folder_id@) is Some { old(self).version() + 1 } else { old(self).version() as int }),
    {
        let fid = folder_id.to_owned();
        match folder_index(&self.data.folders, &fid) {
            Some(k) => {
                let mut f = self.data.folders.remove(k);
                f.collapsed = !f.collapsed;
                self.data.folders.insert(k, f);
                assert(folder_views(self.data.folders@) =~= folder_views(old(self).data.folders@).update(
                    k as int,
                    f@,
                ));
                self.notify_data();
            },
            None => {},
        }
    }
    /// Moves project `project_id` into folder `folder_id` at `position`
    /// (the end when absent or past it), taking it out of every folder and
    /// of the top-level order first. With no such folder the project is only
    /// taken out.
    pub fn move_project_to_folder(&mut self, project_id: &str, folder_id: &str, position: Option<usize>)
        requires
            old(self).version() < u64::MAX,
        ensures
            ({
                let stripped = strip_project(old(self).data@.folders, project_id@);
                let k = find_folder(old(self).data.folders@, folder_id@);
                let f = stripped[k->0];
                let len = f.project_ids.len() as int;
                let pos = min_index(
                    match position {
                        Some(p) => p as int,
                        None => len,
                    },
                    len,
                );
                final(self).data@ == (WorkspaceView {
                    order: drop_all(old(self).data@.order, project_id@),
                    folders: with_folder(
                        stripped,
                        k,
                        FolderView { project_ids: f.project_ids.insert(pos, project_id@), ..f },
                    ),
                    ..old(self).data@
                })
            }),
            final(self).focus_manager == old(self).focus_manager,
            final(self).active_folder_filter == old(self).active_folder_filter,
            !final(self).data@.order.contains(project_id@),
            forall|i: int|
                0 <= i < final(self).data@.folders.len() && find_folder(old(self).data.folders@, folder_id@) != Some(i)
                    ==> !(#[trigger] final(self).data@.folders[i]).project_ids.contains(project_id@),
            find_folder(old(self).data.folders@, folder_id@) matches Some(k) ==> final(self).data@.folders[k].project_ids.to_multiset().count(project_id@) == 1,
            final(self).lifecycle == old(self).lifecycle,
            final(self).remote_sync == old(self).remote_sync,
            final(self).version() == (if find_folder(old(self).data.folders@, folder_id@) is Some { old(self).version() + 1 } else { old(self).version() as int }),
    {
        let fid = folder_id.to_owned();
        let target = folder_index(&self.data.folders, &fid);
        let stripped = folders_stripped(&self.data.folders, project_id);
        self.data.folders = stripped;
        self.data.project_order = remove_all_ids(&self.data.project_order, project_id);
        proof {
            lemma_drop_all(ids(old(self).data.project_order@), project_id@);
            assert forall|i: int| 0 <= i < folder_views(self.data.folders@).len() implies !(#[trigger] folder_views(self.data.folders@)[i]).project_ids.contains(project_id@) by {
                lemma_drop_all(folder_views(old(self).data.folders@)[i].project_ids, project_id@);
            }
        }
        match target {
            Some(k) => {
                let ghost before = folder_views(self.data.folders@);
                let mut f = self.data.folders.remove(k);
                let len = f.project_ids.len();
                let pos = match position {
                    Some(p) => if p < len {
                        p
                    } else {
                        len
                    },
                    None => len,
                };
                f.project_ids.insert(pos, project_id.to_owned());
                assert(ids(f.project_ids@) =~= before[k as int].project_ids.insert(pos as int, project_id@));
                proof {
                    lemma_insert_once(before[k as int].project_ids, pos as int, project_id@);
                }
                self.data.folders.insert(k, f);
                assert(folder_views(self.data.folders@) =~= before.update(k as int, f@));
                self.notify_data();
            },
            None => {},
        }
    }

    /// Moves project `project_id` out of every folder into the top-level
    /// order at `top_level_index` (at most the end).
    pub fn move_project_out_of_folder(&mut self, project_id: &str, top_level_index: usize)
        requires
            old(self).version() < u64::MAX,
        ensures
            ({
                let order = drop_all(old(self).data@.order, project_id@);
                final(self).data@ == (WorkspaceView {
                    order: order.insert(min_index(top_level_index as int, order.len() as int), project_id@),
                    folders: strip_project(old(self).data@.folders, project_id@),
                    ..old(self).data@
                })
            }),
            final(self).focus_manager == old(self).focus_manager,
            final(self).active_folder_filter == old(self).active_folder_filter,
            final(self).lifecycle == old(self).lifecycle,
            final(self).remote_sync == old(self).remote_sync,
            final(self).version() == old(self).version() + 1,
    {
        let stripped = folders_stripped(&self.data.folders, project_id);
        self.data.folders = stripped;
        let mut order = remove_all_ids(&self.data.project_order, project_id);
        let target = if top_level_index < order.len() {
            top_level_index
        } else {
            order.len()
        };
        let ghost before = ids(order@);
        order.insert(target, project_id.to_owned());
        assert(ids(order@) =~= before.insert(target as int, project_id@));
        self.data.project_order = order;
        self.notify_data();
    }

    /// Moves project `project_id` within folder `folder_id` to `new_index`
    /// (see `moved`); nothing changes when either is missing.
    pub fn reorder_project_in_folder(&mut self, folder_id: &str, project_id: &str, new_index: usize)
        requires
            old(self).version() < u64::MAX,
        ensures
            ({
                let k = find_folder(old(self).data.folders@, folder_id@);
                let f = old(self).data@.folders[k->0];
                let c = first_index(f.project_ids, project_id@, 0);
                final(self).data@ == (if k is Some && c is Some {
                    WorkspaceView {
                        folders: old(self).data@.folders.update(
                            k->0,
                            FolderView { project_ids: moved(f.project_ids, c->0, new_index as int), ..f },
                        ),
                        ..old(self).data@
                    }
                } else {
                    old(self).data@
                })
            }),
            final(self).focus_manager == old(self).focus_manager,
            final(self).active_folder_filter == old(self).active_folder_filter,
            final(self).lifecycle == old(self).lifecycle,
            final(self).remote_sync == old(self).remote_sync,
            final(self).version() == (if find_folder(old(self).data.folders@, folder_id@) is Some && first_index(old(self).data@.folders[find_folder(old(self).data.folders@, folder_id@)->0].project_ids, project_id@, 0) is Some { old(self).version() + 1 } else { old(self).version() as int }),
    {
        let fid = folder_id.to_owned();
        match folder_index(&self.data.folders, &fid) {
            Some(k) => {
                match position_of(&self.data.folders[k].project_ids, project_id) {
                    Some(current) => {
                        let ghost before = folder_views(self.data.folders@);
                        let mut f = self.data.folders.remove(k);
                        f.project_ids = moved_ids(&f.project_ids, current, new_index);
                        self.data.folders.insert(k, f);
                        assert(folder_views(self.data.folders@) =~= before.update(k as int, f@));
                        self.notify_data();
                    },
                    None => {},
                }
            },
            None => {},
        }
    }

    /// Moves top-level item `item_id` (a project or folder) to `new_index`
    /// (see `moved`); nothing changes when it is not in the order.
    pub fn move_item_in_order(&mut self, item_id: &str, new_index: usize)
        requires
            old(self).version() < u64::MAX,
        ensures
            ({
                let c = first_index(old(self).data@.order, item_id@, 0);
                final(self).data@ == (if c is Some {
                    WorkspaceView { order: moved(old(self).data@.order, c->0, new_index as int), ..old(self).data@ }
                } else {
                    old(self).data@
                })
            }),
            final(self).focus_manager == old(self).focus_manager,
            final(self).active_folder_filter == old(self).active_folder_filter,
            final(self).lifecycle == old(self).lifecycle,
            final(self).remote_sync == old(self).remote_sync,
            final(self).version() == (if first_index(old(self).data@.order, item_id@, 0) is Some { old(self).version() + 1 } else { old(self).version() as int }),
    {
        match position_of(&self.data.project_order, item_id) {
            Some(current) => {
                let order = moved_ids(&self.data.project_order, current, new_index);
                self.data.project_order = order;
                self.notify_data();
            },
            None => {},
        }
    }
}

/// Index of the first folder from `i` on whose projects include `pid`.
pub open spec fn folder_holding_from(folders: Seq<FolderData>, pid: Seq<char>, i: int) -> Option<int>
    decreases folders.len() - i,
{
    if i < 0 || i >= folders.len() {
        None
    } else if has_id(folders[i].project_ids@, pid) {
        Some(i)
    } else {
        folder_holding_from(folders, pid, i + 1)
    }
}

/// The first folder that holds project `pid`.
pub open spec fn folder_holding(folders: Seq<FolderData>, pid: Seq<char>) -> Option<int> {
    folder_holding_from(folders, pid, 0)
}

/// The parent project id of project `pid`, when it is a worktree.
pub open spec fn parent_of(projects: Seq<ProjectData>, pid: Seq<char>) -> Option<Seq<char>> {
    match find_project(projects, pid) {
        Some(k) => match projects[k].worktree_info {
            Some(w) => Some(w.parent_project_id@),
            None => None,
        },
        None => None,
    }
}

/// The folder of project `pid`, or else that of its worktree parent.
pub open spec fn folder_or_parent_folder(data: WorkspaceData, pid: Seq<char>) -> Option<int> {
    match folder_holding(data.folders@, pid) {
        Some(k) => Some(k),
        None => match parent_of(data.projects@, pid) {
            Some(parent) => folder_holding(data.folders@, parent),
            None => None,
        },
    }
}

/// Ids of the projects of `s` that are worktrees of `parent`, in order.
pub open spec fn child_ids(s: Seq<ProjectData>, parent: Seq<char>) -> Seq<Seq<char>>
    decreases s.len(),
{
    if s.len() == 0 {
        seq![]
    } else {
        let r = child_ids(s.drop_last(), parent);
        match s.last().worktree_info {
            Some(w) => if w.parent_project_id@ == parent {
                r.push(s.last().id@)
            } else {
                r
            },
            None => r,
        }
    }
}

/// The color shown for project `p`: a worktree's own override, else its
/// parent's color (its own when the parent is missing); a plain project's
/// own color.
pub open spec fn spec_effective_color(projects: Seq<ProjectData>, p: ProjectData) -> FolderColor {
    match p.worktree_info {
        Some(w) => match w.color_override {
            Some(c) => c,
            None => match find_project(projects, w.parent_project_id@) {
                Some(k) => projects[k].folder_color,
                None => p.folder_color,
            },
        },
        None => p.folder_color,
    }
}

/// The projects of `s` whose id does not start with `prefix`, in order.
pub open spec fn keep_projects(s: Seq<ProjectData>, prefix: Seq<char>) -> Seq<ProjectData>
    decreases s.len(),
{
    if s.len() == 0 {
        s
    } else {
        let r = keep_projects(s.drop_last(), prefix);
        if is_prefix(prefix, s.last().id@) {
            r
        } else {
            r.push(s.last())
        }
    }
}

/// The folders of `s` whose id does not start with `prefix`, in order.
pub open spec fn keep_folders(s: Seq<FolderView>, prefix: Seq<char>) -> Seq<FolderView>
    decreases s.len(),
{
    if s.len() == 0 {
        s
    } else {
        let r = keep_folders(s.drop_last(), prefix);
        if is_prefix(prefix, s.last().id) {
            r
        } else {
            r.push(s.last())
        }
    }
}

/// The ids of `s` that do not start with `prefix`, in order.
pub open spec fn keep_ids(s: Seq<Seq<char>>, prefix: Seq<char>) -> Seq<Seq<char>>
    decreases s.len(),
{
    if s.len() == 0 {
        s
    } else {
        let r = keep_ids(s.drop_last(), prefix);
        if is_prefix(prefix, s.last()) {
            r
        } else {
            r.push(s.last())
        }
    }
}

/// The id prefix of everything synced from remote connection `cid`.
pub open spec fn remote_prefix_of(cid: Seq<char>) -> Seq<char> {
    "remote:"@ + cid + ":"@
}

fn starts_with(s: &String, prefix: &Vec<char>) -> (r: bool)
    ensures
        r == is_prefix(prefix@, s@),
{
    vec_starts_with(&chars_of(s.as_str()), prefix)
}

/// Takes out of `v` the projects whose id starts with `prefix`.
fn retain_projects(v: &mut Vec<ProjectData>, prefix: &Vec<char>)
    ensures
        final(v)@ == keep_projects(old(v)@, prefix@),
{
    let ghost o = v@;
    let n = v.len();
    let mut i: usize = 0;
    let mut k: usize = 0;
    while k < n
        invariant
            n == o.len(),
            k <= o.len(),
            v@ == keep_projects(o.take(k as int), prefix@) + o.skip(k as int),
            i == keep_projects(o.take(k as int), prefix@).len(),
        decreases o.len() - k,
    {
        assert(o.take(k + 1).drop_last() =~= o.take(k as int));
        assert(v@.len() == i + (o.len() - k));
        assert(v@[i as int] == o[k as int]);
        if starts_with(&v[i].id, prefix) {
            v.remove(i);
            assert(v@ =~= keep_projects(o.take(k + 1), prefix@) + o.skip(k + 1));
        } else {
            assert(v@ =~= keep_projects(o.take(k + 1), prefix@) + o.skip(k + 1));
            assert(i < v.len());
            i += 1;
        }
        k += 1;
    }
    assert(o.take(o.len() as int) =~= o);
    assert(v@ =~= keep_projects(o, prefix@));
}

/// Takes out of `v` the folders whose id starts with `prefix`.
fn retain_folders(v: &mut Vec<FolderData>, prefix: &Vec<char>)
    ensures
        folder_views(final(v)@) == keep_folders(folder_views(old(v)@), prefix@),
{
    let ghost o = v@;
    let ghost ov = folder_views(o);
    let n = v.len();
    let mut i: usize = 0;
    let mut k: usize = 0;
    while k < n
        invariant
            n == o.len(),
            k <= o.len(),
            ov == folder_views(o),
            folder_views(v@) == keep_folders(ov.take(k as int), prefix@) + ov.skip(k as int),
            i == keep_folders(ov.take(k as int), prefix@).len(),
        decreases o.len() - k,
    {
        assert(ov.take(k + 1).drop_last() =~= ov.take(k as int));
        assert(folder_views(v@).len() == v@.len());
        assert(v@.len() == i + (o.len() - k));
        assert(folder_views(v@)[i as int] == ov[k as int]);
        let ghost before = v@;
        if starts_with(&v[i].id, prefix) {
            v.remove(i);
            assert(folder_views(v@) =~= folder_views(before).remove(i as int));
            assert(folder_views(v@) =~= keep_folders(ov.take(k + 1), prefix@) + ov.skip(k + 1));
        } else {
            assert(folder_views(v@) =~= keep_folders(ov.take(k + 1), prefix@) + ov.skip(k + 1));
            assert(i < v.len());
            i += 1;
        }
        k += 1;
    }
    assert(ov.take(ov.len() as int) =~= ov);
    assert(folder_views(v@) =~= keep_folders(ov, prefix@));
}

/// Takes out of `v` the ids that start with `prefix`.
fn retain_ids(v: &mut Vec<String>, prefix: &Vec<char>)
    ensures
        ids(final(v)@) == keep_ids(ids(old(v)@), prefix@),
{
    let ghost o = v@;
    let ghost ov = ids(o);
    let n = v.len();
    let mut i: usize = 0;
    let mut k: usize = 0;
    while k < n
        invariant
            n == o.len(),
            k <= o.len(),
            ov == ids(o),
            ids(v@) == keep_ids(ov.take(k as int), prefix@) + ov.skip(k as int),
            i == keep_ids(ov.take(k as int), prefix@).len(),
        decreases o.len() - k,
    {
        assert(ov.take(k + 1).drop_last() =~= ov.take(k as int));
        assert(ids(v@).len() == v@.len());
        assert(v@.len() == i + (o.len() - k));
        assert(ids(v@)[i as int] == ov[k as int]);
        let ghost before = v@;
        if starts_with(&v[i], prefix) {
            v.remove(i);
            assert(ids(v@) =~= ids(before).remove(i as int));
            assert(ids(v@) =~= keep_ids(ov.take(k + 1), prefix@) + ov.skip(k + 1));
        } else {
            assert(ids(v@) =~= keep_ids(ov.take(k + 1), prefix@) + ov.skip(k + 1));
            assert(i < v.len());
            i += 1;
        }
        k += 1;
    }
    assert(ov.take(ov.len() as int) =~= ov);
    assert(ids(v@) =~= keep_ids(ov, prefix@));
}

impl Workspace {
    /// The first project with id `id`.
    pub fn project(&self, id: &str) -> (r: Option<&ProjectData>)
        ensures
            match find_project(self.data.projects@, id@) {
                Some(k) => r == Some(&self.data.projects@[k]),
                None => r is None,
            },
    {
        let key = id.to_owned();
        match project_index(&self.data.projects, &key) {
            Some(k) => Some(&self.data.projects[k]),
            None => None,
        }
    }

    /// The first folder with id `id`.
    pub fn folder(&self, id: &str) -> (r: Option<&FolderData>)
        ensures
            match find_folder(self.data.folders@, id@) {
                Some(k) => r == Some(&self.data.folders@[k]),
                None => r is None,
            },
    {
        let key = id.to_owned();
        match folder_index(&self.data.folders, &key) {
            Some(k) => Some(&self.data.folders[k]),
            None => None,
        }
    }

    /// Whether `id` names a folder.
    pub fn is_folder(&self, id: &str) -> (r: bool)
        ensures
            r == find_folder(self.data.folders@, id@) is Some,
    {
        let key = id.to_owned();
        folder_index(&self.data.folders, &key).is_some()
    }

    fn folder_holding_index(&self, project_id: &String) -> (r: Option<usize>)
        ensures
            r matches Some(k) ==> k < self.data.folders@.len() && folder_holding(self.data.folders@, project_id@)
                == Some(k as int),
            r is None ==> folder_holding(self.data.folders@, project_id@) is None,
    {
        let mut i: usize = 0;
        while i < self.data.folders.len()
            invariant
                i <= self.data.folders@.len(),
                folder_holding(self.data.folders@, project_id@) == folder_holding_from(
                    self.data.folders@,
                    project_id@,
                    i as int,
                ),
            decreases self.data.folders.len() - i,
        {
            if contains_id(&self.data.folders[i].project_ids, project_id) {
                return Some(i);
            }
            i += 1;
        }
        None
    }

    /// The first folder that holds project `project_id`.
    pub fn folder_for_project(&self, project_id: &str) -> (r: Option<&FolderData>)
        ensures
            match folder_holding(self.data.folders@, project_id@) {
                Some(k) => r == Some(&self.data.folders@[k]),
                None => r is None,
            },
    {
        let key = project_id.to_owned();
        match self.folder_holding_index(&key) {
            Some(k) => Some(&self.data.folders[k]),
            None => None,
        }
    }

    /// The folder of project `project_id`, or else that of its worktree parent.
    pub fn folder_for_project_or_parent(&self, project_id: &str) -> (r: Option<&FolderData>)
        ensures
            match folder_or_parent_folder(self.data, project_id@) {
                Some(k) => r == Some(&self.data.folders@[k]),
                None => r is None,
            },
    {
        match self.folder_for_project(project_id) {
            Some(f) => Some(f),
            None => match self.project(project_id) {
                Some(p) => match &p.worktree_info {
                    Some(w) => self.folder_for_project(w.parent_project_id.as_str()),
                    None => None,
                },
                None => None,
            },
        }
    }

    /// Ids of the worktree projects whose parent is `parent_id`, in order.
    pub fn worktree_child_ids(&self, parent_id: &str) -> (r: Vec<String>)
        ensures
            ids(r@) == child_ids(self.data.projects@, parent_id@),
    {
        let key = parent_id.to_owned();
        let mut r: Vec<String> = Vec::new();
        let mut i: usize = 0;
        while i < self.data.projects.len()
            invariant
                i <= self.data.projects@.len(),
                key@ == parent_id@,
                ids(r@) == child_ids(self.data.projects@.take(i as int), parent_id@),
            decreases self.data.projects.len() - i,
        {
            let p = &self.data.projects[i];
            assert(self.data.projects@.take(i + 1).drop_last() =~= self.data.projects@.take(i as int));
            let ghost before = r@;
            match &p.worktree_info {
                Some(w) => if w.parent_project_id == key {
                    r.push(p.id.clone());
                    assert(ids(r@) =~= ids(before).push(p.id@));
                },
                None => {},
            }
            i += 1;
        }
        assert(self.data.projects@.take(self.data.projects@.len() as int) =~= self.data.projects@);
        r
    }

    /// The path of the parent project of worktree project `project_id`.
    pub fn worktree_parent_path(&self, project_id: &str) -> (r: Option<String>)
        ensures
            match parent_of(self.data.projects@, project_id@) {
                Some(parent) => match find_project(self.data.projects@, parent) {
                    Some(k) => r == Some(self.data.projects@[k].path),
                    None => r is None,
                },
                None => r is None,
            },
    {
        match self.project(project_id) {
            Some(p) => match &p.worktree_info {
                Some(w) => match self.project(w.parent_project_id.as_str()) {
                    Some(parent) => Some(parent.path.clone()),
                    None => None,
                },
                None => None,
            },
            None => None,
        }
    }

    /// The color shown for `project` (see `spec_effective_color`).
    pub fn effective_folder_color(&self, project: &ProjectData) -> (c: FolderColor)
        ensures
            c == spec_effective_color(self.data.projects@, *project),
    {
        match &project.worktree_info {
            Some(w) => match w.color_override {
                Some(c) => c,
                None => match self.project(w.parent_project_id.as_str()) {
                    Some(p) => p.folder_color,
                    None => project.folder_color,
                },
            },
            None => project.folder_color,
        }
    }

    /// Whether some project with id `id` is remote.
    pub fn is_remote_project(&self, id: &str) -> (r: bool)
        ensures
            r == exists|k: int|
                0 <= k < self.data.projects@.len() && (#[trigger] self.data.projects@[k]).id@ == id@
                    && self.data.projects@[k].is_remote,
    {
        let key = id.to_owned();
        let mut i: usize = 0;
        while i < self.data.projects.len()
            invariant
                i <= self.data.projects@.len(),
                key@ == id@,
                forall|k: int|
                    0 <= k < i ==> !((#[trigger] self.data.projects@[k]).id@ == id@
                        && self.data.projects@[k].is_remote),
            decreases self.data.projects.len() - i,
        {
            if self.data.projects[i].id == key && self.data.projects[i].is_remote {
                return true;
            }
            i += 1;
        }
        false
    }

    /// Removes every project, folder and order entry synced from remote
    /// connection `connection_id` (ids starting `remote:<id>:`), and the
    /// focus on one of them.
    pub fn remove_remote_projects(&mut self, connection_id: &str)
        ensures
            ({
                let prefix = remote_prefix_of(connection_id@);
                &&& final(self).data@ == (WorkspaceView {
                    projects: keep_projects(old(self).data@.projects, prefix),
                    order: keep_ids(old(self).data@.order, prefix),
                    folders: keep_folders(old(self).data@.folders, prefix),
                    ..old(self).data@
                })
                &&& final(self).focus_manager.focused() == (match old(self).focus_manager.focused() {
                    Some(f) => if is_prefix(prefix, f) {
                        None
                    } else {
                        Some(f)
                    },
                    None => None,
                })
                &&& final(self).active_folder_filter == old(self).active_folder_filter
            }),
            final(self).lifecycle == old(self).lifecycle,
            final(self).remote_sync == old(self).remote_sync,
            final(self).version() == old(self).version(),
    {
        let mut prefix = "remote:".to_owned();
        push_str(&mut prefix, connection_id);
        push_str(&mut prefix, ":");
        let pv = chars_of(prefix.as_str());
        retain_projects(&mut self.data.projects, &pv);
        retain_folders(&mut self.data.folders, &pv);
        retain_ids(&mut self.data.project_order, &pv);
        let clear = match self.focus_manager.focused_project_id() {
            Some(f) => starts_with(f, &pv),
            None => false,
        };
        if clear {
            self.focus_manager.set_focused_project_id(None);
        }
    }

    /// Selects folder `folder_id` as the filter (clearing the project focus),
    /// or deselects it when it already is the filter.
    pub fn toggle_folder_focus(&mut self, folder_id: &str)
        ensures
            opt_string_view(old(self).active_folder_filter) != Some(folder_id@) ==> {
                &&& opt_string_view(final(self).active_folder_filter) == Some(folder_id@)
                &&& final(self).focus_manager.focused() is None
            },
            opt_string_view(old(self).active_folder_filter) == Some(folder_id@) ==> {
                &&& final(self).active_folder_filter is None
                &&& final(self).focus_manager == old(self).focus_manager
            },
            final(self).data == old(self).data,
            final(self).lifecycle == old(self).lifecycle,
            final(self).remote_sync == old(self).remote_sync,
            final(self).version() == old(self).version(),
    {
        let fid = folder_id.to_owned();
        let selected = match &self.active_folder_filter {
            Some(f) => *f == fid,
            None => false,
        };
        if !selected {
            self.active_folder_filter = Some(fid);
            self.focus_manager.set_focused_project_id(None);
        } else {
            self.active_folder_filter = None;
        }
    }
}

/// `after` is `before` with at most its lifecycle state changed.
pub open spec fn only_lifecycle_changed(before: Workspace, after: Workspace) -> bool {
    &&& after.data == before.data
    &&& after.focus_manager == before.focus_manager
    &&& after.active_folder_filter == before.active_folder_filter
    &&& after.remote_sync == before.remote_sync
    &&& after.version() == before.version()
}

/// `after` is `before` with at most its remote-sync state changed.
pub open spec fn only_remote_sync_changed(before: Workspace, after: Workspace) -> bool {
    &&& after.data == before.data
    &&& after.focus_manager == before.focus_manager
    &&& after.active_folder_filter == before.active_folder_filter
    &&& after.lifecycle == before.lifecycle
    &&& after.version() == before.version()
}

impl Workspace {
    /// All projects, in stored order.
    pub fn projects(&self) -> (r: &Vec<ProjectData>)
        ensures
            r@ == self.data.projects@,
    {
        &self.data.projects
    }

    pub fn is_creating_project(&self, project_id: &str) -> (r: bool)
        ensures
            r == self.lifecycle.creating_set().contains(project_id@),
    {
        self.lifecycle.is_creating(project_id)
    }

    pub fn mark_creating_project(&mut self, project_id: &str)
        ensures
            final(self).lifecycle.creating_set() == old(self).lifecycle.creating_set().insert(project_id@),
            final(self).lifecycle.closing_set() == old(self).lifecycle.closing_set(),
            final(self).lifecycle.removing_set() == old(self).lifecycle.removing_set(),
            final(self).lifecycle.pending() == old(self).lifecycle.pending(),
            only_lifecycle_changed(*old(self), *final(self)),
    {
        self.lifecycle.mark_creating(project_id);
    }

    pub fn finish_creating_project(&mut self, project_id: &str)
        ensures
            final(self).lifecycle.creating_set() == old(self).lifecycle.creating_set().remove(project_id@),
            final(self).lifecycle.closing_set() == old(self).lifecycle.closing_set(),
            final(self).lifecycle.removing_set() == old(self).lifecycle.removing_set(),
            final(self).lifecycle.pending() == old(self).lifecycle.pending(),
            only_lifecycle_changed(*old(self), *final(self)),
    {
        self.lifecycle.finish_creating(project_id);
    }

    pub fn mark_worktree_removing(&mut self, path: &str)
        ensures
            final(self).lifecycle.removing_set() == old(self).lifecycle.removing_set().insert(path@),
            final(self).lifecycle.creating_set() == old(self).lifecycle.creating_set(),
            final(self).lifecycle.closing_set() == old(self).lifecycle.closing_set(),
            final(self).lifecycle.pending() == old(self).lifecycle.pending(),
            only_lifecycle_changed(*old(self), *final(self)),
    {
        self.lifecycle.mark_worktree_removing(path);
    }

    pub fn finish_worktree_removing(&mut self, path: &str)
        ensures
            final(self).lifecycle.removing_set() == old(self).lifecycle.removing_set().remove(path@),
            final(self).lifecycle.creating_set() == old(self).lifecycle.creating_set(),
            final(self).lifecycle.closing_set() == old(self).lifecycle.closing_set(),
            final(self).lifecycle.pending() == old(self).lifecycle.pending(),
            only_lifecycle_changed(*old(self), *final(self)),
    {
        self.lifecycle.finish_worktree_removing(path);
    }

    pub fn finish_closing_project(&mut self, project_id: &str)
        ensures
            final(self).lifecycle.closing_set() == old(self).lifecycle.closing_set().remove(project_id@),
            final(self).lifecycle.creating_set() == old(self).lifecycle.creating_set(),
            final(self).lifecycle.removing_set() == old(self).lifecycle.removing_set(),
            final(self).lifecycle.pending() == old(self).lifecycle.pending(),
            only_lifecycle_changed(*old(self), *final(self)),
    {
        self.lifecycle.finish_closing(project_id);
    }

    /// Whether a project is being closed (a hook runs or its removal is in progress).
    pub fn is_project_closing(&self, project_id: &str) -> (r: bool)
        ensures
            r == self.lifecycle.closing_set().contains(project_id@),
    {
        self.lifecycle.is_closing(project_id)
    }

    /// Registers a worktree close to run when its hook terminal exits; the
    /// project counts as closing from now on.
    pub fn register_pending_worktree_close(&mut self, pending: PendingWorktreeClose)
        ensures
            final(self).lifecycle.pending() == old(self).lifecycle.pending().insert(pending.hook_terminal_id@, pending),
            final(self).lifecycle.closing_set() == old(self).lifecycle.closing_set().insert(pending.project_id@),
            final(self).lifecycle.creating_set() == old(self).lifecycle.creating_set(),
            final(self).lifecycle.removing_set() == old(self).lifecycle.removing_set(),
            only_lifecycle_changed(*old(self), *final(self)),
    {
        self.lifecycle.register_pending_close(pending);
    }

    /// Takes the worktree close waiting on terminal `terminal_id`, if any.
    pub fn take_pending_worktree_close(&mut self, terminal_id: &str) -> (r: Option<PendingWorktreeClose>)
        ensures
            old(self).lifecycle.pending().contains_key(terminal_id@) ==> r == Some(old(self).lifecycle.pending()[terminal_id@]),
            !old(self).lifecycle.pending().contains_key(terminal_id@) ==> r is None,
            final(self).lifecycle.pending() == old(self).lifecycle.pending().remove(terminal_id@),
            final(self).lifecycle.closing_set() == old(self).lifecycle.closing_set(),
            final(self).lifecycle.creating_set() == old(self).lifecycle.creating_set(),
            final(self).lifecycle.removing_set() == old(self).lifecycle.removing_set(),
            only_lifecycle_changed(*old(self), *final(self)),
    {
        self.lifecycle.take_pending_close(terminal_id)
    }

    /// Drops the worktree close waiting on terminal `terminal_id`; its
    /// project no longer counts as closing.
    pub fn cancel_pending_worktree_close(&mut self, terminal_id: &str)
        ensures
            final(self).lifecycle.pending() == old(self).lifecycle.pending().remove(terminal_id@),
            old(self).lifecycle.pending().contains_key(terminal_id@) ==> final(self).lifecycle.closing_set()
                == old(self).lifecycle.closing_set().remove(old(self).lifecycle.pending()[terminal_id@].project_id@),
            !old(self).lifecycle.pending().contains_key(terminal_id@) ==> final(self).lifecycle.closing_set()
                == old(self).lifecycle.closing_set(),
            final(self).lifecycle.creating_set() == old(self).lifecycle.creating_set(),
            final(self).lifecycle.removing_set() == old(self).lifecycle.removing_set(),
            only_lifecycle_changed(*old(self), *final(self)),
    {
        self.lifecycle.cancel_pending_close(terminal_id);
    }

    /// Records that remote project `project_id` should get focus after the
    /// next sync.
    pub fn queue_pending_remote_focus(&mut self, project_id: &str)
        ensures
            final(self).remote_sync.pending() == old(self).remote_sync.pending().insert(project_id@),
            only_remote_sync_changed(*old(self), *final(self)),
    {
        self.remote_sync.queue_focus(project_id);
    }

    /// Hands out and forgets the remote projects waiting for focus.
    pub fn drain_pending_remote_focus(&mut self) -> (r: Vec<String>)
        ensures
            crate::lifecycle::id_set(r@) == old(self).remote_sync.pending(),
            final(self).remote_sync.pending() == Set::<Seq<char>>::empty(),
            only_remote_sync_changed(*old(self), *final(self)),
    {
        self.remote_sync.drain_pending_focus()
    }
}

impl Workspace {
    /// Shows project `project_id` in the overview when it was hidden there,
    /// hides it otherwise; nothing changes when there is no such project.
    pub fn toggle_project_overview_visibility(&mut self, project_id: &str)
        requires
            old(self).version() < u64::MAX,
        ensures
            ({
                let k = find_project(old(self).data.projects@, project_id@);
                final(self).data@ == (match k {
                    Some(i) => WorkspaceView {
                        projects: old(self).data@.projects.update(
                            i,
                            ProjectData {
                                show_in_overview: !old(self).data@.projects[i].show_in_overview,
                                ..old(self).data@.projects[i]
                            },
                        ),
                        ..old(self).data@
                    },
                    None => old(self).data@,
                })
                && final(self).version() == (if k is Some {
                    old(self).version() + 1
                } else {
                    old(self).version() as int
                })
            }),
            final(self).focus_manager == old(self).focus_manager,
            final(self).active_folder_filter == old(self).active_folder_filter,
            final(self).lifecycle == old(self).lifecycle,
            final(self).remote_sync == old(self).remote_sync,
    {
        let key = project_id.to_owned();
        match project_index(&self.data.projects, &key) {
            Some(k) => {
                let mut p = self.data.projects.remove(k);
                p.show_in_overview = !p.show_in_overview;
                self.data.projects.insert(k, p);
                assert(self.data.projects@ =~= old(self).data.projects@.update(k as int, p));
                self.notify_data();
            },
            None => {},
        }
    }
}

/// Whether `c` is a lowercase hexadecimal digit.
pub open spec fn is_lower_hex(c: char) -> bool {
    ('0' <= c <= '9') || ('a' <= c <= 'f')
}

/// Whether `s` is a version-4 UUID in its lowercase hyphenated form:
/// 36 characters, hyphens at 8, 13, 18 and 23, hex digits elsewhere, the
/// version digit `4` at 14.
pub open spec fn is_v4_uuid_text(s: Seq<char>) -> bool {
    &&& s.len() == 36
    &&& forall|i: int| 0 <= i < 36 ==> if i == 8 || i == 13 || i == 18 || i == 23 {
        s[i] == '-'
    } else {
        is_lower_hex(#[trigger] s[i])
    }
    &&& s[14] == '4'
}

/// A fresh random folder id.
///
/// Wraps `uuid::Uuid::new_v4` and its `Display` (lowercase hex in the
/// hyphenated form, version digit 4). The value is random: only its form
/// is said.
#[verifier::external_body]
fn new_folder_id() -> (r: String)
    ensures
        r@.len() == 36,
        is_v4_uuid_text(r@),
{
    uuid::Uuid::new_v4().to_string()
}

/// `v` with the entry at `current` moved to `new_index` (see `moved`).
fn moved_ids(v: &Vec<String>, current: usize, new_index: usize) -> (r: Vec<String>)
    requires
        current < v@.len(),
    ensures
        ids(r@) == moved(ids(v@), current as int, new_index as int),
{
    let mut r = copy_strings(v);
    let id = r.remove(current);
    let target = if new_index > current {
        new_index - 1
    } else {
        new_index
    };
    let target = if target < r.len() {
        target
    } else {
        r.len()
    };
    let ghost before = r@;
    r.insert(target, id);
    assert(ids(v@).remove(current as int) =~= ids(before));
    assert(ids(r@) =~= ids(before).insert(target as int, v@[current as int]@));
    r
}

/// The folders with `project_id` taken out of their project lists.
fn folders_stripped(folders: &Vec<FolderData>, project_id: &str) -> (r: Vec<FolderData>)
    ensures
        folder_views(r@) == strip_project(folder_views(folders@), project_id@),
        r@.len() == folders@.len(),
        forall|i: int| 0 <= i < r@.len() ==> (#[trigger] r@[i]).id@ == folders@[i].id@,
{
    let mut r: Vec<FolderData> = Vec::new();
    let mut i: usize = 0;
    while i < folders.len()
        invariant
            i <= folders@.len(),
            r@.len() == i,
            folder_views(r@) == strip_project(folder_views(folders@.take(i as int)), project_id@),
            forall|j: int| 0 <= j < i ==> (#[trigger] r@[j]).id@ == folders@[j].id@,
        decreases folders.len() - i,
    {
        let f = &folders[i];
        let nf = FolderData {
            id: f.id.clone(),
            name: f.name.clone(),
            project_ids: remove_all_ids(&f.project_ids, project_id),
            collapsed: f.collapsed,
            folder_color: f.folder_color,
        };
        let ghost nv = nf@;
        let ghost before = r@;
        r.push(nf);
        proof {
            let fv = folders@[i as int]@;
            assert(nv == FolderView {
                id: fv.id,
                name: fv.name,
                project_ids: drop_all(fv.project_ids, project_id@),
                collapsed: fv.collapsed,
                folder_color: fv.folder_color,
            });
            assert(folder_views(folders@.take(i + 1)) =~= folder_views(folders@.take(i as int)).push(fv));
            assert(strip_project(folder_views(folders@.take(i + 1)), project_id@) =~= strip_project(
                folder_views(folders@.take(i as int)),
                project_id@,
            ).push(nv));
            assert(folder_views(r@) =~= folder_views(before).push(nv));
        }
        i += 1;
    }
    assert(folders@.take(folders@.len() as int) =~= folders@);
    r
}

/// The folders of `folders` whose id is not `id`, copied in order.
fn folders_without_id(folders: &Vec<FolderData>, id: &String) -> (r: Vec<FolderData>)
    ensures
        folder_views(r@) == folders_without(folder_views(folders@), id@),
{
    let mut r: Vec<FolderData> = Vec::new();
    let mut i: usize = 0;
    while i < folders.len()
        invariant
            i <= folders@.len(),
            folder_views(r@) == folders_without(folder_views(folders@.take(i as int)), id@),
        decreases folders.len() - i,
    {
        let ghost before = r@;
        assert(folder_views(folders@.take(i + 1)).drop_last() =~= folder_views(folders@.take(i as int)));
        if folders[i].id != *id {
            r.push(folders[i].duplicate());
            assert(folder_views(r@) =~= folder_views(before).push(folders@[i as int]@));
        }
        i += 1;
    }
    assert(folders@.take(folders@.len() as int) =~= folders@);
    r
}

} // verus!
