use vstd::prelude::*;

use crate::error::LoaderError;
use crate::layout::{alias_dir, alias_dir_spec};

verus! {

/// One entry found directly inside a snapshot directory: its name, and the
/// target it points at when it is a symbolic link (`None` when it is not).
#[derive(Debug, Clone)]
pub struct SnapshotEntry {
    pub name: String,
    pub link_target: Option<String>,
}

/// The abstract value of a snapshot entry.
pub struct EntryView {
    pub name: Seq<char>,
    pub link_target: Option<Seq<char>>,
}

impl View for SnapshotEntry {
    type V = EntryView;

    open spec fn view(&self) -> EntryView {
        EntryView {
            name: self.name@,
            link_target: match self.link_target {
                Some(t) => Some(t@),
                None => None,
            },
        }
    }
}

/// One change to the filesystem.
#[derive(Debug, Clone)]
pub enum FsAction {
    /// Remove a directory and everything below it.
    RemoveDirAll(String),
    /// Create a directory, and its parents where they are missing.
    CreateDirAll(String),
    /// Create a symbolic link named `name` inside `dir` that points at `target`.
    Symlink { target: String, dir: String, name: String },
    /// Move the directory `from` to `to`, where nothing stands.
    Rename { from: String, to: String },
}

/// The abstract value of a filesystem action.
pub enum FsActionView {
    RemoveDirAll(Seq<char>),
    CreateDirAll(Seq<char>),
    Symlink { target: Seq<char>, dir: Seq<char>, name: Seq<char> },
    Rename { from: Seq<char>, to: Seq<char> },
}

impl View for FsAction {
    type V = FsActionView;

    open spec fn view(&self) -> FsActionView {
        match self {
            FsAction::RemoveDirAll(p) => FsActionView::RemoveDirAll(p@),
            FsAction::CreateDirAll(p) => FsActionView::CreateDirAll(p@),
            FsAction::Symlink { target, dir, name } => FsActionView::Symlink {
                target: target@,
                dir: dir@,
                name: name@,
            },
            FsAction::Rename { from, to } => FsActionView::Rename { from: from@, to: to@ },
        }
    }
}

/// The abstract values of a listing.
pub open spec fn entries_view(entries: Seq<SnapshotEntry>) -> Seq<EntryView> {
    entries.map_values(|e: SnapshotEntry| e@)
}

/// The abstract values of a plan.
pub open spec fn actions_view(actions: Seq<FsAction>) -> Seq<FsActionView> {
    actions.map_values(|a: FsAction| a@)
}

/// The directory in which a new alias directory is assembled before it is
/// moved into place; it sits beside the alias directory.
pub open spec fn staging_path(dest: Seq<char>) -> Seq<char> {
    dest + ".partial"@
}

/// Every entry is a symbolic link.
pub open spec fn all_links(ev: Seq<EntryView>) -> bool {
    forall|i: int| 0 <= i < ev.len() ==> (#[trigger] ev[i]).link_target is Some
}

/// No two entries share a name, as in any directory listing.
pub open spec fn names_distinct(ev: Seq<EntryView>) -> bool {
    forall|i: int, j: int| 0 <= i < j < ev.len() ==> (#[trigger] ev[i]).name != (#[trigger] ev[j]).name
}

/// The links that mirror `ev` inside `dir`, in listing order.
pub open spec fn link_actions(dir: Seq<char>, ev: Seq<EntryView>) -> Seq<FsActionView> {
    ev.map_values(
        |e: EntryView| FsActionView::Symlink { target: e.link_target.unwrap(), dir, name: e.name },
    )
}

/// The actions that assemble the mirror of a snapshot in the staging
/// directory, then put it in the place of `dest`: clear a leftover staging
/// directory, create it, add one link per entry with the same name and
/// target, remove the old `dest` when there is one, and move the staging
/// directory to `dest`.
pub open spec fn plan_spec(
    dest: Seq<char>,
    dest_exists: bool,
    staging_exists: bool,
    ev: Seq<EntryView>,
) -> Seq<FsActionView> {
    let tmp = staging_path(dest);
    let clear_tmp = if staging_exists {
        seq![FsActionView::RemoveDirAll(tmp)]
    } else {
        Seq::empty()
    };
    let clear_dest = if dest_exists {
        seq![FsActionView::RemoveDirAll(dest)]
    } else {
        Seq::empty()
    };
    clear_tmp + seq![FsActionView::CreateDirAll(tmp)] + link_actions(tmp, ev) + clear_dest + seq![
        FsActionView::Rename { from: tmp, to: dest },
    ]
}

/// What the model knows of a directory: absent, or present with the links
/// inside it, from entry name to target.
pub enum DirState {
    Absent,
    Present(Map<Seq<char>, Seq<char>>),
}

/// The alias directory and its staging directory.
pub struct FsState {
    pub dest: DirState,
    pub staging: DirState,
}

/// A directory after it was created.
pub open spec fn created(d: DirState) -> DirState {
    match d {
        DirState::Absent => DirState::Present(Map::empty()),
        DirState::Present(m) => DirState::Present(m),
    }
}

/// A directory after a link was added to it; `None` when that fails.
pub open spec fn with_link(d: DirState, name: Seq<char>, target: Seq<char>) -> Option<DirState> {
    match d {
        DirState::Present(m) => if m.contains_key(name) {
            None
        } else {
            Some(DirState::Present(m.insert(name, target)))
        },
        DirState::Absent => None,
    }
}

/// The effect of one action on the alias directory `dest` and its staging
/// directory; `None` once an action failed, or for one that touches another
/// directory.
pub open spec fn apply_action(dest: Seq<char>, s: Option<FsState>, a: FsActionView) -> Option<FsState> {
    let tmp = staging_path(dest);
    match s {
        None => None,
        Some(st) => match a {
            FsActionView::RemoveDirAll(p) => if p == dest && st.dest is Present {
                Some(FsState { dest: DirState::Absent, staging: st.staging })
            } else if p == tmp && st.staging is Present {
                Some(FsState { dest: st.dest, staging: DirState::Absent })
            } else {
                None
            },
            FsActionView::CreateDirAll(p) => if p == dest {
                Some(FsState { dest: created(st.dest), staging: st.staging })
            } else if p == tmp {
                Some(FsState { dest: st.dest, staging: created(st.staging) })
            } else {
                None
            },
            FsActionView::Symlink { target, dir, name } => if dir == dest {
                match with_link(st.dest, name, target) {
                    Some(d) => Some(FsState { dest: d, staging: st.staging }),
                    None => None,
                }
            } else if dir == tmp {
                match with_link(st.staging, name, target) {
                    Some(d) => Some(FsState { dest: st.dest, staging: d }),
                    None => None,
                }
            } else {
                None
            },
            FsActionView::Rename { from, to } => if from == tmp && to == dest && st.staging is Present
                && st.dest is Absent {
                Some(FsState { dest: st.staging, staging: DirState::Absent })
            } else {
                None
            },
        },
    }
}

/// The effect of a run of actions, applied in order.
pub open spec fn apply_all(dest: Seq<char>, s: Option<FsState>, acts: Seq<FsActionView>) -> Option<
    FsState,
>
    decreases acts.len(),
{
    if acts.len() == 0 {
        s
    } else {
        apply_action(dest, apply_all(dest, s, acts.drop_last()), acts.last())
    }
}

/// The links that mirror a snapshot, from entry name to target.
pub open spec fn alias_contents(ev: Seq<EntryView>) -> Map<Seq<char>, Seq<char>>
    decreases ev.len(),
{
    if ev.len() == 0 {
        Map::empty()
    } else {
        alias_contents(ev.drop_last()).insert(ev.last().name, ev.last().link_target.unwrap())
    }
}

/// Whether an action changes the alias directory itself.
pub open spec fn touches_dest(dest: Seq<char>, a: FsActionView) -> bool {
    match a {
        FsActionView::RemoveDirAll(p) => p == dest,
        FsActionView::CreateDirAll(p) => p == dest,
        FsActionView::Symlink { dir, .. } => dir == dest,
        FsActionView::Rename { from, to } => from == dest || to == dest,
    }
}

proof fn lemma_apply_concat(dest: Seq<char>, s: Option<FsState>, a: Seq<FsActionView>, b: Seq<FsActionView>)
    ensures
        apply_all(dest, s, a + b) == apply_all(dest, apply_all(dest, s, a), b),
    decreases b.len(),
{
    if b.len() == 0 {
        assert(a + b =~= a);
    } else {
        assert((a + b).drop_last() =~= a + b.drop_last());
        assert((a + b).last() == b.last());
        lemma_apply_concat(dest, s, a, b.drop_last());
    }
}

proof fn lemma_apply_failed(dest: Seq<char>, acts: Seq<FsActionView>)
    ensures
        apply_all(dest, None, acts) == None::<FsState>,
    decreases acts.len(),
{
    if acts.len() > 0 {
        lemma_apply_failed(dest, acts.drop_last());
    }
}

proof fn lemma_apply_one(dest: Seq<char>, s: Option<FsState>, a: FsActionView)
    ensures
        apply_all(dest, s, seq![a]) == apply_action(dest, s, a),
{
    assert(seq![a].drop_last() =~= Seq::<FsActionView>::empty());
    assert(seq![a].last() == a);
    assert(apply_all(dest, s, Seq::<FsActionView>::empty()) == s);
}

proof fn lemma_staging_differs(dest: Seq<char>)
    ensures
        dest.len() < staging_path(dest).len(),
        staging_path(dest) != dest,
{
    reveal_strlit(".partial");
}

/// Actions that leave the alias directory alone leave it as it was.
proof fn lemma_keeps_dest(dest: Seq<char>, s: FsState, acts: Seq<FsActionView>)
    requires
        forall|i: int| 0 <= i < acts.len() ==> !touches_dest(dest, #[trigger] acts[i]),
        apply_all(dest, Some(s), acts) is Some,
    ensures
        apply_all(dest, Some(s), acts)->0.dest == s.dest,
    decreases acts.len(),
{
    if acts.len() > 0 {
        let pre = acts.drop_last();
        assert forall|i: int| 0 <= i < pre.len() implies !touches_dest(dest, #[trigger] pre[i]) by {
            assert(pre[i] == acts[i]);
        }
        assert(!touches_dest(dest, acts[acts.len() - 1]));
        lemma_keeps_dest(dest, s, pre);
    }
}

/// The mirror holds a link for each entry and nothing else.
proof fn lemma_alias_contents_keys(ev: Seq<EntryView>)
    ensures
        forall|k: Seq<char>|
            #[trigger] alias_contents(ev).contains_key(k) <==> exists|i: int|
                0 <= i < ev.len() && k == ev[i].name,
    decreases ev.len(),
{
    if ev.len() > 0 {
        let pre = ev.drop_last();
        lemma_alias_contents_keys(pre);
        assert(alias_contents(ev) == alias_contents(pre).insert(
            ev.last().name,
            ev.last().link_target.unwrap(),
        ));
        assert forall|k: Seq<char>|
            #[trigger] alias_contents(ev).contains_key(k) <==> exists|i: int|
                0 <= i < ev.len() && k == ev[i].name by {
            if alias_contents(ev).contains_key(k) {
                if k != ev.last().name {
                    assert(alias_contents(pre).contains_key(k));
                    let i = choose|i: int| 0 <= i < pre.len() && k == pre[i].name;
                    assert(ev[i] == pre[i]);
                } else {
                    assert(k == ev[ev.len() - 1].name);
                }
            }
            if exists|i: int| 0 <= i < ev.len() && k == ev[i].name {
                let i = choose|i: int| 0 <= i < ev.len() && k == ev[i].name;
                if i < ev.len() - 1 {
                    assert(pre[i] == ev[i]);
                    assert(alias_contents(pre).contains_key(k));
                }
            }
        }
    }
}

/// The link of each entry points at that entry's target.
proof fn lemma_alias_contents_values(ev: Seq<EntryView>)
    requires
        names_distinct(ev),
    ensures
        forall|i: int|
            0 <= i < ev.len() ==> alias_contents(ev)[#[trigger] ev[i].name]
                == ev[i].link_target.unwrap(),
    decreases ev.len(),
{
    if ev.len() > 0 {
        let pre = ev.drop_last();
        assert(names_distinct(pre));
        lemma_alias_contents_values(pre);
        assert forall|i: int| 0 <= i < ev.len() implies alias_contents(ev)[#[trigger] ev[i].name]
            == ev[i].link_target.unwrap() by {
            if i < ev.len() - 1 {
                assert(pre[i] == ev[i]);
                assert(ev[i].name != ev[ev.len() - 1].name);
            }
        }
    }
}

/// Adding the links to an empty staging directory fills it with the mirror.
proof fn lemma_links_build(dest: Seq<char>, d: DirState, ev: Seq<EntryView>)
    requires
        names_distinct(ev),
    ensures
        apply_all(
            dest,
            Some(FsState { dest: d, staging: DirState::Present(Map::empty()) }),
            link_actions(staging_path(dest), ev),
        ) == Some(FsState { dest: d, staging: DirState::Present(alias_contents(ev)) }),
    decreases ev.len(),
{
    let tmp = staging_path(dest);
    lemma_staging_differs(dest);
    if ev.len() > 0 {
        let pre = ev.drop_last();
        assert(names_distinct(pre));
        lemma_links_build(dest, d, pre);
        assert(link_actions(tmp, ev).drop_last() =~= link_actions(tmp, pre));
        lemma_alias_contents_keys(pre);
        let last = ev.last();
        if alias_contents(pre).contains_key(last.name) {
            let i = choose|i: int| 0 <= i < pre.len() && last.name == pre[i].name;
            assert(ev[i] == pre[i]);
            assert(ev[i].name != ev[ev.len() - 1].name);
        }
    }
}

/// The state once the mirror stands complete in the staging directory.
proof fn lemma_staged(dest: Seq<char>, staging_exists: bool, s: FsState, ev: Seq<EntryView>)
    requires
        (s.staging is Present) == staging_exists,
        names_distinct(ev),
    ensures
        ({
            let tmp = staging_path(dest);
            let clear_tmp = if staging_exists {
                seq![FsActionView::RemoveDirAll(tmp)]
            } else {
                Seq::empty()
            };
            apply_all(
                dest,
                Some(s),
                clear_tmp + seq![FsActionView::CreateDirAll(tmp)] + link_actions(tmp, ev),
            ) == Some(FsState { dest: s.dest, staging: DirState::Present(alias_contents(ev)) })
        }),
{
    let tmp = staging_path(dest);
    lemma_staging_differs(dest);
    let clear_tmp = if staging_exists {
        seq![FsActionView::RemoveDirAll(tmp)]
    } else {
        Seq::empty()
    };
    let create = seq![FsActionView::CreateDirAll(tmp)];
    lemma_apply_concat(dest, Some(s), clear_tmp + create, link_actions(tmp, ev));
    lemma_apply_concat(dest, Some(s), clear_tmp, create);
    lemma_apply_one(dest, Some(s), FsActionView::RemoveDirAll(tmp));
    let mid = apply_all(dest, Some(s), clear_tmp);
    assert(mid == Some(FsState { dest: s.dest, staging: DirState::Absent }) || mid == Some(s));
    lemma_apply_one(dest, mid, FsActionView::CreateDirAll(tmp));
    lemma_links_build(dest, s.dest, ev);
}

/// Carrying out the plan for `dest`, from any state that agrees with
/// `dest_exists` and `staging_exists`, leaves exactly the mirror of the
/// snapshot in `dest`, one link per entry, at the entry's name, pointing at
/// the entry's own target, and no staging directory behind.
pub proof fn lemma_materialize_builds_mirror(
    dest: Seq<char>,
    dest_exists: bool,
    staging_exists: bool,
    s: FsState,
    ev: Seq<EntryView>,
)
    requires
        (s.dest is Present) == dest_exists,
        (s.staging is Present) == staging_exists,
        all_links(ev),
        names_distinct(ev),
    ensures
        apply_all(dest, Some(s), plan_spec(dest, dest_exists, staging_exists, ev)) == Some(
            FsState { dest: DirState::Present(alias_contents(ev)), staging: DirState::Absent },
        ),
        forall|k: Seq<char>|
            #[trigger] alias_contents(ev).contains_key(k) <==> exists|i: int|
                0 <= i < ev.len() && k == ev[i].name,
        forall|i: int|
            0 <= i < ev.len() ==> alias_contents(ev)[#[trigger] ev[i].name]
                == ev[i].link_target.unwrap(),
{
    let tmp = staging_path(dest);
    lemma_staging_differs(dest);
    let clear_tmp = if staging_exists {
        seq![FsActionView::RemoveDirAll(tmp)]
    } else {
        Seq::empty()
    };
    let clear_dest = if dest_exists {
        seq![FsActionView::RemoveDirAll(dest)]
    } else {
        Seq::empty()
    };
    let staged = clear_tmp + seq![FsActionView::CreateDirAll(tmp)] + link_actions(tmp, ev);
    let rename = seq![FsActionView::Rename { from: tmp, to: dest }];
    lemma_staged(dest, staging_exists, s, ev);
    let t = FsState { dest: s.dest, staging: DirState::Present(alias_contents(ev)) };
    lemma_apply_concat(dest, Some(s), staged + clear_dest, rename);
    lemma_apply_concat(dest, Some(s), staged, clear_dest);
    lemma_apply_one(dest, Some(t), FsActionView::RemoveDirAll(dest));
    let u = apply_all(dest, Some(t), clear_dest);
    assert(u == Some(FsState { dest: DirState::Absent, staging: t.staging }));
    lemma_apply_one(dest, u, FsActionView::Rename { from: tmp, to: dest });
    lemma_alias_contents_keys(ev);
    lemma_alias_contents_values(ev);
}

/// The alias directory is never seen half built: after any number of the
/// plan's actions have been carried out, it holds what it held before, or is
/// absent, or holds the complete mirror of the snapshot. A failing step
/// stops the run at one of these points.
pub proof fn lemma_alias_never_partial(
    dest: Seq<char>,
    dest_exists: bool,
    staging_exists: bool,
    s: FsState,
    ev: Seq<EntryView>,
    k: int,
)
    requires
        (s.dest is Present) == dest_exists,
        (s.staging is Present) == staging_exists,
        all_links(ev),
        names_distinct(ev),
        0 <= k <= plan_spec(dest, dest_exists, staging_exists, ev).len(),
    ensures
        apply_all(dest, Some(s), plan_spec(dest, dest_exists, staging_exists, ev).take(k)) matches Some(t)
            && (t.dest == s.dest || t.dest is Absent || t.dest == DirState::Present(alias_contents(ev))),
{
    let plan = plan_spec(dest, dest_exists, staging_exists, ev);
    let tmp = staging_path(dest);
    lemma_staging_differs(dest);
    let clear_tmp = if staging_exists {
        seq![FsActionView::RemoveDirAll(tmp)]
    } else {
        Seq::empty()
    };
    let clear_dest = if dest_exists {
        seq![FsActionView::RemoveDirAll(dest)]
    } else {
        Seq::empty()
    };
    let staged = clear_tmp + seq![FsActionView::CreateDirAll(tmp)] + link_actions(tmp, ev);
    lemma_materialize_builds_mirror(dest, dest_exists, staging_exists, s, ev);
    lemma_staged(dest, staging_exists, s, ev);
    let pre = plan.take(k);
    let rest = plan.skip(k);
    assert(plan =~= pre + rest);
    lemma_apply_concat(dest, Some(s), pre, rest);
    if apply_all(dest, Some(s), pre) is None {
        lemma_apply_failed(dest, rest);
    }
    if k <= staged.len() {
        assert forall|i: int| 0 <= i < pre.len() implies !touches_dest(dest, #[trigger] pre[i]) by {
            assert(pre[i] == staged[i]);
            if i >= clear_tmp.len() + 1 {
                assert(staged[i] == link_actions(tmp, ev)[i - clear_tmp.len() - 1]);
            }
        }
        lemma_keeps_dest(dest, s, pre);
    } else if k < plan.len() {
        assert(dest_exists && k == staged.len() + 1);
        assert(pre =~= staged + clear_dest);
        lemma_apply_concat(dest, Some(s), staged, clear_dest);
        lemma_apply_one(
            dest,
            Some(FsState { dest: s.dest, staging: DirState::Present(alias_contents(ev)) }),
            FsActionView::RemoveDirAll(dest),
        );
    } else {
        assert(pre =~= plan);
    }
}

/// Materializing twice from the same snapshot leaves the same alias directory
/// as materializing once: the second run finds the alias directory present
/// and no staging directory, and rebuilds the same links with the same targets.
pub proof fn lemma_materialize_idempotent(
    dest: Seq<char>,
    dest_exists: bool,
    staging_exists: bool,
    s: FsState,
    ev: Seq<EntryView>,
)
    requires
        (s.dest is Present) == dest_exists,
        (s.staging is Present) == staging_exists,
        all_links(ev),
        names_distinct(ev),
    ensures
        ({
            let once = apply_all(dest, Some(s), plan_spec(dest, dest_exists, staging_exists, ev));
            &&& once matches Some(t) && t.dest is Present && t.staging is Absent
            &&& apply_all(dest, once, plan_spec(dest, true, false, ev)) == once
        }),
{
    lemma_materialize_builds_mirror(dest, dest_exists, staging_exists, s, ev);
    lemma_materialize_builds_mirror(
        dest,
        true,
        false,
        FsState { dest: DirState::Present(alias_contents(ev)), staging: DirState::Absent },
        ev,
    );
}

/// Whatever the alias directory held before and that stands for no entry of
/// the snapshot is gone afterwards: the old directory is replaced whole, not
/// merged with.
pub proof fn lemma_materialize_drops_stale(
    dest: Seq<char>,
    old_links: Map<Seq<char>, Seq<char>>,
    staging_exists: bool,
    staging: DirState,
    ev: Seq<EntryView>,
    stale: Seq<char>,
)
    requires
        (staging is Present) == staging_exists,
        all_links(ev),
        names_distinct(ev),
        old_links.contains_key(stale),
        forall|i: int| 0 <= i < ev.len() ==> stale != (#[trigger] ev[i]).name,
    ensures
        apply_all(
            dest,
            Some(FsState { dest: DirState::Present(old_links), staging }),
            plan_spec(dest, true, staging_exists, ev),
        ) matches Some(t) && t.dest matches DirState::Present(m) && !m.contains_key(stale),
{
    lemma_materialize_builds_mirror(
        dest,
        true,
        staging_exists,
        FsState { dest: DirState::Present(old_links), staging },
        ev,
    );
}

/// The staging directory that belongs to the alias directory `dest`.
pub fn staging_dir(dest: &str) -> (r: String)
    ensures
        r@ == staging_path(dest@),
{
    let mut out = String::from_str(dest);
    out.append(".partial");
    out
}

/// Plans the rebuilding of the alias directory `dest` from the entries of a
/// snapshot directory. The new directory is assembled under `staging_dir(dest)`
/// and moved into place only once it is complete, so `dest` holds its old
/// contents, nothing, or the complete mirror at every point. Nothing is
/// planned unless every entry is a symbolic link: otherwise the first entry
/// that is not one is reported, and nothing is touched. `dest_exists` and
/// `staging_exists` tell whether the two directories are there now.
pub fn plan_copy_symlink_dir(
    dest: &str,
    dest_exists: bool,
    staging_exists: bool,
    entries: &Vec<SnapshotEntry>,
) -> (r: Result<Vec<FsAction>, LoaderError>)
    ensures
        all_links(entries_view(entries@)) ==> (r matches Ok(acts) && actions_view(acts@) == plan_spec(
            dest@,
            dest_exists,
            staging_exists,
            entries_view(entries@),
        )),
        !all_links(entries_view(entries@)) ==> (r matches Err(LoaderError::UnexpectedEntry(n))
            && exists|i: int|
            0 <= i < entries@.len() && entries@[i].link_target is None && n@ == entries@[i].name@
                && forall|j: int| 0 <= j < i ==> (#[trigger] entries@[j]).link_target is Some),
{
    let n = entries.len();
    let mut i: usize = 0;
    while i < n
        invariant
            n == entries@.len(),
            i <= n,
            forall|j: int| 0 <= j < i ==> (#[trigger] entries@[j]).link_target is Some,
        decreases n - i,
    {
        if entries[i].link_target.is_none() {
            assert(entries_view(entries@)[i as int].link_target is None);
            return Err(LoaderError::UnexpectedEntry(entries[i].name.clone()));
        }
        i = i + 1;
    }
    assert(all_links(entries_view(entries@)));
    let staging = staging_dir(dest);
    let mut acts: Vec<FsAction> = Vec::new();
    if staging_exists {
        acts.push(FsAction::RemoveDirAll(staging.clone()));
    }
    acts.push(FsAction::CreateDirAll(staging.clone()));
    let ghost tmp = staging_path(dest@);
    let ghost head = actions_view(acts@);
    assert(head =~= (if staging_exists {
        seq![FsActionView::RemoveDirAll(tmp)]
    } else {
        Seq::empty()
    }) + seq![FsActionView::CreateDirAll(tmp)]);
    let mut k: usize = 0;
    while k < n
        invariant
            n == entries@.len(),
            k <= n,
            staging@ == tmp,
            all_links(entries_view(entries@)),
            acts@.len() == head.len() + k,
            actions_view(acts@) =~= head + link_actions(tmp, entries_view(entries@).subrange(0, k as int)),
        decreases n - k,
    {
        let e = &entries[k];
        assert(entries_view(entries@)[k as int].link_target is Some);
        let target = match &e.link_target {
            Some(t) => t.clone(),
            None => String::new(),
        };
        let ghost before = acts@;
        acts.push(FsAction::Symlink { target, dir: staging.clone(), name: e.name.clone() });
        proof {
            let ev = entries_view(entries@);
            assert(ev.subrange(0, k + 1) =~= ev.subrange(0, k as int).push(ev[k as int]));
            assert(link_actions(tmp, ev.subrange(0, k + 1)) =~= link_actions(
                tmp,
                ev.subrange(0, k as int),
            ).push(link_actions(tmp, ev.subrange(0, k + 1))[k as int]));
            assert(actions_view(acts@) =~= actions_view(before).push(acts@[head.len() + k]@));
        }
        k = k + 1;
    }
    assert(entries_view(entries@).subrange(0, n as int) =~= entries_view(entries@));
    let ghost staged = actions_view(acts@);
    if dest_exists {
        acts.push(FsAction::RemoveDirAll(String::from_str(dest)));
    }
    acts.push(FsAction::Rename { from: staging, to: String::from_str(dest) });
    assert(actions_view(acts@) =~= staged + (if dest_exists {
        seq![FsActionView::RemoveDirAll(dest@)]
    } else {
        Seq::empty()
    }) + seq![FsActionView::Rename { from: tmp, to: dest@ }]);
    Ok(acts)
}

/// Plans the rebuilding of the alias directory of `model_id` under
/// `branch_label`, inside the cache rooted at `cache_root`, from the entries of
/// the snapshot directory of the fetched revision. `alias_exists` and
/// `staging_exists` tell whether the alias directory and its staging
/// directory are there now.
pub fn plan_materialize_alias(
    model_id: &str,
    cache_root: &str,
    branch_label: &str,
    alias_exists: bool,
    staging_exists: bool,
    entries: &Vec<SnapshotEntry>,
) -> (r: Result<Vec<FsAction>, LoaderError>)
    ensures
        all_links(entries_view(entries@)) ==> (r matches Ok(acts) && actions_view(acts@) == plan_spec(
            alias_dir_spec(cache_root@, model_id@, branch_label@),
            alias_exists,
            staging_exists,
            entries_view(entries@),
        )),
        !all_links(entries_view(entries@)) ==> (r matches Err(LoaderError::UnexpectedEntry(n))
            && exists|i: int|
            0 <= i < entries@.len() && entries@[i].link_target is None && n@ == entries@[i].name@
                && forall|j: int| 0 <= j < i ==> (#[trigger] entries@[j]).link_target is Some),
{
    let dest = alias_dir(cache_root, model_id, branch_label);
    plan_copy_symlink_dir(dest.as_str(), alias_exists, staging_exists, entries)
}

} // verus!
