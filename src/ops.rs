//! The operations of `cargo member`: each turns its options and what the
//! workspace looks like into a plan of list changes and directory work.
use vstd::prelude::*;

use crate::cli::{
    CargoMemberCp, CargoMemberDeactivate, CargoMemberExclude, CargoMemberFocus,
    CargoMemberInclude, CargoMemberMv, CargoMemberNew, CargoMemberRm,
};
use crate::error::{ErrorKind, MemberError};
use crate::locate::{
    all_targets, path_target, path_targets, resolve_path, resolve_paths, resolve_spec,
    resolve_targets, spec_target, WorkspaceMetadata,
};
use crate::membership::{
    is_deactivate_delta, is_exclude_delta, is_include_delta, next_exclude,
    lemma_push_contains, next_members, strs, Membership, MembershipDelta,
};
use crate::path::{relative, relative_to};

verus! {

/// Work on a package directory; every path is relative to the workspace root.
#[derive(Debug)]
pub enum DirAction {
    /// Copy the tree at `src` to `dst`.
    CopyTree { src: String, dst: String },
    /// Delete the tree at `path`.
    RemoveTree { path: String },
    /// Set `package.name` of the package at `dir` to `name`.
    Rename { dir: String, name: String },
}

/// What an operation is to do: the list changes, the directory work, and
/// after how many of the actions the manifest is written.
#[derive(Debug)]
pub struct Plan {
    pub delta: MembershipDelta,
    pub actions: Vec<DirAction>,
    pub write_at: usize,
}

/// The last component of `s`: what follows its last separator.
pub open spec fn last_component(s: Seq<char>) -> Seq<char>
    decreases s.len(),
{
    if s.len() == 0 || s.last() == '/' {
        Seq::empty()
    } else {
        last_component(s.drop_last()).push(s.last())
    }
}

/// Computes `last_component`.
pub fn file_name(s: &str) -> (r: String)
    ensures
        r@ == last_component(s@),
{
    let n = s.unicode_len();
    let mut i: usize = n;
    assert(s@.subrange(0, n as int) =~= s@);
    assert(last_component(s@) + s@.subrange(n as int, n as int) =~= last_component(s@));
    while i > 0 && s.get_char(i - 1) != '/'
        invariant
            i <= n,
            n == s@.len(),
            last_component(s@) == last_component(s@.subrange(0, i as int)) + s@.subrange(
                i as int,
                n as int,
            ),
        decreases i,
    {
        assert(s@.subrange(0, i as int).drop_last() =~= s@.subrange(0, i - 1));
        assert(s@.subrange(i - 1, n as int) =~= seq![s@[i - 1]] + s@.subrange(i as int, n as int));
        assert(last_component(s@.subrange(0, i - 1)).push(s@[i - 1]) + s@.subrange(
            i as int,
            n as int,
        ) =~= last_component(s@.subrange(0, i - 1)) + s@.subrange(i - 1, n as int));
        i = i - 1;
    }
    assert(last_component(s@.subrange(0, i as int)) =~= Seq::<char>::empty());
    assert(Seq::<char>::empty() + s@.subrange(i as int, n as int) =~= s@.subrange(
        i as int,
        n as int,
    ));
    String::from_str(s.substring_char(i, n))
}

fn copy_all(v: &Vec<String>) -> (r: Vec<String>)
    ensures
        strs(r@) == strs(v@),
{
    let mut r: Vec<String> = Vec::new();
    let mut i: usize = 0;
    while i < v.len()
        invariant
            i <= v.len(),
            strs(r@) =~= strs(v@.take(i as int)),
        decreases v.len() - i,
    {
        r.push(String::from_str(v[i].as_str()));
        assert(strs(v@.take(i + 1)) =~= strs(v@.take(i as int)).push(v@[i as int]@));
        i = i + 1;
    }
    assert(v@.take(v.len() as int) =~= v@);
    r
}

fn one(s: &String) -> (r: Vec<String>)
    ensures
        strs(r@) == seq![s@],
{
    let mut r: Vec<String> = Vec::new();
    r.push(String::from_str(s.as_str()));
    assert(strs(r@) =~= seq![s@]);
    r
}

fn delta_of(
    add_members: Vec<String>,
    remove_members: Vec<String>,
    add_exclude: Vec<String>,
    remove_exclude: Vec<String>,
) -> (d: MembershipDelta)
    ensures
        d.add_members == add_members,
        d.remove_members == remove_members,
        d.add_exclude == add_exclude,
        d.remove_exclude == remove_exclude,
{
    MembershipDelta { add_members, remove_members, add_exclude, remove_exclude }
}

/// The delta that makes `targets` members.
pub fn include_delta(targets: &Vec<String>) -> (d: MembershipDelta)
    ensures
        is_include_delta(&d, strs(targets@)),
        d.consistent(),
        d.settled(),
{
    let d = delta_of(copy_all(targets), Vec::new(), Vec::new(), copy_all(targets));
    assert(strs(d.remove_members@) =~= Seq::<Seq<char>>::empty());
    assert(strs(d.add_exclude@) =~= Seq::<Seq<char>>::empty());
    d
}

/// The delta that moves `targets` from the members to the excluded paths.
pub fn exclude_delta(targets: &Vec<String>) -> (d: MembershipDelta)
    ensures
        is_exclude_delta(&d, strs(targets@)),
        d.consistent(),
        d.settled(),
{
    let d = delta_of(Vec::new(), copy_all(targets), copy_all(targets), Vec::new());
    assert(strs(d.add_members@) =~= Seq::<Seq<char>>::empty());
    assert(strs(d.remove_exclude@) =~= Seq::<Seq<char>>::empty());
    d
}

/// The delta that takes `targets` out of both lists.
pub fn deactivate_delta(targets: &Vec<String>) -> (d: MembershipDelta)
    ensures
        is_deactivate_delta(&d, strs(targets@)),
        d.consistent(),
        d.settled(),
{
    let d = delta_of(Vec::new(), copy_all(targets), Vec::new(), copy_all(targets));
    assert(strs(d.add_members@) =~= Seq::<Seq<char>>::empty());
    assert(strs(d.add_exclude@) =~= Seq::<Seq<char>>::empty());
    d
}

/// `include`: the paths, given from `cwd`, become members of the workspace at
/// `root`; `is_package[i]` tells whether path `i` holds a package.
pub fn plan_include(opt: &CargoMemberInclude, cwd: &str, root: &str, is_package: &Vec<bool>) -> (r:
    Result<Plan, MemberError>)
    ensures
        match path_targets(root@, cwd@, strs(opt.paths@), is_package@, opt.force) {
            Ok(ts) => r matches Ok(p) && is_include_delta(&p.delta, ts) && p.delta.consistent()
                && p.actions@.len() == 0 && p.write_at == 0,
            Err(e) => r matches Err(x) && x@ == e,
        },
{
    let ts = resolve_paths(root, cwd, &opt.paths, is_package, opt.force)?;
    Ok(Plan { delta: include_delta(&ts), actions: Vec::new(), write_at: 0 })
}

/// `exclude`: the packages named by path or by specification move to
/// `workspace.exclude`.
pub fn plan_exclude(opt: &CargoMemberExclude, cwd: &str, md: &WorkspaceMetadata) -> (r: Result<
    Plan,
    MemberError,
>)
    ensures
        match all_targets(*md, cwd@, strs(opt.paths@), seq![], true, strs(opt.package@)) {
            Ok(ts) => r matches Ok(p) && is_exclude_delta(&p.delta, ts) && p.delta.consistent()
                && p.actions@.len() == 0 && p.write_at == 0,
            Err(e) => r matches Err(x) && x@ == e,
        },
{
    let no: Vec<bool> = Vec::new();
    let ts = resolve_targets(md, cwd, &opt.paths, &no, true, &opt.package)?;
    Ok(Plan { delta: exclude_delta(&ts), actions: Vec::new(), write_at: 0 })
}

/// `deactivate`: the packages named by path or by specification leave both
/// lists.
pub fn plan_deactivate(opt: &CargoMemberDeactivate, cwd: &str, md: &WorkspaceMetadata) -> (r:
    Result<Plan, MemberError>)
    ensures
        match all_targets(*md, cwd@, strs(opt.paths@), seq![], true, strs(opt.package@)) {
            Ok(ts) => r matches Ok(p) && is_deactivate_delta(&p.delta, ts) && p.delta.consistent()
                && p.actions@.len() == 0 && p.write_at == 0,
            Err(e) => r matches Err(x) && x@ == e,
        },
{
    let no: Vec<bool> = Vec::new();
    let ts = resolve_targets(md, cwd, &opt.paths, &no, true, &opt.package)?;
    Ok(Plan { delta: deactivate_delta(&ts), actions: Vec::new(), write_at: 0 })
}

/// The workspace-relative directories of the members in `dirs`, other than
/// `t` and than the root itself, in order.
pub open spec fn focus_others(root: Seq<char>, dirs: Seq<Seq<char>>, t: Seq<char>) -> Seq<
    Seq<char>,
>
    decreases dirs.len(),
{
    if dirs.len() == 0 {
        Seq::empty()
    } else {
        let rest = focus_others(root, dirs.drop_last(), t);
        match relative_to(root, dirs.last()) {
            Some(o) => if o != t {
                rest.push(o)
            } else {
                rest
            },
            None => rest,
        }
    }
}

proof fn lemma_others_skip_target(root: Seq<char>, dirs: Seq<Seq<char>>, t: Seq<char>)
    ensures
        !focus_others(root, dirs, t).contains(t),
    decreases dirs.len(),
{
    if dirs.len() > 0 {
        lemma_others_skip_target(root, dirs.drop_last(), t);
        let rest = focus_others(root, dirs.drop_last(), t);
        if let Some(o) = relative_to(root, dirs.last()) {
            lemma_push_contains(rest, o, t);
        }
    }
}

/// The delta of `focus` on `t`, where `others` are the other members.
pub open spec fn is_focus_delta(
    d: &MembershipDelta,
    t: Seq<char>,
    others: Seq<Seq<char>>,
    exclude: bool,
) -> bool {
    &&& d.am() == seq![t]
    &&& d.rm() == others
    &&& if exclude {
        d.ae() == others && d.re() == seq![t]
    } else {
        d.ae().len() == 0 && d.re() == seq![t] + others
    }
}

/// `focus`: the path, given from `cwd`, becomes a member, and every other
/// member of the workspace is excluded (with `opt.exclude`) or deactivated.
/// `is_package` tells whether the path holds a package.
pub fn plan_focus(opt: &CargoMemberFocus, cwd: &str, md: &WorkspaceMetadata, is_package: bool) -> (r:
    Result<Plan, MemberError>)
    ensures
        match path_target(md.workspace_root@, cwd@, opt.path@) {
            None => r matches Err(x) && x@ == (ErrorKind::OutsideWorkspace, opt.path@),
            Some(t) => if is_package {
                r matches Ok(p) && is_focus_delta(
                    &p.delta,
                    t,
                    focus_others(md.workspace_root@, strs(md.member_dirs@), t),
                    opt.exclude,
                ) && p.delta.consistent() && p.delta.settled() && p.actions@.len() == 0 && p.write_at == 0
            } else {
                r matches Err(x) && x@ == (ErrorKind::NotAPackage, opt.path@)
            },
        },
{
    let root = md.workspace_root.as_str();
    let abs = resolve_path(cwd, opt.path.as_str());
    let t = match relative(root, abs.as_str()) {
        Some(t) => t,
        None => {
            return Err(MemberError::about(ErrorKind::OutsideWorkspace, opt.path.as_str()));
        },
    };
    if !is_package {
        return Err(MemberError::about(ErrorKind::NotAPackage, opt.path.as_str()));
    }
    let dirs = &md.member_dirs;
    let ghost ds = strs(dirs@);
    let mut others: Vec<String> = Vec::new();
    let mut i: usize = 0;
    assert(ds.take(0) =~= Seq::<Seq<char>>::empty());
    assert(strs(others@) =~= Seq::<Seq<char>>::empty());
    while i < dirs.len()
        invariant
            i <= dirs.len(),
            ds == strs(dirs@),
            strs(others@) == focus_others(root@, ds.take(i as int), t@),
        decreases dirs.len() - i,
    {
        assert(ds.take(i + 1).drop_last() =~= ds.take(i as int));
        assert(ds.take(i + 1).last() == dirs@[i as int]@);
        if let Some(o) = relative(root, dirs[i].as_str()) {
            if !(o == t) {
                let ghost before = others@;
                others.push(o);
                assert(strs(others@) =~= strs(before).push(o@));
            }
        }
        i = i + 1;
    }
    assert(ds.take(dirs.len() as int) =~= ds);
    proof {
        lemma_others_skip_target(root@, ds, t@);
    }
    let tv = one(&t);
    let delta = if opt.exclude {
        delta_of(copy_all(&tv), copy_all(&others), copy_all(&others), tv)
    } else {
        let mut re = copy_all(&tv);
        let mut more = copy_all(&others);
        re.append(&mut more);
        assert(strs(re@) =~= seq![t@] + strs(others@));
        let d = delta_of(copy_all(&tv), copy_all(&others), Vec::new(), re);
        assert(strs(d.add_exclude@) =~= Seq::<Seq<char>>::empty());
        d
    };
    proof {
        let o = strs(others@);
        assert forall|x: Seq<char>| delta.am().contains(x) implies !delta.rm().contains(x) by {
            lemma_push_contains(Seq::empty(), t@, x);
            assert(seq![t@] =~= Seq::<Seq<char>>::empty().push(t@));
        }
        assert forall|x: Seq<char>| delta.am().contains(x) implies delta.re().contains(x) by {
            lemma_push_contains(Seq::empty(), t@, x);
            assert(seq![t@] =~= Seq::<Seq<char>>::empty().push(t@));
            if !opt.exclude {
                assert(delta.re()[0] == t@);
            }
        }
        assert forall|x: Seq<char>| delta.ae().contains(x) implies !delta.re().contains(x) by {
            lemma_push_contains(Seq::empty(), t@, x);
            assert(seq![t@] =~= Seq::<Seq<char>>::empty().push(t@));
        }
        assert forall|x: Seq<char>| delta.am().contains(x) implies !delta.ae().contains(x) by {
            lemma_push_contains(Seq::empty(), t@, x);
            assert(seq![t@] =~= Seq::<Seq<char>>::empty().push(t@));
        }
    }
    Ok(Plan { delta, actions: Vec::new(), write_at: 0 })
}

/// `new`: after `cargo new` has made the package, its path, given from
/// `cwd`, becomes a member of the workspace at `root`.
pub fn plan_new(opt: &CargoMemberNew, cwd: &str, root: &str) -> (r: Result<Plan, MemberError>)
    ensures
        match path_target(root@, cwd@, opt.path@) {
            None => r matches Err(x) && x@ == (ErrorKind::OutsideWorkspace, opt.path@),
            Some(t) => r matches Ok(p) && is_include_delta(&p.delta, seq![t]) && p.delta.consistent()
                && p.actions@.len() == 0 && p.write_at == 0,
        },
{
    let abs = resolve_path(cwd, opt.path.as_str());
    match relative(root, abs.as_str()) {
        Some(t) => {
            let tv = one(&t);
            Ok(Plan { delta: include_delta(&tv), actions: Vec::new(), write_at: 0 })
        },
        None => Err(MemberError::about(ErrorKind::OutsideWorkspace, opt.path.as_str())),
    }
}

/// Both ends of a copy: the source package's directory and the destination,
/// or the first failure.
pub open spec fn transfer_ends(
    md: WorkspaceMetadata,
    cwd: Seq<char>,
    src: Seq<char>,
    dst: Seq<char>,
    dst_exists: bool,
) -> Result<(Seq<char>, Seq<char>), (ErrorKind, Seq<char>)> {
    match spec_target(md, src) {
        Err(e) => Err(e),
        Ok(s) => match path_target(md.workspace_root@, cwd, dst) {
            None => Err((ErrorKind::OutsideWorkspace, dst)),
            Some(t) => if dst_exists {
                Err((ErrorKind::DestinationExists, dst))
            } else {
                Ok((s, t))
            },
        },
    }
}

/// `a` copies the tree at `s` to `t`.
pub open spec fn copies(a: DirAction, s: Seq<char>, t: Seq<char>) -> bool {
    a matches DirAction::CopyTree { src, dst } && src@ == s && dst@ == t
}

/// `a` names the package at `t` after its directory.
pub open spec fn renames(a: DirAction, t: Seq<char>) -> bool {
    a matches DirAction::Rename { dir, name } && dir@ == t && name@ == last_component(t)
}

/// `a` deletes the tree at `s`.
pub open spec fn removes(a: DirAction, s: Seq<char>) -> bool {
    a matches DirAction::RemoveTree { path } && path@ == s
}

/// `acts` begins with the copy of `s` to `t`, and, unless `no_rename`, the
/// renaming of the copy after its directory.
pub open spec fn copy_steps(acts: Seq<DirAction>, s: Seq<char>, t: Seq<char>, no_rename: bool) -> bool {
    &&& acts.len() >= 1
    &&& copies(acts[0], s, t)
    &&& no_rename || (acts.len() >= 2 && renames(acts[1], t))
}

fn copy_actions(s: &String, t: &String, no_rename: bool) -> (r: Vec<DirAction>)
    ensures
        copy_steps(r@, s@, t@, no_rename),
        r@.len() == if no_rename {
            1int
        } else {
            2int
        },
{
    let mut r: Vec<DirAction> = Vec::new();
    r.push(DirAction::CopyTree { src: String::from_str(s.as_str()), dst: String::from_str(t.as_str()) });
    if !no_rename {
        r.push(DirAction::Rename { dir: String::from_str(t.as_str()), name: file_name(t.as_str()) });
    }
    r
}

fn ends(md: &WorkspaceMetadata, cwd: &str, src: &String, dst: &String, dst_exists: bool) -> (r:
    Result<(String, String), MemberError>)
    ensures
        match transfer_ends(*md, cwd@, src@, dst@, dst_exists) {
            Ok((s, t)) => r matches Ok((a, b)) && a@ == s && b@ == t,
            Err(e) => r matches Err(x) && x@ == e,
        },
{
    let s = resolve_spec(md, src.as_str())?;
    let abs = resolve_path(cwd, dst.as_str());
    let t = match relative(md.workspace_root.as_str(), abs.as_str()) {
        Some(t) => t,
        None => {
            return Err(MemberError::about(ErrorKind::OutsideWorkspace, dst.as_str()));
        },
    };
    if dst_exists {
        return Err(MemberError::about(ErrorKind::DestinationExists, dst.as_str()));
    }
    Ok((s, t))
}

/// `cp`: copies the package that `opt.src` selects to `opt.dst`, renames the
/// copy unless `opt.no_rename`, and makes it a member. `dst_exists` tells
/// whether the destination exists already.
pub fn plan_cp(opt: &CargoMemberCp, cwd: &str, md: &WorkspaceMetadata, dst_exists: bool) -> (r:
    Result<Plan, MemberError>)
    ensures
        match transfer_ends(*md, cwd@, opt.src@, opt.dst@, dst_exists) {
            Ok((s, t)) => r matches Ok(p) && is_include_delta(&p.delta, seq![t])
                && p.delta.consistent() && copy_steps(p.actions@, s, t, opt.no_rename)
                && p.write_at == p.actions@.len() && p.actions@.len() == (if opt.no_rename {
                1int
            } else {
                2int
            }),
            Err(e) => r matches Err(x) && x@ == e,
        },
{
    let (s, t) = ends(md, cwd, &opt.src, &opt.dst, dst_exists)?;
    let actions = copy_actions(&s, &t, opt.no_rename);
    let tv = one(&t);
    let write_at = actions.len();
    Ok(Plan { delta: include_delta(&tv), actions, write_at })
}

/// The delta of moving the member `s` to `t`.
pub open spec fn is_move_delta(d: &MembershipDelta, s: Seq<char>, t: Seq<char>) -> bool {
    &&& d.am() == seq![t]
    &&& d.rm() == seq![s]
    &&& d.ae().len() == 0
    &&& d.re() == seq![s, t]
}

/// `mv`: copies as `cp` does, writes the manifest, then deletes the source
/// package; the source leaves both lists and the destination becomes a
/// member.
pub fn plan_mv(opt: &CargoMemberMv, cwd: &str, md: &WorkspaceMetadata, dst_exists: bool) -> (r:
    Result<Plan, MemberError>)
    ensures
        match transfer_ends(*md, cwd@, opt.src@, opt.dst@, dst_exists) {
            Ok((s, t)) => r matches Ok(p) && is_move_delta(&p.delta, s, t) && p.delta.consistent()
                && copy_steps(p.actions@, s, t, opt.no_rename) && removes(p.actions@.last(), s) && p.write_at == p.actions@.len() - 1
                && p.actions@.len() == (if opt.no_rename {
                2int
            } else {
                3int
            }),
            Err(e) => r matches Err(x) && x@ == e,
        },
{
    let (s, t) = ends(md, cwd, &opt.src, &opt.dst, dst_exists)?;
    let mut actions = copy_actions(&s, &t, opt.no_rename);
    actions.push(DirAction::RemoveTree { path: String::from_str(s.as_str()) });
    let mut re = one(&s);
    let ghost before = re@;
    re.push(String::from_str(t.as_str()));
    assert(strs(re@) =~= strs(before).push(t@));
    assert(strs(re@) =~= seq![s@, t@]);
    let delta = delta_of(one(&t), one(&s), Vec::new(), re);
    assert(strs(delta.add_exclude@) =~= Seq::<Seq<char>>::empty());
    proof {
        assert forall|x: Seq<char>| delta.am().contains(x) implies delta.re().contains(x) by {
            lemma_push_contains(Seq::empty(), t@, x);
            assert(seq![t@] =~= Seq::<Seq<char>>::empty().push(t@));
            assert(delta.re()[1] == t@);
        }
    }
    let write_at = actions.len() - 1;
    Ok(Plan { delta, actions, write_at })
}

/// `rm`: deletes the packages named by path or by specification and then
/// takes them out of both lists: the manifest is written after every
/// deletion. Unless `opt.force`, each path must hold a package
/// (`is_package`).
pub fn plan_rm(opt: &CargoMemberRm, cwd: &str, md: &WorkspaceMetadata, is_package: &Vec<bool>) -> (r:
    Result<Plan, MemberError>)
    ensures
        match all_targets(*md, cwd@, strs(opt.paths@), is_package@, opt.force, strs(opt.package@)) {
            Ok(ts) => r matches Ok(p) && is_deactivate_delta(&p.delta, ts) && p.delta.consistent()
                && p.actions@.len() == ts.len() && p.write_at == ts.len() && forall|i: int|
                0 <= i < ts.len() ==> removes(#[trigger] p.actions@[i], ts[i]),
            Err(e) => r matches Err(x) && x@ == e,
        },
{
    let ts = resolve_targets(md, cwd, &opt.paths, is_package, opt.force, &opt.package)?;
    let mut actions: Vec<DirAction> = Vec::new();
    let mut i: usize = 0;
    while i < ts.len()
        invariant
            i <= ts.len(),
            actions@.len() == i,
            forall|j: int|
                0 <= j < i ==> removes(#[trigger] actions@[j], ts@[j]@),
        decreases ts.len() - i,
    {
        actions.push(DirAction::RemoveTree { path: String::from_str(ts[i].as_str()) });
        i = i + 1;
    }
    let write_at = actions.len();
    Ok(Plan { delta: deactivate_delta(&ts), actions, write_at })
}

/// What an operation leaves: the lists it computed, the directory work in
/// the order it is to be done, where in that order the manifest is written,
/// and whether anything is to be done at all (not on a dry run).
#[derive(Debug)]
pub struct Outcome {
    pub lists: Membership,
    pub actions: Vec<DirAction>,
    /// The manifest is written after the first `write_at` actions and before
    /// the rest.
    pub write_at: usize,
    pub perform: bool,
}

/// The lists, the directory work, the place of the manifest write, and
/// whether to perform them, that committing a plan with delta `d`, actions
/// `acts` and write position `write_at` to the lists `members` and `exclude`
/// gives. A write position past the end means after every action.
pub open spec fn outcome_spec(
    members: Seq<Seq<char>>,
    exclude: Seq<Seq<char>>,
    d: &MembershipDelta,
    acts: Seq<DirAction>,
    write_at: nat,
    dry_run: bool,
) -> (Seq<Seq<char>>, Seq<Seq<char>>, Seq<DirAction>, nat, bool) {
    (
        next_members(members, d),
        next_exclude(members, exclude, d),
        acts,
        if write_at <= acts.len() {
            write_at
        } else {
            acts.len()
        },
        !dry_run,
    )
}

/// Applies the plan to the lists and keeps its work and write position. A
/// dry run reports the same lists and work, marked as not to be performed.
pub fn commit(m: Membership, plan: Plan, dry_run: bool) -> (r: Outcome)
    ensures
        (
            r.lists.members_view(),
            r.lists.exclude_view(),
            r.actions@,
            r.write_at as nat,
            r.perform,
        ) == outcome_spec(
            m.members_view(),
            m.exclude_view(),
            &plan.delta,
            plan.actions@,
            plan.write_at as nat,
            dry_run,
        ),
        r.lists.wf(),
{
    let mut lists = m;
    lists.apply(&plan.delta);
    let actions = plan.actions;
    let write_at = if plan.write_at <= actions.len() {
        plan.write_at
    } else {
        actions.len()
    };
    Outcome { lists, actions, write_at, perform: !dry_run }
}

/// A dry run changes no file and no directory, and reports the very lists and
/// directory work, in the same order, that the same operation run for real
/// would write and do.
pub proof fn lemma_dry_run_reports_same(
    members: Seq<Seq<char>>,
    exclude: Seq<Seq<char>>,
    d: &MembershipDelta,
    acts: Seq<DirAction>,
    write_at: nat,
)
    ensures
        outcome_spec(members, exclude, d, acts, write_at, true).0 == outcome_spec(
            members,
            exclude,
            d,
            acts,
            write_at,
            false,
        ).0,
        outcome_spec(members, exclude, d, acts, write_at, true).1 == outcome_spec(
            members,
            exclude,
            d,
            acts,
            write_at,
            false,
        ).1,
        outcome_spec(members, exclude, d, acts, write_at, true).2 == outcome_spec(
            members,
            exclude,
            d,
            acts,
            write_at,
            false,
        ).2,
        outcome_spec(members, exclude, d, acts, write_at, true).3 == outcome_spec(
            members,
            exclude,
            d,
            acts,
            write_at,
            false,
        ).3,
        !outcome_spec(members, exclude, d, acts, write_at, true).4,
{
}

} // verus!
