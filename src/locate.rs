//! Mapping paths and package ID specifications to workspace-relative package
//! directories.
use vstd::prelude::*;

use crate::membership::strs;
use crate::error::{ErrorKind, MemberError};
use crate::path::{join, joined, relative, relative_to, same_text, trim_leading_dots, trimmed_dots};

verus! {

/// One package of the workspace metadata.
#[derive(Debug)]
pub struct PackageInfo {
    pub id: String,
    pub name: String,
    pub version: String,
    /// Absolute path of the directory that holds the package's manifest.
    pub manifest_dir: String,
}

/// What the workspace metadata tells about a workspace.
#[derive(Debug)]
pub struct WorkspaceMetadata {
    pub workspace_root: String,
    pub packages: Vec<PackageInfo>,
    /// Absolute manifest directories of the workspace's members.
    pub member_dirs: Vec<String>,
}

/// A resolution failure as a pair of kind and subject.
pub type Failure = (ErrorKind, Seq<char>);

/// `s` selects package `p`: by its ID, its name, or its name and version.
pub open spec fn spec_matches(s: Seq<char>, p: PackageInfo) -> bool {
    s == p.id@ || s == p.name@ || s == p.name@ + seq![':'] + p.version@ || s == p.name@
        + seq!['@'] + p.version@
}

/// How many packages `s` selects.
pub open spec fn match_count(s: Seq<char>, pkgs: Seq<PackageInfo>) -> nat
    decreases pkgs.len(),
{
    if pkgs.len() == 0 {
        0
    } else {
        match_count(s, pkgs.drop_last()) + if spec_matches(s, pkgs.last()) {
            1nat
        } else {
            0nat
        }
    }
}

/// The index of the last package that `s` selects, or -1.
pub open spec fn last_match(s: Seq<char>, pkgs: Seq<PackageInfo>) -> int
    decreases pkgs.len(),
{
    if pkgs.len() == 0 {
        -1
    } else if spec_matches(s, pkgs.last()) {
        pkgs.len() - 1
    } else {
        last_match(s, pkgs.drop_last())
    }
}

/// The workspace-relative directory of the path `p` given from `cwd`.
pub open spec fn path_target(root: Seq<char>, cwd: Seq<char>, p: Seq<char>) -> Option<Seq<char>> {
    relative_to(root, joined(cwd, trimmed_dots(p)))
}

/// The workspace-relative directory of the one package that `s` selects.
pub open spec fn spec_target(md: WorkspaceMetadata, s: Seq<char>) -> Result<Seq<char>, Failure> {
    let c = match_count(s, md.packages@);
    if c == 0 {
        Err((ErrorKind::UnknownSpec, s))
    } else if c > 1 {
        Err((ErrorKind::AmbiguousSpec, s))
    } else {
        match relative_to(
            md.workspace_root@,
            md.packages@[last_match(s, md.packages@)].manifest_dir@,
        ) {
            Some(t) => Ok(t),
            None => Err((ErrorKind::OutsideWorkspace, s)),
        }
    }
}

/// Path `i` may be taken: it is known to be a package, or that is not asked.
pub open spec fn allowed(is_package: Seq<bool>, force: bool, i: int) -> bool {
    force || (0 <= i < is_package.len() && is_package[i])
}

/// The directories of `paths` in order, or the failure of the first path that
/// lies outside `root` or, unless `force`, is not a package.
pub open spec fn path_targets(
    root: Seq<char>,
    cwd: Seq<char>,
    paths: Seq<Seq<char>>,
    is_package: Seq<bool>,
    force: bool,
) -> Result<Seq<Seq<char>>, Failure>
    decreases paths.len(),
{
    if paths.len() == 0 {
        Ok(Seq::empty())
    } else {
        match path_targets(root, cwd, paths.drop_last(), is_package, force) {
            Err(e) => Err(e),
            Ok(ts) => match path_target(root, cwd, paths.last()) {
                None => Err((ErrorKind::OutsideWorkspace, paths.last())),
                Some(t) => if allowed(is_package, force, paths.len() - 1) {
                    Ok(ts.push(t))
                } else {
                    Err((ErrorKind::NotAPackage, paths.last()))
                },
            },
        }
    }
}

/// The directories of the packages that `specs` select, in order, or the
/// first failure.
pub open spec fn spec_targets(md: WorkspaceMetadata, specs: Seq<Seq<char>>) -> Result<
    Seq<Seq<char>>,
    Failure,
>
    decreases specs.len(),
{
    if specs.len() == 0 {
        Ok(Seq::empty())
    } else {
        match spec_targets(md, specs.drop_last()) {
            Err(e) => Err(e),
            Ok(ts) => match spec_target(md, specs.last()) {
                Err(e) => Err(e),
                Ok(t) => Ok(ts.push(t)),
            },
        }
    }
}

/// The targets of `paths` followed by those of `specs`.
pub open spec fn all_targets(
    md: WorkspaceMetadata,
    cwd: Seq<char>,
    paths: Seq<Seq<char>>,
    is_package: Seq<bool>,
    force: bool,
    specs: Seq<Seq<char>>,
) -> Result<Seq<Seq<char>>, Failure> {
    match path_targets(md.workspace_root@, cwd, paths, is_package, force) {
        Err(e) => Err(e),
        Ok(a) => match spec_targets(md, specs) {
            Err(e) => Err(e),
            Ok(b) => Ok(a + b),
        },
    }
}

/// The absolute path that `p`, given from `cwd`, stands for.
pub fn resolve_path(cwd: &str, p: &str) -> (r: String)
    ensures
        r@ == joined(cwd@, trimmed_dots(p@)),
{
    join(cwd, trim_leading_dots(p))
}

fn matches_spec(s: &str, p: &PackageInfo) -> (r: bool)
    ensures
        r == spec_matches(s@, *p),
{
    proof {
        reveal_strlit(":");
        reveal_strlit("@");
    }
    if same_text(s, p.id.as_str()) || same_text(s, p.name.as_str()) {
        return true;
    }
    let colon = String::from_str(p.name.as_str()).concat(":").concat(p.version.as_str());
    let at = String::from_str(p.name.as_str()).concat("@").concat(p.version.as_str());
    assert(colon@ =~= p.name@ + seq![':'] + p.version@);
    assert(at@ =~= p.name@ + seq!['@'] + p.version@);
    same_text(s, colon.as_str()) || same_text(s, at.as_str())
}

/// The index of the one package that `s` selects.
pub fn find_package(md: &WorkspaceMetadata, s: &str) -> (r: Result<usize, MemberError>)
    ensures
        match_count(s@, md.packages@) == 1 <==> r is Ok,
        r matches Ok(i) ==> i == last_match(s@, md.packages@) && i < md.packages@.len()
            && spec_matches(s@, md.packages@[i as int]),
        r matches Err(e) ==> e@ == (if match_count(s@, md.packages@) == 0 {
            ErrorKind::UnknownSpec
        } else {
            ErrorKind::AmbiguousSpec
        }, s@),
{
    let pkgs = &md.packages;
    let mut count: usize = 0;
    let mut found: usize = 0;
    let mut i: usize = 0;
    while i < pkgs.len()
        invariant
            i <= pkgs.len(),
            count == match_count(s@, pkgs@.take(i as int)),
            count <= i,
            count > 0 ==> found == last_match(s@, pkgs@.take(i as int)) && found < i
                && spec_matches(s@, pkgs@[found as int]),
            count == 0 ==> last_match(s@, pkgs@.take(i as int)) == -1,
        decreases pkgs.len() - i,
    {
        assert(pkgs@.take(i + 1).drop_last() =~= pkgs@.take(i as int));
        if matches_spec(s, &pkgs[i]) {
            count = count + 1;
            found = i;
        }
        i = i + 1;
    }
    assert(pkgs@.take(pkgs.len() as int) =~= pkgs@);
    if count == 1 {
        Ok(found)
    } else if count == 0 {
        Err(MemberError::about(ErrorKind::UnknownSpec, s))
    } else {
        Err(MemberError::about(ErrorKind::AmbiguousSpec, s))
    }
}

proof fn lemma_path_targets_err(
    root: Seq<char>,
    cwd: Seq<char>,
    paths: Seq<Seq<char>>,
    is_package: Seq<bool>,
    force: bool,
    k: int,
)
    requires
        0 <= k <= paths.len(),
        path_targets(root, cwd, paths.take(k), is_package, force) is Err,
    ensures
        path_targets(root, cwd, paths, is_package, force) == path_targets(
            root,
            cwd,
            paths.take(k),
            is_package,
            force,
        ),
    decreases paths.len() - k,
{
    if k == paths.len() {
        assert(paths.take(k) =~= paths);
    } else {
        assert(paths.drop_last().take(k) =~= paths.take(k));
        lemma_path_targets_err(root, cwd, paths.drop_last(), is_package, force, k);
    }
}

proof fn lemma_spec_targets_err(md: WorkspaceMetadata, specs: Seq<Seq<char>>, k: int)
    requires
        0 <= k <= specs.len(),
        spec_targets(md, specs.take(k)) is Err,
    ensures
        spec_targets(md, specs) == spec_targets(md, specs.take(k)),
    decreases specs.len() - k,
{
    if k == specs.len() {
        assert(specs.take(k) =~= specs);
    } else {
        assert(specs.drop_last().take(k) =~= specs.take(k));
        lemma_spec_targets_err(md, specs.drop_last(), k);
    }
}

/// Resolves each of `paths`, given from `cwd`, to a directory relative to
/// `root`; see `path_targets`.
pub fn resolve_paths(
    root: &str,
    cwd: &str,
    paths: &Vec<String>,
    is_package: &Vec<bool>,
    force: bool,
) -> (r: Result<Vec<String>, MemberError>)
    ensures
        match path_targets(root@, cwd@, strs(paths@), is_package@, force) {
            Ok(ts) => r matches Ok(v) && strs(v@) == ts,
            Err(e) => r matches Err(x) && x@ == e,
        },
{
    let ghost ps = strs(paths@);
    let mut acc: Vec<String> = Vec::new();
    let mut i: usize = 0;
    assert(strs(acc@) =~= Seq::<Seq<char>>::empty());
    assert(ps.take(0) =~= Seq::<Seq<char>>::empty());
    while i < paths.len()
        invariant
            i <= paths.len(),
            ps == strs(paths@),
            path_targets(root@, cwd@, ps.take(i as int), is_package@, force) == Ok::<
                Seq<Seq<char>>,
                Failure,
            >(strs(acc@)),
        decreases paths.len() - i,
    {
        assert(ps.take(i + 1).drop_last() =~= ps.take(i as int));
        assert(ps.take(i + 1).last() == paths@[i as int]@);
        let abs = resolve_path(cwd, paths[i].as_str());
        match relative(root, abs.as_str()) {
            None => {
                proof {
                    lemma_path_targets_err(root@, cwd@, ps, is_package@, force, i + 1);
                }
                return Err(MemberError::about(ErrorKind::OutsideWorkspace, paths[i].as_str()));
            },
            Some(t) => {
                if !(force || (i < is_package.len() && is_package[i])) {
                    proof {
                        lemma_path_targets_err(root@, cwd@, ps, is_package@, force, i + 1);
                    }
                    return Err(MemberError::about(ErrorKind::NotAPackage, paths[i].as_str()));
                }
                let ghost before = acc@;
                acc.push(t);
                assert(strs(acc@) =~= strs(before).push(t@));
            },
        }
        i = i + 1;
    }
    assert(ps.take(paths.len() as int) =~= ps);
    Ok(acc)
}

/// The workspace-relative directory of the one package that `s` selects.
pub fn resolve_spec(md: &WorkspaceMetadata, s: &str) -> (r: Result<String, MemberError>)
    ensures
        match spec_target(*md, s@) {
            Ok(t) => r matches Ok(v) && v@ == t,
            Err(e) => r matches Err(x) && x@ == e,
        },
{
    let i = find_package(md, s)?;
    match relative(md.workspace_root.as_str(), md.packages[i].manifest_dir.as_str()) {
        Some(t) => Ok(t),
        None => Err(MemberError::about(ErrorKind::OutsideWorkspace, s)),
    }
}

/// Resolves each of `specs`; see `spec_targets`.
pub fn resolve_specs(md: &WorkspaceMetadata, specs: &Vec<String>) -> (r: Result<
    Vec<String>,
    MemberError,
>)
    ensures
        match spec_targets(*md, strs(specs@)) {
            Ok(ts) => r matches Ok(v) && strs(v@) == ts,
            Err(e) => r matches Err(x) && x@ == e,
        },
{
    let ghost ss = strs(specs@);
    let mut acc: Vec<String> = Vec::new();
    let mut i: usize = 0;
    assert(strs(acc@) =~= Seq::<Seq<char>>::empty());
    assert(ss.take(0) =~= Seq::<Seq<char>>::empty());
    while i < specs.len()
        invariant
            i <= specs.len(),
            ss == strs(specs@),
            spec_targets(*md, ss.take(i as int)) == Ok::<Seq<Seq<char>>, Failure>(strs(acc@)),
        decreases specs.len() - i,
    {
        assert(ss.take(i + 1).drop_last() =~= ss.take(i as int));
        assert(ss.take(i + 1).last() == specs@[i as int]@);
        match resolve_spec(md, specs[i].as_str()) {
            Err(e) => {
                proof {
                    lemma_spec_targets_err(*md, ss, i + 1);
                }
                return Err(e);
            },
            Ok(t) => {
                let ghost before = acc@;
                acc.push(t);
                assert(strs(acc@) =~= strs(before).push(t@));
            },
        }
        i = i + 1;
    }
    assert(ss.take(specs.len() as int) =~= ss);
    Ok(acc)
}

/// The directories of `paths` and then of the packages that `specs` select;
/// see `all_targets`.
pub fn resolve_targets(
    md: &WorkspaceMetadata,
    cwd: &str,
    paths: &Vec<String>,
    is_package: &Vec<bool>,
    force: bool,
    specs: &Vec<String>,
) -> (r: Result<Vec<String>, MemberError>)
    ensures
        match all_targets(*md, cwd@, strs(paths@), is_package@, force, strs(specs@)) {
            Ok(ts) => r matches Ok(v) && strs(v@) == ts,
            Err(e) => r matches Err(x) && x@ == e,
        },
{
    let mut a = resolve_paths(md.workspace_root.as_str(), cwd, paths, is_package, force)?;
    let mut b = resolve_specs(md, specs)?;
    let ghost (av, bv) = (a@, b@);
    a.append(&mut b);
    assert(strs(a@) =~= strs(av) + strs(bv));
    Ok(a)
}

} // verus!
