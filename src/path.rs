//! Paths as strings of characters, with `/` as the separator.
use vstd::prelude::*;

verus! {

/// `s` with every leading `/` removed.
pub open spec fn drop_seps(s: Seq<char>) -> Seq<char>
    decreases s.len(),
{
    if s.len() > 0 && s[0] == '/' {
        drop_seps(s.drop_first())
    } else {
        s
    }
}

/// `s` with every leading current-directory component (`.`) removed,
/// together with the separators that follow each of them.
pub open spec fn trimmed_dots(s: Seq<char>) -> Seq<char>
    decreases s.len(),
    via trimmed_dots_decreases
{
    if s.len() == 1 && s[0] == '.' {
        Seq::empty()
    } else if s.len() >= 2 && s[0] == '.' && s[1] == '/' {
        trimmed_dots(drop_seps(s.subrange(2, s.len() as int)))
    } else {
        s
    }
}

#[via_fn]
proof fn trimmed_dots_decreases(s: Seq<char>) {
    if s.len() >= 2 {
        lemma_drop_seps_len(s.subrange(2, s.len() as int));
    }
}

proof fn lemma_drop_seps_len(s: Seq<char>)
    ensures
        drop_seps(s).len() <= s.len(),
    decreases s.len(),
{
    if s.len() > 0 && s[0] == '/' {
        lemma_drop_seps_len(s.drop_first());
    }
}

/// Removes the leading `.` components of a path: `./a/b` becomes `a/b`,
/// `.` becomes the empty path, `.hidden` is left as it is.
pub fn trim_leading_dots(p: &str) -> (r: &str)
    ensures
        r@ == trimmed_dots(p@),
{
    let mut acc: &str = p;
    loop
        invariant
            trimmed_dots(acc@) == trimmed_dots(p@),
        decreases acc@.len(),
    {
        let n = acc.unicode_len();
        if n == 1 && acc.get_char(0) == '.' {
            let e: &str = acc.substring_char(0, 0);
            assert(e@ =~= Seq::<char>::empty());
            return e;
        }
        if n >= 2 && acc.get_char(0) == '.' && acc.get_char(1) == '/' {
            let mut i: usize = 2;
            while i < n && acc.get_char(i) == '/'
                invariant
                    2 <= i <= n,
                    n == acc@.len(),
                    drop_seps(acc@.subrange(i as int, n as int)) == drop_seps(
                        acc@.subrange(2, n as int),
                    ),
                decreases n - i,
            {
                assert(acc@.subrange(i as int, n as int).drop_first() =~= acc@.subrange(
                    i + 1,
                    n as int,
                ));
                i = i + 1;
            }
            let rest: &str = acc.substring_char(i, n);
            let ghost tail = acc@.subrange(i as int, n as int);
            assert(drop_seps(tail) == tail);
            proof {
                lemma_drop_seps_len(acc@.subrange(2, n as int));
            }
            acc = rest;
        } else {
            return acc;
        }
    }
}

/// `p` read from `cwd`: an absolute `p` stands as it is, an empty one is `cwd`
/// itself, any other is appended to `cwd` after one separator.
pub open spec fn joined(cwd: Seq<char>, p: Seq<char>) -> Seq<char> {
    if p.len() > 0 && p[0] == '/' {
        p
    } else if p.len() == 0 {
        cwd
    } else if cwd.len() > 0 && cwd.last() == '/' {
        cwd + p
    } else {
        cwd + seq!['/'] + p
    }
}

/// Joins `p` onto the directory `cwd` (see `joined`).
pub fn join(cwd: &str, p: &str) -> (r: String)
    ensures
        r@ == joined(cwd@, p@),
{
    let n = p.unicode_len();
    let c = cwd.unicode_len();
    if n > 0 && p.get_char(0) == '/' {
        p.to_string()
    } else if n == 0 {
        cwd.to_string()
    } else if c > 0 && cwd.get_char(c - 1) == '/' {
        let s = String::from_str(cwd);
        s.concat(p)
    } else {
        let s = String::from_str(cwd);
        let s = s.concat("/");
        proof {
            reveal_strlit("/");
        }
        s.concat(p)
    }
}

/// The directory that holds `s`: `s` up to its last separator, that separator
/// excluded unless it is the first character.
pub open spec fn parent_of(s: Seq<char>) -> Seq<char>
    decreases s.len(),
{
    if s.len() == 0 {
        s
    } else if s.last() == '/' {
        if s.len() == 1 {
            s
        } else {
            s.drop_last()
        }
    } else {
        parent_of(s.drop_last())
    }
}

/// The directory that holds the file at `p` (see `parent_of`).
pub fn parent(p: &str) -> (r: String)
    ensures
        r@ == parent_of(p@),
{
    let n = p.unicode_len();
    let mut i: usize = n;
    assert(p@.subrange(0, n as int) =~= p@);
    while i > 0 && p.get_char(i - 1) != '/'
        invariant
            i <= n,
            n == p@.len(),
            parent_of(p@.subrange(0, i as int)) == parent_of(p@),
        decreases i,
    {
        assert(p@.subrange(0, i as int).drop_last() =~= p@.subrange(0, i - 1));
        i = i - 1;
    }
    assert(p@.subrange(0, n as int) =~= p@);
    if i == 0 {
        let e = p.substring_char(0, 0);
        e.to_string()
    } else if i == 1 {
        assert(p@.subrange(0, 1).last() == '/');
        let e = p.substring_char(0, 1);
        e.to_string()
    } else {
        assert(p@.subrange(0, i as int).drop_last() =~= p@.subrange(0, i - 1));
        let e = p.substring_char(0, i - 1);
        e.to_string()
    }
}

/// Whether `s` begins with `prefix`.
pub open spec fn has_prefix(s: Seq<char>, prefix: Seq<char>) -> bool {
    prefix.len() <= s.len() && s.subrange(0, prefix.len() as int) == prefix
}

/// Decides `has_prefix` character by character.
pub fn starts_with(s: &str, prefix: &str) -> (r: bool)
    ensures
        r == has_prefix(s@, prefix@),
{
    let n = s.unicode_len();
    let m = prefix.unicode_len();
    if m > n {
        return false;
    }
    let mut i: usize = 0;
    while i < m
        invariant
            i <= m <= n,
            n == s@.len(),
            m == prefix@.len(),
            forall|j: int| 0 <= j < i ==> s@[j] == prefix@[j],
        decreases m - i,
    {
        if s.get_char(i) != prefix.get_char(i) {
            assert(s@.subrange(0, m as int)[i as int] != prefix@[i as int]);
            return false;
        }
        i = i + 1;
    }
    assert(s@.subrange(0, m as int) =~= prefix@);
    true
}

/// Whether `a` and `b` hold the same characters.
pub fn same_text(a: &str, b: &str) -> (r: bool)
    ensures
        r == (a@ == b@),
{
    let r = a.unicode_len() == b.unicode_len() && starts_with(a, b);
    proof {
        assert(a@.subrange(0, a@.len() as int) =~= a@);
    }
    r
}

/// `root` as a directory prefix: with one trailing separator.
pub open spec fn dir_prefix(root: Seq<char>) -> Seq<char> {
    if root.len() > 0 && root.last() == '/' {
        root
    } else {
        root + seq!['/']
    }
}

/// A list entry as it is written: not empty, not absolute, not `.` and not
/// beginning with `./`.
pub open spec fn clean_entry(s: Seq<char>) -> bool {
    &&& s.len() > 0
    &&& s[0] != '/'
    &&& s != seq!['.']
    &&& !has_prefix(s, seq!['.', '/'])
}

/// The path of `abs` relative to the directory `root`, where `abs` lies
/// strictly below `root`, without the separators and `.` components that
/// follow the root.
pub open spec fn relative_to(root: Seq<char>, abs: Seq<char>) -> Option<Seq<char>> {
    let d = dir_prefix(root);
    if abs.len() > d.len() && has_prefix(abs, d) {
        let rest = trimmed_dots(drop_seps(abs.subrange(d.len() as int, abs.len() as int)));
        if rest.len() > 0 {
            Some(rest)
        } else {
            None
        }
    } else {
        None
    }
}

proof fn lemma_drop_seps_head(s: Seq<char>)
    ensures
        drop_seps(s).len() == 0 || drop_seps(s)[0] != '/',
    decreases s.len(),
{
    if s.len() > 0 && s[0] == '/' {
        lemma_drop_seps_head(s.drop_first());
    }
}

proof fn lemma_trimmed_dots_clean(s: Seq<char>)
    requires
        s.len() == 0 || s[0] != '/',
    ensures
        trimmed_dots(s).len() == 0 || clean_entry(trimmed_dots(s)),
    decreases s.len(),
{
    if s.len() == 1 && s[0] == '.' {
    } else if s.len() >= 2 && s[0] == '.' && s[1] == '/' {
        let t = s.subrange(2, s.len() as int);
        lemma_drop_seps_head(t);
        lemma_drop_seps_len(t);
        lemma_trimmed_dots_clean(drop_seps(t));
    } else {
        if s.len() > 0 {
            assert(s != seq!['.']);
            if has_prefix(s, seq!['.', '/']) {
                assert(s.subrange(0, 2)[0] == s[0]);
                assert(s.subrange(0, 2)[1] == s[1]);
            }
        }
    }
}

/// Every path that `relative_to` gives is a clean list entry.
pub proof fn lemma_relative_to_clean(root: Seq<char>, abs: Seq<char>)
    ensures
        relative_to(root, abs) matches Some(v) ==> clean_entry(v),
{
    let d = dir_prefix(root);
    if abs.len() > d.len() && has_prefix(abs, d) {
        let t = abs.subrange(d.len() as int, abs.len() as int);
        lemma_drop_seps_head(t);
        lemma_trimmed_dots_clean(drop_seps(t));
    }
}

fn skip_seps(s: &str) -> (r: &str)
    ensures
        r@ == drop_seps(s@),
{
    let n = s.unicode_len();
    let mut i: usize = 0;
    assert(s@.subrange(0, n as int) =~= s@);
    while i < n && s.get_char(i) == '/'
        invariant
            i <= n,
            n == s@.len(),
            drop_seps(s@.subrange(i as int, n as int)) == drop_seps(s@),
        decreases n - i,
    {
        assert(s@.subrange(i as int, n as int).drop_first() =~= s@.subrange(i + 1, n as int));
        i = i + 1;
    }
    let r = s.substring_char(i, n);
    assert(drop_seps(r@) == r@);
    r
}

/// Computes `relative_to`; what it gives is a clean list entry.
pub fn relative(root: &str, abs: &str) -> (r: Option<String>)
    ensures
        r matches Some(v) ==> relative_to(root@, abs@) == Some(v@),
        r is None ==> relative_to(root@, abs@) is None,
        r matches Some(v) ==> clean_entry(v@),
{
    proof {
        lemma_relative_to_clean(root@, abs@);
    }
    let c = root.unicode_len();
    let d: String = if c > 0 && root.get_char(c - 1) == '/' {
        String::from_str(root)
    } else {
        proof {
            reveal_strlit("/");
        }
        String::from_str(root).concat("/")
    };
    assert(d@ == dir_prefix(root@));
    let dl = d.as_str().unicode_len();
    let n = abs.unicode_len();
    if n > dl && starts_with(abs, d.as_str()) {
        let rest = trim_leading_dots(skip_seps(abs.substring_char(dl, n)));
        if rest.unicode_len() > 0 {
            Some(String::from_str(rest))
        } else {
            None
        }
    } else {
        None
    }
}

} // verus!
