//! The `workspace.members` and `workspace.exclude` lists of a root manifest and
//! the changes made to them.
use vstd::prelude::*;

verus! {

/// The characters of each string of `v`.
pub open spec fn strs(v: Seq<String>) -> Seq<Seq<char>> {
    v.map_values(|s: String| s@)
}

/// `s` without the entries that `r` holds; the others keep their order.
pub open spec fn without_all(s: Seq<Seq<char>>, r: Seq<Seq<char>>) -> Seq<Seq<char>>
    decreases s.len(),
{
    if s.len() == 0 {
        s
    } else {
        let t = without_all(s.drop_last(), r);
        if r.contains(s.last()) {
            t
        } else {
            t.push(s.last())
        }
    }
}

/// `s` with each entry of `a` that it does not hold yet appended at the end,
/// in the order of `a`.
pub open spec fn with_all(s: Seq<Seq<char>>, a: Seq<Seq<char>>) -> Seq<Seq<char>>
    decreases a.len(),
{
    if a.len() == 0 {
        s
    } else {
        let t = with_all(s, a.drop_last());
        if t.contains(a.last()) {
            t
        } else {
            t.push(a.last())
        }
    }
}

/// No entry stands in both `a` and `b`.
pub open spec fn disjoint(a: Seq<Seq<char>>, b: Seq<Seq<char>>) -> bool {
    forall|x: Seq<char>| a.contains(x) ==> !b.contains(x)
}

/// Every entry of `a` stands in `b`.
pub open spec fn within(a: Seq<Seq<char>>, b: Seq<Seq<char>>) -> bool {
    forall|x: Seq<char>| a.contains(x) ==> b.contains(x)
}

pub proof fn lemma_push_contains(t: Seq<Seq<char>>, y: Seq<char>, x: Seq<char>)
    ensures
        t.push(y).contains(x) <==> (t.contains(x) || x == y),
{
    if t.contains(x) {
        let i = choose|i: int| 0 <= i < t.len() && t[i] == x;
        assert(t.push(y)[i] == x);
    }
    if x == y {
        assert(t.push(y)[t.len() as int] == x);
    }
    if t.push(y).contains(x) && x != y {
        let i = choose|i: int| 0 <= i < t.len() + 1 && t.push(y)[i] == x;
        assert(t[i] == x);
    }
}

pub proof fn lemma_without_all_contains(s: Seq<Seq<char>>, r: Seq<Seq<char>>, x: Seq<char>)
    ensures
        without_all(s, r).contains(x) <==> (s.contains(x) && !r.contains(x)),
    decreases s.len(),
{
    if s.len() > 0 {
        lemma_without_all_contains(s.drop_last(), r, x);
        assert(s =~= s.drop_last().push(s.last()));
        lemma_push_contains(s.drop_last(), s.last(), x);
        lemma_push_contains(without_all(s.drop_last(), r), s.last(), x);
    }
}

pub proof fn lemma_with_all_contains(s: Seq<Seq<char>>, a: Seq<Seq<char>>, x: Seq<char>)
    ensures
        with_all(s, a).contains(x) <==> (s.contains(x) || a.contains(x)),
    decreases a.len(),
{
    if a.len() > 0 {
        lemma_with_all_contains(s, a.drop_last(), x);
        assert(a =~= a.drop_last().push(a.last()));
        lemma_push_contains(a.drop_last(), a.last(), x);
        lemma_push_contains(with_all(s, a.drop_last()), a.last(), x);
    }
}

/// Removing entries that `s` does not hold changes nothing.
pub proof fn lemma_without_all_noop(s: Seq<Seq<char>>, r: Seq<Seq<char>>)
    requires
        disjoint(s, r),
    ensures
        without_all(s, r) == s,
    decreases s.len(),
{
    if s.len() > 0 {
        assert(s.contains(s.last()));
        assert forall|x: Seq<char>| s.drop_last().contains(x) implies !r.contains(x) by {
            let i = choose|i: int| 0 <= i < s.drop_last().len() && s.drop_last()[i] == x;
            assert(s[i] == x);
        }
        lemma_without_all_noop(s.drop_last(), r);
        assert(s =~= s.drop_last().push(s.last()));
    }
}

/// Adding entries that `s` holds already changes nothing.
pub proof fn lemma_with_all_noop(s: Seq<Seq<char>>, a: Seq<Seq<char>>)
    requires
        within(a, s),
    ensures
        with_all(s, a) == s,
    decreases a.len(),
{
    if a.len() > 0 {
        assert(a.contains(a.last()));
        assert forall|x: Seq<char>| a.drop_last().contains(x) implies s.contains(x) by {
            let i = choose|i: int| 0 <= i < a.drop_last().len() && a.drop_last()[i] == x;
            assert(a[i] == x);
        }
        lemma_with_all_noop(s, a.drop_last());
    }
}

/// Adding paths that are removed afterwards, or that `s` held already, and
/// then removing, is removing alone.
pub proof fn lemma_without_with(s: Seq<Seq<char>>, a: Seq<Seq<char>>, r: Seq<Seq<char>>)
    requires
        forall|x: Seq<char>| a.contains(x) ==> r.contains(x) || s.contains(x),
    ensures
        without_all(with_all(s, a), r) == without_all(s, r),
    decreases a.len(),
{
    if a.len() > 0 {
        assert(a.contains(a.last()));
        assert forall|x: Seq<char>| a.drop_last().contains(x) implies r.contains(x) || s.contains(
            x,
        ) by {
            let i = choose|i: int| 0 <= i < a.drop_last().len() && a.drop_last()[i] == x;
            assert(a[i] == x);
        }
        lemma_without_with(s, a.drop_last(), r);
        let t = with_all(s, a.drop_last());
        lemma_with_all_contains(s, a.drop_last(), a.last());
        if !t.contains(a.last()) {
            assert(t.push(a.last()).drop_last() =~= t);
        }
    }
}

/// The two path lists of a workspace's root manifest.
#[derive(Debug)]
pub struct Membership {
    pub members: Vec<String>,
    pub exclude: Vec<String>,
}

/// Paths to take out of and put into each list. Removals come first.
#[derive(Debug)]
pub struct MembershipDelta {
    pub add_members: Vec<String>,
    pub remove_members: Vec<String>,
    pub add_exclude: Vec<String>,
    pub remove_exclude: Vec<String>,
}

impl Membership {
    pub open spec fn members_view(&self) -> Seq<Seq<char>> {
        strs(self.members@)
    }

    pub open spec fn exclude_view(&self) -> Seq<Seq<char>> {
        strs(self.exclude@)
    }

    /// No path is both a member and excluded.
    pub open spec fn wf(&self) -> bool {
        disjoint(self.members_view(), self.exclude_view())
    }

    /// Changes the lists by `d`: removals delete every equal entry, additions
    /// append the paths not yet present. Members take precedence: no path
    /// that ends up a member stays excluded.
    pub fn apply(&mut self, d: &MembershipDelta)
        ensures
            final(self).members_view() == next_members(old(self).members_view(), d),
            final(self).exclude_view() == next_exclude(
                old(self).members_view(),
                old(self).exclude_view(),
                d,
            ),
            final(self).wf(),
    {
        let m = without_entries(&self.members, &d.remove_members);
        self.members = with_entries(m, &d.add_members);
        let e = without_entries(&self.exclude, &d.remove_exclude);
        let e = with_entries(e, &d.add_exclude);
        self.exclude = without_entries(&e, &self.members);
        proof {
            lemma_apply_keeps_disjoint(old(self).members_view(), old(self).exclude_view(), d);
        }
    }
}

impl MembershipDelta {
    pub open spec fn am(&self) -> Seq<Seq<char>> {
        strs(self.add_members@)
    }

    pub open spec fn rm(&self) -> Seq<Seq<char>> {
        strs(self.remove_members@)
    }

    pub open spec fn ae(&self) -> Seq<Seq<char>> {
        strs(self.add_exclude@)
    }

    pub open spec fn re(&self) -> Seq<Seq<char>> {
        strs(self.remove_exclude@)
    }

    /// A path put into one list is taken out of the other, and no path is put
    /// into both.
    pub open spec fn consistent(&self) -> bool {
        &&& within(self.am(), self.re())
        &&& within(self.ae(), self.rm())
        &&& disjoint(self.am(), self.ae())
    }

    /// Nothing is both put into and taken out of the same list.
    pub open spec fn settled(&self) -> bool {
        disjoint(self.am(), self.rm()) && disjoint(self.ae(), self.re())
    }
}

/// The members after `d`.
pub open spec fn next_members(members: Seq<Seq<char>>, d: &MembershipDelta) -> Seq<Seq<char>> {
    with_all(without_all(members, d.rm()), d.am())
}

/// The excluded paths after `d`, less those that are members after it.
pub open spec fn next_exclude(
    members: Seq<Seq<char>>,
    exclude: Seq<Seq<char>>,
    d: &MembershipDelta,
) -> Seq<Seq<char>> {
    without_all(with_all(without_all(exclude, d.re()), d.ae()), next_members(members, d))
}

/// The delta of including `p`: members gain `p`, exclude loses it.
pub open spec fn is_include_delta(d: &MembershipDelta, p: Seq<Seq<char>>) -> bool {
    d.am() == p && d.re() == p && d.rm().len() == 0 && d.ae().len() == 0
}

/// The delta of excluding `p`: members lose `p`, exclude gains it.
pub open spec fn is_exclude_delta(d: &MembershipDelta, p: Seq<Seq<char>>) -> bool {
    d.rm() == p && d.ae() == p && d.am().len() == 0 && d.re().len() == 0
}

/// The delta of deactivating `p`: both lists lose it.
pub open spec fn is_deactivate_delta(d: &MembershipDelta, p: Seq<Seq<char>>) -> bool {
    d.rm() == p && d.re() == p && d.am().len() == 0 && d.ae().len() == 0
}

/// Whatever the lists held before, no path is both a member and excluded
/// after a delta is applied.
pub proof fn lemma_apply_keeps_disjoint(
    members: Seq<Seq<char>>,
    exclude: Seq<Seq<char>>,
    d: &MembershipDelta,
)
    ensures
        disjoint(next_members(members, d), next_exclude(members, exclude, d)),
{
    let m1 = next_members(members, d);
    let x1 = with_all(without_all(exclude, d.re()), d.ae());
    assert forall|x: Seq<char>| m1.contains(x) implies !next_exclude(members, exclude, d).contains(
        x,
    ) by {
        lemma_without_all_contains(x1, m1, x);
    }
}

/// Applying a settled delta a second time changes nothing more.
pub proof fn lemma_apply_settled_twice(
    members: Seq<Seq<char>>,
    exclude: Seq<Seq<char>>,
    d: &MembershipDelta,
)
    requires
        d.settled(),
    ensures
        next_members(next_members(members, d), d) == next_members(members, d),
        next_exclude(next_members(members, d), next_exclude(members, exclude, d), d)
            == next_exclude(members, exclude, d),
{
    lemma_twice(members, d.rm(), d.am());
    let m1 = next_members(members, d);
    let x1 = with_all(without_all(exclude, d.re()), d.ae());
    let e1 = without_all(x1, m1);
    assert forall|x: Seq<char>| e1.contains(x) implies !d.re().contains(x) by {
        lemma_without_all_contains(x1, m1, x);
        lemma_with_all_contains(without_all(exclude, d.re()), d.ae(), x);
        lemma_without_all_contains(exclude, d.re(), x);
    }
    lemma_without_all_noop(e1, d.re());
    assert forall|x: Seq<char>| d.ae().contains(x) implies m1.contains(x) || e1.contains(x) by {
        lemma_with_all_contains(without_all(exclude, d.re()), d.ae(), x);
        lemma_without_all_contains(x1, m1, x);
    }
    lemma_without_with(e1, d.ae(), m1);
    assert forall|x: Seq<char>| e1.contains(x) implies !m1.contains(x) by {
        lemma_without_all_contains(x1, m1, x);
    }
    lemma_without_all_noop(e1, m1);
}

proof fn lemma_twice(s: Seq<Seq<char>>, r: Seq<Seq<char>>, a: Seq<Seq<char>>)
    requires
        disjoint(a, r),
    ensures
        with_all(without_all(with_all(without_all(s, r), a), r), a) == with_all(
            without_all(s, r),
            a,
        ),
{
    let once = with_all(without_all(s, r), a);
    assert forall|x: Seq<char>| once.contains(x) implies !r.contains(x) by {
        lemma_with_all_contains(without_all(s, r), a, x);
        lemma_without_all_contains(s, r, x);
    }
    lemma_without_all_noop(once, r);
    assert forall|x: Seq<char>| a.contains(x) implies once.contains(x) by {
        lemma_with_all_contains(without_all(s, r), a, x);
    }
    lemma_with_all_noop(once, a);
}

/// Idempotence: applying the same include delta twice gives the lists that
/// applying it once gives.
pub proof fn lemma_include_twice(
    members: Seq<Seq<char>>,
    exclude: Seq<Seq<char>>,
    d: &MembershipDelta,
    p: Seq<Seq<char>>,
)
    requires
        is_include_delta(d, p),
    ensures
        next_members(next_members(members, d), d) == next_members(members, d),
        next_exclude(next_members(members, d), next_exclude(members, exclude, d), d)
            == next_exclude(members, exclude, d),
{
    lemma_apply_settled_twice(members, exclude, d);
}

/// Round trip: on lists with no common path, including paths that neither
/// list holds and then deactivating the same paths gives back both lists as
/// they were.
pub proof fn lemma_include_then_deactivate(
    members: Seq<Seq<char>>,
    exclude: Seq<Seq<char>>,
    inc: &MembershipDelta,
    deact: &MembershipDelta,
    p: Seq<Seq<char>>,
)
    requires
        is_include_delta(inc, p),
        is_deactivate_delta(deact, p),
        disjoint(members, exclude),
        disjoint(members, p),
        disjoint(exclude, p),
    ensures
        next_members(next_members(members, inc), deact) == members,
        next_exclude(
            next_members(members, inc),
            next_exclude(members, exclude, inc),
            deact,
        ) == exclude,
{
    let m1 = next_members(members, inc);
    lemma_without_all_noop(members, inc.rm());
    lemma_without_all_noop(exclude, p);
    assert forall|x: Seq<char>| exclude.contains(x) implies !m1.contains(x) by {
        lemma_with_all_contains(members, p, x);
    }
    lemma_without_all_noop(exclude, m1);
    lemma_without_with(members, p, p);
    lemma_without_all_noop(members, p);
    lemma_without_all_noop(exclude, members);
}

fn contains_entry(v: &Vec<String>, p: &String) -> (r: bool)
    ensures
        r == strs(v@).contains(p@),
{
    let mut i: usize = 0;
    while i < v.len()
        invariant
            i <= v.len(),
            forall|j: int| 0 <= j < i ==> v@[j]@ != p@,
        decreases v.len() - i,
    {
        if v[i] == *p {
            assert(strs(v@)[i as int] == p@);
            return true;
        }
        i = i + 1;
    }
    assert(!strs(v@).contains(p@) ) by {
        if strs(v@).contains(p@) {
            let j = choose|j: int| 0 <= j < strs(v@).len() && strs(v@)[j] == p@;
            assert(v@[j]@ == p@);
        }
    }
    false
}

fn copy_entry(s: &String) -> (r: String)
    ensures
        r@ == s@,
{
    String::from_str(s.as_str())
}

/// The entries of `v` that `r` does not hold.
fn without_entries(v: &Vec<String>, r: &Vec<String>) -> (res: Vec<String>)
    ensures
        strs(res@) == without_all(strs(v@), strs(r@)),
{
    let mut res: Vec<String> = Vec::new();
    let mut i: usize = 0;
    while i < v.len()
        invariant
            i <= v.len(),
            strs(res@) == without_all(strs(v@.take(i as int)), strs(r@)),
        decreases v.len() - i,
    {
        assert(strs(v@.take(i + 1)).drop_last() =~= strs(v@.take(i as int)));
        assert(strs(v@.take(i + 1)).last() == v@[i as int]@);
        if !contains_entry(r, &v[i]) {
            let ghost before = res@;
            res.push(copy_entry(&v[i]));
            assert(strs(res@) =~= strs(before).push(v@[i as int]@));
        }
        i = i + 1;
    }
    assert(v@.take(v.len() as int) =~= v@);
    res
}

/// `v` with each entry of `a` that it does not hold yet appended.
fn with_entries(v: Vec<String>, a: &Vec<String>) -> (res: Vec<String>)
    ensures
        strs(res@) == with_all(strs(v@), strs(a@)),
{
    let mut res = v;
    let mut i: usize = 0;
    while i < a.len()
        invariant
            i <= a.len(),
            strs(res@) == with_all(strs(v@), strs(a@.take(i as int))),
        decreases a.len() - i,
    {
        assert(strs(a@.take(i + 1)).drop_last() =~= strs(a@.take(i as int)));
        assert(strs(a@.take(i + 1)).last() == a@[i as int]@);
        if !contains_entry(&res, &a[i]) {
            let ghost before = res@;
            res.push(copy_entry(&a[i]));
            assert(strs(res@) =~= strs(before).push(a@[i as int]@));
        }
        i = i + 1;
    }
    assert(a@.take(a.len() as int) =~= a@);
    res
}

} // verus!
