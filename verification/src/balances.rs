use vstd::prelude::*;

use crate::username::Username;

verus! {

/// The mathematical shape of a balance table: canonical names paired with
/// balances, in insertion order.
pub type BalModel = Seq<(Seq<char>, int)>;

pub open spec fn abs_int(x: int) -> int {
    if x < 0 {
        -x
    } else {
        x
    }
}

/// The model of an executable balance table.
pub open spec fn entries_view(s: Seq<(Username, i128)>) -> BalModel {
    s.map_values(|p: (Username, i128)| (p.0@, p.1 as int))
}

/// Index of the first entry carrying `name`, or -1 if there is none.
pub open spec fn find_name(s: BalModel, name: Seq<char>) -> int
    decreases s.len(),
{
    if s.len() == 0 {
        -1
    } else if s[0].0 == name {
        0
    } else {
        let r = find_name(s.drop_first(), name);
        if r < 0 {
            -1
        } else {
            r + 1
        }
    }
}

pub open spec fn has_name(s: BalModel, name: Seq<char>) -> bool {
    find_name(s, name) >= 0
}

/// The balance carried by `name`; members absent from the table stand at 0.
pub open spec fn bal_of(s: BalModel, name: Seq<char>) -> int {
    if has_name(s, name) {
        s[find_name(s, name)].1
    } else {
        0
    }
}

/// Adds `delta` to the balance of `name`, inserting the member at 0 first
/// when absent.
pub open spec fn bump_model(s: BalModel, name: Seq<char>, delta: int) -> BalModel {
    if has_name(s, name) {
        s.update(find_name(s, name), (name, s[find_name(s, name)].1 + delta))
    } else {
        s.push((name, delta))
    }
}

pub open spec fn unique_names(s: BalModel) -> bool {
    forall|i: int, j: int| 0 <= i < j < s.len() ==> s[i].0 != s[j].0
}

pub open spec fn sum_bal(s: BalModel) -> int
    decreases s.len(),
{
    if s.len() == 0 {
        0
    } else {
        sum_bal(s.drop_last()) + s.last().1
    }
}

pub open spec fn sum_abs(s: BalModel) -> int
    decreases s.len(),
{
    if s.len() == 0 {
        0
    } else {
        sum_abs(s.drop_last()) + abs_int(s.last().1)
    }
}

/// What `find_name` returns: either no entry carries the name, or the result
/// is the index of the first entry that does.
pub proof fn lemma_find_name_props(s: BalModel, name: Seq<char>)
    ensures
        find_name(s, name) >= -1,
        find_name(s, name) == -1 ==> forall|i: int| 0 <= i < s.len() ==> s[i].0 != name,
        find_name(s, name) >= 0 ==> {
            &&& 0 <= find_name(s, name) < s.len()
            &&& s[find_name(s, name)].0 == name
            &&& forall|j: int| 0 <= j < find_name(s, name) ==> s[j].0 != name
        },
    decreases s.len(),
{
    if s.len() == 0 {
    } else if s[0].0 == name {
    } else {
        let t = s.drop_first();
        lemma_find_name_props(t, name);
        assert forall|i: int| 1 <= i < s.len() implies s[i].0 == t[i - 1].0 by {}
    }
}

/// Two tables with the same names in the same places resolve every lookup to
/// the same index.
pub proof fn lemma_find_same_names(s: BalModel, t: BalModel, name: Seq<char>)
    requires
        s.len() == t.len(),
        forall|i: int| 0 <= i < s.len() ==> s[i].0 == t[i].0,
    ensures
        find_name(s, name) == find_name(t, name),
    decreases s.len(),
{
    if s.len() == 0 {
    } else {
        assert(s[0].0 == t[0].0);
        lemma_find_same_names(s.drop_first(), t.drop_first(), name);
    }
}

/// Appending an entry leaves every earlier lookup alone and resolves the new
/// name to the appended slot.
pub proof fn lemma_find_push(s: BalModel, p: (Seq<char>, int), q: Seq<char>)
    ensures
        find_name(s, q) >= 0 ==> find_name(s.push(p), q) == find_name(s, q),
        find_name(s, q) == -1 && p.0 == q ==> find_name(s.push(p), q) == s.len(),
        find_name(s, q) == -1 && p.0 != q ==> find_name(s.push(p), q) == -1,
    decreases s.len(),
{
    if s.len() == 0 {
        assert(s.push(p)[0] == p);
        assert(s.push(p).drop_first() =~= s);
    } else {
        let t = s.drop_first();
        lemma_find_name_props(t, q);
        lemma_find_name_props(t.push(p), q);
        lemma_find_push(t, p, q);
        assert(s.push(p)[0] == s[0]);
        assert(s.push(p).drop_first() =~= t.push(p));
        if s[0].0 != q && find_name(s, q) == -1 {
            assert(find_name(t, q) == -1);
            if p.0 != q {
                assert(find_name(t.push(p), q) == -1);
                assert(find_name(s.push(p), q) == -1);
            } else {
                assert(find_name(t.push(p), q) == t.len());
                assert(find_name(s.push(p), q) == s.len());
            }
        }
    }
}

/// Replacing the entry at `i` changes the two sums by the difference of the
/// replaced balance.
pub proof fn lemma_sum_update(s: BalModel, i: int, p: (Seq<char>, int))
    requires
        0 <= i < s.len(),
    ensures
        sum_bal(s.update(i, p)) == sum_bal(s) - s[i].1 + p.1,
        sum_abs(s.update(i, p)) == sum_abs(s) - abs_int(s[i].1) + abs_int(p.1),
    decreases s.len(),
{
    if i == s.len() - 1 {
        assert(s.update(i, p).drop_last() =~= s.drop_last());
        assert(s.update(i, p).last() == p);
    } else {
        assert(s.update(i, p).drop_last() =~= s.drop_last().update(i, p));
        lemma_sum_update(s.drop_last(), i, p);
        assert(s.update(i, p).last() == s.last());
    }
}

pub proof fn lemma_sum_push(s: BalModel, p: (Seq<char>, int))
    ensures
        sum_bal(s.push(p)) == sum_bal(s) + p.1,
        sum_abs(s.push(p)) == sum_abs(s) + abs_int(p.1),
{
    assert(s.push(p).drop_last() =~= s);
    assert(s.push(p).last() == p);
}

pub proof fn lemma_sum_abs_nonneg(s: BalModel)
    ensures
        sum_abs(s) >= 0,
    decreases s.len(),
{
    if s.len() > 0 {
        lemma_sum_abs_nonneg(s.drop_last());
    }
}

/// No single balance outweighs the sum of all magnitudes.
pub proof fn lemma_entry_bound(s: BalModel, i: int)
    requires
        0 <= i < s.len(),
    ensures
        abs_int(s[i].1) <= sum_abs(s),
    decreases s.len(),
{
    lemma_sum_abs_nonneg(s.drop_last());
    if i < s.len() - 1 {
        lemma_entry_bound(s.drop_last(), i);
    }
}

pub proof fn lemma_sum_bal_le_sum_abs(s: BalModel)
    ensures
        -sum_abs(s) <= sum_bal(s) <= sum_abs(s),
    decreases s.len(),
{
    if s.len() > 0 {
        lemma_sum_bal_le_sum_abs(s.drop_last());
    }
}

pub proof fn lemma_sum_take_step(s: BalModel, i: int)
    requires
        0 <= i < s.len(),
    ensures
        sum_bal(s.take(i + 1)) == sum_bal(s.take(i)) + s[i].1,
        sum_abs(s.take(i + 1)) == sum_abs(s.take(i)) + abs_int(s[i].1),
{
    assert(s.take(i + 1).drop_last() =~= s.take(i));
    assert(s.take(i + 1).last() == s[i]);
}

pub proof fn lemma_sum_abs_take_le(s: BalModel, i: int)
    requires
        0 <= i <= s.len(),
    ensures
        sum_abs(s.take(i)) <= sum_abs(s),
    decreases s.len() - i,
{
    if i == s.len() {
        assert(s.take(i) =~= s);
    } else {
        lemma_sum_take_step(s, i);
        lemma_sum_abs_take_le(s, i + 1);
    }
}

/// What a bump does to lookups: the bumped name gains `delta`, every other
/// name keeps its balance and its presence, and no name disappears.
pub proof fn lemma_bump_lookup(s: BalModel, name: Seq<char>, delta: int, other: Seq<char>)
    ensures
        has_name(bump_model(s, name, delta), name),
        bal_of(bump_model(s, name, delta), name) == bal_of(s, name) + delta,
        other != name ==> bal_of(bump_model(s, name, delta), other) == bal_of(s, other),
        other != name ==> has_name(bump_model(s, name, delta), other) == has_name(s, other),
{
    let b = bump_model(s, name, delta);
    lemma_find_name_props(s, name);
    lemma_find_name_props(s, other);
    if has_name(s, name) {
        let i = find_name(s, name);
        assert forall|k: int| 0 <= k < s.len() implies s[k].0 == b[k].0 by {}
        lemma_find_same_names(s, b, name);
        lemma_find_same_names(s, b, other);
    } else {
        lemma_find_push(s, (name, delta), name);
        lemma_find_push(s, (name, delta), other);
    }
}

/// A bump keeps names unique, moves the total by exactly `delta`, and grows
/// the total magnitude by at most the bump's magnitude.
pub proof fn lemma_bump_shape(s: BalModel, name: Seq<char>, delta: int)
    requires
        unique_names(s),
    ensures
        unique_names(bump_model(s, name, delta)),
        sum_bal(bump_model(s, name, delta)) == sum_bal(s) + delta,
        sum_abs(bump_model(s, name, delta)) <= sum_abs(s) + abs_int(delta),
        bump_model(s, name, delta).len() <= s.len() + 1,
{
    let b = bump_model(s, name, delta);
    lemma_find_name_props(s, name);
    if has_name(s, name) {
        let i = find_name(s, name);
        lemma_sum_update(s, i, (name, s[i].1 + delta));
        assert forall|k: int, l: int| 0 <= k < l < b.len() implies b[k].0 != b[l].0 by {
            assert(b[k].0 == s[k].0);
            assert(b[l].0 == s[l].0);
        }
    } else {
        lemma_sum_push(s, (name, delta));
        assert forall|k: int, l: int| 0 <= k < l < b.len() implies b[k].0 != b[l].0 by {
            if l == s.len() {
                assert(s[k].0 != name);
            }
        }
    }
}

/// No single member's balance outweighs the sum of all magnitudes, members
/// absent from the table included.
pub proof fn lemma_bal_of_bound(s: BalModel, name: Seq<char>)
    ensures
        abs_int(bal_of(s, name)) <= sum_abs(s),
{
    lemma_find_name_props(s, name);
    if has_name(s, name) {
        lemma_entry_bound(s, find_name(s, name));
    } else {
        lemma_sum_abs_nonneg(s);
    }
}

/// Finds the slot of `name` in a balance table.
pub fn find_entry(v: &Vec<(Username, i128)>, name: &Username) -> (r: Option<usize>)
    ensures
        match r {
            Some(i) => {
                &&& (i as int) < v@.len()
                &&& find_name(entries_view(v@), name@) == i as int
                &&& entries_view(v@)[i as int].0 == name@
            },
            None => find_name(entries_view(v@), name@) == -1,
        },
{
    let ghost m = entries_view(v@);
    let mut i: usize = 0;
    while i < v.len()
        invariant
            i <= v@.len(),
            m == entries_view(v@),
            forall|j: int| 0 <= j < i ==> m[j].0 != name@,
        decreases v@.len() - i,
    {
        if *v[i].0.as_string() == *name.as_string() {
            proof {
                assert(m[i as int].0 == name@);
                lemma_find_name_props(m, name@);
                assert(find_name(m, name@) == i as int);
            }
            return Some(i);
        }
        i += 1;
    }
    proof {
        lemma_find_name_props(m, name@);
    }
    None
}

/// Adds `delta` to the balance of `name`, inserting the member at 0 first
/// when absent.
pub fn bump(v: &mut Vec<(Username, i128)>, name: &Username, delta: i128)
    requires
        i128::MIN as int <= bal_of(entries_view(old(v)@), name@) + delta <= i128::MAX as int,
    ensures
        entries_view(final(v)@) == bump_model(entries_view(old(v)@), name@, delta as int),
{
    let ghost m = entries_view(v@);
    match find_entry(v, name) {
        Some(i) => {
            let nm = v[i].0.clone();
            let b = v[i].1;
            v[i] = (nm, b + delta);
            proof {
                assert(entries_view(v@) =~= bump_model(m, name@, delta as int));
            }
        },
        None => {
            v.push((name.clone(), delta));
            proof {
                assert(entries_view(v@) =~= bump_model(m, name@, delta as int));
            }
        },
    }
}

/// Sums every balance in the table.
pub fn sum_entries(v: &Vec<(Username, i128)>) -> (r: i128)
    requires
        sum_abs(entries_view(v@)) <= i128::MAX as int,
    ensures
        r as int == sum_bal(entries_view(v@)),
{
    let ghost m = entries_view(v@);
    let mut acc: i128 = 0;
    let mut i: usize = 0;
    proof {
        assert(m.take(0) =~= Seq::<(Seq<char>, int)>::empty());
    }
    while i < v.len()
        invariant
            i <= v@.len(),
            m == entries_view(v@),
            sum_abs(m) <= i128::MAX as int,
            acc as int == sum_bal(m.take(i as int)),
            -sum_abs(m.take(i as int)) <= acc as int <= sum_abs(m.take(i as int)),
        decreases v@.len() - i,
    {
        proof {
            lemma_sum_take_step(m, i as int);
            lemma_sum_abs_take_le(m, i as int + 1);
            lemma_sum_abs_nonneg(m.take(i as int));
        }
        acc = acc + v[i].1;
        i += 1;
    }
    proof {
        assert(m.take(v@.len() as int) =~= m);
    }
    acc
}

/// A deep copy of a balance table.
pub fn clone_entries(v: &Vec<(Username, i128)>) -> (r: Vec<(Username, i128)>)
    ensures
        r@ == v@,
{
    let mut r: Vec<(Username, i128)> = Vec::new();
    let mut i: usize = 0;
    while i < v.len()
        invariant
            i <= v@.len(),
            r@ =~= v@.take(i as int),
        decreases v@.len() - i,
    {
        r.push((v[i].0.clone(), v[i].1));
        i += 1;
    }
    proof {
        assert(v@.take(v@.len() as int) =~= v@);
    }
    r
}

} // verus!
