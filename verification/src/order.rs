//! The order of strings (`Ord` for `String` and `str`: lexicographic by
//! character, which is the byte order of UTF-8) and sorted lists of names.
use vstd::prelude::*;

verus! {

/// `a < b` for strings.
pub open spec fn seq_lt(a: Seq<char>, b: Seq<char>) -> bool
    decreases a.len(),
{
    if a.len() == 0 {
        b.len() > 0
    } else if b.len() == 0 {
        false
    } else if a[0] != b[0] {
        (a[0] as int) < (b[0] as int)
    } else {
        seq_lt(a.drop_first(), b.drop_first())
    }
}

/// No string is below itself.
pub proof fn lemma_lt_irreflexive(a: Seq<char>)
    ensures
        !seq_lt(a, a),
    decreases a.len(),
{
    if a.len() > 0 {
        lemma_lt_irreflexive(a.drop_first());
    }
}

/// The order is transitive.
pub proof fn lemma_lt_transitive(a: Seq<char>, b: Seq<char>, c: Seq<char>)
    requires
        seq_lt(a, b),
        seq_lt(b, c),
    ensures
        seq_lt(a, c),
    decreases a.len(),
{
    if a.len() > 0 && b.len() > 0 && c.len() > 0 && a[0] == b[0] && b[0] == c[0] {
        lemma_lt_transitive(a.drop_first(), b.drop_first(), c.drop_first());
    }
}

/// Of two different strings, one is below the other.
pub proof fn lemma_lt_total(a: Seq<char>, b: Seq<char>)
    ensures
        a == b || seq_lt(a, b) || seq_lt(b, a),
    decreases a.len(),
{
    if a.len() > 0 && b.len() > 0 {
        if a[0] == b[0] {
            lemma_lt_total(a.drop_first(), b.drop_first());
            if a.drop_first() == b.drop_first() {
                assert(a =~= seq![a[0]] + a.drop_first());
                assert(b =~= seq![b[0]] + b.drop_first());
            }
        } else {
            assert((a[0] as int) != (b[0] as int));
        }
    } else if a.len() == 0 && b.len() == 0 {
        assert(a =~= b);
    }
}

/// At most one of `a < b` and `b < a` holds.
pub proof fn lemma_lt_asymmetric(a: Seq<char>, b: Seq<char>)
    ensures
        !(seq_lt(a, b) && seq_lt(b, a)),
{
    if seq_lt(a, b) && seq_lt(b, a) {
        lemma_lt_transitive(a, b, a);
        lemma_lt_irreflexive(a);
    }
}

proof fn lemma_lt_skip(a: Seq<char>, b: Seq<char>, i: int)
    requires
        0 <= i < a.len(),
        i < b.len(),
        a[i] == b[i],
    ensures
        seq_lt(a.skip(i), b.skip(i)) == seq_lt(a.skip(i + 1), b.skip(i + 1)),
{
    assert(a.skip(i).drop_first() =~= a.skip(i + 1));
    assert(b.skip(i).drop_first() =~= b.skip(i + 1));
}

proof fn lemma_char_code(c: char)
    ensures
        (c as u32) as int == c as int,
{
}

/// Whether `a < b`.
pub fn chars_lt(a: &Vec<char>, b: &Vec<char>) -> (r: bool)
    ensures
        r == seq_lt(a@, b@),
{
    let mut i: usize = 0;
    assert(a@.skip(0) =~= a@);
    assert(b@.skip(0) =~= b@);
    while i < a.len() && i < b.len()
        invariant
            i <= a@.len(),
            i <= b@.len(),
            seq_lt(a@, b@) == seq_lt(a@.skip(i as int), b@.skip(i as int)),
        decreases a@.len() - i,
    {
        if a[i] != b[i] {
            let ac: char = a[i];
            let bc: char = b[i];
            let ca: u32 = ac as u32;
            let cb: u32 = bc as u32;
            proof {
                lemma_char_code(ac);
                lemma_char_code(bc);
            }
            assert(a@.skip(i as int)[0] == a@[i as int]);
            assert(b@.skip(i as int)[0] == b@[i as int]);
            return ca < cb;
        }
        proof {
            lemma_lt_skip(a@, b@, i as int);
        }
        i = i + 1;
    }
    assert(a@.skip(i as int).len() == a@.len() - i);
    assert(b@.skip(i as int).len() == b@.len() - i);
    i < b.len()
}

/// Each name is below the next one: the list is sorted and holds no name twice.
pub open spec fn strictly_sorted(s: Seq<Seq<char>>) -> bool {
    forall|i: int, j: int| 0 <= i < j < s.len() ==> seq_lt(#[trigger] s[i], #[trigger] s[j])
}

/// A strictly sorted list holds no name twice.
pub proof fn lemma_sorted_distinct(s: Seq<Seq<char>>, i: int, j: int)
    requires
        strictly_sorted(s),
        0 <= i < s.len(),
        0 <= j < s.len(),
        i != j,
    ensures
        s[i] != s[j],
{
    if i < j {
        assert(seq_lt(s[i], s[j]));
    } else {
        assert(seq_lt(s[j], s[i]));
    }
    lemma_lt_irreflexive(s[i]);
}

/// Two strictly sorted lists with the same names are the same list.
pub proof fn lemma_sorted_unique(a: Seq<Seq<char>>, b: Seq<Seq<char>>)
    requires
        strictly_sorted(a),
        strictly_sorted(b),
        a.to_set() == b.to_set(),
    ensures
        a == b,
    decreases a.len() + b.len(),
{
    if a.len() == 0 || b.len() == 0 {
        if a.len() > 0 {
            assert(a.to_set().contains(a[0]));
        }
        if b.len() > 0 {
            assert(b.to_set().contains(b[0]));
        }
        assert(a =~= b);
    } else {
        let x = a[0];
        let y = b[0];
        assert(a.to_set().contains(x));
        assert(b.to_set().contains(y));
        assert(b.to_set().contains(x));
        assert(a.to_set().contains(y));
        let jx = choose|j: int| 0 <= j < b.len() && b[j] == x;
        let jy = choose|j: int| 0 <= j < a.len() && a[j] == y;
        if jx > 0 {
            assert(seq_lt(b[0], b[jx]));
        }
        if jy > 0 {
            assert(seq_lt(a[0], a[jy]));
        }
        if x != y {
            lemma_lt_asymmetric(x, y);
            lemma_lt_irreflexive(x);
            assert(false);
        }
        let ar = a.drop_first();
        let br = b.drop_first();
        assert forall|z: Seq<char>| ar.to_set().contains(z) implies br.to_set().contains(z) by {
            let i = choose|i: int| 0 <= i < ar.len() && ar[i] == z;
            assert(a[i + 1] == z);
            assert(b.to_set().contains(z));
            let j = choose|j: int| 0 <= j < b.len() && b[j] == z;
            if j == 0 {
                assert(seq_lt(a[0], a[i + 1]));
                lemma_lt_irreflexive(z);
            }
            assert(br[j - 1] == z);
        }
        assert forall|z: Seq<char>| br.to_set().contains(z) implies ar.to_set().contains(z) by {
            let j = choose|j: int| 0 <= j < br.len() && br[j] == z;
            assert(b[j + 1] == z);
            assert(a.to_set().contains(z));
            let i = choose|i: int| 0 <= i < a.len() && a[i] == z;
            if i == 0 {
                assert(seq_lt(b[0], b[j + 1]));
                lemma_lt_irreflexive(z);
            }
            assert(ar[i - 1] == z);
        }
        assert(ar.to_set() =~= br.to_set());
        assert(strictly_sorted(ar)) by {
            assert forall|i: int, j: int| 0 <= i < j < ar.len() implies seq_lt(ar[i], ar[j]) by {
                assert(ar[i] == a[i + 1]);
                assert(ar[j] == a[j + 1]);
            }
        }
        assert(strictly_sorted(br)) by {
            assert forall|i: int, j: int| 0 <= i < j < br.len() implies seq_lt(br[i], br[j]) by {
                assert(br[i] == b[i + 1]);
                assert(br[j] == b[j + 1]);
            }
        }
        lemma_sorted_unique(ar, br);
        assert(a =~= seq![x] + ar);
        assert(b =~= seq![y] + br);
    }
}

pub open spec fn views_of(v: Seq<Vec<char>>) -> Seq<Seq<char>> {
    Seq::new(v.len(), |i: int| v[i]@)
}

/// Adds `name` to a strictly sorted list of names, where it is not there yet.
pub fn insert_name(names: &mut Vec<Vec<char>>, name: Vec<char>)
    requires
        strictly_sorted(views_of(old(names)@)),
    ensures
        strictly_sorted(views_of(final(names)@)),
        views_of(final(names)@).to_set() == views_of(old(names)@).to_set().insert(name@),
{
    let ghost before = views_of(names@);
    let mut k: usize = 0;
    while k < names.len()
        invariant
            k <= names@.len(),
            before == views_of(names@),
            strictly_sorted(before),
            forall|i: int| 0 <= i < k ==> seq_lt(#[trigger] before[i], name@),
        ensures
            k <= names@.len(),
            before == views_of(names@),
            forall|i: int| 0 <= i < k ==> seq_lt(#[trigger] before[i], name@),
            k < names@.len() ==> !seq_lt(before[k as int], name@),
        decreases names@.len() - k,
    {
        if !chars_lt(&names[k], &name) {
            break;
        }
        k = k + 1;
    }
    if k < names.len() && !chars_lt(&name, &names[k]) {
        proof {
            lemma_lt_total(before[k as int], name@);
        }
        assert(before[k as int] == name@);
        assert(views_of(names@).to_set() =~= before.to_set().insert(name@));
        return;
    }
    proof {
        if k < names@.len() {
            assert(!seq_lt(before[k as int], name@));
            lemma_lt_total(before[k as int], name@);
            assert(seq_lt(name@, before[k as int]));
        }
    }
    names.insert(k, name);
    let ghost after = views_of(names@);
    assert(after =~= before.insert(k as int, name@));
    assert forall|i: int, j: int| 0 <= i < j < after.len() implies seq_lt(
        #[trigger] after[i],
        #[trigger] after[j],
    ) by {
        if j < k {
        } else if j == k {
            assert(after[i] == before[i]);
        } else if i == k {
            assert(after[j] == before[j - 1]);
            if j - 1 > k {
                assert(seq_lt(before[k as int], before[j - 1]));
                lemma_lt_transitive(name@, before[k as int], before[j - 1]);
            }
        } else if i < k {
            assert(after[i] == before[i]);
            assert(after[j] == before[j - 1]);
        } else {
            assert(after[i] == before[i - 1]);
            assert(after[j] == before[j - 1]);
        }
    }
    assert(after.to_set() =~= before.to_set().insert(name@)) by {
        assert forall|z: Seq<char>| after.to_set().contains(z) implies before.to_set().insert(
            name@,
        ).contains(z) by {
            let i = choose|i: int| 0 <= i < after.len() && after[i] == z;
            if i < k {
                assert(before[i] == z);
            } else if i > k {
                assert(before[i - 1] == z);
            }
        }
        assert forall|z: Seq<char>| before.to_set().insert(name@).contains(z) implies after.to_set().contains(
            z,
        ) by {
            if z == name@ {
                assert(after[k as int] == z);
            } else {
                let i = choose|i: int| 0 <= i < before.len() && before[i] == z;
                if i < k {
                    assert(after[i] == z);
                } else {
                    assert(after[i + 1] == z);
                }
            }
        }
    }
}

} // verus!
