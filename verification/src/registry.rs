//! Lists of records keyed by a string id: lookup, replacement and removal,
//! as the configuration keeps its servers and bastions.
use vstd::prelude::*;
use crate::text::str_eq;

verus! {

/// A record that carries a string id.
pub trait Keyed {
    spec fn key(&self) -> Seq<char>;

    fn key_str(&self) -> (r: &str)
        ensures
            r@ == self.key(),
    ;
}

/// The first record whose id is `id`, as `iter().find(|x| x.id == id)`
/// returns it.
pub open spec fn lookup<T: Keyed>(items: Seq<T>, id: Seq<char>) -> Option<T>
    decreases items.len(),
{
    if items.len() == 0 {
        None
    } else if items[0].key() == id {
        Some(items[0])
    } else {
        lookup(items.drop_first(), id)
    }
}

/// `items` with every record whose id is `id` removed, the others kept in
/// order, as `retain(|x| x.id != id)` leaves it.
pub open spec fn remove_key<T: Keyed>(items: Seq<T>, id: Seq<char>) -> Seq<T>
    decreases items.len(),
{
    if items.len() == 0 {
        seq![]
    } else if items[0].key() == id {
        remove_key(items.drop_first(), id)
    } else {
        seq![items[0]] + remove_key(items.drop_first(), id)
    }
}

/// `items` with the first record of the same id as `x` replaced by `x`, or
/// `x` appended when there is none.
pub open spec fn upsert<T: Keyed>(items: Seq<T>, x: T) -> Seq<T>
    decreases items.len(),
{
    if items.len() == 0 {
        seq![x]
    } else if items[0].key() == x.key() {
        seq![x] + items.drop_first()
    } else {
        seq![items[0]] + upsert(items.drop_first(), x)
    }
}

pub open spec fn has_key<T: Keyed>(items: Seq<T>, id: Seq<char>) -> bool {
    exists|i: int| 0 <= i < items.len() && (#[trigger] items[i]).key() == id
}

/// `i` is the first index whose record has id `id`.
pub open spec fn first_index<T: Keyed>(items: Seq<T>, id: Seq<char>, i: int) -> bool {
    0 <= i < items.len() && items[i].key() == id && forall|j: int|
        0 <= j < i ==> (#[trigger] items[j]).key() != id
}

pub proof fn lemma_lookup_first<T: Keyed>(items: Seq<T>, id: Seq<char>, i: int)
    requires
        first_index(items, id, i),
    ensures
        lookup(items, id) == Some(items[i]),
    decreases i,
{
    if i > 0 {
        let t = items.drop_first();
        assert(items[0].key() != id);
        assert forall|j: int| 0 <= j < i - 1 implies (#[trigger] t[j]).key() != id by {
            assert(t[j] == items[j + 1]);
        }
        lemma_lookup_first(t, id, i - 1);
    }
}

pub proof fn lemma_lookup_none<T: Keyed>(items: Seq<T>, id: Seq<char>)
    requires
        !has_key(items, id),
    ensures
        lookup(items, id) is None,
    decreases items.len(),
{
    if items.len() > 0 {
        let t = items.drop_first();
        assert(items[0].key() != id);
        assert(!has_key(t, id)) by {
            if has_key(t, id) {
                let j = choose|j: int| 0 <= j < t.len() && (#[trigger] t[j]).key() == id;
                assert(items[j + 1] == t[j]);
            }
        }
        lemma_lookup_none(t, id);
    }
}

/// `lookup` finds a record exactly when one has the id, and what it finds
/// has that id.
pub proof fn lemma_lookup_some<T: Keyed>(items: Seq<T>, id: Seq<char>)
    ensures
        lookup(items, id) is Some <==> has_key(items, id),
        lookup(items, id) matches Some(x) ==> x.key() == id && items.contains(x),
    decreases items.len(),
{
    if items.len() > 0 {
        let t = items.drop_first();
        lemma_lookup_some(t, id);
        if items[0].key() == id {
            assert(items[0] == items[0]);
            assert(items.contains(items[0]));
        } else {
            if has_key(items, id) {
                let j = choose|j: int| 0 <= j < items.len() && (#[trigger] items[j]).key() == id;
                assert(t[j - 1] == items[j]);
            }
            if has_key(t, id) {
                let j = choose|j: int| 0 <= j < t.len() && (#[trigger] t[j]).key() == id;
                assert(items[j + 1] == t[j]);
            }
            if lookup(t, id) is Some {
                let x = lookup(t, id)->0;
                let k = choose|k: int| 0 <= k < t.len() && t[k] == x;
                assert(items[k + 1] == x);
            }
        }
    }
}

pub proof fn lemma_upsert_at<T: Keyed>(items: Seq<T>, x: T, i: int)
    requires
        first_index(items, x.key(), i),
    ensures
        upsert(items, x) == items.update(i, x),
    decreases i,
{
    if i == 0 {
        assert(seq![x] + items.drop_first() =~= items.update(0, x));
    } else {
        let t = items.drop_first();
        assert forall|j: int| 0 <= j < i - 1 implies (#[trigger] t[j]).key() != x.key() by {
            assert(t[j] == items[j + 1]);
        }
        lemma_upsert_at(t, x, i - 1);
        assert(seq![items[0]] + t.update(i - 1, x) =~= items.update(i, x));
    }
}

pub proof fn lemma_upsert_none<T: Keyed>(items: Seq<T>, x: T)
    requires
        !has_key(items, x.key()),
    ensures
        upsert(items, x) == items.push(x),
    decreases items.len(),
{
    if items.len() == 0 {
        assert(seq![x] =~= items.push(x));
    } else {
        let t = items.drop_first();
        assert(items[0].key() != x.key());
        assert(!has_key(t, x.key())) by {
            if has_key(t, x.key()) {
                let j = choose|j: int| 0 <= j < t.len() && (#[trigger] t[j]).key() == x.key();
                assert(items[j + 1] == t[j]);
            }
        }
        lemma_upsert_none(t, x);
        assert(seq![items[0]] + t.push(x) =~= items.push(x));
    }
}

/// After `upsert`, looking up the record's id finds that record.
pub proof fn lemma_lookup_upsert<T: Keyed>(items: Seq<T>, x: T)
    ensures
        lookup(upsert(items, x), x.key()) == Some(x),
    decreases items.len(),
{
    if items.len() > 0 && items[0].key() != x.key() {
        lemma_lookup_upsert(items.drop_first(), x);
        let u = upsert(items, x);
        assert(u.drop_first() =~= upsert(items.drop_first(), x));
    } else if items.len() > 0 {
        let u = upsert(items, x);
        assert(u[0] == x);
    } else {
        assert(upsert(items, x)[0] == x);
    }
}

/// After `upsert`, the records of every other id are found as before.
pub proof fn lemma_lookup_upsert_other<T: Keyed>(items: Seq<T>, x: T, id: Seq<char>)
    requires
        id != x.key(),
    ensures
        lookup(upsert(items, x), id) == lookup(items, id),
    decreases items.len(),
{
    let u = upsert(items, x);
    if items.len() == 0 {
        assert(u[0] == x);
        assert(u.drop_first() =~= Seq::<T>::empty());
        assert(lookup(u.drop_first(), id) is None);
    } else if items[0].key() == x.key() {
        assert(u[0] == x);
        assert(u.drop_first() =~= items.drop_first());
    } else {
        lemma_lookup_upsert_other(items.drop_first(), x, id);
        assert(u[0] == items[0]);
        assert(u.drop_first() =~= upsert(items.drop_first(), x));
    }
}

/// After `remove_key`, no record of that id is left.
pub proof fn lemma_lookup_remove<T: Keyed>(items: Seq<T>, id: Seq<char>)
    ensures
        lookup(remove_key(items, id), id) is None,
        !has_key(remove_key(items, id), id),
    decreases items.len(),
{
    if items.len() > 0 {
        let t = items.drop_first();
        lemma_lookup_remove(t, id);
        let r = remove_key(items, id);
        if items[0].key() != id {
            assert(r.drop_first() =~= remove_key(t, id));
            assert(!has_key(r, id)) by {
                if has_key(r, id) {
                    let j = choose|j: int| 0 <= j < r.len() && (#[trigger] r[j]).key() == id;
                    if j > 0 {
                        assert(remove_key(t, id)[j - 1] == r[j]);
                    }
                }
            }
        }
        lemma_lookup_some(r, id);
    }
}

/// After `remove_key`, the records of every other id are found as before.
pub proof fn lemma_lookup_remove_other<T: Keyed>(items: Seq<T>, id: Seq<char>, other: Seq<char>)
    requires
        other != id,
    ensures
        lookup(remove_key(items, id), other) == lookup(items, other),
    decreases items.len(),
{
    if items.len() > 0 {
        let t = items.drop_first();
        lemma_lookup_remove_other(t, id, other);
        let r = remove_key(items, id);
        if items[0].key() != id {
            assert(r[0] == items[0]);
            assert(r.drop_first() =~= remove_key(t, id));
        }
    }
}

/// The index of the first record of id `id`.
pub fn find_index<T: Keyed>(items: &Vec<T>, id: &str) -> (r: Option<usize>)
    ensures
        match r {
            Some(i) => first_index(items@, id@, i as int),
            None => !has_key(items@, id@),
        },
{
    let mut i: usize = 0;
    while i < items.len()
        invariant
            i <= items@.len(),
            forall|j: int| 0 <= j < i ==> (#[trigger] items@[j]).key() != id@,
        decreases items.len() - i,
    {
        if str_eq(items[i].key_str(), id) {
            return Some(i);
        }
        i = i + 1;
    }
    None
}

/// Does some record have id `id`?
pub fn contains_key<T: Keyed>(items: &Vec<T>, id: &str) -> (b: bool)
    ensures
        b == has_key(items@, id@),
{
    match find_index(items, id) {
        Some(_) => true,
        None => false,
    }
}

/// Replaces the first record of the same id as `x`, or appends `x`.
pub fn upsert_vec<T: Keyed>(items: Vec<T>, x: T) -> (r: Vec<T>)
    ensures
        r@ == upsert(items@, x),
{
    let mut items = items;
    match find_index(&items, x.key_str()) {
        Some(i) => {
            proof {
                lemma_upsert_at(items@, x, i as int);
            }
            items.set(i, x);
        },
        None => {
            proof {
                lemma_upsert_none(items@, x);
            }
            items.push(x);
        },
    }
    items
}

/// Removes every record of id `id`, keeping the others in order.
pub fn remove_key_vec<T: Keyed>(items: Vec<T>, id: &str) -> (r: Vec<T>)
    ensures
        r@ == remove_key(items@, id@),
{
    let ghost all = items@;
    let mut rest = items;
    let mut kept: Vec<T> = Vec::new();
    while rest.len() > 0
        invariant
            kept@ + remove_key(rest@, id@) == remove_key(all, id@),
        decreases rest.len(),
    {
        let ghost r0 = rest@;
        let x = rest.remove(0);
        assert(r0.drop_first() =~= rest@);
        if !str_eq(x.key_str(), id) {
            let ghost k0 = kept@;
            kept.push(x);
            assert(kept@ + remove_key(rest@, id@) =~= k0 + (seq![x] + remove_key(rest@, id@)));
        }
    }
    assert(kept@ + remove_key(rest@, id@) =~= kept@);
    kept
}


/// Appending a record changes the lookup only of an id that had no record.
pub proof fn lemma_lookup_push<T: Keyed>(items: Seq<T>, x: T, id: Seq<char>)
    ensures
        lookup(items.push(x), id) == if lookup(items, id) is Some {
            lookup(items, id)
        } else if x.key() == id {
            Some(x)
        } else {
            None
        },
    decreases items.len(),
{
    let p = items.push(x);
    if items.len() == 0 {
        assert(p[0] == x);
        assert(p.drop_first() =~= Seq::<T>::empty());
        assert(lookup(p.drop_first(), id) is None);
    } else {
        assert(p[0] == items[0]);
        assert(p.drop_first() =~= items.drop_first().push(x));
        lemma_lookup_push(items.drop_first(), x, id);
    }
}

} // verus!
