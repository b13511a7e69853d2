//! Tables: text keys in ascending order, each with a value.

use vstd::prelude::*;

use crate::text::{chars_of, same, views};

verus! {

/// Whether `a` comes before `b` when texts are ordered by their characters.
pub open spec fn lt(a: Seq<char>, b: Seq<char>) -> bool
    decreases a.len(),
{
    if b.len() == 0 {
        false
    } else if a.len() == 0 {
        true
    } else if a[0] != b[0] {
        a[0] < b[0]
    } else {
        lt(a.skip(1), b.skip(1))
    }
}

/// Nothing comes before itself.
pub proof fn lt_irreflexive(a: Seq<char>)
    ensures
        !lt(a, a),
    decreases a.len(),
{
    if a.len() > 0 {
        lt_irreflexive(a.skip(1));
    }
}

/// What comes before something comes before all that follows it.
pub proof fn lt_transitive(a: Seq<char>, b: Seq<char>, c: Seq<char>)
    requires
        lt(a, b),
        lt(b, c),
    ensures
        lt(a, c),
    decreases a.len(),
{
    if a.len() > 0 && b.len() > 0 && c.len() > 0 && a[0] == b[0] && b[0] == c[0] {
        lt_transitive(a.skip(1), b.skip(1), c.skip(1));
    }
}

/// Of two different texts one comes before the other.
pub proof fn lt_total(a: Seq<char>, b: Seq<char>)
    ensures
        a == b || lt(a, b) || lt(b, a),
    decreases a.len(),
{
    if a.len() == 0 && b.len() == 0 {
        assert(a =~= b);
    } else if a.len() > 0 && b.len() > 0 && a[0] == b[0] {
        lt_total(a.skip(1), b.skip(1));
        if a.skip(1) == b.skip(1) {
            assert(a =~= seq![a[0]] + a.skip(1));
            assert(b =~= seq![b[0]] + b.skip(1));
        }
    }
}

/// Whether the keys stand in ascending order, and so each of them once.
pub open spec fn ascending<T>(s: Seq<(Seq<char>, T)>) -> bool {
    forall|i: int, j: int| 0 <= i < j < s.len() ==> lt(#[trigger] s[i].0, #[trigger] s[j].0)
}

/// The position of the first entry from `i` on that has the key `k`.
pub open spec fn key_from<T>(s: Seq<(Seq<char>, T)>, k: Seq<char>, i: int) -> Option<int>
    decreases s.len() - i,
{
    if i >= s.len() {
        None
    } else if s[i].0 == k {
        Some(i)
    } else {
        key_from(s, k, i + 1)
    }
}

/// The value under the key `k`.
pub open spec fn lookup<T>(s: Seq<(Seq<char>, T)>, k: Seq<char>) -> Option<T> {
    match key_from(s, k, 0) {
        Some(i) => Some(s[i].1),
        None => None,
    }
}

/// The position of the first entry from `i` on whose key does not come before `k`.
pub open spec fn place_from<T>(s: Seq<(Seq<char>, T)>, k: Seq<char>, i: int) -> int
    decreases s.len() - i,
{
    if i < s.len() && lt(s[i].0, k) {
        place_from(s, k, i + 1)
    } else {
        i
    }
}

/// The table with `v` under the key `k`: in the place of what was there before,
/// or between the keys before and behind it.
pub open spec fn put<T>(s: Seq<(Seq<char>, T)>, k: Seq<char>, v: T) -> Seq<(Seq<char>, T)> {
    let i = place_from(s, k, 0);
    if i < s.len() && s[i].0 == k {
        s.update(i, (k, v))
    } else {
        s.insert(i, (k, v))
    }
}

/// The table without the key `k`.
pub open spec fn without<T>(s: Seq<(Seq<char>, T)>, k: Seq<char>) -> Seq<(Seq<char>, T)> {
    match key_from(s, k, 0) {
        Some(i) => s.remove(i),
        None => s,
    }
}

/// The keys of a table, in its order.
pub open spec fn keys<T>(s: Seq<(Seq<char>, T)>) -> Seq<Seq<char>> {
    s.map_values(|e: (Seq<char>, T)| e.0)
}

/// `key_from` finds the first entry with the key, or there is none.
pub proof fn key_is_first<T>(s: Seq<(Seq<char>, T)>, k: Seq<char>, from: int)
    requires
        0 <= from,
    ensures
        match key_from(s, k, from) {
            Some(i) => from <= i < s.len() && s[i].0 == k && (forall|j: int|
                from <= j < i ==> (#[trigger] s[j]).0 != k),
            None => forall|j: int| from <= j < s.len() ==> (#[trigger] s[j]).0 != k,
        },
    decreases s.len() - from,
{
    if from < s.len() && s[from].0 != k {
        key_is_first(s, k, from + 1);
    }
}

/// In a table in ascending order an entry is found under its key.
pub proof fn entry_is_found<T>(s: Seq<(Seq<char>, T)>, i: int)
    requires
        ascending(s),
        0 <= i < s.len(),
    ensures
        key_from(s, s[i].0, 0) == Some(i),
        lookup(s, s[i].0) == Some(s[i].1),
{
    key_is_first(s, s[i].0, 0);
    match key_from(s, s[i].0, 0) {
        Some(j) => {
            if j != i {
                lt_irreflexive(s[i].0);
            }
        },
        None => {},
    }
}

/// `place_from` separates the keys before `k` from the others.
pub proof fn place_is_first<T>(s: Seq<(Seq<char>, T)>, k: Seq<char>, from: int)
    requires
        0 <= from <= s.len(),
    ensures
        from <= place_from(s, k, from) <= s.len(),
        forall|j: int| from <= j < place_from(s, k, from) ==> lt((#[trigger] s[j]).0, k),
        place_from(s, k, from) < s.len() ==> !lt(s[place_from(s, k, from)].0, k),
    decreases s.len() - from,
{
    if from < s.len() && lt(s[from].0, k) {
        place_is_first(s, k, from + 1);
    }
}

/// Putting a value under a key keeps the order of the keys.
pub proof fn put_keeps_order<T>(s: Seq<(Seq<char>, T)>, k: Seq<char>, v: T)
    requires
        ascending(s),
    ensures
        ascending(put(s, k, v)),
{
    place_is_first(s, k, 0);
    let i = place_from(s, k, 0);
    let t = put(s, k, v);
    assert forall|a: int, b: int| 0 <= a < b < t.len() implies lt(
        #[trigger] t[a].0,
        #[trigger] t[b].0,
    ) by {
        if i < s.len() && s[i].0 == k {
            assert(t[a].0 == s[a].0);
            assert(t[b].0 == s[b].0);
        } else {
            if i < s.len() {
                lt_total(s[i].0, k);
            }
            if a < i && b < i {
                assert(t[a] == s[a] && t[b] == s[b]);
            } else if a < i && b == i {
                assert(t[a] == s[a]);
            } else if a < i {
                assert(t[a] == s[a] && t[b] == s[b - 1]);
            } else if a == i {
                assert(t[b] == s[b - 1]);
                if b - 1 > i {
                    lt_transitive(k, s[i].0, s[b - 1].0);
                }
            } else {
                assert(t[a] == s[a - 1] && t[b] == s[b - 1]);
            }
        }
    }
}

/// What was put under a key is found there, and all else stays as it was.
pub proof fn put_then_lookup<T>(s: Seq<(Seq<char>, T)>, k: Seq<char>, v: T, other: Seq<char>)
    requires
        ascending(s),
    ensures
        lookup(put(s, k, v), k) == Some(v),
        other != k ==> lookup(put(s, k, v), other) == lookup(s, other),
{
    put_keeps_order(s, k, v);
    place_is_first(s, k, 0);
    let i = place_from(s, k, 0);
    let t = put(s, k, v);
    assert(t[i] == (k, v));
    entry_is_found(t, i);
    if other != k {
        key_is_first(s, other, 0);
        key_is_first(t, other, 0);
        match key_from(s, other, 0) {
            Some(j) => {
                if i < s.len() && s[i].0 == k {
                    assert(t[j] == s[j]);
                    entry_is_found(t, j);
                } else {
                    let m = if j < i {
                        j
                    } else {
                        j + 1
                    };
                    assert(t[m] == s[j]);
                    entry_is_found(t, m);
                }
            },
            None => {
                match key_from(t, other, 0) {
                    Some(m) => {
                        if i < s.len() && s[i].0 == k {
                            assert(t[m].0 == s[m].0);
                        } else if m < i {
                            assert(t[m] == s[m]);
                        } else if m > i {
                            assert(t[m] == s[m - 1]);
                        }
                        assert(false);
                    },
                    None => {},
                }
            },
        }
    }
}

/// Of two values put under one key the later stays.
pub proof fn put_twice<T>(s: Seq<(Seq<char>, T)>, k: Seq<char>, v: T, w: T)
    requires
        ascending(s),
    ensures
        put(put(s, k, v), k, w) == put(s, k, w),
{
    place_is_first(s, k, 0);
    let i = place_from(s, k, 0);
    let t = put(s, k, v);
    place_is_first(t, k, 0);
    let j = place_from(t, k, 0);
    lt_irreflexive(k);
    assert(t[i] == (k, v));
    if j < i {
        assert(t[j] == s[j]);
        assert(lt(s[j].0, k));
        assert(false);
    }
    if j > i {
        assert(lt(t[i].0, k));
        assert(false);
    }
    assert(put(t, k, w) =~= put(s, k, w));
}

/// Removing a key keeps the order of the others.
pub proof fn without_keeps_order<T>(s: Seq<(Seq<char>, T)>, k: Seq<char>)
    requires
        ascending(s),
    ensures
        ascending(without(s, k)),
{
    key_is_first(s, k, 0);
    match key_from(s, k, 0) {
        Some(i) => {
            let t = s.remove(i);
            assert forall|a: int, b: int| 0 <= a < b < t.len() implies lt(
                #[trigger] t[a].0,
                #[trigger] t[b].0,
            ) by {
                let x = if a < i {
                    a
                } else {
                    a + 1
                };
                let y = if b < i {
                    b
                } else {
                    b + 1
                };
                assert(t[a] == s[x] && t[b] == s[y]);
            }
        },
        None => {},
    }
}

/// A removed key is not found any more, and all else stays as it was.
pub proof fn without_then_lookup<T>(s: Seq<(Seq<char>, T)>, k: Seq<char>, other: Seq<char>)
    requires
        ascending(s),
    ensures
        lookup(without(s, k), k) is None,
        other != k ==> lookup(without(s, k), other) == lookup(s, other),
{
    without_keeps_order(s, k);
    key_is_first(s, k, 0);
    let t = without(s, k);
    key_is_first(t, k, 0);
    key_is_first(s, other, 0);
    key_is_first(t, other, 0);
    match key_from(s, k, 0) {
        Some(i) => {
            match key_from(t, k, 0) {
                Some(m) => {
                    let x = if m < i {
                        m
                    } else {
                        m + 1
                    };
                    assert(t[m] == s[x]);
                    entry_is_found(s, x);
                    assert(false);
                },
                None => {},
            }
            if other != k {
                match key_from(s, other, 0) {
                    Some(j) => {
                        let m = if j < i {
                            j
                        } else {
                            j - 1
                        };
                        assert(t[m] == s[j]);
                        entry_is_found(t, m);
                    },
                    None => {
                        match key_from(t, other, 0) {
                            Some(m) => {
                                let x = if m < i {
                                    m
                                } else {
                                    m + 1
                                };
                                assert(t[m] == s[x]);
                                assert(false);
                            },
                            None => {},
                        }
                    },
                }
            }
        },
        None => {},
    }
}

/// The table with every value mapped by `f`.
pub open spec fn on_values<T, U>(s: Seq<(Seq<char>, T)>, f: spec_fn(T) -> U) -> Seq<
    (Seq<char>, U),
> {
    s.map_values(|e: (Seq<char>, T)| (e.0, f(e.1)))
}

proof fn place_on_values<T, U>(s: Seq<(Seq<char>, T)>, f: spec_fn(T) -> U, k: Seq<char>, i: int)
    requires
        0 <= i <= s.len(),
    ensures
        place_from(on_values(s, f), k, i) == place_from(s, k, i),
    decreases s.len() - i,
{
    if i < s.len() && lt(s[i].0, k) {
        place_on_values(s, f, k, i + 1);
    }
}

proof fn key_on_values<T, U>(s: Seq<(Seq<char>, T)>, f: spec_fn(T) -> U, k: Seq<char>, i: int)
    requires
        0 <= i <= s.len(),
    ensures
        key_from(on_values(s, f), k, i) == key_from(s, k, i),
    decreases s.len() - i,
{
    if i < s.len() && s[i].0 != k {
        key_on_values(s, f, k, i + 1);
    }
}

/// Mapping the values and putting or finding one of them commute.
pub proof fn on_values_commutes<T, U>(s: Seq<(Seq<char>, T)>, f: spec_fn(T) -> U, k: Seq<char>, v: T)
    ensures
        put(on_values(s, f), k, f(v)) == on_values(put(s, k, v), f),
        lookup(on_values(s, f), k) == match lookup(s, k) {
            Some(x) => Some(f(x)),
            None => None,
        },
        keys(on_values(s, f)) == keys(s),
        ascending(on_values(s, f)) == ascending(s),
        without(on_values(s, f), k) == on_values(without(s, k), f),
{
    place_is_first(s, k, 0);
    place_on_values(s, f, k, 0);
    key_is_first(s, k, 0);
    key_on_values(s, f, k, 0);
    assert(put(on_values(s, f), k, f(v)) =~= on_values(put(s, k, v), f));
    assert(keys(on_values(s, f)) =~= keys(s));
    assert(without(on_values(s, f), k) =~= on_values(without(s, k), f));
    let m = on_values(s, f);
    assert(forall|i: int| 0 <= i < s.len() ==> (#[trigger] m[i]).0 == s[i].0);
    if ascending(m) {
        assert forall|i: int, j: int| 0 <= i < j < s.len() implies lt(
            #[trigger] s[i].0,
            #[trigger] s[j].0,
        ) by {
            assert(lt(m[i].0, m[j].0));
        }
    }
}

/// Text keys in ascending order, each with a value.
#[derive(Debug, PartialEq)]
pub struct Table<T> {
    pub entries: Vec<(String, T)>,
}

impl<T> View for Table<T> {
    type V = Seq<(Seq<char>, T)>;

    open spec fn view(&self) -> Seq<(Seq<char>, T)> {
        self.entries@.map_values(|e: (String, T)| (e.0@, e.1))
    }
}

/// Whether `a` comes before `b` when texts are ordered by their characters.
pub fn comes_before(a: &str, b: &str) -> (r: bool)
    ensures
        r == lt(a@, b@),
{
    let x = chars_of(a);
    let y = chars_of(b);
    let mut i: usize = 0;
    assert(x@.skip(0) =~= x@);
    assert(y@.skip(0) =~= y@);
    while i < x.len() && i < y.len()
        invariant
            x@ == a@,
            y@ == b@,
            i <= x@.len(),
            i <= y@.len(),
            lt(x@, y@) == lt(x@.skip(i as int), y@.skip(i as int)),
        decreases x@.len() - i,
    {
        let c: char = x[i];
        let d: char = y[i];
        if c != d {
            assert(x@.skip(i as int)[0] == c && y@.skip(i as int)[0] == d);
            return c < d;
        }
        assert(x@.skip(i as int).skip(1) =~= x@.skip(i + 1));
        assert(y@.skip(i as int).skip(1) =~= y@.skip(i + 1));
        i += 1;
    }
    i < y.len()
}

impl<T> Table<T> {
    /// Whether the keys stand in ascending order, and so each of them once.
    pub open spec fn wf(&self) -> bool {
        ascending(self@)
    }

    /// A table without entries.
    pub fn new() -> (r: Self)
        ensures
            r@ == Seq::<(Seq<char>, T)>::empty(),
            r.wf(),
    {
        let r = Table { entries: Vec::new() };
        assert(r@ =~= Seq::<(Seq<char>, T)>::empty());
        r
    }

    /// How many entries there are.
    pub fn len(&self) -> (r: usize)
        ensures
            r == self@.len(),
    {
        self.entries.len()
    }

    /// The position of the entry with the given key.
    pub fn position(&self, key: &str) -> (r: Option<usize>)
        ensures
            match r {
                Some(i) => i < self@.len() && key_from(self@, key@, 0) == Some(i as int),
                None => key_from(self@, key@, 0) is None,
            },
    {
        let mut i: usize = 0;
        while i < self.entries.len()
            invariant
                i <= self.entries@.len(),
                key_from(self@, key@, 0) == key_from(self@, key@, i as int),
            decreases self.entries@.len() - i,
        {
            if same(self.entries[i].0.as_str(), key) {
                return Some(i);
            }
            i += 1;
        }
        None
    }

    /// The value under a key.
    pub fn get(&self, key: &str) -> (r: Option<&T>)
        ensures
            match r {
                Some(v) => lookup(self@, key@) == Some(*v),
                None => lookup(self@, key@) is None,
            },
    {
        match self.position(key) {
            Some(i) => Some(&self.entries[i].1),
            None => None,
        }
    }

    /// Whether there is a value under a key.
    pub fn contains_key(&self, key: &str) -> (r: bool)
        ensures
            r == (lookup(self@, key@) is Some),
    {
        self.position(key).is_some()
    }

    /// Puts a value under a key.
    pub fn insert(&mut self, key: String, value: T)
        requires
            old(self).wf(),
        ensures
            final(self).wf(),
            final(self)@ == put(old(self)@, key@, value),
    {
        let ghost before = self@;
        let ghost k = key@;
        let mut i: usize = 0;
        while i < self.entries.len() && comes_before(self.entries[i].0.as_str(), key.as_str())
            invariant
                self@ == before,
                i <= self.entries@.len(),
                key@ == k,
                place_from(before, k, 0) == place_from(before, k, i as int),
            decreases self.entries@.len() - i,
        {
            i += 1;
        }
        proof {
            put_keeps_order(before, k, value);
        }
        if i < self.entries.len() && same(self.entries[i].0.as_str(), key.as_str()) {
            self.entries.set(i, (key, value));
        } else {
            self.entries.insert(i, (key, value));
        }
        assert(self@ =~= put(before, k, value));
    }

    /// Takes the value under a key out of the table.
    pub fn remove(&mut self, key: &str) -> (r: Option<T>)
        requires
            old(self).wf(),
        ensures
            final(self).wf(),
            final(self)@ == without(old(self)@, key@),
            r == lookup(old(self)@, key@),
    {
        let ghost before = self@;
        proof {
            without_keeps_order(before, key@);
        }
        match self.position(key) {
            Some(i) => {
                let (_, value) = self.entries.remove(i);
                assert(self@ =~= without(before, key@));
                Some(value)
            },
            None => None,
        }
    }

    /// The keys in their order.
    pub fn keys(&self) -> (r: Vec<String>)
        ensures
            views(r@) == keys(self@),
    {
        let mut out: Vec<String> = Vec::new();
        let mut i: usize = 0;
        while i < self.entries.len()
            invariant
                i <= self.entries@.len(),
                views(out@) =~= keys(self@).take(i as int),
            decreases self.entries@.len() - i,
        {
            let ghost before = views(out@);
            out.push(self.entries[i].0.clone());
            assert(views(out@) =~= before.push(keys(self@)[i as int]));
            assert(keys(self@).take(i + 1) =~= keys(self@).take(i as int).push(keys(self@)[i as int]));
            i += 1;
        }
        assert(keys(self@).take(i as int) =~= keys(self@));
        out
    }
}

/// Names stand in the order of a dictionary: by the first character in which they
/// differ, and a name before those that go on behind it.
pub proof fn names_stand_as_in_a_dictionary(
    common: Seq<char>,
    a: char,
    b: char,
    x: Seq<char>,
    y: Seq<char>,
)
    requires
        a < b,
    ensures
        lt(common + seq![a] + x, common + seq![b] + y),
        !lt(common + seq![b] + y, common + seq![a] + x),
        lt(common, common + seq![a] + x),
        !lt(common + seq![a] + x, common),
    decreases common.len(),
{
    let low = common + seq![a] + x;
    let high = common + seq![b] + y;
    if common.len() > 0 {
        let rest = common.skip(1);
        names_stand_as_in_a_dictionary(rest, a, b, x, y);
        assert(low.skip(1) =~= rest + seq![a] + x);
        assert(high.skip(1) =~= rest + seq![b] + y);
        assert(low[0] == common[0] && high[0] == common[0]);
    } else {
        assert(low[0] == a && high[0] == b);
    }
}

/// What is under a name is found, and nothing under a name that does not occur.
pub proof fn a_name_finds_its_value<T>(s: Seq<(Seq<char>, T)>, k: Seq<char>)
    ensures
        lookup(s, k) matches Some(v) ==> exists|i: int| 0 <= i < s.len() && #[trigger] s[i] == (k, v),
        lookup(s, k) is None <==> (forall|i: int| 0 <= i < s.len() ==> (#[trigger] s[i]).0 != k),
        keys(s).len() == s.len(),
        keys(s).contains(k) <==> lookup(s, k) is Some,
{
    key_is_first(s, k, 0);
    match key_from(s, k, 0) {
        Some(i) => {
            assert(s[i] == (k, s[i].1));
            assert(keys(s)[i] == k);
        },
        None => {
            assert forall|i: int| 0 <= i < keys(s).len() implies keys(s)[i] != k by {
                assert(keys(s)[i] == s[i].0);
            }
        },
    }
}

/// A table has one entry more after a new name was put into it, and as many as before
/// after a name that it had; and one less after a name was taken out.
pub proof fn tables_hold_each_name_once<T>(s: Seq<(Seq<char>, T)>, k: Seq<char>, v: T)
    requires
        ascending(s),
    ensures
        lookup(s, k) is None ==> put(s, k, v).len() == s.len() + 1 && without(s, k) == s,
        lookup(s, k) is Some ==> put(s, k, v).len() == s.len() && without(s, k).len() == s.len() - 1,
{
    key_is_first(s, k, 0);
    place_is_first(s, k, 0);
    let at = place_from(s, k, 0);
    if let Some(i) = key_from(s, k, 0) {
        if i < at {
            lt_irreflexive(k);
        }
        if at < i {
            assert(lt(s[at].0, s[i].0));
        }
    }
}

/// A table is seen with all its entries in their order.
pub proof fn tables_are_seen_whole<T>(table: Table<T>, i: int)
    ensures
        table@.len() == table.entries@.len(),
        0 <= i < table@.len() ==> table@[i] == (table.entries@[i].0@, table.entries@[i].1),
{
}

} // verus!
