//! Ordered text sets and text-keyed maps, kept sorted in byte order with no
//! repeated key, so that iteration and canonical encoding are deterministic.
use crate::order::{compare_text, lemma_text_lt_irreflexive, lemma_text_lt_transitive, text_lt};
use vstd::prelude::*;

verus! {

/// Strictly increasing in byte order (hence free of repeats).
pub open spec fn sorted_texts(s: Seq<Seq<char>>) -> bool {
    forall|i: int, j: int| 0 <= i < j < s.len() ==> text_lt(#[trigger] s[i], #[trigger] s[j])
}

/// Two sorted text sequences with the same elements are the same sequence.
pub proof fn lemma_sorted_same_set_equal(a: Seq<Seq<char>>, b: Seq<Seq<char>>)
    requires
        sorted_texts(a),
        sorted_texts(b),
        a.to_set() == b.to_set(),
    ensures
        a == b,
    decreases a.len(),
{
    if a.len() == 0 {
        if b.len() > 0 {
            assert(b.to_set().contains(b[0]));
        }
        assert(a =~= b);
    } else {
        if b.len() == 0 {
            assert(a.to_set().contains(a[0]));
            assert(false);
        }
        assert(b.to_set().contains(a[0]));
        assert(a.to_set().contains(b[0]));
        let j = choose|j: int| 0 <= j < b.len() && b[j] == a[0];
        let i = choose|i: int| 0 <= i < a.len() && a[i] == b[0];
        if a[0] != b[0] {
            assert(j > 0 && i > 0);
            assert(text_lt(b[0], b[j]));
            assert(text_lt(a[0], a[i]));
            lemma_text_lt_transitive(a[0], b[0], a[0]);
            lemma_text_lt_irreflexive(a[0]);
        }
        let a1 = a.drop_first();
        let b1 = b.drop_first();
        assert forall|x: Seq<char>| a1.to_set().contains(x) implies b1.to_set().contains(x) by {
            let k = choose|k: int| 0 <= k < a1.len() && a1[k] == x;
            assert(a[k + 1] == x);
            assert(text_lt(a[0], a[k + 1]));
            assert(b.to_set().contains(x));
            let m = choose|m: int| 0 <= m < b.len() && b[m] == x;
            if m == 0 {
                lemma_text_lt_irreflexive(x);
            }
            assert(b1[m - 1] == x);
        }
        assert forall|x: Seq<char>| b1.to_set().contains(x) implies a1.to_set().contains(x) by {
            let k = choose|k: int| 0 <= k < b1.len() && b1[k] == x;
            assert(b[k + 1] == x);
            assert(text_lt(b[0], b[k + 1]));
            assert(a.to_set().contains(x));
            let m = choose|m: int| 0 <= m < a.len() && a[m] == x;
            if m == 0 {
                lemma_text_lt_irreflexive(x);
            }
            assert(a1[m - 1] == x);
        }
        assert(a1.to_set() =~= b1.to_set());
        lemma_sorted_same_set_equal(a1, b1);
        assert(a =~= b) by {
            assert forall|k: int| 0 <= k < a.len() implies a[k] == b[k] by {
                if k > 0 {
                    assert(a1[k - 1] == b1[k - 1]);
                }
            }
        }
    }
}

pub open spec fn texts_of(v: Seq<String>) -> Seq<Seq<char>> {
    v.map_values(|s: String| s@)
}

pub proof fn lemma_sorted_no_duplicates(s: Seq<Seq<char>>)
    requires
        sorted_texts(s),
    ensures
        s.no_duplicates(),
{
    assert forall|i: int, j: int| 0 <= i < s.len() && 0 <= j < s.len() && i != j implies s[i]
        != s[j] by {
        if i < j {
            lemma_text_lt_irreflexive(s[i]);
        } else {
            lemma_text_lt_irreflexive(s[j]);
        }
    }
}

/// Where `key` stands in the sorted `keys`: found at `idx`, or absent with
/// every key before `idx` smaller and every key from `idx` on larger.
pub open spec fn located(keys: Seq<Seq<char>>, key: Seq<char>, found: bool, idx: int) -> bool {
    &&& 0 <= idx <= keys.len()
    &&& found ==> idx < keys.len() && keys[idx] == key
    &&& !found ==> (forall|j: int| 0 <= j < idx ==> text_lt(#[trigger] keys[j], key)) && (forall|
        j: int,
    |
        idx <= j < keys.len() ==> text_lt(key, #[trigger] keys[j]))
    &&& found <==> keys.contains(key)
}

fn locate(items: &Vec<String>, key: &str) -> (r: (bool, usize))
    requires
        sorted_texts(texts_of(items@)),
    ensures
        located(texts_of(items@), key@, r.0, r.1 as int),
{
    let ghost keys = texts_of(items@);
    let n = items.len();
    let mut i: usize = 0;
    while i < n
        invariant
            keys == texts_of(items@),
            sorted_texts(keys),
            n == items@.len(),
            i <= n,
            forall|j: int| 0 <= j < i ==> text_lt(#[trigger] keys[j], key@),
        decreases n - i,
    {
        let c = compare_text(items[i].as_str(), key);
        if c == 0 {
            proof {
                assert(keys[i as int] == key@);
            }
            return (true, i);
        }
        if c > 0 {
            proof {
                assert(text_lt(key@, keys[i as int]));
                assert forall|j: int| i <= j < keys.len() implies text_lt(key@, #[trigger] keys[j]) by {
                    if j > i {
                        lemma_text_lt_transitive(key@, keys[i as int], keys[j]);
                    }
                }
                assert forall|j: int| 0 <= j < keys.len() implies keys[j] != key@ by {
                    if j < i {
                        lemma_text_lt_irreflexive(key@);
                    } else {
                        lemma_text_lt_irreflexive(key@);
                    }
                }
            }
            return (false, i);
        }
        i = i + 1;
    }
    proof {
        assert forall|j: int| 0 <= j < keys.len() implies keys[j] != key@ by {
            lemma_text_lt_irreflexive(key@);
        }
    }
    (false, n)
}

proof fn lemma_insert_sorted(keys: Seq<Seq<char>>, key: Seq<char>, idx: int)
    requires
        sorted_texts(keys),
        located(keys, key, false, idx),
    ensures
        sorted_texts(keys.insert(idx, key)),
{
    let r = keys.insert(idx, key);
    assert forall|i: int, j: int| 0 <= i < j < r.len() implies text_lt(#[trigger] r[i], #[trigger] r[j]) by {
        if j < idx {
        } else if j == idx {
            assert(r[i] == keys[i]);
        } else if i < idx {
            assert(r[j] == keys[j - 1]);
            lemma_text_lt_transitive(keys[i], key, keys[j - 1]);
        } else if i == idx {
            assert(r[j] == keys[j - 1]);
        } else {
            assert(r[i] == keys[i - 1]);
            assert(r[j] == keys[j - 1]);
        }
    }
}

/// A set of texts, iterated in byte order.
#[derive(Debug)]
pub struct TextSet {
    items: Vec<String>,
}

impl View for TextSet {
    type V = Seq<Seq<char>>;

    closed spec fn view(&self) -> Seq<Seq<char>> {
        texts_of(self.items@)
    }
}

impl TextSet {
    #[verifier::type_invariant]
    spec fn wf(self) -> bool {
        sorted_texts(texts_of(self.items@))
    }

    pub fn new() -> (r: Self)
        ensures
            r@ == Seq::<Seq<char>>::empty(),
    {
        TextSet { items: Vec::new() }
    }

    pub fn len(&self) -> (r: usize)
        ensures
            r == self@.len(),
            self@.no_duplicates(),
            r == self@.to_set().len(),
    {
        proof {
            use_type_invariant(self);
            lemma_sorted_no_duplicates(self@);
            self@.unique_seq_to_set();
        }
        self.items.len()
    }

    pub fn is_empty(&self) -> (r: bool)
        ensures
            r == (self@.len() == 0),
    {
        self.items.len() == 0
    }

    /// The element at position `i` in byte order.
    pub fn get(&self, i: usize) -> (r: &String)
        requires
            i < self@.len(),
        ensures
            r@ == self@[i as int],
    {
        &self.items[i]
    }

    pub fn contains(&self, key: &str) -> (r: bool)
        ensures
            r == self@.contains(key@),
    {
        proof {
            use_type_invariant(self);
        }
        let (found, _) = locate(&self.items, key);
        found
    }

    /// Removes every element.
    pub fn clear(&mut self)
        ensures
            final(self)@ == Seq::<Seq<char>>::empty(),
    {
        *self = TextSet::new();
    }

    /// Adds `key`; returns whether it was absent.
    pub fn insert(&mut self, key: String) -> (r: bool)
        ensures
            r == !old(self)@.contains(key@),
            final(self)@.to_set() == old(self)@.to_set().insert(key@),
            r ==> final(self)@.len() == old(self)@.len() + 1,
            !r ==> final(self)@ == old(self)@,
    {
        proof {
            use_type_invariant(&*self);
        }
        let (found, idx) = locate(&self.items, key.as_str());
        if found {
            return false;
        }
        let ghost key_view = key@;
        let mut items = Vec::new();
        std::mem::swap(&mut items, &mut self.items);
        proof {
            lemma_insert_sorted(texts_of(items@), key_view, idx as int);
        }
        items.insert(idx, key);
        proof {
            assert(texts_of(items@) =~= old(self)@.insert(idx as int, key_view));
            assert(texts_of(items@).to_set() =~= old(self)@.to_set().insert(key_view)) by {
                assert forall|x: Seq<char>| #[trigger] texts_of(items@).contains(x) <==> old(
                    self,
                )@.contains(x) || x == key_view by {
                    if texts_of(items@).contains(x) {
                        let k = choose|k: int| 0 <= k < texts_of(items@).len() && texts_of(items@)[k] == x;
                        if k < idx {
                            assert(old(self)@[k] == x);
                        } else if k > idx {
                            assert(old(self)@[k - 1] == x);
                        }
                    }
                    if old(self)@.contains(x) {
                        let k = choose|k: int| 0 <= k < old(self)@.len() && old(self)@[k] == x;
                        if k < idx {
                            assert(texts_of(items@)[k] == x);
                        } else {
                            assert(texts_of(items@)[k + 1] == x);
                        }
                    }
                    if x == key_view {
                        assert(texts_of(items@)[idx as int] == x);
                    }
                }
            }
        }
        self.items = items;
        true
    }

    /// Builds a set from the given texts.
    pub fn from_texts(texts: &[String]) -> (r: Self)
        ensures
            r@.to_set() == texts@.map_values(|s: String| s@).to_set(),
    {
        let mut set = TextSet::new();
        let n = texts.len();
        for i in 0..n
            invariant
                n == texts@.len(),
                set@.to_set() == texts@.subrange(0, i as int).map_values(|s: String| s@).to_set(),
        {
            let ghost before = set@;
            set.insert(texts[i].clone());
            proof {
                assert(texts@.subrange(0, i + 1).map_values(|s: String| s@) =~= texts@.subrange(
                    0,
                    i as int,
                ).map_values(|s: String| s@).push(texts@[i as int]@));
                texts@.subrange(0, i as int).map_values(|s: String| s@).lemma_push_to_set_commute(
                    texts@[i as int]@,
                );
            }
        }
        proof {
            assert(texts@.subrange(0, n as int) =~= texts@);
        }
        set
    }

    /// The elements as a vector, in byte order.
    pub fn to_vec(&self) -> (r: Vec<String>)
        ensures
            texts_of(r@) == self@,
    {
        let r = self.items.clone();
        proof {
            assert(texts_of(r@) =~= self@);
        }
        r
    }

    /// Whether every element of `self` is an element of `other`.
    pub fn is_subset(&self, other: &TextSet) -> (r: bool)
        ensures
            r == (self@.to_set() <= other@.to_set()),
    {
        let n = self.items.len();
        for i in 0..n
            invariant
                n == self@.len(),
                forall|j: int| 0 <= j < i ==> other@.contains(#[trigger] self@[j]),
        {
            if !other.contains(self.items[i].as_str()) {
                proof {
                    assert(self@.to_set().contains(self@[i as int]));
                }
                return false;
            }
        }
        proof {
            assert forall|x: Seq<char>| self@.to_set().contains(x) implies other@.to_set().contains(x) by {
                let k = choose|k: int| 0 <= k < self@.len() && self@[k] == x;
            }
        }
        true
    }

    /// The union of two sets.
    pub fn union(&self, other: &TextSet) -> (r: TextSet)
        ensures
            r@.to_set() == self@.to_set() + other@.to_set(),
            sorted_texts(r@),
    {
        let mut r = self.copy_set();
        let n = other.items.len();
        for i in 0..n
            invariant
                n == other@.len(),
                r@.to_set() == self@.to_set() + other@.subrange(0, i as int).to_set(),
        {
            r.insert(other.items[i].clone());
            proof {
                assert(other@.subrange(0, i + 1) =~= other@.subrange(0, i as int).push(other@[i as int]));
                other@.subrange(0, i as int).lemma_push_to_set_commute(other@[i as int]);
                assert(r@.to_set() =~= self@.to_set() + other@.subrange(0, i + 1).to_set());
            }
        }
        proof {
            assert(other@.subrange(0, n as int) =~= other@);
            use_type_invariant(&r);
        }
        r
    }

    /// The intersection of two sets.
    pub fn intersection(&self, other: &TextSet) -> (r: TextSet)
        ensures
            r@.to_set() == self@.to_set().intersect(other@.to_set()),
            sorted_texts(r@),
    {
        let mut r = TextSet::new();
        let n = self.items.len();
        for i in 0..n
            invariant
                n == self@.len(),
                r@.to_set() == self@.subrange(0, i as int).to_set().intersect(other@.to_set()),
        {
            proof {
                assert(self@.subrange(0, i + 1) =~= self@.subrange(0, i as int).push(self@[i as int]));
                self@.subrange(0, i as int).lemma_push_to_set_commute(self@[i as int]);
            }
            if other.contains(self.items[i].as_str()) {
                r.insert(self.items[i].clone());
                proof {
                    assert(r@.to_set() =~= self@.subrange(0, i + 1).to_set().intersect(other@.to_set()));
                }
            } else {
                proof {
                    assert(r@.to_set() =~= self@.subrange(0, i + 1).to_set().intersect(other@.to_set()));
                }
            }
        }
        proof {
            assert(self@.subrange(0, n as int) =~= self@);
            use_type_invariant(&r);
        }
        r
    }

    /// Whether the two sets share an element.
    pub fn intersects(&self, other: &TextSet) -> (r: bool)
        ensures
            r == exists|x: Seq<char>| self@.contains(x) && other@.contains(x),
    {
        let n = self.items.len();
        for i in 0..n
            invariant
                n == self@.len(),
                forall|j: int| 0 <= j < i ==> !other@.contains(#[trigger] self@[j]),
        {
            if other.contains(self.items[i].as_str()) {
                proof {
                    assert(self@[i as int] == self.items@[i as int]@);
                    assert(self@.contains(self@[i as int]));
                }
                return true;
            }
        }
        proof {
            assert forall|x: Seq<char>| self@.contains(x) implies !other@.contains(x) by {
                let k = choose|k: int| 0 <= k < self@.len() && self@[k] == x;
            }
        }
        false
    }

    /// An identical copy.
    pub fn copy_set(&self) -> (r: TextSet)
        ensures
            r@ == self@,
    {
        proof {
            use_type_invariant(self);
        }
        let items = self.items.clone();
        proof {
            assert(texts_of(items@) =~= self@);
        }
        TextSet { items }
    }

    /// Whether the two sets hold the same elements.
    pub fn same_as(&self, other: &TextSet) -> (r: bool)
        ensures
            r == (self@ == other@),
    {
        let n = self.items.len();
        if n != other.items.len() {
            proof {
                assert(self@.len() != other@.len());
            }
            return false;
        }
        for i in 0..n
            invariant
                n == self@.len(),
                n == other@.len(),
                forall|j: int| 0 <= j < i ==> self@[j] == other@[j],
        {
            if !crate::order::text_eq(self.items[i].as_str(), other.items[i].as_str()) {
                proof {
                    assert(self@[i as int] != other@[i as int]);
                }
                return false;
            }
        }
        proof {
            assert(self@ =~= other@);
        }
        true
    }
}

impl Clone for TextSet {
    fn clone(&self) -> (r: Self)
        ensures
            r@ == self@,
    {
        self.copy_set()
    }
}

} // verus!

verus! {

pub open spec fn entry_keys<V>(e: Seq<(Seq<char>, V)>) -> Seq<Seq<char>> {
    e.map_values(|p: (Seq<char>, V)| p.0)
}

/// The map that a sequence of entries with distinct keys stands for.
pub open spec fn entries_map<V>(e: Seq<(Seq<char>, V)>) -> Map<Seq<char>, V> {
    Map::new(
        |k: Seq<char>| entry_keys(e).contains(k),
        |k: Seq<char>| e[entry_keys(e).index_of(k)].1,
    )
}

/// A map from texts to values, iterated in byte order of its keys.
#[derive(Debug)]
pub struct TextMap<V> {
    keys: Vec<String>,
    vals: Vec<V>,
}

impl<V> View for TextMap<V> {
    type V = Seq<(Seq<char>, V)>;

    closed spec fn view(&self) -> Seq<(Seq<char>, V)> {
        Seq::new(self.keys@.len(), |i: int| (self.keys@[i]@, self.vals@[i]))
    }
}

impl<V> TextMap<V> {
    #[verifier::type_invariant]
    spec fn wf(self) -> bool {
        &&& sorted_texts(texts_of(self.keys@))
        &&& self.keys@.len() == self.vals@.len()
    }

    proof fn lemma_keys(&self)
        requires
            self.wf(),
        ensures
            entry_keys(self@) == texts_of(self.keys@),
            sorted_texts(entry_keys(self@)),
            entry_keys(self@).no_duplicates(),
    {
        assert(entry_keys(self@) =~= texts_of(self.keys@));
        lemma_sorted_no_duplicates(texts_of(self.keys@));
    }

    pub fn new() -> (r: Self)
        ensures
            r@ == Seq::<(Seq<char>, V)>::empty(),
    {
        let r = TextMap { keys: Vec::new(), vals: Vec::new() };
        proof {
            assert(r@ =~= Seq::<(Seq<char>, V)>::empty());
        }
        r
    }

    pub fn len(&self) -> (r: usize)
        ensures
            r == self@.len(),
            entries_map(self@).dom().len() == self@.len(),
            entries_map(self@).dom().finite(),
    {
        proof {
            use_type_invariant(self);
            self.lemma_keys();
            let ks = entry_keys(self@);
            assert(entries_map(self@).dom() =~= ks.to_set());
            ks.unique_seq_to_set();
        }
        self.keys.len()
    }

    pub fn is_empty(&self) -> (r: bool)
        ensures
            r == (self@.len() == 0),
    {
        proof {
            use_type_invariant(self);
        }
        self.keys.len() == 0
    }

    /// The keys are strictly increasing in byte order.
    pub fn keys_sorted(&self) -> (r: bool)
        ensures
            r,
            sorted_texts(entry_keys(self@)),
            entry_keys(self@).no_duplicates(),
    {
        proof {
            use_type_invariant(self);
            self.lemma_keys();
        }
        true
    }

    /// The key of the entry at position `i`.
    pub fn key_at(&self, i: usize) -> (r: &String)
        requires
            i < self@.len(),
        ensures
            r@ == self@[i as int].0,
            entries_map(self@).contains_key(r@),
            entries_map(self@)[r@] == self@[i as int].1,
    {
        proof {
            use_type_invariant(self);
            self.lemma_keys();
            assert(entry_keys(self@)[i as int] == self@[i as int].0);
            assert(entry_keys(self@).index_of(self@[i as int].0) == i as int);
        }
        &self.keys[i]
    }

    /// The value of the entry at position `i`.
    pub fn value_at(&self, i: usize) -> (r: &V)
        requires
            i < self@.len(),
        ensures
            *r == self@[i as int].1,
    {
        proof {
            use_type_invariant(self);
        }
        &self.vals[i]
    }

    /// Position of `key` among the entries, if present.
    pub fn position(&self, key: &str) -> (r: Option<usize>)
        ensures
            match r {
                Some(i) => i < self@.len() && self@[i as int].0 == key@,
                None => !entry_keys(self@).contains(key@),
            },
            r is Some <==> entry_keys(self@).contains(key@),
            r matches Some(i) ==> entries_map(self@).contains_key(key@) && entries_map(self@)[key@]
                == self@[i as int].1,
    {
        proof {
            use_type_invariant(self);
            self.lemma_keys();
        }
        let (found, idx) = locate(&self.keys, key);
        if found {
            proof {
                assert(entry_keys(self@)[idx as int] == key@);
                assert(entry_keys(self@).index_of(key@) == idx as int);
            }
            Some(idx)
        } else {
            None
        }
    }

    pub fn contains_key(&self, key: &str) -> (r: bool)
        ensures
            r == entry_keys(self@).contains(key@),
    {
        self.position(key).is_some()
    }

    pub fn get(&self, key: &str) -> (r: Option<&V>)
        ensures
            r is Some <==> entries_map(self@).contains_key(key@),
            r matches Some(v) ==> *v == entries_map(self@)[key@],
    {
        proof {
            use_type_invariant(self);
            self.lemma_keys();
        }
        match self.position(key) {
            Some(i) => {
                proof {
                    assert(entry_keys(self@)[i as int] == key@);
                    assert(entry_keys(self@).index_of(key@) == i as int);
                }
                Some(&self.vals[i])
            },
            None => None,
        }
    }

    /// Replaces the value of the entry at position `i`.
    pub fn set_value_at(&mut self, i: usize, value: V)
        requires
            i < old(self)@.len(),
        ensures
            final(self)@ == old(self)@.update(i as int, (old(self)@[i as int].0, value)),
            entries_map(final(self)@) == entries_map(old(self)@).insert(old(self)@[i as int].0, value),
    {
        proof {
            use_type_invariant(&*self);
            self.lemma_keys();
        }
        let mut taken = TextMap::new();
        std::mem::swap(&mut taken, self);
        let TextMap { keys, mut vals } = taken;
        vals.set(i, value);
        *self = TextMap { keys, vals };
        proof {
            let e = old(self)@;
            let u = e.update(i as int, (e[i as int].0, value));
            assert(self@ =~= u);
            let k = e[i as int].0;
            assert(entry_keys(u) =~= entry_keys(e));
            assert(entry_keys(e)[i as int] == k);
            assert(entry_keys(e).index_of(k) == i as int);
            assert forall|x: Seq<char>| entry_keys(e).contains(x) && x != k implies entries_map(
                u,
            )[x] == entries_map(e)[x] by {
                assert(entry_keys(e).index_of(x) != i as int);
            }
            assert(entries_map(u) =~= entries_map(e).insert(k, value));
        }
    }

    /// Removes the entry of `key`, answering its value.
    pub fn remove(&mut self, key: &str) -> (r: Option<V>)
        ensures
            entries_map(final(self)@) == entries_map(old(self)@).remove(key@),
            r is Some <==> entries_map(old(self)@).contains_key(key@),
            r matches Some(v) ==> v == entries_map(old(self)@)[key@],
    {
        proof {
            use_type_invariant(&*self);
            self.lemma_keys();
        }
        let ghost e = self@;
        match self.position(key) {
            None => {
                proof {
                    assert(entries_map(e).remove(key@) =~= entries_map(e));
                }
                None
            },
            Some(i) => {
                let mut taken = TextMap::new();
                std::mem::swap(&mut taken, self);
                let TextMap { mut keys, mut vals } = taken;
                let ghost ok = texts_of(keys@);
                keys.remove(i);
                let v = vals.remove(i);
                proof {
                    assert(texts_of(keys@) =~= ok.remove(i as int));
                    assert forall|a: int, b: int|
                        0 <= a < b < texts_of(keys@).len() implies text_lt(
                        #[trigger] texts_of(keys@)[a],
                        #[trigger] texts_of(keys@)[b],
                    ) by {
                        let a2 = if a < i { a } else { a + 1 };
                        let b2 = if b < i { b } else { b + 1 };
                        assert(texts_of(keys@)[a] == ok[a2]);
                        assert(texts_of(keys@)[b] == ok[b2]);
                    }
                }
                *self = TextMap { keys, vals };
                proof {
                    self.lemma_keys();
                    let ek = entry_keys(self@);
                    let oek = entry_keys(e);
                    assert(ek =~= oek.remove(i as int));
                    assert(oek[i as int] == key@);
                    assert(oek.contains(key@));
                    assert(oek.no_duplicates());
                    assert(oek.index_of(key@) == i as int);
                    assert forall|x: Seq<char>| #[trigger] ek.contains(x) <==> (oek.contains(x) && x
                        != key@) by {
                        if ek.contains(x) {
                            let k = choose|k: int| 0 <= k < ek.len() && ek[k] == x;
                            if k < i {
                                assert(oek[k] == x);
                            } else {
                                assert(oek[k + 1] == x);
                            }
                        }
                        if oek.contains(x) && x != key@ {
                            let k = oek.index_of(x);
                            if k < i {
                                assert(ek[k] == x);
                            } else {
                                assert(k != i);
                                assert(ek[k - 1] == x);
                            }
                        }
                    }
                    let nm = entries_map(self@);
                    let om = entries_map(e).remove(key@);
                    assert forall|x: Seq<char>| nm.contains_key(x) implies nm[x] == om[x] by {
                        let k = ek.index_of(x);
                        let k2 = oek.index_of(x);
                        if k2 < i {
                            assert(ek[k2] == x);
                            assert(ek.index_of(x) == k2);
                        } else {
                            assert(k2 != i);
                            assert(ek[k2 - 1] == x);
                            assert(ek.index_of(x) == k2 - 1);
                        }
                    }
                    assert(nm =~= om);
                }
                Some(v)
            },
        }
    }

    /// Sets `key` to `value`, keeping the keys sorted.
    pub fn insert(&mut self, key: String, value: V)
        ensures
            entries_map(final(self)@) == entries_map(old(self)@).insert(key@, value),
            entry_keys(final(self)@).to_set() == entry_keys(old(self)@).to_set().insert(key@),
    {
        proof {
            use_type_invariant(&*self);
            self.lemma_keys();
        }
        let ghost old_entries = self@;
        let (found, idx) = locate(&self.keys, key.as_str());
        let mut taken = TextMap::new();
        std::mem::swap(&mut taken, self);
        let TextMap { mut keys, mut vals } = taken;
        let ghost kv = key@;
        if found {
            vals.set(idx, value);
        } else {
            proof {
                lemma_insert_sorted(texts_of(keys@), kv, idx as int);
            }
            keys.insert(idx, key);
            vals.insert(idx, value);
            proof {
                assert(texts_of(keys@) =~= texts_of(old(self).keys@).insert(idx as int, kv));
            }
        }
        *self = TextMap { keys, vals };
        proof {
            self.lemma_keys();
            let ek = entry_keys(self@);
            let ok = entry_keys(old_entries);
            if found {
                assert(ek =~= ok);
            } else {
                assert(ek =~= ok.insert(idx as int, kv));
            }
            assert(ek.to_set() =~= ok.to_set().insert(kv)) by {
                assert forall|x: Seq<char>| #[trigger] ek.contains(x) <==> ok.contains(x) || x == kv by {
                    if ek.contains(x) {
                        let k = choose|k: int| 0 <= k < ek.len() && ek[k] == x;
                        if !found && k > idx {
                            assert(ok[k - 1] == x);
                        } else if !found && k < idx {
                            assert(ok[k] == x);
                        } else if found {
                            assert(ok[k] == x);
                        }
                    }
                    if ok.contains(x) {
                        let k = choose|k: int| 0 <= k < ok.len() && ok[k] == x;
                        if found || k < idx {
                            assert(ek[k] == x);
                        } else {
                            assert(ek[k + 1] == x);
                        }
                    }
                    if x == kv {
                        assert(ek[idx as int] == x);
                    }
                }
            }
            let nm = entries_map(self@);
            let om = entries_map(old_entries).insert(kv, value);
            assert forall|x: Seq<char>| nm.contains_key(x) implies nm[x] == om[x] by {
                let k = ek.index_of(x);
                if x == kv {
                    assert(ek[idx as int] == kv);
                    assert(self@[idx as int].1 == value);
                } else if found {
                    assert(ok[k] == x);
                    assert(ok.index_of(x) == k);
                } else if k < idx {
                    assert(ok[k] == x);
                    assert(ok.index_of(x) == k);
                } else {
                    assert(k != idx);
                    assert(ok[k - 1] == x);
                    assert(ok.index_of(x) == k - 1);
                }
            }
            assert(nm =~= om);
        }
    }
}

} // verus!

verus! {

impl TextMap<u64> {
    /// An identical copy.
    pub fn copy_map(&self) -> (r: Self)
        ensures
            r@ == self@,
    {
        proof {
            use_type_invariant(self);
        }
        let keys = self.keys.clone();
        let vals = self.vals.clone();
        proof {
            assert(keys@ =~= self.keys@);
            assert(vals@ =~= self.vals@);
        }
        TextMap { keys, vals }
    }

    /// Whether the two maps hold the same entries.
    pub fn same_as(&self, other: &Self) -> (r: bool)
        ensures
            r == (self@ == other@),
    {
        proof {
            use_type_invariant(self);
            use_type_invariant(other);
        }
        let n = self.keys.len();
        if n != other.keys.len() {
            proof {
                assert(self@.len() != other@.len());
            }
            return false;
        }
        for i in 0..n
            invariant
                n == self@.len(),
                n == other@.len(),
                n == self.keys@.len(),
                n == self.vals@.len(),
                n == other.keys@.len(),
                n == other.vals@.len(),
                forall|j: int| 0 <= j < i ==> self@[j] == other@[j],
        {
            if !crate::order::text_eq(self.keys[i].as_str(), other.keys[i].as_str())
                || self.vals[i] != other.vals[i] {
                proof {
                    assert(self@[i as int] != other@[i as int]);
                }
                return false;
            }
        }
        proof {
            assert(self@ =~= other@);
        }
        true
    }
}

impl TextMap<String> {
    /// An identical copy.
    pub fn copy_map(&self) -> (r: Self)
        ensures
            r@ == self@,
    {
        proof {
            use_type_invariant(self);
        }
        let keys = self.keys.clone();
        let vals = self.vals.clone();
        proof {
            assert(keys@ =~= self.keys@);
            assert(vals@ =~= self.vals@);
        }
        TextMap { keys, vals }
    }
}

impl TextMap<crate::json::JsonValue> {
    /// A copy whose values have the same models.
    pub fn copy_map(&self) -> (r: Self)
        ensures
            crate::json::model_entries(r@) == crate::json::model_entries(self@),
            entry_keys(r@) == entry_keys(self@),
    {
        proof {
            use_type_invariant(self);
        }
        let keys = self.keys.clone();
        let mut vals: Vec<crate::json::JsonValue> = Vec::new();
        let n = self.vals.len();
        for i in 0..n
            invariant
                n == self.vals@.len(),
                vals@.len() == i,
                forall|k: int| 0 <= k < i ==> (#[trigger] vals@[k])@ == self.vals@[k]@,
        {
            vals.push(crate::json::copy_value(&self.vals[i]));
        }
        proof {
            assert(keys@ =~= self.keys@);
        }
        let r = TextMap { keys, vals };
        proof {
            assert(crate::json::model_entries(r@) =~= crate::json::model_entries(self@));
            assert(entry_keys(r@) =~= entry_keys(self@));
        }
        r
    }
}

} // verus!

verus! {

impl<V: Clone> Clone for TextMap<V> {
    /// A copy with the same keys and values cloned one by one.
    fn clone(&self) -> (r: Self)
        ensures
            entry_keys(r@) == entry_keys(self@),
            r@.len() == self@.len(),
            forall|i: int| 0 <= i < self@.len() ==> cloned::<V>(self@[i].1, #[trigger] r@[i].1),
    {
        proof {
            use_type_invariant(self);
        }
        let keys = self.keys.clone();
        let vals = self.vals.clone();
        proof {
            assert(keys@ =~= self.keys@);
        }
        let r = TextMap { keys, vals };
        proof {
            assert(entry_keys(r@) =~= entry_keys(self@));
        }
        r
    }
}

} // verus!
