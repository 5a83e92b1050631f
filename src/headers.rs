//! Header mappings: name to value, names as written, the last value for a
//! name wins, names kept in the order in which they first came.

use vstd::prelude::*;
use crate::text::{chars_of, same_ignoring_ascii_case, same_text, same_text_ignoring_ascii_case};

verus! {

/// A header mapping as a sequence of (name, value) pairs.
pub type HeaderSeq = Seq<(Seq<char>, Seq<char>)>;

/// Index of the first pair of `h` named `k` at or after `i`, or `h.len()`.
pub open spec fn key_index(h: HeaderSeq, k: Seq<char>, i: int) -> int
    decreases h.len() - i,
{
    if 0 <= i < h.len() {
        if h[i].0 == k {
            i
        } else {
            key_index(h, k, i + 1)
        }
    } else {
        h.len() as int
    }
}

/// The value stored for `k`.
pub open spec fn lookup(h: HeaderSeq, k: Seq<char>) -> Option<Seq<char>> {
    let i = key_index(h, k, 0);
    if 0 <= i < h.len() {
        Some(h[i].1)
    } else {
        None
    }
}

/// Index of the first pair of `h` at or after `i` whose name equals `k`
/// ignoring ASCII case, or `h.len()`.
pub open spec fn key_index_ignoring_case(h: HeaderSeq, k: Seq<char>, i: int) -> int
    decreases h.len() - i,
{
    if 0 <= i < h.len() {
        if same_ignoring_ascii_case(h[i].0, k) {
            i
        } else {
            key_index_ignoring_case(h, k, i + 1)
        }
    } else {
        h.len() as int
    }
}

/// The value of the first pair whose name equals `k` ignoring ASCII case:
/// how a well-known header such as Content-Type is looked up.
pub open spec fn lookup_ignoring_case(h: HeaderSeq, k: Seq<char>) -> Option<Seq<char>> {
    let i = key_index_ignoring_case(h, k, 0);
    if 0 <= i < h.len() {
        Some(h[i].1)
    } else {
        None
    }
}

/// `h` with `k` set to `v`: an existing pair keeps its place, a new name goes last.
pub open spec fn header_insert(h: HeaderSeq, k: Seq<char>, v: Seq<char>) -> HeaderSeq {
    let i = key_index(h, k, 0);
    if 0 <= i < h.len() {
        h.update(i, (k, v))
    } else {
        h.push((k, v))
    }
}

/// No name occurs twice.
pub open spec fn keys_unique(h: HeaderSeq) -> bool {
    forall|i: int, j: int| 0 <= i < j < h.len() ==> h[i].0 != h[j].0
}

pub proof fn lemma_key_index(h: HeaderSeq, k: Seq<char>, i: int)
    requires
        0 <= i <= h.len(),
    ensures
        i <= key_index(h, k, i) <= h.len(),
        key_index(h, k, i) < h.len() ==> h[key_index(h, k, i)].0 == k,
        forall|j: int| i <= j < key_index(h, k, i) ==> h[j].0 != k,
    decreases h.len() - i,
{
    if i < h.len() && h[i].0 != k {
        lemma_key_index(h, k, i + 1);
    }
}

pub proof fn lemma_insert_keeps_unique(h: HeaderSeq, k: Seq<char>, v: Seq<char>)
    requires
        keys_unique(h),
    ensures
        keys_unique(header_insert(h, k, v)),
        lookup(header_insert(h, k, v), k) == Some(v),
{
    lemma_key_index(h, k, 0);
    let h2 = header_insert(h, k, v);
    lemma_key_index(h2, k, 0);
    let i = key_index(h, k, 0);
    let i2 = key_index(h2, k, 0);
    if i < h.len() {
        assert(h2[i].0 == k);
        if i2 < i {
            assert(h2[i2] == h[i2]);
        }
        assert(i2 == i);
    } else {
        assert(h2[i].0 == k);
        if i2 < i {
            assert(h2[i2] == h[i2]);
        }
        assert(i2 == i);
    }
}

/// The views of stored pairs.
pub open spec fn pair_views(v: Seq<(String, String)>) -> HeaderSeq {
    v.map_values(|e: (String, String)| (e.0@, e.1@))
}

/// Header names and values, as written in a request file.
#[derive(Debug)]
pub struct Headers {
    entries: Vec<(String, String)>,
}

impl View for Headers {
    type V = HeaderSeq;

    closed spec fn view(&self) -> HeaderSeq {
        pair_views(self.entries@)
    }
}

impl Headers {
    /// No name occurs twice.
    #[verifier::type_invariant]
    spec fn inv(&self) -> bool {
        keys_unique(pair_views(self.entries@))
    }

    pub fn new() -> (r: Headers)
        ensures
            r@ == Seq::<(Seq<char>, Seq<char>)>::empty(),
    {
        let entries: Vec<(String, String)> = Vec::new();
        assert(pair_views(entries@) =~= Seq::<(Seq<char>, Seq<char>)>::empty());
        Headers { entries }
    }

    /// Index of the pair named `key`, or the number of pairs.
    fn position(&self, key: &Vec<char>) -> (r: usize)
        ensures
            r == key_index(self@, key@, 0),
    {
        proof { lemma_key_index(self@, key@, 0); }
        let mut i: usize = 0;
        while i < self.entries.len()
            invariant
                i <= self.entries@.len(),
                key_index(self@, key@, i as int) == key_index(self@, key@, 0),
                self@.len() == self.entries@.len(),
            decreases self.entries.len() - i,
        {
            if same_text(key, self.entries[i].0.as_str()) {
                return i;
            }
            assert(self@[i as int].0 != key@);
            i = i + 1;
        }
        i
    }

    /// Sets `key` to `value`; a name already present keeps its place.
    pub fn insert(&mut self, key: String, value: String)
        ensures
            final(self)@ == header_insert(old(self)@, key@, value@),
    {
        proof {
            use_type_invariant(&*self);
            lemma_insert_keeps_unique(self@, key@, value@);
        }
        let k = chars_of(key.as_str());
        let i = self.position(&k);
        let ghost before = self@;
        let mut entries: Vec<(String, String)> = Vec::new();
        std::mem::swap(&mut entries, &mut self.entries);
        if i < entries.len() {
            entries.set(i, (key, value));
        } else {
            entries.push((key, value));
        }
        proof {
            if i < before.len() {
                assert(pair_views(entries@) =~= before.update(i as int, (k@, value@)));
            } else {
                assert(pair_views(entries@) =~= before.push((k@, value@)));
            }
        }
        *self = Headers { entries };
    }

    /// The value stored for `key`.
    pub fn get(&self, key: &str) -> (r: Option<&String>)
        ensures
            match r {
                Some(v) => lookup(self@, key@) == Some(v@),
                None => lookup(self@, key@) is None,
            },
    {
        let k = chars_of(key);
        let i = self.position(&k);
        proof { lemma_key_index(self@, key@, 0); }
        if i < self.entries.len() {
            Some(&self.entries[i].1)
        } else {
            None
        }
    }

    /// The value of the first header whose name equals `key` ignoring ASCII case.
    pub fn get_ignoring_case(&self, key: &str) -> (r: Option<&String>)
        ensures
            match r {
                Some(v) => lookup_ignoring_case(self@, key@) == Some(v@),
                None => lookup_ignoring_case(self@, key@) is None,
            },
    {
        let mut i: usize = 0;
        while i < self.entries.len()
            invariant
                i <= self.entries@.len(),
                self@.len() == self.entries@.len(),
                key_index_ignoring_case(self@, key@, i as int) == key_index_ignoring_case(self@, key@, 0),
            decreases self.entries.len() - i,
        {
            let name = chars_of(self.entries[i].0.as_str());
            if same_text_ignoring_ascii_case(&name, key) {
                return Some(&self.entries[i].1);
            }
            i = i + 1;
        }
        None
    }

    /// Whether a value is stored for `key`.
    pub fn contains_key(&self, key: &str) -> (r: bool)
        ensures
            r == lookup(self@, key@) is Some,
    {
        self.get(key).is_some()
    }

    pub fn len(&self) -> (r: usize)
        ensures
            r == self@.len(),
    {
        self.entries.len()
    }

    pub fn is_empty(&self) -> (r: bool)
        ensures
            r == (self@.len() == 0),
    {
        self.entries.len() == 0
    }

    /// The pairs, in order.
    pub fn entries(&self) -> (r: &Vec<(String, String)>)
        ensures
            pair_views(r@) == self@,
    {
        &self.entries
    }
}

impl Clone for Headers {
    fn clone(&self) -> (r: Self)
        ensures
            r@ == self@,
    {
        proof {
            use_type_invariant(self);
        }
        let mut entries: Vec<(String, String)> = Vec::new();
        let mut i: usize = 0;
        while i < self.entries.len()
            invariant
                i <= self.entries@.len(),
                pair_views(entries@) == pair_views(self.entries@).subrange(0, i as int),
            decreases self.entries.len() - i,
        {
            let e = (self.entries[i].0.clone(), self.entries[i].1.clone());
            let ghost before = entries@;
            entries.push(e);
            assert(pair_views(entries@) =~= pair_views(before).push((e.0@, e.1@)));
            assert(pair_views(entries@) =~= pair_views(self.entries@).subrange(0, i + 1));
            i = i + 1;
        }
        assert(pair_views(self.entries@).subrange(0, self.entries@.len() as int) =~= pair_views(
            self.entries@,
        ));
        Headers { entries }
    }
}

} // verus!
