//! Credential profiles and the TOML configuration that holds them.

use vstd::prelude::*;
use crate::keys::{
    key_lt, compare_keys, KeyOrder, lemma_key_lt_irreflexive, lemma_key_lt_asymmetric,
    lemma_key_lt_transitive, lemma_key_lt_total,
};
use crate::text::{push_char, octal, octal4, zero_pad, opt_view};

verus! {

/// One credential set.
pub struct Profile {
    pub host: String,
    pub org: Option<String>,
    pub auth_token: String,
}

/// First value stored under `k` in `s`.
pub open spec fn lookup<V>(s: Seq<(Seq<char>, V)>, k: Seq<char>) -> Option<V>
    decreases s.len(),
{
    if s.len() == 0 {
        None
    } else if s[0].0 == k {
        Some(s[0].1)
    } else {
        lookup(s.drop_first(), k)
    }
}

/// Keys strictly increase along `s`.
pub open spec fn sorted_keys<V>(s: Seq<(Seq<char>, V)>) -> bool {
    forall|i: int, j: int| 0 <= i < j < s.len() ==> key_lt(#[trigger] s[i].0, #[trigger] s[j].0)
}

pub open spec fn map_of<V>(s: Seq<(Seq<char>, V)>) -> Map<Seq<char>, V> {
    Map::new(|k: Seq<char>| lookup(s, k) is Some, |k: Seq<char>| lookup(s, k).unwrap())
}

pub proof fn lemma_lookup_at<V>(s: Seq<(Seq<char>, V)>, i: int)
    requires
        sorted_keys(s),
        0 <= i < s.len(),
    ensures
        lookup(s, s[i].0) == Some(s[i].1),
    decreases i,
{
    if i > 0 {
        assert(key_lt(s[0].0, s[i].0));
        lemma_key_lt_irreflexive(s[i].0);
        let t = s.drop_first();
        assert forall|a: int, b: int| 0 <= a < b < t.len() implies key_lt(#[trigger] t[a].0, #[trigger] t[b].0) by {
            assert(t[a] == s[a + 1]);
            assert(t[b] == s[b + 1]);
        }
        assert(t[i - 1] == s[i]);
        lemma_lookup_at(t, i - 1);
    }
}

pub proof fn lemma_lookup_absent<V>(s: Seq<(Seq<char>, V)>, k: Seq<char>)
    requires
        forall|i: int| 0 <= i < s.len() ==> (#[trigger] s[i]).0 != k,
    ensures
        lookup(s, k) is None,
    decreases s.len(),
{
    if s.len() > 0 {
        let t = s.drop_first();
        assert forall|i: int| 0 <= i < t.len() implies (#[trigger] t[i]).0 != k by {
            assert(t[i] == s[i + 1]);
        }
        lemma_lookup_absent(t, k);
    }
}

/// What `lookup` finds in sorted `s`, by position.
pub proof fn lemma_lookup_sorted<V>(s: Seq<(Seq<char>, V)>, k: Seq<char>)
    requires
        sorted_keys(s),
    ensures
        lookup(s, k) is Some <==> exists|i: int| 0 <= i < s.len() && (#[trigger] s[i]).0 == k,
        forall|i: int| 0 <= i < s.len() && (#[trigger] s[i]).0 == k ==> lookup(s, k) == Some(s[i].1),
{
    assert forall|i: int| 0 <= i < s.len() && (#[trigger] s[i]).0 == k implies lookup(s, k) == Some(
        s[i].1,
    ) by {
        lemma_lookup_at(s, i);
    }
    if !(exists|i: int| 0 <= i < s.len() && (#[trigger] s[i]).0 == k) {
        lemma_lookup_absent(s, k);
    }
}

/// Profiles by name, kept in name order with each name once, as a
/// `BTreeMap<String, Profile>` holds them.
pub struct Profiles {
    entries: Vec<(String, Profile)>,
}

pub open spec fn entries_view(v: Seq<(String, Profile)>) -> Seq<(Seq<char>, Profile)> {
    v.map_values(|e: (String, Profile)| (e.0@, e.1))
}

impl Profiles {
    #[verifier::type_invariant]
    spec fn inv(self) -> bool {
        sorted_keys(entries_view(self.entries@))
    }

    /// The profiles in name order.
    pub closed spec fn ordered(&self) -> Seq<(Seq<char>, Profile)> {
        entries_view(self.entries@)
    }
}

/// In sorted `s`, the map and the positions agree.
pub proof fn lemma_map_of_sorted<V>(s: Seq<(Seq<char>, V)>)
    requires
        sorted_keys(s),
    ensures
        forall|i: int|
            0 <= i < s.len() ==> #[trigger] map_of(s).contains_key(s[i].0) && map_of(s)[s[i].0] == s[i].1,
        forall|k: Seq<char>|
            #[trigger] map_of(s).contains_key(k) ==> exists|i: int| 0 <= i < s.len() && (#[trigger] s[i]).0 == k,
{
    assert forall|i: int| 0 <= i < s.len() implies #[trigger] map_of(s).contains_key(s[i].0) && map_of(s)[s[i].0]
        == s[i].1 by {
        lemma_lookup_at(s, i);
    }
    assert forall|k: Seq<char>| #[trigger] map_of(s).contains_key(k) implies exists|i: int|
        0 <= i < s.len() && (#[trigger] s[i]).0 == k by {
        lemma_lookup_sorted(s, k);
    }
}

impl View for Profiles {
    type V = Map<Seq<char>, Profile>;

    closed spec fn view(&self) -> Map<Seq<char>, Profile> {
        map_of(self.ordered())
    }
}

impl Profiles {
    pub fn new() -> (r: Profiles)
        ensures
            r@ == Map::<Seq<char>, Profile>::empty(),
            r.ordered().len() == 0,
    {
        let r = Profiles { entries: Vec::new() };
        assert(r@ =~= Map::<Seq<char>, Profile>::empty());
        r
    }

    pub fn len(&self) -> (n: usize)
        ensures
            n == self.ordered().len(),
    {
        self.entries.len()
    }

    pub fn is_empty(&self) -> (b: bool)
        ensures
            b == (self.ordered().len() == 0),
            b == (self@ == Map::<Seq<char>, Profile>::empty()),
    {
        proof {
            use_type_invariant(self);
            lemma_map_of_sorted(self.ordered());
            if self.ordered().len() > 0 {
                assert(self@.contains_key(self.ordered()[0].0));
            } else {
                assert(self@ =~= Map::<Seq<char>, Profile>::empty());
            }
        }
        self.entries.len() == 0
    }

    /// The `i`-th profile in name order.
    pub fn entry(&self, i: usize) -> (r: (&String, &Profile))
        requires
            i < self.ordered().len(),
        ensures
            (r.0@, *r.1) == self.ordered()[i as int],
            self@.contains_key(r.0@),
            self@[r.0@] == *r.1,
    {
        proof {
            use_type_invariant(self);
            lemma_map_of_sorted(self.ordered());
        }
        let e = &self.entries[i];
        assert(self.ordered()[i as int] == (e.0@, e.1));
        proof {
            lemma_lookup_at(self.ordered(), i as int);
        }
        assert(map_of(self.ordered()).contains_key(e.0@));
        assert(self@ == map_of(self.ordered()));
        (&e.0, &e.1)
    }

    fn position(&self, name: &str) -> (r: Option<usize>)
        ensures
            match r {
                Some(i) => i < self.ordered().len() && self.ordered()[i as int].0 == name@,
                None => forall|i: int| 0 <= i < self.ordered().len() ==> (#[trigger] self.ordered()[i]).0 != name@,
            },
    {
        let n = self.entries.len();
        let mut i: usize = 0;
        while i < n
            invariant
                n == self.ordered().len(),
                n == self.entries@.len(),
                i <= n,
                forall|j: int| 0 <= j < i ==> (#[trigger] self.ordered()[j]).0 != name@,
            decreases n - i,
        {
            if let KeyOrder::Same = compare_keys(self.entries[i].0.as_str(), name) {
                return Some(i);
            }
            i = i + 1;
        }
        None
    }

    /// `BTreeMap::get`.
    pub fn get(&self, name: &str) -> (r: Option<&Profile>)
        ensures
            match r {
                Some(p) => self@.contains_key(name@) && self@[name@] == *p,
                None => !self@.contains_key(name@),
            },
    {
        proof {
            use_type_invariant(self);
            lemma_map_of_sorted(self.ordered());
        }
        match self.position(name) {
            Some(i) => {
                proof {
                    lemma_lookup_at(self.ordered(), i as int);
                    assert(self.ordered()[i as int].1 == self.entries@[i as int].1);
                    assert(self@ == map_of(self.ordered()));
                }
                Some(&self.entries[i].1)
            },
            None => {
                proof {
                    lemma_lookup_absent(self.ordered(), name@);
                }
                None
            },
        }
    }

    /// `BTreeMap::contains_key`.
    pub fn contains_key(&self, name: &str) -> (b: bool)
        ensures
            b == self@.contains_key(name@),
    {
        proof {
            use_type_invariant(self);
            lemma_map_of_sorted(self.ordered());
        }
        self.position(name).is_some()
    }

    /// `BTreeMap::insert`, without the value it replaces.
    pub fn insert(&mut self, name: String, profile: Profile)
        ensures
            final(self)@ == old(self)@.insert(name@, profile),
    {
        proof {
            use_type_invariant(&*self);
        }
        let mut entries: Vec<(String, Profile)> = Vec::new();
        std::mem::swap(&mut entries, &mut self.entries);
        let ghost s = entries_view(entries@);
        let n = entries.len();
        let mut i: usize = 0;
        while i < n && matches!(compare_keys(entries[i].0.as_str(), name.as_str()), KeyOrder::Before)
            invariant
                n == entries@.len(),
                s == entries_view(entries@),
                sorted_keys(s),
                i <= n,
                forall|j: int| 0 <= j < i ==> key_lt(#[trigger] s[j].0, name@),
            decreases n - i,
        {
            i = i + 1;
        }
        let ghost k = name@;
        let ghost e = (k, profile);
        let same = i < n && matches!(compare_keys(entries[i].0.as_str(), name.as_str()), KeyOrder::Same);
        if same {
            entries.set(i, (name, profile));
            let ghost t = entries_view(entries@);
            proof {
                assert(t =~= s.update(i as int, e));
                assert(sorted_keys(t)) by {
                    assert forall|a: int, b: int| 0 <= a < b < t.len() implies key_lt(#[trigger] t[a].0, #[trigger] t[b].0) by {
                        assert(s[a].0 == t[a].0 || a == i);
                        assert(t[i as int].0 == s[i as int].0);
                    }
                }
                assert(map_of(t) =~= map_of(s).insert(k, profile)) by {
                    assert forall|x: Seq<char>| #[trigger] map_of(t).contains_key(x) == map_of(s).insert(k, profile).contains_key(x) && (map_of(t).contains_key(x) ==> map_of(t)[x] == map_of(s).insert(k, profile)[x]) by {
                        lemma_lookup_sorted(s, x);
                        lemma_lookup_sorted(t, x);
                        if x == k {
                            assert(t[i as int].0 == x);
                        } else {
                            if lookup(s, x) is Some {
                                let j = choose|j: int| 0 <= j < s.len() && (#[trigger] s[j]).0 == x;
                                assert(t[j] == s[j]);
                            }
                            if lookup(t, x) is Some {
                                let j = choose|j: int| 0 <= j < t.len() && (#[trigger] t[j]).0 == x;
                                assert(t[j] == s[j]);
                            }
                        }
                    }
                }
            }
        } else {
            entries.insert(i, (name, profile));
            let ghost t = entries_view(entries@);
            proof {
                assert(t =~= s.insert(i as int, e));
                if i < n {
                    lemma_key_lt_total(s[i as int].0, k);
                }
                assert forall|j: int| i <= j < n implies key_lt(k, #[trigger] s[j].0) by {
                    if j > i {
                        lemma_key_lt_transitive(k, s[i as int].0, s[j].0);
                    }
                }
                assert(sorted_keys(t)) by {
                    assert forall|a: int, b: int| 0 <= a < b < t.len() implies key_lt(#[trigger] t[a].0, #[trigger] t[b].0) by {
                        if b < i {
                            assert(t[a] == s[a]);
                            assert(t[b] == s[b]);
                        } else if a < i && b == i {
                            assert(t[a] == s[a]);
                        } else if a < i && b > i {
                            assert(t[a] == s[a]);
                            assert(t[b] == s[b - 1]);
                            if b - 1 >= i {
                                lemma_key_lt_transitive(s[a].0, k, s[b - 1].0);
                            }
                        } else if a == i {
                            assert(t[b] == s[b - 1]);
                        } else {
                            assert(t[a] == s[a - 1]);
                            assert(t[b] == s[b - 1]);
                        }
                    }
                }
                assert(map_of(t) =~= map_of(s).insert(k, profile)) by {
                    assert forall|x: Seq<char>| #[trigger] map_of(t).contains_key(x) == map_of(s).insert(k, profile).contains_key(x) && (map_of(t).contains_key(x) ==> map_of(t)[x] == map_of(s).insert(k, profile)[x]) by {
                        lemma_lookup_sorted(s, x);
                        lemma_lookup_sorted(t, x);
                        if x == k {
                            assert(t[i as int].0 == x);
                        } else {
                            if lookup(s, x) is Some {
                                let j = choose|j: int| 0 <= j < s.len() && (#[trigger] s[j]).0 == x;
                                if j < i {
                                    assert(t[j] == s[j]);
                                } else {
                                    assert(t[j + 1] == s[j]);
                                }
                            }
                            if lookup(t, x) is Some {
                                let j = choose|j: int| 0 <= j < t.len() && (#[trigger] t[j]).0 == x;
                                if j < i {
                                    assert(t[j] == s[j]);
                                } else {
                                    assert(t[j] == s[j - 1]);
                                }
                            }
                        }
                    }
                }
            }
        }
        self.entries = entries;
    }

    /// `BTreeMap::remove`.
    pub fn remove(&mut self, name: &str) -> (r: Option<Profile>)
        ensures
            final(self)@ == old(self)@.remove(name@),
            match r {
                Some(p) => old(self)@.contains_key(name@) && old(self)@[name@] == p,
                None => !old(self)@.contains_key(name@),
            },
    {
        proof {
            use_type_invariant(&*self);
            lemma_map_of_sorted(self.ordered());
        }
        match self.position(name) {
            None => {
                proof {
                    lemma_lookup_absent(self.ordered(), name@);
                    assert(self@.remove(name@) =~= self@);
                }
                None
            },
            Some(i) => {
                proof {
                    lemma_lookup_at(self.ordered(), i as int);
                    assert(self@ == map_of(self.ordered()));
                }
                let mut entries: Vec<(String, Profile)> = Vec::new();
                std::mem::swap(&mut entries, &mut self.entries);
                let ghost s = entries_view(entries@);
                let ghost k = name@;
                let removed = entries.remove(i);
                let ghost t = entries_view(entries@);
                proof {
                    assert(t =~= s.remove(i as int));
                    assert(sorted_keys(t)) by {
                        assert forall|a: int, b: int| 0 <= a < b < t.len() implies key_lt(#[trigger] t[a].0, #[trigger] t[b].0) by {
                            if b < i {
                                assert(t[a] == s[a]);
                                assert(t[b] == s[b]);
                            } else if a < i {
                                assert(t[a] == s[a]);
                                assert(t[b] == s[b + 1]);
                            } else {
                                assert(t[a] == s[a + 1]);
                                assert(t[b] == s[b + 1]);
                            }
                        }
                    }
                    assert(map_of(t) =~= map_of(s).remove(k)) by {
                        assert forall|x: Seq<char>| #[trigger] map_of(t).contains_key(x) == map_of(s).remove(k).contains_key(x) && (map_of(t).contains_key(x) ==> map_of(t)[x] == map_of(s).remove(k)[x]) by {
                            lemma_lookup_sorted(s, x);
                            lemma_lookup_sorted(t, x);
                            if x == k {
                                if lookup(t, x) is Some {
                                    let j = choose|j: int| 0 <= j < t.len() && (#[trigger] t[j]).0 == x;
                                    if j < i {
                                        assert(t[j] == s[j]);
                                        assert(key_lt(s[j].0, s[i as int].0));
                                        lemma_key_lt_irreflexive(x);
                                    } else {
                                        assert(t[j] == s[j + 1]);
                                        assert(key_lt(s[i as int].0, s[j + 1].0));
                                        lemma_key_lt_irreflexive(x);
                                    }
                                }
                            } else {
                                if lookup(s, x) is Some {
                                    let j = choose|j: int| 0 <= j < s.len() && (#[trigger] s[j]).0 == x;
                                    if j < i {
                                        assert(t[j] == s[j]);
                                    } else {
                                        assert(j != i);
                                        assert(t[j - 1] == s[j]);
                                    }
                                }
                                if lookup(t, x) is Some {
                                    let j = choose|j: int| 0 <= j < t.len() && (#[trigger] t[j]).0 == x;
                                    if j < i {
                                        assert(t[j] == s[j]);
                                    } else {
                                        assert(t[j] == s[j + 1]);
                                    }
                                }
                            }
                        }
                    }
                    assert(s[i as int] == (removed.0@, removed.1));
                }
                self.entries = entries;
                Some(removed.1)
            },
        }
    }

    /// `BTreeMap::clear`.
    pub fn clear(&mut self)
        ensures
            final(self)@ == Map::<Seq<char>, Profile>::empty(),
            final(self).ordered().len() == 0,
    {
        let mut entries: Vec<(String, Profile)> = Vec::new();
        std::mem::swap(&mut entries, &mut self.entries);
        assert(self@ =~= Map::<Seq<char>, Profile>::empty());
    }

    /// The smallest name, as `keys().next()` yields it.
    pub fn first_key(&self) -> (r: Option<String>)
        ensures
            match r {
                None => self@ == Map::<Seq<char>, Profile>::empty(),
                Some(k) => {
                    &&& self@.contains_key(k@)
                    &&& forall|x: Seq<char>| #[trigger] self@.contains_key(x) && x != k@ ==> key_lt(k@, x)
                },
            },
    {
        proof {
            use_type_invariant(self);
            lemma_map_of_sorted(self.ordered());
        }
        if self.entries.len() == 0 {
            assert(self@ =~= Map::<Seq<char>, Profile>::empty());
            None
        } else {
            let k = self.entries[0].0.clone();
            proof {
                let s = self.ordered();
                assert(s[0].0 == k@);
                assert forall|x: Seq<char>| #[trigger] self@.contains_key(x) && x != k@ implies key_lt(k@, x) by {
                    let j = choose|j: int| 0 <= j < s.len() && (#[trigger] s[j]).0 == x;
                    if j == 0 {
                    } else {
                        assert(key_lt(s[0].0, s[j].0));
                    }
                }
            }
            Some(k)
        }
    }

    /// The same profiles with every token masked.
    pub fn masked(&self) -> (r: Profiles)
        ensures
            r.ordered().len() == self.ordered().len(),
            forall|i: int|
                0 <= i < r.ordered().len() ==> {
                    let (k, p) = #[trigger] r.ordered()[i];
                    let (k0, p0) = self.ordered()[i];
                    &&& k == k0
                    &&& p.host == p0.host
                    &&& p.org == p0.org
                    &&& p.auth_token@ == spec_mask_token(p0.auth_token@)
                },
            r@.dom() == self@.dom(),
            forall|k: Seq<char>| #[trigger] r@.contains_key(k) ==> masked_from(r@[k], self@[k]),
    {
        proof {
            use_type_invariant(self);
        }
        let n = self.entries.len();
        let mut out: Vec<(String, Profile)> = Vec::new();
        let mut i: usize = 0;
        while i < n
            invariant
                n == self.entries@.len(),
                i <= n,
                out@.len() == i,
                sorted_keys(entries_view(self.entries@)),
                forall|j: int|
                    0 <= j < i ==> {
                        let (k, p) = #[trigger] out@[j];
                        let (k0, p0) = self.entries@[j];
                        &&& k@ == k0@
                        &&& p.host == p0.host
                        &&& p.org == p0.org
                        &&& p.auth_token@ == spec_mask_token(p0.auth_token@)
                    },
            decreases n - i,
        {
            let e = &self.entries[i];
            let p = Profile {
                host: e.1.host.clone(),
                org: match &e.1.org {
                    Some(o) => Some(o.clone()),
                    None => None,
                },
                auth_token: mask_token(e.1.auth_token.as_str()),
            };
            out.push((e.0.clone(), p));
            i = i + 1;
        }
        proof {
            let a = entries_view(out@);
            let b = entries_view(self.entries@);
            assert forall|x: int, y: int| 0 <= x < y < a.len() implies key_lt(#[trigger] a[x].0, #[trigger] a[y].0) by {
                assert(a[x].0 == b[x].0);
                assert(a[y].0 == b[y].0);
            }
            lemma_masked_map(a, b);
        }
        Profiles { entries: out }
    }
}

/// A read gives back a write: once `after` is `before` with `profile` put
/// under `name` (what `insert` ensures), `get(name)` finds `profile`, every
/// other name finds what it found before, and removing `name` again leaves
/// nothing under it.
pub proof fn lemma_profiles_read_after_write(before: Profiles, after: Profiles, name: Seq<char>, profile: Profile)
    requires
        after@ == before@.insert(name, profile),
    ensures
        after@.contains_key(name) && after@[name] == profile,
        forall|k: Seq<char>|
            k != name ==> (#[trigger] after@.contains_key(k) == before@.contains_key(k) && (before@.contains_key(k)
                ==> after@[k] == before@[k])),
        !after@.remove(name).contains_key(name),
{
}

/// `p` is `p0` with its token masked.
pub open spec fn masked_from(p: Profile, p0: Profile) -> bool {
    &&& p.host == p0.host
    &&& p.org == p0.org
    &&& p.auth_token@ == spec_mask_token(p0.auth_token@)
}

proof fn lemma_masked_map(a: Seq<(Seq<char>, Profile)>, b: Seq<(Seq<char>, Profile)>)
    requires
        sorted_keys(a),
        sorted_keys(b),
        a.len() == b.len(),
        forall|i: int| 0 <= i < a.len() ==> (#[trigger] a[i]).0 == b[i].0 && masked_from(a[i].1, b[i].1),
    ensures
        map_of(a).dom() == map_of(b).dom(),
        forall|k: Seq<char>| #[trigger] map_of(a).contains_key(k) ==> masked_from(map_of(a)[k], map_of(b)[k]),
{
    lemma_map_of_sorted(a);
    lemma_map_of_sorted(b);
    assert forall|k: Seq<char>| map_of(a).contains_key(k) implies map_of(b).contains_key(k) && masked_from(
        map_of(a)[k],
        map_of(b)[k],
    ) by {
        let i = choose|i: int| 0 <= i < a.len() && (#[trigger] a[i]).0 == k;
        assert(a[i].0 == b[i].0);
        assert(map_of(b).contains_key(b[i].0));
    }
    assert forall|k: Seq<char>| map_of(b).contains_key(k) implies map_of(a).contains_key(k) by {
        let i = choose|i: int| 0 <= i < b.len() && (#[trigger] b[i]).0 == k;
        assert(a[i].0 == b[i].0);
        assert(map_of(a).contains_key(a[i].0));
    }
    assert(map_of(a).dom() =~= map_of(b).dom());
}

/// What `mask_token` shows of a token: stars for a short one, else its
/// first eight and last four characters around an ellipsis.
pub open spec fn spec_mask_token(t: Seq<char>) -> Seq<char> {
    if t.len() <= 8 {
        Seq::new(t.len(), |_i: int| '*')
    } else {
        t.subrange(0, 8) + seq!['\u{2026}'] + t.subrange(t.len() - 4, t.len() as int)
    }
}

/// Hides most of an auth token for display.
pub fn mask_token(token: &str) -> (r: String)
    ensures
        r@ == spec_mask_token(token@),
{
    let len = token.unicode_len();
    if len <= 8 {
        let mut r = String::new();
        let mut i: usize = 0;
        while i < len
            invariant
                i <= len,
                r@ == Seq::new(i as nat, |_i: int| '*'),
            decreases len - i,
        {
            push_char(&mut r, '*');
            assert(r@ =~= Seq::new((i + 1) as nat, |_i: int| '*'));
            i = i + 1;
        }
        return r;
    }
    let mut r = token.substring_char(0, 8).to_owned();
    push_char(&mut r, '\u{2026}');
    r.append(token.substring_char(len - 4, len));
    assert(r@ =~= spec_mask_token(token@));
    r
}

/// `path.join(part)` for a relative `part`: a separator goes between them
/// unless `base` is empty or already ends in one.
pub open spec fn path_join(base: Seq<char>, part: Seq<char>) -> Seq<char> {
    if base.len() == 0 {
        part
    } else if base.last() == '/' {
        base + part
    } else {
        base + seq!['/'] + part
    }
}

fn join_path(base: &str, part: &str) -> (r: String)
    ensures
        r@ == path_join(base@, part@),
{
    let n = base.unicode_len();
    let mut r = String::from_str(base);
    if n > 0 && base.get_char(n - 1) != '/' {
        push_char(&mut r, '/');
    }
    r.append(part);
    r
}

/// Failures around the configuration file.
pub enum ConfigError {
    /// Neither `$XDG_CONFIG_HOME` nor `$HOME` names a directory.
    HomeNotSet,
    /// The file may be read by its group or by others.
    InsecureMode { path: String, mode: u32 },
    /// `config show --profile` named a profile that does not exist.
    ProfileNotFound { name: String },
}

impl ConfigError {
    pub open spec fn spec_message(&self) -> Seq<char> {
        match self {
            ConfigError::HomeNotSet => "HOME is not set"@,
            ConfigError::InsecureMode { path, mode } => "Refusing to read "@ + path@ + ": file mode "@
                + zero_pad(octal(*mode as nat), 4) + "; run 'chmod 600 "@ + path@ + "'"@,
            ConfigError::ProfileNotFound { name } => "Profile '"@ + name@ + "' not found."@,
        }
    }

    /// The text shown to the user.
    pub fn message(&self) -> (r: String)
        ensures
            r@ == self.spec_message(),
    {
        match self {
            ConfigError::HomeNotSet => String::from_str("HOME is not set"),
            ConfigError::InsecureMode { path, mode } => {
                let mut r = String::from_str("Refusing to read ");
                r.append(path.as_str());
                r.append(": file mode ");
                let m = octal4(*mode);
                r.append(m.as_str());
                r.append("; run 'chmod 600 ");
                r.append(path.as_str());
                r.append("'");
                r
            },
            ConfigError::ProfileNotFound { name } => {
                let mut r = String::from_str("Profile '");
                r.append(name.as_str());
                r.append("' not found.");
                r
            },
        }
    }
}

/// Where the configuration file lives, from `$SNTRY_CONFIG`,
/// `$XDG_CONFIG_HOME` and `$HOME` as given.
pub open spec fn spec_default_path(
    sntry_config: Option<Seq<char>>,
    xdg_config_home: Option<Seq<char>>,
    home: Option<Seq<char>>,
) -> Option<Seq<char>> {
    match sntry_config {
        Some(p) => Some(p),
        None => {
            let base = match xdg_config_home {
                Some(x) => Some(x),
                None => match home {
                    Some(h) => Some(path_join(h, ".config"@)),
                    None => None,
                },
            };
            match base {
                Some(b) => Some(path_join(path_join(b, "sntry"@), "config.toml"@)),
                None => None,
            }
        },
    }
}

/// The configuration path, given the values of `$SNTRY_CONFIG`,
/// `$XDG_CONFIG_HOME` and `$HOME` (`None` where unset).
pub fn default_path(
    sntry_config: Option<&str>,
    xdg_config_home: Option<&str>,
    home: Option<&str>,
) -> (r: Result<String, ConfigError>)
    ensures
        match spec_default_path(opt_view(sntry_config), opt_view(xdg_config_home), opt_view(home)) {
            Some(p) => (r matches Ok(s) && s@ == p),
            None => r matches Err(ConfigError::HomeNotSet),
        },
{
    if let Some(p) = sntry_config {
        return Ok(String::from_str(p));
    }
    let base = match xdg_config_home {
        Some(x) => String::from_str(x),
        None => match home {
            Some(h) => join_path(h, ".config"),
            None => {
                return Err(ConfigError::HomeNotSet);
            },
        },
    };
    let dir = join_path(base.as_str(), "sntry");
    Ok(join_path(dir.as_str(), "config.toml"))
}

/// Refuses a configuration file whose permission bits let its group or
/// others in; `mode` is the file's `st_mode`.
pub fn check_mode(mode: u32, path: &str) -> (r: Result<(), ConfigError>)
    ensures
        (mode & 0o777) & 0o077 == 0 ==> r is Ok,
        (mode & 0o777) & 0o077 != 0 ==> (r matches Err(ConfigError::InsecureMode { path: p, mode: m })
            && p@ == path@ && m == mode & 0o777),
{
    let m = mode & 0o777;
    if m & 0o077 != 0 {
        Err(ConfigError::InsecureMode { path: String::from_str(path), mode: m })
    } else {
        Ok(())
    }
}

/// The whole configuration file.
pub struct Config {
    pub default_profile: Option<String>,
    pub default_output: Option<String>,
    pub profiles: Profiles,
}

impl Config {
    /// `Config::default()`: no profiles and no defaults.
    pub fn new() -> (r: Config)
        ensures
            r.default_profile is None,
            r.default_output is None,
            r.profiles@ == Map::<Seq<char>, Profile>::empty(),
    {
        Config { default_profile: None, default_output: None, profiles: Profiles::new() }
    }

    /// Nothing would be written: no profiles and no defaults.
    pub open spec fn spec_is_empty(&self) -> bool {
        &&& self.profiles@ == Map::<Seq<char>, Profile>::empty()
        &&& self.default_profile is None
        &&& self.default_output is None
    }

    /// Whether `delete_if_empty` removes the file.
    pub fn is_empty(&self) -> (b: bool)
        ensures
            b == self.spec_is_empty(),
    {
        self.profiles.is_empty() && self.default_profile.is_none() && self.default_output.is_none()
    }
}

} // verus!
