//! The vocabulary of search parameters and the single-valued, ordered mapping
//! from parameter to text that search criteria are kept in.

use vstd::prelude::*;

verus! {

/// The names a search parameter can have. The variants stand in the
/// lexicographic order of their wire names, which is the order in which a
/// query string lists them.
#[derive(Debug, Clone, Copy, PartialEq, Eq, Structural)]
pub enum Param {
    Angebotsart,
    Arbeitgeber,
    Arbeitszeit,
    Befristung,
    Behinderung,
    Berufsfeld,
    Corona,
    Page,
    Size,
    Umkreis,
    Veroeffentlichtseit,
    Was,
    Wo,
    Zeitarbeit,
}

/// How many parameter names there are.
pub const PARAM_COUNT: u8 = 14;

impl Param {
    /// Position of the parameter in the canonical order, from 0.
    pub open spec fn rank(self) -> nat {
        match self {
            Param::Angebotsart => 0,
            Param::Arbeitgeber => 1,
            Param::Arbeitszeit => 2,
            Param::Befristung => 3,
            Param::Behinderung => 4,
            Param::Berufsfeld => 5,
            Param::Corona => 6,
            Param::Page => 7,
            Param::Size => 8,
            Param::Umkreis => 9,
            Param::Veroeffentlichtseit => 10,
            Param::Was => 11,
            Param::Wo => 12,
            Param::Zeitarbeit => 13,
        }
    }

    /// The parameter at position `r` of the canonical order, for `r < 14`.
    pub open spec fn of_rank(r: nat) -> Param {
        if r == 0 {
            Param::Angebotsart
        } else if r == 1 {
            Param::Arbeitgeber
        } else if r == 2 {
            Param::Arbeitszeit
        } else if r == 3 {
            Param::Befristung
        } else if r == 4 {
            Param::Behinderung
        } else if r == 5 {
            Param::Berufsfeld
        } else if r == 6 {
            Param::Corona
        } else if r == 7 {
            Param::Page
        } else if r == 8 {
            Param::Size
        } else if r == 9 {
            Param::Umkreis
        } else if r == 10 {
            Param::Veroeffentlichtseit
        } else if r == 11 {
            Param::Was
        } else if r == 12 {
            Param::Wo
        } else {
            Param::Zeitarbeit
        }
    }

    /// The name of the parameter as the service knows it.
    pub open spec fn wire_name(self) -> Seq<char> {
        match self {
            Param::Angebotsart => "angebotsart"@,
            Param::Arbeitgeber => "arbeitgeber"@,
            Param::Arbeitszeit => "arbeitszeit"@,
            Param::Befristung => "befristung"@,
            Param::Behinderung => "behinderung"@,
            Param::Berufsfeld => "berufsfeld"@,
            Param::Corona => "corona"@,
            Param::Page => "page"@,
            Param::Size => "size"@,
            Param::Umkreis => "umkreis"@,
            Param::Veroeffentlichtseit => "veroeffentlichtseit"@,
            Param::Was => "was"@,
            Param::Wo => "wo"@,
            Param::Zeitarbeit => "zeitarbeit"@,
        }
    }

    /// Position of the parameter in the canonical order.
    pub fn index(self) -> (out: u8)
        ensures
            out == self.rank(),
            out < PARAM_COUNT,
    {
        match self {
            Param::Angebotsart => 0,
            Param::Arbeitgeber => 1,
            Param::Arbeitszeit => 2,
            Param::Befristung => 3,
            Param::Behinderung => 4,
            Param::Berufsfeld => 5,
            Param::Corona => 6,
            Param::Page => 7,
            Param::Size => 8,
            Param::Umkreis => 9,
            Param::Veroeffentlichtseit => 10,
            Param::Was => 11,
            Param::Wo => 12,
            Param::Zeitarbeit => 13,
        }
    }

    /// The name of the parameter as the service knows it.
    pub fn name(self) -> (out: &'static str)
        ensures
            out@ == self.wire_name(),
    {
        match self {
            Param::Angebotsart => "angebotsart",
            Param::Arbeitgeber => "arbeitgeber",
            Param::Arbeitszeit => "arbeitszeit",
            Param::Befristung => "befristung",
            Param::Behinderung => "behinderung",
            Param::Berufsfeld => "berufsfeld",
            Param::Corona => "corona",
            Param::Page => "page",
            Param::Size => "size",
            Param::Umkreis => "umkreis",
            Param::Veroeffentlichtseit => "veroeffentlichtseit",
            Param::Was => "was",
            Param::Wo => "wo",
            Param::Zeitarbeit => "zeitarbeit",
        }
    }
}

/// `rank` and `of_rank` are inverse to each other.
pub proof fn lemma_rank_of_rank(p: Param, r: nat)
    ensures
        p.rank() < 14,
        Param::of_rank(p.rank()) == p,
        r < 14 ==> Param::of_rank(r).rank() == r,
{
}

/// Whether `a` comes before `b` in the order of a dictionary: at the first
/// place where they differ `a` has the lesser character, or `a` ends there.
pub open spec fn lex_less(a: Seq<char>, b: Seq<char>) -> bool
    decreases a.len(),
{
    if b.len() == 0 {
        false
    } else if a.len() == 0 {
        true
    } else if a[0] != b[0] {
        a[0] < b[0]
    } else {
        lex_less(a.drop_first(), b.drop_first())
    }
}

/// The order of a dictionary is transitive.
pub proof fn lemma_lex_less_transitive(a: Seq<char>, b: Seq<char>, c: Seq<char>)
    requires
        lex_less(a, b),
        lex_less(b, c),
    ensures
        lex_less(a, c),
    decreases a.len(),
{
    if a.len() > 0 && b.len() > 0 && c.len() > 0 && a[0] == b[0] && b[0] == c[0] {
        lemma_lex_less_transitive(a.drop_first(), b.drop_first(), c.drop_first());
    }
}

/// Each wire name comes before the wire name of the next rank.
proof fn lemma_adjacent_names(r: nat)
    requires
        r < 13,
    ensures
        lex_less(Param::of_rank(r).wire_name(), Param::of_rank(r + 1).wire_name()),
{
    reveal_with_fuel(lex_less, 8);
    reveal_strlit("angebotsart");
    reveal_strlit("arbeitgeber");
    reveal_strlit("arbeitszeit");
    reveal_strlit("befristung");
    reveal_strlit("behinderung");
    reveal_strlit("berufsfeld");
    reveal_strlit("corona");
    reveal_strlit("page");
    reveal_strlit("size");
    reveal_strlit("umkreis");
    reveal_strlit("veroeffentlichtseit");
    reveal_strlit("was");
    reveal_strlit("wo");
    reveal_strlit("zeitarbeit");
}

/// The canonical order is the order of the wire names in a dictionary.
pub proof fn lemma_rank_orders_names(p: Param, q: Param)
    requires
        p.rank() < q.rank(),
    ensures
        lex_less(p.wire_name(), q.wire_name()),
    decreases q.rank(),
{
    lemma_rank_of_rank(p, 0);
    lemma_rank_of_rank(q, 0);
    let before = Param::of_rank((q.rank() - 1) as nat);
    lemma_rank_of_rank(before, (q.rank() - 1) as nat);
    lemma_adjacent_names((q.rank() - 1) as nat);
    if p.rank() + 1 < q.rank() {
        lemma_rank_orders_names(p, before);
        lemma_lex_less_transitive(p.wire_name(), before.wire_name(), q.wire_name());
    }
}

/// The (name, value) pairs of the parameters of rank below `n` that `m`
/// assigns, in canonical order.
pub open spec fn pairs_below(m: Map<Param, Seq<char>>, n: nat) -> Seq<(Seq<char>, Seq<char>)>
    decreases n,
{
    if n == 0 {
        Seq::empty()
    } else {
        let p = Param::of_rank((n - 1) as nat);
        let rest = pairs_below(m, (n - 1) as nat);
        if m.contains_key(p) {
            rest.push((p.wire_name(), m[p]))
        } else {
            rest
        }
    }
}

/// The (name, value) pairs that `m` assigns, in canonical order: what a query
/// string is made from.
pub open spec fn query_pairs(m: Map<Param, Seq<char>>) -> Seq<(Seq<char>, Seq<char>)> {
    pairs_below(m, 14)
}

/// The views of a list of (name, value) pairs.
pub open spec fn pairs_view(pairs: Seq<(String, String)>) -> Seq<(Seq<char>, Seq<char>)> {
    pairs.map_values(|p: (String, String)| (p.0@, p.1@))
}

/// Whether some entry of `s` has key `k`.
spec fn has_key(s: Seq<(Param, String)>, k: Param) -> bool {
    exists|i: int| 0 <= i < s.len() && (#[trigger] s[i]).0 == k
}

/// An index at which `s` holds key `k`, where there is one.
spec fn index_of(s: Seq<(Param, String)>, k: Param) -> int {
    choose|i: int| 0 <= i < s.len() && (#[trigger] s[i]).0 == k
}

/// The mapping that a list of entries stands for.
spec fn entry_map(s: Seq<(Param, String)>) -> Map<Param, Seq<char>> {
    Map::new(|k: Param| has_key(s, k), |k: Param| s[index_of(s, k)].1@)
}

/// Keys strictly increase along `s`.
spec fn sorted(s: Seq<(Param, String)>) -> bool {
    forall|i: int, j: int|
        0 <= i < j < s.len() ==> (#[trigger] s[i]).0.rank() < (#[trigger] s[j]).0.rank()
}

/// The (name, value) pairs of a list of entries, in the order of the list.
spec fn entry_pairs(s: Seq<(Param, String)>) -> Seq<(Seq<char>, Seq<char>)> {
    s.map_values(|e: (Param, String)| (e.0.wire_name(), e.1@))
}

/// In a sorted list each key stands at one index only, and the mapping holds
/// the value found there.
proof fn lemma_lookup(s: Seq<(Param, String)>, i: int)
    requires
        sorted(s),
        0 <= i < s.len(),
    ensures
        has_key(s, s[i].0),
        index_of(s, s[i].0) == i,
        entry_map(s).contains_key(s[i].0),
        entry_map(s)[s[i].0] == s[i].1@,
{
    let k = s[i].0;
    assert(has_key(s, k));
    let j = index_of(s, k);
    assert(0 <= j < s.len() && s[j].0 == k);
    if j < i {
        assert(s[j].0.rank() < s[i].0.rank());
    }
    if i < j {
        assert(s[i].0.rank() < s[j].0.rank());
    }
}

/// Replacing the value of an entry keeps the list sorted and assigns the new
/// value to the entry's key.
proof fn lemma_replace(before: Seq<(Param, String)>, at: int, entry: (Param, String))
    requires
        sorted(before),
        0 <= at < before.len(),
        before[at].0 == entry.0,
    ensures
        sorted(before.update(at, entry)),
        entry_map(before.update(at, entry)) == entry_map(before).insert(entry.0, entry.1@),
{
    let after = before.update(at, entry);
    let key = entry.0;
    assert forall|a: int, b: int| 0 <= a < b < after.len() implies (#[trigger] after[a]).0.rank() < (
    #[trigger] after[b]).0.rank() by {
        assert(before[a].0.rank() < before[b].0.rank());
    }
    assert forall|k: Param| #[trigger] has_key(after, k) <==> has_key(before, k) by {
        if has_key(after, k) {
            let j = index_of(after, k);
            assert(before[j].0 == k);
        }
        if has_key(before, k) {
            let j = index_of(before, k);
            assert(after[j].0 == k);
        }
    }
    lemma_lookup(before, at);
    assert forall|k: Param| has_key(after, k) implies #[trigger] entry_map(after)[k] == entry_map(
        before,
    ).insert(key, entry.1@)[k] by {
        let j = index_of(after, k);
        lemma_lookup(after, j);
        lemma_lookup(before, j);
    }
    assert(entry_map(after) =~= entry_map(before).insert(key, entry.1@));
}

/// Putting an entry with a new key where the order wants it keeps the list
/// sorted and adds the assignment.
proof fn lemma_insert(before: Seq<(Param, String)>, at: int, entry: (Param, String))
    requires
        sorted(before),
        0 <= at <= before.len(),
        forall|j: int| 0 <= j < at ==> (#[trigger] before[j]).0.rank() < entry.0.rank(),
        at < before.len() ==> before[at].0.rank() > entry.0.rank(),
    ensures
        sorted(before.insert(at, entry)),
        entry_map(before.insert(at, entry)) == entry_map(before).insert(entry.0, entry.1@),
{
    let after = before.insert(at, entry);
    let key = entry.0;
    assert forall|a: int, b: int| 0 <= a < b < after.len() implies (#[trigger] after[a]).0.rank() < (
    #[trigger] after[b]).0.rank() by {
        let a0 = if a < at { a } else { a - 1 };
        let b0 = if b < at { b } else { b - 1 };
        if a != at && b != at {
            assert(before[a0].0.rank() < before[b0].0.rank());
        } else if a == at {
            if b0 > at {
                assert(before[at].0.rank() < before[b0].0.rank());
            }
        } else {
            assert(before[a0].0.rank() < key.rank());
        }
    }
    assert forall|k: Param| #[trigger] has_key(after, k) <==> (has_key(before, k) || k == key) by {
        if has_key(after, k) && k != key {
            let j = index_of(after, k);
            let j0 = if j < at { j } else { j - 1 };
            assert(before[j0].0 == k);
        }
        if has_key(before, k) {
            let j = index_of(before, k);
            let j1 = if j < at { j } else { j + 1 };
            assert(after[j1].0 == k);
        }
        if k == key {
            assert(after[at].0 == k);
        }
    }
    assert forall|k: Param| has_key(after, k) implies #[trigger] entry_map(after)[k] == entry_map(
        before,
    ).insert(key, entry.1@)[k] by {
        let j = index_of(after, k);
        lemma_lookup(after, j);
        if k != key {
            let j0 = if j < at { j } else { j - 1 };
            assert(j != at);
            lemma_lookup(before, j0);
        } else {
            lemma_lookup(after, at);
        }
    }
    assert(entry_map(after) =~= entry_map(before).insert(key, entry.1@));
}

/// The number of entries of a sorted list whose key has rank below `n`.
spec fn count_below(s: Seq<(Param, String)>, n: nat) -> nat
    decreases s.len(),
{
    if s.len() == 0 {
        0
    } else if s.last().0.rank() < n {
        s.len()
    } else {
        count_below(s.drop_last(), n)
    }
}

proof fn lemma_count_below(s: Seq<(Param, String)>, n: nat)
    requires
        sorted(s),
    ensures
        count_below(s, n) <= s.len(),
        forall|i: int| 0 <= i < count_below(s, n) ==> (#[trigger] s[i]).0.rank() < n,
        forall|i: int| count_below(s, n) <= i < s.len() ==> (#[trigger] s[i]).0.rank() >= n,
    decreases s.len(),
{
    if s.len() > 0 {
        let t = s.drop_last();
        assert forall|i: int, j: int| 0 <= i < j < t.len() implies (#[trigger] t[i]).0.rank() < (
        #[trigger] t[j]).0.rank() by {
            assert(t[i] == s[i] && t[j] == s[j]);
        }
        lemma_count_below(t, n);
        if s.last().0.rank() < n {
            assert forall|i: int| 0 <= i < s.len() implies (#[trigger] s[i]).0.rank() < n by {
                if i < s.len() - 1 {
                    assert(s[i].0.rank() < s[s.len() - 1].0.rank());
                }
            }
        } else {
            assert forall|i: int| 0 <= i < count_below(s, n) implies (#[trigger] s[i]).0.rank()
                < n by {
                assert(t[i] == s[i]);
            }
            assert forall|i: int| count_below(s, n) <= i < s.len() implies (#[trigger] s[i]).0.rank()
                >= n by {
                if i < s.len() - 1 {
                    assert(t[i] == s[i]);
                }
            }
        }
    }
}

/// Listing a sorted list's entries of rank below `n` gives the canonical
/// pairs of its mapping below `n`.
proof fn lemma_pairs_below(s: Seq<(Param, String)>, n: nat)
    requires
        sorted(s),
        n <= 14,
    ensures
        pairs_below(entry_map(s), n) == entry_pairs(s.take(count_below(s, n) as int)),
    decreases n,
{
    let m = entry_map(s);
    lemma_count_below(s, n);
    if n == 0 {
        assert(count_below(s, 0) == 0) by {
            if count_below(s, 0) > 0 {
                assert(s[0].0.rank() < 0);
            }
        }
        assert(entry_pairs(s.take(0)) =~= Seq::empty());
    } else {
        let r = (n - 1) as nat;
        let p = Param::of_rank(r);
        lemma_rank_of_rank(p, r);
        lemma_pairs_below(s, r);
        lemma_count_below(s, r);
        let c = count_below(s, r) as int;
        let d = count_below(s, n) as int;
        if m.contains_key(p) {
            let i = index_of(s, p);
            assert(0 <= i < s.len() && s[i].0 == p);
            lemma_lookup(s, i);
            // The entry for `p` is the first one of rank `r` or more.
            assert(i >= c) by {
                if i < c {
                    assert(s[i].0.rank() < r);
                }
            }
            assert(i == c) by {
                if i > c {
                    assert(s[c].0.rank() >= r);
                    assert(s[c].0.rank() < s[i].0.rank());
                }
            }
            assert(d == c + 1) by {
                if d <= c {
                    assert(s[c].0.rank() >= n);
                }
                if d > c + 1 {
                    assert(s[c + 1].0.rank() < n);
                    assert(s[c].0.rank() < s[c + 1].0.rank());
                }
            }
            assert(s.take(d) =~= s.take(c).push(s[c]));
            assert(entry_pairs(s.take(d)) =~= entry_pairs(s.take(c)).push(
                (p.wire_name(), s[c].1@),
            ));
        } else {
            assert(d == c) by {
                if d > c {
                    assert(s[c].0.rank() >= r);
                    assert(s[c].0.rank() < n);
                    lemma_rank_of_rank(s[c].0, r);
                    assert(s[c].0 == p);
                    lemma_lookup(s, c);
                }
                if d < c {
                    assert(s[d].0.rank() >= n);
                    assert(s[d].0.rank() < r);
                }
            }
        }
    }
}

/// A single-valued mapping from parameter to text that lists its entries in
/// canonical order.
#[derive(Debug)]
pub struct ParamMap {
    /// The entries, by strictly increasing rank of their keys.
    entries: Vec<(Param, String)>,
}

impl View for ParamMap {
    type V = Map<Param, Seq<char>>;

    closed spec fn view(&self) -> Map<Param, Seq<char>> {
        entry_map(self.entries@)
    }
}

impl ParamMap {
    #[verifier::type_invariant]
    spec fn well_formed(self) -> bool {
        sorted(self.entries@)
    }

    /// The mapping that assigns nothing.
    pub fn new() -> (out: ParamMap)
        ensures
            out@ == Map::<Param, Seq<char>>::empty(),
    {
        let out = ParamMap { entries: Vec::new() };
        proof {
            assert(out@ =~= Map::<Param, Seq<char>>::empty());
        }
        out
    }

    /// The mapping with `value` assigned to `key`, in place of what `key` had before.
    pub fn with(self, key: Param, value: String) -> (out: ParamMap)
        ensures
            out@ == self@.insert(key, value@),
    {
        proof {
            use_type_invariant(&self);
        }
        let mut entries = self.entries;
        let ghost before = entries@;
        let rank = key.index();
        let mut i: usize = 0;
        while i < entries.len() && entries[i].0.index() < rank
            invariant
                i <= entries.len(),
                entries@ == before,
                rank == key.rank(),
                forall|j: int| 0 <= j < i ==> (#[trigger] before[j]).0.rank() < rank,
            decreases entries.len() - i,
        {
            i = i + 1;
        }
        if i < entries.len() && entries[i].0.index() == rank {
            proof {
                lemma_rank_of_rank(key, 0);
                lemma_rank_of_rank(before[i as int].0, 0);
                lemma_replace(before, i as int, (key, value));
            }
            entries.set(i, (key, value));
        } else {
            proof {
                lemma_insert(before, i as int, (key, value));
            }
            entries.insert(i, (key, value));
        }
        ParamMap { entries }
    }

    /// The text assigned to `key`, if any.
    pub fn get(&self, key: Param) -> (out: Option<&String>)
        ensures
            match out {
                Some(value) => self@.contains_key(key) && self@[key] == value@,
                None => !self@.contains_key(key),
            },
    {
        proof {
            use_type_invariant(self);
        }
        let mut i: usize = 0;
        while i < self.entries.len()
            invariant
                i <= self.entries.len(),
                sorted(self.entries@),
                forall|j: int| 0 <= j < i ==> (#[trigger] self.entries@[j]).0 != key,
            decreases self.entries.len() - i,
        {
            if self.entries[i].0 == key {
                proof {
                    lemma_lookup(self.entries@, i as int);
                }
                return Some(&self.entries[i].1);
            }
            i = i + 1;
        }
        proof {
            if has_key(self.entries@, key) {
                let j = index_of(self.entries@, key);
                assert(self.entries@[j].0 == key);
            }
        }
        None
    }

    /// Whether nothing is assigned.
    pub fn is_empty(&self) -> (out: bool)
        ensures
            out <==> query_pairs(self@).len() == 0,
            out <==> self@ == Map::<Param, Seq<char>>::empty(),
    {
        proof {
            use_type_invariant(self);
            let s = self.entries@;
            lemma_pairs_below(s, 14);
            lemma_count_below(s, 14);
            assert(count_below(s, 14) == s.len()) by {
                if count_below(s, 14) < s.len() {
                    let c = count_below(s, 14) as int;
                    lemma_rank_of_rank(s[c].0, 0);
                }
            }
            assert(s.take(s.len() as int) =~= s);
            if s.len() > 0 {
                lemma_lookup(s, 0);
            } else {
                assert(self@ =~= Map::<Param, Seq<char>>::empty());
            }
        }
        self.entries.len() == 0
    }

    /// The (name, value) pairs of the mapping, in canonical order.
    pub fn pairs(&self) -> (out: Vec<(String, String)>)
        ensures
            pairs_view(out@) == query_pairs(self@),
    {
        proof {
            use_type_invariant(self);
        }
        let mut out: Vec<(String, String)> = Vec::new();
        let mut i: usize = 0;
        while i < self.entries.len()
            invariant
                i <= self.entries.len(),
                pairs_view(out@) == entry_pairs(self.entries@.take(i as int)),
            decreases self.entries.len() - i,
        {
            let name = self.entries[i].0.name().to_string();
            let value = self.entries[i].1.clone();
            let ghost before = out@;
            out.push((name, value));
            proof {
                let s = self.entries@;
                assert(s.take(i + 1) =~= s.take(i as int).push(s[i as int]));
                assert(pairs_view(out@) =~= pairs_view(before).push(
                    (s[i as int].0.wire_name(), s[i as int].1@),
                ));
                assert(entry_pairs(s.take(i + 1)) =~= entry_pairs(s.take(i as int)).push(
                    (s[i as int].0.wire_name(), s[i as int].1@),
                ));
            }
            i = i + 1;
        }
        proof {
            let s = self.entries@;
            lemma_pairs_below(s, 14);
            lemma_count_below(s, 14);
            assert(count_below(s, 14) == s.len()) by {
                if count_below(s, 14) < s.len() {
                    let c = count_below(s, 14) as int;
                    lemma_rank_of_rank(s[c].0, 0);
                }
            }
            assert(s.take(s.len() as int) =~= s);
        }
        out
    }
}

impl Clone for ParamMap {
    /// A copy that shares nothing with `self`.
    fn clone(&self) -> (out: ParamMap)
        ensures
            out@ == self@,
    {
        proof {
            use_type_invariant(self);
        }
        let mut entries: Vec<(Param, String)> = Vec::new();
        let mut i: usize = 0;
        while i < self.entries.len()
            invariant
                i <= self.entries.len(),
                entries@ == self.entries@.take(i as int),
            decreases self.entries.len() - i,
        {
            entries.push((self.entries[i].0, self.entries[i].1.clone()));
            proof {
                let s = self.entries@;
                assert(s.take(i + 1) =~= s.take(i as int).push(s[i as int]));
            }
            i = i + 1;
        }
        proof {
            assert(self.entries@.take(self.entries.len() as int) =~= self.entries@);
        }
        ParamMap { entries }
    }
}

} // verus!
