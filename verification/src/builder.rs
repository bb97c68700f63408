//! Search criteria and the builder that stages them.
//!
//! Criteria map parameter names to text, one value per name. A builder
//! collects assignments, later ones replacing earlier ones for the same name;
//! `build` copies what was staged into an immutable [`SearchOptions`], and
//! `as_builder` copies it back out.

use crate::params::{query_pairs, Param, ParamMap};
use crate::query::{form_urlencode, form_urlencoded};
use crate::rep::{Angebotsart, Arbeitszeit, Befristung};
use crate::text::{decimal, lemma_parse_decimal, parse_u64, parsed_u64, u64_to_string};
use vstd::prelude::*;
use vstd::string::StringExecFns;

verus! {

/// The most results that a page can hold.
pub const MAX_PAGE_SIZE: u64 = 100;

/// The most days that a search can look back.
pub const MAX_DAYS: u64 = 100;

/// `n`, or `cap` where `n` is above it.
pub open spec fn capped(n: u64, cap: u64) -> u64 {
    if n > cap {
        cap
    } else {
        n
    }
}

/// The text that stands for a flag.
pub open spec fn bool_text(flag: bool) -> Seq<char> {
    if flag {
        "true"@
    } else {
        "false"@
    }
}

/// The texts in order with `sep` between them.
pub open spec fn joined(parts: Seq<Seq<char>>, sep: char) -> Seq<char>
    decreases parts.len(),
{
    if parts.len() == 0 {
        Seq::empty()
    } else if parts.len() == 1 {
        parts[0]
    } else {
        joined(parts.drop_last(), sep).push(sep) + parts.last()
    }
}

/// The views of a list of static texts.
pub open spec fn str_views(parts: Seq<&'static str>) -> Seq<Seq<char>> {
    Seq::new(parts.len(), |i: int| parts[i]@)
}

/// The wire texts of a list of contract types.
pub open spec fn befristung_texts(types: Seq<Befristung>) -> Seq<Seq<char>> {
    Seq::new(types.len(), |i: int| types[i].wire())
}

/// The wire texts of a list of working-time models.
pub open spec fn arbeitszeit_texts(times: Seq<Arbeitszeit>) -> Seq<Seq<char>> {
    Seq::new(times.len(), |i: int| times[i].wire())
}

/// The query string of a set of criteria: nothing where no parameter is
/// assigned, else the form encoding of the assigned pairs in canonical order.
pub open spec fn query_string(m: Map<Param, Seq<char>>) -> Option<Seq<char>> {
    if query_pairs(m).len() == 0 {
        None
    } else {
        Some(form_urlencoded(query_pairs(m)))
    }
}

/// The number that `m` holds under `key`, if it holds one.
pub open spec fn number_at(m: Map<Param, Seq<char>>, key: Param) -> Option<u64> {
    if m.contains_key(key) {
        parsed_u64(m[key])
    } else {
        None
    }
}

/// The mapping after the assignments of `list` were made to `m`, first to last.
pub open spec fn assigned(m: Map<Param, Seq<char>>, list: Seq<(Param, Seq<char>)>) -> Map<
    Param,
    Seq<char>,
>
    decreases list.len(),
{
    if list.len() == 0 {
        m
    } else {
        assigned(m, list.drop_last()).insert(list.last().0, list.last().1)
    }
}

/// Whether no parameter is assigned twice in `list`.
pub open spec fn distinct_keys(list: Seq<(Param, Seq<char>)>) -> bool {
    forall|i: int, j: int|
        0 <= i < j < list.len() ==> (#[trigger] list[i]).0 != (#[trigger] list[j]).0
}

/// Immutable search criteria.
#[derive(Debug)]
pub struct SearchOptions {
    params: ParamMap,
}

/// Staging area for search criteria.
#[derive(Debug)]
pub struct SearchOptionsBuilder {
    params: ParamMap,
}

impl View for SearchOptions {
    type V = Map<Param, Seq<char>>;

    closed spec fn view(&self) -> Map<Param, Seq<char>> {
        self.params@
    }
}

impl View for SearchOptionsBuilder {
    type V = Map<Param, Seq<char>>;

    closed spec fn view(&self) -> Map<Param, Seq<char>> {
        self.params@
    }
}

impl Clone for SearchOptions {
    fn clone(&self) -> (out: SearchOptions)
        ensures
            out@ == self@,
    {
        SearchOptions { params: self.params.clone() }
    }
}

impl Default for SearchOptions {
    /// Criteria that assign nothing.
    fn default() -> (out: SearchOptions)
        ensures
            out@ == Map::<Param, Seq<char>>::empty(),
    {
        SearchOptions { params: ParamMap::new() }
    }
}

impl Default for SearchOptionsBuilder {
    /// A builder with nothing staged.
    fn default() -> (out: SearchOptionsBuilder)
        ensures
            out@ == Map::<Param, Seq<char>>::empty(),
    {
        SearchOptionsBuilder { params: ParamMap::new() }
    }
}

impl SearchOptions {
    /// A builder with nothing staged.
    pub fn builder() -> (out: SearchOptionsBuilder)
        ensures
            out@ == Map::<Param, Seq<char>>::empty(),
    {
        SearchOptionsBuilder::new()
    }

    /// The criteria as a query string; `None` where no parameter is assigned.
    pub fn serialize(&self) -> (out: Option<String>)
        ensures
            match out {
                Some(query) => query_string(self@) == Some(query@),
                None => query_string(self@) is None,
            },
            out is None <==> self@ == Map::<Param, Seq<char>>::empty(),
    {
        if self.params.is_empty() {
            None
        } else {
            let pairs = self.params.pairs();
            Some(form_urlencode(&pairs))
        }
    }

    /// A builder staged with a copy of these criteria.
    pub fn as_builder(&self) -> (out: SearchOptionsBuilder)
        ensures
            out@ == self@,
    {
        SearchOptionsBuilder::copy_from(self)
    }

    /// The page number, where one is assigned and reads as a number.
    pub fn page(&self) -> (out: Option<u64>)
        ensures
            out == number_at(self@, Param::Page),
    {
        match self.params.get(Param::Page) {
            Some(text) => parse_u64(text.as_str()),
            None => None,
        }
    }

    /// The page size, where one is assigned and reads as a number.
    pub fn size(&self) -> (out: Option<u64>)
        ensures
            out == number_at(self@, Param::Size),
    {
        match self.params.get(Param::Size) {
            Some(text) => parse_u64(text.as_str()),
            None => None,
        }
    }
}

/// Joins wire texts with `;`.
fn join_semicolon(parts: &Vec<&'static str>) -> (out: String)
    ensures
        out@ == joined(str_views(parts@), ';'),
{
    let ghost views = str_views(parts@);
    let mut out = String::new();
    let mut i: usize = 0;
    while i < parts.len()
        invariant
            i <= parts.len(),
            views == str_views(parts@),
            out@ == joined(views.take(i as int), ';'),
        decreases parts.len() - i,
    {
        let ghost before = out@;
        if i > 0 {
            out.push(';');
        }
        out.append(parts[i]);
        proof {
            let next = views.take(i + 1);
            assert(next.drop_last() =~= views.take(i as int));
            assert(next.last() == parts@[i as int]@);
            if i == 0 {
                assert(before =~= Seq::<char>::empty());
                assert(out@ =~= next[0]);
            }
        }
        i = i + 1;
    }
    proof {
        assert(views.take(parts.len() as int) =~= views);
    }
    out
}

impl SearchOptionsBuilder {
    /// A builder with nothing staged.
    pub fn new() -> (out: SearchOptionsBuilder)
        ensures
            out@ == Map::<Param, Seq<char>>::empty(),
    {
        SearchOptionsBuilder { params: ParamMap::new() }
    }

    /// A builder staged with a copy of `search_options`.
    pub fn copy_from(search_options: &SearchOptions) -> (out: SearchOptionsBuilder)
        ensures
            out@ == search_options@,
    {
        SearchOptionsBuilder { params: search_options.params.clone() }
    }

    /// Stages `value` for `key`, in place of what was staged for `key` before.
    fn assign(&mut self, key: Param, value: String)
        ensures
            final(self)@ == old(self)@.insert(key, value@),
    {
        let mut params = ParamMap::new();
        core::mem::swap(&mut self.params, &mut params);
        self.params = params.with(key, value);
    }

    /// Free text search for the job title.
    pub fn was(&mut self, job_title: &str) -> (out: &mut SearchOptionsBuilder)
        ensures
            out@ == old(self)@.insert(Param::Was, job_title@),
            *final(self) == *final(out),
    {
        self.assign(Param::Was, job_title.to_string());
        self
    }

    /// Free text search for the location.
    pub fn wo(&mut self, location: &str) -> (out: &mut SearchOptionsBuilder)
        ensures
            out@ == old(self)@.insert(Param::Wo, location@),
            *final(self) == *final(out),
    {
        self.assign(Param::Wo, location.to_string());
        self
    }

    /// Free text search for the occupational field.
    pub fn berufsfeld(&mut self, field: &str) -> (out: &mut SearchOptionsBuilder)
        ensures
            out@ == old(self)@.insert(Param::Berufsfeld, field@),
            *final(self) == *final(out),
    {
        self.assign(Param::Berufsfeld, field.to_string());
        self
    }

    /// Page to request.
    pub fn page(&mut self, p: u64) -> (out: &mut SearchOptionsBuilder)
        ensures
            out@ == old(self)@.insert(Param::Page, decimal(p as nat)),
            *final(self) == *final(out),
    {
        self.assign(Param::Page, u64_to_string(p));
        self
    }

    /// Results per page. Values above the cap are stored as the cap.
    pub fn size(&mut self, s: u64) -> (out: &mut SearchOptionsBuilder)
        ensures
            out@ == old(self)@.insert(Param::Size, decimal(capped(s, MAX_PAGE_SIZE) as nat)),
            *final(self) == *final(out),
    {
        let stored: u64 = if s > MAX_PAGE_SIZE { MAX_PAGE_SIZE } else { s };
        self.assign(Param::Size, u64_to_string(stored));
        self
    }

    /// Employer name; the service matches it exactly and with case.
    pub fn arbeitgeber(&mut self, employer: &str) -> (out: &mut SearchOptionsBuilder)
        ensures
            out@ == old(self)@.insert(Param::Arbeitgeber, employer@),
            *final(self) == *final(out),
    {
        self.assign(Param::Arbeitgeber, employer.to_string());
        self
    }

    /// Days since publication. Values above the cap are stored as the cap.
    pub fn veroeffentlichtseit(&mut self, days: u64) -> (out: &mut SearchOptionsBuilder)
        ensures
            out@ == old(self)@.insert(
                Param::Veroeffentlichtseit,
                decimal(capped(days, MAX_DAYS) as nat),
            ),
            *final(self) == *final(out),
    {
        let stored: u64 = if days > MAX_DAYS { MAX_DAYS } else { days };
        self.assign(Param::Veroeffentlichtseit, u64_to_string(stored));
        self
    }

    /// Whether offers of temporary-employment agencies are wanted too.
    pub fn zeitarbeit(&mut self, with_agencies: bool) -> (out: &mut SearchOptionsBuilder)
        ensures
            out@ == old(self)@.insert(Param::Zeitarbeit, bool_text(with_agencies)),
            *final(self) == *final(out),
    {
        let text = if with_agencies { "true" } else { "false" };
        self.assign(Param::Zeitarbeit, text.to_string());
        self
    }

    /// Kind of offer.
    pub fn angebotsart(&mut self, art: Angebotsart) -> (out: &mut SearchOptionsBuilder)
        ensures
            out@ == old(self)@.insert(Param::Angebotsart, art.wire()),
            *final(self) == *final(out),
    {
        self.assign(Param::Angebotsart, art.as_str().to_string());
        self
    }

    /// Contract types, stored as their wire texts joined with `;`.
    pub fn befristung(&mut self, types: Vec<Befristung>) -> (out: &mut SearchOptionsBuilder)
        ensures
            out@ == old(self)@.insert(
                Param::Befristung,
                joined(befristung_texts(types@), ';'),
            ),
            *final(self) == *final(out),
    {
        let mut parts: Vec<&'static str> = Vec::new();
        let mut i: usize = 0;
        while i < types.len()
            invariant
                i <= types.len(),
                parts.len() == i,
                str_views(parts@) == befristung_texts(types@.take(i as int)),
            decreases types.len() - i,
        {
            let ghost before = parts@;
            parts.push(types[i].as_str());
            proof {
                let done = befristung_texts(types@.take(i as int));
                let next = befristung_texts(types@.take(i + 1));
                assert forall|j: int| 0 <= j < next.len() implies str_views(parts@)[j] == next[j] by {
                    if j < i {
                        assert(str_views(before)[j] == done[j]);
                    }
                }
                assert(str_views(parts@) =~= next);
            }
            i = i + 1;
        }
        proof {
            assert(types@.take(types.len() as int) =~= types@);
        }
        self.assign(Param::Befristung, join_semicolon(&parts));
        self
    }

    /// Working-time models, stored as their wire texts joined with `;`.
    pub fn arbeitszeit(&mut self, times: Vec<Arbeitszeit>) -> (out: &mut SearchOptionsBuilder)
        ensures
            out@ == old(self)@.insert(
                Param::Arbeitszeit,
                joined(arbeitszeit_texts(times@), ';'),
            ),
            *final(self) == *final(out),
    {
        let mut parts: Vec<&'static str> = Vec::new();
        let mut i: usize = 0;
        while i < times.len()
            invariant
                i <= times.len(),
                parts.len() == i,
                str_views(parts@) == arbeitszeit_texts(times@.take(i as int)),
            decreases times.len() - i,
        {
            let ghost before = parts@;
            parts.push(times[i].as_str());
            proof {
                let done = arbeitszeit_texts(times@.take(i as int));
                let next = arbeitszeit_texts(times@.take(i + 1));
                assert forall|j: int| 0 <= j < next.len() implies str_views(parts@)[j] == next[j] by {
                    if j < i {
                        assert(str_views(before)[j] == done[j]);
                    }
                }
                assert(str_views(parts@) =~= next);
            }
            i = i + 1;
        }
        proof {
            assert(times@.take(times.len() as int) =~= times@);
        }
        self.assign(Param::Arbeitszeit, join_semicolon(&parts));
        self
    }

    /// Whether only offers suited to people with disabilities are wanted.
    pub fn behinderung(&mut self, suitable: bool) -> (out: &mut SearchOptionsBuilder)
        ensures
            out@ == old(self)@.insert(Param::Behinderung, bool_text(suitable)),
            *final(self) == *final(out),
    {
        let text = if suitable { "true" } else { "false" };
        self.assign(Param::Behinderung, text.to_string());
        self
    }

    /// Whether only offers made in the context of the pandemic are wanted.
    pub fn corona(&mut self, corona_related: bool) -> (out: &mut SearchOptionsBuilder)
        ensures
            out@ == old(self)@.insert(Param::Corona, bool_text(corona_related)),
            *final(self) == *final(out),
    {
        let text = if corona_related { "true" } else { "false" };
        self.assign(Param::Corona, text.to_string());
        self
    }

    /// Search radius round the location, in kilometres.
    pub fn umkreis(&mut self, radius_km: u64) -> (out: &mut SearchOptionsBuilder)
        ensures
            out@ == old(self)@.insert(Param::Umkreis, decimal(radius_km as nat)),
            *final(self) == *final(out),
    {
        self.assign(Param::Umkreis, u64_to_string(radius_km));
        self
    }

    /// Criteria holding a copy of what is staged; the builder stays as it is.
    pub fn build(&self) -> (out: SearchOptions)
        ensures
            out@ == self@,
    {
        SearchOptions { params: self.params.clone() }
    }
}

/// Whether `list` assigns to `key`.
pub open spec fn assigns(list: Seq<(Param, Seq<char>)>, key: Param) -> bool {
    exists|i: int| 0 <= i < list.len() && (#[trigger] list[i]).0 == key
}

/// What a list of assignments without repeated parameters makes of a
/// mapping at `key`: the listed value where `key` is listed, else what was there.
proof fn lemma_assigned(m: Map<Param, Seq<char>>, list: Seq<(Param, Seq<char>)>, key: Param)
    requires
        distinct_keys(list),
    ensures
        assigned(m, list).contains_key(key) <==> (m.contains_key(key) || assigns(list, key)),
        forall|i: int|
            0 <= i < list.len() && (#[trigger] list[i]).0 == key ==> assigned(m, list)[key]
                == list[i].1,
        !assigns(list, key) && m.contains_key(key) ==> assigned(m, list)[key] == m[key],
    decreases list.len(),
{
    if list.len() > 0 {
        let head = list.drop_last();
        let last = list.last();
        assert forall|i: int, j: int| 0 <= i < j < head.len() implies (#[trigger] head[i]).0 != (
        #[trigger] head[j]).0 by {
            assert(head[i] == list[i] && head[j] == list[j]);
        }
        lemma_assigned(m, head, key);
        if assigns(head, key) {
            let i = choose|i: int| 0 <= i < head.len() && (#[trigger] head[i]).0 == key;
            assert(list[i] == head[i]);
            assert(list[i].0 != list[list.len() - 1].0);
        }
        if assigns(list, key) && last.0 != key {
            let i = choose|i: int| 0 <= i < list.len() && (#[trigger] list[i]).0 == key;
            assert(head[i] == list[i]);
        }
        assert forall|i: int| 0 <= i < list.len() && (#[trigger] list[i]).0 == key implies assigned(
            m,
            list,
        )[key] == list[i].1 by {
            if i < list.len() - 1 {
                assert(head[i] == list[i]);
                assert(list[i].0 != list[list.len() - 1].0);
            }
        }
        if last.0 == key {
            assert(list[list.len() - 1].0 == key);
        }
    }
}

/// Assignments to different parameters can be made in either order: the
/// criteria, and so the query string, come out the same.
pub proof fn lemma_assignments_commute(
    m: Map<Param, Seq<char>>,
    first: (Param, Seq<char>),
    second: (Param, Seq<char>),
)
    requires
        first.0 != second.0,
    ensures
        m.insert(first.0, first.1).insert(second.0, second.1) == m.insert(
            second.0,
            second.1,
        ).insert(first.0, first.1),
        query_string(m.insert(first.0, first.1).insert(second.0, second.1)) == query_string(
            m.insert(second.0, second.1).insert(first.0, first.1),
        ),
{
    assert(m.insert(first.0, first.1).insert(second.0, second.1) =~= m.insert(
        second.0,
        second.1,
    ).insert(first.0, first.1));
}

/// The order of insertion does not show in the encoding: two lists that
/// hold the same assignments, each parameter at most once, lead from the
/// same criteria to the same criteria and the same query string.
pub proof fn lemma_insertion_order(
    m: Map<Param, Seq<char>>,
    a: Seq<(Param, Seq<char>)>,
    b: Seq<(Param, Seq<char>)>,
)
    requires
        distinct_keys(a),
        distinct_keys(b),
        forall|x: (Param, Seq<char>)| a.contains(x) <==> b.contains(x),
    ensures
        assigned(m, a) == assigned(m, b),
        query_string(assigned(m, a)) == query_string(assigned(m, b)),
{
    let ma = assigned(m, a);
    let mb = assigned(m, b);
    assert forall|k: Param|
        (#[trigger] ma.dom().contains(k) <==> mb.dom().contains(k)) && (ma.dom().contains(k)
            ==> ma[k] == mb[k]) by {
        lemma_assigned(m, a, k);
        lemma_assigned(m, b, k);
        if assigns(a, k) {
            let i = choose|i: int| 0 <= i < a.len() && (#[trigger] a[i]).0 == k;
            assert(a.contains(a[i]));
            assert(b.contains(a[i]));
            let j = choose|j: int| 0 <= j < b.len() && b[j] == a[i];
            assert(b[j].0 == k);
        }
        if assigns(b, k) {
            let j = choose|j: int| 0 <= j < b.len() && (#[trigger] b[j]).0 == k;
            assert(b.contains(b[j]));
            assert(a.contains(b[j]));
            let i = choose|i: int| 0 <= i < a.len() && a[i] == b[j];
            assert(a[i].0 == k);
        }
    }
    assert(ma =~= mb);
}

/// A size above the cap is stored, and read back, as the cap; a size up to
/// the cap as itself.
pub proof fn lemma_size_is_capped(m: Map<Param, Seq<char>>, size: u64)
    ensures
        capped(size, MAX_PAGE_SIZE) == if size > 100 {
            100u64
        } else {
            size
        },
        number_at(
            m.insert(Param::Size, decimal(capped(size, MAX_PAGE_SIZE) as nat)),
            Param::Size,
        ) == Some(capped(size, MAX_PAGE_SIZE)),
{
    lemma_parse_decimal(capped(size, MAX_PAGE_SIZE));
}

/// A page number is read back as it was assigned.
pub proof fn lemma_page_is_kept(m: Map<Param, Seq<char>>, page: u64)
    ensures
        number_at(m.insert(Param::Page, decimal(page as nat)), Param::Page) == Some(page),
{
    lemma_parse_decimal(page);
}

} // verus!
