//! Candidate articles and the set they are gathered in, unique by source URL.

use vstd::prelude::*;

verus! {

/// A candidate as values: its title, its description and its source URL.
pub type CandidateView = (Seq<char>, Seq<char>, Seq<char>);

/// A possible resolution of the user's intent.
#[derive(Clone, Debug)]
pub struct CandidateArticle {
    pub title: String,
    pub description: String,
    pub url: String,
}

impl View for CandidateArticle {
    type V = CandidateView;

    open spec fn view(&self) -> CandidateView {
        (self.title@, self.description@, self.url@)
    }
}

impl CandidateArticle {
    pub fn new(title: String, description: String, url: String) -> (r: CandidateArticle)
        ensures
            r@ == (title@, description@, url@),
    {
        CandidateArticle { title, description, url }
    }

    /// A copy that keeps every field.
    pub fn duplicate(&self) -> (r: CandidateArticle)
        ensures
            r@ == self@,
    {
        CandidateArticle {
            title: self.title.clone(),
            description: self.description.clone(),
            url: self.url.clone(),
        }
    }
}

/// The views of a sequence of candidates.
pub open spec fn candidate_views(v: Seq<CandidateArticle>) -> Seq<CandidateView> {
    v.map_values(|c: CandidateArticle| c@)
}

/// No two entries share a source URL.
pub open spec fn unique_urls(s: Seq<CandidateView>) -> bool {
    forall|i: int, j: int| 0 <= i < s.len() && 0 <= j < s.len() && i != j ==> s[i].2 != s[j].2
}

/// Some entry has source URL `u`.
pub open spec fn has_url(s: Seq<CandidateView>, u: Seq<char>) -> bool {
    exists|i: int| 0 <= i < s.len() && (#[trigger] s[i]).2 == u
}

/// `s` after gathering `c`: an entry with the same source URL is replaced in
/// place, otherwise `c` is appended.
pub open spec fn with_candidate(s: Seq<CandidateView>, c: CandidateView) -> Seq<CandidateView> {
    if has_url(s, c.2) {
        s.update(choose|i: int| 0 <= i < s.len() && (#[trigger] s[i]).2 == c.2, c)
    } else {
        s.push(c)
    }
}

/// `s` after gathering each of `cs` in turn.
pub open spec fn with_all(s: Seq<CandidateView>, cs: Seq<CandidateView>) -> Seq<CandidateView>
    decreases cs.len(),
{
    if cs.len() == 0 {
        s
    } else {
        with_candidate(with_all(s, cs.drop_last()), cs.last())
    }
}

/// In a sequence with unique URLs, the entry with a given URL is the one at `i`.
pub proof fn lemma_url_position(s: Seq<CandidateView>, c: CandidateView, i: int)
    requires
        unique_urls(s),
        0 <= i < s.len(),
        s[i].2 == c.2,
    ensures
        with_candidate(s, c) == s.update(i, c),
{
    let k = choose|k: int| 0 <= k < s.len() && (#[trigger] s[k]).2 == c.2;
    assert(k == i);
}

/// Gathering keeps source URLs unique.
pub proof fn lemma_gathering_keeps_unique(s: Seq<CandidateView>, c: CandidateView)
    requires
        unique_urls(s),
    ensures
        unique_urls(with_candidate(s, c)),
{
    if has_url(s, c.2) {
        let k = choose|k: int| 0 <= k < s.len() && (#[trigger] s[k]).2 == c.2;
        lemma_url_position(s, c, k);
    }
}

/// Candidates that share a source URL are the same candidate.
pub open spec fn consistent(cs: Seq<CandidateView>) -> bool {
    forall|i: int, j: int|
        0 <= i < cs.len() && 0 <= j < cs.len() && (#[trigger] cs[i]).2 == (#[trigger] cs[j]).2 ==> cs[i]
            == cs[j]
}

proof fn lemma_gathering_all_keeps_unique(s: Seq<CandidateView>, cs: Seq<CandidateView>)
    requires
        unique_urls(s),
    ensures
        unique_urls(with_all(s, cs)),
    decreases cs.len(),
{
    if cs.len() > 0 {
        lemma_gathering_all_keeps_unique(s, cs.drop_last());
        lemma_gathering_keeps_unique(with_all(s, cs.drop_last()), cs.last());
    }
}

proof fn lemma_gathered_members(s: Seq<CandidateView>, cs: Seq<CandidateView>)
    requires
        unique_urls(s),
        consistent(s + cs),
    ensures
        forall|x: CandidateView|
            #[trigger] with_all(s, cs).contains(x) <==> (s.contains(x) || cs.contains(x)),
    decreases cs.len(),
{
    if cs.len() > 0 {
        let prefix = cs.drop_last();
        let c = cs.last();
        let whole = s + cs;
        assert(s + prefix =~= whole.drop_last());
        assert forall|i: int, j: int|
            0 <= i < (s + prefix).len() && 0 <= j < (s + prefix).len() && (#[trigger] (s + prefix)[i]).2
                == (#[trigger] (s + prefix)[j]).2 implies (s + prefix)[i] == (s + prefix)[j] by {
            assert((s + prefix)[i] == whole[i]);
            assert((s + prefix)[j] == whole[j]);
        }
        lemma_gathered_members(s, prefix);
        lemma_gathering_all_keeps_unique(s, prefix);
        let t = with_all(s, prefix);
        let n = whole.len() - 1;
        assert(whole[n] == c);
        if has_url(t, c.2) {
            let k = choose|k: int| 0 <= k < t.len() && (#[trigger] t[k]).2 == c.2;
            lemma_url_position(t, c, k);
            assert(t.contains(t[k]));
            let m: int = if s.contains(t[k]) {
                choose|m: int| 0 <= m < s.len() && s[m] == t[k]
            } else {
                let m2 = choose|m2: int| 0 <= m2 < prefix.len() && prefix[m2] == t[k];
                s.len() + m2
            };
            assert(whole[m] == t[k]);
            assert(t[k] == c);
            assert(t.update(k, c) =~= t);
        }
        assert forall|x: CandidateView|
            #[trigger] with_all(s, cs).contains(x) <==> (s.contains(x) || cs.contains(x)) by {
            if cs.contains(x) && !prefix.contains(x) {
                let m = choose|m: int| 0 <= m < cs.len() && cs[m] == x;
                if m < prefix.len() {
                    assert(prefix[m] == x);
                }
                assert(x == c);
                if !has_url(t, c.2) {
                    assert(t.push(c)[t.len() as int] == c);
                }
            }
            if prefix.contains(x) {
                let m = choose|m: int| 0 <= m < prefix.len() && prefix[m] == x;
                assert(cs[m] == x);
            }
            if !has_url(t, c.2) {
                if t.push(c).contains(x) && x != c {
                    let m = choose|m: int| 0 <= m < t.push(c).len() && t.push(c)[m] == x;
                    assert(t[m] == x);
                }
                if t.contains(x) {
                    let m = choose|m: int| 0 <= m < t.len() && t[m] == x;
                    assert(t.push(c)[m] == x);
                }
            }
        }
    }
}

/// Gathering ignores the order in which candidates come: two sequences of
/// candidates with the same members, in which candidates sharing a source URL
/// are the same, gather into the same set of entries, each source URL once.
pub proof fn lemma_gathering_ignores_order(a: Seq<CandidateView>, b: Seq<CandidateView>)
    requires
        forall|x: CandidateView| a.contains(x) <==> b.contains(x),
        consistent(a),
    ensures
        forall|x: CandidateView|
            #[trigger] with_all(Seq::empty(), a).contains(x) <==> with_all(Seq::empty(), b).contains(x),
        unique_urls(with_all(Seq::empty(), a)),
        unique_urls(with_all(Seq::empty(), b)),
{
    let e = Seq::<CandidateView>::empty();
    assert(e + a =~= a);
    assert(e + b =~= b);
    assert forall|i: int, j: int|
        0 <= i < b.len() && 0 <= j < b.len() && (#[trigger] b[i]).2 == (#[trigger] b[j]).2 implies b[i] == b[j] by {
        assert(b.contains(b[i]));
        assert(b.contains(b[j]));
        let p = choose|p: int| 0 <= p < a.len() && a[p] == b[i];
        let q = choose|q: int| 0 <= q < a.len() && a[q] == b[j];
    }
    lemma_gathered_members(e, a);
    lemma_gathered_members(e, b);
    lemma_gathering_all_keeps_unique(e, a);
    lemma_gathering_all_keeps_unique(e, b);
}

/// Two candidates with the same source URL collapse into one entry: gathering
/// both leaves what gathering the later one alone leaves, whichever comes
/// first, and either order leaves as many entries, with the same URLs.
pub proof fn lemma_same_url_collapses(s: Seq<CandidateView>, a: CandidateView, b: CandidateView)
    requires
        unique_urls(s),
        a.2 == b.2,
    ensures
        with_candidate(with_candidate(s, a), b) == with_candidate(s, b),
        with_candidate(with_candidate(s, b), a) == with_candidate(s, a),
        with_candidate(with_candidate(s, a), b).len() == with_candidate(with_candidate(s, b), a).len(),
        forall|i: int|
            0 <= i < with_candidate(s, a).len() ==> (#[trigger] with_candidate(s, a)[i]).2
                == with_candidate(s, b)[i].2,
{
    lemma_one_then_other(s, a, b);
    lemma_one_then_other(s, b, a);
    if has_url(s, a.2) {
        let k = choose|k: int| 0 <= k < s.len() && (#[trigger] s[k]).2 == a.2;
        lemma_url_position(s, a, k);
        lemma_url_position(s, b, k);
    }
}

proof fn lemma_one_then_other(s: Seq<CandidateView>, a: CandidateView, b: CandidateView)
    requires
        unique_urls(s),
        a.2 == b.2,
    ensures
        with_candidate(with_candidate(s, a), b) == with_candidate(s, b),
{
    lemma_gathering_keeps_unique(s, a);
    let sa = with_candidate(s, a);
    if has_url(s, a.2) {
        let k = choose|k: int| 0 <= k < s.len() && (#[trigger] s[k]).2 == a.2;
        lemma_url_position(s, a, k);
        lemma_url_position(s, b, k);
        lemma_url_position(sa, b, k);
        assert(sa.update(k, b) =~= s.update(k, b));
    } else {
        let n = s.len() as int;
        assert(sa[n].2 == b.2);
        lemma_url_position(sa, b, n);
        assert(sa.update(n, b) =~= s.push(b));
    }
}

/// Candidates gathered so far, at most one per source URL.
pub struct CandidateSet {
    items: Vec<CandidateArticle>,
}

impl View for CandidateSet {
    type V = Seq<CandidateView>;

    closed spec fn view(&self) -> Seq<CandidateView> {
        candidate_views(self.items@)
    }
}

impl CandidateSet {
    /// Source URLs are unique.
    pub open spec fn wf(&self) -> bool {
        unique_urls(self@)
    }

    pub fn new() -> (r: CandidateSet)
        ensures
            r.wf(),
            r@ == Seq::<CandidateView>::empty(),
    {
        let r = CandidateSet { items: Vec::new() };
        assert(r@ =~= Seq::<CandidateView>::empty());
        r
    }

    pub fn len(&self) -> (r: usize)
        ensures
            r == self@.len(),
    {
        self.items.len()
    }

    /// Gathers `c`: it replaces the entry with its source URL, if there is
    /// one, and is appended otherwise.
    pub fn insert(&mut self, c: CandidateArticle)
        requires
            old(self).wf(),
        ensures
            final(self).wf(),
            final(self)@ == with_candidate(old(self)@, c@),
    {
        let ghost s = self@;
        let mut i: usize = 0;
        while i < self.items.len()
            invariant
                i <= self.items.len(),
                s == self@,
                s == old(self)@,
                unique_urls(s),
                forall|j: int| 0 <= j < i ==> (#[trigger] s[j]).2 != c@.2,
            decreases self.items.len() - i,
        {
            assert(s[i as int] == self.items@[i as int]@);
            if string_eq(&self.items[i].url, &c.url) {
                proof {
                    lemma_url_position(s, c@, i as int);
                    lemma_gathering_keeps_unique(s, c@);
                }
                self.items.set(i, c);
                assert(self@ =~= s.update(i as int, c@));
                return;
            }
            i = i + 1;
        }
        proof {
            lemma_gathering_keeps_unique(s, c@);
        }
        self.items.push(c);
        assert(self@ =~= s.push(c@));
    }

    /// Gathers each of `cs` in turn.
    pub fn insert_all(&mut self, cs: Vec<CandidateArticle>)
        requires
            old(self).wf(),
        ensures
            final(self).wf(),
            final(self)@ == with_all(old(self)@, candidate_views(cs@)),
    {
        let ghost s = self@;
        let ghost cv = candidate_views(cs@);
        let mut i: usize = 0;
        while i < cs.len()
            invariant
                i <= cs.len(),
                cv == candidate_views(cs@),
                self.wf(),
                self@ == with_all(s, cv.take(i as int)),
            decreases cs.len() - i,
        {
            assert(cv.take(i as int + 1).drop_last() =~= cv.take(i as int));
            self.insert(cs[i].duplicate());
            i = i + 1;
        }
        assert(cv.take(cs.len() as int) =~= cv);
    }

    /// The gathered candidates, in the order the set keeps them.
    pub fn to_vec(&self) -> (r: Vec<CandidateArticle>)
        ensures
            candidate_views(r@) == self@,
    {
        let mut out: Vec<CandidateArticle> = Vec::new();
        let mut i: usize = 0;
        while i < self.items.len()
            invariant
                i <= self.items.len(),
                out@.len() == i,
                self@.len() == self.items@.len(),
                forall|j: int| 0 <= j < i ==> (#[trigger] out@[j])@ == self@[j],
            decreases self.items.len() - i,
        {
            let c = self.items[i].duplicate();
            assert(self@[i as int] == self.items@[i as int]@);
            out.push(c);
            i = i + 1;
        }
        assert(candidate_views(out@) =~= self@);
        out
    }
}

/// Whether two strings hold the same characters.
pub fn string_eq(a: &String, b: &String) -> (r: bool)
    ensures
        r == (a@ == b@),
{
    a.eq(b)
}

} // verus!
