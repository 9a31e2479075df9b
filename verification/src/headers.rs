use vstd::prelude::*;

verus! {

/// A header mapping as specifications see it: name/value pairs in wire
/// (iteration) order.
pub type HeaderSeq = Seq<(Seq<char>, Seq<char>)>;

/// Strict lexicographic order on character sequences, by code point;
/// the order a map keyed by strings iterates in.
pub open spec fn lex_lt(a: Seq<char>, b: Seq<char>) -> bool
    decreases a.len(),
{
    if b.len() == 0 {
        false
    } else if a.len() == 0 {
        true
    } else if a[0] != b[0] {
        (a[0] as int) < (b[0] as int)
    } else {
        lex_lt(a.drop_first(), b.drop_first())
    }
}

pub proof fn lemma_lex_irrefl(a: Seq<char>)
    ensures
        !lex_lt(a, a),
    decreases a.len(),
{
    if a.len() > 0 {
        lemma_lex_irrefl(a.drop_first());
    }
}

pub proof fn lemma_lex_total(a: Seq<char>, b: Seq<char>)
    ensures
        a == b || lex_lt(a, b) || lex_lt(b, a),
    decreases a.len(),
{
    if b.len() == 0 && a.len() == 0 {
        assert(a =~= b);
    }
    if a.len() > 0 && b.len() > 0 && a[0] == b[0] {
        lemma_lex_total(a.drop_first(), b.drop_first());
        if a.drop_first() == b.drop_first() {
            assert forall|i: int| 0 <= i < a.len() implies a[i] == b[i] by {
                if i > 0 {
                    assert(a[i] == a.drop_first()[i - 1]);
                    assert(b[i] == b.drop_first()[i - 1]);
                }
            }
            assert(a =~= b);
        }
    }
}

pub proof fn lemma_lex_asym(a: Seq<char>, b: Seq<char>)
    requires
        lex_lt(a, b),
    ensures
        !lex_lt(b, a),
        a != b,
    decreases a.len(),
{
    lemma_lex_irrefl(a);
    if a.len() > 0 && b.len() > 0 && a[0] == b[0] {
        lemma_lex_asym(a.drop_first(), b.drop_first());
        assert(a != b) by {
            if a == b {
                lemma_lex_irrefl(a);
            }
        }
    }
}

pub proof fn lemma_lex_trans(a: Seq<char>, b: Seq<char>, c: Seq<char>)
    requires
        lex_lt(a, b),
        lex_lt(b, c),
    ensures
        lex_lt(a, c),
    decreases a.len(),
{
    if a.len() > 0 && b.len() > 0 && c.len() > 0 {
        if a[0] == b[0] && b[0] == c[0] {
            lemma_lex_trans(a.drop_first(), b.drop_first(), c.drop_first());
        }
    }
}

/// Names strictly increase along the sequence; in particular they are
/// pairwise distinct.
pub open spec fn sorted_names(s: HeaderSeq) -> bool {
    forall|i: int, j: int| 0 <= i < j < s.len() ==> lex_lt(#[trigger] s[i].0, #[trigger] s[j].0)
}

/// Whether some pair carries the given name.
pub open spec fn has_name(s: HeaderSeq, k: Seq<char>) -> bool {
    exists|i: int| 0 <= i < s.len() && (#[trigger] s[i].0) == k
}

/// The value stored under a name that is present.
pub open spec fn name_value(s: HeaderSeq, k: Seq<char>) -> Seq<char> {
    s[choose|i: int| 0 <= i < s.len() && (#[trigger] s[i].0) == k].1
}

/// Insertion into a name-sorted sequence: a fresh name takes its place
/// in the order, a present name has its value overwritten.
pub open spec fn sorted_insert(s: HeaderSeq, k: Seq<char>, v: Seq<char>) -> HeaderSeq
    decreases s.len(),
{
    if s.len() == 0 {
        seq![(k, v)]
    } else if lex_lt(k, s[0].0) {
        seq![(k, v)] + s
    } else if k == s[0].0 {
        seq![(k, v)] + s.drop_first()
    } else {
        seq![s[0]] + sorted_insert(s.drop_first(), k, v)
    }
}

/// Where the scan for the first name not below `k` stops, that is what
/// `sorted_insert` produces.
proof fn lemma_sorted_insert_at(s: HeaderSeq, k: Seq<char>, v: Seq<char>, p: int)
    requires
        0 <= p <= s.len(),
        forall|i: int| 0 <= i < p ==> lex_lt(#[trigger] s[i].0, k),
        p < s.len() ==> !lex_lt(s[p].0, k),
    ensures
        sorted_insert(s, k, v) == if p < s.len() && s[p].0 == k {
            s.take(p) + seq![(k, v)] + s.skip(p + 1)
        } else {
            s.take(p) + seq![(k, v)] + s.skip(p)
        },
    decreases s.len(),
{
    if s.len() == 0 {
        assert(sorted_insert(s, k, v) =~= s.take(0) + seq![(k, v)] + s.skip(0));
    } else if p == 0 {
        if s[0].0 == k {
            assert(seq![(k, v)] + s.drop_first() =~= s.take(0) + seq![(k, v)] + s.skip(1));
        } else {
            lemma_lex_total(k, s[0].0);
            assert(lex_lt(k, s[0].0));
            assert(seq![(k, v)] + s =~= s.take(0) + seq![(k, v)] + s.skip(0));
        }
    } else {
        assert(lex_lt(s[0].0, k));
        lemma_lex_asym(s[0].0, k);
        let t = s.drop_first();
        assert forall|i: int| 0 <= i < p - 1 implies lex_lt(#[trigger] t[i].0, k) by {
            assert(t[i] == s[i + 1]);
        }
        assert(p - 1 < t.len() ==> !lex_lt(t[p - 1].0, k));
        lemma_sorted_insert_at(t, k, v, p - 1);
        if p < s.len() && s[p].0 == k {
            assert(seq![s[0]] + (t.take(p - 1) + seq![(k, v)] + t.skip(p)) =~= s.take(p) + seq![
                (k, v),
            ] + s.skip(p + 1));
        } else {
            assert(seq![s[0]] + (t.take(p - 1) + seq![(k, v)] + t.skip(p - 1)) =~= s.take(p)
                + seq![(k, v)] + s.skip(p));
        }
    }
}

/// A header mapping: names unique and case-sensitive, iterated in
/// sorted name order so that wire output is deterministic.
#[derive(Debug, Clone)]
pub struct Headers {
    pub(crate) entries: Vec<(String, String)>,
}

impl View for Headers {
    type V = HeaderSeq;

    closed spec fn view(&self) -> HeaderSeq {
        Seq::new(self.entries@.len(), |i: int| (self.entries@[i].0@, self.entries@[i].1@))
    }
}

impl Headers {
    /// The structural invariant: names strictly sorted.
    pub open spec fn wf(&self) -> bool {
        sorted_names(self@)
    }

    pub fn new() -> (r: Headers)
        ensures
            r@ == Seq::<(Seq<char>, Seq<char>)>::empty(),
            r.wf(),
    {
        let r = Headers { entries: Vec::new() };
        proof {
            assert(r@ =~= Seq::<(Seq<char>, Seq<char>)>::empty());
        }
        r
    }

    pub fn len(&self) -> (r: usize)
        ensures
            r == self@.len(),
    {
        self.entries.len()
    }

    /// The name of the pair at a position.
    pub fn name_at(&self, i: usize) -> (r: &String)
        requires
            i < self@.len(),
        ensures
            r@ == self@[i as int].0,
    {
        &self.entries[i].0
    }

    /// The value of the pair at a position.
    pub fn value_at(&self, i: usize) -> (r: &String)
        requires
            i < self@.len(),
        ensures
            r@ == self@[i as int].1,
    {
        &self.entries[i].1
    }

    pub fn contains_key(&self, name: &str) -> (r: bool)
        requires
            self.wf(),
        ensures
            r == has_name(self@, name@),
    {
        let n = self.entries.len();
        let mut i: usize = 0;
        while i < n
            invariant
                0 <= i <= n,
                n == self@.len(),
                forall|j: int| 0 <= j < i ==> (#[trigger] self@[j].0) != name@,
            decreases n - i,
        {
            if crate::text::str_eq(self.entries[i].0.as_str(), name) {
                assert(self@[i as int].0 == name@);
                return true;
            }
            i = i + 1;
        }
        false
    }

    /// The value under a name, when one is stored.
    pub fn get(&self, name: &str) -> (r: Option<&String>)
        requires
            self.wf(),
        ensures
            match r {
                Some(v) => has_name(self@, name@) && name_value(self@, name@) == v@,
                None => !has_name(self@, name@),
            },
    {
        let n = self.entries.len();
        let mut i: usize = 0;
        while i < n
            invariant
                0 <= i <= n,
                n == self@.len(),
                self.wf(),
                forall|j: int| 0 <= j < i ==> (#[trigger] self@[j].0) != name@,
            decreases n - i,
        {
            if crate::text::str_eq(self.entries[i].0.as_str(), name) {
                proof {
                    assert(self@[i as int].0 == name@);
                    let w = choose|q: int| 0 <= q < self@.len() && (#[trigger] self@[q].0)
                        == name@;
                    if w != i as int {
                        if w < i as int {
                            assert(lex_lt(self@[w].0, self@[i as int].0));
                        } else {
                            assert(lex_lt(self@[i as int].0, self@[w].0));
                        }
                        lemma_lex_irrefl(name@);
                    }
                }
                return Some(&self.entries[i].1);
            }
            i = i + 1;
        }
        None
    }

    /// Stores a value under a name; a later write to the same name wins.
    pub fn insert(&mut self, name: String, value: String)
        requires
            old(self).wf(),
        ensures
            final(self)@ == sorted_insert(old(self)@, name@, value@),
            final(self).wf(),
    {
        let n = self.entries.len();
        let mut i: usize = 0;
        loop
            invariant
                0 <= i <= n,
                n == self@.len(),
                *self == *old(self),
                old(self).wf(),
                forall|j: int| 0 <= j < i ==> lex_lt(#[trigger] self@[j].0, name@),
            ensures
                0 <= i <= n,
                *self == *old(self),
                forall|j: int| 0 <= j < i ==> lex_lt(#[trigger] self@[j].0, name@),
                i < n ==> !lex_lt(self@[i as int].0, name@),
            decreases n - i,
        {
            if i == n {
                break ;
            }
            if !crate::text::str_lt(self.entries[i].0.as_str(), name.as_str()) {
                break ;
            }
            i = i + 1;
        }
        proof {
            lemma_sorted_insert_at(old(self)@, name@, value@, i as int);
        }
        let ghost prev = self@;
        let ghost k = name@;
        let ghost v = value@;
        if i < n && crate::text::str_eq(self.entries[i].0.as_str(), name.as_str()) {
            let prev_pair = self.entries.remove(i);
            self.entries.insert(i, (name, value));
            proof {
                assert(self@ =~= prev.take(i as int) + seq![(k, v)] + prev.skip(i as int + 1));
                assert(self@ == sorted_insert(prev, k, v));
                lemma_lex_total(k, prev[i as int].0);
                assert forall|a: int, b: int| 0 <= a < b < self@.len() implies lex_lt(
                    #[trigger] self@[a].0,
                    #[trigger] self@[b].0,
                ) by {
                    lemma_sorted_after_insert(prev, k, v, i as int, a, b, true);
                }
            }
        } else {
            proof {
                if i < n {
                    lemma_lex_total(k, prev[i as int].0);
                }
            }
            self.entries.insert(i, (name, value));
            proof {
                assert(self@ =~= prev.take(i as int) + seq![(k, v)] + prev.skip(i as int));
                assert(self@ == sorted_insert(prev, k, v));
                assert forall|a: int, b: int| 0 <= a < b < self@.len() implies lex_lt(
                    #[trigger] self@[a].0,
                    #[trigger] self@[b].0,
                ) by {
                    lemma_sorted_after_insert(prev, k, v, i as int, a, b, false);
                }
            }
        }
    }
}

/// Sortedness of the sequence around a fresh or overwritten position.
proof fn lemma_sorted_after_insert(
    s: HeaderSeq,
    k: Seq<char>,
    v: Seq<char>,
    p: int,
    a: int,
    b: int,
    replaced: bool,
)
    requires
        sorted_names(s),
        0 <= p <= s.len(),
        forall|i: int| 0 <= i < p ==> lex_lt(#[trigger] s[i].0, k),
        replaced ==> p < s.len() && s[p].0 == k,
        !replaced && p < s.len() ==> lex_lt(k, s[p].0),
        ({
            let r = if replaced {
                s.take(p) + seq![(k, v)] + s.skip(p + 1)
            } else {
                s.take(p) + seq![(k, v)] + s.skip(p)
            };
            0 <= a < b < r.len()
        }),
    ensures
        ({
            let r = if replaced {
                s.take(p) + seq![(k, v)] + s.skip(p + 1)
            } else {
                s.take(p) + seq![(k, v)] + s.skip(p)
            };
            lex_lt(r[a].0, r[b].0)
        }),
{
    let r = if replaced {
        s.take(p) + seq![(k, v)] + s.skip(p + 1)
    } else {
        s.take(p) + seq![(k, v)] + s.skip(p)
    };
    assert forall|q: int| p < q < r.len() implies lex_lt(k, #[trigger] r[q].0) by {
        if replaced {
            assert(r[q] == s[q]);
        } else {
            assert(r[q] == s[q - 1]);
            if q - 1 > p {
                lemma_lex_trans(k, s[p].0, s[q - 1].0);
            }
        }
    }
    if b < p {
        assert(r[a] == s[a] && r[b] == s[b]);
    } else if b == p {
        assert(r[a] == s[a]);
    } else if a == p {
    } else if a < p {
        assert(r[a] == s[a]);
        lemma_lex_trans(s[a].0, k, r[b].0);
    } else {
        if replaced {
            assert(r[a] == s[a] && r[b] == s[b]);
        } else {
            assert(r[a] == s[a - 1] && r[b] == s[b - 1]);
        }
    }
}

} // verus!
