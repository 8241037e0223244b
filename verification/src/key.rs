//! Canonical lookup keys.
//!
//! A raw query string is normalized into a [`CanonicalKey`]: a list of
//! `name=value` parameters with pairwise-distinct names. The key's
//! mathematical value is the finite map from names to values, so two
//! keys that carry the same parameters in any order are the same key.
//! Key comparison is mutual containment of the two maps, which on such
//! maps is exactly equality.
//!
//! The grammar accepted by [`parse_query_string`]: parameters separated
//! by `&`, each with a non-empty name, a `=`, and a (possibly empty)
//! value; a repeated name is malformed. The empty string is the empty
//! key.

use vstd::prelude::*;
use vstd::string::*;

use crate::errors::QueryError;
use crate::identity::{lemma_run_len_is, lemma_run_len_le, run_len};

verus! {

/// The finite map described by a list of (name, value) pairs; a later
/// pair wins, though well-formed keys never repeat a name.
pub open spec fn pairs_to_map(ps: Seq<(Seq<char>, Seq<char>)>) -> Map<Seq<char>, Seq<char>>
    decreases ps.len(),
{
    if ps.len() == 0 {
        Map::empty()
    } else {
        pairs_to_map(ps.drop_last()).insert(ps.last().0, ps.last().1)
    }
}

/// Pairwise-distinct parameter names.
pub open spec fn distinct_names(ps: Seq<(Seq<char>, Seq<char>)>) -> bool {
    forall|a: int, b: int| 0 <= a < b < ps.len() ==> ps[a].0 != ps[b].0
}

/// A name occurs in the map exactly when some pair carries it.
pub proof fn lemma_pairs_to_map_dom(ps: Seq<(Seq<char>, Seq<char>)>)
    ensures
        forall|nm: Seq<char>|
            #[trigger] pairs_to_map(ps).dom().contains(nm) <==> (exists|t: int|
                0 <= t < ps.len() && ps[t].0 == nm),
    decreases ps.len(),
{
    if ps.len() == 0 {
    } else {
        lemma_pairs_to_map_dom(ps.drop_last());
        assert forall|nm: Seq<char>| #[trigger] pairs_to_map(ps).dom().contains(nm) implies (
        exists|t: int| 0 <= t < ps.len() && ps[t].0 == nm) by {
            if nm == ps.last().0 {
                assert(ps[ps.len() - 1].0 == nm);
            } else {
                assert(pairs_to_map(ps.drop_last()).dom().contains(nm));
                let t = choose|t: int|
                    0 <= t < ps.drop_last().len() && ps.drop_last()[t].0 == nm;
                assert(ps[t].0 == nm);
            }
        }
        assert forall|nm: Seq<char>|
            (exists|t: int| 0 <= t < ps.len() && ps[t].0 == nm) implies #[trigger] pairs_to_map(
            ps,
        ).dom().contains(nm) by {
            let t = choose|t: int| 0 <= t < ps.len() && ps[t].0 == nm;
            if t == ps.len() - 1 {
                assert(nm == ps.last().0);
            } else {
                assert(ps.drop_last()[t].0 == nm);
                assert(pairs_to_map(ps.drop_last()).dom().contains(nm));
            }
        }
    }
}

/// The value a pair contributes, provided no later pair reuses its name.
pub proof fn lemma_pairs_to_map_at(ps: Seq<(Seq<char>, Seq<char>)>, i: int)
    requires
        0 <= i < ps.len(),
        forall|j: int| i < j < ps.len() ==> ps[j].0 != ps[i].0,
    ensures
        pairs_to_map(ps).dom().contains(ps[i].0),
        pairs_to_map(ps)[ps[i].0] == ps[i].1,
    decreases ps.len(),
{
    if i == ps.len() - 1 {
    } else {
        assert(ps[ps.len() - 1].0 != ps[i].0);
        assert(ps.drop_last()[i] == ps[i]);
        lemma_pairs_to_map_at(ps.drop_last(), i);
    }
}

/// Taking out one pair whose name no later pair reuses: the map is the
/// reduced list's map with that pair inserted.
pub proof fn lemma_pairs_to_map_remove(ps: Seq<(Seq<char>, Seq<char>)>, i: int)
    requires
        0 <= i < ps.len(),
        forall|j: int| i < j < ps.len() ==> ps[j].0 != ps[i].0,
    ensures
        pairs_to_map(ps) == pairs_to_map(ps.remove(i)).insert(ps[i].0, ps[i].1),
    decreases ps.len(),
{
    if i == ps.len() - 1 {
        assert(ps.remove(i) =~= ps.drop_last());
    } else {
        let y = ps.last();
        assert(ps.remove(i).drop_last() =~= ps.drop_last().remove(i));
        assert(ps.remove(i).last() == y);
        assert(ps.drop_last()[i] == ps[i]);
        assert forall|j: int| i < j < ps.drop_last().len() implies ps.drop_last()[j].0 != ps
            .drop_last()[i].0 by {
            assert(ps.drop_last()[j] == ps[j]);
        }
        lemma_pairs_to_map_remove(ps.drop_last(), i);
        let m = pairs_to_map(ps.drop_last().remove(i));
        assert(ps[i].0 != y.0);
        assert(m.insert(ps[i].0, ps[i].1).insert(y.0, y.1) =~= m.insert(y.0, y.1).insert(
            ps[i].0,
            ps[i].1,
        ));
    }
}

/// The map a pair list describes does not depend on the order of the
/// pairs: any rearrangement of a duplicate-free list gives the same map.
pub proof fn lemma_pairs_to_map_permutation(
    ps1: Seq<(Seq<char>, Seq<char>)>,
    ps2: Seq<(Seq<char>, Seq<char>)>,
)
    requires
        ps1.to_multiset() == ps2.to_multiset(),
        distinct_names(ps1),
    ensures
        pairs_to_map(ps1) == pairs_to_map(ps2),
    decreases ps1.len(),
{
    broadcast use vstd::seq_lib::group_to_multiset_ensures;

    if ps1.len() == 0 {
        assert(ps2.len() == ps2.to_multiset().len());
        assert(ps2.len() == 0);
    } else {
        assert(ps2.len() == ps2.to_multiset().len());
        let x = ps2.last();
        assert(ps2.contains(x));
        assert(ps1.to_multiset().count(x) > 0);
        assert(ps1.contains(x));
        let i = choose|i: int| 0 <= i < ps1.len() && ps1[i] == x;
        lemma_pairs_to_map_remove(ps1, i);
        let rest1 = ps1.remove(i);
        let rest2 = ps2.drop_last();
        assert(rest1.to_multiset() =~= rest2.to_multiset()) by {
            assert(rest1.to_multiset() =~= ps1.to_multiset().remove(x));
            assert(rest2.push(x) =~= ps2);
            assert(rest2.push(x).to_multiset() =~= rest2.to_multiset().insert(x));
            assert(ps2.to_multiset().remove(x) =~= rest2.to_multiset());
        }
        assert(distinct_names(rest1)) by {
            assert forall|a: int, b: int| 0 <= a < b < rest1.len() implies rest1[a].0
                != rest1[b].0 by {
                let a1: int = if a < i {
                    a
                } else {
                    a + 1
                };
                let b1: int = if b < i {
                    b
                } else {
                    b + 1
                };
                assert(rest1[a] == ps1[a1]);
                assert(rest1[b] == ps1[b1]);
            }
        }
        lemma_pairs_to_map_permutation(rest1, rest2);
        assert(pairs_to_map(ps2) == pairs_to_map(rest2).insert(x.0, x.1));
    }
}

/// Two raw query strings that carry the same parameters, in any order,
/// normalize to the same canonical key.
pub proof fn lemma_query_order_insensitive(raw1: Seq<char>, raw2: Seq<char>)
    requires
        spec_parse_query(raw1) is Some,
        spec_parse_query(raw2) is Some,
        (spec_parse_query(raw1)->0).to_multiset() == (spec_parse_query(raw2)->0).to_multiset(),
    ensures
        pairs_to_map(spec_parse_query(raw1)->0) == pairs_to_map(spec_parse_query(raw2)->0),
{
    lemma_pairs_to_map_permutation(spec_parse_query(raw1)->0, spec_parse_query(raw2)->0);
}

/// A canonical lookup key: parameters with pairwise-distinct names.
/// Its mathematical value is the map from parameter names to values.
pub struct CanonicalKey {
    pub pairs: Vec<(String, String)>,
}

impl CanonicalKey {
    /// The (name, value) pairs as sequences of characters, in list order.
    pub open spec fn pair_views(&self) -> Seq<(Seq<char>, Seq<char>)> {
        self.pairs@.map_values(|p: (String, String)| (p.0@, p.1@))
    }

    /// Well-formed: no parameter name occurs twice.
    pub open spec fn wf(&self) -> bool {
        distinct_names(self.pair_views())
    }
}

impl View for CanonicalKey {
    type V = Map<Seq<char>, Seq<char>>;

    open spec fn view(&self) -> Map<Seq<char>, Seq<char>> {
        pairs_to_map(self.pair_views())
    }
}

impl Clone for CanonicalKey {
    fn clone(&self) -> (r: Self)
        ensures
            r.pair_views() == self.pair_views(),
            r@ == self@,
    {
        let mut pairs: Vec<(String, String)> = Vec::new();
        let mut d: usize = 0;
        while d < self.pairs.len()
            invariant
                d <= self.pairs@.len(),
                pairs@.len() == d as int,
                forall|t: int| 0 <= t < d ==> pairs@[t] == self.pairs@[t],
            decreases self.pairs@.len() - d,
        {
            let name = self.pairs[d].0.clone();
            let value = self.pairs[d].1.clone();
            pairs.push((name, value));
            d = d + 1;
        }
        let r = CanonicalKey { pairs };
        proof {
            assert(r.pairs@ =~= self.pairs@);
        }
        r
    }
}

impl CanonicalKey {
    /// The value stored under `name`, if any.
    pub fn get<'a>(&'a self, name: &String) -> (r: Option<&'a String>)
        requires
            self.wf(),
        ensures
            match r {
                Some(v) => self@.dom().contains(name@) && self@[name@] == v@,
                None => !self@.dom().contains(name@),
            },
    {
        let mut d: usize = 0;
        while d < self.pairs.len()
            invariant
                self.wf(),
                d <= self.pairs@.len(),
                forall|t: int| 0 <= t < d ==> self.pair_views()[t].0 != name@,
            decreases self.pairs@.len() - d,
        {
            if self.pairs[d].0 == *name {
                proof {
                    lemma_pairs_to_map_at(self.pair_views(), d as int);
                }
                return Some(&self.pairs[d].1);
            }
            d = d + 1;
        }
        proof {
            lemma_pairs_to_map_dom(self.pair_views());
        }
        None
    }

    /// Does `self` contain every parameter of `other`, with equal value?
    fn covers(&self, other: &CanonicalKey) -> (r: bool)
        requires
            self.wf(),
            other.wf(),
        ensures
            r == (forall|nm: Seq<char>|
                #[trigger] other@.dom().contains(nm) ==> self@.dom().contains(nm) && self@[nm]
                    == other@[nm]),
    {
        let mut d: usize = 0;
        while d < other.pairs.len()
            invariant
                self.wf(),
                other.wf(),
                d <= other.pairs@.len(),
                forall|t: int|
                    0 <= t < d ==> self@.dom().contains(#[trigger] other.pair_views()[t].0)
                        && self@[other.pair_views()[t].0] == other.pair_views()[t].1,
            decreases other.pairs@.len() - d,
        {
            let ghost nm = other.pair_views()[d as int].0;
            proof {
                lemma_pairs_to_map_at(other.pair_views(), d as int);
            }
            match self.get(&other.pairs[d].0) {
                Some(v) => {
                    if !(*v == other.pairs[d].1) {
                        proof {
                            assert(other@.dom().contains(nm) && !(self@.dom().contains(nm)
                                && self@[nm] == other@[nm]));
                        }
                        return false;
                    }
                },
                None => {
                    proof {
                        assert(other@.dom().contains(nm) && !self@.dom().contains(nm));
                    }
                    return false;
                },
            }
            d = d + 1;
        }
        proof {
            lemma_pairs_to_map_dom(other.pair_views());
            assert forall|nm: Seq<char>| #[trigger] other@.dom().contains(nm) implies self@
                .dom().contains(nm) && self@[nm] == other@[nm] by {
                let t = choose|t: int|
                    0 <= t < other.pair_views().len() && other.pair_views()[t].0 == nm;
                lemma_pairs_to_map_at(other.pair_views(), t);
            }
        }
        true
    }

    /// Key equality, decided by mutual containment of the two parameter
    /// maps — which on maps is exactly equality.
    pub fn key_eq(&self, other: &CanonicalKey) -> (r: bool)
        requires
            self.wf(),
            other.wf(),
        ensures
            r == (self@ == other@),
    {
        let fwd = self.covers(other);
        let bwd = other.covers(self);
        proof {
            if fwd && bwd {
                assert(self@.dom() =~= other@.dom());
                assert(self@ =~= other@);
            }
        }
        fwd && bwd
    }
}

/// Segments of `s` split on `&`; empty segments are kept, so the split
/// of a non-empty string always has at least one segment.
pub open spec fn amp_segs(s: Seq<char>) -> Seq<Seq<char>>
    decreases s.len(),
    via amp_segs_dec
{
    if run_len(s, '&') == s.len() {
        seq![s]
    } else {
        seq![s.take(run_len(s, '&') as int)] + amp_segs(s.skip(run_len(s, '&') as int + 1))
    }
}

#[via_fn]
proof fn amp_segs_dec(s: Seq<char>) {
    lemma_run_len_le(s, '&');
}

/// One `name=value` parameter: a non-empty name before the first `=`,
/// the rest is the value. `None` when there is no `=` or no name.
pub open spec fn parse_pair(seg: Seq<char>) -> Option<(Seq<char>, Seq<char>)> {
    if run_len(seg, '=') == seg.len() {
        None
    } else if run_len(seg, '=') == 0 {
        None
    } else {
        Some((seg.take(run_len(seg, '=') as int), seg.skip(run_len(seg, '=') as int + 1)))
    }
}

/// All segments parsed as parameters, in order; `None` as soon as one
/// segment is malformed.
pub open spec fn parse_pairs(segs: Seq<Seq<char>>) -> Option<Seq<(Seq<char>, Seq<char>)>>
    decreases segs.len(),
{
    if segs.len() == 0 {
        Some(Seq::empty())
    } else {
        match parse_pairs(segs.drop_last()) {
            None => None,
            Some(ps) => match parse_pair(segs.last()) {
                None => None,
                Some(p) => Some(ps.push(p)),
            },
        }
    }
}

/// `parse_pairs` succeeds exactly when every segment parses, and then
/// returns the segments' parameters in order.
pub proof fn lemma_parse_pairs_char(segs: Seq<Seq<char>>)
    ensures
        match parse_pairs(segs) {
            Some(ps) => ps.len() == segs.len() && (forall|t: int|
                0 <= t < segs.len() ==> parse_pair(#[trigger] segs[t]) == Some(ps[t])),
            None => exists|t: int| 0 <= t < segs.len() && parse_pair(#[trigger] segs[t]) is None,
        },
    decreases segs.len(),
{
    if segs.len() == 0 {
    } else {
        lemma_parse_pairs_char(segs.drop_last());
        match parse_pairs(segs.drop_last()) {
            None => {
                let t = choose|t: int|
                    0 <= t < segs.drop_last().len() && parse_pair(
                        #[trigger] segs.drop_last()[t],
                    ) is None;
                assert(segs[t] == segs.drop_last()[t]);
                assert(parse_pair(segs[t]) is None);
            },
            Some(ps0) => {
                match parse_pair(segs.last()) {
                    None => {
                        assert(parse_pair(segs[segs.len() - 1]) is None);
                    },
                    Some(p) => {
                        let ps = ps0.push(p);
                        assert forall|t: int| 0 <= t < segs.len() implies parse_pair(
                            #[trigger] segs[t],
                        ) == Some(ps[t]) by {
                            if t < segs.len() - 1 {
                                assert(segs.drop_last()[t] == segs[t]);
                            }
                        }
                    },
                }
            },
        }
    }
}

/// The canonical meaning of a raw query string: its parameters as a
/// list, or `None` when it is malformed (a segment without `=`, an
/// empty name, or a repeated name). The empty string has no parameters.
pub open spec fn spec_parse_query(s: Seq<char>) -> Option<Seq<(Seq<char>, Seq<char>)>> {
    if s.len() == 0 {
        Some(Seq::empty())
    } else {
        match parse_pairs(amp_segs(s)) {
            None => None,
            Some(ps) => if distinct_names(ps) {
                Some(ps)
            } else {
                None
            },
        }
    }
}

/// Normalizes a raw query string into a canonical key, or reports a
/// parse error exactly on the malformed inputs of [`spec_parse_query`].
pub fn parse_query_string(raw: &str) -> (r: Result<CanonicalKey, QueryError>)
    ensures
        match spec_parse_query(raw@) {
            Some(ps) => r matches Ok(k) && k.wf() && k.pair_views() == ps,
            None => r == Err::<CanonicalKey, QueryError>(QueryError::Parse),
        },
{
    let n = raw.unicode_len();
    let mut pairs: Vec<(String, String)> = Vec::new();
    if n == 0 {
        let k = CanonicalKey { pairs };
        proof {
            assert(k.pair_views() =~= Seq::<(Seq<char>, Seq<char>)>::empty());
        }
        return Ok(k);
    }
    let mut i: usize = 0;
    let ghost mut done_segs: Seq<Seq<char>> = Seq::empty();
    proof {
        assert(raw@.skip(0) =~= raw@);
        assert(Seq::<Seq<char>>::empty() + amp_segs(raw@) =~= amp_segs(raw@));
        assert(pairs@.map_values(|p: (String, String)| (p.0@, p.1@))
            =~= Seq::<(Seq<char>, Seq<char>)>::empty());
    }
    loop
        invariant_except_break
            amp_segs(raw@) == done_segs + amp_segs(raw@.skip(i as int)),
        invariant
            n == raw@.len(),
            0 < n,
            i <= n,
            parse_pairs(done_segs) == Some(
                pairs@.map_values(|p: (String, String)| (p.0@, p.1@)),
            ),
            distinct_names(pairs@.map_values(|p: (String, String)| (p.0@, p.1@))),
        ensures
            amp_segs(raw@) == done_segs,
            parse_pairs(done_segs) == Some(
                pairs@.map_values(|p: (String, String)| (p.0@, p.1@)),
            ),
            distinct_names(pairs@.map_values(|p: (String, String)| (p.0@, p.1@))),
        decreases n - i,
    {
        let start = i;
        let mut j = i;
        while j < n
            invariant
                n == raw@.len(),
                start <= j <= n,
                forall|t: int| start <= t < j ==> raw@[t] != '&',
            ensures
                start <= j <= n,
                forall|t: int| start <= t < j ==> raw@[t] != '&',
                j < n ==> raw@[j as int] == '&',
            decreases n - j,
        {
            if raw.get_char(j) == '&' {
                break ;
            }
            j = j + 1;
        }
        let ghost seg = raw@.subrange(start as int, j as int);
        let ghost tail = raw@.skip(start as int);
        proof {
            assert forall|u: int| 0 <= u < j - start implies tail[u] != '&' by {
                assert(tail[u] == raw@[start + u]);
            }
            if j < n {
                assert(tail[j - start] == raw@[j as int]);
            }
            lemma_run_len_is(tail, '&', j - start);
            if j < n {
                assert(tail.take(j - start) =~= seg);
                assert(tail.skip(j - start + 1) =~= raw@.skip(j as int + 1));
                assert(amp_segs(tail) == seq![seg] + amp_segs(raw@.skip(j as int + 1)));
            } else {
                assert(tail =~= seg);
                assert(amp_segs(tail) == seq![seg]);
            }
            // the current segment sits at index done_segs.len() of the full split
            assert((seq![seg] + amp_segs(raw@.skip(j as int + 1)))[0] == seg);
            assert(amp_segs(raw@)[done_segs.len() as int] == seg);
        }
        // find the first `=` of the segment
        let mut e = start;
        while e < j
            invariant
                n == raw@.len(),
                start <= e <= j <= n,
                forall|t: int| start <= t < e ==> raw@[t] != '=',
            ensures
                start <= e <= j <= n,
                forall|t: int| start <= t < e ==> raw@[t] != '=',
                e < j ==> raw@[e as int] == '=',
            decreases j - e,
        {
            if raw.get_char(e) == '=' {
                break ;
            }
            e = e + 1;
        }
        proof {
            assert forall|u: int| 0 <= u < e - start implies seg[u] != '=' by {
                assert(seg[u] == raw@[start + u]);
            }
            if e < j {
                assert(seg[e - start] == raw@[e as int]);
            }
            lemma_run_len_is(seg, '=', e - start);
        }
        if e == j || e == start {
            // no `=` in the segment, or an empty name: malformed
            proof {
                assert(parse_pair(seg) is None);
                lemma_parse_pairs_char(amp_segs(raw@));
            }
            return Err(QueryError::Parse);
        }
        let name = String::from_str(raw.substring_char(start, e));
        let value = String::from_str(raw.substring_char(e + 1, j));
        proof {
            assert(seg.take(e - start) =~= raw@.subrange(start as int, e as int));
            assert(seg.skip(e - start + 1) =~= raw@.subrange(e as int + 1, j as int));
            assert(parse_pair(seg) == Some((name@, value@)));
        }
        // a repeated parameter name is malformed
        let mut d: usize = 0;
        #[verifier::loop_isolation(false)]
        while d < pairs.len()
            invariant
                forall|t: int| 0 <= t < d ==> pairs@[t].0@ != name@,
                d <= pairs@.len(),
            decreases pairs@.len() - d,
        {
            if pairs[d].0 == name {
                proof {
                    let vs = pairs@.map_values(|p: (String, String)| (p.0@, p.1@));
                    lemma_parse_pairs_char(done_segs);
                    lemma_parse_pairs_char(amp_segs(raw@));
                    assert(vs.len() == done_segs.len());
                    assert(amp_segs(raw@) == done_segs + amp_segs(tail));
                    assert forall|t: int| 0 <= t < done_segs.len() implies amp_segs(raw@)[t]
                        == done_segs[t] by {
                        assert((done_segs + amp_segs(tail))[t] == done_segs[t]);
                    }
                    if parse_pairs(amp_segs(raw@)) is Some {
                        let full = parse_pairs(amp_segs(raw@))->0;
                        assert(amp_segs(raw@)[d as int] == done_segs[d as int]);
                        assert(parse_pair(amp_segs(raw@)[d as int]) == Some(full[d as int]));
                        assert(parse_pair(done_segs[d as int]) == Some(vs[d as int]));
                        assert(full[d as int] == vs[d as int]);
                        assert(vs[d as int].0 == name@);
                        assert(parse_pair(amp_segs(raw@)[done_segs.len() as int]) == Some(
                            full[done_segs.len() as int],
                        ));
                        assert(full[done_segs.len() as int].0 == name@);
                        assert(!distinct_names(full));
                    }
                }
                return Err(QueryError::Parse);
            }
            d = d + 1;
        }
        let ghost vs_old = pairs@.map_values(|p: (String, String)| (p.0@, p.1@));
        let ghost done_old = done_segs;
        let ghost nv = (name@, value@);
        pairs.push((name, value));
        proof {
            let vs_new = pairs@.map_values(|p: (String, String)| (p.0@, p.1@));
            assert(vs_new =~= vs_old.push(nv));
            done_segs = done_segs.push(seg);
            assert(done_segs.drop_last() =~= done_old);
            assert(done_segs.last() == seg);
            assert(parse_pairs(done_segs) == Some(vs_new));
            assert forall|a: int, b: int| 0 <= a < b < vs_new.len() implies vs_new[a].0
                != vs_new[b].0 by {
                if b == vs_new.len() - 1 {
                    assert(vs_old[a].0 != nv.0);
                }
            }
            if j < n {
                assert(done_old + (seq![seg] + amp_segs(raw@.skip(j as int + 1))) =~= done_segs
                    + amp_segs(raw@.skip(j as int + 1)));
            } else {
                assert(done_old + seq![seg] =~= done_segs);
            }
        }
        if j == n {
            break ;
        }
        i = j + 1;
    }
    let k = CanonicalKey { pairs };
    proof {
        assert(spec_parse_query(raw@) == Some(k.pair_views()));
    }
    Ok(k)
}

} // verus!
