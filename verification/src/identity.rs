//! Source-identity normalization.
//!
//! A worker's identity is a (prefix, path) pair. Both components are
//! normalized once, at construction: the raw string is split on `/`,
//! empty segments are discarded, and the remainder is rejoined with `/`.
//! The normalized form therefore has no leading, trailing or doubled
//! slashes, and raw inputs that differ only in slash formatting
//! normalize to the same identity.

use vstd::prelude::*;
use vstd::string::*;

verus! {

/// Length of the leading run of characters of `s` that differ from `sep`.
pub open spec fn run_len(s: Seq<char>, sep: char) -> nat
    decreases s.len(),
{
    if s.len() == 0 || s[0] == sep {
        0
    } else {
        1 + run_len(s.drop_first(), sep)
    }
}

/// `run_len` is pinned down by its characteristic properties: `k` counts
/// the characters strictly before the first occurrence of `sep`.
pub proof fn lemma_run_len_is(s: Seq<char>, sep: char, k: int)
    requires
        0 <= k <= s.len(),
        forall|t: int| 0 <= t < k ==> s[t] != sep,
        k < s.len() ==> s[k] == sep,
    ensures
        run_len(s, sep) == k,
    decreases s.len(),
{
    if s.len() == 0 {
    } else if s[0] == sep {
        assert(k == 0);
    } else {
        assert(k >= 1);
        lemma_run_len_is(s.drop_first(), sep, k - 1);
    }
}

/// The first run never reaches past the end of the sequence.
pub proof fn lemma_run_len_le(s: Seq<char>, sep: char)
    ensures
        run_len(s, sep) <= s.len(),
    decreases s.len(),
{
    if s.len() == 0 || s[0] == sep {
    } else {
        lemma_run_len_le(s.drop_first(), sep);
    }
}

/// The segments of `s` between separators `/`, empty segments dropped.
pub open spec fn norm_segs(s: Seq<char>) -> Seq<Seq<char>>
    decreases s.len(),
    via norm_segs_dec
{
    if s.len() == 0 {
        Seq::empty()
    } else if s[0] == '/' {
        norm_segs(s.drop_first())
    } else {
        seq![s.take(run_len(s, '/') as int)] + norm_segs(s.skip(run_len(s, '/') as int))
    }
}

#[via_fn]
proof fn norm_segs_dec(s: Seq<char>) {
    if s.len() > 0 && s[0] != '/' {
        lemma_run_len_le(s, '/');
    }
}

/// Segments joined back together with a single `/` between them.
pub open spec fn join_slash(segs: Seq<Seq<char>>) -> Seq<char>
    decreases segs.len(),
{
    if segs.len() == 0 {
        Seq::empty()
    } else if segs.len() == 1 {
        segs[0]
    } else {
        join_slash(segs.drop_last()) + seq!['/'] + segs.last()
    }
}

/// The normalized form of an identity component: split on `/`, drop
/// empty segments, rejoin with `/`.
pub open spec fn normalized(s: Seq<char>) -> Seq<char> {
    join_slash(norm_segs(s))
}

/// Appending one more segment extends the join by a separator and the
/// segment, except when it is the first segment.
pub proof fn lemma_join_slash_push(segs: Seq<Seq<char>>, x: Seq<char>)
    ensures
        join_slash(segs.push(x)) == if segs.len() == 0 {
            x
        } else {
            join_slash(segs) + seq!['/'] + x
        },
{
    if segs.len() == 0 {
        assert(segs.push(x)[0] == x);
    } else {
        assert(segs.push(x).drop_last() =~= segs);
        assert(segs.push(x).last() == x);
    }
}

/// Characters inside the first run differ from the separator.
pub proof fn lemma_run_len_chars(s: Seq<char>, sep: char)
    ensures
        forall|t: int| 0 <= t < run_len(s, sep) ==> s[t] != sep,
    decreases s.len(),
{
    if s.len() == 0 || s[0] == sep {
    } else {
        lemma_run_len_chars(s.drop_first(), sep);
        lemma_run_len_le(s.drop_first(), sep);
        assert forall|t: int| 0 <= t < run_len(s, sep) implies s[t] != sep by {
            if t > 0 {
                assert(s.drop_first()[t - 1] == s[t]);
            }
        }
    }
}

/// A usable segment: non-empty and free of separators.
pub open spec fn seg_ok(x: Seq<char>) -> bool {
    x.len() > 0 && (forall|t: int| 0 <= t < x.len() ==> x[t] != '/')
}

/// Every segment the normalizer keeps is non-empty and slash-free.
pub proof fn lemma_norm_segs_ok(s: Seq<char>)
    ensures
        forall|i: int| 0 <= i < norm_segs(s).len() ==> seg_ok(#[trigger] norm_segs(s)[i]),
    decreases s.len(),
{
    if s.len() == 0 {
    } else if s[0] == '/' {
        lemma_norm_segs_ok(s.drop_first());
        assert(norm_segs(s) == norm_segs(s.drop_first()));
        assert forall|i: int| 0 <= i < norm_segs(s).len() implies seg_ok(
            #[trigger] norm_segs(s)[i],
        ) by {
            assert(seg_ok(norm_segs(s.drop_first())[i]));
        }
    } else {
        let k = run_len(s, '/') as int;
        lemma_run_len_le(s, '/');
        lemma_run_len_chars(s, '/');
        lemma_norm_segs_ok(s.skip(k));
        assert(seg_ok(s.take(k)));
        assert forall|i: int| 0 <= i < norm_segs(s).len() implies seg_ok(
            #[trigger] norm_segs(s)[i],
        ) by {
            if i > 0 {
                assert(norm_segs(s)[i] == norm_segs(s.skip(k))[i - 1]);
            }
        }
    }
}

/// The shape of a normalized identity component: no leading, trailing
/// or doubled slashes.
pub open spec fn well_slashed(j: Seq<char>) -> bool {
    &&& j.len() > 0 ==> j[0] != '/' && j[j.len() - 1] != '/'
    &&& forall|t: int| 0 <= t < j.len() - 1 ==> !(#[trigger] j[t] == '/' && j[t + 1] == '/')
}

/// Joining non-empty, slash-free segments yields a well-slashed string
/// (and a non-empty one, as soon as there is a segment to join).
pub proof fn lemma_join_slash_ok(segs: Seq<Seq<char>>)
    requires
        forall|i: int| 0 <= i < segs.len() ==> seg_ok(#[trigger] segs[i]),
    ensures
        well_slashed(join_slash(segs)),
        segs.len() > 0 ==> join_slash(segs).len() > 0,
    decreases segs.len(),
{
    if segs.len() <= 1 {
    } else {
        assert forall|i: int| 0 <= i < segs.drop_last().len() implies seg_ok(
            #[trigger] segs.drop_last()[i],
        ) by {
            assert(segs.drop_last()[i] == segs[i]);
        }
        lemma_join_slash_ok(segs.drop_last());
        let pre = join_slash(segs.drop_last());
        let last = segs.last();
        let j = pre + seq!['/'] + last;
        assert(join_slash(segs) == j);
        assert(j[0] == pre[0]);
        assert(j[j.len() - 1] == last[last.len() - 1]);
        assert forall|t: int| 0 <= t < j.len() - 1 implies !(#[trigger] j[t] == '/' && j[t + 1]
            == '/') by {
            if t + 1 < pre.len() {
                assert(j[t] == pre[t] && j[t + 1] == pre[t + 1]);
            } else if t + 1 == pre.len() {
                assert(j[t] == pre[t]);
            } else if t == pre.len() {
                assert(j[t + 1] == last[0]);
            } else {
                assert(j[t] == last[t - pre.len() - 1] && j[t + 1] == last[t - pre.len()]);
            }
        }
    }
}

/// The normalized form of an identity component has no leading,
/// trailing or doubled slashes.
pub proof fn lemma_normalized_shape(s: Seq<char>)
    ensures
        well_slashed(normalized(s)),
{
    lemma_norm_segs_ok(s);
    lemma_join_slash_ok(norm_segs(s));
}

/// Splits `s` on `/`, drops empty segments, and rejoins with `/`.
pub fn normalize_identity(s: &str) -> (r: String)
    ensures
        r@ == normalized(s@),
{
    let n = s.unicode_len();
    let mut out = String::new();
    let mut have_seg = false;
    let ghost mut done: Seq<Seq<char>> = Seq::empty();
    let mut i: usize = 0;
    proof {
        assert(s@.skip(0) =~= s@);
        assert(Seq::<Seq<char>>::empty() + norm_segs(s@) =~= norm_segs(s@));
    }
    while i < n
        invariant
            n == s@.len(),
            i <= n,
            norm_segs(s@) == done + norm_segs(s@.skip(i as int)),
            out@ == join_slash(done),
            have_seg <==> done.len() > 0,
        decreases n - i,
    {
        let c = s.get_char(i);
        if c == '/' {
            proof {
                assert(s@.skip(i as int).drop_first() =~= s@.skip(i as int + 1));
            }
            i = i + 1;
        } else {
            let start = i;
            let mut j = i;
            while j < n
                invariant
                    n == s@.len(),
                    start <= j <= n,
                    forall|t: int| start <= t < j ==> s@[t] != '/',
                ensures
                    start <= j <= n,
                    forall|t: int| start <= t < j ==> s@[t] != '/',
                    j < n ==> s@[j as int] == '/',
                decreases n - j,
            {
                if s.get_char(j) == '/' {
                    break;
                }
                j = j + 1;
            }
            let seg = s.substring_char(start, j);
            if have_seg {
                out.append("/");
            }
            out.append(seg);
            proof {
                let tail = s@.skip(start as int);
                assert forall|u: int| 0 <= u < j - start implies tail[u] != '/' by {
                    assert(tail[u] == s@[start + u]);
                }
                if j < n {
                    assert(tail[j - start] == s@[j as int]);
                }
                lemma_run_len_is(tail, '/', j - start);
                assert(tail.take(j - start) =~= seg@);
                assert(tail.skip(j - start) =~= s@.skip(j as int));
                reveal_strlit("/");
                assert("/"@ =~= seq!['/']);
                lemma_join_slash_push(done, seg@);
                done = done.push(seg@);
            }
            i = j;
            have_seg = true;
        }
    }
    proof {
        assert(s@.skip(n as int) =~= Seq::<char>::empty());
        assert(done + norm_segs(s@.skip(n as int)) =~= done);
    }
    out
}

} // verus!
