//! Splitting a text into plain runs and highlighted phrases. The phrase
//! taken next is the one that occurs earliest in the remaining text; of two
//! starting at the same place the longer wins, and of two equally long the
//! one listed first.
use vstd::prelude::*;

use crate::components::model::lemma_join_push;
use crate::config::validate::list_views;
use crate::text::{find, find_exec, lemma_find_from_bounds, occurs_at, slice_chars};

verus! {

/// Whether a match at `s` of length `l` beats one at `ps` of length `pl`:
/// earlier, or as early and longer.
pub open spec fn better(s: int, l: int, ps: int, pl: int) -> bool {
    s < ps || (s == ps && l > pl)
}

/// The best match `(start, candidate)` in `rem` among the first `n`
/// candidates; empty candidates never match.
pub open spec fn best_of(rem: Seq<char>, cands: Seq<Seq<char>>, n: int) -> Option<(int, int)>
    decreases n,
{
    if n <= 0 {
        None
    } else {
        let prev = best_of(rem, cands, n - 1);
        let c = cands[n - 1];
        let s = find(rem, c);
        if c.len() == 0 || s < 0 {
            prev
        } else {
            match prev {
                None => Some((s, n - 1)),
                Some(p) => if better(s, c.len() as int, p.0, cands[p.1].len() as int) {
                    Some((s, n - 1))
                } else {
                    prev
                },
            }
        }
    }
}

/// The best match in `rem` among all candidates.
pub open spec fn best_match(rem: Seq<char>, cands: Seq<Seq<char>>) -> Option<(int, int)> {
    best_of(rem, cands, cands.len() as int)
}

pub proof fn lemma_best_of(rem: Seq<char>, cands: Seq<Seq<char>>, n: int)
    requires
        0 <= n <= cands.len(),
    ensures
        best_of(rem, cands, n) matches Some(p) ==> {
            &&& 0 <= p.1 < n
            &&& cands[p.1].len() > 0
            &&& p.0 == find(rem, cands[p.1])
            &&& occurs_at(rem, cands[p.1], p.0)
        },
    decreases n,
{
    if n > 0 {
        lemma_best_of(rem, cands, n - 1);
        lemma_find_from_bounds(rem, cands[n - 1], 0);
    }
}

/// The segments of `rem`: each a text and, for a highlighted phrase, the
/// index of the candidate it matched.
pub open spec fn segments(rem: Seq<char>, cands: Seq<Seq<char>>) -> Seq<(Seq<char>, Option<int>)>
    decreases rem.len(),
{
    if rem.len() == 0 {
        seq![]
    } else {
        match best_match(rem, cands) {
            None => seq![(rem, None)],
            Some(p) => {
                proof {
                    lemma_best_of(rem, cands, cands.len() as int);
                }
                (if p.0 > 0 {
                    seq![(rem.take(p.0), None::<int>)]
                } else {
                    seq![]
                }) + seq![(cands[p.1], Some(p.1))] + segments(
                    rem.skip(p.0 + cands[p.1].len()),
                    cands,
                )
            },
        }
    }
}

/// The texts of the segments, joined.
pub open spec fn segment_text(segs: Seq<(Seq<char>, Option<int>)>) -> Seq<char>
    decreases segs.len(),
{
    if segs.len() == 0 {
        seq![]
    } else {
        segs[0].0 + segment_text(segs.skip(1))
    }
}

pub proof fn lemma_segment_text_append(
    a: Seq<(Seq<char>, Option<int>)>,
    b: Seq<(Seq<char>, Option<int>)>,
)
    ensures
        segment_text(a + b) == segment_text(a) + segment_text(b),
    decreases a.len(),
{
    if a.len() == 0 {
        assert(a + b =~= b);
    } else {
        assert((a + b).skip(1) =~= a.skip(1) + b);
        lemma_segment_text_append(a.skip(1), b);
        assert(segment_text(a + b) == a[0].0 + segment_text(a.skip(1) + b));
    }
}

/// Segmenting loses and adds nothing: the segment texts, joined, are the
/// text that was split.
pub proof fn law_segments_cover_text(rem: Seq<char>, cands: Seq<Seq<char>>)
    ensures
        segment_text(segments(rem, cands)) == rem,
    decreases rem.len(),
{
    if rem.len() > 0 {
        match best_match(rem, cands) {
            None => {
                assert(segment_text(seq![(rem, None::<int>)]) == rem + segment_text(
                    seq![(rem, None::<int>)].skip(1),
                ));
                assert(seq![(rem, None::<int>)].skip(1) =~= Seq::<(Seq<char>, Option<int>)>::empty());
                assert(rem + Seq::<char>::empty() =~= rem);
            },
            Some(p) => {
                lemma_best_of(rem, cands, cands.len() as int);
                let c = cands[p.1];
                let next = rem.skip(p.0 + c.len());
                law_segments_cover_text(next, cands);
                let head: Seq<(Seq<char>, Option<int>)> = if p.0 > 0 {
                    seq![(rem.take(p.0), None::<int>)]
                } else {
                    seq![]
                };
                let mid = seq![(c, Some(p.1))];
                lemma_segment_text_append(head + mid, segments(next, cands));
                lemma_segment_text_append(head, mid);
                assert(segment_text(mid) == c + segment_text(mid.skip(1)));
                assert(mid.skip(1) =~= Seq::<(Seq<char>, Option<int>)>::empty());
                if p.0 > 0 {
                    assert(segment_text(head) == rem.take(p.0) + segment_text(head.skip(1)));
                    assert(head.skip(1) =~= Seq::<(Seq<char>, Option<int>)>::empty());
                    assert(rem.take(p.0) + c + next =~= rem);
                } else {
                    assert(c + next =~= rem);
                }
                assert(segment_text(head) + (c + Seq::<char>::empty()) + next =~= rem);
            },
        }
    }
}

/// Every highlighted segment's text is the candidate it matched, and that
/// candidate is not empty.
pub proof fn law_highlights_are_candidates(rem: Seq<char>, cands: Seq<Seq<char>>)
    ensures
        forall|k: int|
            0 <= k < segments(rem, cands).len() && (#[trigger] segments(rem, cands)[k]).1 is Some
                ==> {
                let i = segments(rem, cands)[k].1->0;
                &&& 0 <= i < cands.len()
                &&& cands[i].len() > 0
                &&& segments(rem, cands)[k].0 == cands[i]
            },
    decreases rem.len(),
{
    if rem.len() > 0 {
        match best_match(rem, cands) {
            None => {},
            Some(p) => {
                lemma_best_of(rem, cands, cands.len() as int);
                let next = rem.skip(p.0 + cands[p.1].len());
                law_highlights_are_candidates(next, cands);
                let head: Seq<(Seq<char>, Option<int>)> = if p.0 > 0 {
                    seq![(rem.take(p.0), None::<int>)]
                } else {
                    seq![]
                };
                let all = segments(rem, cands);
                assert(all == head + seq![(cands[p.1], Some(p.1))] + segments(next, cands));
                assert forall|k: int|
                    0 <= k < all.len() && (#[trigger] all[k]).1 is Some implies {
                    let i = all[k].1->0;
                    &&& 0 <= i < cands.len()
                    &&& cands[i].len() > 0
                    &&& all[k].0 == cands[i]
                } by {
                    if k >= head.len() + 1 {
                        assert(all[k] == segments(next, cands)[k - head.len() - 1]);
                    }
                }
            },
        }
    }
}

/// The views of computed segments.
pub open spec fn segment_views(v: Seq<(Vec<char>, Option<usize>)>) -> Seq<(Seq<char>, Option<int>)> {
    Seq::new(
        v.len(),
        |k: int|
            (
                v[k].0@,
                match v[k].1 {
                    Some(i) => Some(i as int),
                    None => None,
                },
            ),
    )
}

/// Splits `text` into plain runs and candidate phrases.
pub fn split_segments(text: &[char], cands: &Vec<Vec<char>>) -> (r: Vec<(Vec<char>, Option<usize>)>)
    ensures
        segment_views(r@) == segments(text@, list_views(cands@)),
{
    let ghost c = list_views(cands@);
    let mut out: Vec<(Vec<char>, Option<usize>)> = Vec::new();
    let mut pos: usize = 0;
    assert(text@.skip(0) =~= text@);
    assert(segment_views(out@) =~= Seq::<(Seq<char>, Option<int>)>::empty());
    while pos < text.len()
        invariant
            pos <= text.len(),
            c == list_views(cands@),
            segment_views(out@) + segments(text@.skip(pos as int), c) == segments(text@, c),
        decreases text.len() - pos,
    {
        let rem = slice_chars(text, pos, text.len());
        assert(rem@ =~= text@.skip(pos as int));
        let mut best: Option<(usize, usize)> = None;
        let mut j: usize = 0;
        while j < cands.len()
            invariant
                j <= cands.len(),
                c == list_views(cands@),
                match best {
                    None => best_of(rem@, c, j as int) is None,
                    Some(b) => best_of(rem@, c, j as int) == Some((b.0 as int, b.1 as int)),
                },
                best matches Some(b) ==> b.1 < j && b.0 + cands@[b.1 as int]@.len() <= rem@.len(),
            decreases cands.len() - j,
        {
            proof {
                lemma_find_from_bounds(rem@, c[j as int], 0);
            }
            if cands[j].len() > 0 {
                match find_exec(rem.as_slice(), cands[j].as_slice()) {
                    Some(s) => {
                        match best {
                            None => {
                                best = Some((s, j));
                            },
                            Some(b) => {
                                if s < b.0 || (s == b.0 && cands[j].len() > cands[b.1].len()) {
                                    best = Some((s, j));
                                }
                            },
                        }
                    },
                    None => {},
                }
            }
            j = j + 1;
        }
        let ghost rem_view = rem@;
        match best {
            None => {
                assert(segments(rem_view, c) == seq![(rem_view, None::<int>)]);
                let ghost before = segment_views(out@);
                out.push((rem, None));
                assert(segment_views(out@) =~= before.push((rem_view, None::<int>)));
                assert(segment_views(out@) + segments(text@.skip(text.len() as int), c)
                    =~= segment_views(out@));
                assert(before + seq![(rem_view, None::<int>)] =~= before.push(
                    (rem_view, None::<int>),
                ));
                pos = text.len();
            },
            Some(b) => {
                let (s, i) = b;
                proof {
                    lemma_best_of(rem_view, c, c.len() as int);
                }
                let ghost next = rem_view.skip(s + c[i as int].len());
                let ghost before = segment_views(out@);
                if s > 0 {
                    let prefix = slice_chars(rem.as_slice(), 0, s);
                    assert(prefix@ =~= rem_view.take(s as int));
                    out.push((prefix, None));
                }
                let ghost mid = segment_views(out@);
                let len = cands[i].len();
                let phrase = slice_chars(cands[i].as_slice(), 0, len);
                assert(phrase@ =~= c[i as int]);
                out.push((phrase, Some(i)));
                proof {
                    let head: Seq<(Seq<char>, Option<int>)> = if s > 0 {
                        seq![(rem_view.take(s as int), None::<int>)]
                    } else {
                        seq![]
                    };
                    assert(mid =~= before + head);
                    assert(segment_views(out@) =~= before + head + seq![(c[i as int], Some(i as int))]);
                    assert(segments(rem_view, c) == head + seq![(c[i as int], Some(i as int))]
                        + segments(next, c));
                    assert(text@.skip(pos + s + len) =~= next);
                    assert(segment_views(out@) + segments(next, c) =~= before + segments(
                        rem_view,
                        c,
                    ));
                }
                pos = pos + s + len;
            },
        }
    }
    assert(text@.skip(pos as int) =~= Seq::<char>::empty());
    out
}

} // verus!
