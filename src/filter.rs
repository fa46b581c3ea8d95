//! Ranking service names against a search query.
use crate::request::{is_white_space, white_space};
use crate::text::{chars_of, first_index, lemma_first_index, substring};
use vstd::prelude::*;
use vstd::string::*;

verus! {

/// The text that `str::to_lowercase` makes of some characters.
pub uninterp spec fn lower_of(s: Seq<char>) -> Seq<char>;

/// Relies on str::to_lowercase: the result depends on the characters alone,
/// and no characters give none.
#[verifier::external_body]
fn lowercase(s: &str) -> (r: String)
    ensures
        r@ == lower_of(s@),
        s@.len() == 0 ==> r@.len() == 0,
{
    s.to_lowercase()
}

pub open spec fn trim_start(s: Seq<char>) -> Seq<char>
    decreases s.len(),
{
    if s.len() > 0 && is_white_space(s[0]) {
        trim_start(s.drop_first())
    } else {
        s
    }
}

pub open spec fn trim_end(s: Seq<char>) -> Seq<char>
    decreases s.len(),
{
    if s.len() > 0 && is_white_space(s.last()) {
        trim_end(s.drop_last())
    } else {
        s
    }
}

/// `s` without leading and trailing whitespace.
pub open spec fn trim(s: Seq<char>) -> Seq<char> {
    trim_end(trim_start(s))
}

/// The characters of `s` without leading and trailing whitespace.
pub fn trimmed(s: &str) -> (r: String)
    ensures
        r@ == trim(s@),
{
    let chars = chars_of(s);
    let mut lo: usize = 0;
    assert(s@.subrange(0, s@.len() as int) =~= s@);
    while lo < chars.len() && white_space(chars[lo])
        invariant
            lo <= chars@.len(),
            chars@ == s@,
            trim_start(s@) == trim_start(s@.subrange(lo as int, s@.len() as int)),
        decreases chars@.len() - lo,
    {
        assert(s@.subrange(lo as int, s@.len() as int).drop_first() =~= s@.subrange(
            lo as int + 1,
            s@.len() as int,
        ));
        lo = lo + 1;
    }
    assert(s@.subrange(0, s@.len() as int) =~= s@);
    let mut hi: usize = chars.len();
    assert(trim_start(s@) == s@.subrange(lo as int, hi as int));
    while hi > lo && white_space(chars[hi - 1])
        invariant
            lo <= hi <= chars@.len(),
            chars@ == s@,
            trim(s@) == trim_end(s@.subrange(lo as int, hi as int)),
        decreases hi,
    {
        assert(s@.subrange(lo as int, hi as int).drop_last() =~= s@.subrange(
            lo as int,
            hi as int - 1,
        ));
        hi = hi - 1;
    }
    substring(s, lo, hi)
}

/// How loosely `needle` matches `hay` from position `pos` on: each needle
/// character is matched at its first occurrence at or after the cursor,
/// adding the gap it skips; what follows the last match is added at the
/// end. No match for some character rejects the candidate.
pub open spec fn score_from(needle: Seq<char>, hay: Seq<char>, pos: int) -> Option<int>
    decreases needle.len(),
{
    if needle.len() == 0 {
        Some(hay.len() - pos)
    } else {
        match first_index(hay.skip(pos), needle[0]) {
            None => None,
            Some(k) => match score_from(needle.drop_first(), hay, pos + k + 1) {
                Some(rest) => Some(k + rest),
                None => None,
            },
        }
    }
}

pub open spec fn fuzzy_score_spec(needle: Seq<char>, hay: Seq<char>) -> Option<int> {
    score_from(needle, hay, 0)
}

fn find_from(hay: &Vec<char>, c: char, from: usize) -> (r: Option<usize>)
    requires
        from <= hay@.len(),
    ensures
        match r {
            Some(m) => from <= m < hay@.len() && first_index(hay@.skip(from as int), c) == Some(
                m - from,
            ),
            None => first_index(hay@.skip(from as int), c) is None,
        },
{
    let ghost t = hay@.skip(from as int);
    let mut i: usize = from;
    while i < hay.len()
        invariant
            from <= i <= hay@.len(),
            t == hay@.skip(from as int),
            forall|j: int| 0 <= j < i - from ==> t[j] != c,
        decreases hay@.len() - i,
    {
        if hay[i] == c {
            proof {
                lemma_first_index(t, c, i - from);
            }
            return Some(i);
        }
        i = i + 1;
    }
    proof {
        lemma_first_index(t, c, i - from);
    }
    None
}

/// Scores a candidate against a needle, both as characters.
pub fn fuzzy_score(needle: &Vec<char>, hay: &Vec<char>) -> (r: Option<usize>)
    ensures
        match r {
            Some(x) => fuzzy_score_spec(needle@, hay@) == Some(x as int),
            None => fuzzy_score_spec(needle@, hay@) is None,
        },
{
    let mut pos: usize = 0;
    let mut acc: usize = 0;
    let mut j: usize = 0;
    let hl = hay.len();
    assert(needle@.skip(0) =~= needle@);
    while j < needle.len()
        invariant
            hl == hay@.len(),
            j <= needle@.len(),
            pos <= hay@.len(),
            acc == pos - j,
            fuzzy_score_spec(needle@, hay@) == match score_from(
                needle@.skip(j as int),
                hay@,
                pos as int,
            ) {
                Some(x) => Some(acc + x),
                None => None,
            },
        decreases needle@.len() - j,
    {
        let ghost n = needle@.skip(j as int);
        assert(n[0] == needle@[j as int]);
        assert(n.drop_first() =~= needle@.skip(j as int + 1));
        match find_from(hay, needle[j], pos) {
            None => {
                return None;
            },
            Some(m) => {
                acc = acc + (m - pos);
                pos = m + 1;
                j = j + 1;
            },
        }
    }
    assert(needle@.skip(j as int).len() == 0);
    Some(acc + (hay.len() - pos))
}

/// `a` comes no later than `b` in dictionary order by code point.
pub open spec fn lex_le(a: Seq<char>, b: Seq<char>) -> bool
    decreases a.len(),
{
    if a.len() == 0 {
        true
    } else if b.len() == 0 {
        false
    } else if a[0] != b[0] {
        a[0] < b[0]
    } else {
        lex_le(a.drop_first(), b.drop_first())
    }
}

proof fn lemma_lex_total(a: Seq<char>, b: Seq<char>)
    ensures
        lex_le(a, b) || lex_le(b, a),
    decreases a.len(),
{
    if a.len() > 0 && b.len() > 0 && a[0] == b[0] {
        lemma_lex_total(a.drop_first(), b.drop_first());
    }
}

proof fn lemma_lex_trans(a: Seq<char>, b: Seq<char>, c: Seq<char>)
    requires
        lex_le(a, b),
        lex_le(b, c),
    ensures
        lex_le(a, c),
    decreases a.len(),
{
    if a.len() > 0 && b.len() > 0 && c.len() > 0 && a[0] == b[0] && b[0] == c[0] {
        lemma_lex_trans(a.drop_first(), b.drop_first(), c.drop_first());
    } else if a.len() > 0 && b.len() > 0 && c.len() > 0 {
    }
}

/// Dictionary order on characters.
pub fn lex_less_eq(a: &Vec<char>, b: &Vec<char>) -> (r: bool)
    ensures
        r == lex_le(a@, b@),
{
    let mut i: usize = 0;
    assert(a@.skip(0) =~= a@);
    assert(b@.skip(0) =~= b@);
    while i < a.len() && i < b.len() && a[i] == b[i]
        invariant
            i <= a@.len(),
            i <= b@.len(),
            lex_le(a@, b@) == lex_le(a@.skip(i as int), b@.skip(i as int)),
        decreases a@.len() - i,
    {
        assert(a@.skip(i as int).drop_first() =~= a@.skip(i as int + 1));
        assert(b@.skip(i as int).drop_first() =~= b@.skip(i as int + 1));
        i = i + 1;
    }
    if i == a.len() {
        true
    } else if i == b.len() {
        false
    } else {
        assert(a@.skip(i as int)[0] == a@[i as int]);
        assert(b@.skip(i as int)[0] == b@[i as int]);
        a[i] < b[i]
    }
}

/// The rank of a service for a query: with an empty query every service
/// ranks alike; otherwise the fuzzy score of the lower-cased trimmed query
/// against the lower-cased name, or none where it does not match.
pub open spec fn service_rank(query: Seq<char>, name: Seq<char>) -> Option<int> {
    if trim(query).len() == 0 {
        Some(0)
    } else {
        fuzzy_score_spec(lower_of(trim(query)), lower_of(name))
    }
}

/// Ranked `a` comes no later than ranked `b`: lower rank first, then by name.
pub open spec fn rank_le(ra: int, a: Seq<char>, rb: int, b: Seq<char>) -> bool {
    ra < rb || (ra == rb && lex_le(a, b))
}

/// The services that match the query, in the order given.
pub open spec fn matching(query: Seq<char>, names: Seq<Seq<char>>) -> Seq<Seq<char>> {
    names.filter(|n: Seq<char>| service_rank(query, n) is Some)
}

pub open spec fn rank_of(query: Seq<char>, name: Seq<char>) -> int {
    service_rank(query, name)->0
}

pub open spec fn names_view(v: Seq<String>) -> Seq<Seq<char>> {
    v.map_values(|s: String| s@)
}

/// Filters and orders service names for a search query: the services that
/// match, lowest rank first and, among equal ranks, by name.
pub fn filter_services(query: &str, names: &Vec<String>) -> (r: Vec<String>)
    ensures
        names_view(r@).to_multiset() == matching(query@, names_view(names@)).to_multiset(),
        forall|i: int, j: int|
            0 <= i < j < r@.len() ==> rank_le(
                rank_of(query@, r@[i]@),
                r@[i]@,
                rank_of(query@, r@[j]@),
                r@[j]@,
            ),
        forall|i: int| 0 <= i < r@.len() ==> service_rank(query@, #[trigger] r@[i]@) is Some,
{
    broadcast use vstd::seq_lib::group_to_multiset_ensures;

    let q = trimmed(query);
    let needle = chars_of(lowercase(q.as_str()).as_str());
    let empty = q.as_str().is_empty();
    let mut out: Vec<String> = Vec::new();
    let mut ranks: Vec<usize> = Vec::new();
    let mut keys: Vec<Vec<char>> = Vec::new();
    let mut k: usize = 0;
    while k < names.len()
        invariant
            k <= names@.len(),
            q@ == trim(query@),
            needle@ == lower_of(trim(query@)),
            empty == (trim(query@).len() == 0),
            out@.len() == ranks@.len(),
            out@.len() == keys@.len(),
            forall|i: int| 0 <= i < out@.len() ==> #[trigger] keys@[i]@ == out@[i]@,
            forall|i: int|
                0 <= i < out@.len() ==> service_rank(query@, #[trigger] out@[i]@) == Some(
                    ranks@[i] as int,
                ),
            forall|i: int, j: int|
                0 <= i < j < out@.len() ==> rank_le(
                    ranks@[i] as int,
                    out@[i]@,
                    ranks@[j] as int,
                    out@[j]@,
                ),
            names_view(out@).to_multiset() == matching(
                query@,
                names_view(names@.take(k as int)),
            ).to_multiset(),
        decreases names@.len() - k,
    {
        let name = &names[k];
        let hay = chars_of(lowercase(name.as_str()).as_str());
        let rank = if empty {
            Some(0)
        } else {
            fuzzy_score(&needle, &hay)
        };
        let ghost before = names_view(names@.take(k as int));
        let ghost after = names_view(names@.take(k as int + 1));
        assert(after =~= before.push(name@));
        proof {
            reveal(Seq::filter);
            assert(after.drop_last() =~= before);
        }
        match rank {
            None => {
                assert(matching(query@, after) =~= matching(query@, before));
            },
            Some(rk) => {
                let name_chars = chars_of(name.as_str());
                let mut p: usize = 0;
                while p < out.len() && (ranks[p] < rk || (ranks[p] == rk && lex_less_eq(
                    &keys[p],
                    &name_chars,
                )))
                    invariant
                        p <= out@.len(),
                        out@.len() == ranks@.len(),
                        out@.len() == keys@.len(),
                        forall|i: int| 0 <= i < out@.len() ==> #[trigger] keys@[i]@ == out@[i]@,
                        name_chars@ == name@,
                        forall|i: int|
                            0 <= i < p ==> rank_le(
                                ranks@[i] as int,
                                out@[i]@,
                                rk as int,
                                name@,
                            ),
                    decreases out@.len() - p,
                {
                    p = p + 1;
                }
                proof {
                    if p < out@.len() {
                        lemma_lex_total(out@[p as int]@, name@);
                        assert(rank_le(rk as int, name@, ranks@[p as int] as int, out@[p as int]@));
                    }
                }
                let ghost old_out = out@;
                let ghost old_ranks = ranks@;
                out.insert(p, name.clone());
                ranks.insert(p, rk);
                keys.insert(p, name_chars);
                proof {
                    assert(out@ == old_out.insert(p as int, out@[p as int]));
                    assert(names_view(out@) =~= names_view(old_out).insert(p as int, name@));
                    assert(matching(query@, after) =~= matching(query@, before).push(name@));
                    vstd::seq_lib::to_multiset_insert(names_view(old_out), p as int, name@);
                    vstd::seq_lib::to_multiset_build(matching(query@, before), name@);
                    assert forall|i: int, j: int|
                        0 <= i < j < out@.len() implies rank_le(
                        ranks@[i] as int,
                        out@[i]@,
                        ranks@[j] as int,
                        out@[j]@,
                    ) by {
                        if i < p && j == p {
                        } else if i < p && j > p {
                            assert(out@[j] == old_out[j - 1]);
                            assert(ranks@[j] == old_ranks[j - 1]);
                            assert(rank_le(old_ranks[i] as int, old_out[i]@, rk as int, name@));
                            if p < old_out.len() {
                                assert(rank_le(rk as int, name@, old_ranks[p as int] as int, old_out[p as int]@));
                                if j - 1 > p {
                                    assert(rank_le(old_ranks[p as int] as int, old_out[p as int]@, old_ranks[j - 1] as int, old_out[j - 1]@));
                                    if rk == old_ranks[p as int] && old_ranks[p as int] == old_ranks[j - 1] {
                                        lemma_lex_trans(name@, old_out[p as int]@, old_out[j - 1]@);
                                    }
                                }
                                if old_ranks[i] == rk && rk == old_ranks[j - 1] {
                                    lemma_lex_trans(old_out[i]@, name@, old_out[j - 1]@);
                                }
                            }
                        } else if i == p && j > p {
                            assert(out@[j] == old_out[j - 1]);
                            assert(ranks@[j] == old_ranks[j - 1]);
                            assert(rank_le(rk as int, name@, old_ranks[p as int] as int, old_out[p as int]@));
                            if j - 1 > p {
                                assert(rank_le(old_ranks[p as int] as int, old_out[p as int]@, old_ranks[j - 1] as int, old_out[j - 1]@));
                                if rk == old_ranks[p as int] && old_ranks[p as int] == old_ranks[j - 1] {
                                    lemma_lex_trans(name@, old_out[p as int]@, old_out[j - 1]@);
                                }
                            }
                        } else if i > p {
                            assert(out@[j] == old_out[j - 1]);
                            assert(out@[i] == old_out[i - 1]);
                        }
                    }
                }
            },
        }
        k = k + 1;
    }
    assert(names@.take(k as int) =~= names@);
    out
}

} // verus!
