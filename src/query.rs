//! Query strings: `k=v&k=v`, read as a flat map from key to value.
use crate::text::{chars_of, find_char, lemma_split_once_at, split_once, substring};
use vstd::prelude::*;
use vstd::string::*;

verus! {

/// The map that a list of pairs denotes, later pairs overriding earlier ones.
pub open spec fn pairs_map(pairs: Seq<(Seq<char>, Seq<char>)>) -> Map<Seq<char>, Seq<char>>
    decreases pairs.len(),
{
    if pairs.len() == 0 {
        Map::empty()
    } else {
        pairs_map(pairs.drop_last()).insert(pairs.last().0, pairs.last().1)
    }
}

pub open spec fn keys_unique(pairs: Seq<(Seq<char>, Seq<char>)>) -> bool {
    forall|i: int, j: int| 0 <= i < j < pairs.len() ==> pairs[i].0 != pairs[j].0
}

/// With distinct keys, each pair is an entry of the map and nothing else is.
pub proof fn lemma_pairs_map(pairs: Seq<(Seq<char>, Seq<char>)>)
    requires
        keys_unique(pairs),
    ensures
        forall|k: Seq<char>|
            pairs_map(pairs).contains_key(k) <==> exists|i: int|
                0 <= i < pairs.len() && pairs[i].0 == k,
        forall|i: int|
            0 <= i < pairs.len() ==> #[trigger] pairs_map(pairs)[pairs[i].0] == pairs[i].1,
    decreases pairs.len(),
{
    if pairs.len() > 0 {
        let init = pairs.drop_last();
        assert(keys_unique(init)) by {
            assert forall|i: int, j: int| 0 <= i < j < init.len() implies init[i].0 != init[j].0 by {
                assert(init[i] == pairs[i] && init[j] == pairs[j]);
            }
        }
        lemma_pairs_map(init);
        let m = pairs_map(pairs);
        assert(m == pairs_map(init).insert(pairs.last().0, pairs.last().1));
        assert forall|k: Seq<char>| m.contains_key(k) <==> exists|i: int|
            0 <= i < pairs.len() && pairs[i].0 == k by {
            if m.contains_key(k) && k != pairs.last().0 {
                let i = choose|i: int| 0 <= i < init.len() && init[i].0 == k;
                assert(pairs[i] == init[i]);
            }
            if exists|i: int| 0 <= i < pairs.len() && pairs[i].0 == k {
                let i = choose|i: int| 0 <= i < pairs.len() && pairs[i].0 == k;
                if i < init.len() {
                    assert(init[i] == pairs[i]);
                }
            }
        }
        assert forall|i: int| 0 <= i < pairs.len() implies #[trigger] m[pairs[i].0] == pairs[i].1 by {
            if i < init.len() {
                assert(init[i] == pairs[i]);
                assert(pairs[i].0 != pairs[pairs.len() - 1].0);
                assert(pairs_map(init)[init[i].0] == init[i].1);
                assert(m == pairs_map(init).insert(pairs.last().0, pairs.last().1));
                assert(m[pairs[i].0] == pairs_map(init)[pairs[i].0]);
            } else {
                assert(m == pairs_map(init).insert(pairs.last().0, pairs.last().1));
                assert(pairs[i] == pairs.last());
            }
        }
    }
}

/// What one `&`-separated fragment adds: split at its first `=` (a missing
/// value is empty); empty fragments and empty keys add nothing.
pub open spec fn apply_fragment(m: Map<Seq<char>, Seq<char>>, f: Seq<char>) -> Map<
    Seq<char>,
    Seq<char>,
> {
    let (k, v) = match split_once(f, '=') {
        Some((k, v)) => (k, v),
        None => (f, Seq::empty()),
    };
    if k.len() == 0 {
        m
    } else {
        m.insert(k, v)
    }
}

/// The map read from the complete fragments of `s`, and the fragment still open.
pub open spec fn scan_query(s: Seq<char>) -> (Map<Seq<char>, Seq<char>>, Seq<char>)
    decreases s.len(),
{
    if s.len() == 0 {
        (Map::empty(), Seq::empty())
    } else {
        let prev = scan_query(s.drop_last());
        if s.last() == '&' {
            (apply_fragment(prev.0, prev.1), Seq::empty())
        } else {
            (prev.0, prev.1.push(s.last()))
        }
    }
}

/// The map a query string denotes.
pub open spec fn parse_query_spec(s: Seq<char>) -> Map<Seq<char>, Seq<char>> {
    apply_fragment(scan_query(s).0, scan_query(s).1)
}

/// One pair in query form.
pub open spec fn pair_text(p: (Seq<char>, Seq<char>)) -> Seq<char> {
    p.0 + "="@ + p.1
}

/// Pairs in query form, joined by `&`.
pub open spec fn join_pairs(pairs: Seq<(Seq<char>, Seq<char>)>) -> Seq<char>
    decreases pairs.len(),
{
    if pairs.len() == 0 {
        Seq::empty()
    } else if pairs.len() == 1 {
        pair_text(pairs[0])
    } else {
        join_pairs(pairs.drop_last()) + "&"@ + pair_text(pairs.last())
    }
}

/// Query parameters: distinct keys, each with its value.
#[derive(Debug)]
pub struct QueryParams {
    entries: Vec<(String, String)>,
}

impl View for QueryParams {
    type V = Map<Seq<char>, Seq<char>>;

    closed spec fn view(&self) -> Map<Seq<char>, Seq<char>> {
        pairs_map(self.pairs())
    }
}

pub open spec fn pairs_of(entries: Seq<(String, String)>) -> Seq<(Seq<char>, Seq<char>)> {
    entries.map_values(|e: (String, String)| (e.0@, e.1@))
}

impl QueryParams {
    /// The entries in the order they are kept.
    pub closed spec fn pairs(&self) -> Seq<(Seq<char>, Seq<char>)> {
        pairs_of(self.entries@)
    }

    #[verifier::type_invariant]
    closed spec fn wf(self) -> bool {
        keys_unique(pairs_of(self.entries@))
    }

    pub fn new() -> (r: QueryParams)
        ensures
            r@ == Map::<Seq<char>, Seq<char>>::empty(),
            r.pairs().len() == 0,
    {
        QueryParams { entries: Vec::new() }
    }

    /// Sets `key` to `value`, replacing what it had.
    pub fn insert(&mut self, key: String, value: String)
        ensures
            final(self)@ == old(self)@.insert(key@, value@),
    {
        proof {
            use_type_invariant(&*self);
            lemma_pairs_map(self.pairs());
        }
        let mut entries: Vec<(String, String)> = Vec::new();
        std::mem::swap(&mut entries, &mut self.entries);
        let ghost old_pairs = pairs_of(entries@);
        let mut i: usize = 0;
        let mut found = false;
        while i < entries.len() && !found
            invariant
                i <= entries@.len(),
                pairs_of(entries@) == old_pairs,
                keys_unique(old_pairs),
                forall|j: int| 0 <= j < i ==> old_pairs[j].0 != key@,
                found ==> i < old_pairs.len() && old_pairs[i as int].0 == key@,
            decreases entries@.len() - i + (if found { 0int } else { 1int }),
        {
            assert(pairs_of(entries@)[i as int] == (entries@[i as int].0@, entries@[i as int].1@));
            if entries[i].0 == key {
                found = true;
            } else {
                i = i + 1;
            }
        }
        if found {
            entries.remove(i);
        }
        let ghost mid = pairs_of(entries@);
        assert(found ==> mid =~= old_pairs.remove(i as int));
        assert(!found ==> mid =~= old_pairs);
        assert(!found ==> i == old_pairs.len());
        assert(keys_unique(mid) && forall|j: int| 0 <= j < mid.len() ==> mid[j].0 != key@) by {
            if found {
                assert forall|j: int| 0 <= j < mid.len() implies mid[j].0 != key@ by {
                    if j >= i {
                        assert(mid[j] == old_pairs[j + 1]);
                    }
                }
            } else {
                assert(mid =~= old_pairs);
            }
        }
        proof {
            lemma_pairs_map(mid);
        }
        entries.push((key, value));
        let ghost new_pairs = pairs_of(entries@);
        assert(new_pairs =~= mid.push((key@, value@)));
        assert(new_pairs.drop_last() =~= mid);
        assert(pairs_map(mid) =~= map_without(old_pairs, key@)) by {
            let m1 = pairs_map(mid);
            let m0 = pairs_map(old_pairs);
            assert forall|k: Seq<char>| m1.contains_key(k) <==> m0.remove(key@).contains_key(k) by {
                if m1.contains_key(k) {
                    let j = choose|j: int| 0 <= j < mid.len() && mid[j].0 == k;
                    if found && j >= i {
                        assert(mid[j] == old_pairs[j + 1]);
                    } else {
                        assert(mid[j] == old_pairs[j]);
                    }
                }
                if m0.remove(key@).contains_key(k) {
                    let j = choose|j: int| 0 <= j < old_pairs.len() && old_pairs[j].0 == k;
                    if found && j > i {
                        assert(mid[j - 1] == old_pairs[j]);
                    } else {
                        assert(mid[j] == old_pairs[j]);
                    }
                }
            }
            assert forall|k: Seq<char>| #[trigger] m1.contains_key(k) implies m1[k] == m0.remove(key@)[k] by {
                let j = choose|j: int| 0 <= j < mid.len() && mid[j].0 == k;
                if found && j >= i {
                    assert(mid[j] == old_pairs[j + 1]);
                    assert(m0[old_pairs[j + 1].0] == old_pairs[j + 1].1);
                } else {
                    assert(mid[j] == old_pairs[j]);
                    assert(m0[old_pairs[j].0] == old_pairs[j].1);
                }
                assert(m1[mid[j].0] == mid[j].1);
            }
        }
        assert(pairs_map(new_pairs) =~= old(self)@.insert(key@, value@));
        assert forall|a: int, b: int| 0 <= a < b < new_pairs.len() implies new_pairs[a].0
            != new_pairs[b].0 by {
            if b < mid.len() {
                assert(new_pairs[a] == mid[a] && new_pairs[b] == mid[b]);
            } else {
                assert(new_pairs[a] == mid[a]);
            }
        }
        self.entries = entries;
    }

    /// The value of `key`, if it has one.
    pub fn get(&self, key: &str) -> (r: Option<&String>)
        ensures
            match r {
                Some(v) => self@.contains_key(key@) && v@ == self@[key@],
                None => !self@.contains_key(key@),
            },
    {
        proof {
            use_type_invariant(self);
            lemma_pairs_map(self.pairs());
        }
        let k = String::from_str(key);
        let mut i: usize = 0;
        while i < self.entries.len()
            invariant
                i <= self.entries@.len(),
                keys_unique(self.pairs()),
                k@ == key@,
                forall|j: int| 0 <= j < i ==> self.pairs()[j].0 != key@,
            decreases self.entries@.len() - i,
        {
            assert(self.pairs()[i as int] == (self.entries@[i as int].0@, self.entries@[i as int].1@));
            if self.entries[i].0 == k {
                proof {
                    lemma_pairs_map(self.pairs());
                }
                assert(self.pairs()[i as int].0 == key@);
                return Some(&self.entries[i].1);
            }
            i = i + 1;
        }
        None
    }

    /// The number of keys.
    pub fn len(&self) -> (r: usize)
        ensures
            r == self@.dom().len(),
    {
        proof {
            use_type_invariant(self);
            lemma_unique_len(self.pairs());
        }
        self.entries.len()
    }

    pub fn is_empty(&self) -> (r: bool)
        ensures
            r <==> self@ == Map::<Seq<char>, Seq<char>>::empty(),
    {
        proof {
            use_type_invariant(self);
            lemma_pairs_map(self.pairs());
        }
        if self.entries.len() == 0 {
            assert(self@ =~= Map::<Seq<char>, Seq<char>>::empty());
            true
        } else {
            assert(self@.contains_key(self.pairs()[0].0));
            false
        }
    }

    /// The parameters in query form, in the order they are kept.
    pub fn serialize(&self) -> (r: String)
        ensures
            r@ == join_pairs(self.pairs()),
    {
        let mut out = String::new();
        let mut i: usize = 0;
        while i < self.entries.len()
            invariant
                i <= self.entries@.len(),
                out@ == join_pairs(self.pairs().take(i as int)),
            decreases self.entries@.len() - i,
        {
            let ghost before = self.pairs().take(i as int);
            let ghost after = self.pairs().take(i as int + 1);
            assert(after.drop_last() =~= before);
            if i > 0 {
                out.append("&");
            }
            out.append(self.entries[i].0.as_str());
            out.append("=");
            out.append(self.entries[i].1.as_str());
            assert(out@ =~= join_pairs(after));
            i = i + 1;
        }
        assert(self.pairs().take(self.entries@.len() as int) =~= self.pairs());
        out
    }
}

impl PartialEq for QueryParams {
    /// The same keys, each with the same value, whatever order they are kept in.
    fn eq(&self, other: &QueryParams) -> (r: bool) {
        proof {
            use_type_invariant(self);
            use_type_invariant(other);
            lemma_pairs_map(self.pairs());
            lemma_pairs_map(other.pairs());
            lemma_unique_len(self.pairs());
            lemma_unique_len(other.pairs());
        }
        if self.entries.len() != other.entries.len() {
            return false;
        }
        let mut i: usize = 0;
        while i < self.entries.len()
            invariant
                i <= self.entries@.len(),
                keys_unique(self.pairs()),
                forall|j: int|
                    0 <= j < i ==> other@.contains_key(#[trigger] self.pairs()[j].0) && other@[self.pairs()[j].0]
                        == self.pairs()[j].1,
            decreases self.entries@.len() - i,
        {
            assert(self.pairs()[i as int] == (self.entries@[i as int].0@, self.entries@[i as int].1@));
            match other.get(self.entries[i].0.as_str()) {
                Some(w) => {
                    if !w.eq(&self.entries[i].1) {
                        proof {
                            lemma_pairs_map(self.pairs());
                            assert(self@[self.pairs()[i as int].0] == self.pairs()[i as int].1);
                        }
                        return false;
                    }
                },
                None => {
                    proof {
                        lemma_pairs_map(self.pairs());
                        assert(self@.contains_key(self.pairs()[i as int].0));
                    }
                    return false;
                },
            }
            i = i + 1;
        }
        proof {
            lemma_pairs_map(self.pairs());
            assert forall|k: Seq<char>| self@.contains_key(k) implies other@.contains_key(k) && other@[k] == self@[k] by {
                let j = choose|j: int| 0 <= j < self.pairs().len() && self.pairs()[j].0 == k;
                assert(self@[self.pairs()[j].0] == self.pairs()[j].1);
            }
            vstd::set_lib::lemma_subset_equality(self@.dom(), other@.dom());
            assert(self@ =~= other@);
        }
        true
    }
}

impl vstd::std_specs::cmp::PartialEqSpecImpl for QueryParams {
    open spec fn obeys_eq_spec() -> bool {
        true
    }

    open spec fn eq_spec(&self, other: &QueryParams) -> bool {
        self@ == other@
    }
}

fn add_fragment(params: &mut QueryParams, query: &str, from: usize, to: usize)
    requires
        from <= to <= query@.len(),
    ensures
        final(params)@ == apply_fragment(old(params)@, query@.subrange(from as int, to as int)),
{
    let frag = substring(query, from, to);
    let chars = chars_of(frag.as_str());
    let n = chars.len();
    let (key, value) = match find_char(&chars, '=') {
        Some(j) => (substring(frag.as_str(), 0, j), substring(frag.as_str(), j + 1, n)),
        None => (frag, String::new()),
    };
    if !key.as_str().is_empty() {
        params.insert(key, value);
    }
}

/// Reads a query string: fragments split on `&`, empty ones dropped, each
/// split at its first `=` (a missing value is empty), empty keys dropped,
/// and a later value for a key replacing an earlier one.
pub fn parse_query_params(query: &str) -> (r: QueryParams)
    ensures
        r@ == parse_query_spec(query@),
{
    let chars = chars_of(query);
    let mut params = QueryParams::new();
    let mut start: usize = 0;
    let mut i: usize = 0;
    while i < chars.len()
        invariant
            start <= i <= chars@.len(),
            chars@ == query@,
            params@ == scan_query(query@.take(i as int)).0,
            scan_query(query@.take(i as int)).1 == query@.subrange(start as int, i as int),
        decreases chars@.len() - i,
    {
        assert(query@.take(i as int + 1).drop_last() =~= query@.take(i as int));
        assert(query@.take(i as int + 1).last() == chars@[i as int]);
        if chars[i] == '&' {
            add_fragment(&mut params, query, start, i);
            start = i + 1;
            assert(query@.subrange(start as int, i as int + 1) =~= Seq::<char>::empty());
        } else {
            assert(query@.subrange(start as int, i as int + 1) =~= query@.subrange(
                start as int,
                i as int,
            ).push(chars@[i as int]));
        }
        i = i + 1;
    }
    assert(query@.take(i as int) =~= query@);
    add_fragment(&mut params, query, start, i);
    params
}

pub open spec fn free_of(s: Seq<char>, c: char) -> bool {
    forall|i: int| 0 <= i < s.len() ==> s[i] != c
}

/// A pair that query form carries unchanged: a non-empty key, and neither
/// key nor value holding `&` or `=`.
pub open spec fn is_plain_pair(p: (Seq<char>, Seq<char>)) -> bool {
    &&& p.0.len() > 0
    &&& free_of(p.0, '&')
    &&& free_of(p.0, '=')
    &&& free_of(p.1, '&')
    &&& free_of(p.1, '=')
}

proof fn lemma_scan_tail(y: Seq<char>, t: Seq<char>)
    requires
        scan_query(y).1.len() == 0,
        free_of(t, '&'),
    ensures
        scan_query(y + t) == (scan_query(y).0, t),
    decreases t.len(),
{
    if t.len() == 0 {
        assert(y + t =~= y);
    } else {
        let u = t.drop_last();
        assert(free_of(u, '&')) by {
            assert forall|i: int| 0 <= i < u.len() implies u[i] != '&' by {
                assert(u[i] == t[i]);
            }
        }
        lemma_scan_tail(y, u);
        assert((y + t).drop_last() =~= y + u);
        assert((y + t).last() == t[t.len() - 1]);
        assert(scan_query(y).1.push(t.last()) =~= seq![t.last()]) by {
            assert(scan_query(y).1 =~= Seq::<char>::empty());
        }
        assert(u.push(t.last()) =~= t);
    }
}

proof fn lemma_apply_pair(m: Map<Seq<char>, Seq<char>>, p: (Seq<char>, Seq<char>))
    requires
        is_plain_pair(p),
    ensures
        apply_fragment(m, pair_text(p)) == m.insert(p.0, p.1),
        free_of(pair_text(p), '&'),
{
    reveal_strlit("=");
    assert("="@ =~= seq!['=']);
    lemma_split_once_at(p.0, '=', p.1);
    let t = pair_text(p);
    assert forall|i: int| 0 <= i < t.len() implies t[i] != '&' by {
        if i < p.0.len() {
            assert(t[i] == p.0[i]);
        } else if i > p.0.len() {
            assert(t[i] == p.1[i - p.0.len() - 1]);
        }
    }
    assert(t.len() > 0);
}

proof fn lemma_parse_join(pairs: Seq<(Seq<char>, Seq<char>)>)
    requires
        forall|i: int| 0 <= i < pairs.len() ==> is_plain_pair(#[trigger] pairs[i]),
    ensures
        parse_query_spec(join_pairs(pairs)) == pairs_map(pairs),
    decreases pairs.len(),
{
    if pairs.len() == 0 {
        assert(split_once(Seq::<char>::empty(), '=') is None);
    } else if pairs.len() == 1 {
        let t = pair_text(pairs[0]);
        lemma_apply_pair(Map::empty(), pairs[0]);
        lemma_scan_tail(Seq::empty(), t);
        assert(Seq::<char>::empty() + t =~= t);
        assert(pairs.drop_last() =~= Seq::<(Seq<char>, Seq<char>)>::empty());
        assert(scan_query(t) == (Map::<Seq<char>, Seq<char>>::empty(), t));
        assert(join_pairs(pairs) == t);
        assert(pairs_map(pairs.drop_last()) == Map::<Seq<char>, Seq<char>>::empty());
    } else {
        let init = pairs.drop_last();
        assert forall|i: int| 0 <= i < init.len() implies is_plain_pair(#[trigger] init[i]) by {
            assert(init[i] == pairs[i]);
        }
        lemma_parse_join(init);
        let j = join_pairs(init);
        let t = pair_text(pairs.last());
        assert(is_plain_pair(pairs[pairs.len() - 1]));
        lemma_apply_pair(parse_query_spec(j), pairs.last());
        reveal_strlit("&");
        assert("&"@ =~= seq!['&']);
        let ja = j + "&"@;
        assert(ja.drop_last() =~= j);
        assert(ja.last() == '&');
        lemma_scan_tail(ja, t);
        assert(join_pairs(pairs) =~= ja + t);
        assert(scan_query(ja) == (parse_query_spec(j), Seq::<char>::empty()));
        assert(scan_query(ja + t) == (parse_query_spec(j), t));
    }
}

/// Reading back the query form of parameters gives the same map, for keys
/// that are non-empty and for keys and values free of `&` and `=`.
pub proof fn lemma_query_round_trip(q: &QueryParams)
    requires
        forall|i: int| 0 <= i < q.pairs().len() ==> is_plain_pair(#[trigger] q.pairs()[i]),
    ensures
        parse_query_spec(join_pairs(q.pairs())) == q@,
{
    lemma_parse_join(q.pairs());
}

spec fn map_without(pairs: Seq<(Seq<char>, Seq<char>)>, key: Seq<char>) -> Map<
    Seq<char>,
    Seq<char>,
> {
    pairs_map(pairs).remove(key)
}

proof fn lemma_unique_len(pairs: Seq<(Seq<char>, Seq<char>)>)
    requires
        keys_unique(pairs),
    ensures
        pairs_map(pairs).dom().len() == pairs.len(),
        pairs_map(pairs).dom().finite(),
    decreases pairs.len(),
{
    if pairs.len() > 0 {
        let init = pairs.drop_last();
        assert(keys_unique(init)) by {
            assert forall|i: int, j: int| 0 <= i < j < init.len() implies init[i].0 != init[j].0 by {
                assert(init[i] == pairs[i] && init[j] == pairs[j]);
            }
        }
        lemma_unique_len(init);
        lemma_pairs_map(init);
        assert(!pairs_map(init).contains_key(pairs.last().0)) by {
            if pairs_map(init).contains_key(pairs.last().0) {
                let i = choose|i: int| 0 <= i < init.len() && init[i].0 == pairs.last().0;
                assert(init[i] == pairs[i]);
            }
        }
    }
}

} // verus!
