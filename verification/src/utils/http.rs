use crate::cli::types::{pairs_view, Get, KvPair, Post};
use crate::text::same_text;
use vstd::prelude::*;

verus! {

/// The mapping that a list of pairs builds when they are written one after another into an
/// empty mapping: a later pair replaces an earlier one with the same key.
pub open spec fn map_of(pairs: Seq<(Seq<char>, Seq<char>)>) -> Map<Seq<char>, Seq<char>>
    decreases pairs.len(),
{
    if pairs.len() == 0 {
        Map::empty()
    } else {
        map_of(pairs.drop_last()).insert(pairs.last().0, pairs.last().1)
    }
}

/// Whether no key occurs twice in `pairs`.
pub open spec fn distinct_keys(pairs: Seq<(Seq<char>, Seq<char>)>) -> bool {
    forall|i: int, j: int| 0 <= i < j < pairs.len() ==> pairs[i].0 != pairs[j].0
}

/// The keys of the mapping are the keys of the pairs.
pub proof fn law_keys_of_map(pairs: Seq<(Seq<char>, Seq<char>)>, key: Seq<char>)
    ensures
        map_of(pairs).contains_key(key) <==> exists|i: int|
            0 <= i < pairs.len() && (#[trigger] pairs[i]).0 == key,
        map_of(pairs).dom().finite(),
    decreases pairs.len(),
{
    if pairs.len() > 0 {
        let front = pairs.drop_last();
        law_keys_of_map(front, key);
        if map_of(pairs).contains_key(key) {
            if pairs.last().0 == key {
                assert(pairs[pairs.len() - 1].0 == key);
            } else {
                let i = choose|i: int| 0 <= i < front.len() && (#[trigger] front[i]).0 == key;
                assert(pairs[i].0 == key);
            }
        }
        if exists|i: int| 0 <= i < pairs.len() && (#[trigger] pairs[i]).0 == key {
            let i = choose|i: int| 0 <= i < pairs.len() && (#[trigger] pairs[i]).0 == key;
            if i < front.len() {
                assert(front[i].0 == key);
            }
        }
    }
}

/// Last write wins: the mapping gives each key the value of the last pair that holds it.
pub proof fn law_last_write_wins(pairs: Seq<(Seq<char>, Seq<char>)>, i: int)
    requires
        0 <= i < pairs.len(),
        forall|j: int| i < j < pairs.len() ==> (#[trigger] pairs[j]).0 != pairs[i].0,
    ensures
        map_of(pairs).contains_key(pairs[i].0),
        map_of(pairs)[pairs[i].0] == pairs[i].1,
    decreases pairs.len(),
{
    if i < pairs.len() - 1 {
        let front = pairs.drop_last();
        assert(pairs[pairs.len() - 1].0 != pairs[i].0);
        assert forall|j: int| i < j < front.len() implies (#[trigger] front[j]).0
            != front[i].0 by {
            assert(pairs[j].0 != pairs[i].0);
        }
        law_last_write_wins(front, i);
    }
}

/// The fields of a request body: a mapping from keys to values that holds each key once.
#[derive(Debug)]
pub struct Body {
    entries: Vec<KvPair>,
}

impl View for Body {
    type V = Map<Seq<char>, Seq<char>>;

    closed spec fn view(&self) -> Map<Seq<char>, Seq<char>> {
        map_of(pairs_view(self.entries@))
    }
}

impl Body {
    #[verifier::type_invariant]
    closed spec fn inv(self) -> bool {
        distinct_keys(pairs_view(self.entries@))
    }

    /// A body without fields.
    pub fn new() -> (body: Body)
        ensures
            body@ == Map::<Seq<char>, Seq<char>>::empty(),
    {
        Body { entries: Vec::new() }
    }

    /// The fields as a list that holds each key once.
    pub fn entries(&self) -> (entries: &Vec<KvPair>)
        ensures
            distinct_keys(pairs_view(entries@)),
            map_of(pairs_view(entries@)) == self@,
    {
        proof {
            use_type_invariant(self);
        }
        &self.entries
    }

    /// How many keys the body holds.
    pub fn len(&self) -> (n: usize)
        ensures
            self@.dom().finite(),
            n == self@.dom().len(),
    {
        proof {
            use_type_invariant(self);
            lemma_len_of_map(pairs_view(self.entries@));
        }
        self.entries.len()
    }

    /// Where among the entries `key` stands, if it does.
    fn position(&self, key: &str) -> (at: Option<usize>)
        ensures
            match at {
                Some(i) => i < self.entries.len() && self.entries[i as int].k@ == key@,
                None => forall|j: int| 0 <= j < self.entries.len() ==> self.entries[j].k@ != key@,
            },
    {
        let n = self.entries.len();
        let mut i: usize = 0;
        while i < n
            invariant
                n == self.entries.len(),
                i <= n,
                forall|j: int| 0 <= j < i ==> self.entries[j].k@ != key@,
            decreases n - i,
        {
            if same_text(self.entries[i].k.as_str(), key) {
                return Some(i);
            }
            i = i + 1;
        }
        None
    }

    /// The value that the body holds for `key`, if it holds one.
    pub fn get(&self, key: &str) -> (value: Option<&String>)
        ensures
            match value {
                Some(v) => self@.contains_key(key@) && self@[key@] == v@,
                None => !self@.contains_key(key@),
            },
    {
        proof {
            use_type_invariant(self);
            law_keys_of_map(pairs_view(self.entries@), key@);
        }
        match self.position(key) {
            Some(i) => {
                proof {
                    law_last_write_wins(pairs_view(self.entries@), i as int);
                }
                Some(&self.entries[i].v)
            },
            None => None,
        }
    }

    /// Writes `value` under `key`, in place of the value that the body held for it, if any.
    pub fn insert(&mut self, key: String, value: String)
        ensures
            final(self)@ == old(self)@.insert(key@, value@),
    {
        proof {
            use_type_invariant(&*self);
        }
        let ghost before = pairs_view(self.entries@);
        let at = self.position(key.as_str());
        let mut entries: Vec<KvPair> = Vec::new();
        core::mem::swap(&mut self.entries, &mut entries);
        match at {
            Some(i) => {
                entries.set(i, KvPair { k: key, v: value });
                proof {
                    assert(pairs_view(entries@) =~= before.update(i as int, (key@, value@)));
                    lemma_map_of_update(before, i as int, value@);
                }
            },
            None => {
                entries.push(KvPair { k: key, v: value });
                proof {
                    let after = pairs_view(entries@);
                    assert(after =~= before.push((key@, value@)));
                    assert(after.drop_last() =~= before);
                }
            },
        }
        self.entries = entries;
    }
}

/// A list without a repeated key builds a mapping with as many keys as the list is long.
proof fn lemma_len_of_map(pairs: Seq<(Seq<char>, Seq<char>)>)
    requires
        distinct_keys(pairs),
    ensures
        map_of(pairs).dom().finite(),
        map_of(pairs).dom().len() == pairs.len(),
    decreases pairs.len(),
{
    if pairs.len() > 0 {
        let front = pairs.drop_last();
        lemma_len_of_map(front);
        law_keys_of_map(front, pairs.last().0);
        if map_of(front).contains_key(pairs.last().0) {
            let i = choose|i: int| 0 <= i < front.len() && (#[trigger] front[i]).0 == pairs.last().0;
            assert(pairs[i].0 != pairs[pairs.len() - 1].0);
        }
    }
}

/// In a list without a repeated key, a new value for the key of entry `i` changes the
/// mapping at that key and nowhere else.
proof fn lemma_map_of_update(pairs: Seq<(Seq<char>, Seq<char>)>, i: int, value: Seq<char>)
    requires
        distinct_keys(pairs),
        0 <= i < pairs.len(),
    ensures
        map_of(pairs.update(i, (pairs[i].0, value))) == map_of(pairs).insert(pairs[i].0, value),
{
    let key = pairs[i].0;
    let after = pairs.update(i, (key, value));
    let expected = map_of(pairs).insert(key, value);
    assert forall|q: Seq<char>| map_of(after).contains_key(q) <==> expected.contains_key(q) by {
        law_keys_of_map(pairs, q);
        law_keys_of_map(after, q);
        if map_of(after).contains_key(q) {
            let j = choose|j: int| 0 <= j < after.len() && (#[trigger] after[j]).0 == q;
            assert(pairs[j].0 == q);
        }
        if map_of(pairs).contains_key(q) {
            let j = choose|j: int| 0 <= j < pairs.len() && (#[trigger] pairs[j]).0 == q;
            assert(after[j].0 == q);
        }
        if q == key {
            assert(after[i].0 == q);
        }
    }
    assert forall|q: Seq<char>| map_of(after).contains_key(q) implies map_of(after)[q]
        == expected[q] by {
        law_keys_of_map(after, q);
        let j = choose|j: int| 0 <= j < after.len() && (#[trigger] after[j]).0 == q;
        assert forall|l: int| j < l < after.len() implies (#[trigger] after[l]).0 != after[j].0 by {
            assert(pairs[j].0 != pairs[l].0);
        }
        law_last_write_wins(after, j);
        if j != i {
            assert forall|l: int| j < l < pairs.len() implies (#[trigger] pairs[l]).0
                != pairs[j].0 by {}
            law_last_write_wins(pairs, j);
        }
    }
    assert(map_of(after) =~= expected);
}

/// Collects the fields of a `post` command into the body to send: the pairs are written in
/// the order given, so that of two pairs with one key the later decides the value.
pub fn build_body(pairs: &Vec<KvPair>) -> (body: Body)
    ensures
        body@ == map_of(pairs_view(pairs@)),
{
    let mut body = Body::new();
    let n = pairs.len();
    let mut i: usize = 0;
    while i < n
        invariant
            n == pairs.len(),
            i <= n,
            body@ == map_of(pairs_view(pairs@).take(i as int)),
        decreases n - i,
    {
        let ghost done = pairs_view(pairs@).take(i as int);
        body.insert(pairs[i].k.clone(), pairs[i].v.clone());
        proof {
            let next = pairs_view(pairs@).take(i + 1);
            assert(next.drop_last() =~= done);
            assert(next.last() == pairs@[i as int]@);
        }
        i = i + 1;
    }
    proof {
        assert(pairs_view(pairs@).take(n as int) =~= pairs_view(pairs@));
    }
    body
}

/// The method of a request.
#[derive(Clone, Copy, Debug, PartialEq, Eq, Structural)]
pub enum Verb {
    Get,
    Post,
}

/// A request, ready to send: the method, the URL, and for a `POST` the fields that go out
/// as one JSON object.
#[derive(Debug)]
pub struct Request {
    pub verb: Verb,
    pub url: String,
    pub body: Option<Body>,
}

/// The request of a `get` command: a `GET` to its URL, without a body.
pub fn get(args: &Get) -> (request: Request)
    ensures
        request.verb == Verb::Get,
        request.url@ == args.url@,
        request.body is None,
{
    Request { verb: Verb::Get, url: args.url.clone(), body: None }
}

/// The request of a `post` command: a `POST` to its URL, with the body that its pairs
/// build.
pub fn post(args: &Post) -> (request: Request)
    ensures
        request.verb == Verb::Post,
        request.url@ == args.url@,
        request.body matches Some(body) && body@ == map_of(pairs_view(args.body@)),
{
    Request { verb: Verb::Post, url: args.url.clone(), body: Some(build_body(&args.body)) }
}

} // verus!
