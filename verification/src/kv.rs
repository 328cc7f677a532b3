//! Key/value view of an advertisement payload: CRLF-delimited lines, each
//! split at `": "` into a key and a value, with later lines shadowing
//! earlier ones carrying the same key.
use vstd::prelude::*;

use crate::text::{concat_all, concat_from, lemma_split_on_len, split_on, split_str, str_eq};

verus! {

/// The key of one line: the text before its first `": "` (the whole line if
/// the separator never occurs).
pub open spec fn key_of(line: Seq<char>) -> Seq<char> {
    split_on(line, ": "@)[0]
}

/// The value of one line: what follows its first `": "`, with every further
/// occurrence of `": "` removed.
pub open spec fn val_of(line: Seq<char>) -> Seq<char> {
    concat_all(split_on(line, ": "@).skip(1))
}

/// The key/value pairs of a payload, in line order.
pub open spec fn entries_of(s: Seq<char>) -> Seq<(Seq<char>, Seq<char>)> {
    split_on(s, "\r\n"@).map_values(|l: Seq<char>| (key_of(l), val_of(l)))
}

/// The value of the last entry carrying `key`, as a hash map filled in
/// entry order would report it.
pub open spec fn lookup(entries: Seq<(Seq<char>, Seq<char>)>, key: Seq<char>) -> Option<Seq<char>>
    decreases entries.len(),
{
    if entries.len() == 0 {
        None
    } else if entries.last().0 == key {
        Some(entries.last().1)
    } else {
        lookup(entries.drop_last(), key)
    }
}

/// The value a payload advertises under `key`, if any.
pub open spec fn field_of(s: Seq<char>, key: Seq<char>) -> Option<Seq<char>> {
    lookup(entries_of(s), key)
}

/// The parsed key/value pairs of one payload.
pub struct ResponseMap {
    pairs: Vec<(String, String)>,
}

impl View for ResponseMap {
    type V = Seq<(Seq<char>, Seq<char>)>;

    closed spec fn view(&self) -> Seq<(Seq<char>, Seq<char>)> {
        self.pairs@.map_values(|p: (String, String)| (p.0@, p.1@))
    }
}

impl ResponseMap {
    /// The stored value under `key`: that of the last line that carries it.
    pub fn get(&self, key: &str) -> (r: Option<&String>)
        ensures
            match r {
                Some(v) => lookup(self@, key@) == Some(v@),
                None => lookup(self@, key@) is None,
            },
    {
        let mut i: usize = self.pairs.len();
        proof {
            assert(self@.subrange(0, self@.len() as int) =~= self@);
        }
        while i > 0
            invariant
                0 <= i <= self.pairs@.len(),
                self@ == self.pairs@.map_values(|p: (String, String)| (p.0@, p.1@)),
                lookup(self@, key@) == lookup(self@.subrange(0, i as int), key@),
            decreases i,
        {
            i = i - 1;
            proof {
                assert(self@.subrange(0, i + 1).last() == self@[i as int]);
                assert(self@.subrange(0, i + 1).drop_last() =~= self@.subrange(0, i as int));
            }
            if str_eq(self.pairs[i].0.as_str(), key) {
                return Some(&self.pairs[i].1);
            }
        }
        proof {
            assert(self@.subrange(0, 0).len() == 0);
        }
        None
    }
}

/// Splits a payload into its key/value pairs, later lines shadowing earlier
/// ones exactly as inserting each line into a hash map would.
pub fn parse_to_hashmap(search_response: &str) -> (r: ResponseMap)
    ensures
        r@ == entries_of(search_response@),
{
    proof {
        reveal_strlit("\r\n");
        reveal_strlit(": ");
    }
    let lines = split_str(search_response, "\r\n");
    let ghost line_views = lines@.map_values(|p: String| p@);
    let mut pairs: Vec<(String, String)> = Vec::new();
    let mut k: usize = 0;
    while k < lines.len()
        invariant
            0 <= k <= lines@.len(),
            line_views == lines@.map_values(|p: String| p@),
            line_views == split_on(search_response@, "\r\n"@),
            "\r\n"@.len() == 2,
            ": "@.len() == 2,
            pairs@.map_values(|p: (String, String)| (p.0@, p.1@)) == line_views.subrange(
                0,
                k as int,
            ).map_values(|l: Seq<char>| (key_of(l), val_of(l))),
        decreases lines@.len() - k,
    {
        let parts = split_str(lines[k].as_str(), ": ");
        proof {
            lemma_split_on_len(line_views[k as int], ": "@);
        }
        let key = parts[0].clone();
        let val = concat_from(&parts, 1);
        proof {
            let pviews = parts@.map_values(|p: String| p@);
            assert(lines@[k as int]@ == line_views[k as int]);
            assert(pviews == split_on(line_views[k as int], ": "@));
            assert(key@ == pviews[0]);
            assert(key@ == key_of(line_views[k as int]));
            assert(val@ == concat_all(pviews.skip(1)));
            assert(val@ == val_of(line_views[k as int]));
        }
        let ghost prev = pairs@;
        pairs.push((key, val));
        proof {
            let lhs = pairs@.map_values(|p: (String, String)| (p.0@, p.1@));
            let rhs = line_views.subrange(0, k + 1).map_values(
                |l: Seq<char>| (key_of(l), val_of(l)),
            );
            let old_lhs = prev.map_values(|p: (String, String)| (p.0@, p.1@));
            let old_rhs = line_views.subrange(0, k as int).map_values(
                |l: Seq<char>| (key_of(l), val_of(l)),
            );
            assert(old_lhs == old_rhs);
            assert(old_lhs.len() == prev.len());
            assert(old_rhs.len() == k);
            assert(prev.len() == k);
            assert forall|i: int| 0 <= i < lhs.len() implies lhs[i] == rhs[i] by {
                if i < k {
                    assert(pairs@[i] == prev[i]);
                    assert(lhs[i] == old_lhs[i]);
                    assert(line_views.subrange(0, k + 1)[i] == line_views.subrange(
                        0,
                        k as int,
                    )[i]);
                    assert(rhs[i] == old_rhs[i]);
                } else {
                    assert(pairs@[i] == (key, val));
                    assert(line_views.subrange(0, k + 1)[i] == line_views[k as int]);
                }
            }
            assert(lhs =~= rhs);
        }
        k = k + 1;
    }
    proof {
        assert(line_views.subrange(0, line_views.len() as int) =~= line_views);
    }
    ResponseMap { pairs }
}

} // verus!
