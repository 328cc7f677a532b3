//! The compute side of discovery: parsing a batch of received payloads,
//! dropping the malformed ones, and deduplicating by device identifier in
//! first-seen order. Sending the query and receiving datagrams is the
//! caller's side of the exchange.
use vstd::prelude::*;

use crate::bulb::{spec_parse_bulb, Bulb, BulbData};
use crate::text::str_eq;

verus! {

/// Discovery that could not begin because the listening socket could not
/// be bound. Distinct from a discovery that ran and found no device,
/// which yields an empty record list and is not an error.
#[derive(Debug, Clone, Copy, PartialEq, Eq, Structural)]
pub enum DiscoveryError {
    SocketBindFailure,
}

/// Some earlier record carries the identifier `q`.
pub open spec fn seen_id(s: Seq<Bulb>, q: Seq<char>) -> bool {
    exists|j: int| 0 <= j < s.len() && s[j].id@ == q
}

/// First-seen-order deduplication by device identifier: a record is kept
/// exactly when no earlier record carries its identifier.
pub open spec fn dedup_by_id(s: Seq<Bulb>) -> Seq<Bulb>
    decreases s.len(),
{
    if s.len() == 0 {
        s
    } else {
        let prefix = dedup_by_id(s.drop_last());
        if seen_id(s.drop_last(), s.last().id@) {
            prefix
        } else {
            prefix.push(s.last())
        }
    }
}

/// Deduplication keeps exactly the identifiers that were there.
pub proof fn lemma_dedup_same_ids(s: Seq<Bulb>, q: Seq<char>)
    ensures
        seen_id(dedup_by_id(s), q) <==> seen_id(s, q),
    decreases s.len(),
{
    if s.len() > 0 {
        lemma_dedup_same_ids(s.drop_last(), q);
        let prefix = dedup_by_id(s.drop_last());
        if seen_id(s.drop_last(), s.last().id@) {
            if seen_id(s, q) {
                let j = choose|j: int| 0 <= j < s.len() && s[j].id@ == q;
                if j == s.len() - 1 {
                    assert(seen_id(s.drop_last(), q));
                } else {
                    assert(s.drop_last()[j].id@ == q);
                }
            }
            if seen_id(s.drop_last(), q) {
                let j = choose|j: int| 0 <= j < s.drop_last().len() && s.drop_last()[j].id@ == q;
                assert(s[j].id@ == q);
            }
        } else {
            if seen_id(s, q) {
                let j = choose|j: int| 0 <= j < s.len() && s[j].id@ == q;
                if j == s.len() - 1 {
                    assert(prefix.push(s.last()).last().id@ == q);
                } else {
                    assert(s.drop_last()[j].id@ == q);
                    let i = choose|i: int| 0 <= i < prefix.len() && prefix[i].id@ == q;
                    assert(prefix.push(s.last())[i].id@ == q);
                }
            }
            if seen_id(prefix.push(s.last()), q) {
                let j = choose|j: int|
                    0 <= j < prefix.push(s.last()).len() && prefix.push(s.last())[j].id@ == q;
                if j == prefix.len() {
                    assert(s.last().id@ == q);
                } else {
                    assert(prefix[j].id@ == q);
                    let i = choose|i: int|
                        0 <= i < s.drop_last().len() && s.drop_last()[i].id@ == q;
                    assert(s[i].id@ == q);
                }
            }
        }
    }
}

/// Whether some record in `v` carries the identifier `id`.
fn contains_id(v: &Vec<Bulb>, id: &String) -> (r: bool)
    ensures
        r == seen_id(v@, id@),
{
    let mut i: usize = 0;
    while i < v.len()
        invariant
            0 <= i <= v@.len(),
            forall|k: int| 0 <= k < i ==> v@[k].id@ != id@,
        decreases v@.len() - i,
    {
        if str_eq(v[i].id.as_str(), id.as_str()) {
            assert(v@[i as int].id@ == id@);
            return true;
        }
        i = i + 1;
    }
    false
}

/// Keeps, for each device identifier, only the first record that carried
/// it; the order of the kept records is unchanged.
pub fn remove_duplicates(bulbs: Vec<Bulb>) -> (r: Vec<Bulb>)
    ensures
        r@ == dedup_by_id(bulbs@),
    decreases bulbs@.len(),
{
    let mut work = bulbs;
    match work.pop() {
        None => work,
        Some(last) => {
            let mut rest = remove_duplicates(work);
            proof {
                lemma_dedup_same_ids(bulbs@.drop_last(), last.id@);
            }
            if !contains_id(&rest, &last.id) {
                rest.push(last);
            }
            rest
        },
    }
}

/// The records a batch of raw payloads denotes, in arrival order, with
/// payloads that fail to parse dropped rather than failing the batch.
pub open spec fn parsed_records(ps: Seq<Seq<char>>) -> Seq<BulbData>
    decreases ps.len(),
{
    if ps.len() == 0 {
        Seq::empty()
    } else {
        let rest = parsed_records(ps.drop_last());
        match spec_parse_bulb(ps.last()) {
            Some(b) => rest.push(b),
            None => rest,
        }
    }
}

/// Some earlier record content carries the identifier `q`.
pub open spec fn seen_data_id(s: Seq<BulbData>, q: Seq<char>) -> bool {
    exists|j: int| 0 <= j < s.len() && s[j].id == q
}

/// First-seen-order deduplication of record contents by identifier.
pub open spec fn dedup_data_by_id(s: Seq<BulbData>) -> Seq<BulbData>
    decreases s.len(),
{
    if s.len() == 0 {
        s
    } else {
        let prefix = dedup_data_by_id(s.drop_last());
        if seen_data_id(s.drop_last(), s.last().id) {
            prefix
        } else {
            prefix.push(s.last())
        }
    }
}

/// Deduplicating records and deduplicating their contents agree.
proof fn lemma_dedup_view(s: Seq<Bulb>)
    ensures
        dedup_by_id(s).map_values(|b: Bulb| b@) == dedup_data_by_id(
            s.map_values(|b: Bulb| b@),
        ),
    decreases s.len(),
{
    let sv = s.map_values(|b: Bulb| b@);
    if s.len() == 0 {
        assert(dedup_by_id(s).map_values(|b: Bulb| b@) =~= dedup_data_by_id(sv));
    } else {
        lemma_dedup_view(s.drop_last());
        assert(s.drop_last().map_values(|b: Bulb| b@) =~= sv.drop_last());
        assert(sv.last() == s.last()@);
        assert(seen_id(s.drop_last(), s.last().id@) <==> seen_data_id(
            sv.drop_last(),
            sv.last().id,
        )) by {
            if seen_id(s.drop_last(), s.last().id@) {
                let j = choose|j: int|
                    0 <= j < s.drop_last().len() && s.drop_last()[j].id@ == s.last().id@;
                assert(sv.drop_last()[j].id == sv.last().id);
            }
            if seen_data_id(sv.drop_last(), sv.last().id) {
                let j = choose|j: int|
                    0 <= j < sv.drop_last().len() && sv.drop_last()[j].id == sv.last().id;
                assert(s.drop_last()[j].id@ == s.last().id@);
            }
        }
        if !seen_id(s.drop_last(), s.last().id@) {
            assert(dedup_by_id(s.drop_last()).push(s.last()).map_values(|b: Bulb| b@)
                =~= dedup_by_id(s.drop_last()).map_values(|b: Bulb| b@).push(s.last()@));
        }
    }
}

/// Parses every payload of one collection window and deduplicates the
/// results by identifier, keeping first occurrences in arrival order. An
/// empty batch yields an empty record list: finding no device is a normal
/// outcome, not an error.
pub fn collect_devices(payloads: &Vec<String>) -> (r: Vec<Bulb>)
    ensures
        r@.map_values(|b: Bulb| b@) == dedup_data_by_id(
            parsed_records(payloads@.map_values(|p: String| p@)),
        ),
        payloads@.len() == 0 ==> r@.len() == 0,
{
    let ghost pviews = payloads@.map_values(|p: String| p@);
    let mut parsed: Vec<Bulb> = Vec::new();
    let mut k: usize = 0;
    proof {
        assert(pviews.subrange(0, 0) =~= Seq::<Seq<char>>::empty());
        assert(parsed@.map_values(|b: Bulb| b@) =~= parsed_records(pviews.subrange(0, 0)));
    }
    while k < payloads.len()
        invariant
            0 <= k <= payloads@.len(),
            pviews == payloads@.map_values(|p: String| p@),
            parsed@.map_values(|b: Bulb| b@) == parsed_records(pviews.subrange(0, k as int)),
        decreases payloads@.len() - k,
    {
        proof {
            let pref = pviews.subrange(0, k + 1);
            assert(pref.drop_last() =~= pviews.subrange(0, k as int));
            assert(pref.last() == pviews[k as int]);
            assert(payloads@[k as int]@ == pviews[k as int]);
        }
        let ghost prev = parsed@;
        match Bulb::parse(payloads[k].as_str()) {
            Some(b) => {
                parsed.push(b);
                proof {
                    assert(parsed@.map_values(|b: Bulb| b@) =~= prev.map_values(
                        |b: Bulb| b@,
                    ).push(parsed@.last()@));
                }
            },
            None => {},
        }
        k = k + 1;
    }
    proof {
        assert(pviews.subrange(0, pviews.len() as int) =~= pviews);
        lemma_dedup_view(parsed@);
    }
    remove_duplicates(parsed)
}

/// All advertisements for one device collapse to its first record: a batch
/// in which every record carries the same identifier deduplicates to
/// exactly the first record.
pub proof fn lemma_same_id_collapses(s: Seq<Bulb>)
    requires
        s.len() >= 1,
        forall|j: int| 0 <= j < s.len() ==> #[trigger] s[j].id@ == s[0].id@,
    ensures
        dedup_by_id(s) == seq![s[0]],
    decreases s.len(),
{
    if s.len() == 1 {
        assert(dedup_by_id(s.drop_last()) == s.drop_last());
        assert(!seen_id(s.drop_last(), s.last().id@));
        assert(dedup_by_id(s) == dedup_by_id(s.drop_last()).push(s.last()));
        assert(dedup_by_id(s) =~= seq![s[0]]);
    } else {
        assert(forall|j: int|
            0 <= j < s.drop_last().len() ==> #[trigger] s.drop_last()[j].id@
                == s.drop_last()[0].id@);
        lemma_same_id_collapses(s.drop_last());
        assert(s.drop_last()[0].id@ == s.last().id@);
        assert(seen_id(s.drop_last(), s.last().id@));
    }
}

/// The fixed discovery query: an HTTP-like search request addressed to the
/// well-known multicast service class for these devices.
pub fn search_message() -> (r: String)
    ensures
        r@
            == "M-SEARCH * HTTP/1.1\r\nHOST: 239.255.255.250:1982\r\nMAN: \"ssdp:discover\"\r\nST: wifi_bulb\r\n"@,
{
    String::from_str(
        "M-SEARCH * HTTP/1.1\r\nHOST: 239.255.255.250:1982\r\nMAN: \"ssdp:discover\"\r\nST: wifi_bulb\r\n",
    )
}

/// The well-known multicast group and port the discovery query is sent to.
pub fn multicast_addr() -> (r: String)
    ensures
        r@ == "239.255.255.250:1982"@,
{
    String::from_str("239.255.255.250:1982")
}

} // verus!
