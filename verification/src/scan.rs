//! Choices made around a scan: which expirations to fetch and which
//! opportunities to keep.
use vstd::prelude::*;
use vstd::hash_map::StringHashMap;
use crate::types::OptionType;

verus! {

/// Most expirations fetched per ticker.
pub const MAX_EXPIRATIONS_PER_TICKER: usize = 6;

/// An expiration worth scanning: between 7 and 90 days away.
pub open spec fn in_scan_window(expiration: int, today: int) -> bool {
    7 <= expiration - today <= 90
}

/// The expirations in the scan window, in order.
pub open spec fn window_expirations(exps: Seq<i32>, today: int) -> Seq<i32>
    decreases exps.len(),
{
    if exps.len() == 0 {
        Seq::empty()
    } else {
        let rest = window_expirations(exps.drop_last(), today);
        if in_scan_window(exps.last() as int, today) {
            rest.push(exps.last())
        } else {
            rest
        }
    }
}

/// The first `n` elements, or all of them when there are fewer.
pub open spec fn at_most<A>(s: Seq<A>, n: int) -> Seq<A> {
    if s.len() <= n {
        s
    } else {
        s.take(n)
    }
}

/// The expirations to fetch for a ticker: the first six, in the given order,
/// that lie between 7 and 90 days after `today`.
pub fn useful_expirations(exps: &Vec<i32>, today: i32) -> (r: Vec<i32>)
    ensures
        r@ == at_most(window_expirations(exps@, today as int), MAX_EXPIRATIONS_PER_TICKER as int),
        forall|i: int| 0 <= i < r.len() ==> 7 <= #[trigger] r@[i] - today <= 90,
        r.len() == (if exps@.filter(|e: i32| 7 <= e - today <= 90).len() <= 6 {
            exps@.filter(|e: i32| 7 <= e - today <= 90).len()
        } else {
            6
        }),
        forall|i: int| 0 <= i < r.len() ==> #[trigger] r@[i] == exps@.filter(|e: i32| 7 <= e - today <= 90)[i],
{
    let mut r: Vec<i32> = Vec::new();
    let mut i: usize = 0;
    while i < exps.len() && r.len() < MAX_EXPIRATIONS_PER_TICKER
        invariant
            i <= exps.len(),
            r.len() <= MAX_EXPIRATIONS_PER_TICKER,
            r@ == window_expirations(exps@.take(i as int), today as int),
        decreases exps.len() - i,
    {
        assert(exps@.take(i + 1).drop_last() == exps@.take(i as int));
        let e = exps[i];
        let gap: i64 = e as i64 - today as i64;
        if 7 <= gap && gap <= 90 {
            r.push(e);
        }
        i = i + 1;
    }
    proof {
        lemma_window_prefix(exps@, today as int, i as int);
        lemma_window_is_filter(exps@, today);
    }
    r
}

proof fn lemma_window_grows(exps: Seq<i32>, today: int, a: int, b: int)
    requires
        0 <= a <= b <= exps.len(),
    ensures
        window_expirations(exps.take(a), today).len() <= window_expirations(exps.take(b), today).len(),
        window_expirations(exps.take(b), today).take(window_expirations(exps.take(a), today).len() as int)
            == window_expirations(exps.take(a), today),
    decreases b - a,
{
    if a < b {
        lemma_window_grows(exps, today, a, b - 1);
        assert(exps.take(b).drop_last() == exps.take(b - 1));
        let wa = window_expirations(exps.take(a), today);
        let wb1 = window_expirations(exps.take(b - 1), today);
        let wb = window_expirations(exps.take(b), today);
        if wb.len() > wb1.len() {
            assert(wb.take(wa.len() as int) =~= wb1.take(wa.len() as int));
        }
    }
}

proof fn lemma_window_prefix(exps: Seq<i32>, today: int, i: int)
    requires
        0 <= i <= exps.len(),
        i == exps.len() || window_expirations(exps.take(i), today).len() >= MAX_EXPIRATIONS_PER_TICKER,
        window_expirations(exps.take(i), today).len() <= MAX_EXPIRATIONS_PER_TICKER,
    ensures
        window_expirations(exps.take(i), today) == at_most(
            window_expirations(exps, today),
            MAX_EXPIRATIONS_PER_TICKER as int,
        ),
{
    assert(exps.take(exps.len() as int) == exps);
    lemma_window_grows(exps, today, i, exps.len() as int);
}

/// Every expiration chosen lies in the scan window, at most six are chosen,
/// and they keep the order they were listed in.
pub proof fn lemma_window_expirations_sound(exps: Seq<i32>, today: int)
    ensures
        forall|i: int| 0 <= i < window_expirations(exps, today).len() ==> in_scan_window(
            #[trigger] window_expirations(exps, today)[i] as int,
            today,
        ),
        window_expirations(exps, today).len() <= exps.len(),
        at_most(window_expirations(exps, today), MAX_EXPIRATIONS_PER_TICKER as int).len()
            <= MAX_EXPIRATIONS_PER_TICKER,
    decreases exps.len(),
{
    if exps.len() > 0 {
        lemma_window_expirations_sound(exps.drop_last(), today);
    }
}

/// The expirations chosen for the scan window are exactly those listed that
/// lie 7 to 90 days after `today`, in their listed order.
pub proof fn lemma_window_is_filter(exps: Seq<i32>, today: i32)
    ensures
        window_expirations(exps, today as int) == exps.filter(|e: i32| 7 <= e - today <= 90),
        forall|i: int|
            0 <= i < window_expirations(exps, today as int).len() ==> 7 <= #[trigger] window_expirations(
                exps,
                today as int,
            )[i] - today <= 90,
        forall|e: i32| exps.contains(e) && 7 <= e - today <= 90 ==> window_expirations(exps, today as int).contains(e),
        forall|e: i32| window_expirations(exps, today as int).contains(e) ==> exps.contains(e),
    decreases exps.len(),
{
    reveal_with_fuel(Seq::filter, 1);
    let f = |e: i32| 7 <= e - today <= 90;
    if exps.len() > 0 {
        let p = exps.drop_last();
        lemma_window_is_filter(p, today);
        let w = window_expirations(exps, today as int);
        let wp = window_expirations(p, today as int);
        assert(w == wp || w == wp.push(exps.last()));
        assert forall|e: i32| exps.contains(e) && 7 <= e - today <= 90 implies w.contains(e) by {
            let k = choose|k: int| 0 <= k < exps.len() && exps[k] == e;
            if k < exps.len() - 1 {
                assert(p[k] == e);
                assert(p.contains(e));
                assert(wp.contains(e));
                let m = choose|m: int| 0 <= m < wp.len() && wp[m] == e;
                assert(w[m] == e);
            } else {
                assert(w[w.len() - 1] == e);
            }
        }
        assert forall|e: i32| w.contains(e) implies exps.contains(e) by {
            let m = choose|m: int| 0 <= m < w.len() && w[m] == e;
            if m < wp.len() {
                assert(wp[m] == e);
                assert(wp.contains(e));
                assert(p.contains(e));
                let k = choose|k: int| 0 <= k < p.len() && p[k] == e;
                assert(exps[k] == e);
            } else {
                assert(exps[exps.len() - 1] == e);
            }
        }
    }
    assert(window_expirations(exps, today as int) =~= exps.filter(f));
}

/// What identifies a contract when repeated findings are dropped: ticker,
/// strike (by the bits of its floating-point value), expiration day and type.
pub struct ContractKey {
    pub ticker: String,
    pub strike_bits: u64,
    pub expiration: i32,
    pub option_type: OptionType,
}

impl ContractKey {
    /// The key as a value.
    pub open spec fn key(&self) -> (Seq<char>, u64, i32, OptionType) {
        (self.ticker@, self.strike_bits, self.expiration, self.option_type)
    }
}

/// `keys[i]` repeats a key that comes before it.
pub open spec fn seen_before(keys: Seq<ContractKey>, i: int) -> bool {
    exists|j: int| 0 <= j < i && (#[trigger] keys[j]).key() == keys[i].key()
}

/// Some earlier key has exactly the same ticker, the same strike bits, the
/// same expiration and the same option type as `keys[i]`.
pub open spec fn same_contract_before(keys: Seq<ContractKey>, i: int) -> bool {
    exists|j: int|
        #![trigger keys[j]]
        0 <= j < i && keys[j].ticker@ == keys[i].ticker@ && keys[j].strike_bits == keys[i].strike_bits
            && keys[j].expiration == keys[i].expiration && keys[j].option_type == keys[i].option_type
}

/// A finding is dropped exactly when an earlier finding has the same ticker,
/// the same strike bits, the same expiration and the same option type; in
/// particular two findings whose strike bits differ are both kept, unless
/// each repeats an earlier one.
pub proof fn lemma_repeat_means_same_contract(keys: Seq<ContractKey>, keep: Seq<bool>)
    requires
        keep.len() == keys.len(),
        forall|i: int| 0 <= i < keys.len() ==> (keep[i] <==> !seen_before(keys, i)),
    ensures
        forall|i: int| 0 <= i < keys.len() ==> (keep[i] <==> !same_contract_before(keys, i)),
        forall|i: int, j: int|
            0 <= i < j < keys.len() && keep[i] && !same_contract_before(keys, j)
                ==> keep[j],
        forall|j: int|
            0 <= j < keys.len() && (forall|i: int| 0 <= i < j ==> (#[trigger] keys[i]).strike_bits != keys[j].strike_bits)
                ==> keep[j],
{
    assert forall|i: int| 0 <= i < keys.len() implies (seen_before(keys, i) <==> same_contract_before(keys, i)) by {
        if seen_before(keys, i) {
            let j = choose|j: int| 0 <= j < i && (#[trigger] keys[j]).key() == keys[i].key();
            assert(keys[j].key().1 == keys[i].key().1);
            assert(keys[j].ticker@ == keys[i].ticker@);
        }
        if same_contract_before(keys, i) {
            let j = choose|j: int|
                #![trigger keys[j]]
                0 <= j < i && keys[j].ticker@ == keys[i].ticker@ && keys[j].strike_bits == keys[i].strike_bits
                    && keys[j].expiration == keys[i].expiration && keys[j].option_type == keys[i].option_type;
            assert(keys[j].key() == keys[i].key());
        }
    }
}

/// For each key, whether it is the first with its value: the findings kept
/// when later repeats of a contract are dropped (as `retain` with a set of
/// seen keys does).
pub fn first_occurrences(keys: &Vec<ContractKey>) -> (keep: Vec<bool>)
    ensures
        keep.len() == keys.len(),
        forall|i: int| 0 <= i < keys.len() ==> (keep[i] <==> !seen_before(keys@, i)),
        forall|i: int| 0 <= i < keys.len() ==> (keep[i] <==> !same_contract_before(keys@, i)),
{
    let mut keep: Vec<bool> = Vec::new();
    // Index of the previous key with the same ticker.
    let mut prev: Vec<Option<usize>> = Vec::new();
    // Index of the last key seen so far for each ticker.
    let mut last: StringHashMap<usize> = StringHashMap::new();
    let mut i: usize = 0;
    while i < keys.len()
        invariant
            i <= keys.len(),
            keep.len() == i,
            prev.len() == i,
            forall|j: int| 0 <= j < i ==> (#[trigger] keep[j] <==> !seen_before(keys@, j)),
            forall|j: int|
                0 <= j < i ==> match #[trigger] prev[j] {
                    Some(p) => p < j && keys@[p as int].ticker@ == keys@[j].ticker@ && forall|q: int|
                        p < q < j ==> (#[trigger] keys@[q]).ticker@ != keys@[j].ticker@,
                    None => forall|q: int| 0 <= q < j ==> (#[trigger] keys@[q]).ticker@ != keys@[j].ticker@,
                },
            forall|t: Seq<char>|
                #![trigger last@.contains_key(t)]
                last@.contains_key(t) ==> {
                    let m = last@[t] as int;
                    &&& m < i
                    &&& keys@[m].ticker@ == t
                    &&& forall|q: int| m < q < i ==> (#[trigger] keys@[q]).ticker@ != t
                },
            forall|t: Seq<char>|
                #![trigger last@.contains_key(t)]
                !last@.contains_key(t) ==> forall|q: int| 0 <= q < i ==> (#[trigger] keys@[q]).ticker@ != t,
        decreases keys.len() - i,
    {
        let k = &keys[i];
        let ghost t = k.ticker@;
        let start: Option<usize> = match last.get(k.ticker.as_str()) {
            Some(m) => Some(*m),
            None => None,
        };
        // Walk back through the earlier keys with this ticker.
        let mut cur = start;
        let mut dup = false;
        while !dup && cur.is_some()
            invariant
                i < keys.len(),
                prev.len() == i,
                k == &keys@[i as int],
                t == k.ticker@,
                forall|j: int|
                    0 <= j < i ==> match #[trigger] prev[j] {
                        Some(p) => p < j && keys@[p as int].ticker@ == keys@[j].ticker@ && forall|q: int|
                            p < q < j ==> (#[trigger] keys@[q]).ticker@ != keys@[j].ticker@,
                        None => forall|q: int| 0 <= q < j ==> (#[trigger] keys@[q]).ticker@ != keys@[j].ticker@,
                    },
                dup ==> seen_before(keys@, i as int),
                !dup ==> match cur {
                    Some(c) => c < i && keys@[c as int].ticker@ == t && forall|q: int|
                        c < q < i && (#[trigger] keys@[q]).ticker@ == t ==> keys@[q].key() != k.key(),
                    None => forall|q: int|
                        0 <= q < i && (#[trigger] keys@[q]).ticker@ == t ==> keys@[q].key() != k.key(),
                },
            decreases (match cur {
                Some(c) => c as int + 1,
                None => 0,
            }) + (if dup { 0int } else { 1int }),
        {
            let c = cur.unwrap();
            let o = &keys[c];
            if o.strike_bits == k.strike_bits && o.expiration == k.expiration && (match (o.option_type, k.option_type) {
                (OptionType::Call, OptionType::Call) => true,
                (OptionType::Put, OptionType::Put) => true,
                _ => false,
            }) {
                assert(keys@[c as int].key() == keys@[i as int].key());
                dup = true;
            } else {
                cur = prev[c];
            }
        }
        proof {
            if !dup {
                assert forall|j: int| 0 <= j < i implies (#[trigger] keys@[j]).key() != keys@[i as int].key() by {
                    if keys@[j].ticker@ == t {
                    }
                }
            }
        }
        keep.push(!dup);
        prev.push(start);
        let ghost old_last = last@;
        last.insert(k.ticker.clone(), i);
        i = i + 1;
        proof {
            assert forall|t2: Seq<char>| #![trigger last@.contains_key(t2)] last@.contains_key(t2) implies {
                let m = last@[t2] as int;
                &&& m < i
                &&& keys@[m].ticker@ == t2
                &&& forall|q: int| m < q < i ==> (#[trigger] keys@[q]).ticker@ != t2
            } by {
                if t2 != t {
                    assert(old_last.contains_key(t2));
                }
            }
        }
    }
    proof {
        lemma_repeat_means_same_contract(keys@, keep@);
    }
    keep
}


/// Some finding at or before `j` with the key of `keys[j]` is kept.
pub open spec fn kept_earlier(keys: Seq<ContractKey>, keep: Seq<bool>, j: int) -> bool {
    exists|i: int| 0 <= i <= j && keep[i] && #[trigger] keys[i].key() == keys[j].key()
}

/// After dropping repeats, no two kept findings share a key, and every
/// finding's key is kept at its first occurrence.
pub proof fn lemma_kept_keys_distinct(keys: Seq<ContractKey>, keep: Seq<bool>)
    requires
        keep.len() == keys.len(),
        forall|i: int| 0 <= i < keys.len() ==> (keep[i] <==> !seen_before(keys, i)),
    ensures
        forall|i: int, j: int| 0 <= i < j < keys.len() && keep[i] && keep[j] ==> keys[i].key() != keys[j].key(),
        forall|j: int| 0 <= j < keys.len() ==> #[trigger] kept_earlier(keys, keep, j),
{
    assert forall|i: int, j: int| 0 <= i < j < keys.len() && keep[i] && keep[j] implies keys[i].key()
        != keys[j].key() by {
        if keys[i].key() == keys[j].key() {
            assert(seen_before(keys, j));
        }
    }
    assert forall|j: int| 0 <= j < keys.len() implies #[trigger] kept_earlier(keys, keep, j) by {
        let i = lemma_first_with_key(keys, keep, j);
        assert(0 <= i <= j && keep[i] && keys[i].key() == keys[j].key());
    }
}

proof fn lemma_first_with_key(keys: Seq<ContractKey>, keep: Seq<bool>, j: int) -> (i: int)
    requires
        keep.len() == keys.len(),
        forall|i: int| 0 <= i < keys.len() ==> (keep[i] <==> !seen_before(keys, i)),
        0 <= j < keys.len(),
    ensures
        0 <= i <= j,
        keep[i],
        keys[i].key() == keys[j].key(),
    decreases j,
{
    if keep[j] {
        j
    } else {
        let k = choose|k: int| 0 <= k < j && (#[trigger] keys[k]).key() == keys[j].key();
        lemma_first_with_key(keys, keep, k)
    }
}

} // verus!
