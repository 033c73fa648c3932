//! Lists of (symbol, amount) entries with one entry per symbol, viewed as maps.

use vstd::prelude::*;

verus! {

/// An amount attached to one symbol: a quantity held, a target weight or a
/// trade, depending on the list it stands in.
pub struct Holding {
    pub symbol: String,
    pub quantity: i64,
}

pub open spec fn distinct_symbols(h: Seq<Holding>) -> bool {
    forall|i: int, j: int|
        0 <= i < h.len() && 0 <= j < h.len() && i != j ==> h[i].symbol@ != h[j].symbol@
}

pub open spec fn holds_symbol(h: Seq<Holding>, s: Seq<char>) -> bool {
    exists|i: int| 0 <= i < h.len() && h[i].symbol@ == s
}

pub open spec fn held_quantity(h: Seq<Holding>, s: Seq<char>) -> int {
    h[choose|i: int| 0 <= i < h.len() && h[i].symbol@ == s].quantity as int
}

/// The positions of a list of holdings, by symbol.
pub open spec fn holdings_map(h: Seq<Holding>) -> Map<Seq<char>, int> {
    Map::new(|s: Seq<char>| holds_symbol(h, s), |s: Seq<char>| held_quantity(h, s))
}

pub proof fn lemma_holding_in_map(h: Seq<Holding>, j: int)
    requires
        distinct_symbols(h),
        0 <= j < h.len(),
    ensures
        holdings_map(h).dom().contains(h[j].symbol@),
        holdings_map(h)[h[j].symbol@] == h[j].quantity as int,
{
    let s = h[j].symbol@;
    assert(holds_symbol(h, s));
    let k = choose|i: int| 0 <= i < h.len() && h[i].symbol@ == s;
    assert(k == j);
}

pub proof fn lemma_map_after_set(h: Seq<Holding>, j: int, x: Holding)
    requires
        distinct_symbols(h),
        0 <= j < h.len(),
        x.symbol@ == h[j].symbol@,
    ensures
        distinct_symbols(h.update(j, x)),
        holdings_map(h.update(j, x)) == holdings_map(h).insert(x.symbol@, x.quantity as int),
{
    let h2 = h.update(j, x);
    assert(distinct_symbols(h2));
    lemma_holding_in_map(h2, j);
    assert forall|s: Seq<char>| #![auto]
        holdings_map(h2).dom().contains(s) <==> holdings_map(h).insert(x.symbol@, x.quantity as int).dom().contains(s)
    by {
        if holds_symbol(h, s) {
            let i = choose|i: int| 0 <= i < h.len() && h[i].symbol@ == s;
            if i != j {
                assert(h2[i].symbol@ == s);
            }
        }
        if holds_symbol(h2, s) {
            let i = choose|i: int| 0 <= i < h2.len() && h2[i].symbol@ == s;
            if i != j {
                assert(h[i].symbol@ == s);
            }
        }
    }
    assert forall|s: Seq<char>|
        #[trigger] holdings_map(h2).dom().contains(s) && s != x.symbol@
        implies holdings_map(h2)[s] == holdings_map(h)[s]
    by {
        let i = choose|i: int| 0 <= i < h2.len() && h2[i].symbol@ == s;
        assert(i != j);
        assert(h[i] == h2[i]);
        lemma_holding_in_map(h2, i);
        lemma_holding_in_map(h, i);
    }
    assert(holdings_map(h2) =~= holdings_map(h).insert(x.symbol@, x.quantity as int));
}

pub proof fn lemma_map_after_push(h: Seq<Holding>, x: Holding)
    requires
        distinct_symbols(h),
        !holds_symbol(h, x.symbol@),
    ensures
        distinct_symbols(h.push(x)),
        holdings_map(h.push(x)) == holdings_map(h).insert(x.symbol@, x.quantity as int),
{
    let h2 = h.push(x);
    assert forall|i: int, j: int|
        0 <= i < h2.len() && 0 <= j < h2.len() && i != j implies h2[i].symbol@ != h2[j].symbol@
    by {
        if i == h.len() as int {
            assert(h2[j] == h[j]);
        } else if j == h.len() as int {
            assert(h2[i] == h[i]);
        } else {
            assert(h2[i] == h[i] && h2[j] == h[j]);
        }
    }
    lemma_holding_in_map(h2, h.len() as int);
    assert forall|s: Seq<char>| #![auto]
        holdings_map(h2).dom().contains(s) <==> holdings_map(h).insert(x.symbol@, x.quantity as int).dom().contains(s)
    by {
        if holds_symbol(h, s) {
            let i = choose|i: int| 0 <= i < h.len() && h[i].symbol@ == s;
            assert(h2[i].symbol@ == s);
        }
        if holds_symbol(h2, s) && s != x.symbol@ {
            let i = choose|i: int| 0 <= i < h2.len() && h2[i].symbol@ == s;
            assert(h[i].symbol@ == s);
        }
    }
    assert forall|s: Seq<char>|
        #[trigger] holdings_map(h2).dom().contains(s) && s != x.symbol@
        implies holdings_map(h2)[s] == holdings_map(h)[s]
    by {
        let i = choose|i: int| 0 <= i < h2.len() && h2[i].symbol@ == s;
        assert(i != h.len() as int);
        assert(h[i] == h2[i]);
        lemma_holding_in_map(h2, i);
        lemma_holding_in_map(h, i);
    }
    assert(holdings_map(h2) =~= holdings_map(h).insert(x.symbol@, x.quantity as int));
}


pub proof fn lemma_map_after_insert(h: Seq<Holding>, k: int, x: Holding)
    requires
        distinct_symbols(h),
        !holds_symbol(h, x.symbol@),
        0 <= k <= h.len(),
    ensures
        distinct_symbols(h.insert(k, x)),
        holdings_map(h.insert(k, x)) == holdings_map(h).insert(x.symbol@, x.quantity as int),
{
    let h2 = h.insert(k, x);
    assert forall|i: int| 0 <= i < h2.len() implies #[trigger] h2[i] == (if i < k {
        h[i]
    } else if i == k {
        x
    } else {
        h[i - 1]
    }) by {}
    assert forall|i: int, j: int|
        0 <= i < h2.len() && 0 <= j < h2.len() && i != j implies h2[i].symbol@ != h2[j].symbol@
    by {
        if i == k {
            assert(h2[j] == h[if j < k { j } else { j - 1 }]);
        } else if j == k {
            assert(h2[i] == h[if i < k { i } else { i - 1 }]);
        } else {
            assert(h2[i] == h[if i < k { i } else { i - 1 }]);
            assert(h2[j] == h[if j < k { j } else { j - 1 }]);
        }
    }
    lemma_holding_in_map(h2, k);
    assert forall|s: Seq<char>| #![auto]
        holdings_map(h2).dom().contains(s) <==> holdings_map(h).insert(x.symbol@, x.quantity as int).dom().contains(s)
    by {
        if holds_symbol(h, s) {
            let i = choose|i: int| 0 <= i < h.len() && h[i].symbol@ == s;
            if i < k {
                assert(h2[i].symbol@ == s);
            } else {
                assert(h2[i + 1].symbol@ == s);
            }
        }
        if holds_symbol(h2, s) && s != x.symbol@ {
            let i = choose|i: int| 0 <= i < h2.len() && h2[i].symbol@ == s;
            if i < k {
                assert(h[i].symbol@ == s);
            } else {
                assert(h[i - 1].symbol@ == s);
            }
        }
    }
    assert forall|s: Seq<char>|
        #[trigger] holdings_map(h2).dom().contains(s) && s != x.symbol@
        implies holdings_map(h2)[s] == holdings_map(h)[s]
    by {
        let i = choose|i: int| 0 <= i < h2.len() && h2[i].symbol@ == s;
        assert(i != k);
        let j = if i < k { i } else { i - 1 };
        assert(h[j] == h2[i]);
        lemma_holding_in_map(h2, i);
        lemma_holding_in_map(h, j);
    }
    assert(holdings_map(h2) =~= holdings_map(h).insert(x.symbol@, x.quantity as int));
}

/// The index of the entry for `symbol`, if there is one.
pub fn find_symbol(h: &Vec<Holding>, symbol: &String) -> (r: Option<usize>)
    ensures
        match r {
            Some(i) => i < h@.len() && h@[i as int].symbol@ == symbol@,
            None => !holds_symbol(h@, symbol@),
        },
{
    let n = h.len();
    for i in 0..n
        invariant
            n == h@.len(),
            forall|k: int| 0 <= k < i ==> h@[k].symbol@ != symbol@,
    {
        if h[i].symbol == *symbol {
            return Some(i);
        }
    }
    None
}

/// The amount for `s` in a list with one entry per symbol, zero when absent.
pub open spec fn amount_of(h: Seq<Holding>, s: Seq<char>) -> int {
    if holdings_map(h).dom().contains(s) {
        holdings_map(h)[s]
    } else {
        0
    }
}

/// The amount for `symbol`, zero when the list has no entry for it.
pub fn amount_for(h: &Vec<Holding>, symbol: &String) -> (r: i64)
    requires
        distinct_symbols(h@),
    ensures
        r == amount_of(h@, symbol@),
{
    match find_symbol(h, symbol) {
        Some(i) => {
            proof {
                lemma_holding_in_map(h@, i as int);
            }
            h[i].quantity
        },
        None => 0,
    }
}

} // verus!
