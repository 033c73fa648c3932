//! Decisions of the execution engine that stand apart from its I/O: which
//! broker a name selects, and the bounded buffer of news headlines per symbol.

use vstd::prelude::*;
use crate::text::strings_view;

verus! {

/// The version of the engine.
pub fn get_version() -> (r: String)
    ensures
        r@ == "0.4.0"@,
{
    String::from_str("0.4.0")
}

/// The brokers the engine can drive.
#[derive(Debug, Clone, Copy, PartialEq, Eq, Structural)]
pub enum BrokerKind {
    Ibkr,
    Mock,
}

/// The broker that a configured name selects: "ibkr" or "mock".
pub fn broker_kind(name: &str) -> (r: Result<BrokerKind, String>)
    ensures
        name@ == "ibkr"@ ==> r == Ok::<BrokerKind, String>(BrokerKind::Ibkr),
        name@ == "mock"@ ==> r == Ok::<BrokerKind, String>(BrokerKind::Mock),
        name@ != "ibkr"@ && name@ != "mock"@ ==> (r matches Err(m) && m@ == "Unknown broker type"@),
{
    let n = String::from_str(name);
    proof {
        reveal_strlit("ibkr");
        reveal_strlit("mock");
        assert("ibkr"@[0] != "mock"@[0]);
    }
    if n == String::from_str("ibkr") {
        Ok(BrokerKind::Ibkr)
    } else if n == String::from_str("mock") {
        Ok(BrokerKind::Mock)
    } else {
        Err(String::from_str("Unknown broker type"))
    }
}

/// The number of headlines kept per symbol.
pub const MAX_HEADLINES: usize = 10;

/// The headlines after one more arrives: it is appended, and the oldest is
/// dropped once more than `MAX_HEADLINES` are held.
pub open spec fn after_headline(list: Seq<Seq<char>>, headline: Seq<char>) -> Seq<Seq<char>> {
    let l = list.push(headline);
    if l.len() > MAX_HEADLINES {
        l.drop_first()
    } else {
        l
    }
}

/// The headlines after each of `hs` arrives in turn.
pub open spec fn after_headlines(list: Seq<Seq<char>>, hs: Seq<Seq<char>>) -> Seq<Seq<char>>
    decreases hs.len(),
{
    if hs.len() == 0 {
        list
    } else {
        after_headline(after_headlines(list, hs.drop_last()), hs.last())
    }
}

/// Adds a headline to the buffer of one symbol, keeping the last `MAX_HEADLINES`.
pub fn record_headline(list: &mut Vec<String>, headline: String)
    ensures
        strings_view(final(list)@) == after_headline(strings_view(old(list)@), headline@),
{
    list.push(headline);
    if list.len() > MAX_HEADLINES {
        list.remove(0);
    }
    proof {
        assert(strings_view(list@) =~= after_headline(strings_view(old(list)@), headline@));
    }
}

/// Starting from an empty buffer, the buffer holds the last `MAX_HEADLINES`
/// headlines that arrived (all of them while fewer arrived), oldest first.
pub proof fn law_headlines_keep_latest(hs: Seq<Seq<char>>)
    ensures
        after_headlines(Seq::empty(), hs) == if hs.len() > MAX_HEADLINES {
            hs.skip(hs.len() - MAX_HEADLINES)
        } else {
            hs
        },
    decreases hs.len(),
{
    if hs.len() > 0 {
        law_headlines_keep_latest(hs.drop_last());
        let prev = hs.drop_last();
        if prev.len() > MAX_HEADLINES {
            assert(prev.skip(prev.len() - MAX_HEADLINES).push(hs.last()).drop_first() =~= hs.skip(
                hs.len() - MAX_HEADLINES,
            ));
        } else if hs.len() > MAX_HEADLINES {
            assert(prev.push(hs.last()).drop_first() =~= hs.skip(hs.len() - MAX_HEADLINES));
        } else {
            assert(prev.push(hs.last()) =~= hs);
        }
    } else {
        assert(hs =~= Seq::<Seq<char>>::empty());
    }
}

} // verus!
