//! Who listens to which symbol, and which symbols a client may ask for.
//! Symbols are byte strings; connections are named by their 128-bit id.
use vstd::prelude::*;
use crate::orderbook::bytes_equal;

verus! {

/// Most symbols one subscription request may name.
pub const MAX_SUBSCRIPTION_SYMBOLS: usize = 100;

/// Subscribers of each symbol, side by side: the symbols and, for each, the
/// ids of its subscribers in subscription order.
pub struct MessageBroadcaster {
    pub symbols: Vec<Vec<u8>>,
    pub subscribers: Vec<Vec<u128>>,
}

/// Position of a symbol, if present.
pub open spec fn symbol_index(symbols: Seq<Vec<u8>>, symbol: Seq<u8>) -> Option<int>
    decreases symbols.len(),
{
    if symbols.len() == 0 {
        None
    } else {
        match symbol_index(symbols.drop_last(), symbol) {
            Some(i) => Some(i),
            None => if symbols.last()@ == symbol { Some(symbols.len() - 1) } else { None },
        }
    }
}

/// Subscribers of a symbol (none when it has no entry).
pub open spec fn subscribers_of(b: MessageBroadcaster, symbol: Seq<u8>) -> Seq<u128> {
    match symbol_index(b.symbols@, symbol) {
        Some(i) => b.subscribers@[i]@,
        None => Seq::empty(),
    }
}

/// The two lists line up.
pub open spec fn broadcaster_wf(b: MessageBroadcaster) -> bool {
    b.symbols@.len() == b.subscribers@.len()
}

/// A found position lies within the list and names the symbol.
pub(crate) proof fn lemma_symbol_index_bound(symbols: Seq<Vec<u8>>, symbol: Seq<u8>)
    ensures
        symbol_index(symbols, symbol) matches Some(i) ==> 0 <= i < symbols.len() && symbols[i]@ == symbol,
    decreases symbols.len(),
{
    if symbols.len() > 0 {
        lemma_symbol_index_bound(symbols.drop_last(), symbol);
    }
}

/// The first match in a prefix is the first match of the whole list.
proof fn lemma_symbol_index_prefix(symbols: Seq<Vec<u8>>, symbol: Seq<u8>, n: int)
    requires
        0 <= n <= symbols.len(),
        symbol_index(symbols.take(n), symbol) is Some,
    ensures
        symbol_index(symbols, symbol) == symbol_index(symbols.take(n), symbol),
    decreases symbols.len(),
{
    if n < symbols.len() {
        assert(symbols.drop_last().take(n) == symbols.take(n));
        lemma_symbol_index_prefix(symbols.drop_last(), symbol, n);
    } else {
        assert(symbols.take(n) == symbols);
    }
}

/// Position of a symbol in a list of symbols, if present.
pub(crate) fn find_symbol(symbols: &Vec<Vec<u8>>, symbol: &Vec<u8>) -> (r: Option<usize>)
    ensures
        r matches Some(i) ==> symbol_index(symbols@, symbol@) == Some(i as int),
        r is None ==> symbol_index(symbols@, symbol@) is None,
{
    let mut i: usize = 0;
    while i < symbols.len()
        invariant
            i <= symbols@.len(),
            symbol_index(symbols@.take(i as int), symbol@) is None,
        decreases symbols@.len() - i,
    {
        proof {
            assert(symbols@.take(i as int + 1).drop_last() == symbols@.take(i as int));
        }
        if bytes_equal(&symbols[i], symbol) {
            proof {
                lemma_symbol_index_prefix(symbols@, symbol@, i as int + 1);
            }
            return Some(i);
        }
        i = i + 1;
    }
    proof {
        assert(symbols@.take(symbols@.len() as int) == symbols@);
    }
    None
}

/// A copy of a byte string.
pub(crate) fn copy_bytes(v: &Vec<u8>) -> (r: Vec<u8>)
    ensures
        r@ == v@,
{
    let mut out: Vec<u8> = Vec::new();
    let mut k: usize = 0;
    while k < v.len()
        invariant
            k <= v@.len(),
            out@ == v@.take(k as int),
        decreases v@.len() - k,
    {
        out.push(v[k]);
        k = k + 1;
    }
    proof {
        assert(v@.take(v@.len() as int) == v@);
    }
    out
}

impl MessageBroadcaster {
    /// A broadcaster with no subscriptions.
    pub fn new() -> (b: Self)
        ensures
            broadcaster_wf(b),
            forall|s: Seq<u8>| #[trigger] subscribers_of(b, s) == Seq::<u128>::empty(),
    {
        MessageBroadcaster { symbols: Vec::new(), subscribers: Vec::new() }
    }

    /// Adds a connection at the end of a symbol's subscribers.
    pub fn subscribe(&mut self, symbol: &Vec<u8>, connection_id: u128)
        requires
            broadcaster_wf(*old(self)),
        ensures
            broadcaster_wf(*final(self)),
            subscribers_of(*final(self), symbol@) == subscribers_of(*old(self), symbol@).push(connection_id),
            forall|s: Seq<u8>| s != symbol@ ==> #[trigger] subscribers_of(*final(self), s) == subscribers_of(*old(self), s),
    {
        match find_symbol(&self.symbols, symbol) {
            Some(i) => {
                proof {
                    lemma_symbol_index_bound(self.symbols@, symbol@);
                }
                let ghost before = self.subscribers@;
                let mut list = self.subscribers.remove(i);
                list.push(connection_id);
                self.subscribers.insert(i, list);
                proof {
                    assert forall|s: Seq<u8>| s != symbol@ implies #[trigger] subscribers_of(*self, s) == subscribers_of(*old(self), s) by {
                        lemma_symbol_index_bound(self.symbols@, s);
                        if symbol_index(self.symbols@, s) is Some {
                            let j = symbol_index(self.symbols@, s)->0;
                            assert(j != i as int);
                            assert(self.subscribers@[j] == before[j]);
                        }
                    }
                }
            },
            None => {
                let key = copy_bytes(symbol);
                let ghost syms0 = self.symbols@;
                let ghost subs0 = self.subscribers@;
                self.symbols.push(key);
                let mut list: Vec<u128> = Vec::new();
                list.push(connection_id);
                self.subscribers.push(list);
                proof {
                    assert(self.symbols@.drop_last() == syms0);
                    assert(symbol_index(self.symbols@, symbol@) == Some(syms0.len() as int));
                    assert forall|s: Seq<u8>| s != symbol@ implies #[trigger] subscribers_of(*self, s) == subscribers_of(*old(self), s) by {
                        assert(self.symbols@.drop_last() == syms0);
                        lemma_symbol_index_bound(syms0, s);
                        if symbol_index(syms0, s) is Some {
                            let j = symbol_index(syms0, s)->0;
                            assert(self.subscribers@[j] == subs0[j]);
                        }
                    }
                }
            },
        }
    }

    /// Removes every subscription of a connection to a symbol.
    pub fn unsubscribe(&mut self, symbol: &Vec<u8>, connection_id: u128)
        requires
            broadcaster_wf(*old(self)),
        ensures
            broadcaster_wf(*final(self)),
            subscribers_of(*final(self), symbol@) == subscribers_of(*old(self), symbol@).filter(|id: u128| id != connection_id),
            forall|s: Seq<u8>| s != symbol@ ==> #[trigger] subscribers_of(*final(self), s) == subscribers_of(*old(self), s),
    {
        match find_symbol(&self.symbols, symbol) {
            Some(i) => {
                proof {
                    lemma_symbol_index_bound(self.symbols@, symbol@);
                }
                let ghost before = self.subscribers@;
                let list = self.subscribers.remove(i);
                let mut kept: Vec<u128> = Vec::new();
                let mut k: usize = 0;
                while k < list.len()
                    invariant
                        k <= list@.len(),
                        kept@ == list@.take(k as int).filter(|id: u128| id != connection_id),
                    decreases list@.len() - k,
                {
                    proof {
                        assert(list@.take(k as int + 1).drop_last() == list@.take(k as int));
                        reveal(Seq::filter);
                    }
                    if list[k] != connection_id {
                        kept.push(list[k]);
                    }
                    k = k + 1;
                }
                proof {
                    assert(list@.take(list@.len() as int) == list@);
                }
                self.subscribers.insert(i, kept);
                proof {
                    assert forall|s: Seq<u8>| s != symbol@ implies #[trigger] subscribers_of(*self, s) == subscribers_of(*old(self), s) by {
                        lemma_symbol_index_bound(self.symbols@, s);
                        if symbol_index(self.symbols@, s) is Some {
                            let j = symbol_index(self.symbols@, s)->0;
                            assert(j != i as int);
                            assert(self.subscribers@[j] == before[j]);
                        }
                    }
                }
            },
            None => {
                proof {
                    reveal(Seq::filter);
                    assert(Seq::<u128>::empty().filter(|id: u128| id != connection_id) =~= Seq::<u128>::empty());
                }
            },
        }
    }

    /// The subscribers of a symbol, in subscription order.
    pub fn get_subscribers(&self, symbol: &Vec<u8>) -> (r: Vec<u128>)
        requires
            broadcaster_wf(*self),
        ensures
            r@ == subscribers_of(*self, symbol@),
    {
        match find_symbol(&self.symbols, symbol) {
            Some(i) => {
                proof {
                    lemma_symbol_index_bound(self.symbols@, symbol@);
                }
                let list = &self.subscribers[i];
                let mut out: Vec<u128> = Vec::new();
                let mut k: usize = 0;
                while k < list.len()
                    invariant
                        k <= list@.len(),
                        out@ == list@.take(k as int),
                    decreases list@.len() - k,
                {
                    out.push(list[k]);
                    k = k + 1;
                }
                proof {
                    assert(list@.take(list@.len() as int) == list@);
                }
                out
            },
            None => Vec::new(),
        }
    }
}

/// Unsubscribing a connection right after subscribing it leaves the symbol's
/// subscribers as unsubscribing alone would: the new entry is gone too.
pub proof fn lemma_unsubscribe_undoes_subscribe(before: Seq<u128>, connection_id: u128)
    ensures
        before.push(connection_id).filter(|id: u128| id != connection_id)
            == before.filter(|id: u128| id != connection_id),
{
    reveal(Seq::filter);
    assert(before.push(connection_id).drop_last() =~= before);
}

/// Whether a list of symbols holds one.
pub open spec fn holds_symbol(symbols: Seq<Vec<u8>>, symbol: Seq<u8>) -> bool {
    exists|i: int| 0 <= i < symbols.len() && #[trigger] symbols[i]@ == symbol
}

/// Whether a symbol is allowed: every symbol is when no list is set.
pub fn validate_symbol(allowed_symbols: &Vec<Vec<u8>>, symbol: &Vec<u8>) -> (r: bool)
    ensures
        r == (allowed_symbols@.len() == 0 || holds_symbol(allowed_symbols@, symbol@)),
{
    if allowed_symbols.len() == 0 {
        return true;
    }
    let found = find_symbol(allowed_symbols, symbol);
    proof {
        lemma_symbol_index_bound(allowed_symbols@, symbol@);
        if found is None && holds_symbol(allowed_symbols@, symbol@) {
            let i = choose|i: int| 0 <= i < allowed_symbols@.len() && #[trigger] allowed_symbols@[i]@ == symbol@;
            lemma_symbol_index_some(allowed_symbols@, symbol@, i);
        }
    }
    found.is_some()
}

/// A symbol present at some position has a first position.
pub(crate) proof fn lemma_symbol_index_some(symbols: Seq<Vec<u8>>, symbol: Seq<u8>, i: int)
    requires
        0 <= i < symbols.len(),
        symbols[i]@ == symbol,
    ensures
        symbol_index(symbols, symbol) is Some,
    decreases symbols.len(),
{
    if i < symbols.len() - 1 {
        assert(symbols.drop_last()[i] == symbols[i]);
        lemma_symbol_index_some(symbols.drop_last(), symbol, i);
    }
}

/// Whether a subscription request is acceptable: every symbol is in the
/// allowed list (an empty list allows none) and there are at most 100.
pub fn validate_subscription(allowed_symbols: &Vec<Vec<u8>>, symbols: &Vec<Vec<u8>>) -> (r: bool)
    ensures
        r == ((forall|k: int| 0 <= k < symbols@.len() ==> holds_symbol(allowed_symbols@, #[trigger] symbols@[k]@))
            && symbols@.len() <= MAX_SUBSCRIPTION_SYMBOLS),
{
    let mut k: usize = 0;
    while k < symbols.len()
        invariant
            k <= symbols@.len(),
            forall|j: int| 0 <= j < k ==> holds_symbol(allowed_symbols@, #[trigger] symbols@[j]@),
        decreases symbols@.len() - k,
    {
        let found = find_symbol(allowed_symbols, &symbols[k]);
        proof {
            lemma_symbol_index_bound(allowed_symbols@, symbols@[k as int]@);
        }
        if found.is_none() {
            proof {
                if holds_symbol(allowed_symbols@, symbols@[k as int]@) {
                    let i = choose|i: int| 0 <= i < allowed_symbols@.len() && #[trigger] allowed_symbols@[i]@ == symbols@[k as int]@;
                    lemma_symbol_index_some(allowed_symbols@, symbols@[k as int]@, i);
                }
            }
            return false;
        }
        proof {
            let i = symbol_index(allowed_symbols@, symbols@[k as int]@)->0;
            assert(allowed_symbols@[i]@ == symbols@[k as int]@);
        }
        k = k + 1;
    }
    symbols.len() <= MAX_SUBSCRIPTION_SYMBOLS
}

/// Why a subscription request was refused.
#[derive(Clone, Copy, Debug, PartialEq, Eq, Structural)]
pub enum SubscriptionError {
    /// A symbol is not allowed, or the request names too many.
    InvalidSubscription,
}

/// How many times a symbol occurs in a list.
pub open spec fn occurrences(symbols: Seq<Vec<u8>>, symbol: Seq<u8>) -> nat
    decreases symbols.len(),
{
    if symbols.len() == 0 {
        0
    } else {
        occurrences(symbols.drop_last(), symbol) + if symbols.last()@ == symbol { 1nat } else { 0nat }
    }
}

/// `n` copies of a connection id.
pub open spec fn copies(connection_id: u128, n: nat) -> Seq<u128> {
    Seq::new(n, |_i: int| connection_id)
}

/// Subscribes a connection to every symbol of a request, once per mention,
/// after checking the request against the allowed symbols; refused
/// requests change nothing.
pub fn handle_subscription(
    broadcaster: &mut MessageBroadcaster,
    allowed_symbols: &Vec<Vec<u8>>,
    connection_id: u128,
    symbols: &Vec<Vec<u8>>,
) -> (r: Result<(), SubscriptionError>)
    requires
        broadcaster_wf(*old(broadcaster)),
    ensures
        broadcaster_wf(*final(broadcaster)),
        r is Err <==> !((forall|k: int| 0 <= k < symbols@.len() ==> holds_symbol(allowed_symbols@, #[trigger] symbols@[k]@))
            && symbols@.len() <= MAX_SUBSCRIPTION_SYMBOLS),
        r is Err ==> r == Err::<(), SubscriptionError>(SubscriptionError::InvalidSubscription)
            && forall|s: Seq<u8>| #[trigger] subscribers_of(*final(broadcaster), s) == subscribers_of(*old(broadcaster), s),
        r is Ok ==> forall|s: Seq<u8>| #[trigger] subscribers_of(*final(broadcaster), s) == subscribers_of(*old(broadcaster), s)
            + copies(connection_id, occurrences(symbols@, s)),
{
    if !validate_subscription(allowed_symbols, symbols) {
        return Err(SubscriptionError::InvalidSubscription);
    }
    let mut i: usize = 0;
    while i < symbols.len()
        invariant
            i <= symbols@.len(),
            broadcaster_wf(*broadcaster),
            forall|s: Seq<u8>| #[trigger] subscribers_of(*broadcaster, s) == subscribers_of(*old(broadcaster), s)
                + copies(connection_id, occurrences(symbols@.take(i as int), s)),
        decreases symbols@.len() - i,
    {
        let ghost before = *broadcaster;
        broadcaster.subscribe(&symbols[i], connection_id);
        proof {
            let t = symbols@.take(i as int);
            let t1 = symbols@.take(i as int + 1);
            assert(t1.drop_last() == t);
            assert(t1.last() == symbols@[i as int]);
            assert forall|s: Seq<u8>| #[trigger] subscribers_of(*broadcaster, s) == subscribers_of(*old(broadcaster), s)
                + copies(connection_id, occurrences(t1, s)) by {
                if s == symbols@[i as int]@ {
                    assert(copies(connection_id, occurrences(t1, s)) =~= copies(connection_id, occurrences(t, s)).push(connection_id));
                    assert(subscribers_of(before, s) == subscribers_of(*old(broadcaster), s) + copies(connection_id, occurrences(t, s)));
                    assert(subscribers_of(*old(broadcaster), s) + copies(connection_id, occurrences(t1, s))
                        =~= (subscribers_of(*old(broadcaster), s) + copies(connection_id, occurrences(t, s))).push(connection_id));
                } else {
                    assert(subscribers_of(before, s) == subscribers_of(*old(broadcaster), s) + copies(connection_id, occurrences(t, s)));
                }
            }
        }
        i = i + 1;
    }
    proof {
        assert(symbols@.take(symbols@.len() as int) == symbols@);
    }
    Ok(())
}

/// Removes a connection from every symbol of a request.
pub fn handle_unsubscription(
    broadcaster: &mut MessageBroadcaster,
    connection_id: u128,
    symbols: &Vec<Vec<u8>>,
) -> (r: Result<(), SubscriptionError>)
    requires
        broadcaster_wf(*old(broadcaster)),
    ensures
        r is Ok,
        broadcaster_wf(*final(broadcaster)),
        forall|s: Seq<u8>| occurrences(symbols@, s) > 0 ==> #[trigger] subscribers_of(*final(broadcaster), s)
            == subscribers_of(*old(broadcaster), s).filter(|id: u128| id != connection_id),
        forall|s: Seq<u8>| occurrences(symbols@, s) == 0 ==> #[trigger] subscribers_of(*final(broadcaster), s)
            == subscribers_of(*old(broadcaster), s),
{
    let mut i: usize = 0;
    while i < symbols.len()
        invariant
            i <= symbols@.len(),
            broadcaster_wf(*broadcaster),
            forall|s: Seq<u8>| occurrences(symbols@.take(i as int), s) > 0 ==> #[trigger] subscribers_of(*broadcaster, s)
                == subscribers_of(*old(broadcaster), s).filter(|id: u128| id != connection_id),
            forall|s: Seq<u8>| occurrences(symbols@.take(i as int), s) == 0 ==> #[trigger] subscribers_of(*broadcaster, s)
                == subscribers_of(*old(broadcaster), s),
        decreases symbols@.len() - i,
    {
        let ghost before = *broadcaster;
        broadcaster.unsubscribe(&symbols[i], connection_id);
        proof {
            let t = symbols@.take(i as int);
            let t1 = symbols@.take(i as int + 1);
            assert(t1.drop_last() == t);
            assert(t1.last() == symbols@[i as int]);
            let s0 = symbols@[i as int]@;
            if occurrences(t, s0) > 0 {
                lemma_filter_twice(subscribers_of(*old(broadcaster), s0), connection_id);
            }
        }
        i = i + 1;
    }
    proof {
        assert(symbols@.take(symbols@.len() as int) == symbols@);
    }
    Ok(())
}

/// Dropping a connection id twice is dropping it once.
proof fn lemma_filter_twice(s: Seq<u128>, connection_id: u128)
    ensures
        s.filter(|id: u128| id != connection_id).filter(|id: u128| id != connection_id)
            == s.filter(|id: u128| id != connection_id),
    decreases s.len(),
{
    reveal(Seq::filter);
    if s.len() > 0 {
        lemma_filter_twice(s.drop_last(), connection_id);
        let f = s.filter(|id: u128| id != connection_id);
        if s.last() != connection_id {
            assert(f.drop_last() == s.drop_last().filter(|id: u128| id != connection_id));
        }
    }
}

} // verus!
