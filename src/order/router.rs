//! Chooses the venue that handles an order and forwards calls to it.
use vstd::prelude::*;
use crate::exchange::crypto::{listed_symbols, restamped, CryptoExchange};
use crate::exchange::{Exchange, OrderStatus as ExchangeOrderStatus};
use super::Order;

verus! {

/// The map that a list of (symbol, venue) routing entries denotes; a later
/// entry for a symbol overrides earlier ones.
pub open spec fn routes_of(entries: Seq<(String, String)>) -> Map<Seq<char>, Seq<char>>
    decreases entries.len(),
{
    if entries.len() == 0 {
        Map::empty()
    } else {
        routes_of(entries.drop_last()).insert(entries.last().0@, entries.last().1@)
    }
}

/// The index of the last name in `names` equal to `n`, or -1.
pub open spec fn position_of(names: Seq<Seq<char>>, n: Seq<char>) -> int
    decreases names.len(),
{
    if names.len() == 0 {
        -1
    } else if names.last() == n {
        names.len() - 1
    } else {
        position_of(names.drop_last(), n)
    }
}

pub open spec fn names_of(venues: Seq<CryptoExchange>) -> Seq<Seq<char>> {
    venues.map_values(|v: CryptoExchange| v.spec_config().name@)
}

/// Whether `venue` would accept cancelling `order_id`.
pub open spec fn accepts_cancel(venue: CryptoExchange, order_id: u128) -> bool {
    &&& venue.spec_connected()
    &&& venue.spec_orders().contains_key(order_id)
    &&& venue.spec_orders()[order_id].exchange_order_id is Some
}

/// Two views of one venue that agree on everything it exposes.
pub open spec fn venue_unchanged(before: CryptoExchange, after: CryptoExchange) -> bool {
    &&& after.spec_config() == before.spec_config()
    &&& after.spec_connected() == before.spec_connected()
    &&& after.spec_orders() == before.spec_orders()
}

/// Venue `k` is the first in `venues` that accepts cancelling `order_id`.
pub open spec fn first_acceptor(venues: Seq<CryptoExchange>, order_id: u128, k: int) -> bool {
    &&& accepts_cancel(venues[k], order_id)
    &&& forall|j: int| 0 <= j < k ==> !accepts_cancel(#[trigger] venues[j], order_id)
}

/// `after` is `before` once it has cancelled `order_id`.
pub open spec fn cancelled_at_venue(before: CryptoExchange, after: CryptoExchange, order_id: u128) -> bool {
    &&& after.spec_config() == before.spec_config()
    &&& after.spec_connected() == before.spec_connected()
    &&& after.spec_orders() == before.spec_orders().insert(
        order_id,
        restamped(before.spec_orders()[order_id], ExchangeOrderStatus::Cancelled,
            after.spec_orders()[order_id].last_update),
    )
}

/// `after` is `before` once it has recorded `order` as a new submission.
pub open spec fn recorded_at_venue(before: CryptoExchange, after: CryptoExchange, order: Order) -> bool {
    &&& after.spec_config() == before.spec_config()
    &&& after.spec_connected() == before.spec_connected()
    &&& after.spec_orders().dom() == before.spec_orders().dom().insert(order.id)
    &&& after.spec_orders().remove(order.id) == before.spec_orders().remove(order.id)
    &&& after.spec_orders()[order.id].order == order
    &&& after.spec_orders()[order.id].status == ExchangeOrderStatus::Pending
    &&& after.spec_orders()[order.id].exchange_order_id is Some
}

proof fn lemma_push_has(p: Seq<Seq<char>>, l: Seq<char>, x: Seq<char>)
    ensures
        p.push(l).contains(x) <==> (p.contains(x) || l == x),
{
    if p.push(l).contains(x) {
        let k = choose|k: int| 0 <= k < p.push(l).len() && p.push(l)[k] == x;
        if k < p.len() {
            assert(p[k] == x);
        }
    }
    if p.contains(x) {
        let k = choose|k: int| 0 <= k < p.len() && p[k] == x;
        assert(p.push(l)[k] == x);
    }
    if l == x {
        assert(p.push(l)[p.len() as int] == x);
    }
}

proof fn lemma_position_bounds(names: Seq<Seq<char>>, n: Seq<char>)
    ensures
        -1 <= position_of(names, n) < names.len(),
        position_of(names, n) >= 0 ==> names[position_of(names, n)] == n,
        position_of(names, n) == -1 ==> !names.contains(n),
    decreases names.len(),
{
    if names.len() > 0 {
        lemma_position_bounds(names.drop_last(), n);
        if names.last() != n && position_of(names, n) == -1 {
            assert forall|i: int| 0 <= i < names.len() implies names[i] != n by {
                if i < names.len() - 1 {
                    assert(names.drop_last()[i] == names[i]);
                }
            }
        }
    }
}

/// The texts of a list of strings.
pub open spec fn texts(v: Seq<String>) -> Seq<Seq<char>> {
    v.map_values(|s: String| s@)
}

/// Some venue in `venues` is connected.
pub open spec fn any_connected(venues: Seq<CryptoExchange>) -> bool {
    exists|k: int| 0 <= k < venues.len() && #[trigger] venues[k].spec_connected()
}

fn contains_text(v: &Vec<String>, s: &String) -> (r: bool)
    ensures
        r == texts(v@).contains(s@),
{
    let mut i: usize = 0;
    while i < v.len()
        invariant
            i <= v.len(),
            forall|j: int| 0 <= j < i ==> #[trigger] v@[j]@ != s@,
        decreases v.len() - i,
    {
        if v[i] == *s {
            assert(texts(v@)[i as int] == s@);
            return true;
        }
        i = i + 1;
    }
    assert forall|j: int| 0 <= j < texts(v@).len() implies texts(v@)[j] != s@ by {
        assert(v@[j]@ != s@);
    }
    false
}

/// Routes orders to registered venues: explicitly named ones first, else the
/// primary venue configured for the order's symbol.
pub struct OrderRouter {
    exchanges: Vec<CryptoExchange>,
    primary_exchange_map: Vec<(String, String)>,
}

impl OrderRouter {
    /// The registered venues, in registration order.
    pub closed spec fn venues(&self) -> Seq<CryptoExchange> {
        self.exchanges@
    }

    /// The primary venue of each symbol that has one.
    pub closed spec fn primary(&self) -> Map<Seq<char>, Seq<char>> {
        routes_of(self.primary_exchange_map@)
    }

    /// The venue an order is sent to: its own venue when it names one,
    /// otherwise the primary venue of its symbol.
    pub open spec fn target_of(&self, order: Order) -> Option<Seq<char>> {
        if order.exchange@.len() > 0 {
            Some(order.exchange@)
        } else if self.primary().contains_key(order.symbol@) {
            Some(self.primary()[order.symbol@])
        } else {
            None
        }
    }

    pub fn new() -> (r: OrderRouter)
        ensures
            r.venues() == Seq::<CryptoExchange>::empty(),
            r.primary() == Map::<Seq<char>, Seq<char>>::empty(),
    {
        OrderRouter { exchanges: Vec::new(), primary_exchange_map: Vec::new() }
    }

    /// Index of the registered venue called `name`, if any.
    fn find_venue(&self, name: &str) -> (r: Option<usize>)
        ensures
            r matches Some(i) ==> position_of(names_of(self.venues()), name@) == i as int,
            r is None ==> position_of(names_of(self.venues()), name@) == -1,
            r is None <==> !names_of(self.venues()).contains(name@),
    {
        proof {
            lemma_position_bounds(names_of(self.venues()), name@);
        }
        let wanted = name.to_owned();
        let mut i: usize = self.exchanges.len();
        assert(names_of(self.venues()).subrange(0, i as int) =~= names_of(self.venues()));
        while i > 0
            invariant
                wanted@ == name@,
                i <= self.exchanges.len(),
                position_of(names_of(self.venues()), name@) == position_of(
                    names_of(self.venues()).subrange(0, i as int),
                    name@,
                ),
            decreases i,
        {
            let ghost names = names_of(self.venues());
            assert(names.subrange(0, i as int).drop_last() =~= names.subrange(0, i - 1));
            if self.exchanges[i - 1].name().to_owned() == wanted {
                return Some(i - 1);
            }
            i = i - 1;
        }
        assert(names_of(self.venues()).subrange(0, 0) =~= Seq::<Seq<char>>::empty());
        None
    }

    /// Adds a venue; fails when one of the same name is registered.
    pub fn register_exchange(&mut self, exchange: CryptoExchange) -> (r: Result<(), String>)
        ensures
            r is Err <==> names_of(old(self).venues()).contains(exchange.spec_config().name@),
            r is Ok ==> final(self).venues() == old(self).venues().push(exchange),
            r is Err ==> final(self).venues() == old(self).venues(),
            final(self).primary() == old(self).primary(),
    {
        match self.find_venue(exchange.name()) {
            Some(_) => Err("Exchange already registered".to_owned()),
            None => {
                let ghost before = names_of(self.exchanges@);
                self.exchanges.push(exchange);
                assert(names_of(self.exchanges@) =~= before.push(exchange.spec_config().name@));
                Ok(())
            },
        }
    }

    /// Makes `exchange` the primary venue of `asset`, replacing any earlier
    /// choice.
    pub fn set_primary_exchange(&mut self, asset: &str, exchange: &str) -> (r: Result<(), String>)
        ensures
            r is Ok,
            final(self).primary() == old(self).primary().insert(asset@, exchange@),
            final(self).venues() == old(self).venues(),
    {
        let ghost before = self.primary_exchange_map@;
        self.primary_exchange_map.push((asset.to_owned(), exchange.to_owned()));
        assert(self.primary_exchange_map@.drop_last() =~= before);
        Ok(())
    }

    /// The primary venue of `symbol`, if one is set.
    pub fn get_exchange_for_asset(&self, symbol: &str) -> (r: Option<String>)
        ensures
            r is Some <==> self.primary().contains_key(symbol@),
            r matches Some(n) ==> n@ == self.primary()[symbol@],
    {
        let wanted = symbol.to_owned();
        let mut i: usize = self.primary_exchange_map.len();
        assert(self.primary_exchange_map@.subrange(0, i as int) =~= self.primary_exchange_map@);
        while i > 0
            invariant
                wanted@ == symbol@,
                i <= self.primary_exchange_map.len(),
                routes_of(self.primary_exchange_map@).contains_key(symbol@) == routes_of(
                    self.primary_exchange_map@.subrange(0, i as int),
                ).contains_key(symbol@),
                routes_of(self.primary_exchange_map@).contains_key(symbol@) ==> routes_of(
                    self.primary_exchange_map@,
                )[symbol@] == routes_of(self.primary_exchange_map@.subrange(0, i as int))[symbol@],
            decreases i,
        {
            let ghost entries = self.primary_exchange_map@;
            assert(entries.subrange(0, i as int).drop_last() =~= entries.subrange(0, i - 1));
            if self.primary_exchange_map[i - 1].0 == wanted {
                return Some(self.primary_exchange_map[i - 1].1.clone());
            }
            i = i - 1;
        }
        assert(self.primary_exchange_map@.subrange(0, 0) =~= Seq::<(String, String)>::empty());
        None
    }

    /// Index of the venue that handles `order`, or -1 when none resolves.
    pub open spec fn venue_index_for(&self, order: Order) -> int {
        match self.target_of(order) {
            Some(n) => position_of(names_of(self.venues()), n),
            None => -1,
        }
    }

    /// `after` is this router once `order` has been handed to the venue it
    /// resolves to; `taken` tells whether the venue took it.
    pub open spec fn submitted_to(&self, after: OrderRouter, order: Order, taken: bool) -> bool {
        let i = self.venue_index_for(order);
        &&& after.primary() == self.primary()
        &&& after.venues().len() == self.venues().len()
        &&& taken <==> (i >= 0 && self.venues()[i].spec_connected())
        &&& taken ==> recorded_at_venue(self.venues()[i], after.venues()[i], order)
        &&& forall|j: int|
            0 <= j < self.venues().len() && (j != i || !taken) ==> venue_unchanged(
                #[trigger] self.venues()[j],
                after.venues()[j],
            )
    }

    /// `after` is this router once every venue has been asked in turn to
    /// cancel `order_id`: the first that accepts has cancelled it and no
    /// other venue changed.
    pub open spec fn cancel_probed(&self, after: OrderRouter, order_id: u128) -> bool {
        &&& after.primary() == self.primary()
        &&& after.venues().len() == self.venues().len()
        &&& (exists|k: int| 0 <= k < self.venues().len() && accepts_cancel(#[trigger] self.venues()[k], order_id))
            ==> exists|k: int|
            0 <= k < self.venues().len() && first_acceptor(self.venues(), order_id, k)
                && cancelled_at_venue(#[trigger] self.venues()[k], after.venues()[k], order_id)
                && forall|j: int|
                0 <= j < self.venues().len() && j != k ==> venue_unchanged(
                    #[trigger] self.venues()[j],
                    after.venues()[j],
                )
        &&& !(exists|k: int| 0 <= k < self.venues().len() && accepts_cancel(#[trigger] self.venues()[k], order_id))
            ==> forall|j: int|
            0 <= j < self.venues().len() ==> venue_unchanged(#[trigger] self.venues()[j], after.venues()[j])
    }

    /// Sends `order` to the venue it resolves to. Fails when the order names
    /// no venue and its symbol has no primary venue, when the venue is not
    /// registered, or when the venue refuses it (it is not connected).
    pub fn submit_order(&mut self, order: Order) -> (r: Result<(), String>)
        ensures
            final(self).primary() == old(self).primary(),
            final(self).venues().len() == old(self).venues().len(),
            ({
                let i = old(self).venue_index_for(order);
                &&& r is Ok <==> (i >= 0 && old(self).venues()[i].spec_connected())
                &&& r is Ok ==> recorded_at_venue(old(self).venues()[i], final(self).venues()[i], order)
                &&& forall|j: int| 0 <= j < old(self).venues().len() && (j != i || r is Err)
                    ==> venue_unchanged(#[trigger] old(self).venues()[j], final(self).venues()[j])
            }),
            old(self).submitted_to(*final(self), order, r is Ok),
    {
        let target: String = if !order.exchange.as_str().is_empty() {
            order.exchange.clone()
        } else {
            match self.get_exchange_for_asset(order.symbol.as_str()) {
                Some(n) => n,
                None => {
                    return Err(
                        String::from_str("No primary exchange defined for ").concat(
                            order.symbol.as_str(),
                        ),
                    );
                },
            }
        };
        proof {
            lemma_position_bounds(names_of(self.venues()), target@);
        }
        match self.find_venue(target.as_str()) {
            None => Err(String::from_str("Exchange not found: ").concat(target.as_str())),
            Some(i) => {
                let ghost before = self.exchanges@;
                let mut venue = self.exchanges.remove(i);
                let r = venue.submit_order(order);
                self.exchanges.insert(i, venue);
                assert(self.exchanges@ =~= before.update(i as int, self.exchanges@[i as int]));
                r
            },
        }
    }

    /// Asks each registered venue in turn to cancel `order_id` and stops at
    /// the first that accepts. Fails when no venue is registered or none
    /// accepts.
    pub fn cancel_order(&mut self, order_id: u128) -> (r: Result<(), String>)
        ensures
            final(self).primary() == old(self).primary(),
            final(self).venues().len() == old(self).venues().len(),
            r is Ok <==> exists|k: int|
                0 <= k < old(self).venues().len() && accepts_cancel(#[trigger] old(self).venues()[k], order_id),
            r is Err ==> forall|j: int|
                0 <= j < old(self).venues().len() ==> venue_unchanged(
                    #[trigger] old(self).venues()[j],
                    final(self).venues()[j],
                ),
            r is Ok ==> exists|k: int|
                0 <= k < old(self).venues().len() && first_acceptor(old(self).venues(), order_id, k)
                    && cancelled_at_venue(#[trigger] old(self).venues()[k], final(self).venues()[k], order_id)
                    && forall|j: int|
                    0 <= j < old(self).venues().len() && j != k ==> venue_unchanged(
                        #[trigger] old(self).venues()[j],
                        final(self).venues()[j],
                    ),
            old(self).cancel_probed(*final(self), order_id),
    {
        if self.exchanges.len() == 0 {
            return Err("No exchanges registered".to_owned());
        }
        let ghost before = self.exchanges@;
        let mut i: usize = 0;
        while i < self.exchanges.len()
            invariant
                self.primary_exchange_map@ == old(self).primary_exchange_map@,
                self.exchanges@.len() == before.len(),
                before == old(self).exchanges@,
                i <= before.len(),
                forall|j: int| 0 <= j < i ==> !accepts_cancel(#[trigger] before[j], order_id),
                forall|j: int|
                    0 <= j < before.len() ==> venue_unchanged(
                        #[trigger] before[j],
                        self.exchanges@[j],
                    ),
                forall|j: int| i <= j < before.len() ==> #[trigger] self.exchanges@[j] == before[j],
            decreases before.len() - i,
        {
            let ghost current = self.exchanges@;
            let mut venue = self.exchanges.remove(i);
            let r = venue.cancel_order(order_id);
            self.exchanges.insert(i, venue);
            assert(self.exchanges@ =~= current.update(i as int, self.exchanges@[i as int]));
            if r.is_ok() {
                assert(first_acceptor(before, order_id, i as int));
                return r;
            }
            i = i + 1;
        }
        Err(String::from_str("Order not found on any exchange"))
    }

    /// The symbols that the connected venues trade, each once, in order of
    /// first appearance.
    pub fn get_supported_assets(&self) -> (r: Vec<String>)
        ensures
            texts(r@).no_duplicates(),
            forall|x: Seq<char>|
                #![trigger texts(r@).contains(x)]
                texts(r@).contains(x) <==> (any_connected(self.venues()) && listed_symbols().contains(x)),
    {
        let mut assets: Vec<String> = Vec::new();
        let mut i: usize = 0;
        while i < self.exchanges.len()
            invariant
                i <= self.exchanges.len(),
                texts(assets@).no_duplicates(),
                forall|x: Seq<char>|
                    #![trigger texts(assets@).contains(x)]
                    texts(assets@).contains(x) <==> (any_connected(self.venues().subrange(0, i as int))
                        && listed_symbols().contains(x)),
            decreases self.exchanges.len() - i,
        {
            let ghost was_any = any_connected(self.venues().subrange(0, i as int));
            match self.exchanges[i].get_supported_assets() {
                Ok(list) => {
                    let mut j: usize = 0;
                    while j < list.len()
                        invariant
                            i < self.exchanges.len(),
                            texts(list@) == listed_symbols(),
                            j <= list.len(),
                            texts(assets@).no_duplicates(),
                            forall|x: Seq<char>|
                                #![trigger texts(assets@).contains(x)]
                                texts(assets@).contains(x) <==> ((was_any && listed_symbols().contains(x))
                                    || listed_symbols().subrange(0, j as int).contains(x)),
                        decreases list.len() - j,
                    {
                        let ghost prev = texts(assets@);
                        assert(texts(list@)[j as int] == list@[j as int]@);
                        if !contains_text(&assets, &list[j]) {
                            assets.push(list[j].clone());
                            assert(texts(assets@) =~= prev.push(list@[j as int]@));
                            assert forall|a: int, b: int|
                                0 <= a < texts(assets@).len() && 0 <= b < texts(assets@).len() && a != b
                                    implies texts(assets@)[a] != texts(assets@)[b] by {
                                if a == prev.len() {
                                    assert(prev.contains(prev[b]));
                                } else if b == prev.len() {
                                    assert(prev.contains(prev[a]));
                                }
                            }
                        }
                        proof {
                            let l = listed_symbols();
                            assert(l.subrange(0, j + 1) =~= l.subrange(0, j as int).push(l[j as int]));
                            assert forall|x: Seq<char>| #[trigger] texts(assets@).contains(x) <==> ((was_any
                                && l.contains(x)) || l.subrange(0, j + 1).contains(x)) by {
                                lemma_push_has(prev, l[j as int], x);
                                lemma_push_has(l.subrange(0, j as int), l[j as int], x);
                            }
                        }
                        j = j + 1;
                    }
                    proof {
                        let l = listed_symbols();
                        assert(l.subrange(0, l.len() as int) =~= l);
                        assert(self.venues()[i as int].spec_connected());
                        assert(self.venues().subrange(0, i + 1)[i as int] == self.venues()[i as int]);
                        assert(any_connected(self.venues().subrange(0, i + 1)));
                    }
                },
                Err(_) => {
                    proof {
                        assert(!self.venues()[i as int].spec_connected());
                        if any_connected(self.venues().subrange(0, i + 1)) {
                            let k = choose|k: int|
                                0 <= k < i + 1 && #[trigger] self.venues().subrange(0, i + 1)[k].spec_connected();
                            assert(self.venues().subrange(0, i as int)[k].spec_connected());
                        }
                    }
                },
            }
            proof {
                if was_any {
                    let k = choose|k: int|
                        0 <= k < i && #[trigger] self.venues().subrange(0, i as int)[k].spec_connected();
                    assert(self.venues().subrange(0, i + 1)[k].spec_connected());
                }
            }
            i = i + 1;
        }
        assert(self.venues().subrange(0, i as int) =~= self.venues());
        assets
    }

    /// The names of the registered venues, in registration order.
    pub fn get_supported_exchanges(&self) -> (r: Vec<String>)
        ensures
            r@.map_values(|s: String| s@) == names_of(self.venues()),
    {
        let mut r: Vec<String> = Vec::new();
        let mut i: usize = 0;
        while i < self.exchanges.len()
            invariant
                i <= self.exchanges.len(),
                r@.len() == i,
                forall|j: int| 0 <= j < i ==> #[trigger] r@[j]@ == names_of(self.venues())[j],
            decreases self.exchanges.len() - i,
        {
            r.push(self.exchanges[i].name().to_owned());
            i = i + 1;
        }
        assert(r@.map_values(|s: String| s@) =~= names_of(self.venues()));
        r
    }
}

/// An order that names no venue, for a symbol without a primary venue,
/// resolves to no venue, so its submission fails whatever is registered.
pub proof fn lemma_unrouted_order_has_no_venue(router: OrderRouter, order: Order)
    requires
        order.exchange@.len() == 0,
        !router.primary().contains_key(order.symbol@),
    ensures
        router.venue_index_for(order) == -1,
{
}

/// An order that names no venue, for a symbol whose primary venue is
/// registered, resolves to that venue.
pub proof fn lemma_primary_venue_resolves(router: OrderRouter, order: Order)
    requires
        order.exchange@.len() == 0,
        router.primary().contains_key(order.symbol@),
        names_of(router.venues()).contains(router.primary()[order.symbol@]),
    ensures
        router.venue_index_for(order) >= 0,
        router.venues()[router.venue_index_for(order)].spec_config().name@ == router.primary()[order.symbol@],
{
    lemma_position_bounds(names_of(router.venues()), router.primary()[order.symbol@]);
}

} // verus!
