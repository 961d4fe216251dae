//! Snapshots of the account of a paper exchange.

use crate::account::{
    balances_by_asset, AccountSnapshot, AccountView, AssetBalance, InstrumentAccountSnapshot,
    InstrumentSnapshotView, SnapshotView,
};
use crate::decimal::Decimal;
use crate::exchange::MockExchange;
use crate::laws::keyed;
use crate::market::{LatencyModel, QueueModel};
use crate::names::{views, Named};
use crate::order::{ActiveOrderState, Cancelled, InactiveOrderState, Open, Order, OrderState};
use crate::text::{lemma_text_order, text_less};
use itertools::Itertools;
use vstd::prelude::*;

verus! {

/// An order as a snapshot holds it.
pub type OrderView = Order<Seq<char>, OrderState<Seq<char>>>;

/// `itertools::Itertools::sorted_unstable_by_key` by name: the same items, in the order of their
/// names. In which order items of one name come is left open.
#[verifier::external_body]
fn sort_by_name(items: Vec<(String, (bool, usize))>) -> (result: Vec<(String, (bool, usize))>)
    ensures
        views(result@).to_multiset() == views(items@).to_multiset(),
        forall|i: int, j: int|
            0 <= i < j < result@.len() ==> !text_less(
                (#[trigger] result@[j]).0@,
                (#[trigger] result@[i]).0@,
            ),
{
    items.into_iter().sorted_unstable_by_key(|item| item.0.clone()).collect()
}

/// An active order as a snapshot holds it.
pub open spec fn active_entry(order: Order<Seq<char>, Open<Seq<char>>>) -> OrderView {
    order.with_state(OrderState::Active(ActiveOrderState::Open(order.state)))
}

/// A cancelled order as a snapshot holds it.
pub open spec fn cancelled_entry(order: Order<Seq<char>, Cancelled<Seq<char>>>) -> OrderView {
    order.with_state(OrderState::Inactive(InactiveOrderState::Cancelled(order.state)))
}

/// The orders of an account as a snapshot holds them: those that are active, then those that
/// were cancelled.
pub open spec fn all_orders(account: AccountView) -> Seq<OrderView> {
    account.orders_open.values().map_values(
        |order: Order<Seq<char>, Open<Seq<char>>>| active_entry(order),
    ) + account.orders_cancelled.values().map_values(
        |order: Order<Seq<char>, Cancelled<Seq<char>>>| cancelled_entry(order),
    )
}

/// The orders of all groups, one group behind the other.
pub open spec fn orders_of_groups(groups: Seq<InstrumentSnapshotView>) -> Seq<OrderView>
    decreases groups.len(),
{
    if groups.len() == 0 {
        Seq::empty()
    } else {
        orders_of_groups(groups.drop_last()) + groups.last().orders
    }
}

/// The groups hold just the orders. Each holds those of one instrument, and at least one, and
/// the groups come in the order of the names of their instruments.
pub open spec fn grouped(groups: Seq<InstrumentSnapshotView>, orders: Seq<OrderView>) -> bool {
    &&& orders_of_groups(groups).to_multiset() == orders.to_multiset()
    &&& grouped_by_instrument(groups)
}

/// Each group holds orders of one instrument, and at least one, and the groups come in the order
/// of the names of their instruments.
pub open spec fn grouped_by_instrument(groups: Seq<InstrumentSnapshotView>) -> bool {
    &&& forall|i: int, k: int|
        0 <= i < groups.len() && 0 <= k < groups[i].orders.len() ==> (
        #[trigger] groups[i].orders[k]).key.instrument == groups[i].instrument
    &&& forall|i: int| 0 <= i < groups.len() ==> (#[trigger] groups[i]).orders.len() > 0
    &&& forall|i: int, j: int|
        0 <= i < j < groups.len() ==> text_less(
            (#[trigger] groups[i]).instrument,
            (#[trigger] groups[j]).instrument,
        )
}

/// Sequences of the same items have the same images.
proof fn lemma_same_images<A, B>(first: Seq<A>, second: Seq<A>, f: spec_fn(A) -> B)
    requires
        first.to_multiset() == second.to_multiset(),
    ensures
        first.map_values(f).to_multiset() == second.map_values(f).to_multiset(),
    decreases first.len(),
{
    broadcast use vstd::seq_lib::group_to_multiset_ensures;

    if first.len() == 0 {
        assert(second.to_multiset().len() == 0);
        assert(second.len() == 0);
        assert(first.map_values(f) =~= second.map_values(f));
    } else {
        let last = first.last();
        let front = first.drop_last();
        assert(first =~= front.push(last));
        assert(first.to_multiset() == front.to_multiset().insert(last));
        assert(second.to_multiset().contains(last));
        assert(second.contains(last));
        let at = choose|i: int| 0 <= i < second.len() && second[i] == last;
        let rest = second.remove(at);
        assert(rest.to_multiset() =~= front.to_multiset());
        lemma_same_images(front, rest, f);
        assert(first.map_values(f) =~= front.map_values(f).push(f(last)));
        assert(second.map_values(f).remove(at) =~= rest.map_values(f));
        let image = second.map_values(f);
        assert(image[at] == f(last));
        assert(image.remove(at).to_multiset() == image.to_multiset().remove(f(last)));
        assert(image.to_multiset().contains(f(last)));
        assert(image.to_multiset() =~= rest.map_values(f).to_multiset().insert(f(last)));
    }
}

/// An active order as a snapshot holds it.
pub fn build_active_entry(order: &Order<String, Open<String>>) -> (result: Order<
    String,
    OrderState<String>,
>)
    ensures
        result@ == active_entry(order@),
{
    Order {
        key: order.key.clone(),
        side: order.side,
        price: order.price,
        quantity: order.quantity,
        kind: order.kind,
        time_in_force: order.time_in_force,
        state: OrderState::Active(ActiveOrderState::Open(order.state.clone())),
    }
}

/// A cancelled order as a snapshot holds it.
fn build_cancelled_entry(order: &Order<String, Cancelled<String>>) -> (result: Order<
    String,
    OrderState<String>,
>)
    ensures
        result@ == cancelled_entry(order@),
{
    Order {
        key: order.key.clone(),
        side: order.side,
        price: order.price,
        quantity: order.quantity,
        kind: order.kind,
        time_in_force: order.time_in_force,
        state: OrderState::Inactive(InactiveOrderState::Cancelled(order.state.clone())),
    }
}

/// An entry to be placed: the name of its instrument, whether it is of a cancelled order, and
/// which of those orders.
pub type Slot = (Seq<char>, (bool, usize));

/// The order of an entry.
pub open spec fn entry_of(account: AccountView, slot: Slot) -> OrderView {
    if slot.1.0 {
        cancelled_entry(account.orders_cancelled.values()[slot.1.1 as int])
    } else {
        active_entry(account.orders_open.values()[slot.1.1 as int])
    }
}

/// The entry is of an order of the account, and names its instrument.
pub open spec fn fits_account(account: AccountView, slot: Slot) -> bool {
    &&& slot.1.1 < (if slot.1.0 {
        account.orders_cancelled.values().len()
    } else {
        account.orders_open.values().len()
    })
    &&& entry_of(account, slot).key.instrument == slot.0
}

/// The orders of entries.
spec fn entries_of(account: AccountView, slots: Seq<Slot>) -> Seq<OrderView> {
    slots.map_values(|slot: Slot| entry_of(account, slot))
}

/// The entries of all orders of an account.
fn collect_slots(
    open: &Vec<&Order<String, Open<String>>>,
    cancelled: &Vec<&Order<String, Cancelled<String>>>,
    account: Ghost<AccountView>,
) -> (result: Vec<(String, (bool, usize))>)
    requires
        views(open@) == account@.orders_open.values(),
        views(cancelled@) == account@.orders_cancelled.values(),
    ensures
        entries_of(account@, views(result@)) == all_orders(account@),
        forall|i: int| 0 <= i < result@.len() ==> fits_account(account@, #[trigger] result@[i]@),
{
    let mut result: Vec<(String, (bool, usize))> = Vec::new();
    let mut next: usize = 0;
    while next < open.len()
        invariant
            next <= open.len(),
            views(open@) == account@.orders_open.values(),
            result@.len() == next,
            forall|i: int| 0 <= i < next ==> fits_account(account@, #[trigger] result@[i]@),
            forall|i: int| 0 <= i < next ==> !(#[trigger] result@[i]).1.0 && result@[i].1.1 == i,
        decreases open.len() - next,
    {
        assert(views(open@)[next as int] == open@[next as int]@);
        result.push((open[next].key.instrument.clone(), (false, next)));
        assert(result@[next as int]@ == (open@[next as int].key.instrument@, (false, next)));
        next = next + 1;
    }
    let ghost opened = next as int;
    let mut next: usize = 0;
    while next < cancelled.len()
        invariant
            next <= cancelled.len(),
            opened == open@.len(),
            views(open@) == account@.orders_open.values(),
            views(cancelled@) == account@.orders_cancelled.values(),
            result@.len() == opened + next,
            forall|i: int|
                0 <= i < opened + next ==> fits_account(account@, #[trigger] result@[i]@),
            forall|i: int|
                0 <= i < opened ==> !(#[trigger] result@[i]).1.0 && result@[i].1.1 == i,
            forall|i: int|
                opened <= i < opened + next ==> (#[trigger] result@[i]).1.0 && result@[i].1.1 == i
                    - opened,
        decreases cancelled.len() - next,
    {
        assert(views(cancelled@)[next as int] == cancelled@[next as int]@);
        result.push((cancelled[next].key.instrument.clone(), (true, next)));
        assert(result@[opened + next]@ == (cancelled@[next as int].key.instrument@, (true, next)));
        next = next + 1;
    }
    assert(entries_of(account@, views(result@)) =~= all_orders(account@));
    result
}

/// One more order in the last group.
proof fn lemma_last_group_grows(
    groups: Seq<InstrumentSnapshotView>,
    order: OrderView,
)
    requires
        groups.len() > 0,
    ensures
        orders_of_groups(
            groups.update(
                groups.len() - 1,
                InstrumentSnapshotView {
                    instrument: groups.last().instrument,
                    orders: groups.last().orders.push(order),
                },
            ),
        ) == orders_of_groups(groups).push(order),
{
    let grown = InstrumentSnapshotView {
        instrument: groups.last().instrument,
        orders: groups.last().orders.push(order),
    };
    let after = groups.update(groups.len() - 1, grown);
    assert(after.drop_last() =~= groups.drop_last());
    assert(orders_of_groups(after) =~= orders_of_groups(groups).push(order));
}

/// Groups the orders of entries that come in the order of their instruments.
fn group_slots(
    open: &Vec<&Order<String, Open<String>>>,
    cancelled: &Vec<&Order<String, Cancelled<String>>>,
    slots: &Vec<(String, (bool, usize))>,
    account: Ghost<AccountView>,
) -> (result: Vec<InstrumentAccountSnapshot>)
    requires
        views(open@) == account@.orders_open.values(),
        views(cancelled@) == account@.orders_cancelled.values(),
        forall|i: int| 0 <= i < slots@.len() ==> fits_account(account@, #[trigger] slots@[i]@),
        forall|i: int, j: int|
            0 <= i < j < slots@.len() ==> !text_less(
                (#[trigger] slots@[j]).0@,
                (#[trigger] slots@[i]).0@,
            ),
    ensures
        orders_of_groups(views(result@)) == entries_of(account@, views(slots@)),
        grouped_by_instrument(views(result@)),
{
    let mut result: Vec<InstrumentAccountSnapshot> = Vec::new();
    let mut next: usize = 0;
    let ghost all = entries_of(account@, views(slots@));
    assert(orders_of_groups(views(result@)) =~= all.take(0));
    while next < slots.len()
        invariant
            next <= slots.len(),
            views(open@) == account@.orders_open.values(),
            views(cancelled@) == account@.orders_cancelled.values(),
            all == entries_of(account@, views(slots@)),
            forall|i: int| 0 <= i < slots@.len() ==> fits_account(account@, #[trigger] slots@[i]@),
            forall|i: int, j: int|
                0 <= i < j < slots@.len() ==> !text_less(
                    (#[trigger] slots@[j]).0@,
                    (#[trigger] slots@[i]).0@,
                ),
            orders_of_groups(views(result@)) == all.take(next as int),
            grouped_by_instrument(views(result@)),
            next == 0 <==> result@.len() == 0,
            next > 0 ==> views(result@).last().instrument == slots@[next - 1].0@,
        decreases slots.len() - next,
    {
        let slot = &slots[next];
        let ghost before = views(result@);
        assert(fits_account(account@, slot@));
        let entry = if slot.1.0 {
            assert(views(cancelled@)[slot.1.1 as int] == cancelled@[slot.1.1 as int]@);
            build_cancelled_entry(cancelled[slot.1.1])
        } else {
            assert(views(open@)[slot.1.1 as int] == open@[slot.1.1 as int]@);
            build_active_entry(open[slot.1.1])
        };
        let ghost order = entry@;
        proof {
            assert(order == entry_of(account@, slot@));
            assert(all[next as int] == order);
            assert(all.take(next + 1) =~= all.take(next as int).push(order));
        }
        let groups = result.len();
        if groups > 0 && result[groups - 1].instrument == slot.0 {
            let mut last = result.pop().unwrap();
            let ghost orders_before = views(last.orders@);
            last.orders.push(entry);
            assert(views(last.orders@) =~= orders_before.push(order));
            result.push(last);
            proof {
                let grown = InstrumentSnapshotView {
                    instrument: before.last().instrument,
                    orders: before.last().orders.push(order),
                };
                assert(views(result@) =~= before.update(before.len() - 1, grown));
                lemma_last_group_grows(before, order);
                let after = views(result@);
                assert forall|i: int, k: int|
                    0 <= i < after.len() && 0 <= k < after[i].orders.len() implies (
                #[trigger] after[i].orders[k]).key.instrument == after[i].instrument by {
                    if i < before.len() - 1 {
                        assert(after[i] == before[i]);
                        assert(before[i].orders[k].key.instrument == before[i].instrument);
                    } else if k < before.last().orders.len() {
                        assert(before[i].orders[k].key.instrument == before[i].instrument);
                    }
                }
            }
        } else {
            let mut orders: Vec<Order<String, OrderState<String>>> = Vec::new();
            orders.push(entry);
            assert(views(orders@) =~= seq![order]);
            let group = InstrumentAccountSnapshot { instrument: slot.0.clone(), orders };
            result.push(group);
            proof {
                let added = InstrumentSnapshotView { instrument: slot.0@, orders: seq![order] };
                assert(group@ == added);
                let after = views(result@);
                assert(after =~= before.push(added));
                assert(after.drop_last() =~= before);
                assert(orders_of_groups(after) =~= orders_of_groups(before).push(order));
                assert forall|i: int, j: int| 0 <= i < j < after.len() implies text_less(
                    (#[trigger] after[i]).instrument,
                    (#[trigger] after[j]).instrument,
                ) by {
                    if j == before.len() {
                        lemma_text_order(before.last().instrument, slot.0@);
                        assert(!text_less(slots@[next as int].0@, slots@[next - 1].0@));
                        if i < before.len() - 1 {
                            let last = before.len() - 1;
                            assert(text_less(before[i].instrument, before[last].instrument));
                            lemma_text_less_trans(
                                before[i].instrument,
                                before.last().instrument,
                                slot.0@,
                            );
                        }
                    } else {
                        assert(text_less(before[i].instrument, before[j].instrument));
                    }
                }
                assert forall|i: int, k: int|
                    0 <= i < after.len() && 0 <= k < after[i].orders.len() implies (
                #[trigger] after[i].orders[k]).key.instrument == after[i].instrument by {
                    if i < before.len() {
                        assert(before[i].orders[k].key.instrument == before[i].instrument);
                    }
                }
            }
        }
        next = next + 1;
    }
    assert(all.take(next as int) =~= all);
    result
}

/// The order of texts is transitive.
proof fn lemma_text_less_trans(a: Seq<char>, b: Seq<char>, c: Seq<char>)
    requires
        text_less(a, b),
        text_less(b, c),
    ensures
        text_less(a, c),
    decreases a.len(),
{
    if a.len() > 0 && b.len() > 0 && c.len() > 0 && a[0] == b[0] && b[0] == c[0] {
        lemma_text_less_trans(a.skip(1), b.skip(1), c.skip(1));
    }
}

/// The balances, one behind the other.
fn clone_balances(balances: &Vec<&AssetBalance<String>>) -> (result: Vec<AssetBalance<String>>)
    ensures
        views(result@) == views(balances@),
{
    let mut result: Vec<AssetBalance<String>> = Vec::new();
    let mut next: usize = 0;
    while next < balances.len()
        invariant
            next <= balances.len(),
            result@.len() == next,
            forall|i: int| 0 <= i < next ==> (#[trigger] result@[i])@ == balances@[i]@,
        decreases balances.len() - next,
    {
        result.push(balances[next].clone());
        next = next + 1;
    }
    assert(views(result@) =~= views(balances@));
    result
}

impl<L: LatencyModel, Q: QueueModel> MockExchange<L, Q> {
    /// The balances of the account, and its active and cancelled orders by instrument.
    pub fn account_snapshot(&self) -> (result: AccountSnapshot)
        ensures
            result.exchange == self.exchange,
            result@.balances == self@.account.balances.values(),
            grouped(result@.instruments, all_orders(self@.account)),
    {
        let account: Ghost<AccountView> = Ghost(self@.account);
        let open = self.account.orders_open();
        let cancelled = self.account.orders_cancelled();
        let slots = collect_slots(&open, &cancelled, account);
        let sorted = sort_by_name(slots);
        proof {
            broadcast use vstd::seq_lib::group_to_multiset_ensures;

            assert forall|i: int| 0 <= i < sorted@.len() implies fits_account(
                account@,
                #[trigger] sorted@[i]@,
            ) by {
                let slot = views(sorted@)[i];
                assert(views(sorted@).contains(slot));
                assert(views(sorted@).to_multiset().contains(slot));
                assert(views(slots@).contains(slot));
                let j = choose|j: int| 0 <= j < views(slots@).len() && views(slots@)[j] == slot;
                assert(fits_account(account@, slots@[j]@));
            }
            lemma_same_images(
                views(sorted@),
                views(slots@),
                |slot: Slot| entry_of(account@, slot),
            );
        }
        let instruments = group_slots(&open, &cancelled, &sorted, account);
        AccountSnapshot {
            exchange: self.exchange,
            balances: clone_balances(&self.account.balances()),
            instruments,
        }
    }
}

/// Adding orders in two parts.
proof fn lemma_with_orders_add(account: AccountView, first: Seq<OrderView>, second: Seq<OrderView>)
    ensures
        account.with_orders(first + second) == account.with_orders(first).with_orders(second),
    decreases second.len(),
{
    if second.len() == 0 {
        assert(first + second =~= first);
    } else {
        lemma_with_orders_add(account, first, second.drop_last());
        assert((first + second).drop_last() =~= first + second.drop_last());
        assert((first + second).last() == second.last());
    }
}

/// Adding the orders of groups is adding them one behind the other.
proof fn lemma_with_instruments(account: AccountView, groups: Seq<InstrumentSnapshotView>)
    ensures
        account.with_instruments(groups) == account.with_orders(orders_of_groups(groups)),
    decreases groups.len(),
{
    if groups.len() > 0 {
        lemma_with_instruments(account, groups.drop_last());
        lemma_with_orders_add(account, orders_of_groups(groups.drop_last()), groups.last().orders);
    }
}

/// The order is one of the account, in the state of a snapshot.
pub open spec fn is_entry(account: AccountView, order: OrderView) -> bool {
    match order.state {
        OrderState::Active(ActiveOrderState::Open(open)) => account.orders_open.lookup(
            order.key.cid,
        ) == Some(order.with_state(open)),
        OrderState::Inactive(InactiveOrderState::Cancelled(cancelled)) =>
            account.orders_cancelled.lookup(order.key.cid) == Some(order.with_state(cancelled)),
        _ => false,
    }
}

/// The account of a snapshot without its orders.
pub open spec fn without_orders(balances: Seq<AssetBalance<Seq<char>>>) -> AccountView {
    AccountView {
        balances: balances_by_asset(balances),
        orders_open: Named::none(),
        orders_cancelled: Named::none(),
        reservations: Named::none(),
        trades: Seq::empty(),
    }
}

/// Adding entries of an account gives just the orders that they are of.
proof fn lemma_with_entries(
    account: AccountView,
    base: AccountView,
    orders: Seq<OrderView>,
)
    requires
        forall|i: int| 0 <= i < orders.len() ==> is_entry(account, #[trigger] orders[i]),
        base.orders_open == Named::<Order<Seq<char>, Open<Seq<char>>>>::none(),
        base.orders_cancelled == Named::<Order<Seq<char>, Cancelled<Seq<char>>>>::none(),
    ensures
        ({
            let after = base.with_orders(orders);
            &&& after == (AccountView {
                orders_open: after.orders_open,
                orders_cancelled: after.orders_cancelled,
                ..base
            })
            &&& forall|cid: Seq<char>| #[trigger]
                after.orders_open.map.contains_key(cid) ==> account.orders_open.map.contains_key(
                    cid,
                ) && after.orders_open.map[cid] == account.orders_open.map[cid]
            &&& forall|cid: Seq<char>| #[trigger]
                after.orders_cancelled.map.contains_key(cid)
                    ==> account.orders_cancelled.map.contains_key(cid)
                    && after.orders_cancelled.map[cid] == account.orders_cancelled.map[cid]
            &&& forall|i: int|
                0 <= i < orders.len() ==> match (#[trigger] orders[i]).state {
                    OrderState::Active(_) => after.orders_open.map.contains_key(
                        orders[i].key.cid,
                    ),
                    OrderState::Inactive(_) => after.orders_cancelled.map.contains_key(
                        orders[i].key.cid,
                    ),
                }
        }),
    decreases orders.len(),
{
    if orders.len() > 0 {
        let front = orders.drop_last();
        assert forall|i: int| 0 <= i < front.len() implies is_entry(
            account,
            #[trigger] front[i],
        ) by {
            assert(is_entry(account, orders[i]));
        }
        lemma_with_entries(account, base, front);
        assert(is_entry(account, orders[orders.len() - 1]));
        let before = base.with_orders(front);
        let after = base.with_orders(orders);
        assert(after == before.with_order(orders.last()));
        assert forall|i: int| 0 <= i < orders.len() implies match (#[trigger] orders[i]).state {
            OrderState::Active(_) => after.orders_open.map.contains_key(orders[i].key.cid),
            OrderState::Inactive(_) => after.orders_cancelled.map.contains_key(orders[i].key.cid),
        } by {
            if i < front.len() {
                assert(front[i] == orders[i]);
            }
        }
    }
}

/// Listing balances and keying them again gives the same balances.
proof fn lemma_balances_by_asset(
    balances: Named<AssetBalance<Seq<char>>>,
    count: int,
)
    requires
        balances.consistent(),
        forall|asset: Seq<char>| #[trigger]
            balances.map.contains_key(asset) ==> balances.map[asset].asset == asset,
        0 <= count <= balances.keys.len(),
    ensures
        ({
            let made = balances_by_asset(balances.values().take(count));
            &&& made.keys == balances.keys.take(count)
            &&& forall|asset: Seq<char>| #[trigger]
                made.map.contains_key(asset) ==> balances.map.contains_key(asset)
                    && made.map[asset] == balances.map[asset]
            &&& forall|i: int| 0 <= i < count ==> made.map.contains_key(#[trigger] balances.keys[i])
            &&& forall|asset: Seq<char>| #[trigger]
                made.map.contains_key(asset) ==> balances.keys.take(count).contains(asset)
        }),
    decreases count,
{
    let list = balances.values();
    if count == 0 {
        assert(list.take(0) =~= Seq::empty());
        assert(balances.keys.take(0) =~= Seq::empty());
    } else {
        lemma_balances_by_asset(balances, count - 1);
        let before = balances_by_asset(list.take(count - 1));
        let key = balances.keys[count - 1];
        assert(balances.keys.contains(key));
        assert(balances.map.contains_key(key));
        assert(list.take(count).drop_last() =~= list.take(count - 1));
        assert(list.take(count).last() == balances.map[key]);
        if before.map.contains_key(key) {
            assert(balances.keys.take(count - 1).contains(key));
            let seen = balances.keys.take(count - 1);
            let i = choose|i: int| 0 <= i < seen.len() && seen[i] == key;
            assert(balances.keys[i] == key);
        }
        let made = balances_by_asset(list.take(count));
        assert(made == before.put(key, balances.map[key]));
        assert(made.keys =~= balances.keys.take(count));
        assert forall|asset: Seq<char>| #[trigger] made.map.contains_key(asset) implies
        balances.keys.take(count).contains(asset) by {
            if asset == key {
                assert(balances.keys.take(count)[count - 1] == key);
            } else {
                assert(balances.keys.take(count - 1).contains(asset));
                let seen = balances.keys.take(count - 1);
                let i = choose|i: int| 0 <= i < seen.len() && seen[i] == asset;
                assert(balances.keys.take(count)[i] == asset);
            }
        }
    }
}

/// An account made from a snapshot of an account has its balances, its active orders and its
/// cancelled orders again; nothing is set aside yet, and there are no trades.
pub proof fn law_snapshot_gives_account_back(account: AccountView, snapshot: SnapshotView)
    requires
        keyed(account),
        snapshot.balances == account.balances.values(),
        grouped(snapshot.instruments, all_orders(account)),
    ensures
        ({
            let back = AccountView::of_snapshot(snapshot);
            &&& back.balances == account.balances
            &&& back.orders_open.map == account.orders_open.map
            &&& back.orders_cancelled.map == account.orders_cancelled.map
            &&& back.reservations == Named::<(Seq<char>, Decimal)>::none()
            &&& back.trades.len() == 0
        }),
{
    broadcast use vstd::seq_lib::group_to_multiset_ensures;

    let base = without_orders(snapshot.balances);
    let orders = orders_of_groups(snapshot.instruments);
    let all = all_orders(account);
    let back = AccountView::of_snapshot(snapshot);
    lemma_with_instruments(base, snapshot.instruments);
    let open = account.orders_open;
    let cancelled = account.orders_cancelled;
    assert forall|i: int| 0 <= i < orders.len() implies is_entry(account, #[trigger] orders[i]) by {
        assert(orders.contains(orders[i]));
        assert(orders.to_multiset().contains(orders[i]));
        assert(all.contains(orders[i]));
        let j = choose|j: int| 0 <= j < all.len() && all[j] == orders[i];
        if j < open.values().len() {
            assert(open.keys.contains(open.keys[j]));
            assert(open.map.contains_key(open.keys[j]));
            assert(all[j] == active_entry(open.values()[j]));
        } else {
            let k = j - open.values().len();
            assert(cancelled.keys.contains(cancelled.keys[k]));
            assert(cancelled.map.contains_key(cancelled.keys[k]));
            assert(all[j] == cancelled_entry(cancelled.values()[k]));
        }
    }
    lemma_with_entries(account, base, orders);
    assert forall|cid: Seq<char>| #[trigger] open.map.contains_key(cid) implies
    back.orders_open.map.contains_key(cid) by {
        assert(open.keys.contains(cid));
        let j = choose|j: int| 0 <= j < open.keys.len() && open.keys[j] == cid;
        let entry = active_entry(open.values()[j]);
        assert(all[j] == entry);
        assert(all.contains(entry));
        assert(all.to_multiset().contains(entry));
        assert(orders.contains(entry));
        let i = choose|i: int| 0 <= i < orders.len() && orders[i] == entry;
        assert(orders[i].key.cid == cid);
    }
    assert forall|cid: Seq<char>| #[trigger] cancelled.map.contains_key(cid) implies
    back.orders_cancelled.map.contains_key(cid) by {
        assert(cancelled.keys.contains(cid));
        let j = choose|j: int| 0 <= j < cancelled.keys.len() && cancelled.keys[j] == cid;
        let entry = cancelled_entry(cancelled.values()[j]);
        assert(all[open.values().len() + j] == entry);
        assert(all.contains(entry));
        assert(all.to_multiset().contains(entry));
        assert(orders.contains(entry));
        let i = choose|i: int| 0 <= i < orders.len() && orders[i] == entry;
        assert(orders[i].key.cid == cid);
    }
    assert(back.orders_open.map =~= open.map);
    assert(back.orders_cancelled.map =~= cancelled.map);
    let count = account.balances.keys.len() as int;
    lemma_balances_by_asset(account.balances, count);
    assert(account.balances.values().take(count) =~= account.balances.values());
    assert(account.balances.keys.take(count) =~= account.balances.keys);
    assert forall|asset: Seq<char>| #[trigger] account.balances.map.contains_key(asset) implies
    back.balances.map.contains_key(asset) by {
        assert(account.balances.keys.contains(asset));
    }
    assert(back.balances.map =~= account.balances.map);
}

} // verus!
