use vstd::prelude::*;
use crate::keys::{key_lt, id_lt, lemma_key_lt_irreflexive, lemma_key_lt_transitive, lemma_key_lt_total, lemma_key_lt_asymmetric};
use crate::types::{TraderRecord, ContractError};

verus! {

/// Ids of `s` strictly ascend, so each id occurs at most once.
pub open spec fn sorted_ids(s: Seq<TraderRecord>) -> bool {
    forall|i: int, j: int| 0 <= i < j < s.len() ==> key_lt(#[trigger] s[i].id@, #[trigger] s[j].id@)
}

/// Some order of `s` has id `k`.
pub open spec fn has_id(s: Seq<TraderRecord>, k: Seq<char>) -> bool {
    exists|i: int| 0 <= i < s.len() && #[trigger] s[i].id@ == k
}

/// The position of the order with id `k` in `s`.
pub open spec fn index_of(s: Seq<TraderRecord>, k: Seq<char>) -> int {
    choose|i: int| 0 <= i < s.len() && #[trigger] s[i].id@ == k
}

/// `s` with `r` inserted at the place its id takes in ascending order.
pub open spec fn insert_sorted(s: Seq<TraderRecord>, r: TraderRecord) -> Seq<TraderRecord>
    decreases s.len(),
{
    if s.len() == 0 {
        seq![r]
    } else if key_lt(r.id@, s[0].id@) {
        seq![r] + s
    } else {
        seq![s[0]] + insert_sorted(s.drop_first(), r)
    }
}

/// `s` without the order with id `k`.
pub open spec fn remove_id(s: Seq<TraderRecord>, k: Seq<char>) -> Seq<TraderRecord> {
    s.remove(index_of(s, k))
}

/// `s` with the order of id `r.id` replaced by `r`.
pub open spec fn replace_id(s: Seq<TraderRecord>, r: TraderRecord) -> Seq<TraderRecord> {
    s.update(index_of(s, r.id@), r)
}

/// In a sorted sequence the position of an id is the only one holding it.
pub proof fn lemma_index_unique(s: Seq<TraderRecord>, i: int)
    requires
        sorted_ids(s),
        0 <= i < s.len(),
    ensures
        has_id(s, s[i].id@),
        index_of(s, s[i].id@) == i,
{
    assert(s[i].id@ == s[i].id@);
    let j = index_of(s, s[i].id@);
    if j < i {
        assert(key_lt(s[j].id@, s[i].id@));
        lemma_key_lt_irreflexive(s[i].id@);
    } else if i < j {
        assert(key_lt(s[i].id@, s[j].id@));
        lemma_key_lt_irreflexive(s[i].id@);
    }
}

proof fn lemma_insert_at(s: Seq<TraderRecord>, r: TraderRecord, i: int)
    requires
        0 <= i <= s.len(),
        forall|j: int| 0 <= j < i ==> key_lt(#[trigger] s[j].id@, r.id@),
        i < s.len() ==> key_lt(r.id@, s[i].id@),
    ensures
        insert_sorted(s, r) == s.insert(i, r),
    decreases s.len(),
{
    if s.len() == 0 {
        assert(s.insert(i, r) =~= seq![r]);
    } else if i == 0 {
        assert(s.insert(i, r) =~= seq![r] + s);
    } else {
        lemma_key_lt_asymmetric(s[0].id@, r.id@);
        let t = s.drop_first();
        assert forall|j: int| 0 <= j < i - 1 implies key_lt(#[trigger] t[j].id@, r.id@) by {
            assert(t[j] == s[j + 1]);
        }
        lemma_insert_at(t, r, i - 1);
        assert(s.insert(i, r) =~= seq![s[0]] + t.insert(i - 1, r));
    }
}

/// The orders of one side of the book, ascending by id.
pub struct OrderSide {
    pub orders: Vec<TraderRecord>,
}

impl View for OrderSide {
    type V = Seq<TraderRecord>;

    open spec fn view(&self) -> Seq<TraderRecord> {
        self.orders@
    }
}

impl OrderSide {
    pub open spec fn wf(&self) -> bool {
        sorted_ids(self@)
    }

    /// An empty side.
    pub fn new() -> (r: OrderSide)
        ensures
            r@ == Seq::<TraderRecord>::empty(),
            r.wf(),
    {
        OrderSide { orders: Vec::new() }
    }

    /// A copy with the same orders.
    pub fn duplicate(&self) -> (r: OrderSide)
        ensures
            r@ == self@,
    {
        let mut v: Vec<TraderRecord> = Vec::new();
        let mut i: usize = 0;
        while i < self.orders.len()
            invariant
                i <= self.orders.len(),
                v@ == self@.take(i as int),
            decreases self.orders.len() - i,
        {
            v.push(self.orders[i].duplicate());
            i = i + 1;
            assert(v@ =~= self@.take(i as int));
        }
        assert(self@.take(i as int) =~= self@);
        OrderSide { orders: v }
    }

    /// The position of the order with id `id`, if there is one.
    pub fn find(&self, id: &String) -> (r: Option<usize>)
        requires
            self.wf(),
        ensures
            (r is None <==> !has_id(self@, id@)),
            (r matches Some(i) ==> i < self@.len() && i == index_of(self@, id@) && self@[i as int].id@ == id@),
    {
        let mut i: usize = 0;
        while i < self.orders.len()
            invariant
                self.wf(),
                i <= self.orders.len(),
                forall|j: int| 0 <= j < i ==> #[trigger] self@[j].id@ != id@,
            decreases self.orders.len() - i,
        {
            if self.orders[i].id == *id {
                proof {
                    lemma_index_unique(self@, i as int);
                }
                return Some(i);
            }
            i = i + 1;
        }
        None
    }

    /// Whether an order with id `id` rests on this side.
    pub fn has(&self, id: &String) -> (r: bool)
        requires
            self.wf(),
        ensures
            r == has_id(self@, id@),
    {
        self.find(id).is_some()
    }

    /// The order with id `id`; `NotStarted` when there is none.
    pub fn load(&self, id: &String) -> (r: Result<TraderRecord, ContractError>)
        requires
            self.wf(),
        ensures
            (r matches Ok(rec) ==> has_id(self@, id@) && rec == self@[index_of(self@, id@)]),
            (r matches Err(e) ==> !has_id(self@, id@) && e == (ContractError::NotStarted {})),
    {
        match self.find(id) {
            Some(i) => Ok(self.orders[i].duplicate()),
            None => Err(ContractError::NotStarted {}),
        }
    }

    /// Stores `order`, whose id must be new on this side, at its place in id order.
    pub fn insert(&mut self, order: TraderRecord)
        requires
            old(self).wf(),
            !has_id(old(self)@, order.id@),
        ensures
            final(self).wf(),
            final(self)@ == insert_sorted(old(self)@, order),
    {
        let ghost s = self@;
        let mut i: usize = 0;
        while i < self.orders.len() && !id_lt(&order.id, &self.orders[i].id)
            invariant
                self@ == s,
                sorted_ids(s),
                !has_id(s, order.id@),
                i <= s.len(),
                forall|j: int| 0 <= j < i ==> key_lt(#[trigger] s[j].id@, order.id@),
            decreases s.len() - i,
        {
            assert(s[i as int].id@ != order.id@);
            proof {
                lemma_key_lt_total(s[i as int].id@, order.id@);
            }
            i = i + 1;
        }
        proof {
            lemma_insert_at(s, order, i as int);
        }
        let ghost r = order;
        self.orders.insert(i, order);
        assert forall|a: int, b: int| 0 <= a < b < self@.len() implies key_lt(
            #[trigger] self@[a].id@,
            #[trigger] self@[b].id@,
        ) by {
            let t = self@;
            assert(t == s.insert(i as int, r));
            if b < i {
            } else if a < i && b == i {
            } else if a < i && b > i {
                assert(key_lt(s[a].id@, r.id@));
                lemma_key_lt_transitive(s[a].id@, r.id@, s[i as int].id@);
                if b - 1 > i {
                    lemma_key_lt_transitive(s[a].id@, s[i as int].id@, s[b - 1].id@);
                }
            } else if a == i {
                if b - 1 > i {
                    lemma_key_lt_transitive(r.id@, s[i as int].id@, s[b - 1].id@);
                }
            } else {
                assert(t[a] == s[a - 1] && t[b] == s[b - 1]);
            }
        }
    }

    /// Overwrites the order at position `i`, keeping its id.
    pub fn replace_at(&mut self, i: usize, order: TraderRecord)
        requires
            old(self).wf(),
            i < old(self)@.len(),
            order.id@ == old(self)@[i as int].id@,
        ensures
            final(self).wf(),
            final(self)@ == old(self)@.update(i as int, order),
    {
        let ghost s = self@;
        self.orders.set(i, order);
        assert forall|a: int, b: int| 0 <= a < b < self@.len() implies key_lt(
            #[trigger] self@[a].id@,
            #[trigger] self@[b].id@,
        ) by {
            assert(key_lt(s[a].id@, s[b].id@));
        }
    }

    /// Deletes the order at position `i`.
    pub fn delete_at(&mut self, i: usize)
        requires
            old(self).wf(),
            i < old(self)@.len(),
        ensures
            final(self).wf(),
            final(self)@ == old(self)@.remove(i as int),
    {
        let ghost s = self@;
        self.orders.remove(i);
        assert forall|a: int, b: int| 0 <= a < b < self@.len() implies key_lt(
            #[trigger] self@[a].id@,
            #[trigger] self@[b].id@,
        ) by {
            if a >= i {
                assert(key_lt(s[a + 1].id@, s[b + 1].id@));
            } else if b >= i {
                assert(key_lt(s[a].id@, s[b + 1].id@));
            } else {
                assert(key_lt(s[a].id@, s[b].id@));
            }
        }
    }
}

/// The side of a book model holding orders of the given kind.
pub open spec fn side_of(bm: (Seq<TraderRecord>, Seq<TraderRecord>), is_buy: bool) -> Seq<TraderRecord> {
    if is_buy {
        bm.0
    } else {
        bm.1
    }
}

/// A book model with one side replaced by `s`.
pub open spec fn with_side(
    bm: (Seq<TraderRecord>, Seq<TraderRecord>),
    is_buy: bool,
    s: Seq<TraderRecord>,
) -> (Seq<TraderRecord>, Seq<TraderRecord>) {
    if is_buy {
        (s, bm.1)
    } else {
        (bm.0, s)
    }
}

/// Both sides of the book are ascending by id.
pub open spec fn book_wf(bm: (Seq<TraderRecord>, Seq<TraderRecord>)) -> bool {
    sorted_ids(bm.0) && sorted_ids(bm.1)
}

/// The resting orders: buy side and sell side.
pub struct OrderBook {
    pub buyers: OrderSide,
    pub sellers: OrderSide,
}

impl View for OrderBook {
    type V = (Seq<TraderRecord>, Seq<TraderRecord>);

    open spec fn view(&self) -> (Seq<TraderRecord>, Seq<TraderRecord>) {
        (self.buyers@, self.sellers@)
    }
}

impl OrderBook {
    pub open spec fn wf(&self) -> bool {
        book_wf(self@)
    }

    /// A book with no orders.
    pub fn new() -> (r: OrderBook)
        ensures
            r@ == (Seq::<TraderRecord>::empty(), Seq::<TraderRecord>::empty()),
            r.wf(),
    {
        OrderBook { buyers: OrderSide::new(), sellers: OrderSide::new() }
    }

    /// A copy with the same orders.
    pub fn duplicate(&self) -> (r: OrderBook)
        ensures
            r@ == self@,
    {
        OrderBook { buyers: self.buyers.duplicate(), sellers: self.sellers.duplicate() }
    }

    /// The side holding orders of the given kind.
    pub fn side(&self, is_buy: bool) -> (r: &OrderSide)
        ensures
            r@ == side_of(self@, is_buy),
    {
        if is_buy {
            &self.buyers
        } else {
            &self.sellers
        }
    }

    /// Stores `order` on its side; its id must be new there.
    pub fn insert(&mut self, order: TraderRecord)
        requires
            old(self).wf(),
            !has_id(side_of(old(self)@, order.is_buy), order.id@),
        ensures
            final(self).wf(),
            final(self)@ == with_side(old(self)@, order.is_buy, insert_sorted(side_of(old(self)@, order.is_buy), order)),
    {
        if order.is_buy {
            self.buyers.insert(order);
        } else {
            self.sellers.insert(order);
        }
    }

    /// Overwrites the order at position `i` of one side, keeping its id.
    pub fn replace_at(&mut self, is_buy: bool, i: usize, order: TraderRecord)
        requires
            old(self).wf(),
            i < side_of(old(self)@, is_buy).len(),
            order.id@ == side_of(old(self)@, is_buy)[i as int].id@,
        ensures
            final(self).wf(),
            final(self)@ == with_side(old(self)@, is_buy, side_of(old(self)@, is_buy).update(i as int, order)),
    {
        if is_buy {
            self.buyers.replace_at(i, order);
        } else {
            self.sellers.replace_at(i, order);
        }
    }

    /// Deletes the order at position `i` of one side.
    pub fn delete_at(&mut self, is_buy: bool, i: usize)
        requires
            old(self).wf(),
            i < side_of(old(self)@, is_buy).len(),
        ensures
            final(self).wf(),
            final(self)@ == with_side(old(self)@, is_buy, side_of(old(self)@, is_buy).remove(i as int)),
    {
        if is_buy {
            self.buyers.delete_at(i);
        } else {
            self.sellers.delete_at(i);
        }
    }
}

} // verus!
