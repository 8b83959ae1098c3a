use vstd::prelude::*;

use crate::validate::{is_valid_rating, rating_in_range};
use crate::records::{
    strings_view, Agrovet, AgrovetView, CreateAgrovetPayload, CreateFeedbackPayload,
    CreateOrderPayload, CreateProductPayload, UpdateAgrovetPayload, Feedback, FeedbackView, Message, Order,
    OrderView, Product, ProductView,
};

verus! {

/// Ids strictly increase along `ids`, and none exceeds `bound`.
pub open spec fn ordered_below(ids: Seq<u64>, bound: u64) -> bool {
    &&& forall|i: int, j: int| 0 <= i < j < ids.len() ==> ids[i] < ids[j]
    &&& forall|i: int| 0 <= i < ids.len() ==> ids[i] <= bound
}

proof fn lemma_push_ordered(ids: Seq<u64>, bound: u64, id: u64)
    requires
        ordered_below(ids, bound),
        bound < id,
    ensures
        ordered_below(ids.push(id), id),
{
}

/// Every reference in `refs` names one of `ids`.
pub open spec fn refs_within(refs: Seq<u64>, ids: Seq<u64>) -> bool {
    forall|i: int| 0 <= i < refs.len() ==> ids.contains(#[trigger] refs[i])
}

pub open spec fn product_refs(s: Seq<ProductView>) -> Seq<u64> {
    s.map_values(|p: ProductView| p.agrovet_id)
}

pub open spec fn order_refs(s: Seq<OrderView>) -> Seq<u64> {
    s.map_values(|o: OrderView| o.product_id)
}

pub open spec fn feedback_refs(s: Seq<FeedbackView>) -> Seq<u64> {
    s.map_values(|f: FeedbackView| f.agrovet_id)
}

proof fn lemma_refs_grow(refs: Seq<u64>, ids: Seq<u64>, id: u64)
    requires
        refs_within(refs, ids),
    ensures
        refs_within(refs, ids.push(id)),
{
    assert forall|i: int| 0 <= i < refs.len() implies ids.push(id).contains(#[trigger] refs[i]) by {
        let k = choose|k: int| 0 <= k < ids.len() && ids[k] == refs[i];
        assert(ids.push(id)[k] == refs[i]);
    }
}

proof fn lemma_refs_push(refs: Seq<u64>, ids: Seq<u64>, r: u64)
    requires
        refs_within(refs, ids),
        ids.contains(r),
    ensures
        refs_within(refs.push(r), ids),
{
    assert forall|i: int| 0 <= i < refs.len() + 1 implies ids.contains(#[trigger] refs.push(r)[i]) by {
        if i < refs.len() {
            assert(refs.push(r)[i] == refs[i]);
        }
    }
}

fn refs_all_within(refs: &Vec<u64>, ids: &Vec<u64>) -> (r: bool)
    ensures
        r == refs_within(refs@, ids@),
{
    let mut i: usize = 0;
    while i < refs.len()
        invariant
            0 <= i <= refs@.len(),
            forall|j: int| 0 <= j < i ==> ids@.contains(#[trigger] refs@[j]),
        decreases refs@.len() - i,
    {
        if !contains_id(ids, refs[i]) {
            return false;
        }
        i = i + 1;
    }
    true
}

proof fn lemma_raise_bound(ids: Seq<u64>, bound: u64, higher: u64)
    requires
        ordered_below(ids, bound),
        bound <= higher,
    ensures
        ordered_below(ids, higher),
{
}

proof fn lemma_unique_index(ids: Seq<u64>, bound: u64, i: int, k: int)
    requires
        ordered_below(ids, bound),
        0 <= i < ids.len(),
        0 <= k < ids.len(),
        ids[i] == ids[k],
    ensures
        i == k,
{
    if i < k {
        assert(ids[i] < ids[k]);
    } else if k < i {
        assert(ids[k] < ids[i]);
    }
}

/// The agrovet in `s` whose id is `id` (meaningful when there is one).
pub open spec fn agrovet_with_id(s: Seq<AgrovetView>, id: u64) -> AgrovetView {
    s[choose|i: int| 0 <= i < s.len() && s[i].id == id]
}

/// The product in `s` whose id is `id` (meaningful when there is one).
pub open spec fn product_with_id(s: Seq<ProductView>, id: u64) -> ProductView {
    s[choose|i: int| 0 <= i < s.len() && s[i].id == id]
}

/// What a point lookup of `id` in `s` returns: the record with that id, or
/// `NotFound` when there is none.
pub open spec fn agrovet_lookup(s: Seq<AgrovetView>, id: u64, r: Result<Agrovet, Message>) -> bool {
    match r {
        Ok(a) => agrovet_ids(s).contains(id) && a@ == agrovet_with_id(s, id),
        Err(m) => !agrovet_ids(s).contains(id) && m is NotFound,
    }
}

proof fn lemma_take_push<A>(s: Seq<A>, i: int)
    requires
        0 <= i < s.len(),
    ensures
        s.take(i + 1) == s.take(i).push(s[i]),
{
    assert(s.take(i + 1) =~= s.take(i).push(s[i]));
}

/// Whether `ids` strictly increases and stays within `bound`.
fn ids_ordered_below(ids: &Vec<u64>, bound: u64) -> (r: bool)
    ensures
        r == ordered_below(ids@, bound),
{
    let mut i: usize = 0;
    while i < ids.len()
        invariant
            0 <= i <= ids@.len(),
            forall|a: int, b: int| 0 <= a < b < i ==> ids@[a] < ids@[b],
            forall|a: int| 0 <= a < i ==> ids@[a] <= bound,
        decreases ids@.len() - i,
    {
        if ids[i] > bound {
            return false;
        }
        if i > 0 && ids[i - 1] >= ids[i] {
            return false;
        }
        proof {
            assert forall|a: int, b: int| 0 <= a < b < i + 1 implies ids@[a] < ids@[b] by {
                if b == i && a < i - 1 {
                    assert(ids@[a] < ids@[i - 1]);
                }
            }
        }
        i = i + 1;
    }
    true
}

/// Products that belong to agrovet `aid`.
pub open spec fn of_agrovet(aid: u64) -> spec_fn(ProductView) -> bool {
    |p: ProductView| p.agrovet_id == aid
}

/// Feedback given to agrovet `aid`.
pub open spec fn feedback_for(aid: u64) -> spec_fn(FeedbackView) -> bool {
    |f: FeedbackView| f.agrovet_id == aid
}

/// Orders whose product id is one of `ids`.
pub open spec fn for_products(ids: Seq<u64>) -> spec_fn(OrderView) -> bool {
    |o: OrderView| ids.contains(o.product_id)
}

/// `a` after the update `p`: each field given in `p` replaces the stored
/// one, except an empty name, which leaves the name as it was.
pub open spec fn updated_agrovet(a: AgrovetView, p: UpdateAgrovetPayload) -> AgrovetView {
    AgrovetView {
        id: a.id,
        name: match p.name {
            Some(n) => if n@.len() > 0 {
                n@
            } else {
                a.name
            },
            None => a.name,
        },
        location: match p.location {
            Some(l) => l@,
            None => a.location,
        },
        contact: match p.contact {
            Some(c) => c@,
            None => a.contact,
        },
        email: match p.email {
            Some(e) => e@,
            None => a.email,
        },
        products: a.products,
        created_at: a.created_at,
    }
}

/// `s` with the record whose id is `v.id` replaced by `v`.
pub open spec fn replace_agrovet(s: Seq<AgrovetView>, v: AgrovetView) -> Seq<AgrovetView> {
    s.map_values(|x: AgrovetView| if x.id == v.id { v } else { x })
}

/// Name, stock and availability of a product.
pub open spec fn stock_line(p: ProductView) -> (Seq<char>, u64, bool) {
    (p.name, p.stock, p.is_available)
}

pub open spec fn stock_views(v: Seq<(String, u64, bool)>) -> Seq<(Seq<char>, u64, bool)> {
    v.map_values(|t: (String, u64, bool)| (t.0@, t.1, t.2))
}

/// The ids of the products of agrovet `aid`, in the order of `products`.
pub open spec fn agrovet_product_ids(products: Seq<ProductView>, aid: u64) -> Seq<u64> {
    product_ids(products.filter(of_agrovet(aid)))
}

fn contains_id(ids: &Vec<u64>, x: u64) -> (r: bool)
    ensures
        r == ids@.contains(x),
{
    let mut i: usize = 0;
    while i < ids.len()
        invariant
            0 <= i <= ids@.len(),
            forall|j: int| 0 <= j < i ==> ids@[j] != x,
        decreases ids@.len() - i,
    {
        if ids[i] == x {
            return true;
        }
        i = i + 1;
    }
    false
}

/// Name and category are non-empty and the price is positive.
pub open spec fn product_payload_ok(p: CreateProductPayload) -> bool {
    p.name@.len() > 0 && p.category@.len() > 0 && p.price > 0
}

/// The product that a valid create makes from `p`; it starts available.
pub open spec fn new_product(p: CreateProductPayload, id: u64) -> ProductView {
    ProductView {
        id,
        agrovet_id: p.agrovet_id,
        name: p.name@,
        category: p.category@,
        price: p.price,
        stock: p.stock,
        is_available: true,
    }
}

/// The customer is named and the quantity is positive.
pub open spec fn order_payload_ok(p: CreateOrderPayload) -> bool {
    p.customer_name@.len() > 0 && p.quantity > 0
}

/// The price of `quantity` units of `product`.
pub open spec fn order_total(product: ProductView, quantity: u64) -> int {
    product.price * quantity
}

/// The order that a valid create makes from `p`, priced from `product`; it
/// starts pending.
pub open spec fn new_order(p: CreateOrderPayload, product: ProductView, id: u64, now: u64) -> OrderView {
    OrderView {
        id,
        product_id: p.product_id,
        customer_name: p.customer_name@,
        quantity: p.quantity,
        total_price: order_total(product, p.quantity) as u64,
        order_date: now,
        status: "pending"@,
    }
}

/// The customer is named and the rating lies in [0.0, 5.0].
pub open spec fn feedback_payload_ok(p: CreateFeedbackPayload) -> bool {
    p.customer_name@.len() > 0 && rating_in_range(p.rating_bits)
}

pub open spec fn new_feedback(p: CreateFeedbackPayload, id: u64, now: u64) -> FeedbackView {
    FeedbackView {
        id,
        agrovet_id: p.agrovet_id,
        customer_name: p.customer_name@,
        rating_bits: p.rating_bits,
        comment: p.comment@,
        timestamp: now,
    }
}

/// The three fields that an agrovet needs are all non-empty.
pub open spec fn agrovet_payload_ok(p: CreateAgrovetPayload) -> bool {
    p.name@.len() > 0 && p.contact@.len() > 0 && p.email@.len() > 0
}

/// The agrovet that a valid create makes from `p`.
pub open spec fn new_agrovet(p: CreateAgrovetPayload, id: u64, now: u64) -> AgrovetView {
    AgrovetView {
        id,
        name: p.name@,
        location: p.location@,
        contact: p.contact@,
        email: p.email@,
        products: strings_view(p.products@),
        created_at: now,
    }
}

pub open spec fn agrovet_ids(s: Seq<AgrovetView>) -> Seq<u64> {
    s.map_values(|a: AgrovetView| a.id)
}

pub open spec fn product_ids(s: Seq<ProductView>) -> Seq<u64> {
    s.map_values(|p: ProductView| p.id)
}

pub open spec fn order_ids(s: Seq<OrderView>) -> Seq<u64> {
    s.map_values(|o: OrderView| o.id)
}

pub open spec fn feedback_ids(s: Seq<FeedbackView>) -> Seq<u64> {
    s.map_values(|f: FeedbackView| f.id)
}

pub open spec fn agrovet_views(v: Seq<Agrovet>) -> Seq<AgrovetView> {
    v.map_values(|a: Agrovet| a@)
}

pub open spec fn product_views(v: Seq<Product>) -> Seq<ProductView> {
    v.map_values(|p: Product| p@)
}

pub open spec fn order_views(v: Seq<Order>) -> Seq<OrderView> {
    v.map_values(|o: Order| o@)
}

pub open spec fn feedback_views(v: Seq<Feedback>) -> Seq<FeedbackView> {
    v.map_values(|f: Feedback| f@)
}

/// The whole application state: one shared id allocator and four entity
/// stores, each kept in ascending id order.
pub struct AppState {
    id_counter: u64,
    agrovets: Vec<Agrovet>,
    products: Vec<Product>,
    orders: Vec<Order>,
    feedbacks: Vec<Feedback>,
}

impl AppState {
    /// The last id handed out; 0 before the first.
    pub closed spec fn counter(&self) -> u64 {
        self.id_counter
    }

    pub closed spec fn agrovets(&self) -> Seq<AgrovetView> {
        agrovet_views(self.agrovets@)
    }

    pub closed spec fn products(&self) -> Seq<ProductView> {
        product_views(self.products@)
    }

    pub closed spec fn orders(&self) -> Seq<OrderView> {
        order_views(self.orders@)
    }

    pub closed spec fn feedbacks(&self) -> Seq<FeedbackView> {
        feedback_views(self.feedbacks@)
    }

    /// Every store is in strictly ascending id order, no stored id is above
    /// the allocator's counter, and every foreign key names a stored record:
    /// a product's and a feedback's agrovet, an order's product.
    pub open spec fn wf(&self) -> bool {
        &&& ordered_below(agrovet_ids(self.agrovets()), self.counter())
        &&& ordered_below(product_ids(self.products()), self.counter())
        &&& ordered_below(order_ids(self.orders()), self.counter())
        &&& ordered_below(feedback_ids(self.feedbacks()), self.counter())
        &&& refs_within(product_refs(self.products()), agrovet_ids(self.agrovets()))
        &&& refs_within(order_refs(self.orders()), product_ids(self.products()))
        &&& refs_within(feedback_refs(self.feedbacks()), agrovet_ids(self.agrovets()))
    }

    /// Every id held in any store is below `bound`.
    pub open spec fn ids_below(&self, bound: u64) -> bool {
        &&& forall|i: int| 0 <= i < self.agrovets().len() ==> self.agrovets()[i].id < bound
        &&& forall|i: int| 0 <= i < self.products().len() ==> self.products()[i].id < bound
        &&& forall|i: int| 0 <= i < self.orders().len() ==> self.orders()[i].id < bound
        &&& forall|i: int| 0 <= i < self.feedbacks().len() ==> self.feedbacks()[i].id < bound
    }

    /// The empty state: no records, counter at 0.
    pub fn new() -> (r: AppState)
        ensures
            r.wf(),
            r.counter() == 0,
            r.agrovets().len() == 0,
            r.products().len() == 0,
            r.orders().len() == 0,
            r.feedbacks().len() == 0,
    {
        let r = AppState {
            id_counter: 0,
            agrovets: Vec::new(),
            products: Vec::new(),
            orders: Vec::new(),
            feedbacks: Vec::new(),
        };
        assert(agrovet_ids(r.agrovets()) =~= Seq::empty());
        assert(product_ids(r.products()) =~= Seq::empty());
        assert(order_ids(r.orders()) =~= Seq::empty());
        assert(feedback_ids(r.feedbacks()) =~= Seq::empty());
        assert(product_refs(r.products()) =~= Seq::empty());
        assert(order_refs(r.orders()) =~= Seq::empty());
        assert(feedback_refs(r.feedbacks()) =~= Seq::empty());
        r
    }

    /// The last id handed out.
    pub fn id_counter(&self) -> (r: u64)
        ensures
            r == self.counter(),
    {
        self.id_counter
    }

    proof fn lemma_wf_implies_ids_below(&self)
        requires
            self.wf(),
            self.counter() < u64::MAX,
        ensures
            self.ids_below((self.counter() + 1) as u64),
    {
        assert forall|i: int| 0 <= i < self.agrovets().len() implies self.agrovets()[i].id
            < self.counter() + 1 by {
            assert(agrovet_ids(self.agrovets())[i] == self.agrovets()[i].id);
        }
        assert forall|i: int| 0 <= i < self.products().len() implies self.products()[i].id
            < self.counter() + 1 by {
            assert(product_ids(self.products())[i] == self.products()[i].id);
        }
        assert forall|i: int| 0 <= i < self.orders().len() implies self.orders()[i].id
            < self.counter() + 1 by {
            assert(order_ids(self.orders())[i] == self.orders()[i].id);
        }
        assert forall|i: int| 0 <= i < self.feedbacks().len() implies self.feedbacks()[i].id
            < self.counter() + 1 by {
            assert(feedback_ids(self.feedbacks())[i] == self.feedbacks()[i].id);
        }
    }

    /// Advances the shared allocator and returns the new id.
    pub fn increment_id_counter(&mut self) -> (r: u64)
        requires
            old(self).counter() < u64::MAX,
        ensures
            r == old(self).counter() + 1,
            final(self).counter() == r,
            final(self).agrovets() == old(self).agrovets(),
            final(self).products() == old(self).products(),
            final(self).orders() == old(self).orders(),
            final(self).feedbacks() == old(self).feedbacks(),
    {
        self.id_counter = self.id_counter + 1;
        self.id_counter
    }

    /// Creates an agrovet under the next id.
    ///
    /// Fails with `InvalidPayload` when name, contact or email is empty, and
    /// with `Error` when the allocator has no id left; a failure changes
    /// nothing.
    pub fn create_agrovet(&mut self, payload: CreateAgrovetPayload, now: u64) -> (r: Result<
        Agrovet,
        Message,
    >)
        requires
            old(self).wf(),
        ensures
            final(self).wf(),
            r is Ok <==> agrovet_payload_ok(payload) && old(self).counter() < u64::MAX,
            !agrovet_payload_ok(payload) ==> r is Err && r->Err_0 is InvalidPayload,
            agrovet_payload_ok(payload) && old(self).counter() == u64::MAX ==> r is Err
                && r->Err_0 is Error,
            r is Err ==> *final(self) == *old(self),
            r matches Ok(a) ==> a.id == old(self).counter() + 1 && final(self).counter() == a.id,
            r matches Ok(a) ==> old(self).ids_below(a.id),
            r matches Ok(a) ==> a@ == new_agrovet(payload, a.id, now),
            r matches Ok(a) ==> final(self).agrovets() == old(self).agrovets().push(a@),
            r is Ok ==> final(self).products() == old(self).products() && final(self).orders()
                == old(self).orders() && final(self).feedbacks() == old(self).feedbacks(),
    {
        if payload.name.as_str().is_empty() || payload.contact.as_str().is_empty()
            || payload.email.as_str().is_empty() {
            return Err(Message::InvalidPayload("Missing required fields".to_string()));
        }
        if self.id_counter == u64::MAX {
            return Err(Message::Error("No identifier left".to_string()));
        }
        proof {
            self.lemma_wf_implies_ids_below();
        }
        let ghost before = *self;
        let id = self.increment_id_counter();
        let agrovet = Agrovet {
            id,
            name: payload.name,
            location: payload.location,
            contact: payload.contact,
            email: payload.email,
            products: payload.products,
            created_at: now,
        };
        self.agrovets.push(agrovet.copy());
        proof {
            assert(self.agrovets() =~= before.agrovets().push(agrovet@));
            assert(agrovet_ids(self.agrovets()) =~= agrovet_ids(before.agrovets()).push(id));
            lemma_push_ordered(agrovet_ids(before.agrovets()), before.counter(), id);
            lemma_refs_grow(product_refs(self.products()), agrovet_ids(before.agrovets()), id);
            lemma_refs_grow(feedback_refs(self.feedbacks()), agrovet_ids(before.agrovets()), id);
            lemma_raise_bound(product_ids(self.products()), before.counter(), id);
            lemma_raise_bound(order_ids(self.orders()), before.counter(), id);
            lemma_raise_bound(feedback_ids(self.feedbacks()), before.counter(), id);
        }
        Ok(agrovet)
    }

    fn find_agrovet(&self, id: u64) -> (r: Option<usize>)
        requires
            self.wf(),
        ensures
            r is None <==> !agrovet_ids(self.agrovets()).contains(id),
            r matches Some(k) ==> k < self.agrovets().len() && self.agrovets()[k as int].id == id
                && agrovet_with_id(self.agrovets(), id) == self.agrovets()[k as int],
    {
        let mut i: usize = 0;
        while i < self.agrovets.len()
            invariant
                self.wf(),
                0 <= i <= self.agrovets@.len(),
                self.agrovets().len() == self.agrovets@.len(),
                forall|j: int| 0 <= j < i ==> self.agrovets()[j].id != id,
            decreases self.agrovets@.len() - i,
        {
            if self.agrovets[i].id == id {
                proof {
                    let s = self.agrovets();
                    let ids = agrovet_ids(s);
                    assert(ids[i as int] == id);
                    let c = choose|c: int| 0 <= c < s.len() && s[c].id == id;
                    assert(ids[c] == id);
                    lemma_unique_index(ids, self.counter(), c, i as int);
                }
                return Some(i);
            }
            i = i + 1;
        }
        proof {
            let ids = agrovet_ids(self.agrovets());
            assert forall|j: int| 0 <= j < ids.len() implies ids[j] != id by {
                assert(ids[j] == self.agrovets()[j].id);
            }
        }
        None
    }

    fn find_product(&self, id: u64) -> (r: Option<usize>)
        requires
            self.wf(),
        ensures
            r is None <==> !product_ids(self.products()).contains(id),
            r matches Some(k) ==> k < self.products().len() && self.products()[k as int].id == id
                && product_with_id(self.products(), id) == self.products()[k as int],
    {
        let mut i: usize = 0;
        while i < self.products.len()
            invariant
                self.wf(),
                0 <= i <= self.products@.len(),
                self.products().len() == self.products@.len(),
                forall|j: int| 0 <= j < i ==> self.products()[j].id != id,
            decreases self.products@.len() - i,
        {
            if self.products[i].id == id {
                proof {
                    let s = self.products();
                    let ids = product_ids(s);
                    assert(ids[i as int] == id);
                    let c = choose|c: int| 0 <= c < s.len() && s[c].id == id;
                    assert(ids[c] == id);
                    lemma_unique_index(ids, self.counter(), c, i as int);
                }
                return Some(i);
            }
            i = i + 1;
        }
        proof {
            let ids = product_ids(self.products());
            assert forall|j: int| 0 <= j < ids.len() implies ids[j] != id by {
                assert(ids[j] == self.products()[j].id);
            }
        }
        None
    }

    /// Point lookup of an agrovet by id.
    pub fn get_agrovet_by_id(&self, id: u64) -> (r: Result<Agrovet, Message>)
        requires
            self.wf(),
        ensures
            agrovet_lookup(self.agrovets(), id, r),
    {
        match self.find_agrovet(id) {
            Some(k) => Ok(self.agrovets[k].copy()),
            None => Err(Message::NotFound("Agrovet not found".to_string())),
        }
    }

    /// All agrovets in ascending id order; `NotFound` when there are none.
    pub fn list_all_agrovets(&self) -> (r: Result<Vec<Agrovet>, Message>)
        ensures
            r is Err <==> self.agrovets().len() == 0,
            r matches Err(m) ==> m is NotFound,
            r matches Ok(v) ==> agrovet_views(v@) == self.agrovets(),
    {
        let mut out: Vec<Agrovet> = Vec::new();
        let mut i: usize = 0;
        while i < self.agrovets.len()
            invariant
                0 <= i <= self.agrovets@.len(),
                out@.len() == i,
                forall|j: int| 0 <= j < i ==> out@[j]@ == self.agrovets@[j]@,
            decreases self.agrovets@.len() - i,
        {
            out.push(self.agrovets[i].copy());
            i = i + 1;
        }
        assert(agrovet_views(out@) =~= self.agrovets());
        if out.len() == 0 {
            Err(Message::NotFound("No agrovets found".to_string()))
        } else {
            Ok(out)
        }
    }

    /// Creates a product of an existing agrovet under the next id.
    ///
    /// Fails with `InvalidPayload` when name or category is empty or the
    /// price is zero, with `NotFound` when the agrovet does not exist, and
    /// with `Error` when the allocator has no id left; a failure changes
    /// nothing.
    pub fn create_product(&mut self, payload: CreateProductPayload) -> (r: Result<Product, Message>)
        requires
            old(self).wf(),
        ensures
            final(self).wf(),
            r is Ok <==> product_payload_ok(payload) && agrovet_ids(old(self).agrovets()).contains(
                payload.agrovet_id,
            ) && old(self).counter() < u64::MAX,
            !product_payload_ok(payload) ==> r is Err && r->Err_0 is InvalidPayload,
            product_payload_ok(payload) && !agrovet_ids(old(self).agrovets()).contains(
                payload.agrovet_id,
            ) ==> r is Err && r->Err_0 is NotFound,
            product_payload_ok(payload) && agrovet_ids(old(self).agrovets()).contains(
                payload.agrovet_id,
            ) && old(self).counter() == u64::MAX ==> r is Err && r->Err_0 is Error,
            r is Err ==> *final(self) == *old(self),
            r matches Ok(p) ==> p.id == old(self).counter() + 1 && final(self).counter() == p.id,
            r matches Ok(p) ==> old(self).ids_below(p.id),
            r matches Ok(p) ==> p@ == new_product(payload, p.id),
            r matches Ok(p) ==> final(self).products() == old(self).products().push(p@),
            r is Ok ==> final(self).agrovets() == old(self).agrovets() && final(self).orders()
                == old(self).orders() && final(self).feedbacks() == old(self).feedbacks(),
    {
        if payload.name.as_str().is_empty() || payload.category.as_str().is_empty()
            || payload.price == 0 {
            return Err(Message::InvalidPayload("Missing required fields".to_string()));
        }
        if self.find_agrovet(payload.agrovet_id).is_none() {
            return Err(Message::NotFound("Agrovet not found".to_string()));
        }
        if self.id_counter == u64::MAX {
            return Err(Message::Error("No identifier left".to_string()));
        }
        proof {
            self.lemma_wf_implies_ids_below();
        }
        let ghost before = *self;
        let id = self.increment_id_counter();
        let product = Product {
            id,
            agrovet_id: payload.agrovet_id,
            name: payload.name,
            category: payload.category,
            price: payload.price,
            stock: payload.stock,
            is_available: true,
        };
        self.products.push(product.copy());
        proof {
            assert(self.products() =~= before.products().push(product@));
            assert(product_ids(self.products()) =~= product_ids(before.products()).push(id));
            lemma_push_ordered(product_ids(before.products()), before.counter(), id);
            assert(product_refs(self.products()) =~= product_refs(before.products()).push(payload.agrovet_id));
            lemma_refs_push(product_refs(before.products()), agrovet_ids(before.agrovets()), payload.agrovet_id);
            lemma_refs_grow(order_refs(self.orders()), product_ids(before.products()), id);
            lemma_raise_bound(agrovet_ids(self.agrovets()), before.counter(), id);
            lemma_raise_bound(order_ids(self.orders()), before.counter(), id);
            lemma_raise_bound(feedback_ids(self.feedbacks()), before.counter(), id);
        }
        Ok(product)
    }

    /// The products of agrovet `agrovet_id`, in ascending id order;
    /// `NotFound` when it has none.
    pub fn get_products_by_agrovet_id(&self, agrovet_id: u64) -> (r: Result<Vec<Product>, Message>)
        ensures
            r is Err <==> self.products().filter(of_agrovet(agrovet_id)).len() == 0,
            r matches Err(m) ==> m is NotFound,
            r matches Ok(v) ==> product_views(v@) == self.products().filter(of_agrovet(agrovet_id)),
    {
        let mut out: Vec<Product> = Vec::new();
        let mut i: usize = 0;
        while i < self.products.len()
            invariant
                0 <= i <= self.products@.len(),
                self.products().len() == self.products@.len(),
                product_views(out@) == self.products().take(i as int).filter(of_agrovet(agrovet_id)),
            decreases self.products@.len() - i,
        {
            proof {
                lemma_take_push(self.products(), i as int);
                self.products().take(i as int).lemma_filter_push(self.products()[i as int], of_agrovet(agrovet_id));
            }
            if self.products[i].agrovet_id == agrovet_id {
                let ghost prev = out@;
                out.push(self.products[i].copy());
                assert(product_views(out@) =~= product_views(prev).push(self.products()[i as int]));
            }
            i = i + 1;
        }
        assert(self.products().take(self.products().len() as int) =~= self.products());
        if out.len() == 0 {
            Err(Message::NotFound("No products found for this agrovet".to_string()))
        } else {
            Ok(out)
        }
    }

    /// Places an order for an existing product under the next id, priced at
    /// the product's current price times the quantity.
    ///
    /// Fails with `InvalidPayload` when the customer name is empty, the
    /// quantity is zero or the total does not fit in 64 bits, with
    /// `NotFound` when the product does not exist, and with `Error` when the
    /// allocator has no id left; a failure changes nothing.
    pub fn create_order(&mut self, payload: CreateOrderPayload, now: u64) -> (r: Result<Order, Message>)
        requires
            old(self).wf(),
        ensures
            final(self).wf(),
            r is Ok <==> order_payload_ok(payload) && product_ids(old(self).products()).contains(
                payload.product_id,
            ) && order_total(product_with_id(old(self).products(), payload.product_id), payload.quantity)
                <= u64::MAX && old(self).counter() < u64::MAX,
            !order_payload_ok(payload) ==> r is Err && r->Err_0 is InvalidPayload,
            order_payload_ok(payload) && !product_ids(old(self).products()).contains(payload.product_id)
                ==> r is Err && r->Err_0 is NotFound,
            order_payload_ok(payload) && product_ids(old(self).products()).contains(payload.product_id)
                && order_total(product_with_id(old(self).products(), payload.product_id), payload.quantity)
                > u64::MAX ==> r is Err && r->Err_0 is InvalidPayload,
            order_payload_ok(payload) && product_ids(old(self).products()).contains(payload.product_id)
                && order_total(product_with_id(old(self).products(), payload.product_id), payload.quantity)
                <= u64::MAX && old(self).counter() == u64::MAX ==> r is Err && r->Err_0 is Error,
            r is Err ==> *final(self) == *old(self),
            r matches Ok(o) ==> o.id == old(self).counter() + 1 && final(self).counter() == o.id,
            r matches Ok(o) ==> old(self).ids_below(o.id),
            r matches Ok(o) ==> o.total_price == product_with_id(old(self).products(), payload.product_id).price
                * payload.quantity,
            r matches Ok(o) ==> o@ == new_order(
                payload,
                product_with_id(old(self).products(), payload.product_id),
                o.id,
                now,
            ),
            r matches Ok(o) ==> final(self).orders() == old(self).orders().push(o@),
            r is Ok ==> final(self).agrovets() == old(self).agrovets() && final(self).products()
                == old(self).products() && final(self).feedbacks() == old(self).feedbacks(),
    {
        if payload.customer_name.as_str().is_empty() || payload.quantity == 0 {
            return Err(Message::InvalidPayload("Missing required fields".to_string()));
        }
        let k = match self.find_product(payload.product_id) {
            Some(k) => k,
            None => {
                return Err(Message::NotFound("Product not found".to_string()));
            },
        };
        let total_price = match self.products[k].price.checked_mul(payload.quantity) {
            Some(t) => t,
            None => {
                return Err(Message::InvalidPayload("Order total is too large".to_string()));
            },
        };
        if self.id_counter == u64::MAX {
            return Err(Message::Error("No identifier left".to_string()));
        }
        proof {
            self.lemma_wf_implies_ids_below();
        }
        let ghost before = *self;
        let id = self.increment_id_counter();
        let order = Order {
            id,
            product_id: payload.product_id,
            customer_name: payload.customer_name,
            quantity: payload.quantity,
            total_price,
            order_date: now,
            status: "pending".to_string(),
        };
        self.orders.push(order.copy());
        proof {
            assert(self.orders() =~= before.orders().push(order@));
            assert(order_ids(self.orders()) =~= order_ids(before.orders()).push(id));
            lemma_push_ordered(order_ids(before.orders()), before.counter(), id);
            assert(order_refs(self.orders()) =~= order_refs(before.orders()).push(payload.product_id));
            lemma_refs_push(order_refs(before.orders()), product_ids(before.products()), payload.product_id);
            lemma_raise_bound(agrovet_ids(self.agrovets()), before.counter(), id);
            lemma_raise_bound(product_ids(self.products()), before.counter(), id);
            lemma_raise_bound(feedback_ids(self.feedbacks()), before.counter(), id);
        }
        Ok(order)
    }

    /// The ids of the products of agrovet `agrovet_id`.
    fn product_ids_of(&self, agrovet_id: u64) -> (r: Vec<u64>)
        ensures
            r@ == agrovet_product_ids(self.products(), agrovet_id),
    {
        let mut out: Vec<u64> = Vec::new();
        let mut i: usize = 0;
        while i < self.products.len()
            invariant
                0 <= i <= self.products@.len(),
                self.products().len() == self.products@.len(),
                out@ == product_ids(self.products().take(i as int).filter(of_agrovet(agrovet_id))),
            decreases self.products@.len() - i,
        {
            proof {
                lemma_take_push(self.products(), i as int);
                self.products().take(i as int).lemma_filter_push(self.products()[i as int], of_agrovet(agrovet_id));
            }
            if self.products[i].agrovet_id == agrovet_id {
                let ghost prev = self.products().take(i as int).filter(of_agrovet(agrovet_id));
                out.push(self.products[i].id);
                assert(product_ids(prev.push(self.products()[i as int])) =~= product_ids(prev).push(self.products()[i as int].id));
            }
            i = i + 1;
        }
        assert(self.products().take(self.products().len() as int) =~= self.products());
        out
    }

    /// The orders for products of agrovet `agrovet_id`, in ascending id
    /// order; `NotFound` when there are none.
    pub fn get_orders_by_agrovet_id(&self, agrovet_id: u64) -> (r: Result<Vec<Order>, Message>)
        ensures
            r is Err <==> self.orders().filter(
                for_products(agrovet_product_ids(self.products(), agrovet_id)),
            ).len() == 0,
            r matches Err(m) ==> m is NotFound,
            r matches Ok(v) ==> order_views(v@) == self.orders().filter(
                for_products(agrovet_product_ids(self.products(), agrovet_id)),
            ),
    {
        let ids = self.product_ids_of(agrovet_id);
        let mut out: Vec<Order> = Vec::new();
        let mut i: usize = 0;
        while i < self.orders.len()
            invariant
                0 <= i <= self.orders@.len(),
                self.orders().len() == self.orders@.len(),
                order_views(out@) == self.orders().take(i as int).filter(for_products(ids@)),
            decreases self.orders@.len() - i,
        {
            proof {
                lemma_take_push(self.orders(), i as int);
                self.orders().take(i as int).lemma_filter_push(self.orders()[i as int], for_products(ids@));
            }
            if contains_id(&ids, self.orders[i].product_id) {
                let ghost prev = out@;
                out.push(self.orders[i].copy());
                assert(order_views(out@) =~= order_views(prev).push(self.orders()[i as int]));
            }
            i = i + 1;
        }
        assert(self.orders().take(self.orders().len() as int) =~= self.orders());
        if out.len() == 0 {
            Err(Message::NotFound("No orders found for this agrovet".to_string()))
        } else {
            Ok(out)
        }
    }

    /// Records feedback on an existing agrovet under the next id.
    ///
    /// Fails with `InvalidPayload` when the customer name is empty or the
    /// rating is outside [0.0, 5.0], with `NotFound` when the agrovet does
    /// not exist, and with `Error` when the allocator has no id left; a
    /// failure changes nothing.
    pub fn create_feedback(&mut self, payload: CreateFeedbackPayload, now: u64) -> (r: Result<
        Feedback,
        Message,
    >)
        requires
            old(self).wf(),
        ensures
            final(self).wf(),
            r is Ok <==> feedback_payload_ok(payload) && agrovet_ids(old(self).agrovets()).contains(
                payload.agrovet_id,
            ) && old(self).counter() < u64::MAX,
            !feedback_payload_ok(payload) ==> r is Err && r->Err_0 is InvalidPayload,
            feedback_payload_ok(payload) && !agrovet_ids(old(self).agrovets()).contains(
                payload.agrovet_id,
            ) ==> r is Err && r->Err_0 is NotFound,
            feedback_payload_ok(payload) && agrovet_ids(old(self).agrovets()).contains(
                payload.agrovet_id,
            ) && old(self).counter() == u64::MAX ==> r is Err && r->Err_0 is Error,
            r is Err ==> *final(self) == *old(self),
            r matches Ok(f) ==> f.id == old(self).counter() + 1 && final(self).counter() == f.id,
            r matches Ok(f) ==> old(self).ids_below(f.id),
            r matches Ok(f) ==> f@ == new_feedback(payload, f.id, now),
            r matches Ok(f) ==> final(self).feedbacks() == old(self).feedbacks().push(f@),
            r is Ok ==> final(self).agrovets() == old(self).agrovets() && final(self).products()
                == old(self).products() && final(self).orders() == old(self).orders(),
    {
        if payload.customer_name.as_str().is_empty() || !is_valid_rating(payload.rating_bits) {
            return Err(Message::InvalidPayload("Invalid feedback data".to_string()));
        }
        if self.find_agrovet(payload.agrovet_id).is_none() {
            return Err(Message::NotFound("Agrovet not found".to_string()));
        }
        if self.id_counter == u64::MAX {
            return Err(Message::Error("No identifier left".to_string()));
        }
        proof {
            self.lemma_wf_implies_ids_below();
        }
        let ghost before = *self;
        let id = self.increment_id_counter();
        let feedback = Feedback {
            id,
            agrovet_id: payload.agrovet_id,
            customer_name: payload.customer_name,
            rating_bits: payload.rating_bits,
            comment: payload.comment,
            timestamp: now,
        };
        self.feedbacks.push(feedback.copy());
        proof {
            assert(self.feedbacks() =~= before.feedbacks().push(feedback@));
            assert(feedback_ids(self.feedbacks()) =~= feedback_ids(before.feedbacks()).push(id));
            lemma_push_ordered(feedback_ids(before.feedbacks()), before.counter(), id);
            assert(feedback_refs(self.feedbacks()) =~= feedback_refs(before.feedbacks()).push(payload.agrovet_id));
            lemma_refs_push(feedback_refs(before.feedbacks()), agrovet_ids(before.agrovets()), payload.agrovet_id);
            lemma_raise_bound(agrovet_ids(self.agrovets()), before.counter(), id);
            lemma_raise_bound(product_ids(self.products()), before.counter(), id);
            lemma_raise_bound(order_ids(self.orders()), before.counter(), id);
        }
        Ok(feedback)
    }

    /// The feedback given to agrovet `agrovet_id`, in ascending id order;
    /// `NotFound` when there is none.
    pub fn get_feedback_by_agrovet_id(&self, agrovet_id: u64) -> (r: Result<Vec<Feedback>, Message>)
        ensures
            r is Err <==> self.feedbacks().filter(feedback_for(agrovet_id)).len() == 0,
            r matches Err(m) ==> m is NotFound,
            r matches Ok(v) ==> feedback_views(v@) == self.feedbacks().filter(feedback_for(agrovet_id)),
    {
        let mut out: Vec<Feedback> = Vec::new();
        let mut i: usize = 0;
        while i < self.feedbacks.len()
            invariant
                0 <= i <= self.feedbacks@.len(),
                self.feedbacks().len() == self.feedbacks@.len(),
                feedback_views(out@) == self.feedbacks().take(i as int).filter(feedback_for(agrovet_id)),
            decreases self.feedbacks@.len() - i,
        {
            proof {
                lemma_take_push(self.feedbacks(), i as int);
                self.feedbacks().take(i as int).lemma_filter_push(self.feedbacks()[i as int], feedback_for(agrovet_id));
            }
            if self.feedbacks[i].agrovet_id == agrovet_id {
                let ghost prev = out@;
                out.push(self.feedbacks[i].copy());
                assert(feedback_views(out@) =~= feedback_views(prev).push(self.feedbacks()[i as int]));
            }
            i = i + 1;
        }
        assert(self.feedbacks().take(self.feedbacks().len() as int) =~= self.feedbacks());
        if out.len() == 0 {
            Err(Message::NotFound("No feedback found for this agrovet".to_string()))
        } else {
            Ok(out)
        }
    }

    /// Applies a partial update to an existing agrovet and returns it as
    /// stored; `NotFound` when there is no agrovet with that id.
    pub fn update_agrovet(&mut self, payload: UpdateAgrovetPayload) -> (r: Result<Agrovet, Message>)
        requires
            old(self).wf(),
        ensures
            final(self).wf(),
            r is Ok <==> agrovet_ids(old(self).agrovets()).contains(payload.id),
            r matches Err(m) ==> m is NotFound && *final(self) == *old(self),
            r matches Ok(a) ==> a@ == updated_agrovet(
                agrovet_with_id(old(self).agrovets(), payload.id),
                payload,
            ),
            r matches Ok(a) ==> final(self).agrovets() == replace_agrovet(old(self).agrovets(), a@),
            r is Ok ==> final(self).counter() == old(self).counter() && final(self).products()
                == old(self).products() && final(self).orders() == old(self).orders()
                && final(self).feedbacks() == old(self).feedbacks(),
    {
        let k = match self.find_agrovet(payload.id) {
            Some(k) => k,
            None => {
                return Err(Message::NotFound("Agrovet not found".to_string()));
            },
        };
        let ghost before = *self;
        let mut agrovet = self.agrovets[k].copy();
        if let Some(name) = payload.name {
            if !name.as_str().is_empty() {
                agrovet.name = name;
            }
        }
        if let Some(location) = payload.location {
            agrovet.location = location;
        }
        if let Some(contact) = payload.contact {
            agrovet.contact = contact;
        }
        if let Some(email) = payload.email {
            agrovet.email = email;
        }
        self.agrovets.set(k, agrovet.copy());
        proof {
            let s = before.agrovets();
            let ids = agrovet_ids(s);
            assert forall|j: int| 0 <= j < s.len() && j != k implies s[j].id != payload.id by {
                assert(ids[j] == s[j].id);
                assert(ids[k as int] == s[k as int].id);
                if s[j].id == payload.id {
                    lemma_unique_index(ids, before.counter(), j, k as int);
                }
            }
            assert(self.agrovets() =~= replace_agrovet(s, agrovet@));
            assert(agrovet_ids(self.agrovets()) =~= ids);
        }
        Ok(agrovet)
    }

    /// Name, stock and availability of every product, in ascending id
    /// order; `NotFound` when there are no products.
    pub fn get_stock_summary(&self) -> (r: Result<Vec<(String, u64, bool)>, Message>)
        ensures
            r is Err <==> self.products().len() == 0,
            r matches Err(m) ==> m is NotFound,
            r matches Ok(v) ==> stock_views(v@) == self.products().map_values(
                |p: ProductView| stock_line(p),
            ),
    {
        let mut out: Vec<(String, u64, bool)> = Vec::new();
        let mut i: usize = 0;
        while i < self.products.len()
            invariant
                0 <= i <= self.products@.len(),
                self.products().len() == self.products@.len(),
                out@.len() == i,
                forall|j: int| 0 <= j < i ==> (out@[j].0@, out@[j].1, out@[j].2) == stock_line(
                    #[trigger] self.products()[j],
                ),
            decreases self.products@.len() - i,
        {
            let p = &self.products[i];
            out.push((p.name.clone(), p.stock, p.is_available));
            i = i + 1;
        }
        assert(stock_views(out@) =~= self.products().map_values(|p: ProductView| stock_line(p)));
        if out.len() == 0 {
            Err(Message::NotFound("No products found".to_string()))
        } else {
            Ok(out)
        }
    }

    fn agrovet_id_list(v: &Vec<Agrovet>) -> (r: Vec<u64>)
        ensures
            r@ == agrovet_ids(agrovet_views(v@)),
    {
        let mut out: Vec<u64> = Vec::new();
        let mut i: usize = 0;
        while i < v.len()
            invariant
                0 <= i <= v@.len(),
                out@.len() == i,
                forall|j: int| 0 <= j < i ==> out@[j] == v@[j].id,
            decreases v@.len() - i,
        {
            out.push(v[i].id);
            i = i + 1;
        }
        assert(out@ =~= agrovet_ids(agrovet_views(v@)));
        out
    }

    fn product_id_list(v: &Vec<Product>) -> (r: Vec<u64>)
        ensures
            r@ == product_ids(product_views(v@)),
    {
        let mut out: Vec<u64> = Vec::new();
        let mut i: usize = 0;
        while i < v.len()
            invariant
                0 <= i <= v@.len(),
                out@.len() == i,
                forall|j: int| 0 <= j < i ==> out@[j] == v@[j].id,
            decreases v@.len() - i,
        {
            out.push(v[i].id);
            i = i + 1;
        }
        assert(out@ =~= product_ids(product_views(v@)));
        out
    }

    fn order_id_list(v: &Vec<Order>) -> (r: Vec<u64>)
        ensures
            r@ == order_ids(order_views(v@)),
    {
        let mut out: Vec<u64> = Vec::new();
        let mut i: usize = 0;
        while i < v.len()
            invariant
                0 <= i <= v@.len(),
                out@.len() == i,
                forall|j: int| 0 <= j < i ==> out@[j] == v@[j].id,
            decreases v@.len() - i,
        {
            out.push(v[i].id);
            i = i + 1;
        }
        assert(out@ =~= order_ids(order_views(v@)));
        out
    }

    fn feedback_id_list(v: &Vec<Feedback>) -> (r: Vec<u64>)
        ensures
            r@ == feedback_ids(feedback_views(v@)),
    {
        let mut out: Vec<u64> = Vec::new();
        let mut i: usize = 0;
        while i < v.len()
            invariant
                0 <= i <= v@.len(),
                out@.len() == i,
                forall|j: int| 0 <= j < i ==> out@[j] == v@[j].id,
            decreases v@.len() - i,
        {
            out.push(v[i].id);
            i = i + 1;
        }
        assert(out@ =~= feedback_ids(feedback_views(v@)));
        out
    }

    fn product_ref_list(v: &Vec<Product>) -> (r: Vec<u64>)
        ensures
            r@ == product_refs(product_views(v@)),
    {
        let mut out: Vec<u64> = Vec::new();
        let mut i: usize = 0;
        while i < v.len()
            invariant
                0 <= i <= v@.len(),
                out@.len() == i,
                forall|j: int| 0 <= j < i ==> out@[j] == v@[j].agrovet_id,
            decreases v@.len() - i,
        {
            out.push(v[i].agrovet_id);
            i = i + 1;
        }
        assert(out@ =~= product_refs(product_views(v@)));
        out
    }

    fn order_ref_list(v: &Vec<Order>) -> (r: Vec<u64>)
        ensures
            r@ == order_refs(order_views(v@)),
    {
        let mut out: Vec<u64> = Vec::new();
        let mut i: usize = 0;
        while i < v.len()
            invariant
                0 <= i <= v@.len(),
                out@.len() == i,
                forall|j: int| 0 <= j < i ==> out@[j] == v@[j].product_id,
            decreases v@.len() - i,
        {
            out.push(v[i].product_id);
            i = i + 1;
        }
        assert(out@ =~= order_refs(order_views(v@)));
        out
    }

    fn feedback_ref_list(v: &Vec<Feedback>) -> (r: Vec<u64>)
        ensures
            r@ == feedback_refs(feedback_views(v@)),
    {
        let mut out: Vec<u64> = Vec::new();
        let mut i: usize = 0;
        while i < v.len()
            invariant
                0 <= i <= v@.len(),
                out@.len() == i,
                forall|j: int| 0 <= j < i ==> out@[j] == v@[j].agrovet_id,
            decreases v@.len() - i,
        {
            out.push(v[i].agrovet_id);
            i = i + 1;
        }
        assert(out@ =~= feedback_refs(feedback_views(v@)));
        out
    }

    /// Rebuilds the state from persisted parts: the counter and each store's
    /// records in ascending id order. `None` when the parts are not a state
    /// this library could have reached: a store out of order, an id above
    /// the counter, or a foreign key that names no stored record.
    pub fn restore(
        id_counter: u64,
        agrovets: Vec<Agrovet>,
        products: Vec<Product>,
        orders: Vec<Order>,
        feedbacks: Vec<Feedback>,
    ) -> (r: Option<AppState>)
        ensures
            r is Some <==> ordered_below(agrovet_ids(agrovet_views(agrovets@)), id_counter)
                && ordered_below(product_ids(product_views(products@)), id_counter)
                && ordered_below(order_ids(order_views(orders@)), id_counter)
                && ordered_below(feedback_ids(feedback_views(feedbacks@)), id_counter)
                && refs_within(
                product_refs(product_views(products@)),
                agrovet_ids(agrovet_views(agrovets@)),
            ) && refs_within(order_refs(order_views(orders@)), product_ids(product_views(products@)))
                && refs_within(
                feedback_refs(feedback_views(feedbacks@)),
                agrovet_ids(agrovet_views(agrovets@)),
            ),
            r matches Some(s) ==> s.wf() && s.counter() == id_counter && s.agrovets()
                == agrovet_views(agrovets@) && s.products() == product_views(products@)
                && s.orders() == order_views(orders@) && s.feedbacks() == feedback_views(
                feedbacks@,
            ),
    {
        let agrovet_id_list = Self::agrovet_id_list(&agrovets);
        let product_id_list = Self::product_id_list(&products);
        let ok = ids_ordered_below(&agrovet_id_list, id_counter)
            && ids_ordered_below(&product_id_list, id_counter)
            && ids_ordered_below(&Self::order_id_list(&orders), id_counter)
            && ids_ordered_below(&Self::feedback_id_list(&feedbacks), id_counter)
            && refs_all_within(&Self::product_ref_list(&products), &agrovet_id_list)
            && refs_all_within(&Self::order_ref_list(&orders), &product_id_list)
            && refs_all_within(&Self::feedback_ref_list(&feedbacks), &agrovet_id_list);
        if ok {
            Some(AppState { id_counter, agrovets, products, orders, feedbacks })
        } else {
            None
        }
    }
}

} // verus!
