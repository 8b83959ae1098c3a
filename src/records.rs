use vstd::prelude::*;

verus! {

/// A vendor of agricultural supplies.
pub struct Agrovet {
    pub id: u64,
    pub name: String,
    pub location: String,
    pub contact: String,
    pub email: String,
    pub products: Vec<String>,
    pub created_at: u64,
}

/// An item offered by one agrovet.
pub struct Product {
    pub id: u64,
    pub agrovet_id: u64,
    pub name: String,
    pub category: String,
    pub price: u64,
    pub stock: u64,
    pub is_available: bool,
}

/// A customer's order for one product.
pub struct Order {
    pub id: u64,
    pub product_id: u64,
    pub customer_name: String,
    pub quantity: u64,
    pub total_price: u64,
    pub order_date: u64,
    pub status: String,
}

/// A customer's rating of an agrovet.
///
/// The rating is a 32-bit IEEE 754 number held by its bit pattern
/// (`f32::to_bits`), so that the range check is integer logic.
pub struct Feedback {
    pub id: u64,
    pub agrovet_id: u64,
    pub customer_name: String,
    pub rating_bits: u32,
    pub comment: String,
    pub timestamp: u64,
}

pub struct CreateAgrovetPayload {
    pub name: String,
    pub location: String,
    pub contact: String,
    pub email: String,
    pub products: Vec<String>,
}

/// A partial update: `None` leaves the field as it is.
pub struct UpdateAgrovetPayload {
    pub id: u64,
    pub name: Option<String>,
    pub location: Option<String>,
    pub contact: Option<String>,
    pub email: Option<String>,
}

pub struct CreateProductPayload {
    pub agrovet_id: u64,
    pub name: String,
    pub category: String,
    pub price: u64,
    pub stock: u64,
}

pub struct CreateOrderPayload {
    pub product_id: u64,
    pub customer_name: String,
    pub quantity: u64,
}

pub struct CreateFeedbackPayload {
    pub agrovet_id: u64,
    pub customer_name: String,
    pub rating_bits: u32,
    pub comment: String,
}

/// The outcome of a command that did not return a record.
pub enum Message {
    Success(String),
    Error(String),
    NotFound(String),
    InvalidPayload(String),
}

pub struct AgrovetView {
    pub id: u64,
    pub name: Seq<char>,
    pub location: Seq<char>,
    pub contact: Seq<char>,
    pub email: Seq<char>,
    pub products: Seq<Seq<char>>,
    pub created_at: u64,
}

pub struct ProductView {
    pub id: u64,
    pub agrovet_id: u64,
    pub name: Seq<char>,
    pub category: Seq<char>,
    pub price: u64,
    pub stock: u64,
    pub is_available: bool,
}

pub struct OrderView {
    pub id: u64,
    pub product_id: u64,
    pub customer_name: Seq<char>,
    pub quantity: u64,
    pub total_price: u64,
    pub order_date: u64,
    pub status: Seq<char>,
}

pub struct FeedbackView {
    pub id: u64,
    pub agrovet_id: u64,
    pub customer_name: Seq<char>,
    pub rating_bits: u32,
    pub comment: Seq<char>,
    pub timestamp: u64,
}

pub open spec fn strings_view(v: Seq<String>) -> Seq<Seq<char>> {
    v.map_values(|s: String| s@)
}

impl View for Agrovet {
    type V = AgrovetView;

    open spec fn view(&self) -> AgrovetView {
        AgrovetView {
            id: self.id,
            name: self.name@,
            location: self.location@,
            contact: self.contact@,
            email: self.email@,
            products: strings_view(self.products@),
            created_at: self.created_at,
        }
    }
}

impl View for Product {
    type V = ProductView;

    open spec fn view(&self) -> ProductView {
        ProductView {
            id: self.id,
            agrovet_id: self.agrovet_id,
            name: self.name@,
            category: self.category@,
            price: self.price,
            stock: self.stock,
            is_available: self.is_available,
        }
    }
}

impl View for Order {
    type V = OrderView;

    open spec fn view(&self) -> OrderView {
        OrderView {
            id: self.id,
            product_id: self.product_id,
            customer_name: self.customer_name@,
            quantity: self.quantity,
            total_price: self.total_price,
            order_date: self.order_date,
            status: self.status@,
        }
    }
}

impl View for Feedback {
    type V = FeedbackView;

    open spec fn view(&self) -> FeedbackView {
        FeedbackView {
            id: self.id,
            agrovet_id: self.agrovet_id,
            customer_name: self.customer_name@,
            rating_bits: self.rating_bits,
            comment: self.comment@,
            timestamp: self.timestamp,
        }
    }
}

pub fn copy_strings(v: &Vec<String>) -> (r: Vec<String>)
    ensures
        strings_view(r@) == strings_view(v@),
{
    let mut r: Vec<String> = Vec::new();
    let mut i: usize = 0;
    while i < v.len()
        invariant
            0 <= i <= v.len(),
            r@.len() == i,
            forall|j: int| 0 <= j < i ==> r@[j]@ == v@[j]@,
        decreases v.len() - i,
    {
        r.push(v[i].clone());
        i = i + 1;
    }
    assert(strings_view(r@) =~= strings_view(v@));
    r
}

impl Agrovet {
    pub fn copy(&self) -> (r: Agrovet)
        ensures
            r@ == self@,
    {
        Agrovet {
            id: self.id,
            name: self.name.clone(),
            location: self.location.clone(),
            contact: self.contact.clone(),
            email: self.email.clone(),
            products: copy_strings(&self.products),
            created_at: self.created_at,
        }
    }
}

impl Product {
    pub fn copy(&self) -> (r: Product)
        ensures
            r@ == self@,
    {
        Product {
            id: self.id,
            agrovet_id: self.agrovet_id,
            name: self.name.clone(),
            category: self.category.clone(),
            price: self.price,
            stock: self.stock,
            is_available: self.is_available,
        }
    }
}

impl Order {
    pub fn copy(&self) -> (r: Order)
        ensures
            r@ == self@,
    {
        Order {
            id: self.id,
            product_id: self.product_id,
            customer_name: self.customer_name.clone(),
            quantity: self.quantity,
            total_price: self.total_price,
            order_date: self.order_date,
            status: self.status.clone(),
        }
    }
}

impl Feedback {
    pub fn copy(&self) -> (r: Feedback)
        ensures
            r@ == self@,
    {
        Feedback {
            id: self.id,
            agrovet_id: self.agrovet_id,
            customer_name: self.customer_name.clone(),
            rating_bits: self.rating_bits,
            comment: self.comment.clone(),
            timestamp: self.timestamp,
        }
    }
}

} // verus!
