use agrovet_store::records::{
    CreateAgrovetPayload, CreateFeedbackPayload, CreateOrderPayload, CreateProductPayload,
    Message, UpdateAgrovetPayload,
};
use agrovet_store::store::AppState;

fn agrovet_payload(name: &str, contact: &str, email: &str) -> CreateAgrovetPayload {
    CreateAgrovetPayload {
        name: name.to_string(),
        location: "Nakuru".to_string(),
        contact: contact.to_string(),
        email: email.to_string(),
        products: vec!["Seed".to_string(), "Feed".to_string()],
    }
}

fn product_payload(agrovet_id: u64, price: u64, stock: u64) -> CreateProductPayload {
    CreateProductPayload {
        agrovet_id,
        name: "Seed".to_string(),
        category: "Inputs".to_string(),
        price,
        stock,
    }
}

#[test]
fn scenario_agrovet_product_order() {
    let mut s = AppState::new();
    let a = s.create_agrovet(agrovet_payload("GreenFarm", "0712345", "a@b.com"), 10).ok().unwrap();
    assert_eq!(a.id, 1);
    assert_eq!(a.name, "GreenFarm");
    assert_eq!(a.created_at, 10);
    let p = s.create_product(product_payload(1, 100, 50)).ok().unwrap();
    assert_eq!(p.id, 2);
    assert!(p.is_available);
    assert_eq!(p.agrovet_id, 1);
    let o = s
        .create_order(
            CreateOrderPayload { product_id: 2, customer_name: "Jane".to_string(), quantity: 3 },
            20,
        )
        .ok()
        .unwrap();
    assert_eq!(o.id, 3);
    assert_eq!(o.total_price, 300);
    assert_eq!(o.status, "pending");
    assert_eq!(o.order_date, 20);
    let orders = s.get_orders_by_agrovet_id(1).ok().unwrap();
    assert_eq!(orders.len(), 1);
    assert_eq!(orders[0].id, 3);
}

#[test]
fn scenario_feedback_for_missing_agrovet() {
    let mut s = AppState::new();
    let r = s.create_feedback(
        CreateFeedbackPayload {
            agrovet_id: 99,
            customer_name: "X".to_string(),
            rating_bits: 4.0f32.to_bits(),
            comment: String::new(),
        },
        5,
    );
    assert!(matches!(r, Err(Message::NotFound(_))));
    assert_eq!(s.id_counter(), 0);
}

#[test]
fn scenario_list_all_agrovets() {
    let mut s = AppState::new();
    assert!(matches!(s.list_all_agrovets(), Err(Message::NotFound(_))));
    s.create_agrovet(agrovet_payload("GreenFarm", "0712345", "a@b.com"), 1).ok().unwrap();
    let all = s.list_all_agrovets().ok().unwrap();
    assert_eq!(all.len(), 1);
    assert_eq!(all[0].name, "GreenFarm");
}

#[test]
fn ids_are_shared_and_increasing() {
    let mut s = AppState::new();
    let a = s.create_agrovet(agrovet_payload("A", "1", "a@b.c"), 0).ok().unwrap();
    let b = s.create_agrovet(agrovet_payload("B", "2", "b@b.c"), 0).ok().unwrap();
    let p = s.create_product(product_payload(b.id, 5, 1)).ok().unwrap();
    assert_eq!((a.id, b.id, p.id), (1, 2, 3));
    assert_eq!(s.id_counter(), 3);
    assert_eq!(s.increment_id_counter(), 4);
    let c = s.create_agrovet(agrovet_payload("C", "3", "c@b.c"), 0).ok().unwrap();
    assert_eq!(c.id, 5);
}

#[test]
fn repeated_lookup_gives_same_record() {
    let mut s = AppState::new();
    s.create_agrovet(agrovet_payload("GreenFarm", "0712345", "a@b.com"), 7).ok().unwrap();
    let first = s.get_agrovet_by_id(1).ok().unwrap();
    let second = s.get_agrovet_by_id(1).ok().unwrap();
    assert_eq!(first.id, second.id);
    assert_eq!(first.name, second.name);
    assert_eq!(first.products, second.products);
    assert!(matches!(s.get_agrovet_by_id(2), Err(Message::NotFound(_))));
    assert!(matches!(s.get_agrovet_by_id(2), Err(Message::NotFound(_))));
}

#[test]
fn create_agrovet_rejects_missing_fields() {
    let mut s = AppState::new();
    assert!(matches!(s.create_agrovet(agrovet_payload("", "1", "a@b"), 0), Err(Message::InvalidPayload(_))));
    assert!(matches!(s.create_agrovet(agrovet_payload("A", "", "a@b"), 0), Err(Message::InvalidPayload(_))));
    assert!(matches!(s.create_agrovet(agrovet_payload("A", "1", ""), 0), Err(Message::InvalidPayload(_))));
    assert_eq!(s.id_counter(), 0);
}

#[test]
fn create_product_with_missing_agrovet_changes_nothing() {
    let mut s = AppState::new();
    s.create_agrovet(agrovet_payload("A", "1", "a@b.c"), 0).ok().unwrap();
    let r = s.create_product(product_payload(42, 10, 1));
    assert!(matches!(r, Err(Message::NotFound(_))));
    assert!(matches!(s.get_stock_summary(), Err(Message::NotFound(_))));
    assert_eq!(s.id_counter(), 1);
}

#[test]
fn create_product_rejects_invalid_payload() {
    let mut s = AppState::new();
    s.create_agrovet(agrovet_payload("A", "1", "a@b.c"), 0).ok().unwrap();
    assert!(matches!(s.create_product(product_payload(1, 0, 1)), Err(Message::InvalidPayload(_))));
    let mut p = product_payload(1, 3, 1);
    p.category = String::new();
    assert!(matches!(s.create_product(p), Err(Message::InvalidPayload(_))));
    assert!(matches!(s.create_product(product_payload(9, 0, 1)), Err(Message::InvalidPayload(_))));
}

#[test]
fn create_order_errors() {
    let mut s = AppState::new();
    s.create_agrovet(agrovet_payload("A", "1", "a@b.c"), 0).ok().unwrap();
    s.create_product(product_payload(1, u64::MAX / 2, 1)).ok().unwrap();
    let order = |pid: u64, name: &str, q: u64| CreateOrderPayload {
        product_id: pid,
        customer_name: name.to_string(),
        quantity: q,
    };
    assert!(matches!(s.create_order(order(2, "", 1), 0), Err(Message::InvalidPayload(_))));
    assert!(matches!(s.create_order(order(2, "J", 0), 0), Err(Message::InvalidPayload(_))));
    assert!(matches!(s.create_order(order(1, "J", 1), 0), Err(Message::NotFound(_))));
    assert!(matches!(s.create_order(order(2, "J", 3), 0), Err(Message::InvalidPayload(_))));
    let o = s.create_order(order(2, "J", 2), 0).ok().unwrap();
    assert_eq!(o.total_price, (u64::MAX / 2) * 2);
    assert_eq!(o.id, 3);
}

#[test]
fn orders_are_grouped_by_agrovet() {
    let mut s = AppState::new();
    s.create_agrovet(agrovet_payload("A", "1", "a@b.c"), 0).ok().unwrap();
    s.create_agrovet(agrovet_payload("B", "2", "b@b.c"), 0).ok().unwrap();
    s.create_product(product_payload(1, 4, 1)).ok().unwrap();
    s.create_product(product_payload(2, 5, 1)).ok().unwrap();
    let order = |pid: u64| CreateOrderPayload { product_id: pid, customer_name: "J".to_string(), quantity: 2 };
    s.create_order(order(3), 0).ok().unwrap();
    s.create_order(order(4), 0).ok().unwrap();
    s.create_order(order(3), 0).ok().unwrap();
    let a_orders = s.get_orders_by_agrovet_id(1).ok().unwrap();
    let ids: Vec<u64> = a_orders.iter().map(|o| o.id).collect();
    assert_eq!(ids, vec![5, 7]);
    assert_eq!(a_orders[0].total_price, 8);
    let b_orders = s.get_orders_by_agrovet_id(2).ok().unwrap();
    assert_eq!(b_orders.len(), 1);
    assert_eq!(b_orders[0].total_price, 10);
    assert!(matches!(s.get_orders_by_agrovet_id(3), Err(Message::NotFound(_))));
}

#[test]
fn products_by_agrovet() {
    let mut s = AppState::new();
    s.create_agrovet(agrovet_payload("A", "1", "a@b.c"), 0).ok().unwrap();
    s.create_agrovet(agrovet_payload("B", "2", "b@b.c"), 0).ok().unwrap();
    s.create_product(product_payload(1, 4, 1)).ok().unwrap();
    s.create_product(product_payload(2, 5, 1)).ok().unwrap();
    s.create_product(product_payload(1, 6, 1)).ok().unwrap();
    let ps = s.get_products_by_agrovet_id(1).ok().unwrap();
    let ids: Vec<u64> = ps.iter().map(|p| p.id).collect();
    assert_eq!(ids, vec![3, 5]);
    assert!(matches!(s.get_products_by_agrovet_id(7), Err(Message::NotFound(_))));
}

#[test]
fn feedback_rating_bounds() {
    let mut s = AppState::new();
    s.create_agrovet(agrovet_payload("A", "1", "a@b.c"), 0).ok().unwrap();
    let fb = |rating: f32, name: &str| CreateFeedbackPayload {
        agrovet_id: 1,
        customer_name: name.to_string(),
        rating_bits: rating.to_bits(),
        comment: "ok".to_string(),
    };
    for bad in [-0.5f32, 5.01, f32::NAN, f32::INFINITY, -1.0] {
        assert!(matches!(s.create_feedback(fb(bad, "X"), 0), Err(Message::InvalidPayload(_))));
    }
    assert!(matches!(s.create_feedback(fb(3.0, ""), 0), Err(Message::InvalidPayload(_))));
    for good in [0.0f32, -0.0, 2.5, 5.0] {
        assert!(s.create_feedback(fb(good, "X"), 9).is_ok());
    }
    let all = s.get_feedback_by_agrovet_id(1).ok().unwrap();
    assert_eq!(all.len(), 4);
    assert_eq!(f32::from_bits(all[2].rating_bits), 2.5);
    assert_eq!(all[3].timestamp, 9);
    assert!(matches!(s.get_feedback_by_agrovet_id(2), Err(Message::NotFound(_))));
}

#[test]
fn update_agrovet_changes_only_given_fields() {
    let mut s = AppState::new();
    s.create_agrovet(agrovet_payload("GreenFarm", "0712345", "a@b.com"), 3).ok().unwrap();
    let u = s
        .update_agrovet(UpdateAgrovetPayload {
            id: 1,
            name: Some(String::new()),
            location: None,
            contact: Some("0799".to_string()),
            email: None,
        })
        .ok()
        .unwrap();
    assert_eq!(u.name, "GreenFarm");
    assert_eq!(u.location, "Nakuru");
    assert_eq!(u.contact, "0799");
    assert_eq!(u.email, "a@b.com");
    assert_eq!(u.created_at, 3);
    let stored = s.get_agrovet_by_id(1).ok().unwrap();
    assert_eq!(stored.contact, "0799");
    let u2 = s
        .update_agrovet(UpdateAgrovetPayload {
            id: 1,
            name: Some("BlueFarm".to_string()),
            location: Some(String::new()),
            contact: None,
            email: Some("x@y.z".to_string()),
        })
        .ok()
        .unwrap();
    assert_eq!(u2.name, "BlueFarm");
    assert_eq!(u2.location, "");
    assert_eq!(u2.contact, "0799");
    assert_eq!(u2.email, "x@y.z");
    assert_eq!(s.id_counter(), 1);
    let missing = s.update_agrovet(UpdateAgrovetPayload {
        id: 5,
        name: None,
        location: None,
        contact: None,
        email: None,
    });
    assert!(matches!(missing, Err(Message::NotFound(_))));
}

#[test]
fn stock_summary_lists_every_product() {
    let mut s = AppState::new();
    assert!(matches!(s.get_stock_summary(), Err(Message::NotFound(_))));
    s.create_agrovet(agrovet_payload("A", "1", "a@b.c"), 0).ok().unwrap();
    s.create_product(product_payload(1, 4, 12)).ok().unwrap();
    let mut p = product_payload(1, 6, 0);
    p.name = "Feed".to_string();
    s.create_product(p).ok().unwrap();
    let summary = s.get_stock_summary().ok().unwrap();
    assert_eq!(summary, vec![("Seed".to_string(), 12, true), ("Feed".to_string(), 0, true)]);
}

#[test]
fn restore_accepts_reachable_state() {
    let mut s = AppState::new();
    let a = s.create_agrovet(agrovet_payload("A", "1", "a@b.c"), 0).ok().unwrap();
    let p = s.create_product(product_payload(1, 4, 1)).ok().unwrap();
    let o = s
        .create_order(CreateOrderPayload { product_id: 2, customer_name: "J".to_string(), quantity: 1 }, 0)
        .ok()
        .unwrap();
    let mut r = AppState::restore(3, vec![a], vec![p], vec![o], vec![]).unwrap();
    assert_eq!(r.id_counter(), 3);
    assert_eq!(r.get_orders_by_agrovet_id(1).ok().unwrap().len(), 1);
    let next = r.create_agrovet(agrovet_payload("B", "2", "b@b.c"), 0).ok().unwrap();
    assert_eq!(next.id, 4);
}

#[test]
fn restore_rejects_inconsistent_parts() {
    let mut s = AppState::new();
    let a = s.create_agrovet(agrovet_payload("A", "1", "a@b.c"), 0).ok().unwrap();
    let b = s.create_agrovet(agrovet_payload("B", "2", "b@b.c"), 0).ok().unwrap();
    let p = s.create_product(product_payload(2, 4, 1)).ok().unwrap();
    let copy = |x: &agrovet_store::records::Agrovet| x.copy();
    assert!(AppState::restore(3, vec![copy(&b), copy(&a)], vec![], vec![], vec![]).is_none());
    assert!(AppState::restore(1, vec![copy(&a), copy(&b)], vec![], vec![], vec![]).is_none());
    assert!(AppState::restore(3, vec![copy(&a)], vec![p.copy()], vec![], vec![]).is_none());
    assert!(AppState::restore(3, vec![copy(&a), copy(&b)], vec![p], vec![], vec![]).is_some());
}

#[test]
fn exhausted_allocator_reports_error() {
    let mut s = AppState::restore(u64::MAX, vec![], vec![], vec![], vec![]).unwrap();
    let r = s.create_agrovet(agrovet_payload("A", "1", "a@b.c"), 0);
    assert!(matches!(r, Err(Message::Error(_))));
    assert_eq!(s.id_counter(), u64::MAX);
    assert!(matches!(s.list_all_agrovets(), Err(Message::NotFound(_))));
}
