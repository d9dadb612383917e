use petstore_load::executor::{dry_run_outcome, request_outcome, TransportOutcome};
use petstore_load::scenario::{
    adoption_url, cart_url, cart_url_from_root, checkout_of, cleanup_url, pet_type_str,
    select_pet_id, Payload, ScenarioChoices, ScenarioRun, SCENARIO_STEPS,
};
use petstore_load::types::{Endpoints, HttpMethod};

fn endpoints() -> Endpoints {
    Endpoints::new(
        Some("http://list/api/adoptionlist".to_string()),
        Some("http://search/api/search".to_string()),
        Some("http://pay/api/completeadoption".to_string()),
        Some("http://food/api/foods".to_string()),
    )
}

fn choices() -> ScenarioChoices {
    ScenarioChoices {
        color: 3,
        pet_type: 1,
        food_pet_type: 2,
        max_price: 1,
        search_term: 0,
        food: 4,
        add_quantity: 2,
        update_quantity: 9,
    }
}

#[test]
fn url_builders() {
    assert_eq!(
        adoption_url("http://pay/api/completeadoption", "p7", "kitten", "user1"),
        "http://pay/api/completeadoption?petId=p7&petType=kitten&userId=user1"
    );
    assert_eq!(
        cleanup_url("http://pay/api/completeadoption", "p7"),
        "http://pay/api/adoption/p7"
    );
    assert_eq!(cart_url("http://food/api/foods", "user1", "/items"), "http://food/api/cart/user1/items");
    assert_eq!(cart_url_from_root("http://food", "user1", ""), "http://food/api/cart/user1");
    assert_eq!(pet_type_str(0), "puppy");
    assert_eq!(pet_type_str(2), "bunny");
}

#[test]
fn pet_id_taken_from_listing() {
    let listed = Some(vec!["a".to_string(), "b".to_string(), "c".to_string()]);
    assert_eq!(select_pet_id("puppy", true, &listed, 1, 5), "b");
    assert_eq!(select_pet_id("puppy", true, &listed, 4, 5), "b");
    assert_eq!(select_pet_id("puppy", false, &listed, 1, 5), "puppy_005");
    assert_eq!(select_pet_id("kitten", true, &None, 0, 999), "kitten_999");
    assert_eq!(select_pet_id("bunny", true, &Some(vec![]), 0, 12), "bunny_012");
}

#[test]
fn drawn_choices_in_range() {
    for _ in 0..200 {
        let c = ScenarioChoices::draw();
        assert!(c.color < 5 && c.pet_type < 3 && c.food_pet_type < 3);
        assert!(c.max_price < 4 && c.search_term < 4 && c.food < 6);
        assert!((1..5).contains(&c.add_quantity) && (1..10).contains(&c.update_quantity));
    }
}

#[test]
fn checkout_names_the_user() {
    let o = checkout_of("user5");
    assert_eq!(o.cardholder_name, "User user5");
    assert_eq!(o.card_number, "4111111111111111");
    assert_eq!(o.expiry_month, 12);
    assert_eq!(o.expiry_year, 2025);
    assert_eq!(o.shipping_address.name, "User user5");
    assert_eq!(o.billing_address.city, "Seattle");
    assert_eq!(o.billing_address.zip_code, "98101");
}

#[test]
fn full_plan_with_listed_pets() {
    let ep = endpoints();
    let mut run = ScenarioRun::new("user42".to_string(), &ep, choices());
    let mut plan = Vec::new();
    while let Some(p) = run.next_request() {
        let outcome = dry_run_outcome(p.method, &p.url, &run.user_id);
        let step = run.requests.len();
        let listed = if step == 3 || step == 5 || step == 7 {
            Some(vec![format!("pet{}", step)])
        } else {
            None
        };
        plan.push(p);
        run.record(outcome, listed);
    }
    assert_eq!(plan.len(), SCENARIO_STEPS);
    let urls: Vec<&str> = plan.iter().map(|p| p.url.as_str()).collect();
    assert_eq!(urls[0], "http://search/api/search");
    assert_eq!(urls[1], "http://search/api/search?petcolor=red");
    assert_eq!(urls[2], "http://search/api/search?pettype=kitten");
    assert_eq!(urls[3], "http://search/api/search?pettype=puppy");
    assert_eq!(urls[4], "http://pay/api/completeadoption?petId=pet3&petType=puppy&userId=user42");
    assert_eq!(urls[5], "http://search/api/search?pettype=kitten");
    assert_eq!(urls[6], "http://pay/api/completeadoption?petId=pet5&petType=kitten&userId=user42");
    assert_eq!(urls[7], "http://search/api/search?pettype=bunny");
    assert_eq!(urls[8], "http://pay/api/completeadoption?petId=pet7&petType=bunny&userId=user42");
    assert_eq!(urls[9], "http://list/api/adoptionlist");
    assert_eq!(urls[10], "http://food/api/foods");
    assert_eq!(urls[11], "http://food/api/foods?pettype=bunny&max_price=25");
    assert_eq!(urls[12], "http://food/api/foods?search=royal");
    assert_eq!(urls[13], "http://food/api/foods/F233c473c");
    assert_eq!(urls[14], "http://food/api/cart/user42");
    assert_eq!(urls[15], "http://food/api/cart/user42/items");
    assert_eq!(urls[16], "http://food/api/cart/user42/items/F233c473c");
    assert_eq!(urls[17], "http://food/api/cart/user42/checkout");
    assert_eq!(urls[18], "http://food/api/cart/user42");
    assert_eq!(urls[19], "http://pay/api/adoption/pet3");
    assert_eq!(urls[20], "http://pay/api/adoption/pet5");
    assert_eq!(urls[21], "http://pay/api/adoption/pet7");
    let methods: Vec<HttpMethod> = plan.iter().map(|p| p.method).collect();
    assert_eq!(methods[0], HttpMethod::Get);
    assert_eq!(methods[4], HttpMethod::Post);
    assert_eq!(methods[15], HttpMethod::Post);
    assert_eq!(methods[16], HttpMethod::Put);
    assert_eq!(methods[17], HttpMethod::Post);
    assert_eq!(methods[18], HttpMethod::Delete);
    assert_eq!(methods[21], HttpMethod::Delete);
    match &plan[15].payload {
        Some(Payload::AddItem { food_id, quantity }) => {
            assert_eq!(food_id, "F233c473c");
            assert_eq!(*quantity, 2);
        }
        other => panic!("unexpected payload {:?}", other),
    }
    match &plan[16].payload {
        Some(Payload::SetQuantity { quantity }) => assert_eq!(*quantity, 9),
        other => panic!("unexpected payload {:?}", other),
    }
    match &plan[17].payload {
        Some(Payload::Checkout(o)) => assert_eq!(o.cardholder_name, "User user42"),
        other => panic!("unexpected payload {:?}", other),
    }
    assert!(plan[0].payload.is_none());
    assert_eq!(run.adopted, vec!["pet3".to_string(), "pet5".to_string(), "pet7".to_string()]);
    let result = run.finish(55);
    assert!(result.success);
    assert_eq!(result.requests.len(), SCENARIO_STEPS);
    assert_eq!(result.total_time_ms, 55);
}

#[test]
fn failed_search_falls_back_to_made_up_id() {
    let ep = endpoints();
    let mut run = ScenarioRun::new("user1".to_string(), &ep, choices());
    let mut step = 0;
    while let Some(p) = run.next_request() {
        let outcome = if step == 0 || step == 3 {
            request_outcome(
                p.method,
                &p.url,
                &run.user_id,
                TransportOutcome::Failed { description: "connection refused".to_string(), elapsed_ms: 1 },
            )
        } else {
            dry_run_outcome(p.method, &p.url, &run.user_id)
        };
        let listed = if step == 3 || step == 5 { Some(vec!["only".to_string()]) } else { None };
        run.record(outcome, listed);
        step += 1;
    }
    assert_eq!(run.adopted.len(), 3);
    let first = &run.adopted[0];
    assert!(first.starts_with("puppy_") && first.len() == "puppy_".len() + 3);
    let n: u64 = first["puppy_".len()..].parse().unwrap();
    assert!((1..1000).contains(&n));
    assert_eq!(run.adopted[1], "only");
    assert!(run.adopted[2].starts_with("bunny_"));
    let result = run.finish(1);
    assert!(!result.success);
    assert_eq!(result.requests.len(), SCENARIO_STEPS);
    assert_eq!(result.error.as_deref(), Some("One or more requests failed"));
}

#[test]
fn search_url_ending_in_question_mark() {
    let ep = Endpoints::new(None, Some("http://s/q?".to_string()), None, None);
    let mut run = ScenarioRun::new("u".to_string(), &ep, choices());
    let p = run.next_request().unwrap();
    run.record(dry_run_outcome(p.method, &p.url, "u"), None);
    let p = run.next_request().unwrap();
    assert_eq!(p.url, "http://s/q?petcolor=red");
}
