//! The per-user scenario: a fixed sequence of dependent requests against the
//! pet-store services, driven as a state machine. The caller performs each
//! planned request and hands back its outcome; the scenario decides what
//! comes next from what came back.

use vstd::prelude::*;
use vstd::string::StringExecFns;

use crate::random::random_in;
use crate::text::{padded_decimal, push_padded_decimal, query_url, replace_all, replaced, with_query};
use crate::types::{method_name, Endpoints, HttpMethod, RequestResult, UserScenarioResult};

verus! {

/// Colors searched for; some are deliberately absent from the catalog.
pub open spec fn color_text(i: nat) -> Seq<char> {
    if i == 0 {
        "black"@
    } else if i == 1 {
        "brown"@
    } else if i == 2 {
        "purple"@
    } else if i == 3 {
        "red"@
    } else {
        "blue"@
    }
}

pub const COLOR_COUNT: usize = 5;

fn color_str(i: usize) -> (r: &'static str)
    requires
        i < COLOR_COUNT,
    ensures
        r@ == color_text(i as nat),
{
    if i == 0 {
        "black"
    } else if i == 1 {
        "brown"
    } else if i == 2 {
        "purple"
    } else if i == 3 {
        "red"
    } else {
        "blue"
    }
}

/// The pet types; one pet of each is adopted per scenario.
pub open spec fn pet_type_text(i: nat) -> Seq<char> {
    if i == 0 {
        "puppy"@
    } else if i == 1 {
        "kitten"@
    } else {
        "bunny"@
    }
}

pub const PET_TYPE_COUNT: usize = 3;

pub fn pet_type_str(i: usize) -> (r: &'static str)
    requires
        i < PET_TYPE_COUNT,
    ensures
        r@ == pet_type_text(i as nat),
{
    if i == 0 {
        "puppy"
    } else if i == 1 {
        "kitten"
    } else {
        "bunny"
    }
}

/// Price ceilings used to filter the food catalog.
pub open spec fn max_price_text(i: nat) -> Seq<char> {
    if i == 0 {
        "10"@
    } else if i == 1 {
        "25"@
    } else if i == 2 {
        "50"@
    } else {
        "100"@
    }
}

pub const MAX_PRICE_COUNT: usize = 4;

fn max_price_str(i: usize) -> (r: &'static str)
    requires
        i < MAX_PRICE_COUNT,
    ensures
        r@ == max_price_text(i as nat),
{
    if i == 0 {
        "10"
    } else if i == 1 {
        "25"
    } else if i == 2 {
        "50"
    } else {
        "100"
    }
}

/// Free-text food searches.
pub open spec fn search_term_text(i: nat) -> Seq<char> {
    if i == 0 {
        "royal"@
    } else if i == 1 {
        "premium"@
    } else if i == 2 {
        "organic"@
    } else {
        "chicken"@
    }
}

pub const SEARCH_TERM_COUNT: usize = 4;

fn search_term_str(i: usize) -> (r: &'static str)
    requires
        i < SEARCH_TERM_COUNT,
    ensures
        r@ == search_term_text(i as nat),
{
    if i == 0 {
        "royal"
    } else if i == 1 {
        "premium"
    } else if i == 2 {
        "organic"
    } else {
        "chicken"
    }
}

/// Food ids known to the food catalog.
pub open spec fn food_id_text(i: nat) -> Seq<char> {
    if i == 0 {
        "F046a4eca"@
    } else if i == 1 {
        "Fecd30d31"@
    } else if i == 2 {
        "F36a222eb"@
    } else if i == 3 {
        "Fc7f447a1"@
    } else if i == 4 {
        "F233c473c"@
    } else {
        "Ffb5ef0e2"@
    }
}

pub const FOOD_ID_COUNT: usize = 6;

fn food_id_str(i: usize) -> (r: &'static str)
    requires
        i < FOOD_ID_COUNT,
    ensures
        r@ == food_id_text(i as nat),
{
    if i == 0 {
        "F046a4eca"
    } else if i == 1 {
        "Fecd30d31"
    } else if i == 2 {
        "F36a222eb"
    } else if i == 3 {
        "Fc7f447a1"
    } else if i == 4 {
        "F233c473c"
    } else {
        "Ffb5ef0e2"
    }
}

/// The URL that pays for the adoption of `pet_id`.
pub open spec fn adoption_url_spec(pay: Seq<char>, pet_id: Seq<char>, pet_type: Seq<char>, user: Seq<char>) -> Seq<char> {
    pay + "?petId="@ + pet_id + "&petType="@ + pet_type + "&userId="@ + user
}

pub fn adoption_url(pay: &str, pet_id: &str, pet_type: &str, user: &str) -> (r: String)
    ensures
        r@ == adoption_url_spec(pay@, pet_id@, pet_type@, user@),
{
    let mut u = String::from_str(pay);
    u.append("?petId=");
    u.append(pet_id);
    u.append("&petType=");
    u.append(pet_type);
    u.append("&userId=");
    u.append(user);
    u
}

/// The URL that cancels the adoption of `pet_id`: the payment URL with its
/// completion path swapped for the adoption's own path.
pub open spec fn cleanup_url_spec(pay: Seq<char>, pet_id: Seq<char>) -> Seq<char> {
    replaced(pay, "/api/completeadoption"@, "/api/adoption/"@ + pet_id)
}

pub fn cleanup_url(pay: &str, pet_id: &str) -> (r: String)
    ensures
        r@ == cleanup_url_spec(pay@, pet_id@),
{
    let mut target = String::from_str("/api/adoption/");
    target.append(pet_id);
    proof {
        reveal_strlit("/api/completeadoption");
    }
    replace_all(pay, "/api/completeadoption", target.as_str())
}

/// The food service's root: its URL without the catalog path.
pub open spec fn food_root(petfood: Seq<char>) -> Seq<char> {
    replaced(petfood, "/api/foods"@, ""@)
}

/// The cart of `user` under the food service's root `root`.
pub open spec fn cart_url_spec(root: Seq<char>, user: Seq<char>) -> Seq<char> {
    root + "/api/cart/"@ + user
}

/// `cart_url_spec(root, user) + suffix`, from the food service's root.
pub fn cart_url_from_root(root: &str, user: &str, suffix: &str) -> (r: String)
    ensures
        r@ == cart_url_spec(root@, user@) + suffix@,
{
    let mut u = String::from_str(root);
    u.append("/api/cart/");
    u.append(user);
    u.append(suffix);
    u
}

/// A URL under the cart of `user`, from the food catalog's URL.
pub fn cart_url(petfood: &str, user: &str, suffix: &str) -> (r: String)
    ensures
        r@ == cart_url_spec(food_root(petfood@), user@) + suffix@,
{
    proof {
        reveal_strlit("/api/foods");
    }
    let root = replace_all(petfood, "/api/foods", "");
    cart_url_from_root(root.as_str(), user, suffix)
}

/// The identifier made up for a pet of `pet_type` when none could be
/// taken from a listing.
pub open spec fn fallback_pet_id(pet_type: Seq<char>, n: nat) -> Seq<char> {
    pet_type + "_"@ + padded_decimal(n, 3)
}

/// Whether `id` may stand for the adopted pet of `pet_type`: one of the
/// listed ids when the search succeeded with a non-empty listing, a made-up
/// id otherwise.
pub open spec fn picked_from(id: Seq<char>, pet_type: Seq<char>, search_ok: bool, listed: Option<Vec<String>>) -> bool {
    if search_ok && listed is Some && listed->Some_0@.len() > 0 {
        exists|i: int| 0 <= i < listed->Some_0@.len() && id == (#[trigger] listed->Some_0@[i])@
    } else {
        exists|n: nat| 1 <= n < 1000 && id == #[trigger] fallback_pet_id(pet_type, n)
    }
}

/// Chooses the pet to adopt: entry `pick` of the listing when the search
/// succeeded and listed something, the made-up id numbered `fallback`
/// otherwise.
pub fn select_pet_id(pet_type: &str, search_ok: bool, listed: &Option<Vec<String>>, pick: usize, fallback: u64) -> (r: String)
    ensures
        search_ok && listed is Some && listed->Some_0@.len() > 0 ==> r@ == listed->Some_0@[((pick as int)
            % (listed->Some_0@.len() as int))]@,
        !(search_ok && listed is Some && listed->Some_0@.len() > 0) ==> r@ == fallback_pet_id(
            pet_type@,
            fallback as nat,
        ),
{
    if search_ok {
        if let Some(ids) = listed {
            if ids.len() > 0 {
                return ids[pick % ids.len()].clone();
            }
        }
    }
    let mut id = String::from_str(pet_type);
    id.append("_");
    push_padded_decimal(&mut id, fallback, 3);
    id
}

/// A postal address sent with a checkout.
#[derive(Debug, Clone)]
pub struct Address {
    pub name: String,
    pub street: String,
    pub city: String,
    pub state: String,
    pub zip_code: String,
    pub country: String,
}

/// The name a scenario's orders are placed under.
pub open spec fn customer_name(user: Seq<char>) -> Seq<char> {
    "User "@ + user
}

/// The address every scenario ships and bills to.
pub open spec fn is_address_of(a: Address, user: Seq<char>) -> bool {
    &&& a.name@ == customer_name(user)
    &&& a.street@ == "123 Main St"@
    &&& a.city@ == "Seattle"@
    &&& a.state@ == "WA"@
    &&& a.zip_code@ == "98101"@
    &&& a.country@ == "USA"@
}

pub fn address_of(user: &str) -> (r: Address)
    ensures
        is_address_of(r, user@),
{
    let mut name = String::from_str("User ");
    name.append(user);
    Address {
        name,
        street: String::from_str("123 Main St"),
        city: String::from_str("Seattle"),
        state: String::from_str("WA"),
        zip_code: String::from_str("98101"),
        country: String::from_str("USA"),
    }
}

/// A checkout paid by test credit card.
#[derive(Debug, Clone)]
pub struct CheckoutOrder {
    pub card_number: String,
    pub expiry_month: u8,
    pub expiry_year: u16,
    pub cvv: String,
    pub cardholder_name: String,
    pub shipping_address: Address,
    pub billing_address: Address,
}

pub open spec fn is_checkout_of(o: CheckoutOrder, user: Seq<char>) -> bool {
    &&& o.card_number@ == "4111111111111111"@
    &&& o.expiry_month == 12
    &&& o.expiry_year == 2025
    &&& o.cvv@ == "123"@
    &&& o.cardholder_name@ == customer_name(user)
    &&& is_address_of(o.shipping_address, user)
    &&& is_address_of(o.billing_address, user)
}

pub fn checkout_of(user: &str) -> (r: CheckoutOrder)
    ensures
        is_checkout_of(r, user@),
{
    let mut name = String::from_str("User ");
    name.append(user);
    CheckoutOrder {
        card_number: String::from_str("4111111111111111"),
        expiry_month: 12,
        expiry_year: 2025,
        cvv: String::from_str("123"),
        cardholder_name: name,
        shipping_address: address_of(user),
        billing_address: address_of(user),
    }
}

/// The JSON body of a request, as structured data.
#[derive(Debug, Clone)]
pub enum Payload {
    AddItem { food_id: String, quantity: u64 },
    SetQuantity { quantity: u64 },
    Checkout(CheckoutOrder),
}

/// One request the scenario wants performed.
#[derive(Debug, Clone)]
pub struct PlannedRequest {
    pub method: HttpMethod,
    pub url: String,
    pub payload: Option<Payload>,
}

/// The random choices of one scenario run, as indices into the catalogs
/// above and item quantities.
#[derive(Debug, Clone, Copy, PartialEq, Eq, Structural)]
pub struct ScenarioChoices {
    pub color: usize,
    pub pet_type: usize,
    pub food_pet_type: usize,
    pub max_price: usize,
    pub search_term: usize,
    pub food: usize,
    pub add_quantity: u64,
    pub update_quantity: u64,
}

impl ScenarioChoices {
    pub open spec fn wf(&self) -> bool {
        &&& self.color < COLOR_COUNT
        &&& self.pet_type < PET_TYPE_COUNT
        &&& self.food_pet_type < PET_TYPE_COUNT
        &&& self.max_price < MAX_PRICE_COUNT
        &&& self.search_term < SEARCH_TERM_COUNT
        &&& self.food < FOOD_ID_COUNT
        &&& 1 <= self.add_quantity < 5
        &&& 1 <= self.update_quantity < 10
    }

    /// Draws every choice uniformly from its range.
    pub fn draw() -> (r: ScenarioChoices)
        ensures
            r.wf(),
    {
        ScenarioChoices {
            color: random_in(0, COLOR_COUNT as u64) as usize,
            pet_type: random_in(0, PET_TYPE_COUNT as u64) as usize,
            food_pet_type: random_in(0, PET_TYPE_COUNT as u64) as usize,
            max_price: random_in(0, MAX_PRICE_COUNT as u64) as usize,
            search_term: random_in(0, SEARCH_TERM_COUNT as u64) as usize,
            food: random_in(0, FOOD_ID_COUNT as u64) as usize,
            add_quantity: random_in(1, 5),
            update_quantity: random_in(1, 10),
        }
    }
}

/// Number of requests in a scenario.
pub const SCENARIO_STEPS: usize = 22;

/// Steps 3, 5 and 7 search for one pet type each; the step after each pays
/// for the adoption of a pet found there.
pub open spec fn is_adoption_search(k: nat) -> bool {
    k == 3 || k == 5 || k == 7
}

/// Number of pets chosen for adoption once `k` steps are recorded.
pub open spec fn adopted_after(k: nat) -> nat {
    if k <= 3 {
        0
    } else if k <= 5 {
        1
    } else if k <= 7 {
        2
    } else {
        3
    }
}

pub open spec fn planned_method(k: nat) -> HttpMethod {
    if k == 4 || k == 6 || k == 8 || k == 15 || k == 17 {
        HttpMethod::Post
    } else if k == 16 {
        HttpMethod::Put
    } else if k >= 18 {
        HttpMethod::Delete
    } else {
        HttpMethod::Get
    }
}

/// The URL of step `k`, given the pets chosen so far.
pub open spec fn planned_url(k: nat, user: Seq<char>, ep: Endpoints, ch: ScenarioChoices, adopted: Seq<String>) -> Seq<char> {
    let cart = cart_url_spec(food_root(ep.petfood@), user);
    if k == 0 {
        ep.petsearch@
    } else if k == 1 {
        with_query(ep.petsearch@, "petcolor="@ + color_text(ch.color as nat))
    } else if k == 2 {
        with_query(ep.petsearch@, "pettype="@ + pet_type_text(ch.pet_type as nat))
    } else if k <= 8 {
        let j = ((k - 3) / 2) as nat;
        if k % 2 == 1 {
            with_query(ep.petsearch@, "pettype="@ + pet_type_text(j))
        } else {
            adoption_url_spec(ep.payforadoption@, adopted[j as int]@, pet_type_text(j), user)
        }
    } else if k == 9 {
        ep.petlistadoptions@
    } else if k == 10 {
        ep.petfood@
    } else if k == 11 {
        ep.petfood@ + "?pettype="@ + pet_type_text(ch.food_pet_type as nat) + "&max_price="@
            + max_price_text(ch.max_price as nat)
    } else if k == 12 {
        ep.petfood@ + "?search="@ + search_term_text(ch.search_term as nat)
    } else if k == 13 {
        ep.petfood@ + "/"@ + food_id_text(ch.food as nat)
    } else if k == 14 || k == 18 {
        cart
    } else if k == 15 {
        cart + "/items"@
    } else if k == 16 {
        cart + "/items/"@ + food_id_text(ch.food as nat)
    } else if k == 17 {
        cart + "/checkout"@
    } else {
        cleanup_url_spec(ep.payforadoption@, adopted[k - 19]@)
    }
}

/// The body of step `k`.
pub open spec fn planned_payload(p: Option<Payload>, k: nat, user: Seq<char>, ch: ScenarioChoices) -> bool {
    if k == 15 {
        match p {
            Some(Payload::AddItem { food_id, quantity }) => food_id@ == food_id_text(ch.food as nat)
                && quantity == ch.add_quantity,
            _ => false,
        }
    } else if k == 16 {
        match p {
            Some(Payload::SetQuantity { quantity }) => quantity == ch.update_quantity,
            _ => false,
        }
    } else if k == 17 {
        match p {
            Some(Payload::Checkout(o)) => is_checkout_of(o, user),
            _ => false,
        }
    } else {
        p is None
    }
}

/// Every outcome of `rs` records the planned request of its step, made by
/// `user`, with the pets chosen in `adopted`.
pub open spec fn follows_plan(
    rs: Seq<RequestResult>,
    user: Seq<char>,
    ep: Endpoints,
    ch: ScenarioChoices,
    adopted: Seq<String>,
) -> bool {
    forall|k: int|
        0 <= k < rs.len() ==> {
            &&& (#[trigger] rs[k]).method@ == method_name(planned_method(k as nat))
            &&& rs[k].url@ == planned_url(k as nat, user, ep, ch, adopted)
            &&& rs[k].user_id@ == user
        }
}

/// The URL of an earlier step does not change as more pets are chosen.
proof fn lemma_planned_url_stable(
    k: nat,
    step: nat,
    user: Seq<char>,
    ep: Endpoints,
    ch: ScenarioChoices,
    a1: Seq<String>,
    a2: Seq<String>,
)
    requires
        k < step <= SCENARIO_STEPS,
        a1.len() == adopted_after(step),
        a1.len() <= a2.len(),
        a2.take(a1.len() as int) == a1,
    ensures
        planned_url(k, user, ep, ch, a1) == planned_url(k, user, ep, ch, a2),
{
    if 3 <= k <= 8 {
        let j = ((k - 3) / 2) as int;
        if k % 2 == 0 {
            assert(a2.take(a1.len() as int)[j] == a2[j]);
        }
    } else if k >= 19 {
        assert(a2.take(a1.len() as int)[k - 19] == a2[k - 19]);
    }
}

/// A scenario in progress for one user.
#[derive(Debug)]
pub struct ScenarioRun {
    pub user_id: String,
    pub endpoints: Endpoints,
    pub choices: ScenarioChoices,
    /// Ids of the pets chosen for adoption, one per pet type searched so far.
    pub adopted: Vec<String>,
    /// Outcomes recorded so far, in order.
    pub requests: Vec<RequestResult>,
}

impl ScenarioRun {
    pub open spec fn wf(&self) -> bool {
        &&& self.choices.wf()
        &&& self.requests@.len() <= SCENARIO_STEPS
        &&& self.adopted@.len() == adopted_after(self.requests@.len())
        &&& follows_plan(
            self.requests@,
            self.user_id@,
            self.endpoints,
            self.choices,
            self.adopted@,
        )
    }

    /// Whether `outcome` records the request of the current step.
    pub open spec fn expects(&self, outcome: RequestResult) -> bool {
        &&& outcome.method@ == method_name(planned_method(self.step()))
        &&& outcome.url@ == planned_url(
            self.step(),
            self.user_id@,
            self.endpoints,
            self.choices,
            self.adopted@,
        )
        &&& outcome.user_id@ == self.user_id@
    }

    /// Number of recorded steps.
    pub open spec fn step(&self) -> nat {
        self.requests@.len()
    }

    pub open spec fn is_complete(&self) -> bool {
        self.requests@.len() == SCENARIO_STEPS
    }

    /// A fresh run for `user_id` with the given random choices.
    pub fn new(user_id: String, endpoints: &Endpoints, choices: ScenarioChoices) -> (r: ScenarioRun)
        requires
            choices.wf(),
        ensures
            r.wf(),
            r.step() == 0,
            r.user_id == user_id,
            r.endpoints == *endpoints,
            r.choices == choices,
    {
        ScenarioRun {
            user_id,
            endpoints: endpoints.duplicate(),
            choices,
            adopted: Vec::new(),
            requests: Vec::new(),
        }
    }

    /// The request of the next step; `None` once every step is recorded.
    pub fn next_request(&self) -> (r: Option<PlannedRequest>)
        requires
            self.wf(),
        ensures
            r is None <==> self.is_complete(),
            r matches Some(p) ==> {
                &&& p.method == planned_method(self.step())
                &&& p.url@ == planned_url(
                    self.step(),
                    self.user_id@,
                    self.endpoints,
                    self.choices,
                    self.adopted@,
                )
                &&& planned_payload(p.payload, self.step(), self.user_id@, self.choices)
            },
    {
        let k = self.requests.len();
        let user = self.user_id.as_str();
        let ep = &self.endpoints;
        let ch = &self.choices;
        if k >= SCENARIO_STEPS {
            return None;
        }
        let method = if k == 4 || k == 6 || k == 8 || k == 15 || k == 17 {
            HttpMethod::Post
        } else if k == 16 {
            HttpMethod::Put
        } else if k >= 18 {
            HttpMethod::Delete
        } else {
            HttpMethod::Get
        };
        let mut payload: Option<Payload> = None;
        let url = if k == 0 {
            ep.petsearch.clone()
        } else if k == 1 {
            query_url(ep.petsearch.as_str(), "petcolor=", color_str(ch.color))
        } else if k == 2 {
            query_url(ep.petsearch.as_str(), "pettype=", pet_type_str(ch.pet_type))
        } else if k <= 8 {
            let j = (k - 3) / 2;
            if k % 2 == 1 {
                query_url(ep.petsearch.as_str(), "pettype=", pet_type_str(j))
            } else {
                adoption_url(
                    ep.payforadoption.as_str(),
                    self.adopted[j].as_str(),
                    pet_type_str(j),
                    user,
                )
            }
        } else if k == 9 {
            ep.petlistadoptions.clone()
        } else if k == 10 {
            ep.petfood.clone()
        } else if k == 11 {
            let mut u = ep.petfood.clone();
            u.append("?pettype=");
            u.append(pet_type_str(ch.food_pet_type));
            u.append("&max_price=");
            u.append(max_price_str(ch.max_price));
            u
        } else if k == 12 {
            let mut u = ep.petfood.clone();
            u.append("?search=");
            u.append(search_term_str(ch.search_term));
            u
        } else if k == 13 {
            let mut u = ep.petfood.clone();
            u.append("/");
            u.append(food_id_str(ch.food));
            u
        } else if k == 14 || k == 18 {
            cart_url(ep.petfood.as_str(), user, "")
        } else if k == 15 {
            payload = Some(
                Payload::AddItem {
                    food_id: String::from_str(food_id_str(ch.food)),
                    quantity: ch.add_quantity,
                },
            );
            cart_url(ep.petfood.as_str(), user, "/items")
        } else if k == 16 {
            payload = Some(Payload::SetQuantity { quantity: ch.update_quantity });
            let mut suffix = String::from_str("/items/");
            suffix.append(food_id_str(ch.food));
            cart_url(ep.petfood.as_str(), user, suffix.as_str())
        } else if k == 17 {
            payload = Some(Payload::Checkout(checkout_of(user)));
            cart_url(ep.petfood.as_str(), user, "/checkout")
        } else {
            cleanup_url(ep.payforadoption.as_str(), self.adopted[k - 19].as_str())
        };
        proof {
            reveal_strlit("");
            assert(""@ =~= Seq::<char>::empty());
            assert(cart_url_spec(food_root(ep.petfood@), user@) + ""@ =~= cart_url_spec(
                food_root(ep.petfood@),
                user@,
            ));
        }
        Some(PlannedRequest { method, url, payload })
    }

    /// Whether the current step's response lists pets to adopt from, so that
    /// the caller should read the ids it lists.
    pub fn wants_listing(&self) -> (r: bool)
        ensures
            r == is_adoption_search(self.step()),
    {
        let k = self.requests.len();
        k == 3 || k == 5 || k == 7
    }

    /// Records the outcome of the current step. After an adoption search,
    /// `listed` holds the pet ids its response listed, when it could be read,
    /// and a pet of that type is chosen for adoption.
    pub fn record(&mut self, outcome: RequestResult, listed: Option<Vec<String>>)
        requires
            old(self).wf(),
            !old(self).is_complete(),
            old(self).expects(outcome),
        ensures
            final(self).wf(),
            final(self).user_id == old(self).user_id,
            final(self).endpoints == old(self).endpoints,
            final(self).choices == old(self).choices,
            final(self).requests@ == old(self).requests@.push(outcome),
            final(self).adopted@.take(old(self).adopted@.len() as int) == old(self).adopted@,
            is_adoption_search(old(self).step()) ==> picked_from(
                final(self).adopted@.last()@,
                pet_type_text(((old(self).step() - 3) / 2) as nat),
                outcome.success,
                listed,
            ),
    {
        let k = self.requests.len();
        let search_ok = outcome.success;
        if k == 3 || k == 5 || k == 7 {
            let pet_type = pet_type_str((k - 3) / 2);
            let mut pick: usize = 0;
            let mut fallback: u64 = 1;
            let usable = search_ok && match &listed {
                Some(ids) => ids.len() > 0,
                None => false,
            };
            if usable {
                if let Some(ids) = &listed {
                    pick = random_in(0, ids.len() as u64) as usize;
                }
            } else {
                fallback = random_in(1, 1000);
            }
            let id = select_pet_id(pet_type, search_ok, &listed, pick, fallback);
            proof {
                if usable {
                    let l = listed->Some_0@;
                    assert(pick < l.len());
                    assert(pick as int % l.len() as int == pick as int) by (nonlinear_arith)
                        requires
                            0 <= pick < l.len(),
                    ;
                    assert(id@ == l[pick as int]@);
                } else {
                    assert(id@ == fallback_pet_id(pet_type@, fallback as nat));
                }
            }
            self.adopted.push(id);
        }
        self.requests.push(outcome);
        proof {
            let a1 = old(self).adopted@;
            let a2 = self.adopted@;
            assert(a2.take(a1.len() as int) =~= a1);
            let rs = self.requests@;
            assert forall|j: int| 0 <= j < rs.len() implies {
                &&& (#[trigger] rs[j]).method@ == method_name(planned_method(j as nat))
                &&& rs[j].url@ == planned_url(j as nat, self.user_id@, self.endpoints, self.choices, a2)
                &&& rs[j].user_id@ == self.user_id@
            } by {
                if j < k {
                    assert(rs[j] == old(self).requests@[j]);
                    lemma_planned_url_stable(
                        j as nat,
                        k as nat,
                        self.user_id@,
                        self.endpoints,
                        self.choices,
                        a1,
                        a2,
                    );
                } else {
                    assert(rs[j] == outcome);
                    if !(k == 3 || k == 5 || k == 7) {
                        assert(a2 =~= a1);
                    }
                }
            }
        }
    }

    /// The result of the completed scenario, which took `total_time_ms`.
    pub fn finish(self, total_time_ms: u64) -> (r: UserScenarioResult)
        requires
            self.wf(),
            self.is_complete(),
        ensures
            r.wf(),
            r.user_id == self.user_id,
            r.requests@ == self.requests@,
            r.total_time_ms == total_time_ms,
    {
        UserScenarioResult::from_requests(self.user_id, self.requests, total_time_ms)
    }
}

} // verus!
