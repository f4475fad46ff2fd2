use budget_rs::location::Location;

fn place(city: &str, state: &str, country: &str) -> Location {
    let mut l = Location::default();
    l.city(city).state(state).country(country);
    l
}

#[test]
fn default_location_is_empty() {
    let l = Location::default();
    assert_eq!(l.get_city(), "");
    assert_eq!(l.get_state(), "");
    assert_eq!(l.get_country(), "");
    assert_eq!(l.to_string(), "[,,]");
}

#[test]
fn location_setters_chain_and_getters_read_back() {
    let l = Location::default()
        .city("Naperville")
        .state("IL")
        .country("USA")
        .clone();
    assert_eq!(l.get_city(), "Naperville");
    assert_eq!(l.get_state(), "IL");
    assert_eq!(l.get_country(), "USA");
}

#[test]
fn location_setter_changes_one_field() {
    let mut l = place("Naperville", "IL", "USA");
    l.city("Chicago");
    assert_eq!(l, place("Chicago", "IL", "USA"));
    l.state("WI");
    assert_eq!(l, place("Chicago", "WI", "USA"));
    l.country("Canada");
    assert_eq!(l, place("Chicago", "WI", "Canada"));
}

#[test]
fn location_text_is_bracketed() {
    assert_eq!(place("Naperville", "IL", "USA").to_string(), "[Naperville,IL,USA]");
    assert_eq!(place("Zürich", "", "CH").to_string(), "[Zürich,,CH]");
}

#[test]
fn location_clone_is_equal() {
    let l = place("Naperville", "IL", "USA");
    assert_eq!(l.clone(), l);
    assert_ne!(l, place("Naperville", "IL", "US"));
}

#[test]
fn locations_are_ordered_by_city_then_state_then_country() {
    assert!(place("A", "z", "z") < place("B", "a", "a"));
    assert!(place("A", "a", "z") < place("A", "b", "a"));
    assert!(place("A", "a", "a") < place("A", "a", "b"));
    assert!(place("A", "a", "a") <= place("A", "a", "a"));
    assert!(place("B", "", "") > place("A", "z", "z"));
    assert!(place("", "", "") < place("", "", "a"));
    assert!(place("Ab", "", "") > place("A", "z", "z"));
}

#[test]
fn location_order_agrees_with_the_order_of_strings() {
    let words = ["", "A", "AB", "B", "a", "ab", "b", "é", "z", "日本", "\u{10348}", "~"];
    for x in words {
        for y in words {
            let lx = place(x, "s", "c");
            let ly = place(y, "s", "c");
            assert_eq!(lx < ly, x < y);
            assert_eq!(lx == ly, x == y);
            assert_eq!(lx.partial_cmp(&ly), x.partial_cmp(y));
            assert_eq!(lx.cmp(&ly), x.cmp(y));
            let sx = place("c", x, "c");
            let sy = place("c", y, "c");
            assert_eq!(sx.partial_cmp(&sy), x.partial_cmp(y));
            let cx = place("c", "s", x);
            let cy = place("c", "s", y);
            assert_eq!(cx.partial_cmp(&cy), x.partial_cmp(y));
        }
    }
}
