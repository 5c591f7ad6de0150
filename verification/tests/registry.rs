use pyo3_special_method_derive::annotation::Annotation;
use pyo3_special_method_derive::derive::{dict_derive, dir_derive, getattr_derive, repr_derive, str_derive};
use pyo3_special_method_derive::registry::{
    City, CityName, Country, InvalidCityName, MyObjectWrapper, Person, PyAddress, PyCity, Region,
    WrongCity,
};
use pyo3_special_method_derive::runtime::{PyDebug, PyDisplay};
use pyo3_special_method_derive::shape::{FieldSpec, TypeDecl, TypeShape, VariantFields, VariantSpec};

fn house(city: CityName, street: &str, street_number: u32) -> PyAddress {
    PyAddress::House {
        country: "France".to_string(),
        city,
        street: street.to_string(),
        street_number,
    }
}

fn keys(city: &City) -> Vec<String> {
    city.addresses.iter().map(|entry| entry.0.clone()).collect()
}

#[test]
fn city_names_are_read_in_any_case() {
    assert_eq!(CityName::from_str("paris"), Ok(CityName::Paris));
    assert_eq!(CityName::from_str("PARIS"), Ok(CityName::Paris));
    assert_eq!(CityName::from_str("London"), Ok(CityName::London));
    assert_eq!(CityName::from_str("New York"), Ok(CityName::NewYork));
    assert_eq!(CityName::from_str("newyork"), Err(InvalidCityName));
    assert_eq!(CityName::from_str(""), Err(InvalidCityName));
    assert_eq!(CityName::from_lowercase("paris"), Some(CityName::Paris));
    assert_eq!(CityName::from_lowercase("Paris"), None);
    assert_eq!(CityName::default(), CityName::London);
}

#[test]
fn a_new_city_has_no_occupied_address() {
    let city = City::new(CityName::Paris);
    assert_eq!(city.name, CityName::Paris);
    assert!(city.addresses.is_empty());
    assert!(!city.is_address_occupied("Rue-1"));
}

#[test]
fn addresses_are_occupied_and_freed() {
    let mut city = City::new(CityName::Paris);
    city.occupy_address("Rue-1".to_string(), house(CityName::Paris, "Rue", 1));
    city.occupy_address("Quai-2".to_string(), house(CityName::Paris, "Quai", 2));
    assert!(city.is_address_occupied("Rue-1"));
    assert!(city.is_address_occupied("Quai-2"));
    assert!(!city.is_address_occupied("Rue-2"));
    assert_eq!(keys(&city), vec!["Rue-1".to_string(), "Quai-2".to_string()]);
    city.occupy_address("Rue-1".to_string(), house(CityName::Paris, "Rue", 1));
    assert_eq!(keys(&city), vec!["Quai-2".to_string(), "Rue-1".to_string()]);
    city.free_address("Quai-2");
    assert!(!city.is_address_occupied("Quai-2"));
    assert!(city.is_address_occupied("Rue-1"));
    city.free_address("Nowhere-0");
    assert_eq!(keys(&city), vec!["Rue-1".to_string()]);
    assert_eq!(city.name, CityName::Paris);
}

#[test]
fn a_city_is_made_from_its_name() {
    let city = PyCity::new("london".to_string()).unwrap();
    assert_eq!(city.city.name, CityName::London);
    assert!(!city.is_address_occupied("Baker Street-221".to_string()));
    assert_eq!(PyCity::new("Atlantis".to_string()).unwrap_err(), InvalidCityName);
}

#[test]
fn address_key_is_street_and_number() {
    let address = house(CityName::Paris, "Rue de Rivoli", 99);
    assert_eq!(address.get_address_key(), "Rue de Rivoli-99");
    assert_eq!(address.get_city(), CityName::Paris);
    let copy = address.clone();
    assert_eq!(copy.get_address_key(), "Rue de Rivoli-99");
}

#[test]
fn a_person_occupies_an_address() {
    let mut london = PyCity::new("London".to_string()).unwrap();
    let person = Person::new(
        "John Doe".to_string(),
        42,
        "England".to_string(),
        &mut london,
        "Baker Street".to_string(),
        221,
    );
    assert_eq!(person.name, "John Doe");
    assert_eq!(person.get_age(), "42");
    assert!(london.is_address_occupied("Baker Street-221".to_string()));
    assert_eq!(person.get_address().get_address_key(), "Baker Street-221");
    assert_eq!(person.get_address().get_city(), CityName::London);
}

#[test]
fn a_person_moves() {
    let mut london = PyCity::new("London".to_string()).unwrap();
    let mut paris = PyCity::new("Paris".to_string()).unwrap();
    let mut person = Person::new(
        "John Doe".to_string(),
        0,
        "England".to_string(),
        &mut london,
        "Baker Street".to_string(),
        221,
    );
    let moved =
        person.change_address(&mut london, "France".to_string(), &mut paris, "Rue".to_string(), 1);
    assert_eq!(moved, Ok(()));
    assert!(!london.is_address_occupied("Baker Street-221".to_string()));
    assert!(paris.is_address_occupied("Rue-1".to_string()));
    assert_eq!(person.get_address().get_address_key(), "Rue-1");
    assert_eq!(person.get_address().get_city(), CityName::Paris);
    assert_eq!(person.name, "John Doe");
    assert_eq!(person.get_age(), "0");
    match person.get_address() {
        PyAddress::House { country, .. } => assert_eq!(country, "France"),
    }
}

#[test]
fn a_move_from_the_wrong_city_is_refused() {
    let mut london = PyCity::new("London".to_string()).unwrap();
    let mut paris = PyCity::new("Paris".to_string()).unwrap();
    let mut new_york = PyCity::new("new york".to_string()).unwrap();
    let mut person =
        Person::new("Ann".to_string(), 30, "England".to_string(), &mut london, "Strand".to_string(), 1);
    paris.city.occupy_address("Strand-1".to_string(), house(CityName::Paris, "Strand", 1));
    let moved =
        person.change_address(&mut paris, "USA".to_string(), &mut new_york, "Broadway".to_string(), 7);
    assert_eq!(moved, Err(WrongCity));
    assert!(paris.is_address_occupied("Strand-1".to_string()));
    assert!(london.is_address_occupied("Strand-1".to_string()));
    assert!(!new_york.is_address_occupied("Broadway-7".to_string()));
    assert_eq!(person.get_address().get_address_key(), "Strand-1");
    assert_eq!(person.get_address().get_city(), CityName::London);
    let moved = person.change_address_within(&mut paris, "France".to_string(), "Rue".to_string(), 2);
    assert_eq!(moved, Err(WrongCity));
    assert!(!paris.is_address_occupied("Rue-2".to_string()));
    assert_eq!(person.get_address().get_address_key(), "Strand-1");
}

#[test]
fn a_person_moves_within_a_city() {
    let mut london = PyCity::new("London".to_string()).unwrap();
    let mut person =
        Person::new("Ann".to_string(), 30, "England".to_string(), &mut london, "Strand".to_string(), 1);
    london.city.occupy_address("Mall-3".to_string(), house(CityName::London, "Mall", 3));
    let moved =
        person.change_address_within(&mut london, "England".to_string(), "Baker Street".to_string(), 221);
    assert_eq!(moved, Ok(()));
    assert!(!london.is_address_occupied("Strand-1".to_string()));
    assert!(london.is_address_occupied("Baker Street-221".to_string()));
    assert!(london.is_address_occupied("Mall-3".to_string()));
    assert_eq!(keys(&london.city), vec!["Mall-3".to_string(), "Baker Street-221".to_string()]);
    assert_eq!(person.get_address().get_address_key(), "Baker Street-221");
    assert_eq!(person.get_address().get_city(), CityName::London);
    // A move to the address that the person has keeps the key occupied.
    let moved =
        person.change_address_within(&mut london, "England".to_string(), "Baker Street".to_string(), 221);
    assert_eq!(moved, Ok(()));
    assert!(london.is_address_occupied("Baker Street-221".to_string()));
    assert_eq!(keys(&london.city), vec!["Mall-3".to_string(), "Baker Street-221".to_string()]);
    assert_eq!(person.name, "Ann");
    assert_eq!(person.get_age(), "30");
}

#[test]
fn places() {
    let country = Country {
        capital: Some(CityName::Paris),
        regions: vec![CityName::Paris],
        hash: None,
        inhabitants: vec![(CityName::Paris, 2_000_000)],
    };
    let wrapped = [
        MyObjectWrapper::Country(country),
        MyObjectWrapper::City(CityName::NewYork),
        MyObjectWrapper::CountryRegion(Region),
    ];
    assert!(matches!(wrapped[1], MyObjectWrapper::City(CityName::NewYork)));
    assert!(matches!(wrapped[2], MyObjectWrapper::CountryRegion(Region)));
    match &wrapped[0] {
        MyObjectWrapper::Country(c) => assert_eq!(c.capital, Some(CityName::Paris)),
        _ => panic!(),
    }
}

fn person_declaration() -> TypeDecl {
    TypeDecl {
        name: "Person".to_string(),
        annotations: vec![],
        shape: TypeShape::Record {
            fields: vec![
                FieldSpec::named("name", true, vec![]),
                FieldSpec::named("age", false, vec![Annotation::bare("pyo3_fmt_no_skip")]),
                FieldSpec::named("address", false, vec![]),
            ],
        },
    }
}

fn address_declaration() -> TypeDecl {
    TypeDecl {
        name: "PyAddress".to_string(),
        annotations: vec![],
        shape: TypeShape::Union {
            variants: vec![VariantSpec {
                name: "House".to_string(),
                annotations: vec![],
                fields: VariantFields::Named(vec![
                    FieldSpec::named("country", false, vec![]),
                    FieldSpec::named("city", false, vec![]),
                    FieldSpec::named("street", false, vec![]),
                    FieldSpec::named("street_number", false, vec![]),
                ]),
            }],
        },
    }
}

#[test]
fn a_person_is_rendered_with_the_forced_field() {
    let mut london = PyCity::new("London".to_string()).unwrap();
    let person = Person::new(
        "John Doe".to_string(),
        42,
        "England".to_string(),
        &mut london,
        "Baker Street".to_string(),
        221,
    );
    let decl = person_declaration();
    let address = person.get_address().get_address_key();
    let values = vec![person.name.fmt_display(), person.age.fmt_display(), address.fmt_display()];
    assert_eq!(str_derive(&decl).unwrap().render(0, &values), "Person(name=\"John Doe\", age=42)");
    let values = vec![person.name.fmt_debug(), person.age.fmt_debug(), address.fmt_debug()];
    assert_eq!(repr_derive(&decl).unwrap().render(0, &values), "Person(name=\"John Doe\", age=42)");
    assert_eq!(dir_derive(&decl).unwrap().dir(0), vec!["name".to_string(), "age".to_string()]);
    assert_eq!(getattr_derive(&decl).unwrap().getattr(0, "age").unwrap(), 1);
    assert_eq!(
        getattr_derive(&decl).unwrap().getattr(0, "address").unwrap_err().message(),
        "'Person' has no attribute 'address'"
    );
    assert_eq!(dict_derive(&decl).unwrap().dict(0).len(), 2);
}

#[test]
fn an_address_is_rendered_with_all_its_fields() {
    let address = house(CityName::Paris, "Rue", 1);
    let PyAddress::House { country, city, street, street_number } = &address;
    let values = vec![
        country.fmt_display(),
        format!("{city:?}"),
        street.fmt_display(),
        street_number.fmt_display(),
    ];
    assert_eq!(
        str_derive(&address_declaration()).unwrap().render(0, &values),
        "PyAddress.House(country=\"France\", city=Paris, street=\"Rue\", street_number=1)"
    );
    assert_eq!(
        dir_derive(&address_declaration()).unwrap().dir(0),
        vec!["country".to_string(), "city".to_string(), "street".to_string(), "street_number".to_string()]
    );
}

#[test]
fn full_address() {
    let address = house(CityName::NewYork, "Broadway", 7);
    assert_eq!(address.get_full_address(), "France, NYC the best city in the world, Broadway-7");
    assert_eq!(house(CityName::Paris, "Rue", 10).get_full_address(), "France, Paris, Rue-10");
    assert_eq!(CityName::London.text(), "London");
}
