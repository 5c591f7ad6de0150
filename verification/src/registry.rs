//! A small worked domain: cities, the addresses occupied in them, and the people
//! who live there. A city keeps a book of its occupied addresses under their keys;
//! an address names the city it lies in.
use vstd::prelude::*;
use crate::text::{decimal, decimal_string, same};

verus! {

/// The cities that are known.
#[derive(Clone, Copy, Debug, PartialEq, Eq, Hash, Structural)]
pub enum CityName {
    Paris,
    London,
    NewYork,
}

/// An address.
#[derive(Debug)]
pub enum PyAddress {
    House { country: String, city: CityName, street: String, street_number: u32 },
}

/// A city with the addresses that are occupied in it.
#[derive(Debug)]
pub struct City {
    pub name: CityName,
    /// The occupied addresses, each under its key. They are kept as a sequence of
    /// entries, of which the book is the view: of a hash map with strings for keys
    /// the verifier knows nothing, not even that a key is there once it was put in.
    pub addresses: Vec<(String, PyAddress)>,
}

/// A country.
#[derive(Debug)]
pub struct Country {
    pub capital: Option<CityName>,
    pub regions: Vec<CityName>,
    pub hash: Option<u128>,
    pub inhabitants: Vec<(CityName, u32)>,
}

/// A region, about which nothing is recorded.
#[derive(Clone, Copy, Debug, PartialEq, Eq, Structural)]
pub struct Region;

/// One of several kinds of place.
#[derive(Debug)]
pub enum MyObjectWrapper {
    Country(Country),
    City(CityName),
    CountryRegion(Region),
}

/// A city as it is handed around.
#[derive(Debug)]
pub struct PyCity {
    pub city: City,
}

/// A person with a name, an age and an address.
#[derive(Debug)]
pub struct Person {
    pub name: String,
    pub age: u8,
    pub address: PyAddress,
}

/// The name given for a city is not the name of a known city.
#[derive(Clone, Copy, Debug, PartialEq, Eq, Structural)]
pub struct InvalidCityName;

/// The city handed in is not the city in which the person lives.
#[derive(Clone, Copy, Debug, PartialEq, Eq, Structural)]
pub struct WrongCity;

/// The lowercase equivalent of a text.
pub uninterp spec fn lowercase(s: Seq<char>) -> Seq<char>;

/// `str::to_lowercase`: the result is the text named `lowercase` of the argument.
#[verifier::external_body]
fn to_lower(s: &str) -> (lowered: String)
    ensures
        lowered@ == lowercase(s@),
{
    s.to_lowercase()
}

/// The city with this name in lowercase letters.
pub open spec fn city_named(lowered: Seq<char>) -> Option<CityName> {
    if lowered == "paris"@ {
        Some(CityName::Paris)
    } else if lowered == "london"@ {
        Some(CityName::London)
    } else if lowered == "new york"@ {
        Some(CityName::NewYork)
    } else {
        None
    }
}

/// The book of a sequence of entries: each key with the address entered last
/// under it.
pub open spec fn address_book(entries: Seq<(String, PyAddress)>) -> Map<Seq<char>, PyAddress>
    decreases entries.len(),
{
    if entries.len() == 0 {
        Map::empty()
    } else {
        address_book(entries.drop_last()).insert(entries.last().0@, entries.last().1)
    }
}

/// The text under which a city is known.
pub open spec fn city_text(city: CityName) -> Seq<char> {
    match city {
        CityName::Paris => "Paris"@,
        CityName::London => "London"@,
        CityName::NewYork => "NYC the best city in the world"@,
    }
}

/// The key of an address: its street, a hyphen and its number.
pub open spec fn address_key(street: Seq<char>, street_number: u32) -> Seq<char> {
    street + "-"@ + decimal(street_number as nat)
}

impl View for City {
    type V = Map<Seq<char>, PyAddress>;

    open spec fn view(&self) -> Map<Seq<char>, PyAddress> {
        address_book(self.addresses@)
    }
}

/// A key is in the book exactly if some entry has it.
pub proof fn lemma_book_domain(entries: Seq<(String, PyAddress)>, key: Seq<char>)
    ensures
        address_book(entries).dom().contains(key) <==> exists|i: int|
            0 <= i < entries.len() && (#[trigger] entries[i]).0@ == key,
    decreases entries.len(),
{
    if entries.len() > 0 {
        lemma_book_domain(entries.drop_last(), key);
        if exists|i: int| 0 <= i < entries.len() && (#[trigger] entries[i]).0@ == key {
            let i = choose|i: int| 0 <= i < entries.len() && (#[trigger] entries[i]).0@ == key;
            if i < entries.len() - 1 {
                assert(entries.drop_last()[i].0@ == key);
            }
        }
        if exists|i: int|
            0 <= i < entries.drop_last().len() && (#[trigger] entries.drop_last()[i]).0@ == key {
            let i = choose|i: int|
                0 <= i < entries.drop_last().len() && (#[trigger] entries.drop_last()[i]).0@
                    == key;
            assert(entries[i].0@ == key);
        }
    }
}

/// Taking out an entry with the key `key` does not change the rest of the book.
pub proof fn lemma_book_remove(entries: Seq<(String, PyAddress)>, i: int, key: Seq<char>)
    requires
        0 <= i < entries.len(),
        entries[i].0@ == key,
    ensures
        address_book(entries.remove(i)).remove(key) == address_book(entries).remove(key),
    decreases entries.len(),
{
    let n = entries.len() - 1;
    if i == n {
        assert(entries.remove(i) =~= entries.drop_last());
        assert(address_book(entries.drop_last()).insert(key, entries.last().1).remove(key)
            =~= address_book(entries.drop_last()).remove(key));
    } else {
        lemma_book_remove(entries.drop_last(), i, key);
        assert(entries.remove(i).drop_last() =~= entries.drop_last().remove(i));
        assert(entries.remove(i).last() == entries.last());
        let last_key = entries.last().0@;
        let last = entries.last().1;
        assert(address_book(entries.drop_last().remove(i)).insert(last_key, last).remove(key)
            =~= address_book(entries.drop_last()).insert(last_key, last).remove(key)) by {
            assert(address_book(entries.drop_last().remove(i)).remove(key).insert(last_key, last)
                .remove(key) =~= address_book(entries.drop_last().remove(i)).insert(
                last_key,
                last,
            ).remove(key));
            assert(address_book(entries.drop_last()).remove(key).insert(last_key, last).remove(
                key,
            ) =~= address_book(entries.drop_last()).insert(last_key, last).remove(key));
        }
    }
}

impl Default for CityName {
    fn default() -> (c: CityName)
        ensures
            c == CityName::London,
    {
        CityName::London
    }
}

impl Clone for PyAddress {
    fn clone(&self) -> (copy: PyAddress)
        ensures
            copy == *self,
    {
        match self {
            PyAddress::House { country, city, street, street_number } => PyAddress::House {
                country: country.clone(),
                city: *city,
                street: street.clone(),
                street_number: *street_number,
            },
        }
    }
}

impl CityName {
    /// The city whose name, in lowercase letters, is `lowered`.
    pub fn from_lowercase(lowered: &str) -> (r: Option<CityName>)
        ensures
            r == city_named(lowered@),
    {
        if same(lowered, "paris") {
            Some(CityName::Paris)
        } else if same(lowered, "london") {
            Some(CityName::London)
        } else if same(lowered, "new york") {
            Some(CityName::NewYork)
        } else {
            None
        }
    }

    /// The city with the name `s`, in whatever case it is written.
    pub fn from_str(s: &str) -> (r: Result<CityName, InvalidCityName>)
        ensures
            match city_named(lowercase(s@)) {
                Some(c) => r == Ok::<CityName, InvalidCityName>(c),
                None => r is Err,
            },
    {
        let lowered = to_lower(s);
        match CityName::from_lowercase(lowered.as_str()) {
            Some(c) => Ok(c),
            None => Err(InvalidCityName),
        }
    }
}

impl City {
    /// A city in which no address is occupied.
    pub fn new(name: CityName) -> (city: City)
        ensures
            city.name == name,
            city@ == Map::<Seq<char>, PyAddress>::empty(),
    {
        City { name, addresses: Vec::new() }
    }

    /// Whether the address with this key is occupied.
    pub fn is_address_occupied(&self, address_key: &str) -> (occupied: bool)
        ensures
            occupied == self@.dom().contains(address_key@),
    {
        let mut i: usize = 0;
        while i < self.addresses.len()
            invariant
                i <= self.addresses.len(),
                forall|j: int| 0 <= j < i ==> (#[trigger] self.addresses@[j]).0@ != address_key@,
            decreases self.addresses.len() - i,
        {
            if same(self.addresses[i].0.as_str(), address_key) {
                proof {
                    lemma_book_domain(self.addresses@, address_key@);
                }
                return true;
            }
            i += 1;
        }
        proof {
            lemma_book_domain(self.addresses@, address_key@);
        }
        false
    }

    /// Frees the address with this key, if it is occupied.
    pub fn free_address(&mut self, address_key: &str)
        ensures
            final(self).name == old(self).name,
            final(self)@ == old(self)@.remove(address_key@),
    {
        let mut i: usize = 0;
        while i < self.addresses.len()
            invariant
                i <= self.addresses.len(),
                self.name == old(self).name,
                self@.remove(address_key@) == old(self)@.remove(address_key@),
                forall|j: int| 0 <= j < i ==> (#[trigger] self.addresses@[j]).0@ != address_key@,
            decreases self.addresses.len() - i,
        {
            if same(self.addresses[i].0.as_str(), address_key) {
                proof {
                    lemma_book_remove(self.addresses@, i as int, address_key@);
                }
                let _ = self.addresses.remove(i);
            } else {
                i += 1;
            }
        }
        proof {
            lemma_book_domain(self.addresses@, address_key@);
            assert(self@.remove(address_key@) =~= self@);
        }
    }

    /// Occupies the address with this key; an address that was there under the
    /// same key is replaced.
    pub fn occupy_address(&mut self, address_key: String, address: PyAddress)
        ensures
            final(self).name == old(self).name,
            final(self)@ == old(self)@.insert(address_key@, address),
    {
        self.free_address(address_key.as_str());
        let ghost freed = self.addresses@;
        self.addresses.push((address_key, address));
        proof {
            assert(self.addresses@.drop_last() =~= freed);
            assert(old(self)@.remove(address_key@).insert(address_key@, address) =~= old(
                self,
            )@.insert(address_key@, address));
        }
    }
}

impl PyCity {
    /// The city with the given name, with no address occupied.
    pub fn new(name: String) -> (r: Result<PyCity, InvalidCityName>)
        ensures
            match city_named(lowercase(name@)) {
                Some(c) => r matches Ok(p) && p.city.name == c && p.city@ == Map::<
                    Seq<char>,
                    PyAddress,
                >::empty(),
                None => r is Err,
            },
    {
        match CityName::from_str(name.as_str()) {
            Ok(city_name) => Ok(PyCity { city: City::new(city_name) }),
            Err(e) => Err(e),
        }
    }

    /// Whether the address with this key is occupied.
    pub fn is_address_occupied(&self, address_key: String) -> (occupied: bool)
        ensures
            occupied == self.city@.dom().contains(address_key@),
    {
        self.city.is_address_occupied(address_key.as_str())
    }
}

impl PyAddress {
    /// The city in which the address lies.
    pub fn get_city(&self) -> (city: CityName)
        ensures
            city == self->city,
    {
        match self {
            PyAddress::House { city, .. } => *city,
        }
    }

    /// The key of the address: its street, a hyphen and its number.
    pub fn get_address_key(&self) -> (key: String)
        ensures
            key@ == address_key(self->street@, self->street_number),
    {
        match self {
            PyAddress::House { street, street_number, .. } => {
                let mut key = street.clone();
                key.append("-");
                let number = decimal_string(*street_number as u128);
                key.append(number.as_str());
                key
            },
        }
    }
}

impl CityName {
    /// The text under which the city is known.
    pub fn text(&self) -> (s: String)
        ensures
            s@ == city_text(*self),
    {
        match self {
            CityName::Paris => "Paris".to_owned(),
            CityName::London => "London".to_owned(),
            CityName::NewYork => "NYC the best city in the world".to_owned(),
        }
    }
}

impl PyAddress {
    /// The address in full: the country, the city, and the street with its number.
    pub fn get_full_address(&self) -> (text: String)
        ensures
            text@ == self->country@ + ", "@ + city_text(self->city) + ", "@ + address_key(
                self->street@,
                self->street_number,
            ),
    {
        match self {
            PyAddress::House { country, city, .. } => {
                let mut text = country.clone();
                text.append(", ");
                let known_as = city.text();
                text.append(known_as.as_str());
                text.append(", ");
                let key = self.get_address_key();
                text.append(key.as_str());
                assert(text@ =~= self->country@ + ", "@ + city_text(self->city) + ", "@
                    + address_key(self->street@, self->street_number));
                text
            },
        }
    }
}

impl Person {
    /// A person who moves into the given street and number of `city`. The address
    /// is entered into the city's book under its key.
    pub fn new(
        name: String,
        age: u8,
        country: String,
        city: &mut PyCity,
        street: String,
        street_number: u32,
    ) -> (person: Person)
        ensures
            person.name == name,
            person.age == age,
            person.address == (PyAddress::House {
                country,
                city: old(city).city.name,
                street,
                street_number,
            }),
            final(city).city.name == old(city).city.name,
            final(city).city@ == old(city).city@.insert(
                address_key(street@, street_number),
                person.address,
            ),
    {
        let address = PyAddress::House { country, city: city.city.name, street, street_number };
        let key = address.get_address_key();
        city.city.occupy_address(key, address.clone());
        Person { name, age, address }
    }

    /// Moves the person from the address in `old_city` to the given street and
    /// number of `new_city`, which is another city: the old key is freed in the one,
    /// the new address is entered in the other. If `old_city` is not the city of
    /// the person's address, nothing changes and the move is refused.
    pub fn change_address(
        &mut self,
        old_city: &mut PyCity,
        new_country: String,
        new_city: &mut PyCity,
        new_street: String,
        new_street_number: u32,
    ) -> (r: Result<(), WrongCity>)
        ensures
            final(self).name == old(self).name,
            final(self).age == old(self).age,
            final(old_city).city.name == old(old_city).city.name,
            final(new_city).city.name == old(new_city).city.name,
            r is Ok <==> old(old_city).city.name == old(self).address->city,
            r is Ok ==> {
                &&& final(self).address == (PyAddress::House {
                    country: new_country,
                    city: old(new_city).city.name,
                    street: new_street,
                    street_number: new_street_number,
                })
                &&& final(old_city).city@ == old(old_city).city@.remove(
                    address_key(old(self).address->street@, old(self).address->street_number),
                )
                &&& final(new_city).city@ == old(new_city).city@.insert(
                    address_key(new_street@, new_street_number),
                    final(self).address,
                )
            },
            r is Err ==> {
                &&& final(self).address == old(self).address
                &&& final(old_city).city@ == old(old_city).city@
                &&& final(new_city).city@ == old(new_city).city@
            },
    {
        if old_city.city.name != self.address.get_city() {
            return Err(WrongCity);
        }
        let current_key = self.address.get_address_key();
        old_city.city.free_address(current_key.as_str());
        let new_address = PyAddress::House {
            country: new_country,
            city: new_city.city.name,
            street: new_street,
            street_number: new_street_number,
        };
        let new_key = new_address.get_address_key();
        new_city.city.occupy_address(new_key, new_address.clone());
        self.address = new_address;
        Ok(())
    }

    /// Moves the person within `city` to the given street and number: the old key
    /// is freed and the new address is entered, in this order, so that the book of
    /// the city is the old one without the old key and with the new one. If `city`
    /// is not the city of the person's address, nothing changes and the move is
    /// refused.
    pub fn change_address_within(
        &mut self,
        city: &mut PyCity,
        new_country: String,
        new_street: String,
        new_street_number: u32,
    ) -> (r: Result<(), WrongCity>)
        ensures
            final(self).name == old(self).name,
            final(self).age == old(self).age,
            final(city).city.name == old(city).city.name,
            r is Ok <==> old(city).city.name == old(self).address->city,
            r is Ok ==> {
                &&& final(self).address == (PyAddress::House {
                    country: new_country,
                    city: old(city).city.name,
                    street: new_street,
                    street_number: new_street_number,
                })
                &&& final(city).city@ == old(city).city@.remove(
                    address_key(old(self).address->street@, old(self).address->street_number),
                ).insert(address_key(new_street@, new_street_number), final(self).address)
            },
            r is Err ==> {
                &&& final(self).address == old(self).address
                &&& final(city).city@ == old(city).city@
            },
    {
        if city.city.name != self.address.get_city() {
            return Err(WrongCity);
        }
        let current_key = self.address.get_address_key();
        city.city.free_address(current_key.as_str());
        let new_address = PyAddress::House {
            country: new_country,
            city: city.city.name,
            street: new_street,
            street_number: new_street_number,
        };
        let new_key = new_address.get_address_key();
        city.city.occupy_address(new_key, new_address.clone());
        self.address = new_address;
        Ok(())
    }

    /// The person's age in decimal.
    pub fn get_age(&self) -> (text: String)
        ensures
            text@ == decimal(self.age as nat),
    {
        decimal_string(self.age as u128)
    }

    /// The person's address.
    pub fn get_address(&self) -> (address: PyAddress)
        ensures
            address == self.address,
    {
        self.address.clone()
    }
}

} // verus!
