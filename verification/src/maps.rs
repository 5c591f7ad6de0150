//! The rendering capabilities of maps and sets.
//!
//! A map is rendered between braces, each entry as the key, `": "` and the value;
//! a set between braces, each element as it is. The entries come in the order in
//! which the collection hands them out, and the list is cut short like that of a
//! sequence: the entries are rendered one by one, and none after the first that
//! does not fit.
//!
//! The iterators of these collections have a contract only for keys that are known
//! to hash and compare as the collection needs it. A capability for every key type
//! cannot ask for that, so the references to the entries are collected by the
//! standard library, and the contracts here say what holds of them.
use vstd::prelude::*;
use std::collections::{BTreeMap, BTreeSet, HashMap, HashSet};
use vstd::std_specs::btree::{increasing_seq, key_obeys_cmp_spec};
use vstd::std_specs::hash::obeys_key_model;
use crate::containers::{count, debug_list, debug_map, debugs_entries, debugs_list, display_list,
    display_map, displays_entries, displays_list};
use crate::runtime::{default_limit, PyDebug, PyDisplay, ELLIPSIS_CHAR_N};

verus! {

/// Whether `pairs` are the entries of the map `m`, each of them once.
pub open spec fn entries_of<K, V>(pairs: Seq<(&K, &V)>, m: Map<K, V>) -> bool {
    &&& forall|i: int|
        0 <= i < pairs.len() ==> m.contains_key(*(#[trigger] pairs[i]).0) && m[*pairs[i].0]
            == *pairs[i].1
    &&& forall|i: int, j: int|
        0 <= i < j < pairs.len() ==> *(#[trigger] pairs[i]).0 != *(#[trigger] pairs[j]).0
    &&& forall|k: K| #[trigger] m.contains_key(k) ==> exists|i: int|
        0 <= i < pairs.len() && *(#[trigger] pairs[i]).0 == k
}

/// Whether `elements` are the elements of the set `s`, each of them once.
pub open spec fn elements_of<T>(elements: Seq<&T>, s: Set<T>) -> bool {
    &&& forall|i: int| 0 <= i < elements.len() ==> s.contains(*(#[trigger] elements[i]))
    &&& forall|i: int, j: int|
        0 <= i < j < elements.len() ==> *(#[trigger] elements[i]) != *(#[trigger] elements[j])
    &&& forall|x: T| #[trigger] s.contains(x) ==> exists|i: int|
        0 <= i < elements.len() && *(#[trigger] elements[i]) == x
}

/// The keys of a sequence of entries.
pub open spec fn keys_of<K, V>(pairs: Seq<(&K, &V)>) -> Seq<K> {
    Seq::new(pairs.len(), |i: int| *pairs[i].0)
}

/// The elements that a sequence of references points to.
pub open spec fn pointees<T>(elements: Seq<&T>) -> Seq<T> {
    Seq::new(elements.len(), |i: int| *elements[i])
}

/// `Vec::from_iter` on a borrowed hash map: its entries, in the order in which the
/// map hands them out, which is not fixed. There are as many as the map has; where
/// the keys hash and compare as the map needs it, they are the entries of the map,
/// each of them once.
#[verifier::external_body]
fn hash_map_entries<'a, K, V>(m: &'a HashMap<K, V>) -> (entries: Vec<(&'a K, &'a V)>)
    ensures
        entries@.len() == m.len(),
        obeys_key_model::<K>() ==> entries_of(entries@, m@),
{
    Vec::from_iter(m)
}

/// `Vec::from_iter` on a borrowed hash set: its elements, in the order in which the
/// set hands them out, which is not fixed. There are as many as the set has; where
/// the elements hash and compare as the set needs it, they are the elements of the
/// set, each of them once.
#[verifier::external_body]
fn hash_set_items<'a, T>(s: &'a HashSet<T>) -> (items: Vec<&'a T>)
    ensures
        items@.len() == s.len(),
        obeys_key_model::<T>() ==> elements_of(items@, s@),
{
    Vec::from_iter(s)
}

/// `Vec::from_iter` on a borrowed ordered map: its entries, in the order in which
/// the map hands them out. There are as many as the map has; where the keys
/// compare as the map needs it, they are the entries of the map, each of them once,
/// in the rising order of their keys.
#[verifier::external_body]
fn btree_map_entries<'a, K, V>(m: &'a BTreeMap<K, V>) -> (entries: Vec<(&'a K, &'a V)>)
    ensures
        entries@.len() == m.len(),
        key_obeys_cmp_spec::<K>() ==> entries_of(entries@, m@) && increasing_seq(
            keys_of(entries@),
        ),
{
    Vec::from_iter(m)
}

/// `Vec::from_iter` on a borrowed ordered set: its elements, in the order in which
/// the set hands them out. There are as many as the set has; where the elements
/// compare as the set needs it, they are the elements of the set, each of them
/// once, in rising order.
#[verifier::external_body]
fn btree_set_items<'a, T>(s: &'a BTreeSet<T>) -> (items: Vec<&'a T>)
    ensures
        items@.len() == s.len(),
        key_obeys_cmp_spec::<T>() ==> elements_of(items@, s@) && increasing_seq(
            pointees(items@),
        ),
{
    Vec::from_iter(s)
}

impl<K: PyDebug, V: PyDebug> PyDebug for HashMap<K, V> {
    open spec fn debugs(&self, text: Seq<char>) -> bool {
        exists|pairs: Seq<(&K, &V)>, rendered: nat|
            pairs.len() == self.len() && (obeys_key_model::<K>() ==> entries_of(pairs, self@))
                && debugs_entries(pairs, default_limit(), text, rendered)
    }

    fn fmt_debug(&self) -> (text: String) {
        let pairs = hash_map_entries(self);
        let (text, rendered) = debug_map(&pairs, ELLIPSIS_CHAR_N);
        assert(pairs@.len() == self.len() && (obeys_key_model::<K>() ==> entries_of(pairs@, self@))
            && debugs_entries(pairs@, default_limit(), text@, count(rendered)));
        text
    }
}

impl<K: PyDisplay, V: PyDisplay> PyDisplay for HashMap<K, V> {
    open spec fn displays(&self, text: Seq<char>) -> bool {
        exists|pairs: Seq<(&K, &V)>, rendered: nat|
            pairs.len() == self.len() && (obeys_key_model::<K>() ==> entries_of(pairs, self@))
                && displays_entries(pairs, default_limit(), text, rendered)
    }

    fn fmt_display(&self) -> (text: String) {
        let pairs = hash_map_entries(self);
        let (text, rendered) = display_map(&pairs, ELLIPSIS_CHAR_N);
        assert(pairs@.len() == self.len() && (obeys_key_model::<K>() ==> entries_of(pairs@, self@))
            && displays_entries(pairs@, default_limit(), text@, count(rendered)));
        text
    }
}

impl<K: PyDebug, V: PyDebug> PyDebug for BTreeMap<K, V> {
    open spec fn debugs(&self, text: Seq<char>) -> bool {
        exists|pairs: Seq<(&K, &V)>, rendered: nat|
            pairs.len() == self.len() && (key_obeys_cmp_spec::<K>() ==> entries_of(pairs, self@) && increasing_seq(keys_of(pairs)))
                && debugs_entries(pairs, default_limit(), text, rendered)
    }

    fn fmt_debug(&self) -> (text: String) {
        let pairs = btree_map_entries(self);
        let (text, rendered) = debug_map(&pairs, ELLIPSIS_CHAR_N);
        assert(pairs@.len() == self.len() && (key_obeys_cmp_spec::<K>() ==> entries_of(pairs@, self@) && increasing_seq(keys_of(pairs@)))
            && debugs_entries(pairs@, default_limit(), text@, count(rendered)));
        text
    }
}

impl<K: PyDisplay, V: PyDisplay> PyDisplay for BTreeMap<K, V> {
    open spec fn displays(&self, text: Seq<char>) -> bool {
        exists|pairs: Seq<(&K, &V)>, rendered: nat|
            pairs.len() == self.len() && (key_obeys_cmp_spec::<K>() ==> entries_of(pairs, self@) && increasing_seq(keys_of(pairs)))
                && displays_entries(pairs, default_limit(), text, rendered)
    }

    fn fmt_display(&self) -> (text: String) {
        let pairs = btree_map_entries(self);
        let (text, rendered) = display_map(&pairs, ELLIPSIS_CHAR_N);
        assert(pairs@.len() == self.len() && (key_obeys_cmp_spec::<K>() ==> entries_of(pairs@, self@) && increasing_seq(keys_of(pairs@)))
            && displays_entries(pairs@, default_limit(), text@, count(rendered)));
        text
    }
}

impl<T: PyDebug> PyDebug for HashSet<T> {
    open spec fn debugs(&self, text: Seq<char>) -> bool {
        exists|elements: Seq<&T>, rendered: nat|
            elements.len() == self.len() && (obeys_key_model::<T>() ==> elements_of(elements, self@))
                && debugs_list(elements, '{', '}', default_limit(), text, rendered)
    }

    fn fmt_debug(&self) -> (text: String) {
        let elements = hash_set_items(self);
        let (text, rendered) = debug_list(elements.as_slice(), '{', '}', ELLIPSIS_CHAR_N);
        assert(elements@.len() == self.len() && (obeys_key_model::<T>() ==> elements_of(elements@, self@))
            && debugs_list(elements@, '{', '}', default_limit(), text@, count(rendered)));
        text
    }
}

impl<T: PyDisplay> PyDisplay for HashSet<T> {
    open spec fn displays(&self, text: Seq<char>) -> bool {
        exists|elements: Seq<&T>, rendered: nat|
            elements.len() == self.len() && (obeys_key_model::<T>() ==> elements_of(elements, self@))
                && displays_list(elements, '{', '}', default_limit(), text, rendered)
    }

    fn fmt_display(&self) -> (text: String) {
        let elements = hash_set_items(self);
        let (text, rendered) = display_list(elements.as_slice(), '{', '}', ELLIPSIS_CHAR_N);
        assert(elements@.len() == self.len() && (obeys_key_model::<T>() ==> elements_of(elements@, self@))
            && displays_list(elements@, '{', '}', default_limit(), text@, count(rendered)));
        text
    }
}

impl<T: PyDebug> PyDebug for BTreeSet<T> {
    open spec fn debugs(&self, text: Seq<char>) -> bool {
        exists|elements: Seq<&T>, rendered: nat|
            elements.len() == self.len() && (key_obeys_cmp_spec::<T>() ==> elements_of(elements, self@) && increasing_seq(pointees(elements)))
                && debugs_list(elements, '{', '}', default_limit(), text, rendered)
    }

    fn fmt_debug(&self) -> (text: String) {
        let elements = btree_set_items(self);
        let (text, rendered) = debug_list(elements.as_slice(), '{', '}', ELLIPSIS_CHAR_N);
        assert(elements@.len() == self.len() && (key_obeys_cmp_spec::<T>() ==> elements_of(elements@, self@) && increasing_seq(pointees(elements@)))
            && debugs_list(elements@, '{', '}', default_limit(), text@, count(rendered)));
        text
    }
}

impl<T: PyDisplay> PyDisplay for BTreeSet<T> {
    open spec fn displays(&self, text: Seq<char>) -> bool {
        exists|elements: Seq<&T>, rendered: nat|
            elements.len() == self.len() && (key_obeys_cmp_spec::<T>() ==> elements_of(elements, self@) && increasing_seq(pointees(elements)))
                && displays_list(elements, '{', '}', default_limit(), text, rendered)
    }

    fn fmt_display(&self) -> (text: String) {
        let elements = btree_set_items(self);
        let (text, rendered) = display_list(elements.as_slice(), '{', '}', ELLIPSIS_CHAR_N);
        assert(elements@.len() == self.len() && (key_obeys_cmp_spec::<T>() ==> elements_of(elements@, self@) && increasing_seq(pointees(elements@)))
            && displays_list(elements@, '{', '}', default_limit(), text@, count(rendered)));
        text
    }
}

} // verus!
