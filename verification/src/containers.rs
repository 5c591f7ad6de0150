//! The rendering capabilities of optional values, of sequences and of values in
//! cells.
//!
//! An optional value is rendered as what it holds, or as `None`. A sequence is
//! rendered between square brackets, its items separated by `", "`, and is cut
//! short once the items take up more than the allowed length; its elements are
//! rendered one by one, and none after the first that does not fit. A cell is rendered as
//! the value that it holds at that moment. A value behind a lock is rendered as
//! itself where the lock could be taken, and as `None` where it could not.
use vstd::prelude::*;
use std::cell::Cell;
use crate::runtime::{bracketed, complete, default_limit, written, ListWriter, PyDebug, PyDisplay,
    ELLIPSIS_CHAR_N};

verus! {

/// A number of elements as a natural number.
pub open spec fn count(n: usize) -> nat {
    n as nat
}

/// Whether `items` are renderings for debugging of the first elements of `s`, one
/// each.
pub open spec fn debug_each<T: PyDebug>(s: Seq<T>, items: Seq<Seq<char>>) -> bool {
    items.len() <= s.len() && forall|i: int|
        0 <= i < items.len() ==> (#[trigger] s[i]).debugs(items[i])
}

/// Whether `items` are renderings for display of the first elements of `s`, one
/// each.
pub open spec fn display_each<T: PyDisplay>(s: Seq<T>, items: Seq<Seq<char>>) -> bool {
    items.len() <= s.len() && forall|i: int|
        0 <= i < items.len() ==> (#[trigger] s[i]).displays(items[i])
}

/// Whether `text` is a key, `": "` and a value, each rendered for debugging.
pub open spec fn debug_entry<K: PyDebug, V: PyDebug>(k: K, v: V, text: Seq<char>) -> bool {
    exists|a: Seq<char>, b: Seq<char>| k.debugs(a) && v.debugs(b) && text == a + ": "@ + b
}

/// Whether `text` is a key, `": "` and a value, each rendered for display.
pub open spec fn display_entry<K: PyDisplay, V: PyDisplay>(k: K, v: V, text: Seq<char>) -> bool {
    exists|a: Seq<char>, b: Seq<char>| k.displays(a) && v.displays(b) && text == a + ": "@ + b
}

/// Whether `items` are entries rendered for debugging, one for each of the first
/// of `pairs`.
pub open spec fn debug_entries<K: PyDebug, V: PyDebug>(
    pairs: Seq<(&K, &V)>,
    items: Seq<Seq<char>>,
) -> bool {
    items.len() <= pairs.len() && forall|i: int|
        0 <= i < items.len() ==> debug_entry(*pairs[i].0, *pairs[i].1, #[trigger] items[i])
}

/// Whether `items` are entries rendered for display, one for each of the first of
/// `pairs`.
pub open spec fn display_entries<K: PyDisplay, V: PyDisplay>(
    pairs: Seq<(&K, &V)>,
    items: Seq<Seq<char>>,
) -> bool {
    items.len() <= pairs.len() && forall|i: int|
        0 <= i < items.len() ==> display_entry(*pairs[i].0, *pairs[i].1, #[trigger] items[i])
}

/// Whether `text` is the list of the elements of `s` rendered for debugging, and
/// `rendered` the number of elements that were rendered for it.
pub open spec fn debugs_list<T: PyDebug>(
    s: Seq<T>,
    start: char,
    end: char,
    n: nat,
    text: Seq<char>,
    rendered: nat,
) -> bool {
    exists|items: Seq<Seq<char>>|
        items.len() == rendered && debug_each(s, items) && complete(items, s.len(), n) && text
            == bracketed(start, end, items, n)
}

/// Whether `text` is the list of the elements of `s` rendered for display, and
/// `rendered` the number of elements that were rendered for it.
pub open spec fn displays_list<T: PyDisplay>(
    s: Seq<T>,
    start: char,
    end: char,
    n: nat,
    text: Seq<char>,
    rendered: nat,
) -> bool {
    exists|items: Seq<Seq<char>>|
        items.len() == rendered && display_each(s, items) && complete(items, s.len(), n) && text
            == bracketed(start, end, items, n)
}

/// Whether `text` is the list of the entries `pairs` rendered for debugging, and
/// `rendered` the number of entries that were rendered for it.
pub open spec fn debugs_entries<K: PyDebug, V: PyDebug>(
    pairs: Seq<(&K, &V)>,
    n: nat,
    text: Seq<char>,
    rendered: nat,
) -> bool {
    exists|items: Seq<Seq<char>>|
        items.len() == rendered && debug_entries(pairs, items) && complete(
            items,
            pairs.len(),
            n,
        ) && text == bracketed('{', '}', items, n)
}

/// Whether `text` is the list of the entries `pairs` rendered for display, and
/// `rendered` the number of entries that were rendered for it.
pub open spec fn displays_entries<K: PyDisplay, V: PyDisplay>(
    pairs: Seq<(&K, &V)>,
    n: nat,
    text: Seq<char>,
    rendered: nat,
) -> bool {
    exists|items: Seq<Seq<char>>|
        items.len() == rendered && display_entries(pairs, items) && complete(
            items,
            pairs.len(),
            n,
        ) && text == bracketed('{', '}', items, n)
}

/// Renders the elements of a slice for debugging, one by one, between `start` and
/// `end`, and stops at the first element that does not fit into `n` bytes. Returns
/// the text and the number of elements that it rendered.
pub fn debug_list<T: PyDebug>(s: &[T], start: char, end: char, n: usize) -> (r: (String, usize))
    ensures
        debugs_list(s@, start, end, n as nat, r.0@, r.1 as nat),
{
    let mut writer = ListWriter::open(start, n);
    let ghost mut items: Seq<Seq<char>> = Seq::empty();
    let mut i: usize = 0;
    while i < s.len() && !writer.cut
        invariant
            i <= s.len(),
            items.len() == i,
            writer.limit == n,
            writer.holds(start, items),
            debug_each(s@, items),
            writer.cut ==> i >= 1 && !written(items.drop_last(), n as nat).cut,
        decreases s.len() - i,
    {
        let item = s[i].fmt_debug();
        let ghost before = items;
        writer.push(item.as_str());
        proof {
            items = before.push(item@);
            assert(items.drop_last() =~= before);
        }
        i += 1;
    }
    let text = writer.close(end);
    assert(items.len() == i && debug_each(s@, items) && complete(items, s@.len(), n as nat)
        && text@ == bracketed(start, end, items, n as nat));
    (text, i)
}

/// Renders the elements of a slice for display, one by one, between `start` and
/// `end`, and stops at the first element that does not fit into `n` bytes. Returns
/// the text and the number of elements that it rendered.
pub fn display_list<T: PyDisplay>(s: &[T], start: char, end: char, n: usize) -> (r: (
    String,
    usize,
))
    ensures
        displays_list(s@, start, end, n as nat, r.0@, r.1 as nat),
{
    let mut writer = ListWriter::open(start, n);
    let ghost mut items: Seq<Seq<char>> = Seq::empty();
    let mut i: usize = 0;
    while i < s.len() && !writer.cut
        invariant
            i <= s.len(),
            items.len() == i,
            writer.limit == n,
            writer.holds(start, items),
            display_each(s@, items),
            writer.cut ==> i >= 1 && !written(items.drop_last(), n as nat).cut,
        decreases s.len() - i,
    {
        let item = s[i].fmt_display();
        let ghost before = items;
        writer.push(item.as_str());
        proof {
            items = before.push(item@);
            assert(items.drop_last() =~= before);
        }
        i += 1;
    }
    let text = writer.close(end);
    assert(items.len() == i && display_each(s@, items) && complete(items, s@.len(), n as nat)
        && text@ == bracketed(start, end, items, n as nat));
    (text, i)
}

/// Renders entries for debugging, one by one, each as the key, `": "` and the
/// value, between braces, and stops at the first entry that does not fit into `n`
/// bytes. Returns the text and the number of entries that it rendered.
pub fn debug_map<K: PyDebug, V: PyDebug>(pairs: &Vec<(&K, &V)>, n: usize) -> (r: (String, usize))
    ensures
        debugs_entries(pairs@, n as nat, r.0@, r.1 as nat),
{
    let mut writer = ListWriter::open('{', n);
    let ghost mut items: Seq<Seq<char>> = Seq::empty();
    let mut i: usize = 0;
    while i < pairs.len() && !writer.cut
        invariant
            i <= pairs.len(),
            items.len() == i,
            writer.limit == n,
            writer.holds('{', items),
            debug_entries(pairs@, items),
            writer.cut ==> i >= 1 && !written(items.drop_last(), n as nat).cut,
        decreases pairs.len() - i,
    {
        let key = pairs[i].0.fmt_debug();
        let value = pairs[i].1.fmt_debug();
        let mut item = key.clone();
        item.append(": ");
        item.append(value.as_str());
        assert(item@ == key@ + ": "@ + value@);
        let ghost before = items;
        writer.push(item.as_str());
        proof {
            items = before.push(item@);
            assert(items.drop_last() =~= before);
        }
        i += 1;
    }
    let text = writer.close('}');
    assert(items.len() == i && debug_entries(pairs@, items) && complete(
        items,
        pairs@.len(),
        n as nat,
    ) && text@ == bracketed('{', '}', items, n as nat));
    (text, i)
}

/// Renders entries for display, one by one, each as the key, `": "` and the value,
/// between braces, and stops at the first entry that does not fit into `n` bytes.
/// Returns the text and the number of entries that it rendered.
pub fn display_map<K: PyDisplay, V: PyDisplay>(pairs: &Vec<(&K, &V)>, n: usize) -> (r: (
    String,
    usize,
))
    ensures
        displays_entries(pairs@, n as nat, r.0@, r.1 as nat),
{
    let mut writer = ListWriter::open('{', n);
    let ghost mut items: Seq<Seq<char>> = Seq::empty();
    let mut i: usize = 0;
    while i < pairs.len() && !writer.cut
        invariant
            i <= pairs.len(),
            items.len() == i,
            writer.limit == n,
            writer.holds('{', items),
            display_entries(pairs@, items),
            writer.cut ==> i >= 1 && !written(items.drop_last(), n as nat).cut,
        decreases pairs.len() - i,
    {
        let key = pairs[i].0.fmt_display();
        let value = pairs[i].1.fmt_display();
        let mut item = key.clone();
        item.append(": ");
        item.append(value.as_str());
        assert(item@ == key@ + ": "@ + value@);
        let ghost before = items;
        writer.push(item.as_str());
        proof {
            items = before.push(item@);
            assert(items.drop_last() =~= before);
        }
        i += 1;
    }
    let text = writer.close('}');
    assert(items.len() == i && display_entries(pairs@, items) && complete(
        items,
        pairs@.len(),
        n as nat,
    ) && text@ == bracketed('{', '}', items, n as nat));
    (text, i)
}

impl<T: PyDebug> PyDebug for &T {
    open spec fn debugs(&self, text: Seq<char>) -> bool {
        (**self).debugs(text)
    }

    fn fmt_debug(&self) -> (text: String) {
        (**self).fmt_debug()
    }
}

impl<T: PyDisplay> PyDisplay for &T {
    open spec fn displays(&self, text: Seq<char>) -> bool {
        (**self).displays(text)
    }

    fn fmt_display(&self) -> (text: String) {
        (**self).fmt_display()
    }
}

/// A cell of the standard library. What it holds can change behind a shared
/// reference, so nothing is known of it.
#[verifier::external_type_specification]
#[verifier::external_body]
#[verifier::reject_recursive_types(T)]
pub struct ExCell<T: ?Sized>(Cell<T>);

/// `Cell::get`: a copy of the value that the cell holds when it is called.
#[verifier::external_body]
fn cell_value<T: Copy>(cell: &Cell<T>) -> T {
    cell.get()
}

/// Renders for debugging a value behind a lock: `held` is the value if the lock
/// could be taken, and nothing if it could not.
pub fn fmt_debug_guarded<T: PyDebug>(held: Option<&T>) -> (text: String)
    ensures
        match held {
            Some(value) => value.debugs(text@),
            None => text@ == "None"@,
        },
{
    match held {
        Some(value) => value.fmt_debug(),
        None => "None".to_owned(),
    }
}

/// Renders for display a value behind a lock: `held` is the value if the lock
/// could be taken, and nothing if it could not.
pub fn fmt_display_guarded<T: PyDisplay>(held: Option<&T>) -> (text: String)
    ensures
        match held {
            Some(value) => value.displays(text@),
            None => text@ == "None"@,
        },
{
    match held {
        Some(value) => value.fmt_display(),
        None => "None".to_owned(),
    }
}

impl<T: PyDebug + Copy> PyDebug for Cell<T> {
    open spec fn debugs(&self, text: Seq<char>) -> bool {
        exists|value: T| value.debugs(text)
    }

    fn fmt_debug(&self) -> (text: String) {
        cell_value(self).fmt_debug()
    }
}

impl<T: PyDisplay + Copy> PyDisplay for Cell<T> {
    open spec fn displays(&self, text: Seq<char>) -> bool {
        exists|value: T| value.displays(text)
    }

    fn fmt_display(&self) -> (text: String) {
        cell_value(self).fmt_display()
    }
}

impl<T: PyDebug> PyDebug for Option<T> {
    open spec fn debugs(&self, text: Seq<char>) -> bool {
        match self {
            Some(x) => x.debugs(text),
            None => text == "None"@,
        }
    }

    fn fmt_debug(&self) -> (text: String) {
        match self {
            Some(x) => x.fmt_debug(),
            None => "None".to_owned(),
        }
    }
}

impl<T: PyDisplay> PyDisplay for Option<T> {
    open spec fn displays(&self, text: Seq<char>) -> bool {
        match self {
            Some(x) => x.displays(text),
            None => text == "None"@,
        }
    }

    fn fmt_display(&self) -> (text: String) {
        match self {
            Some(x) => x.fmt_display(),
            None => "None".to_owned(),
        }
    }
}

impl<T: PyDebug> PyDebug for Vec<T> {
    open spec fn debugs(&self, text: Seq<char>) -> bool {
        exists|rendered: nat| debugs_list(self@, '[', ']', default_limit(), text, rendered)
    }

    fn fmt_debug(&self) -> (text: String) {
        let (text, rendered) = debug_list(self.as_slice(), '[', ']', ELLIPSIS_CHAR_N);
        assert(debugs_list(self@, '[', ']', default_limit(), text@, rendered as nat));
        text
    }
}

impl<T: PyDisplay> PyDisplay for Vec<T> {
    open spec fn displays(&self, text: Seq<char>) -> bool {
        exists|rendered: nat| displays_list(self@, '[', ']', default_limit(), text, rendered)
    }

    fn fmt_display(&self) -> (text: String) {
        let (text, rendered) = display_list(self.as_slice(), '[', ']', ELLIPSIS_CHAR_N);
        assert(displays_list(self@, '[', ']', default_limit(), text@, rendered as nat));
        text
    }
}

impl<T: PyDebug> PyDebug for &[T] {
    open spec fn debugs(&self, text: Seq<char>) -> bool {
        exists|rendered: nat| debugs_list(self@, '[', ']', default_limit(), text, rendered)
    }

    fn fmt_debug(&self) -> (text: String) {
        let (text, rendered) = debug_list(self, '[', ']', ELLIPSIS_CHAR_N);
        assert(debugs_list(self@, '[', ']', default_limit(), text@, rendered as nat));
        text
    }
}

impl<T: PyDisplay> PyDisplay for &[T] {
    open spec fn displays(&self, text: Seq<char>) -> bool {
        exists|rendered: nat| displays_list(self@, '[', ']', default_limit(), text, rendered)
    }

    fn fmt_display(&self) -> (text: String) {
        let (text, rendered) = display_list(self, '[', ']', ELLIPSIS_CHAR_N);
        assert(displays_list(self@, '[', ']', default_limit(), text@, rendered as nat));
        text
    }
}

} // verus!
