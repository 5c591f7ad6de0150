use std::cell::Cell;
use std::collections::{BTreeMap, BTreeSet, HashMap, HashSet};
use std::sync::{Arc, Mutex, RwLock};

use pyo3_special_method_derive::containers::{
    debug_list, debug_map, display_list, display_map, fmt_debug_guarded, fmt_display_guarded,
};
use pyo3_special_method_derive::runtime::{
    byte_count, do_format, ListWriter, PyDebug, PyDisplay, ELLIPSIS_CHAR_N,
};
use pyo3_special_method_derive::scalars::{signed_string, truth_string};
use pyo3_special_method_derive::text::{decimal_string, digit_char, same, to_chars};

fn strings(values: &[&str]) -> Vec<String> {
    values.iter().map(|v| v.to_string()).collect()
}

#[test]
fn numbers_render_in_decimal() {
    assert_eq!(0u8.fmt_display(), "0");
    assert_eq!(255u8.fmt_debug(), "255");
    assert_eq!(65535u16.fmt_display(), "65535");
    assert_eq!(299792458u32.fmt_display(), "299792458");
    assert_eq!(u64::MAX.fmt_debug(), "18446744073709551615");
    assert_eq!(u128::MAX.fmt_display(), "340282366920938463463374607431768211455");
    assert_eq!(1000usize.fmt_display(), "1000");
    assert_eq!((-128i8).fmt_display(), "-128");
    assert_eq!(127i8.fmt_debug(), "127");
    assert_eq!((-5i16).fmt_debug(), "-5");
    assert_eq!(i32::MIN.fmt_display(), "-2147483648");
    assert_eq!(i64::MIN.fmt_display(), "-9223372036854775808");
    assert_eq!(i128::MIN.fmt_debug(), "-170141183460469231731687303715884105728");
    assert_eq!(i128::MAX.fmt_debug(), "170141183460469231731687303715884105727");
    assert_eq!(0i128.fmt_display(), "0");
}

#[test]
fn decimal_helpers() {
    assert_eq!(decimal_string(0), "0");
    assert_eq!(decimal_string(9), "9");
    assert_eq!(decimal_string(10), "10");
    assert_eq!(decimal_string(1234567890), "1234567890");
    assert_eq!(signed_string(-1), "-1");
    assert_eq!(signed_string(42), "42");
    assert_eq!(digit_char(0), '0');
    assert_eq!(digit_char(7), '7');
    assert_eq!(digit_char(9), '9');
}

#[test]
fn truth_values() {
    assert_eq!(true.fmt_display(), "true");
    assert_eq!(false.fmt_debug(), "false");
    assert_eq!(truth_string(true), "true");
}

#[test]
fn strings_and_characters_are_quoted() {
    assert_eq!("Hello world".to_string().fmt_display(), "\"Hello world\"");
    assert_eq!("Hello world".to_string().fmt_debug(), "\"Hello world\"");
    assert_eq!("say \"hi\"\n".fmt_display(), "\"say \\\"hi\\\"\\n\"");
    assert_eq!("".fmt_debug(), "\"\"");
    assert_eq!('a'.fmt_display(), "'a'");
    assert_eq!('\''.fmt_debug(), "'\\''");
}

#[test]
fn optional_values() {
    assert_eq!(Some(5u32).fmt_display(), "5");
    assert_eq!(None::<u32>.fmt_display(), "None");
    assert_eq!(Some("x".to_string()).fmt_debug(), "\"x\"");
    assert_eq!(None::<String>.fmt_debug(), "None");
    assert_eq!(Some(Some(false)).fmt_display(), "false");
}

#[test]
fn sequences() {
    assert_eq!(vec![1u8, 2, 3].fmt_display(), "[1, 2, 3]");
    assert_eq!(vec![1u8, 2, 3].fmt_debug(), "[1, 2, 3]");
    assert_eq!(Vec::<u8>::new().fmt_display(), "[]");
    assert_eq!(vec![Some(1i32), None].fmt_debug(), "[1, None]");
    assert_eq!(vec![vec![1u8], vec![]].fmt_display(), "[[1], []]");
    let slice: &[u16] = &[7, 8];
    assert_eq!(slice.fmt_display(), "[7, 8]");
    assert_eq!(slice.fmt_debug(), "[7, 8]");
}

#[test]
fn sequences_are_cut_short() {
    let long = (0..150).collect::<Vec<u32>>().fmt_display();
    assert!(long.starts_with("[0, 1, 2, 3, 4, 5, 6, 7, 8, 9, 10, 11, "));
    assert!(long.ends_with(", 24, 25, 26, ...]"));
    assert_eq!(long.len(), 103);
    assert_eq!(ELLIPSIS_CHAR_N, 100);
}

#[test]
fn do_format_counts_two_bytes_for_each_separator() {
    let items = strings(&["aa", "bb", "cc"]);
    assert_eq!(do_format('[', ']', &items, 100), "[aa, bb, cc]");
    assert_eq!(do_format('{', '}', &items, 12), "{aa, bb, cc}");
    assert_eq!(do_format('{', '}', &items, 11), "{aa, bb, ...}");
    assert_eq!(do_format('(', ')', &items, 8), "(aa, bb, ...)");
    assert_eq!(do_format('(', ')', &items, 7), "(aa, ...)");
    assert_eq!(do_format('(', ')', &items, 4), "(aa, ...)");
    assert_eq!(do_format('(', ')', &items, 3), "(...)");
    assert_eq!(do_format('(', ')', &items, 0), "(...)");
    assert_eq!(do_format('[', ']', &vec![], 0), "[]");
    assert_eq!(do_format('[', ']', &strings(&[""]), 2), "[]");
    assert_eq!(do_format('[', ']', &strings(&[""]), 1), "[...]");
    assert_eq!(do_format('[', ']', &strings(&["x"]), usize::MAX), "[x]");
}

#[test]
fn do_format_counts_bytes_not_characters() {
    assert_eq!(byte_count("é"), 2);
    assert_eq!(byte_count("abc"), 3);
    assert_eq!(byte_count(""), 0);
    let items = strings(&["éé", "z"]);
    assert_eq!(do_format('[', ']', &items, 9), "[éé, z]");
    assert_eq!(do_format('[', ']', &items, 8), "[éé, ...]");
    assert_eq!(do_format('[', ']', &items, 5), "[...]");
}

#[test]
fn maps_and_sets() {
    let mut map = BTreeMap::new();
    map.insert("b".to_string(), 2u8);
    map.insert("a".to_string(), 1u8);
    assert_eq!(map.fmt_display(), "{\"a\": 1, \"b\": 2}");
    assert_eq!(map.fmt_debug(), "{\"a\": 1, \"b\": 2}");
    let set: BTreeSet<u32> = [3, 1, 2].into_iter().collect();
    assert_eq!(set.fmt_display(), "{1, 2, 3}");
    assert_eq!(set.fmt_debug(), "{1, 2, 3}");
    assert_eq!(BTreeSet::<u32>::new().fmt_display(), "{}");
    let mut hashed = HashMap::new();
    hashed.insert(1u8, true);
    assert_eq!(hashed.fmt_display(), "{1: true}");
    assert_eq!(hashed.fmt_debug(), "{1: true}");
    hashed.insert(2u8, false);
    let text = hashed.fmt_display();
    assert!(text == "{1: true, 2: false}" || text == "{2: false, 1: true}");
    let single: HashSet<i64> = [-4].into_iter().collect();
    assert_eq!(single.fmt_display(), "{-4}");
    assert_eq!(single.fmt_debug(), "{-4}");
    let many: HashSet<u32> = (0..1000).collect();
    assert!(many.fmt_display().ends_with(", ...}"));
}

#[test]
fn cells_render_what_they_hold() {
    let cell = Cell::new(5u8);
    assert_eq!(cell.fmt_display(), "5");
    cell.set(6);
    assert_eq!(cell.fmt_debug(), "6");
}

#[test]
fn a_lock_that_cannot_be_taken_renders_as_none() {
    let lock = Arc::new(RwLock::new(7u32));
    assert_eq!(fmt_display_guarded(lock.read().ok().as_deref()), "7");
    assert_eq!(fmt_debug_guarded(lock.read().ok().as_deref()), "7");
    assert_eq!(fmt_display_guarded::<u32>(None), "None");
    assert_eq!(fmt_debug_guarded::<String>(None), "None");
    assert_eq!(lock.fmt_display(), "7");
    assert_eq!(lock.fmt_debug(), "7");
    {
        let reader = lock.read().unwrap();
        assert_eq!(lock.fmt_display(), "7");
        assert_eq!(*reader, 7);
    }
    {
        let mut writer = lock.write().unwrap();
        assert_eq!(lock.fmt_display(), "None");
        assert_eq!(lock.fmt_debug(), "None");
        *writer = 8;
    }
    assert_eq!(lock.fmt_display(), "8");
    let plain = RwLock::new(vec![1u8, 2]);
    assert_eq!(plain.fmt_display(), "[1, 2]");
    assert_eq!(plain.fmt_debug(), "[1, 2]");
    let mutex = Mutex::new("x".to_string());
    assert_eq!(mutex.fmt_display(), "\"x\"");
    assert_eq!(mutex.fmt_debug(), "\"x\"");
    {
        let _held = mutex.lock().unwrap();
        assert_eq!(mutex.fmt_display(), "None");
        assert_eq!(mutex.fmt_debug(), "None");
    }
    let shared = Arc::new(Mutex::new(Some(3i8)));
    assert_eq!(shared.fmt_display(), "3");
    assert_eq!(shared.fmt_debug(), "3");
    let nested = Arc::new(RwLock::new(Arc::new(Mutex::new(false))));
    assert_eq!(nested.fmt_display(), "false");
}

#[test]
fn text_helpers() {
    assert!(same("abc", "abc"));
    assert!(!same("abc", "abd"));
    assert!(!same("abc", "ab"));
    assert_eq!(to_chars("aé{}"), vec!['a', 'é', '{', '}']);
    assert!(to_chars("").is_empty());
}

/// A value that counts how often it is rendered.
struct Counted<'a> {
    text: &'a str,
    rendered: &'a Cell<usize>,
}

impl PyDisplay for Counted<'_> {
    fn fmt_display(&self) -> String {
        self.rendered.set(self.rendered.get() + 1);
        self.text.to_string()
    }
}

impl PyDebug for Counted<'_> {
    fn fmt_debug(&self) -> String {
        self.rendered.set(self.rendered.get() + 1);
        self.text.to_string()
    }
}

#[test]
fn no_element_is_rendered_after_the_first_that_does_not_fit() {
    let rendered = Cell::new(0);
    let elements: Vec<Counted> =
        ["aa", "bb", "cc", "dd", "ee"].iter().map(|text| Counted { text, rendered: &rendered }).collect();
    assert_eq!(display_list(&elements, '[', ']', 8), ("[aa, bb, ...]".to_string(), 3));
    assert_eq!(rendered.get(), 3);
    rendered.set(0);
    assert_eq!(debug_list(&elements, '(', ')', 3), ("(...)".to_string(), 1));
    assert_eq!(rendered.get(), 1);
    rendered.set(0);
    assert_eq!(display_list(&elements, '[', ']', 100), ("[aa, bb, cc, dd, ee]".to_string(), 5));
    assert_eq!(rendered.get(), 5);
    rendered.set(0);
    assert_eq!(display_list(&elements[..0], '[', ']', 0), ("[]".to_string(), 0));
    assert_eq!(rendered.get(), 0);
    let many: Vec<Counted> = (0..1000).map(|_| Counted { text: "", rendered: &rendered }).collect();
    let (text, count) = display_list(&many, '[', ']', 100);
    assert_eq!(count, 51);
    assert_eq!(rendered.get(), 51);
    assert!(text.ends_with(", , ...]"));
    rendered.set(0);
    assert_eq!(many.fmt_display(), text);
    assert_eq!(rendered.get(), 51);
}

#[test]
fn the_count_of_rendered_elements() {
    let numbers: Vec<u32> = (0..150).collect();
    let (text, count) = display_list(&numbers, '[', ']', ELLIPSIS_CHAR_N);
    assert_eq!(text, numbers.fmt_display());
    assert_eq!(count, 28);
    let (text, count) = debug_list(&numbers[..5], '<', '>', ELLIPSIS_CHAR_N);
    assert_eq!((text.as_str(), count), ("<0, 1, 2, 3, 4>", 5));
}

#[test]
fn entries_are_rendered_one_by_one() {
    let rendered = Cell::new(0);
    let keys: Vec<Counted> = ["a", "b", "c"].iter().map(|text| Counted { text, rendered: &rendered }).collect();
    let values = [1u8, 2, 3];
    let pairs: Vec<(&Counted, &u8)> = keys.iter().zip(values.iter()).collect();
    assert_eq!(display_map(&pairs, 100), ("{a: 1, b: 2, c: 3}".to_string(), 3));
    assert_eq!(rendered.get(), 3);
    rendered.set(0);
    assert_eq!(debug_map(&pairs, 12), ("{a: 1, b: 2, ...}".to_string(), 3));
    assert_eq!(display_map(&pairs, 11), ("{a: 1, ...}".to_string(), 2));
    assert_eq!(rendered.get(), 5);
    assert_eq!(display_map(&pairs[..0].to_vec(), 0), ("{}".to_string(), 0));
}

#[test]
fn references_render_as_what_they_point_to() {
    let number = 5u8;
    assert_eq!((&number).fmt_display(), "5");
    assert_eq!((&&number).fmt_debug(), "5");
    assert_eq!(vec![&number, &number].fmt_display(), "[5, 5]");
}

#[test]
fn a_list_is_written_item_by_item() {
    let mut writer = ListWriter::open('[', 10);
    assert!(!writer.cut);
    writer.push("abc");
    writer.push("de");
    assert_eq!((writer.used, writer.cut), (9, false));
    writer.push("");
    assert_eq!((writer.used, writer.cut), (9, true));
    writer.push("x");
    assert_eq!(writer.close(']'), "[abc, de, ...]");
    assert_eq!(ListWriter::open('(', 0).close(')'), "()");
}
