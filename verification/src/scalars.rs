//! The rendering capabilities of the scalar types.
//!
//! A number is rendered in decimal. A truth value is rendered as `true` or `false`.
//! A string and a character are rendered in quotes, with what needs it escaped, for
//! display as for debugging.
use vstd::prelude::*;
use crate::runtime::{PyDebug, PyDisplay};
use crate::text::{decimal, decimal_string};

verus! {

/// The text that the standard debug formatting gives for a string: the string in
/// double quotes, with what needs it escaped.
pub uninterp spec fn quoted(s: Seq<char>) -> Seq<char>;

/// The text that the standard debug formatting gives for a character: the
/// character in single quotes, escaped if it needs it.
pub uninterp spec fn quoted_char(c: char) -> Seq<char>;

/// The standard debug formatting of `str`, through `format!`: the result is the
/// text named `quoted` of the string.
#[verifier::external_body]
pub(crate) fn quote(s: &str) -> (text: String)
    ensures
        text@ == quoted(s@),
{
    format!("{s:?}")
}

/// The standard debug formatting of `char`, through `format!`: the result is the
/// text named `quoted_char` of the character.
#[verifier::external_body]
pub(crate) fn quote_char(c: char) -> (text: String)
    ensures
        text@ == quoted_char(c),
{
    format!("{c:?}")
}

/// An integer in decimal, with `-` in front if it is negative.
pub open spec fn signed_decimal(x: int) -> Seq<char> {
    if x < 0 {
        seq!['-'] + decimal((-x) as nat)
    } else {
        decimal(x as nat)
    }
}

/// The text of a truth value.
pub open spec fn truth(b: bool) -> Seq<char> {
    if b {
        "true"@
    } else {
        "false"@
    }
}

/// Writes an integer in decimal, with `-` in front if it is negative.
pub fn signed_string(x: i128) -> (s: String)
    ensures
        s@ == signed_decimal(x as int),
{
    if x < 0 {
        let magnitude: u128 = ((-(x + 1)) as u128) + 1;
        let mut s = String::new();
        s.push('-');
        let digits = decimal_string(magnitude);
        s.append(digits.as_str());
        assert(s@ =~= signed_decimal(x as int));
        s
    } else {
        decimal_string(x as u128)
    }
}

/// Writes a truth value.
pub fn truth_string(b: bool) -> (s: String)
    ensures
        s@ == truth(b),
{
    if b {
        "true".to_owned()
    } else {
        "false".to_owned()
    }
}

impl PyDebug for u8 {
    open spec fn debugs(&self, text: Seq<char>) -> bool {
        text == decimal(*self as nat)
    }

    fn fmt_debug(&self) -> (text: String) {
        decimal_string(*self as u128)
    }
}

impl PyDisplay for u8 {
    open spec fn displays(&self, text: Seq<char>) -> bool {
        text == decimal(*self as nat)
    }

    fn fmt_display(&self) -> (text: String) {
        decimal_string(*self as u128)
    }
}

impl PyDebug for u16 {
    open spec fn debugs(&self, text: Seq<char>) -> bool {
        text == decimal(*self as nat)
    }

    fn fmt_debug(&self) -> (text: String) {
        decimal_string(*self as u128)
    }
}

impl PyDisplay for u16 {
    open spec fn displays(&self, text: Seq<char>) -> bool {
        text == decimal(*self as nat)
    }

    fn fmt_display(&self) -> (text: String) {
        decimal_string(*self as u128)
    }
}

impl PyDebug for u32 {
    open spec fn debugs(&self, text: Seq<char>) -> bool {
        text == decimal(*self as nat)
    }

    fn fmt_debug(&self) -> (text: String) {
        decimal_string(*self as u128)
    }
}

impl PyDisplay for u32 {
    open spec fn displays(&self, text: Seq<char>) -> bool {
        text == decimal(*self as nat)
    }

    fn fmt_display(&self) -> (text: String) {
        decimal_string(*self as u128)
    }
}

impl PyDebug for u64 {
    open spec fn debugs(&self, text: Seq<char>) -> bool {
        text == decimal(*self as nat)
    }

    fn fmt_debug(&self) -> (text: String) {
        decimal_string(*self as u128)
    }
}

impl PyDisplay for u64 {
    open spec fn displays(&self, text: Seq<char>) -> bool {
        text == decimal(*self as nat)
    }

    fn fmt_display(&self) -> (text: String) {
        decimal_string(*self as u128)
    }
}

impl PyDebug for u128 {
    open spec fn debugs(&self, text: Seq<char>) -> bool {
        text == decimal(*self as nat)
    }

    fn fmt_debug(&self) -> (text: String) {
        decimal_string(*self as u128)
    }
}

impl PyDisplay for u128 {
    open spec fn displays(&self, text: Seq<char>) -> bool {
        text == decimal(*self as nat)
    }

    fn fmt_display(&self) -> (text: String) {
        decimal_string(*self as u128)
    }
}

impl PyDebug for usize {
    open spec fn debugs(&self, text: Seq<char>) -> bool {
        text == decimal(*self as nat)
    }

    fn fmt_debug(&self) -> (text: String) {
        decimal_string(*self as u128)
    }
}

impl PyDisplay for usize {
    open spec fn displays(&self, text: Seq<char>) -> bool {
        text == decimal(*self as nat)
    }

    fn fmt_display(&self) -> (text: String) {
        decimal_string(*self as u128)
    }
}

impl PyDebug for i8 {
    open spec fn debugs(&self, text: Seq<char>) -> bool {
        text == signed_decimal(*self as int)
    }

    fn fmt_debug(&self) -> (text: String) {
        signed_string(*self as i128)
    }
}

impl PyDisplay for i8 {
    open spec fn displays(&self, text: Seq<char>) -> bool {
        text == signed_decimal(*self as int)
    }

    fn fmt_display(&self) -> (text: String) {
        signed_string(*self as i128)
    }
}

impl PyDebug for i16 {
    open spec fn debugs(&self, text: Seq<char>) -> bool {
        text == signed_decimal(*self as int)
    }

    fn fmt_debug(&self) -> (text: String) {
        signed_string(*self as i128)
    }
}

impl PyDisplay for i16 {
    open spec fn displays(&self, text: Seq<char>) -> bool {
        text == signed_decimal(*self as int)
    }

    fn fmt_display(&self) -> (text: String) {
        signed_string(*self as i128)
    }
}

impl PyDebug for i32 {
    open spec fn debugs(&self, text: Seq<char>) -> bool {
        text == signed_decimal(*self as int)
    }

    fn fmt_debug(&self) -> (text: String) {
        signed_string(*self as i128)
    }
}

impl PyDisplay for i32 {
    open spec fn displays(&self, text: Seq<char>) -> bool {
        text == signed_decimal(*self as int)
    }

    fn fmt_display(&self) -> (text: String) {
        signed_string(*self as i128)
    }
}

impl PyDebug for i64 {
    open spec fn debugs(&self, text: Seq<char>) -> bool {
        text == signed_decimal(*self as int)
    }

    fn fmt_debug(&self) -> (text: String) {
        signed_string(*self as i128)
    }
}

impl PyDisplay for i64 {
    open spec fn displays(&self, text: Seq<char>) -> bool {
        text == signed_decimal(*self as int)
    }

    fn fmt_display(&self) -> (text: String) {
        signed_string(*self as i128)
    }
}

impl PyDebug for i128 {
    open spec fn debugs(&self, text: Seq<char>) -> bool {
        text == signed_decimal(*self as int)
    }

    fn fmt_debug(&self) -> (text: String) {
        signed_string(*self as i128)
    }
}

impl PyDisplay for i128 {
    open spec fn displays(&self, text: Seq<char>) -> bool {
        text == signed_decimal(*self as int)
    }

    fn fmt_display(&self) -> (text: String) {
        signed_string(*self as i128)
    }
}

impl PyDebug for bool {
    open spec fn debugs(&self, text: Seq<char>) -> bool {
        text == truth(*self)
    }

    fn fmt_debug(&self) -> (text: String) {
        truth_string(*self)
    }
}

impl PyDebug for String {
    open spec fn debugs(&self, text: Seq<char>) -> bool {
        text == quoted(self@)
    }

    fn fmt_debug(&self) -> (text: String) {
        quote(self.as_str())
    }
}

impl PyDebug for &str {
    open spec fn debugs(&self, text: Seq<char>) -> bool {
        text == quoted(self@)
    }

    fn fmt_debug(&self) -> (text: String) {
        quote(self)
    }
}

impl PyDebug for char {
    open spec fn debugs(&self, text: Seq<char>) -> bool {
        text == quoted_char(*self)
    }

    fn fmt_debug(&self) -> (text: String) {
        quote_char(*self)
    }
}

impl PyDisplay for bool {
    open spec fn displays(&self, text: Seq<char>) -> bool {
        text == truth(*self)
    }

    fn fmt_display(&self) -> (text: String) {
        truth_string(*self)
    }
}

impl PyDisplay for String {
    open spec fn displays(&self, text: Seq<char>) -> bool {
        text == quoted(self@)
    }

    fn fmt_display(&self) -> (text: String) {
        quote(self.as_str())
    }
}

impl PyDisplay for &str {
    open spec fn displays(&self, text: Seq<char>) -> bool {
        text == quoted(self@)
    }

    fn fmt_display(&self) -> (text: String) {
        quote(self)
    }
}

impl PyDisplay for char {
    open spec fn displays(&self, text: Seq<char>) -> bool {
        text == quoted_char(*self)
    }

    fn fmt_display(&self) -> (text: String) {
        quote_char(*self)
    }
}

} // verus!
