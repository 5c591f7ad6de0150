//! Format templates: counting substitution slots and filling them.
//!
//! A template is read from the left. At each position, `{{` stands for a literal
//! `{`, `}}` for a literal `}`, `{}` is a substitution slot, and any other character
//! stands for itself. The slots take the arguments in order; a slot for which no
//! argument is left renders nothing.
use vstd::prelude::*;
use crate::program::{lit, Atom, Code, Program, lemma_lit_push};
use crate::text::to_chars;

verus! {

/// Whether the characters `a`, `b` stand at positions `i`, `i + 1` of `t`.
pub open spec fn pair_at(t: Seq<char>, i: int, a: char, b: char) -> bool {
    0 <= i && i + 1 < t.len() && t[i] == a && t[i + 1] == b
}

/// The number of substitution slots of `t` from position `i` on.
pub open spec fn slots_from(t: Seq<char>, i: int) -> nat
    decreases t.len() - i,
{
    if i < 0 || i >= t.len() {
        0
    } else if pair_at(t, i, '{', '{') || pair_at(t, i, '}', '}') {
        slots_from(t, i + 2)
    } else if pair_at(t, i, '{', '}') {
        1 + slots_from(t, i + 2)
    } else {
        slots_from(t, i + 1)
    }
}

/// The number of substitution slots of a template.
pub open spec fn slot_count(t: Seq<char>) -> nat {
    slots_from(t, 0)
}

/// The `k`-th argument, or nothing when there is none.
pub open spec fn arg_at(args: Seq<Code>, k: int) -> Code {
    if 0 <= k < args.len() {
        args[k]
    } else {
        Code::empty()
    }
}

/// What `t` from position `i` on renders to, when the next slot takes argument `k`.
pub open spec fn filled_from(t: Seq<char>, i: int, args: Seq<Code>, k: int) -> Code
    decreases t.len() - i,
{
    if i < 0 || i >= t.len() {
        Code::empty()
    } else if pair_at(t, i, '{', '{') {
        seq![Atom::Char('{')] + filled_from(t, i + 2, args, k)
    } else if pair_at(t, i, '}', '}') {
        seq![Atom::Char('}')] + filled_from(t, i + 2, args, k)
    } else if pair_at(t, i, '{', '}') {
        arg_at(args, k) + filled_from(t, i + 2, args, k + 1)
    } else {
        seq![Atom::Char(t[i])] + filled_from(t, i + 1, args, k)
    }
}

/// The template `t` with its slots filled by `args`, in order.
pub open spec fn filled(t: Seq<char>, args: Seq<Code>) -> Code {
    filled_from(t, 0, args, 0)
}

/// The views of a sequence of programs.
pub open spec fn codes(args: Seq<Program>) -> Seq<Code> {
    Seq::new(args.len(), |j: int| args[j]@)
}

/// Counts the substitution slots of a format literal.
pub fn count_slots(literal: &str) -> (n: usize)
    ensures
        n == slot_count(literal@),
{
    let t = to_chars(literal);
    let mut n: usize = 0;
    let mut i: usize = 0;
    while i < t.len()
        invariant
            t@ == literal@,
            i <= t.len(),
            2 * n <= i,
            n + slots_from(t@, i as int) == slot_count(t@),
        decreases t.len() - i,
    {
        let c = t[i];
        if i + 1 < t.len() && (c == '{' || c == '}') {
            let d = t[i + 1];
            if c == d {
                i += 2;
            } else if c == '{' && d == '}' {
                n += 1;
                i += 2;
            } else {
                i += 1;
            }
        } else {
            i += 1;
        }
    }
    n
}

/// Fills the slots of a template with programs, in order.
///
/// The result appends the template's literal text and, in place of the `k`-th slot,
/// what the `k`-th argument appends.
pub fn splice(template: &str, args: &Vec<Program>) -> (out: Program)
    ensures
        out@ == filled(template@, codes(args@)),
{
    let t = to_chars(template);
    let mut out = Program::new();
    let mut pending = String::new();
    let mut k: usize = 0;
    let mut i: usize = 0;
    while i < t.len()
        invariant
            t@ == template@,
            i <= t.len(),
            k <= i,
            out@ + lit(pending@) + filled_from(t@, i as int, codes(args@), k as int) == filled(
                t@,
                codes(args@),
            ),
        decreases t.len() - i,
    {
        let ghost rest_before = filled_from(t@, i as int, codes(args@), k as int);
        let ghost pending_before = pending@;
        let ghost out_before = out@;
        let c = t[i];
        if i + 1 < t.len() && c == '{' && t[i + 1] == '}' {
            out.push_text(pending.as_str());
            pending = String::new();
            if k < args.len() {
                out.push_program(&args[k]);
            }
            proof {
                let rest = filled_from(t@, i + 2, codes(args@), k + 1);
                assert(rest_before == arg_at(codes(args@), k as int) + rest);
                assert(out@ + lit(pending@) + rest =~= out_before + lit(pending_before)
                    + rest_before);
            }
            k += 1;
            i += 2;
        } else if i + 1 < t.len() && (c == '{' || c == '}') && t[i + 1] == c {
            pending.push(c);
            proof {
                lemma_lit_push(pending_before, c);
                let rest = filled_from(t@, i + 2, codes(args@), k as int);
                assert(rest_before == seq![Atom::Char(c)] + rest);
                assert(out@ + lit(pending@) + rest =~= out@ + lit(pending_before) + rest_before);
            }
            i += 2;
        } else {
            pending.push(c);
            proof {
                lemma_lit_push(pending_before, c);
                let rest = filled_from(t@, i + 1, codes(args@), k as int);
                assert(rest_before == seq![Atom::Char(c)] + rest);
                assert(out@ + lit(pending@) + rest =~= out@ + lit(pending_before) + rest_before);
            }
            i += 1;
        }
    }
    out.push_text(pending.as_str());
    assert(out@ =~= filled(t@, codes(args@)));
    out
}

} // verus!
