//! The rendering capabilities that the emitted code relies on at run time, and the
//! way collections are rendered within a bounded length.
use vstd::prelude::*;
use vstd::utf8::encode_utf8;
use crate::text::texts;

verus! {

/// The number of bytes that the items of a collection may take up before the
/// rendering is cut short with an ellipsis. The rendering may be a few bytes
/// longer than this.
pub const ELLIPSIS_CHAR_N: usize = 100;

/// Types that can be rendered for debugging, as `__repr__` does.
pub trait PyDebug {
    /// Whether `text` is a rendering of the value for debugging. An implementation
    /// that says nothing of it admits every text.
    open spec fn debugs(&self, text: Seq<char>) -> bool {
        true
    }

    /// Renders the value for debugging.
    fn fmt_debug(&self) -> (text: String)
        ensures
            self.debugs(text@),
    ;
}

/// Types that can be rendered for display, as `__str__` does.
pub trait PyDisplay {
    /// Whether `text` is a rendering of the value for display. An implementation
    /// that says nothing of it admits every text.
    open spec fn displays(&self, text: Seq<char>) -> bool {
        true
    }

    /// Renders the value for display.
    fn fmt_display(&self) -> (text: String)
        ensures
            self.displays(text@),
    ;
}

/// The number of bytes that a text takes up.
pub open spec fn byte_len(s: Seq<char>) -> nat {
    encode_utf8(s).len()
}

/// How far a list has been written: the text so far, the bytes that the items
/// written have used up, two more for each, and whether the list has been cut.
pub struct Written {
    pub body: Seq<char>,
    pub used: nat,
    pub cut: bool,
}

/// Whether an item fits into `n` bytes after `used` of them have been used up: the
/// item and two more bytes must find room.
pub open spec fn fits(used: nat, item: Seq<char>, n: nat) -> bool {
    used + 2 + byte_len(item) <= n
}

/// What has been written after the items were offered one by one. Each item comes
/// after `", "`, but for the very first. An item is written if it fits; the first
/// item that does not fit is replaced by `...` and cuts the list, and what is
/// offered after the cut is not written.
pub open spec fn written(items: Seq<Seq<char>>, n: nat) -> Written
    decreases items.len(),
{
    if items.len() == 0 {
        Written { body: Seq::empty(), used: 0, cut: false }
    } else {
        let before = written(items.drop_last(), n);
        let sep = if items.len() == 1 {
            Seq::empty()
        } else {
            ", "@
        };
        if before.cut {
            before
        } else if fits(before.used, items.last(), n) {
            Written {
                body: before.body + sep + items.last(),
                used: before.used + byte_len(items.last()) + 2,
                cut: false,
            }
        } else {
            Written { body: before.body + sep + "..."@, used: before.used, cut: true }
        }
    }
}

/// The rendering of a collection: the items as far as they fit into `n` bytes,
/// between `start` and `end`.
pub open spec fn bracketed(start: char, end: char, items: Seq<Seq<char>>, n: nat) -> Seq<char> {
    seq![start] + written(items, n).body + seq![end]
}

/// The length that is allowed by default, as a number.
pub open spec fn default_limit() -> nat {
    ELLIPSIS_CHAR_N as nat
}

/// Whether `items` are all that has to be rendered of a collection of `total`
/// elements: all of them if the list is not cut, else the elements up to the first
/// that does not fit, that one included and none after it.
pub open spec fn complete(items: Seq<Seq<char>>, total: nat, n: nat) -> bool {
    if written(items, n).cut {
        items.len() >= 1 && !written(items.drop_last(), n).cut
    } else {
        items.len() == total
    }
}

/// The items that were written have used up no more than the bytes allowed, and at
/// least two bytes each as long as the list is not cut.
pub proof fn lemma_written_bounds(items: Seq<Seq<char>>, n: nat)
    ensures
        written(items, n).used <= n,
        !written(items, n).cut ==> 2 * items.len() <= written(items, n).used,
    decreases items.len(),
{
    if items.len() > 0 {
        lemma_written_bounds(items.drop_last(), n);
    }
}

/// No more elements are rendered than half the bytes allowed, and one: each
/// element that fits takes two bytes at least, and the first that does not fit is
/// the last to be rendered.
pub proof fn rendered_count_is_bounded(items: Seq<Seq<char>>, total: nat, n: nat)
    requires
        complete(items, total, n),
    ensures
        items.len() <= n / 2 + 1,
        items.len() <= total || written(items, n).cut,
{
    lemma_written_bounds(items, n);
    if written(items, n).cut {
        lemma_written_bounds(items.drop_last(), n);
    }
}

/// The number of bytes that a string takes up.
pub fn byte_count(s: &str) -> (n: usize)
    ensures
        n == byte_len(s@),
{
    s.as_bytes().len()
}

/// A list that is being written, item by item.
#[derive(Debug)]
pub struct ListWriter {
    /// The opening character and what has been written after it.
    pub out: String,
    /// The bytes that the items written have used up, two more for each.
    pub used: usize,
    /// Whether the list has been cut.
    pub cut: bool,
    /// The number of bytes that are allowed.
    pub limit: usize,
}

impl ListWriter {
    /// Whether the writer is where the opening character `start` and the items
    /// `items`, offered one by one, bring it.
    pub open spec fn holds(&self, start: char, items: Seq<Seq<char>>) -> bool {
        &&& self.out@ == seq![start] + written(items, self.limit as nat).body
        &&& self.used == written(items, self.limit as nat).used
        &&& self.cut == written(items, self.limit as nat).cut
    }

    /// Opens a list with the character `start`.
    pub fn open(start: char, limit: usize) -> (w: ListWriter)
        ensures
            w.limit == limit,
            !w.cut,
            w.holds(start, Seq::empty()),
    {
        let mut out = String::new();
        out.push(start);
        assert(out@ =~= seq![start] + Seq::<char>::empty());
        ListWriter { out, used: 0, cut: false, limit }
    }

    /// Offers the next item. It is written if it fits; if it is the first that does
    /// not fit, `...` is written in its place and the list is cut; after a cut
    /// nothing is written.
    pub fn push(&mut self, item: &str)
        ensures
            final(self).limit == old(self).limit,
            forall|start: char, items: Seq<Seq<char>>| #[trigger]
                old(self).holds(start, items) ==> final(self).holds(start, items.push(item@)),
    {
        let ghost before = *self;
        proof {
            assert forall|start: char, items: Seq<Seq<char>>| #[trigger]
                before.holds(start, items) implies items.push(item@).drop_last() == items by {
                assert(items.push(item@).drop_last() =~= items);
            }
        }
        if self.cut {
            return ;
        }
        let len = byte_count(item);
        let n = self.limit;
        let first = self.used == 0;
        if !first {
            self.out.append(", ");
        }
        if len <= n && 2 <= n - len && self.used <= n - len - 2 {
            self.out.append(item);
            self.used = self.used + len + 2;
        } else {
            self.out.append("...");
            self.cut = true;
        }
        proof {
            assert forall|start: char, items: Seq<Seq<char>>| #[trigger]
                before.holds(start, items) implies self.holds(start, items.push(item@)) by {
                let all = items.push(item@);
                assert(all.drop_last() =~= items);
                assert(all.last() == item@);
                lemma_written_bounds(items, n as nat);
                assert((items.len() == 0) == first) by {
                    if items.len() > 0 {
                        assert(2 * items.len() <= written(items, n as nat).used);
                    }
                }
                let sep = if all.len() == 1 {
                    Seq::<char>::empty()
                } else {
                    ", "@
                };
                if fits(before.used as nat, item@, n as nat) {
                    assert(self.out@ =~= seq![start] + (written(items, n as nat).body + sep
                        + item@));
                } else {
                    assert(self.out@ =~= seq![start] + (written(items, n as nat).body + sep
                        + "..."@));
                }
            }
        }
    }

    /// Closes the list with the character `end` and hands out the text.
    pub fn close(self, end: char) -> (text: String)
        ensures
            forall|start: char, items: Seq<Seq<char>>| #[trigger]
                self.holds(start, items) ==> text@ == bracketed(
                    start,
                    end,
                    items,
                    self.limit as nat,
                ),
    {
        let mut text = self.out;
        text.push(end);
        assert forall|start: char, items: Seq<Seq<char>>| #[trigger]
            self.holds(start, items) implies text@ == bracketed(
            start,
            end,
            items,
            self.limit as nat,
        ) by {
            assert(text@ =~= bracketed(start, end, items, self.limit as nat));
        }
        text
    }
}

/// Renders the items of a collection between `start` and `end`, separated by
/// `", "`, and cuts the list short with `...` once the items written so far and the
/// next one would take up more than `n` bytes.
pub fn do_format(start: char, end: char, items: &Vec<String>, n: usize) -> (out: String)
    ensures
        out@ == bracketed(start, end, texts(items@), n as nat),
{
    let mut writer = ListWriter::open(start, n);
    let mut i: usize = 0;
    while i < items.len()
        invariant
            i <= items.len(),
            writer.limit == n,
            writer.holds(start, texts(items@).take(i as int)),
        decreases items.len() - i,
    {
        assert(texts(items@).take(i + 1) =~= texts(items@).take(i as int).push(items@[i as int]@));
        writer.push(items[i].as_str());
        i += 1;
    }
    assert(texts(items@).take(items@.len() as int) =~= texts(items@));
    writer.close(end)
}

} // verus!
