//! The lines of the labels and their sizes.
//!
//! A label may hold line breaks. It stays one entry of the menu, but a
//! renderer has to know how much room its lines take, so the menu keeps
//! the size of every line, in bytes of UTF-8.

use crate::item::{labels_of, Item};
use crate::text::chars_of;
use vstd::prelude::*;
use vstd::utf8::encode_utf8;

verus! {

/// The sizes of the lines of one label, in bytes of UTF-8. A label without
/// a line break is one line; every line break starts another, which may be
/// empty.
pub open spec fn line_sizes_of(label: Seq<char>) -> Seq<nat>
    decreases label.len(),
{
    if label.len() == 0 {
        seq![0nat]
    } else {
        let before = line_sizes_of(label.drop_last());
        if label.last() == '\n' {
            before.push(0nat)
        } else {
            before.update(
                before.len() - 1,
                before.last() + encode_utf8(seq![label.last()]).len(),
            )
        }
    }
}

/// The sizes of the lines of all labels, label after label.
pub open spec fn all_line_sizes(labels: Seq<Seq<char>>) -> Seq<nat>
    decreases labels.len(),
{
    if labels.len() == 0 {
        Seq::empty()
    } else {
        all_line_sizes(labels.drop_last()) + line_sizes_of(labels.last())
    }
}

/// A list of sizes, read as natural numbers.
pub open spec fn sizes_of(v: Seq<usize>) -> Seq<nat> {
    Seq::new(v.len(), |i: int| v[i] as nat)
}

/// The encoding of two texts, one after the other, is the encoding of the
/// first followed by that of the second.
pub proof fn lemma_encode_concat(a: Seq<char>, b: Seq<char>)
    ensures
        encode_utf8(a + b) == encode_utf8(a) + encode_utf8(b),
    decreases a.len(),
{
    if a.len() == 0 {
        assert(a + b =~= b);
        assert(encode_utf8(a) + encode_utf8(b) =~= encode_utf8(b));
    } else {
        lemma_encode_concat(a.drop_first(), b);
        assert((a + b).drop_first() =~= a.drop_first() + b);
        assert(encode_utf8(a + b) =~= encode_utf8(a) + encode_utf8(b));
    }
}

/// A label has at least one line, and its last line is no longer than the
/// whole label.
pub proof fn lemma_last_line_fits(label: Seq<char>)
    ensures
        line_sizes_of(label).len() >= 1,
        line_sizes_of(label).last() <= encode_utf8(label).len(),
    decreases label.len(),
{
    if label.len() > 0 {
        let front = label.drop_last();
        lemma_last_line_fits(front);
        lemma_encode_concat(front, seq![label.last()]);
        assert(front + seq![label.last()] =~= label);
    }
}

/// The number of bytes that a character takes in UTF-8.
fn utf8_width(c: char) -> (w: usize)
    ensures
        w == encode_utf8(seq![c]).len(),
        1 <= w <= 4,
{
    proof {
        reveal_with_fuel(encode_utf8, 2);
        assert(seq![c].drop_first() =~= Seq::<char>::empty());
        vstd::utf8::char_is_scalar(c);
    }
    let u: u32 = c as u32;
    if u < 0x80 {
        1
    } else if u < 0x800 {
        2
    } else if u < 0x10000 {
        3
    } else {
        4
    }
}

/// Appends the sizes of the lines of `label` to `sizes`.
fn push_line_sizes(sizes: &mut Vec<usize>, label: &str)
    ensures
        sizes_of(final(sizes)@) == sizes_of(old(sizes)@) + line_sizes_of(label@),
{
    let total: usize = label.as_bytes().len();
    let chars = chars_of(label);
    let ghost text = chars@;
    let mut cur: usize = 0;
    let mut i: usize = 0;
    while i < chars.len()
        invariant
            i <= chars.len(),
            chars@ == text,
            text == label@,
            total == encode_utf8(text).len(),
            sizes_of(sizes@).push(cur as nat) == sizes_of(old(sizes)@) + line_sizes_of(
                text.take(i as int),
            ),
        decreases chars.len() - i,
    {
        let c = chars[i];
        let ghost here = text.take(i as int);
        let ghost next = text.take(i + 1);
        let ghost done = sizes_of(sizes@);
        proof {
            assert(next.drop_last() =~= here);
            assert(next.last() == c);
            lemma_last_line_fits(here);
            lemma_last_line_fits(next);
            lemma_encode_concat(next, text.skip(i + 1));
            assert(next + text.skip(i + 1) =~= text);
            assert(line_sizes_of(here).last() == cur as nat) by {
                assert(done.push(cur as nat).last() == cur as nat);
            }
        }
        if c == '\n' {
            sizes.push(cur);
            cur = 0;
            proof {
                assert(sizes_of(sizes@) =~= done.push(line_sizes_of(here).last()));
                assert(sizes_of(sizes@).push(0nat) =~= sizes_of(old(sizes)@) + line_sizes_of(next));
            }
        } else {
            let w = utf8_width(c);
            let ghost prefix = sizes_of(old(sizes)@);
            let ghost before = line_sizes_of(here);
            let ghost line = done.push(cur as nat);
            proof {
                lemma_encode_concat(here, seq![c]);
                assert(here + seq![c] =~= next);
            }
            cur = cur + w;
            proof {
                assert(line == prefix + before);
                assert(line.len() == prefix.len() + before.len());
                assert(line_sizes_of(next) == before.update(
                    before.len() - 1,
                    before.last() + (w as nat),
                ));
                assert forall|j: int| 0 <= j < done.len() implies (prefix + line_sizes_of(next))[j]
                    == done[j] by {
                    assert((prefix + before)[j] == line[j]);
                }
                assert(done.push(cur as nat) =~= prefix + line_sizes_of(next));
            }
        }
        i += 1;
    }
    proof {
        assert(text.take(chars.len() as int) =~= text);
    }
    let ghost done = sizes_of(sizes@);
    sizes.push(cur);
    assert(sizes_of(sizes@) =~= done.push(cur as nat));
}

/// The sizes of the lines of all labels, label after label, see
/// [`all_line_sizes`].
pub fn line_sizes(items: &Vec<Item>) -> (sizes: Vec<usize>)
    ensures
        sizes_of(sizes@) == all_line_sizes(labels_of(items@)),
{
    let mut sizes: Vec<usize> = Vec::new();
    let ghost labels = labels_of(items@);
    let mut i: usize = 0;
    assert(sizes_of(sizes@) =~= all_line_sizes(labels.take(0)));
    while i < items.len()
        invariant
            i <= items.len(),
            labels == labels_of(items@),
            sizes_of(sizes@) == all_line_sizes(labels.take(i as int)),
        decreases items.len() - i,
    {
        push_line_sizes(&mut sizes, items[i].label.as_str());
        proof {
            assert(labels.take(i + 1).drop_last() =~= labels.take(i as int));
            assert(labels.take(i + 1).last() == items@[i as int].label@);
        }
        i += 1;
    }
    assert(labels.take(items.len() as int) =~= labels);
    sizes
}

} // verus!
