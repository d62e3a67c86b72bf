//! Laws of texts: what splitting, joining, stripping and ordering do, stated on
//! characters.

use crate::text::{join, same_text, split, strip_prefix, text_not_after};
use vstd::prelude::*;

verus! {

/// The pieces, one after the other, with a separator between each two.
pub open spec fn interleaved(pieces: Seq<Seq<char>>, separator: Seq<char>) -> Seq<char>
    decreases pieces.len(),
{
    if pieces.len() == 0 {
        Seq::empty()
    } else if pieces.len() == 1 {
        pieces[0]
    } else {
        interleaved(pieces.drop_last(), separator) + separator + pieces.last()
    }
}

/// Whether every place of `a` up to `k` is the same in `b`.
pub open spec fn same_up_to(a: Seq<char>, b: Seq<char>, k: int) -> bool {
    forall|i: int| 0 <= i < k ==> #[trigger] a[i] == b[i]
}

/// Whether, at the first place where they differ, `a` has ended or has the
/// smaller character; or they do not differ.
pub open spec fn ascending(a: Seq<char>, b: Seq<char>) -> bool {
    ||| a == b
    ||| a.len() < b.len() && same_up_to(a, b, a.len() as int)
    ||| exists|k: int|
        0 <= k < a.len() && k < b.len() && #[trigger] same_up_to(a, b, k) && a[k] < b[k]
}

proof fn lemma_pieces(text: Seq<char>, separator: char)
    ensures
        crate::text::pieces(text, separator).len() > 0,
        forall|i: int, k: int|
            0 <= i < crate::text::pieces(text, separator).len() && 0 <= k
                < crate::text::pieces(text, separator)[i].len()
                ==> #[trigger] crate::text::pieces(text, separator)[i][k] != separator,
        interleaved(crate::text::pieces(text, separator), seq![separator]) == text,
    decreases text.len(),
{
    let pieces = crate::text::pieces(text, separator);
    if text.len() == 0 {
        assert(interleaved(pieces, seq![separator]) =~= text);
    } else {
        let shorter = text.drop_last();
        let before = crate::text::pieces(shorter, separator);
        lemma_pieces(shorter, separator);
        assert(shorter.push(text.last()) =~= text);
        if text.last() == separator {
            assert(pieces.drop_last() =~= before);
            assert(interleaved(pieces, seq![separator]) =~= shorter + seq![separator]
                + Seq::<char>::empty());
        } else {
            let grown = before.last().push(text.last());
            assert(pieces =~= before.drop_last().push(grown));
            assert(pieces.drop_last() =~= before.drop_last());
            assert forall|i: int, k: int|
                0 <= i < pieces.len() && 0 <= k < pieces[i].len() implies #[trigger] pieces[i][k]
                != separator by {
                if i < before.len() - 1 {
                    assert(pieces[i] == before[i]);
                    assert(before[i][k] != separator);
                } else if k < before.last().len() {
                    assert(before[before.len() - 1][k] != separator);
                }
            }
            if before.len() == 1 {
                assert(interleaved(pieces, seq![separator]) =~= shorter.push(text.last()));
            } else {
                let head = interleaved(before.drop_last(), seq![separator]) + seq![separator];
                assert(head + grown =~= (head + before.last()).push(text.last()));
            }
        }
    }
}

/// The pieces of a text hold no separator, and put together again with the
/// separator between them they are the text.
pub proof fn split_loses_nothing(text: &str, separator: char, found: Vec<String>)
    requires
        call_ensures(split, (text, separator), found),
    ensures
        found@.len() > 0,
        forall|i: int| 0 <= i < found@.len() ==> !(#[trigger] found@[i])@.contains(separator),
        interleaved(Seq::new(found@.len(), |i: int| found@[i]@), seq![separator]) == text@,
        Seq::new(found@.len(), |i: int| found@[i]@) == crate::text::pieces(text@, separator),
{
    let pieces = crate::text::pieces(text@, separator);
    lemma_pieces(text@, separator);
    assert(Seq::new(found@.len(), |i: int| found@[i]@) =~= pieces);
    assert forall|i: int| 0 <= i < found@.len() implies !(#[trigger] found@[i])@.contains(
        separator,
    ) by {
        assert(pieces[i] == found@[i]@);
        assert forall|k: int| 0 <= k < pieces[i].len() implies pieces[i][k] != separator by {}
    }
}

/// The pieces of a text hold no separator, and put together again with the
/// separator between them they are the text.
pub proof fn pieces_make_up_the_text(text: Seq<char>, separator: char)
    ensures
        crate::text::pieces(text, separator).len() > 0,
        forall|i: int|
            0 <= i < crate::text::pieces(text, separator).len() ==> !(
            #[trigger] crate::text::pieces(text, separator)[i]).contains(separator),
        interleaved(crate::text::pieces(text, separator), seq![separator]) == text,
{
    let pieces = crate::text::pieces(text, separator);
    lemma_pieces(text, separator);
    assert forall|i: int| 0 <= i < pieces.len() implies !(#[trigger] pieces[i]).contains(
        separator,
    ) by {
        assert forall|k: int| 0 <= k < pieces[i].len() implies pieces[i][k] != separator by {}
    }
}

/// Joining a list puts its texts one after the other, with the separator
/// between each two.
pub proof fn join_interleaves(list: &Vec<String>, separator: &str, text: String)
    requires
        call_ensures(join, (list, separator), text),
    ensures
        text@ == interleaved(Seq::new(list@.len(), |i: int| list@[i]@), separator@),
{
    let texts = Seq::new(list@.len(), |i: int| list@[i]@);
    assert(crate::text::texts(list@) =~= texts);
    joined_interleaves(texts, separator@);
}

/// Joining texts puts them one after the other, with the separator between
/// each two.
pub proof fn joined_interleaves(list: Seq<Seq<char>>, separator: Seq<char>)
    ensures
        crate::text::joined(list, separator) == interleaved(list, separator),
    decreases list.len(),
{
    if list.len() > 1 {
        joined_interleaves(list.drop_last(), separator);
    }
}

/// A prefix is stripped exactly off the texts that begin with it, and nothing
/// else is.
pub proof fn strip_prefix_takes_the_prefix_off(text: &str, prefix: &str, rest: Option<String>)
    requires
        call_ensures(strip_prefix, (text, prefix), rest),
    ensures
        match rest {
            Some(rest) => text@ == prefix@ + rest@,
            None => forall|rest: Seq<char>| text@ != #[trigger] (prefix@ + rest),
        },
{
    match rest {
        Some(rest) => {
            assert(prefix@ + rest@ =~= text@);
        },
        None => {
            assert forall|rest: Seq<char>| text@ != #[trigger] (prefix@ + rest) by {
                if text@ == prefix@ + rest {
                    assert(text@.take(prefix@.len() as int) =~= prefix@);
                }
            }
        },
    }
}

/// Two texts are the same exactly if they have the same characters.
pub proof fn same_text_compares_all_characters(a: &str, b: &str, same: bool)
    requires
        call_ensures(same_text, (a, b), same),
    ensures
        same <==> a@.len() == b@.len() && same_up_to(a@, b@, a@.len() as int),
{
    if a@.len() == b@.len() && same_up_to(a@, b@, a@.len() as int) {
        assert(a@ =~= b@);
    }
}

/// A text comes no later than another exactly if it ascends to it: the first
/// place where they differ decides.
pub proof fn text_order_is_decided_by_the_first_difference(a: Seq<char>, b: Seq<char>)
    ensures
        crate::text::text_le(a, b) <==> ascending(a, b),
    decreases a.len(),
{
    if a.len() == 0 {
        if b.len() == 0 {
            assert(a =~= b);
        }
    } else if b.len() == 0 {
    } else {
        let rest_a = a.skip(1);
        let rest_b = b.skip(1);
        text_order_is_decided_by_the_first_difference(rest_a, rest_b);
        if a[0] == b[0] {
            if ascending(rest_a, rest_b) {
                if rest_a == rest_b {
                    assert(seq![a[0]] + rest_a =~= a);
                    assert(seq![b[0]] + rest_b =~= b);
                } else if rest_a.len() < rest_b.len() && same_up_to(
                    rest_a,
                    rest_b,
                    rest_a.len() as int,
                ) {
                    lemma_same_after_first(a, b, rest_a.len() as int);
                } else {
                    let k = choose|k: int|
                        0 <= k < rest_a.len() && k < rest_b.len() && #[trigger] same_up_to(
                            rest_a,
                            rest_b,
                            k,
                        ) && rest_a[k] < rest_b[k];
                    lemma_same_after_first(a, b, k);
                    assert(a[k + 1] < b[k + 1]);
                }
            }
            if ascending(a, b) {
                if a == b {
                } else if a.len() < b.len() && same_up_to(a, b, a.len() as int) {
                    lemma_same_before_first(a, b, a.len() as int);
                } else {
                    let k = choose|k: int|
                        0 <= k < a.len() && k < b.len() && #[trigger] same_up_to(a, b, k) && a[k]
                            < b[k];
                    lemma_same_before_first(a, b, k);
                    assert(rest_a[k - 1] < rest_b[k - 1]);
                }
            }
        } else {
            if ascending(a, b) && !(a[0] < b[0]) {
                assert(a != b);
                if a.len() < b.len() && same_up_to(a, b, a.len() as int) {
                    assert(a[0] == b[0]);
                } else {
                    let k = choose|k: int|
                        0 <= k < a.len() && k < b.len() && #[trigger] same_up_to(a, b, k) && a[k]
                            < b[k];
                    assert(k > 0 ==> a[0] == b[0]);
                }
            }
            if a[0] < b[0] {
                assert(same_up_to(a, b, 0));
            }
        }
    }
}

proof fn lemma_same_after_first(a: Seq<char>, b: Seq<char>, k: int)
    requires
        a.len() > 0,
        b.len() > 0,
        a[0] == b[0],
        0 <= k < a.len(),
        k < b.len(),
        same_up_to(a.skip(1), b.skip(1), k),
    ensures
        same_up_to(a, b, k + 1),
{
    assert forall|i: int| 0 <= i < k + 1 implies #[trigger] a[i] == b[i] by {
        if i > 0 {
            assert(a.skip(1)[i - 1] == b.skip(1)[i - 1]);
        }
    }
}

proof fn lemma_same_before_first(a: Seq<char>, b: Seq<char>, k: int)
    requires
        0 < k <= a.len(),
        k <= b.len(),
        same_up_to(a, b, k),
    ensures
        same_up_to(a.skip(1), b.skip(1), k - 1),
{
    assert forall|i: int| 0 <= i < k - 1 implies #[trigger] a.skip(1)[i] == b.skip(1)[i] by {
        assert(a[i + 1] == b[i + 1]);
    }
}

/// The comparison of texts follows that order.
pub proof fn text_not_after_compares_at_the_first_difference(a: &str, b: &str, le: bool)
    requires
        call_ensures(text_not_after, (a, b), le),
    ensures
        le <==> ascending(a@, b@),
{
    text_order_is_decided_by_the_first_difference(a@, b@);
}

} // verus!
