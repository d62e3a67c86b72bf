//! Operations on texts, stated over their characters.

use vstd::prelude::*;

verus! {

/// `String::push`: appends the character to the end of the text.
pub assume_specification[ String::push ](text: &mut String, c: char)
    ensures
        final(text)@ == old(text)@.push(c),
;

/// The characters of each text in a list.
pub open spec fn texts(list: Seq<String>) -> Seq<Seq<char>> {
    list.map_values(|text: String| text@)
}

/// The pieces of `text` between the occurrences of `separator`, in order. A
/// text without a separator is its own only piece.
pub open spec fn pieces(text: Seq<char>, separator: char) -> Seq<Seq<char>>
    decreases text.len(),
{
    if text.len() == 0 {
        seq![Seq::<char>::empty()]
    } else {
        let before = pieces(text.drop_last(), separator);
        if text.last() == separator {
            before.push(Seq::<char>::empty())
        } else {
            before.drop_last().push(before.last().push(text.last()))
        }
    }
}

/// Splits a text at every occurrence of a separator.
pub fn split(text: &str, separator: char) -> (found: Vec<String>)
    ensures
        texts(found@) == pieces(text@, separator),
        found@.len() == pieces(text@, separator).len() > 0,
        forall|i: int|
            0 <= i < found@.len() ==> (#[trigger] found@[i])@ == pieces(text@, separator)[i],
{
    let mut found: Vec<String> = Vec::new();
    let mut piece: String = String::new();
    assert(text@.take(0) =~= Seq::<char>::empty());
    assert(texts(found@).push(piece@) =~= pieces(text@.take(0), separator));
    for c in it: text.chars()
        invariant
            it.seq() == text@,
            texts(found@).push(piece@) == pieces(text@.take(it.index()), separator),
    {
        let ghost before = texts(found@).push(piece@);
        let ghost i = it.index();
        assert(text@.take(i + 1).drop_last() =~= text@.take(i));
        assert(text@.take(i + 1).last() == c);
        assert(before.drop_last() =~= texts(found@));
        if c == separator {
            found.push(piece);
            piece = String::new();
            assert(texts(found@) =~= before);
        } else {
            piece.push(c);
        }
    }
    assert(text@.take(text@.len() as int) =~= text@);
    let ghost before = texts(found@);
    let ghost last = piece@;
    found.push(piece);
    assert(texts(found@) =~= before.push(last));
    assert forall|i: int| 0 <= i < found@.len() implies (#[trigger] found@[i])@ == pieces(
        text@,
        separator,
    )[i] by {
        assert(texts(found@)[i] == found@[i]@);
    }
    found
}

/// A text that does not hold the separator is its own only piece.
pub proof fn lemma_pieces_single(text: Seq<char>, separator: char)
    requires
        !text.contains(separator),
    ensures
        pieces(text, separator) == seq![text],
    decreases text.len(),
{
    if text.len() > 0 {
        assert(text.last() != separator);
        assert forall|i: int| 0 <= i < text.len() - 1 implies text.drop_last()[i] != separator by {
            assert(text[i] != separator);
        }
        lemma_pieces_single(text.drop_last(), separator);
        assert(text.drop_last().push(text.last()) =~= text);
        assert(pieces(text, separator) =~= seq![text]);
    } else {
        assert(text =~= Seq::<char>::empty());
    }
}

/// What follows the last separator is the last piece.
pub proof fn lemma_pieces_push(head: Seq<char>, separator: char, tail: Seq<char>)
    requires
        !tail.contains(separator),
    ensures
        pieces(head.push(separator) + tail, separator) == pieces(head, separator).push(tail),
    decreases tail.len(),
{
    let whole = head.push(separator) + tail;
    if tail.len() == 0 {
        assert(whole =~= head.push(separator));
        assert(whole.drop_last() =~= head);
        assert(tail =~= Seq::<char>::empty());
    } else {
        assert(tail.last() != separator);
        assert forall|i: int| 0 <= i < tail.len() - 1 implies tail.drop_last()[i] != separator by {
            assert(tail[i] != separator);
        }
        assert(whole.drop_last() =~= head.push(separator) + tail.drop_last());
        lemma_pieces_push(head, separator, tail.drop_last());
        assert(whole.last() == tail.last());
        let before = pieces(head, separator).push(tail.drop_last());
        assert(before.drop_last() =~= pieces(head, separator));
        assert(tail.drop_last().push(tail.last()) =~= tail);
    }
}

/// The characters of a text.
pub fn characters(text: &str) -> (list: Vec<char>)
    ensures
        list@ == text@,
{
    let mut list: Vec<char> = Vec::new();
    for c in it: text.chars()
        invariant
            it.seq() == text@,
            list@ == text@.take(it.index()),
    {
        list.push(c);
    }
    assert(text@.take(text@.len() as int) =~= text@);
    list
}

/// Whether two texts hold the same characters.
pub fn same_text(a: &str, b: &str) -> (same: bool)
    ensures
        same == (a@ == b@),
{
    a.to_owned() == b.to_owned()
}

/// What follows `prefix` in a text that begins with it.
pub open spec fn after_prefix(text: Seq<char>, prefix: Seq<char>) -> Option<Seq<char>> {
    if prefix.len() <= text.len() && text.take(prefix.len() as int) == prefix {
        Some(text.skip(prefix.len() as int))
    } else {
        None
    }
}

/// Takes `prefix` off the front of a text.
pub fn strip_prefix(text: &str, prefix: &str) -> (rest: Option<String>)
    ensures
        match rest {
            Some(rest) => after_prefix(text@, prefix@) == Some(rest@),
            None => after_prefix(text@, prefix@) is None,
        },
{
    let length = text.unicode_len();
    let start = prefix.unicode_len();
    if start <= length && same_text(text.substring_char(0, start), prefix) {
        let rest = text.substring_char(start, length);
        assert(text@.subrange(0, start as int) =~= text@.take(start as int));
        assert(text@.subrange(start as int, length as int) =~= text@.skip(start as int));
        Some(rest.to_owned())
    } else {
        assert(start <= length ==> text@.subrange(0, start as int) =~= text@.take(start as int));
        None
    }
}

/// The texts of a list, with `separator` between each two.
pub open spec fn joined(list: Seq<Seq<char>>, separator: Seq<char>) -> Seq<char>
    decreases list.len(),
{
    if list.len() == 0 {
        Seq::empty()
    } else if list.len() == 1 {
        list[0]
    } else {
        joined(list.drop_last(), separator) + separator + list.last()
    }
}

/// Joins a list of texts with a separator.
pub fn join(list: &Vec<String>, separator: &str) -> (text: String)
    ensures
        text@ == joined(texts(list@), separator@),
{
    let mut text: String = String::new();
    let ghost all = texts(list@);
    let mut i: usize = 0;
    while i < list.len()
        invariant
            i <= list.len(),
            all == texts(list@),
            text@ == joined(all.take(i as int), separator@),
        decreases list.len() - i,
    {
        assert(all.take(i + 1).drop_last() =~= all.take(i as int));
        assert(all.take(i + 1).last() == list@[i as int]@);
        if i > 0 {
            text.append(separator);
        } else {
            assert(text@ + list@[0]@ =~= list@[0]@);
        }
        text.append(list[i].as_str());
        i += 1;
    }
    assert(all.take(all.len() as int) =~= all);
    text
}

/// The order of texts: at the first place where they differ, by code point,
/// and a text comes before its own extensions. This is also the order of
/// their UTF-8 bytes.
pub open spec fn text_le(a: Seq<char>, b: Seq<char>) -> bool
    decreases a.len(),
{
    if a.len() == 0 {
        true
    } else if b.len() == 0 {
        false
    } else if a[0] != b[0] {
        a[0] < b[0]
    } else {
        text_le(a.skip(1), b.skip(1))
    }
}

/// Whether `a` comes no later than `b` in the order of texts.
pub fn text_not_after(a: &str, b: &str) -> (le: bool)
    ensures
        le == text_le(a@, b@),
{
    let left = characters(a);
    let right = characters(b);
    let mut i: usize = 0;
    assert(a@.skip(0) =~= a@);
    assert(b@.skip(0) =~= b@);
    while i < left.len() && i < right.len()
        invariant
            left@ == a@,
            right@ == b@,
            i <= left.len(),
            i <= right.len(),
            text_le(a@, b@) == text_le(a@.skip(i as int), b@.skip(i as int)),
        decreases left.len() - i,
    {
        assert(a@.skip(i as int)[0] == a@[i as int]);
        assert(b@.skip(i as int)[0] == b@[i as int]);
        if left[i] != right[i] {
            return left[i] < right[i];
        }
        assert(a@.skip(i as int).skip(1) =~= a@.skip(i + 1));
        assert(b@.skip(i as int).skip(1) =~= b@.skip(i + 1));
        i += 1;
    }
    i == left.len()
}

/// Every text comes no later than itself.
pub proof fn lemma_text_le_reflexive(a: Seq<char>)
    ensures
        text_le(a, a),
    decreases a.len(),
{
    if a.len() > 0 {
        lemma_text_le_reflexive(a.skip(1));
    }
}

/// Of two texts one comes no later than the other.
pub proof fn lemma_text_le_total(a: Seq<char>, b: Seq<char>)
    ensures
        text_le(a, b) || text_le(b, a),
    decreases a.len(),
{
    if a.len() > 0 && b.len() > 0 {
        lemma_text_le_total(a.skip(1), b.skip(1));
    }
}

/// Texts that each come no later than the other are the same.
pub proof fn lemma_text_le_antisymmetric(a: Seq<char>, b: Seq<char>)
    requires
        text_le(a, b),
        text_le(b, a),
    ensures
        a == b,
    decreases a.len(),
{
    if a.len() > 0 && b.len() > 0 {
        lemma_text_le_antisymmetric(a.skip(1), b.skip(1));
        assert(a =~= seq![a[0]] + a.skip(1));
        assert(b =~= seq![b[0]] + b.skip(1));
    } else {
        assert(a =~= b);
    }
}

/// The order of texts can be chained.
pub proof fn lemma_text_le_transitive(a: Seq<char>, b: Seq<char>, c: Seq<char>)
    requires
        text_le(a, b),
        text_le(b, c),
    ensures
        text_le(a, c),
    decreases a.len(),
{
    if a.len() > 0 && b.len() > 0 && c.len() > 0 {
        if a[0] == b[0] && b[0] == c[0] {
            lemma_text_le_transitive(a.skip(1), b.skip(1), c.skip(1));
        }
    }
}

} // verus!
