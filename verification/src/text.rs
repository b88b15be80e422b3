//! Splitting and joining of character sequences, the two text operations
//! that the converter is built from.

use vstd::prelude::*;

verus! {

/// `String::push` puts one character at the end of the string and leaves
/// the characters before it as they were.
pub assume_specification[ String::push ](s: &mut String, ch: char)
    ensures
        final(s)@ == old(s)@.push(ch),
;

/// The pieces of `s` that lie between the occurrences of `sep`, in order.
///
/// There is always one piece more than there are separators: the empty
/// sequence splits into one empty piece, and a separator at either end has
/// an empty piece on its outer side. The definition walks `s` from its
/// end: the last character either opens a new empty piece or extends the
/// last piece of what stands before it.
pub open spec fn split_on(s: Seq<char>, sep: char) -> Seq<Seq<char>>
    decreases s.len(),
{
    if s.len() == 0 {
        seq![Seq::<char>::empty()]
    } else {
        let before = split_on(s.drop_last(), sep);
        if s.last() == sep {
            before.push(Seq::<char>::empty())
        } else {
            before.drop_last().push(before.last().push(s.last()))
        }
    }
}

/// The `parts` written one after the other with `sep` between each two
/// neighbours: nothing before the first and nothing after the last.
pub open spec fn joined(parts: Seq<Seq<char>>, sep: Seq<char>) -> Seq<char>
    decreases parts.len(),
{
    if parts.len() == 0 {
        Seq::<char>::empty()
    } else if parts.len() == 1 {
        parts[0]
    } else {
        joined(parts.drop_last(), sep) + sep + parts.last()
    }
}

/// Splitting always yields at least one piece.
pub proof fn lemma_split_nonempty(s: Seq<char>, sep: char)
    ensures
        split_on(s, sep).len() >= 1,
    decreases s.len(),
{
    if s.len() > 0 {
        lemma_split_nonempty(s.drop_last(), sep);
    }
}

/// A text without the separator is its own single piece.
pub proof fn lemma_split_without_separator(s: Seq<char>, sep: char)
    requires
        !s.contains(sep),
    ensures
        split_on(s, sep) == seq![s],
    decreases s.len(),
{
    if s.len() > 0 {
        let front = s.drop_last();
        assert(!front.contains(sep)) by {
            if front.contains(sep) {
                let i = choose|i: int| 0 <= i < front.len() && front[i] == sep;
                assert(s[i] == sep);
            }
        }
        lemma_split_without_separator(front, sep);
        assert(front.push(s.last()) =~= s);
    } else {
        assert(s =~= Seq::<char>::empty());
    }
}

/// No piece of a split holds the separator.
pub proof fn lemma_split_pieces_hold_no_separator(s: Seq<char>, sep: char)
    ensures
        forall|i: int|
            0 <= i < split_on(s, sep).len() ==> !(#[trigger] split_on(s, sep)[i]).contains(sep),
    decreases s.len(),
{
    if s.len() > 0 {
        let before = split_on(s.drop_last(), sep);
        lemma_split_pieces_hold_no_separator(s.drop_last(), sep);
        lemma_split_nonempty(s.drop_last(), sep);
        if s.last() != sep {
            let grown = before.last().push(s.last());
            assert(!grown.contains(sep)) by {
                if grown.contains(sep) {
                    let j = choose|j: int| 0 <= j < grown.len() && grown[j] == sep;
                    assert(before.last()[j] == sep);
                }
            }
        }
    }
}

/// Joining the pieces of a split with the separator gives the text back.
pub proof fn lemma_join_of_split(s: Seq<char>, sep: char)
    ensures
        joined(split_on(s, sep), seq![sep]) == s,
    decreases s.len(),
{
    if s.len() > 0 {
        let front = s.drop_last();
        let before = split_on(front, sep);
        lemma_join_of_split(front, sep);
        lemma_split_nonempty(front, sep);
        if s.last() == sep {
            let after = before.push(Seq::<char>::empty());
            assert(after.drop_last() =~= before);
        } else {
            let after = before.drop_last().push(before.last().push(s.last()));
            assert(after.drop_last() =~= before.drop_last());
            if before.len() > 1 {
                assert(joined(after, seq![sep]) =~= joined(before, seq![sep]).push(s.last()));
            }
        }
    }
}

/// The split of a text is the only way to cut it at separators: pieces
/// that hold no separator and give `s` when joined with it are the pieces
/// of `s`.
pub proof fn lemma_split_is_unique(s: Seq<char>, sep: char, parts: Seq<Seq<char>>)
    requires
        parts.len() >= 1,
        forall|i: int| 0 <= i < parts.len() ==> !(#[trigger] parts[i]).contains(sep),
        joined(parts, seq![sep]) == s,
    ensures
        parts == split_on(s, sep),
    decreases s.len(),
{
    let last = parts.last();
    if parts.len() == 1 {
        assert(!parts[0].contains(sep));
        assert(parts =~= seq![s]);
        lemma_split_without_separator(s, sep);
    } else {
        let front = parts.drop_last();
        assert(s =~= joined(front, seq![sep]) + seq![sep] + last);
        if last.len() == 0 {
            assert(s.drop_last() =~= joined(front, seq![sep]));
            lemma_split_is_unique(s.drop_last(), sep, front);
            assert(s.last() == sep);
            assert(last =~= Seq::<char>::empty());
            assert(parts =~= front.push(last));
        } else {
            assert(last[last.len() - 1] != sep);
            let shorter = front.push(last.drop_last());
            assert(shorter.drop_last() =~= front);
            assert(s.drop_last() =~= joined(shorter, seq![sep]));
            assert forall|i: int| 0 <= i < shorter.len() implies !(#[trigger] shorter[i]).contains(
                sep,
            ) by {
                if i < front.len() {
                    assert(shorter[i] == parts[i]);
                } else if shorter[i].contains(sep) {
                    let k = choose|k: int| 0 <= k < shorter[i].len() && shorter[i][k] == sep;
                    assert(last[k] == sep);
                }
            }
            lemma_split_is_unique(s.drop_last(), sep, shorter);
            assert(s.last() == last.last());
            assert(last.drop_last().push(s.last()) =~= last);
            assert(parts =~= shorter.drop_last().push(last));
        }
    }
}

/// Splitting a text that holds a separator at a known place: the pieces of
/// what stands before it, then the pieces of what stands after it.
pub proof fn lemma_split_around_separator(a: Seq<char>, b: Seq<char>, sep: char)
    ensures
        split_on(a + seq![sep] + b, sep) == split_on(a, sep) + split_on(b, sep),
    decreases b.len(),
{
    let whole = a + seq![sep] + b;
    lemma_split_nonempty(a, sep);
    if b.len() == 0 {
        assert(whole.drop_last() =~= a);
    } else {
        let front = b.drop_last();
        lemma_split_around_separator(a, front, sep);
        lemma_split_nonempty(front, sep);
        assert(whole.drop_last() =~= a + seq![sep] + front);
    }
}

/// What `take` adds when it reaches one character further.
pub proof fn lemma_take_next(s: Seq<char>, i: int)
    requires
        0 <= i < s.len(),
    ensures
        s.take(i + 1).drop_last() == s.take(i),
        s.take(i + 1).last() == s[i],
        s.take(i + 1).len() == i + 1,
{
}

/// Splits `s` at every occurrence of `sep`.
pub fn split_text(s: &str, sep: char) -> (parts: Vec<String>)
    ensures
        parts.deep_view() == split_on(s@, sep),
{
    let mut parts: Vec<String> = Vec::new();
    let mut piece = String::new();
    for c in it: s.chars()
        invariant
            it.seq() == s@,
            parts.deep_view().push(piece@) == split_on(s@.take(it.index() as int), sep),
    {
        proof {
            lemma_take_next(s@, it.index() as int);
        }
        if c == sep {
            parts.push(piece);
            piece = String::new();
        } else {
            piece.push(c);
        }
    }
    assert(s@.take(s@.len() as int) =~= s@);
    parts.push(piece);
    parts
}

/// Writes `parts` one after the other with `sep` between each two
/// neighbours.
pub fn join_text(parts: &Vec<String>, sep: &str) -> (out: String)
    ensures
        out@ == joined(parts.deep_view(), sep@),
{
    let mut out = String::new();
    let mut i: usize = 0;
    let ghost all = parts.deep_view();
    while i < parts.len()
        invariant
            i <= parts.len(),
            all == parts.deep_view(),
            out@ == joined(all.take(i as int), sep@),
        decreases parts.len() - i,
    {
        assert(all.take(i + 1).drop_last() =~= all.take(i as int));
        if i > 0 {
            out.append(sep);
        }
        out.append(parts[i].as_str());
        assert(out@ =~= joined(all.take(i + 1), sep@));
        i += 1;
    }
    assert(all.take(parts.len() as int) =~= all);
    out
}

} // verus!
