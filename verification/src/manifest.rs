//! The manifest: a text that lists the paths of the assets, each entry closed
//! or separated by a carriage return and a line feed.

use vstd::prelude::*;
use vstd::string::*;

verus! {

/// The two characters between entries.
pub open spec fn terminator() -> Seq<char> {
    seq!['\r', '\n']
}

/// A terminator stands in `s` at index `i`.
pub open spec fn terminator_at(s: Seq<char>, i: int) -> bool {
    0 <= i && i + 1 < s.len() && s[i] == '\r' && s[i + 1] == '\n'
}

/// The index of the first terminator in `s`, or `-1` where `s` holds none.
pub open spec fn first_terminator(s: Seq<char>) -> int
    decreases s.len(),
{
    if s.len() < 2 {
        -1
    } else if s[0] == '\r' && s[1] == '\n' {
        0
    } else {
        let rest = first_terminator(s.skip(1));
        if rest < 0 {
            -1
        } else {
            rest + 1
        }
    }
}

/// The pieces of `s` between its terminators, from left to right: a piece
/// ends where the first terminator stands, and what follows the terminator
/// is split in the same way.
pub open spec fn split_entries(s: Seq<char>) -> Seq<Seq<char>>
    decreases s.len(),
{
    let i = first_terminator(s);
    if 0 <= i && i + 2 <= s.len() {
        seq![s.take(i)] + split_entries(s.skip(i + 2))
    } else {
        seq![s]
    }
}

/// The entries of a manifest: the pieces between its terminators, without
/// the last piece where that one is empty.
pub open spec fn manifest_entries(s: Seq<char>) -> Seq<Seq<char>> {
    let pieces = split_entries(s);
    if pieces.last().len() == 0 {
        pieces.drop_last()
    } else {
        pieces
    }
}

/// Each entry followed by a terminator.
pub open spec fn terminated(entries: Seq<Seq<char>>) -> Seq<char>
    decreases entries.len(),
{
    if entries.len() == 0 {
        Seq::empty()
    } else {
        entries[0] + terminator() + terminated(entries.skip(1))
    }
}

/// The entries with a terminator between neighbours and none at the end.
pub open spec fn separated(entries: Seq<Seq<char>>) -> Seq<char>
    decreases entries.len(),
{
    if entries.len() == 0 {
        Seq::empty()
    } else if entries.len() == 1 {
        entries[0]
    } else {
        entries[0] + terminator() + separated(entries.skip(1))
    }
}

/// `first_terminator` gives the least index at which a terminator stands,
/// and `-1` exactly where none stands anywhere.
pub proof fn lemma_first_terminator(s: Seq<char>)
    ensures
        -1 <= first_terminator(s),
        first_terminator(s) >= 0 ==> terminator_at(s, first_terminator(s)),
        forall|k: int| 0 <= k < first_terminator(s) ==> !terminator_at(s, k),
        first_terminator(s) < 0 ==> forall|k: int| !terminator_at(s, k),
    decreases s.len(),
{
    if s.len() >= 2 && !(s[0] == '\r' && s[1] == '\n') {
        let tail = s.skip(1);
        lemma_first_terminator(tail);
        assert forall|k: int| 0 <= k && (k < first_terminator(s) || first_terminator(s) < 0)
            implies !terminator_at(s, k) by {
            if k >= 1 && terminator_at(s, k) {
                assert(terminator_at(tail, k - 1));
            }
        }
    }
}

/// An index at which a terminator stands, with none before it, is the one
/// that `first_terminator` gives.
pub proof fn lemma_first_terminator_is(s: Seq<char>, i: int)
    requires
        terminator_at(s, i),
        forall|k: int| 0 <= k < i ==> !terminator_at(s, k),
    ensures
        first_terminator(s) == i,
{
    lemma_first_terminator(s);
}

/// A text without a terminator is one piece.
pub proof fn lemma_split_without_terminator(s: Seq<char>)
    requires
        forall|k: int| !terminator_at(s, k),
    ensures
        split_entries(s) == seq![s],
{
    lemma_first_terminator(s);
}

/// An entry without a terminator, a terminator and a rest are split into the
/// entry and the pieces of the rest.
pub proof fn lemma_split_behind_entry(entry: Seq<char>, rest: Seq<char>)
    requires
        first_terminator(entry) < 0,
    ensures
        split_entries(entry + terminator() + rest) == seq![entry] + split_entries(rest),
{
    let s = entry + terminator() + rest;
    let at: int = entry.len() as int;
    lemma_first_terminator(entry);
    assert(terminator_at(s, at));
    assert forall|k: int| 0 <= k < at implies !terminator_at(s, k) by {
        if k + 1 < at {
            assert(!terminator_at(entry, k));
            assert(s[k] == entry[k] && s[k + 1] == entry[k + 1]);
        }
    }
    lemma_first_terminator_is(s, at);
    assert(s.take(at) =~= entry);
    assert(s.skip(at + 2) =~= rest);
}

/// The pieces of a text, with a terminator between neighbours, are the text:
/// splitting loses nothing and adds nothing.
pub proof fn lemma_pieces_join_to_the_text(s: Seq<char>)
    ensures
        split_entries(s).len() >= 1,
        separated(split_entries(s)) == s,
    decreases s.len(),
{
    let i = first_terminator(s);
    lemma_first_terminator(s);
    if i >= 0 {
        let rest = s.skip(i + 2);
        lemma_pieces_join_to_the_text(rest);
        let pieces = split_entries(s);
        assert(pieces.skip(1) =~= split_entries(rest));
        assert(s.take(i) + terminator() + rest =~= s);
    }
}

/// No piece of a text holds a terminator.
pub proof fn lemma_pieces_hold_no_terminator(s: Seq<char>)
    ensures
        forall|j: int|
            0 <= j < split_entries(s).len() ==> first_terminator(#[trigger] split_entries(s)[j])
                < 0,
    decreases s.len(),
{
    let i = first_terminator(s);
    lemma_first_terminator(s);
    if i >= 0 {
        let head = s.take(i);
        let rest = s.skip(i + 2);
        lemma_pieces_hold_no_terminator(rest);
        lemma_first_terminator(head);
        if first_terminator(head) >= 0 {
            assert(terminator_at(s, first_terminator(head)));
        }
        assert forall|j: int| 0 <= j < split_entries(s).len() implies first_terminator(
            #[trigger] split_entries(s)[j],
        ) < 0 by {
            if j > 0 {
                assert(split_entries(s)[j] == split_entries(rest)[j - 1]);
            }
        }
    }
}

/// Entries that hold no terminator, each followed by one, are read back as
/// they were: as many, and the same.
pub proof fn lemma_terminated_entries_are_kept(entries: Seq<Seq<char>>)
    requires
        forall|i: int| 0 <= i < entries.len() ==> first_terminator(#[trigger] entries[i]) < 0,
    ensures
        split_entries(terminated(entries)) == entries.push(Seq::empty()),
        manifest_entries(terminated(entries)) == entries,
    decreases entries.len(),
{
    if entries.len() == 0 {
        let nothing = Seq::<char>::empty();
        assert forall|k: int| !terminator_at(nothing, k) by {}
        lemma_split_without_terminator(nothing);
        assert(seq![nothing] =~= entries.push(nothing));
    } else {
        let tail = entries.skip(1);
        assert forall|i: int| 0 <= i < tail.len() implies first_terminator(#[trigger] tail[i])
            < 0 by {
            assert(tail[i] == entries[i + 1]);
        }
        lemma_terminated_entries_are_kept(tail);
        lemma_split_behind_entry(entries[0], terminated(tail));
        assert(seq![entries[0]] + tail.push(Seq::empty()) =~= entries.push(Seq::empty()));
    }
    assert(entries.push(Seq::empty()).drop_last() =~= entries);
}

/// Entries that hold no terminator, with one between neighbours and none at
/// the end, are read back as they were, unless the last entry is empty.
pub proof fn lemma_separated_entries_are_kept(entries: Seq<Seq<char>>)
    requires
        forall|i: int| 0 <= i < entries.len() ==> first_terminator(#[trigger] entries[i]) < 0,
        entries.len() > 0 ==> entries.last().len() > 0,
    ensures
        entries.len() > 0 ==> split_entries(separated(entries)) == entries,
        manifest_entries(separated(entries)) == entries,
    decreases entries.len(),
{
    if entries.len() == 0 {
        let nothing = Seq::<char>::empty();
        assert forall|k: int| !terminator_at(nothing, k) by {}
        lemma_split_without_terminator(nothing);
        assert(seq![nothing].drop_last() =~= entries);
    } else if entries.len() == 1 {
        lemma_first_terminator(entries[0]);
        lemma_split_without_terminator(entries[0]);
        assert(seq![entries[0]] =~= entries);
    } else {
        let tail = entries.skip(1);
        assert forall|i: int| 0 <= i < tail.len() implies first_terminator(#[trigger] tail[i])
            < 0 by {
            assert(tail[i] == entries[i + 1]);
        }
        assert(tail.last() == entries.last());
        lemma_separated_entries_are_kept(tail);
        lemma_split_behind_entry(entries[0], separated(tail));
        assert(seq![entries[0]] + tail =~= entries);
    }
}

/// The texts of a list of strings that has grown by one string are the
/// texts it had, and the text of that string behind them.
proof fn lemma_texts_of_longer_list(before: Vec<String>, after: Vec<String>, entry: String)
    requires
        after@ == before@.push(entry),
    ensures
        after.deep_view() == before.deep_view().push(entry@),
{
    assert(after.deep_view() =~= before.deep_view().push(entry@));
}

/// The paths that a manifest lists, in its order.
///
/// `contents` is the text of the manifest. Its entries are what stands
/// between the terminators; an empty entry at the end, as a closing
/// terminator leaves it, is dropped.
pub fn get_all_file_names(contents: &str) -> (file_names: Vec<String>)
    ensures
        file_names.deep_view() == manifest_entries(contents@),
{
    let len: usize = contents.unicode_len();
    let mut file_names: Vec<String> = Vec::new();
    let mut start: usize = 0;
    let mut n: usize = 0;
    let mut after_return = false;
    let ghost s = contents@;
    assert(s.skip(0) =~= s);
    assert(file_names.deep_view() + split_entries(s) =~= split_entries(s));
    for c in it: contents.chars()
        invariant
            n == it.index(),
            it.seq() == s,
            s == contents@,
            len == s.len(),
            start <= n,
            split_entries(s) == file_names.deep_view() + split_entries(s.skip(start as int)),
            forall|k: int| start <= k && k + 1 < n ==> !terminator_at(s, k),
            after_return == (start < n && s[n - 1] == '\r'),
    {
        if after_return && c == '\n' {
            let entry = contents.substring_char(start, n - 1).to_owned();
            proof {
                let rest = s.skip(start as int);
                let at: int = n - 1 - start;
                assert(terminator_at(rest, at));
                assert forall|k: int| 0 <= k < at implies !terminator_at(rest, k) by {
                    assert(!terminator_at(s, start + k));
                }
                lemma_first_terminator_is(rest, at);
                assert(rest.take(at) =~= entry@);
                assert(rest.skip(at + 2) =~= s.skip(n + 1));
                assert(file_names.deep_view().push(entry@) + split_entries(s.skip(n + 1))
                    =~= file_names.deep_view() + split_entries(rest));
            }
            let ghost before = file_names;
            file_names.push(entry);
            proof {
                lemma_texts_of_longer_list(before, file_names, entry);
            }
            start = n + 1;
            after_return = false;
        } else {
            after_return = c == '\r';
        }
        n = n + 1;
    }
    proof {
        let rest = s.skip(start as int);
        assert forall|k: int| !terminator_at(rest, k) by {
            if terminator_at(rest, k) {
                assert(terminator_at(s, start + k));
            }
        }
        lemma_split_without_terminator(rest);
        assert(split_entries(s) =~= file_names.deep_view().push(rest));
        assert(file_names.deep_view().push(rest).drop_last() =~= file_names.deep_view());
    }
    if start < len {
        let entry = contents.substring_char(start, len).to_owned();
        let ghost before = file_names;
        file_names.push(entry);
        proof {
            lemma_texts_of_longer_list(before, file_names, entry);
        }
    }
    file_names
}

} // verus!
