//! The selection language: which records the operator wants to manage.
//!
//! A selection is a line of words.  Each word changes a mask that has one
//! entry per record; the words are applied from left to right, so a later
//! word overrides an earlier one where they meet.

use crate::backup::Backup;
use crate::text::{
    chars_of, count_leading, is_space, leading, lemma_leading_is, number_of, parse_usize,
    slice_of, split_words, tokens, views, Class,
};
use vstd::prelude::*;

verus! {

/// A mask of `total` entries that are all `value`.
pub open spec fn uniform(total: nat, value: bool) -> Seq<bool> {
    Seq::new(total, |i: int| value)
}

/// The positions that a word names, as a lowest and a highest one, both
/// counted.  The word is `MIN` or `MIN-MAX`, split at its first `-`.  `MIN`
/// must be a number, else the word names nothing.  A `MAX` that is missing
/// or is no number stands for `MIN`.  The two may come in either order.
pub open spec fn range_of(word: Seq<char>) -> Option<(usize, usize)> {
    let dash = leading(word, Class::Not('-')) as int;
    match number_of(word.take(dash)) {
        None => None,
        Some(min) => {
            let max = if dash < word.len() {
                match number_of(word.skip(dash + 1)) {
                    Some(n) => n,
                    None => min,
                }
            } else {
                min
            };
            if min < max {
                Some((min, max))
            } else {
                Some((max, min))
            }
        },
    }
}

/// The mask after one word.  Carets in front of the word are taken off
/// first.  What is left selects every record if it begins with `a` and no
/// record if it begins with `n`.  Otherwise the records at the positions it
/// names, counted from 1, are selected, or deselected if the word had a
/// caret; the other records stay as they are.
pub open spec fn apply_word(mask: Seq<bool>, word: Seq<char>) -> Seq<bool> {
    let carets = leading(word, Class::Just('^'));
    let rest = word.skip(carets as int);
    if rest.len() > 0 && rest[0] == 'a' {
        uniform(mask.len(), true)
    } else if rest.len() > 0 && rest[0] == 'n' {
        uniform(mask.len(), false)
    } else {
        match range_of(rest) {
            None => mask,
            Some((low, high)) => Seq::new(
                mask.len(),
                |i: int|
                    if low <= i + 1 <= high {
                        carets == 0
                    } else {
                        mask[i]
                    },
            ),
        }
    }
}

/// The mask after each of `words` in turn.
pub open spec fn apply_words(mask: Seq<bool>, words: Seq<Seq<char>>) -> Seq<bool>
    decreases words.len(),
{
    if words.len() == 0 {
        mask
    } else {
        apply_word(apply_words(mask, words.drop_last()), words.last())
    }
}

/// The mask that `input` selects among `total` records.  A blank input
/// selects all.  Otherwise nothing is selected until a word says so.
pub open spec fn selection(total: nat, input: Seq<char>) -> Seq<bool> {
    let words = tokens(input);
    if words.len() == 0 {
        uniform(total, true)
    } else {
        apply_words(uniform(total, false), words)
    }
}

/// The items of `items` whose entry in `mask` is set, in their order.
pub open spec fn kept<T>(items: Seq<T>, mask: Seq<bool>) -> Seq<T>
    decreases items.len(),
{
    if items.len() == 0 {
        items
    } else if mask[items.len() - 1] {
        kept(items.drop_last(), mask).push(items.last())
    } else {
        kept(items.drop_last(), mask)
    }
}

/// Words leave the mask as long as it was.
pub proof fn lemma_apply_words_len(mask: Seq<bool>, words: Seq<Seq<char>>)
    ensures
        apply_words(mask, words).len() == mask.len(),
    decreases words.len(),
{
    if words.len() > 0 {
        lemma_apply_words_len(mask, words.drop_last());
    }
}

/// A selection has one entry for each record.
pub proof fn lemma_selection_len(total: nat, input: Seq<char>)
    ensures
        selection(total, input).len() == total,
{
    lemma_apply_words_len(uniform(total, false), tokens(input));
}

/// An input of nothing but white space selects every record.
pub proof fn lemma_blank_selects_all<T>(items: Seq<T>, input: Seq<char>)
    requires
        forall|i: int| 0 <= i < input.len() ==> is_space(#[trigger] input[i]),
    ensures
        tokens(input).len() == 0,
        selection(items.len(), input) == uniform(items.len(), true),
        kept(items, selection(items.len(), input)) == items,
{
    lemma_leading_is(input, Class::Space, input.len());
    let rest = input.skip(input.len() as int);
    assert(rest.len() == 0);
    lemma_kept_all(items, uniform(items.len(), true));
}

/// A mask that is set throughout keeps every item.
pub proof fn lemma_kept_all<T>(items: Seq<T>, mask: Seq<bool>)
    requires
        forall|i: int| 0 <= i < items.len() ==> #[trigger] mask[i],
    ensures
        kept(items, mask) == items,
    decreases items.len(),
{
    if items.len() > 0 {
        lemma_kept_all(items.drop_last(), mask);
        assert(items.drop_last().push(items.last()) == items);
    }
}

/// What is kept was there before, in the same order: the kept items are
/// never more than the items.
pub proof fn lemma_kept_len<T>(items: Seq<T>, mask: Seq<bool>)
    ensures
        kept(items, mask).len() <= items.len(),
    decreases items.len(),
{
    if items.len() > 0 {
        lemma_kept_len(items.drop_last(), mask);
    }
}

/// Sets every entry of `mask` to `value`.
fn fill(mask: &mut Vec<bool>, value: bool)
    ensures
        final(mask)@ == uniform(old(mask)@.len(), value),
{
    let mut i: usize = 0;
    while i < mask.len()
        invariant
            i <= mask.len(),
            mask.len() == old(mask).len(),
            forall|k: int| 0 <= k < i ==> mask@[k] == value,
        decreases mask.len() - i,
    {
        mask.set(i, value);
        i += 1;
    }
    assert(mask@ =~= uniform(old(mask)@.len(), value));
}

/// Reads the positions that `word` names.
fn parse_range(word: &Vec<char>) -> (range: Option<(usize, usize)>)
    ensures
        range == range_of(word@),
{
    proof {
        assert(word@.skip(0) == word@);
    }
    let dash = count_leading(word, 0, Class::Not('-'));
    let first = slice_of(word, 0, dash);
    assert(first@ == word@.take(dash as int));
    let min = match parse_usize(&first) {
        None => {
            return None;
        },
        Some(n) => n,
    };
    let mut max = min;
    if dash < word.len() {
        let second = slice_of(word, dash + 1, word.len());
        assert(second@ == word@.skip(dash + 1));
        if let Some(n) = parse_usize(&second) {
            max = n;
        }
    }
    if min < max {
        Some((min, max))
    } else {
        Some((max, min))
    }
}

/// Applies one word to `mask`.
fn apply(mask: &mut Vec<bool>, word: &Vec<char>)
    ensures
        final(mask)@ == apply_word(old(mask)@, word@),
{
    proof {
        assert(word@.skip(0) == word@);
    }
    let carets = count_leading(word, 0, Class::Just('^'));
    let rest = slice_of(word, carets, word.len());
    assert(rest@ == word@.skip(carets as int));
    if rest.len() > 0 && rest[0] == 'a' {
        fill(mask, true);
    } else if rest.len() > 0 && rest[0] == 'n' {
        fill(mask, false);
    } else if let Some((low, high)) = parse_range(&rest) {
        let mut i: usize = 0;
        while i < mask.len()
            invariant
                i <= mask.len(),
                mask.len() == old(mask).len(),
                forall|k: int|
                    0 <= k < i ==> mask@[k] == if low <= k + 1 <= high {
                        carets == 0
                    } else {
                        old(mask)@[k]
                    },
                forall|k: int| i <= k < mask.len() ==> mask@[k] == old(mask)@[k],
            decreases mask.len() - i,
        {
            if low <= i + 1 && i + 1 <= high {
                mask.set(i, carets == 0);
            }
            i += 1;
        }
        assert(mask@ =~= apply_word(old(mask)@, word@));
    }
}

/// The mask that `input` selects among `total` records.
pub fn selection_mask(total: usize, input: &str) -> (mask: Vec<bool>)
    ensures
        mask@ == selection(total as nat, input@),
        mask@.len() == total,
{
    let chars = chars_of(input);
    let words = split_words(&chars);
    let mut mask: Vec<bool> = Vec::new();
    let blank = words.len() == 0;
    let mut n: usize = 0;
    while n < total
        invariant
            n <= total,
            mask@ == uniform(n as nat, blank),
        decreases total - n,
    {
        mask.push(blank);
        assert(mask@ =~= uniform((n + 1) as nat, blank));
        n += 1;
    }
    let ghost all = tokens(input@);
    let ghost start = mask@;
    let mut i: usize = 0;
    assert(all.take(0) == Seq::<Seq<char>>::empty());
    while i < words.len()
        invariant
            i <= words.len(),
            views(words@) == all,
            mask@ == apply_words(start, all.take(i as int)),
        decreases words.len() - i,
    {
        apply(&mut mask, &words[i]);
        proof {
            let upto = all.take(i + 1);
            assert(upto.drop_last() == all.take(i as int));
            assert(upto.last() == words@[i as int]@);
        }
        i += 1;
    }
    proof {
        assert(all.take(words@.len() as int) == all);
        lemma_apply_words_len(start, all);
    }
    mask
}

/// Keeps the records that `input` selects, in their order.
pub fn filter_backups(backups: Vec<Backup>, input: &str) -> (selected: Vec<Backup>)
    ensures
        selected@ == kept(backups@, selection(backups@.len(), input@)),
{
    let mask = selection_mask(backups.len(), input);
    let mut selected: Vec<Backup> = Vec::new();
    let ghost all = backups@;
    let mut i: usize = 0;
    assert(all.take(0) == Seq::<Backup>::empty());
    for backup in it: backups
        invariant
            it.seq() == all,
            i == it.index(),
            mask@.len() == all.len(),
            selected@ == kept(all.take(i as int), mask@),
    {
        proof {
            let upto = all.take(i + 1);
            assert(upto.drop_last() == all.take(i as int));
            assert(upto.last() == backup);
        }
        if mask[i] {
            selected.push(backup);
        }
        i += 1;
    }
    proof {
        assert(all.take(all.len() as int) == all);
    }
    selected
}

} // verus!
