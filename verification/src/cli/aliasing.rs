//! The spellings under which a name is accepted.

use vstd::prelude::*;
use crate::cases::{
    kebab_case, kebab_cased, lower_camel_case, lower_camel_cased, pascal_case, pascal_cased,
    shouty_kebab_case, shouty_kebab_cased, shouty_snake_case, shouty_snake_cased, snake_case,
    snake_cased, train_case, train_cased,
};

verus! {

/// The texts that a list of strings holds, in order.
pub open spec fn texts(list: Seq<String>) -> Seq<Seq<char>> {
    Seq::new(list.len(), |i: int| list[i]@)
}

/// The list with the texts of `more` appended one by one, each only if the
/// list does not hold it by then.
pub open spec fn merged(list: Seq<Seq<char>>, more: Seq<Seq<char>>) -> Seq<Seq<char>>
    decreases more.len(),
{
    if more.len() == 0 {
        list
    } else if merged(list, more.drop_last()).contains(more.last()) {
        merged(list, more.drop_last())
    } else {
        merged(list, more.drop_last()).push(more.last())
    }
}

/// The list with only the first occurrence of each text kept.
pub open spec fn without_repeats(list: Seq<Seq<char>>) -> Seq<Seq<char>> {
    merged(Seq::empty(), list)
}

/// A name and its seven case conversions, in the order in which they are
/// tried: lower camel, Pascal, Train, snake, kebab, shouty snake, shouty
/// kebab.
pub open spec fn spellings(base: Seq<char>) -> Seq<Seq<char>> {
    seq![
        base,
        lower_camel_cased(base),
        pascal_cased(base),
        train_cased(base),
        snake_cased(base),
        kebab_cased(base),
        shouty_snake_cased(base),
        shouty_kebab_cased(base),
    ]
}

/// Whether the list holds the text.
pub fn contains_text(list: &Vec<String>, text: &str) -> (found: bool)
    ensures
        found == texts(list@).contains(text@),
{
    let mut i: usize = 0;
    while i < list.len()
        invariant
            i <= list.len(),
            forall|j: int| 0 <= j < i ==> texts(list@)[j] != text@,
        decreases list.len() - i,
    {
        if *list[i].as_str() == *text {
            assert(texts(list@)[i as int] == text@);
            return true;
        }
        i += 1;
    }
    false
}

/// Appends the text unless the list holds it already.
pub fn push_new(list: &mut Vec<String>, text: String)
    ensures
        texts(final(list)@) == if texts(old(list)@).contains(text@) {
            texts(old(list)@)
        } else {
            texts(old(list)@).push(text@)
        },
{
    if !contains_text(list, text.as_str()) {
        let ghost before = texts(list@);
        list.push(text);
        assert(texts(list@) =~= before.push(text@));
    }
}

/// Appends each text of `more` that the list does not hold by then.
pub fn push_all_new(list: &mut Vec<String>, more: &Vec<String>)
    ensures
        texts(final(list)@) == merged(texts(old(list)@), texts(more@)),
{
    let mut i: usize = 0;
    assert(texts(more@).take(0) =~= Seq::empty());
    while i < more.len()
        invariant
            i <= more.len(),
            texts(list@) == merged(texts(old(list)@), texts(more@).take(i as int)),
        decreases more.len() - i,
    {
        proof {
            let next = texts(more@).take(i + 1);
            assert(next.drop_last() =~= texts(more@).take(i as int));
            assert(next.last() == more@[i as int]@);
        }
        push_new(list, more[i].clone());
        i += 1;
    }
    assert(texts(more@).take(more.len() as int) =~= texts(more@));
}

/// Merging two lists in turn is merging the one made of both.
pub proof fn lemma_merged_in_turn(list: Seq<Seq<char>>, first: Seq<Seq<char>>, second: Seq<Seq<char>>)
    ensures
        merged(merged(list, first), second) == merged(list, first + second),
    decreases second.len(),
{
    if second.len() == 0 {
        assert(first + second =~= first);
    } else {
        lemma_merged_in_turn(list, first, second.drop_last());
        assert((first + second).drop_last() =~= first + second.drop_last());
        assert((first + second).last() == second.last());
    }
}

/// Keeping first occurrences among the first `k` texts: the same among the
/// first `k - 1`, and then the `k`-th if it is new.
pub proof fn lemma_without_repeats_step(list: Seq<Seq<char>>, k: int)
    requires
        0 < k <= list.len(),
    ensures
        without_repeats(list.take(k)) == if without_repeats(list.take(k - 1)).contains(
            list[k - 1],
        ) {
            without_repeats(list.take(k - 1))
        } else {
            without_repeats(list.take(k - 1)).push(list[k - 1])
        },
{
    assert(list.take(k).drop_last() =~= list.take(k - 1));
    assert(list.take(k).last() == list[k - 1]);
}

/// The spellings of a name: the name itself, then each of its case
/// conversions that differs from all before it.
pub fn heck_aliases(input: &str) -> (aliases: Vec<String>)
    ensures
        texts(aliases@) == without_repeats(spellings(input@)),
{
    let mut aliases: Vec<String> = Vec::new();
    let ghost all = spellings(input@);
    assert(texts(aliases@) =~= without_repeats(all.take(0)));
    push_new(&mut aliases, input.to_owned());
    proof {
        lemma_without_repeats_step(all, 1);
    }
    push_new(&mut aliases, lower_camel_case(input));
    proof {
        lemma_without_repeats_step(all, 2);
    }
    push_new(&mut aliases, pascal_case(input));
    proof {
        lemma_without_repeats_step(all, 3);
    }
    push_new(&mut aliases, train_case(input));
    proof {
        lemma_without_repeats_step(all, 4);
    }
    push_new(&mut aliases, snake_case(input));
    proof {
        lemma_without_repeats_step(all, 5);
    }
    push_new(&mut aliases, kebab_case(input));
    proof {
        lemma_without_repeats_step(all, 6);
    }
    push_new(&mut aliases, shouty_snake_case(input));
    proof {
        lemma_without_repeats_step(all, 7);
    }
    push_new(&mut aliases, shouty_kebab_case(input));
    proof {
        lemma_without_repeats_step(all, 8);
        assert(all.take(8) =~= all);
    }
    aliases
}

} // verus!
