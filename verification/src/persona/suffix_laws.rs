//! What stands where in a suffix.

use crate::persona::suffix::{rule_elements, spliced, suffix_text};
use crate::text::{begins_with, nat_text};
use vstd::prelude::*;

verus! {

/// One more rule adds its element after the others: its entry as it is, under the number
/// of rules so far and one.
pub proof fn law_one_more_rule(entries: Seq<Seq<char>>, entry: Seq<char>)
    ensures
        rule_elements(entries.push(entry)) == rule_elements(entries) + "<rule"@ + nat_text(
            entries.len() + 1,
        ) + ">\n"@ + entry + "\n</rule"@ + nat_text(entries.len() + 1) + ">\n"@,
        rule_elements(Seq::empty()) == Seq::<char>::empty(),
{
    let more = entries.push(entry);
    let n = nat_text(entries.len() + 1);
    assert(more.drop_last() =~= entries);
    assert(rule_elements(more) =~= rule_elements(entries) + "<rule"@ + n + ">\n"@ + entry
        + "\n</rule"@ + n + ">\n"@);
}

/// Each rule stands after those before it, with its own entry under its own number.
pub proof fn law_each_rule_has_its_number(entries: Seq<Seq<char>>, i: int)
    requires
        0 <= i < entries.len(),
    ensures
        (rule_elements(entries.take(i)) + "<rule"@ + nat_text((i + 1) as nat) + ">\n"@ + entries[i]
            + "\n</rule"@ + nat_text((i + 1) as nat) + ">\n"@).is_prefix_of(
            rule_elements(entries),
        ),
    decreases entries.len(),
{
    let last = entries.len() - 1;
    law_one_more_rule(entries.take(last), entries[last]);
    assert(entries.take(last).push(entries[last]) =~= entries);
    if i < last {
        law_each_rule_has_its_number(entries.take(last), i);
        assert(entries.take(last).take(i) =~= entries.take(i));
    }
}

/// The rules of a suffix stand inside one system element; without rules there is no
/// suffix.
pub proof fn law_rules_are_enclosed(entries: Seq<Seq<char>>)
    ensures
        entries.len() == 0 ==> suffix_text(entries) == Seq::<char>::empty(),
        entries.len() > 0 ==> suffix_text(entries) == "<system>\n"@ + rule_elements(entries)
            + "</system>"@,
{
}

/// Splicing puts the clock element behind the opening line of the body, into a system
/// element of its own where there is no body, and into one before the body where the body
/// has no opening line.
pub proof fn law_splice_places(rest: Seq<char>, body: Seq<char>, now_element: Seq<char>)
    ensures
        spliced("<system>\n"@ + rest, now_element) == "<system>\n"@ + now_element + "\n"@ + rest,
        spliced(Seq::empty(), now_element) == "<system>\n"@ + now_element + "\n</system>"@,
        body.len() > 0 && !"<system>\n"@.is_prefix_of(body) ==> spliced(body, now_element)
            == "<system>\n"@ + now_element + "\n</system>\n"@ + body,
{
    reveal_strlit("<system>\n");
    let open = "<system>\n"@;
    let whole = open + rest;
    assert(whole.take(open.len() as int) =~= open);
    assert(begins_with(whole, open));
    assert(whole.skip(open.len() as int) =~= rest);
    if begins_with(body, open) {
        assert(open.is_prefix_of(body)) by {
            assert(open =~= body.subrange(0, open.len() as int));
        }
    }
}

} // verus!
