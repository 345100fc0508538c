//! The trailing rules of a reply request.

use crate::text::{begins_with, chars_of, concat3, nat_text, text_of, texts, u64_text};
use vstd::prelude::*;

verus! {

/// The opening line of the suffix.
pub const SYSTEM_OPEN: &'static str = "<system>\n";

/// One numbered rule element.
pub open spec fn rule_element(n: nat, entry: Seq<char>) -> Seq<char> {
    "<rule"@ + nat_text(n) + ">\n"@ + entry + "\n</rule"@ + nat_text(n) + ">\n"@
}

/// The rule elements, numbered from one.
pub open spec fn rule_elements(entries: Seq<Seq<char>>) -> Seq<char>
    decreases entries.len(),
{
    if entries.len() == 0 {
        Seq::empty()
    } else {
        rule_elements(entries.drop_last()) + rule_element(entries.len(), entries.last())
    }
}

/// The suffix: the numbered rules inside one system element; nothing for no rules.
pub open spec fn suffix_text(entries: Seq<Seq<char>>) -> Seq<char> {
    if entries.len() == 0 {
        Seq::empty()
    } else {
        SYSTEM_OPEN@ + rule_elements(entries) + "</system>"@
    }
}

/// Renders the suffix. The entries stand verbatim in it.
pub fn render_suffix(entries: &[String]) -> (r: String)
    ensures
        r@ == suffix_text(texts(entries@)),
{
    if entries.len() == 0 {
        return String::new();
    }
    let ghost all = texts(entries@);
    let mut out = SYSTEM_OPEN.to_owned();
    let mut i: usize = 0;
    assert(out@ =~= SYSTEM_OPEN@ + rule_elements(all.take(0)));
    while i < entries.len()
        invariant
            i <= entries@.len(),
            all == texts(entries@),
            out@ == SYSTEM_OPEN@ + rule_elements(all.take(i as int)),
        decreases entries@.len() - i,
    {
        assert(all.take(i + 1).drop_last() =~= all.take(i as int));
        let n = u64_text(i as u64 + 1);
        out.append("<rule");
        out.append(n.as_str());
        out.append(">\n");
        out.append(entries[i].as_str());
        out.append("\n</rule");
        out.append(n.as_str());
        out.append(">\n");
        assert(out@ =~= SYSTEM_OPEN@ + rule_elements(all.take(i + 1)));
        i += 1;
    }
    assert(all.take(i as int) =~= all);
    out.append("</system>");
    out
}

/// The suffix with the clock element as the first child of its system element. A body
/// of another shape keeps all its content after a system element of its own.
pub open spec fn spliced(body: Seq<char>, now_element: Seq<char>) -> Seq<char> {
    if body.len() == 0 {
        "<system>\n"@ + now_element + "\n</system>"@
    } else if begins_with(body, SYSTEM_OPEN@) {
        SYSTEM_OPEN@ + now_element + "\n"@ + body.skip(SYSTEM_OPEN@.len() as int)
    } else {
        "<system>\n"@ + now_element + "\n</system>\n"@ + body
    }
}

/// Splices the clock element into the suffix.
pub fn splice_now_element(body: &str, now_element: &str) -> (r: String)
    ensures
        r@ == spliced(body@, now_element@),
{
    if body.is_empty() {
        return concat3("<system>\n", now_element, "\n</system>");
    }
    let open = chars_of(SYSTEM_OPEN);
    let chars = chars_of(body);
    let mut i: usize = 0;
    while i < open.len() && i < chars.len() && chars[i] == open[i]
        invariant
            open@ == SYSTEM_OPEN@,
            chars@ == body@,
            i <= open@.len(),
            i <= chars@.len(),
            forall|k: int| 0 <= k < i ==> chars@[k] == open@[k],
        decreases open@.len() - i,
    {
        i += 1;
    }
    if i == open.len() {
        assert(body@.take(open@.len() as int) =~= SYSTEM_OPEN@);
        let mut rest: Vec<char> = Vec::new();
        let mut j: usize = i;
        while j < chars.len()
            invariant
                open@ == SYSTEM_OPEN@,
                chars@ == body@,
                i == open@.len(),
                i <= j <= chars@.len(),
                rest@ == body@.subrange(i as int, j as int),
            decreases chars@.len() - j,
        {
            rest.push(chars[j]);
            j += 1;
        }
        assert(rest@ =~= body@.skip(SYSTEM_OPEN@.len() as int));
        let tail = text_of(&rest);
        let mut out = concat3(SYSTEM_OPEN, now_element, "\n");
        out.append(tail.as_str());
        out
    } else {
        proof {
            if begins_with(body@, SYSTEM_OPEN@) {
                assert(body@.take(SYSTEM_OPEN@.len() as int)[i as int] == SYSTEM_OPEN@[i as int]);
            }
        }
        let mut out = concat3("<system>\n", now_element, "\n</system>\n");
        out.append(body);
        out
    }
}

/// In a rendered suffix the clock element comes first inside the system element, ahead
/// of every rule, and every rule stays.
pub proof fn law_clock_precedes_the_rules(entries: Seq<Seq<char>>, now_element: Seq<char>)
    requires
        entries.len() > 0,
    ensures
        spliced(suffix_text(entries), now_element) == SYSTEM_OPEN@ + now_element + "\n"@
            + rule_elements(entries) + "</system>"@,
{
    let body = suffix_text(entries);
    reveal_strlit("<system>\n");
    assert(body.take(SYSTEM_OPEN@.len() as int) =~= SYSTEM_OPEN@);
    assert(body.len() > 0);
    assert(body.skip(SYSTEM_OPEN@.len() as int) =~= rule_elements(entries) + "</system>"@);
    assert(spliced(body, now_element) =~= SYSTEM_OPEN@ + now_element + "\n"@ + rule_elements(
        entries,
    ) + "</system>"@);
}

/// Splicing never drops content: the clock element and the whole body are in the
/// result, the body at most without its opening line, which comes first then.
pub proof fn law_splice_keeps_everything(body: Seq<char>, now_element: Seq<char>)
    ensures
        exists|head: Seq<char>, tail: Seq<char>|
            #![trigger head + now_element + tail]
            spliced(body, now_element) == head + now_element + tail && (if begins_with(
                body,
                SYSTEM_OPEN@,
            ) {
                head == SYSTEM_OPEN@ && tail == "\n"@ + body.skip(SYSTEM_OPEN@.len() as int)
            } else {
                tail == (if body.len() == 0 {
                    "\n</system>"@
                } else {
                    "\n</system>\n"@ + body
                })
            }),
{
    reveal_strlit("<system>\n");
    if body.len() == 0 {
        let head = "<system>\n"@;
        let tail = "\n</system>"@;
        assert(spliced(body, now_element) =~= head + now_element + tail);
        assert(!begins_with(body, SYSTEM_OPEN@));
    } else if begins_with(body, SYSTEM_OPEN@) {
        let head = SYSTEM_OPEN@;
        let tail = "\n"@ + body.skip(SYSTEM_OPEN@.len() as int);
        assert(spliced(body, now_element) =~= head + now_element + tail);
    } else {
        let head = "<system>\n"@;
        let tail = "\n</system>\n"@ + body;
        assert(spliced(body, now_element) =~= head + now_element + tail);
    }
}

} // verus!
