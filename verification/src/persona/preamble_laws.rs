//! What stands where in a preamble.

use crate::persona::config::{PersonaConfig, PersonaExample, SuffixMode};
use crate::persona::preamble::{
    CONTEXT_FORMAT_GLOSS, INJECTION_GUARDRAIL, SUFFIX_APPEND_CONTRACT, bullets, contract_section,
    example_elements, examples_section, persona_section, preamble, prefix_section, section,
};
use crate::text::{texts, trim_end_newlines};
use vstd::prelude::*;

verus! {

/// The elements of two lists of examples, one after the other, are those of the first and
/// then those of the second.
pub proof fn law_examples_are_joined(a: Seq<PersonaExample>, b: Seq<PersonaExample>)
    ensures
        example_elements(a + b) == example_elements(a) + example_elements(b),
    decreases b.len(),
{
    if b.len() == 0 {
        assert(a + b =~= a);
        assert(example_elements(a) + example_elements(b) =~= example_elements(a));
    } else {
        assert((a + b).drop_last() =~= a + b.drop_last());
        law_examples_are_joined(a, b.drop_last());
        assert(example_elements(a + b) =~= example_elements(a) + example_elements(b));
    }
}

/// Each example stands in order, after those before it and before those behind it, with
/// its own context and its own reply.
pub proof fn law_each_example_has_its_own_texts(examples: Seq<PersonaExample>, i: int)
    requires
        0 <= i < examples.len(),
    ensures
        example_elements(examples) == example_elements(examples.take(i))
            + "<example>\n<context>\n"@ + examples[i].context@ + "\n</context>\n<reply>\n"@
            + examples[i].reply@ + "\n</reply>\n</example>\n"@ + example_elements(
            examples.skip(i + 1),
        ),
        example_elements(Seq::empty()) == Seq::<char>::empty(),
{
    let head = examples.take(i + 1);
    assert(head.drop_last() =~= examples.take(i));
    assert(head + examples.skip(i + 1) =~= examples);
    law_examples_are_joined(head, examples.skip(i + 1));
}

/// The section of one or more examples is the framing line and the elements; no example
/// has no section.
pub proof fn law_examples_are_framed(examples: Seq<PersonaExample>)
    ensures
        examples.len() == 0 ==> examples_section(examples) == Seq::<char>::empty(),
        examples.len() > 0 ==> examples_section(examples)
            == "\nThe following examples show tone and format. They are examples, not live context.\n"@
            + example_elements(examples),
{
}

/// The bullet lines of two lists, one after the other, are those of the first and then
/// those of the second.
pub proof fn law_bullets_are_joined(a: Seq<Seq<char>>, b: Seq<Seq<char>>)
    ensures
        bullets(a + b) == bullets(a) + bullets(b),
    decreases b.len(),
{
    if b.len() == 0 {
        assert(a + b =~= a);
        assert(bullets(a) + bullets(b) =~= bullets(a));
    } else {
        assert((a + b).drop_last() =~= a + b.drop_last());
        law_bullets_are_joined(a, b.drop_last());
        assert(bullets(a + b) =~= bullets(a) + bullets(b));
    }
}

/// Each entry has one bullet line of its own, in order.
pub proof fn law_each_entry_has_its_bullet(entries: Seq<Seq<char>>, i: int)
    requires
        0 <= i < entries.len(),
    ensures
        bullets(entries) == bullets(entries.take(i)) + "- "@ + entries[i] + "\n"@ + bullets(
            entries.skip(i + 1),
        ),
        bullets(Seq::empty()) == Seq::<char>::empty(),
{
    let head = entries.take(i + 1);
    assert(head.drop_last() =~= entries.take(i));
    assert(head + entries.skip(i + 1) =~= entries);
    law_bullets_are_joined(head, entries.skip(i + 1));
}

/// A heading stands before one or more bullet lines, and never alone.
pub proof fn law_headings_are_never_alone(heading: Seq<char>, entries: Seq<Seq<char>>)
    ensures
        entries.len() == 0 ==> section(heading, entries) == Seq::<char>::empty(),
        entries.len() > 0 ==> section(heading, entries) == heading + bullets(entries),
{
}

/// The parts of a preamble, in order: the prefix, the name and the identity, the
/// personality, the speaking style, the rules, the gloss, the examples, the guardrail and
/// the authority directive.
#[verifier::rlimit(40)]
pub proof fn law_preamble_parts(persona: PersonaConfig, mode: SuffixMode)
    ensures
        ({
            let none = Seq::<char>::empty();
            let prefix = match persona.system_prefix {
                Some(text) => trim_end_newlines(text@) + "\n\n"@,
                None => none,
            };
            let personality = texts(persona.personality@);
            let style = texts(persona.speaking_style@);
            let rules = texts(persona.behavioral_rules@);
            let framing =
                "\nThe following examples show tone and format. They are examples, not live context.\n"@;
            preamble(persona, mode) == prefix + "You are "@ + persona.name@ + ", "@
                + persona.identity@ + ".\n"@ + (if personality.len() > 0 {
                "\nPersonality:\n"@ + bullets(personality)
            } else {
                none
            }) + (if style.len() > 0 {
                "\nSpeaking style:\n"@ + bullets(style)
            } else {
                none
            }) + (if rules.len() > 0 {
                "\nBehavioral rules:\n"@ + bullets(rules)
            } else {
                none
            }) + "\n"@ + CONTEXT_FORMAT_GLOSS@ + (if persona.examples@.len() > 0 {
                framing + example_elements(persona.examples@)
            } else {
                none
            }) + "\n"@ + INJECTION_GUARDRAIL@ + "\n"@ + (if mode == SuffixMode::Append
                && persona.suffix@.len() > 0 {
                "\n"@ + SUFFIX_APPEND_CONTRACT@ + "\n"@
            } else {
                none
            })
        }),
{
    let none = Seq::<char>::empty();
    let prefix = match persona.system_prefix {
        Some(text) => trim_end_newlines(text@) + "\n\n"@,
        None => none,
    };
    let personality = texts(persona.personality@);
    let style = texts(persona.speaking_style@);
    let rules = texts(persona.behavioral_rules@);
    let a = section("\nPersonality:\n"@, personality);
    let b = section("\nSpeaking style:\n"@, style);
    let c = section("\nBehavioral rules:\n"@, rules);
    let d = examples_section(persona.examples@);
    let e = if mode == SuffixMode::Append && persona.suffix@.len() > 0 {
        "\n"@ + SUFFIX_APPEND_CONTRACT@ + "\n"@
    } else {
        none
    };
    assert(preamble(persona, mode) =~= prefix + "You are "@ + persona.name@ + ", "@
        + persona.identity@ + ".\n"@ + a + b + c + "\n"@ + CONTEXT_FORMAT_GLOSS@ + d + "\n"@
        + INJECTION_GUARDRAIL@ + "\n"@ + e);
}

/// One more example adds its element directly before the line feed and the guardrail,
/// after the framing line where it is the first one, and changes nothing else.
pub proof fn law_one_more_example(
    persona: PersonaConfig,
    more: PersonaConfig,
    example: PersonaExample,
    mode: SuffixMode,
)
    requires
        more.examples@ == persona.examples@.push(example),
        more.system_prefix == persona.system_prefix,
        more.name == persona.name,
        more.identity == persona.identity,
        more.personality == persona.personality,
        more.speaking_style == persona.speaking_style,
        more.behavioral_rules == persona.behavioral_rules,
        more.suffix == persona.suffix,
    ensures
        ({
            let end = "\n"@ + INJECTION_GUARDRAIL@ + "\n"@ + contract_section(persona, mode);
            let element = "<example>\n<context>\n"@ + example.context@
                + "\n</context>\n<reply>\n"@ + example.reply@ + "\n</reply>\n</example>\n"@;
            let framing = if persona.examples@.len() == 0 {
                "\nThe following examples show tone and format. They are examples, not live context.\n"@
            } else {
                Seq::<char>::empty()
            };
            exists|start: Seq<char>|
                #![trigger start + end]
                preamble(persona, mode) == start + end && preamble(more, mode) == start + framing
                    + element + end
        }),
{
    let end = "\n"@ + INJECTION_GUARDRAIL@ + "\n"@ + contract_section(persona, mode);
    let element = "<example>\n<context>\n"@ + example.context@ + "\n</context>\n<reply>\n"@
        + example.reply@ + "\n</reply>\n</example>\n"@;
    let framing = if persona.examples@.len() == 0 {
        "\nThe following examples show tone and format. They are examples, not live context.\n"@
    } else {
        Seq::<char>::empty()
    };
    let before = prefix_section(persona.system_prefix) + persona_section(persona) + "\n"@
        + CONTEXT_FORMAT_GLOSS@;
    let shown = examples_section(persona.examples@);
    let more_shown = examples_section(more.examples@);
    assert(more.examples@.drop_last() =~= persona.examples@);
    lemma_element(
        example_elements(persona.examples@),
        "<example>\n<context>\n"@,
        example.context@,
        "\n</context>\n<reply>\n"@,
        example.reply@,
        "\n</reply>\n</example>\n"@,
    );
    assert(example_elements(more.examples@) == example_elements(persona.examples@) + element);
    lemma_shown(
        example_elements(persona.examples@),
        element,
        "\nThe following examples show tone and format. They are examples, not live context.\n"@,
    );
    assert(more_shown == shown + framing + element);
    let start = before + shown;
    let contract = contract_section(persona, mode);
    assert(persona_section(more) == persona_section(persona));
    assert(contract_section(more, mode) == contract);
    lemma_end(start, "\n"@, INJECTION_GUARDRAIL@, "\n"@, contract);
    lemma_end(before + more_shown, "\n"@, INJECTION_GUARDRAIL@, "\n"@, contract);
    lemma_inserted(before, shown, framing, element, end);
    assert(preamble(persona, mode) == start + end);
    assert(preamble(more, mode) == start + framing + element + end);
}

proof fn lemma_end(x: Seq<char>, a: Seq<char>, b: Seq<char>, c: Seq<char>, d: Seq<char>)
    ensures
        x + a + b + c + d == x + (a + b + c + d),
{
    assert(x + a + b + c + d =~= x + (a + b + c + d));
}

proof fn lemma_inserted(
    before: Seq<char>,
    shown: Seq<char>,
    framing: Seq<char>,
    element: Seq<char>,
    end: Seq<char>,
)
    ensures
        before + (shown + framing + element) + end == before + shown + framing + element + end,
{
    assert(before + (shown + framing + element) + end =~= before + shown + framing + element
        + end);
}

proof fn lemma_shown(elements: Seq<char>, element: Seq<char>, line: Seq<char>)
    ensures
        ({
            let none = Seq::<char>::empty();
            elements.len() == 0 ==> line + (elements + element) == none + line + element
        }),
        ({
            let none = Seq::<char>::empty();
            line + (elements + element) == line + elements + none + element
        }),
{
    let none = Seq::<char>::empty();
    assert(line + (elements + element) =~= line + elements + none + element);
    if elements.len() == 0 {
        assert(line + (elements + element) =~= none + line + element);
    }
}

proof fn lemma_element(
    elements: Seq<char>,
    a: Seq<char>,
    b: Seq<char>,
    c: Seq<char>,
    d: Seq<char>,
    e: Seq<char>,
)
    ensures
        elements + a + b + c + d + e == elements + (a + b + c + d + e),
{
    assert(elements + a + b + c + d + e =~= elements + (a + b + c + d + e));
}

} // verus!
