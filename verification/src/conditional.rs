//! Conditions on the text of a node, and the choice of the rule that gives a
//! text node another rendering.

use crate::ast::{rules_view, Condition, ConditionView, ConditionalFormat, Element, ElementView};
use crate::text::chars_of;
use vstd::prelude::*;

verus! {

/// Whether a pattern matches somewhere in a text; nothing where the pattern
/// does not compile.
pub uninterp spec fn regex_is_match(pattern: Seq<char>, text: Seq<char>) -> Option<bool>;

/// Compiles `pattern` with `regex::Regex::new` and asks `Regex::is_match`
/// whether it matches somewhere in `text`. The outcome depends on the pattern
/// and the text alone and is named by [`regex_is_match`].
#[verifier::external_body]
fn pattern_matches(pattern: &str, text: &str) -> (r: Option<bool>)
    ensures
        r == regex_is_match(pattern@, text@),
{
    match regex::Regex::new(pattern) {
        Ok(re) => Some(re.is_match(text)),
        Err(_) => None,
    }
}

/// The bit that holds the sign of a binary64 number.
pub const SIGN_BIT: u64 = 0x8000_0000_0000_0000;

/// The bits of positive infinity; a greater magnitude is no number.
pub const INFINITY_BITS: u64 = 0x7FF0_0000_0000_0000;

/// The bits of a binary64 number without its sign.
pub open spec fn magnitude(bits: u64) -> nat {
    if bits >= SIGN_BIT {
        (bits - SIGN_BIT) as nat
    } else {
        bits as nat
    }
}

/// Whether the bits stand for no number.
pub open spec fn not_a_number(bits: u64) -> bool {
    magnitude(bits) > INFINITY_BITS
}

/// A whole number that orders binary64 numbers as they are ordered: the
/// magnitude, below zero for a negative number. Both zeros have the rank 0.
pub open spec fn rank(bits: u64) -> int {
    if bits >= SIGN_BIT {
        -(magnitude(bits) as int)
    } else {
        magnitude(bits) as int
    }
}

/// Whether the binary64 number `a` is greater than `b`. Nothing is greater
/// or less than what is no number.
pub open spec fn greater(a: u64, b: u64) -> bool {
    !not_a_number(a) && !not_a_number(b) && rank(a) > rank(b)
}

/// Whether `needle` occurs in `text` at `at`.
pub open spec fn occurs_at(text: Seq<char>, needle: Seq<char>, at: int) -> bool {
    0 <= at && at + needle.len() <= text.len() && text.subrange(at, at + needle.len()) == needle
}

/// Whether `needle` occurs somewhere in `text`.
pub open spec fn contains(text: Seq<char>, needle: Seq<char>) -> bool {
    exists|at: int| occurs_at(text, needle, at)
}

/// Whether a condition holds of a value, where `number` is the value read as
/// a binary64 number, if it is one. A pattern that does not compile matches
/// nothing, and a custom condition never holds.
pub open spec fn holds(condition: ConditionView, value: Seq<char>, number: Option<u64>) -> bool {
    match condition {
        ConditionView::GreaterThan(threshold) => match number {
            Some(v) => greater(v, threshold),
            None => false,
        },
        ConditionView::LessThan(threshold) => match number {
            Some(v) => greater(threshold, v),
            None => false,
        },
        ConditionView::Equals(expected) => value == expected,
        ConditionView::Contains(needle) => contains(value, needle),
        ConditionView::Regex(pattern) => regex_is_match(pattern, value) == Some(true),
        ConditionView::Custom(_) => false,
    }
}

/// Compares two binary64 numbers by their bits.
pub fn is_greater(a: u64, b: u64) -> (r: bool)
    ensures
        r == greater(a, b),
{
    let a_negative = a >= SIGN_BIT;
    let b_negative = b >= SIGN_BIT;
    let a_magnitude = if a_negative {
        a - SIGN_BIT
    } else {
        a
    };
    let b_magnitude = if b_negative {
        b - SIGN_BIT
    } else {
        b
    };
    if a_magnitude > INFINITY_BITS || b_magnitude > INFINITY_BITS {
        false
    } else if a_negative && b_negative {
        a_magnitude < b_magnitude
    } else if a_negative {
        false
    } else if b_negative {
        a_magnitude > 0 || b_magnitude > 0
    } else {
        a_magnitude > b_magnitude
    }
}

/// Whether `needle` stands in `text` at `at`.
#[verifier::loop_isolation(false)]
fn stands_at(text: &Vec<char>, needle: &Vec<char>, at: usize) -> (r: bool)
    requires
        at + needle@.len() <= text@.len(),
    ensures
        r == occurs_at(text@, needle@, at as int),
{
    assert(text@.len() <= usize::MAX) by {
        vstd::std_specs::vec::axiom_spec_len(text);
    }
    let mut k: usize = 0;
    while k < needle.len()
        invariant
            at + needle@.len() <= text@.len(),
            k <= needle@.len(),
            forall|j: int| 0 <= j < k ==> text@[at + j] == needle@[j],
        decreases needle.len() - k,
    {
        if text[at + k] != needle[k] {
            assert(text@.subrange(at as int, at + needle@.len())[k as int] != needle@[k as int]);
            return false;
        }
        k += 1;
    }
    assert(text@.subrange(at as int, at + needle@.len()) =~= needle@);
    true
}

/// Whether `needle` occurs somewhere in `text`.
#[verifier::loop_isolation(false)]
pub fn text_contains(text: &str, needle: &str) -> (r: bool)
    ensures
        r == contains(text@, needle@),
{
    let hay = chars_of(text);
    let sought = chars_of(needle);
    if sought.len() > hay.len() {
        assert(!contains(text@, needle@));
        return false;
    }
    let last = hay.len() - sought.len();
    let mut at: usize = 0;
    while at <= last
        invariant
            at <= last + 1,
            forall|j: int| 0 <= j < at ==> !occurs_at(text@, needle@, j),
        decreases last + 1 - at,
    {
        if stands_at(&hay, &sought, at) {
            assert(occurs_at(text@, needle@, at as int));
            return true;
        }
        if at == last {
            assert(!contains(text@, needle@));
            return false;
        }
        at += 1;
    }
    assert(!contains(text@, needle@));
    false
}

impl Condition {
    /// Whether the condition holds of `value`, where `number` is the value
    /// read as a binary64 number, if it is one.
    pub fn evaluate(&self, value: &str, number: Option<u64>) -> (r: bool)
        ensures
            r == holds(self@, value@, number),
    {
        match self {
            Condition::GreaterThan(threshold) => match number {
                Some(v) => is_greater(v, *threshold),
                None => false,
            },
            Condition::LessThan(threshold) => match number {
                Some(v) => is_greater(*threshold, v),
                None => false,
            },
            Condition::Equals(expected) => value.eq(expected.as_str()),
            Condition::Contains(needle) => text_contains(value, needle.as_str()),
            Condition::Regex(pattern) => match pattern_matches(pattern.as_str(), value) {
                Some(matched) => matched,
                None => false,
            },
            Condition::Custom(_) => false,
        }
    }
}

/// The place of the first of the first `count` rules that holds of a value.
pub open spec fn first_holding(
    rules: Seq<ConditionView>,
    value: Seq<char>,
    number: Option<u64>,
    start: int,
) -> Option<int>
    decreases rules.len() - start,
{
    if 0 <= start < rules.len() {
        if holds(rules[start], value, number) {
            Some(start)
        } else {
            first_holding(rules, value, number, start + 1)
        }
    } else {
        None
    }
}

/// The rule that applies to a node: the first whose condition holds of the
/// text of a text node; none for any other node.
pub open spec fn selected(element: ElementView, rules: Seq<ConditionView>, number: Option<u64>) -> Option<
    int,
> {
    match element {
        ElementView::Text(text) => first_holding(rules, text, number, 0),
        _ => None,
    }
}

/// Finds the rule that applies to a node, where `number` is the text of the
/// node read as a binary64 number, if it is one.
#[verifier::loop_isolation(false)]
pub fn select_format(element: &Element, rules: &[ConditionalFormat], number: Option<u64>) -> (r:
    Option<usize>)
    ensures
        match r {
            Some(i) => selected(element.view(), rules_view(rules@), number) == Some(i as int),
            None => selected(element.view(), rules_view(rules@), number) is None,
        },
{
    match element {
        Element::Text(text) => {
            let ghost views = rules_view(rules@);
            let mut i: usize = 0;
            while i < rules.len()
                invariant
                    views == rules_view(rules@),
                    i <= rules@.len(),
                    first_holding(views, text@, number, 0) == first_holding(
                        views,
                        text@,
                        number,
                        i as int,
                    ),
                decreases rules.len() - i,
            {
                assert(views[i as int] == rules@[i as int].condition@);
                if rules[i].condition.evaluate(text.as_str(), number) {
                    return Some(i);
                }
                i += 1;
            }
            None
        },
        _ => None,
    }
}

/// The node that stands for `element` once the rule that applies to it has
/// done its work: the first of the nodes that the rule's transformation made
/// of the node, and the node itself where no rule applies or the
/// transformation made nothing.
pub fn apply_conditional_format(element: Element, formatted: Option<Vec<Element>>) -> (r: Element)
    ensures
        r.view() == match formatted {
            Some(nodes) => if nodes@.len() > 0 {
                nodes@[0].view()
            } else {
                element.view()
            },
            None => element.view(),
        },
{
    match formatted {
        Some(mut nodes) => {
            if nodes.len() > 0 {
                nodes.swap_remove(0)
            } else {
                element
            }
        },
        None => element,
    }
}

} // verus!
