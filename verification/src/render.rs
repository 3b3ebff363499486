//! Rendering observed rule tags for error messages.

use vstd::prelude::*;
use crate::tag::RuleTag;

verus! {

/// The character for a decimal digit.
pub open spec fn digit_char(d: int) -> char {
    if d == 0 {
        '0'
    } else if d == 1 {
        '1'
    } else if d == 2 {
        '2'
    } else if d == 3 {
        '3'
    } else if d == 4 {
        '4'
    } else if d == 5 {
        '5'
    } else if d == 6 {
        '6'
    } else if d == 7 {
        '7'
    } else if d == 8 {
        '8'
    } else {
        '9'
    }
}

/// The decimal numeral of `n`, without leading zeros.
pub open spec fn decimal(n: nat) -> Seq<char>
    decreases n,
{
    if n < 10 {
        seq![digit_char(n as int)]
    } else {
        decimal(n / 10).push(digit_char((n % 10) as int))
    }
}

/// The identifiers of the tags as decimal numerals, separated by a comma and
/// a space.
pub open spec fn joined(tags: Seq<RuleTag>) -> Seq<char>
    decreases tags.len(),
{
    if tags.len() == 0 {
        Seq::empty()
    } else if tags.len() == 1 {
        decimal(tags[0].id as nat)
    } else {
        joined(tags.drop_last()) + seq![',', ' '] + decimal(tags.last().id as nat)
    }
}

/// The tags as a bracketed list, such as `[0, 1, 1, 2]`.
pub open spec fn rendered(tags: Seq<RuleTag>) -> Seq<char> {
    seq!['['] + joined(tags) + seq![']']
}

/// The sentence that reports that no pattern fits the observed tags.
pub open spec fn no_match_text(tags: Seq<RuleTag>) -> Seq<char> {
    "Nodes didn't match any pattern: "@ + rendered(tags)
}

fn digit_str(d: u32) -> (text: &'static str)
    requires
        d < 10,
    ensures
        text@ == seq![digit_char(d as int)],
{
    proof {
        reveal_strlit("0");
        reveal_strlit("1");
        reveal_strlit("2");
        reveal_strlit("3");
        reveal_strlit("4");
        reveal_strlit("5");
        reveal_strlit("6");
        reveal_strlit("7");
        reveal_strlit("8");
        reveal_strlit("9");
    }
    let text = if d == 0 {
        "0"
    } else if d == 1 {
        "1"
    } else if d == 2 {
        "2"
    } else if d == 3 {
        "3"
    } else if d == 4 {
        "4"
    } else if d == 5 {
        "5"
    } else if d == 6 {
        "6"
    } else if d == 7 {
        "7"
    } else if d == 8 {
        "8"
    } else {
        "9"
    };
    assert(text@ =~= seq![digit_char(d as int)]);
    text
}

fn push_decimal(out: &mut String, n: u32)
    ensures
        final(out)@ == old(out)@ + decimal(n as nat),
    decreases n,
{
    if n >= 10 {
        push_decimal(out, n / 10);
    }
    out.append(digit_str(n % 10));
    assert(out@ == old(out)@ + decimal(n as nat));
}

/// Renders the tags as a bracketed list of their identifiers.
pub fn render_tags(tags: &Vec<RuleTag>) -> (text: String)
    ensures
        text@ == rendered(tags@),
{
    let mut text = String::new();
    proof {
        reveal_strlit("[");
        reveal_strlit(", ");
        reveal_strlit("]");
    }
    text.append("[");
    let mut i: usize = 0;
    while i < tags.len()
        invariant
            i <= tags.len(),
            ", "@ == seq![',', ' '],
            text@ == seq!['['] + joined(tags@.take(i as int)),
        decreases tags.len() - i,
    {
        if i > 0 {
            text.append(", ");
        }
        push_decimal(&mut text, tags[i].id);
        proof {
            let upto = tags@.take(i + 1);
            assert(upto.drop_last() == tags@.take(i as int));
            assert(upto.last() == tags@[i as int]);
            assert(text@ == seq!['['] + joined(upto));
        }
        i += 1;
    }
    proof {
        assert(tags@.take(tags.len() as int) == tags@);
    }
    text.append("]");
    text
}

/// Says that no pattern fits, and which tags were observed.
pub fn describe_no_match(observed_tags: &Vec<RuleTag>) -> (text: String)
    ensures
        text@ == no_match_text(observed_tags@),
{
    let list = render_tags(observed_tags);
    let mut text = "Nodes didn't match any pattern: ".to_owned();
    text.append(list.as_str());
    text
}

} // verus!
