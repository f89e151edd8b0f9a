//! Building the texts of messages: numbers in decimal and joined lists.

use vstd::prelude::*;
use crate::labels::{labels_of, Label};

verus! {

/// The character of a decimal digit.
pub open spec fn digit_char(d: nat) -> char {
    if d == 0 {
        '0'
    } else if d == 1 {
        '1'
    } else if d == 2 {
        '2'
    } else if d == 3 {
        '3'
    } else if d == 4 {
        '4'
    } else if d == 5 {
        '5'
    } else if d == 6 {
        '6'
    } else if d == 7 {
        '7'
    } else if d == 8 {
        '8'
    } else {
        '9'
    }
}

/// A number written in decimal, without leading zeros.
pub open spec fn decimal(n: nat) -> Seq<char>
    decreases n,
{
    if n < 10 {
        seq![digit_char(n)]
    } else {
        decimal(n / 10).push(digit_char(n % 10))
    }
}

/// The labels of a list, separated by a comma and a space.
pub open spec fn joined(labels: Seq<Label>) -> Seq<char>
    decreases labels.len(),
{
    if labels.len() == 0 {
        Seq::empty()
    } else if labels.len() == 1 {
        labels[0]
    } else {
        joined(labels.drop_last()) + ", "@ + labels.last()
    }
}

/// The text of one decimal digit.
fn digit_text(d: u32) -> (text: &'static str)
    requires
        d < 10,
    ensures
        text@ == seq![digit_char(d as nat)],
{
    proof {
        reveal_strlit("0");
        reveal_strlit("1");
        reveal_strlit("2");
        reveal_strlit("3");
        reveal_strlit("4");
        reveal_strlit("5");
        reveal_strlit("6");
        reveal_strlit("7");
        reveal_strlit("8");
        reveal_strlit("9");
    }
    let text = if d == 0 {
        "0"
    } else if d == 1 {
        "1"
    } else if d == 2 {
        "2"
    } else if d == 3 {
        "3"
    } else if d == 4 {
        "4"
    } else if d == 5 {
        "5"
    } else if d == 6 {
        "6"
    } else if d == 7 {
        "7"
    } else if d == 8 {
        "8"
    } else {
        "9"
    };
    assert(text@ =~= seq![digit_char(d as nat)]);
    text
}

/// Writes a number in decimal.
pub fn decimal_text(n: u32) -> (text: String)
    ensures
        text@ == decimal(n as nat),
    decreases n,
{
    if n < 10 {
        String::from_str(digit_text(n))
    } else {
        let mut text = decimal_text(n / 10);
        text.append(digit_text(n % 10));
        assert(text@ =~= decimal((n / 10) as nat).push(digit_char((n % 10) as nat)));
        text
    }
}

/// Joins the labels of a list with a comma and a space.
pub fn join_labels(list: &Vec<String>) -> (text: String)
    ensures
        text@ == joined(labels_of(list@)),
{
    let mut text = String::new();
    let mut i: usize = 0;
    assert(labels_of(list@).take(0) =~= Seq::<Label>::empty());
    while i < list.len()
        invariant
            i <= list.len(),
            text@ == joined(labels_of(list@).take(i as int)),
        decreases list.len() - i,
    {
        let ghost head = labels_of(list@).take(i as int);
        let ghost next = labels_of(list@).take(i + 1);
        proof {
            assert(next.drop_last() =~= head);
            assert(next.last() == list@[i as int]@);
        }
        if i > 0 {
            text.append(", ");
        }
        text.append(list[i].as_str());
        proof {
            if i == 0 {
                assert(text@ =~= next[0]);
            }
        }
        i += 1;
    }
    assert(labels_of(list@).take(i as int) =~= labels_of(list@));
    text
}

} // verus!
