//! The written form of a view: its elements between brackets.

use vstd::prelude::*;
use vstd::string::StringExecFns;

verus! {

/// The texts in `parts`, in order, with a comma and a space between each
/// two neighbours.
pub open spec fn joined(parts: Seq<Seq<char>>) -> Seq<char>
    decreases parts.len(),
{
    if parts.len() == 0 {
        Seq::empty()
    } else if parts.len() == 1 {
        parts[0]
    } else {
        joined(parts.drop_last()) + seq![',', ' '] + parts.last()
    }
}

/// The texts in `parts` as a list: joined, between `[` and `]`.
pub open spec fn bracketed(parts: Seq<Seq<char>>) -> Seq<char> {
    seq!['['] + joined(parts) + seq![']']
}

/// The characters of each of `texts`, in the same order.
pub open spec fn chars_of(texts: Seq<String>) -> Seq<Seq<char>> {
    Seq::new(texts.len(), |i: int| texts[i]@)
}

/// Writes the texts in `parts` as a bracketed list with `, ` between them.
pub fn bracketed_list(parts: &Vec<String>) -> (text: String)
    ensures
        text@ == bracketed(chars_of(parts@)),
{
    proof {
        reveal_strlit("[");
        reveal_strlit(", ");
        reveal_strlit("]");
    }
    let ghost all = chars_of(parts@);
    let mut text = String::from_str("[");
    assert(text@ =~= seq!['['] + joined(all.take(0)));
    let mut i: usize = 0;
    while i < parts.len()
        invariant
            i <= parts.len(),
            all == chars_of(parts@),
            text@ == seq!['['] + joined(all.take(i as int)),
        decreases parts.len() - i,
    {
        proof {
            reveal_strlit(", ");
            let next = all.take(i + 1);
            assert(next.drop_last() =~= all.take(i as int));
            assert(next.last() == parts@[i as int]@);
            if i > 0 {
                assert(text@ + seq![',', ' '] + parts@[i as int]@ =~= seq!['['] + joined(next));
            } else {
                assert(text@ + parts@[i as int]@ =~= seq!['['] + joined(next));
            }
        }
        if i > 0 {
            text.append(", ");
        }
        text.append(parts[i].as_str());
        i += 1;
    }
    proof {
        reveal_strlit("]");
        assert(all.take(i as int) =~= all);
    }
    text.append("]");
    text
}

} // verus!
