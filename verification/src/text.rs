//! String-level utilities shared by the protocol modules: the character
//! view of a sequence of `String`s, comma-and-space joining, and decimal
//! rendering of integers.
use vstd::prelude::*;
use vstd::string::StrSliceExecFns;
use vstd::string::StringExecFns;

verus! {

/// The character sequences of a sequence of strings.
pub open spec fn views_of(v: Seq<String>) -> Seq<Seq<char>> {
    Seq::new(v.len(), |i: int| v[i]@)
}

/// The names joined with a comma and a space between each two neighbours.
pub open spec fn spec_join(names: Seq<Seq<char>>) -> Seq<char>
    decreases names.len(),
{
    if names.len() == 0 {
        Seq::empty()
    } else if names.len() == 1 {
        names[0]
    } else {
        names[0] + ", "@ + spec_join(names.drop_first())
    }
}

/// Joins the given strings from index `start` on, comma-and-space separated.
pub fn join_from(names: &Vec<String>, start: usize) -> (r: String)
    requires
        start <= names.len(),
    ensures
        r@ == spec_join(views_of(names@).skip(start as int)),
    decreases names.len() - start,
{
    let ghost tail = views_of(names@).skip(start as int);
    if start == names.len() {
        proof {
            assert(tail =~= Seq::<Seq<char>>::empty());
        }
        String::new()
    } else if start + 1 == names.len() {
        proof {
            assert(tail.len() == 1);
            assert(tail[0] == names@[start as int]@);
        }
        names[start].clone()
    } else {
        let mut s = names[start].clone();
        s.append(", ");
        let rest = join_from(names, start + 1);
        s.append(rest.as_str());
        proof {
            assert(tail.drop_first() =~= views_of(names@).skip(start as int + 1));
            assert(tail[0] == names@[start as int]@);
        }
        s
    }
}

/// The subsequence of `s` with every occurrence of `x` removed, order kept.
pub open spec fn without(s: Seq<Seq<char>>, x: Seq<char>) -> Seq<Seq<char>>
    decreases s.len(),
{
    if s.len() == 0 {
        s
    } else {
        let rest = without(s.drop_last(), x);
        if s.last() == x {
            rest
        } else {
            rest.push(s.last())
        }
    }
}

/// Appending `x` and then removing `x` is the same as removing `x`.
pub proof fn lemma_without_push_removed(s: Seq<Seq<char>>, x: Seq<char>)
    ensures
        without(s.push(x), x) == without(s, x),
{
    assert(s.push(x).drop_last() =~= s);
}

/// Removing an absent name changes nothing.
pub proof fn lemma_without_absent(s: Seq<Seq<char>>, x: Seq<char>)
    requires
        !s.contains(x),
    ensures
        without(s, x) == s,
    decreases s.len(),
{
    if s.len() > 0 {
        assert(s.last() != x) by {
            if s.last() == x {
                assert(s.contains(x)) by {
                    assert(s[s.len() - 1] == x);
                }
            }
        }
        assert(!s.drop_last().contains(x)) by {
            if s.drop_last().contains(x) {
                let i = choose|i: int| 0 <= i < s.drop_last().len() && s.drop_last()[i] == x;
                assert(s[i] == x);
            }
        }
        lemma_without_absent(s.drop_last(), x);
        assert(without(s, x) =~= s);
    } else {
        assert(without(s, x) =~= s);
    }
}

/// The decimal representation of a natural number, most significant digit
/// first.
pub open spec fn dec_rep(n: nat) -> Seq<char>
    decreases n,
{
    if n < 10 {
        seq![digit_char(n)]
    } else {
        dec_rep(n / 10).push(digit_char(n % 10))
    }
}

/// The character for a single decimal digit.
pub open spec fn digit_char(d: nat) -> char {
    if d == 0 { '0' }
    else if d == 1 { '1' }
    else if d == 2 { '2' }
    else if d == 3 { '3' }
    else if d == 4 { '4' }
    else if d == 5 { '5' }
    else if d == 6 { '6' }
    else if d == 7 { '7' }
    else if d == 8 { '8' }
    else { '9' }
}

/// The one-character string for a decimal digit.
fn digit_str(d: usize) -> (r: String)
    requires
        d < 10,
    ensures
        r@ == seq![digit_char(d as nat)],
{
    let digits = "0123456789";
    proof {
        reveal_strlit("0123456789");
    }
    let part = digits.substring_ascii(d, d + 1);
    proof {
        assert(part@ =~= seq![digit_char(d as nat)]);
    }
    String::from_str(part)
}

/// Renders a natural number in decimal.
pub fn usize_to_string(n: usize) -> (r: String)
    ensures
        r@ == dec_rep(n as nat),
    decreases n,
{
    if n < 10 {
        digit_str(n)
    } else {
        let mut s = usize_to_string(n / 10);
        let d = digit_str(n % 10);
        s.append(d.as_str());
        proof {
            assert(dec_rep((n / 10) as nat) + seq![digit_char((n % 10) as nat)]
                =~= dec_rep((n / 10) as nat).push(digit_char((n % 10) as nat)));
        }
        s
    }
}

} // verus!
