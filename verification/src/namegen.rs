//! Deterministic node names: a type name, an underscore, and the count of
//! nodes already named. Distinct counts give distinct names whatever the
//! type names are, which makes every name in one graph unique.

use vstd::prelude::*;

verus! {

/// The character for one decimal digit.
pub open spec fn digit_char(d: int) -> char {
    if d == 0 { '0' }
    else if d == 1 { '1' }
    else if d == 2 { '2' }
    else if d == 3 { '3' }
    else if d == 4 { '4' }
    else if d == 5 { '5' }
    else if d == 6 { '6' }
    else if d == 7 { '7' }
    else if d == 8 { '8' }
    else { '9' }
}

/// Is `c` a decimal digit character?
pub open spec fn is_digit(c: char) -> bool {
    c == '0' || c == '1' || c == '2' || c == '3' || c == '4'
    || c == '5' || c == '6' || c == '7' || c == '8' || c == '9'
}

/// The decimal rendering of `n`, most significant digit first.
pub open spec fn dec_digits(n: nat) -> Seq<char>
    decreases n,
{
    if n < 10 {
        seq![digit_char(n as int)]
    } else {
        dec_digits(n / 10).push(digit_char((n % 10) as int))
    }
}

/// The decimal rendering is non-empty and consists of digits.
pub proof fn lemma_dec_digits_shape(n: nat)
    ensures
        dec_digits(n).len() >= 1,
        forall|i: int| 0 <= i < dec_digits(n).len() ==> is_digit(#[trigger] dec_digits(n)[i]),
    decreases n,
{
    if n >= 10 {
        lemma_dec_digits_shape(n / 10);
    }
}

/// Distinct numbers have distinct decimal renderings.
pub proof fn lemma_dec_digits_injective(a: nat, b: nat)
    requires
        dec_digits(a) == dec_digits(b),
    ensures
        a == b,
    decreases a,
{
    lemma_dec_digits_shape(a);
    lemma_dec_digits_shape(b);
    if a < 10 && b < 10 {
        assert(dec_digits(a) == seq![digit_char(a as int)]);
        assert(dec_digits(b) == seq![digit_char(b as int)]);
        assert(dec_digits(a)[0] == digit_char(a as int));
        assert(dec_digits(b)[0] == digit_char(b as int));
        assert(digit_char(a as int) == digit_char(b as int));
    } else if a < 10 {
        assert(dec_digits(a) == seq![digit_char(a as int)]);
        assert(dec_digits(b) == dec_digits(b / 10).push(digit_char((b % 10) as int)));
        lemma_dec_digits_shape(b / 10);
        assert(dec_digits(b).len() >= 2);
        assert(false);
    } else if b < 10 {
        assert(dec_digits(b) == seq![digit_char(b as int)]);
        assert(dec_digits(a) == dec_digits(a / 10).push(digit_char((a % 10) as int)));
        lemma_dec_digits_shape(a / 10);
        assert(dec_digits(a).len() >= 2);
        assert(false);
    } else {
        assert(dec_digits(a) == dec_digits(a / 10).push(digit_char((a % 10) as int)));
        assert(dec_digits(b) == dec_digits(b / 10).push(digit_char((b % 10) as int)));
        assert(dec_digits(a).last() == digit_char((a % 10) as int));
        assert(dec_digits(b).last() == digit_char((b % 10) as int));
        assert(digit_char((a % 10) as int) == digit_char((b % 10) as int));
        assert(a % 10 == b % 10);
        assert(dec_digits(a).drop_last() =~= dec_digits(a / 10));
        assert(dec_digits(b).drop_last() =~= dec_digits(b / 10));
        lemma_dec_digits_injective(a / 10, b / 10);
    }
}

/// The name assigned to the node of type `tname` created when `count`
/// nodes were already named.
pub open spec fn spec_node_name(tname: Seq<char>, count: nat) -> Seq<char> {
    tname + seq!['_'] + dec_digits(count)
}

/// Names formed from distinct counts differ, whatever their type names;
/// and equal names also force equal type names.
pub proof fn lemma_node_name_injective(t1: Seq<char>, c1: nat, t2: Seq<char>, c2: nat)
    requires
        spec_node_name(t1, c1) == spec_node_name(t2, c2),
    ensures
        t1 == t2,
        c1 == c2,
{
    let s = spec_node_name(t1, c1);
    lemma_dec_digits_shape(c1);
    lemma_dec_digits_shape(c2);
    assert(s.len() == t1.len() + 1 + dec_digits(c1).len());
    assert(s.len() == t2.len() + 1 + dec_digits(c2).len());
    assert(s[t1.len() as int] == '_');
    assert(s[t2.len() as int] == '_');
    assert(forall|i: int| t1.len() + 1 <= i < s.len()
        ==> s[i] == dec_digits(c1)[i - t1.len() - 1] && is_digit(s[i]));
    assert(forall|i: int| t2.len() + 1 <= i < s.len()
        ==> s[i] == dec_digits(c2)[i - t2.len() - 1] && is_digit(s[i]));
    if t1.len() < t2.len() {
        assert(is_digit(s[t2.len() as int]));
        assert(false);
    }
    if t2.len() < t1.len() {
        assert(is_digit(s[t1.len() as int]));
        assert(false);
    }
    assert(t1.len() == t2.len());
    assert forall|i: int| 0 <= i < t1.len() implies t1[i] == t2[i] by {
        assert(s[i] == t1[i]);
        assert(s[i] == t2[i]);
    }
    assert(t1 =~= t2);
    assert forall|i: int| 0 <= i < dec_digits(c1).len()
        implies dec_digits(c1)[i] == dec_digits(c2)[i] by {
        assert(s[t1.len() + 1 + i] == dec_digits(c1)[i]);
        assert(s[t2.len() + 1 + i] == dec_digits(c2)[i]);
    }
    assert(dec_digits(c1) =~= dec_digits(c2));
    lemma_dec_digits_injective(c1, c2);
}

/// The decimal digit characters for values zero through nine.
fn digit_str(d: usize) -> (r: &'static str)
    requires
        d < 10,
    ensures
        r@ == seq![digit_char(d as int)],
{
    proof {
        reveal_strlit("0");
        reveal_strlit("1");
        reveal_strlit("2");
        reveal_strlit("3");
        reveal_strlit("4");
        reveal_strlit("5");
        reveal_strlit("6");
        reveal_strlit("7");
        reveal_strlit("8");
        reveal_strlit("9");
    }
    let r: &'static str = if d == 0 { "0" }
    else if d == 1 { "1" }
    else if d == 2 { "2" }
    else if d == 3 { "3" }
    else if d == 4 { "4" }
    else if d == 5 { "5" }
    else if d == 6 { "6" }
    else if d == 7 { "7" }
    else if d == 8 { "8" }
    else { "9" };
    proof {
        assert(r@ =~= seq![digit_char(d as int)]);
    }
    r
}

/// The decimal rendering of `n` as a string.
pub fn usize_to_dec(n: usize) -> (r: String)
    ensures
        r@ == dec_digits(n as nat),
    decreases n,
{
    if n < 10 {
        let mut s = String::new();
        s.append(digit_str(n));
        proof {
            assert(s@ =~= dec_digits(n as nat));
        }
        s
    } else {
        let mut s = usize_to_dec(n / 10);
        s.append(digit_str(n % 10));
        proof {
            assert(s@ =~= dec_digits(n as nat));
        }
        s
    }
}

/// The name for a node of type `tname` when `count` nodes are already
/// named: the type name, an underscore, and the count in decimal.
pub fn make_node_name(tname: &String, count: usize) -> (r: String)
    ensures
        r@ == spec_node_name(tname@, count as nat),
{
    proof {
        reveal_strlit("_");
    }
    let mut s = tname.clone();
    s.append("_");
    let d = usize_to_dec(count);
    s.append(d.as_str());
    proof {
        assert(s@ =~= spec_node_name(tname@, count as nat));
    }
    s
}

} // verus!
