//! Globally unique identifiers for `Generate` replies: the node's own
//! identifier, a `#` separator, then the node's message counter in
//! decimal.  The node identifier is unique across the cluster by
//! harness contract and the counter never repeats for one node, so the
//! pair — and hence the rendered string — never repeats anywhere.

use vstd::prelude::*;
use vstd::arithmetic::div_mod::lemma_fundamental_div_mod;
use vstd::string::StringExecFns;

verus! {

/// The character for one decimal digit.
pub open spec fn digit_char(d: nat) -> char
    recommends
        d < 10,
{
    if d == 0 {
        '0'
    } else if d == 1 {
        '1'
    } else if d == 2 {
        '2'
    } else if d == 3 {
        '3'
    } else if d == 4 {
        '4'
    } else if d == 5 {
        '5'
    } else if d == 6 {
        '6'
    } else if d == 7 {
        '7'
    } else if d == 8 {
        '8'
    } else {
        '9'
    }
}

/// The usual decimal rendering of `n`: most significant digit first,
/// no leading zeros, a single '0' for zero.
pub open spec fn dec_rep(n: nat) -> Seq<char>
    decreases n,
{
    if n < 10 {
        seq![digit_char(n)]
    } else {
        dec_rep(n / 10).push(digit_char(n % 10))
    }
}

/// The identifier issued for a `Generate` request arriving when the
/// node's identifier is `node_id` and its counter is `counter`.
pub open spec fn gen_id(node_id: Seq<char>, counter: nat) -> Seq<char> {
    node_id + seq!['#'] + dec_rep(counter)
}

pub open spec fn is_dec_digit(c: char) -> bool {
    '0' <= c && c <= '9'
}

/// Decimal digits really are the digit characters.
pub proof fn lemma_digit_char_is_digit(d: nat)
    requires
        d < 10,
    ensures
        is_dec_digit(digit_char(d)),
{
}

/// Distinct digits render as distinct characters.
pub proof fn lemma_digit_char_injective(a: nat, b: nat)
    requires
        a < 10,
        b < 10,
        digit_char(a) == digit_char(b),
    ensures
        a == b,
{
}

/// Every character of a decimal rendering is a decimal digit.
pub proof fn lemma_dec_rep_digits(n: nat)
    ensures
        forall|i: int| 0 <= i < dec_rep(n).len() ==> is_dec_digit(#[trigger] dec_rep(n)[i]),
    decreases n,
{
    if n < 10 {
        lemma_digit_char_is_digit(n);
        assert(dec_rep(n)[0] == digit_char(n));
    } else {
        lemma_dec_rep_digits(n / 10);
        lemma_digit_char_is_digit(n % 10);
        let p = dec_rep(n / 10);
        assert forall|i: int| 0 <= i < dec_rep(n).len() implies is_dec_digit(dec_rep(n)[i]) by {
            if i < p.len() {
                assert(dec_rep(n)[i] == p[i]);
            } else {
                assert(dec_rep(n)[i] == digit_char(n % 10));
            }
        }
    }
}

/// A decimal rendering is never empty.
pub proof fn lemma_dec_rep_len(n: nat)
    ensures
        dec_rep(n).len() >= 1,
        n >= 10 ==> dec_rep(n).len() >= 2,
    decreases n,
{
    if n >= 10 {
        lemma_dec_rep_len(n / 10);
    }
}

/// Distinct numbers have distinct decimal renderings.
pub proof fn lemma_dec_rep_injective(a: nat, b: nat)
    requires
        dec_rep(a) == dec_rep(b),
    ensures
        a == b,
    decreases a,
{
    lemma_dec_rep_len(a);
    lemma_dec_rep_len(b);
    if a < 10 && b < 10 {
        assert(dec_rep(a)[0] == digit_char(a));
        assert(dec_rep(b)[0] == digit_char(b));
        lemma_digit_char_injective(a, b);
    } else if a < 10 && b >= 10 {
        assert(dec_rep(a).len() == 1);
        assert(false);
    } else if a >= 10 && b < 10 {
        assert(dec_rep(b).len() == 1);
        assert(false);
    } else {
        let pa = dec_rep(a / 10);
        let pb = dec_rep(b / 10);
        assert(dec_rep(a) == pa.push(digit_char(a % 10)));
        assert(dec_rep(b) == pb.push(digit_char(b % 10)));
        assert(pa.len() == pb.len());
        assert(dec_rep(a).last() == digit_char(a % 10));
        assert(dec_rep(b).last() == digit_char(b % 10));
        lemma_digit_char_injective(a % 10, b % 10);
        assert forall|i: int| 0 <= i < pa.len() implies pa[i] == pb[i] by {
            assert(dec_rep(a)[i] == pa[i]);
            assert(dec_rep(b)[i] == pb[i]);
        }
        assert(pa =~= pb);
        lemma_dec_rep_injective(a / 10, b / 10);
        lemma_fundamental_div_mod(a as int, 10);
        lemma_fundamental_div_mod(b as int, 10);
    }
}

/// Generate uniqueness: two distinct (node identifier, counter) pairs
/// never render to the same identifier — the separator is not a digit,
/// so the rendered string splits back unambiguously at its last '#'.
pub proof fn lemma_gen_id_injective(a: Seq<char>, i: nat, b: Seq<char>, j: nat)
    requires
        gen_id(a, i) == gen_id(b, j),
    ensures
        a == b,
        i == j,
{
    let s = gen_id(a, i);
    lemma_dec_rep_digits(i);
    lemma_dec_rep_digits(j);
    lemma_dec_rep_len(i);
    lemma_dec_rep_len(j);
    assert(s.len() == a.len() + 1 + dec_rep(i).len());
    assert(s.len() == b.len() + 1 + dec_rep(j).len());
    assert(s[a.len() as int] == '#');
    assert(s[b.len() as int] == '#');
    assert forall|k: int| a.len() < k < s.len() implies is_dec_digit(s[k]) by {
        assert(s[k] == dec_rep(i)[k - a.len() - 1]);
    }
    assert forall|k: int| b.len() < k < s.len() implies is_dec_digit(s[k]) by {
        assert(gen_id(b, j)[k] == dec_rep(j)[k - b.len() - 1]);
    }
    assert(!is_dec_digit('#'));
    if a.len() < b.len() {
        assert(is_dec_digit(s[b.len() as int]));
        assert(false);
    }
    if b.len() < a.len() {
        assert(is_dec_digit(s[a.len() as int]));
        assert(false);
    }
    assert(a.len() == b.len());
    assert forall|k: int| 0 <= k < a.len() implies a[k] == b[k] by {
        assert(s[k] == a[k]);
        assert(gen_id(b, j)[k] == b[k]);
    }
    assert(a =~= b);
    assert forall|k: int| 0 <= k < dec_rep(i).len() implies dec_rep(i)[k] == dec_rep(j)[k] by {
        assert(s[k + a.len() + 1] == dec_rep(i)[k]);
        assert(gen_id(b, j)[k + b.len() + 1] == dec_rep(j)[k]);
    }
    assert(dec_rep(i) =~= dec_rep(j));
    lemma_dec_rep_injective(i, j);
}

/// The decimal digit `d` as a one-character string slice.
fn digit_str(d: usize) -> (s: &'static str)
    requires
        d < 10,
    ensures
        s@ == seq![digit_char(d as nat)],
{
    if d == 0 {
        let s = "0";
        proof {
            reveal_strlit("0");
            assert(s@ =~= seq![digit_char(d as nat)]);
        }
        s
    } else if d == 1 {
        let s = "1";
        proof {
            reveal_strlit("1");
            assert(s@ =~= seq![digit_char(d as nat)]);
        }
        s
    } else if d == 2 {
        let s = "2";
        proof {
            reveal_strlit("2");
            assert(s@ =~= seq![digit_char(d as nat)]);
        }
        s
    } else if d == 3 {
        let s = "3";
        proof {
            reveal_strlit("3");
            assert(s@ =~= seq![digit_char(d as nat)]);
        }
        s
    } else if d == 4 {
        let s = "4";
        proof {
            reveal_strlit("4");
            assert(s@ =~= seq![digit_char(d as nat)]);
        }
        s
    } else if d == 5 {
        let s = "5";
        proof {
            reveal_strlit("5");
            assert(s@ =~= seq![digit_char(d as nat)]);
        }
        s
    } else if d == 6 {
        let s = "6";
        proof {
            reveal_strlit("6");
            assert(s@ =~= seq![digit_char(d as nat)]);
        }
        s
    } else if d == 7 {
        let s = "7";
        proof {
            reveal_strlit("7");
            assert(s@ =~= seq![digit_char(d as nat)]);
        }
        s
    } else if d == 8 {
        let s = "8";
        proof {
            reveal_strlit("8");
            assert(s@ =~= seq![digit_char(d as nat)]);
        }
        s
    } else {
        let s = "9";
        proof {
            reveal_strlit("9");
            assert(s@ =~= seq![digit_char(d as nat)]);
        }
        s
    }
}

/// Appends the decimal rendering of `n` to `s`.
fn push_decimal(s: &mut String, n: usize)
    ensures
        final(s)@ == old(s)@ + dec_rep(n as nat),
    decreases n,
{
    if n < 10 {
        s.append(digit_str(n));
        proof {
            assert(s@ =~= old(s)@ + dec_rep(n as nat));
        }
    } else {
        push_decimal(s, n / 10);
        s.append(digit_str(n % 10));
        proof {
            assert(s@ =~= old(s)@ + dec_rep(n as nat));
        }
    }
}

/// Renders `gen_id(node_id@, counter)` as an owned string.
pub fn unique_id(node_id: &String, counter: usize) -> (r: String)
    ensures
        r@ == gen_id(node_id@, counter as nat),
{
    let mut r = node_id.clone();
    r.append("#");
    push_decimal(&mut r, counter);
    proof {
        reveal_strlit("#");
        assert(("#")@ =~= seq!['#']);
        assert(r@ =~= gen_id(node_id@, counter as nat));
    }
    r
}

} // verus!
