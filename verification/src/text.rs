//! Construction of the few textual values the library derives itself:
//! decimal renderings of counters and the composite keys built from them.

use vstd::prelude::*;

verus! {

/// The character standing for one decimal digit value.
pub open spec fn dec_digit(d: int) -> char {
    if d == 0 {
        '0'
    } else if d == 1 {
        '1'
    } else if d == 2 {
        '2'
    } else if d == 3 {
        '3'
    } else if d == 4 {
        '4'
    } else if d == 5 {
        '5'
    } else if d == 6 {
        '6'
    } else if d == 7 {
        '7'
    } else if d == 8 {
        '8'
    } else {
        '9'
    }
}

/// The decimal rendering of a natural number, most significant digit first.
pub open spec fn spec_dec(n: nat) -> Seq<char>
    decreases n,
{
    if n < 10 {
        seq![dec_digit(n as int)]
    } else {
        spec_dec(n / 10) + seq![dec_digit((n % 10) as int)]
    }
}

fn digit_str(d: u64) -> (r: &'static str)
    requires
        d < 10,
    ensures
        r@ =~= seq![dec_digit(d as int)],
{
    proof {
        reveal_strlit("0");
        reveal_strlit("1");
        reveal_strlit("2");
        reveal_strlit("3");
        reveal_strlit("4");
        reveal_strlit("5");
        reveal_strlit("6");
        reveal_strlit("7");
        reveal_strlit("8");
        reveal_strlit("9");
    }
    if d == 0 {
        "0"
    } else if d == 1 {
        "1"
    } else if d == 2 {
        "2"
    } else if d == 3 {
        "3"
    } else if d == 4 {
        "4"
    } else if d == 5 {
        "5"
    } else if d == 6 {
        "6"
    } else if d == 7 {
        "7"
    } else if d == 8 {
        "8"
    } else {
        "9"
    }
}

/// Renders a counter value in decimal.
pub fn u64_to_dec(n: u64) -> (r: String)
    ensures
        r@ == spec_dec(n as nat),
    decreases n,
{
    if n < 10 {
        let s: String = digit_str(n).to_owned();
        proof {
            assert(s@ =~= spec_dec(n as nat));
        }
        s
    } else {
        let mut s = u64_to_dec(n / 10);
        s.append(digit_str(n % 10));
        proof {
            assert(s@ =~= spec_dec(n as nat));
        }
        s
    }
}

/// The key derived from a namespace and a sequence number.
pub open spec fn spec_key(ns: Seq<char>, seq: nat) -> Seq<char> {
    ns + seq!['_'] + spec_dec(seq)
}

/// Builds the key `"{namespace}_{seq}"` for a freshly issued record.
pub fn make_key(ns: &str, seq: u64) -> (r: String)
    ensures
        r@ == spec_key(ns@, seq as nat),
{
    proof {
        reveal_strlit("_");
    }
    let mut s: String = ns.to_owned();
    s.append("_");
    let dec = u64_to_dec(seq);
    s.append(dec.as_str());
    proof {
        assert(s@ =~= spec_key(ns@, seq as nat));
    }
    s
}

/// Carries an error's textual form; errors travel between services as plain
/// strings.
pub fn format_error(err: &str) -> (r: String)
    ensures
        r@ == err@,
{
    err.to_owned()
}

/// A decimal rendering is never empty.
pub proof fn lemma_spec_dec_len(n: nat)
    ensures
        spec_dec(n).len() >= 1,
    decreases n,
{
    if n >= 10 {
        lemma_spec_dec_len(n / 10);
    }
}

/// Two distinct numbers render differently: the decimal rendering is
/// injective.
pub proof fn lemma_spec_dec_injective(a: nat, b: nat)
    requires
        spec_dec(a) == spec_dec(b),
    ensures
        a == b,
    decreases a,
{
    lemma_spec_dec_len(a);
    lemma_spec_dec_len(b);
    if a < 10 && b < 10 {
        assert(spec_dec(a) == seq![dec_digit(a as int)]);
        assert(spec_dec(b) == seq![dec_digit(b as int)]);
        assert(seq![dec_digit(a as int)][0] == dec_digit(a as int));
        assert(seq![dec_digit(b as int)][0] == dec_digit(b as int));
        assert(spec_dec(a)[0] == spec_dec(b)[0]);
        assert(dec_digit(a as int) == dec_digit(b as int));
        if a != b {
            assert(dec_digit(a as int) != dec_digit(b as int));
        }
    } else if a < 10 {
        assert(spec_dec(b).len() >= 2) by {
            lemma_spec_dec_len(b / 10);
        }
        assert(spec_dec(a).len() == 1);
    } else if b < 10 {
        assert(spec_dec(a).len() >= 2) by {
            lemma_spec_dec_len(a / 10);
        }
        assert(spec_dec(b).len() == 1);
    } else {
        assert(spec_dec(a).last() == dec_digit((a % 10) as int));
        assert(spec_dec(b).last() == dec_digit((b % 10) as int));
        assert(a % 10 == b % 10);
        assert(spec_dec(a).drop_last() =~= spec_dec(a / 10));
        assert(spec_dec(b).drop_last() =~= spec_dec(b / 10));
        lemma_spec_dec_injective(a / 10, b / 10);
    }
}

/// Two distinct sequence numbers derive distinct keys under one namespace:
/// a per-instance counter that only increases never reissues a key.
pub proof fn lemma_spec_key_injective(ns: Seq<char>, s1: nat, s2: nat)
    requires
        spec_key(ns, s1) == spec_key(ns, s2),
    ensures
        s1 == s2,
{
    let k1 = spec_key(ns, s1);
    let k2 = spec_key(ns, s2);
    assert(k1.subrange(ns.len() as int + 1, k1.len() as int) =~= spec_dec(s1));
    assert(k2.subrange(ns.len() as int + 1, k2.len() as int) =~= spec_dec(s2));
    lemma_spec_dec_injective(s1, s2);
}

/// The parts joined with a comma and a space between neighbours.
pub open spec fn spec_join_comma(parts: Seq<Seq<char>>) -> Seq<char>
    decreases parts.len(),
{
    if parts.len() == 0 {
        Seq::empty()
    } else if parts.len() == 1 {
        parts[0]
    } else {
        spec_join_comma(parts.drop_last()) + ", "@ + parts.last()
    }
}

/// Joins strings with a comma and a space between neighbours.
pub fn join_comma(parts: &Vec<String>) -> (r: String)
    ensures
        r@ == spec_join_comma(parts@.map(|i: int, p: String| p@)),
{
    let ghost views = parts@.map(|i: int, p: String| p@);
    let mut s = String::new();
    let mut i: usize = 0;
    proof {
        assert(views.take(0) =~= Seq::<Seq<char>>::empty());
        assert(s@ =~= spec_join_comma(views.take(0)));
    }
    while i < parts.len()
        invariant
            i <= parts@.len(),
            views == parts@.map(|j: int, p: String| p@),
            views.len() == parts@.len(),
            s@ == spec_join_comma(views.take(i as int)),
        decreases parts@.len() - i,
    {
        if i > 0 {
            s.append(", ");
        }
        s.append(parts[i].as_str());
        proof {
            reveal_strlit(", ");
            assert(views.take(i as int + 1).drop_last() =~= views.take(i as int));
            assert(views.take(i as int + 1).last() == views[i as int]);
            assert(views[i as int] == parts@[i as int]@);
            if i == 0 {
                assert(s@ =~= spec_join_comma(views.take(1)));
            } else {
                assert(s@ =~= spec_join_comma(views.take(i as int)) + ", "@ + views[i as int]);
            }
        }
        i = i + 1;
    }
    proof {
        assert(views.take(views.len() as int) =~= views);
    }
    s
}

} // verus!
