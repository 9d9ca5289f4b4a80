//! Which build this is.
use vstd::prelude::*;
use crate::text::{all_digits, chars_of, decimal, digits_value, push_decimal};

verus! {

proof fn lemma_prefix_is_smaller(s: Seq<char>, i: int)
    requires
        all_digits(s),
        0 <= i <= s.len(),
    ensures
        0 <= digits_value(s.take(i)) <= digits_value(s),
    decreases s.len(),
{
    if s.len() == 0 {
        assert(s.take(i) =~= s);
    } else if i == s.len() {
        assert(s.take(i) =~= s);
        let d = s.drop_last();
        assert(all_digits(d)) by {
            assert forall|k: int| 0 <= k < d.len() implies '0' <= #[trigger] d[k] <= '9' by {
                assert(d[k] == s[k]);
            }
        }
        lemma_prefix_is_smaller(d, d.len() as int);
        assert(d.take(d.len() as int) =~= d);
        assert('0' <= s[s.len() - 1]);
    } else {
        let d = s.drop_last();
        assert(all_digits(d)) by {
            assert forall|k: int| 0 <= k < d.len() implies '0' <= #[trigger] d[k] <= '9' by {
                assert(d[k] == s[k]);
            }
        }
        assert(d.take(i) =~= s.take(i));
        lemma_prefix_is_smaller(d, i);
        assert('0' <= s[s.len() - 1]);
    }
}

/// The seconds since 1970 that digits stand for.
pub fn build_timestamp(digits: &str) -> (r: u64)
    requires
        all_digits(digits@),
        digits_value(digits@) <= u64::MAX,
    ensures
        r == digits_value(digits@),
{
    let v = chars_of(digits);
    let mut result: u64 = 0;
    let mut i: usize = 0;
    assert(v@.take(0) =~= Seq::<char>::empty());
    while i < v.len()
        invariant
            i <= v@.len(),
            v@ == digits@,
            all_digits(digits@),
            digits_value(digits@) <= u64::MAX,
            result == digits_value(v@.take(i as int)),
        decreases v@.len() - i,
    {
        proof {
            let t = v@.take(i + 1);
            assert(t.drop_last() =~= v@.take(i as int));
            assert(t.last() == v@[i as int]);
            assert('0' <= v@[i as int] <= '9');
            lemma_prefix_is_smaller(v@, i + 1);
        }
        result = result * 10 + (v[i] as u64 - '0' as u64);
        i += 1;
    }
    assert(v@.take(v@.len() as int) =~= v@);
    result
}

/// The version together with the time of the build.
pub fn version_full(version: &str, timestamp: u64) -> (r: String)
    ensures
        r@ == version@ + "-"@ + decimal(timestamp as nat),
{
    let mut r = version.to_owned();
    r.push_str("-");
    push_decimal(&mut r, timestamp);
    r
}

} // verus!
