use vstd::prelude::*;
use vstd::string::StrSliceExecFns;

verus! {

/// Collect the characters of a string slice into a vector.
pub fn str_to_chars(s: &str) -> (chars: Vec<char>)
    ensures
        chars@ == s@,
{
    let n = s.unicode_len();
    let mut chars: Vec<char> = Vec::new();
    let mut i: usize = 0;
    while i < n
        invariant
            i <= n,
            n == s@.len(),
            chars@ == s@.subrange(0, i as int),
        decreases n - i,
    {
        chars.push(s.get_char(i));
        proof {
            assert(chars@ =~= s@.subrange(0, i as int + 1));
        }
        i += 1;
    }
    proof {
        assert(chars@ =~= s@);
    }
    chars
}

/// Relies on `String` as `FromIterator<char>`: builds the string holding
/// exactly these characters, in order.
#[verifier::external_body]
pub fn chars_to_string(chars: &Vec<char>) -> (s: String)
    ensures
        s@ == chars@,
{
    chars.iter().copied().collect()
}

} // verus!
