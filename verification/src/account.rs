use vstd::prelude::*;
use vstd::string::StringSliceAdditionalSpecFns;

verus! {

/// Separators allowed inside an account identity: '-', '.' and '_'.
pub open spec fn is_separator(b: u8) -> bool {
    b == 45 || b == 46 || b == 95
}

/// An account identity is built from lowercase letters, digits and separators.
pub open spec fn is_account_byte(b: u8) -> bool {
    (97 <= b <= 122) || (48 <= b <= 57) || is_separator(b)
}

/// A well-formed account identity: 2 to 64 bytes, all from the account
/// alphabet, with no separator leading, trailing, or doubled.
pub open spec fn spec_valid_account_id(s: Seq<u8>) -> bool {
    &&& 2 <= s.len() <= 64
    &&& forall|i: int| 0 <= i < s.len() ==> is_account_byte(#[trigger] s[i])
    &&& !is_separator(s[0])
    &&& !is_separator(s[s.len() - 1])
    &&& forall|i: int| 0 < i < s.len() ==> !(is_separator(#[trigger] s[i]) && is_separator(s[i - 1]))
}

/// A well-formed account identity, stated over the characters of an owned
/// string.
pub open spec fn spec_valid_account_str(s: Seq<char>) -> bool {
    spec_valid_account_id(vstd::utf8::encode_utf8(s))
}

/// Decides whether a string is a well-formed account identity.
pub fn is_valid_account_id(s: &str) -> (r: bool)
    ensures
        r == spec_valid_account_id(s.spec_bytes()),
{
    let bytes = s.as_bytes();
    let ghost sq = s.spec_bytes();
    let n = bytes.len();
    if n < 2 || n > 64 {
        return false;
    }
    let mut i: usize = 0;
    while i < n
        invariant
            0 <= i <= n,
            sq == s.spec_bytes(),
            bytes@ == sq,
            n == sq.len(),
            2 <= n <= 64,
            forall|j: int| 0 <= j < i ==> is_account_byte(#[trigger] sq[j]),
            forall|j: int| 0 < j < i ==> !(is_separator(#[trigger] sq[j]) && is_separator(sq[j - 1])),
            i > 0 ==> !is_separator(sq[0]),
        decreases n - i,
    {
        let b = bytes[i];
        let lower = 97 <= b && b <= 122;
        let digit = 48 <= b && b <= 57;
        let sep = b == 45 || b == 46 || b == 95;
        if !(lower || digit || sep) {
            return false;
        }
        if sep {
            if i == 0 {
                return false;
            }
            let prev = bytes[i - 1];
            if prev == 45 || prev == 46 || prev == 95 {
                return false;
            }
        }
        i = i + 1;
    }
    let last = bytes[n - 1];
    if last == 45 || last == 46 || last == 95 {
        return false;
    }
    true
}

} // verus!
