use vstd::prelude::*;
use vstd::string::StringSliceAdditionalSpecFns;

verus! {

/// Longest accepted user name, in bytes.
pub const MAX_USERNAME_LEN: usize = 30;

/// A byte allowed in a user name: an ASCII letter, an ASCII digit or `_`.
pub open spec fn username_byte(b: u8) -> bool {
    (0x30 <= b && b <= 0x39) || (0x41 <= b && b <= 0x5a) || (0x61 <= b && b <= 0x7a) || b == 0x5f
}

/// A valid user name is non-empty, at most 30 bytes long, and made of ASCII
/// letters, digits and underscores only. Every byte of a non-ASCII character
/// is at least 0x80, so checking the UTF-8 bytes is the same as checking the
/// characters.
pub open spec fn valid_username(s: Seq<u8>) -> bool {
    &&& 0 < s.len() <= MAX_USERNAME_LEN
    &&& forall|i: int| 0 <= i < s.len() ==> username_byte(#[trigger] s[i])
}

/// Whether `username` may be used as a user name.
pub fn is_valid_username(username: &str) -> (r: bool)
    ensures
        r == valid_username(username.spec_bytes()),
{
    let bytes = username.as_bytes();
    let n = bytes.len();
    if n == 0 || n > MAX_USERNAME_LEN {
        return false;
    }
    let mut i: usize = 0;
    while i < n
        invariant
            n == bytes@.len(),
            bytes@ == username.spec_bytes(),
            i <= n,
            forall|k: int| 0 <= k < i ==> username_byte(#[trigger] bytes@[k]),
        decreases n - i,
    {
        let b = bytes[i];
        let ok = (0x30 <= b && b <= 0x39) || (0x41 <= b && b <= 0x5a) || (0x61 <= b && b <= 0x7a)
            || b == 0x5f;
        if !ok {
            return false;
        }
        i = i + 1;
    }
    true
}

} // verus!
