//! The display-name rule: a name is non-empty and consists only of ASCII
//! alphanumeric characters.
use vstd::prelude::*;
use vstd::string::StrSliceExecFns;

verus! {

/// A character allowed in a display name: ASCII alphanumeric.
pub open spec fn is_name_char(c: char) -> bool {
    (48 <= c as u32 && c as u32 <= 57)  // '0' ..= '9'
    || (65 <= c as u32 && c as u32 <= 90)  // 'A' ..= 'Z'
    || (97 <= c as u32 && c as u32 <= 122)  // 'a' ..= 'z'
}

/// A valid display name: non-empty, every character ASCII alphanumeric.
pub open spec fn valid_name(s: Seq<char>) -> bool {
    &&& s.len() > 0
    &&& forall|i: int| 0 <= i < s.len() ==> is_name_char(#[trigger] s[i])
}

/// Decides the name rule on a candidate line.
pub fn is_valid_name(s: &str) -> (r: bool)
    ensures
        r == valid_name(s@),
{
    let len = s.unicode_len();
    if len == 0 {
        return false;
    }
    let mut i: usize = 0;
    while i < len
        invariant
            len == s@.len(),
            i <= len,
            forall|j: int| 0 <= j < i ==> is_name_char(#[trigger] s@[j]),
        decreases len - i,
    {
        let c = s.get_char(i);
        let u = c as u32;
        let ok = (48 <= u && u <= 57) || (65 <= u && u <= 90) || (97 <= u && u <= 122);
        if !ok {
            return false;
        }
        i += 1;
    }
    true
}

} // verus!
