//! Shared character and string utilities: whitespace classification and
//! ASCII case-insensitive equality.

use vstd::prelude::*;

verus! {

/// The character has Unicode's `White_Space` property.
pub open spec fn is_ws_char(c: char) -> bool {
    let u = c as u32;
    ||| u == 0x09
    ||| u == 0x0A
    ||| u == 0x0B
    ||| u == 0x0C
    ||| u == 0x0D
    ||| u == 0x20
    ||| u == 0x85
    ||| u == 0xA0
    ||| u == 0x1680
    ||| (0x2000 <= u && u <= 0x200A)
    ||| u == 0x2028
    ||| u == 0x2029
    ||| u == 0x202F
    ||| u == 0x205F
    ||| u == 0x3000
}

/// Decides `is_ws_char`.
pub fn char_is_ws(c: char) -> (r: bool)
    ensures
        r == is_ws_char(c),
{
    let u = c as u32;
    u == 0x09 || u == 0x0A || u == 0x0B || u == 0x0C || u == 0x0D || u == 0x20 || u == 0x85
        || u == 0xA0 || u == 0x1680 || (0x2000 <= u && u <= 0x200A) || u == 0x2028 || u == 0x2029
        || u == 0x202F || u == 0x205F || u == 0x3000
}

/// A character's scalar value with ASCII lower-case letters folded to upper
/// case; all other characters are left as they are.
pub open spec fn upper_val(c: char) -> int {
    if 0x61 <= c as u32 && c as u32 <= 0x7A {
        c as u32 - 0x20
    } else {
        c as u32 as int
    }
}

/// Case-folds a whole character sequence (ASCII letters only).
pub open spec fn fold_upper(s: Seq<char>) -> Seq<int> {
    s.map_values(|c: char| upper_val(c))
}

/// Two character sequences are equal up to ASCII case.
pub open spec fn seq_eq_ci(a: Seq<char>, b: Seq<char>) -> bool {
    fold_upper(a) == fold_upper(b)
}

/// Decides whether two characters are equal up to ASCII case.
pub fn chars_eq_ci(a: char, b: char) -> (r: bool)
    ensures
        r == (upper_val(a) == upper_val(b)),
{
    let au = a as u32;
    let bu = b as u32;
    let af = if 0x61 <= au && au <= 0x7A {
        au - 0x20
    } else {
        au
    };
    let bf = if 0x61 <= bu && bu <= 0x7A {
        bu - 0x20
    } else {
        bu
    };
    af == bf
}

/// Decides whether two strings are equal up to ASCII case.
pub fn str_eq_ci(a: &str, b: &str) -> (r: bool)
    ensures
        r == seq_eq_ci(a@, b@),
{
    let an = a.unicode_len();
    let bn = b.unicode_len();
    if an != bn {
        proof {
            assert(fold_upper(a@).len() == a@.len());
            assert(fold_upper(b@).len() == b@.len());
        }
        return false;
    }
    for i in 0..an
        invariant
            an == a@.len(),
            an == b@.len(),
            forall|k: int| 0 <= k < i ==> upper_val(a@[k]) == upper_val(b@[k]),
    {
        if !chars_eq_ci(a.get_char(i), b.get_char(i)) {
            proof {
                assert(fold_upper(a@)[i as int] != fold_upper(b@)[i as int]);
            }
            return false;
        }
    }
    proof {
        assert(fold_upper(a@) =~= fold_upper(b@));
    }
    true
}

} // verus!
