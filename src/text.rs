//! ASCII case-insensitive comparison of strings, character by character.
use vstd::prelude::*;
use vstd::string::StrSliceExecFns;

verus! {

/// Whether `c` is an ASCII upper-case letter.
pub open spec fn is_ascii_upper(c: char) -> bool {
    65 <= (c as u32) && (c as u32) <= 90
}

/// Two characters are equal once ASCII letters are folded to lower case;
/// every other character compares exactly.
pub open spec fn char_eq_fold(a: char, b: char) -> bool {
    ||| (a as u32) == (b as u32)
    ||| is_ascii_upper(a) && (b as u32) == (a as u32) + 32
    ||| is_ascii_upper(b) && (a as u32) == (b as u32) + 32
}

/// Equality of two character sequences under ASCII case folding.
pub open spec fn eq_fold(a: Seq<char>, b: Seq<char>) -> bool {
    &&& a.len() == b.len()
    &&& forall|i: int| 0 <= i < a.len() ==> #[trigger] char_eq_fold(a[i], b[i])
}

pub fn char_eq_ignore_ascii_case(a: char, b: char) -> (r: bool)
    ensures
        r == char_eq_fold(a, b),
{
    let x = a as u32;
    let y = b as u32;
    if x == y {
        true
    } else if 65 <= x && x <= 90 {
        y == x + 32
    } else if 65 <= y && y <= 90 {
        x == y + 32
    } else {
        false
    }
}

/// Compares two strings, folding ASCII letters and comparing every other
/// character exactly.
pub fn eq_ignore_ascii_case(a: &str, b: &str) -> (r: bool)
    ensures
        r == eq_fold(a@, b@),
{
    let n = a.unicode_len();
    if n != b.unicode_len() {
        return false;
    }
    let mut i: usize = 0;
    while i < n
        invariant
            n == a@.len(),
            n == b@.len(),
            i <= n,
            forall|k: int| 0 <= k < i ==> #[trigger] char_eq_fold(a@[k], b@[k]),
        decreases n - i,
    {
        if !char_eq_ignore_ascii_case(a.get_char(i), b.get_char(i)) {
            return false;
        }
        i = i + 1;
    }
    true
}

pub proof fn lemma_eq_fold_reflexive(a: Seq<char>)
    ensures
        eq_fold(a, a),
{
}

/// Folded equality is transitive, and distinct folded classes stay apart:
/// a sequence equal to `b` under folding matches `c` exactly when `b` does.
pub proof fn lemma_eq_fold_transitive(a: Seq<char>, b: Seq<char>, c: Seq<char>)
    requires
        eq_fold(a, b),
    ensures
        eq_fold(a, c) <==> eq_fold(b, c),
{
    if eq_fold(a, c) {
        assert forall|i: int| 0 <= i < b.len() implies #[trigger] char_eq_fold(b[i], c[i]) by {
            assert(char_eq_fold(a[i], b[i]));
            assert(char_eq_fold(a[i], c[i]));
        }
    }
    if eq_fold(b, c) {
        assert forall|i: int| 0 <= i < a.len() implies #[trigger] char_eq_fold(a[i], c[i]) by {
            assert(char_eq_fold(a[i], b[i]));
            assert(char_eq_fold(b[i], c[i]));
        }
    }
}

} // verus!
