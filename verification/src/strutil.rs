//! Character classification and string comparison helpers shared by the
//! template scanner and the verb dispatcher.

use vstd::prelude::*;

verus! {

/// Whether `c` is a Unicode letter or number, as `char::is_alphanumeric`
/// classifies it. The classification depends on the character alone.
pub uninterp spec fn unicode_word_char(c: char) -> bool;

/// Relies on char::is_alphanumeric: true exactly for Unicode letters and
/// numbers, a classification of the character alone.
#[verifier::external_body]
fn char_is_alphanumeric(c: char) -> (r: bool)
    ensures
        r == unicode_word_char(c),
{
    c.is_alphanumeric()
}

/// True for the characters allowed inside a `{...}` placeholder: word
/// characters — ASCII letters, digits and the underscore, and beyond
/// ASCII every Unicode letter or number — and the dot.
pub open spec fn is_ident_char_spec(c: char) -> bool {
    ||| ('a' <= c && c <= 'z')
    ||| ('A' <= c && c <= 'Z')
    ||| ('0' <= c && c <= '9')
    ||| c == '_'
    ||| c == '.'
    ||| (c > '\u{7f}' && unicode_word_char(c))
}

/// Executable counterpart of [`is_ident_char_spec`].
pub fn is_ident_char(c: char) -> (r: bool)
    ensures
        r == is_ident_char_spec(c),
{
    if c <= '\u{7f}' {
        ('a' <= c && c <= 'z') || ('A' <= c && c <= 'Z') || ('0' <= c && c <= '9') || c == '_'
            || c == '.'
    } else {
        char_is_alphanumeric(c)
    }
}

/// Character-for-character string equality, proved against the views.
pub fn str_eq(a: &str, b: &str) -> (r: bool)
    ensures
        r == (a@ == b@),
{
    let la = a.unicode_len();
    let lb = b.unicode_len();
    if la != lb {
        return false;
    }
    let mut i: usize = 0;
    while i < la
        invariant
            la == a@.len(),
            la == b@.len(),
            i <= la,
            forall|k: int| 0 <= k < i ==> a@[k] == b@[k],
        decreases la - i,
    {
        if a.get_char(i) != b.get_char(i) {
            return false;
        }
        i = i + 1;
    }
    proof {
        assert(a@ =~= b@);
    }
    true
}

} // verus!
