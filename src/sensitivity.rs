use vstd::prelude::*;

verus! {

/// How two names are compared: byte for byte, or with ASCII letters folded.
#[derive(Clone, Copy, Debug, PartialEq, Eq, Structural)]
pub enum CaseSensitivity {
    CaseSensitive,
    AsciiCaseInsensitive,
}

/// The lower-case form of an ASCII upper-case letter; every other character is kept.
pub open spec fn ascii_fold(c: char) -> char {
    if 'A' <= c && c <= 'Z' {
        ((c as u32) + 32) as char
    } else {
        c
    }
}

/// Equality after folding ASCII letters, all other characters compared exactly.
pub open spec fn ascii_fold_equal(a: Seq<char>, b: Seq<char>) -> bool {
    &&& a.len() == b.len()
    &&& forall|i: int| 0 <= i < a.len() ==> #[trigger] ascii_fold(a[i]) == ascii_fold(b[i])
}

/// Whether two names are equal under the given policy.
pub open spec fn names_equal(cs: CaseSensitivity, a: Seq<char>, b: Seq<char>) -> bool {
    match cs {
        CaseSensitivity::CaseSensitive => a == b,
        CaseSensitivity::AsciiCaseInsensitive => ascii_fold_equal(a, b),
    }
}

/// The policy that a boolean flag selects: `true` compares exactly.
pub open spec fn sensitivity_of(case_sensitive: bool) -> CaseSensitivity {
    if case_sensitive {
        CaseSensitivity::CaseSensitive
    } else {
        CaseSensitivity::AsciiCaseInsensitive
    }
}

/// Maps a boolean flag to a comparison policy: `true` to exact, `false` to
/// ASCII-case-insensitive.
pub fn map_b_to_cs(case_sensitive: bool) -> (r: CaseSensitivity)
    ensures
        r == sensitivity_of(case_sensitive),
{
    if case_sensitive {
        CaseSensitivity::CaseSensitive
    } else {
        CaseSensitivity::AsciiCaseInsensitive
    }
}

/// Exact comparison of two strings, character by character.
pub(crate) fn str_eq(a: &str, b: &str) -> (r: bool)
    ensures
        r == (a@ == b@),
{
    let n = a.unicode_len();
    if n != b.unicode_len() {
        return false;
    }
    let mut i: usize = 0;
    while i < n
        invariant
            n == a@.len(),
            n == b@.len(),
            i <= n,
            forall|k: int| 0 <= k < i ==> a@[k] == b@[k],
        decreases n - i,
    {
        if a.get_char(i) != b.get_char(i) {
            return false;
        }
        i += 1;
    }
    assert(a@ =~= b@);
    true
}

/// Relies on selectors' `CaseSensitivity::eq` on the UTF-8 bytes of both names:
/// plain byte equality, or `eq_ignore_ascii_case`, which folds only ASCII
/// letters; on UTF-8 text that is the same as folding ASCII characters.
#[verifier::external_body]
pub(crate) fn names_eq(cs: CaseSensitivity, a: &str, b: &str) -> (r: bool)
    ensures
        r == names_equal(cs, a@, b@),
{
    let policy = match cs {
        CaseSensitivity::CaseSensitive => selectors::attr::CaseSensitivity::CaseSensitive,
        CaseSensitivity::AsciiCaseInsensitive => selectors::attr::CaseSensitivity::AsciiCaseInsensitive,
    };
    policy.eq(a.as_bytes(), b.as_bytes())
}

} // verus!
