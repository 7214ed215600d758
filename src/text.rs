use vstd::prelude::*;
use vstd::string::*;

use candid::types::principal::PrincipalError;

verus! {

#[verifier::external_type_specification]
#[verifier::external_body]
pub struct ExPrincipalError(PrincipalError);

/// `c` with an ASCII capital made small; any other char as it is.
pub open spec fn ascii_lower_char(c: char) -> char {
    if 'A' <= c && c <= 'Z' {
        ((c as u8) + 32u8) as char
    } else {
        c
    }
}

/// `s` with every ASCII capital made small.
pub open spec fn ascii_lowercase(s: Seq<char>) -> Seq<char> {
    s.map_values(|c: char| ascii_lower_char(c))
}

/// Whether candid reads `text` as the textual form of a principal.
pub uninterp spec fn principal_accepts(text: Seq<char>) -> bool;

/// What `str::to_lowercase` gives for `s`.
pub uninterp spec fn lower_of(s: Seq<char>) -> Seq<char>;

/// Whether `needle` stands somewhere in `hay`, in one piece.
pub open spec fn is_infix(needle: Seq<char>, hay: Seq<char>) -> bool {
    exists|i: int|
        0 <= i && i + needle.len() <= hay.len() && #[trigger] hay.subrange(i, i + needle.len())
            == needle
}

/// Relies on candid's `Principal::from_text`, which accepts `text` only when
/// `text`, ASCII-lowercased, equals the principal's textual form, and on
/// `Principal::to_text`, which prints that form.
#[verifier::external_body]
fn principal_text(text: &str) -> (r: Result<String, PrincipalError>)
    ensures
        r is Ok <==> principal_accepts(text@),
        r matches Ok(t) ==> t@ == ascii_lowercase(text@),
{
    match candid::Principal::from_text(text) {
        Ok(p) => Ok(p.to_text()),
        Err(e) => Err(e),
    }
}

/// Relies on `str::to_lowercase`, whose result depends on the chars of `s`
/// alone.
#[verifier::external_body]
fn lowercase(s: &str) -> (r: String)
    ensures
        r@ == lower_of(s@),
{
    s.to_lowercase()
}

/// Why an entity key was refused.
#[derive(Clone, Copy, Debug, PartialEq, Eq, Structural)]
pub enum KeyError {
    /// The text is not the textual form of a principal.
    MalformedPrincipal,
}

/// The key for the principal written `text`: its textual form, in lower
/// case. Text that names no principal is refused here, before any entity
/// is made from it.
pub fn principal_key(text: &str) -> (r: Result<String, KeyError>)
    ensures
        r is Ok <==> principal_accepts(text@),
        r matches Ok(k) ==> k@ == ascii_lowercase(text@),
{
    match principal_text(text) {
        Ok(t) => Ok(t),
        Err(_) => Err(KeyError::MalformedPrincipal),
    }
}

/// `s` folded to lower case, as `str::to_lowercase` folds it.
pub fn fold_case(s: &str) -> (r: String)
    ensures
        r@ == lower_of(s@),
{
    lowercase(s)
}

/// The chars of `s`, in order.
pub fn chars_of(s: &str) -> (r: Vec<char>)
    ensures
        r@ == s@,
{
    let n = s.unicode_len();
    let mut r: Vec<char> = Vec::new();
    let mut i: usize = 0;
    while i < n
        invariant
            n == s@.len(),
            i <= n,
            r@ == s@.subrange(0, i as int),
        decreases n - i,
    {
        r.push(s.get_char(i));
        i = i + 1;
        assert(r@ =~= s@.subrange(0, i as int));
    }
    assert(s@.subrange(0, n as int) =~= s@);
    r
}

/// Whether `needle` stands somewhere in `hay`, in one piece. An empty
/// `needle` stands in every `hay`.
pub fn contains_text(hay: &str, needle: &str) -> (r: bool)
    ensures
        r == is_infix(needle@, hay@),
{
    let h = chars_of(hay);
    let n = chars_of(needle);
    if n.len() == 0 {
        assert(hay@.subrange(0int, 0int + needle@.len()) =~= needle@);
        return true;
    }
    if n.len() > h.len() {
        return false;
    }
    let last = h.len() - n.len();
    let mut i: usize = 0;
    while i <= last
        invariant
            h@ == hay@,
            n@ == needle@,
            last == h@.len() - n@.len(),
            0 < n@.len() <= h@.len(),
            h@.len() <= usize::MAX,
            i <= last + 1,
            forall|k: int| 0 <= k < i ==> #[trigger] h@.subrange(k, k + n@.len()) != n@,
        decreases last + 1 - i,
    {
        let mut j: usize = 0;
        let mut same = true;
        while j < n.len()
            invariant
                h@ == hay@,
                n@ == needle@,
                i <= last,
                last == h@.len() - n@.len(),
                h@.len() <= usize::MAX,
                j <= n@.len(),
                same ==> forall|m: int| 0 <= m < j ==> h@[i + m] == #[trigger] n@[m],
                !same ==> h@.subrange(i as int, i + n@.len()) != n@,
            decreases n@.len() - j,
        {
            if h[i + j] != n[j] {
                assert(h@.subrange(i as int, i + n@.len())[j as int] != n@[j as int]);
                same = false;
            }
            j = j + 1;
        }
        if same {
            assert(h@.subrange(i as int, i + n@.len()) =~= n@);
            return true;
        }
        i = i + 1;
    }
    assert forall|k: int|
        0 <= k && k + n@.len() <= h@.len() implies #[trigger] h@.subrange(k, k + n@.len())
        != n@ by {
        assert(k < i);
    }
    false
}

} // verus!
