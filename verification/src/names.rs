//! Domain names as sequences of characters: lower case and the
//! label structure that suffix matching rests on.

use vstd::prelude::*;

verus! {

/// The lower-case form of a string, as `str::to_lowercase` gives it.
pub uninterp spec fn lowercase_of(s: Seq<char>) -> Seq<char>;

/// Calls `str::to_lowercase`, which lower-cases by the rules of Unicode.
/// The contract only names the result: the same characters always
/// lower-case to the same characters.
#[verifier::external_body]
pub(crate) fn lowercase(s: &str) -> (lower: String)
    ensures
        lower@ == lowercase_of(s@),
{
    s.to_lowercase()
}

/// A position in `name` just behind a dot: the place where a label other
/// than the first one starts.
pub open spec fn label_start(name: Seq<char>, k: int) -> bool {
    0 < k <= name.len() && name[k - 1] == '.'
}

/// `parent` is what is left of `name` after dropping one or more leading
/// labels, and it still has two labels or more.
pub open spec fn is_parent(parent: Seq<char>, name: Seq<char>) -> bool {
    exists|k: int| #[trigger] label_start(name, k) && parent == name.skip(k) && parent.contains('.')
}

/// Whether `name` is denied by the set `domains`: the name itself is in the
/// set, or one of its parents is.
pub open spec fn blocked_in(domains: Set<Seq<char>>, name: Seq<char>) -> bool {
    domains.contains(name) || exists|parent: Seq<char>|
        is_parent(parent, name) && #[trigger] domains.contains(parent)
}

/// `name` without the dot that ends a fully qualified name. One dot is
/// cut off; a name that does not end in a dot stays as it is.
pub open spec fn without_root_dot(name: Seq<char>) -> Seq<char> {
    if name.len() > 0 && name.last() == '.' {
        name.drop_last()
    } else {
        name
    }
}

/// The characters of `s`, in order.
pub fn chars_of(s: &str) -> (chars: Vec<char>)
    ensures
        chars@ == s@,
{
    let mut chars: Vec<char> = Vec::new();
    for c in it: s.chars()
        invariant
            chars@ == s@.take(it.index() as int),
            it.seq() == s@,
    {
        chars.push(c);
    }
    chars
}

/// Cuts the root's trailing dot off a fully qualified name.
pub fn strip_root_dot(name: &str) -> (stripped: &str)
    ensures
        stripped@ == without_root_dot(name@),
{
    let n = name.unicode_len();
    if n > 0 && name.get_char(n - 1) == '.' {
        name.substring_char(0, n - 1)
    } else {
        name
    }
}

} // verus!
