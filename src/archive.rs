//! Locating the template specification among the entries of an archive.
use vstd::prelude::*;
use vstd::string::*;

verus! {

/// The ending of the name of a template specification entry.
pub const TEMPLATE_SUFFIX: &'static str = "template_specification.json";

/// `name` ends with `suffix`.
pub open spec fn ends_with(name: Seq<char>, suffix: Seq<char>) -> bool {
    suffix.len() <= name.len() && name.subrange(name.len() - suffix.len(), name.len() as int)
        == suffix
}

/// The entry name is that of a template specification. As the suffix holds
/// no `/`, the whole path ends with it exactly when its file name does.
pub open spec fn is_template_specification(name: Seq<char>) -> bool {
    ends_with(name, TEMPLATE_SUFFIX@)
}

fn str_ends_with(name: &str, suffix: &str) -> (r: bool)
    ensures
        r == ends_with(name@, suffix@),
{
    let n = name.unicode_len();
    let m = suffix.unicode_len();
    if m > n {
        return false;
    }
    let off = n - m;
    let mut i: usize = 0;
    while i < m
        invariant
            n == name@.len(),
            m == suffix@.len(),
            off == n - m,
            i <= m,
            forall|j: int| 0 <= j < i ==> name@[off + j] == suffix@[j],
        decreases m - i,
    {
        if name.get_char(off + i) != suffix.get_char(i) {
            assert(name@.subrange(off as int, n as int)[i as int] != suffix@[i as int]);
            return false;
        }
        i = i + 1;
    }
    assert(name@.subrange(off as int, n as int) =~= suffix@);
    true
}

/// The position of the one entry whose name marks a template specification;
/// `None` where there is no such entry or more than one.
pub fn template_specification(names: &Vec<String>) -> (r: Option<usize>)
    ensures
        r matches Some(i) ==> i < names@.len() && is_template_specification(names@[i as int]@)
            && forall|j: int|
            0 <= j < names@.len() && j != i ==> !is_template_specification(
                #[trigger] names@[j]@,
            ),
        r is None ==> forall|i: int|
            0 <= i < names@.len() && is_template_specification(#[trigger] names@[i]@) ==> exists|
                j: int,
            |
                0 <= j < names@.len() && j != i && is_template_specification(names@[j]@),
{
    let mut found: Option<usize> = None;
    let mut i: usize = 0;
    while i < names.len()
        invariant
            i <= names@.len(),
            found matches Some(f) ==> f < i && is_template_specification(names@[f as int]@)
                && forall|j: int|
                0 <= j < i && j != f ==> !is_template_specification(#[trigger] names@[j]@),
            found is None ==> forall|j: int|
                0 <= j < i ==> !is_template_specification(#[trigger] names@[j]@),
        decreases names@.len() - i,
    {
        if str_ends_with(names[i].as_str(), TEMPLATE_SUFFIX) {
            match found {
                Some(f) => {
                    assert forall|a: int|
                        0 <= a < names@.len() && is_template_specification(
                            #[trigger] names@[a]@,
                        ) implies exists|j: int|
                        0 <= j < names@.len() && j != a && is_template_specification(
                            names@[j]@,
                        ) by {
                        if a == f as int {
                            assert(is_template_specification(names@[i as int]@));
                        } else {
                            assert(is_template_specification(names@[f as int]@));
                        }
                    }
                    return None;
                },
                None => {
                    found = Some(i);
                },
            }
        }
        i = i + 1;
    }
    found
}

} // verus!
