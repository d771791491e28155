//! Paths as plain strings with `/` as the separator.

use vstd::prelude::*;
use vstd::string::*;

verus! {

/// The separator between the components of a path.
pub open spec fn separator() -> char {
    '/'
}

/// A path is absolute when it starts at the root.
pub open spec fn is_absolute(path: Seq<char>) -> bool {
    path.len() > 0 && path[0] == separator()
}

/// `rel` seen from `base`: an absolute `rel` stands for itself, any other is
/// appended to `base`, with one separator in between unless `base` is empty
/// or already ends in one.
pub open spec fn join(base: Seq<char>, rel: Seq<char>) -> Seq<char> {
    if is_absolute(rel) {
        rel
    } else if base.len() == 0 || base.last() == separator() {
        base + rel
    } else {
        base.push(separator()) + rel
    }
}

/// Joining keeps apart what was apart: two relative paths under one base
/// give equal results only if they are equal.
pub proof fn lemma_join_injective(base: Seq<char>, a: Seq<char>, b: Seq<char>)
    requires
        !is_absolute(a),
        !is_absolute(b),
        join(base, a) == join(base, b),
    ensures
        a == b,
{
    let prefix = if base.len() == 0 || base.last() == separator() {
        base
    } else {
        base.push(separator())
    };
    assert(join(base, a) == prefix + a);
    assert(join(base, b) == prefix + b);
    lemma_concat_cancel_left(prefix, a, b);
}

/// A common prefix can be struck from both sides of an equation.
pub proof fn lemma_concat_cancel_left(prefix: Seq<char>, a: Seq<char>, b: Seq<char>)
    requires
        prefix + a == prefix + b,
    ensures
        a == b,
{
    let n = prefix.len() as int;
    assert((prefix + a).len() == n + a.len());
    assert((prefix + b).len() == n + b.len());
    assert forall|i: int| 0 <= i < a.len() implies a[i] == b[i] by {
        assert((prefix + a)[n + i] == a[i]);
        assert((prefix + b)[n + i] == b[i]);
    }
    assert(a =~= b);
}

/// Tells whether `path` is absolute.
pub fn is_absolute_path(path: &str) -> (absolute: bool)
    ensures
        absolute == is_absolute(path@),
{
    if path.is_empty() {
        false
    } else {
        path.get_char(0) == '/'
    }
}

/// Joins `rel` onto `base`.
pub fn join_path(base: &str, rel: &str) -> (joined: String)
    ensures
        joined@ == join(base@, rel@),
{
    if is_absolute_path(rel) {
        return String::from_str(rel);
    }
    let mut joined = String::from_str(base);
    let n: usize = base.unicode_len();
    if n > 0 && base.get_char(n - 1) != '/' {
        proof {
            reveal_strlit("/");
        }
        joined.append("/");
        assert(joined@ == base@.push(separator()));
    }
    joined.append(rel);
    joined
}

} // verus!
