//! File paths as texts, joined the way a Unix `PathBuf` joins them.

use vstd::prelude::*;
use vstd::string::*;

use crate::text;

verus! {

/// `base` with `rest` appended: an absolute `rest` replaces `base`, and a
/// slash is put between the two unless `base` is empty or already ends in one.
pub open spec fn join(base: Seq<char>, rest: Seq<char>) -> Seq<char> {
    if is_absolute(rest) {
        rest
    } else if base.len() == 0 || base.last() == '/' {
        base + rest
    } else {
        base.push('/') + rest
    }
}

/// Whether a path starts at the root.
pub open spec fn is_absolute(path: Seq<char>) -> bool {
    path.len() > 0 && path[0] == '/'
}

/// `rest` under the directory `base`.
pub fn join_text(base: &str, rest: &str) -> (r: String)
    ensures
        r@ == join(base@, rest@),
{
    let b: Vec<char> = text::chars_of(base);
    let t: Vec<char> = text::chars_of(rest);
    if t.len() > 0 && t[0] == '/' {
        return rest.to_string();
    }
    let mut r: String = base.to_string();
    if b.len() > 0 && b[b.len() - 1] != '/' {
        r.push('/');
    }
    r.append(rest);
    r
}

/// What is joined to an absolute path is absolute.
pub proof fn lemma_join_stays_absolute(base: Seq<char>, rest: Seq<char>)
    requires
        is_absolute(base),
    ensures
        is_absolute(join(base, rest)),
{
}

/// A relative path stays under the directory it is joined to.
pub proof fn lemma_join_stays_inside(base: Seq<char>, rest: Seq<char>)
    requires
        rest.len() == 0 || rest[0] != '/',
    ensures
        text::begins(join(base, rest), base),
{
    assert(join(base, rest).take(base.len() as int) =~= base);
}

/// How two paths are joined: with one slash between them, whether the first
/// ends in one or not; a path that starts at the root stays as it is, and so
/// does one that is joined to nothing.
pub proof fn lemma_how_paths_are_joined(base: Seq<char>, rest: Seq<char>)
    ensures
        rest.len() > 0 && rest[0] == '/' ==> join(base, rest) == rest,
        (rest.len() == 0 || rest[0] != '/') && base.len() > 0 && base.last() != '/' ==> join(
            base,
            rest,
        ) == base + seq!['/'] + rest,
        (rest.len() == 0 || rest[0] != '/') && base.len() > 0 && base.last() == '/' ==> join(
            base,
            rest,
        ) == base + rest,
        base.len() == 0 ==> join(base, rest) == rest,
        is_absolute(base) <==> base.len() > 0 && base[0] == '/',
{
    assert(base.push('/') + rest =~= base + seq!['/'] + rest);
    if base.len() == 0 {
        assert(base + rest =~= rest);
    }
}

} // verus!
