//! The path conventions: an encrypted artifact carries the suffix `.x`.

use vstd::prelude::*;
use vstd::std_specs::iter::IteratorSpec;
use vstd::string::*;

verus! {

/// The state of a path, derived from its suffix and from what is on disk.
#[derive(Clone, Copy, Debug, PartialEq, Eq, Structural)]
pub enum FileState {
    /// A regular file whose last dot-delimited segment is the suffix.
    Encrypted,
    /// A regular file with any other last segment.
    Decrypted,
    /// No regular file is at the path.
    NotFound,
}

/// The separator between the segments of a path string.
pub open spec fn dot() -> char {
    '.'
}

/// The suffix that marks an encrypted artifact.
pub open spec fn suffix() -> Seq<char> {
    seq!['x']
}

/// The encrypted path of a decrypted path: the path, a dot, the suffix.
pub open spec fn encrypt_path_of(path: Seq<char>) -> Seq<char> {
    path + seq![dot()] + suffix()
}

/// Appends `.x` to the path.
pub fn make_encrypt_path(path: String) -> (r: String)
    ensures
        r@ == encrypt_path_of(path@),
{
    proof {
        reveal_strlit(".x");
        assert(".x"@ =~= seq![dot()] + suffix());
    }
    let r = path.concat(".x");
    assert(r@ =~= encrypt_path_of(path@));
    r
}

/// The index of the last dot of the string, or -1 where it has none.
pub open spec fn last_dot(s: Seq<char>) -> int
    decreases s.len(),
{
    if s.len() == 0 {
        -1
    } else if s.last() == dot() {
        s.len() - 1
    } else {
        last_dot(s.drop_last())
    }
}

/// The last dot-delimited segment: what follows the last dot, or the whole
/// string where it has no dot.
pub open spec fn last_segment(s: Seq<char>) -> Seq<char> {
    s.skip(last_dot(s) + 1)
}

/// The decrypted path of an encrypted path: every dot-delimited segment but
/// the last, joined by dots again. That is what stands before the last dot,
/// and nothing at all where the string has no dot.
pub open spec fn decrypt_path_of(path: Seq<char>) -> Seq<char> {
    if last_dot(path) < 0 {
        Seq::empty()
    } else {
        path.take(last_dot(path))
    }
}

/// The state of a path whose last segment and presence on disk are known.
pub open spec fn file_state_of(path: Seq<char>, is_file: bool) -> FileState {
    if !is_file {
        FileState::NotFound
    } else if last_segment(path) == suffix() {
        FileState::Encrypted
    } else {
        FileState::Decrypted
    }
}

/// Looks for the last dot: its position and the number of characters; the
/// position equals that number where the string has no dot.
fn find_last_dot(path: &str) -> (r: (usize, usize))
    ensures
        r.1 == path@.len(),
        -1 <= last_dot(path@) < path@.len(),
        last_dot(path@) < 0 ==> r.0 == r.1,
        last_dot(path@) >= 0 ==> r.0 == last_dot(path@),
{
    broadcast use vstd::string::group_string_axioms;

    let n: usize = path.unicode_len();
    let mut found: usize = n;
    let mut i: usize = 0;
    let mut chars = path.chars();
    assert(path@.skip(0) =~= path@);
    assert(path@.take(0).len() == 0);
    loop
        invariant
            n == path@.len(),
            i <= n,
            chars.obeys_prophetic_iter_laws(),
            chars.remaining() == path@.skip(i as int),
            -1 <= last_dot(path@.take(i as int)) < i,
            last_dot(path@.take(i as int)) < 0 ==> found == n,
            last_dot(path@.take(i as int)) >= 0 ==> found == last_dot(path@.take(i as int)),
        ensures
            i == n,
            -1 <= last_dot(path@.take(i as int)) < i,
            last_dot(path@.take(i as int)) < 0 ==> found == n,
            last_dot(path@.take(i as int)) >= 0 ==> found == last_dot(path@.take(i as int)),
        decreases n - i,
    {
        match chars.next() {
            Some(c) => {
                proof {
                    let next = path@.take(i + 1);
                    assert(next.drop_last() =~= path@.take(i as int));
                    assert(next.last() == path@[i as int]);
                    assert(path@.skip(i as int).drop_first() =~= path@.skip(i + 1));
                }
                if c == '.' {
                    found = i;
                }
                i = i + 1;
            },
            None => {
                break ;
            },
        }
    }
    assert(path@.take(n as int) =~= path@);
    (found, n)
}

/// Drops the last dot-delimited segment and the dot before it. A path
/// without a dot has one segment only, so nothing is left of it.
pub fn make_decrypt_path(path: String) -> (r: String)
    ensures
        r@ == decrypt_path_of(path@),
{
    let (found, n) = find_last_dot(path.as_str());
    if found == n {
        String::new()
    } else {
        String::from_str(path.as_str().substring_char(0, found))
    }
}

/// Classifies a path. `is_file` says whether a regular file is at the path;
/// without one the state is `NotFound`, whatever the suffix.
pub fn get_file_state(path: String, is_file: bool) -> (r: FileState)
    ensures
        r == file_state_of(path@, is_file),
        r == FileState::NotFound <==> !is_file,
        r == FileState::Encrypted <==> is_file && last_segment(path@) == suffix(),
{
    if !is_file {
        return FileState::NotFound;
    }
    let text = path.as_str();
    let (found, n) = find_last_dot(text);
    let start: usize = if found == n {
        0
    } else {
        found + 1
    };
    assert(start == last_dot(path@) + 1);
    if n - start == 1 && text.get_char(start) == 'x' {
        assert(last_segment(path@) =~= suffix());
        FileState::Encrypted
    } else {
        assert(last_segment(path@) != suffix()) by {
            if last_segment(path@).len() == 1 {
                assert(last_segment(path@)[0] == path@[start as int]);
                assert(suffix()[0] == 'x');
            }
        }
        FileState::Decrypted
    }
}

/// The encrypted path of any path is classified as encrypted as soon as a
/// regular file is there.
pub proof fn lemma_encrypt_path_is_encrypted(path: Seq<char>)
    ensures
        last_segment(encrypt_path_of(path)) == suffix(),
        file_state_of(encrypt_path_of(path), true) == FileState::Encrypted,
{
    let e = encrypt_path_of(path);
    assert(e.last() == 'x');
    assert(e.drop_last() =~= path + seq![dot()]);
    assert(e.drop_last().last() == dot());
    assert(last_dot(e.drop_last()) == path.len());
    assert(last_dot(e) == path.len());
    assert(last_segment(e) =~= suffix());
}

/// Where no regular file is at a path its state is `NotFound`, whatever the
/// path's suffix.
pub proof fn lemma_missing_is_not_found(path: Seq<char>)
    ensures
        file_state_of(path, false) == FileState::NotFound,
{
}

/// Appending the suffix and taking it off again gives the path back.
pub proof fn lemma_decrypt_path_of_encrypt_path(path: Seq<char>)
    ensures
        decrypt_path_of(encrypt_path_of(path)) == path,
{
    let e = encrypt_path_of(path);
    assert(e.last() == 'x');
    assert(e.drop_last() =~= path + seq![dot()]);
    assert(e.drop_last().last() == dot());
    assert(last_dot(e.drop_last()) == path.len());
    assert(last_dot(e) == path.len());
    assert(e.take(path.len() as int) =~= path);
}

/// The dot-delimited segments of a string: what stands between its dots,
/// before the first and after the last. A string without a dot is one
/// segment.
pub open spec fn segments(s: Seq<char>) -> Seq<Seq<char>>
    decreases s.len(),
    via segments_decreases
{
    if last_dot(s) < 0 {
        seq![s]
    } else {
        segments(s.take(last_dot(s))).push(last_segment(s))
    }
}

#[via_fn]
proof fn segments_decreases(s: Seq<char>) {
    lemma_last_dot(s);
}

/// Segments joined by dots.
pub open spec fn join_dots(parts: Seq<Seq<char>>) -> Seq<char>
    decreases parts.len(),
{
    if parts.len() == 0 {
        Seq::empty()
    } else if parts.len() == 1 {
        parts[0]
    } else {
        join_dots(parts.drop_last()) + seq![dot()] + parts.last()
    }
}

/// Where the last dot stands: inside the string, on a dot, with no dot
/// after it; a string without a dot has none.
pub proof fn lemma_last_dot(s: Seq<char>)
    ensures
        -1 <= last_dot(s) < s.len(),
        last_dot(s) >= 0 ==> s[last_dot(s)] == dot(),
        forall|i: int| last_dot(s) < i < s.len() ==> s[i] != dot(),
    decreases s.len(),
{
    if s.len() > 0 && s.last() != dot() {
        let front = s.drop_last();
        lemma_last_dot(front);
        assert forall|i: int| last_dot(s) < i < s.len() implies s[i] != dot() by {
            if i < front.len() {
                assert(front[i] == s[i]);
            }
        }
        if last_dot(s) >= 0 {
            assert(front[last_dot(s)] == s[last_dot(s)]);
        }
    }
}

/// The decrypted path in the words of segments: the segments of a string
/// joined by dots are the string; its last segment is the last of them and
/// holds no dot; and its decrypted path is all of them but the last, joined
/// by dots.
pub proof fn lemma_decrypt_path_is_segments_joined(path: Seq<char>)
    ensures
        segments(path).len() >= 1,
        join_dots(segments(path)) == path,
        segments(path).last() == last_segment(path),
        forall|i: int| 0 <= i < last_segment(path).len() ==> last_segment(path)[i] != dot(),
        decrypt_path_of(path) == join_dots(segments(path).drop_last()),
    decreases path.len(),
{
    lemma_last_dot(path);
    if last_dot(path) < 0 {
        assert(last_segment(path) =~= path);
        assert(segments(path).drop_last() =~= Seq::<Seq<char>>::empty());
        assert(join_dots(segments(path).drop_last()) =~= decrypt_path_of(path));
    } else {
        let front = path.take(last_dot(path));
        lemma_decrypt_path_is_segments_joined(front);
        let parts = segments(path);
        assert(parts.drop_last() =~= segments(front));
        assert(parts.last() == last_segment(path));
        assert(join_dots(parts) == join_dots(parts.drop_last()) + seq![dot()] + parts.last());
        assert(front + seq![dot()] + last_segment(path) =~= path);
    }
}

} // verus!
