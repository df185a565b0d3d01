use vstd::prelude::*;

use crate::spools::opt_text;
use crate::text::{append_str, owned};

verus! {

/// Whether `c` is a lower-case hexadecimal digit.
pub open spec fn is_lower_hex(c: char) -> bool {
    ('0' <= c <= '9') || ('a' <= c <= 'f')
}

/// Whether `s` is a random (version 4) UUID in its hyphenated lower-case
/// form, e.g. `67e55044-10b1-426f-9247-bb680e5fe0c8`.
pub open spec fn is_uuid_v4_text(s: Seq<char>) -> bool {
    &&& s.len() == 36
    &&& forall|i: int|
        0 <= i < 36 ==> if i == 8 || i == 13 || i == 18 || i == 23 {
            #[trigger] s[i] == '-'
        } else {
            is_lower_hex(s[i])
        }
    &&& s[14] == '4'
    &&& (s[19] == '8' || s[19] == '9' || s[19] == 'a' || s[19] == 'b')
}

/// A new random UUID, written as text (`uuid::Uuid::new_v4` and its
/// `to_string`). Claimed: the text is 36 characters, hyphens at 8, 13, 18 and
/// 23, lower-case hex digits elsewhere, version digit 4 and variant digit
/// 8, 9, a or b, as the crate's `new_v4` masks and its lower-hex hyphenated
/// formatting writes. Which UUID comes out is random and not stated; the
/// crate panics where the system gives it no random bytes.
#[verifier::external_body]
fn new_uuid_text() -> (r: String)
    ensures
        is_uuid_v4_text(r@),
{
    uuid::Uuid::new_v4().to_string()
}

/// The index of the last `c` in `s`, or -1 where there is none.
pub open spec fn last_index(s: Seq<char>, c: char) -> int
    decreases s.len(),
{
    if s.len() == 0 {
        -1
    } else if s.last() == c {
        s.len() - 1
    } else {
        last_index(s.drop_last(), c)
    }
}

/// The last index of `c` lies inside `s` and holds `c`, where there is one.
pub proof fn lemma_last_index_bounds(s: Seq<char>, c: char)
    ensures
        -1 <= last_index(s, c) < s.len(),
        last_index(s, c) >= 0 ==> s[last_index(s, c)] == c,
    decreases s.len(),
{
    if s.len() > 0 && s.last() != c {
        lemma_last_index_bounds(s.drop_last(), c);
        if last_index(s, c) >= 0 {
            assert(s.drop_last()[last_index(s, c)] == s[last_index(s, c)]);
        }
    }
}

/// The index of the last `.` in `s`, or -1 where there is none.
pub open spec fn last_dot(s: Seq<char>) -> int {
    last_index(s, '.')
}

/// A path whose only separator is `/` on every platform: it holds no `\`
/// and no `:` (no Windows prefix, drive or verbatim form) and does not start
/// with `//` (no Windows network share).
pub open spec fn is_slash_path(s: Seq<char>) -> bool {
    &&& !s.contains('\\')
    &&& !s.contains(':')
    &&& !(s.len() >= 2 && s[0] == '/' && s[1] == '/')
}

/// The last component of a `/`-separated path, as `Path::file_name` finds
/// it: empty and `.` components at the end are passed over; there is none
/// where the path ends in `..` or has no other component (`""`, `"/"`,
/// `"."`).
pub open spec fn file_name_spec(s: Seq<char>) -> Option<Seq<char>>
    decreases s.len(),
{
    let i = last_index(s, '/');
    let tail = s.skip(i + 1);
    if tail.len() == 0 || tail == "."@ {
        if i < 0 {
            None
        } else {
            proof {
                lemma_last_index_bounds(s, '/');
            }
            file_name_spec(s.take(i))
        }
    } else if tail == ".."@ {
        None
    } else {
        Some(tail)
    }
}

/// The extension of a plain file name: the text after its last `.`, where
/// that `.` is not the first character; none for `..`, for a name without a
/// `.`, and for a name whose only `.` leads it.
pub open spec fn extension_spec(s: Seq<char>) -> Option<Seq<char>> {
    if s == ".."@ || last_dot(s) <= 0 {
        None
    } else {
        Some(s.skip(last_dot(s) + 1))
    }
}

/// The extension of a `/`-separated path: that of its last component.
pub open spec fn path_extension_spec(s: Seq<char>) -> Option<Seq<char>> {
    match file_name_spec(s) {
        Some(n) => extension_spec(n),
        None => None,
    }
}

/// The extension of the file name `file_name`, as
/// `std::path::Path::extension` finds it (its text; `None` where there is
/// none). Claimed, as the documentation gives it: for a path whose only
/// separator is `/` on every platform, the extension is that of its last
/// component (`Path::file_name`): the text after its last `.` unless that
/// `.` starts the component. In any name: without a `.` there is no
/// extension, an extension holds no `.`, and where the name holds no `\` an
/// extension holds no `/` (under a Windows verbatim prefix `\\?\`, `/` is
/// no separator). Which component is taken of a path with `\`, `:` or a
/// leading `//` is not stated: that depends on the platform.
#[verifier::external_body]
fn path_extension(file_name: &str) -> (r: Option<String>)
    ensures
        is_slash_path(file_name@) ==> opt_text(r) == path_extension_spec(file_name@),
        !file_name@.contains('.') ==> r is None,
        r matches Some(e) ==> !e@.contains('.'),
        !file_name@.contains('\\') ==> (r matches Some(e) ==> !e@.contains('/')),
{
    std::path::Path::new(file_name).extension().and_then(|e| e.to_str()).map(|e| e.to_string())
}

/// The name a picture is stored under: the UUID, a dot and the extension,
/// "bin" where the upload had none.
pub open spec fn stored_name_spec(uuid_text: Seq<char>, extension: Option<Seq<char>>) -> Seq<char> {
    uuid_text + "."@ + match extension {
        Some(e) => e,
        None => "bin"@,
    }
}

/// The name a picture is stored under, from its UUID text and the extension
/// of the uploaded file name.
pub fn stored_image_name(uuid_text: &str, extension: Option<&str>) -> (r: String)
    ensures
        r@ == stored_name_spec(
            uuid_text@,
            match extension {
                Some(e) => Some(e@),
                None => None,
            },
        ),
{
    let mut s = owned(uuid_text);
    append_str(&mut s, ".");
    match extension {
        Some(e) => append_str(&mut s, e),
        None => append_str(&mut s, "bin"),
    }
    s
}

/// A fresh name to store an uploaded picture under: a new random UUID, a dot
/// and the extension of the uploaded file's name ("bin" without one). Where
/// the uploaded name holds no `\`, the stored name holds no `/`, so it stays
/// inside the picture directory.
pub fn new_image_name(file_name: &str) -> (r: String)
    ensures
        r@.len() >= 37,
        is_uuid_v4_text(r@.take(36)),
        r@[36] == '.',
        is_slash_path(file_name@) ==> r@.skip(37) == match path_extension_spec(file_name@) {
            Some(e) => e,
            None => "bin"@,
        },
        !file_name@.contains('.') ==> r@.skip(37) == "bin"@,
        !file_name@.contains('\\') ==> !r@.contains('/'),
{
    let u = new_uuid_text();
    let ext = path_extension(file_name);
    let r = match &ext {
        Some(e) => stored_image_name(u.as_str(), Some(e.as_str())),
        None => stored_image_name(u.as_str(), None),
    };
    proof {
        reveal_strlit(".");
        reveal_strlit("bin");
        let tail: Seq<char> = match ext {
            Some(e) => e@,
            None => "bin"@,
        };
        assert(r@ == u@ + "."@ + tail);
        assert(r@.take(36) =~= u@);
        assert(r@.skip(37) =~= tail);
        assert(!file_name@.contains('\\') ==> !r@.contains('/')) by {
            if r@.contains('/') {
                let k = choose|k: int| 0 <= k < r@.len() && r@[k] == '/';
                if k < 36 {
                    assert(r@[k] == u@[k]);
                    assert(is_lower_hex(u@[k]) || u@[k] == '-');
                } else if k > 36 {
                    assert(r@[k] == tail[k - 37]);
                }
            }
        }
    }
    r
}

} // verus!
