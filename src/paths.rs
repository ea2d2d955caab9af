use vstd::prelude::*;

verus! {

/// Whether `s` is non-empty and its last character is a `/`.
pub open spec fn ends_with_slash(s: Seq<char>) -> bool {
    s.len() > 0 && s.last() == '/'
}

/// Whether `s` is non-empty and its first character is a `/`.
pub open spec fn starts_with_slash(s: Seq<char>) -> bool {
    s.len() > 0 && s[0] == '/'
}

/// The path `extend` placed under `base`, with exactly one `/` between them.
pub open spec fn joined(base: Seq<char>, extend: Seq<char>) -> Seq<char> {
    if ends_with_slash(base) && starts_with_slash(extend) {
        base + extend.drop_first()
    } else if ends_with_slash(base) || starts_with_slash(extend) {
        base + extend
    } else {
        base + seq!['/'] + extend
    }
}

/// Joins two path prefixes so that exactly one `/` separates them.
///
/// `base` is expected to be empty or to start with a `/`.
pub fn join_paths(base: &str, extend: &str) -> (r: String)
    ensures
        r@ == joined(base@, extend@),
{
    let base_len = base.unicode_len();
    let extend_len = extend.unicode_len();
    let base_slash = base_len > 0 && base.get_char(base_len - 1) == '/';
    let extend_slash = extend_len > 0 && extend.get_char(0) == '/';
    let mut buffer = String::from_str(base);
    if base_slash && extend_slash {
        buffer.append(extend.substring_char(1, extend_len));
        assert(extend@.subrange(1, extend_len as int) =~= extend@.drop_first());
    } else if base_slash || extend_slash {
        buffer.append(extend);
    } else {
        proof {
            reveal_strlit("/");
        }
        buffer.append("/");
        buffer.append(extend);
    }
    buffer
}

} // verus!
