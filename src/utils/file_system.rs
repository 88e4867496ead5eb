use vstd::prelude::*;

verus! {

/// `path` with a leading `~` replaced by `home`.
pub open spec fn expanded(path: Seq<char>, home: Seq<char>) -> Seq<char> {
    if path.len() > 0 && path[0] == '~' {
        home + path.subrange(1, path.len() as int)
    } else {
        path
    }
}

/// Replaces a leading `~` of `path` by the home directory `home`; any other
/// path is returned as it is.
pub fn expand_tilde(path: &str, home: &str) -> (r: String)
    ensures
        r@ == expanded(path@, home@),
{
    let n = path.unicode_len();
    if n > 0 && path.get_char(0) == '~' {
        let mut r = String::from_str(home);
        r.append(path.substring_char(1, n));
        r
    } else {
        String::from_str(path)
    }
}

} // verus!
