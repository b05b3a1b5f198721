//! The crude path constraint shared by the write and read entry points: a
//! path is accepted only when it contains the `.db` extension token, else the
//! operation is rejected with `InvalidPath` before any file is touched.

use vstd::prelude::*;

verus! {

/// Rejection of a path that lacks the required extension token.
#[derive(Debug, PartialEq, Eq, Structural, Clone, Copy)]
pub enum PathError {
    InvalidPath,
}

/// The characters `.db` occur somewhere in `s`.
pub open spec fn has_db_token(s: Seq<char>) -> bool {
    exists|i: int|
        0 <= i && i + 3 <= s.len() && #[trigger] s[i] == '.' && s[i + 1] == 'd' && s[i + 2] == 'b'
}

/// Whether `path` contains the `.db` extension token.
pub fn path_has_db_token(path: &str) -> (r: bool)
    ensures
        r == has_db_token(path@),
{
    let n = path.unicode_len();
    if n < 3 {
        return false;
    }
    let mut i: usize = 0;
    while i < n - 2
        invariant
            n == path@.len(),
            n >= 3,
            i <= n - 2,
            forall|j: int|
                0 <= j < i ==> !(#[trigger] path@[j] == '.' && path@[j + 1] == 'd' && path@[j + 2]
                    == 'b'),
        decreases n - i,
    {
        if path.get_char(i) == '.' && path.get_char(i + 1) == 'd' && path.get_char(i + 2) == 'b' {
            return true;
        }
        i += 1;
    }
    false
}

/// Accept a path exactly when it carries the `.db` extension token; any
/// other path is rejected with `InvalidPath` (and the caller must not touch
/// the filesystem for it).
pub fn validate_path(path: &str) -> (r: Result<(), PathError>)
    ensures
        r is Ok <==> has_db_token(path@),
        r is Err ==> r == Err::<(), PathError>(PathError::InvalidPath),
{
    if path_has_db_token(path) {
        Ok(())
    } else {
        Err(PathError::InvalidPath)
    }
}

} // verus!
