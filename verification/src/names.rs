//! The base name that the names of the output files are built on.

use vstd::prelude::*;

verus! {

/// Why the name of the input gives no base name.
#[derive(Debug, Clone, Copy, PartialEq, Eq, Structural)]
pub enum NameError {
    /// The name has no extension: no dot after its first character.
    NoExtension,
}

/// The position of the last dot among the first `n` characters.
pub open spec fn last_dot_upto(name: Seq<char>, n: int) -> Option<int>
    decreases n,
{
    if n <= 0 {
        None
    } else if name[n - 1] == '.' {
        Some(n - 1)
    } else {
        last_dot_upto(name, n - 1)
    }
}

/// The base name of a file name: what stands before its last dot. A name
/// without a dot, or whose only dot is its first character, has none.
pub open spec fn base_name_of(name: Seq<char>) -> Result<Seq<char>, NameError> {
    match last_dot_upto(name, name.len() as int) {
        Some(dot) => if dot > 0 {
            Ok(name.subrange(0, dot))
        } else {
            Err(NameError::NoExtension)
        },
        None => Err(NameError::NoExtension),
    }
}

/// The content of a base name, or the error in its place.
pub open spec fn name_view(r: Result<String, NameError>) -> Result<Seq<char>, NameError> {
    match r {
        Ok(name) => Ok(name@),
        Err(e) => Err(e),
    }
}

/// Takes the base name from the name of the input file.
pub fn base_name(file_name: &str) -> (r: Result<String, NameError>)
    ensures
        name_view(r) == base_name_of(file_name@),
{
    let n: usize = file_name.unicode_len();
    let mut i: usize = n;
    while i > 0
        invariant
            n == file_name@.len(),
            i <= n,
            last_dot_upto(file_name@, n as int) == last_dot_upto(file_name@, i as int),
        decreases i,
    {
        if file_name.get_char(i - 1) == '.' {
            if i - 1 > 0 {
                return Ok(String::from_str(file_name.substring_char(0, i - 1)));
            } else {
                return Err(NameError::NoExtension);
            }
        }
        i = i - 1;
    }
    Err(NameError::NoExtension)
}

} // verus!
