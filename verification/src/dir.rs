use vstd::prelude::*;

use crate::path::{join_path, path_join};
use crate::text::concat2;

verus! {

/// `input` with a leading `~` (alone, or before a `/`) replaced by the home
/// directory, when it is known; anything else is left as it is.
pub open spec fn spec_expand_tilde(input: Seq<char>, home: Option<Seq<char>>) -> Seq<char> {
    if input.len() > 0 && input[0] == '~' && (input.len() == 1 || input[1] == '/') && home is Some {
        path_join(home->0, if input.len() > 1 { input.skip(2) } else { Seq::empty() })
    } else {
        input
    }
}

/// Expand `~` and `~/...` to the home directory `home` (`$HOME`). A path
/// under `~/` lands under the home directory, after a `/`.
pub fn expand_tilde(input: &str, home: Option<&str>) -> (r: String)
    ensures
        r@ == spec_expand_tilde(input@, match home {
            Some(h) => Some(h@),
            None => None,
        }),
        home matches Some(h) ==> (h@.len() > 0 && h@.last() != '/' && input@.len() > 2 && input@[0] == '~'
            && input@[1] == '/' && input@[2] != '/' ==> r@ == h@ + seq!['/'] + input@.skip(2)),
{
    let n = input.unicode_len();
    if n > 0 && input.get_char(0) == '~' && (n == 1 || input.get_char(1) == '/') {
        match home {
            Some(h) => {
                let rest = if n > 1 {
                    input.substring_char(2, n)
                } else {
                    ""
                };
                proof {
                    if n <= 1 {
                        reveal_strlit("");
                        assert(rest@ =~= Seq::<char>::empty());
                    }
                }
                join_path(h, rest)
            },
            None => String::from_str(input),
        }
    } else {
        String::from_str(input)
    }
}

/// What the file system says is at a path.
#[derive(PartialEq, Eq, Structural, Clone, Copy, Debug)]
pub enum PathKind {
    Directory,
    NotDirectory,
    Missing,
}

/// The directory to change to, given what is at the expanded path, or the
/// reason why there is none.
pub fn resolve(input: &str, path: String, kind: PathKind) -> (r: Result<String, String>)
    ensures
        kind == PathKind::Directory ==> r == Ok::<String, String>(path),
        kind == PathKind::NotDirectory ==> (r matches Err(e) && e@ == input@ + ": Not a directory"@),
        kind == PathKind::Missing ==> (r matches Err(e) && e@ == input@ + ": No such file or directory"@),
{
    match kind {
        PathKind::Directory => Ok(path),
        PathKind::NotDirectory => Err(concat2(input, ": Not a directory")),
        PathKind::Missing => Err(concat2(input, ": No such file or directory")),
    }
}

/// A path that does not start with `~` is left as it is.
pub proof fn law_expand_tilde_only_home(input: Seq<char>, home: Option<Seq<char>>)
    requires
        input.len() == 0 || input[0] != '~',
    ensures
        spec_expand_tilde(input, home) == input,
{
}

} // verus!
