use vstd::prelude::*;
use vstd::utf8::encode_utf8;
use vstd::utf8::encode_utf8_decode_utf8;

use crate::text::views;

verus! {

/// What `Path::join` of std gives for `base` and `rest`, as text.
pub uninterp spec fn path_join(base: Seq<char>, rest: Seq<char>) -> Seq<char>;

/// `std::path::Path::join`, on paths given and returned as text.
///
/// Claims that the result is `path_join` of the two paths, and two cases
/// that the documentation of `PathBuf::push` states: an absolute `rest` (one
/// that starts with `/`) replaces `base`, and a relative `rest` extends a
/// `base` that does not end in `/` after a separator (its example: `/tmp`
/// and `file.bk` give `/tmp/file.bk`). An empty `rest` or `base`, and a
/// `base` that already ends in `/`, are left unsaid. The result of two UTF-8
/// paths is UTF-8, so the conversion back to text loses nothing.
#[verifier::external_body]
pub(crate) fn join_path(base: &str, rest: &str) -> (r: String)
    ensures
        r@ == path_join(base@, rest@),
        rest@.len() > 0 && rest@[0] == '/' ==> r@ == rest@,
        base@.len() > 0 && base@.last() != '/' && rest@.len() > 0 && rest@[0] != '/' ==> r@ == base@
            + seq!['/'] + rest@,
{
    std::path::Path::new(base).join(rest).to_string_lossy().into_owned()
}

/// A directory entry is executable when it is a regular file and one of its
/// execute permission bits (owner, group, other) is set.
pub open spec fn spec_executable_mode(is_file: bool, mode: u32) -> bool {
    is_file && (mode & 0o111u32) != 0
}

/// Whether a file with these metadata is executable.
pub fn executable_mode(is_file: bool, mode: u32) -> (b: bool)
    ensures
        b == spec_executable_mode(is_file, mode),
{
    is_file && (mode & 0o111u32) != 0
}

/// Whether `cmd` names a path from the root.
pub open spec fn is_absolute(cmd: Seq<char>) -> bool {
    cmd.len() > 0 && cmd[0] == '/'
}

/// The paths at which to look for the executable `cmd`, in the order in which
/// they are tried: `cmd` itself when it is absolute; otherwise `cmd` under
/// each directory of `$PATH`, and none when `$PATH` is unset.
pub open spec fn spec_candidates(cmd: Seq<char>, dirs: Option<Seq<Seq<char>>>) -> Seq<Seq<char>> {
    if is_absolute(cmd) {
        seq![cmd]
    } else {
        match dirs {
            None => Seq::empty(),
            Some(d) => d.map_values(|dir: Seq<char>| path_join(dir, cmd)),
        }
    }
}

/// The directories of an optional list, as text.
pub open spec fn opt_views(dirs: Option<&[String]>) -> Option<Seq<Seq<char>>> {
    match dirs {
        Some(d) => Some(views(d@)),
        None => None,
    }
}

/// The paths to try, in order, when searching for an executable by name.
/// `dirs` are the directories of `$PATH`, or `None` when it is unset.
pub fn executable_candidates(cmd: &str, dirs: Option<&[String]>) -> (r: Vec<String>)
    ensures
        views(r@) == spec_candidates(cmd@, opt_views(dirs)),
        dirs matches Some(d) ==> (cmd@.len() > 0 && !is_absolute(cmd@) ==> forall|k: int|
            0 <= k < d@.len() && d@[k]@.len() > 0 && d@[k]@.last() != '/' ==> #[trigger] r@[k]@ == d@[k]@
                + seq!['/'] + cmd@),
{
    let n = cmd.unicode_len();
    if n > 0 && cmd.get_char(0) == '/' {
        let mut r: Vec<String> = Vec::new();
        r.push(String::from_str(cmd));
        assert(views(r@) =~= seq![cmd@]);
        return r;
    }
    match dirs {
        None => {
            let r: Vec<String> = Vec::new();
            assert(views(r@) =~= Seq::<Seq<char>>::empty());
            r
        },
        Some(d) => {
            let mut r: Vec<String> = Vec::new();
            let mut i: usize = 0;
            while i < d.len()
                invariant
                    i <= d@.len(),
                    r@.len() == i,
                    forall|k: int| 0 <= k < i ==> #[trigger] r@[k]@ == path_join(d@[k]@, cmd@),
                    cmd@.len() > 0 && !is_absolute(cmd@) ==> forall|k: int|
                        0 <= k < i && d@[k]@.len() > 0 && d@[k]@.last() != '/' ==> #[trigger] r@[k]@
                            == d@[k]@ + seq!['/'] + cmd@,
                decreases d@.len() - i,
            {
                let p = join_path(d[i].as_str(), cmd);
                r.push(p);
                i = i + 1;
            }
            assert(views(r@) =~= views(d@).map_values(|dir: Seq<char>| path_join(dir, cmd@)));
            r
        },
    }
}

/// The bytes of a string in UTF-8; `String` and `BTreeSet<String>` order
/// strings by these.
pub open spec fn utf8(s: Seq<char>) -> Seq<u8> {
    encode_utf8(s)
}

/// Lexicographic order on byte sequences: a proper prefix comes first.
pub open spec fn bytes_lt(a: Seq<u8>, b: Seq<u8>) -> bool
    decreases a.len(),
{
    if a.len() == 0 {
        b.len() > 0
    } else if b.len() == 0 {
        false
    } else if a[0] != b[0] {
        a[0] < b[0]
    } else {
        bytes_lt(a.drop_first(), b.drop_first())
    }
}

proof fn lemma_bytes_lt_transitive(a: Seq<u8>, b: Seq<u8>, c: Seq<u8>)
    requires
        bytes_lt(a, b),
        bytes_lt(b, c),
    ensures
        bytes_lt(a, c),
    decreases a.len(),
{
    if a.len() > 0 && b.len() > 0 && c.len() > 0 {
        if a[0] == b[0] && b[0] == c[0] {
            lemma_bytes_lt_transitive(a.drop_first(), b.drop_first(), c.drop_first());
        }
    }
}

proof fn lemma_bytes_lt_total(a: Seq<u8>, b: Seq<u8>)
    requires
        a != b,
    ensures
        bytes_lt(a, b) || bytes_lt(b, a),
    decreases a.len(),
{
    if a.len() > 0 && b.len() > 0 && a[0] == b[0] {
        if a.drop_first() == b.drop_first() {
            assert(a =~= seq![a[0]] + a.drop_first());
            assert(b =~= seq![b[0]] + b.drop_first());
        }
        lemma_bytes_lt_total(a.drop_first(), b.drop_first());
    } else if a.len() == 0 && b.len() == 0 {
        assert(a =~= b);
    }
}

/// Strings in strictly increasing order.
pub open spec fn strictly_sorted(s: Seq<Seq<char>>) -> bool {
    forall|i: int, j: int| 0 <= i < j < s.len() ==> bytes_lt(#[trigger] utf8(s[i]), #[trigger] utf8(s[j]))
}

fn str_lt(a: &str, b: &str) -> (r: bool)
    ensures
        r == bytes_lt(utf8(a@), utf8(b@)),
{
    let x = a.as_bytes();
    let y = b.as_bytes();
    let mut i: usize = 0;
    assert(x@.skip(0) =~= x@);
    assert(y@.skip(0) =~= y@);
    while i < x.len() && i < y.len() && x[i] == y[i]
        invariant
            x@ == utf8(a@),
            y@ == utf8(b@),
            i <= x@.len(),
            i <= y@.len(),
            bytes_lt(x@, y@) == bytes_lt(x@.skip(i as int), y@.skip(i as int)),
        decreases x@.len() - i,
    {
        assert(x@.skip(i as int).drop_first() =~= x@.skip(i + 1));
        assert(y@.skip(i as int).drop_first() =~= y@.skip(i + 1));
        i = i + 1;
    }
    if i == x.len() {
        i < y.len()
    } else if i == y.len() {
        false
    } else {
        x[i] < y[i]
    }
}

proof fn lemma_utf8_injective(a: Seq<char>, b: Seq<char>)
    requires
        a != b,
    ensures
        utf8(a) != utf8(b),
{
    encode_utf8_decode_utf8(a);
    encode_utf8_decode_utf8(b);
}

/// The names without repeats, sorted as `BTreeSet<String>` orders them (by
/// their UTF-8 bytes).
pub fn sorted_unique(names: Vec<String>) -> (r: Vec<String>)
    ensures
        strictly_sorted(views(r@)),
        forall|x: Seq<char>| views(r@).contains(x) <==> views(names@).contains(x),
{
    let mut r: Vec<String> = Vec::new();
    let mut i: usize = 0;
    while i < names.len()
        invariant
            i <= names@.len(),
            strictly_sorted(views(r@)),
            forall|x: Seq<char>| views(r@).contains(x) <==> views(names@.take(i as int)).contains(x),
        decreases names@.len() - i,
    {
        let name = &names[i];
        // Find the first position whose string is not below `name`.
        let mut lo: usize = 0;
        let mut hi: usize = r.len();
        while lo < hi
            invariant
                0 <= lo <= hi <= r@.len(),
                strictly_sorted(views(r@)),
                forall|k: int| 0 <= k < lo ==> bytes_lt(#[trigger] utf8(r@[k]@), utf8(name@)),
                forall|k: int| hi <= k < r@.len() ==> !bytes_lt(#[trigger] utf8(r@[k]@), utf8(name@)),
            decreases hi - lo,
        {
            let mid = lo + (hi - lo) / 2;
            if str_lt(r[mid].as_str(), name.as_str()) {
                proof {
                    assert forall|k: int| 0 <= k < mid + 1 implies bytes_lt(#[trigger] utf8(r@[k]@), utf8(name@)) by {
                        if k < mid {
                            assert(views(r@)[k] == r@[k]@ && views(r@)[mid as int] == r@[mid as int]@);
                            lemma_bytes_lt_transitive(utf8(r@[k]@), utf8(r@[mid as int]@), utf8(name@));
                        }
                    }
                }
                lo = mid + 1;
            } else {
                proof {
                    assert forall|k: int| mid <= k < r@.len() implies !bytes_lt(#[trigger] utf8(r@[k]@), utf8(name@)) by {
                        if k > mid {
                            assert(views(r@)[k] == r@[k]@ && views(r@)[mid as int] == r@[mid as int]@);
                            if bytes_lt(utf8(r@[k]@), utf8(name@)) {
                                lemma_bytes_lt_transitive(utf8(r@[mid as int]@), utf8(r@[k]@), utf8(name@));
                            }
                        }
                    }
                }
                hi = mid;
            }
        }
        let ghost old_r = views(r@);
        let ghost pre = r@;
        proof {
            assert(names@.take(i + 1) =~= names@.take(i as int).push(names@[i as int]));
            assert(views(names@.take(i + 1)) =~= views(names@.take(i as int)).push(name@));
        }
        let dup = lo < r.len() && !str_lt(name.as_str(), r[lo].as_str());
        if dup {
            proof {
                let a = utf8(r@[lo as int]@);
                let b = utf8(name@);
                if r@[lo as int]@ != name@ {
                    lemma_utf8_injective(r@[lo as int]@, name@);
                    lemma_bytes_lt_total(a, b);
                }
                assert(views(r@)[lo as int] == name@);
                lemma_push_contains(views(names@.take(i as int)), name@);
                assert(views(r@).contains(name@)) by {
                    assert(views(r@)[lo as int] == name@);
                }
            }
        } else {
            let s = name.clone();
            r.insert(lo, s);
            proof {
                let nr = views(r@);
                assert(nr =~= old_r.insert(lo as int, name@));
                assert forall|p: int, q: int| 0 <= p < q < nr.len() implies bytes_lt(#[trigger] utf8(nr[p]), #[trigger] utf8(nr[q])) by {
                    if p < lo && q == lo {
                        assert(nr[p] == old_r[p]);
                        assert(old_r[p] == pre[p]@);
                    } else if p == lo && q > lo {
                        assert(nr[q] == old_r[q - 1]);
                        assert(old_r[lo as int] == pre[lo as int]@);
                        if q - 1 > lo {
                            lemma_bytes_lt_transitive(utf8(name@), utf8(old_r[lo as int]), utf8(old_r[q - 1]));
                        }
                    } else if p < lo && q > lo {
                        assert(nr[p] == old_r[p]);
                        assert(nr[q] == old_r[q - 1]);
                    } else if p > lo {
                        assert(nr[p] == old_r[p - 1]);
                        assert(nr[q] == old_r[q - 1]);
                    } else {
                        assert(nr[p] == old_r[p]);
                        assert(nr[q] == old_r[q]);
                    }
                }
                lemma_push_contains(views(names@.take(i as int)), name@);
                lemma_insert_contains(old_r, lo as int, name@);
            }
        }
        i = i + 1;
    }
    assert(names@.take(names@.len() as int) =~= names@);
    r
}

proof fn lemma_push_contains(s: Seq<Seq<char>>, v: Seq<char>)
    ensures
        forall|x: Seq<char>| #[trigger] s.push(v).contains(x) <==> (s.contains(x) || x == v),
{
    assert forall|x: Seq<char>| #[trigger] s.push(v).contains(x) <==> (s.contains(x) || x == v) by {
        if s.push(v).contains(x) {
            let k = choose|k: int| 0 <= k < s.push(v).len() && #[trigger] s.push(v)[k] == x;
            if k < s.len() {
                assert(s[k] == x);
            }
        }
        if s.contains(x) {
            let k = choose|k: int| 0 <= k < s.len() && #[trigger] s[k] == x;
            assert(s.push(v)[k] == x);
        }
        if x == v {
            assert(s.push(v)[s.len() as int] == x);
        }
    }
}

proof fn lemma_insert_contains(s: Seq<Seq<char>>, i: int, v: Seq<char>)
    requires
        0 <= i <= s.len(),
    ensures
        forall|x: Seq<char>| #[trigger] s.insert(i, v).contains(x) <==> (s.contains(x) || x == v),
{
    assert forall|x: Seq<char>| #[trigger] s.insert(i, v).contains(x) <==> (s.contains(x) || x == v) by {
        let t = s.insert(i, v);
        if t.contains(x) {
            let k = choose|k: int| 0 <= k < t.len() && #[trigger] t[k] == x;
            if k < i {
                assert(s[k] == x);
            } else if k > i {
                assert(s[k - 1] == x);
            }
        }
        if s.contains(x) {
            let k = choose|k: int| 0 <= k < s.len() && #[trigger] s[k] == x;
            if k < i {
                assert(t[k] == x);
            } else {
                assert(t[k + 1] == x);
            }
        }
        if x == v {
            assert(t[i] == x);
        }
    }
}

} // verus!
