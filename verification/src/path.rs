//! File system paths held as text, compared and joined as `std::path`
//! compares and joins them on Unix.

use vstd::prelude::*;
use vstd::string::*;
use crate::text::{ends_with, ends_with_spec, split_char, split_spec, starts_with, starts_with_spec, str_eq};

verus! {

/// A path joined to another, as `Path::join` does for text paths: an absolute
/// `child` replaces `base`; otherwise a `/` separates them unless `base` is
/// empty or ends with one.
pub open spec fn join_path_spec(base: Seq<char>, child: Seq<char>) -> Seq<char> {
    if starts_with_spec(child, "/"@) {
        child
    } else if base.len() == 0 || ends_with_spec(base, "/"@) {
        base + child
    } else {
        base + "/"@ + child
    }
}

/// Joins `child` to `base`.
pub fn join_path(base: &str, child: &str) -> (r: String)
    ensures
        r@ == join_path_spec(base@, child@),
{
    if starts_with(child, "/") {
        String::from_str(child)
    } else if base.unicode_len() == 0 || ends_with(base, "/") {
        let mut r = String::from_str(base);
        r.append(child);
        r
    } else {
        let mut r = String::from_str(base);
        r.append("/");
        r.append(child);
        r
    }
}

/// The names of a path's parts, in order, without the empty parts that
/// repeated or trailing separators leave and without `.` parts.
pub open spec fn path_names(pieces: Seq<Seq<char>>) -> Seq<Seq<char>>
    decreases pieces.len(),
{
    if pieces.len() == 0 {
        Seq::empty()
    } else {
        let names = path_names(pieces.drop_last());
        if pieces.last().len() == 0 || pieces.last() == "."@ {
            names
        } else {
            names.push(pieces.last())
        }
    }
}

/// What `Path::components` gives for a Unix path: whether it starts at the
/// root, whether it starts with a `.` part of its own (`./a`, `.`), and the
/// names after that.
pub open spec fn path_components(p: Seq<char>) -> (bool, bool, Seq<Seq<char>>) {
    let pieces = split_spec(p, '/');
    let rooted = p.len() > 0 && p[0] == '/';
    (rooted, !rooted && pieces[0] == "."@, path_names(pieces))
}

/// Whether two paths are equal as `Path`s: `/a//b/` and `/a/./b` are the
/// same path, `a` and `./a` are not.
pub open spec fn same_path_spec(a: Seq<char>, b: Seq<char>) -> bool {
    path_components(a) == path_components(b)
}

/// The components of a path.
fn path_parts(p: &str) -> (r: (bool, bool, Vec<String>))
    ensures
        r.0 == path_components(p@).0,
        r.1 == path_components(p@).1,
        r.2@.map_values(|s: String| s@) == path_components(p@).2,
{
    let pieces = split_char(p, '/');
    let ghost pv = pieces@.map_values(|s: String| s@);
    proof {
        crate::text::lemma_split_nonempty(p@, '/');
        assert(pv[0] == pieces@[0]@);
    }
    let rooted = p.unicode_len() > 0 && p.get_char(0) == '/';
    let cur = !rooted && str_eq(pieces[0].as_str(), ".");
    let mut names: Vec<String> = Vec::new();
    let mut i: usize = 0;
    proof {
        assert(pv.take(0) =~= Seq::<Seq<char>>::empty());
        assert(names@.map_values(|s: String| s@) =~= Seq::<Seq<char>>::empty());
    }
    while i < pieces.len()
        invariant
            i <= pieces@.len(),
            pv == pieces@.map_values(|s: String| s@),
            names@.map_values(|s: String| s@) == path_names(pv.take(i as int)),
        decreases pieces@.len() - i,
    {
        proof {
            assert(pv.take(i + 1).drop_last() =~= pv.take(i as int));
            assert(pv.take(i + 1).last() == pv[i as int]);
            assert(pv[i as int] == pieces@[i as int]@);
        }
        let piece = pieces[i].as_str();
        if !(piece.unicode_len() == 0 || str_eq(piece, ".")) {
            let ghost prev = names@;
            names.push(String::from_str(piece));
            proof {
                assert(names@.map_values(|s: String| s@) =~= prev.map_values(|s: String| s@).push(piece@));
            }
        }
        i = i + 1;
    }
    proof {
        assert(pv.take(i as int) =~= pv);
    }
    (rooted, cur, names)
}

/// Whether two lists of names are equal.
fn same_names(x: &Vec<String>, y: &Vec<String>) -> (r: bool)
    ensures
        r == (x@.map_values(|s: String| s@) == y@.map_values(|s: String| s@)),
{
    let ghost xv = x@.map_values(|s: String| s@);
    let ghost yv = y@.map_values(|s: String| s@);
    if x.len() != y.len() {
        proof {
            assert(xv.len() != yv.len());
        }
        return false;
    }
    let mut i: usize = 0;
    while i < x.len()
        invariant
            x@.len() == y@.len(),
            i <= x@.len(),
            xv == x@.map_values(|s: String| s@),
            yv == y@.map_values(|s: String| s@),
            forall|j: int| 0 <= j < i ==> xv[j] == yv[j],
        decreases x@.len() - i,
    {
        if !str_eq(x[i].as_str(), y[i].as_str()) {
            proof {
                assert(xv[i as int] != yv[i as int]);
            }
            return false;
        }
        i = i + 1;
    }
    proof {
        assert(xv =~= yv);
    }
    true
}

/// Whether two paths are equal as `Path`s.
pub fn same_path(a: &str, b: &str) -> (r: bool)
    ensures
        r == same_path_spec(a@, b@),
{
    let (ra, ca, na) = path_parts(a);
    let (rb, cb, nb) = path_parts(b);
    ra == rb && ca == cb && same_names(&na, &nb)
}

} // verus!
