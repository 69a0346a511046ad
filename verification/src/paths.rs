//! Lists ordered by device path, without duplicates.

use vstd::prelude::*;
use vstd::string::*;
use vstd::utf8::*;

verus! {

/// Something that is listed under a device path.
pub trait HasPath: Sized {
    /// The path.
    spec fn path_text(&self) -> Seq<char>;

    /// The path.
    fn path_str(&self) -> (path: &str)
        ensures
            path@ == self.path_text(),
    ;
}

impl HasPath for String {
    open spec fn path_text(&self) -> Seq<char> {
        self@
    }

    fn path_str(&self) -> (path: &str) {
        self.as_str()
    }
}

/// The paths of a list.
pub open spec fn paths_of<T: HasPath>(list: Seq<T>) -> Seq<Seq<char>> {
    Seq::new(list.len(), |i: int| list[i].path_text())
}

/// Whether `a` and `b` agree before position `i`, and at `i` either `a` ends or
/// has the smaller byte.
pub open spec fn differs_at(a: Seq<u8>, b: Seq<u8>, i: int) -> bool {
    &&& 0 <= i <= a.len()
    &&& i < b.len()
    &&& forall|j: int| 0 <= j < i ==> a[j] == b[j]
    &&& i < a.len() ==> a[i] < b[i]
}

/// Lexicographic order of byte strings.
pub open spec fn bytes_before(a: Seq<u8>, b: Seq<u8>) -> bool {
    exists|i: int| differs_at(a, b, i)
}

/// Order of paths: lexicographic by their UTF-8 bytes.
pub open spec fn path_before(a: Seq<char>, b: Seq<char>) -> bool {
    bytes_before(encode_utf8(a), encode_utf8(b))
}

/// Whether each path of a list comes before all later ones.
pub open spec fn strictly_sorted(paths: Seq<Seq<char>>) -> bool {
    forall|i: int, j: int|
        0 <= i < j < paths.len() ==> path_before(#[trigger] paths[i], #[trigger] paths[j])
}

pub(crate) proof fn lemma_before_is_asymmetric(a: Seq<char>, b: Seq<char>)
    requires
        path_before(a, b),
    ensures
        !path_before(b, a),
        a != b,
{
    let x = encode_utf8(a);
    let y = encode_utf8(b);
    let i = choose|i: int| differs_at(x, y, i);
    if path_before(b, a) {
        let j = choose|j: int| differs_at(y, x, j);
        if i < j {
            assert(y[i] == x[i]);
        } else if j < i {
            assert(x[j] == y[j]);
        }
    }
    if a == b {
        assert(i == x.len());
    }
}

proof fn lemma_before_is_transitive(a: Seq<char>, b: Seq<char>, c: Seq<char>)
    requires
        path_before(a, b),
        path_before(b, c),
    ensures
        path_before(a, c),
{
    let x = encode_utf8(a);
    let y = encode_utf8(b);
    let z = encode_utf8(c);
    let i = choose|i: int| differs_at(x, y, i);
    let j = choose|j: int| differs_at(y, z, j);
    if i < j {
        assert(y[i] == z[i]);
        assert(differs_at(x, z, i));
    } else {
        assert(forall|k: int| 0 <= k < j ==> x[k] == y[k]);
        assert(differs_at(x, z, j));
    }
}

/// How two paths relate.
#[derive(Debug, Clone, Copy, PartialEq, Eq, Structural)]
pub enum PathRelation {
    Before,
    Same,
    After,
}

/// Compares two paths. See [`path_before`].
pub fn relate_paths(a: &str, b: &str) -> (relation: PathRelation)
    ensures
        match relation {
            PathRelation::Before => path_before(a@, b@),
            PathRelation::Same => a@ == b@,
            PathRelation::After => path_before(b@, a@),
        },
{
    let x = a.as_bytes();
    let y = b.as_bytes();
    let mut i: usize = 0;
    while i < x.len() && i < y.len()
        invariant
            x@ == encode_utf8(a@),
            y@ == encode_utf8(b@),
            i <= x@.len(),
            i <= y@.len(),
            forall|j: int| 0 <= j < i ==> x@[j] == y@[j],
        decreases x@.len() - i,
    {
        if x[i] < y[i] {
            assert(differs_at(x@, y@, i as int));
            return PathRelation::Before;
        }
        if y[i] < x[i] {
            assert(differs_at(y@, x@, i as int));
            return PathRelation::After;
        }
        i += 1;
    }
    if i < y.len() {
        assert(differs_at(x@, y@, i as int));
        PathRelation::Before
    } else if i < x.len() {
        assert(differs_at(y@, x@, i as int));
        PathRelation::After
    } else {
        proof {
            assert(x@ =~= y@);
            encode_utf8_decode_utf8(a@);
            encode_utf8_decode_utf8(b@);
        }
        PathRelation::Same
    }
}

/// Puts `item` into its place in a sorted list, unless an item with the same path
/// is there already.
pub fn insert_by_path<T: HasPath>(list: &mut Vec<T>, item: T)
    requires
        strictly_sorted(paths_of(old(list)@)),
    ensures
        strictly_sorted(paths_of(final(list)@)),
        paths_of(old(list)@).contains(item.path_text()) ==> final(list)@ == old(list)@,
        !paths_of(old(list)@).contains(item.path_text()) ==> exists|at: int|
            0 <= at <= old(list)@.len() && final(list)@ == #[trigger] old(list)@.insert(at, item),
        forall|path: Seq<char>| #[trigger]
            paths_of(final(list)@).contains(path) <==> paths_of(old(list)@).contains(path) || path
                == item.path_text(),
{
    let count: usize = list.len();
    let ghost before = paths_of(list@);
    let mut at: usize = 0;
    while at < count
        invariant
            at <= count,
            count == list@.len(),
            list@ == old(list)@,
            before == paths_of(list@),
            strictly_sorted(before),
            forall|j: int| 0 <= j < at ==> path_before(#[trigger] before[j], item.path_text()),
        ensures
            at <= count,
            list@ == old(list)@,
            forall|j: int| 0 <= j < at ==> path_before(#[trigger] before[j], item.path_text()),
            at < count ==> path_before(item.path_text(), before[at as int]),
        decreases count - at,
    {
        match relate_paths(list[at].path_str(), item.path_str()) {
            PathRelation::Before => {},
            PathRelation::Same => {
                assert(before[at as int] == item.path_text());
                return;
            },
            PathRelation::After => {
                break;
            },
        }
        at += 1;
    }
    proof {
        assert forall|j: int| at <= j < count implies path_before(
            item.path_text(),
            #[trigger] before[j],
        ) by {
            if j > at {
                lemma_before_is_transitive(item.path_text(), before[at as int], before[j]);
            }
        }
        assert forall|j: int| 0 <= j < count implies before[j] != item.path_text() by {
            if j < at {
                lemma_before_is_asymmetric(before[j], item.path_text());
            } else {
                lemma_before_is_asymmetric(item.path_text(), before[j]);
            }
        }
        let after = before.insert(at as int, item.path_text());
        assert(paths_of(old(list)@.insert(at as int, item)) =~= after);
        assert forall|path: Seq<char>| #[trigger] after.contains(path) <==> before.contains(path)
            || path == item.path_text() by {
            if before.contains(path) {
                let j = choose|j: int| 0 <= j < before.len() && before[j] == path;
                assert(after[if j < at { j } else { j + 1 }] == path);
            }
            assert(after[at as int] == item.path_text());
        }
    }
    list.insert(at, item);
}

/// Two sorted lists of the same paths are equal, so a list of paths is determined
/// by being sorted and by which paths are in it.
pub proof fn law_sorted_paths_are_determined(a: Seq<Seq<char>>, b: Seq<Seq<char>>)
    requires
        strictly_sorted(a),
        strictly_sorted(b),
        forall|path: Seq<char>| #[trigger] a.contains(path) <==> b.contains(path),
    ensures
        a == b,
    decreases a.len(),
{
    if a.len() == 0 {
        if b.len() > 0 {
            assert(b.contains(b[0]));
            assert(a.contains(b[0]));
        }
        assert(a =~= b);
    } else {
        assert(a.contains(a.last()));
        let j = choose|j: int| 0 <= j < b.len() && b[j] == a.last();
        assert(b.contains(b.last()));
        assert(a.contains(b.last()));
        let i = choose|i: int| 0 <= i < a.len() && a[i] == b.last();
        if j < b.len() - 1 {
            assert(path_before(b[j], b.last()));
            if i < a.len() - 1 {
                assert(path_before(a[i], a.last()));
            }
            lemma_before_is_asymmetric(a.last(), b.last());
        }
        assert(a.last() == b.last());
        let a0 = a.drop_last();
        let b0 = b.drop_last();
        assert forall|path: Seq<char>| #[trigger] a0.contains(path) <==> b0.contains(path) by {
            lemma_drop_last_members(a, path);
            lemma_drop_last_members(b, path);
            assert(a.contains(path) <==> b.contains(path));
        }
        law_sorted_paths_are_determined(a0, b0);
        assert(a =~= a0.push(a.last()));
        assert(b =~= b0.push(b.last()));
    }
}

proof fn lemma_drop_last_members(list: Seq<Seq<char>>, path: Seq<char>)
    requires
        list.len() > 0,
        strictly_sorted(list),
    ensures
        list.drop_last().contains(path) <==> list.contains(path) && path != list.last(),
{
    let rest = list.drop_last();
    if rest.contains(path) {
        let i = choose|i: int| 0 <= i < rest.len() && rest[i] == path;
        assert(list[i] == path);
        assert(path_before(list[i], list[list.len() - 1]));
        lemma_before_is_asymmetric(list[i], list.last());
    }
    if list.contains(path) && path != list.last() {
        let i = choose|i: int| 0 <= i < list.len() && list[i] == path;
        assert(rest[i] == path);
    }
}

} // verus!
