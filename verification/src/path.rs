//! Paths as byte strings: where a path lands inside the graveyard, which names are
//! tried when a place is taken, and how a path is moved from under one directory to
//! under another. Nothing here touches the filesystem; every test is lexical.

use vstd::prelude::*;

verus! {

/// The byte that separates the components of a path (`/`).
pub const SEPARATOR: u8 = 47;

/// The byte that introduces the number of an alternate name (`~`).
pub const SUFFIX_MARK: u8 = 126;

/// The byte of the digit zero.
pub const DIGIT_ZERO: u8 = 48;

/// The byte strings that `paths` holds.
pub open spec fn path_views(paths: Seq<Vec<u8>>) -> Seq<Seq<u8>> {
    paths.map_values(|p: Vec<u8>| p@)
}

/// How many separators `path` begins with.
pub open spec fn leading_separators(path: Seq<u8>) -> nat
    decreases path.len(),
{
    if path.len() > 0 && path[0] == SEPARATOR {
        1 + leading_separators(path.skip(1))
    } else {
        0
    }
}

/// How many separators `path` ends with.
pub open spec fn trailing_separators(path: Seq<u8>) -> nat
    decreases path.len(),
{
    if path.len() > 0 && path.last() == SEPARATOR {
        1 + trailing_separators(path.drop_last())
    } else {
        0
    }
}

/// How many bytes other than the separator `path` ends with: the length of its last
/// component when it has no trailing separator.
pub open spec fn trailing_name(path: Seq<u8>) -> nat
    decreases path.len(),
{
    if path.len() > 0 && path.last() != SEPARATOR {
        1 + trailing_name(path.drop_last())
    } else {
        0
    }
}

/// `path` without the separators it begins with.
pub open spec fn without_root(path: Seq<u8>) -> Seq<u8> {
    path.skip(leading_separators(path) as int)
}

/// `rel` placed below `base`: the two are joined by exactly one separator unless
/// `base` is empty or already ends with one.
pub open spec fn joined(base: Seq<u8>, rel: Seq<u8>) -> Seq<u8> {
    if base.len() == 0 || base.last() == SEPARATOR {
        base + rel
    } else {
        base + seq![SEPARATOR] + rel
    }
}

/// The place of `path` inside `root`: the components of `path`, without its root
/// marker, below `root`.
pub open spec fn grave_mapping(root: Seq<u8>, path: Seq<u8>) -> Seq<u8> {
    joined(root, without_root(path))
}

/// `target` as seen from `cwd`: an absolute target stands for itself, a relative one
/// is placed below `cwd`.
pub open spec fn resolved(cwd: Seq<u8>, target: Seq<u8>) -> Seq<u8> {
    if target.len() > 0 && target[0] == SEPARATOR {
        target
    } else {
        joined(cwd, target)
    }
}

/// `path` is `base` itself or lies below it, component by component.
pub open spec fn is_under(path: Seq<u8>, base: Seq<u8>) -> bool {
    &&& base.is_prefix_of(path)
    &&& (base.len() == 0 || base.len() == path.len() || base.last() == SEPARATOR
        || path[base.len() as int] == SEPARATOR)
}

/// The decimal digits of `n`, most significant first.
pub open spec fn decimal(n: nat) -> Seq<u8>
    decreases n,
{
    if n < 10 {
        seq![(DIGIT_ZERO + n) as u8]
    } else {
        decimal(n / 10).push((DIGIT_ZERO + n % 10) as u8)
    }
}

/// The `n`-th name tried for `path`: `path` itself for 0, then `path~1`, `path~2`, ...
pub open spec fn candidate(path: Seq<u8>, n: nat) -> Seq<u8> {
    if n == 0 {
        path
    } else {
        path + seq![SUFFIX_MARK] + decimal(n)
    }
}

/// The directory that holds `path`, if it has one: none for the empty path and for a
/// path made of separators only; the empty path for a single relative component; the
/// root for a single component below the root.
pub open spec fn parent_of(path: Seq<u8>) -> Option<Seq<u8>> {
    let end = path.len() - trailing_separators(path);
    let start = end - trailing_name(path.take(end));
    let cut = start - trailing_separators(path.take(start));
    if end == 0 {
        None
    } else if start == 0 {
        Some(Seq::<u8>::empty())
    } else if cut == 0 {
        Some(path.take(1))
    } else {
        Some(path.take(cut))
    }
}

/// `path`, which lies under `from`, moved to the same place under `to`; none if
/// `path` does not lie under `from`.
pub open spec fn rerooted(path: Seq<u8>, from: Seq<u8>, to: Seq<u8>) -> Option<Seq<u8>> {
    if is_under(path, from) {
        let rest = without_root(path.skip(from.len() as int));
        if rest.len() == 0 {
            Some(to)
        } else {
            Some(joined(to, rest))
        }
    } else {
        None
    }
}

/// A copy of the bytes of `text` from `from` up to `to`.
pub(crate) fn slice_of(text: &[u8], from: usize, to: usize) -> (part: Vec<u8>)
    requires
        from <= to <= text.len(),
    ensures
        part@ == text@.subrange(from as int, to as int),
{
    let mut part: Vec<u8> = Vec::new();
    let mut i: usize = from;
    while i < to
        invariant
            from <= i <= to <= text.len(),
            part@ == text@.subrange(from as int, i as int),
        decreases to - i,
    {
        part.push(text[i]);
        i += 1;
    }
    part
}

/// A copy of `bytes`.
pub(crate) fn to_owned_bytes(bytes: &[u8]) -> (copy: Vec<u8>)
    ensures
        copy@ == bytes@,
{
    let copy = slice_of(bytes, 0, bytes.len());
    copy
}

/// Appends `tail`, from its byte `from` on, to `buffer`.
pub(crate) fn append_from(buffer: &mut Vec<u8>, tail: &[u8], from: usize)
    requires
        from <= tail.len(),
    ensures
        final(buffer)@ == old(buffer)@ + tail@.skip(from as int),
{
    let mut i: usize = from;
    while i < tail.len()
        invariant
            from <= i <= tail.len(),
            buffer@ == old(buffer)@ + tail@.subrange(from as int, i as int),
        decreases tail.len() - i,
    {
        buffer.push(tail[i]);
        i += 1;
    }
}

/// Whether the two byte strings are the same.
pub fn same_bytes(a: &[u8], b: &[u8]) -> (same: bool)
    ensures
        same == (a@ == b@),
{
    if a.len() != b.len() {
        return false;
    }
    let mut i: usize = 0;
    while i < a.len()
        invariant
            i <= a.len(),
            a.len() == b.len(),
            a@.take(i as int) == b@.take(i as int),
        decreases a.len() - i,
    {
        if a[i] != b[i] {
            return false;
        }
        i += 1;
    }
    assert(a@.take(a.len() as int) =~= a@);
    assert(b@.take(b.len() as int) =~= b@);
    true
}

/// Whether `text` begins with `prefix`, byte by byte.
pub fn has_prefix(text: &[u8], prefix: &[u8]) -> (found: bool)
    ensures
        found == prefix@.is_prefix_of(text@),
{
    if prefix.len() > text.len() {
        return false;
    }
    let mut i: usize = 0;
    while i < prefix.len()
        invariant
            i <= prefix.len() <= text.len(),
            forall|k: int| 0 <= k < i ==> text@[k] == prefix@[k],
        decreases prefix.len() - i,
    {
        if text[i] != prefix[i] {
            return false;
        }
        i += 1;
    }
    true
}

/// Counts the separators at the start of `path`.
fn count_leading_separators(path: &[u8]) -> (count: usize)
    ensures
        count == leading_separators(path@),
        count <= path.len(),
{
    let mut i: usize = 0;
    assert(path@.skip(0) =~= path@);
    while i < path.len() && path[i] == SEPARATOR
        invariant
            i <= path.len(),
            leading_separators(path@) == i + leading_separators(path@.skip(i as int)),
        decreases path.len() - i,
    {
        assert(path@.skip(i as int).skip(1) =~= path@.skip(i + 1));
        i += 1;
    }
    i
}

/// Places `rel` below `base`.
pub fn join(base: &[u8], rel: &[u8]) -> (path: Vec<u8>)
    ensures
        path@ == joined(base@, rel@),
{
    let mut path = to_owned_bytes(base);
    if base.len() > 0 && base[base.len() - 1] != SEPARATOR {
        path.push(SEPARATOR);
    }
    append_from(&mut path, rel, 0);
    path
}

/// Where `path` rests inside the graveyard `prefix`.
pub fn join_absolute(prefix: &[u8], path: &[u8]) -> (grave: Vec<u8>)
    ensures
        grave@ == grave_mapping(prefix@, path@),
{
    let skip = count_leading_separators(path);
    let mut grave = to_owned_bytes(prefix);
    if prefix.len() > 0 && prefix[prefix.len() - 1] != SEPARATOR {
        grave.push(SEPARATOR);
    }
    append_from(&mut grave, path, skip);
    grave
}

/// `target` as seen from the directory `cwd`.
pub fn resolve(cwd: &[u8], target: &[u8]) -> (path: Vec<u8>)
    ensures
        path@ == resolved(cwd@, target@),
{
    if target.len() > 0 && target[0] == SEPARATOR {
        to_owned_bytes(target)
    } else {
        join(cwd, target)
    }
}

/// Whether `path` is `base` or lies below it.
pub fn starts_with(path: &[u8], base: &[u8]) -> (under: bool)
    ensures
        under == is_under(path@, base@),
{
    if !has_prefix(path, base) {
        return false;
    }
    base.len() == 0 || base.len() == path.len() || base[base.len() - 1] == SEPARATOR
        || path[base.len()] == SEPARATOR
}

/// Counts the separators that end the first `end` bytes of `path`.
fn count_trailing_separators(path: &[u8], end: usize) -> (count: usize)
    requires
        end <= path.len(),
    ensures
        count == trailing_separators(path@.take(end as int)),
        count <= end,
{
    let mut j: usize = end;
    while j > 0 && path[j - 1] == SEPARATOR
        invariant
            j <= end <= path.len(),
            trailing_separators(path@.take(end as int)) == (end - j) + trailing_separators(
                path@.take(j as int),
            ),
        decreases j,
    {
        assert(path@.take(j as int).drop_last() =~= path@.take(j - 1));
        j -= 1;
    }
    end - j
}

/// Counts the bytes other than separators that end the first `end` bytes of `path`.
fn count_trailing_name(path: &[u8], end: usize) -> (count: usize)
    requires
        end <= path.len(),
    ensures
        count == trailing_name(path@.take(end as int)),
        count <= end,
{
    let mut j: usize = end;
    while j > 0 && path[j - 1] != SEPARATOR
        invariant
            j <= end <= path.len(),
            trailing_name(path@.take(end as int)) == (end - j) + trailing_name(
                path@.take(j as int),
            ),
        decreases j,
    {
        assert(path@.take(j as int).drop_last() =~= path@.take(j - 1));
        j -= 1;
    }
    end - j
}

/// The directory that holds `path`, if it has one.
pub fn parent(path: &[u8]) -> (dir: Option<Vec<u8>>)
    ensures
        dir is Some == parent_of(path@) is Some,
        dir matches Some(d) ==> parent_of(path@) == Some(d@),
{
    assert(path@.take(path.len() as int) =~= path@);
    let end: usize = path.len() - count_trailing_separators(path, path.len());
    if end == 0 {
        return None;
    }
    let start: usize = end - count_trailing_name(path, end);
    if start == 0 {
        return Some(Vec::new());
    }
    let cut: usize = start - count_trailing_separators(path, start);
    if cut == 0 {
        Some(slice_of(path, 0, 1))
    } else {
        Some(slice_of(path, 0, cut))
    }
}

/// `path` moved from under `from` to the same place under `to`.
pub fn reroot(path: &[u8], from: &[u8], to: &[u8]) -> (moved: Option<Vec<u8>>)
    ensures
        moved is Some == rerooted(path@, from@, to@) is Some,
        moved matches Some(m) ==> rerooted(path@, from@, to@) == Some(m@),
{
    if !starts_with(path, from) {
        return None;
    }
    let mut start: usize = from.len();
    while start < path.len() && path[start] == SEPARATOR
        invariant
            from.len() <= start <= path.len(),
            leading_separators(path@.skip(from.len() as int)) == (start - from.len())
                + leading_separators(path@.skip(start as int)),
        decreases path.len() - start,
    {
        assert(path@.skip(start as int).skip(1) =~= path@.skip(start + 1));
        start += 1;
    }
    let mut moved = to_owned_bytes(to);
    if start < path.len() {
        if to.len() > 0 && to[to.len() - 1] != SEPARATOR {
            moved.push(SEPARATOR);
        }
        append_from(&mut moved, path, start);
    }
    Some(moved)
}

/// The decimal digits of `n`.
pub fn decimal_digits(n: u64) -> (digits: Vec<u8>)
    ensures
        digits@ == decimal(n as nat),
    decreases n,
{
    if n < 10 {
        let mut digits: Vec<u8> = Vec::new();
        digits.push(DIGIT_ZERO + n as u8);
        digits
    } else {
        let mut digits = decimal_digits(n / 10);
        digits.push(DIGIT_ZERO + (n % 10) as u8);
        digits
    }
}

/// The `n`-th name to try for the grave `grave`.
pub fn rename_grave(grave: &[u8], n: u64) -> (name: Vec<u8>)
    ensures
        name@ == candidate(grave@, n as nat),
{
    let mut name = to_owned_bytes(grave);
    if n > 0 {
        name.push(SUFFIX_MARK);
        let digits = decimal_digits(n);
        append_from(&mut name, digits.as_slice(), 0);
    }
    name
}

/// Every byte of a decimal number is a digit, and only numbers below ten have a
/// single digit.
pub proof fn lemma_decimal_shape(n: nat)
    ensures
        decimal(n).len() >= 1,
        decimal(n).len() == 1 <==> n < 10,
        decimal(n).last() == DIGIT_ZERO + n % 10,
        forall|i: int| 0 <= i < decimal(n).len() ==> DIGIT_ZERO <= #[trigger] decimal(n)[i] <= DIGIT_ZERO + 9,
    decreases n,
{
    if n >= 10 {
        lemma_decimal_shape(n / 10);
    }
}

/// Different numbers are written differently.
pub proof fn lemma_decimal_injective(a: nat, b: nat)
    requires
        decimal(a) == decimal(b),
    ensures
        a == b,
    decreases a,
{
    lemma_decimal_shape(a);
    lemma_decimal_shape(b);
    if a >= 10 {
        assert(decimal(a).drop_last() =~= decimal(a / 10));
        assert(decimal(b).drop_last() =~= decimal(b / 10));
        lemma_decimal_injective(a / 10, b / 10);
    }
}

/// The names tried for one path are pairwise different: no two attempts can land on
/// the same name, and no alternate name is the path itself.
pub proof fn lemma_candidates_distinct(path: Seq<u8>, i: nat, j: nat)
    requires
        candidate(path, i) == candidate(path, j),
    ensures
        i == j,
{
    lemma_decimal_shape(i);
    lemma_decimal_shape(j);
    if i > 0 && j > 0 {
        let head = path + seq![SUFFIX_MARK];
        assert(candidate(path, i).skip(head.len() as int) =~= decimal(i));
        assert(candidate(path, j).skip(head.len() as int) =~= decimal(j));
        lemma_decimal_injective(i, j);
    }
}

/// Two paths that begin with the same number of separators, such as two absolute
/// paths in canonical form, rest in the same place of a graveyard only if they are
/// one path.
pub proof fn lemma_grave_mapping_injective(root: Seq<u8>, p: Seq<u8>, q: Seq<u8>)
    requires
        grave_mapping(root, p) == grave_mapping(root, q),
        leading_separators(p) == leading_separators(q),
    ensures
        p == q,
{
    let head = if root.len() == 0 || root.last() == SEPARATOR {
        root
    } else {
        root + seq![SEPARATOR]
    };
    assert((head + without_root(p)).skip(head.len() as int) =~= without_root(p));
    lemma_leading_separators_bound(p);
    lemma_leading_separators_bound(q);
    let k = leading_separators(p) as int;
    assert forall|i: int| 0 <= i < p.len() implies p[i] == q[i] by {
        if i >= k {
            assert(p[i] == without_root(p)[i - k]);
        }
    }
}

/// The separators that a path begins with are its first bytes.
pub proof fn lemma_leading_separators_bound(path: Seq<u8>)
    ensures
        leading_separators(path) <= path.len(),
        forall|i: int| 0 <= i < leading_separators(path) ==> path[i] == SEPARATOR,
        leading_separators(path) < path.len() ==> path[leading_separators(path) as int]
            != SEPARATOR,
    decreases path.len(),
{
    if path.len() > 0 && path[0] == SEPARATOR {
        lemma_leading_separators_bound(path.skip(1));
        assert forall|i: int| 0 <= i < leading_separators(path) implies path[i] == SEPARATOR by {
            if i > 0 {
                assert(path[i] == path.skip(1)[i - 1]);
            }
        }
    }
}

/// Every grave, and every name tried in its place, lies inside the graveyard.
pub proof fn lemma_grave_inside_graveyard(root: Seq<u8>, path: Seq<u8>, n: nat)
    ensures
        is_under(candidate(grave_mapping(root, path), n), root),
{
    let grave = grave_mapping(root, path);
    assert(root.is_prefix_of(grave));
    assert(grave.is_prefix_of(candidate(grave, n)));
}

/// What is buried from within a directory rests below the place of that directory
/// in the graveyard, under whichever of its names.
pub proof fn lemma_grave_below_directory(
    graveyard: Seq<u8>,
    dir: Seq<u8>,
    source: Seq<u8>,
    n: nat,
)
    requires
        leading_separators(dir) == leading_separators(source),
        is_under(source, dir),
        source.len() > dir.len(),
    ensures
        is_under(candidate(grave_mapping(graveyard, source), n), grave_mapping(graveyard, dir)),
{
    lemma_leading_separators_bound(dir);
    lemma_leading_separators_bound(source);
    let base = grave_mapping(graveyard, dir);
    let name = candidate(grave_mapping(graveyard, source), n);
    assert forall|i: int| 0 <= i < base.len() implies name[i] == base[i] by {}
}

/// What is buried from elsewhere does not rest, under its first name, below the
/// place of a directory in the graveyard.
pub proof fn lemma_grave_elsewhere(graveyard: Seq<u8>, dir: Seq<u8>, source: Seq<u8>)
    requires
        leading_separators(dir) == leading_separators(source),
        !is_under(source, dir),
    ensures
        !is_under(grave_mapping(graveyard, source), grave_mapping(graveyard, dir)),
{
    lemma_leading_separators_bound(dir);
    lemma_leading_separators_bound(source);
    let k = leading_separators(dir) as int;
    let head = if graveyard.len() == 0 || graveyard.last() == SEPARATOR {
        graveyard
    } else {
        graveyard + seq![SEPARATOR]
    };
    let base = grave_mapping(graveyard, dir);
    let grave = grave_mapping(graveyard, source);
    if without_root(dir).len() > 0 && base.is_prefix_of(grave) {
        assert forall|i: int| 0 <= i < dir.len() implies source[i] == dir[i] by {
            if i >= k {
                assert(grave.subrange(0, base.len() as int)[head.len() + i - k] == base[head.len()
                    + i - k]);
            }
        }
    }
}

/// A path that can stand in the record can do so under each of its alternate names.
pub proof fn lemma_candidate_bytes(path: Seq<u8>, n: nat, byte: u8)
    requires
        !path.contains(byte),
        byte != SUFFIX_MARK,
        byte < DIGIT_ZERO || byte > DIGIT_ZERO + 9,
    ensures
        !candidate(path, n).contains(byte),
{
    lemma_decimal_shape(n);
    let name = candidate(path, n);
    assert forall|i: int| 0 <= i < name.len() implies name[i] != byte by {}
}

/// Among the names tried for `path`, the `n`-th is the first that is not taken.
pub open spec fn resolves_to(path: Seq<u8>, occupied: Set<Seq<u8>>, n: nat) -> bool {
    &&& !occupied.contains(candidate(path, n))
    &&& forall|k: nat| k < n ==> occupied.contains(#[trigger] candidate(path, k))
}

/// Two objects that are to rest at the same place get two places: if the first takes
/// the first free name and the second, with the first in place, takes the first name
/// that is then free, the two names differ, and the second was not taken before
/// either: neither object is put where the other or anything else rests.
pub proof fn lemma_second_burial_gets_another_grave(
    path: Seq<u8>,
    occupied: Set<Seq<u8>>,
    first: nat,
    second: nat,
)
    requires
        resolves_to(path, occupied, first),
        resolves_to(path, occupied.insert(candidate(path, first)), second),
    ensures
        candidate(path, first) != candidate(path, second),
        first < second,
        !occupied.contains(candidate(path, second)),
{
}

} // verus!
