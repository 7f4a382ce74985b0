//! When the shown file is watched, and when a change on disk reloads it.

use vstd::prelude::*;

verus! {

/// The kinds of file-system events that a watcher reports.
#[derive(Clone, Copy, Debug, PartialEq, Eq, Structural)]
pub enum FileEventKind {
    Any,
    Access,
    Create,
    Modify,
    Remove,
    Other,
}

/// Whether an event of this kind may have changed the watched file.
pub open spec fn spec_should_trigger(kind: FileEventKind) -> bool {
    match kind {
        FileEventKind::Modify | FileEventKind::Create | FileEventKind::Remove
        | FileEventKind::Any => true,
        FileEventKind::Access | FileEventKind::Other => false,
    }
}

/// Whether an event of this kind asks for the file to be looked at again.
pub fn should_trigger(kind: FileEventKind) -> (r: bool)
    ensures
        r == spec_should_trigger(kind),
{
    match kind {
        FileEventKind::Modify | FileEventKind::Create | FileEventKind::Remove
        | FileEventKind::Any => true,
        FileEventKind::Access | FileEventKind::Other => false,
    }
}

/// The path to watch for the current state: the shown file when automatic
/// reloading is on, nothing otherwise.
pub fn path_to_watch(auto_reload: bool, current_path: &Option<Vec<u8>>) -> (r: Option<&[u8]>)
    ensures
        match r {
            Some(p) => auto_reload && current_path is Some && p@ == current_path->0@,
            None => !auto_reload || current_path is None,
        },
{
    if !auto_reload {
        return None;
    }
    match current_path {
        Some(p) => Some(p.as_slice()),
        None => None,
    }
}

/// The byte of the path separator `/`.
pub const SEPARATOR: u8 = 47;
/// The byte of `.`.
pub const DOT: u8 = 46;

/// `parts` with the component `part` appended, unless `part` is empty or `.`.
pub open spec fn add_part(parts: Seq<Seq<u8>>, part: Seq<u8>) -> Seq<Seq<u8>> {
    if part.len() == 0 || part == seq![DOT] {
        parts
    } else {
        parts.push(part)
    }
}

/// The components of `path` from byte `i` on, given the components `parts`
/// found before and the bytes `part` of the component being read.
pub open spec fn parts_from(path: Seq<u8>, i: int, part: Seq<u8>, parts: Seq<Seq<u8>>) -> Seq<Seq<u8>>
    decreases path.len() - i,
{
    if i >= path.len() {
        add_part(parts, part)
    } else if path[i] == SEPARATOR {
        parts_from(path, i + 1, Seq::empty(), add_part(parts, part))
    } else {
        parts_from(path, i + 1, part.push(path[i]), parts)
    }
}

/// What a path starts with before its named components: the root `/` for an
/// absolute path, `.` for a path that starts with the current directory, and
/// nothing otherwise.
pub open spec fn path_lead(path: Seq<u8>) -> Seq<Seq<u8>> {
    if path.len() > 0 && path[0] == SEPARATOR {
        seq![seq![SEPARATOR]]
    } else if path.len() > 0 && path[0] == DOT && (path.len() == 1 || path[1] == SEPARATOR) {
        seq![seq![DOT]]
    } else {
        Seq::empty()
    }
}

/// The components of the path `path`, as `std::path::Path::components` splits a
/// path on Unix: the root or a leading current directory, then every
/// non-empty part between separators other than `.`. (A named component holds
/// neither `/` nor is it `.`, so the root and the leading `.` cannot be
/// mistaken for one.)
pub open spec fn path_components(path: Seq<u8>) -> Seq<Seq<u8>> {
    parts_from(path, 0, Seq::empty(), path_lead(path))
}

/// Whether `a` and `b` are the same path as `std::path::Path` compares paths
/// on Unix: component by component, so that `/a/b`, `/a/b/`, `/a//b` and
/// `/a/./b` are one path.
pub open spec fn same_path(a: Seq<u8>, b: Seq<u8>) -> bool {
    path_components(a) == path_components(b)
}

/// The absolute path `/s1/s2/.../sk` made of the segments `segs`.
pub open spec fn absolute_path(segs: Seq<Seq<u8>>) -> Seq<u8>
    decreases segs.len(),
{
    if segs.len() == 0 {
        Seq::empty()
    } else {
        absolute_path(segs.drop_last()) + seq![SEPARATOR] + segs.last()
    }
}

/// `seg` can name a component: it is not empty, not `.`, and holds no separator.
pub open spec fn is_name(seg: Seq<u8>) -> bool {
    &&& seg.len() > 0
    &&& seg != seq![DOT]
    &&& forall|i: int| 0 <= i < seg.len() ==> #[trigger] seg[i] != SEPARATOR
}

/// Reading bytes with no separator from `j` to the end extends the current part.
proof fn lemma_read_segment(q: Seq<u8>, j: int, part: Seq<u8>, parts: Seq<Seq<u8>>)
    requires
        0 <= j <= q.len(),
        forall|k: int| j <= k < q.len() ==> #[trigger] q[k] != SEPARATOR,
    ensures
        parts_from(q, j, part, parts) == add_part(parts, part + q.subrange(j, q.len() as int)),
    decreases q.len() - j,
{
    if j == q.len() {
        assert(part + q.subrange(j, q.len() as int) =~= part);
    } else {
        lemma_read_segment(q, j + 1, part.push(q[j]), parts);
        assert(part.push(q[j]) + q.subrange(j + 1, q.len() as int) =~= part + q.subrange(
            j,
            q.len() as int,
        ));
    }
}

/// Appending a separator and a segment to a path appends that segment to the
/// components read.
proof fn lemma_parts_append(p: Seq<u8>, seg: Seq<u8>, i: int, part: Seq<u8>, parts: Seq<Seq<u8>>)
    requires
        0 <= i <= p.len(),
        forall|k: int| 0 <= k < seg.len() ==> #[trigger] seg[k] != SEPARATOR,
    ensures
        parts_from(p + seq![SEPARATOR] + seg, i, part, parts) == add_part(
            parts_from(p, i, part, parts),
            seg,
        ),
    decreases p.len() - i,
{
    let q = p + seq![SEPARATOR] + seg;
    if i == p.len() {
        assert(q[i] == SEPARATOR);
        assert forall|k: int| i + 1 <= k < q.len() implies #[trigger] q[k] != SEPARATOR by {
            assert(q[k] == seg[k - i - 1]);
        }
        lemma_read_segment(q, i + 1, Seq::empty(), add_part(parts, part));
        assert(Seq::<u8>::empty() + q.subrange(i + 1, q.len() as int) =~= seg);
    } else {
        assert(q[i] == p[i]);
        if p[i] == SEPARATOR {
            lemma_parts_append(p, seg, i + 1, Seq::empty(), add_part(parts, part));
        } else {
            lemma_parts_append(p, seg, i + 1, part.push(p[i]), parts);
        }
    }
}

/// The components read from an absolute path, after the given lead, are its segments.
proof fn lemma_parts_of_absolute(segs: Seq<Seq<u8>>, lead: Seq<Seq<u8>>)
    requires
        forall|k: int| 0 <= k < segs.len() ==> is_name(#[trigger] segs[k]),
    ensures
        parts_from(absolute_path(segs), 0, Seq::empty(), lead) == lead + segs,
    decreases segs.len(),
{
    if segs.len() == 0 {
        assert(lead + segs =~= lead);
    } else {
        let init = segs.drop_last();
        let last = segs.last();
        assert(is_name(segs[segs.len() - 1]));
        assert forall|k: int| 0 <= k < init.len() implies is_name(#[trigger] init[k]) by {
            assert(init[k] == segs[k]);
        }
        lemma_parts_of_absolute(init, lead);
        lemma_parts_append(absolute_path(init), last, 0, Seq::empty(), lead);
        assert((lead + init).push(last) =~= lead + segs);
    }
}

/// A non-empty absolute path starts with the separator.
proof fn lemma_absolute_starts_with_root(segs: Seq<Seq<u8>>)
    requires
        segs.len() > 0,
    ensures
        absolute_path(segs).len() > 0,
        absolute_path(segs)[0] == SEPARATOR,
    decreases segs.len(),
{
    let init = segs.drop_last();
    let prefix = absolute_path(init);
    let p = prefix + seq![SEPARATOR] + segs.last();
    if init.len() > 0 {
        lemma_absolute_starts_with_root(init);
        assert(p[0] == prefix[0]);
    } else {
        assert(prefix.len() == 0);
        assert(p[0] == seq![SEPARATOR][0]);
    }
}

/// Every named segment of an absolute path is one of its components, in
/// order, after the root: `/s1/.../sk` has the components `/`, `s1`, ..., `sk`.
pub proof fn law_components_of_absolute_path(segs: Seq<Seq<u8>>)
    requires
        segs.len() > 0,
        forall|k: int| 0 <= k < segs.len() ==> is_name(#[trigger] segs[k]),
    ensures
        path_components(absolute_path(segs)) == seq![seq![SEPARATOR]] + segs,
{
    lemma_absolute_starts_with_root(segs);
    lemma_parts_of_absolute(segs, seq![seq![SEPARATOR]]);
}

/// Two absolute paths made of named segments are the same path exactly when
/// their segments are the same: paths that differ in any segment, the last
/// one included, are never taken for one another.
pub proof fn law_same_absolute_path(a: Seq<Seq<u8>>, b: Seq<Seq<u8>>)
    requires
        a.len() > 0,
        b.len() > 0,
        forall|k: int| 0 <= k < a.len() ==> is_name(#[trigger] a[k]),
        forall|k: int| 0 <= k < b.len() ==> is_name(#[trigger] b[k]),
    ensures
        same_path(absolute_path(a), absolute_path(b)) <==> a == b,
{
    law_components_of_absolute_path(a);
    law_components_of_absolute_path(b);
    let x = seq![seq![SEPARATOR]] + a;
    let y = seq![seq![SEPARATOR]] + b;
    if x == y {
        assert(a =~= x.skip(1));
        assert(b =~= y.skip(1));
    }
}

/// The views of a list of byte vectors.
pub open spec fn byte_views(v: Seq<Vec<u8>>) -> Seq<Seq<u8>> {
    Seq::new(v.len(), |i: int| v[i]@)
}

fn push_part(parts: &mut Vec<Vec<u8>>, part: Vec<u8>)
    ensures
        byte_views(final(parts)@) == add_part(byte_views(old(parts)@), part@),
{
    if part.len() == 0 || (part.len() == 1 && part[0] == DOT) {
        assert(part.len() == 0 || part@ =~= seq![DOT]);
    } else {
        assert(part@ != seq![DOT]) by {
            if part.len() == 1 {
                assert(part@[0] != seq![DOT][0]);
            }
        }
        let ghost before = byte_views(parts@);
        parts.push(part);
        assert(byte_views(parts@) =~= before.push(part@));
    }
}

/// The components of the path `path`.
pub fn components(path: &[u8]) -> (r: Vec<Vec<u8>>)
    ensures
        byte_views(r@) == path_components(path@),
{
    let n = path.len();
    let mut parts: Vec<Vec<u8>> = Vec::new();
    if n > 0 && path[0] == SEPARATOR {
        let mut root: Vec<u8> = Vec::new();
        root.push(SEPARATOR);
        parts.push(root);
    } else if n > 0 && path[0] == DOT && (n == 1 || path[1] == SEPARATOR) {
        let mut cur: Vec<u8> = Vec::new();
        cur.push(DOT);
        parts.push(cur);
    }
    assert(byte_views(parts@) =~= path_lead(path@));
    let mut part: Vec<u8> = Vec::new();
    let mut i: usize = 0;
    while i < n
        invariant
            n == path@.len(),
            i <= n,
            parts_from(path@, i as int, part@, byte_views(parts@)) == path_components(path@),
        decreases n - i,
    {
        if path[i] == SEPARATOR {
            let mut done: Vec<u8> = Vec::new();
            std::mem::swap(&mut done, &mut part);
            push_part(&mut parts, done);
        } else {
            part.push(path[i]);
        }
        i = i + 1;
    }
    push_part(&mut parts, part);
    parts
}

/// Whether two byte strings are equal.
fn bytes_equal(a: &[u8], b: &[u8]) -> (r: bool)
    ensures
        r == (a@ == b@),
{
    if a.len() != b.len() {
        return false;
    }
    let mut i: usize = 0;
    while i < a.len()
        invariant
            a@.len() == b@.len(),
            i <= a@.len(),
            forall|j: int| 0 <= j < i ==> a@[j] == b@[j],
        decreases a@.len() - i,
    {
        if a[i] != b[i] {
            return false;
        }
        i = i + 1;
    }
    assert(a@ =~= b@);
    true
}

/// Whether `a` and `b` are the same path, component by component.
pub fn paths_equal(a: &[u8], b: &[u8]) -> (r: bool)
    ensures
        r == same_path(a@, b@),
{
    let x = components(a);
    let y = components(b);
    let ghost gx = byte_views(x@);
    let ghost gy = byte_views(y@);
    if x.len() != y.len() {
        assert(gx.len() != gy.len());
        return false;
    }
    let mut i: usize = 0;
    while i < x.len()
        invariant
            x@.len() == y@.len(),
            gx == byte_views(x@),
            gy == byte_views(y@),
            gx == path_components(a@),
            gy == path_components(b@),
            i <= x@.len(),
            forall|j: int| 0 <= j < i ==> gx[j] == gy[j],
        decreases x@.len() - i,
    {
        if !bytes_equal(x[i].as_slice(), y[i].as_slice()) {
            assert(gx[i as int] != gy[i as int]);
            return false;
        }
        i = i + 1;
    }
    assert(gx =~= gy);
    true
}

/// Whether watching `path` needs a new watcher: it does unless `path` is
/// already the watched one, as paths compare.
pub fn needs_new_watch(watched: &Option<Vec<u8>>, path: &[u8]) -> (r: bool)
    ensures
        r == match watched {
            Some(w) => !same_path(w@, path@),
            None => true,
        },
{
    match watched {
        Some(w) => !paths_equal(w.as_slice(), path),
        None => true,
    }
}

/// Whether a file whose modification time is now `modified` is loaded again,
/// given the time `last_modified` of the shown copy: when it is no older, so
/// that rapid saves on file systems with coarse timestamps are not missed,
/// and always when no time was recorded.
pub fn should_reload(last_modified: Option<i128>, modified: i128) -> (r: bool)
    ensures
        r == match last_modified {
            Some(previous) => modified >= previous,
            None => true,
        },
{
    match last_modified {
        Some(previous) => modified >= previous,
        None => true,
    }
}

} // verus!
