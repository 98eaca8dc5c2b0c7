//! Paths whose components are separated by `/`, as bytes, and the sidecar file
//! that may stand beside a rollout file.

use vstd::prelude::*;
use vstd::utf8;
use crate::encoding;
use crate::encoding::lossy_text;

verus! {

/// The separator of components.
pub const SEPARATOR: u8 = 47;

/// The byte of a full stop.
pub const DOT: u8 = 46;

/// The length of the part in front of the first component: the root, or a `.` in
/// front of everything else.
pub open spec fn lead(p: Seq<u8>) -> nat {
    if p.len() > 0 && p[0] == SEPARATOR {
        1
    } else if p.len() > 0 && p[0] == DOT && (p.len() == 1 || p[1] == SEPARATOR) {
        1
    } else {
        0
    }
}

/// The position of the last separator of `p` at or after `from`, if there is one.
pub open spec fn last_separator(p: Seq<u8>, from: nat) -> Option<int>
    decreases p.len(),
{
    if p.len() <= from {
        None
    } else if p.last() == SEPARATOR {
        Some(p.len() - 1)
    } else {
        last_separator(p.drop_last(), from)
    }
}

/// The last segment of `p`: what stands behind its last separator.
pub open spec fn last_segment(p: Seq<u8>) -> Seq<u8> {
    match last_separator(p, lead(p)) {
        Some(i) => p.skip(i + 1),
        None => p.skip(lead(p) as int),
    }
}

/// `p` without its last segment and the separator in front of that.
pub open spec fn without_last(p: Seq<u8>) -> Seq<u8> {
    match last_separator(p, lead(p)) {
        Some(i) => p.take(i),
        None => p.take(lead(p) as int),
    }
}

/// Whether a segment is no component: it is empty or a single full stop.
pub open spec fn is_idle(segment: Seq<u8>) -> bool {
    segment.len() == 0 || segment == seq![DOT]
}

/// `p` without the segments at its end that are no components.
pub open spec fn tidied(p: Seq<u8>) -> Seq<u8>
    decreases p.len(),
{
    if p.len() > lead(p) && is_idle(last_segment(p)) && without_last(p).len() < p.len() {
        tidied(without_last(p))
    } else {
        p
    }
}

/// The last component of `p`, unless `p` has none or ends in `..`.
pub open spec fn file_name_of(p: Seq<u8>) -> Option<Seq<u8>> {
    let q = tidied(p);
    if q.len() > lead(q) && last_segment(q) != seq![DOT, DOT] {
        Some(last_segment(q))
    } else {
        None
    }
}

/// `p` without its last component.
pub open spec fn parent_of(p: Seq<u8>) -> Seq<u8> {
    tidied(without_last(tidied(p)))
}

/// `name` in the directory `dir`.
pub open spec fn inside(dir: Seq<u8>, name: Seq<u8>) -> Seq<u8> {
    if dir.len() == 0 || dir.last() == SEPARATOR {
        dir + name
    } else {
        dir.push(SEPARATOR) + name
    }
}

/// What stands behind the name of a file in the name of its sidecar.
pub open spec fn sidecar_suffix() -> Seq<u8> {
    utf8::encode_utf8(".meta.json"@)
}

/// The sidecar of the file at `p`: beside it, under its name with `.meta.json`
/// behind.
pub open spec fn sidecar_of(p: Seq<u8>) -> Option<Seq<u8>> {
    match file_name_of(p) {
        Some(name) => Some(
            inside(parent_of(p), utf8::encode_utf8(encoding::lossy(name) + ".meta.json"@)),
        ),
        None => None,
    }
}

fn lead_of(p: &[u8]) -> (r: usize)
    ensures
        r == lead(p@),
        r <= p@.len(),
{
    if p.len() > 0 && p[0] == SEPARATOR {
        1
    } else if p.len() > 0 && p[0] == DOT && (p.len() == 1 || p[1] == SEPARATOR) {
        1
    } else {
        0
    }
}

/// Where the last segment of `p` starts, and where `p` ends without it.
fn cut(p: &[u8]) -> (r: (usize, usize))
    ensures
        r.1 <= r.0 <= p@.len(),
        p@.skip(r.0 as int) == last_segment(p@),
        p@.take(r.1 as int) == without_last(p@),
        r.0 < p@.len() ==> r.1 < p@.len(),
        r.0 == p@.len() && p@.len() > lead(p@) ==> r.1 < p@.len(),
{
    let from = lead_of(p);
    let mut i: usize = p.len();
    assert(p@.take(i as int) == p@);
    while i > from
        invariant
            from <= i <= p@.len(),
            from == lead(p@),
            last_separator(p@.take(i as int), from as nat) == last_separator(p@, from as nat),
        decreases i,
    {
        assert(p@.take(i as int).last() == p@[i - 1]);
        assert(p@.take(i as int).drop_last() == p@.take(i - 1));
        if p[i - 1] == SEPARATOR {
            return (i, i - 1);
        }
        i = i - 1;
    }
    (from, from)
}

/// `p` without the segments at its end that are no components.
fn tidy(p: &[u8]) -> (r: &[u8])
    ensures
        r@ == tidied(p@),
{
    let mut n: usize = p.len();
    assert(p@.take(n as int) == p@);
    loop
        invariant
            n <= p@.len(),
            tidied(p@.take(n as int)) == tidied(p@),
        decreases n,
    {
        let q = vstd::slice::slice_subrange(p, 0, n);
        assert(q@ == p@.take(n as int));
        let (start, end) = cut(q);
        if n > lead_of(q) && (start == n || (start + 1 == n && q[start] == DOT)) {
            assert(is_idle(last_segment(q@))) by {
                if start < n {
                    assert(last_segment(q@) =~= seq![DOT]);
                }
            }
            assert(q@.take(end as int) == p@.take(end as int));
            n = end;
        } else {
            assert(n > lead(q@) && is_idle(last_segment(q@)) ==> false) by {
                if last_segment(q@) == seq![DOT] {
                    assert(q@.skip(start as int).len() == 1);
                    assert(q@.skip(start as int)[0] == q@[start as int]);
                }
            }
            return q;
        }
    }
}

/// The last component of the path `p`, unless `p` has none or ends in `..`.
pub fn file_name(p: &[u8]) -> (r: Option<&[u8]>)
    ensures
        r is Some == file_name_of(p@) is Some,
        r matches Some(name) ==> file_name_of(p@) == Some(name@),
{
    let q = tidy(p);
    let (start, end) = cut(q);
    if q.len() > lead_of(q) {
        let name = vstd::slice::slice_subrange(q, start, q.len());
        assert(name@ == last_segment(q@));
        if name.len() == 2 && name[0] == DOT && name[1] == DOT {
            assert(name@ =~= seq![DOT, DOT]);
            None
        } else {
            assert(name@ == seq![DOT, DOT] ==> name@[0] == DOT && name@[1] == DOT);
            Some(name)
        }
    } else {
        None
    }
}

/// The path of the sidecar of the file at `path`, if `path` names a file.
pub fn sidecar_path(path: &[u8]) -> (r: Option<Vec<u8>>)
    ensures
        r.deep_view() == sidecar_of(path@),
        file_name_of(path@) matches Some(name) ==> (utf8::valid_utf8(name) ==> r.deep_view()
            == Some(inside(parent_of(path@), name + sidecar_suffix()))),
{
    match file_name(path) {
        None => None,
        Some(name) => {
            let q = tidy(path);
            let (start, end) = cut(q);
            let dir = tidy(vstd::slice::slice_subrange(q, 0, end));
            let mut text = lossy_text(name);
            text.append(".meta.json");
            let mut out: Vec<u8> = Vec::new();
            append_bytes(&mut out, dir);
            if dir.len() > 0 && dir[dir.len() - 1] != SEPARATOR {
                out.push(SEPARATOR);
            }
            append_bytes(&mut out, text.as_str().as_bytes());
            assert(out.deep_view() == out@);
            assert(out@ == sidecar_of(path@)->0);
            proof {
                if utf8::valid_utf8(name@) {
                    lemma_encode_concat(utf8::decode_utf8(name@), ".meta.json"@);
                    utf8::decode_utf8_encode_utf8(name@);
                }
            }
            Some(out)
        },
    }
}

fn append_bytes(out: &mut Vec<u8>, more: &[u8])
    ensures
        final(out)@ == old(out)@ + more@,
{
    let ghost start = out@;
    for i in 0..more.len()
        invariant
            out@ == start + more@.take(i as int),
    {
        out.push(more[i]);
        assert(more@.take(i + 1) == more@.take(i as int).push(more@[i as int]));
    }
    assert(more@.take(more@.len() as int) == more@);
}

/// The encoding of two texts, one behind the other.
proof fn lemma_encode_concat(a: Seq<char>, b: Seq<char>)
    ensures
        utf8::encode_utf8(a + b) == utf8::encode_utf8(a) + utf8::encode_utf8(b),
    decreases a.len(),
{
    if a.len() == 0 {
        assert(a + b == b);
        assert(utf8::encode_utf8(a) + utf8::encode_utf8(b) == utf8::encode_utf8(b));
    } else {
        assert((a + b).drop_first() == a.drop_first() + b);
        lemma_encode_concat(a.drop_first(), b);
    }
}

/// The last separator is a separator, and none stands behind it.
proof fn lemma_last_separator(p: Seq<u8>, from: nat)
    ensures
        last_separator(p, from) matches Some(i) ==> from <= i < p.len() && p[i] == SEPARATOR && (
        forall|j: int| i < j < p.len() ==> p[j] != SEPARATOR),
        last_separator(p, from) is None ==> forall|j: int|
            from <= j < p.len() ==> p[j] != SEPARATOR,
    decreases p.len(),
{
    if p.len() > from && p.last() != SEPARATOR {
        let q = p.drop_last();
        lemma_last_separator(q, from);
        assert forall|j: int| 0 <= j < p.len() && #[trigger] p[j] == SEPARATOR implies j < q.len()
            && q[j] == SEPARATOR by {}
    }
}

/// The last separator of `a + [/] + name` is the one in front of `name`.
proof fn lemma_separator_before(p: Seq<u8>, from: nat, i: int)
    requires
        from <= i < p.len(),
        p[i] == SEPARATOR,
        forall|j: int| i < j < p.len() ==> p[j] != SEPARATOR,
    ensures
        last_separator(p, from) == Some(i),
    decreases p.len(),
{
    if p.len() - 1 > i {
        lemma_separator_before(p.drop_last(), from, i);
    }
}

/// A tidied path stays as it is when tidied again.
proof fn lemma_tidied_twice(p: Seq<u8>)
    ensures
        tidied(tidied(p)) == tidied(p),
        tidied(p).len() > lead(tidied(p)) ==> !is_idle(last_segment(tidied(p))),
    decreases p.len(),
{
    lemma_last_separator(p, lead(p));
    if p.len() > lead(p) && is_idle(last_segment(p)) && without_last(p).len() < p.len() {
        lemma_tidied_twice(without_last(p));
    }
}

/// A file in a directory has its name and that directory.
proof fn lemma_inside(dir: Seq<u8>, name: Seq<u8>)
    requires
        tidied(dir) == dir,
        dir.len() > lead(dir) ==> !is_idle(last_segment(dir)),
        !is_idle(name),
        name != seq![DOT, DOT],
        forall|j: int| 0 <= j < name.len() ==> name[j] != SEPARATOR,
    ensures
        file_name_of(inside(dir, name)) == Some(name),
        parent_of(inside(dir, name)) == dir,
{
    let p = inside(dir, name);
    lemma_last_separator(dir, lead(dir));
    if dir.len() == 0 {
        assert(p =~= name);
        assert(lead(p) == 0) by {
            if p.len() == 1 {
                assert(p[0] == DOT ==> p =~= seq![DOT]);
            }
        }
        lemma_last_separator(p, 0);
        assert(last_separator(p, 0) is None);
        assert(p.skip(0) =~= name);
        assert(p.take(0) =~= dir);
    } else if dir.last() == SEPARATOR {
        if dir.len() > lead(dir) {
            lemma_separator_before(dir, lead(dir), dir.len() - 1);
            assert(dir.skip(dir.len() as int) =~= Seq::<u8>::empty());
        }
        assert(dir.len() == 1);
        assert(lead(p) == 1);
        lemma_last_separator(p, 1);
        assert(last_separator(p, 1) is None) by {
            if last_separator(p, 1) is Some {
                let i = last_separator(p, 1)->0;
                assert(p[i] == name[i - 1]);
            }
        }
        assert(p.skip(1) =~= name);
        assert(p.take(1) =~= dir);
    } else {
        let n = dir.len() as int;
        assert(p[n] == SEPARATOR);
        assert forall|j: int| n < j < p.len() implies p[j] != SEPARATOR by {
            assert(p[j] == name[j - n - 1]);
        }
        assert(lead(p) <= n);
        lemma_separator_before(p, lead(p), n);
        assert(p.skip(n + 1) =~= name);
        assert(p.take(n) =~= dir);
    }
}

/// The sidecar of a file stands in the directory of the file, under the file's
/// name with `.meta.json` behind, and is not the file itself.
pub proof fn law_sidecar_beside(p: Seq<u8>)
    requires
        file_name_of(p) is Some,
    ensures
        ({
            let name = file_name_of(p)->0;
            let sidecar = inside(parent_of(p), name + sidecar_suffix());
            &&& file_name_of(sidecar) == Some(name + sidecar_suffix())
            &&& parent_of(sidecar) == parent_of(p)
            &&& sidecar != p
        }),
{
    let q = tidied(p);
    let name = last_segment(q);
    let suffix = sidecar_suffix();
    lemma_tidied_twice(p);
    lemma_tidied_twice(without_last(q));
    lemma_last_separator(q, lead(q));
    reveal_strlit(".meta.json");
    utf8::is_ascii_chars_encode_utf8(".meta.json"@);
    let long = name + suffix;
    assert(suffix.len() == 10);
    assert(long.len() > 2);
    assert forall|j: int| 0 <= j < long.len() implies long[j] != SEPARATOR by {
        if j < name.len() {
            assert(long[j] == name[j]);
        } else {
            assert(long[j] == suffix[j - name.len()]);
            assert(".meta.json"@[j - name.len()] as u8 == suffix[j - name.len()]);
        }
    }
    lemma_inside(parent_of(p), long);
}

/// The last component of a path is its file name: what stands behind the last
/// separator, whatever stands in front of it, and all of a path without one.
pub proof fn law_file_name(dir: Seq<u8>, name: Seq<u8>)
    requires
        name.len() > 0,
        name != seq![46u8],
        name != seq![46u8, 46u8],
        forall|j: int| 0 <= j < name.len() ==> name[j] != 47,
    ensures
        file_name_of(dir + seq![47u8] + name) == Some(name),
        file_name_of(name) == Some(name),
{
    lemma_inside(Seq::empty(), name);
    assert(inside(Seq::empty(), name) =~= name);
    let p = dir + seq![47u8] + name;
    let n = dir.len() as int;
    assert(p[n] == SEPARATOR);
    assert forall|j: int| n < j < p.len() implies p[j] != SEPARATOR by {
        assert(p[j] == name[j - n - 1]);
    }
    if n == 0 {
        assert(lead(p) == 1);
        lemma_last_separator(p, 1);
        assert(last_separator(p, 1) is None);
        assert(p.skip(1) =~= name);
    } else {
        assert(lead(p) <= n);
        lemma_separator_before(p, lead(p), n);
        assert(p.skip(n + 1) =~= name);
    }
}

/// A separator, or a separator and a full stop, at the end of a path does not
/// change its file name.
pub proof fn law_file_name_tail(p: Seq<u8>)
    requires
        p.len() > 0,
    ensures
        file_name_of(p + seq![47u8]) == file_name_of(p),
        file_name_of(p + seq![47u8, 46u8]) == file_name_of(p),
{
    let a = p + seq![47u8];
    let b = p + seq![47u8, 46u8];
    let n = p.len() as int;
    assert(lead(a) <= n && lead(b) <= n);
    assert(a[n] == SEPARATOR);
    assert(b[n] == SEPARATOR);
    assert(b[n + 1] == DOT);
    lemma_separator_before(a, lead(a), n);
    lemma_separator_before(b, lead(b), n);
    assert(a.skip(n + 1) =~= Seq::<u8>::empty());
    assert(b.skip(n + 1) =~= seq![46u8]);
    assert(a.take(n) =~= p);
    assert(b.take(n) =~= p);
}

/// The path that ends in `..`, the root and the empty path name no file.
pub proof fn law_no_file_name(dir: Seq<u8>)
    ensures
        file_name_of(dir + seq![47u8, 46u8, 46u8]) is None,
        file_name_of(seq![46u8, 46u8]) is None,
        file_name_of(seq![47u8]) is None,
        file_name_of(seq![46u8]) is None,
        file_name_of(Seq::empty()) is None,
{
    let dots = seq![46u8, 46u8];
    let p = dir + seq![47u8, 46u8, 46u8];
    let n = dir.len() as int;
    assert(p[n] == SEPARATOR && p[n + 1] == DOT && p[n + 2] == DOT);
    assert(lead(dots) == 0);
    lemma_last_separator(dots, 0);
    assert(dots.skip(0) =~= dots);
    assert(last_separator(dots, 0) is None);
    if n == 0 {
        assert(lead(p) == 1);
        lemma_last_separator(p, 1);
        assert(last_separator(p, 1) is None);
        assert(p.skip(1) =~= dots);
    } else {
        lemma_separator_before(p, lead(p), n);
        assert(p.skip(n + 1) =~= dots);
    }
}

/// The sidecar of a file in a directory is the file's path with the file's name
/// read as text and `.meta.json` behind it. The directory is any that does not end
/// in a separator or in a single full stop.
pub proof fn law_sidecar_path(dir: Seq<u8>, name: Seq<u8>)
    requires
        name.len() > 0,
        name != seq![46u8],
        name != seq![46u8, 46u8],
        forall|j: int| 0 <= j < name.len() ==> name[j] != 47,
        dir.len() > 0,
        dir[dir.len() - 1] != 47,
        dir[dir.len() - 1] == 46 ==> dir.len() > 1 && dir[dir.len() - 2] != 47,
    ensures
        sidecar_of(dir + seq![47u8] + name) == Some(
            dir + seq![47u8] + utf8::encode_utf8(encoding::lossy(name) + ".meta.json"@),
        ),
        sidecar_of(name) == Some(utf8::encode_utf8(encoding::lossy(name) + ".meta.json"@)),
        sidecar_of(seq![47u8] + name) == Some(
            seq![47u8] + utf8::encode_utf8(encoding::lossy(name) + ".meta.json"@),
        ),
{
    let full = utf8::encode_utf8(encoding::lossy(name) + ".meta.json"@);
    let p = dir + seq![47u8] + name;
    lemma_last_separator(dir, lead(dir));
    let last = last_segment(dir);
    assert(dir.len() > lead(dir));
    assert(last.len() > 0);
    assert(last[last.len() - 1] == dir[dir.len() - 1]);
    assert(!is_idle(last)) by {
        if last == seq![DOT] {
            assert(last.len() == 1);
            assert(dir[dir.len() - 1] == DOT);
        }
    }
    assert(tidied(dir) == dir);
    lemma_inside(dir, name);
    assert(inside(dir, name) =~= p);
    assert(inside(dir, full) =~= dir + seq![47u8] + full);
    let none = Seq::<u8>::empty();
    lemma_inside(none, name);
    assert(inside(none, name) =~= name);
    assert(inside(none, full) =~= full);
    let root = seq![47u8];
    assert(lead(root) == 1);
    lemma_inside(root, name);
    assert(inside(root, name) =~= root + name);
    assert(inside(root, full) =~= root + full);
}

/// A path has a sidecar exactly where it names a file; what stands at its end
/// without being a component does not matter, nor do separators that are repeated
/// or single full stops in front of the name.
pub proof fn law_sidecar_tidied(p: Seq<u8>, dir: Seq<u8>, name: Seq<u8>)
    requires
        p.len() > 0,
        dir.len() > 0,
        name.len() > 0,
        name != seq![46u8],
        name != seq![46u8, 46u8],
        forall|j: int| 0 <= j < name.len() ==> name[j] != 47,
    ensures
        sidecar_of(p) is Some <==> file_name_of(p) is Some,
        sidecar_of(p + seq![47u8]) == sidecar_of(p),
        sidecar_of(p + seq![47u8, 46u8]) == sidecar_of(p),
        sidecar_of(dir + seq![47u8, 47u8] + name) == sidecar_of(dir + seq![47u8] + name),
        sidecar_of(dir + seq![47u8, 46u8, 47u8] + name) == sidecar_of(dir + seq![47u8] + name),
{
    law_file_name_tail(p);
    lemma_tail_tidied(p);
    let a = dir + seq![47u8];
    let b = dir + seq![47u8, 46u8];
    lemma_tail_tidied(dir);
    lemma_parent(dir, name);
    lemma_parent(a, name);
    lemma_parent(b, name);
    law_file_name(dir, name);
    law_file_name(a, name);
    law_file_name(b, name);
    assert(dir + seq![47u8, 47u8] + name =~= a + seq![47u8] + name);
    assert(dir + seq![47u8, 46u8, 47u8] + name =~= b + seq![47u8] + name);
}

/// What stands at the end of a path without being a component is tidied away.
proof fn lemma_tail_tidied(p: Seq<u8>)
    requires
        p.len() > 0,
    ensures
        tidied(p + seq![47u8]) == tidied(p),
        tidied(p + seq![47u8, 46u8]) == tidied(p),
{
    let a = p + seq![47u8];
    let b = p + seq![47u8, 46u8];
    let n = p.len() as int;
    assert(lead(a) <= n && lead(b) <= n);
    assert(a[n] == SEPARATOR);
    assert(b[n] == SEPARATOR);
    assert(b[n + 1] == DOT);
    lemma_separator_before(a, lead(a), n);
    lemma_separator_before(b, lead(b), n);
    assert(a.skip(n + 1) =~= Seq::<u8>::empty());
    assert(b.skip(n + 1) =~= seq![46u8]);
    assert(a.take(n) =~= p);
    assert(b.take(n) =~= p);
}

/// The directory of a file in `dir`.
proof fn lemma_parent(dir: Seq<u8>, name: Seq<u8>)
    requires
        dir.len() > 0,
        name.len() > 0,
        name != seq![46u8],
        forall|j: int| 0 <= j < name.len() ==> name[j] != 47,
    ensures
        parent_of(dir + seq![47u8] + name) == tidied(dir),
{
    let p = dir + seq![47u8] + name;
    let n = dir.len() as int;
    assert(p[n] == SEPARATOR);
    assert forall|j: int| n < j < p.len() implies p[j] != SEPARATOR by {
        assert(p[j] == name[j - n - 1]);
    }
    assert(lead(p) <= n);
    lemma_separator_before(p, lead(p), n);
    assert(p.skip(n + 1) =~= name);
    assert(p.take(n) =~= dir);
}

} // verus!
