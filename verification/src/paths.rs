use vstd::prelude::*;
use crate::image_loader::bytes_equal;
use crate::text::chars_of;
use crate::util::{chars_equal, split_slash, split_slash_exec};

verus! {

/// The pieces of `s` between `/` bytes: always at least one piece, possibly
/// empty.
pub open spec fn split_bytes(s: Seq<u8>) -> Seq<Seq<u8>>
    decreases s.len(),
{
    if s.len() == 0 {
        seq![Seq::empty()]
    } else {
        let r = split_bytes(s.drop_last());
        if s.last() == 47 {
            r.push(Seq::empty())
        } else {
            r.drop_last().push(r.last().push(s.last()))
        }
    }
}

/// The components that a path's pieces make, as std's `Path::components`
/// reads a Unix path: empty pieces (repeated or trailing separators) are
/// dropped, and so is `.` except as the very first piece.
pub open spec fn kept_parts<T>(segs: Seq<Seq<T>>, dot: Seq<T>) -> Seq<Seq<T>>
    decreases segs.len(),
{
    if segs.len() == 0 {
        Seq::empty()
    } else {
        let rest = kept_parts(segs.drop_last(), dot);
        let s = segs.last();
        if s.len() > 0 && (s != dot || segs.len() == 1) { rest.push(s) } else { rest }
    }
}

/// A path given as bytes, by its components: whether it starts at the root,
/// and its other components in order.
pub open spec fn byte_components(p: Seq<u8>) -> (bool, Seq<Seq<u8>>) {
    (p.len() > 0 && p[0] == 47, kept_parts(split_bytes(p), seq![46u8]))
}

/// A path given as text, by its components (as [`byte_components`]).
pub open spec fn text_components(p: Seq<char>) -> (bool, Seq<Seq<char>>) {
    (p.len() > 0 && p[0] == '/', kept_parts(split_slash(p), seq!['.']))
}

/// Two paths given as bytes are the same path, as std's `Path` equality
/// compares them: component by component.
pub open spec fn same_byte_path(a: Seq<u8>, b: Seq<u8>) -> bool {
    byte_components(a) == byte_components(b)
}

/// Two paths given as text are the same path, component by component.
pub open spec fn same_text_path(a: Seq<char>, b: Seq<char>) -> bool {
    text_components(a) == text_components(b)
}

/// The pieces of `s` between `/` bytes.
fn split_bytes_exec(s: &[u8]) -> (r: Vec<Vec<u8>>)
    ensures
        r@.map_values(|v: Vec<u8>| v@) == split_bytes(s@),
{
    let n = s.len();
    let mut segs: Vec<Vec<u8>> = Vec::new();
    let mut cur: Vec<u8> = Vec::new();
    let mut i: usize = 0;
    assert(s@.take(0) =~= Seq::<u8>::empty());
    while i < n
        invariant
            n == s@.len(),
            i <= n,
            segs@.map_values(|v: Vec<u8>| v@).push(cur@) == split_bytes(s@.take(i as int)),
        decreases n - i,
    {
        let c = s[i];
        let ghost prev = segs@.map_values(|v: Vec<u8>| v@).push(cur@);
        proof {
            assert(s@.take(i + 1).drop_last() =~= s@.take(i as int));
            assert(s@.take(i + 1).last() == c);
        }
        if c == 47 {
            let done = cur;
            segs.push(done);
            cur = Vec::new();
            proof {
                assert(segs@.map_values(|v: Vec<u8>| v@) =~= prev);
                assert(segs@.map_values(|v: Vec<u8>| v@).push(cur@) =~= prev.push(Seq::empty()));
            }
        } else {
            cur.push(c);
            proof {
                assert(prev.drop_last() =~= segs@.map_values(|v: Vec<u8>| v@));
                assert(segs@.map_values(|v: Vec<u8>| v@).push(cur@) =~= prev.drop_last().push(
                    prev.last().push(c),
                ));
            }
        }
        i = i + 1;
    }
    segs.push(cur);
    assert(s@.take(n as int) =~= s@);
    proof {
        let m = segs@.map_values(|v: Vec<u8>| v@);
        assert(m =~= split_bytes(s@));
    }
    segs
}

/// The components of a path given as bytes (see [`byte_components`]).
fn byte_parts(p: &[u8]) -> (r: Vec<Vec<u8>>)
    ensures
        r@.map_values(|v: Vec<u8>| v@) == byte_components(p@).1,
{
    let segs = split_bytes_exec(p);
    let ghost m = segs@.map_values(|v: Vec<u8>| v@);
    let n = segs.len();
    let mut out: Vec<Vec<u8>> = Vec::new();
    let mut i: usize = 0;
    while i < n
        invariant
            n == segs@.len(),
            m == segs@.map_values(|v: Vec<u8>| v@),
            i <= n,
            out@.map_values(|v: Vec<u8>| v@) == kept_parts(m.take(i as int), seq![46u8]),
        decreases n - i,
    {
        let seg = &segs[i];
        proof {
            assert(m.take(i + 1).drop_last() =~= m.take(i as int));
            assert(m.take(i + 1).last() == seg@);
        }
        let is_dot = seg.len() == 1 && seg[0] == 46;
        proof {
            if seg@.len() == 1 {
                if seg@[0] == 46 {
                    assert(seg@ =~= seq![46u8]);
                } else {
                    assert(seg@[0] != seq![46u8][0]);
                }
            } else {
                assert(seg@.len() != seq![46u8].len());
            }
        }
        if seg.len() > 0 && (!is_dot || i == 0) {
            let ghost before = out@;
            out.push(seg.clone());
            proof {
                assert(out@.map_values(|v: Vec<u8>| v@) =~= before.map_values(|v: Vec<u8>| v@).push(seg@));
            }
        }
        i = i + 1;
    }
    assert(m.take(n as int) =~= m);
    out
}

/// The components of a path given as text (see [`text_components`]).
fn text_parts(p: &str) -> (r: Vec<Vec<char>>)
    ensures
        r@.map_values(|v: Vec<char>| v@) == text_components(p@).1,
{
    let cs = chars_of(p);
    let segs = split_slash_exec(cs.as_slice());
    let ghost m = segs@.map_values(|v: Vec<char>| v@);
    let n = segs.len();
    let mut out: Vec<Vec<char>> = Vec::new();
    let mut i: usize = 0;
    while i < n
        invariant
            n == segs@.len(),
            m == segs@.map_values(|v: Vec<char>| v@),
            m == split_slash(p@),
            i <= n,
            out@.map_values(|v: Vec<char>| v@) == kept_parts(m.take(i as int), seq!['.']),
        decreases n - i,
    {
        let seg = &segs[i];
        proof {
            assert(m.take(i + 1).drop_last() =~= m.take(i as int));
            assert(m.take(i + 1).last() == seg@);
        }
        let is_dot = seg.len() == 1 && seg[0] == '.';
        proof {
            if seg@.len() == 1 {
                if seg@[0] == '.' {
                    assert(seg@ =~= seq!['.']);
                } else {
                    assert(seg@[0] != seq!['.'][0]);
                }
            } else {
                assert(seg@.len() != seq!['.'].len());
            }
        }
        if seg.len() > 0 && (!is_dot || i == 0) {
            let ghost before = out@;
            out.push(seg.clone());
            proof {
                assert(out@.map_values(|v: Vec<char>| v@) =~= before.map_values(|v: Vec<char>| v@).push(seg@));
            }
        }
        i = i + 1;
    }
    assert(m.take(n as int) =~= m);
    out
}

/// Whether two paths given as bytes are the same path, component by
/// component (std's `Path` equality).
pub fn same_path_bytes(a: &[u8], b: &[u8]) -> (r: bool)
    ensures
        r == same_byte_path(a@, b@),
{
    let root_a = a.len() > 0 && a[0] == 47;
    let root_b = b.len() > 0 && b[0] == 47;
    if root_a != root_b {
        return false;
    }
    let pa = byte_parts(a);
    let pb = byte_parts(b);
    let ghost ma = pa@.map_values(|v: Vec<u8>| v@);
    let ghost mb = pb@.map_values(|v: Vec<u8>| v@);
    if pa.len() != pb.len() {
        assert(ma.len() != mb.len());
        assert(ma != mb);
        return false;
    }
    let n = pa.len();
    let mut i: usize = 0;
    while i < n
        invariant
            n == pa@.len(),
            n == pb@.len(),
            ma == pa@.map_values(|v: Vec<u8>| v@),
            mb == pb@.map_values(|v: Vec<u8>| v@),
            ma == byte_components(a@).1,
            mb == byte_components(b@).1,
            i <= n,
            forall|j: int| 0 <= j < i ==> ma[j] == mb[j],
        decreases n - i,
    {
        if !bytes_equal(pa[i].as_slice(), pb[i].as_slice()) {
            assert(ma[i as int] != mb[i as int]);
            assert(ma != mb);
            return false;
        }
        i = i + 1;
    }
    assert(ma =~= mb);
    true
}

/// Whether two paths given as text are the same path, component by
/// component (std's `Path` equality).
pub fn same_path_text(a: &str, b: &str) -> (r: bool)
    ensures
        r == same_text_path(a@, b@),
{
    let ca = chars_of(a);
    let cb = chars_of(b);
    let root_a = ca.len() > 0 && ca[0] == '/';
    let root_b = cb.len() > 0 && cb[0] == '/';
    if root_a != root_b {
        return false;
    }
    let pa = text_parts(a);
    let pb = text_parts(b);
    let ghost ma = pa@.map_values(|v: Vec<char>| v@);
    let ghost mb = pb@.map_values(|v: Vec<char>| v@);
    if pa.len() != pb.len() {
        assert(ma.len() != mb.len());
        assert(ma != mb);
        return false;
    }
    let n = pa.len();
    let mut i: usize = 0;
    while i < n
        invariant
            n == pa@.len(),
            n == pb@.len(),
            ma == pa@.map_values(|v: Vec<char>| v@),
            mb == pb@.map_values(|v: Vec<char>| v@),
            ma == text_components(a@).1,
            mb == text_components(b@).1,
            i <= n,
            forall|j: int| 0 <= j < i ==> ma[j] == mb[j],
        decreases n - i,
    {
        if !chars_equal(pa[i].as_slice(), pb[i].as_slice()) {
            assert(ma[i as int] != mb[i as int]);
            assert(ma != mb);
            return false;
        }
        i = i + 1;
    }
    assert(ma =~= mb);
    true
}

/// Components joined by `/`.
pub open spec fn joined(parts: Seq<Seq<u8>>) -> Seq<u8>
    decreases parts.len(),
{
    if parts.len() == 0 {
        Seq::empty()
    } else if parts.len() == 1 {
        parts[0]
    } else {
        joined(parts.drop_last()) + seq![47u8] + parts.last()
    }
}

/// A path given as bytes in its normal form: `/` first when it starts at the
/// root, then its components joined by `/`.
pub open spec fn normal_path(p: Seq<u8>) -> Seq<u8> {
    let c = byte_components(p);
    (if c.0 { seq![47u8] } else { Seq::empty() }) + joined(c.1)
}

/// The normal form of a path given as bytes (see [`normal_path`]).
pub fn normalize_path(p: &[u8]) -> (r: Vec<u8>)
    ensures
        r@ == normal_path(p@),
{
    let parts = byte_parts(p);
    let ghost m = parts@.map_values(|v: Vec<u8>| v@);
    let ghost root = p@.len() > 0 && p@[0] == 47;
    let mut out: Vec<u8> = Vec::new();
    if p.len() > 0 && p[0] == 47 {
        out.push(47);
    }
    let ghost start = out@;
    assert(start == (if root { seq![47u8] } else { Seq::<u8>::empty() }));
    let n = parts.len();
    let mut i: usize = 0;
    while i < n
        invariant
            n == parts@.len(),
            m == parts@.map_values(|v: Vec<u8>| v@),
            m == byte_components(p@).1,
            start == (if root { seq![47u8] } else { Seq::<u8>::empty() }),
            i <= n,
            out@ == start + joined(m.take(i as int)),
        decreases n - i,
    {
        let ghost before = out@;
        if i > 0 {
            out.push(47);
        }
        let ghost mid = out@;
        let part = &parts[i];
        let k = part.len();
        let mut j: usize = 0;
        while j < k
            invariant
                k == part@.len(),
                j <= k,
                out@ == mid + part@.take(j as int),
            decreases k - j,
        {
            out.push(part[j]);
            proof {
                assert(part@.take(j + 1) =~= part@.take(j as int).push(part@[j as int]));
            }
            j = j + 1;
        }
        proof {
            assert(part@.take(k as int) =~= part@);
            assert(m[i as int] == part@);
            let t1 = m.take(i + 1);
            if i == 0 {
                assert(t1.len() == 1);
                assert(joined(t1) == t1[0]);
                assert(joined(m.take(0)) =~= Seq::<u8>::empty());
                assert(out@ =~= start + joined(t1));
            } else {
                assert(t1.drop_last() =~= m.take(i as int));
                assert(t1.last() == part@);
                assert(out@ =~= start + joined(t1));
            }
        }
        i = i + 1;
    }
    assert(m.take(n as int) =~= m);
    out
}

/// `w` holds no `/` byte.
pub open spec fn slash_free(w: Seq<u8>) -> bool {
    forall|j: int| 0 <= j < w.len() ==> w[j] != 47
}

/// Splitting always gives at least one piece.
proof fn lemma_split_nonempty(s: Seq<u8>)
    ensures
        split_bytes(s).len() >= 1,
    decreases s.len(),
{
    if s.len() > 0 {
        lemma_split_nonempty(s.drop_last());
    }
}

/// No piece of a split holds a `/`.
proof fn lemma_split_pieces_slash_free(s: Seq<u8>)
    ensures
        forall|i: int| 0 <= i < split_bytes(s).len() ==> slash_free(#[trigger] split_bytes(s)[i]),
    decreases s.len(),
{
    if s.len() > 0 {
        let r = split_bytes(s.drop_last());
        lemma_split_pieces_slash_free(s.drop_last());
        lemma_split_nonempty(s.drop_last());
        let t = split_bytes(s);
        assert forall|i: int| 0 <= i < t.len() implies slash_free(#[trigger] t[i]) by {
            if s.last() == 47 {
                if i < r.len() {
                    assert(t[i] == r[i]);
                } else {
                    assert(t[i] =~= Seq::<u8>::empty());
                }
            } else if i < r.len() - 1 {
                assert(t[i] == r[i]);
            } else {
                let w = r[r.len() - 1].push(s.last());
                assert(t[i] == w);
                assert(slash_free(r[r.len() - 1]));
                assert forall|j: int| 0 <= j < w.len() implies w[j] != 47 by {
                    if j < w.len() - 1 {
                        assert(w[j] == r[r.len() - 1][j]);
                    }
                }
            }
        }
    }
}

/// A path that starts at the root splits into an empty first piece and at
/// least one more.
proof fn lemma_split_root(s: Seq<u8>)
    requires
        s.len() > 0,
        s[0] == 47,
    ensures
        split_bytes(s).len() >= 2,
        split_bytes(s)[0].len() == 0,
    decreases s.len(),
{
    let d = s.drop_last();
    let e = Seq::<u8>::empty();
    if s.len() == 1 {
        assert(d =~= e);
        assert(split_bytes(d) == seq![e]);
        assert(s.last() == 47);
        assert(split_bytes(s) == seq![e].push(e));
    } else {
        assert(d[0] == 47);
        lemma_split_root(d);
        let r = split_bytes(d);
        if s.last() == 47 {
            assert(split_bytes(s) == r.push(e));
            assert(split_bytes(s)[0] == r[0]);
        } else {
            let t = r.drop_last().push(r.last().push(s.last()));
            assert(split_bytes(s) == t);
            assert(t[0] == r[0]);
        }
    }
}

/// Splitting `x`, a `/`, then `y` splits `x` and `y` apart.
proof fn lemma_split_join(x: Seq<u8>, y: Seq<u8>)
    ensures
        split_bytes(x + seq![47u8] + y) == split_bytes(x) + split_bytes(y),
    decreases y.len(),
{
    let s = x + seq![47u8] + y;
    if y.len() == 0 {
        assert(s.drop_last() =~= x);
        assert(s.last() == 47);
        assert(split_bytes(y) == seq![Seq::<u8>::empty()]);
        assert(split_bytes(x).push(Seq::<u8>::empty()) =~= split_bytes(x) + split_bytes(y));
    } else {
        let y1 = y.drop_last();
        assert(s.drop_last() =~= x + seq![47u8] + y1);
        assert(s.last() == y.last());
        lemma_split_join(x, y1);
        lemma_split_nonempty(y1);
        let r = split_bytes(x) + split_bytes(y1);
        if y.last() == 47 {
            assert(r.push(Seq::<u8>::empty()) =~= split_bytes(x) + split_bytes(y1).push(Seq::<u8>::empty()));
        } else {
            let q = split_bytes(y1);
            assert(r.last() == q.last());
            assert(r.drop_last().push(r.last().push(y.last())) =~= split_bytes(x) + q.drop_last().push(
                q.last().push(y.last()),
            ));
        }
    }
}

/// A piece without `/` splits into itself.
proof fn lemma_split_plain(w: Seq<u8>)
    requires
        slash_free(w),
    ensures
        split_bytes(w) == seq![w],
    decreases w.len(),
{
    if w.len() > 0 {
        let d = w.drop_last();
        assert forall|j: int| 0 <= j < d.len() implies d[j] != 47 by {
            assert(d[j] == w[j]);
        }
        lemma_split_plain(d);
        assert(w[w.len() - 1] != 47);
        assert(d.push(w.last()) =~= w);
        assert(seq![d].drop_last().push(d.push(w.last())) =~= seq![w]);
    } else {
        assert(w =~= Seq::<u8>::empty());
    }
}

/// Components without `/`, joined by `/`, split back into themselves.
proof fn lemma_split_joined(parts: Seq<Seq<u8>>)
    requires
        parts.len() >= 1,
        forall|i: int| 0 <= i < parts.len() ==> slash_free(#[trigger] parts[i]),
    ensures
        split_bytes(joined(parts)) == parts,
    decreases parts.len(),
{
    if parts.len() == 1 {
        lemma_split_plain(parts[0]);
        assert(seq![parts[0]] =~= parts);
    } else {
        let d = parts.drop_last();
        assert forall|i: int| 0 <= i < d.len() implies slash_free(#[trigger] d[i]) by {
            assert(d[i] == parts[i]);
        }
        lemma_split_joined(d);
        lemma_split_join(joined(d), parts.last());
        lemma_split_plain(parts.last());
        assert(d + seq![parts.last()] =~= parts);
    }
}

/// What the components of a split hold: each is a non-empty piece without
/// `/`, and `.` only as the first component, taken from the first piece.
proof fn lemma_kept_parts_shape(segs: Seq<Seq<u8>>)
    requires
        forall|j: int| 0 <= j < segs.len() ==> slash_free(#[trigger] segs[j]),
    ensures
        forall|i: int|
            0 <= i < kept_parts(segs, seq![46u8]).len() ==> {
                let k = #[trigger] kept_parts(segs, seq![46u8])[i];
                &&& k.len() > 0
                &&& slash_free(k)
                &&& (k == seq![46u8] ==> i == 0 && segs[0] == seq![46u8])
            },
    decreases segs.len(),
{
    if segs.len() > 0 {
        let d = segs.drop_last();
        assert forall|j: int| 0 <= j < d.len() implies slash_free(#[trigger] d[j]) by {
            assert(d[j] == segs[j]);
        }
        lemma_kept_parts_shape(d);
        let rest = kept_parts(d, seq![46u8]);
        let k = kept_parts(segs, seq![46u8]);
        let s = segs.last();
        assert(slash_free(segs[segs.len() - 1]));
        assert forall|i: int| 0 <= i < k.len() implies {
            let e = #[trigger] k[i];
            &&& e.len() > 0
            &&& slash_free(e)
            &&& (e == seq![46u8] ==> i == 0 && segs[0] == seq![46u8])
        } by {
            if i < rest.len() {
                assert(k[i] == rest[i]);
                if rest[i] == seq![46u8] {
                    assert(d[0] == segs[0]);
                }
            } else {
                assert(k[i] == s);
                if s == seq![46u8] {
                    assert(segs.len() == 1);
                    assert(d.len() == 0);
                    assert(rest.len() == 0);
                }
            }
        }
    }
}

/// Non-empty components with `.` at most first are kept as they are.
proof fn lemma_kept_parts_unchanged(parts: Seq<Seq<u8>>)
    requires
        forall|i: int|
            0 <= i < parts.len() ==> (#[trigger] parts[i]).len() > 0 && (parts[i] == seq![46u8] ==> i == 0),
    ensures
        kept_parts(parts, seq![46u8]) == parts,
    decreases parts.len(),
{
    if parts.len() > 0 {
        let d = parts.drop_last();
        assert forall|i: int| 0 <= i < d.len() implies (#[trigger] d[i]).len() > 0 && (d[i] == seq![46u8] ==> i
            == 0) by {
            assert(d[i] == parts[i]);
        }
        lemma_kept_parts_unchanged(d);
        assert(parts[parts.len() - 1].len() > 0);
        assert(d.push(parts.last()) =~= parts);
    }
}

/// After an empty first piece, non-empty components other than `.` are kept
/// as they are.
proof fn lemma_kept_parts_after_root(parts: Seq<Seq<u8>>)
    requires
        forall|i: int| 0 <= i < parts.len() ==> (#[trigger] parts[i]).len() > 0 && parts[i] != seq![46u8],
    ensures
        kept_parts(seq![Seq::<u8>::empty()] + parts, seq![46u8]) == parts,
    decreases parts.len(),
{
    let segs = seq![Seq::<u8>::empty()] + parts;
    if parts.len() == 0 {
        assert(segs =~= seq![Seq::<u8>::empty()]);
        assert(segs.drop_last() =~= Seq::<Seq<u8>>::empty());
        assert(kept_parts(Seq::<Seq<u8>>::empty(), seq![46u8]) =~= Seq::<Seq<u8>>::empty());
    } else {
        let d = parts.drop_last();
        assert forall|i: int| 0 <= i < d.len() implies (#[trigger] d[i]).len() > 0 && d[i] != seq![46u8] by {
            assert(d[i] == parts[i]);
        }
        lemma_kept_parts_after_root(d);
        assert(segs.drop_last() =~= seq![Seq::<u8>::empty()] + d);
        assert(segs.last() == parts[parts.len() - 1]);
        assert(d.push(parts.last()) =~= parts);
    }
}

/// Joined components start with the first byte of the first component.
proof fn lemma_joined_first(parts: Seq<Seq<u8>>)
    requires
        parts.len() >= 1,
        parts[0].len() >= 1,
    ensures
        joined(parts).len() >= 1,
        joined(parts)[0] == parts[0][0],
    decreases parts.len(),
{
    if parts.len() > 1 {
        let d = parts.drop_last();
        assert(d[0] == parts[0]);
        lemma_joined_first(d);
    }
}

/// A path's normal form has the path's own components.
pub proof fn lemma_normal_form_components(p: Seq<u8>)
    ensures
        byte_components(normal_path(p)) == byte_components(p),
{
    let dot = seq![46u8];
    let segs = split_bytes(p);
    let parts = kept_parts(segs, dot);
    let root = p.len() > 0 && p[0] == 47;
    let e = Seq::<u8>::empty();
    lemma_split_pieces_slash_free(p);
    lemma_kept_parts_shape(segs);
    let n = normal_path(p);
    if root {
        lemma_split_root(p);
        assert forall|i: int| 0 <= i < parts.len() implies (#[trigger] parts[i]).len() > 0 && parts[i] != dot by {
            if parts[i] == dot {
                assert(segs[0] == dot);
                assert(dot.len() == 1);
            }
        }
        lemma_split_join(e, joined(parts));
        assert(n =~= e + seq![47u8] + joined(parts));
        if parts.len() == 0 {
            assert(joined(parts) == e);
            assert(split_bytes(e) == seq![e]);
            let ee = seq![e, e];
            assert(split_bytes(n) =~= ee);
            assert(ee.drop_last() =~= seq![e]);
            assert(seq![e].drop_last() =~= Seq::<Seq<u8>>::empty());
            assert(kept_parts(Seq::<Seq<u8>>::empty(), dot) =~= Seq::<Seq<u8>>::empty());
            assert(kept_parts(seq![e], dot) =~= Seq::<Seq<u8>>::empty());
            assert(kept_parts(ee, dot) =~= parts);
        } else {
            lemma_split_joined(parts);
            assert(split_bytes(n) == seq![e] + parts);
            lemma_kept_parts_after_root(parts);
        }
        assert(n[0] == 47);
    } else {
        assert(n =~= joined(parts));
        if parts.len() == 0 {
            assert(n =~= e);
            assert(split_bytes(e) == seq![e]);
            assert(seq![e].drop_last() =~= Seq::<Seq<u8>>::empty());
            assert(kept_parts(Seq::<Seq<u8>>::empty(), dot) =~= Seq::<Seq<u8>>::empty());
            assert(kept_parts(seq![e], dot) =~= Seq::<Seq<u8>>::empty());
        } else {
            lemma_split_joined(parts);
            assert forall|i: int| 0 <= i < parts.len() implies (#[trigger] parts[i]).len() > 0 && (parts[i] == dot
                ==> i == 0) by {}
            lemma_kept_parts_unchanged(parts);
            lemma_joined_first(parts);
            assert(slash_free(parts[0]));
            assert(parts[0][0] != 47);
        }
    }
}

/// Two paths are the same path exactly when their normal forms are equal.
pub proof fn lemma_normal_form_identifies_path(a: Seq<u8>, b: Seq<u8>)
    ensures
        same_byte_path(a, b) <==> normal_path(a) == normal_path(b),
{
    lemma_normal_form_components(a);
    lemma_normal_form_components(b);
}

/// Being the same path is an equivalence: every path is itself, and the
/// relation is symmetric and transitive.
pub proof fn lemma_same_path_equivalence(a: Seq<u8>, b: Seq<u8>, c: Seq<u8>)
    ensures
        same_byte_path(a, a),
        same_byte_path(a, b) == same_byte_path(b, a),
        same_byte_path(a, b) && same_byte_path(b, c) ==> same_byte_path(a, c),
{
}

} // verus!
