use vstd::prelude::*;
use vstd::arithmetic::power2::{pow2, lemma_pow2_unfold, lemma2_to64};
use vstd::arithmetic::div_mod::{lemma_fundamental_div_mod, lemma_div_is_ordered};
use crate::image_loader::key_views;
use crate::paths::{same_byte_path, same_path_bytes};
use crate::text::{chars_of, push_char, push_decimal, push_str, string_from_chars, decimal, digit_char, digit_to_char};

verus! {

/// The pieces of `s` between `/` separators (std's split on `/`): always at
/// least one piece, possibly empty.
pub open spec fn split_slash(s: Seq<char>) -> Seq<Seq<char>>
    decreases s.len(),
{
    if s.len() == 0 {
        seq![Seq::empty()]
    } else {
        let r = split_slash(s.drop_last());
        if s.last() == '/' {
            r.push(Seq::empty())
        } else {
            r.drop_last().push(r.last().push(s.last()))
        }
    }
}

/// A path component that names something: neither empty nor `.`.
pub open spec fn is_named_segment(seg: Seq<char>) -> bool {
    seg.len() > 0 && seg != seq!['.']
}

/// The last named component among `segs`, if any.
pub open spec fn last_named(segs: Seq<Seq<char>>) -> Option<Seq<char>>
    decreases segs.len(),
{
    if segs.len() == 0 {
        None
    } else if is_named_segment(segs.last()) {
        Some(segs.last())
    } else {
        last_named(segs.drop_last())
    }
}

/// The final component of a Unix path (std's `Path::file_name`): the last
/// component that is neither empty nor `.`, unless that is `..`.
pub open spec fn file_name_of(path: Seq<char>) -> Option<Seq<char>> {
    match last_named(split_slash(path)) {
        Some(seg) => if seg == seq!['.', '.'] { None } else { Some(seg) },
        None => None,
    }
}

/// What follows the last `.` of a name, unless that dot is its first
/// character or there is none.
pub open spec fn extension_rec(name: Seq<char>) -> Option<Seq<char>>
    decreases name.len(),
{
    if name.len() == 0 {
        None
    } else if name.last() == '.' {
        if name.len() == 1 { None } else { Some(Seq::empty()) }
    } else {
        match extension_rec(name.drop_last()) {
            Some(e) => Some(e.push(name.last())),
            None => None,
        }
    }
}

/// The extension of a file name (std's `Path::extension` on a name).
pub open spec fn extension_of(name: Seq<char>) -> Option<Seq<char>> {
    if name == seq!['.', '.'] { None } else { extension_rec(name) }
}

/// ASCII lowercase of one character.
pub open spec fn ascii_lower(c: char) -> char {
    if 65 <= (c as u32) <= 90 { ((c as u32) + 32) as char } else { c }
}

/// ASCII lowercase of a string (std's `to_ascii_lowercase`).
pub open spec fn ascii_lowercase(s: Seq<char>) -> Seq<char> {
    s.map_values(|c: char| ascii_lower(c))
}

/// The image file extensions the viewer opens, in lowercase.
pub open spec fn supported_extensions() -> Seq<Seq<char>> {
    seq![
        "png"@, "jpg"@, "jpeg"@, "jpe"@, "jfif"@, "webp"@, "gif"@, "bmp"@, "tiff"@, "tif"@,
        "ico"@,
    ]
}

/// True when a path names a file whose extension, ignoring ASCII case, is
/// one the viewer opens.
pub open spec fn is_supported_path(path: Seq<char>) -> bool {
    match file_name_of(path) {
        Some(name) => match extension_of(name) {
            Some(ext) => supported_extensions().contains(ascii_lowercase(ext)),
            None => false,
        },
        None => false,
    }
}

/// Compares two character sequences for equality.
pub fn chars_equal(a: &[char], b: &[char]) -> (r: bool)
    ensures
        r == (a@ == b@),
{
    if a.len() != b.len() {
        return false;
    }
    let n = a.len();
    let mut i: usize = 0;
    while i < n
        invariant
            n == a@.len(),
            n == b@.len(),
            i <= n,
            forall|j: int| 0 <= j < i ==> a@[j] == b@[j],
        decreases n - i,
    {
        if a[i] != b[i] {
            return false;
        }
        i = i + 1;
    }
    assert(a@ =~= b@);
    true
}

/// The pieces of `s` between `/` separators.
pub(crate) fn split_slash_exec(s: &[char]) -> (r: Vec<Vec<char>>)
    ensures
        r@.map_values(|v: Vec<char>| v@) == split_slash(s@),
{
    let n = s.len();
    let mut segs: Vec<Vec<char>> = Vec::new();
    let mut cur: Vec<char> = Vec::new();
    let mut i: usize = 0;
    assert(s@.take(0) =~= Seq::<char>::empty());
    while i < n
        invariant
            n == s@.len(),
            i <= n,
            segs@.map_values(|v: Vec<char>| v@).push(cur@) == split_slash(s@.take(i as int)),
        decreases n - i,
    {
        let c = s[i];
        let ghost prev = segs@.map_values(|v: Vec<char>| v@).push(cur@);
        proof {
            assert(s@.take(i + 1).drop_last() =~= s@.take(i as int));
            assert(s@.take(i + 1).last() == c);
        }
        if c == '/' {
            let done = cur;
            segs.push(done);
            cur = Vec::new();
            proof {
                assert(segs@.map_values(|v: Vec<char>| v@) =~= prev);
                assert(segs@.map_values(|v: Vec<char>| v@).push(cur@) =~= prev.push(Seq::empty()));
            }
        } else {
            cur.push(c);
            proof {
                assert(prev.drop_last() =~= segs@.map_values(|v: Vec<char>| v@));
                assert(segs@.map_values(|v: Vec<char>| v@).push(cur@) =~= prev.drop_last().push(
                    prev.last().push(c),
                ));
            }
        }
        i = i + 1;
    }
    segs.push(cur);
    assert(s@.take(n as int) =~= s@);
    proof {
        let m = segs@.map_values(|v: Vec<char>| v@);
        assert(m =~= split_slash(s@));
    }
    segs
}

/// Whether a component names something: neither empty nor `.`.
fn named_segment(seg: &[char]) -> (r: bool)
    ensures
        r == is_named_segment(seg@),
{
    if seg.len() == 0 {
        return false;
    }
    if seg.len() == 1 && seg[0] == '.' {
        assert(seg@ =~= seq!['.']);
        return false;
    }
    if seg.len() == 1 {
        assert(seg@ != seq!['.']) by {
            assert(seg@[0] != seq!['.'][0]);
        }
    }
    true
}

/// The final component of a Unix path, if it names something.
pub fn file_name(path: &str) -> (r: Option<String>)
    ensures
        match r {
            Some(s) => file_name_of(path@) == Some(s@),
            None => file_name_of(path@) is None,
        },
{
    let cs = chars_of(path);
    let segs = split_slash_exec(cs.as_slice());
    let ghost m = segs@.map_values(|v: Vec<char>| v@);
    let mut k: usize = segs.len();
    assert(m.take(m.len() as int) =~= m);
    while k > 0 && !named_segment(segs[k - 1].as_slice())
        invariant
            k <= segs@.len(),
            m == segs@.map_values(|v: Vec<char>| v@),
            last_named(m) == last_named(m.take(k as int)),
        decreases k,
    {
        proof {
            assert(m.take(k as int).drop_last() =~= m.take(k - 1));
            assert(m.take(k as int).last() == m[k - 1]);
        }
        k = k - 1;
    }
    proof {
        assert(m.take(m.len() as int) =~= m);
    }
    if k == 0 {
        assert(m.take(0).len() == 0);
        return None;
    }
    proof {
        assert(m.take(k as int).last() == m[k - 1]);
    }
    let seg = &segs[k - 1];
    if seg.len() == 2 && seg[0] == '.' && seg[1] == '.' {
        assert(seg@ =~= seq!['.', '.']);
        return None;
    }
    if seg.len() == 2 {
        assert(seg@ != seq!['.', '.']) by {
            if seg@[0] != '.' {
                assert(seg@[0] != seq!['.', '.'][0]);
            } else {
                assert(seg@[1] != seq!['.', '.'][1]);
            }
        }
    }
    Some(string_from_chars(seg.as_slice()))
}

/// The extension of a file name, if it has one.
pub fn extension(name: &str) -> (r: Option<String>)
    ensures
        match r {
            Some(s) => extension_of(name@) == Some(s@),
            None => extension_of(name@) is None,
        },
{
    let cs = chars_of(name);
    let n = cs.len();
    if n == 2 && cs[0] == '.' && cs[1] == '.' {
        assert(cs@ =~= seq!['.', '.']);
        return None;
    }
    if n == 2 {
        assert(cs@ != seq!['.', '.']) by {
            if cs@[0] != '.' {
                assert(cs@[0] != seq!['.', '.'][0]);
            } else {
                assert(cs@[1] != seq!['.', '.'][1]);
            }
        }
    }
    // the position just after the last dot, if any
    let mut k: usize = n;
    while k > 0 && cs[k - 1] != '.'
        invariant
            k <= n,
            n == cs@.len(),
            forall|j: int| k <= j < n ==> cs@[j] != '.',
        decreases k,
    {
        k = k - 1;
    }
    proof {
        lemma_extension_split(cs@, k as int);
    }
    if k <= 1 {
        return None;
    }
    let rest = cs.as_slice().split_at(k).1;
    Some(string_from_chars(rest))
}

proof fn lemma_extension_split(s: Seq<char>, k: int)
    requires
        0 <= k <= s.len(),
        forall|j: int| k <= j < s.len() ==> s[j] != '.',
        k > 0 ==> s[k - 1] == '.',
    ensures
        k <= 1 ==> extension_rec(s) is None,
        k > 1 ==> extension_rec(s) == Some(s.skip(k)),
    decreases s.len(),
{
    if s.len() == 0 {
    } else if s.len() == k {
        if k > 1 {
            assert(s.skip(k) =~= Seq::<char>::empty());
        }
    } else {
        lemma_extension_split(s.drop_last(), k);
        if k > 1 {
            assert(s.drop_last().skip(k).push(s.last()) =~= s.skip(k));
        }
    }
}

/// ASCII lowercase of a character sequence.
fn ascii_lowercase_exec(s: &[char]) -> (r: Vec<char>)
    ensures
        r@ == ascii_lowercase(s@),
{
    let n = s.len();
    let mut out: Vec<char> = Vec::new();
    let mut i: usize = 0;
    while i < n
        invariant
            n == s@.len(),
            i <= n,
            out@ == ascii_lowercase(s@.take(i as int)),
        decreases n - i,
    {
        let c = s[i];
        let u = c as u32;
        let l = if 65 <= u && u <= 90 {
            ((u + 32) as u8) as char
        } else {
            c
        };
        assert(l == ascii_lower(c));
        out.push(l);
        assert(ascii_lowercase(s@.take(i + 1)) =~= ascii_lowercase(s@.take(i as int)).push(ascii_lower(c)));
        i = i + 1;
    }
    assert(s@.take(n as int) =~= s@);
    out
}

/// The supported extensions, as strings.
fn supported_extension_list() -> (r: Vec<&'static str>)
    ensures
        r@.len() == supported_extensions().len(),
        forall|i: int| 0 <= i < r@.len() ==> #[trigger] r@[i]@ == supported_extensions()[i],
{
    vec!["png", "jpg", "jpeg", "jpe", "jfif", "webp", "gif", "bmp", "tiff", "tif", "ico"]
}

/// Whether a path names a supported image, judged by its extension,
/// ignoring ASCII case.
pub fn is_supported_image(path: &str) -> (r: bool)
    ensures
        r == is_supported_path(path@),
{
    let name = match file_name(path) {
        Some(n) => n,
        None => return false,
    };
    let ext = match extension(name.as_str()) {
        Some(e) => e,
        None => return false,
    };
    let ext_chars = chars_of(ext.as_str());
    let lower = ascii_lowercase_exec(ext_chars.as_slice());
    let list = supported_extension_list();
    let n = list.len();
    let mut i: usize = 0;
    while i < n
        invariant
            n == list@.len(),
            n == supported_extensions().len(),
            i <= n,
            forall|j: int| 0 <= j < list@.len() ==> #[trigger] list@[j]@ == supported_extensions()[j],
            forall|j: int| 0 <= j < i ==> supported_extensions()[j] != lower@,
            file_name_of(path@) == Some(name@),
            extension_of(name@) == Some(ext@),
            lower@ == ascii_lowercase(ext@),
        decreases n - i,
    {
        let candidate = chars_of(list[i]);
        if chars_equal(candidate.as_slice(), lower.as_slice()) {
            assert(supported_extensions()[i as int] == lower@);
            assert(supported_extensions().contains(lower@));
            return true;
        }
        i = i + 1;
    }
    assert(!supported_extensions().contains(lower@)) by {
        if supported_extensions().contains(lower@) {
            let j = supported_extensions().index_of(lower@);
            assert(supported_extensions()[j] == lower@);
        }
    }
    false
}

/// `n / d` rounded to the nearest integer, ties to the even one.
pub open spec fn nearest_even_div(n: nat, d: nat) -> nat
    recommends
        d > 0,
{
    let q = n / d;
    let r = n % d;
    if 2 * r > d || (2 * r == d && q % 2 == 1) {
        q + 1
    } else {
        q
    }
}

/// The number of binary digits of `n`.
pub open spec fn bit_length(n: nat) -> nat
    decreases n,
{
    if n == 0 {
        0
    } else {
        1 + bit_length(n / 2)
    }
}

/// The integer that `n as f64` holds: `n` rounded to 53 significant bits,
/// ties to even.
pub open spec fn as_f64_value(n: nat) -> nat {
    if bit_length(n) <= 53 {
        n
    } else {
        let e = (bit_length(n) - 53) as nat;
        nearest_even_div(n, pow2(e)) * pow2(e)
    }
}

/// A count of tenths written with one decimal place.
pub open spec fn tenths_text(t: nat) -> Seq<char> {
    decimal(t / 10) + seq!['.', digit_char(t % 10)]
}

/// A byte count in the largest fitting binary unit: whole bytes below 1 KiB,
/// whole KB below 1 MiB, MB or GB with one decimal place; the value is
/// `bytes as f64` divided by the unit, rounded to nearest with ties to even.
pub open spec fn file_size_text(bytes: nat) -> Seq<char> {
    if bytes >= 1073741824 {
        tenths_text(nearest_even_div(10 * as_f64_value(bytes), 1073741824)) + " GB"@
    } else if bytes >= 1048576 {
        tenths_text(nearest_even_div(10 * bytes, 1048576)) + " MB"@
    } else if bytes >= 1024 {
        decimal(nearest_even_div(bytes, 1024)) + " KB"@
    } else {
        decimal(bytes) + " B"@
    }
}

fn nearest_even_div_exec(n: u128, d: u128) -> (r: u128)
    requires
        0 < d <= 0x1_0000_0000_0000_0000,
        n < 0x1_0000_0000_0000_0000_0000,
    ensures
        r == nearest_even_div(n as nat, d as nat),
        r <= n / d + 1,
{
    let q = n / d;
    let rem = n % d;
    if 2 * rem > d || (2 * rem == d && q % 2 == 1) {
        q + 1
    } else {
        q
    }
}

proof fn lemma_bit_length_bound(n: nat, k: nat)
    requires
        n < pow2(k),
    ensures
        bit_length(n) <= k,
    decreases k,
{
    if n > 0 {
        if k == 0 {
            assert(pow2(0) == 1) by {
                lemma2_to64();
            }
        } else {
            lemma_pow2_unfold(k);
            lemma_bit_length_bound(n / 2, (k - 1) as nat);
        }
    }
}

fn bit_length_exec(n: u64) -> (r: u64)
    ensures
        r == bit_length(n as nat),
        r <= 64,
{
    let mut m = n;
    let mut len: u64 = 0;
    proof {
        lemma2_to64();
        lemma_bit_length_bound(n as nat, 64);
    }
    while m > 0
        invariant
            len + bit_length(m as nat) == bit_length(n as nat),
            bit_length(n as nat) <= 64,
        decreases m,
    {
        m = m / 2;
        len = len + 1;
    }
    len
}

fn as_f64_value_exec(n: u64) -> (r: u128)
    ensures
        r == as_f64_value(n as nat),
        r <= 0x1_0000_0000_0000_0800,
{
    let bl = bit_length_exec(n);
    if bl <= 53 {
        return n as u128;
    }
    let e = bl - 53;
    let mut p: u128 = 1;
    let mut k: u64 = 0;
    proof {
        lemma2_to64();
    }
    while k < e
        invariant
            k <= e,
            e <= 11,
            p == pow2(k as nat),
            p <= 0x800,
        decreases e - k,
    {
        proof {
            lemma2_to64();
            lemma_pow2_unfold((k + 1) as nat);
            assert(pow2((k + 1) as nat) <= pow2(11)) by {
                if k + 1 < 11 {
                    vstd::arithmetic::power2::lemma_pow2_strictly_increases((k + 1) as nat, 11);
                }
            }
        }
        p = p * 2;
        k = k + 1;
    }
    let q = nearest_even_div_exec(n as u128, p);
    proof {
        lemma_fundamental_div_mod(n as int, p as int);
        assert(p * (n as int / p as int) <= n);
        assert(q * p <= (n as int / p as int) * p + p) by (nonlinear_arith)
            requires
                q <= n as int / p as int + 1,
                p > 0,
        ;
    }
    q * p
}

/// Appends a count of tenths with one decimal place.
fn push_tenths(s: &mut String, t: u64)
    ensures
        final(s)@ == old(s)@ + tenths_text(t as nat),
{
    push_decimal(s, t / 10);
    push_char(s, '.');
    push_char(s, digit_to_char((t % 10) as u8));
    assert(final(s)@ =~= old(s)@ + tenths_text(t as nat));
}

/// A human-readable file size, such as "500 B", "2 KB" or "3.0 MB".
pub fn format_file_size(bytes: u64) -> (r: String)
    ensures
        r@ == file_size_text(bytes as nat),
{
    let mut s = String::new();
    if bytes >= 1073741824 {
        let f = as_f64_value_exec(bytes);
        let t = nearest_even_div_exec(10 * f, 1073741824);
        proof {
            lemma_div_is_ordered(10 * f as int, (10 * 0x1_0000_0000_0000_0800) as int, 1073741824);
        }
        push_tenths(&mut s, t as u64);
        push_str(&mut s, " GB");
    } else if bytes >= 1048576 {
        let t = nearest_even_div_exec(10 * (bytes as u128), 1048576);
        proof {
            lemma_div_is_ordered(10 * bytes as int, (10 * 1073741824) as int, 1048576);
        }
        push_tenths(&mut s, t as u64);
        push_str(&mut s, " MB");
    } else if bytes >= 1024 {
        let t = nearest_even_div_exec(bytes as u128, 1024);
        proof {
            lemma_div_is_ordered(bytes as int, 1048576, 1024);
        }
        push_decimal(&mut s, t as u64);
        push_str(&mut s, " KB");
    } else {
        push_decimal(&mut s, bytes);
        push_str(&mut s, " B");
    }
    assert(s@ =~= file_size_text(bytes as nat));
    s
}

/// A Unix path extended by `rel` (std's `PathBuf::push`): an absolute `rel`
/// replaces the base; otherwise a `/` is put between them unless the base is
/// empty or already ends in one.
pub open spec fn join_path_text(base: Seq<char>, rel: Seq<char>) -> Seq<char> {
    if rel.len() > 0 && rel[0] == '/' {
        rel
    } else if base.len() > 0 && base.last() != '/' {
        base + seq!['/'] + rel
    } else {
        base + rel
    }
}

/// `base` joined with `rel`, as Unix paths.
pub fn join_path(base: &str, rel: &str) -> (r: String)
    ensures
        r@ == join_path_text(base@, rel@),
{
    let bs = chars_of(base);
    let rs = chars_of(rel);
    if rs.len() > 0 && rs[0] == '/' {
        return string_from_chars(rs.as_slice());
    }
    let mut out = string_from_chars(bs.as_slice());
    if bs.len() > 0 && bs[bs.len() - 1] != '/' {
        push_char(&mut out, '/');
    }
    push_str(&mut out, rel);
    out
}


/// Where the file opened from the command line stands in its folder's
/// listing: the first entry whose canonical path (as encoded bytes) is the
/// same path as the file's own, component by component, if any.
pub fn position_of(canonical: &Vec<Vec<u8>>, target: &[u8]) -> (r: Option<usize>)
    ensures
        match r {
            Some(i) => i < canonical@.len() && same_byte_path(key_views(canonical@)[i as int], target@)
                && forall|j: int| 0 <= j < i ==> !same_byte_path(#[trigger] key_views(canonical@)[j], target@),
            None => forall|j: int|
                0 <= j < canonical@.len() ==> !same_byte_path(#[trigger] key_views(canonical@)[j], target@),
        },
{
    let n = canonical.len();
    let mut i: usize = 0;
    while i < n
        invariant
            n == canonical@.len(),
            i <= n,
            forall|j: int| 0 <= j < i ==> !same_byte_path(#[trigger] key_views(canonical@)[j], target@),
        decreases n - i,
    {
        if same_path_bytes(canonical[i].as_slice(), target) {
            return Some(i);
        }
        i = i + 1;
    }
    None
}

/// The extensions the viewer opens are exactly png, jpg, jpeg, jpe, jfif,
/// webp, gif, bmp, tiff, tif and ico (in lowercase).
pub proof fn lemma_supported_extensions_are(e: Seq<char>)
    ensures
        supported_extensions().contains(e) <==> (e == "png"@ || e == "jpg"@ || e == "jpeg"@ || e == "jpe"@
            || e == "jfif"@ || e == "webp"@ || e == "gif"@ || e == "bmp"@ || e == "tiff"@ || e == "tif"@
            || e == "ico"@),
{
    let l = supported_extensions();
    assert(l[0] == "png"@);
    assert(l[1] == "jpg"@);
    assert(l[2] == "jpeg"@);
    assert(l[3] == "jpe"@);
    assert(l[4] == "jfif"@);
    assert(l[5] == "webp"@);
    assert(l[6] == "gif"@);
    assert(l[7] == "bmp"@);
    assert(l[8] == "tiff"@);
    assert(l[9] == "tif"@);
    assert(l[10] == "ico"@);
    if l.contains(e) {
        let i = l.index_of(e);
        assert(l[i] == e);
    }
}

/// A piece without `/` splits into itself.
proof fn lemma_split_slash_plain(w: Seq<char>)
    requires
        forall|i: int| 0 <= i < w.len() ==> w[i] != '/',
    ensures
        split_slash(w) == seq![w],
    decreases w.len(),
{
    if w.len() > 0 {
        let d = w.drop_last();
        assert forall|i: int| 0 <= i < d.len() implies d[i] != '/' by {
            assert(d[i] == w[i]);
        }
        lemma_split_slash_plain(d);
        assert(w[w.len() - 1] != '/');
        assert(d.push(w.last()) =~= w);
        assert(seq![d].drop_last().push(d.push(w.last())) =~= seq![w]);
    } else {
        assert(w =~= Seq::<char>::empty());
    }
}

/// After a name part ending in a dot, a run without dots is the extension.
proof fn lemma_extension_after_dot(prefix: Seq<char>, ext: Seq<char>)
    requires
        prefix.len() >= 2,
        prefix.last() == '.',
        forall|i: int| 0 <= i < ext.len() ==> ext[i] != '.',
    ensures
        extension_rec(prefix + ext) == Some(ext),
    decreases ext.len(),
{
    let s = prefix + ext;
    if ext.len() == 0 {
        assert(s =~= prefix);
        assert(ext =~= Seq::<char>::empty());
    } else {
        let d = ext.drop_last();
        assert forall|i: int| 0 <= i < d.len() implies d[i] != '.' by {
            assert(d[i] == ext[i]);
        }
        lemma_extension_after_dot(prefix, d);
        assert(s.drop_last() =~= prefix + d);
        assert(s.last() == ext[ext.len() - 1]);
        assert(d.push(ext.last()) =~= ext);
    }
}

/// A file name made of a stem, a dot and an extension (no `/` anywhere, no
/// dot in the extension) is opened exactly when the extension, in ASCII
/// lowercase, is png, jpg, jpeg, jpe, jfif, webp, gif, bmp, tiff, tif or
/// ico: so `photo.tif`, `a.PNG` and `scan.Jpeg` are opened, `notes.txt` is
/// not.
pub proof fn lemma_supported_names(stem: Seq<char>, ext: Seq<char>)
    requires
        stem.len() > 0,
        ext.len() > 0,
        forall|i: int| 0 <= i < stem.len() ==> stem[i] != '/',
        forall|i: int| 0 <= i < ext.len() ==> ext[i] != '/' && ext[i] != '.',
    ensures
        is_supported_path(stem + "."@ + ext) <==> ({
            let e = ascii_lowercase(ext);
            e == "png"@ || e == "jpg"@ || e == "jpeg"@ || e == "jpe"@ || e == "jfif"@ || e == "webp"@
                || e == "gif"@ || e == "bmp"@ || e == "tiff"@ || e == "tif"@ || e == "ico"@
        }),
{
    reveal_strlit(".");
    let prefix = stem + "."@;
    let name = prefix + ext;
    assert(stem + "."@ + ext == name);
    assert forall|i: int| 0 <= i < name.len() implies name[i] != '/' by {
        if i < stem.len() {
            assert(name[i] == stem[i]);
        } else if i == stem.len() {
            assert(name[i] == '.');
        } else {
            assert(name[i] == ext[i - stem.len() - 1]);
        }
    }
    lemma_split_slash_plain(name);
    assert(name.len() >= 3);
    assert(name != seq!['.']);
    assert(name != seq!['.', '.']);
    assert(seq![name].last() == name);
    assert(last_named(seq![name]) == Some(name));
    assert(file_name_of(name) == Some(name));
    assert(prefix.last() == '.');
    lemma_extension_after_dot(prefix, ext);
    assert(extension_of(name) == Some(ext));
    lemma_supported_extensions_are(ascii_lowercase(ext));
}

/// ASCII lowercasing keeps the length, turns each of `A`..`Z` into the
/// matching `a`..`z` and leaves every other character as it is.
pub proof fn lemma_ascii_lowercase_letters(s: Seq<char>)
    ensures
        ascii_lowercase(s).len() == s.len(),
        forall|i: int| 0 <= i < s.len() && 65 <= (s[i] as u32) <= 90 ==> (#[trigger] ascii_lowercase(s)[i]) as u32 == s[i] as u32 + 32,
        forall|i: int| 0 <= i < s.len() && !(65 <= (s[i] as u32) <= 90) ==> #[trigger] ascii_lowercase(s)[i] == s[i],
{
}

} // verus!
