use vstd::prelude::*;
use crate::text::{chars_of, lowercase, string_from_chars, to_lowercase};

verus! {

/// True for the ASCII digits `0` through `9`.
pub open spec fn is_digit(c: char) -> bool {
    48 <= (c as u32) <= 57
}

/// The numeric value of an ASCII digit.
pub open spec fn digit_value(c: char) -> nat {
    ((c as u32) - 48) as nat
}

/// The value of a run of decimal digits.
pub open spec fn digits_value(ds: Seq<char>) -> nat
    decreases ds.len(),
{
    if ds.len() == 0 {
        0
    } else {
        digits_value(ds.drop_last()) * 10 + digit_value(ds.last())
    }
}

/// The maximal runs of `s` in which every character is a digit or every
/// character is not, left to right.
pub open spec fn runs(s: Seq<char>) -> Seq<Seq<char>>
    decreases s.len(),
{
    if s.len() == 0 {
        Seq::empty()
    } else {
        let r = runs(s.drop_last());
        let c = s.last();
        if r.len() > 0 && r.last().len() > 0 && is_digit(r.last().last()) == is_digit(c) {
            r.drop_last().push(r.last().push(c))
        } else {
            r.push(seq![c])
        }
    }
}

/// One element of a natural sort key.
pub enum ChunkModel {
    Text(Seq<char>),
    Number(nat),
}

/// The key element a run contributes: a lowercased text, or a number; a digit
/// run too large for a `u64` contributes nothing.
pub open spec fn run_chunk(run: Seq<char>) -> Seq<ChunkModel> {
    if run.len() > 0 && is_digit(run[0]) {
        if digits_value(run) <= u64::MAX {
            seq![ChunkModel::Number(digits_value(run))]
        } else {
            Seq::empty()
        }
    } else {
        seq![ChunkModel::Text(lowercase(run))]
    }
}

/// The key elements of a sequence of runs.
pub open spec fn chunks_of(rs: Seq<Seq<char>>) -> Seq<ChunkModel>
    decreases rs.len(),
{
    if rs.len() == 0 {
        Seq::empty()
    } else {
        chunks_of(rs.drop_last()) + run_chunk(rs.last())
    }
}

/// The natural sort key of a file name.
pub open spec fn natural_key(s: Seq<char>) -> Seq<ChunkModel> {
    chunks_of(runs(s))
}

/// Lexicographic comparison of character sequences by code point: -1, 0 or 1.
pub open spec fn order_chars(a: Seq<char>, b: Seq<char>) -> int
    decreases a.len(),
{
    if a.len() == 0 {
        if b.len() == 0 { 0 } else { -1 }
    } else if b.len() == 0 {
        1
    } else if (a[0] as u32) < (b[0] as u32) {
        -1
    } else if (a[0] as u32) > (b[0] as u32) {
        1
    } else {
        order_chars(a.drop_first(), b.drop_first())
    }
}

/// Comparison of key elements: every text comes before every number.
pub open spec fn order_chunk(a: ChunkModel, b: ChunkModel) -> int {
    match (a, b) {
        (ChunkModel::Text(x), ChunkModel::Text(y)) => order_chars(x, y),
        (ChunkModel::Text(_), ChunkModel::Number(_)) => -1,
        (ChunkModel::Number(_), ChunkModel::Text(_)) => 1,
        (ChunkModel::Number(x), ChunkModel::Number(y)) => if x < y { -1 } else if x > y { 1 } else { 0 },
    }
}

/// Lexicographic comparison of natural sort keys: -1, 0 or 1.
pub open spec fn order_keys(a: Seq<ChunkModel>, b: Seq<ChunkModel>) -> int
    decreases a.len(),
{
    if a.len() == 0 {
        if b.len() == 0 { 0 } else { -1 }
    } else if b.len() == 0 {
        1
    } else if order_chunk(a[0], b[0]) != 0 {
        order_chunk(a[0], b[0])
    } else {
        order_keys(a.drop_first(), b.drop_first())
    }
}

/// One element of a natural sort key: a lowercased run of non-digits, or the
/// value of a run of digits.
#[derive(Debug, PartialEq, Eq, PartialOrd, Ord)]
pub enum SortChunk {
    Text(String),
    Number(u64),
}

impl SortChunk {
    /// The mathematical value of this key element.
    pub open spec fn model(&self) -> ChunkModel {
        match self {
            SortChunk::Text(s) => ChunkModel::Text(s@),
            SortChunk::Number(n) => ChunkModel::Number(*n as nat),
        }
    }
}

/// The mathematical value of a key.
pub open spec fn key_model(v: Seq<SortChunk>) -> Seq<ChunkModel> {
    v.map_values(|c: SortChunk| c.model())
}

proof fn lemma_digits_value_prefix(s: Seq<char>, k: int)
    requires
        0 <= k <= s.len(),
    ensures
        digits_value(s) >= digits_value(s.take(k)),
    decreases s.len(),
{
    if k < s.len() {
        lemma_digits_value_prefix(s.drop_last(), k);
        assert(s.drop_last().take(k) =~= s.take(k));
    } else {
        assert(s.take(k) =~= s);
    }
}

/// The value of a run of digits, when it fits in a `u64` (std's `parse::<u64>`).
fn parse_digits(ds: &[char]) -> (r: Option<u64>)
    requires
        forall|i: int| 0 <= i < ds@.len() ==> is_digit(#[trigger] ds@[i]),
    ensures
        match r {
            Some(v) => v as nat == digits_value(ds@),
            None => digits_value(ds@) > u64::MAX,
        },
{
    let n = ds.len();
    let mut acc: u64 = 0;
    let mut i: usize = 0;
    while i < n
        invariant
            n == ds@.len(),
            i <= n,
            acc as nat == digits_value(ds@.take(i as int)),
            forall|j: int| 0 <= j < ds@.len() ==> is_digit(#[trigger] ds@[j]),
        decreases n - i,
    {
        let d = ((ds[i] as u32) - 48) as u64;
        proof {
            assert(ds@.take(i + 1).drop_last() =~= ds@.take(i as int));
            assert(ds@.take(i + 1).last() == ds@[i as int]);
        }
        match acc.checked_mul(10) {
            Some(m) => match m.checked_add(d) {
                Some(v) => {
                    acc = v;
                },
                None => {
                    proof {
                        lemma_digits_value_prefix(ds@, i + 1);
                    }
                    return None;
                },
            },
            None => {
                proof {
                    lemma_digits_value_prefix(ds@, i + 1);
                }
                return None;
            },
        }
        i = i + 1;
    }
    assert(ds@.take(n as int) =~= ds@);
    Some(acc)
}

/// The key element of one homogeneous run.
fn run_to_chunks(run: &Vec<char>, chunks: &mut Vec<SortChunk>)
    requires
        run@.len() > 0,
        forall|i: int| 0 <= i < run@.len() ==> is_digit(#[trigger] run@[i]) == is_digit(run@[0]),
    ensures
        key_model(final(chunks)@) == key_model(old(chunks)@) + run_chunk(run@),
{
    let c0 = run[0];
    if 48 <= (c0 as u32) && (c0 as u32) <= 57 {
        match parse_digits(run.as_slice()) {
            Some(v) => {
                chunks.push(SortChunk::Number(v));
                assert(key_model(chunks@) =~= key_model(old(chunks)@) + run_chunk(run@));
            },
            None => {
                assert(key_model(chunks@) =~= key_model(old(chunks)@) + run_chunk(run@));
            },
        }
    } else {
        let text = string_from_chars(run.as_slice());
        let lower = to_lowercase(text.as_str());
        chunks.push(SortChunk::Text(lower));
        assert(key_model(chunks@) =~= key_model(old(chunks)@) + run_chunk(run@));
    }
}

/// The natural sort key of `s`: "img2" orders before "img10".
///
/// The name is split into maximal runs of ASCII digits and of other
/// characters; each text run becomes its lowercase, each digit run its value
/// (dropped when it does not fit in a `u64`).
pub fn natural_sort_key(s: &str) -> (r: Vec<SortChunk>)
    ensures
        key_model(r@) == natural_key(s@),
{
    let cs = chars_of(s);
    let n = cs.len();
    let mut chunks: Vec<SortChunk> = Vec::new();
    let mut run: Vec<char> = Vec::new();
    let ghost mut done: Seq<Seq<char>> = Seq::empty();
    let mut i: usize = 0;
    while i < n
        invariant
            n == cs@.len(),
            cs@ == s@,
            i <= n,
            i == 0 ==> run@.len() == 0 && done.len() == 0,
            i > 0 ==> run@.len() > 0 && runs(cs@.take(i as int)) == done.push(run@),
            forall|j: int| 0 <= j < run@.len() ==> is_digit(#[trigger] run@[j]) == is_digit(run@[0]),
            key_model(chunks@) == chunks_of(done),
        decreases n - i,
    {
        let c = cs[i];
        let c_digit = 48 <= (c as u32) && (c as u32) <= 57;
        proof {
            assert(cs@.take(i + 1).drop_last() =~= cs@.take(i as int));
            assert(cs@.take(i + 1).last() == c);
        }
        if run.len() > 0 {
            let last = run[run.len() - 1];
            let last_digit = 48 <= (last as u32) && (last as u32) <= 57;
            if last_digit != c_digit {
                run_to_chunks(&run, &mut chunks);
                proof {
                    assert(done.push(run@).drop_last() =~= done);
                    done = done.push(run@);
                }
                run = Vec::new();
                run.push(c);
                proof {
                    assert(run@ =~= seq![c]);
                }
            } else {
                let ghost prev = run@;
                run.push(c);
                proof {
                    let r = runs(cs@.take(i as int));
                    assert(r == done.push(prev));
                    assert(r.last() == prev);
                    assert(r.drop_last() =~= done);
                    assert(runs(cs@.take(i + 1)) == r.drop_last().push(prev.push(c)));
                    assert(prev.push(c) =~= run@);
                }
            }
        } else {
            run.push(c);
            proof {
                assert(run@ =~= seq![c]);
                assert(cs@.take(0).len() == 0);
                assert(runs(cs@.take(0)) =~= Seq::<Seq<char>>::empty());
                assert(done.push(run@) =~= seq![seq![c]]);
            }
        }
        i = i + 1;
    }
    if run.len() > 0 {
        run_to_chunks(&run, &mut chunks);
        proof {
            assert(done.push(run@).drop_last() =~= done);
        }
    }
    proof {
        assert(cs@.take(n as int) =~= cs@);
    }
    chunks
}

/// Comparing character sequences is antisymmetric.
pub proof fn lemma_order_chars_antisymmetric(a: Seq<char>, b: Seq<char>)
    ensures
        order_chars(a, b) == -order_chars(b, a),
        -1 <= order_chars(a, b) <= 1,
    decreases a.len(),
{
    if a.len() > 0 && b.len() > 0 && (a[0] as u32) == (b[0] as u32) {
        lemma_order_chars_antisymmetric(a.drop_first(), b.drop_first());
    }
}

/// Character sequences compare equal exactly when they are equal.
pub proof fn lemma_order_chars_equal(a: Seq<char>, b: Seq<char>)
    ensures
        order_chars(a, b) == 0 <==> a == b,
    decreases a.len(),
{
    if a.len() == 0 && b.len() == 0 {
        assert(a =~= b);
    }
    if a.len() > 0 && b.len() > 0 && (a[0] as u32) == (b[0] as u32) {
        vstd::utf8::char_u32_cast(a[0], a[0] as u32);
        vstd::utf8::char_u32_cast(b[0], b[0] as u32);
        lemma_order_chars_equal(a.drop_first(), b.drop_first());
        if a.drop_first() == b.drop_first() {
            assert(a =~= seq![a[0]] + a.drop_first());
            assert(b =~= seq![b[0]] + b.drop_first());
        }
        if a == b {
            assert(a.drop_first() =~= b.drop_first());
        }
    }
    if a.len() > 0 && b.len() > 0 && (a[0] as u32) != (b[0] as u32) {
        assert(a[0] != b[0]);
    }
}

/// "Comes before" is transitive on character sequences.
pub proof fn lemma_order_chars_transitive(a: Seq<char>, b: Seq<char>, c: Seq<char>)
    requires
        order_chars(a, b) < 0,
        order_chars(b, c) < 0,
    ensures
        order_chars(a, c) < 0,
    decreases a.len(),
{
    if a.len() > 0 && b.len() > 0 && c.len() > 0 && (a[0] as u32) == (b[0] as u32)
        && (b[0] as u32) == (c[0] as u32) {
        lemma_order_chars_transitive(a.drop_first(), b.drop_first(), c.drop_first());
    }
}

/// Comparing key elements is antisymmetric, and equal exactly on equal elements.
pub proof fn lemma_order_chunk_properties(a: ChunkModel, b: ChunkModel)
    ensures
        order_chunk(a, b) == -order_chunk(b, a),
        -1 <= order_chunk(a, b) <= 1,
        order_chunk(a, b) == 0 <==> a == b,
{
    match (a, b) {
        (ChunkModel::Text(x), ChunkModel::Text(y)) => {
            lemma_order_chars_antisymmetric(x, y);
            lemma_order_chars_equal(x, y);
        },
        _ => {},
    }
}

/// "Comes before" is transitive on key elements.
pub proof fn lemma_order_chunk_transitive(a: ChunkModel, b: ChunkModel, c: ChunkModel)
    requires
        order_chunk(a, b) < 0,
        order_chunk(b, c) < 0,
    ensures
        order_chunk(a, c) < 0,
{
    match (a, b, c) {
        (ChunkModel::Text(x), ChunkModel::Text(y), ChunkModel::Text(z)) => {
            lemma_order_chars_transitive(x, y, z);
        },
        _ => {},
    }
}

/// The natural order of keys is antisymmetric, and two keys compare equal
/// exactly when they are equal.
pub proof fn lemma_order_keys_antisymmetric(a: Seq<ChunkModel>, b: Seq<ChunkModel>)
    ensures
        order_keys(a, b) == -order_keys(b, a),
        -1 <= order_keys(a, b) <= 1,
        order_keys(a, b) == 0 <==> a == b,
    decreases a.len(),
{
    if a.len() == 0 && b.len() == 0 {
        assert(a =~= b);
    }
    if a.len() > 0 && b.len() > 0 {
        lemma_order_chunk_properties(a[0], b[0]);
        if order_chunk(a[0], b[0]) == 0 {
            lemma_order_keys_antisymmetric(a.drop_first(), b.drop_first());
            if a.drop_first() == b.drop_first() {
                assert(a =~= seq![a[0]] + a.drop_first());
                assert(b =~= seq![b[0]] + b.drop_first());
            }
        }
        if a == b {
            assert(a.drop_first() =~= b.drop_first());
        }
    }
}

/// The natural order of keys is transitive.
pub proof fn lemma_order_keys_transitive(a: Seq<ChunkModel>, b: Seq<ChunkModel>, c: Seq<ChunkModel>)
    requires
        order_keys(a, b) < 0,
        order_keys(b, c) < 0,
    ensures
        order_keys(a, c) < 0,
    decreases a.len(),
{
    if a.len() > 0 && b.len() > 0 && c.len() > 0 {
        lemma_order_chunk_properties(a[0], b[0]);
        lemma_order_chunk_properties(b[0], c[0]);
        lemma_order_chunk_properties(a[0], c[0]);
        if order_chunk(a[0], b[0]) < 0 && order_chunk(b[0], c[0]) < 0 {
            lemma_order_chunk_transitive(a[0], b[0], c[0]);
        } else if order_chunk(a[0], b[0]) == 0 && order_chunk(b[0], c[0]) == 0 {
            lemma_order_keys_transitive(a.drop_first(), b.drop_first(), c.drop_first());
        }
    }
}

/// Natural sort keys are totally ordered: any two compare one way, the other,
/// or equal, and "comes before" and "not after" are both transitive.
pub proof fn lemma_natural_order_total(a: Seq<ChunkModel>, b: Seq<ChunkModel>, c: Seq<ChunkModel>)
    ensures
        order_keys(a, b) == -1 || order_keys(a, b) == 0 || order_keys(a, b) == 1,
        order_keys(a, b) == -order_keys(b, a),
        order_keys(a, b) == 0 <==> a == b,
        order_keys(a, b) <= 0 && order_keys(b, c) <= 0 ==> order_keys(a, c) <= 0,
        order_keys(a, b) < 0 && order_keys(b, c) <= 0 ==> order_keys(a, c) < 0,
        order_keys(a, b) <= 0 && order_keys(b, c) < 0 ==> order_keys(a, c) < 0,
{
    lemma_order_keys_antisymmetric(a, b);
    lemma_order_keys_antisymmetric(b, c);
    lemma_order_keys_antisymmetric(a, c);
    if order_keys(a, b) < 0 && order_keys(b, c) < 0 {
        lemma_order_keys_transitive(a, b, c);
    }
}

/// Compares two character sequences by code point: -1, 0 or 1.
fn compare_chars(a: &[char], b: &[char]) -> (r: i8)
    ensures
        r as int == order_chars(a@, b@),
{
    let n = a.len();
    let m = b.len();
    let mut i: usize = 0;
    assert(a@.skip(0) =~= a@);
    assert(b@.skip(0) =~= b@);
    while i < n && i < m
        invariant
            n == a@.len(),
            m == b@.len(),
            i <= n,
            i <= m,
            order_chars(a@, b@) == order_chars(a@.skip(i as int), b@.skip(i as int)),
        decreases n - i,
    {
        let x = a[i] as u32;
        let y = b[i] as u32;
        proof {
            assert(a@.skip(i as int)[0] == a@[i as int]);
            assert(b@.skip(i as int)[0] == b@[i as int]);
        }
        if x < y {
            return -1;
        }
        if x > y {
            return 1;
        }
        proof {
            assert(a@.skip(i as int).drop_first() =~= a@.skip(i + 1));
            assert(b@.skip(i as int).drop_first() =~= b@.skip(i + 1));
        }
        i = i + 1;
    }
    if i == n {
        if i == m { 0 } else { -1 }
    } else {
        1
    }
}

/// Compares two key elements: -1, 0 or 1.
fn compare_chunk(a: &SortChunk, b: &SortChunk) -> (r: i8)
    ensures
        r as int == order_chunk(a.model(), b.model()),
{
    match (a, b) {
        (SortChunk::Text(x), SortChunk::Text(y)) => {
            let xs = chars_of(x.as_str());
            let ys = chars_of(y.as_str());
            compare_chars(xs.as_slice(), ys.as_slice())
        },
        (SortChunk::Text(_), SortChunk::Number(_)) => -1,
        (SortChunk::Number(_), SortChunk::Text(_)) => 1,
        (SortChunk::Number(x), SortChunk::Number(y)) => {
            if *x < *y {
                -1
            } else if *x > *y {
                1
            } else {
                0
            }
        },
    }
}

/// Compares two natural sort keys: -1, 0 or 1.
pub fn compare_keys(a: &[SortChunk], b: &[SortChunk]) -> (r: i8)
    ensures
        r as int == order_keys(key_model(a@), key_model(b@)),
{
    let n = a.len();
    let m = b.len();
    let ghost ka = key_model(a@);
    let ghost kb = key_model(b@);
    let mut i: usize = 0;
    assert(ka.skip(0) =~= ka);
    assert(kb.skip(0) =~= kb);
    while i < n && i < m
        invariant
            n == a@.len(),
            m == b@.len(),
            ka == key_model(a@),
            kb == key_model(b@),
            i <= n,
            i <= m,
            order_keys(ka, kb) == order_keys(ka.skip(i as int), kb.skip(i as int)),
        decreases n - i,
    {
        let c = compare_chunk(&a[i], &b[i]);
        proof {
            assert(ka.skip(i as int)[0] == a@[i as int].model());
            assert(kb.skip(i as int)[0] == b@[i as int].model());
        }
        if c != 0 {
            return c;
        }
        proof {
            assert(ka.skip(i as int).drop_first() =~= ka.skip(i + 1));
            assert(kb.skip(i as int).drop_first() =~= kb.skip(i + 1));
        }
        i = i + 1;
    }
    if i == n {
        if i == m { 0 } else { -1 }
    } else {
        1
    }
}

/// True when the name at `x` sorts before the name at `y`: by natural key,
/// and by position among names with equal keys (a stable order).
pub open spec fn sorts_before(keys: Seq<Seq<ChunkModel>>, x: int, y: int) -> bool {
    order_keys(keys[x], keys[y]) < 0 || (order_keys(keys[x], keys[y]) == 0 && x < y)
}

/// The natural sort keys of a list of names.
pub open spec fn name_keys(names: Seq<String>) -> Seq<Seq<ChunkModel>> {
    names.map_values(|s: String| natural_key(s@))
}

/// The order in which `names` sort naturally: a permutation of their
/// positions, listing them by natural sort key and, for equal keys, in their
/// given order.
pub fn natural_order(names: &Vec<String>) -> (order: Vec<usize>)
    ensures
        order@.len() == names@.len(),
        forall|k: usize| k < names@.len() ==> #[trigger] order@.contains(k),
        forall|a: int| 0 <= a < order@.len() ==> order@[a] < names@.len(),
        forall|a: int, b: int| 0 <= a < b < order@.len() ==> order@[a] != order@[b],
        forall|a: int, b: int| 0 <= a < b < order@.len() ==>
            sorts_before(name_keys(names@), order@[a] as int, order@[b] as int),
{
    let n = names.len();
    let ghost spec_keys = name_keys(names@);
    let mut keys: Vec<Vec<SortChunk>> = Vec::new();
    let mut i: usize = 0;
    while i < n
        invariant
            n == names@.len(),
            i <= n,
            keys@.len() == i,
            spec_keys == name_keys(names@),
            forall|j: int| 0 <= j < i ==> key_model(#[trigger] keys@[j]@) == spec_keys[j],
        decreases n - i,
    {
        let k = natural_sort_key(names[i].as_str());
        keys.push(k);
        i = i + 1;
    }
    let mut order: Vec<usize> = Vec::new();
    let mut i: usize = 0;
    while i < n
        invariant
            n == names@.len(),
            i <= n,
            keys@.len() == n,
            spec_keys == name_keys(names@),
            spec_keys.len() == n,
            forall|j: int| 0 <= j < n ==> key_model(#[trigger] keys@[j]@) == spec_keys[j],
            order@.len() == i,
            forall|k: usize| k < i ==> #[trigger] order@.contains(k),
            forall|a: int| 0 <= a < order@.len() ==> order@[a] < i,
            forall|a: int, b: int| 0 <= a < b < order@.len() ==> order@[a] != order@[b],
            forall|a: int, b: int| 0 <= a < b < order@.len() ==>
                sorts_before(spec_keys, order@[a] as int, order@[b] as int),
        decreases n - i,
    {
        let mut pos: usize = 0;
        while pos < order.len() && compare_keys(keys[i].as_slice(), keys[order[pos]].as_slice()) >= 0
            invariant
                n == names@.len(),
                i < n,
                keys@.len() == n,
                spec_keys.len() == n,
                forall|j: int| 0 <= j < n ==> key_model(#[trigger] keys@[j]@) == spec_keys[j],
                forall|a: int| 0 <= a < order@.len() ==> order@[a] < i,
                pos <= order@.len(),
                forall|j: int| 0 <= j < pos ==> order_keys(spec_keys[i as int], spec_keys[order@[j] as int]) >= 0,
            decreases order@.len() - pos,
        {
            pos = pos + 1;
        }
        let ghost old_order = order@;
        order.insert(pos, i);
        proof {
            let ki = spec_keys[i as int];
            assert forall|a: int, b: int| 0 <= a < b < order@.len() implies
                sorts_before(spec_keys, order@[a] as int, order@[b] as int) by {
                if b < pos {
                    assert(order@[a] == old_order[a] && order@[b] == old_order[b]);
                } else if a > pos {
                    assert(order@[a] == old_order[a - 1] && order@[b] == old_order[b - 1]);
                } else if a == pos {
                    let y = old_order[b - 1] as int;
                    assert(order@[b] == y);
                    assert(pos < old_order.len());
                    let p = old_order[pos as int] as int;
                    assert(order_keys(ki, spec_keys[p]) < 0);
                    if b - 1 > pos {
                        assert(sorts_before(spec_keys, p, y));
                        lemma_natural_order_total(ki, spec_keys[p], spec_keys[y]);
                    }
                } else if b == pos {
                    let x = old_order[a] as int;
                    assert(order@[a] == x);
                    lemma_natural_order_total(ki, spec_keys[x], spec_keys[x]);
                    assert(order_keys(ki, spec_keys[x]) >= 0);
                    assert(x < i);
                } else {
                    assert(a < pos && b > pos);
                    assert(order@[a] == old_order[a] && order@[b] == old_order[b - 1]);
                }
            }
            assert forall|k: usize| k < i + 1 implies #[trigger] order@.contains(k) by {
                if k < i {
                    assert(old_order.contains(k));
                    let j = old_order.index_of(k);
                    if j < pos {
                        assert(order@[j] == k);
                    } else {
                        assert(order@[j + 1] == k);
                    }
                } else {
                    assert(order@[pos as int] == i);
                }
            }
            assert forall|a: int, b: int| 0 <= a < b < order@.len() implies order@[a] != order@[b] by {
                if a != pos && b != pos {
                    let a0 = if a < pos { a } else { a - 1 };
                    let b0 = if b < pos { b } else { b - 1 };
                    assert(order@[a] == old_order[a0]);
                    assert(order@[b] == old_order[b0]);
                } else if a == pos {
                    assert(order@[b] == old_order[b - 1]);
                } else {
                    let a0 = if a < pos { a } else { a - 1 };
                    assert(order@[a] == old_order[a0]);
                }
            }
            assert forall|a: int| 0 <= a < order@.len() implies order@[a] < i + 1 by {
                if a < pos {
                    assert(order@[a] == old_order[a]);
                } else if a > pos {
                    assert(order@[a] == old_order[a - 1]);
                }
            }
        }
        i = i + 1;
    }
    order
}

} // verus!
