//! Byte-level scanning primitives: searching, slicing, splitting on a
//! separator and joining again, and stripping a byte.  Paths, query
//! strings and header values are handled as raw octets, so every rule
//! of the gateway is stated over `Seq<u8>`.

use vstd::prelude::*;

verus! {

/// Index of the first occurrence of `b` in `s`, or a negative value
/// when `s` does not contain `b`.
pub open spec fn first_index(s: Seq<u8>, b: u8) -> int
    decreases s.len(),
{
    if s.len() == 0 {
        -1
    } else if s[0] == b {
        0
    } else {
        let r = first_index(s.skip(1), b);
        if r < 0 {
            -1
        } else {
            r + 1
        }
    }
}

/// `first_index` returns a negative value exactly when `b` is absent,
/// and otherwise the least index holding `b`.
pub proof fn lemma_first_index(s: Seq<u8>, b: u8)
    ensures
        first_index(s, b) < 0 ==> forall|j: int| 0 <= j < s.len() ==> s[j] != b,
        first_index(s, b) >= 0 ==> {
            let r = first_index(s, b);
            &&& 0 <= r < s.len()
            &&& s[r] == b
            &&& forall|j: int| 0 <= j < r ==> s[j] != b
        },
    decreases s.len(),
{
    if s.len() > 0 && s[0] != b {
        lemma_first_index(s.skip(1), b);
        assert forall|j: int| 1 <= j < s.len() implies s[j] == s.skip(1)[j - 1] by {}
    }
}

/// First occurrence of `b` in `v` at or after `from`.
pub fn find_byte_from(v: &Vec<u8>, b: u8, from: usize) -> (r: Option<usize>)
    requires
        from <= v@.len(),
    ensures
        match r {
            Some(i) => {
                &&& from <= i < v@.len()
                &&& v@[i as int] == b
                &&& first_index(v@.skip(from as int), b) == i - from
            },
            None => first_index(v@.skip(from as int), b) < 0,
        },
{
    let n = v.len();
    let mut i: usize = from;
    while i < n
        invariant
            from <= i <= n,
            n == v@.len(),
            forall|j: int| from <= j < i ==> v@[j] != b,
        decreases n - i,
    {
        if v[i] == b {
            proof {
                lemma_first_index(v@.skip(from as int), b);
                assert(v@.skip(from as int)[i - from] == b);
            }
            return Some(i);
        }
        i += 1;
    }
    proof {
        lemma_first_index(v@.skip(from as int), b);
    }
    None
}

/// Copy of `v[a..b]`.
pub fn subvec(v: &Vec<u8>, a: usize, b: usize) -> (r: Vec<u8>)
    requires
        a <= b <= v@.len(),
    ensures
        r@ == v@.subrange(a as int, b as int),
{
    let mut out: Vec<u8> = Vec::new();
    let mut i: usize = a;
    while i < b
        invariant
            a <= i <= b <= v@.len(),
            out@ == v@.subrange(a as int, i as int),
        decreases b - i,
    {
        out.push(v[i]);
        proof {
            assert(out@ =~= v@.subrange(a as int, i + 1 as int));
        }
        i += 1;
    }
    out
}

/// Append all of `src` to `dst`.
pub fn append_bytes(dst: &mut Vec<u8>, src: &Vec<u8>)
    ensures
        final(dst)@ == old(dst)@ + src@,
{
    let mut i: usize = 0;
    while i < src.len()
        invariant
            i <= src@.len(),
            dst@ == old(dst)@ + src@.take(i as int),
        decreases src@.len() - i,
    {
        dst.push(src[i]);
        proof {
            assert(dst@ =~= old(dst)@ + src@.take(i + 1 as int));
        }
        i += 1;
    }
    proof {
        assert(dst@ =~= old(dst)@ + src@);
    }
}

/// Does `v` begin with `pre`?
pub fn starts_with(v: &Vec<u8>, pre: &Vec<u8>) -> (r: bool)
    ensures
        r == pre@.is_prefix_of(v@),
{
    if pre.len() > v.len() {
        return false;
    }
    let mut i: usize = 0;
    while i < pre.len()
        invariant
            i <= pre@.len() <= v@.len(),
            forall|j: int| 0 <= j < i ==> v@[j] == pre@[j],
        decreases pre@.len() - i,
    {
        if v[i] != pre[i] {
            proof {
                assert(pre@.is_prefix_of(v@) ==> pre@[i as int] == v@.take(pre@.len() as int)[i as int]);
            }
            return false;
        }
        i += 1;
    }
    proof {
        assert(pre@ =~= v@.take(pre@.len() as int));
    }
    true
}

/// Are the two byte vectors equal?
pub fn bytes_eq(a: &Vec<u8>, b: &Vec<u8>) -> (r: bool)
    ensures
        r == (a@ == b@),
{
    if a.len() != b.len() {
        return false;
    }
    let r = starts_with(a, b);
    proof {
        if b@.is_prefix_of(a@) {
            assert(a@ =~= a@.take(a@.len() as int));
        }
    }
    r
}

/// `needle` occurs somewhere inside `hay`.
pub open spec fn contains_seq(hay: Seq<u8>, needle: Seq<u8>) -> bool {
    exists|k: int|
        0 <= k && k + needle.len() <= hay.len() && #[trigger] hay.subrange(
            k,
            k + needle.len() as int,
        ) == needle
}

/// Does `hay[k..]` begin with `needle`?
fn match_at(hay: &Vec<u8>, needle: &Vec<u8>, k: usize) -> (r: bool)
    requires
        k + needle@.len() <= hay@.len(),
    ensures
        r == (hay@.subrange(k as int, k + needle@.len() as int) == needle@),
{
    let n = hay.len();
    let mut i: usize = 0;
    while i < needle.len()
        invariant
            i <= needle@.len(),
            n == hay@.len(),
            k + needle@.len() <= hay@.len(),
            forall|j: int| 0 <= j < i ==> hay@[k + j] == needle@[j],
        decreases needle@.len() - i,
    {
        if hay[k + i] != needle[i] {
            proof {
                let sub = hay@.subrange(k as int, k + needle@.len() as int);
                assert(sub == needle@ ==> sub[i as int] == needle@[i as int]);
            }
            return false;
        }
        i += 1;
    }
    proof {
        assert(hay@.subrange(k as int, k + needle@.len() as int) =~= needle@);
    }
    true
}

/// Substring search for `needle` inside `hay`.
pub fn contains_bytes(hay: &Vec<u8>, needle: &Vec<u8>) -> (r: bool)
    ensures
        r == contains_seq(hay@, needle@),
{
    if needle.len() > hay.len() {
        return false;
    }
    let last = hay.len() - needle.len();
    let mut k: usize = 0;
    loop
        invariant
            needle@.len() + last == hay@.len(),
            k <= last,
            forall|m: int|
                0 <= m < k ==> #[trigger] hay@.subrange(m, m + needle@.len() as int) != needle@,
        decreases last - k,
    {
        if match_at(hay, needle, k) {
            return true;
        }
        if k == last {
            return false;
        }
        k += 1;
    }
}

/// The comma- or ampersand-separated pieces of `s`: splitting on `sep`
/// keeps empty pieces, so joining with `sep` restores `s` exactly.
pub open spec fn split_at_seps(s: Seq<u8>, sep: u8) -> Seq<Seq<u8>>
    decreases s.len(),
{
    let i = first_index(s, sep);
    if 0 <= i < s.len() {
        seq![s.take(i)] + split_at_seps(s.skip(i + 1), sep)
    } else {
        seq![s]
    }
}

/// Splitting yields at least one piece.
pub proof fn lemma_split_len(s: Seq<u8>, sep: u8)
    ensures
        split_at_seps(s, sep).len() >= 1,
{
    let i = first_index(s, sep);
    if 0 <= i < s.len() {
        assert(split_at_seps(s, sep).len() == 1 + split_at_seps(s.skip(i + 1), sep).len());
    }
}

/// The pieces, interleaved with `sep`.
pub open spec fn join_with(parts: Seq<Seq<u8>>, sep: u8) -> Seq<u8>
    decreases parts.len(),
{
    if parts.len() == 0 {
        Seq::empty()
    } else if parts.len() == 1 {
        parts[0]
    } else {
        parts[0] + seq![sep] + join_with(parts.skip(1), sep)
    }
}

/// Joining after splitting restores the original bytes: the split is
/// lossless.
pub proof fn lemma_join_split(s: Seq<u8>, sep: u8)
    ensures
        join_with(split_at_seps(s, sep), sep) == s,
    decreases s.len(),
{
    lemma_first_index(s, sep);
    let i = first_index(s, sep);
    if 0 <= i < s.len() {
        lemma_join_split(s.skip(i + 1), sep);
        lemma_split_len(s.skip(i + 1), sep);
        let rest = split_at_seps(s.skip(i + 1), sep);
        assert((seq![s.take(i)] + rest).skip(1) =~= rest);
        if rest.len() == 0 {
        } else {
            assert(s.take(i) + seq![sep] + s.skip(i + 1) =~= s);
        }
    }
}

/// Appending one piece to a join: a separator stands between pieces
/// only.
pub proof fn lemma_join_push(parts: Seq<Seq<u8>>, x: Seq<u8>, sep: u8)
    ensures
        join_with(parts.push(x), sep) == if parts.len() == 0 {
            x
        } else {
            join_with(parts, sep) + seq![sep] + x
        },
    decreases parts.len(),
{
    if parts.len() == 0 {
        assert(parts.push(x) =~= seq![x]);
    } else {
        lemma_join_push(parts.skip(1), x, sep);
        assert(parts.push(x).skip(1) =~= parts.skip(1).push(x));
        if parts.len() == 1 {
            assert(parts.push(x)[0] == parts[0]);
        } else {
            assert((parts[0] + seq![sep] + join_with(parts.skip(1), sep)) + seq![sep] + x =~= parts[0]
                + seq![sep] + (join_with(parts.skip(1), sep) + seq![sep] + x));
        }
    }
}

/// The views of a sequence of byte vectors.
pub open spec fn views_of(parts: Seq<Vec<u8>>) -> Seq<Seq<u8>> {
    parts.map_values(|p: Vec<u8>| p@)
}

/// Split `v` on `sep`, keeping empty pieces.
pub fn split_bytes(v: &Vec<u8>, sep: u8) -> (r: Vec<Vec<u8>>)
    ensures
        views_of(r@) == split_at_seps(v@, sep),
{
    let n = v.len();
    let mut parts: Vec<Vec<u8>> = Vec::new();
    let mut pos: usize = 0;
    proof {
        assert(v@.skip(0) =~= v@);
        assert(views_of(parts@) + split_at_seps(v@, sep) =~= split_at_seps(v@, sep));
    }
    loop
        invariant
            pos <= n,
            n == v@.len(),
            split_at_seps(v@, sep) == views_of(parts@) + split_at_seps(v@.skip(pos as int), sep),
        decreases n - pos,
    {
        match find_byte_from(v, sep, pos) {
            Some(j) => {
                let seg = subvec(v, pos, j);
                proof {
                    let sfx = v@.skip(pos as int);
                    lemma_first_index(sfx, sep);
                    assert(first_index(sfx, sep) == j - pos);
                    assert(sfx.take(j - pos) =~= v@.subrange(pos as int, j as int));
                    assert(sfx.skip(j - pos + 1) =~= v@.skip(j + 1 as int));
                    assert(split_at_seps(sfx, sep) == seq![seg@] + split_at_seps(
                        v@.skip(j + 1 as int),
                        sep,
                    ));
                    assert(views_of(parts@.push(seg)) =~= views_of(parts@).push(seg@));
                    assert(views_of(parts@) + split_at_seps(sfx, sep) =~= views_of(
                        parts@.push(seg),
                    ) + split_at_seps(v@.skip(j + 1 as int), sep));
                }
                parts.push(seg);
                pos = j + 1;
            },
            None => {
                let seg = subvec(v, pos, n);
                proof {
                    let sfx = v@.skip(pos as int);
                    lemma_first_index(sfx, sep);
                    assert(!(0 <= first_index(sfx, sep) < sfx.len()));
                    assert(seg@ =~= sfx);
                    assert(split_at_seps(sfx, sep) == seq![seg@]);
                    assert(views_of(parts@.push(seg)) =~= views_of(parts@).push(seg@));
                    assert(views_of(parts@).push(seg@) =~= views_of(parts@) + seq![seg@]);
                }
                parts.push(seg);
                return parts;
            },
        }
    }
}

/// Join `parts` with `sep` between consecutive pieces.
pub fn join_bytes(parts: &Vec<Vec<u8>>, sep: u8) -> (r: Vec<u8>)
    ensures
        r@ == join_with(views_of(parts@), sep),
{
    let mut out: Vec<u8> = Vec::new();
    let mut i: usize = 0;
    while i < parts.len()
        invariant
            i <= parts@.len(),
            out@ == join_with(views_of(parts@).take(i as int), sep),
        decreases parts@.len() - i,
    {
        if i > 0 {
            out.push(sep);
        }
        let ghost before = out@;
        append_bytes(&mut out, &parts[i]);
        proof {
            let vs = views_of(parts@);
            lemma_join_push(vs.take(i as int), vs[i as int], sep);
            assert(vs.take(i + 1) =~= vs.take(i as int).push(vs[i as int]));
            if i == 0 {
                assert(out@ =~= vs[0]);
            }
        }
        i += 1;
    }
    proof {
        assert(views_of(parts@).take(parts@.len() as int) =~= views_of(parts@));
    }
    out
}

/// A fresh copy of `v`.
pub fn copy_bytes(v: &Vec<u8>) -> (r: Vec<u8>)
    ensures
        r@ == v@,
{
    let r = subvec(v, 0, v.len());
    proof {
        assert(v@.subrange(0, v@.len() as int) =~= v@);
    }
    r
}

/// The view of an optional byte vector.
pub open spec fn opt_views(o: Option<Vec<u8>>) -> Option<Seq<u8>> {
    match o {
        Some(v) => Some(v@),
        None => None,
    }
}

/// An optional byte sequence, or the empty sequence.
pub open spec fn opt_or_empty(o: Option<Seq<u8>>) -> Seq<u8> {
    match o {
        Some(s) => s,
        None => Seq::<u8>::empty(),
    }
}

/// `s` with every occurrence of `b` removed, order kept.
pub open spec fn strip_byte(s: Seq<u8>, b: u8) -> Seq<u8>
    decreases s.len(),
{
    if s.len() == 0 {
        s
    } else if s.last() == b {
        strip_byte(s.drop_last(), b)
    } else {
        strip_byte(s.drop_last(), b).push(s.last())
    }
}

/// Copy of `v` with every occurrence of `b` removed.
pub fn remove_byte(v: &Vec<u8>, b: u8) -> (r: Vec<u8>)
    ensures
        r@ == strip_byte(v@, b),
{
    let mut out: Vec<u8> = Vec::new();
    let mut i: usize = 0;
    while i < v.len()
        invariant
            i <= v@.len(),
            out@ == strip_byte(v@.take(i as int), b),
        decreases v@.len() - i,
    {
        proof {
            assert(v@.take(i + 1 as int).drop_last() =~= v@.take(i as int));
            assert(v@.take(i + 1 as int).last() == v@[i as int]);
        }
        if v[i] != b {
            out.push(v[i]);
        }
        i += 1;
    }
    proof {
        assert(v@.take(v@.len() as int) =~= v@);
    }
    out
}

} // verus!
