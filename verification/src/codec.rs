//! The byte image of a typed array.
//!
//! A packed buffer stores an array of elements as the concatenation of the
//! elements' byte images.  `encode` gives that concatenation, `decode` reads
//! it back; the lemmas here relate the two and are what every contract about
//! a packed byte region rests on.

use vstd::prelude::*;

use crate::opengl::GLVertexType;

verus! {

/// The byte image of a typed array: the elements' byte images, concatenated
/// in order.
pub open spec fn encode<V: GLVertexType>(s: Seq<V>) -> Seq<u8>
    decreases s.len(),
{
    if s.len() == 0 {
        Seq::empty()
    } else {
        s[0].to_bytes() + encode(s.drop_first())
    }
}

/// The typed array whose byte image the given bytes are: one element per
/// `V::spec_size()` bytes, in order.
pub open spec fn decode<V: GLVertexType>(b: Seq<u8>) -> Seq<V>
    decreases b.len(),
{
    if V::spec_size() < 1 || b.len() < V::spec_size() {
        Seq::empty()
    } else {
        seq![V::from_bytes(b.subrange(0, V::spec_size()))]
            + decode::<V>(b.skip(V::spec_size()))
    }
}

/// The byte image of an array is `spec_size()` bytes per element.
pub proof fn lemma_encode_len<V: GLVertexType>(s: Seq<V>)
    ensures
        encode(s).len() == s.len() * V::spec_size(),
    decreases s.len(),
{
    V::lemma_size();
    if s.len() == 0 {
    } else {
        s[0].lemma_to_bytes();
        lemma_encode_len::<V>(s.drop_first());
        assert(s.len() * V::spec_size() == V::spec_size() + (s.len() - 1) * V::spec_size())
            by (nonlinear_arith);
    }
}

/// Appending one element appends its byte image.
pub proof fn lemma_encode_push<V: GLVertexType>(s: Seq<V>, x: V)
    ensures
        encode(s.push(x)) == encode(s) + x.to_bytes(),
    decreases s.len(),
{
    if s.len() == 0 {
        assert(s.push(x)[0] == x);
        assert(s.push(x).drop_first() =~= Seq::<V>::empty());
        assert(encode(Seq::<V>::empty()) =~= Seq::<u8>::empty());
        assert(encode(s.push(x)) =~= encode(s) + x.to_bytes());
    } else {
        assert(s.push(x)[0] == s[0]);
        assert(s.push(x).drop_first() =~= s.drop_first().push(x));
        lemma_encode_push::<V>(s.drop_first(), x);
        assert(encode(s.push(x)) =~= encode(s) + x.to_bytes());
    }
}

/// Reading a byte image back yields the array it was made from.
pub proof fn lemma_decode_encode<V: GLVertexType>(s: Seq<V>)
    ensures
        decode::<V>(encode(s)) == s,
    decreases s.len(),
{
    V::lemma_size();
    if s.len() == 0 {
    } else {
        s[0].lemma_to_bytes();
        lemma_encode_len::<V>(s.drop_first());
        assert(s.drop_first().len() * V::spec_size() >= 0) by (nonlinear_arith)
            requires 1 <= V::spec_size();
        let e = encode(s);
        assert(e =~= s[0].to_bytes() + encode(s.drop_first()));
        assert(e.len() >= V::spec_size());
        assert(e.subrange(0, V::spec_size()) =~= s[0].to_bytes());
        assert(e.skip(V::spec_size()) =~= encode(s.drop_first()));
        lemma_decode_encode::<V>(s.drop_first());
        assert(decode::<V>(e) =~= s);
    }
}

/// A byte region whose length is a whole number of elements decodes to
/// exactly that many elements.
pub proof fn lemma_decode_len<V: GLVertexType>(b: Seq<u8>)
    requires
        b.len() % (V::spec_size() as nat) == 0,
    ensures
        decode::<V>(b).len() * V::spec_size() == b.len(),
    decreases b.len(),
{
    V::lemma_size();
    if b.len() < V::spec_size() {
        assert(b.len() == 0) by {
            if b.len() != 0 {
                assert(b.len() % (V::spec_size() as nat) == b.len()) by (nonlinear_arith)
                    requires 0 < b.len() < V::spec_size();
            }
        }
        assert(decode::<V>(b).len() == 0);
        assert(decode::<V>(b).len() * V::spec_size() == 0) by (nonlinear_arith)
            requires decode::<V>(b).len() == 0;
    } else {
        let rest = b.skip(V::spec_size());
        assert(rest.len() % (V::spec_size() as nat) == 0) by (nonlinear_arith)
            requires
                b.len() % (V::spec_size() as nat) == 0,
                rest.len() == b.len() - V::spec_size(),
                1 <= V::spec_size() <= b.len(),
        ;
        lemma_decode_len::<V>(rest);
        assert(decode::<V>(b).len() * V::spec_size()
            == (1 + decode::<V>(rest).len()) * V::spec_size());
        assert((1 + decode::<V>(rest).len()) * V::spec_size()
            == V::spec_size() + decode::<V>(rest).len() * V::spec_size()) by (nonlinear_arith);
        assert(decode::<V>(b).len() * V::spec_size() == b.len());
    }
}

/// Decoding distributes over concatenation at an element boundary.
pub proof fn lemma_decode_concat<V: GLVertexType>(a: Seq<u8>, b: Seq<u8>)
    requires
        a.len() % (V::spec_size() as nat) == 0,
    ensures
        decode::<V>(a + b) == decode::<V>(a) + decode::<V>(b),
    decreases a.len(),
{
    V::lemma_size();
    if a.len() < V::spec_size() {
        assert(a.len() == 0) by {
            if a.len() != 0 {
                assert(a.len() % (V::spec_size() as nat) == a.len()) by (nonlinear_arith)
                    requires 0 < a.len() < V::spec_size();
            }
        }
        assert(a + b =~= b);
        assert(decode::<V>(a + b) =~= decode::<V>(a) + decode::<V>(b));
    } else {
        let ar = a.skip(V::spec_size());
        assert(ar.len() % (V::spec_size() as nat) == 0) by (nonlinear_arith)
            requires
                a.len() % (V::spec_size() as nat) == 0,
                ar.len() == a.len() - V::spec_size(),
                1 <= V::spec_size() <= a.len(),
        ;
        assert((a + b).subrange(0, V::spec_size()) =~= a.subrange(0, V::spec_size()));
        assert((a + b).skip(V::spec_size()) =~= ar + b);
        lemma_decode_concat::<V>(ar, b);
        assert(decode::<V>(a + b) =~= decode::<V>(a) + decode::<V>(b));
    }
}

/// The `k`-th decoded element is read from the `k`-th element-sized slot.
pub proof fn lemma_decode_index<V: GLVertexType>(b: Seq<u8>, k: int)
    requires
        0 <= k,
        (k + 1) * V::spec_size() <= b.len(),
    ensures
        k < decode::<V>(b).len(),
        decode::<V>(b)[k] == V::from_bytes(b.subrange(k * V::spec_size(), (k + 1)
            * V::spec_size())),
    decreases k,
{
    V::lemma_size();
    assert(V::spec_size() <= (k + 1) * V::spec_size()) by (nonlinear_arith)
        requires 0 <= k, 1 <= V::spec_size();
    let rest = b.skip(V::spec_size());
    if k == 0 {
        assert(0 * V::spec_size() == 0) by (nonlinear_arith);
        assert(1 * V::spec_size() == V::spec_size()) by (nonlinear_arith);
        assert(decode::<V>(b)[0] == V::from_bytes(b.subrange(0, V::spec_size())));
        assert(b.subrange(0, V::spec_size()) =~= b.subrange(0 * V::spec_size(), 1
            * V::spec_size()));
    } else {
        assert(k * V::spec_size() == V::spec_size() + (k - 1) * V::spec_size())
            by (nonlinear_arith);
        assert((k + 1) * V::spec_size() == V::spec_size() + k * V::spec_size())
            by (nonlinear_arith);
        lemma_decode_index::<V>(rest, k - 1);
        assert(rest.subrange((k - 1) * V::spec_size(), k * V::spec_size())
            =~= b.subrange(k * V::spec_size(), (k + 1) * V::spec_size()));
        assert(decode::<V>(b)[k] == decode::<V>(rest)[k - 1]);
        assert(decode::<V>(rest)[k - 1] == V::from_bytes(rest.subrange((k - 1)
            * V::spec_size(), k * V::spec_size())));
        assert(decode::<V>(b)[k] == V::from_bytes(b.subrange(k * V::spec_size(), (k + 1)
            * V::spec_size())));
    }
}

/// Overwriting the `k`-th element-sized slot of a byte region replaces the
/// `k`-th decoded element and nothing else.
pub proof fn lemma_decode_update<V: GLVertexType>(b: Seq<u8>, k: int, x: V)
    requires
        b.len() % (V::spec_size() as nat) == 0,
        0 <= k,
        (k + 1) * V::spec_size() <= b.len(),
    ensures
        decode::<V>(b.subrange(0, k * V::spec_size()) + x.to_bytes()
            + b.subrange((k + 1) * V::spec_size(), b.len() as int))
            == decode::<V>(b).update(k, x),
{
    V::lemma_size();
    x.lemma_to_bytes();
    let sz = V::spec_size();
    assert(0 <= k * sz && k * sz + sz == (k + 1) * sz) by (nonlinear_arith)
        requires 0 <= k, 1 <= sz;
    vstd::arithmetic::div_mod::lemma_mod_multiples_basic(k, sz);
    let p = b.subrange(0, k * sz);
    let mid = b.subrange(k * sz, (k + 1) * sz);
    let sfx = b.subrange((k + 1) * sz, b.len() as int);
    assert(b =~= p + (mid + sfx));
    lemma_decode_concat::<V>(p, mid + sfx);
    assert((mid + sfx).subrange(0, sz) =~= mid);
    assert((mid + sfx).skip(sz) =~= sfx);
    assert(decode::<V>(mid + sfx) == seq![V::from_bytes(mid)] + decode::<V>(sfx));
    let b1 = p + x.to_bytes() + sfx;
    assert(b1 =~= p + (x.to_bytes() + sfx));
    lemma_decode_concat::<V>(p, x.to_bytes() + sfx);
    assert((x.to_bytes() + sfx).subrange(0, sz) =~= x.to_bytes());
    assert((x.to_bytes() + sfx).skip(sz) =~= sfx);
    assert(decode::<V>(x.to_bytes() + sfx) == seq![x] + decode::<V>(sfx));
    lemma_decode_len::<V>(p);
    assert(decode::<V>(p).len() == k) by (nonlinear_arith)
        requires decode::<V>(p).len() * sz == k * sz, 1 <= sz;
    assert(decode::<V>(b1) =~= decode::<V>(b).update(k, x));
}

/// Overwrite the `k`-th element of the typed array stored in
/// `data[start..end]`.
pub fn write_element<V: GLVertexType>(data: &mut Vec<u8>, start: usize, end: usize, k: usize,
    v: V)
    requires
        start <= end <= old(data)@.len(),
        (end - start) % V::spec_size() == 0,
        (k + 1) * V::spec_size() <= end - start,
    ensures
        final(data)@.len() == old(data)@.len(),
        final(data)@.subrange(0, start as int) == old(data)@.subrange(0, start as int),
        final(data)@.subrange(end as int, old(data)@.len() as int)
            == old(data)@.subrange(end as int, old(data)@.len() as int),
        decode::<V>(final(data)@.subrange(start as int, end as int))
            == decode::<V>(old(data)@.subrange(start as int, end as int)).update(k as int, v),
{
    let n: usize = data.len();
    proof {
        V::lemma_size();
        v.lemma_to_bytes();
        assert(0 <= k * V::spec_size() && k * V::spec_size() + V::spec_size() == (k + 1)
            * V::spec_size() && k * V::spec_size() < (k + 1) * V::spec_size())
            by (nonlinear_arith)
            requires 0 <= k, 1 <= V::spec_size();
    }
    let size = V::size();
    let off = start + k * size;
    v.store_to(data, off);
    proof {
        let sz = V::spec_size();
        let b = old(data)@.subrange(start as int, end as int);
        lemma_decode_update::<V>(b, k as int, v);
        assert(b.subrange(0, k as int * sz) =~= old(data)@.subrange(start as int,
            off as int));
        assert(b.subrange((k + 1) * sz, b.len() as int) =~= old(data)@.subrange(off + sz,
            end as int));
        assert(data@.subrange(start as int, end as int) =~= b.subrange(0, k as int * sz)
            + v.to_bytes() + b.subrange((k + 1) * sz, b.len() as int));
        assert(data@.subrange(0, start as int) =~= old(data)@.subrange(0, start as int));
        assert(data@.subrange(end as int, old(data)@.len() as int)
            =~= old(data)@.subrange(end as int, old(data)@.len() as int));
    }
}

/// Append the byte image of every element of `elems` to `out`.
pub fn write_all<V: GLVertexType>(out: &mut Vec<u8>, elems: &Vec<V>)
    ensures
        final(out)@ == old(out)@ + encode(elems@),
{
    let n = elems.len();
    let mut k: usize = 0;
    proof {
        assert(elems@.subrange(0, 0) =~= Seq::<V>::empty());
        assert(out@ =~= old(out)@ + encode(elems@.subrange(0, 0)));
    }
    while k < n
        invariant
            n == elems@.len(),
            k <= n,
            out@ == old(out)@ + encode(elems@.subrange(0, k as int)),
        decreases n - k,
    {
        let v = elems[k];
        v.write_to(out);
        proof {
            assert(elems@.subrange(0, k + 1) =~= elems@.subrange(0, k as int).push(elems@[
                k as int]));
            lemma_encode_push::<V>(elems@.subrange(0, k as int), elems@[k as int]);
            assert(out@ =~= old(out)@ + encode(elems@.subrange(0, k + 1)));
        }
        k += 1;
    }
    proof {
        assert(elems@.subrange(0, n as int) =~= elems@);
    }
}

/// Read the typed array stored in `buf[start..end]`.
pub fn read_all<V: GLVertexType>(buf: &Vec<u8>, start: usize, end: usize) -> (r: Vec<V>)
    requires
        start <= end <= buf@.len(),
        (end - start) % V::spec_size() == 0,
    ensures
        r@ == decode::<V>(buf@.subrange(start as int, end as int)),
{
    let region = Ghost(buf@.subrange(start as int, end as int));
    proof {
        V::lemma_size();
        lemma_decode_len::<V>(region@);
    }
    let size = V::size();
    let count = (end - start) / size;
    proof {
        assert(count * V::spec_size() == region@.len()) by (nonlinear_arith)
            requires
                count == ((end - start) as int) / V::spec_size(),
                region@.len() == end - start,
                1 <= V::spec_size(),
                region@.len() % (V::spec_size() as nat) == 0,
                (end - start) % V::spec_size() == 0,
        ;
        assert(decode::<V>(region@).len() == count) by (nonlinear_arith)
            requires
                decode::<V>(region@).len() * V::spec_size() == region@.len(),
                count * V::spec_size() == region@.len(),
                1 <= V::spec_size(),
        ;
    }
    let bn: usize = buf.len();
    let mut r: Vec<V> = Vec::new();
    let mut k: usize = 0;
    while k < count
        invariant
            bn == buf@.len(),
            start <= end <= buf@.len(),
            region@ == buf@.subrange(start as int, end as int),
            1 <= V::spec_size() <= 4,
            size == V::spec_size(),
            count * V::spec_size() == region@.len(),
            decode::<V>(region@).len() == count,
            k <= count,
            r@ == decode::<V>(region@).subrange(0, k as int),
        decreases count - k,
    {
        proof {
            assert((k + 1) * V::spec_size() <= count * V::spec_size()) by (nonlinear_arith)
                requires k + 1 <= count, 1 <= V::spec_size();
            assert(k * V::spec_size() + V::spec_size() == (k + 1) * V::spec_size())
                by (nonlinear_arith);
            assert(k * V::spec_size() >= 0) by (nonlinear_arith)
                requires k >= 0, V::spec_size() >= 1;
        }
        let off = start + k * size;
        let v = V::read_from(buf, off);
        proof {
            lemma_decode_index::<V>(region@, k as int);
            assert(region@.subrange(k * V::spec_size(), (k + 1) * V::spec_size())
                =~= buf@.subrange(off as int, off + V::spec_size()));
            assert(r@.push(v) =~= decode::<V>(region@).subrange(0, k + 1));
        }
        r.push(v);
        k += 1;
    }
    proof {
        assert(decode::<V>(region@).subrange(0, count as int) =~= decode::<V>(region@));
    }
    r
}

/// Append `src[start..end]` to `dst`.
pub fn copy_range(dst: &mut Vec<u8>, src: &Vec<u8>, start: usize, end: usize)
    requires
        start <= end <= src@.len(),
    ensures
        final(dst)@ == old(dst)@ + src@.subrange(start as int, end as int),
{
    let mut k: usize = start;
    proof {
        assert(dst@ =~= old(dst)@ + src@.subrange(start as int, start as int));
    }
    while k < end
        invariant
            start <= k <= end <= src@.len(),
            dst@ == old(dst)@ + src@.subrange(start as int, k as int),
        decreases end - k,
    {
        let b = src[k];
        dst.push(b);
        proof {
            assert(dst@ =~= old(dst)@ + src@.subrange(start as int, k + 1));
        }
        k += 1;
    }
}

/// Copy `len` bytes from `src[src_off..]` into `dst[dst_off..]`.
pub fn copy_in(dst: &mut Vec<u8>, dst_off: usize, src: &Vec<u8>, src_off: usize, len: usize)
    requires
        dst_off + len <= old(dst)@.len(),
        src_off + len <= src@.len(),
    ensures
        final(dst)@ == old(dst)@.subrange(0, dst_off as int)
            + src@.subrange(src_off as int, src_off + len)
            + old(dst)@.subrange(dst_off + len, old(dst)@.len() as int),
        final(dst)@.len() == old(dst)@.len(),
{
    let dn: usize = dst.len();
    let sn: usize = src.len();
    let mut k: usize = 0;
    while k < len
        invariant
            dn == dst@.len(),
            sn == src@.len(),
            dst@.len() == old(dst)@.len(),
            dst_off + len <= dst@.len(),
            src_off + len <= src@.len(),
            k <= len,
            dst@ == old(dst)@.subrange(0, dst_off as int)
                + src@.subrange(src_off as int, src_off + k)
                + old(dst)@.subrange(dst_off + k, old(dst)@.len() as int),
        decreases len - k,
    {
        let b = src[src_off + k];
        dst.set(dst_off + k, b);
        proof {
            assert(dst@ =~= old(dst)@.subrange(0, dst_off as int)
                + src@.subrange(src_off as int, src_off + k + 1)
                + old(dst)@.subrange(dst_off + k + 1, old(dst)@.len() as int));
        }
        k += 1;
    }
    proof {
        assert(dst@ =~= old(dst)@.subrange(0, dst_off as int)
            + src@.subrange(src_off as int, src_off + len)
            + old(dst)@.subrange(dst_off + len, old(dst)@.len() as int));
    }
}

/// Move `len` bytes from `data[src_off..]` rightwards to `data[dst_off..]`,
/// copying in descending address order so an overlapping source is read
/// before it is overwritten.
pub fn shift_right(data: &mut Vec<u8>, src_off: usize, dst_off: usize, len: usize)
    requires
        src_off <= dst_off,
        dst_off + len <= old(data)@.len(),
    ensures
        final(data)@ == old(data)@.subrange(0, dst_off as int)
            + old(data)@.subrange(src_off as int, src_off + len)
            + old(data)@.subrange(dst_off + len, old(data)@.len() as int),
        final(data)@.len() == old(data)@.len(),
{
    let dn: usize = data.len();
    let mut k: usize = len;
    while k > 0
        invariant
            dn == data@.len(),
            data@.len() == old(data)@.len(),
            src_off <= dst_off,
            dst_off + len <= data@.len(),
            k <= len,
            data@ == old(data)@.subrange(0, dst_off + k)
                + old(data)@.subrange(src_off + k, src_off + len)
                + old(data)@.subrange(dst_off + len, old(data)@.len() as int),
        decreases k,
    {
        k -= 1;
        let b = data[src_off + k];
        proof {
            assert(data@[src_off + k] == old(data)@[src_off + k]);
        }
        data.set(dst_off + k, b);
        proof {
            assert(data@ =~= old(data)@.subrange(0, dst_off + k)
                + old(data)@.subrange(src_off + k, src_off + len)
                + old(data)@.subrange(dst_off + len, old(data)@.len() as int));
        }
    }
    proof {
        assert(data@ =~= old(data)@.subrange(0, dst_off as int)
            + old(data)@.subrange(src_off as int, src_off + len)
            + old(data)@.subrange(dst_off + len, old(data)@.len() as int));
    }
}

/// Append `n` zero bytes to `data`.
pub fn extend_zeros(data: &mut Vec<u8>, n: usize)
    ensures
        final(data)@ == old(data)@ + Seq::<u8>::new(n as nat, |i: int| 0u8),
{
    let mut k: usize = 0;
    while k < n
        invariant
            k <= n,
            data@ == old(data)@ + Seq::<u8>::new(k as nat, |i: int| 0u8),
        decreases n - k,
    {
        data.push(0u8);
        proof {
            assert(data@ =~= old(data)@ + Seq::<u8>::new((k + 1) as nat, |i: int| 0u8));
        }
        k += 1;
    }
}

} // verus!
