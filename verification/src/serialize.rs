//! Byte serialization helpers shared by the protocols around the curve
//! library: a `Buffer` abstraction over growable byte sinks, the `Serial`
//! trait for types with a canonical big-endian byte form, and the
//! convenience functions built on them.

use vstd::prelude::*;
use vstd::string::StringSliceAdditionalSpecFns;
use vstd::std_specs::iter::IteratorSpec;

verus! {

/// Upper bound on the number of elements that `safe_with_capacity`
/// preallocates room for.
pub const MAX_PREALLOCATED_CAPACITY: usize = 4096;

/// As `Vec::with_capacity`, but never preallocates room for more than
/// `MAX_PREALLOCATED_CAPACITY` elements, so that untrusted length prefixes
/// cannot force a huge allocation.
pub fn safe_with_capacity<T>(capacity: usize) -> (r: Vec<T>)
    ensures
        r@ == Seq::<T>::empty(),
{
    if capacity < MAX_PREALLOCATED_CAPACITY {
        Vec::with_capacity(capacity)
    } else {
        Vec::with_capacity(MAX_PREALLOCATED_CAPACITY)
    }
}

/// A byte sink that cannot fail: everything written is appended to
/// `bytes()`. `Result` is what the sink hands back when writing is done.
pub trait Buffer: Sized {
    type Result;

    /// The bytes written so far.
    spec fn bytes(&self) -> Seq<u8>;

    /// An empty sink.
    fn start() -> (r: Self)
        ensures
            r.bytes() == Seq::<u8>::empty(),
    ;

    /// An empty sink with a size hint; the hint changes nothing observable.
    fn start_hint(l: usize) -> (r: Self)
        ensures
            r.bytes() == Seq::<u8>::empty(),
    ;

    /// Append all of `buf`.
    fn write_all(&mut self, buf: &[u8])
        ensures
            final(self).bytes() == old(self).bytes() + buf@,
    ;

    /// Hand back the collected result.
    fn result(self) -> Self::Result;
}

impl Buffer for Vec<u8> {
    type Result = Vec<u8>;

    open spec fn bytes(&self) -> Seq<u8> {
        self@
    }

    fn start() -> (r: Self) {
        Vec::new()
    }

    fn start_hint(l: usize) -> (r: Self) {
        Vec::with_capacity(l)
    }

    fn write_all(&mut self, buf: &[u8]) {
        self.extend_from_slice(buf);
    }

    fn result(self) -> Self::Result {
        self
    }
}

/// A type with a canonical byte serialization. `spec_serial` is the
/// mathematical byte string; `serial` appends exactly those bytes.
pub trait Serial {
    /// The canonical bytes of this value.
    spec fn spec_serial(&self) -> Seq<u8>;

    /// Append the canonical bytes of `self` to `out`.
    fn serial<B: Buffer>(&self, out: &mut B)
        ensures
            final(out).bytes() == old(out).bytes() + self.spec_serial(),
    ;
}

/// Big-endian bytes of a `u16`.
pub open spec fn spec_u16_be(x: u16) -> Seq<u8> {
    seq![(x >> 8) as u8, x as u8]
}

/// Big-endian bytes of a `u32`.
pub open spec fn spec_u32_be(x: u32) -> Seq<u8> {
    seq![(x >> 24) as u8, (x >> 16) as u8, (x >> 8) as u8, x as u8]
}

/// Big-endian bytes of a `u64`.
pub open spec fn spec_u64_be(x: u64) -> Seq<u8> {
    seq![
        (x >> 56) as u8,
        (x >> 48) as u8,
        (x >> 40) as u8,
        (x >> 32) as u8,
        (x >> 24) as u8,
        (x >> 16) as u8,
        (x >> 8) as u8,
        x as u8,
    ]
}

impl Serial for u8 {
    open spec fn spec_serial(&self) -> Seq<u8> {
        seq![*self]
    }

    fn serial<B: Buffer>(&self, out: &mut B) {
        let b: [u8; 1] = [*self];
        out.write_all(b.as_slice());
        proof {
            assert(b@ =~= self.spec_serial());
        }
    }
}

impl Serial for u16 {
    open spec fn spec_serial(&self) -> Seq<u8> {
        spec_u16_be(*self)
    }

    fn serial<B: Buffer>(&self, out: &mut B) {
        let x = *self;
        let b: [u8; 2] = [(x >> 8) as u8, x as u8];
        out.write_all(b.as_slice());
        proof {
            assert(b@ =~= self.spec_serial());
        }
    }
}

impl Serial for u32 {
    open spec fn spec_serial(&self) -> Seq<u8> {
        spec_u32_be(*self)
    }

    fn serial<B: Buffer>(&self, out: &mut B) {
        let x = *self;
        let b: [u8; 4] = [(x >> 24) as u8, (x >> 16) as u8, (x >> 8) as u8, x as u8];
        out.write_all(b.as_slice());
        proof {
            assert(b@ =~= self.spec_serial());
        }
    }
}

impl Serial for u64 {
    open spec fn spec_serial(&self) -> Seq<u8> {
        spec_u64_be(*self)
    }

    fn serial<B: Buffer>(&self, out: &mut B) {
        let x = *self;
        let b: [u8; 8] = [
            (x >> 56) as u8,
            (x >> 48) as u8,
            (x >> 40) as u8,
            (x >> 32) as u8,
            (x >> 24) as u8,
            (x >> 16) as u8,
            (x >> 8) as u8,
            x as u8,
        ];
        out.write_all(b.as_slice());
        proof {
            assert(b@ =~= self.spec_serial());
        }
    }
}

/// The canonical bytes of a sequence of values, in order.
pub open spec fn spec_serial_seq<T: Serial>(s: Seq<T>) -> Seq<u8>
    decreases s.len(),
{
    if s.len() == 0 {
        Seq::<u8>::empty()
    } else {
        s[0].spec_serial() + spec_serial_seq(s.drop_first())
    }
}

proof fn lemma_spec_serial_seq_take_step<T: Serial>(s: Seq<T>, i: int)
    requires
        0 <= i < s.len(),
    ensures
        spec_serial_seq(s.take(i + 1)) == spec_serial_seq(s.take(i)) + s[i].spec_serial(),
    decreases i,
{
    if i == 0 {
        assert(s.take(1) =~= seq![s[0]]);
        assert(s.take(1).drop_first() =~= Seq::<T>::empty());
        assert(s.take(0) =~= Seq::<T>::empty());
        assert(spec_serial_seq(Seq::<T>::empty()) == Seq::<u8>::empty());
        assert(s.take(1)[0] == s[0]);
        assert(spec_serial_seq(s.take(1)) == s[0].spec_serial() + spec_serial_seq(
            s.take(1).drop_first(),
        ));
        assert(spec_serial_seq(s.take(1)) =~= s[0].spec_serial());
    } else {
        lemma_spec_serial_seq_take_step(s.drop_first(), i - 1);
        assert(s.take(i + 1).drop_first() =~= s.drop_first().take(i));
        assert(s.take(i).drop_first() =~= s.drop_first().take(i - 1));
        assert(s.take(i + 1)[0] == s[0]);
        assert(s.take(i)[0] == s[0]);
        assert(s.drop_first()[i - 1] == s[i]);
        assert(spec_serial_seq(s.take(i + 1)) == s[0].spec_serial() + spec_serial_seq(
            s.drop_first().take(i),
        ));
        assert(spec_serial_seq(s.take(i)) == s[0].spec_serial() + spec_serial_seq(
            s.drop_first().take(i - 1),
        ));
        assert(spec_serial_seq(s.take(i)) + s[i].spec_serial() == s[0].spec_serial() + (
        spec_serial_seq(s.drop_first().take(i - 1)) + s[i].spec_serial()));
    }
}

/// Serialize every element of the slice, in order.
pub fn serial_iter<B: Buffer, T: Serial>(xs: &[T], out: &mut B)
    ensures
        final(out).bytes() == old(out).bytes() + spec_serial_seq(xs@),
{
    let ghost base = out.bytes();
    let n = xs.len();
    let mut i: usize = 0;
    while i < n
        invariant
            0 <= i <= n,
            n == xs@.len(),
            out.bytes() == base + spec_serial_seq(xs@.take(i as int)),
        decreases n - i,
    {
        let ghost pre = out.bytes();
        xs[i].serial(out);
        proof {
            lemma_spec_serial_seq_take_step(xs@, i as int);
            assert(out.bytes() =~= base + spec_serial_seq(xs@.take(i + 1)));
        }
        i = i + 1;
    }
    proof {
        assert(xs@.take(n as int) =~= xs@);
        assert(final(out).bytes() =~= old(out).bytes() + spec_serial_seq(xs@));
    }
}

/// Write a slice's elements without any length prefix.
pub fn serial_vector_no_length<B: Buffer, T: Serial>(xs: &[T], out: &mut B)
    ensures
        final(out).bytes() == old(out).bytes() + spec_serial_seq(xs@),
{
    serial_iter(xs, out)
}

impl<T: Serial> Serial for Vec<T> {
    /// An eight-byte big-endian length prefix, then the elements in order.
    open spec fn spec_serial(&self) -> Seq<u8> {
        spec_u64_be(self@.len() as u64) + spec_serial_seq(self@)
    }

    fn serial<B: Buffer>(&self, out: &mut B) {
        let len: u64 = self.len() as u64;
        len.serial(out);
        serial_vector_no_length(self.as_slice(), out);
    }
}

/// Write the raw bytes of a string, with no length prefix.
pub fn serial_string<B: Buffer>(s: &str, out: &mut B)
    ensures
        final(out).bytes() == old(out).bytes() + s.spec_bytes(),
{
    out.write_all(s.as_bytes());
}

/// The canonical bytes of a sequence of key-value pairs: each key
/// followed by its value, in order.
pub open spec fn spec_serial_pairs<K: Serial, V: Serial>(s: Seq<(&K, &V)>) -> Seq<u8>
    decreases s.len(),
{
    if s.len() == 0 {
        Seq::<u8>::empty()
    } else {
        s[0].0.spec_serial() + s[0].1.spec_serial() + spec_serial_pairs(s.drop_first())
    }
}

/// The canonical bytes of a sequence of borrowed keys, in order.
pub open spec fn spec_serial_keys<K: Serial>(s: Seq<&K>) -> Seq<u8>
    decreases s.len(),
{
    if s.len() == 0 {
        Seq::<u8>::empty()
    } else {
        s[0].spec_serial() + spec_serial_keys(s.drop_first())
    }
}

proof fn lemma_spec_serial_pairs_take_step<K: Serial, V: Serial>(s: Seq<(&K, &V)>, i: int)
    requires
        0 <= i < s.len(),
    ensures
        spec_serial_pairs(s.take(i + 1)) == spec_serial_pairs(s.take(i)) + s[i].0.spec_serial()
            + s[i].1.spec_serial(),
    decreases i,
{
    if i == 0 {
        assert(s.take(1).drop_first() =~= Seq::<(&K, &V)>::empty());
        assert(s.take(0) =~= Seq::<(&K, &V)>::empty());
        assert(spec_serial_pairs(Seq::<(&K, &V)>::empty()) == Seq::<u8>::empty());
        assert(s.take(1)[0] == s[0]);
        assert(spec_serial_pairs(s.take(1)) =~= s[0].0.spec_serial() + s[0].1.spec_serial());
        assert(spec_serial_pairs(s.take(0)) + s[0].0.spec_serial() + s[0].1.spec_serial() =~= s[0].0.spec_serial()
            + s[0].1.spec_serial());
    } else {
        lemma_spec_serial_pairs_take_step(s.drop_first(), i - 1);
        assert(s.take(i + 1).drop_first() =~= s.drop_first().take(i));
        assert(s.take(i).drop_first() =~= s.drop_first().take(i - 1));
        assert(s.take(i + 1)[0] == s[0]);
        assert(s.take(i)[0] == s[0]);
        assert(s.drop_first()[i - 1] == s[i]);
        assert(spec_serial_pairs(s.take(i + 1)) =~= spec_serial_pairs(s.take(i))
            + s[i].0.spec_serial() + s[i].1.spec_serial());
    }
}

proof fn lemma_spec_serial_keys_take_step<K: Serial>(s: Seq<&K>, i: int)
    requires
        0 <= i < s.len(),
    ensures
        spec_serial_keys(s.take(i + 1)) == spec_serial_keys(s.take(i)) + s[i].spec_serial(),
    decreases i,
{
    if i == 0 {
        assert(s.take(1).drop_first() =~= Seq::<&K>::empty());
        assert(s.take(0) =~= Seq::<&K>::empty());
        assert(spec_serial_keys(Seq::<&K>::empty()) == Seq::<u8>::empty());
        assert(s.take(1)[0] == s[0]);
        assert(spec_serial_keys(s.take(1)) =~= s[0].spec_serial());
    } else {
        lemma_spec_serial_keys_take_step(s.drop_first(), i - 1);
        assert(s.take(i + 1).drop_first() =~= s.drop_first().take(i));
        assert(s.take(i).drop_first() =~= s.drop_first().take(i - 1));
        assert(s.take(i + 1)[0] == s[0]);
        assert(s.take(i)[0] == s[0]);
        assert(s.drop_first()[i - 1] == s[i]);
        assert(spec_serial_keys(s.take(i + 1)) =~= spec_serial_keys(s.take(i))
            + s[i].spec_serial());
    }
}

/// Write an ordered map's pairs without any length prefix: each key,
/// then its value, keys in increasing order. The contract is meaningful
/// for key types whose comparison obeys its specification, as the
/// standard map's own contracts are.
pub fn serial_map_no_length<B: Buffer, K: Serial, V: Serial>(
    map: &std::collections::BTreeMap<K, V>,
    out: &mut B,
)
    requires
        vstd::std_specs::btree::key_obeys_cmp_spec::<K>(),
    ensures
        exists|kvs: Seq<(&K, &V)>|
            {
                &&& kvs.no_duplicates()
                &&& kvs.len() == map@.dom().len()
                &&& kvs.unref().to_set() == map@.kv_pairs()
                &&& vstd::std_specs::btree::increasing_seq(kvs.map_values(|kv: (&K, &V)| *kv.0))
                &&& final(out).bytes() == old(out).bytes() + spec_serial_pairs(kvs)
            },
{
    broadcast use vstd::std_specs::btree::group_btree_axioms;

    let ghost base = out.bytes();
    let ghost kvs = vstd::std_specs::btree::spec_btree_map_iter(map).remaining();
    for kv in it: map.iter()
        invariant
            kvs == it.seq(),
            out.bytes() == base + spec_serial_pairs(kvs.take(it.index() as int)),
    {
        proof {
            lemma_spec_serial_pairs_take_step(kvs, it.index() as int);
        }
        kv.0.serial(out);
        kv.1.serial(out);
        proof {
            assert(out.bytes() =~= base + spec_serial_pairs(kvs.take(it.index() + 1)));
        }
    }
    proof {
        assert(kvs.take(kvs.len() as int) =~= kvs);
        assert(out.bytes() == base + spec_serial_pairs(kvs.take(kvs.len() as int)));
        assert({
            &&& kvs.no_duplicates()
            &&& kvs.len() == map@.dom().len()
            &&& kvs.unref().to_set() == map@.kv_pairs()
            &&& vstd::std_specs::btree::increasing_seq(kvs.map_values(|kv: (&K, &V)| *kv.0))
            &&& out.bytes() == old(out).bytes() + spec_serial_pairs(kvs)
        });
    }
}

/// Write an ordered set's keys without any length prefix, in increasing
/// order. The contract is meaningful for key types whose comparison
/// obeys its specification.
pub fn serial_set_no_length<B: Buffer, K: Serial>(map: &std::collections::BTreeSet<K>, out: &mut B)
    requires
        vstd::std_specs::btree::key_obeys_cmp_spec::<K>(),
    ensures
        exists|ks: Seq<&K>|
            {
                &&& ks.no_duplicates()
                &&& ks.len() == map@.len()
                &&& ks.unref().to_set() == map@
                &&& vstd::std_specs::btree::increasing_seq(ks)
                &&& final(out).bytes() == old(out).bytes() + spec_serial_keys(ks)
            },
{
    broadcast use vstd::std_specs::btree::group_btree_axioms;

    let ghost base = out.bytes();
    let ghost ks = vstd::std_specs::btree::spec_btree_keys_iter(map).remaining();
    for k in it: map.iter()
        invariant
            ks == it.seq(),
            out.bytes() == base + spec_serial_keys(ks.take(it.index() as int)),
    {
        proof {
            lemma_spec_serial_keys_take_step(ks, it.index() as int);
        }
        k.serial(out);
        proof {
            assert(out.bytes() =~= base + spec_serial_keys(ks.take(it.index() + 1)));
        }
    }
    proof {
        assert(ks.take(ks.len() as int) =~= ks);
        assert(out.bytes() == base + spec_serial_keys(ks.take(ks.len() as int)));
        assert({
            &&& ks.no_duplicates()
            &&& ks.len() == map@.len()
            &&& ks.unref().to_set() == map@
            &&& vstd::std_specs::btree::increasing_seq(ks)
            &&& out.bytes() == old(out).bytes() + spec_serial_keys(ks)
        });
    }
}

/// A sink already holding a `Serial` value's bytes: `put` is `serial` seen
/// from the buffer's side.
pub trait Put<A: Serial>: Buffer {
    fn put(&mut self, v: &A)
        ensures
            final(self).bytes() == old(self).bytes() + v.spec_serial(),
    ;
}

impl<R: Buffer, A: Serial> Put<A> for R {
    fn put(&mut self, v: &A) {
        v.serial(self)
    }
}

/// Marker for types that take part in the canonical serialization.
pub trait Serialize: Serial {

}

impl<A: Serial> Serialize for A {

}

/// Directly serialize a value to a vector of bytes.
pub fn to_bytes<A: Serial>(x: &A) -> (r: Vec<u8>)
    ensures
        r@ == x.spec_serial(),
{
    let mut buf: Vec<u8> = Vec::new();
    buf.put(x);
    buf
}

} // verus!
