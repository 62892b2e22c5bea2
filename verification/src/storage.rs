//! Trusted boundary around the outside storage crates.
//!
//! The grid bits live in a `fixedbitset::FixedBitSet`, double-buffered by
//! `dubble::DoubleBuffered`: reads go to the read buffer, writes to the write
//! buffer, and `db_commit` publishes the write buffer as the new read buffer.
//! The two buffers' contents are named by the uninterpreted sequences
//! `read_bits` and `write_bits` (and `bits_of` for a bare bit set); every
//! wrapper states over those names what the crates' sources show.

use vstd::prelude::*;
use dubble::DoubleBuffered;
use fixedbitset::FixedBitSet;

verus! {

#[verifier::external_type_specification]
#[verifier::external_body]
pub struct ExFixedBitSet(FixedBitSet);

#[verifier::external_type_specification]
#[verifier::external_body]
#[verifier::reject_recursive_types(T)]
pub struct ExDoubleBuffered<T: Clone>(DoubleBuffered<T>);

/// The bits a bare bit set holds, one `bool` per bit.
pub uninterp spec fn bits_of(s: FixedBitSet) -> Seq<bool>;

/// The bits of the read (published) buffer.
pub uninterp spec fn read_bits(b: DoubleBuffered<FixedBitSet>) -> Seq<bool>;

/// The bits of the write (scratch) buffer.
pub uninterp spec fn write_bits(b: DoubleBuffered<FixedBitSet>) -> Seq<bool>;

/// Relies on fixedbitset::FixedBitSet::with_capacity: a fresh set of `bits`
/// bits, all initially clear.
#[verifier::external_body]
pub(crate) fn fbs_with_capacity(bits: usize) -> (r: FixedBitSet)
    ensures
        bits_of(r) == Seq::new(bits as nat, |i: int| false),
{
    FixedBitSet::with_capacity(bits)
}

/// Relies on dubble::DoubleBuffered::new, which clones the value into both
/// buffers, and on fixedbitset's Clone, which keeps every bit and the length.
#[verifier::external_body]
pub(crate) fn db_new(value: FixedBitSet) -> (r: DoubleBuffered<FixedBitSet>)
    ensures
        read_bits(r) == bits_of(value),
        write_bits(r) == bits_of(value),
{
    DoubleBuffered::new(value)
}

/// Relies on fixedbitset::FixedBitSet::len (the bit count) through
/// dubble::DoubleBuffered::read.
#[verifier::external_body]
pub(crate) fn db_len(b: &DoubleBuffered<FixedBitSet>) -> (n: usize)
    ensures
        n == read_bits(*b).len(),
{
    b.read().len()
}

/// Relies on fixedbitset::FixedBitSet::contains through
/// dubble::DoubleBuffered::read; a bit beyond the length reads as clear.
#[verifier::external_body]
pub(crate) fn db_contains(b: &DoubleBuffered<FixedBitSet>, bit: usize) -> (r: bool)
    ensures
        r == (bit < read_bits(*b).len() && read_bits(*b)[bit as int]),
{
    b.read().contains(bit)
}

/// Relies on dubble::DoubleBuffered::read: a borrow of the read buffer.
#[verifier::external_body]
pub(crate) fn db_read(b: &DoubleBuffered<FixedBitSet>) -> (r: &FixedBitSet)
    ensures
        bits_of(*r) == read_bits(*b),
{
    b.read()
}

/// Relies on fixedbitset::FixedBitSet::set through dubble's DerefMut, which
/// reaches the write buffer only; `set` panics out of range, so the bit is
/// required to be within the length.
#[verifier::external_body]
pub(crate) fn db_set(b: &mut DoubleBuffered<FixedBitSet>, bit: usize, enabled: bool)
    requires
        bit < write_bits(*old(b)).len(),
    ensures
        write_bits(*final (b)) == write_bits(*old(b)).update(bit as int, enabled),
        read_bits(*final (b)) == read_bits(*old(b)),
{
    b.set(bit, enabled);
}

/// Relies on fixedbitset::FixedBitSet::insert (enable one bit) through
/// dubble's DerefMut; `insert` panics out of range.
#[verifier::external_body]
pub(crate) fn db_insert(b: &mut DoubleBuffered<FixedBitSet>, bit: usize)
    requires
        bit < write_bits(*old(b)).len(),
    ensures
        write_bits(*final (b)) == write_bits(*old(b)).update(bit as int, true),
        read_bits(*final (b)) == read_bits(*old(b)),
{
    b.insert(bit);
}

/// Relies on fixedbitset::FixedBitSet::toggle (invert one bit) through
/// dubble's DerefMut; `toggle` panics out of range.
#[verifier::external_body]
pub(crate) fn db_toggle(b: &mut DoubleBuffered<FixedBitSet>, bit: usize)
    requires
        bit < write_bits(*old(b)).len(),
    ensures
        write_bits(*final (b)) == write_bits(*old(b)).update(
            bit as int,
            !write_bits(*old(b))[bit as int],
        ),
        read_bits(*final (b)) == read_bits(*old(b)),
{
    b.toggle(bit);
}

/// Relies on fixedbitset::FixedBitSet::clear through dubble's DerefMut: every
/// bit of the write buffer is cleared, its length kept.
#[verifier::external_body]
pub(crate) fn db_clear(b: &mut DoubleBuffered<FixedBitSet>)
    ensures
        write_bits(*final (b)) == Seq::new(write_bits(*old(b)).len(), |i: int| false),
        read_bits(*final (b)) == read_bits(*old(b)),
{
    b.clear();
}

/// Relies on fixedbitset::FixedBitSet::grow through dubble's DerefMut: the
/// write buffer keeps its bits and gains clear bits up to `bits`.
#[verifier::external_body]
pub(crate) fn db_grow(b: &mut DoubleBuffered<FixedBitSet>, bits: usize)
    requires
        write_bits(*old(b)).len() <= bits,
    ensures
        write_bits(*final (b)) == write_bits(*old(b)) + Seq::new(
            (bits - write_bits(*old(b)).len()) as nat,
            |i: int| false,
        ),
        read_bits(*final (b)) == read_bits(*old(b)),
{
    b.grow(bits);
}

/// Relies on dubble::DoubleBuffered::upsert: the value replaces the write
/// buffer and is at once cloned into the read buffer.
#[verifier::external_body]
pub(crate) fn db_upsert(b: &mut DoubleBuffered<FixedBitSet>, value: FixedBitSet)
    ensures
        write_bits(*final (b)) == bits_of(value),
        read_bits(*final (b)) == bits_of(value),
{
    b.upsert(value);
}

/// Relies on dubble::DoubleBuffered::update: the write buffer is cloned into
/// the read buffer and itself kept, so after a commit both buffers agree.
#[verifier::external_body]
pub(crate) fn db_commit(b: &mut DoubleBuffered<FixedBitSet>)
    ensures
        read_bits(*final (b)) == write_bits(*old(b)),
        write_bits(*final (b)) == write_bits(*old(b)),
{
    b.update();
}

/// Relies on rand::random::<bool>: one draw from the host's uniform random
/// source, alive or dead with equal probability; nothing is promised of the
/// value.
#[verifier::external_body]
pub(crate) fn random_cell() -> bool {
    rand::random::<bool>()
}

} // verus!
