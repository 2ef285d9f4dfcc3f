//! Properties of header validation and of the iteration strategies, stated
//! over the step functions that the decoder's methods are specified by.
use vstd::prelude::*;
use crate::decoder::{header_error, header_shape, IDXDecoder, IDXError};
use crate::types::{be_nat4, Type};

verus! {

/// The four big-endian bytes of `v`.
pub open spec fn be_bytes4(v: u32) -> Seq<u8> {
    seq![
        (v / 0x1000000) as u8,
        ((v / 0x10000) % 0x100) as u8,
        ((v / 0x100) % 0x100) as u8,
        (v % 0x100) as u8,
    ]
}

/// The dimension sizes `vals`, each as four big-endian bytes.
pub open spec fn dims_bytes(vals: Seq<u32>) -> Seq<u8>
    decreases vals.len(),
{
    if vals.len() == 0 {
        Seq::empty()
    } else {
        dims_bytes(vals.drop_last()) + be_bytes4(vals.last())
    }
}

/// A header for element type `tag` and dimension sizes `vals`.
pub open spec fn header_bytes(tag: u8, vals: Seq<u32>) -> Seq<u8> {
    seq![0u8, 0u8, tag, vals.len() as u8] + dims_bytes(vals)
}

proof fn lemma_be_bytes4(v: u32)
    ensures
        be_nat4(be_bytes4(v)) == v,
{
    let b = be_bytes4(v);
    assert(b[0] == v / 0x1000000);
    assert(b[1] == (v / 0x10000) % 0x100);
    assert(b[2] == (v / 0x100) % 0x100);
    assert(b[3] == v % 0x100);
    assert(v == (v / 0x1000000) * 0x1000000 + ((v / 0x10000) % 0x100) * 0x10000 + ((v / 0x100)
        % 0x100) * 0x100 + v % 0x100) by (nonlinear_arith);
}

proof fn lemma_dims_bytes(vals: Seq<u32>)
    ensures
        dims_bytes(vals).len() == 4 * vals.len(),
        forall|i: int|
            0 <= i < vals.len() ==> #[trigger] dims_bytes(vals).subrange(4 * i, 4 * i + 4)
                == be_bytes4(vals[i]),
    decreases vals.len(),
{
    if vals.len() > 0 {
        let init = vals.drop_last();
        lemma_dims_bytes(init);
        let all = dims_bytes(vals);
        assert forall|i: int| 0 <= i < vals.len() implies #[trigger] all.subrange(4 * i, 4 * i + 4)
            == be_bytes4(vals[i]) by {
            if i < init.len() {
                assert(all.subrange(4 * i, 4 * i + 4) =~= dims_bytes(init).subrange(4 * i, 4 * i + 4));
            } else {
                assert(all.subrange(4 * i, 4 * i + 4) =~= be_bytes4(vals.last()));
            }
        }
    }
}

/// A header written for element type `tag` and dimension sizes `vals`, and
/// followed by any payload, passes validation; the shape read from it is
/// `vals`, and the payload is what is left to decode.
pub proof fn lemma_shape_round_trip(tag: u8, vals: Seq<u32>, payload: Seq<u8>)
    requires
        1 <= vals.len() <= 255,
    ensures
        header_error(header_bytes(tag, vals) + payload, tag, vals.len() as u8) is None,
        header_shape(header_bytes(tag, vals) + payload, vals.len()) == vals,
        (header_bytes(tag, vals) + payload).skip(4 + 4 * vals.len() as int) == payload,
{
    let bytes = header_bytes(tag, vals) + payload;
    let d = dims_bytes(vals);
    lemma_dims_bytes(vals);
    assert forall|i: int| 0 <= i < vals.len() implies #[trigger] header_shape(bytes, vals.len())[i]
        == vals[i] by {
        assert(bytes.subrange(4 + 4 * i, 8 + 4 * i) =~= d.subrange(4 * i, 4 * i + 4));
        lemma_be_bytes4(vals[i]);
    }
    assert(header_shape(bytes, vals.len()) =~= vals);
    assert(bytes.skip(4 + 4 * vals.len() as int) =~= payload);
}

/// A header whose first two bytes are not both zero is refused as
/// `WrongMagic`, whatever follows.
pub proof fn lemma_wrong_magic(bytes: Seq<u8>, tag: u8, dims: u8)
    requires
        bytes.len() >= 4,
        bytes[0] != 0 || bytes[1] != 0,
    ensures
        header_error(bytes, tag, dims) == Some(IDXError::WrongMagic),
{
}

/// A header with a valid magic whose type tag differs from the expected one
/// is refused as `WrongType(expected, found)`, whatever follows.
pub proof fn lemma_wrong_type(bytes: Seq<u8>, tag: u8, dims: u8)
    requires
        bytes.len() >= 4,
        bytes[0] == 0 && bytes[1] == 0,
        bytes[2] != tag,
    ensures
        header_error(bytes, tag, dims) == Some(IDXError::WrongType(tag, bytes[2])),
{
}

/// A header with a valid magic and type tag whose dimensionality differs
/// from the expected one is refused as `WrongDimensions(expected, found)`,
/// whatever follows.
pub proof fn lemma_wrong_dimensions(bytes: Seq<u8>, tag: u8, dims: u8)
    requires
        bytes.len() >= 4,
        bytes[0] == 0 && bytes[1] == 0,
        bytes[2] == tag,
        bytes[3] != dims,
    ensures
        header_error(bytes, tag, dims) == Some(IDXError::WrongDimensions(dims, bytes[3])),
{
}

impl<T: Type> IDXDecoder<T> {
    /// What `k` successive calls of `next` return, from `count` items left
    /// over the bytes `rest`.
    pub open spec fn scalar_run(count: nat, rest: Seq<u8>, k: nat) -> Seq<Option<T::TypeValue>>
        decreases k,
    {
        if k == 0 {
            Seq::empty()
        } else {
            let (out, left, after) = Self::scalar_step(count, rest);
            seq![out] + Self::scalar_run(left, after, (k - 1) as nat)
        }
    }

    /// Once no item is left, every further call of `next` returns `None`.
    pub proof fn lemma_exhausted(rest: Seq<u8>, k: nat)
        ensures
            Self::scalar_run(0, rest, k).len() == k,
            forall|i: int| 0 <= i < k ==> Self::scalar_run(0, rest, k)[i] == None::<T::TypeValue>,
        decreases k,
    {
        if k > 0 {
            Self::lemma_exhausted(rest, (k - 1) as nat);
            assert forall|i: int| 0 <= i < k implies Self::scalar_run(0, rest, k)[i] == None::<T::TypeValue> by {
                if i > 0 {
                    assert(Self::scalar_run(0, rest, k)[i] == Self::scalar_run(
                        0,
                        rest,
                        (k - 1) as nat,
                    )[i - 1]);
                }
            }
        }
    }

    /// With `count` items left and the bytes of `count` elements present,
    /// the first `count` calls of `next` return the elements in file order,
    /// and every call after them returns `None`.
    pub proof fn lemma_exact_count(count: nat, rest: Seq<u8>, extra: nat)
        requires
            count * Self::elem_width() <= rest.len(),
        ensures
            Self::scalar_run(count, rest, count + extra).len() == count + extra,
            forall|i: int|
                0 <= i < count ==> Self::scalar_run(count, rest, count + extra)[i] == Some(
                    Self::elem_at(rest, i),
                ),
            forall|i: int|
                count <= i < count + extra ==> #[trigger] Self::scalar_run(count, rest, count + extra)[i] == None::<T::TypeValue>,
        decreases count,
    {
        let w = Self::elem_width();
        if count == 0 {
            Self::lemma_exhausted(rest, extra);
        } else {
            let after = rest.skip(w as int);
            let k = (count + extra) as nat;
            assert(w <= rest.len()) by (nonlinear_arith)
                requires
                    count * w <= rest.len(),
                    count >= 1,
            ;
            assert((count - 1) * w <= after.len()) by (nonlinear_arith)
                requires
                    count * w <= rest.len(),
                    after.len() == rest.len() - w,
            ;
            Self::lemma_exact_count((count - 1) as nat, after, extra);
            let run = Self::scalar_run(count, rest, k);
            let tail = Self::scalar_run((count - 1) as nat, after, (k - 1) as nat);
            assert(run == seq![Some(Self::elem_at(rest, 0))] + tail);
            assert forall|i: int| 1 <= i < count implies run[i] == Some(Self::elem_at(rest, i)) by {
                assert(run[i] == tail[i - 1]);
                assert((i - 1) * w + w == i * w) by (nonlinear_arith);
                assert(i * w + w == (i + 1) * w) by (nonlinear_arith);
                assert(i * w + w <= count * w) by (nonlinear_arith)
                    requires
                        i < count,
                ;
                assert(tail[i - 1] == Some(Self::elem_at(after, i - 1)));
                assert(after.subrange((i - 1) * w, i * w) =~= rest.subrange(i * w, (i + 1) * w));
                assert(Self::elem_at(after, i - 1) == Self::elem(after.subrange((i - 1) * w, i * w)));
            }
            assert forall|i: int| count <= i < count + extra implies run[i] == None::<T::TypeValue> by {
                assert(run[i] == tail[i - 1]);
            }
        }
    }

    /// A row is produced whole or not at all: a produced row holds exactly
    /// `len` elements and uses up their bytes, and when none is produced no
    /// byte is used.
    pub proof fn lemma_row_atomic(count: nat, len: nat, rest: Seq<u8>)
        ensures
            match Self::row_step(count, len, rest).0 {
                Some(row) => {
                    &&& row.len() == len
                    &&& rest == rest.subrange(0, (len * Self::elem_width()) as int) + Self::row_step(
                        count,
                        len,
                        rest,
                    ).2
                },
                None => Self::row_step(count, len, rest).2 == rest,
            },
    {
        let w = Self::elem_width();
        if count > 0 && len * w <= rest.len() {
            assert(rest =~= rest.subrange(0, (len * w) as int) + rest.skip((len * w) as int));
        }
    }
}

} // verus!
