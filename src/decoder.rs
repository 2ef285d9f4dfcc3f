//! The typed IDX decoder: header validation, shape, and the scalar and row
//! iteration strategies.
use vstd::prelude::*;
use core::marker::PhantomData;
use crate::types::{be_nat4, BEReadable, Type};

verus! {

/// Why a header was refused.
#[derive(Debug, PartialEq, Eq, Structural)]
pub enum IDXError {
    /// The first two bytes are not both zero.
    WrongMagic,
    /// The type tag differs: (expected, found).
    WrongType(u8, u8),
    /// The dimensionality differs: (expected, found).
    WrongDimensions(u8, u8),
    /// The input ended inside the header or the dimension sizes.
    IOError,
}

/// The error that construction reports for `bytes` with the expected type tag
/// and dimensionality, or `None` when `bytes` starts with a valid header.
pub open spec fn header_error(bytes: Seq<u8>, tag: u8, dims: u8) -> Option<IDXError> {
    if bytes.len() < 4 {
        Some(IDXError::IOError)
    } else if bytes[0] != 0 || bytes[1] != 0 {
        Some(IDXError::WrongMagic)
    } else if bytes[2] != tag {
        Some(IDXError::WrongType(tag, bytes[2]))
    } else if bytes[3] != dims {
        Some(IDXError::WrongDimensions(dims, bytes[3]))
    } else if bytes.len() < 4 + 4 * dims {
        Some(IDXError::IOError)
    } else {
        None
    }
}

/// The `dims` big-endian dimension sizes that follow the four header bytes.
pub open spec fn header_shape(bytes: Seq<u8>, dims: nat) -> Seq<u32> {
    Seq::new(dims, |i: int| be_nat4(bytes.subrange(4 + 4 * i, 8 + 4 * i)) as u32)
}

/// A one-pass decoder over the bytes of an IDX file whose elements are of
/// type `T`.
pub struct IDXDecoder<T: Type> {
    reader: Vec<u8>,
    pos: usize,
    output_type: PhantomData<T>,
    dimensions: Vec<u32>,
}

impl<T: Type> IDXDecoder<T> {
    /// The read position lies within the input.
    pub closed spec fn wf(&self) -> bool {
        self.pos <= self.reader@.len() <= usize::MAX
    }

    /// The shape; its first entry counts the items left.
    pub closed spec fn shape(&self) -> Seq<u32> {
        self.dimensions@
    }

    /// The bytes not consumed yet.
    pub closed spec fn rest(&self) -> Seq<u8> {
        self.reader@.subrange(self.pos as int, self.reader@.len() as int)
    }

    /// Bytes per element.
    pub open spec fn elem_width() -> nat {
        <T::TypeValue as BEReadable>::spec_width()
    }

    /// The element that starts the byte sequence `b`.
    pub open spec fn elem(b: Seq<u8>) -> T::TypeValue {
        <T::TypeValue as BEReadable>::spec_from_be(b)
    }

    /// The `i`-th element of `b`.
    pub open spec fn elem_at(b: Seq<u8>, i: int) -> T::TypeValue {
        Self::elem(b.subrange(i * Self::elem_width(), (i + 1) * Self::elem_width()))
    }

    /// One scalar step from `count` items left over the bytes `rest`:
    /// (item produced, items left after, bytes left after).
    pub open spec fn scalar_step(count: nat, rest: Seq<u8>) -> (Option<T::TypeValue>, nat, Seq<u8>) {
        if count == 0 {
            (None, 0, rest)
        } else if Self::elem_width() <= rest.len() {
            (Some(Self::elem_at(rest, 0)), (count - 1) as nat, rest.skip(Self::elem_width() as int))
        } else {
            (None, (count - 1) as nat, rest)
        }
    }

    /// The first `n` elements of `b`.
    pub open spec fn elems(b: Seq<u8>, n: nat) -> Seq<T::TypeValue> {
        Seq::new(n, |i: int| Self::elem_at(b, i))
    }

    /// One row step from `count` rows left, rows of `len` elements, over the
    /// bytes `rest`: (row produced, rows left after, bytes left after).
    pub open spec fn row_step(count: nat, len: nat, rest: Seq<u8>) -> (
        Option<Seq<T::TypeValue>>,
        nat,
        Seq<u8>,
    ) {
        if count == 0 {
            (None, 0, rest)
        } else if len * Self::elem_width() <= rest.len() {
            (
                Some(Self::elems(rest, len)),
                (count - 1) as nat,
                rest.skip((len * Self::elem_width()) as int),
            )
        } else {
            (None, (count - 1) as nat, rest)
        }
    }

    /// Reads and checks the header and the dimension sizes.
    pub fn new(reader: Vec<u8>, dims: u8) -> (r: Result<Self, IDXError>)
        ensures
            match r {
                Ok(d) => {
                    &&& header_error(reader@, T::spec_value(), dims) is None
                    &&& d.wf()
                    &&& d.shape() == header_shape(reader@, dims as nat)
                    &&& d.rest() == reader@.skip(4 + 4 * dims)
                },
                Err(e) => header_error(reader@, T::spec_value(), dims) == Some(e),
            },
    {
        let tag = T::value();
        if reader.len() < 4 {
            return Err(IDXError::IOError);
        }
        if reader[0] != 0 || reader[1] != 0 {
            return Err(IDXError::WrongMagic);
        }
        if reader[2] != tag {
            return Err(IDXError::WrongType(tag, reader[2]));
        }
        if reader[3] != dims {
            return Err(IDXError::WrongDimensions(dims, reader[3]));
        }
        let mut dimensions: Vec<u32> = Vec::new();
        let mut pos: usize = 4;
        let mut i: u8 = 0;
        while i < dims
            invariant
                i <= dims,
                tag == T::spec_value(),
                reader@[0] == 0 && reader@[1] == 0 && reader@[2] == tag && reader@[3] == dims,
                pos == 4 + 4 * i,
                pos <= reader@.len(),
                dimensions@.len() == i,
                forall|j: int| 0 <= j < i ==> dimensions@[j] == #[trigger] header_shape(reader@, dims as nat)[j],
            decreases dims - i,
        {
            match u32::read_self(reader.as_slice(), pos) {
                Some(v) => {
                    dimensions.push(v);
                    pos = pos + 4;
                },
                None => {
                    return Err(IDXError::IOError);
                },
            }
            i = i + 1;
        }
        assert(dimensions@ =~= header_shape(reader@, dims as nat));
        Ok(IDXDecoder { reader, pos, output_type: PhantomData, dimensions })
    }

    /// The shape; its first entry counts the items left.
    pub fn dimensions(&self) -> (r: Vec<u32>)
        ensures
            r@ == self.shape(),
    {
        self.dimensions.clone()
    }

    /// Next element of a one-dimensional file. Once the count is used up,
    /// and also when the input ends inside an element, the result is `None`.
    pub fn next(&mut self) -> (r: Option<T::TypeValue>)
        requires
            old(self).wf(),
            old(self).shape().len() == 1,
        ensures
            final(self).wf(),
            final(self).shape() == old(self).shape().update(0, final(self).shape()[0]),
            (r, final(self).shape()[0] as nat, final(self).rest()) == Self::scalar_step(
                old(self).shape()[0] as nat,
                old(self).rest(),
            ),
    {
        let count = self.dimensions[0];
        if count == 0 {
            assert(self.dimensions@ =~= self.dimensions@.update(0, 0));
            return None;
        }
        self.dimensions.set(0, count - 1);
        let w = T::TypeValue::width();
        let r = T::TypeValue::read_self(self.reader.as_slice(), self.pos);
        if r.is_some() {
            proof {
                let rest = old(self).rest();
                assert(rest.subrange(0, w as int) =~= self.reader@.subrange(
                    self.pos as int,
                    self.pos + w,
                ));
            }
            self.pos = self.pos + w;
            assert(self.rest() =~= old(self).rest().skip(w as int));
        }
        r
    }

    /// Next row of a three-dimensional file: `shape()[1] * shape()[2]`
    /// elements in file order, never fewer. Once the count is used up, and
    /// also when the input ends inside the row, the result is `None`.
    pub fn next_row(&mut self) -> (r: Option<Vec<T::TypeValue>>)
        requires
            old(self).wf(),
            old(self).shape().len() == 3,
        ensures
            final(self).wf(),
            final(self).shape() == old(self).shape().update(0, final(self).shape()[0]),
            (
                match r {
                    Some(v) => Some(v@),
                    None => None,
                },
                final(self).shape()[0] as nat,
                final(self).rest(),
            ) == Self::row_step(
                old(self).shape()[0] as nat,
                old(self).shape()[1] as nat * old(self).shape()[2] as nat,
                old(self).rest(),
            ),
    {
        let count = self.dimensions[0];
        if count == 0 {
            assert(self.dimensions@ =~= self.dimensions@.update(0, 0));
            return None;
        }
        self.dimensions.set(0, count - 1);
        let w = T::TypeValue::width();
        let ghost rest = old(self).rest();
        let ghost n = old(self).shape()[1] as nat * old(self).shape()[2] as nat;
        let len = match (self.dimensions[1] as usize).checked_mul(self.dimensions[2] as usize) {
            Some(len) => len,
            None => {
                assert(n * w > rest.len()) by (nonlinear_arith)
                    requires
                        n > usize::MAX,
                        w >= 1,
                        rest.len() <= usize::MAX,
                ;
                return None;
            },
        };
        let start = self.pos;
        let mut row: Vec<T::TypeValue> = Vec::new();
        let mut k: usize = 0;
        while k < len
            invariant
                self.wf(),
                self.reader == old(self).reader,
                old(self).dimensions@.len() == 3,
                count == old(self).dimensions@[0],
                count >= 1,
                n == old(self).shape()[1] as nat * old(self).shape()[2] as nat,
                rest == old(self).rest(),
                self.dimensions@ == old(self).dimensions@.update(0, (count - 1) as u32),
                rest == self.reader@.subrange(start as int, self.reader@.len() as int),
                start <= self.pos,
                w == Self::elem_width(),
                1 <= w <= 8,
                len == n,
                k <= len,
                self.pos == start + k * w,
                row@.len() == k,
                forall|j: int| 0 <= j < k ==> row@[j] == #[trigger] Self::elem_at(rest, j),
            decreases len - k,
        {
            match T::TypeValue::read_self(self.reader.as_slice(), self.pos) {
                Some(v) => {
                    proof {
                        assert((k + 1) * w == k * w + w) by (nonlinear_arith);
                        assert(rest.subrange(k * w, (k + 1) * w) =~= self.reader@.subrange(
                            self.pos as int,
                            self.pos + w,
                        ));
                    }
                    row.push(v);
                    self.pos = self.pos + w;
                    k = k + 1;
                    assert(self.pos == start + k * w) by (nonlinear_arith)
                        requires
                            self.pos == start + (k - 1) * w + w,
                    ;
                },
                None => {
                    assert(n * w > rest.len()) by (nonlinear_arith)
                        requires
                            self.pos + w > start + rest.len(),
                            self.pos == start + k * w,
                            k < n,
                    ;
                    self.pos = start;
                    return None;
                },
            }
        }
        assert(row@ =~= Self::elems(rest, n));
        assert(self.rest() =~= rest.skip((n * w) as int));
        Some(row)
    }

    /// No lower bound; the upper bound is the count of items left.
    pub fn size_hint(&self) -> (r: (usize, Option<usize>))
        requires
            self.shape().len() >= 1,
        ensures
            r == (0usize, Some(self.shape()[0] as usize)),
    {
        (0, Some(self.dimensions[0] as usize))
    }
}

} // verus!
