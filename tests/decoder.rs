use idx_decoder::types::{F32, F64, I16, I32, I8, U8};
use idx_decoder::{IDXDecoder, IDXError};

#[test]
fn example_1d() {
    const DATA: &[u8] = &[
        // magic, type u8, 1 dim
        0, 0, 8, 1,
        // len as big endian u32
        0, 0, 0, 3,
        // items
        1, 2, 3,
    ];
    let mut decoder = IDXDecoder::<U8>::new(DATA.to_vec(), 1).expect("Decoder creation error");
    assert_eq!(decoder.next(), Some(1));
    assert_eq!(decoder.next(), Some(2));
    assert_eq!(decoder.next(), Some(3));
    assert_eq!(decoder.next(), None);
}

#[test]
fn example_3d() {
    const DATA: &[u8] = &[
        // magic, type u8, 3 dims
        0, 0, 8, 3,
        // lens as big endian u32: 3 matrices of 2x2
        0, 0, 0, 3,
        0, 0, 0, 2,
        0, 0, 0, 2,
        // items
        1, 2, 3, 4,
        5, 6, 7, 8,
        9, 10, 11, 12,
    ];
    let mut decoder = IDXDecoder::<U8>::new(DATA.to_vec(), 3).expect("Decoder creation error");
    assert_eq!(decoder.next_row(), Some(vec![1, 2, 3, 4]));
    assert_eq!(decoder.next_row(), Some(vec![5, 6, 7, 8]));
    assert_eq!(decoder.next_row(), Some(vec![9, 10, 11, 12]));
    assert_eq!(decoder.next_row(), None);
}

#[test]
fn truncated_payload_ends_iteration() {
    let data = vec![0, 0, 8, 1, 0, 0, 0, 3, 1, 2];
    let mut decoder = IDXDecoder::<U8>::new(data, 1).unwrap();
    assert_eq!(decoder.next(), Some(1));
    assert_eq!(decoder.next(), Some(2));
    assert_eq!(decoder.next(), None);
    assert_eq!(decoder.next(), None);
}

#[test]
fn exhaustion_is_idempotent() {
    let data = vec![0, 0, 8, 1, 0, 0, 0, 2, 7, 9, 11, 13];
    let mut decoder = IDXDecoder::<U8>::new(data, 1).unwrap();
    assert_eq!(decoder.next(), Some(7));
    assert_eq!(decoder.next(), Some(9));
    for _ in 0..5 {
        assert_eq!(decoder.next(), None);
    }
    assert_eq!(decoder.dimensions(), vec![0]);
}

#[test]
fn zero_count_yields_nothing() {
    let data = vec![0, 0, 8, 1, 0, 0, 0, 0, 5];
    let mut decoder = IDXDecoder::<U8>::new(data, 1).unwrap();
    assert_eq!(decoder.next(), None);
}

#[test]
fn shape_is_exposed_unchanged() {
    let data = vec![0, 0, 8, 3, 0, 0, 1, 2, 0, 1, 0, 0, 0xff, 0xff, 0xff, 0xff];
    let decoder = IDXDecoder::<U8>::new(data, 3).unwrap();
    assert_eq!(decoder.dimensions(), vec![258, 65536, 0xffff_ffff]);
    assert_eq!(decoder.dimensions(), vec![258, 65536, 0xffff_ffff]);
}

#[test]
fn count_decreases_per_call() {
    let data = vec![0, 0, 8, 3, 0, 0, 0, 2, 0, 0, 0, 1, 0, 0, 0, 2, 1, 2, 3, 4];
    let mut decoder = IDXDecoder::<U8>::new(data, 3).unwrap();
    assert_eq!(decoder.size_hint(), (0, Some(2)));
    assert_eq!(decoder.next_row(), Some(vec![1, 2]));
    assert_eq!(decoder.dimensions(), vec![1, 1, 2]);
    assert_eq!(decoder.size_hint(), (0, Some(1)));
    assert_eq!(decoder.next_row(), Some(vec![3, 4]));
    assert_eq!(decoder.size_hint(), (0, Some(0)));
    assert_eq!(decoder.next_row(), None);
}

#[test]
fn partial_row_is_never_returned() {
    let data = vec![0, 0, 8, 3, 0, 0, 0, 2, 0, 0, 0, 2, 0, 0, 0, 2, 1, 2, 3, 4, 5, 6, 7];
    let mut decoder = IDXDecoder::<U8>::new(data, 3).unwrap();
    assert_eq!(decoder.next_row(), Some(vec![1, 2, 3, 4]));
    assert_eq!(decoder.next_row(), None);
    assert_eq!(decoder.next_row(), None);
}

#[test]
fn empty_rows() {
    let data = vec![0, 0, 8, 3, 0, 0, 0, 2, 0, 0, 0, 0, 0, 0, 0, 5];
    let mut decoder = IDXDecoder::<U8>::new(data, 3).unwrap();
    assert_eq!(decoder.next_row(), Some(vec![]));
    assert_eq!(decoder.next_row(), Some(vec![]));
    assert_eq!(decoder.next_row(), None);
}

#[test]
fn wrong_magic() {
    let data = vec![1, 0, 8, 1, 0, 0, 0, 1, 5];
    assert_eq!(IDXDecoder::<U8>::new(data, 1).err(), Some(IDXError::WrongMagic));
    let data = vec![0, 3, 8, 1];
    assert_eq!(IDXDecoder::<U8>::new(data, 1).err(), Some(IDXError::WrongMagic));
}

#[test]
fn wrong_type() {
    let data = vec![0, 0, 0x0d, 1, 0, 0, 0, 1, 0, 0, 0, 0];
    assert_eq!(IDXDecoder::<U8>::new(data, 1).err(), Some(IDXError::WrongType(0x08, 0x0d)));
}

#[test]
fn wrong_dimensions() {
    let data = vec![0, 0, 8, 3, 0, 0, 0, 1, 0, 0, 0, 1, 0, 0, 0, 1, 9];
    assert_eq!(IDXDecoder::<U8>::new(data, 1).err(), Some(IDXError::WrongDimensions(1, 3)));
}

#[test]
fn short_header_is_io_error() {
    assert_eq!(IDXDecoder::<U8>::new(vec![0, 0, 8], 1).err(), Some(IDXError::IOError));
    assert_eq!(IDXDecoder::<U8>::new(vec![], 1).err(), Some(IDXError::IOError));
}

#[test]
fn short_dimensions_are_io_error() {
    let data = vec![0, 0, 8, 3, 0, 0, 0, 1, 0, 0, 0, 1, 0, 0, 0];
    assert_eq!(IDXDecoder::<U8>::new(data, 3).err(), Some(IDXError::IOError));
}

#[test]
fn signed_and_wide_elements() {
    let data = vec![0, 0, 0x09, 1, 0, 0, 0, 3, 0xff, 0x80, 0x7f];
    let mut d = IDXDecoder::<I8>::new(data, 1).unwrap();
    assert_eq!(d.next(), Some(-1));
    assert_eq!(d.next(), Some(-128));
    assert_eq!(d.next(), Some(127));
    assert_eq!(d.next(), None);

    let data = vec![0, 0, 0x0b, 1, 0, 0, 0, 2, 0x01, 0x02, 0xff, 0xfe];
    let mut d = IDXDecoder::<I16>::new(data, 1).unwrap();
    assert_eq!(d.next(), Some(0x0102));
    assert_eq!(d.next(), Some(-2));
    assert_eq!(d.next(), None);

    let data = vec![0, 0, 0x0c, 1, 0, 0, 0, 2, 0x01, 0x02, 0x03, 0x04, 0x80, 0, 0, 0];
    let mut d = IDXDecoder::<I32>::new(data, 1).unwrap();
    assert_eq!(d.next(), Some(0x0102_0304));
    assert_eq!(d.next(), Some(i32::MIN));
    assert_eq!(d.next(), None);
}

#[test]
fn float_elements_are_bit_patterns() {
    let mut data = vec![0, 0, 0x0d, 1, 0, 0, 0, 1];
    data.extend_from_slice(&1.5f32.to_be_bytes());
    let mut d = IDXDecoder::<F32>::new(data, 1).unwrap();
    assert_eq!(d.next().map(f32::from_bits), Some(1.5f32));

    let mut data = vec![0, 0, 0x0e, 1, 0, 0, 0, 1];
    data.extend_from_slice(&(-2.25f64).to_be_bytes());
    let mut d = IDXDecoder::<F64>::new(data, 1).unwrap();
    assert_eq!(d.next().map(f64::from_bits), Some(-2.25f64));
}

#[test]
fn wide_element_cut_short() {
    let data = vec![0, 0, 0x0c, 1, 0, 0, 0, 2, 0, 0, 0, 7, 1, 2, 3];
    let mut d = IDXDecoder::<I32>::new(data, 1).unwrap();
    assert_eq!(d.next(), Some(7));
    assert_eq!(d.next(), None);
    assert_eq!(d.next(), None);
}

#[test]
fn three_dim_signed_rows() {
    let data = vec![0, 0, 0x0b, 3, 0, 0, 0, 1, 0, 0, 0, 1, 0, 0, 0, 2, 0xff, 0xff, 0, 5];
    let mut d = IDXDecoder::<I16>::new(data, 3).unwrap();
    assert_eq!(d.next_row(), Some(vec![-1, 5]));
    assert_eq!(d.next_row(), None);
}
