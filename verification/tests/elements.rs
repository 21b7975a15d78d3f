use dst_vec::{Blob, BlobMeta, Referent};

#[test]
fn an_array_comes_apart_into_low_byte_first_words_and_its_length() {
    let (data, meta) = vec![1, -1, 0x0102_0304].disassemble();
    assert_eq!(data, vec![1, 0, 0, 0, 255, 255, 255, 255, 4, 3, 2, 1]);
    assert_eq!(meta, 3);
}

#[test]
fn an_empty_array_has_no_bytes() {
    let (data, meta) = Vec::<i32>::new().disassemble();
    assert!(data.is_empty());
    assert_eq!(meta, 0);
}

#[test]
fn an_array_is_assembled_from_its_parts() {
    let array = <Vec<i32> as Referent>::assemble(&[254, 255, 255, 255, 5, 0, 0, 0], 2);
    assert_eq!(array, vec![-2, 5]);
    let none = <Vec<i32> as Referent>::assemble(&[], 0);
    assert!(none.is_empty());
}

#[test]
fn an_array_survives_the_round_trip() {
    let array = vec![i32::MIN, -1, 0, 1, i32::MAX];
    let (data, meta) = array.clone().disassemble();
    assert_eq!(<Vec<i32> as Referent>::assemble(&data, meta), array);
}

#[test]
fn the_layout_of_an_array_follows_from_its_length() {
    assert_eq!(<Vec<i32> as Referent>::size_of_val(0), 0);
    assert_eq!(<Vec<i32> as Referent>::size_of_val(3), 12);
    assert_eq!(
        <Vec<i32> as Referent>::align_of_val(3),
        std::mem::align_of::<i32>()
    );
}

#[test]
fn a_blob_comes_apart_into_its_storage_and_its_description() {
    let (data, meta) = Blob::new(vec![1, 2, 3], 2, 'x').disassemble();
    assert_eq!(data, vec![1, 2, 3]);
    assert_eq!(meta.size, 3);
    assert_eq!(meta.align, 2);
    assert_eq!(meta.tag, 'x');
}

#[test]
fn a_blob_is_assembled_from_its_parts() {
    let meta = BlobMeta { size: 2, align: 8, tag: 7u16 };
    let blob = <Blob<u16> as Referent>::assemble(&[10, 20], meta);
    assert_eq!(blob.data(), &[10, 20]);
    assert_eq!(blob.align(), 8);
    assert_eq!(blob.tag(), 7);
    assert_eq!(<Blob<u16> as Referent>::size_of_val(meta), 2);
    assert_eq!(<Blob<u16> as Referent>::align_of_val(meta), 8);
}
