use rccn_usr::bitbuffer::{BitBuffer, BitWriter};

#[test]
fn reader_reads_fields_of_whole_bytes_in_order() {
    let data = [0x00u8, 0x03, 0xAB, 0xCD, 0xEF, 0x00, 1, 2, 3, 4, 5, 6, 7, 8, 9];
    let mut bb = BitBuffer::wrap(&data);
    assert_eq!(bb.remaining(), 15);
    assert_eq!(bb.get_bits(16), Some(3));
    assert_eq!(bb.get_bits(32), Some(0xABCDEF00));
    assert_eq!(bb.get_bits(64), Some(0x0102_0304_0506_0708));
    assert_eq!(bb.remaining(), 1);
    assert_eq!(bb.get_bits(0), Some(0));
    assert_eq!(bb.get_bits(8), Some(9));
    assert_eq!(bb.remaining(), 0);
}

#[test]
fn reader_refuses_what_it_cannot_read_and_stays_where_it_is() {
    let data = [1u8, 2, 3];
    let mut bb = BitBuffer::wrap(&data);
    assert_eq!(bb.get_bits(32), None);
    assert_eq!(bb.get_bits(12), None);
    assert_eq!(bb.get_bits(72), None);
    assert_eq!(bb.remaining(), 3);
    assert_eq!(bb.get_bits(24), Some(0x010203));
    assert_eq!(bb.get_bits(8), None);
}

#[test]
fn writer_writes_the_low_bits_most_significant_byte_first() {
    let mut writer = BitWriter::new(16);
    assert_eq!(writer.write_bits(3, 16), Ok(()));
    assert_eq!(writer.write_bits(0x1_ABCD_EF00, 32), Ok(()));
    assert_eq!(writer.write_bytes(&[9, 8]), Ok(()));
    assert_eq!(writer.write_bits(0x0102_0304_0506_0708, 64), Ok(()));
    assert_eq!(writer.len(), 16);
    assert_eq!(
        writer.into_bytes(),
        vec![0, 3, 0xAB, 0xCD, 0xEF, 0x00, 9, 8, 1, 2, 3, 4, 5, 6, 7, 8]
    );
}

#[test]
fn writer_refuses_what_does_not_fit_and_writes_nothing_of_it() {
    let mut writer = BitWriter::new(3);
    assert!(writer.write_bits(1, 32).is_err());
    assert!(writer.write_bits(1, 4).is_err());
    assert!(writer.write_bits(1, 128).is_err());
    assert!(writer.write_bytes(&[1, 2, 3, 4]).is_err());
    assert_eq!(writer.len(), 0);
    assert_eq!(writer.write_bits(0xAABBCC, 24), Ok(()));
    assert!(writer.write_bits(1, 8).is_err());
    assert_eq!(writer.write_bits(1, 0), Ok(()));
    assert_eq!(writer.write_bytes(&[]), Ok(()));
    assert_eq!(writer.into_bytes(), vec![0xAA, 0xBB, 0xCC]);
}
