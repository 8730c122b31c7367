use sysjack::util::{assemble_words, struct2words};

#[test]
fn no_bytes_give_no_words() {
    assert_eq!(struct2words(Vec::new()), Vec::<u64>::new());
    assert_eq!(assemble_words(&Vec::new()), Vec::<u64>::new());
}

#[test]
fn eight_bytes_give_one_word_lowest_byte_first() {
    let bytes = vec![0x01, 0x02, 0x03, 0x04, 0x05, 0x06, 0x07, 0x08];
    assert_eq!(struct2words(bytes.clone()), vec![0x0807_0605_0403_0201]);
    assert_eq!(assemble_words(&bytes), vec![0x0807_0605_0403_0201]);
}

#[test]
fn one_byte_is_padded_to_one_word() {
    assert_eq!(struct2words(vec![0xff]), vec![0xff]);
    assert_eq!(struct2words(vec![0, 0, 0, 0, 0, 0, 0xab]), vec![0x00ab_0000_0000_0000]);
}

#[test]
fn thirteen_bytes_are_padded_to_two_words() {
    let bytes: Vec<u8> = (1..=13).collect();
    let words = struct2words(bytes);
    assert_eq!(words, vec![0x0807_0605_0403_0201, 0x0000_000d_0c0b_0a09]);
    let back: Vec<u8> = words.iter().flat_map(|w| w.to_le_bytes()).collect();
    assert_eq!(back, vec![1, 2, 3, 4, 5, 6, 7, 8, 9, 10, 11, 12, 13, 0, 0, 0]);
}

#[test]
fn sixteen_bytes_are_not_padded() {
    let bytes: Vec<u8> = (0..16).map(|b| 0xf0 + b).collect();
    assert_eq!(struct2words(bytes), vec![0xf7f6_f5f4_f3f2_f1f0, 0xfffe_fdfc_fbfa_f9f8]);
}

#[test]
fn a_socket_address_of_110_bytes_gives_14_words() {
    let mut bytes = vec![0u8; 110];
    bytes[0] = 1;
    bytes[2] = b'/';
    bytes[109] = 0x7f;
    let words = struct2words(bytes);
    assert_eq!(words.len(), 14);
    assert_eq!(words[0], 0x0000_0000_002f_0001);
    assert_eq!(words[13], 0x0000_7f00_0000_0000);
}

#[test]
fn the_highest_word_is_all_ones() {
    assert_eq!(struct2words(vec![0xff; 8]), vec![u64::MAX]);
    assert_eq!(assemble_words(&vec![0xff; 8]), vec![u64::MAX]);
}

#[test]
fn assembling_leaves_out_bytes_behind_the_last_word() {
    let bytes: Vec<u8> = (1..=13).collect();
    assert_eq!(assemble_words(&bytes), vec![0x0807_0605_0403_0201]);
    assert_eq!(assemble_words(&vec![1, 2, 3]), Vec::<u64>::new());
}

#[test]
fn assembling_and_casting_agree() {
    let bytes: Vec<u8> = (0..64u32).map(|b| (b * 37 % 251) as u8).collect();
    assert_eq!(struct2words(bytes.clone()), assemble_words(&bytes));
}
