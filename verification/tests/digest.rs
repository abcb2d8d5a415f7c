use stt::catalog::available_models;
use stt::digest::{hex_of, Checksum};

#[test]
fn checksum_of_nothing() {
    assert_eq!(Checksum::new().finish(), "d41d8cd98f00b204e9800998ecf8427e");
}

#[test]
fn checksum_of_known_texts() {
    let mut checksum = Checksum::new();
    checksum.update(b"abc");
    assert_eq!(checksum.finish(), "900150983cd24fb0d6963f7d28e17f72");

    let mut checksum = Checksum::new();
    checksum.update(b"message digest");
    assert_eq!(checksum.finish(), "f96b697d7cb7938d525a2f31aaf161d0");
}

#[test]
fn chunks_do_not_change_the_checksum() {
    let data: Vec<u8> = (0..100_000u32).map(|i| (i * 7 + i / 251) as u8).collect();
    let mut whole = Checksum::new();
    whole.update(&data);
    let expected = whole.finish();
    for size in [1usize, 63, 64, 65, 4096] {
        let mut chunked = Checksum::new();
        for chunk in data.chunks(size) {
            chunked.update(chunk);
        }
        assert_eq!(chunked.finish(), expected);
    }
}

#[test]
fn checksums_have_the_form_of_the_published_ones() {
    let mut checksum = Checksum::new();
    checksum.update(b"not an archive");
    let text = checksum.finish();
    assert_eq!(text.len(), 32);
    for model in available_models() {
        assert_eq!(model.md5.len(), text.len());
        assert_ne!(model.md5, text);
    }
}

#[test]
fn hexadecimal_is_lower_case_with_two_digits() {
    assert_eq!(hex_of(&vec![0x00, 0x0f, 0xa0, 0xff, 0x7b]), "000fa0ff7b");
    assert_eq!(hex_of(&Vec::new()), "");
    for byte in 0..=255u8 {
        assert_eq!(hex_of(&vec![byte]), format!("{byte:02x}"));
    }
}
