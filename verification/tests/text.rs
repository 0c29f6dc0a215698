use codetrial::mentor::board::token_digest;
use codetrial::text::{decimal_text, is_white_space, place, same_bytes, same_text, trim, Place};

#[test]
fn white_space_is_the_unicode_property() {
    for code in 0..=0x10ffffu32 {
        if let Some(c) = char::from_u32(code) {
            assert_eq!(is_white_space(c), c.is_whitespace());
        }
    }
}

#[test]
fn trimming_drops_white_space_at_the_ends_only() {
    for text in ["", " ", "a", " a b ", "\u{3000}x\u{85}", "\n\t", "a ", " a", "\u{200b}a"] {
        assert_eq!(trim(text), text.trim());
        assert_eq!(trim(&trim(text)), trim(text));
    }
}

#[test]
fn texts_stand_in_byte_order() {
    let texts = ["", "a", "A", "ab", "b", "\u{e9}", "\u{ffff}", "\u{10000}", "a\u{0}"];
    for a in texts {
        for b in texts {
            let expected = if a < b {
                Place::Before
            } else if a == b {
                Place::Same
            } else {
                Place::After
            };
            assert_eq!(place(a, b), expected);
            assert_eq!(same_text(a, b), a == b);
            assert_eq!(same_bytes(a.as_bytes(), b.as_bytes()), a == b);
        }
    }
}

#[test]
fn decimals_have_no_leading_zeros() {
    for n in [0, 7, 10, 99, 100, 1234567890, u64::MAX] {
        assert_eq!(decimal_text(n), format!("{n}"));
    }
}

#[test]
fn a_token_digest_is_sha_256() {
    assert_eq!(
        token_digest("abc"),
        [
            0xba, 0x78, 0x16, 0xbf, 0x8f, 0x01, 0xcf, 0xea, 0x41, 0x41, 0x40, 0xde, 0x5d, 0xae,
            0x22, 0x23, 0xb0, 0x03, 0x61, 0xa3, 0x96, 0x17, 0x7a, 0x9c, 0xb4, 0x10, 0xff, 0x61,
            0xf2, 0x00, 0x15, 0xad,
        ]
    );
}
