use piru::memory::memory_words;
use piru::numbers::{is_float_text, parse_integer};

fn chars(s: &str) -> Vec<char> {
    s.chars().collect()
}

const SAMPLES: &[&str] = &[
    "", "0", "1", "+1", "-1", "+", "-", "00", "007", "255", "256", "-128", "-129", "127", "128", "65535",
    "65536", "-32768", "-32769", "4294967295", "4294967296", "2147483647", "2147483648", "-2147483648",
    "-2147483649", "9223372036854775807", "9223372036854775808", "-9223372036854775808",
    "-9223372036854775809", "18446744073709551615", "18446744073709551616", "99999999999999999999999999",
    "1.5", "1.", ".5", ".", "1.2.3", "1e5", "1E5", "1e", "1e+", "1e-3", "1e+3", "e5", ".e5", "+.5", "-.5",
    "inf", "INF", "Infinity", "infinity", "-inf", "+nan", "NaN", "nan1", "infinit", "1_000", " 1", "1 ", "0x10",
    "1.5e10", "1.5e1.0", "١٢", "3.14", "12a", "a12",
];

#[test]
fn integers_are_read_as_the_standard_library_reads_them() {
    for s in SAMPLES {
        let c = chars(s);
        assert_eq!(parse_integer(&c, false, 0, 0xff), s.parse::<u8>().ok().map(i128::from), "u8 {:?}", s);
        assert_eq!(parse_integer(&c, true, -0x80, 0x7f), s.parse::<i8>().ok().map(i128::from), "i8 {:?}", s);
        assert_eq!(parse_integer(&c, false, 0, 0xffff), s.parse::<u16>().ok().map(i128::from), "u16 {:?}", s);
        assert_eq!(parse_integer(&c, true, -0x8000, 0x7fff), s.parse::<i16>().ok().map(i128::from), "i16 {:?}", s);
        assert_eq!(
            parse_integer(&c, false, 0, 0xffff_ffff),
            s.parse::<u32>().ok().map(i128::from),
            "u32 {:?}",
            s
        );
        assert_eq!(
            parse_integer(&c, true, -0x8000_0000, 0x7fff_ffff),
            s.parse::<i32>().ok().map(i128::from),
            "i32 {:?}",
            s
        );
        assert_eq!(
            parse_integer(&c, false, 0, 0xffff_ffff_ffff_ffff),
            s.parse::<u64>().ok().map(i128::from),
            "u64 {:?}",
            s
        );
        assert_eq!(
            parse_integer(&c, true, -0x8000_0000_0000_0000, 0x7fff_ffff_ffff_ffff),
            s.parse::<i64>().ok().map(i128::from),
            "i64 {:?}",
            s
        );
    }
}

#[test]
fn float_texts_are_those_the_standard_library_reads() {
    for s in SAMPLES {
        let c = chars(s);
        assert_eq!(is_float_text(&c), s.parse::<f64>().is_ok(), "f64 {:?}", s);
        assert_eq!(is_float_text(&c), s.parse::<f32>().is_ok(), "f32 {:?}", s);
    }
}

#[test]
fn memory_is_counted_in_words_kept_to_32_bits() {
    assert_eq!(memory_words(1024), 262144);
    assert_eq!(memory_words(1), 256);
    assert_eq!(memory_words(1 << 24), 0);
    assert_eq!(memory_words((1 << 24) + 3), 768);
}

#[test]
fn float_edge_texts_are_judged_as_the_standard_library_judges_them() {
    let edges = [
        "+.e1", "5.", ".e1", "-.", "+inf", "iNfInItY", "-Infinity", "1e0000", "0.0e-0", "+-1", "--1",
        "1e++1", "nAn", "-nan", "+NaN", "5.e3", ".5E-2", "e", "E1", "1e1e1", "..5", "5..", "0.", "+0.",
        "inff", "infinityy", "in", "1.5f", "0e", "00.00",
    ];
    for s in edges {
        let c = chars(s);
        assert_eq!(is_float_text(&c), s.parse::<f64>().is_ok(), "f64 {:?}", s);
        assert_eq!(is_float_text(&c), s.parse::<f32>().is_ok(), "f32 {:?}", s);
    }
}
