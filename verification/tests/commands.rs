use ease::commands::{
    clear, echo, help, hexdump, push_decimal, push_hex, time, unknown, CatDecoder, CatOutput, HexDump,
};

fn expected_line(canonical: bool, offset: usize, line: &[u8]) -> String {
    let mut s = String::new();
    if canonical {
        s.push_str(&format!("{:08x}  ", offset));
        for j in 0..16 {
            if j < line.len() {
                s.push_str(&format!("{:02x} ", line[j]));
            } else {
                s.push_str("   ");
            }
            if j == 7 {
                s.push(' ');
            }
        }
        s.push_str(" |");
        for &b in line {
            let ch = if b.is_ascii_graphic() || b == b' ' { b as char } else { '.' };
            s.push(ch);
        }
        s.push_str("|\n");
    } else {
        s.push_str(&format!("{:07x}", offset));
        for word in line.chunks(2) {
            if word.len() == 2 {
                let val = u16::from_le_bytes([word[0], word[1]]);
                s.push_str(&format!(" {:04x}", val));
            } else {
                s.push_str(&format!(" {:02x}", word[0]));
            }
        }
        s.push('\n');
    }
    s
}

fn expected_dump(canonical: bool, data: &[u8]) -> String {
    let mut s = String::new();
    for (i, line) in data.chunks(16).enumerate() {
        s.push_str(&expected_line(canonical, 16 * i, line));
    }
    s
}

fn sample(len: usize) -> Vec<u8> {
    (0..len).map(|i| ((i * 37 + 11) % 256) as u8).collect()
}

#[test]
fn hexdump_canonical_exact_line() {
    let out = hexdump(true, b"Hello, World!\n");
    assert_eq!(
        String::from_utf8(out).unwrap(),
        "00000000  48 65 6c 6c 6f 2c 20 57  6f 72 6c 64 21 0a        |Hello, World!.|\n"
    );
}

#[test]
fn hexdump_plain_exact_line() {
    let out = hexdump(false, b"Hello, World!\n");
    assert_eq!(String::from_utf8(out).unwrap(), "0000000 6548 6c6c 2c6f 5720 726f 646c 0a21\n");
}

#[test]
fn hexdump_odd_tail_byte() {
    let out = hexdump(false, b"abc");
    assert_eq!(String::from_utf8(out).unwrap(), "0000000 6261 63\n");
}

#[test]
fn hexdump_empty_prints_nothing() {
    assert!(hexdump(true, b"").is_empty());
    assert!(hexdump(false, b"").is_empty());
}

#[test]
fn hexdump_matches_formatting_for_many_lengths() {
    for len in [1usize, 15, 16, 17, 31, 32, 33, 100, 383, 500] {
        let data = sample(len);
        for canonical in [true, false] {
            let out = hexdump(canonical, &data);
            assert_eq!(String::from_utf8(out).unwrap(), expected_dump(canonical, &data), "len {len}");
        }
    }
}

#[test]
fn hexdump_in_chunks_equals_whole() {
    let data = sample(1000);
    for chunk in [1usize, 5, 16, 383] {
        let mut d = HexDump::new(true);
        let mut out = Vec::new();
        for part in data.chunks(chunk) {
            out.extend(d.feed(part));
        }
        out.extend(d.finish());
        assert_eq!(out, hexdump(true, &data), "chunk {chunk}");
    }
}

#[test]
fn hex_widens_past_minimum_width() {
    let mut v = Vec::new();
    push_hex(&mut v, 0x1_2345_6789, 8);
    assert_eq!(v, b"123456789".to_vec());
    let mut w = Vec::new();
    push_hex(&mut w, 0xab, 4);
    assert_eq!(w, b"00ab".to_vec());
    let mut z = Vec::new();
    push_hex(&mut z, u64::MAX, 0);
    assert_eq!(z, b"ffffffffffffffff".to_vec());
    let mut d = Vec::new();
    push_decimal(&mut d, 18446744073709551615);
    assert_eq!(d, b"18446744073709551615".to_vec());
}

#[test]
fn simple_command_texts() {
    assert_eq!(clear(), vec![12u8]);
    assert_eq!(echo(b"hi there"), b"hi there\n".to_vec());
    assert_eq!(time(1234), b"1234 [ms]\n".to_vec());
    assert_eq!(time(0), b"0 [ms]\n".to_vec());
    assert_eq!(unknown(b"frob"), b"Unknown command: frob\n".to_vec());
    let h = String::from_utf8(help()).unwrap();
    assert!(h.starts_with("Available commands:\n  cat      - Read file content to screen\n"));
    assert!(h.ends_with("  write    - Write text to file\n"));
    assert_eq!(h.lines().count(), 12);
}

fn text(o: CatOutput) -> Vec<u8> {
    match o {
        CatOutput::Text(t) => t,
        CatOutput::NotText => panic!("expected text"),
    }
}

#[test]
fn cat_prints_whole_text_reads() {
    let mut d = CatDecoder::new();
    assert_eq!(d.room(), 256);
    assert_eq!(text(d.feed(b"hello\n")), b"hello\n".to_vec());
    assert_eq!(d.room(), 256);
}

#[test]
fn cat_carries_a_character_cut_by_a_read() {
    let mut d = CatDecoder::new();
    let e_acute = "\u{e9}".as_bytes();
    let mut first = b"caf".to_vec();
    first.push(e_acute[0]);
    assert_eq!(text(d.feed(&first)), b"caf".to_vec());
    assert_eq!(d.room(), 255);
    let mut second = vec![e_acute[1]];
    second.extend_from_slice(b"!");
    assert_eq!(text(d.feed(&second)), "\u{e9}!".as_bytes().to_vec());
    assert_eq!(d.room(), 256);
}

#[test]
fn cat_stops_on_invalid_bytes() {
    let mut d = CatDecoder::new();
    assert!(matches!(d.feed(&[b'a', 0xFF, b'b']), CatOutput::NotText));
}

#[test]
fn cat_settle_follows_the_check_result() {
    let mut d = CatDecoder::new();
    assert_eq!(text(d.settle(vec![b'h', b'i', 0xE2], Some((2, None)))), b"hi".to_vec());
    assert_eq!(d.room(), 255, "the cut-off byte is carried");
    assert_eq!(text(d.settle(b"ok".to_vec(), None)), b"ok".to_vec());
    assert_eq!(d.room(), 256);
    assert!(matches!(d.settle(vec![b'a', 0xFF], Some((1, Some(1)))), CatOutput::NotText));
}
