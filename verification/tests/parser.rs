use std::str::FromStr;

use ipnet::{Ipv4Net, Ipv6Net};
use routeupd::parser::{
    char_is_whitespace, parse_line, push_parsed, read_lines, trim_bounds, FromLine,
};
use routeupd::route::{Ipv4Cidr, Ipv6Cidr};

fn v4(text: &str) -> Option<Ipv4Cidr> {
    Ipv4Net::from_str(text)
        .ok()
        .map(|net| Ipv4Cidr { addr: u32::from(net.addr()), prefix_len: net.prefix_len() })
}

fn v6(text: &str) -> Option<Ipv6Cidr> {
    Ipv6Net::from_str(text)
        .ok()
        .map(|net| Ipv6Cidr { addr: u128::from(net.addr()), prefix_len: net.prefix_len() })
}

fn quad(a: u8, b: u8, c: u8, d: u8) -> u32 {
    ((a as u32) << 24) | ((b as u32) << 16) | ((c as u32) << 8) | (d as u32)
}

#[test]
fn test_parse_ipv4() {
    const TEST_FILE: &str = r#"
            1.1.1.1/32
            2.2.3.4/8
            3.4.5.6/32
        "#;
    let mut it = read_lines::<Ipv4Cidr>(TEST_FILE).into_iter();
    assert_eq!(it.next(), v4("1.1.1.1/32"));
    assert_eq!(it.next(), v4("2.2.3.4/8"));
    assert_eq!(it.next(), v4("3.4.5.6/32"));
    assert_eq!(it.next(), None);
}

#[test]
fn test_parse_ipv6() {
    const TEST_FILE: &str = r#"
            2001:cc0::/32
            2001:df1:2b40::/48
        "#;
    let mut it = read_lines::<Ipv6Cidr>(TEST_FILE).into_iter();
    assert_eq!(it.next(), v6("2001:cc0:0::/32"));
    assert_eq!(it.next(), v6("2001:df1:2b40::/48"));
    assert_eq!(it.next(), None);
}

#[test]
fn ipv4_line_gives_exact_address_and_prefix() {
    assert_eq!(
        read_lines::<Ipv4Cidr>("1.2.3.4/24"),
        vec![Ipv4Cidr { addr: quad(1, 2, 3, 4), prefix_len: 24 }]
    );
    assert_eq!(
        read_lines::<Ipv4Cidr>("0.0.0.0/0\n255.255.255.255/32\n"),
        vec![
            Ipv4Cidr { addr: 0, prefix_len: 0 },
            Ipv4Cidr { addr: u32::MAX, prefix_len: 32 },
        ]
    );
    assert_eq!(quad(1, 2, 3, 4), 0x0102_0304);
}

#[test]
fn ipv4_address_is_kept_as_written() {
    // The host bits below the prefix are not cleared.
    assert_eq!(
        Ipv4Cidr::from_line("2.2.3.4/8"),
        Some(Ipv4Cidr { addr: quad(2, 2, 3, 4), prefix_len: 8 })
    );
}

#[test]
fn ipv4_leading_zeros_are_read_as_decimal() {
    assert_eq!(
        Ipv4Cidr::from_line("001.010.000.09/08"),
        Some(Ipv4Cidr { addr: quad(1, 10, 0, 9), prefix_len: 8 })
    );
    assert_eq!(Ipv4Cidr::from_line("0001.1.1.1/8"), None);
    assert_eq!(Ipv4Cidr::from_line("1.1.1.1/008"), None);
}

#[test]
fn ipv4_lines_of_another_shape_are_dropped() {
    for line in [
        "",
        "1.1.1.1",
        "1.1.1.1/",
        "1.1.1.1/33",
        "1.1.1/24",
        "1.1.1.1.1/24",
        "256.1.1.1/24",
        "1.1.1.1/24 x",
        "1.1.1.1 /24",
        "a.b.c.d/n",
        "1.1.1.-1/24",
        "+1.1.1.1/24",
        "1..1.1/24",
        "1.1.1.1//24",
        "\u{661}.1.1.1/24",
        "2001:db8::/32",
        "# comment",
    ] {
        assert_eq!(Ipv4Cidr::from_line(line), None, "{line:?}");
        assert_eq!(read_lines::<Ipv4Cidr>(line), vec![], "{line:?}");
    }
}

#[test]
fn a_bad_line_does_not_stop_the_lines_after_it() {
    let text = "1.1.1.0/24\nnot a network\n\n# comment\n2.2.2.0/24\n300.0.0.0/8\n3.3.3.0/24";
    assert_eq!(
        read_lines::<Ipv4Cidr>(text),
        vec![
            Ipv4Cidr { addr: quad(1, 1, 1, 0), prefix_len: 24 },
            Ipv4Cidr { addr: quad(2, 2, 2, 0), prefix_len: 24 },
            Ipv4Cidr { addr: quad(3, 3, 3, 0), prefix_len: 24 },
        ]
    );
}

#[test]
fn duplicates_are_kept_in_order() {
    let text = "2.2.2.0/24\n1.1.1.0/24\n2.2.2.0/24\n";
    assert_eq!(
        read_lines::<Ipv4Cidr>(text),
        vec![
            Ipv4Cidr { addr: quad(2, 2, 2, 0), prefix_len: 24 },
            Ipv4Cidr { addr: quad(1, 1, 1, 0), prefix_len: 24 },
            Ipv4Cidr { addr: quad(2, 2, 2, 0), prefix_len: 24 },
        ]
    );
}

#[test]
fn line_endings_and_blank_lines() {
    let one = vec![Ipv4Cidr { addr: quad(10, 0, 0, 0), prefix_len: 8 }];
    assert_eq!(read_lines::<Ipv4Cidr>(""), vec![]);
    assert_eq!(read_lines::<Ipv4Cidr>("\n"), vec![]);
    assert_eq!(read_lines::<Ipv4Cidr>("\n\n\r\n"), vec![]);
    assert_eq!(read_lines::<Ipv4Cidr>("10.0.0.0/8"), one);
    assert_eq!(read_lines::<Ipv4Cidr>("10.0.0.0/8\n"), one);
    assert_eq!(read_lines::<Ipv4Cidr>("10.0.0.0/8\r\n"), one);
    assert_eq!(read_lines::<Ipv4Cidr>("10.0.0.0/8\r"), one);
    assert_eq!(read_lines::<Ipv4Cidr>("\r\n10.0.0.0/8\r\n\r\n"), one);
    assert_eq!(read_lines::<Ipv4Cidr>(" \t10.0.0.0/8 \t\r\n"), one);
    // A carriage return in the middle of a line is no line ending.
    assert_eq!(read_lines::<Ipv4Cidr>("10.0.0.0/8\r10.0.0.0/8"), vec![]);
}

#[test]
fn whitespace_is_the_unicode_property() {
    let spaces = [
        '\u{9}', '\u{a}', '\u{b}', '\u{c}', '\u{d}', ' ', '\u{85}', '\u{a0}', '\u{1680}',
        '\u{2000}', '\u{2005}', '\u{200a}', '\u{2028}', '\u{2029}', '\u{202f}', '\u{205f}',
        '\u{3000}',
    ];
    for c in spaces {
        assert!(char_is_whitespace(c), "{c:?}");
    }
    let others =
        ['a', '0', '.', '/', '\u{8}', '\u{e}', '\u{200b}', '\u{180e}', '\u{feff}', '\u{2060}'];
    for c in others {
        assert!(!char_is_whitespace(c), "{c:?}");
    }
}

#[test]
fn whitespace_agrees_with_std_on_every_char() {
    let mut c = '\0';
    loop {
        assert_eq!(char_is_whitespace(c), c.is_whitespace(), "{c:?}");
        match char::from_u32(c as u32 + 1) {
            Some(next) => c = next,
            None => {
                if c as u32 >= 0x10ffff {
                    break;
                }
                // Skip the surrogates.
                c = '\u{e000}';
            }
        }
    }
}

#[test]
fn trim_bounds_agree_with_std_trim() {
    for text in [
        "",
        " ",
        "\u{3000}\u{a0}",
        "abc",
        "  abc",
        "abc  ",
        " a b ",
        "\t1.1.1.1/32\r",
        "\u{2003}x\u{205f}y\u{1680}",
        "\u{200b} x \u{200b}",
    ] {
        let chars: Vec<char> = text.chars().collect();
        let (start, end) = trim_bounds(&chars);
        let kept: String = chars[start..end].iter().collect();
        assert_eq!(kept, text.trim(), "{text:?}");
    }
}

#[test]
fn lines_agree_with_std_lines() {
    for text in [
        "",
        "\n",
        "a",
        "a\n",
        "a\r\n",
        "a\r",
        "a\n\nb",
        "\r\r\n",
        "1.1.1.0/24\r\n\u{3000}2.2.2.0/24\u{a0}\n\n 3.3.3.0/24",
        "1.1.1.0/24\r2.2.2.0/24\n",
        "1.1.1.0/24\n\r2.2.2.0/24\r\n\r",
    ] {
        let expected: Vec<Ipv4Cidr> = text.lines().filter_map(|l| v4(l.trim())).collect();
        assert_eq!(read_lines::<Ipv4Cidr>(text), expected, "{text:?}");
    }
}

#[test]
fn parse_line_trims_before_parsing() {
    let chars: Vec<char> = "  10.1.0.0/16\u{a0}".chars().collect();
    assert_eq!(
        parse_line::<Ipv4Cidr>(&chars),
        Some(Ipv4Cidr { addr: quad(10, 1, 0, 0), prefix_len: 16 })
    );
    let inner: Vec<char> = "10.1.0.0 /16".chars().collect();
    assert_eq!(parse_line::<Ipv4Cidr>(&inner), None);
}

#[test]
fn push_parsed_appends_only_a_value() {
    let mut list = vec![1u8];
    push_parsed(&mut list, None);
    assert_eq!(list, vec![1]);
    push_parsed(&mut list, Some(7));
    assert_eq!(list, vec![1, 7]);
}

#[test]
fn ipv6_lines() {
    assert_eq!(
        Ipv6Cidr::from_line("2001:db8::/32"),
        Some(Ipv6Cidr { addr: 0x2001_0db8_0000_0000_0000_0000_0000_0000, prefix_len: 32 })
    );
    assert_eq!(Ipv6Cidr::from_line("::/0"), Some(Ipv6Cidr { addr: 0, prefix_len: 0 }));
    assert_eq!(
        Ipv6Cidr::from_line("::ffff:1.2.3.4/128"),
        Some(Ipv6Cidr { addr: 0xffff_0102_0304, prefix_len: 128 })
    );
    assert_eq!(
        Ipv6Cidr::from_line("2001:DB8:0:0:0:0:0:AbCd/64"),
        Some(Ipv6Cidr { addr: (0x2001_0db8 << 96) | 0xabcd, prefix_len: 64 })
    );
    assert_eq!(Ipv6Cidr::from_line("2001:db8::/129"), None);
    assert_eq!(Ipv6Cidr::from_line("# 2001:db8::/32"), None);
    assert_eq!(Ipv6Cidr::from_line("2001:db8::/32 "), None);
    assert_eq!(Ipv6Cidr::from_line(""), None);
    assert_eq!(Ipv6Cidr::from_line("2001:db8::"), None);
    assert_eq!(Ipv6Cidr::from_line("1.1.1.0/24"), None);
    assert_eq!(
        read_lines::<Ipv6Cidr>("# v6\n2001:db8::/32\nfoo\n\n  fd00::/8  \n"),
        vec![
            Ipv6Cidr { addr: 0x2001_0db8 << 96, prefix_len: 32 },
            Ipv6Cidr { addr: 0xfd00 << 112, prefix_len: 8 },
        ]
    );
}
