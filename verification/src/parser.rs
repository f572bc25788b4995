//! Decoding an address list: one candidate per line, lines that do not parse
//! dropped without a word.

use crate::route::{Ipv4Cidr, Ipv6Cidr};
use std::str::FromStr;
use vstd::prelude::*;
use vstd::slice::slice_subrange;

verus! {

/// Whether `c` has the Unicode property White_Space.
pub open spec fn is_whitespace(c: char) -> bool {
    let n = c as u32;
    ||| 0x09 <= n <= 0x0d
    ||| n == 0x20
    ||| n == 0x85
    ||| n == 0xa0
    ||| n == 0x1680
    ||| 0x2000 <= n <= 0x200a
    ||| n == 0x2028
    ||| n == 0x2029
    ||| n == 0x202f
    ||| n == 0x205f
    ||| n == 0x3000
}

/// `s` without its leading whitespace.
pub open spec fn trim_start(s: Seq<char>) -> Seq<char>
    decreases s.len(),
{
    if s.len() > 0 && is_whitespace(s.first()) {
        trim_start(s.drop_first())
    } else {
        s
    }
}

/// `s` without its trailing whitespace.
pub open spec fn trim_end(s: Seq<char>) -> Seq<char>
    decreases s.len(),
{
    if s.len() > 0 && is_whitespace(s.last()) {
        trim_end(s.drop_last())
    } else {
        s
    }
}

/// `s` without its leading and trailing whitespace.
pub open spec fn trim(s: Seq<char>) -> Seq<char> {
    trim_end(trim_start(s))
}

/// The length of the first line of `s`: the number of characters before its
/// first line feed, or all of them if it has none.
pub open spec fn first_line_len(s: Seq<char>) -> nat
    decreases s.len(),
{
    if s.len() == 0 || s.first() == '\n' {
        0
    } else {
        1 + first_line_len(s.drop_first())
    }
}

/// `line` without the carriage return at its end, if it has one.
pub open spec fn strip_cr(line: Seq<char>) -> Seq<char> {
    if line.len() > 0 && line.last() == '\r' {
        line.drop_last()
    } else {
        line
    }
}

/// The lines of `text`. A line ends at a line feed or at a carriage return
/// followed by a line feed, neither of which belongs to it; the last line
/// needs no line ending, and a text that ends with one has no empty line
/// after it.
pub open spec fn lines(text: Seq<char>) -> Seq<Seq<char>>
    decreases text.len(),
{
    if text.len() == 0 {
        Seq::empty()
    } else {
        let n = first_line_len(text) as int;
        if n < text.len() {
            seq![strip_cr(text.take(n))] + lines(text.skip(n + 1))
        } else {
            seq![text]
        }
    }
}

/// A value that one line of text stands for.
pub trait FromLine: Sized {
    /// The value that `line` stands for, if it stands for one.
    spec fn parse(line: Seq<char>) -> Option<Self>;

    fn from_line(line: &str) -> (r: Option<Self>)
        ensures
            r == Self::parse(line@),
    ;
}

/// What one line contributes to the decoded list: the value that the trimmed
/// line stands for, or nothing.
pub open spec fn item<T: FromLine>(line: Seq<char>) -> Seq<T> {
    match T::parse(trim(line)) {
        Some(value) => seq![value],
        None => Seq::empty(),
    }
}

/// What the lines contribute, each on its own, in order.
pub open spec fn items<T: FromLine>(lines: Seq<Seq<char>>) -> Seq<T>
    decreases lines.len(),
{
    if lines.len() == 0 {
        Seq::empty()
    } else {
        item::<T>(lines.first()) + items::<T>(lines.drop_first())
    }
}

/// The list that `text` decodes to.
pub open spec fn decode<T: FromLine>(text: Seq<char>) -> Seq<T> {
    items::<T>(lines(text))
}

/// Whether `c` is whitespace.
pub fn char_is_whitespace(c: char) -> (r: bool)
    ensures
        r == is_whitespace(c),
{
    let n: u32 = c as u32;
    (0x09 <= n && n <= 0x0d) || n == 0x20 || n == 0x85 || n == 0xa0 || n == 0x1680 || (0x2000 <= n
        && n <= 0x200a) || n == 0x2028 || n == 0x2029 || n == 0x202f || n == 0x205f || n == 0x3000
}

/// Trimming from the left stops at the first character that is no whitespace.
proof fn lemma_trim_start_skip(s: Seq<char>, k: int)
    requires
        0 <= k <= s.len(),
        forall|i: int| 0 <= i < k ==> is_whitespace(#[trigger] s[i]),
    ensures
        trim_start(s) == trim_start(s.skip(k)),
    decreases k,
{
    if k == 0 {
        assert(s.skip(0) =~= s);
    } else {
        lemma_trim_start_skip(s.drop_first(), k - 1);
        assert(s.drop_first().skip(k - 1) =~= s.skip(k));
    }
}

/// Trimming from the right stops at the last character that is no whitespace.
proof fn lemma_trim_end_take(s: Seq<char>, k: int)
    requires
        0 <= k <= s.len(),
        forall|i: int| k <= i < s.len() ==> is_whitespace(#[trigger] s[i]),
    ensures
        trim_end(s) == trim_end(s.take(k)),
    decreases s.len() - k,
{
    if k == s.len() {
        assert(s.take(k) =~= s);
    } else {
        lemma_trim_end_take(s.drop_last(), k);
        assert(s.drop_last().take(k) =~= s.take(k));
    }
}

/// The bounds of `line` without its leading and trailing whitespace.
pub fn trim_bounds(line: &[char]) -> (r: (usize, usize))
    ensures
        r.0 <= r.1 <= line@.len(),
        line@.subrange(r.0 as int, r.1 as int) == trim(line@),
{
    let mut start: usize = 0;
    while start < line.len() && char_is_whitespace(line[start])
        invariant
            start <= line@.len(),
            forall|i: int| 0 <= i < start ==> is_whitespace(#[trigger] line@[i]),
        decreases line@.len() - start,
    {
        start += 1;
    }
    let mut end: usize = line.len();
    while end > start && char_is_whitespace(line[end - 1])
        invariant
            start <= end <= line@.len(),
            forall|i: int| end <= i < line@.len() ==> is_whitespace(#[trigger] line@[i]),
        decreases end,
    {
        end -= 1;
    }
    proof {
        let rest = line@.skip(start as int);
        lemma_trim_start_skip(line@, start as int);
        assert(trim_start(line@) == rest) by {
            if rest.len() > 0 {
                assert(rest.first() == line@[start as int]);
            }
        }
        assert forall|i: int| end - start <= i < rest.len() implies is_whitespace(
            #[trigger] rest[i],
        ) by {
            assert(rest[i] == line@[i + start]);
        }
        lemma_trim_end_take(rest, end - start);
        let kept = rest.take(end - start);
        assert(kept =~= line@.subrange(start as int, end as int));
        assert(trim_end(rest) == kept) by {
            if kept.len() > 0 {
                assert(kept.last() == line@[end - 1]);
            }
        }
    }
    (start, end)
}

/// The text that a run of characters spells, through std's
/// `String::from_iter`, which is documented to collect the characters in
/// order.
#[verifier::external_body]
fn collect_chars(chars: &[char]) -> (text: String)
    ensures
        text@ == chars@,
{
    String::from_iter(chars)
}

/// Decodes one line: trims it and asks `T` for the value it stands for.
pub fn parse_line<T: FromLine>(line: &[char]) -> (r: Option<T>)
    ensures
        r == T::parse(trim(line@)),
{
    let (start, end) = trim_bounds(line);
    let text = collect_chars(slice_subrange(line, start, end));
    T::from_line(text.as_str())
}

/// Appends what a line was decoded to, if it was decoded to anything.
pub fn push_parsed<T>(list: &mut Vec<T>, parsed: Option<T>)
    ensures
        final(list)@ == old(list)@ + match parsed {
            Some(value) => seq![value],
            None => Seq::empty(),
        },
{
    match parsed {
        Some(value) => {
            list.push(value);
        },
        None => {
            assert(list@ + Seq::<T>::empty() =~= list@);
        },
    }
}

/// The first line of a text ends where its first line feed stands.
proof fn lemma_first_line_len(s: Seq<char>, k: int)
    requires
        0 <= k <= s.len(),
        forall|i: int| 0 <= i < k ==> #[trigger] s[i] != '\n',
        k < s.len() ==> s[k] == '\n',
    ensures
        first_line_len(s) == k,
    decreases k,
{
    if k > 0 {
        lemma_first_line_len(s.drop_first(), k - 1);
    }
}

/// Decodes a list: every line of `f` that stands for a `T` gives that value,
/// in order, and every other line gives nothing.
pub fn read_lines<T: FromLine>(f: &str) -> (list: Vec<T>)
    ensures
        list@ == decode::<T>(f@),
{
    let mut list: Vec<T> = Vec::new();
    let mut line: Vec<char> = Vec::new();
    let ghost mut begin: int = 0;
    proof {
        assert(f@.skip(0) =~= f@);
        assert(list@ + decode::<T>(f@) =~= decode::<T>(f@));
    }
    for c in it: f.chars()
        invariant
            it.seq() == f@,
            0 <= begin <= it.index(),
            line@ == f@.subrange(begin, it.index() as int),
            forall|i: int| 0 <= i < line@.len() ==> #[trigger] line@[i] != '\n',
            decode::<T>(f@) == list@ + decode::<T>(f@.skip(begin)),
    {
        if c == '\n' {
            let ghost rest = f@.skip(begin);
            proof {
                assert forall|i: int| 0 <= i < line@.len() implies #[trigger] rest[i] != '\n' by {
                    assert(rest[i] == line@[i]);
                }
                lemma_first_line_len(rest, line@.len() as int);
                assert(rest.take(line@.len() as int) =~= line@);
                assert(rest.skip(line@.len() as int + 1) =~= f@.skip(it.index() + 1));
            }
            if line.len() > 0 && line[line.len() - 1] == '\r' {
                line.pop();
            }
            let parsed = parse_line::<T>(line.as_slice());
            push_parsed(&mut list, parsed);
            line = Vec::new();
            proof {
                let ls = lines(rest);
                let tail = lines(f@.skip(it.index() + 1));
                assert(ls.drop_first() =~= tail);
                begin = it.index() + 1;
                assert(f@.subrange(begin, it.index() + 1) =~= Seq::<char>::empty());
            }
        } else {
            line.push(c);
            proof {
                assert(f@.subrange(begin, it.index() + 1) =~= f@.subrange(
                    begin,
                    it.index() as int,
                ).push(c));
            }
        }
    }
    proof {
        let rest = f@.skip(begin);
        assert(rest =~= line@);
        if line@.len() > 0 {
            lemma_first_line_len(rest, line@.len() as int);
            assert(lines(rest) =~= seq![rest]);
            assert(lines(rest).drop_first() =~= Seq::<Seq<char>>::empty());
            assert(items::<T>(Seq::<Seq<char>>::empty()) =~= Seq::<T>::empty());
            assert(seq![rest].first() == line@);
            assert(decode::<T>(rest) =~= item::<T>(line@));
        } else {
            assert(decode::<T>(rest) =~= Seq::<T>::empty());
            assert(list@ + Seq::<T>::empty() =~= list@);
        }
    }
    if line.len() > 0 {
        let parsed = parse_line::<T>(line.as_slice());
        push_parsed(&mut list, parsed);
    }
    list
}

/// Whether `c` is one of the ten ASCII digits.
pub open spec fn is_digit(c: char) -> bool {
    48 <= c as u32 <= 57
}

/// The number that the digits of `s` spell in base ten.
pub open spec fn decimal_value(s: Seq<char>) -> nat
    decreases s.len(),
{
    if s.len() == 0 {
        0
    } else {
        decimal_value(s.drop_last()) * 10 + (s.last() as u32 - 48) as nat
    }
}

/// Whether `s` is a run of one to `max_digits` digits, leading zeros
/// allowed, that spells a number up to `max_value`.
pub open spec fn is_numeral(s: Seq<char>, max_digits: nat, max_value: nat) -> bool {
    &&& 1 <= s.len() <= max_digits
    &&& forall|i: int| 0 <= i < s.len() ==> is_digit(#[trigger] s[i])
    &&& decimal_value(s) <= max_value
}

/// `head`, the separator, then `tail`.
pub open spec fn join(head: Seq<char>, sep: char, tail: Seq<char>) -> Seq<char> {
    head + seq![sep] + tail
}

/// Four runs joined by dots, then a slash and a fifth run.
pub open spec fn v4_text(
    a: Seq<char>,
    b: Seq<char>,
    c: Seq<char>,
    d: Seq<char>,
    n: Seq<char>,
) -> Seq<char> {
    join(a, '.', join(b, '.', join(c, '.', join(d, '/', n))))
}

/// The address with the octets `a`, `b`, `c`, `d`, the first one highest.
pub open spec fn v4_addr(a: nat, b: nat, c: nat, d: nat) -> nat {
    ((a * 256 + b) * 256 + c) * 256 + d
}

/// Whether `text` spells `net`: four numerals of up to three digits and up to
/// 255 for the octets, joined by dots, then a slash and a numeral of up to two
/// digits and up to 32 for the prefix length, and nothing else.
pub open spec fn v4_spells(text: Seq<char>, net: Ipv4Cidr) -> bool {
    exists|a: Seq<char>, b: Seq<char>, c: Seq<char>, d: Seq<char>, n: Seq<char>|
        {
            &&& #[trigger] v4_text(a, b, c, d, n) == text
            &&& is_numeral(a, 3, 255)
            &&& is_numeral(b, 3, 255)
            &&& is_numeral(c, 3, 255)
            &&& is_numeral(d, 3, 255)
            &&& is_numeral(n, 2, 32)
            &&& net.addr == v4_addr(
                decimal_value(a),
                decimal_value(b),
                decimal_value(c),
                decimal_value(d),
            )
            &&& net.prefix_len == decimal_value(n)
        }
}

/// What ipnet's `Ipv6Net::from_str` makes of a text: the address as a 128-bit
/// number and the prefix length, or nothing where it reports an error.
pub uninterp spec fn ipv6_net_of_text(text: Seq<char>) -> Option<(u128, u8)>;

/// Whether `c` can stand in the text of an IPv6 address block: a hexadecimal
/// digit, a colon, a dot or a slash.
pub open spec fn is_v6_char(c: char) -> bool {
    let n = c as u32;
    ||| 48 <= n <= 57
    ||| 65 <= n <= 70
    ||| 97 <= n <= 102
    ||| c == ':'
    ||| c == '.'
    ||| c == '/'
}

/// Whether `text` is not empty and holds nothing but characters that can
/// stand in the text of an IPv6 address block.
pub open spec fn is_v6_candidate(text: Seq<char>) -> bool {
    &&& text.len() > 0
    &&& forall|i: int| 0 <= i < text.len() ==> is_v6_char(#[trigger] text[i])
}

/// Calls ipnet's `Ipv4Net::from_str`. Its parser reads, from the first byte
/// to the last, four decimal numbers of at most three digits and below 256,
/// with a dot between them, a slash, and a decimal number of at most two
/// digits and below 33; it keeps the address as it was written.
#[verifier::external_body]
fn ipv4_net_from_str(line: &str) -> (r: Option<Ipv4Cidr>)
    ensures
        match r {
            Some(net) => v4_spells(line@, net),
            None => forall|net: Ipv4Cidr| !v4_spells(line@, net),
        },
{
    match ipnet::Ipv4Net::from_str(line) {
        Ok(net) => Some(Ipv4Cidr { addr: u32::from(net.addr()), prefix_len: net.prefix_len() }),
        Err(_) => None,
    }
}

/// Calls ipnet's `Ipv6Net::from_str`, whose result depends on the text alone.
/// Its parser reads the text from the first byte to the last and takes only
/// hexadecimal digits, colons, dots and a slash; it accepts no prefix length
/// above 128.
#[verifier::external_body]
fn ipv6_net_from_str(line: &str) -> (r: Option<(u128, u8)>)
    ensures
        r == ipv6_net_of_text(line@),
        r matches Some(net) ==> net.1 <= 128,
        r is Some ==> is_v6_candidate(line@),
{
    match ipnet::Ipv6Net::from_str(line) {
        Ok(net) => Some((u128::from(net.addr()), net.prefix_len())),
        Err(_) => None,
    }
}

/// A text splits at the first occurrence of a separator in one way only.
proof fn lemma_join_unique(
    head1: Seq<char>,
    tail1: Seq<char>,
    head2: Seq<char>,
    tail2: Seq<char>,
    sep: char,
)
    requires
        join(head1, sep, tail1) == join(head2, sep, tail2),
        !head1.contains(sep),
        !head2.contains(sep),
    ensures
        head1 == head2,
        tail1 == tail2,
{
    let text = join(head1, sep, tail1);
    assert(text[head1.len() as int] == sep);
    assert(join(head2, sep, tail2)[head2.len() as int] == sep);
    if head1.len() < head2.len() {
        assert(head2[head1.len() as int] == text[head1.len() as int]);
        assert(head2.contains(sep));
    }
    if head2.len() < head1.len() {
        assert(head1[head2.len() as int] == text[head2.len() as int]);
        assert(head1.contains(sep));
    }
    assert(head1 =~= head2) by {
        assert forall|i: int| 0 <= i < head1.len() implies head1[i] == head2[i] by {
            assert(head1[i] == text[i]);
            assert(head2[i] == join(head2, sep, tail2)[i]);
        }
    }
    assert(tail1 =~= tail2) by {
        assert(tail1.len() == text.len() - head1.len() - 1);
        assert(tail2.len() == join(head2, sep, tail2).len() - head2.len() - 1);
        assert forall|i: int| 0 <= i < tail1.len() implies tail1[i] == tail2[i] by {
            assert(tail1[i] == text[head1.len() + 1 + i]);
            assert(tail2[i] == join(head2, sep, tail2)[head2.len() + 1 + i]);
        }
    }
}

/// A numeral holds no dot and no slash.
proof fn lemma_numeral_has_no_separator(s: Seq<char>, max_digits: nat, max_value: nat)
    requires
        is_numeral(s, max_digits, max_value),
    ensures
        !s.contains('.'),
        !s.contains('/'),
{
    if s.contains('.') {
        let i = choose|i: int| 0 <= i < s.len() && s[i] == '.';
        assert(is_digit(s[i]));
    }
    if s.contains('/') {
        let i = choose|i: int| 0 <= i < s.len() && s[i] == '/';
        assert(is_digit(s[i]));
    }
}

/// A text spells at most one address block.
pub proof fn lemma_v4_spells_unique(text: Seq<char>, net1: Ipv4Cidr, net2: Ipv4Cidr)
    requires
        v4_spells(text, net1),
        v4_spells(text, net2),
    ensures
        net1 == net2,
{
    let (a1, b1, c1, d1, n1) = choose|
        a: Seq<char>,
        b: Seq<char>,
        c: Seq<char>,
        d: Seq<char>,
        n: Seq<char>,
    |
        {
            &&& #[trigger] v4_text(a, b, c, d, n) == text
            &&& is_numeral(a, 3, 255)
            &&& is_numeral(b, 3, 255)
            &&& is_numeral(c, 3, 255)
            &&& is_numeral(d, 3, 255)
            &&& is_numeral(n, 2, 32)
            &&& net1.addr == v4_addr(
                decimal_value(a),
                decimal_value(b),
                decimal_value(c),
                decimal_value(d),
            )
            &&& net1.prefix_len == decimal_value(n)
        };
    let (a2, b2, c2, d2, n2) = choose|
        a: Seq<char>,
        b: Seq<char>,
        c: Seq<char>,
        d: Seq<char>,
        n: Seq<char>,
    |
        {
            &&& #[trigger] v4_text(a, b, c, d, n) == text
            &&& is_numeral(a, 3, 255)
            &&& is_numeral(b, 3, 255)
            &&& is_numeral(c, 3, 255)
            &&& is_numeral(d, 3, 255)
            &&& is_numeral(n, 2, 32)
            &&& net2.addr == v4_addr(
                decimal_value(a),
                decimal_value(b),
                decimal_value(c),
                decimal_value(d),
            )
            &&& net2.prefix_len == decimal_value(n)
        };
    lemma_numeral_has_no_separator(a1, 3, 255);
    lemma_numeral_has_no_separator(a2, 3, 255);
    lemma_numeral_has_no_separator(b1, 3, 255);
    lemma_numeral_has_no_separator(b2, 3, 255);
    lemma_numeral_has_no_separator(c1, 3, 255);
    lemma_numeral_has_no_separator(c2, 3, 255);
    lemma_numeral_has_no_separator(d1, 3, 255);
    lemma_numeral_has_no_separator(d2, 3, 255);
    lemma_join_unique(
        a1,
        join(b1, '.', join(c1, '.', join(d1, '/', n1))),
        a2,
        join(b2, '.', join(c2, '.', join(d2, '/', n2))),
        '.',
    );
    lemma_join_unique(
        b1,
        join(c1, '.', join(d1, '/', n1)),
        b2,
        join(c2, '.', join(d2, '/', n2)),
        '.',
    );
    lemma_join_unique(c1, join(d1, '/', n1), c2, join(d2, '/', n2), '.');
    lemma_join_unique(d1, n1, d2, n2, '/');
}

impl FromLine for Ipv4Cidr {
    /// The address block that `line` spells, if it spells one.
    open spec fn parse(line: Seq<char>) -> Option<Self> {
        if exists|net: Ipv4Cidr| v4_spells(line, net) {
            Some(choose|net: Ipv4Cidr| v4_spells(line, net))
        } else {
            None
        }
    }

    fn from_line(line: &str) -> (r: Option<Self>) {
        let r = ipv4_net_from_str(line);
        proof {
            if let Some(net) = r {
                lemma_v4_spells_unique(line@, net, choose|net: Ipv4Cidr| v4_spells(line@, net));
            }
        }
        r
    }
}

impl FromLine for Ipv6Cidr {
    /// The address block that ipnet reads from `line`, if `line` can be the
    /// text of one and ipnet reads one.
    open spec fn parse(line: Seq<char>) -> Option<Self> {
        match ipv6_net_of_text(line) {
            Some((addr, prefix_len)) => if is_v6_candidate(line) && prefix_len <= 128 {
                Some(Ipv6Cidr { addr, prefix_len })
            } else {
                None
            },
            None => None,
        }
    }

    fn from_line(line: &str) -> (r: Option<Self>) {
        match ipv6_net_from_str(line) {
            Some((addr, prefix_len)) => Some(Ipv6Cidr { addr, prefix_len }),
            None => None,
        }
    }
}

/// The digit that stands for `d`, for `d` below ten.
pub open spec fn digit(d: nat) -> char {
    ((48 + d) as u8) as char
}

/// The usual way to write `n` in base ten: no leading zeros.
pub open spec fn decimal(n: nat) -> Seq<char>
    decreases n,
{
    if n < 10 {
        seq![digit(n)]
    } else {
        decimal(n / 10).push(digit(n % 10))
    }
}

/// The usual way to write a number is a run of digits that spells it, and it
/// is as long as the number is large.
pub proof fn lemma_decimal(n: nat)
    ensures
        forall|i: int| 0 <= i < decimal(n).len() ==> is_digit(#[trigger] decimal(n)[i]),
        decimal_value(decimal(n)) == n,
        decimal(n).len() >= 1,
        n < 10 ==> decimal(n).len() == 1,
        n < 100 ==> decimal(n).len() <= 2,
        n < 1000 ==> decimal(n).len() <= 3,
    decreases n,
{
    if n < 10 {
        assert(decimal(n).drop_last() =~= Seq::<char>::empty());
        assert(decimal_value(Seq::<char>::empty()) == 0);
        assert(decimal(n).last() == digit(n));
    } else {
        lemma_decimal(n / 10);
        assert(decimal(n).drop_last() =~= decimal(n / 10));
        assert(decimal(n).last() == digit(n % 10));
        assert forall|i: int| 0 <= i < decimal(n).len() implies is_digit(
            #[trigger] decimal(n)[i],
        ) by {
            if i < decimal(n / 10).len() {
                assert(decimal(n)[i] == decimal(n / 10)[i]);
            }
        }
    }
}

/// Every line of the form `a.b.c.d/n`, with each octet up to 255 and `n` up
/// to 32, all written the usual way, with or without whitespace around it,
/// decodes to exactly that address and that prefix length.
pub proof fn lemma_v4_line_decodes(line: Seq<char>, a: u8, b: u8, c: u8, d: u8, n: u8)
    requires
        n <= 32,
        trim(line) == v4_text(
            decimal(a as nat),
            decimal(b as nat),
            decimal(c as nat),
            decimal(d as nat),
            decimal(n as nat),
        ),
    ensures
        item::<Ipv4Cidr>(line) == seq![
            Ipv4Cidr {
                addr: v4_addr(a as nat, b as nat, c as nat, d as nat) as u32,
                prefix_len: n,
            },
        ],
        v4_addr(a as nat, b as nat, c as nat, d as nat) <= u32::MAX,
{
    let net = Ipv4Cidr {
        addr: v4_addr(a as nat, b as nat, c as nat, d as nat) as u32,
        prefix_len: n,
    };
    lemma_decimal(a as nat);
    lemma_decimal(b as nat);
    lemma_decimal(c as nat);
    lemma_decimal(d as nat);
    lemma_decimal(n as nat);
    assert(v4_spells(trim(line), net));
    lemma_v4_line_kept(line, net);
}

/// A line that, once trimmed, spells an address block contributes that
/// block, whose prefix length is at most 32.
pub proof fn lemma_v4_line_kept(line: Seq<char>, net: Ipv4Cidr)
    requires
        v4_spells(trim(line), net),
    ensures
        item::<Ipv4Cidr>(line) == seq![net],
        net.wf(),
{
    lemma_v4_spells_unique(trim(line), net, choose|other: Ipv4Cidr| v4_spells(trim(line), other));
}

/// A line that spells no address block contributes nothing.
pub proof fn lemma_v4_line_dropped(line: Seq<char>)
    requires
        forall|net: Ipv4Cidr| !v4_spells(trim(line), net),
    ensures
        item::<Ipv4Cidr>(line) == Seq::<Ipv4Cidr>::empty(),
{
}

/// Blank lines and comments are dropped: a line that is empty once trimmed,
/// or then begins with anything but a digit, contributes nothing to an IPv4
/// list.
pub proof fn lemma_v4_blank_or_comment_dropped(line: Seq<char>)
    requires
        trim(line).len() == 0 || !is_digit(trim(line).first()),
    ensures
        item::<Ipv4Cidr>(line) == Seq::<Ipv4Cidr>::empty(),
{
    let text = trim(line);
    assert forall|net: Ipv4Cidr| !v4_spells(text, net) by {
        if v4_spells(text, net) {
            let (a, b, c, d, n) = choose|
                a: Seq<char>,
                b: Seq<char>,
                c: Seq<char>,
                d: Seq<char>,
                n: Seq<char>,
            |
                #[trigger] v4_text(a, b, c, d, n) == text && is_numeral(a, 3, 255);
            assert(text.len() > 0);
            assert(text.first() == a[0]);
            assert(is_digit(a[0]));
        }
    }
}

/// Blank lines and comments are dropped from an IPv6 list too: a line that
/// is empty once trimmed, or then begins with a character that cannot stand
/// in the text of an address block, contributes nothing. What a line
/// contributes has a prefix length of at most 128.
pub proof fn lemma_v6_item(line: Seq<char>)
    ensures
        trim(line).len() == 0 || !is_v6_char(trim(line).first()) ==> item::<Ipv6Cidr>(line)
            == Seq::<Ipv6Cidr>::empty(),
        forall|i: int| 0 <= i < item::<Ipv6Cidr>(line).len() ==> (#[trigger] item::<Ipv6Cidr>(
            line,
        )[i]).wf(),
{
    if trim(line).len() > 0 && !is_v6_char(trim(line).first()) {
        assert(!is_v6_char(trim(line)[0]));
    }
}

/// Lines are decoded one by one: what a run of lines contributes is what its
/// first part contributes followed by what the rest contributes, whatever
/// either part holds.
pub proof fn lemma_items_concat<T: FromLine>(first: Seq<Seq<char>>, rest: Seq<Seq<char>>)
    ensures
        items::<T>(first + rest) == items::<T>(first) + items::<T>(rest),
    decreases first.len(),
{
    if first.len() == 0 {
        assert(first + rest =~= rest);
        assert(items::<T>(first) + items::<T>(rest) =~= items::<T>(rest));
    } else {
        lemma_items_concat::<T>(first.drop_first(), rest);
        assert((first + rest).drop_first() =~= first.drop_first() + rest);
        assert((first + rest).first() == first.first());
        assert(item::<T>(first.first()) + (items::<T>(first.drop_first()) + items::<T>(rest))
            =~= (item::<T>(first.first()) + items::<T>(first.drop_first())) + items::<T>(rest));
    }
}

} // verus!
