//! Text: Unicode white space, byte order and decimal digits.

use vstd::prelude::*;
use vstd::utf8::{encode_utf8, encode_utf8_decode_utf8};

verus! {

/// The characters of Unicode's `White_Space` property.
pub open spec fn white_space(c: char) -> bool {
    let u = c as int;
    ||| 0x09 <= u <= 0x0d
    ||| u == 0x20
    ||| u == 0x85
    ||| u == 0xa0
    ||| u == 0x1680
    ||| 0x2000 <= u <= 0x200a
    ||| u == 0x2028
    ||| u == 0x2029
    ||| u == 0x202f
    ||| u == 0x205f
    ||| u == 0x3000
}

/// Whether `c` is white space.
pub fn is_white_space(c: char) -> (res: bool)
    ensures
        res == white_space(c),
{
    let u: u32 = c as u32;
    (0x09 <= u && u <= 0x0d) || u == 0x20 || u == 0x85 || u == 0xa0 || u == 0x1680 || (0x2000 <= u
        && u <= 0x200a) || u == 0x2028 || u == 0x2029 || u == 0x202f || u == 0x205f || u == 0x3000
}

/// `s` without the white space it starts with.
pub open spec fn trimmed_start(s: Seq<char>) -> Seq<char>
    decreases s.len(),
{
    if s.len() > 0 && white_space(s[0]) {
        trimmed_start(s.skip(1))
    } else {
        s
    }
}

/// `s` without the white space it ends with.
pub open spec fn trimmed_end(s: Seq<char>) -> Seq<char>
    decreases s.len(),
{
    if s.len() > 0 && white_space(s[s.len() - 1]) {
        trimmed_end(s.take(s.len() - 1))
    } else {
        s
    }
}

/// `s` without the white space at its two ends.
pub open spec fn trimmed(s: Seq<char>) -> Seq<char> {
    trimmed_end(trimmed_start(s))
}

/// Whether `s` holds nothing but white space.
pub open spec fn blank(s: Seq<char>) -> bool {
    forall|i: int| 0 <= i < s.len() ==> white_space(#[trigger] s[i])
}

/// White space followed by something else is what `trimmed_start` drops.
proof fn lemma_trimmed_start(s: Seq<char>, from: int)
    requires
        0 <= from <= s.len(),
        forall|i: int| 0 <= i < from ==> white_space(#[trigger] s[i]),
        from < s.len() ==> !white_space(s[from]),
    ensures
        trimmed_start(s) == s.skip(from),
    decreases from,
{
    if from > 0 {
        assert(white_space(s[0]));
        let rest = s.skip(1);
        assert forall|i: int| 0 <= i < from - 1 implies white_space(#[trigger] rest[i]) by {
            assert(rest[i] == s[i + 1]);
        }
        lemma_trimmed_start(rest, from - 1);
        assert(rest.skip(from - 1) =~= s.skip(from));
    } else {
        assert(s.skip(0) =~= s);
    }
}

/// White space that follows something else is what `trimmed_end` drops.
proof fn lemma_trimmed_end(s: Seq<char>, to: int)
    requires
        0 <= to <= s.len(),
        forall|i: int| to <= i < s.len() ==> white_space(#[trigger] s[i]),
        to > 0 ==> !white_space(s[to - 1]),
    ensures
        trimmed_end(s) == s.take(to),
    decreases s.len() - to,
{
    if to < s.len() {
        assert(white_space(s[s.len() - 1]));
        let rest = s.take(s.len() - 1);
        assert forall|i: int| to <= i < rest.len() implies white_space(#[trigger] rest[i]) by {
            assert(rest[i] == s[i]);
        }
        lemma_trimmed_end(rest, to);
        assert(rest.take(to) =~= s.take(to));
    } else {
        assert(s.take(to) =~= s);
    }
}

/// Law: trimming leaves nothing exactly of a text that is all white space.
pub proof fn law_trimmed_empty_iff_blank(s: Seq<char>)
    ensures
        trimmed(s).len() == 0 <==> blank(s),
    decreases s.len(),
{
    if s.len() > 0 && white_space(s[0]) {
        let rest = s.skip(1);
        law_trimmed_empty_iff_blank(rest);
        if blank(rest) {
            assert forall|i: int| 0 <= i < s.len() implies white_space(#[trigger] s[i]) by {
                if i > 0 {
                    assert(s[i] == rest[i - 1]);
                }
            }
        }
        if blank(s) {
            assert forall|i: int| 0 <= i < rest.len() implies white_space(#[trigger] rest[i]) by {
                assert(rest[i] == s[i + 1]);
            }
        }
    } else if s.len() > 0 {
        lemma_trimmed_end_keeps_first(s);
        assert(!blank(s)) by {
            assert(!white_space(s[0]));
        }
    }
}

proof fn lemma_trimmed_end_keeps_first(s: Seq<char>)
    requires
        s.len() > 0,
        !white_space(s[0]),
    ensures
        trimmed_end(s).len() > 0,
        trimmed_end(s)[0] == s[0],
    decreases s.len(),
{
    if white_space(s[s.len() - 1]) {
        lemma_trimmed_end_keeps_first(s.take(s.len() - 1));
    }
}

proof fn lemma_trimmed_end_settles(s: Seq<char>)
    ensures
        trimmed_end(s).len() > 0 ==> !white_space(trimmed_end(s).last()),
    decreases s.len(),
{
    if s.len() > 0 && white_space(s[s.len() - 1]) {
        lemma_trimmed_end_settles(s.take(s.len() - 1));
    }
}

proof fn lemma_trimmed_start_settles(s: Seq<char>)
    ensures
        trimmed_start(s).len() > 0 ==> !white_space(trimmed_start(s)[0]),
    decreases s.len(),
{
    if s.len() > 0 && white_space(s[0]) {
        lemma_trimmed_start_settles(s.skip(1));
    }
}

/// Law: trimming a trimmed text changes nothing.
pub proof fn law_trimming_twice(s: Seq<char>)
    ensures
        trimmed(trimmed(s)) == trimmed(s),
{
    let start = trimmed_start(s);
    lemma_trimmed_start_settles(s);
    lemma_trimmed_end_settles(start);
    if trimmed(s).len() > 0 {
        if start.len() > 0 {
            lemma_trimmed_end_keeps_first(start);
        }
    }
}

/// Law: trimming takes all the white space off the two ends of a text, and nothing else. What
/// stands between white space, and neither starts nor ends with any, is what is left.
pub proof fn law_trimming_takes_the_ends_off(head: Seq<char>, middle: Seq<char>, tail: Seq<char>)
    requires
        forall|i: int| 0 <= i < head.len() ==> white_space(#[trigger] head[i]),
        forall|i: int| 0 <= i < tail.len() ==> white_space(#[trigger] tail[i]),
        middle.len() > 0 ==> !white_space(middle[0]) && !white_space(middle[middle.len() - 1]),
    ensures
        trimmed(head + middle + tail) == middle,
{
    let s = head + middle + tail;
    if middle.len() == 0 {
        assert forall|i: int| 0 <= i < s.len() implies white_space(#[trigger] s[i]) by {
            if i < head.len() {
                assert(s[i] == head[i]);
            } else {
                assert(s[i] == tail[i - head.len()]);
            }
        }
        lemma_trimmed_start(s, s.len() as int);
        assert(s.skip(s.len() as int) =~= middle);
    } else {
        let from = head.len() as int;
        assert forall|i: int| 0 <= i < from implies white_space(#[trigger] s[i]) by {
            assert(s[i] == head[i]);
        }
        assert(s[from] == middle[0]);
        lemma_trimmed_start(s, from);
        let start = s.skip(from);
        let to = middle.len() as int;
        assert forall|i: int| to <= i < start.len() implies white_space(#[trigger] start[i]) by {
            assert(start[i] == tail[i - to]);
        }
        assert(start[to - 1] == middle[to - 1]);
        lemma_trimmed_end(start, to);
        assert(start.take(to) =~= middle);
    }
}

/// `text` without the white space at its two ends.
pub fn trim(text: &str) -> (res: String)
    ensures
        res@ == trimmed(text@),
{
    let mut chars: Vec<char> = Vec::new();
    for c in it: text.chars()
        invariant
            chars@ == text@.take(it.index() as int),
            it.seq() == text@,
    {
        chars.push(c);
        assert(text@.take(it.index() + 1) =~= text@.take(it.index() as int).push(c));
    }
    assert(chars@ =~= text@);
    let len = chars.len();
    let mut from: usize = 0;
    while from < len && is_white_space(chars[from])
        invariant
            chars@ == text@,
            len == chars.len(),
            from <= len,
            forall|i: int| 0 <= i < from ==> white_space(#[trigger] text@[i]),
        decreases len - from,
    {
        from = from + 1;
    }
    let mut to: usize = len;
    while to > from && is_white_space(chars[to - 1])
        invariant
            chars@ == text@,
            len == chars.len(),
            from <= to <= len,
            forall|i: int| to <= i < len ==> white_space(#[trigger] text@[i]),
        decreases to,
    {
        to = to - 1;
    }
    proof {
        lemma_trimmed_start(text@, from as int);
        let start = text@.skip(from as int);
        assert forall|i: int| to - from <= i < start.len() implies white_space(
            #[trigger] start[i],
        ) by {
            assert(start[i] == text@[i + from]);
        }
        lemma_trimmed_end(start, to - from);
        assert(start.take(to - from) =~= text@.subrange(from as int, to as int));
    }
    text.substring_char(from, to).to_owned()
}

/// Whether `a` stands before `b` in the order of byte strings and position `at` decides it:
/// they agree up to there, and there `a` ends or holds the smaller byte.
pub open spec fn bytes_before_at(a: Seq<u8>, b: Seq<u8>, at: int) -> bool {
    &&& 0 <= at <= a.len()
    &&& at < b.len()
    &&& forall|i: int| 0 <= i < at ==> #[trigger] a[i] == b[i]
    &&& at < a.len() ==> a[at] < b[at]
}

/// Whether `a` stands before `b` in the order of texts: lexicographically, by the bytes of
/// their UTF-8 encodings.
pub open spec fn before(a: Seq<char>, b: Seq<char>) -> bool {
    exists|at: int| bytes_before_at(encode_utf8(a), encode_utf8(b), at)
}

/// Law: no text stands before itself.
pub proof fn law_before_irreflexive(a: Seq<char>)
    ensures
        !before(a, a),
{
}

/// Law: the order of texts is transitive.
pub proof fn law_before_transitive(a: Seq<char>, b: Seq<char>, c: Seq<char>)
    requires
        before(a, b),
        before(b, c),
    ensures
        before(a, c),
{
    let (x, y, z) = (encode_utf8(a), encode_utf8(b), encode_utf8(c));
    let i = choose|at: int| bytes_before_at(x, y, at);
    let j = choose|at: int| bytes_before_at(y, z, at);
    let k = if i < j {
        i
    } else {
        j
    };
    assert forall|n: int| 0 <= n < k implies #[trigger] x[n] == z[n] by {
        assert(x[n] == y[n]);
        assert(y[n] == z[n]);
    }
    if i < j {
        assert(y[i] == z[i]);
    } else if j < i {
        assert(x[j] == y[j]);
    }
    assert(bytes_before_at(x, z, k));
}

/// The first position at which two byte strings differ decides their order.
proof fn lemma_bytes_decided(a: Seq<u8>, b: Seq<u8>, from: int) -> (at: int)
    requires
        0 <= from <= a.len(),
        from <= b.len(),
        forall|i: int| 0 <= i < from ==> #[trigger] a[i] == b[i],
    ensures
        a == b || bytes_before_at(a, b, at) || bytes_before_at(b, a, at),
    decreases a.len() - from,
{
    if from < a.len() && from < b.len() && a[from] == b[from] {
        lemma_bytes_decided(a, b, from + 1)
    } else {
        if from == a.len() && from == b.len() {
            assert(a =~= b);
        }
        assert forall|i: int| 0 <= i < from implies #[trigger] b[i] == a[i] by {
            assert(a[i] == b[i]);
        }
        from
    }
}

/// Law: of two texts that differ, one stands before the other.
pub proof fn law_before_total(a: Seq<char>, b: Seq<char>)
    ensures
        a == b || before(a, b) || before(b, a),
{
    let _ = lemma_bytes_decided(encode_utf8(a), encode_utf8(b), 0);
    if encode_utf8(a) == encode_utf8(b) {
        lemma_encoding_injective(a, b);
    }
}

/// Law: the first byte in which the UTF-8 encodings of two texts differ decides which of them
/// stands first.
pub proof fn law_first_byte_that_differs_decides(
    a: Seq<char>,
    b: Seq<char>,
    shared: Seq<u8>,
    x: u8,
    y: u8,
    rest_a: Seq<u8>,
    rest_b: Seq<u8>,
)
    requires
        encode_utf8(a) == shared + seq![x] + rest_a,
        encode_utf8(b) == shared + seq![y] + rest_b,
        x < y,
    ensures
        before(a, b),
        !before(b, a),
{
    let at = shared.len() as int;
    let (p, q) = (encode_utf8(a), encode_utf8(b));
    assert(p[at] == x && q[at] == y);
    assert forall|i: int| 0 <= i < at implies #[trigger] p[i] == q[i] by {
        assert(p[i] == shared[i] && q[i] == shared[i]);
    }
    assert(bytes_before_at(p, q, at));
    if before(b, a) {
        law_before_transitive(a, b, a);
        law_before_irreflexive(a);
    }
}

/// Law: a text whose UTF-8 encoding starts that of a longer one stands before it.
pub proof fn law_start_stands_before_the_whole(a: Seq<char>, b: Seq<char>, more: Seq<u8>)
    requires
        encode_utf8(b) == encode_utf8(a) + more,
        more.len() > 0,
    ensures
        before(a, b),
        !before(b, a),
{
    let (p, q) = (encode_utf8(a), encode_utf8(b));
    assert forall|i: int| 0 <= i < p.len() implies #[trigger] p[i] == q[i] by {}
    assert(bytes_before_at(p, q, p.len() as int));
    if before(b, a) {
        law_before_transitive(a, b, a);
        law_before_irreflexive(a);
    }
}

/// Texts with one encoding are one text.
proof fn lemma_encoding_injective(a: Seq<char>, b: Seq<char>)
    requires
        encode_utf8(a) == encode_utf8(b),
    ensures
        a == b,
{
    encode_utf8_decode_utf8(a);
    encode_utf8_decode_utf8(b);
}

/// Where one text stands relative to another.
#[derive(Debug, Clone, Copy, PartialEq, Eq)]
pub enum Place {
    Before,
    Same,
    After,
}

/// Where `a` stands relative to `b` in the order of texts.
pub fn place(a: &str, b: &str) -> (res: Place)
    ensures
        res is Before <==> before(a@, b@),
        res is Same <==> a@ == b@,
        res is After <==> before(b@, a@),
{
    let x: &[u8] = a.as_bytes();
    let y: &[u8] = b.as_bytes();
    let mut at: usize = 0;
    while at < x.len() && at < y.len() && x[at] == y[at]
        invariant
            at <= x.len(),
            at <= y.len(),
            forall|i: int| 0 <= i < at ==> #[trigger] x@[i] == y@[i],
        decreases x.len() - at,
    {
        at = at + 1;
    }
    proof {
        if before(a@, b@) && before(b@, a@) {
            law_before_transitive(a@, b@, a@);
        }
        law_before_irreflexive(a@);
    }
    if at == x.len() && at == y.len() {
        proof {
            assert(x@ =~= y@);
            lemma_encoding_injective(a@, b@);
        }
        Place::Same
    } else if at == x.len() || (at < y.len() && x[at] < y[at]) {
        assert(bytes_before_at(x@, y@, at as int));
        Place::Before
    } else {
        assert forall|i: int| 0 <= i < at implies #[trigger] y@[i] == x@[i] by {
            assert(x@[i] == y@[i]);
        }
        assert(bytes_before_at(y@, x@, at as int));
        Place::After
    }
}

/// Whether `a` and `b` hold the same bytes.
pub fn same_bytes(a: &[u8], b: &[u8]) -> (res: bool)
    ensures
        res == (a@ == b@),
{
    if a.len() != b.len() {
        return false;
    }
    let mut at: usize = 0;
    while at < a.len()
        invariant
            a.len() == b.len(),
            at <= a.len(),
            forall|i: int| 0 <= i < at ==> #[trigger] a@[i] == b@[i],
        decreases a.len() - at,
    {
        if a[at] != b[at] {
            return false;
        }
        at = at + 1;
    }
    assert(a@ =~= b@);
    true
}

/// Whether `a` and `b` are the same text.
pub fn same_text(a: &str, b: &str) -> (res: bool)
    ensures
        res == (a@ == b@),
{
    proof {
        if encode_utf8(a@) == encode_utf8(b@) {
            lemma_encoding_injective(a@, b@);
        }
    }
    same_bytes(a.as_bytes(), b.as_bytes())
}

/// The decimal digit of `d`.
pub open spec fn digit(d: nat) -> char {
    (('0' as nat) + d) as char
}

/// `n` in decimal, without leading zeros.
pub open spec fn decimal(n: nat) -> Seq<char>
    decreases n,
{
    if n < 10 {
        seq![digit(n)]
    } else {
        decimal(n / 10).push(digit(n % 10))
    }
}

/// The number that a row of digits reads as, the most significant first.
pub open spec fn reading(digits: Seq<char>) -> int
    decreases digits.len(),
{
    if digits.len() == 0 {
        0
    } else {
        reading(digits.take(digits.len() - 1)) * 10 + (digits[digits.len() - 1] as int - '0' as int)
    }
}

/// Law: a number in decimal reads back as that number. It is written in the digits 0 to 9, with
/// no zero in front but that of the number zero.
pub proof fn law_decimal_reads_back(n: nat)
    ensures
        reading(decimal(n)) == n,
        decimal(n).len() > 0,
        forall|i: int| 0 <= i < decimal(n).len() ==> '0' as int <= #[trigger] decimal(n)[i] as int
            <= '9' as int,
        decimal(n)[0] == '0' ==> n == 0,
    decreases n,
{
    let digits = decimal(n);
    if n < 10 {
        assert(digits.take(0) =~= Seq::<char>::empty());
        assert(reading(digits.take(0)) == 0);
        assert(digits[0] as int == '0' as int + n);
    } else {
        law_decimal_reads_back(n / 10);
        let rest = decimal(n / 10);
        assert(digits.take(digits.len() - 1) =~= rest);
        assert(digits[digits.len() - 1] as int == '0' as int + n % 10);
        assert(digits[0] == rest[0]);
        assert forall|i: int| 0 <= i < digits.len() implies '0' as int
            <= #[trigger] digits[i] as int <= '9' as int by {
            if i < rest.len() {
                assert(digits[i] == rest[i]);
            }
        }
    }
}

/// Law: two numbers that read the same in decimal are one.
pub proof fn law_decimals_differ(m: nat, n: nat)
    requires
        decimal(m) == decimal(n),
    ensures
        m == n,
{
    law_decimal_reads_back(m);
    law_decimal_reads_back(n);
}

fn digit_text(d: u64) -> (res: &'static str)
    requires
        d < 10,
    ensures
        res@ == seq![digit(d as nat)],
{
    proof {
        reveal_strlit("0");
        reveal_strlit("1");
        reveal_strlit("2");
        reveal_strlit("3");
        reveal_strlit("4");
        reveal_strlit("5");
        reveal_strlit("6");
        reveal_strlit("7");
        reveal_strlit("8");
        reveal_strlit("9");
    }
    if d == 0 {
        "0"
    } else if d == 1 {
        "1"
    } else if d == 2 {
        "2"
    } else if d == 3 {
        "3"
    } else if d == 4 {
        "4"
    } else if d == 5 {
        "5"
    } else if d == 6 {
        "6"
    } else if d == 7 {
        "7"
    } else if d == 8 {
        "8"
    } else {
        "9"
    }
}

/// `n` in decimal.
pub fn decimal_text(n: u64) -> (res: String)
    ensures
        res@ == decimal(n as nat),
    decreases n,
{
    if n < 10 {
        digit_text(n).to_owned()
    } else {
        let mut text = decimal_text(n / 10);
        text.append(digit_text(n % 10));
        assert(text@ =~= decimal(n as nat));
        text
    }
}

} // verus!
