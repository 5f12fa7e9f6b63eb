//! Text primitives on character sequences: Unicode white space, splitting into
//! words, substring search, lower-casing, decimal numerals.

use vstd::prelude::*;
use vstd::string::StringExecFns;

verus! {

/// The characters with the Unicode `White_Space` property.
pub open spec fn is_space(c: char) -> bool {
    let u: u32 = c as u32;
    ||| 0x09 <= u <= 0x0D
    ||| u == 0x20
    ||| u == 0x85
    ||| u == 0xA0
    ||| u == 0x1680
    ||| 0x2000 <= u <= 0x200A
    ||| u == 0x2028
    ||| u == 0x2029
    ||| u == 0x202F
    ||| u == 0x205F
    ||| u == 0x3000
}

/// Whether `c` is Unicode white space.
pub fn is_space_char(c: char) -> (b: bool)
    ensures
        b == is_space(c),
{
    let u: u32 = c as u32;
    (0x09 <= u && u <= 0x0D) || u == 0x20 || u == 0x85 || u == 0xA0 || u == 0x1680 || (0x2000
        <= u && u <= 0x200A) || u == 0x2028 || u == 0x2029 || u == 0x202F || u == 0x205F || u
        == 0x3000
}

/// The characters of `s`, in order.
pub fn chars_of(s: &str) -> (v: Vec<char>)
    ensures
        v@ == s@,
{
    let mut v: Vec<char> = Vec::new();
    for c in it: s.chars()
        invariant
            v@ == it.seq().take(it.index() as int),
    {
        v.push(c);
    }
    v
}

/// The words of `s`: its maximal runs of characters that are not white space,
/// in order. A character that is not white space extends the word before it
/// when it directly follows it, and starts a new word otherwise.
pub open spec fn words(s: Seq<char>) -> Seq<Seq<char>>
    decreases s.len(),
{
    if s.len() == 0 {
        seq![]
    } else {
        let prev = words(s.drop_last());
        let c = s.last();
        if is_space(c) {
            prev
        } else if s.len() >= 2 && !is_space(s[s.len() - 2]) {
            prev.drop_last().push(prev.last().push(c))
        } else {
            prev.push(seq![c])
        }
    }
}

/// The contents of a list of character vectors.
pub open spec fn views(ws: Seq<Vec<char>>) -> Seq<Seq<char>> {
    ws.map_values(|w: Vec<char>| w@)
}

/// Splits `s` into its words, as `str::split_whitespace` does.
pub fn split_words(s: &Vec<char>) -> (ws: Vec<Vec<char>>)
    ensures
        views(ws@) == words(s@),
{
    let mut out: Vec<Vec<char>> = Vec::new();
    let mut cur: Vec<char> = Vec::new();
    let mut i: usize = 0;
    while i < s.len()
        invariant
            i <= s.len(),
            cur@.len() > 0 <==> (i > 0 && !is_space(s@[i - 1])),
            cur@.len() > 0 ==> words(s@.take(i as int)) == views(out@).push(cur@),
            cur@.len() == 0 ==> words(s@.take(i as int)) == views(out@),
        decreases s.len() - i,
    {
        let c = s[i];
        assert(s@.take(i + 1).drop_last() =~= s@.take(i as int));
        if is_space_char(c) {
            if cur.len() > 0 {
                let ghost before = out@;
                out.push(cur);
                assert(views(out@) =~= views(before).push(cur@));
                cur = Vec::new();
            }
        } else {
            let ghost prev = views(out@);
            let ghost old_cur = cur@;
            cur.push(c);
            proof {
                if i > 0 {
                    assert(s@.take(i + 1)[i - 1] == s@[i - 1]);
                }
                if old_cur.len() > 0 {
                    assert(prev.push(old_cur).drop_last() =~= prev);
                    assert(prev.push(old_cur).last() == old_cur);
                } else {
                    assert(cur@ =~= seq![c]);
                }
            }
        }
        i += 1;
    }
    if cur.len() > 0 {
        let ghost before = out@;
        out.push(cur);
        assert(views(out@) =~= views(before).push(cur@));
    }
    assert(s@.take(s@.len() as int) =~= s@);
    out
}

/// `needle` occurs in `hay` starting at position `i`.
pub open spec fn occurs_at(hay: Seq<char>, needle: Seq<char>, i: int) -> bool {
    &&& 0 <= i
    &&& i + needle.len() <= hay.len()
    &&& hay.subrange(i, i + needle.len()) == needle
}

/// `needle` occurs somewhere in `hay` (the empty text occurs everywhere).
pub open spec fn contains_text(hay: Seq<char>, needle: Seq<char>) -> bool {
    exists|i: int| occurs_at(hay, needle, i)
}

/// Whether `needle` occurs in `hay`, as `str::contains` answers it.
pub fn contains_chars(hay: &Vec<char>, needle: &Vec<char>) -> (b: bool)
    ensures
        b == contains_text(hay@, needle@),
{
    if needle.len() > hay.len() {
        return false;
    }
    let last: usize = hay.len() - needle.len();
    let mut i: usize = 0;
    while i <= last
        invariant
            last + needle.len() == hay.len(),
            i <= last + 1,
            forall|k: int| 0 <= k < i ==> !occurs_at(hay@, needle@, k),
        decreases last + 1 - i,
    {
        let mut j: usize = 0;
        while j < needle.len()
            invariant
                i <= last,
                last + needle.len() == hay.len(),
                j <= needle@.len(),
                forall|t: int| 0 <= t < j ==> hay@[i + t] == needle@[t],
            ensures
                j == needle@.len() || (j < needle@.len() && hay@[i + j] != needle@[j as int]),
                forall|t: int| 0 <= t < j ==> hay@[i + t] == needle@[t],
            decreases needle@.len() - j,
        {
            if hay[i + j] != needle[j] {
                break;
            }
            j += 1;
        }
        if j == needle.len() {
            assert(hay@.subrange(i as int, i + needle@.len()) =~= needle@);
            assert(occurs_at(hay@, needle@, i as int));
            return true;
        }
        assert(hay@.subrange(i as int, i + needle@.len())[j as int] == hay@[i + j]);
        i = i + 1;
    }
    false
}

/// The lower-case form of a text, as `str::to_lowercase` computes it: each
/// character mapped by the Unicode lower-case mapping, with the final-sigma
/// rule of the Unicode standard.
pub uninterp spec fn lowercase(s: Seq<char>) -> Seq<char>;

/// All characters of `s` are ASCII.
pub open spec fn is_ascii_text(s: Seq<char>) -> bool {
    forall|i: int| 0 <= i < s.len() ==> (s[i] as u32) < 128
}

/// The ASCII lower-case form of one character.
pub open spec fn ascii_lower(c: char) -> char {
    if 65 <= (c as u32) <= 90 {
        ((c as u32) + 32) as char
    } else {
        c
    }
}

/// `str::to_lowercase`. Its result is named `lowercase`; on ASCII text it is
/// the ASCII lower-casing of each character, as the Unicode case mapping
/// that the function follows gives it. What it does on other characters is
/// left to the name.
#[verifier::external_body]
fn to_lowercase(s: &str) -> (res: String)
    ensures
        res@ == lowercase(s@),
        is_ascii_text(s@) ==> res@ == s@.map_values(|c: char| ascii_lower(c)),
{
    s.to_lowercase()
}

/// The characters of the lower-case form of `s`.
pub fn lowercase_chars(s: &str) -> (v: Vec<char>)
    ensures
        v@ == lowercase(s@),
        is_ascii_text(s@) ==> v@ == s@.map_values(|c: char| ascii_lower(c)),
{
    let lower = to_lowercase(s);
    chars_of(lower.as_str())
}

/// `String::push`: appends one character.
#[verifier::external_body]
fn push_char(s: &mut String, c: char)
    ensures
        final(s)@ == old(s)@.push(c),
{
    s.push(c);
}

/// The string of the characters `v`.
pub fn string_of(v: &Vec<char>) -> (s: String)
    ensures
        s@ == v@,
{
    let mut s = String::new();
    for i in 0..v.len()
        invariant
            s@ == v@.take(i as int),
    {
        push_char(&mut s, v[i]);
        assert(v@.take(i + 1) =~= v@.take(i as int).push(v@[i as int]));
    }
    assert(v@.take(v@.len() as int) =~= v@);
    s
}

/// `suffix` ends `s`.
pub open spec fn ends_with(s: Seq<char>, suffix: Seq<char>) -> bool {
    suffix.len() <= s.len() && s.subrange(s.len() - suffix.len(), s.len() as int) == suffix
}

/// `p` is a prefix of `s`.
pub open spec fn starts_with(s: Seq<char>, p: Seq<char>) -> bool {
    p.len() <= s.len() && s.take(p.len() as int) == p
}

/// Whether `p` is a prefix of `s`.
pub fn starts_with_chars(s: &Vec<char>, p: &Vec<char>) -> (b: bool)
    ensures
        b == starts_with(s@, p@),
{
    if p.len() > s.len() {
        return false;
    }
    for i in 0..p.len()
        invariant
            p@.len() <= s@.len(),
            forall|t: int| 0 <= t < i ==> s@[t] == p@[t],
    {
        if s[i] != p[i] {
            assert(s@.take(p@.len() as int)[i as int] != p@[i as int]);
            return false;
        }
    }
    assert(s@.take(p@.len() as int) =~= p@);
    true
}

/// Appends `t` to `s`.
pub fn push_text(s: &mut String, t: &str)
    ensures
        final(s)@ == old(s)@ + t@,
{
    s.append(t);
}

/// Appends `t` to `s` that holds `start + acc`, so that it holds
/// `start + (acc + t)`.
pub(crate) fn push_part(s: &mut String, t: &str, Ghost(start): Ghost<Seq<char>>, Ghost(acc): Ghost<Seq<char>>)
    requires
        old(s)@ == start + acc,
    ensures
        final(s)@ == start + (acc + t@),
{
    push_text(s, t);
    assert(s@ =~= start + (acc + t@));
}

/// The decimal digit character for `d < 10`.
pub open spec fn digit_char(d: nat) -> char {
    (d + 48) as char
}

/// The decimal numeral of `n`, without sign or leading zeros.
pub open spec fn decimal(n: nat) -> Seq<char>
    decreases n,
{
    if n < 10 {
        seq![digit_char(n)]
    } else {
        decimal(n / 10).push(digit_char(n % 10))
    }
}

/// Appends the decimal numeral of `n` to `out`.
pub fn push_decimal(out: &mut String, n: u64)
    ensures
        final(out)@ == old(out)@ + decimal(n as nat),
    decreases n,
{
    if n >= 10 {
        push_decimal(out, n / 10);
    }
    let d: u8 = (n % 10) as u8;
    push_char(out, (d + 48) as char);
    assert(out@ =~= old(out)@ + decimal(n as nat));
}

/// The contents of a list of strings.
pub open spec fn string_views(items: Seq<String>) -> Seq<Seq<char>> {
    items.map_values(|t: String| t@)
}

/// `items` joined with `sep` between neighbours, as `[String]::join` gives it.
pub open spec fn joined(items: Seq<Seq<char>>, sep: Seq<char>) -> Seq<char>
    decreases items.len(),
{
    if items.len() == 0 {
        seq![]
    } else if items.len() == 1 {
        items[0]
    } else {
        joined(items.drop_last(), sep) + sep + items.last()
    }
}

/// Appends the strings of `items`, separated by `sep`, to `out`.
pub fn push_joined(out: &mut String, items: &Vec<String>, sep: &str)
    ensures
        final(out)@ == old(out)@ + joined(string_views(items@), sep@),
{
    let ghost start = out@;
    let mut i: usize = 0;
    while i < items.len()
        invariant
            i <= items@.len(),
            out@ == start + joined(string_views(items@.take(i as int)), sep@),
        decreases items@.len() - i,
    {
        assert(string_views(items@.take(i + 1)).drop_last() =~= string_views(
            items@.take(i as int),
        ));
        if i > 0 {
            push_text(out, sep);
        }
        push_text(out, items[i].as_str());
        assert(out@ =~= start + joined(string_views(items@.take(i + 1)), sep@));
        i += 1;
    }
    assert(items@.take(items@.len() as int) =~= items@);
}

/// Why text is not the numeral of an unsigned integer of a given type; the
/// kinds of `core::num::ParseIntError` that such a parse can give.
#[derive(Debug, Clone, Copy, PartialEq, Eq, Structural)]
pub enum IntErrorKind {
    /// The text is empty.
    Empty,
    /// The text holds a character that is not a digit where a digit belongs.
    InvalidDigit,
    /// The numeral is larger than the type can hold.
    PosOverflow,
}

impl IntErrorKind {
    /// The message that `ParseIntError` displays for this kind.
    pub fn message(&self) -> (m: &'static str)
        ensures
            m@ == match self {
                IntErrorKind::Empty => "cannot parse integer from empty string"@,
                IntErrorKind::InvalidDigit => "invalid digit found in string"@,
                IntErrorKind::PosOverflow => "number too large to fit in target type"@,
            },
    {
        match self {
            IntErrorKind::Empty => "cannot parse integer from empty string",
            IntErrorKind::InvalidDigit => "invalid digit found in string",
            IntErrorKind::PosOverflow => "number too large to fit in target type",
        }
    }
}

/// `c` is an ASCII decimal digit.
pub open spec fn is_digit(c: char) -> bool {
    48 <= (c as u32) <= 57
}

/// The value of the ASCII decimal digit `c`.
pub open spec fn digit_value(c: char) -> nat {
    ((c as u32) - 48) as nat
}

/// Reads the digits `ds` from the left onto the value `acc` read so far:
/// the first character that is not a digit, or the first digit that takes
/// the value past `max`, ends the reading with an error.
pub open spec fn read_digits(ds: Seq<char>, acc: nat, max: nat) -> Result<nat, IntErrorKind>
    decreases ds.len(),
{
    if ds.len() == 0 {
        Ok(acc)
    } else if !is_digit(ds[0]) {
        Err(IntErrorKind::InvalidDigit)
    } else if acc * 10 + digit_value(ds[0]) > max {
        Err(IntErrorKind::PosOverflow)
    } else {
        read_digits(ds.drop_first(), acc * 10 + digit_value(ds[0]), max)
    }
}

/// The value of the decimal numeral `s` for an unsigned type whose largest
/// value is `max`, as `FromStr` for the unsigned integer types reads it: an
/// optional `+` sign, then at least one digit.
pub open spec fn parse_unsigned(s: Seq<char>, max: nat) -> Result<nat, IntErrorKind> {
    if s.len() == 0 {
        Err(IntErrorKind::Empty)
    } else if s[0] == '+' {
        if s.len() == 1 {
            Err(IntErrorKind::InvalidDigit)
        } else {
            read_digits(s.drop_first(), 0, max)
        }
    } else {
        read_digits(s, 0, max)
    }
}

/// `r` is the machine form of the spec result `spec`.
pub open spec fn same_result(r: Result<u64, IntErrorKind>, spec: Result<nat, IntErrorKind>) -> bool {
    match spec {
        Ok(v) => r == Ok::<u64, IntErrorKind>(v as u64) && v <= u64::MAX,
        Err(e) => r == Err::<u64, IntErrorKind>(e),
    }
}

/// Parses the decimal numeral `s` for an unsigned type whose largest value is
/// `max`.
pub fn parse_decimal(s: &str, max: u64) -> (r: Result<u64, IntErrorKind>)
    ensures
        same_result(r, parse_unsigned(s@, max as nat)),
        r matches Ok(v) ==> v <= max,
{
    let cs = chars_of(s);
    if cs.len() == 0 {
        return Err(IntErrorKind::Empty);
    }
    let mut k: usize = 0;
    if cs[0] == '+' {
        if cs.len() == 1 {
            return Err(IntErrorKind::InvalidDigit);
        }
        k = 1;
        assert(cs@.skip(1) =~= cs@.drop_first());
    } else {
        assert(cs@.skip(0) =~= cs@);
    }
    let ghost body = cs@.skip(k as int);
    assert(parse_unsigned(s@, max as nat) == read_digits(body, 0, max as nat));
    let mut acc: u64 = 0;
    while k < cs.len()
        invariant
            k <= cs@.len(),
            acc <= max,
            parse_unsigned(s@, max as nat) == read_digits(body, 0, max as nat),
            read_digits(body, 0, max as nat) == read_digits(cs@.skip(k as int), acc as nat, max as nat),
        decreases cs@.len() - k,
    {
        let c = cs[k];
        assert(cs@.skip(k as int)[0] == c);
        assert(cs@.skip(k as int).drop_first() =~= cs@.skip(k + 1));
        let u: u32 = c as u32;
        if u < 48 || u > 57 {
            return Err(IntErrorKind::InvalidDigit);
        }
        let d: u64 = (u - 48) as u64;
        if (acc as u128) * 10 + (d as u128) > (max as u128) {
            return Err(IntErrorKind::PosOverflow);
        }
        acc = acc * 10 + d;
        k += 1;
    }
    assert(cs@.skip(k as int).len() == 0);
    Ok(acc)
}

/// Words are never empty and hold no white space.
pub proof fn law_words_are_nonblank(s: Seq<char>)
    ensures
        forall|i: int|
            0 <= i < words(s).len() ==> (#[trigger] words(s)[i]).len() > 0 && forall|j: int|
                0 <= j < words(s)[i].len() ==> !is_space(words(s)[i][j]),
        s.len() > 0 && !is_space(s.last()) ==> words(s).len() > 0,
    decreases s.len(),
{
    if s.len() > 0 {
        let prev = words(s.drop_last());
        law_words_are_nonblank(s.drop_last());
        let c = s.last();
        if !is_space(c) {
            if s.len() >= 2 && !is_space(s[s.len() - 2]) {
                assert(s.drop_last().last() == s[s.len() - 2]);
                assert(prev.len() > 0);
                let w = words(s);
                assert forall|i: int| 0 <= i < w.len() implies (#[trigger] w[i]).len() > 0 && forall|j: int|
                    0 <= j < w[i].len() ==> !is_space(w[i][j]) by {
                    if i < w.len() - 1 {
                        assert(w[i] == prev[i]);
                    } else {
                        assert(w[i] == prev.last().push(c));
                        assert forall|j: int| 0 <= j < w[i].len() implies !is_space(w[i][j]) by {
                            if j < w[i].len() - 1 {
                                assert(w[i][j] == prev[prev.len() - 1][j]);
                            }
                        }
                    }
                }
            } else {
                let w = words(s);
                assert forall|i: int| 0 <= i < w.len() implies (#[trigger] w[i]).len() > 0 && forall|j: int|
                    0 <= j < w[i].len() ==> !is_space(w[i][j]) by {
                    if i < w.len() - 1 {
                        assert(w[i] == prev[i]);
                    } else {
                        assert(w[i] == seq![c]);
                    }
                }
            }
        }
    }
}

/// One more digit read onto a value that fits: the value times ten plus the
/// digit, when that fits too.
proof fn lemma_read_one_more(ds: Seq<char>, c: char, acc: nat, max: nat, v: nat)
    requires
        read_digits(ds, acc, max) == Ok::<nat, IntErrorKind>(v),
        is_digit(c),
        v * 10 + digit_value(c) <= max,
    ensures
        read_digits(ds.push(c), acc, max) == Ok::<nat, IntErrorKind>(v * 10 + digit_value(c)),
    decreases ds.len(),
{
    let d = digit_value(c);
    if ds.len() == 0 {
        assert(v == acc);
        assert(ds.push(c).drop_first() =~= Seq::<char>::empty());
        assert(ds.push(c)[0] == c);
        assert(read_digits(Seq::<char>::empty(), acc * 10 + d, max) == Ok::<nat, IntErrorKind>(acc * 10 + d));
        assert(read_digits(ds.push(c), acc, max) == read_digits(ds.push(c).drop_first(), acc * 10 + d, max));
    } else {
        let a2 = acc * 10 + digit_value(ds[0]);
        assert(is_digit(ds[0]) && a2 <= max);
        assert(read_digits(ds, acc, max) == read_digits(ds.drop_first(), a2, max));
        assert(ds.push(c)[0] == ds[0]);
        assert(ds.push(c).drop_first() =~= ds.drop_first().push(c));
        lemma_read_one_more(ds.drop_first(), c, a2, max, v);
        assert(read_digits(ds.push(c), acc, max) == read_digits(ds.push(c).drop_first(), a2, max));
    }
}

/// The digit character of `d` is a digit, of value `d`.
proof fn lemma_digit_char(d: nat)
    requires
        d < 10,
    ensures
        is_digit(digit_char(d)),
        digit_value(digit_char(d)) == d,
{
    let c = digit_char(d);
    assert((c as u32) == d + 48);
}

/// Reading back the decimal numeral of `n` gives `n`, for every unsigned
/// type that holds `n`; the numeral is digits only, with no leading zero.
pub proof fn law_decimal_reads_back(n: nat, max: nat)
    requires
        n <= max,
    ensures
        parse_unsigned(decimal(n), max) == Ok::<nat, IntErrorKind>(n),
        decimal(n).len() > 0,
        forall|i: int| 0 <= i < decimal(n).len() ==> is_digit(#[trigger] decimal(n)[i]),
        n > 0 ==> decimal(n)[0] != '0',
    decreases n,
{
    if n < 10 {
        lemma_digit_char(n);
        let dn = decimal(n);
        assert(dn =~= seq![digit_char(n)]);
        assert(dn.drop_first() =~= Seq::<char>::empty());
        assert((dn[0] as u32) != 43);
        assert(read_digits(Seq::<char>::empty(), n, max) == Ok::<nat, IntErrorKind>(n));
        assert(read_digits(dn, 0, max) == read_digits(dn.drop_first(), n, max));
        if n > 0 {
            assert((digit_char(n) as u32) != 48);
        }
    } else {
        law_decimal_reads_back(n / 10, max);
        lemma_digit_char((n % 10) as nat);
        let prev = decimal(n / 10);
        assert(is_digit(prev[0]));
        assert((prev[0] as u32) != 43);
        assert(read_digits(prev, 0, max) == Ok::<nat, IntErrorKind>(n / 10));
        lemma_read_one_more(prev, digit_char((n % 10) as nat), 0, max, n / 10);
        assert((n / 10) * 10 + (n % 10) as nat == n);
        assert(decimal(n)[0] == prev[0]);
        assert forall|i: int| 0 <= i < decimal(n).len() implies is_digit(#[trigger] decimal(n)[i]) by {
            if i < prev.len() {
                assert(decimal(n)[i] == prev[i]);
            }
        }
        assert(is_digit(decimal(n)[0]));
        assert((decimal(n)[0] as u32) != 43);
    }
}

/// `[String]::join` laid out from the front: nothing for no items, the first
/// item, then each following item after a separator; its length is the items'
/// lengths and one separator between each two.
pub proof fn law_joined_from_front(x: Seq<char>, rest: Seq<Seq<char>>, sep: Seq<char>)
    ensures
        joined(Seq::<Seq<char>>::empty(), sep) == Seq::<char>::empty(),
        rest.len() > 0 ==> joined(seq![x] + rest, sep) == x + sep + joined(rest, sep),
        rest.len() == 0 ==> joined(seq![x] + rest, sep) == x,
        joined(seq![x] + rest, sep).len() == x.len() + joined(rest, sep).len() + if rest.len() > 0 {
            sep.len()
        } else {
            0
        },
    decreases rest.len(),
{
    let all = seq![x] + rest;
    if rest.len() == 0 {
        assert(all =~= seq![x]);
    } else if rest.len() == 1 {
        assert(all.drop_last() =~= seq![x]);
        assert(joined(seq![x], sep) == x);
        assert(all.last() == rest[0]);
        assert(joined(rest, sep) == rest[0]);
        assert(joined(all, sep) =~= x + sep + joined(rest, sep));
    } else {
        law_joined_from_front(x, rest.drop_last(), sep);
        assert(all.drop_last() =~= seq![x] + rest.drop_last());
        assert(all.last() == rest.last());
        assert(joined(all, sep) =~= x + sep + joined(rest, sep));
    }
}

/// `needle` occurs in `hay` exactly when `hay` is some text, then `needle`,
/// then some text.
pub proof fn law_contains_is_infix(hay: Seq<char>, needle: Seq<char>)
    ensures
        contains_text(hay, needle) <==> exists|a: Seq<char>, b: Seq<char>|
            hay == #[trigger] (a + needle + b),
{
    if contains_text(hay, needle) {
        let i = choose|i: int| occurs_at(hay, needle, i);
        let a = hay.take(i);
        let b = hay.skip((i + needle.len()) as int);
        assert(hay =~= a + needle + b);
    }
    if exists|a: Seq<char>, b: Seq<char>| hay == #[trigger] (a + needle + b) {
        let (a, b) = choose|a: Seq<char>, b: Seq<char>| hay == #[trigger] (a + needle + b);
        assert(hay.subrange(a.len() as int, (a.len() + needle.len()) as int) =~= needle);
        assert(occurs_at(hay, needle, a.len() as int));
    }
}

/// Splitting at white space: the words of two texts with white space
/// between them are the words of the first and then those of the second.
pub proof fn law_words_split_at_space(s: Seq<char>, c: char, t: Seq<char>)
    requires
        is_space(c),
    ensures
        words(s + seq![c] + t) == words(s) + words(t),
    decreases t.len(),
{
    let left = s + seq![c];
    if t.len() == 0 {
        assert(left + t =~= left);
        assert(left.drop_last() =~= s);
        assert(words(s) + words(t) =~= words(s));
    } else {
        let t0 = t.drop_last();
        let x = t.last();
        law_words_split_at_space(s, c, t0);
        let whole = left + t;
        assert(whole.drop_last() =~= left + t0);
        assert(whole.last() == x);
        let ws = words(s);
        let w0 = words(t0);
        if is_space(x) {
            assert(words(s) + words(t) =~= ws + w0);
        } else if t0.len() > 0 && !is_space(t0.last()) {
            assert(whole[whole.len() - 2] == t0.last());
            law_words_are_nonblank(t0);
            assert(t[t.len() - 2] == t0.last());
            assert(words(whole) =~= (ws + w0).drop_last().push((ws + w0).last().push(x)));
            assert((ws + w0).last() == w0.last());
            assert(words(s) + words(t) =~= words(whole));
        } else {
            if t0.len() > 0 {
                assert(whole[whole.len() - 2] == t0.last());
                assert(t[t.len() - 2] == t0.last());
            } else {
                assert(whole[whole.len() - 2] == c);
            }
            assert(words(s) + words(t) =~= words(whole));
        }
    }
}

} // verus!
