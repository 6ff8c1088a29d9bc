use vstd::prelude::*;
use vstd::arithmetic::div_mod::{
    lemma_div_denominator, lemma_fundamental_div_mod, lemma_fundamental_div_mod_converse,
};
use vstd::string::StrSliceExecFns;
use vstd::string::StringExecFns;

verus! {

/// An IPv4 address held as four plain octets.
#[derive(Clone, Copy, Debug, PartialEq, Eq, Structural)]
pub struct Ipv4 {
    pub a: u8,
    pub b: u8,
    pub c: u8,
    pub d: u8,
}

/// The decimal digit character for a value below ten.
pub open spec fn char_of_digit(d: int) -> char
    recommends
        0 <= d < 10,
{
    if d == 0 {
        '0'
    } else if d == 1 {
        '1'
    } else if d == 2 {
        '2'
    } else if d == 3 {
        '3'
    } else if d == 4 {
        '4'
    } else if d == 5 {
        '5'
    } else if d == 6 {
        '6'
    } else if d == 7 {
        '7'
    } else if d == 8 {
        '8'
    } else {
        '9'
    }
}

pub open spec fn is_digit(c: char) -> bool {
    '0' as int <= c as int <= '9' as int
}

pub open spec fn digit_val(c: char) -> int {
    c as int - '0' as int
}

/// Canonical decimal text of one octet: one to three digits, no leading zero.
pub open spec fn spec_dec(v: u8) -> Seq<char> {
    if v < 10 {
        seq![char_of_digit(v as int)]
    } else if v < 100 {
        seq![char_of_digit(v as int / 10), char_of_digit(v as int % 10)]
    } else {
        seq![
            char_of_digit(v as int / 100),
            char_of_digit((v as int / 10) % 10),
            char_of_digit(v as int % 10),
        ]
    }
}

/// Canonical dotted-quad text of an address, the form the provider stores in
/// a record's content field.
pub open spec fn spec_ipv4(ip: Ipv4) -> Seq<char> {
    spec_dec(ip.a) + seq!['.'] + spec_dec(ip.b) + seq!['.'] + spec_dec(ip.c) + seq!['.']
        + spec_dec(ip.d)
}

/// Reads one octet of dotted-quad text starting at position `i`: one to
/// three digits, no leading zero, value at most 255, and not followed by a
/// further digit. Yields the value and the position after the last digit.
pub open spec fn spec_scan_octet(s: Seq<char>, i: int) -> Option<(u8, int)> {
    if !(0 <= i < s.len() && is_digit(s[i])) {
        None
    } else if s[i] == '0' {
        if i + 1 < s.len() && is_digit(s[i + 1]) {
            None
        } else {
            Some((0u8, i + 1))
        }
    } else if i + 1 < s.len() && is_digit(s[i + 1]) {
        if i + 2 < s.len() && is_digit(s[i + 2]) {
            if i + 3 < s.len() && is_digit(s[i + 3]) {
                None
            } else {
                let v = 100 * digit_val(s[i]) + 10 * digit_val(s[i + 1]) + digit_val(s[i + 2]);
                if v <= 255 {
                    Some((v as u8, i + 3))
                } else {
                    None
                }
            }
        } else {
            Some(((10 * digit_val(s[i]) + digit_val(s[i + 1])) as u8, i + 2))
        }
    } else {
        Some((digit_val(s[i]) as u8, i + 1))
    }
}

/// The dotted-quad grammar: four octets joined by single dots and nothing
/// else. This is the definitional parse of the address texts this crate
/// accepts.
pub open spec fn spec_parse(s: Seq<char>) -> Option<Ipv4> {
    match spec_scan_octet(s, 0) {
        None => None,
        Some((a, i1)) => {
            if i1 < s.len() && s[i1] == '.' {
                match spec_scan_octet(s, i1 + 1) {
                    None => None,
                    Some((b, i2)) => {
                        if i2 < s.len() && s[i2] == '.' {
                            match spec_scan_octet(s, i2 + 1) {
                                None => None,
                                Some((c, i3)) => {
                                    if i3 < s.len() && s[i3] == '.' {
                                        match spec_scan_octet(s, i3 + 1) {
                                            None => None,
                                            Some((d, i4)) => {
                                                if i4 == s.len() {
                                                    Some(Ipv4 { a, b, c, d })
                                                } else {
                                                    None
                                                }
                                            },
                                        }
                                    } else {
                                        None
                                    }
                                },
                            }
                        } else {
                            None
                        }
                    },
                }
            } else {
                None
            }
        },
    }
}

proof fn lemma_digit_char_facts(d: int)
    requires
        0 <= d < 10,
    ensures
        is_digit(char_of_digit(d)),
        digit_val(char_of_digit(d)) == d,
        (char_of_digit(d) == '0') <==> (d == 0),
{
}

proof fn lemma_char_of_digit_val(c: char)
    requires
        is_digit(c),
    ensures
        char_of_digit(digit_val(c)) == c,
{
}

/// An octet's canonical text consists of digits only, starts with a nonzero
/// digit unless it is the single digit zero, and is one to three characters.
proof fn lemma_dec_shape(v: u8)
    ensures
        1 <= spec_dec(v).len() <= 3,
        forall|k: int| 0 <= k < spec_dec(v).len() ==> is_digit(#[trigger] spec_dec(v)[k]),
        spec_dec(v).len() > 1 ==> spec_dec(v)[0] != '0',
        v < 10 ==> spec_dec(v).len() == 1,
        10 <= v < 100 ==> spec_dec(v).len() == 2,
        v >= 100 ==> spec_dec(v).len() == 3,
{
    let x = v as int;
    if v < 10 {
        lemma_digit_char_facts(x);
    } else if v < 100 {
        lemma_digit_char_facts(x / 10);
        lemma_digit_char_facts(x % 10);
    } else {
        lemma_div_denominator(x, 10, 10);
        lemma_digit_char_facts(x / 100);
        lemma_digit_char_facts((x / 10) % 10);
        lemma_digit_char_facts(x % 10);
    }
}

/// Scanning text that starts with an octet's canonical form, followed by a
/// dot or the end of the text, yields exactly that octet.
proof fn lemma_scan_dec(s: Seq<char>, i: int, v: u8)
    requires
        0 <= i,
        i + spec_dec(v).len() <= s.len(),
        s.subrange(i, i + spec_dec(v).len()) == spec_dec(v),
        i + spec_dec(v).len() == s.len() || s[i + spec_dec(v).len()] == '.',
    ensures
        spec_scan_octet(s, i) == Some((v, i + spec_dec(v).len())),
{
    lemma_dec_shape(v);
    let n = spec_dec(v).len() as int;
    let x = v as int;
    assert(s[i] == s.subrange(i, i + n)[0]);
    if n >= 2 {
        assert(s[i + 1] == s.subrange(i, i + n)[1]);
    }
    if n >= 3 {
        assert(s[i + 2] == s.subrange(i, i + n)[2]);
    }
    assert(!is_digit('.'));
    if v < 10 {
        lemma_digit_char_facts(x);
        assert(s[i] == char_of_digit(x));
    } else if v < 100 {
        lemma_digit_char_facts(x / 10);
        lemma_digit_char_facts(x % 10);
        assert(s[i] == char_of_digit(x / 10));
        assert(s[i + 1] == char_of_digit(x % 10));
        lemma_fundamental_div_mod(x, 10);
        assert(10 * digit_val(s[i]) + digit_val(s[i + 1]) == x);
    } else {
        lemma_div_denominator(x, 10, 10);
        lemma_digit_char_facts(x / 100);
        lemma_digit_char_facts((x / 10) % 10);
        lemma_digit_char_facts(x % 10);
        lemma_fundamental_div_mod(x, 10);
        lemma_fundamental_div_mod(x / 10, 10);
        assert(100 * digit_val(s[i]) + 10 * digit_val(s[i + 1]) + digit_val(s[i + 2]) == x);
    }
}

/// A successful octet scan reads the canonical text of the value it returns.
proof fn lemma_scan_sound(s: Seq<char>, i: int)
    requires
        spec_scan_octet(s, i) is Some,
    ensures
        ({
            let (v, j) = spec_scan_octet(s, i)->Some_0;
            &&& i < j <= s.len()
            &&& j - i == spec_dec(v).len()
            &&& s.subrange(i, j) == spec_dec(v)
        }),
{
    let (v, j) = spec_scan_octet(s, i)->Some_0;
    let x = v as int;
    if s[i] == '0' {
        assert(spec_dec(v) =~= s.subrange(i, j));
    } else if i + 1 < s.len() && is_digit(s[i + 1]) {
        if i + 2 < s.len() && is_digit(s[i + 2]) {
            let d0 = digit_val(s[i]);
            let d1 = digit_val(s[i + 1]);
            let d2 = digit_val(s[i + 2]);
            assert(x == 100 * d0 + 10 * d1 + d2);
            lemma_fundamental_div_mod_converse(x, 10, 10 * d0 + d1, d2);
            lemma_fundamental_div_mod_converse(10 * d0 + d1, 10, d0, d1);
            lemma_div_denominator(x, 10, 10);
            assert(x / 100 == d0 && (x / 10) % 10 == d1 && x % 10 == d2);
            lemma_char_of_digit_val(s[i]);
            lemma_char_of_digit_val(s[i + 1]);
            lemma_char_of_digit_val(s[i + 2]);
            assert(spec_dec(v) =~= s.subrange(i, j));
        } else {
            let d0 = digit_val(s[i]);
            let d1 = digit_val(s[i + 1]);
            assert(x == 10 * d0 + d1);
            lemma_fundamental_div_mod_converse(x, 10, d0, d1);
            assert(x / 10 == d0 && x % 10 == d1);
            lemma_char_of_digit_val(s[i]);
            lemma_char_of_digit_val(s[i + 1]);
            assert(spec_dec(v) =~= s.subrange(i, j));
        }
    } else {
        lemma_char_of_digit_val(s[i]);
        assert(spec_dec(v) =~= s.subrange(i, j));
    }
}

/// Soundness of the grammar: a text the parse accepts is exactly the
/// canonical dotted-quad form of the address it returns.
#[verifier::rlimit(100)]
pub proof fn lemma_parse_sound(s: Seq<char>)
    requires
        spec_parse(s) is Some,
    ensures
        s == spec_ipv4(spec_parse(s)->Some_0),
{
    let (a, i1) = spec_scan_octet(s, 0)->Some_0;
    let (b, i2) = spec_scan_octet(s, i1 + 1)->Some_0;
    let (c, i3) = spec_scan_octet(s, i2 + 1)->Some_0;
    let (d, i4) = spec_scan_octet(s, i3 + 1)->Some_0;
    lemma_scan_sound(s, 0);
    lemma_scan_sound(s, i1 + 1);
    lemma_scan_sound(s, i2 + 1);
    lemma_scan_sound(s, i3 + 1);
    let ip = spec_parse(s)->Some_0;
    assert(s =~= s.subrange(0, i1) + seq![s[i1]] + s.subrange(i1 + 1, i2) + seq![s[i2]]
        + s.subrange(i2 + 1, i3) + seq![s[i3]] + s.subrange(i3 + 1, s.len() as int));
    assert(seq![s[i1]] =~= seq!['.']);
    assert(seq![s[i2]] =~= seq!['.']);
    assert(seq![s[i3]] =~= seq!['.']);
    assert(s == spec_ipv4(ip));
}

/// Completeness of the grammar: the canonical text of any address parses
/// back to that address.
pub proof fn lemma_parse_of_format(ip: Ipv4)
    ensures
        spec_parse(spec_ipv4(ip)) == Some(ip),
{
    let s = spec_ipv4(ip);
    lemma_dec_shape(ip.a);
    lemma_dec_shape(ip.b);
    lemma_dec_shape(ip.c);
    lemma_dec_shape(ip.d);
    let la = spec_dec(ip.a).len() as int;
    let lb = spec_dec(ip.b).len() as int;
    let lc = spec_dec(ip.c).len() as int;
    let ld = spec_dec(ip.d).len() as int;
    let i1 = la;
    let i2 = la + 1 + lb;
    let i3 = la + 1 + lb + 1 + lc;
    assert(s.len() == la + 1 + lb + 1 + lc + 1 + ld);
    assert(s.subrange(0, i1) =~= spec_dec(ip.a));
    assert(s[i1] == '.');
    assert(s.subrange(i1 + 1, i2) =~= spec_dec(ip.b));
    assert(s[i2] == '.');
    assert(s.subrange(i2 + 1, i3) =~= spec_dec(ip.c));
    assert(s[i3] == '.');
    assert(s.subrange(i3 + 1, s.len() as int) =~= spec_dec(ip.d));
    lemma_scan_dec(s, 0, ip.a);
    lemma_scan_dec(s, i1 + 1, ip.b);
    lemma_scan_dec(s, i2 + 1, ip.c);
    lemma_scan_dec(s, i3 + 1, ip.d);
}

/// The canonical text is injective: distinct addresses never print alike.
pub proof fn lemma_format_injective(x: Ipv4, y: Ipv4)
    requires
        spec_ipv4(x) == spec_ipv4(y),
    ensures
        x == y,
{
    lemma_parse_of_format(x);
    lemma_parse_of_format(y);
}

fn digit_str(d: u8) -> (r: &'static str)
    requires
        d < 10,
    ensures
        r@ == seq![char_of_digit(d as int)],
{
    proof {
        reveal_strlit("0");
        reveal_strlit("1");
        reveal_strlit("2");
        reveal_strlit("3");
        reveal_strlit("4");
        reveal_strlit("5");
        reveal_strlit("6");
        reveal_strlit("7");
        reveal_strlit("8");
        reveal_strlit("9");
    }
    let r = if d == 0 {
        "0"
    } else if d == 1 {
        "1"
    } else if d == 2 {
        "2"
    } else if d == 3 {
        "3"
    } else if d == 4 {
        "4"
    } else if d == 5 {
        "5"
    } else if d == 6 {
        "6"
    } else if d == 7 {
        "7"
    } else if d == 8 {
        "8"
    } else {
        "9"
    };
    proof {
        assert(r@ =~= seq![char_of_digit(d as int)]);
    }
    r
}

fn push_octet(out: &mut String, v: u8)
    ensures
        final(out)@ == old(out)@ + spec_dec(v),
{
    if v >= 100 {
        let q = v / 100;
        let m = (v / 10) % 10;
        let r = v % 10;
        proof {
            lemma_div_denominator(v as int, 10, 10);
        }
        out.append(digit_str(q));
        out.append(digit_str(m));
        out.append(digit_str(r));
        proof {
            assert(final(out)@ =~= old(out)@ + spec_dec(v));
        }
    } else if v >= 10 {
        out.append(digit_str(v / 10));
        out.append(digit_str(v % 10));
        proof {
            assert(final(out)@ =~= old(out)@ + spec_dec(v));
        }
    } else {
        out.append(digit_str(v));
        proof {
            assert(final(out)@ =~= old(out)@ + spec_dec(v));
        }
    }
}

impl Ipv4 {
    /// Prints the address in its canonical dotted-quad form.
    pub fn format(&self) -> (r: String)
        ensures
            r@ == spec_ipv4(*self),
    {
        proof {
            reveal_strlit(".");
        }
        let mut out = String::new();
        push_octet(&mut out, self.a);
        out.append(".");
        push_octet(&mut out, self.b);
        out.append(".");
        push_octet(&mut out, self.c);
        out.append(".");
        push_octet(&mut out, self.d);
        proof {
            assert(out@ =~= spec_ipv4(*self));
        }
        out
    }

    /// Parses dotted-quad text. Accepts exactly the canonical form: four
    /// decimal octets with no leading zeros, joined by single dots, with no
    /// surrounding characters; any other text yields no address at all.
    pub fn parse(s: &str) -> (r: Option<Ipv4>)
        ensures
            r == spec_parse(s@),
            r matches Some(ip) ==> s@ == spec_ipv4(ip),
            r is None ==> forall|ip: Ipv4| s@ != spec_ipv4(ip),
    {
        let n = s.unicode_len();
        let r = match scan_octet(s, n, 0) {
            None => None,
            Some((a, i1)) => {
                if i1 < n && s.get_char(i1) == '.' {
                    match scan_octet(s, n, i1 + 1) {
                        None => None,
                        Some((b, i2)) => {
                            if i2 < n && s.get_char(i2) == '.' {
                                match scan_octet(s, n, i2 + 1) {
                                    None => None,
                                    Some((c, i3)) => {
                                        if i3 < n && s.get_char(i3) == '.' {
                                            match scan_octet(s, n, i3 + 1) {
                                                None => None,
                                                Some((d, i4)) => {
                                                    if i4 == n {
                                                        Some(Ipv4 { a, b, c, d })
                                                    } else {
                                                        None
                                                    }
                                                },
                                            }
                                        } else {
                                            None
                                        }
                                    },
                                }
                            } else {
                                None
                            }
                        },
                    }
                } else {
                    None
                }
            },
        };
        proof {
            if r is Some {
                lemma_parse_sound(s@);
            }
            if r is None {
                assert forall|ip: Ipv4| s@ != spec_ipv4(ip) by {
                    if s@ == spec_ipv4(ip) {
                        lemma_parse_of_format(ip);
                    }
                }
            }
        }
        r
    }
}

/// The address-resolution step applied to the text an echo service
/// returned: exactly the canonical dotted-quad texts succeed, and every
/// other text is a parse failure.
pub fn ip_from_text(text: &str) -> (r: Result<Ipv4, crate::errors::DdnsError>)
    ensures
        match r {
            Ok(ip) => text@ == spec_ipv4(ip),
            Err(e) => e == crate::errors::DdnsError::Parse && forall|ip: Ipv4|
                text@ != spec_ipv4(ip),
        },
{
    match Ipv4::parse(text) {
        Some(ip) => Ok(ip),
        None => Err(crate::errors::DdnsError::Parse),
    }
}

fn is_digit_at(s: &str, n: usize, i: usize) -> (r: bool)
    requires
        n == s@.len(),
    ensures
        r == (i < s@.len() && is_digit(s@[i as int])),
{
    if i < n {
        let c = s.get_char(i);
        '0' <= c && c <= '9'
    } else {
        false
    }
}

fn scan_octet(s: &str, n: usize, i: usize) -> (r: Option<(u8, usize)>)
    requires
        n == s@.len(),
        i <= s@.len(),
    ensures
        match r {
            Some((v, j)) => spec_scan_octet(s@, i as int) == Some((v, j as int)) && i < j <= n,
            None => spec_scan_octet(s@, i as int) is None,
        },
{
    if !is_digit_at(s, n, i) {
        return None;
    }
    let c0 = s.get_char(i);
    if c0 == '0' {
        if is_digit_at(s, n, i + 1) {
            None
        } else {
            Some((0u8, i + 1))
        }
    } else if is_digit_at(s, n, i + 1) {
        let c1 = s.get_char(i + 1);
        if is_digit_at(s, n, i + 2) {
            let c2 = s.get_char(i + 2);
            if is_digit_at(s, n, i + 3) {
                None
            } else {
                let v: u32 = 100 * digit_of(c0) as u32 + 10 * digit_of(c1) as u32 + digit_of(
                    c2,
                ) as u32;
                if v <= 255 {
                    Some((v as u8, i + 3))
                } else {
                    None
                }
            }
        } else {
            Some((10 * digit_of(c0) + digit_of(c1), i + 2))
        }
    } else {
        Some((digit_of(c0), i + 1))
    }
}

fn digit_of(c: char) -> (r: u8)
    requires
        is_digit(c),
    ensures
        r == digit_val(c),
{
    (c as u8) - 48
}

} // verus!
