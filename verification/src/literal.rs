use vstd::prelude::*;

verus! {

/// The ASCII code of the hexadecimal digit for `n`, lower case.
pub open spec fn hex_digit(n: u8) -> u8
    recommends
        n < 16,
{
    if n < 10 {
        (0x30 + n) as u8
    } else {
        (0x57 + n) as u8
    }
}

/// A byte that may stand for itself inside a byte-string literal: printable
/// ASCII, but neither the quote nor the backslash.
pub open spec fn is_plain_byte(b: u8) -> bool {
    0x20 <= b <= 0x7e && b != 0x22 && b != 0x5c
}

/// How one byte is rendered inside a byte-string literal: plain bytes stand
/// for themselves, the quote and the backslash get a backslash escape, and
/// every other byte value becomes a two-digit hexadecimal escape.
pub open spec fn escape_byte(b: u8) -> Seq<u8> {
    if b == 0x22 {
        seq![0x5cu8, 0x22u8]
    } else if b == 0x5c {
        seq![0x5cu8, 0x5cu8]
    } else if is_plain_byte(b) {
        seq![b]
    } else {
        seq![0x5cu8, 0x78u8, hex_digit((b / 16) as u8), hex_digit((b % 16) as u8)]
    }
}

/// The rendering of a whole byte sequence, escape by escape.
pub open spec fn escape_all(bs: Seq<u8>) -> Seq<u8>
    decreases bs.len(),
{
    if bs.len() == 0 {
        Seq::empty()
    } else {
        escape_byte(bs[0]) + escape_all(bs.drop_first())
    }
}

/// The full literal: `b"`, the escaped bytes, and the closing quote, as the
/// ASCII bytes of the literal's text.
pub open spec fn literal_of(bs: Seq<u8>) -> Seq<u8> {
    seq![0x62u8, 0x22u8] + escape_all(bs) + seq![0x22u8]
}

/// The value of one ASCII hexadecimal digit, lower case, if it is one.
pub open spec fn hex_val(b: u8) -> Option<u8> {
    if 0x30 <= b <= 0x39 {
        Some((b - 0x30) as u8)
    } else if 0x61 <= b <= 0x66 {
        Some((b - 0x57) as u8)
    } else {
        None
    }
}

/// Prepends a byte to a parse result, keeping failure as failure.
pub open spec fn cons_byte(b: u8, rest: Option<Seq<u8>>) -> Option<Seq<u8>> {
    match rest {
        Some(t) => Some(seq![b] + t),
        None => None,
    }
}

/// Parses the inside of a byte-string literal back into the bytes it stands
/// for: the inverse of [`escape_all`] on well-formed input, `None` on any
/// other input.
pub open spec fn parse_body(s: Seq<u8>) -> Option<Seq<u8>>
    decreases s.len(),
{
    if s.len() == 0 {
        Some(Seq::empty())
    } else if s[0] == 0x5c {
        if s.len() >= 2 && s[1] == 0x22 {
            cons_byte(0x22, parse_body(s.skip(2)))
        } else if s.len() >= 2 && s[1] == 0x5c {
            cons_byte(0x5c, parse_body(s.skip(2)))
        } else if s.len() >= 4 && s[1] == 0x78 && hex_val(s[2]) is Some && hex_val(s[3]) is Some {
            cons_byte(
                (hex_val(s[2]).unwrap() * 16 + hex_val(s[3]).unwrap()) as u8,
                parse_body(s.skip(4)),
            )
        } else {
            None
        }
    } else if is_plain_byte(s[0]) {
        cons_byte(s[0], parse_body(s.skip(1)))
    } else {
        None
    }
}

/// Parses a whole byte-string literal: the `b"` prefix, a body, and the
/// closing quote.
pub open spec fn parse_literal_spec(s: Seq<u8>) -> Option<Seq<u8>> {
    if s.len() >= 3 && s[0] == 0x62 && s[1] == 0x22 && s[s.len() - 1] == 0x22 {
        parse_body(s.subrange(2, s.len() - 1))
    } else {
        None
    }
}

/// Every byte of a rendered literal is ASCII.
pub proof fn lemma_escape_all_ascii(bs: Seq<u8>)
    ensures
        forall|i: int| 0 <= i < escape_all(bs).len() ==> escape_all(bs)[i] < 0x80,
    decreases bs.len(),
{
    if bs.len() > 0 {
        lemma_escape_all_ascii(bs.drop_first());
        let e = escape_byte(bs[0]);
        let t = escape_all(bs.drop_first());
        assert(escape_all(bs) == e + t);
        assert forall|i: int| 0 <= i < escape_all(bs).len() implies escape_all(bs)[i]
            < 0x80 by {
            if i < e.len() {
                assert(escape_all(bs)[i] == e[i]);
            } else {
                assert(escape_all(bs)[i] == t[i - e.len()]);
            }
        }
    }
}

/// Every byte of the full literal is ASCII, so the literal's text embeds in
/// generated source without re-encoding.
pub proof fn lemma_literal_ascii(bs: Seq<u8>)
    ensures
        forall|i: int| 0 <= i < literal_of(bs).len() ==> literal_of(bs)[i] < 0x80,
{
    lemma_escape_all_ascii(bs);
}

/// Parsing undoes one escape at the front of a body.
proof fn lemma_parse_body_escape_all(bs: Seq<u8>)
    ensures
        parse_body(escape_all(bs)) == Some(bs),
    decreases bs.len(),
{
    if bs.len() == 0 {
        assert(bs =~= Seq::<u8>::empty());
    } else {
        let b = bs[0];
        let rest = bs.drop_first();
        lemma_parse_body_escape_all(rest);
        let e = escape_byte(b);
        let t = escape_all(rest);
        let s = escape_all(bs);
        assert(s == e + t);
        if b == 0x22 {
            assert(s.skip(2) =~= t);
            assert(seq![b] + rest =~= bs);
        } else if b == 0x5c {
            assert(s.skip(2) =~= t);
            assert(seq![b] + rest =~= bs);
        } else if is_plain_byte(b) {
            assert(s.skip(1) =~= t);
            assert(seq![b] + rest =~= bs);
        } else {
            assert(s.skip(4) =~= t);
            assert(hex_val(hex_digit((b / 16) as u8)) == Some((b / 16) as u8));
            assert(hex_val(hex_digit((b % 16) as u8)) == Some((b % 16) as u8));
            assert((b / 16) * 16 + (b % 16) == b) by {
                vstd::arithmetic::div_mod::lemma_fundamental_div_mod(b as int, 16);
            }
            assert(seq![b] + rest =~= bs);
        }
    }
}

/// Literal fidelity: rendering any byte sequence as a safe literal and then
/// parsing that literal back yields exactly the original bytes, with no byte
/// lost and no escaping artifact left behind.
pub proof fn lemma_literal_roundtrip(bs: Seq<u8>)
    ensures
        parse_literal_spec(literal_of(bs)) == Some(bs),
{
    let lit = literal_of(bs);
    assert(lit[lit.len() - 1] == 0x22);
    assert(lit.subrange(2, lit.len() - 1) =~= escape_all(bs));
    lemma_parse_body_escape_all(bs);
}

/// The hexadecimal digit of a value below sixteen, in lower case.
fn to_hex_digit(n: u8) -> (r: u8)
    requires
        n < 16,
    ensures
        r == hex_digit(n),
{
    if n < 10 {
        0x30 + n
    } else {
        0x57 + n
    }
}

/// Renders a byte sequence as the text of a byte-string literal that stands
/// for exactly those bytes; the text itself is pure ASCII.
pub fn render_literal(bytes: &[u8]) -> (r: Vec<u8>)
    ensures
        r@ == literal_of(bytes@),
{
    let mut out: Vec<u8> = Vec::new();
    out.push(0x62);
    out.push(0x22);
    let mut i: usize = 0;
    proof {
        assert(bytes@.subrange(0, 0) =~= Seq::<u8>::empty());
        assert(out@ =~= seq![0x62u8, 0x22u8] + escape_all(bytes@.subrange(0, 0)));
    }
    while i < bytes.len()
        invariant
            i <= bytes@.len(),
            out@ == seq![0x62u8, 0x22u8] + escape_all(bytes@.subrange(0, i as int)),
        decreases bytes@.len() - i,
    {
        let ghost prefix = bytes@.subrange(0, i as int);
        let b = bytes[i];
        if b == 0x22 {
            out.push(0x5c);
            out.push(0x22);
        } else if b == 0x5c {
            out.push(0x5c);
            out.push(0x5c);
        } else if 0x20 <= b && b <= 0x7e {
            out.push(b);
        } else {
            out.push(0x5c);
            out.push(0x78);
            out.push(to_hex_digit(b / 16));
            out.push(to_hex_digit(b % 16));
        }
        i = i + 1;
        proof {
            lemma_escape_all_snoc(prefix, b);
            assert(bytes@.subrange(0, i as int) =~= prefix.push(b));
            assert(out@ =~= seq![0x62u8, 0x22u8] + escape_all(bytes@.subrange(0, i as int)));
        }
    }
    out.push(0x22);
    proof {
        assert(bytes@.subrange(0, bytes@.len() as int) =~= bytes@);
        assert(out@ =~= literal_of(bytes@));
    }
    out
}

/// Appending a byte to a sequence appends its escape to the rendering.
proof fn lemma_escape_all_snoc(s: Seq<u8>, x: u8)
    ensures
        escape_all(s.push(x)) == escape_all(s) + escape_byte(x),
    decreases s.len(),
{
    if s.len() == 0 {
        assert(s.push(x)[0] == x);
        assert(s.push(x).drop_first() =~= Seq::<u8>::empty());
        assert(escape_all(s.push(x).drop_first()) == escape_all(Seq::<u8>::empty()));
        assert(escape_all(s.push(x)) == escape_byte(x) + escape_all(Seq::<u8>::empty()));
        assert(escape_all(s.push(x)) =~= escape_all(s) + escape_byte(x));
    } else {
        assert(s.push(x)[0] == s[0]);
        assert(s.push(x).drop_first() =~= s.drop_first().push(x));
        lemma_escape_all_snoc(s.drop_first(), x);
        assert(escape_all(s.push(x).drop_first()) == escape_all(s.drop_first().push(x)));
        assert(escape_all(s.push(x)) == escape_byte(s[0]) + escape_all(s.push(x).drop_first()));
        assert(escape_all(s) == escape_byte(s[0]) + escape_all(s.drop_first()));
        assert(escape_byte(s[0]) + (escape_all(s.drop_first()) + escape_byte(x)) =~= (escape_byte(
            s[0],
        ) + escape_all(s.drop_first())) + escape_byte(x));
        assert(escape_all(s.push(x)) == escape_byte(s[0]) + (escape_all(s.drop_first())
            + escape_byte(x)));
        assert(escape_all(s) + escape_byte(x) == (escape_byte(s[0]) + escape_all(s.drop_first()))
            + escape_byte(x));
        assert(escape_all(s.push(x)) == escape_all(s) + escape_byte(x));
    }
}

/// The value of one hexadecimal digit byte, if it is one.
fn from_hex_digit(b: u8) -> (r: Option<u8>)
    ensures
        r == hex_val(b),
{
    if 0x30 <= b && b <= 0x39 {
        Some(b - 0x30)
    } else if 0x61 <= b && b <= 0x66 {
        Some(b - 0x57)
    } else {
        None
    }
}

/// Parses the region `s[pos..end]` as the body of a byte-string literal.
fn parse_body_region(s: &[u8], pos: usize, end: usize) -> (r: Option<Vec<u8>>)
    requires
        pos <= end <= s@.len(),
    ensures
        match r {
            Some(v) => parse_body(s@.subrange(pos as int, end as int)) == Some(v@),
            None => parse_body(s@.subrange(pos as int, end as int)) is None,
        },
    decreases end - pos,
{
    let ghost tail = s@.subrange(pos as int, end as int);
    if pos == end {
        proof {
            assert(tail =~= Seq::<u8>::empty());
        }
        return Some(Vec::new());
    }
    let b = s[pos];
    proof {
        assert(tail[0] == s@[pos as int]);
    }
    let rem = end - pos;
    if b == 0x5c {
        if rem >= 2 && (s[pos + 1] == 0x22 || s[pos + 1] == 0x5c) {
            let unescaped = s[pos + 1];
            proof {
                assert(tail[1] == s@[pos as int + 1]);
                assert(tail.skip(2) =~= s@.subrange(pos as int + 2, end as int));
            }
            match parse_body_region(s, pos + 2, end) {
                Some(mut v) => {
                    let ghost prev = v@;
                    v.insert(0, unescaped);
                    proof {
                        assert(v@ =~= seq![unescaped] + prev);
                    }
                    Some(v)
                },
                None => None,
            }
        } else if rem >= 4 && s[pos + 1] == 0x78 {
            proof {
                assert(tail[1] == s@[pos as int + 1]);
                assert(tail[2] == s@[pos as int + 2]);
                assert(tail[3] == s@[pos as int + 3]);
                assert(tail.skip(4) =~= s@.subrange(pos as int + 4, end as int));
            }
            let hi = from_hex_digit(s[pos + 2]);
            let lo = from_hex_digit(s[pos + 3]);
            match (hi, lo) {
                (Some(h), Some(l)) => {
                    match parse_body_region(s, pos + 4, end) {
                        Some(mut v) => {
                            let decoded = h * 16 + l;
                            let ghost prev = v@;
                            v.insert(0, decoded);
                            proof {
                                assert(v@ =~= seq![decoded] + prev);
                            }
                            Some(v)
                        },
                        None => None,
                    }
                },
                _ => None,
            }
        } else {
            proof {
                if rem >= 2 {
                    assert(tail[1] == s@[pos as int + 1]);
                }
                if rem >= 4 {
                    assert(tail[2] == s@[pos as int + 2]);
                    assert(tail[3] == s@[pos as int + 3]);
                }
            }
            None
        }
    } else if 0x20 <= b && b <= 0x7e && b != 0x22 {
        proof {
            assert(tail.skip(1) =~= s@.subrange(pos as int + 1, end as int));
        }
        match parse_body_region(s, pos + 1, end) {
            Some(mut v) => {
                let ghost prev = v@;
                v.insert(0, b);
                proof {
                    assert(v@ =~= seq![b] + prev);
                }
                Some(v)
            },
            None => None,
        }
    } else {
        None
    }
}

/// Parses the text of a byte-string literal back into the bytes it stands
/// for: the exact inverse of [`render_literal`] on its output, `None` on
/// text that is not a well-formed literal.
pub fn parse_literal(lit: &[u8]) -> (r: Option<Vec<u8>>)
    ensures
        match r {
            Some(v) => parse_literal_spec(lit@) == Some(v@),
            None => parse_literal_spec(lit@) is None,
        },
{
    if lit.len() < 3 {
        return None;
    }
    if lit[0] != 0x62 || lit[1] != 0x22 || lit[lit.len() - 1] != 0x22 {
        return None;
    }
    parse_body_region(lit, 2, lit.len() - 1)
}

} // verus!
