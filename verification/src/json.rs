use vstd::prelude::*;

verus! {

// ---------------------------------------------------------------------------
// Byte classes
// ---------------------------------------------------------------------------

/// ASCII decimal digit.
pub open spec fn is_digit(b: u8) -> bool {
    48 <= b <= 57
}

/// Lowercase ASCII hexadecimal digit.
pub open spec fn is_hex_lower(b: u8) -> bool {
    is_digit(b) || (97 <= b <= 102)
}

/// Value of a lowercase hexadecimal digit.
pub open spec fn hex_val(b: u8) -> u8
    recommends
        is_hex_lower(b),
{
    if b <= 57 {
        (b - 48) as u8
    } else {
        (b - 87) as u8
    }
}

/// The lowercase hexadecimal digit for a value below 16.
pub open spec fn hex_digit(n: u8) -> u8
    recommends
        n < 16,
{
    if n < 10 {
        (48 + n) as u8
    } else {
        (87 + n) as u8
    }
}

pub proof fn lemma_hex_digit(n: u8)
    requires
        n < 16,
    ensures
        is_hex_lower(hex_digit(n)),
        hex_val(hex_digit(n)) == n,
        hex_digit(n) != 34,
        hex_digit(n) != 92,
{
}

// ---------------------------------------------------------------------------
// JSON string escaping
// ---------------------------------------------------------------------------

/// How one byte appears inside a JSON string: quote and backslash get a
/// backslash escape, control bytes a `\u00xx` escape, all else stands as is.
pub open spec fn json_escape_byte(b: u8) -> Seq<u8> {
    if b == 34 {
        seq![92u8, 34u8]
    } else if b == 92 {
        seq![92u8, 92u8]
    } else if b < 32 {
        seq![92u8, 117u8, 48u8, 48u8, hex_digit(b / 16), hex_digit(b % 16)]
    } else {
        seq![b]
    }
}

/// A byte string escaped for the inside of a JSON string.
pub open spec fn json_escape(s: Seq<u8>) -> Seq<u8>
    decreases s.len(),
{
    if s.len() == 0 {
        Seq::empty()
    } else {
        json_escape_byte(s[0]) + json_escape(s.drop_first())
    }
}

/// Escaping a string one byte longer appends that byte's escape.
pub proof fn lemma_json_escape_push(s: Seq<u8>, b: u8)
    ensures
        json_escape(s.push(b)) == json_escape(s) + json_escape_byte(b),
    decreases s.len(),
{
    if s.len() == 0 {
        let t = s.push(b);
        assert(t.drop_first() =~= Seq::<u8>::empty());
        assert(t[0] == b);
        assert(json_escape(t.drop_first()) == Seq::<u8>::empty());
        assert(json_escape(t) == json_escape_byte(b) + json_escape(t.drop_first()));
        assert(json_escape(t) =~= json_escape(s) + json_escape_byte(b));
    } else {
        assert(s.push(b).drop_first() =~= s.drop_first().push(b));
        lemma_json_escape_push(s.drop_first(), b);
        assert(s.push(b)[0] == s[0]);
        assert(json_escape(s.push(b)) =~= json_escape(s) + json_escape_byte(b));
    }
}

/// The decimal digits of `n`, most significant first, no leading zeros.
pub open spec fn dec_u64(n: u64) -> Seq<u8>
    decreases n,
{
    if n < 10 {
        seq![(48 + n) as u8]
    } else {
        dec_u64((n / 10) as u64) + seq![(48 + (n % 10)) as u8]
    }
}

/// Every byte of a decimal rendering is a digit.
pub proof fn lemma_dec_u64_digits(n: u64)
    ensures
        forall|i: int| 0 <= i < dec_u64(n).len() ==> is_digit(#[trigger] dec_u64(n)[i]),
        dec_u64(n).len() >= 1,
        n >= 1 ==> dec_u64(n)[0] != 48,
    decreases n,
{
    if n >= 10 {
        lemma_dec_u64_digits((n / 10) as u64);
    }
}

// ---------------------------------------------------------------------------
// Executable encoding helpers
// ---------------------------------------------------------------------------

/// Push the escape of one byte.
pub fn push_escaped_byte(out: &mut Vec<u8>, b: u8)
    ensures
        final(out)@ == old(out)@ + json_escape_byte(b),
{
    if b == 34 {
        out.push(92);
        out.push(34);
        proof {
            assert(out@ =~= old(out)@ + json_escape_byte(b));
        }
    } else if b == 92 {
        out.push(92);
        out.push(92);
        proof {
            assert(out@ =~= old(out)@ + json_escape_byte(b));
        }
    } else if b < 32 {
        let hi = b / 16;
        let lo = b % 16;
        let hid = if hi < 10 { 48 + hi } else { 87 + hi };
        let lod = if lo < 10 { 48 + lo } else { 87 + lo };
        out.push(92);
        out.push(117);
        out.push(48);
        out.push(48);
        out.push(hid);
        out.push(lod);
        proof {
            assert(hid == hex_digit(b / 16));
            assert(lod == hex_digit(b % 16));
            assert(out@ =~= old(out)@ + json_escape_byte(b));
        }
    } else {
        out.push(b);
        proof {
            assert(out@ =~= old(out)@ + json_escape_byte(b));
        }
    }
}

/// Push the escaped form of a whole byte string.
pub fn push_escaped(out: &mut Vec<u8>, s: &Vec<u8>)
    ensures
        final(out)@ == old(out)@ + json_escape(s@),
{
    let mut i: usize = 0;
    while i < s.len()
        invariant
            i <= s.len(),
            out@ == old(out)@ + json_escape(s@.subrange(0, i as int)),
        decreases s.len() - i,
    {
        push_escaped_byte(out, s[i]);
        proof {
            assert(s@.subrange(0, i + 1 as int) =~= s@.subrange(0, i as int).push(s@[i as int]));
            lemma_json_escape_push(s@.subrange(0, i as int), s@[i as int]);
        }
        i = i + 1;
    }
    proof {
        assert(s@.subrange(0, s@.len() as int) =~= s@);
    }
}

/// Push the decimal rendering of `n`.
pub fn push_decimal_u64(out: &mut Vec<u8>, n: u64)
    ensures
        final(out)@ == old(out)@ + dec_u64(n),
    decreases n,
{
    if n < 10 {
        out.push(48 + n as u8);
        proof {
            assert(out@ =~= old(out)@ + dec_u64(n));
        }
    } else {
        push_decimal_u64(out, n / 10);
        out.push(48 + (n % 10) as u8);
        proof {
            assert(out@ =~= old(out)@ + dec_u64(n));
        }
    }
}

// ---------------------------------------------------------------------------
// Parsing
// ---------------------------------------------------------------------------

/// The suffix of a byte string from position `i`.
pub open spec fn suffix(s: Seq<u8>, i: int) -> Seq<u8>
    recommends
        0 <= i <= s.len(),
{
    s.subrange(i, s.len() as int)
}

/// Parse the inside of a JSON string up to and including its closing quote;
/// return the unescaped bytes and the remaining input.
pub open spec fn parse_jstring(inp: Seq<u8>) -> Option<(Seq<u8>, Seq<u8>)>
    decreases inp.len(),
{
    if inp.len() == 0 {
        None
    } else if inp[0] == 34 {
        Some((Seq::empty(), inp.drop_first()))
    } else if inp[0] == 92 {
        if inp.len() < 2 {
            None
        } else if inp[1] == 34 || inp[1] == 92 {
            match parse_jstring(inp.subrange(2, inp.len() as int)) {
                Some(sr) => Some((seq![inp[1]] + sr.0, sr.1)),
                None => None,
            }
        } else if inp[1] == 117 {
            if inp.len() < 6 {
                None
            } else if inp[2] == 48 && inp[3] == 48 && is_hex_lower(inp[4]) && is_hex_lower(inp[5])
                && 16 * hex_val(inp[4]) + hex_val(inp[5]) < 32 {
                match parse_jstring(inp.subrange(6, inp.len() as int)) {
                    Some(sr) => Some(
                        (seq![(16 * hex_val(inp[4]) + hex_val(inp[5])) as u8] + sr.0, sr.1),
                    ),
                    None => None,
                }
            } else {
                None
            }
        } else {
            None
        }
    } else if inp[0] >= 32 {
        match parse_jstring(inp.drop_first()) {
            Some(sr) => Some((seq![inp[0]] + sr.0, sr.1)),
            None => None,
        }
    } else {
        None
    }
}

/// Parsing an escaped string followed by a closing quote yields the string
/// back: the unescape side of the round trip.
pub proof fn lemma_parse_escaped(s: Seq<u8>, rest: Seq<u8>)
    ensures
        parse_jstring(json_escape(s) + seq![34u8] + rest) == Some((s, rest)),
    decreases s.len(),
{
    let inp = json_escape(s) + seq![34u8] + rest;
    if s.len() == 0 {
        assert(inp =~= seq![34u8] + rest);
        assert(inp[0] == 34);
        assert(inp.drop_first() =~= rest);
    } else {
        let b = s[0];
        let s2 = s.drop_first();
        lemma_parse_escaped(s2, rest);
        let inner = json_escape(s2) + seq![34u8] + rest;
        assert(json_escape(s) == json_escape_byte(b) + json_escape(s2));
        if b == 34 {
            assert(inp =~= seq![92u8, 34u8] + inner);
            assert(inp[0] == 92 && inp[1] == 34);
            assert(inp.subrange(2, inp.len() as int) =~= inner);
            assert(seq![inp[1]] + s2 =~= s);
        } else if b == 92 {
            assert(inp =~= seq![92u8, 92u8] + inner);
            assert(inp[0] == 92 && inp[1] == 92);
            assert(inp.subrange(2, inp.len() as int) =~= inner);
            assert(seq![inp[1]] + s2 =~= s);
        } else if b < 32 {
            let h1 = hex_digit(b / 16);
            let h2 = hex_digit(b % 16);
            lemma_hex_digit(b / 16);
            lemma_hex_digit(b % 16);
            assert(inp =~= seq![92u8, 117u8, 48u8, 48u8, h1, h2] + inner);
            assert(inp[0] == 92 && inp[1] == 117 && inp[2] == 48 && inp[3] == 48);
            assert(inp[4] == h1 && inp[5] == h2);
            vstd::arithmetic::div_mod::lemma_fundamental_div_mod(b as int, 16);
            assert(16 * hex_val(inp[4]) + hex_val(inp[5]) == b);
            assert(inp.subrange(6, inp.len() as int) =~= inner);
            assert(seq![(16 * hex_val(inp[4]) + hex_val(inp[5])) as u8] + s2 =~= s);
        } else {
            assert(inp =~= seq![b] + inner);
            assert(inp[0] == b);
            assert(inp.drop_first() =~= inner);
            assert(seq![inp[0]] + s2 =~= s);
        }
    }
}

/// Fold decimal digits onto an accumulator until a non-digit appears.
pub open spec fn parse_num_rec(inp: Seq<u8>, acc: int) -> (int, Seq<u8>)
    decreases inp.len(),
{
    if inp.len() == 0 || !is_digit(inp[0]) {
        (acc, inp)
    } else {
        parse_num_rec(inp.drop_first(), acc * 10 + (inp[0] - 48))
    }
}

/// Parse a canonical JSON integer that fits in a `u64`: at least one digit,
/// no leading zero, value within range.
pub open spec fn parse_u64(inp: Seq<u8>) -> Option<(u64, Seq<u8>)> {
    if inp.len() == 0 || !is_digit(inp[0]) {
        None
    } else if inp[0] == 48 && inp.len() >= 2 && is_digit(inp[1]) {
        None
    } else {
        if parse_num_rec(inp, 0).0 > u64::MAX {
            None
        } else {
            Some((parse_num_rec(inp, 0).0 as u64, parse_num_rec(inp, 0).1))
        }
    }
}

/// The folded value never falls below the accumulator it started from.
pub proof fn lemma_parse_num_rec_ge(inp: Seq<u8>, acc: int)
    requires
        acc >= 0,
    ensures
        parse_num_rec(inp, acc).0 >= acc,
    decreases inp.len(),
{
    if inp.len() != 0 && is_digit(inp[0]) {
        lemma_parse_num_rec_ge(inp.drop_first(), acc * 10 + (inp[0] - 48));
    }
}

/// Folding a run of digits followed by a non-digit consumes exactly the run.
pub proof fn lemma_parse_num_rec_append(d: Seq<u8>, rest: Seq<u8>, acc: int)
    requires
        forall|i: int| 0 <= i < d.len() ==> is_digit(#[trigger] d[i]),
        rest.len() == 0 || !is_digit(rest[0]),
    ensures
        parse_num_rec(d + rest, acc) == (num_val(acc, d), rest),
    decreases d.len(),
{
    if d.len() == 0 {
        assert(d + rest =~= rest);
    } else {
        assert((d + rest)[0] == d[0]);
        assert((d + rest).drop_first() =~= d.drop_first() + rest);
        lemma_parse_num_rec_append(d.drop_first(), rest, acc * 10 + (d[0] - 48));
    }
}

/// The value of decimal digits laid over an accumulator.
pub open spec fn num_val(acc: int, d: Seq<u8>) -> int
    decreases d.len(),
{
    if d.len() == 0 {
        acc
    } else {
        num_val(acc * 10 + (d[0] - 48), d.drop_first())
    }
}

/// Appending one digit multiplies the value by ten and adds the digit.
pub proof fn lemma_num_val_snoc(acc: int, d: Seq<u8>, b: u8)
    ensures
        num_val(acc, d.push(b)) == num_val(acc, d) * 10 + (b - 48),
    decreases d.len(),
{
    if d.len() == 0 {
        assert(d.push(b)[0] == b);
        assert(d.push(b).drop_first() =~= Seq::<u8>::empty());
        assert(num_val(acc * 10 + (b - 48), Seq::<u8>::empty()) == acc * 10 + (b - 48));
        assert(num_val(acc, d.push(b)) == acc * 10 + (b - 48));
    } else {
        assert(d.push(b)[0] == d[0]);
        assert(d.push(b).drop_first() =~= d.drop_first().push(b));
        lemma_num_val_snoc(acc * 10 + (d[0] - 48), d.drop_first(), b);
        assert(num_val(acc, d.push(b)) == num_val(acc * 10 + (d[0] - 48), d.drop_first().push(b)));
        assert(num_val(acc, d) == num_val(acc * 10 + (d[0] - 48), d.drop_first()));
    }
}

/// Reading back the decimal rendering of `n` yields `n`.
pub proof fn lemma_num_val_dec(n: u64)
    ensures
        num_val(0, dec_u64(n)) == n,
    decreases n,
{
    if n < 10 {
        assert(dec_u64(n) =~= seq![(48 + n) as u8]);
        assert(dec_u64(n)[0] == (48 + n) as u8);
        assert(dec_u64(n).drop_first() =~= Seq::<u8>::empty());
        assert(num_val(0 * 10 + ((48 + n) - 48), Seq::<u8>::empty()) == n);
        assert(num_val(0, dec_u64(n)) == n);
    } else {
        lemma_num_val_dec((n / 10) as u64);
        assert(dec_u64(n) =~= dec_u64((n / 10) as u64).push((48 + (n % 10)) as u8));
        lemma_num_val_snoc(0, dec_u64((n / 10) as u64), (48 + (n % 10)) as u8);
        vstd::arithmetic::div_mod::lemma_fundamental_div_mod(n as int, 10);
    }
}

/// Parsing the decimal rendering of `n` yields `n`: the number side of the
/// round trip.
pub proof fn lemma_parse_decimal(n: u64, rest: Seq<u8>)
    requires
        rest.len() == 0 || !is_digit(rest[0]),
    ensures
        parse_u64(dec_u64(n) + rest) == Some((n, rest)),
{
    lemma_dec_u64_digits(n);
    lemma_parse_num_rec_append(dec_u64(n), rest, 0);
    lemma_num_val_dec(n);
    let inp = dec_u64(n) + rest;
    assert(inp[0] == dec_u64(n)[0]);
    if n == 0 {
        assert(dec_u64(0) =~= seq![48u8]);
        if inp.len() >= 2 {
            assert(inp[1] == rest[0]);
        }
    }
}

/// Drop an expected literal prefix, or refuse the input.
pub open spec fn strip_prefix(inp: Seq<u8>, lit: Seq<u8>) -> Option<Seq<u8>> {
    if inp.len() >= lit.len() && inp.subrange(0, lit.len() as int) == lit {
        Some(inp.subrange(lit.len() as int, inp.len() as int))
    } else {
        None
    }
}

/// Stripping a literal from input that starts with it yields the rest.
pub proof fn lemma_strip_prefix_exact(lit: Seq<u8>, rest: Seq<u8>)
    ensures
        strip_prefix(lit + rest, lit) == Some(rest),
{
    assert((lit + rest).subrange(0, lit.len() as int) =~= lit);
    assert((lit + rest).subrange(lit.len() as int, (lit + rest).len() as int) =~= rest);
}

// ---------------------------------------------------------------------------
// Executable parsing helpers
// ---------------------------------------------------------------------------

/// How a partial parse relates to the parse of the whole input: what was
/// unescaped so far stands in front of whatever the rest parses to.
pub open spec fn jstring_partial(
    whole: Option<(Seq<u8>, Seq<u8>)>,
    acc: Seq<u8>,
    rest: Option<(Seq<u8>, Seq<u8>)>,
) -> bool {
    match rest {
        Some(sr) => whole == Some((acc + sr.0, sr.1)),
        None => whole is None,
    }
}

/// Parse a JSON string body starting at `start`, mirroring `parse_jstring`.
pub fn parse_jstring_exec(inp: &Vec<u8>, start: usize) -> (r: Option<(Vec<u8>, usize)>)
    requires
        start <= inp@.len(),
    ensures
        r matches Some(sj) ==> sj.1 <= inp@.len() && parse_jstring(suffix(inp@, start as int))
            == Some((sj.0@, suffix(inp@, sj.1 as int))),
        r is None ==> parse_jstring(suffix(inp@, start as int)) is None,
{
    let mut acc: Vec<u8> = Vec::new();
    let mut i = start;
    loop
        invariant
            start <= i <= inp@.len(),
            jstring_partial(
                parse_jstring(suffix(inp@, start as int)),
                acc@,
                parse_jstring(suffix(inp@, i as int)),
            ),
        decreases inp@.len() - i,
    {
        if i >= inp.len() {
            proof {
                assert(suffix(inp@, i as int) =~= Seq::<u8>::empty());
            }
            return None;
        }
        let b = inp[i];
        proof {
            assert(suffix(inp@, i as int)[0] == b);
            assert(suffix(inp@, i as int).len() == inp@.len() - i);
        }
        if b == 34 {
            proof {
                assert(suffix(inp@, i as int).drop_first() =~= suffix(inp@, i + 1 as int));
                assert(acc@ + Seq::<u8>::empty() =~= acc@);
            }
            return Some((acc, i + 1));
        } else if b == 92 {
            if inp.len() - i < 2 {
                return None;
            }
            let b2 = inp[i + 1];
            proof {
                assert(suffix(inp@, i as int)[1] == b2);
            }
            if b2 == 34 || b2 == 92 {
                let ghost i0 = i as int;
                let ghost acc0 = acc@;
                acc.push(b2);
                i = i + 2;
                proof {
                    let s_old = suffix(inp@, i0);
                    assert(s_old.subrange(2, s_old.len() as int) =~= suffix(inp@, i as int));
                    match parse_jstring(suffix(inp@, i as int)) {
                        Some(sr) => {
                            assert(parse_jstring(s_old) == Some((seq![b2] + sr.0, sr.1)));
                            assert(acc0 + (seq![b2] + sr.0) =~= acc@ + sr.0);
                        }
                        None => {
                            assert(parse_jstring(s_old) is None);
                        }
                    }
                }
            } else if b2 == 117 {
                if inp.len() - i < 6 {
                    return None;
                }
                let b3 = inp[i + 2];
                let b4 = inp[i + 3];
                let b5 = inp[i + 4];
                let b6 = inp[i + 5];
                proof {
                    assert(suffix(inp@, i as int)[2] == b3);
                    assert(suffix(inp@, i as int)[3] == b4);
                    assert(suffix(inp@, i as int)[4] == b5);
                    assert(suffix(inp@, i as int)[5] == b6);
                }
                let h5 = if 48 <= b5 && b5 <= 57 {
                    Some(b5 - 48)
                } else if 97 <= b5 && b5 <= 102 {
                    Some(b5 - 87)
                } else {
                    None
                };
                let h6 = if 48 <= b6 && b6 <= 57 {
                    Some(b6 - 48)
                } else if 97 <= b6 && b6 <= 102 {
                    Some(b6 - 87)
                } else {
                    None
                };
                if b3 == 48 && b4 == 48 && h5.is_some() && h6.is_some() {
                    let v = 16 * h5.unwrap() + h6.unwrap();
                    if v < 32 {
                        let ghost i0 = i as int;
                        let ghost acc0 = acc@;
                        acc.push(v);
                        i = i + 6;
                        proof {
                            let s_old = suffix(inp@, i0);
                            assert(s_old.subrange(6, s_old.len() as int) =~= suffix(
                                inp@,
                                i as int,
                            ));
                            assert(16 * hex_val(s_old[4]) + hex_val(s_old[5]) == v);
                            match parse_jstring(suffix(inp@, i as int)) {
                                Some(sr) => {
                                    assert(parse_jstring(s_old) == Some(
                                        (seq![v] + sr.0, sr.1),
                                    ));
                                    assert(acc0 + (seq![v] + sr.0) =~= acc@ + sr.0);
                                }
                                None => {
                                    assert(parse_jstring(s_old) is None);
                                }
                            }
                        }
                    } else {
                        return None;
                    }
                } else {
                    return None;
                }
            } else {
                return None;
            }
        } else if b >= 32 {
            let ghost i0 = i as int;
            let ghost acc0 = acc@;
            acc.push(b);
            i = i + 1;
            proof {
                let s_old = suffix(inp@, i0);
                assert(s_old.drop_first() =~= suffix(inp@, i as int));
                match parse_jstring(suffix(inp@, i as int)) {
                    Some(sr) => {
                        assert(parse_jstring(s_old) == Some((seq![b] + sr.0, sr.1)));
                        assert(acc0 + (seq![b] + sr.0) =~= acc@ + sr.0);
                    }
                    None => {
                        assert(parse_jstring(s_old) is None);
                    }
                }
            }
        } else {
            return None;
        }
    }
}

/// Parse a decimal `u64` starting at `start`, mirroring `parse_u64`.
pub fn parse_u64_exec(inp: &Vec<u8>, start: usize) -> (r: Option<(u64, usize)>)
    requires
        start <= inp@.len(),
    ensures
        r matches Some(vj) ==> vj.1 <= inp@.len() && parse_u64(suffix(inp@, start as int))
            == Some((vj.0, suffix(inp@, vj.1 as int))),
        r is None ==> parse_u64(suffix(inp@, start as int)) is None,
{
    let ghost whole = suffix(inp@, start as int);
    if start >= inp.len() {
        proof {
            assert(whole.len() == 0);
        }
        return None;
    }
    let b0 = inp[start];
    proof {
        assert(whole[0] == b0);
        assert(whole.len() == inp@.len() - start);
    }
    if !(48 <= b0 && b0 <= 57) {
        return None;
    }
    if b0 == 48 {
        if start + 1 < inp.len() {
            let b1 = inp[start + 1];
            proof {
                assert(whole[1] == b1);
            }
            if 48 <= b1 && b1 <= 57 {
                return None;
            }
        }
        proof {
            assert(whole.drop_first() =~= suffix(inp@, start + 1 as int));
            let tail = suffix(inp@, start + 1 as int);
            if start + 1 < inp@.len() {
                assert(tail[0] == inp@[start + 1]);
                assert(tail[0] == whole[1]);
            } else {
                assert(tail.len() == 0);
            }
            assert(parse_num_rec(tail, 0) == (0int, tail));
            assert(parse_num_rec(whole, 0) == (0int, tail));
        }
        return Some((0, start + 1));
    }
    let mut i = start + 1;
    let mut val: u64 = (b0 - 48) as u64;
    proof {
        assert(whole.drop_first() =~= suffix(inp@, start + 1 as int));
        assert(parse_num_rec(whole, 0) == parse_num_rec(suffix(inp@, i as int), val as int));
    }
    loop
        invariant
            start + 1 <= i <= inp@.len(),
            parse_num_rec(whole, 0) == parse_num_rec(suffix(inp@, i as int), val as int),
            whole == suffix(inp@, start as int),
            whole.len() >= 1 && is_digit(whole[0]) && whole[0] != 48,
            start < inp@.len(),
        decreases inp@.len() - i,
    {
        if i >= inp.len() {
            proof {
                assert(suffix(inp@, i as int).len() == 0);
                assert(parse_num_rec(suffix(inp@, i as int), val as int) == (
                    val as int,
                    suffix(inp@, i as int),
                ));
            }
            return Some((val, i));
        }
        let b = inp[i];
        proof {
            assert(suffix(inp@, i as int)[0] == b);
        }
        if !(48 <= b && b <= 57) {
            proof {
                assert(parse_num_rec(suffix(inp@, i as int), val as int) == (
                    val as int,
                    suffix(inp@, i as int),
                ));
            }
            return Some((val, i));
        }
        let v = b - 48;
        if val > (u64::MAX - v as u64) / 10 {
            proof {
                let s_i = suffix(inp@, i as int);
                assert(s_i.drop_first() =~= suffix(inp@, i + 1 as int));
                assert(parse_num_rec(s_i, val as int) == parse_num_rec(
                    suffix(inp@, i + 1 as int),
                    (val as int) * 10 + (b - 48),
                ));
                lemma_parse_num_rec_ge(suffix(inp@, i + 1 as int), (val as int) * 10 + (b - 48));
                vstd::arithmetic::div_mod::lemma_fundamental_div_mod(
                    u64::MAX - (v as u64),
                    10,
                );
                assert((val as int) * 10 + (b - 48) > u64::MAX);
            }
            return None;
        }
        let ghost i0 = i as int;
        let ghost val0 = val as int;
        val = val * 10 + v as u64;
        i = i + 1;
        proof {
            let s_old = suffix(inp@, i0);
            assert(s_old.drop_first() =~= suffix(inp@, i as int));
            assert(parse_num_rec(s_old, val0) == parse_num_rec(
                suffix(inp@, i as int),
                val as int,
            ));
        }
    }
}

/// Check and skip an expected literal at `start`, mirroring `strip_prefix`.
pub fn strip_prefix_exec(inp: &Vec<u8>, start: usize, lit: &Vec<u8>) -> (r: Option<usize>)
    requires
        start <= inp@.len(),
    ensures
        r matches Some(j) ==> j <= inp@.len() && strip_prefix(suffix(inp@, start as int), lit@)
            == Some(suffix(inp@, j as int)),
        r is None ==> strip_prefix(suffix(inp@, start as int), lit@) is None,
{
    let ghost whole = suffix(inp@, start as int);
    if inp.len() - start < lit.len() {
        return None;
    }
    let mut k: usize = 0;
    while k < lit.len()
        invariant
            0 <= k <= lit@.len(),
            start <= inp@.len(),
            inp@.len() - start >= lit@.len(),
            whole == suffix(inp@, start as int),
            forall|m: int| 0 <= m < k ==> whole[m] == lit@[m],
        decreases lit@.len() - k,
    {
        let n = inp.len();
        proof {
            assert(start + k < n);
            assert(whole[k as int] == inp@[start + k]);
        }
        if inp[start + k] != lit[k] {
            proof {
                assert(whole.subrange(0, lit@.len() as int)[k as int] == whole[k as int]);
                assert(whole.subrange(0, lit@.len() as int)[k as int] != lit@[k as int]);
            }
            return None;
        }
        k = k + 1;
    }
    proof {
        assert(whole.subrange(0, lit@.len() as int) =~= lit@);
        assert(whole.subrange(lit@.len() as int, whole.len() as int) =~= suffix(
            inp@,
            start + lit@.len(),
        ));
    }
    Some(start + lit.len())
}

// ---------------------------------------------------------------------------
// Soundness: parses accept only canonical renderings
// ---------------------------------------------------------------------------

pub proof fn lemma_hex_val_digit(b: u8)
    requires
        is_hex_lower(b),
    ensures
        hex_val(b) < 16,
        hex_digit(hex_val(b)) == b,
{
}

/// What a successful string parse consumed is exactly the escape of what it
/// returned, closed by a quote.
pub proof fn lemma_parse_jstring_sound(inp: Seq<u8>, s: Seq<u8>, r: Seq<u8>)
    requires
        parse_jstring(inp) == Some((s, r)),
    ensures
        inp =~= json_escape(s) + seq![34u8] + r,
    decreases inp.len(),
{
    if inp[0] == 34 {
        assert(s =~= Seq::<u8>::empty());
        assert(inp =~= seq![34u8] + inp.drop_first());
    } else if inp[0] == 92 {
        if inp[1] == 34 || inp[1] == 92 {
            let inner = inp.subrange(2, inp.len() as int);
            match parse_jstring(inner) {
                Some(sr) => {
                    lemma_parse_jstring_sound(inner, sr.0, sr.1);
                    assert(s == seq![inp[1]] + sr.0);
                    assert(s[0] == inp[1]);
                    assert(s.drop_first() =~= sr.0);
                    assert(json_escape_byte(s[0]) =~= seq![92u8, inp[1]]);
                    assert(inp =~= seq![92u8, inp[1]] + inner);
                    assert(inp =~= json_escape(s) + seq![34u8] + r);
                }
                None => {
                    assert(false);
                }
            }
        } else {
            let h4 = hex_val(inp[4]);
            let h5 = hex_val(inp[5]);
            let v = (16 * h4 + h5) as u8;
            let inner = inp.subrange(6, inp.len() as int);
            match parse_jstring(inner) {
                Some(sr) => {
                    lemma_parse_jstring_sound(inner, sr.0, sr.1);
                    assert(s == seq![v] + sr.0);
                    assert(s[0] == v);
                    assert(s.drop_first() =~= sr.0);
                    lemma_hex_val_digit(inp[4]);
                    lemma_hex_val_digit(inp[5]);
                    assert((16 * h4 + h5) / 16 == h4 && (16 * h4 + h5) % 16 == h5)
                        by (nonlinear_arith)
                        requires h4 < 16 && h5 < 16,
                    ;
                    assert(hex_digit(v / 16) == inp[4]);
                    assert(hex_digit(v % 16) == inp[5]);
                    assert(json_escape_byte(v) =~= seq![
                        92u8,
                        117u8,
                        48u8,
                        48u8,
                        inp[4],
                        inp[5],
                    ]);
                    assert(inp =~= seq![92u8, 117u8, 48u8, 48u8, inp[4], inp[5]] + inner);
                    assert(inp =~= json_escape(s) + seq![34u8] + r);
                }
                None => {
                    assert(false);
                }
            }
        }
    } else {
        let inner = inp.drop_first();
        match parse_jstring(inner) {
            Some(sr) => {
                lemma_parse_jstring_sound(inner, sr.0, sr.1);
                assert(s == seq![inp[0]] + sr.0);
                assert(s[0] == inp[0]);
                assert(s.drop_first() =~= sr.0);
                assert(json_escape_byte(s[0]) =~= seq![inp[0]]);
                assert(inp =~= seq![inp[0]] + inner);
                assert(inp =~= json_escape(s) + seq![34u8] + r);
            }
            None => {
                assert(false);
            }
        }
    }
}

/// The digit folds never drop below the accumulator they started from.
pub proof fn lemma_num_val_ge(acc: int, d: Seq<u8>)
    requires
        acc >= 0,
        forall|i: int| 0 <= i < d.len() ==> is_digit(#[trigger] d[i]),
    ensures
        num_val(acc, d) >= acc,
    decreases d.len(),
{
    if d.len() != 0 {
        lemma_num_val_ge(acc * 10 + (d[0] - 48), d.drop_first());
    }
}

/// The digits a successful fold consumed: they stand in front of the rest,
/// their value is the fold's value, and the rest starts with no digit.
pub proof fn lemma_parse_num_rec_sound(inp: Seq<u8>, acc: int) -> (d: Seq<u8>)
    requires
        acc >= 0,
    ensures
        inp =~= d + parse_num_rec(inp, acc).1,
        forall|i: int| 0 <= i < d.len() ==> is_digit(#[trigger] d[i]),
        num_val(acc, d) == parse_num_rec(inp, acc).0,
        parse_num_rec(inp, acc).1.len() == 0 || !is_digit(parse_num_rec(inp, acc).1[0]),
        inp.len() != 0 && is_digit(inp[0]) ==> d.len() != 0,
    decreases inp.len(),
{
    if inp.len() == 0 || !is_digit(inp[0]) {
        let d = Seq::<u8>::empty();
        assert(inp =~= d + inp);
        d
    } else {
        let tail = lemma_parse_num_rec_sound(inp.drop_first(), acc * 10 + (inp[0] - 48));
        let d = seq![inp[0]] + tail;
        assert(d[0] == inp[0]);
        assert(d.drop_first() =~= tail);
        assert(parse_num_rec(inp, acc) == parse_num_rec(inp.drop_first(), acc * 10 + (inp[0]
            - 48)));
        assert(inp =~= seq![inp[0]] + inp.drop_first());
        assert(inp.drop_first() =~= tail + parse_num_rec(inp, acc).1);
        assert(inp =~= d + parse_num_rec(inp, acc).1);
        assert(num_val(acc, d) == num_val(acc * 10 + (inp[0] - 48), tail));
        d
    }
}

/// A digit string with no leading zero renders back from its value.
pub proof fn lemma_dec_of_num_val(d: Seq<u8>)
    requires
        d.len() >= 1,
        forall|i: int| 0 <= i < d.len() ==> is_digit(#[trigger] d[i]),
        d[0] != 48 || d.len() == 1,
        num_val(0, d) <= u64::MAX,
    ensures
        0 <= num_val(0, d),
        dec_u64(num_val(0, d) as u64) =~= d,
    decreases d.len(),
{
    lemma_num_val_ge(0, d);
    if d.len() == 1 {
        assert(d.drop_first() =~= Seq::<u8>::empty());
        assert(num_val(0, d) == num_val(0 * 10 + (d[0] - 48), d.drop_first()));
        assert(num_val(0, d) == d[0] - 48);
        assert(dec_u64((d[0] - 48) as u64) =~= seq![d[0]]);
        assert(d =~= seq![d[0]]);
    } else {
        let front = d.drop_last();
        let last = d.last();
        assert(d =~= front.push(last));
        lemma_num_val_snoc(0, front, last);
        let vf = num_val(0, front);
        let v = num_val(0, d);
        assert(v == vf * 10 + (last - 48));
        assert(front[0] == d[0]);
        assert(front[0] != 48);
        assert(forall|i: int| 0 <= i < front.len() ==> is_digit(#[trigger] front[i]));
        assert(num_val(0, front) >= front[0] - 48) by {
            assert(front.drop_first().len() == front.len() - 1);
            lemma_num_val_ge(0 * 10 + (front[0] - 48), front.drop_first());
            assert(num_val(0, front) == num_val(0 * 10 + (front[0] - 48), front.drop_first()));
        }
        assert(vf >= 1);
        assert(v >= 10);
        lemma_dec_of_num_val(front);
        assert((vf * 10 + (last - 48)) / 10 == vf && (vf * 10 + (last - 48)) % 10 == last - 48)
            by (nonlinear_arith)
            requires vf >= 0 && 0 <= last - 48 < 10,
        ;
        assert((v as u64) / 10 == vf);
        assert(dec_u64(v as u64) == dec_u64((vf) as u64) + seq![(48 + ((v as u64) % 10)) as u8]);
        assert(dec_u64(v as u64) =~= front + seq![last]);
        assert(d =~= front + seq![last]);
    }
}

/// What a successful number parse consumed is exactly the decimal
/// rendering of the value it returned.
pub proof fn lemma_parse_u64_sound(inp: Seq<u8>, v: u64, r: Seq<u8>)
    requires
        parse_u64(inp) == Some((v, r)),
    ensures
        inp =~= dec_u64(v) + r,
{
    if inp[0] == 48 {
        assert(!(inp.len() >= 2 && is_digit(inp[1])));
        let tail = inp.drop_first();
        assert(tail.len() == 0 || !is_digit(tail[0]));
        assert(parse_num_rec(tail, 0 * 10 + (inp[0] - 48)) == (0int, tail));
        assert(parse_num_rec(inp, 0) == (0int, tail));
        assert(v == 0 && r == tail);
        assert(dec_u64(0) =~= seq![48u8]);
        assert(inp =~= seq![48u8] + tail);
    } else {
        let d = lemma_parse_num_rec_sound(inp, 0);
        assert(d.len() != 0);
        assert(d[0] == inp[0]);
        assert(d[0] != 48);
        lemma_parse_num_rec_ge(inp, 0);
        assert(0 <= parse_num_rec(inp, 0).0 <= u64::MAX);
        assert(v == parse_num_rec(inp, 0).0);
        assert(num_val(0, d) == v);
        lemma_dec_of_num_val(d);
        assert(dec_u64(v) =~= d);
        assert(r == parse_num_rec(inp, 0).1);
    }
}

/// What a successful literal strip consumed is the literal itself.
pub proof fn lemma_strip_prefix_sound(inp: Seq<u8>, lit: Seq<u8>, r: Seq<u8>)
    requires
        strip_prefix(inp, lit) == Some(r),
    ensures
        inp =~= lit + r,
{
    assert(inp =~= inp.subrange(0, lit.len() as int) + inp.subrange(
        lit.len() as int,
        inp.len() as int,
    ));
}

} // verus!
