//! The JSON rendering of a check result, and a parser for it: a compact
//! object with the fields in a fixed order, quotes and backslashes escaped
//! in string values. Encoding and parsing are verified against one
//! sequence-level grammar, and parsing an encoded result gives every field
//! back exactly.

use vstd::prelude::*;
use vstd::string::StrSliceExecFns;
use vstd::string::StringExecFns;

use crate::bindings::push_char;
use crate::check_result::CheckResultJSON;
use crate::decimal::{append_dec_i64, append_dec_u128, spec_dec_int, spec_dec_nat};

verus! {

/// How one character is written inside a JSON string: quotes and
/// backslashes get a backslash before them, everything else stands as it
/// is.
pub open spec fn spec_esc_char(c: char) -> Seq<char> {
    if c == '"' || c == '\\' {
        seq!['\\', c]
    } else {
        seq![c]
    }
}

/// A string's characters as they are written inside a JSON string.
pub open spec fn spec_json_escape(s: Seq<char>) -> Seq<char>
    decreases s.len(),
{
    if s.len() == 0 {
        Seq::empty()
    } else {
        spec_esc_char(s[0]) + spec_json_escape(s.drop_first())
    }
}

/// Escaping one more character appends that character's escape.
pub proof fn lemma_escape_push(s: Seq<char>, c: char)
    ensures
        spec_json_escape(s.push(c)) == spec_json_escape(s) + spec_esc_char(c),
    decreases s.len(),
{
    if s.len() == 0 {
        assert(s.push(c)[0] == c);
        assert(s.push(c).drop_first() =~= Seq::<char>::empty());
        assert(spec_json_escape(s.push(c)) == spec_esc_char(c) + spec_json_escape(
            s.push(c).drop_first(),
        ));
        assert(spec_json_escape(s.push(c).drop_first()) == Seq::<char>::empty());
        assert(spec_json_escape(s.push(c)) =~= spec_json_escape(s) + spec_esc_char(c));
    } else {
        lemma_escape_push(s.drop_first(), c);
        assert(s.push(c).drop_first() =~= s.drop_first().push(c));
        assert(spec_json_escape(s.push(c)) =~= spec_json_escape(s) + spec_esc_char(c));
    }
}

/// Append a string's characters to `out` as they are written inside a JSON
/// string.
fn append_json_escaped(out: &mut String, s: &str)
    ensures
        final(out)@ == old(out)@ + spec_json_escape(s@),
{
    let n = s.unicode_len();
    let mut i: usize = 0;
    while i < n
        invariant
            n == s@.len(),
            i <= n,
            out@ == old(out)@ + spec_json_escape(s@.take(i as int)),
        decreases n - i,
    {
        let c = s.get_char(i);
        if c == '"' {
            out.append("\\\"");
            proof {
                reveal_strlit("\\\"");
                assert("\\\""@ =~= spec_esc_char(c));
            }
        } else if c == '\\' {
            out.append("\\\\");
            proof {
                reveal_strlit("\\\\");
                assert("\\\\"@ =~= spec_esc_char(c));
            }
        } else {
            push_char(out, c);
        }
        proof {
            lemma_escape_push(s@.take(i as int), c);
            assert(s@.take(i + 1) =~= s@.take(i as int).push(s@[i as int]));
            assert(out@ =~= old(out)@ + spec_json_escape(s@.take(i + 1)));
        }
        i += 1;
    }
    proof {
        assert(s@.take(n as int) =~= s@);
    }
}

/// The JSON rendering of a check result: one object, fields in the order
/// state, checked_at, days, domain_name, expired_at, elapsed; string values
/// escaped, numbers in plain decimal.
pub open spec fn spec_result_json(j: CheckResultJSON) -> Seq<char> {
    "{\"state\":\""@ + spec_json_escape(j.state@) + "\",\"checked_at\":\""@ + spec_json_escape(
        j.checked_at@,
    ) + "\",\"days\":"@ + spec_dec_int(j.days as int) + ",\"domain_name\":\""@ + spec_json_escape(
        j.domain_name@,
    ) + "\",\"expired_at\":\""@ + spec_json_escape(j.expired_at@) + "\",\"elapsed\":"@
        + spec_dec_nat(j.elapsed as nat) + "}"@
}

impl CheckResultJSON {
    /// Write this result as one JSON object.
    pub fn to_json_string(&self) -> (r: String)
        ensures
            r@ == spec_result_json(*self),
    {
        let mut s = "{\"state\":\"".to_owned();
        append_json_escaped(&mut s, self.state.as_str());
        s.append("\",\"checked_at\":\"");
        append_json_escaped(&mut s, self.checked_at.as_str());
        s.append("\",\"days\":");
        append_dec_i64(&mut s, self.days);
        s.append(",\"domain_name\":\"");
        append_json_escaped(&mut s, self.domain_name.as_str());
        s.append("\",\"expired_at\":\"");
        append_json_escaped(&mut s, self.expired_at.as_str());
        s.append("\",\"elapsed\":");
        append_dec_u128(&mut s, self.elapsed);
        s.append("}");
        proof {
            assert(s@ =~= spec_result_json(*self));
        }
        s
    }
}


/// Whether a character is a decimal digit.
pub open spec fn spec_is_digit(c: char) -> bool {
    '0' <= c && c <= '9'
}

/// The numeric value of a decimal digit character (9 for anything else).
pub open spec fn spec_digit_value(c: char) -> int {
    if c == '0' {
        0
    } else if c == '1' {
        1
    } else if c == '2' {
        2
    } else if c == '3' {
        3
    } else if c == '4' {
        4
    } else if c == '5' {
        5
    } else if c == '6' {
        6
    } else if c == '7' {
        7
    } else if c == '8' {
        8
    } else {
        9
    }
}

/// How many leading characters of `s` are decimal digits.
pub open spec fn spec_digit_len(s: Seq<char>) -> int
    decreases s.len(),
{
    if s.len() == 0 || !spec_is_digit(s[0]) {
        0
    } else {
        1 + spec_digit_len(s.drop_first())
    }
}

/// The numeric value of a sequence of digit characters, most significant
/// first.
pub open spec fn spec_dec_value(s: Seq<char>) -> int
    decreases s.len(),
{
    if s.len() == 0 {
        0
    } else {
        spec_dec_value(s.drop_last()) * 10 + spec_digit_value(s.last())
    }
}

/// Parse the maximal run of leading digits: its value and what follows.
/// Nothing parses when no digit leads.
pub open spec fn spec_parse_number(s: Seq<char>) -> Option<(int, Seq<char>)> {
    let k = spec_digit_len(s);
    if k == 0 {
        None
    } else {
        Some((spec_dec_value(s.take(k)), s.skip(k)))
    }
}

/// Parse a number that must fit an unsigned 128-bit value.
pub open spec fn spec_parse_u128(s: Seq<char>) -> Option<(int, Seq<char>)> {
    match spec_parse_number(s) {
        Some((v, rest)) => if v <= u128::MAX {
            Some((v, rest))
        } else {
            None
        },
        None => None,
    }
}

/// Parse an optionally negated number that must fit a signed 64-bit value.
pub open spec fn spec_parse_i64(s: Seq<char>) -> Option<(int, Seq<char>)> {
    if s.len() > 0 && s[0] == '-' {
        match spec_parse_number(s.drop_first()) {
            Some((v, rest)) => if v <= 9223372036854775808 {
                Some((0 - v, rest))
            } else {
                None
            },
            None => None,
        }
    } else {
        match spec_parse_number(s) {
            Some((v, rest)) => if v <= 9223372036854775807 {
                Some((v, rest))
            } else {
                None
            },
            None => None,
        }
    }
}

/// Consume an expected literal prefix, yielding what follows it.
pub open spec fn spec_take_lit(s: Seq<char>, lit: Seq<char>) -> Option<Seq<char>> {
    if lit.len() <= s.len() && s.take(lit.len() as int) == lit {
        Some(s.skip(lit.len() as int))
    } else {
        None
    }
}

/// Parse the inside of a JSON string up to its closing quote, undoing the
/// escapes the encoder writes: the string's characters and what follows the
/// closing quote. Unknown escapes and a missing closing quote parse to
/// nothing.
pub open spec fn spec_parse_jstring(s: Seq<char>) -> Option<(Seq<char>, Seq<char>)>
    decreases s.len(),
{
    if s.len() == 0 {
        None
    } else if s[0] == '"' {
        Some((Seq::empty(), s.drop_first()))
    } else if s[0] == '\\' {
        if s.len() >= 2 && (s[1] == '"' || s[1] == '\\') {
            match spec_parse_jstring(s.skip(2)) {
                Some((t, rest)) => Some((seq![s[1]] + t, rest)),
                None => None,
            }
        } else {
            None
        }
    } else {
        match spec_parse_jstring(s.drop_first()) {
            Some((t, rest)) => Some((seq![s[0]] + t, rest)),
            None => None,
        }
    }
}

/// The result of parsing the JSON rendering of a check: the six fields, as
/// plain values, of the one object the text must consist of.
pub open spec fn spec_parse_result_json(s: Seq<char>) -> Option<
    (Seq<char>, Seq<char>, int, Seq<char>, Seq<char>, int),
> {
    match spec_take_lit(s, "{\"state\":\""@) {
        None => None,
        Some(s1) => match spec_parse_jstring(s1) {
            None => None,
            Some((state, s2)) => match spec_take_lit(s2, ",\"checked_at\":\""@) {
                None => None,
                Some(s3) => match spec_parse_jstring(s3) {
                    None => None,
                    Some((checked_at, s4)) => match spec_take_lit(s4, ",\"days\":"@) {
                        None => None,
                        Some(s5) => match spec_parse_i64(s5) {
                            None => None,
                            Some((days, s6)) => match spec_take_lit(s6, ",\"domain_name\":\""@) {
                                None => None,
                                Some(s7) => match spec_parse_jstring(s7) {
                                    None => None,
                                    Some((domain_name, s8)) => match spec_take_lit(
                                        s8,
                                        ",\"expired_at\":\""@,
                                    ) {
                                        None => None,
                                        Some(s9) => match spec_parse_jstring(s9) {
                                            None => None,
                                            Some((expired_at, s10)) => match spec_take_lit(
                                                s10,
                                                ",\"elapsed\":"@,
                                            ) {
                                                None => None,
                                                Some(s11) => match spec_parse_u128(s11) {
                                                    None => None,
                                                    Some((elapsed, s12)) => match spec_take_lit(
                                                        s12,
                                                        "}"@,
                                                    ) {
                                                        None => None,
                                                        Some(s13) => if s13.len() == 0 {
                                                            Some(
                                                                (
                                                                    state,
                                                                    checked_at,
                                                                    days,
                                                                    domain_name,
                                                                    expired_at,
                                                                    elapsed,
                                                                ),
                                                            )
                                                        } else {
                                                            None
                                                        },
                                                    },
                                                },
                                            },
                                        },
                                    },
                                },
                            },
                        },
                    },
                },
            },
        },
    }
}

/// The value of a digit run is never negative.
pub proof fn lemma_dec_value_nonneg(s: Seq<char>)
    ensures
        spec_dec_value(s) >= 0,
    decreases s.len(),
{
    if s.len() > 0 {
        lemma_dec_value_nonneg(s.drop_last());
    }
}

/// A longer digit prefix never has a smaller value.
pub proof fn lemma_dec_value_monotone(s: Seq<char>, m1: int, m2: int)
    requires
        0 <= m1 <= m2 <= s.len(),
    ensures
        spec_dec_value(s.take(m1)) <= spec_dec_value(s.take(m2)),
    decreases m2 - m1,
{
    if m1 < m2 {
        lemma_dec_value_monotone(s, m1, m2 - 1);
        assert(s.take(m2).drop_last() =~= s.take(m2 - 1));
        lemma_dec_value_nonneg(s.take(m2 - 1));
        assert(spec_dec_value(s.take(m2)) == spec_dec_value(s.take(m2 - 1)) * 10
            + spec_digit_value(s.take(m2).last()));
    }
}

/// When the first `m` characters are digits, at least `m` characters count
/// as the leading digit run.
pub proof fn lemma_digit_len_at_least(s: Seq<char>, m: int)
    requires
        0 <= m <= s.len(),
        forall|t: int| 0 <= t < m ==> spec_is_digit(#[trigger] s[t]),
    ensures
        spec_digit_len(s) >= m,
    decreases m,
{
    lemma_digit_len_bounded(s);
    if m > 0 {
        assert(spec_is_digit(s[0]));
        assert forall|t: int| 0 <= t < m - 1 implies spec_is_digit(#[trigger] s.drop_first()[t]) by {
            assert(s.drop_first()[t] == s[t + 1]);
        }
        lemma_digit_len_at_least(s.drop_first(), m - 1);
        assert(spec_digit_len(s) == 1 + spec_digit_len(s.drop_first()));
    }
}

/// When the first `m` characters are digits and the next one is not (or the
/// sequence ends there), the leading digit run is exactly `m` characters.
pub proof fn lemma_digit_len_exact(s: Seq<char>, m: int)
    requires
        0 <= m <= s.len(),
        forall|t: int| 0 <= t < m ==> spec_is_digit(#[trigger] s[t]),
        m == s.len() || !spec_is_digit(s[m]),
    ensures
        spec_digit_len(s) == m,
    decreases m,
{
    if m == 0 {
    } else {
        assert(spec_is_digit(s[0]));
        assert forall|t: int| 0 <= t < m - 1 implies spec_is_digit(#[trigger] s.drop_first()[t]) by {
            assert(s.drop_first()[t] == s[t + 1]);
        }
        if m < s.len() {
            assert(s.drop_first()[m - 1] == s[m]);
        }
        lemma_digit_len_exact(s.drop_first(), m - 1);
        assert(spec_digit_len(s) == 1 + spec_digit_len(s.drop_first()));
    }
}

/// A digit character as its numeric value; nothing for other characters.
fn digit_value_of(c: char) -> (r: Option<u8>)
    ensures
        r is Some <==> spec_is_digit(c),
        r matches Some(d) ==> d as int == spec_digit_value(c) && d < 10,
{
    match c {
        '0' => Some(0),
        '1' => Some(1),
        '2' => Some(2),
        '3' => Some(3),
        '4' => Some(4),
        '5' => Some(5),
        '6' => Some(6),
        '7' => Some(7),
        '8' => Some(8),
        '9' => Some(9),
        _ => None,
    }
}

/// Parse the maximal leading digit run from position `pos` into an
/// unsigned 128-bit value; see `spec_parse_u128`.
fn parse_number_u128(s: &str, pos: usize) -> (r: Option<(u128, usize)>)
    requires
        pos <= s@.len(),
    ensures
        match r {
            Some(v) => pos <= v.1 <= s@.len() && spec_parse_u128(s@.skip(pos as int)) == Some(
                (v.0 as int, s@.skip(v.1 as int)),
            ),
            None => spec_parse_u128(s@.skip(pos as int)) is None,
        },
{
    let n = s.unicode_len();
    let ghost tail = s@.skip(pos as int);
    let mut cur: usize = pos;
    let mut v: u128 = 0;
    let mut stop = false;
    while !stop && cur < n
        invariant
            n == s@.len(),
            pos <= cur <= n,
            tail == s@.skip(pos as int),
            forall|t: int| 0 <= t < cur - pos ==> spec_is_digit(#[trigger] tail[t]),
            v as int == spec_dec_value(tail.take(cur - pos)),
            stop ==> cur < n && !spec_is_digit(tail[cur - pos]),
        decreases n - cur + (if stop { 0int } else { 1int }),
    {
        let c = s.get_char(cur);
        proof {
            assert(tail[cur - pos] == s@[cur as int]);
        }
        match digit_value_of(c) {
            None => {
                stop = true;
            },
            Some(d) => {
                if v > (u128::MAX - d as u128) / 10 {
                    proof {
                        let j = cur - pos;
                        assert(tail.take(j + 1).drop_last() =~= tail.take(j as int));
                        assert(spec_dec_value(tail.take(j + 1)) == (v as int) * 10 + d) by {
                            assert(tail.take(j + 1).last() == tail[j as int]);
                        }
                        assert((v as int) * 10 + d > u128::MAX) by (nonlinear_arith)
                            requires
                                v as int > (u128::MAX - d as u128) as int / 10,
                                0 <= d < 10,
                        ;
                        lemma_digit_len_at_least(tail, j + 1);
                        let k = spec_digit_len(tail);
                        assert(k <= tail.len()) by {
                            lemma_digit_len_bounded(tail);
                        }
                        lemma_dec_value_monotone(tail, j + 1, k);
                        assert(spec_parse_u128(s@.skip(pos as int)) is None);
                    }
                    return None;
                }
                v = v * 10 + d as u128;
                cur += 1;
                proof {
                    let j = cur - pos;
                    assert(tail.take(j as int).drop_last() =~= tail.take(j - 1));
                    assert(tail.take(j as int).last() == tail[j - 1]);
                }
            },
        }
    }
    proof {
        lemma_digit_len_exact(tail, cur - pos);
    }
    if cur == pos {
        return None;
    }
    proof {
        assert(tail.skip(cur - pos) =~= s@.skip(cur as int));
    }
    Some((v, cur))
}

/// The leading digit run never runs past the end.
pub proof fn lemma_digit_len_bounded(s: Seq<char>)
    ensures
        0 <= spec_digit_len(s) <= s.len(),
    decreases s.len(),
{
    if s.len() > 0 && spec_is_digit(s[0]) {
        lemma_digit_len_bounded(s.drop_first());
    }
}

/// Parse an optionally negated leading digit run from position `pos` into
/// a signed 64-bit value; see `spec_parse_i64`.
fn parse_number_i64(s: &str, pos: usize) -> (r: Option<(i64, usize)>)
    requires
        pos <= s@.len(),
    ensures
        match r {
            Some(v) => pos <= v.1 <= s@.len() && spec_parse_i64(s@.skip(pos as int)) == Some(
                (v.0 as int, s@.skip(v.1 as int)),
            ),
            None => spec_parse_i64(s@.skip(pos as int)) is None,
        },
{
    let n = s.unicode_len();
    if pos < n && s.get_char(pos) == '-' {
        proof {
            assert(s@.skip(pos as int)[0] == s@[pos as int]);
            assert(s@.skip(pos as int).drop_first() =~= s@.skip(pos + 1));
        }
        match parse_number_u128(s, pos + 1) {
            Some((v, p)) => {
                if v <= 9_223_372_036_854_775_808u128 {
                    let out: i64 = if v == 9_223_372_036_854_775_808u128 {
                        i64::MIN
                    } else {
                        -(v as i64)
                    };
                    Some((out, p))
                } else {
                    None
                }
            },
            None => None,
        }
    } else {
        proof {
            if pos < n {
                assert(s@.skip(pos as int)[0] == s@[pos as int]);
            } else {
                assert(s@.skip(pos as int).len() == 0);
            }
        }
        match parse_number_u128(s, pos) {
            Some((v, p)) => {
                if v <= i64::MAX as u128 {
                    Some((v as i64, p))
                } else {
                    None
                }
            },
            None => None,
        }
    }
}

/// Consume the expected literal at position `pos`; see `spec_take_lit`.
fn take_lit(s: &str, pos: usize, lit: &str) -> (r: Option<usize>)
    requires
        pos <= s@.len(),
    ensures
        match r {
            Some(p) => pos <= p <= s@.len() && p == pos + lit@.len() && spec_take_lit(
                s@.skip(pos as int),
                lit@,
            ) == Some(s@.skip(p as int)),
            None => spec_take_lit(s@.skip(pos as int), lit@) is None,
        },
{
    let n = s.unicode_len();
    let ln = lit.unicode_len();
    let ghost tail = s@.skip(pos as int);
    if ln > n - pos {
        return None;
    }
    let mut k: usize = 0;
    while k < ln
        invariant
            n == s@.len(),
            ln == lit@.len(),
            pos <= n,
            ln <= n - pos,
            k <= ln,
            tail == s@.skip(pos as int),
            forall|t: int| 0 <= t < k ==> tail[t] == #[trigger] lit@[t],
        decreases ln - k,
    {
        let a = s.get_char(pos + k);
        let b = lit.get_char(k);
        proof {
            assert(tail[k as int] == s@[pos + k]);
        }
        if a != b {
            proof {
                assert(tail.take(ln as int)[k as int] != lit@[k as int]);
                assert(tail.take(ln as int) != lit@);
            }
            return None;
        }
        k += 1;
    }
    proof {
        assert(tail.take(ln as int) =~= lit@);
        assert(tail.skip(ln as int) =~= s@.skip(pos + ln));
    }
    Some(pos + ln)
}

/// Parse the inside of a JSON string starting at `pos`, up to and past its
/// closing quote; see `spec_parse_jstring`.
fn parse_jstring(s: &str, pos: usize) -> (r: Option<(String, usize)>)
    requires
        pos <= s@.len(),
    ensures
        match r {
            Some(v) => pos <= v.1 <= s@.len() && spec_parse_jstring(s@.skip(pos as int)) == Some(
                (v.0@, s@.skip(v.1 as int)),
            ),
            None => spec_parse_jstring(s@.skip(pos as int)) is None,
        },
{
    let n = s.unicode_len();
    let mut cur: usize = pos;
    let mut out = String::new();
    while cur < n
        invariant
            n == s@.len(),
            pos <= cur <= n,
            spec_parse_jstring(s@.skip(pos as int)) == (match spec_parse_jstring(
                s@.skip(cur as int),
            ) {
                Some((t, rest)) => Some((out@ + t, rest)),
                None => None::<(Seq<char>, Seq<char>)>,
            }),
        decreases n - cur,
    {
        let ghost mid = s@.skip(cur as int);
        let c = s.get_char(cur);
        proof {
            assert(mid[0] == s@[cur as int]);
        }
        if c == '"' {
            proof {
                assert(mid.drop_first() =~= s@.skip(cur + 1));
                assert(spec_parse_jstring(mid) == Some(
                    (Seq::<char>::empty(), s@.skip(cur + 1)),
                ));
                assert(out@ + Seq::<char>::empty() =~= out@);
            }
            return Some((out, cur + 1));
        } else if c == '\\' {
            if cur + 1 == n {
                proof {
                    assert(spec_parse_jstring(mid) is None);
                }
                return None;
            }
            let c2 = s.get_char(cur + 1);
            proof {
                assert(mid[1] == s@[cur + 1]);
            }
            if c2 == '"' || c2 == '\\' {
                push_char(&mut out, c2);
                proof {
                    assert(mid.skip(2) =~= s@.skip(cur + 2));
                }
                cur += 2;
                proof {
                    let ghost prev = out@.drop_last();
                    assert(prev.push(c2) =~= out@);
                    match spec_parse_jstring(s@.skip(cur as int)) {
                        Some((t, rest)) => {
                            assert(spec_parse_jstring(mid) == Some((seq![c2] + t, rest)));
                            assert(prev + (seq![c2] + t) =~= out@ + t);
                        },
                        None => {
                            assert(spec_parse_jstring(mid) is None);
                        },
                    }
                }
            } else {
                proof {
                    assert(spec_parse_jstring(mid) is None);
                }
                return None;
            }
        } else {
            push_char(&mut out, c);
            proof {
                assert(mid.drop_first() =~= s@.skip(cur + 1));
            }
            cur += 1;
            proof {
                let ghost prev = out@.drop_last();
                assert(prev.push(c) =~= out@);
                match spec_parse_jstring(s@.skip(cur as int)) {
                    Some((t, rest)) => {
                        assert(spec_parse_jstring(mid) == Some((seq![c] + t, rest)));
                        assert(prev + (seq![c] + t) =~= out@ + t);
                    },
                    None => {
                        assert(spec_parse_jstring(mid) is None);
                    },
                }
            }
        }
    }
    proof {
        assert(s@.skip(cur as int).len() == 0);
    }
    None
}

/// Parse the JSON rendering of a check result back into its fields; the
/// grammar is `spec_parse_result_json`. Parsing what `to_json_string`
/// wrote gives every field back; see `lemma_json_round_trip`.
pub fn parse_result_json(s: &str) -> (r: Option<CheckResultJSON>)
    ensures
        match r {
            Some(j) => spec_parse_result_json(s@) == Some(
                (j.state@, j.checked_at@, j.days as int, j.domain_name@, j.expired_at@, j.elapsed as int),
            ),
            None => spec_parse_result_json(s@) is None,
        },
{
    proof {
        assert(s@.skip(0) =~= s@);
    }
    let p1 = match take_lit(s, 0, "{\"state\":\"") {
        Some(p) => p,
        None => { return None; },
    };
    let (state, p2) = match parse_jstring(s, p1) {
        Some(v) => v,
        None => { return None; },
    };
    let p3 = match take_lit(s, p2, ",\"checked_at\":\"") {
        Some(p) => p,
        None => { return None; },
    };
    let (checked_at, p4) = match parse_jstring(s, p3) {
        Some(v) => v,
        None => { return None; },
    };
    let p5 = match take_lit(s, p4, ",\"days\":") {
        Some(p) => p,
        None => { return None; },
    };
    let (days, p6) = match parse_number_i64(s, p5) {
        Some(v) => v,
        None => { return None; },
    };
    let p7 = match take_lit(s, p6, ",\"domain_name\":\"") {
        Some(p) => p,
        None => { return None; },
    };
    let (domain_name, p8) = match parse_jstring(s, p7) {
        Some(v) => v,
        None => { return None; },
    };
    let p9 = match take_lit(s, p8, ",\"expired_at\":\"") {
        Some(p) => p,
        None => { return None; },
    };
    let (expired_at, p10) = match parse_jstring(s, p9) {
        Some(v) => v,
        None => { return None; },
    };
    let p11 = match take_lit(s, p10, ",\"elapsed\":") {
        Some(p) => p,
        None => { return None; },
    };
    let (elapsed, p12) = match parse_number_u128(s, p11) {
        Some(v) => v,
        None => { return None; },
    };
    let p13 = match take_lit(s, p12, "}") {
        Some(p) => p,
        None => { return None; },
    };
    if p13 != s.unicode_len() {
        return None;
    }
    Some(
        CheckResultJSON {
            state,
            checked_at,
            days,
            domain_name,
            expired_at,
            elapsed,
        },
    )
}

/// Consuming a literal prefix undoes prefixing it.
pub proof fn lemma_take_lit_roundtrip(lit: Seq<char>, rest: Seq<char>)
    ensures
        spec_take_lit(lit + rest, lit) == Some(rest),
{
    assert((lit + rest).take(lit.len() as int) =~= lit);
    assert((lit + rest).skip(lit.len() as int) =~= rest);
}

/// Parsing a JSON string undoes escaping it: the escaped text, a closing
/// quote, and anything after parse back to the text and that remainder.
pub proof fn lemma_parse_jstring_roundtrip(t: Seq<char>, rest: Seq<char>)
    ensures
        spec_parse_jstring(spec_json_escape(t) + (seq!['"'] + rest)) == Some((t, rest)),
    decreases t.len(),
{
    let s = spec_json_escape(t) + (seq!['"'] + rest);
    if t.len() == 0 {
        assert(spec_json_escape(t) == Seq::<char>::empty());
        assert(s =~= seq!['"'] + rest);
        assert(s[0] == '"');
        assert(s.drop_first() =~= rest);
    } else {
        let c = t[0];
        let t2 = t.drop_first();
        lemma_parse_jstring_roundtrip(t2, rest);
        assert(spec_json_escape(t) == spec_esc_char(c) + spec_json_escape(t2));
        if c == '"' || c == '\\' {
            assert(s[0] == '\\');
            assert(s[1] == c);
            assert(s.len() >= 2);
            assert(s.skip(2) =~= spec_json_escape(t2) + (seq!['"'] + rest));
            assert(seq![s[1]] + t2 =~= t);
        } else {
            assert(s[0] == c);
            assert(s.drop_first() =~= spec_json_escape(t2) + (seq!['"'] + rest));
            assert(seq![s[0]] + t2 =~= t);
        }
    }
}

/// The decimal digits of a natural number evaluate back to it.
pub proof fn lemma_dec_value_of_dec_nat(n: nat)
    ensures
        spec_dec_value(spec_dec_nat(n)) == n,
    decreases n,
{
    let s = spec_dec_nat(n);
    if n < 10 {
        assert(s == seq![crate::decimal::spec_digit(n as int)]);
        assert(s.drop_last() =~= Seq::<char>::empty());
        assert(s.last() == crate::decimal::spec_digit(n as int));
        assert(spec_dec_value(Seq::<char>::empty()) == 0);
        assert(spec_digit_value(crate::decimal::spec_digit(n as int)) == n);
        assert(spec_dec_value(s) == spec_dec_value(s.drop_last()) * 10 + spec_digit_value(s.last()));
    } else {
        lemma_dec_value_of_dec_nat(n / 10);
        assert(s == spec_dec_nat(n / 10) + seq![crate::decimal::spec_digit((n % 10) as int)]);
        assert(s.drop_last() =~= spec_dec_nat(n / 10));
        assert(s.last() == crate::decimal::spec_digit((n % 10) as int));
        assert(spec_digit_value(crate::decimal::spec_digit((n % 10) as int)) == n % 10);
        assert(spec_dec_value(s) == spec_dec_value(s.drop_last()) * 10 + spec_digit_value(s.last()));
        assert(spec_dec_value(s) == (n / 10) * 10 + (n % 10));
        assert(n == (n / 10) * 10 + (n % 10)) by (nonlinear_arith);
    }
}

/// Parsing a number undoes writing one: the digits of `n` followed by
/// anything that does not begin with a digit parse back to `n` and that
/// remainder.
pub proof fn lemma_parse_number_roundtrip(n: nat, rest: Seq<char>)
    requires
        rest.len() == 0 || !spec_is_digit(rest[0]),
    ensures
        spec_parse_number(spec_dec_nat(n) + rest) == Some((n as int, rest)),
{
    let d = spec_dec_nat(n);
    let s = d + rest;
    crate::decimal::lemma_dec_nat_digits(n);
    assert forall|t: int| 0 <= t < d.len() implies spec_is_digit(#[trigger] s[t]) by {
        assert(s[t] == d[t]);
        assert('0' <= d[t] <= '9');
    }
    if d.len() < s.len() {
        assert(s[d.len() as int] == rest[0]);
    }
    lemma_digit_len_exact(s, d.len() as int);
    assert(s.take(d.len() as int) =~= d);
    assert(s.skip(d.len() as int) =~= rest);
    lemma_dec_value_of_dec_nat(n);
}

/// Parsing an unsigned 128-bit number undoes writing one.
pub proof fn lemma_parse_u128_roundtrip(v: u128, rest: Seq<char>)
    requires
        rest.len() == 0 || !spec_is_digit(rest[0]),
    ensures
        spec_parse_u128(spec_dec_nat(v as nat) + rest) == Some((v as int, rest)),
{
    lemma_parse_number_roundtrip(v as nat, rest);
}

/// Parsing a signed 64-bit number undoes writing one.
pub proof fn lemma_parse_i64_roundtrip(v: i64, rest: Seq<char>)
    requires
        rest.len() == 0 || !spec_is_digit(rest[0]),
    ensures
        spec_parse_i64(spec_dec_int(v as int) + rest) == Some((v as int, rest)),
{
    if v >= 0 {
        lemma_parse_number_roundtrip(v as nat, rest);
        let s = spec_dec_nat(v as nat) + rest;
        crate::decimal::lemma_dec_nat_digits(v as nat);
        assert(s[0] == spec_dec_nat(v as nat)[0]);
        assert('0' <= s[0] <= '9');
        assert(s[0] != '-');
    } else {
        let mag = (-(v as int)) as nat;
        lemma_parse_number_roundtrip(mag, rest);
        let s = spec_dec_int(v as int) + rest;
        assert(spec_dec_int(v as int) == seq!['-'] + spec_dec_nat(mag));
        assert(s[0] == '-');
        assert(s.drop_first() =~= spec_dec_nat(mag) + rest);
    }
}

/// Round trip: parsing the JSON rendering of a check result gives every
/// field back exactly — the state, both timestamp texts, the domain name,
/// the remaining days and the elapsed time.
pub proof fn lemma_json_round_trip(j: CheckResultJSON)
    ensures
        spec_parse_result_json(spec_result_json(j)) == Some(
            (j.state@, j.checked_at@, j.days as int, j.domain_name@, j.expired_at@, j.elapsed as int),
        ),
{
    let st = spec_json_escape(j.state@);
    let ca = spec_json_escape(j.checked_at@);
    let dy = spec_dec_int(j.days as int);
    let dn = spec_json_escape(j.domain_name@);
    let ea = spec_json_escape(j.expired_at@);
    let el = spec_dec_nat(j.elapsed as nat);

    let s13 = Seq::<char>::empty();
    let s12 = "}"@;
    let s11 = el + s12;
    let s10 = ",\"elapsed\":"@ + s11;
    let s9 = ea + (seq!['"'] + s10);
    let s8 = ",\"expired_at\":\""@ + s9;
    let s7 = dn + (seq!['"'] + s8);
    let s6 = ",\"domain_name\":\""@ + s7;
    let s5 = dy + s6;
    let s4 = ",\"days\":"@ + s5;
    let s3 = ca + (seq!['"'] + s4);
    let s2 = ",\"checked_at\":\""@ + s3;
    let s1 = st + (seq!['"'] + s2);
    let s0 = "{\"state\":\""@ + s1;

    reveal_strlit("{\"state\":\"");
    reveal_strlit("\",\"checked_at\":\"");
    reveal_strlit(",\"checked_at\":\"");
    reveal_strlit("\",\"days\":");
    reveal_strlit(",\"days\":");
    reveal_strlit(",\"domain_name\":\"");
    reveal_strlit("\",\"expired_at\":\"");
    reveal_strlit(",\"expired_at\":\"");
    reveal_strlit("\",\"elapsed\":");
    reveal_strlit(",\"elapsed\":");
    reveal_strlit("}");

    assert("\",\"checked_at\":\""@ =~= seq!['"'] + ",\"checked_at\":\""@);
    assert("\",\"days\":"@ =~= seq!['"'] + ",\"days\":"@);
    assert("\",\"expired_at\":\""@ =~= seq!['"'] + ",\"expired_at\":\""@);
    assert("\",\"elapsed\":"@ =~= seq!['"'] + ",\"elapsed\":"@);

    assert(spec_result_json(j) =~= s0);

    lemma_take_lit_roundtrip("{\"state\":\""@, s1);
    lemma_parse_jstring_roundtrip(j.state@, s2);
    lemma_take_lit_roundtrip(",\"checked_at\":\""@, s3);
    lemma_parse_jstring_roundtrip(j.checked_at@, s4);
    lemma_take_lit_roundtrip(",\"days\":"@, s5);
    assert(s6[0] == ',');
    lemma_parse_i64_roundtrip(j.days, s6);
    lemma_take_lit_roundtrip(",\"domain_name\":\""@, s7);
    lemma_parse_jstring_roundtrip(j.domain_name@, s8);
    lemma_take_lit_roundtrip(",\"expired_at\":\""@, s9);
    lemma_parse_jstring_roundtrip(j.expired_at@, s10);
    lemma_take_lit_roundtrip(",\"elapsed\":"@, s11);
    assert(s12[0] == '}');
    lemma_parse_u128_roundtrip(j.elapsed, s12);
    assert(s12 =~= "}"@ + s13);
    lemma_take_lit_roundtrip("}"@, s13);

    assert(spec_parse_result_json(s0) == Some(
        (j.state@, j.checked_at@, j.days as int, j.domain_name@, j.expired_at@, j.elapsed as int),
    ));
}

/// The JSON error body the HTTP surface answers with when a check cannot
/// be carried out: one object with a single `error` field.
pub open spec fn spec_error_json(message: Seq<char>) -> Seq<char> {
    "{\"error\":\""@ + spec_json_escape(message) + "\"}"@
}

/// Write an error message as the JSON error body.
pub fn error_json_string(message: &str) -> (r: String)
    ensures
        r@ == spec_error_json(message@),
{
    let mut s = "{\"error\":\"".to_owned();
    append_json_escaped(&mut s, message);
    s.append("\"}");
    proof {
        assert(s@ =~= spec_error_json(message@));
    }
    s
}

} // verus!
