//! The on-disk cache record format: one JSON object per record, with the
//! capture time as a textual timestamp and the grant result nested under
//! `at_response` (the alias `atResponse` is accepted when reading).
use crate::cache::{iat_in_range, MAX_IAT_MILLIS};
use crate::model::{AccessTokenResponse, AuthorizationData};
use crate::strutil::{chars_to_string, str_to_chars};
use vstd::prelude::*;
use vstd::string::StringExecFns;

verus! {

// ------------------------------------------------------------------
// String escaping: a quote or a backslash is preceded by a backslash;
// every other character stands for itself.
// ------------------------------------------------------------------
/// How one character appears inside a JSON string.
pub open spec fn escape_char(c: char) -> Seq<char> {
    if c == '"' || c == '\\' {
        seq!['\\', c]
    } else {
        seq![c]
    }
}

/// How a whole string appears inside a JSON string.
pub open spec fn escape_string(s: Seq<char>) -> Seq<char>
    decreases s.len(),
{
    if s.len() == 0 {
        Seq::empty()
    } else {
        escape_char(s[0]) + escape_string(s.drop_first())
    }
}

/// Escaping distributes over appending one character at the back.
proof fn lemma_escape_push(s: Seq<char>, c: char)
    ensures
        escape_string(s.push(c)) == escape_string(s) + escape_char(c),
    decreases s.len(),
{
    if s.len() == 0 {
        assert(s.push(c).drop_first() =~= Seq::<char>::empty());
        assert(escape_string(Seq::<char>::empty()) == Seq::<char>::empty());
        assert(s.push(c)[0] == c);
        assert(escape_string(s.push(c)) =~= escape_string(s) + escape_char(c));
    } else {
        assert(s.push(c).drop_first() =~= s.drop_first().push(c));
        lemma_escape_push(s.drop_first(), c);
        assert(escape_string(s.push(c)) =~= escape_string(s) + escape_char(c));
    }
}

/// A string without quotes and backslashes escapes to itself.
proof fn lemma_escape_plain(s: Seq<char>)
    requires
        !s.contains('"'),
        !s.contains('\\'),
    ensures
        escape_string(s) == s,
    decreases s.len(),
{
    if s.len() == 0 {
        assert(escape_string(s) =~= s);
    } else {
        assert(s[0] != '"' && s[0] != '\\');
        assert(forall|i: int| 0 <= i < s.drop_first().len() ==> s.drop_first()[i] == s[i + 1]);
        assert(!s.drop_first().contains('"'));
        assert(!s.drop_first().contains('\\'));
        lemma_escape_plain(s.drop_first());
        assert(escape_string(s) =~= s);
    }
}

// ------------------------------------------------------------------
// Decimal numbers.
// ------------------------------------------------------------------
/// A decimal digit.
pub open spec fn is_digit(c: char) -> bool {
    '0' <= c && c <= '9'
}

/// The character for the digit value `v`.
pub open spec fn digit_char(v: int) -> char {
    if v == 0 {
        '0'
    } else if v == 1 {
        '1'
    } else if v == 2 {
        '2'
    } else if v == 3 {
        '3'
    } else if v == 4 {
        '4'
    } else if v == 5 {
        '5'
    } else if v == 6 {
        '6'
    } else if v == 7 {
        '7'
    } else if v == 8 {
        '8'
    } else {
        '9'
    }
}

/// The value of a digit character.
pub open spec fn digit_val(c: char) -> int {
    c as int - 48
}

/// The decimal digits of `n`, most significant first, no leading zeros
/// (except for `n == 0` itself).
pub open spec fn dec_digits(n: nat) -> Seq<char>
    decreases n,
{
    if n < 10 {
        seq![digit_char(n as int)]
    } else {
        dec_digits(n / 10).push(digit_char((n % 10) as int))
    }
}

/// The value denoted by a digit run, most significant first.
pub open spec fn digits_val(ds: Seq<char>) -> nat
    decreases ds.len(),
{
    if ds.len() == 0 {
        0nat
    } else {
        (digits_val(ds.drop_last()) * 10 + digit_val(ds.last())) as nat
    }
}

/// The digits of `n` are digits, and there is at least one of them.
proof fn lemma_dec_digits_are_digits(n: nat)
    ensures
        dec_digits(n).len() >= 1,
        forall|i: int| 0 <= i < dec_digits(n).len() ==> is_digit(#[trigger] dec_digits(n)[i]),
    decreases n,
{
    if n >= 10 {
        lemma_dec_digits_are_digits(n / 10);
    }
}

/// Reading back the digits of `n` yields `n`.
proof fn lemma_digits_val_of_dec(n: nat)
    ensures
        digits_val(dec_digits(n)) == n,
    decreases n,
{
    if n < 10 {
        assert(dec_digits(n).drop_last() =~= Seq::<char>::empty());
        assert(digits_val(Seq::<char>::empty()) == 0);
        assert(digit_val(digit_char(n as int)) == n);
    } else {
        lemma_digits_val_of_dec(n / 10);
        assert(dec_digits(n).drop_last() =~= dec_digits(n / 10));
        assert(dec_digits(n).last() == digit_char((n % 10) as int));
        assert(digit_val(digit_char((n % 10) as int)) == n % 10);
    }
}

// ------------------------------------------------------------------
// Readers over a character sequence: the grammar of a cache record.
// ------------------------------------------------------------------
/// `lit` stands at position `pos` of `s`.
pub open spec fn literal_at(s: Seq<char>, pos: int, lit: Seq<char>) -> bool {
    0 <= pos && pos + lit.len() <= s.len() && s.subrange(pos, pos + lit.len()) == lit
}

/// Read a JSON string body starting just after its opening quote: characters
/// up to the first unescaped quote, a backslash taking the next character
/// literally. Yields the unescaped content and the position just after the
/// closing quote.
pub open spec fn read_string(s: Seq<char>, pos: int) -> Option<(Seq<char>, int)>
    decreases s.len() - pos,
{
    if pos < 0 || pos >= s.len() {
        None
    } else if s[pos] == '"' {
        Some((Seq::empty(), pos + 1))
    } else if s[pos] == '\\' {
        if pos + 1 >= s.len() {
            None
        } else {
            match read_string(s, pos + 2) {
                Some((tail, end)) => Some((seq![s[pos + 1]] + tail, end)),
                None => None,
            }
        }
    } else {
        match read_string(s, pos + 1) {
            Some((tail, end)) => Some((seq![s[pos]] + tail, end)),
            None => None,
        }
    }
}

/// Read the maximal digit run starting at `pos`, yielding the run and the
/// position just after it.
pub open spec fn read_digits(s: Seq<char>, pos: int) -> (Seq<char>, int)
    decreases s.len() - pos,
{
    if pos < 0 || pos >= s.len() || !is_digit(s[pos]) {
        (Seq::empty(), pos)
    } else {
        let (run, end) = read_digits(s, pos + 1);
        (seq![s[pos]] + run, end)
    }
}

/// Read a decimal `u64`: a nonempty digit run whose value fits.
pub open spec fn read_number(s: Seq<char>, pos: int) -> Option<(u64, int)> {
    let (run, end) = read_digits(s, pos);
    if run.len() == 0 || digits_val(run) > u64::MAX {
        None
    } else {
        Some((digits_val(run) as u64, end))
    }
}

/// A digit run's value only grows as the run is extended to the right.
proof fn lemma_digits_val_prefix(ds: Seq<char>, j: int)
    requires
        0 <= j <= ds.len(),
        forall|i: int| 0 <= i < ds.len() ==> is_digit(#[trigger] ds[i]),
    ensures
        digits_val(ds.take(j)) <= digits_val(ds),
    decreases ds.len() - j,
{
    if j == ds.len() {
        assert(ds.take(j) =~= ds);
    } else {
        assert(ds.take(j + 1).drop_last() =~= ds.take(j));
        assert(is_digit(ds[j]));
        assert(digits_val(ds.take(j)) <= digits_val(ds.take(j + 1)));
        lemma_digits_val_prefix(ds, j + 1);
    }
}

/// When the remaining text is `front + back`, the first `front.len()`
/// characters are `front` and what follows them is `back`.
proof fn lemma_suffix_split(s: Seq<char>, pos: int, front: Seq<char>, back: Seq<char>)
    requires
        0 <= pos <= s.len(),
        s.subrange(pos, s.len() as int) == front + back,
    ensures
        pos + front.len() <= s.len(),
        s.subrange(pos, pos + front.len()) == front,
        s.subrange(pos + front.len(), s.len() as int) == back,
        forall|i: int| pos <= i < pos + front.len() ==> #[trigger] s[i] == front[i - pos],
{
    assert(s.subrange(pos, s.len() as int).len() == front.len() + back.len());
    assert forall|i: int| 0 <= i < front.len() implies s.subrange(pos, pos + front.len())[i]
        == front[i] by {
        assert(s.subrange(pos, s.len() as int)[i] == (front + back)[i]);
        assert(s.subrange(pos, s.len() as int)[i] == s[pos + i]);
        assert(s.subrange(pos, pos + front.len())[i] == s[pos + i]);
    }
    assert(s.subrange(pos, pos + front.len()) =~= front);
    assert forall|i: int| pos <= i < pos + front.len() implies #[trigger] s[i] == front[i - pos] by {
        assert(s.subrange(pos, pos + front.len())[i - pos] == s[i]);
        assert(s.subrange(pos, pos + front.len())[i - pos] == front[i - pos]);
    }
    assert forall|i: int| 0 <= i < back.len() implies s.subrange(
        pos + front.len(),
        s.len() as int,
    )[i] == back[i] by {
        assert(s.subrange(pos, s.len() as int)[front.len() + i] == (front + back)[front.len()
            + i]);
        assert(s.subrange(pos, s.len() as int)[front.len() + i] == s[pos + front.len() + i]);
        assert(s.subrange(pos + front.len(), s.len() as int)[i] == s[pos + front.len() + i]);
        assert((front + back)[front.len() + i] == back[i]);
    }
    assert(s.subrange(pos + front.len(), s.len() as int) =~= back);
}

/// A literal standing at the front of the remaining text is consumed,
/// leaving the rest.
proof fn lemma_literal_step(s: Seq<char>, pos: int, lit: Seq<char>, rest: Seq<char>)
    requires
        0 <= pos <= s.len(),
        s.subrange(pos, s.len() as int) == lit + rest,
    ensures
        literal_at(s, pos, lit),
        expect(s, pos, lit) == Some(pos + lit.len()),
        s.subrange(pos + lit.len(), s.len() as int) == rest,
{
    lemma_suffix_split(s, pos, lit, rest);
}

/// An escaped string followed by its closing quote is read back as exactly
/// its content, leaving the rest.
proof fn lemma_read_string_step(s: Seq<char>, pos: int, content: Seq<char>, rest: Seq<char>)
    requires
        0 <= pos <= s.len(),
        s.subrange(pos, s.len() as int) == escape_string(content) + quote() + rest,
    ensures
        read_string(s, pos) == Some((content, pos + escape_string(content).len() + 1)),
        s.subrange(pos + escape_string(content).len() + 1, s.len() as int) == rest,
    decreases content.len(),
{
    reveal_strlit("\"");
    if content.len() == 0 {
        assert(escape_string(content) == Seq::<char>::empty());
        assert(escape_string(content) + quote() + rest =~= quote() + rest);
        lemma_suffix_split(s, pos, quote(), rest);
        assert(s[pos] == quote()[0]);
        assert(s[pos] == '"');
        assert(read_string(s, pos) == Some((Seq::<char>::empty(), pos + 1)));
        assert(content =~= Seq::<char>::empty());
    } else {
        let c = content[0];
        let ctail = content.drop_first();
        assert(escape_string(content) == escape_char(c) + escape_string(ctail));
        let after = escape_string(ctail) + quote() + rest;
        assert(escape_string(content) + quote() + rest =~= escape_char(c) + after);
        lemma_suffix_split(s, pos, escape_char(c), after);
        if c == '"' || c == '\\' {
            assert(s[pos] == escape_char(c)[0]);
            assert(s[pos + 1] == escape_char(c)[1]);
            assert(s[pos] == '\\');
            assert(s[pos + 1] == c);
            lemma_read_string_step(s, pos + 2, ctail, rest);
            assert(seq![s[pos + 1]] + ctail =~= content);
            assert(read_string(s, pos) == Some((content, pos + escape_string(content).len() + 1)));
        } else {
            assert(s[pos] == escape_char(c)[0]);
            assert(s[pos] == c);
            lemma_read_string_step(s, pos + 1, ctail, rest);
            assert(seq![s[pos]] + ctail =~= content);
            assert(read_string(s, pos) == Some((content, pos + escape_string(content).len() + 1)));
        }
    }
}

/// A digit run followed by a non-digit is read back as exactly that run,
/// leaving the rest.
proof fn lemma_read_digits_step(s: Seq<char>, pos: int, run: Seq<char>, rest: Seq<char>)
    requires
        0 <= pos <= s.len(),
        s.subrange(pos, s.len() as int) == run + rest,
        forall|i: int| 0 <= i < run.len() ==> is_digit(#[trigger] run[i]),
        rest.len() == 0 || !is_digit(rest[0]),
    ensures
        read_digits(s, pos) == (run, pos + run.len()),
        s.subrange(pos + run.len(), s.len() as int) == rest,
    decreases run.len(),
{
    if run.len() == 0 {
        assert(run + rest =~= rest);
        lemma_suffix_split(s, pos, Seq::<char>::empty(), rest);
        if pos < s.len() {
            assert(s.subrange(pos, s.len() as int)[0] == rest[0]);
            assert(s[pos] == rest[0]);
        }
        assert(read_digits(s, pos) == (Seq::<char>::empty(), pos));
        assert(run =~= Seq::<char>::empty());
    } else {
        let rtail = run.drop_first();
        assert(run + rest =~= seq![run[0]] + (rtail + rest));
        lemma_suffix_split(s, pos, seq![run[0]], rtail + rest);
        assert(s[pos] == run[0]);
        assert(is_digit(s[pos]));
        assert(forall|i: int| 0 <= i < rtail.len() ==> is_digit(#[trigger] rtail[i]));
        lemma_read_digits_step(s, pos + 1, rtail, rest);
        assert(seq![s[pos]] + rtail =~= run);
    }
}

// ------------------------------------------------------------------
// The record's fixed pieces, between which the five fields stand.
// ------------------------------------------------------------------
/// A double quote.
pub open spec fn quote() -> Seq<char> {
    "\""@
}

/// Opens the record and the `iat` string.
pub open spec fn lit_head() -> Seq<char> {
    "{\"iat\":\""@
}

/// Separates the `iat` string from the following key.
pub open spec fn lit_comma_quote() -> Seq<char> {
    ",\""@
}

/// The canonical key of the nested grant result.
pub open spec fn key_snake() -> Seq<char> {
    "at_response"@
}

/// The tolerated alternate casing of that key, accepted when reading.
pub open spec fn key_camel() -> Seq<char> {
    "atResponse"@
}

/// Closes the key and opens the nested object and the token string.
pub open spec fn lit_colon_at() -> Seq<char> {
    "\":{\"access_token\":\""@
}

/// Introduces the access-token lifetime.
pub open spec fn lit_expires() -> Seq<char> {
    ",\"expires_in\":"@
}

/// Introduces the refresh-token lifetime.
pub open spec fn lit_refresh_expires() -> Seq<char> {
    ",\"refresh_expires_in\":"@
}

/// Introduces the refresh-token string.
pub open spec fn lit_refresh_token() -> Seq<char> {
    ",\"refresh_token\":\""@
}

/// Closes the nested object and the record.
pub open spec fn lit_close() -> Seq<char> {
    "}}"@
}

/// The encoded record for a timestamp text and the four grant fields.
pub open spec fn encode_record(
    ts: Seq<char>,
    access_token: Seq<char>,
    expires_in: u64,
    refresh_expires_in: u64,
    refresh_token: Seq<char>,
) -> Seq<char> {
    lit_head() + ts + quote() + lit_comma_quote() + key_snake() + lit_colon_at() + escape_string(
        access_token,
    ) + quote() + lit_expires() + dec_digits(expires_in as nat) + lit_refresh_expires()
        + dec_digits(refresh_expires_in as nat) + lit_refresh_token() + escape_string(refresh_token)
        + quote() + lit_close()
}

/// Step past `lit` if it stands at `pos`.
pub open spec fn expect(s: Seq<char>, pos: int, lit: Seq<char>) -> Option<int> {
    if literal_at(s, pos, lit) {
        Some(pos + lit.len())
    } else {
        None
    }
}

/// Step past the grant-result key, canonical spelling first.
pub open spec fn expect_record_key(s: Seq<char>, pos: int) -> Option<int> {
    if literal_at(s, pos, key_snake()) {
        Some(pos + key_snake().len())
    } else if literal_at(s, pos, key_camel()) {
        Some(pos + key_camel().len())
    } else {
        None
    }
}

/// Parse a whole record: the timestamp text and the four grant fields, or
/// nothing if the text is not exactly one well-formed record.
pub open spec fn parse_record(s: Seq<char>) -> Option<
    (Seq<char>, Seq<char>, u64, u64, Seq<char>),
> {
    match expect(s, 0, lit_head()) {
        None => None,
        Some(p1) => match read_string(s, p1) {
            None => None,
            Some((ts, p2)) => match expect(s, p2, lit_comma_quote()) {
                None => None,
                Some(p3) => match expect_record_key(s, p3) {
                    None => None,
                    Some(p4) => match expect(s, p4, lit_colon_at()) {
                        None => None,
                        Some(p5) => match read_string(s, p5) {
                            None => None,
                            Some((at, p6)) => match expect(s, p6, lit_expires()) {
                                None => None,
                                Some(p7) => match read_number(s, p7) {
                                    None => None,
                                    Some((e, p8)) => match expect(s, p8, lit_refresh_expires()) {
                                        None => None,
                                        Some(p9) => match read_number(s, p9) {
                                            None => None,
                                            Some((re, p10)) => match expect(
                                                s,
                                                p10,
                                                lit_refresh_token(),
                                            ) {
                                                None => None,
                                                Some(p11) => match read_string(s, p11) {
                                                    None => None,
                                                    Some((rt, p12)) => match expect(
                                                        s,
                                                        p12,
                                                        lit_close(),
                                                    ) {
                                                        None => None,
                                                        Some(p13) => if p13 == s.len() {
                                                            Some((ts, at, e, re, rt))
                                                        } else {
                                                            None
                                                        },
                                                    },
                                                },
                                            },
                                        },
                                    },
                                },
                            },
                        },
                    },
                },
            },
        },
    }
}

/// The encoded record, regrouped so that each reading step's part stands at
/// the front of what remains.
#[verifier::rlimit(100)]
proof fn lemma_encode_regroup(
    ts: Seq<char>,
    at: Seq<char>,
    expires_in: u64,
    refresh_expires_in: u64,
    rt: Seq<char>,
)
    ensures
        encode_record(ts, at, expires_in, refresh_expires_in, rt) == lit_head() + (ts + quote() + (
        lit_comma_quote() + (key_snake() + (lit_colon_at() + (escape_string(at) + quote() + (
        lit_expires() + (dec_digits(expires_in as nat) + (lit_refresh_expires() + (dec_digits(
            refresh_expires_in as nat,
        ) + (lit_refresh_token() + (escape_string(rt) + quote() + lit_close()))))))))))),
{
    assert(encode_record(ts, at, expires_in, refresh_expires_in, rt) =~= lit_head() + (ts + quote()
        + (lit_comma_quote() + (key_snake() + (lit_colon_at() + (escape_string(at) + quote() + (
    lit_expires() + (dec_digits(expires_in as nat) + (lit_refresh_expires() + (dec_digits(
        refresh_expires_in as nat,
    ) + (lit_refresh_token() + (escape_string(rt) + quote() + lit_close()))))))))))));
}

/// The codec round trip: any record encoded from a timestamp text without
/// quotes or backslashes (as every formatted timestamp is) and arbitrary
/// token fields parses back to exactly those five fields.
#[verifier::rlimit(100)]
pub proof fn lemma_record_round_trip(
    ts: Seq<char>,
    at: Seq<char>,
    expires_in: u64,
    refresh_expires_in: u64,
    rt: Seq<char>,
)
    requires
        !ts.contains('"'),
        !ts.contains('\\'),
    ensures
        parse_record(encode_record(ts, at, expires_in, refresh_expires_in, rt)) == Some(
            (ts, at, expires_in, refresh_expires_in, rt),
        ),
{
    let s = encode_record(ts, at, expires_in, refresh_expires_in, rt);
    let de = dec_digits(expires_in as nat);
    let dre = dec_digits(refresh_expires_in as nat);
    let eat = escape_string(at);
    let ert = escape_string(rt);
    lemma_escape_plain(ts);
    lemma_dec_digits_are_digits(expires_in as nat);
    lemma_dec_digits_are_digits(refresh_expires_in as nat);
    lemma_digits_val_of_dec(expires_in as nat);
    lemma_digits_val_of_dec(refresh_expires_in as nat);
    reveal_strlit(",\"refresh_expires_in\":");
    reveal_strlit(",\"refresh_token\":\"");

    let r12 = lit_close();
    let r11 = ert + quote() + r12;
    let r10 = lit_refresh_token() + r11;
    let r9 = dre + r10;
    let r8 = lit_refresh_expires() + r9;
    let r7 = de + r8;
    let r6 = lit_expires() + r7;
    let r5 = eat + quote() + r6;
    let r4 = lit_colon_at() + r5;
    let r3 = key_snake() + r4;
    let r2 = lit_comma_quote() + r3;
    let r1 = ts + quote() + r2;
    lemma_encode_regroup(ts, at, expires_in, refresh_expires_in, rt);
    assert(s == lit_head() + r1);
    assert(s.subrange(0, s.len() as int) =~= s);

    lemma_literal_step(s, 0, lit_head(), r1);
    let p1 = lit_head().len() as int;
    assert(r1 == escape_string(ts) + quote() + r2);
    lemma_read_string_step(s, p1, ts, r2);
    let p2 = p1 + escape_string(ts).len() + 1;
    lemma_literal_step(s, p2, lit_comma_quote(), r3);
    let p3 = p2 + lit_comma_quote().len();
    lemma_literal_step(s, p3, key_snake(), r4);
    let p4 = p3 + key_snake().len();
    assert(expect_record_key(s, p3) == Some(p4));
    lemma_literal_step(s, p4, lit_colon_at(), r5);
    let p5 = p4 + lit_colon_at().len();
    lemma_read_string_step(s, p5, at, r6);
    let p6 = p5 + eat.len() + 1;
    lemma_literal_step(s, p6, lit_expires(), r7);
    let p7 = p6 + lit_expires().len();
    assert(lit_refresh_expires()[0] == ',');
    assert(r8[0] == ',');
    assert(!is_digit(','));
    lemma_read_digits_step(s, p7, de, r8);
    assert(read_number(s, p7) == Some((expires_in, p7 + de.len())));
    let p8 = p7 + de.len();
    lemma_literal_step(s, p8, lit_refresh_expires(), r9);
    let p9 = p8 + lit_refresh_expires().len();
    assert(lit_refresh_token()[0] == ',');
    assert(r10[0] == ',');
    lemma_read_digits_step(s, p9, dre, r10);
    assert(read_number(s, p9) == Some((refresh_expires_in, p9 + dre.len())));
    let p10 = p9 + dre.len();
    lemma_literal_step(s, p10, lit_refresh_token(), r11);
    let p11 = p10 + lit_refresh_token().len();
    lemma_read_string_step(s, p11, rt, r12);
    let p12 = p11 + ert.len() + 1;
    assert(r12 =~= lit_close() + Seq::<char>::empty());
    lemma_literal_step(s, p12, lit_close(), Seq::<char>::empty());
    let p13 = p12 + lit_close().len();
    assert(s.subrange(p13, s.len() as int).len() == 0);
    assert(p13 == s.len());
    assert(parse_record(s) == Some((ts, at, expires_in, refresh_expires_in, rt)));
}

// ------------------------------------------------------------------
// The timestamp text, formatted and read back by chrono.
// ------------------------------------------------------------------
/// The textual timestamp (RFC 3339) of an instant, named here;
/// `format_rfc3339` below computes it.
pub uninterp spec fn rfc3339_of(iat_millis: i64) -> Seq<char>;

/// A timestamp text can stand unescaped between quotes.
pub open spec fn timestamp_text_wf(ts: Seq<char>) -> bool {
    !ts.contains('"') && !ts.contains('\\')
}

/// Relies on chrono's `DateTime::to_rfc3339` over `Utc`: the text is a
/// function of the instant alone and holds only digits, `-`, `+`, `:`, `.`
/// and `T` — never a quote or a backslash. `timestamp_millis_opt` is a
/// single valid instant for the whole required range.
#[verifier::external_body]
fn format_rfc3339(iat_millis: i64) -> (ts: String)
    requires
        iat_in_range(iat_millis),
    ensures
        ts@ == rfc3339_of(iat_millis),
        timestamp_text_wf(ts@),
{
    chrono::TimeZone::timestamp_millis_opt(&chrono::Utc, iat_millis).unwrap().to_rfc3339()
}

/// Relies on chrono's `DateTime::parse_from_rfc3339` (with
/// `timestamp_millis`): parsing the text that `to_rfc3339` produced for an
/// instant yields that instant back.
#[verifier::external_body]
fn parse_rfc3339(ts: &str) -> (iat_millis: Option<i64>)
    ensures
        forall|m: i64| iat_in_range(m) && ts@ == rfc3339_of(m) ==> iat_millis == Some(m),
{
    match chrono::DateTime::parse_from_rfc3339(ts) {
        Ok(instant) => Some(instant.timestamp_millis()),
        Err(_) => None,
    }
}

// ------------------------------------------------------------------
// Executable writers.
// ------------------------------------------------------------------
/// The character for a digit value.
fn digit_char_exec(v: u64) -> (c: char)
    requires
        v < 10,
    ensures
        c == digit_char(v as int),
{
    if v == 0 {
        '0'
    } else if v == 1 {
        '1'
    } else if v == 2 {
        '2'
    } else if v == 3 {
        '3'
    } else if v == 4 {
        '4'
    } else if v == 5 {
        '5'
    } else if v == 6 {
        '6'
    } else if v == 7 {
        '7'
    } else if v == 8 {
        '8'
    } else {
        '9'
    }
}

/// The decimal digits of `n`, most significant first.
fn u64_to_digits(n: u64) -> (ds: Vec<char>)
    ensures
        ds@ == dec_digits(n as nat),
    decreases n,
{
    if n < 10 {
        let mut ds: Vec<char> = Vec::new();
        ds.push(digit_char_exec(n));
        proof {
            assert(ds@ =~= seq![digit_char(n as int)]);
        }
        ds
    } else {
        let mut ds = u64_to_digits(n / 10);
        ds.push(digit_char_exec(n % 10));
        ds
    }
}

/// `n` written in decimal.
fn u64_to_string(n: u64) -> (s: String)
    ensures
        s@ == dec_digits(n as nat),
{
    let ds = u64_to_digits(n);
    chars_to_string(&ds)
}

/// A string as it appears between quotes in a record.
fn escape_json_string(s: &String) -> (escaped: String)
    ensures
        escaped@ == escape_string(s@),
{
    let chars = str_to_chars(s.as_str());
    let mut out: Vec<char> = Vec::new();
    let mut i: usize = 0;
    while i < chars.len()
        invariant
            i <= chars@.len(),
            chars@ == s@,
            out@ == escape_string(chars@.take(i as int)),
        decreases chars@.len() - i,
    {
        let c = chars[i];
        let ghost done = chars@.take(i as int);
        if c == '"' || c == '\\' {
            out.push('\\');
            out.push(c);
            proof {
                assert(out@ =~= escape_string(done) + escape_char(c));
            }
        } else {
            out.push(c);
            proof {
                assert(out@ =~= escape_string(done) + escape_char(c));
            }
        }
        proof {
            lemma_escape_push(done, c);
            assert(chars@.take(i as int + 1) =~= done.push(c));
        }
        i += 1;
    }
    proof {
        assert(chars@.take(chars@.len() as int) =~= chars@);
    }
    chars_to_string(&out)
}

/// Write one record: the timestamp text for `data.iat` and the four grant
/// fields, in the fixed layout that `parse_record` reads back.
pub fn encode_authorization_data(data: &AuthorizationData) -> (text: String)
    requires
        iat_in_range(data.iat),
    ensures
        text@ == encode_record(
            rfc3339_of(data.iat),
            data.at_response.access_token@,
            data.at_response.expires_in,
            data.at_response.refresh_expires_in,
            data.at_response.refresh_token@,
        ),
        timestamp_text_wf(rfc3339_of(data.iat)),
{
    let ts = format_rfc3339(data.iat);
    let at = escape_json_string(&data.at_response.access_token);
    let rt = escape_json_string(&data.at_response.refresh_token);
    let expires = u64_to_string(data.at_response.expires_in);
    let refresh_expires = u64_to_string(data.at_response.refresh_expires_in);
    let mut text = String::new();
    text.append("{\"iat\":\"");
    text.append(ts.as_str());
    text.append("\"");
    text.append(",\"");
    text.append("at_response");
    text.append("\":{\"access_token\":\"");
    text.append(at.as_str());
    text.append("\"");
    text.append(",\"expires_in\":");
    text.append(expires.as_str());
    text.append(",\"refresh_expires_in\":");
    text.append(refresh_expires.as_str());
    text.append(",\"refresh_token\":\"");
    text.append(rt.as_str());
    text.append("\"");
    text.append("}}");
    proof {
        assert(text@ =~= encode_record(
            rfc3339_of(data.iat),
            data.at_response.access_token@,
            data.at_response.expires_in,
            data.at_response.refresh_expires_in,
            data.at_response.refresh_token@,
        ));
    }
    text
}

// ------------------------------------------------------------------
// Executable readers, each matching its specification reader exactly.
// ------------------------------------------------------------------
/// Is `c` a decimal digit?
fn is_digit_exec(c: char) -> (r: bool)
    ensures
        r == is_digit(c),
{
    let v = c as u32;
    48 <= v && v <= 57
}

/// The value of a digit character.
fn digit_val_exec(c: char) -> (v: u64)
    requires
        is_digit(c),
    ensures
        v == digit_val(c),
        v < 10,
{
    (c as u32 - 48) as u64
}

/// Step past `lit` if it stands at `pos` of `s`.
fn expect_lit(s: &Vec<char>, pos: usize, lit: &str) -> (r: Option<usize>)
    requires
        pos <= s@.len(),
    ensures
        match expect(s@, pos as int, lit@) {
            Some(e) => r matches Some(x) && x == e,
            None => r is None,
        },
{
    let litc = str_to_chars(lit);
    if litc.len() > s.len() - pos {
        proof {
            assert(!literal_at(s@, pos as int, lit@));
        }
        return None;
    }
    let mut j: usize = 0;
    while j < litc.len()
        invariant
            j <= litc@.len(),
            litc@ == lit@,
            pos + litc@.len() <= s@.len(),
            s@.len() <= usize::MAX,
            forall|k: int| 0 <= k < j ==> s@[pos + k] == lit@[k],
        decreases litc@.len() - j,
    {
        if s[pos + j] != litc[j] {
            proof {
                if literal_at(s@, pos as int, lit@) {
                    assert(s@.subrange(pos as int, pos as int + lit@.len())[j as int]
                        == lit@[j as int]);
                    assert(s@[pos + j] == lit@[j as int]);
                }
            }
            return None;
        }
        j += 1;
    }
    proof {
        assert forall|k: int| 0 <= k < lit@.len() implies s@.subrange(
            pos as int,
            pos as int + lit@.len(),
        )[k] == lit@[k] by {
            assert(s@[pos + k] == lit@[k]);
        }
        assert(s@.subrange(pos as int, pos as int + lit@.len()) =~= lit@);
        assert(literal_at(s@, pos as int, lit@));
    }
    Some(pos + litc.len())
}

/// Read a JSON string body starting just after its opening quote.
fn read_string_exec(s: &Vec<char>, pos: usize) -> (r: Option<(Vec<char>, usize)>)
    requires
        pos <= s@.len(),
    ensures
        match read_string(s@, pos as int) {
            Some(p) => r matches Some(q) && q.0@ == p.0 && q.1 == p.1,
            None => r is None,
        },
        r matches Some(q) ==> q.1 <= s@.len(),
    decreases s@.len() - pos,
{
    if pos >= s.len() {
        return None;
    }
    let c = s[pos];
    if c == '"' {
        return Some((Vec::new(), pos + 1));
    }
    if c == '\\' {
        if pos + 1 >= s.len() {
            return None;
        }
        let escaped = s[pos + 1];
        match read_string_exec(s, pos + 2) {
            Some(pair) => {
                let (tail, end) = pair;
                let ghost tail0 = tail@;
                let mut content = tail;
                content.insert(0, escaped);
                proof {
                    assert(content@ =~= seq![s@[pos as int + 1]] + tail0);
                }
                Some((content, end))
            },
            None => None,
        }
    } else {
        match read_string_exec(s, pos + 1) {
            Some(pair) => {
                let (tail, end) = pair;
                let ghost tail0 = tail@;
                let mut content = tail;
                content.insert(0, c);
                proof {
                    assert(content@ =~= seq![s@[pos as int]] + tail0);
                }
                Some((content, end))
            },
            None => None,
        }
    }
}

/// Read the maximal digit run starting at `pos`.
fn read_digits_exec(s: &Vec<char>, pos: usize) -> (r: (Vec<char>, usize))
    requires
        pos <= s@.len(),
    ensures
        r.0@ == read_digits(s@, pos as int).0,
        r.1 == read_digits(s@, pos as int).1,
        r.1 <= s@.len(),
    decreases s@.len() - pos,
{
    if pos >= s.len() {
        return (Vec::new(), pos);
    }
    let c = s[pos];
    if !is_digit_exec(c) {
        return (Vec::new(), pos);
    }
    let (tail, end) = read_digits_exec(s, pos + 1);
    let ghost tail0 = tail@;
    let mut run = tail;
    run.insert(0, c);
    proof {
        assert(run@ =~= seq![s@[pos as int]] + tail0);
    }
    (run, end)
}

/// Every character of a read digit run is a digit.
proof fn lemma_read_digits_are_digits(s: Seq<char>, pos: int)
    ensures
        forall|i: int|
            0 <= i < read_digits(s, pos).0.len() ==> is_digit(
                #[trigger] read_digits(s, pos).0[i],
            ),
    decreases s.len() - pos,
{
    if pos < 0 || pos >= s.len() || !is_digit(s[pos]) {
    } else {
        lemma_read_digits_are_digits(s, pos + 1);
        assert forall|i: int| 0 <= i < read_digits(s, pos).0.len() implies is_digit(
            read_digits(s, pos).0[i],
        ) by {
            if i == 0 {
                assert(read_digits(s, pos).0[0] == s[pos]);
            } else {
                assert(read_digits(s, pos).0[i] == read_digits(s, pos + 1).0[i - 1]);
            }
        }
    }
}

/// The value of a digit run, or nothing when it does not fit in a `u64`.
fn digits_to_u64(ds: &Vec<char>) -> (r: Option<u64>)
    requires
        forall|i: int| 0 <= i < ds@.len() ==> is_digit(#[trigger] ds@[i]),
    ensures
        match r {
            Some(v) => digits_val(ds@) <= u64::MAX && v == digits_val(ds@),
            None => digits_val(ds@) > u64::MAX,
        },
{
    let mut acc: u64 = 0;
    let mut i: usize = 0;
    while i < ds.len()
        invariant
            i <= ds@.len(),
            forall|k: int| 0 <= k < ds@.len() ==> is_digit(#[trigger] ds@[k]),
            acc == digits_val(ds@.take(i as int)),
        decreases ds@.len() - i,
    {
        let d = digit_val_exec(ds[i]);
        let wide: u128 = acc as u128 * 10 + d as u128;
        proof {
            assert(ds@.take(i as int + 1).drop_last() =~= ds@.take(i as int));
            assert(ds@.take(i as int + 1).last() == ds@[i as int]);
            assert(digits_val(ds@.take(i as int + 1)) == acc * 10 + d);
        }
        if wide > 0xFFFF_FFFF_FFFF_FFFFu128 {
            proof {
                lemma_digits_val_prefix(ds@, i as int + 1);
            }
            return None;
        }
        acc = wide as u64;
        i += 1;
    }
    proof {
        assert(ds@.take(ds@.len() as int) =~= ds@);
    }
    Some(acc)
}

/// Read back one record, or nothing when the text is not exactly one
/// well-formed record (a corrupt cache never blocks acquisition; it only
/// forces a fresh flow). The timestamp text must also denote an instant the
/// codec can have written: any text that `format_rfc3339` produced does.
pub fn parse_authorization_data(text: &str) -> (data: Option<AuthorizationData>)
    ensures
        parse_record(text@) is None ==> data is None,
        data matches Some(d) ==> {
            &&& iat_in_range(d.iat)
            &&& parse_record(text@) matches Some(raw) && d.at_response.access_token@ == raw.1
                && d.at_response.expires_in == raw.2 && d.at_response.refresh_expires_in == raw.3
                && d.at_response.refresh_token@ == raw.4
        },
        parse_record(text@) matches Some(raw) ==> (forall|m: i64|
            iat_in_range(m) && raw.0 == rfc3339_of(m) ==> (data matches Some(d) && d.iat == m)),
{
    let s = str_to_chars(text);
    let p1 = match expect_lit(&s, 0, "{\"iat\":\"") {
        Some(p) => p,
        None => {
            return None;
        },
    };
    let (ts_chars, p2) = match read_string_exec(&s, p1) {
        Some(pair) => pair,
        None => {
            return None;
        },
    };
    let p3 = match expect_lit(&s, p2, ",\"") {
        Some(p) => p,
        None => {
            return None;
        },
    };
    let p4 = match expect_lit(&s, p3, "at_response") {
        Some(p) => p,
        None => {
            match expect_lit(&s, p3, "atResponse") {
                Some(p) => p,
                None => {
                    return None;
                },
            }
        },
    };
    let p5 = match expect_lit(&s, p4, "\":{\"access_token\":\"") {
        Some(p) => p,
        None => {
            return None;
        },
    };
    let (at_chars, p6) = match read_string_exec(&s, p5) {
        Some(pair) => pair,
        None => {
            return None;
        },
    };
    let p7 = match expect_lit(&s, p6, ",\"expires_in\":") {
        Some(p) => p,
        None => {
            return None;
        },
    };
    let (e_run, p8) = read_digits_exec(&s, p7);
    proof {
        lemma_read_digits_are_digits(s@, p7 as int);
    }
    if e_run.len() == 0 {
        return None;
    }
    let expires_in = match digits_to_u64(&e_run) {
        Some(v) => v,
        None => {
            return None;
        },
    };
    let p9 = match expect_lit(&s, p8, ",\"refresh_expires_in\":") {
        Some(p) => p,
        None => {
            return None;
        },
    };
    let (re_run, p10) = read_digits_exec(&s, p9);
    proof {
        lemma_read_digits_are_digits(s@, p9 as int);
    }
    if re_run.len() == 0 {
        return None;
    }
    let refresh_expires_in = match digits_to_u64(&re_run) {
        Some(v) => v,
        None => {
            return None;
        },
    };
    let p11 = match expect_lit(&s, p10, ",\"refresh_token\":\"") {
        Some(p) => p,
        None => {
            return None;
        },
    };
    let (rt_chars, p12) = match read_string_exec(&s, p11) {
        Some(pair) => pair,
        None => {
            return None;
        },
    };
    let p13 = match expect_lit(&s, p12, "}}") {
        Some(p) => p,
        None => {
            return None;
        },
    };
    if p13 != s.len() {
        return None;
    }
    let ts_string = chars_to_string(&ts_chars);
    let iat = match parse_rfc3339(ts_string.as_str()) {
        Some(m) => m,
        None => {
            return None;
        },
    };
    if iat < 0 || iat > MAX_IAT_MILLIS {
        return None;
    }
    Some(
        AuthorizationData {
            iat,
            at_response: AccessTokenResponse {
                access_token: chars_to_string(&at_chars),
                expires_in,
                refresh_expires_in,
                refresh_token: chars_to_string(&rt_chars),
            },
        },
    )
}

} // verus!
