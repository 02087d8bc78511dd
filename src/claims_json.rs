//! The canonical JSON text of a claim set: written and read back by the
//! library itself, so that what is signed is exactly what is checked.

use vstd::prelude::*;
use crate::claims::{opt_view, Claims, ClaimsView};
use crate::text::{chars_of, has_lit_at, lit_at, push_all, push_char, same_chars, string_of};

verus! {

/// The lowercase hexadecimal digit for `n` (below 16).
pub open spec fn hex_char(n: int) -> char {
    if n < 10 {
        ((n + 48) as u32) as char
    } else {
        ((n + 87) as u32) as char
    }
}

/// The JSON escape of one character inside a string literal.
pub open spec fn esc_char(c: char) -> Seq<char> {
    if c == '"' {
        seq!['\\', '"']
    } else if c == '\\' {
        seq!['\\', '\\']
    } else if (c as u32) < 32 {
        seq!['\\', 'u', '0', '0', hex_char((c as u32) as int / 16), hex_char((c as u32) as int % 16)]
    } else {
        seq![c]
    }
}

/// The JSON escape of a character sequence.
pub open spec fn esc(s: Seq<char>) -> Seq<char>
    decreases s.len(),
{
    if s.len() == 0 {
        Seq::empty()
    } else {
        esc_char(s[0]) + esc(s.drop_first())
    }
}

/// A JSON string literal holding `s`.
pub open spec fn quoted(s: Seq<char>) -> Seq<char> {
    seq!['"'] + esc(s) + seq!['"']
}

/// The decimal digit for `d` (below 10).
pub open spec fn digit_char(d: int) -> char {
    ((d + 48) as u32) as char
}

/// The decimal digits of `n`, without leading zeros.
pub open spec fn nat_text(n: nat) -> Seq<char>
    decreases n,
{
    if n < 10 {
        seq![digit_char(n as int)]
    } else {
        nat_text(n / 10) + seq![digit_char((n % 10) as int)]
    }
}

/// The JSON number text of an integer.
pub open spec fn int_text(n: int) -> Seq<char> {
    if n < 0 {
        seq!['-'] + nat_text((-n) as nat)
    } else {
        nat_text(n as nat)
    }
}

/// The text that opens the object and names the namespace field; the other
/// `key_` texts separate and name the fields that follow.
pub open spec fn key_ns() -> Seq<char> {
    seq!['{', '"', 'n', 's', '"', ':']
}

pub open spec fn key_db() -> Seq<char> {
    seq![',', '"', 'd', 'b', '"', ':']
}

pub open spec fn key_sc() -> Seq<char> {
    seq![',', '"', 's', 'c', '"', ':']
}

pub open spec fn key_tk() -> Seq<char> {
    seq![',', '"', 't', 'k', '"', ':']
}

pub open spec fn key_id() -> Seq<char> {
    seq![',', '"', 'i', 'd', '"', ':']
}

pub open spec fn key_role() -> Seq<char> {
    seq![',', '"', 'r', 'o', 'l', 'e', '"', ':']
}

pub open spec fn key_iat() -> Seq<char> {
    seq![',', '"', 'i', 'a', 't', '"', ':']
}

pub open spec fn key_exp() -> Seq<char> {
    seq![',', '"', 'e', 'x', 'p', '"', ':']
}

/// The JSON `null` literal.
pub open spec fn null_text() -> Seq<char> {
    seq!['n', 'u', 'l', 'l']
}

/// The JSON value of an optional role.
pub open spec fn role_text(r: Option<Seq<char>>) -> Seq<char> {
    match r {
        Some(s) => quoted(s),
        None => null_text(),
    }
}

/// The JSON object text of a claim set, with its fields in declaration order
/// and no whitespace.
pub open spec fn claims_text(v: ClaimsView) -> Seq<char> {
    key_ns() + quoted(v.ns) + (key_db() + quoted(v.db) + (key_sc() + quoted(v.sc) + (key_tk()
        + quoted(v.tk) + (key_id() + quoted(v.id) + (key_role() + role_text(v.role) + (key_iat()
        + int_text(v.iat as int) + (key_exp() + int_text(v.exp as int) + seq!['}'])))))))
}

proof fn lemma_esc_push(a: Seq<char>, c: char)
    ensures
        esc(a.push(c)) == esc(a) + esc_char(c),
    decreases a.len(),
{
    if a.len() == 0 {
        assert(a.push(c).drop_first() =~= Seq::<char>::empty());
        assert(a.push(c)[0] == c);
        assert(esc(Seq::<char>::empty()) == Seq::<char>::empty());
        assert(esc(a) == Seq::<char>::empty());
        assert(esc(a.push(c)) =~= esc(a) + esc_char(c));
    } else {
        assert(a.push(c).drop_first() =~= a.drop_first().push(c));
        lemma_esc_push(a.drop_first(), c);
        assert(a.push(c)[0] == a[0]);
        assert(esc(a.push(c)) =~= esc(a) + esc_char(c));
    }
}

fn hex_digit(n: u32) -> (c: char)
    requires
        n < 16,
    ensures
        c == hex_char(n as int),
{
    if n < 10 {
        ((n + 48) as u8) as char
    } else {
        ((n + 87) as u8) as char
    }
}

fn push_escaped(s: &mut String, c: char)
    ensures
        final(s)@ == old(s)@ + esc_char(c),
{
    let ghost start = s@;
    if c == '"' {
        push_char(s, '\\');
        push_char(s, '"');
    } else if c == '\\' {
        push_char(s, '\\');
        push_char(s, '\\');
    } else if (c as u32) < 32 {
        push_char(s, '\\');
        push_char(s, 'u');
        push_char(s, '0');
        push_char(s, '0');
        push_char(s, hex_digit((c as u32) / 16));
        push_char(s, hex_digit((c as u32) % 16));
    } else {
        push_char(s, c);
    }
    assert(s@ =~= start + esc_char(c));
}

/// Appends the JSON string literal of `v`.
fn push_quoted(s: &mut String, v: &String)
    ensures
        final(s)@ == old(s)@ + quoted(v@),
{
    let ghost start = s@;
    let cs = crate::text::chars_of(v.as_str());
    push_char(s, '"');
    let mut i: usize = 0;
    while i < cs.len()
        invariant
            i <= cs.len(),
            cs@ == v@,
            s@ == start + seq!['"'] + esc(cs@.subrange(0, i as int)),
        decreases cs.len() - i,
    {
        proof {
            assert(cs@.subrange(0, i + 1) =~= cs@.subrange(0, i as int).push(cs@[i as int]));
            lemma_esc_push(cs@.subrange(0, i as int), cs@[i as int]);
        }
        push_escaped(s, cs[i]);
        i += 1;
        assert(s@ =~= start + seq!['"'] + esc(cs@.subrange(0, i as int)));
    }
    push_char(s, '"');
    assert(cs@.subrange(0, i as int) =~= v@);
    assert(s@ =~= start + quoted(v@));
}

/// Appends the decimal digits of `m`.
fn push_nat(s: &mut String, m: u64)
    ensures
        final(s)@ == old(s)@ + nat_text(m as nat),
    decreases m,
{
    let ghost start = s@;
    if m >= 10 {
        push_nat(s, m / 10);
    }
    push_char(s, ((m % 10) as u8 + 48) as char);
    assert(s@ =~= start + nat_text(m as nat));
}

/// Appends the JSON number text of `n`.
fn push_int(s: &mut String, n: i64)
    ensures
        final(s)@ == old(s)@ + int_text(n as int),
{
    let ghost start = s@;
    if n < 0 {
        push_char(s, '-');
        let m: u64 = (-(n as i128)) as u64;
        push_nat(s, m);
    } else {
        push_nat(s, n as u64);
    }
    assert(s@ =~= start + int_text(n as int));
}

/// The canonical JSON text of `c`.
pub fn claims_json(c: &Claims) -> (r: String)
    ensures
        r@ == claims_text(c@),
{
    let ghost f_ns = key_ns() + quoted(c.ns@);
    let ghost f_db = key_db() + quoted(c.db@);
    let ghost f_sc = key_sc() + quoted(c.sc@);
    let ghost f_tk = key_tk() + quoted(c.tk@);
    let ghost f_id = key_id() + quoted(c.id@);
    let ghost f_role = key_role() + role_text(opt_view(c.role));
    let ghost f_iat = key_iat() + int_text(c.iat as int);
    let ghost f_exp = key_exp() + int_text(c.exp as int);
    let mut s = String::new();
    push_all(&mut s, &vec!['{', '"', 'n', 's', '"', ':']);
    push_quoted(&mut s, &c.ns);
    assert(s@ =~= f_ns);
    let ghost s1 = s@;
    push_all(&mut s, &vec![',', '"', 'd', 'b', '"', ':']);
    push_quoted(&mut s, &c.db);
    assert(s@ =~= s1 + f_db);
    let ghost s2 = s@;
    push_all(&mut s, &vec![',', '"', 's', 'c', '"', ':']);
    push_quoted(&mut s, &c.sc);
    assert(s@ =~= s2 + f_sc);
    let ghost s3 = s@;
    push_all(&mut s, &vec![',', '"', 't', 'k', '"', ':']);
    push_quoted(&mut s, &c.tk);
    assert(s@ =~= s3 + f_tk);
    let ghost s4 = s@;
    push_all(&mut s, &vec![',', '"', 'i', 'd', '"', ':']);
    push_quoted(&mut s, &c.id);
    assert(s@ =~= s4 + f_id);
    let ghost s5 = s@;
    push_all(&mut s, &vec![',', '"', 'r', 'o', 'l', 'e', '"', ':']);
    match &c.role {
        Some(r) => push_quoted(&mut s, r),
        None => push_all(&mut s, &vec!['n', 'u', 'l', 'l']),
    }
    assert(s@ =~= s5 + f_role);
    let ghost s6 = s@;
    push_all(&mut s, &vec![',', '"', 'i', 'a', 't', '"', ':']);
    push_int(&mut s, c.iat);
    assert(s@ =~= s6 + f_iat);
    let ghost s7 = s@;
    push_all(&mut s, &vec![',', '"', 'e', 'x', 'p', '"', ':']);
    push_int(&mut s, c.exp);
    assert(s@ =~= s7 + f_exp);
    let ghost s8 = s@;
    push_char(&mut s, '}');
    proof {
        let t8 = f_exp + seq!['}'];
        let t7 = f_iat + t8;
        let t6 = f_role + t7;
        let t5 = f_id + t6;
        let t4 = f_tk + t5;
        let t3 = f_sc + t4;
        let t2 = f_db + t3;
        assert(s@ =~= s8 + seq!['}']);
        vstd::seq_lib::lemma_concat_associative(s7, f_exp, seq!['}']);
        vstd::seq_lib::lemma_concat_associative(s6, f_iat, t8);
        vstd::seq_lib::lemma_concat_associative(s5, f_role, t7);
        vstd::seq_lib::lemma_concat_associative(s4, f_id, t6);
        vstd::seq_lib::lemma_concat_associative(s3, f_tk, t5);
        vstd::seq_lib::lemma_concat_associative(s2, f_sc, t4);
        vstd::seq_lib::lemma_concat_associative(s1, f_db, t3);
        assert(s@ == f_ns + t2);
    }
    s
}


/// Whether `c` is a decimal digit.
pub open spec fn is_digit(c: char) -> bool {
    '0' <= c && c <= '9'
}

/// Whether `c` is a lowercase hexadecimal digit.
pub open spec fn is_lower_hex(c: char) -> bool {
    is_digit(c) || ('a' <= c && c <= 'f')
}

/// The value of a lowercase hexadecimal digit.
pub open spec fn hex_val(c: char) -> int {
    if is_digit(c) {
        (c as u32) as int - 48
    } else {
        (c as u32) as int - 87
    }
}

/// Reads the rest of a JSON string literal that starts at `i` (just after its
/// opening quote): its value, and the position after the closing quote.
pub open spec fn str_at(t: Seq<char>, i: int) -> Option<(Seq<char>, int)>
    decreases t.len() - i,
{
    if i < 0 || i >= t.len() {
        None
    } else if t[i] == '"' {
        Some((Seq::empty(), i + 1))
    } else if t[i] == '\\' {
        if i + 1 < t.len() && (t[i + 1] == '"' || t[i + 1] == '\\') {
            match str_at(t, i + 2) {
                Some((v, j)) => Some((seq![t[i + 1]] + v, j)),
                None => None,
            }
        } else if i + 5 < t.len() && t[i + 1] == 'u' && t[i + 2] == '0' && t[i + 3] == '0' && (
        t[i + 4] == '0' || t[i + 4] == '1') && is_lower_hex(t[i + 5]) {
            match str_at(t, i + 6) {
                Some((v, j)) => Some(
                    (seq![((hex_val(t[i + 4]) * 16 + hex_val(t[i + 5])) as u32) as char] + v, j),
                ),
                None => None,
            }
        } else {
            None
        }
    } else {
        match str_at(t, i + 1) {
            Some((v, j)) => Some((seq![t[i]] + v, j)),
            None => None,
        }
    }
}

/// The number of decimal digits in a row from position `j`.
pub open spec fn digit_run(t: Seq<char>, j: int) -> nat
    decreases t.len() - j,
{
    if 0 <= j < t.len() && is_digit(t[j]) {
        1 + digit_run(t, j + 1)
    } else {
        0
    }
}

/// The value of a sequence of decimal digits.
pub open spec fn digits_value(ds: Seq<char>) -> nat
    decreases ds.len(),
{
    if ds.len() == 0 {
        0
    } else {
        digits_value(ds.drop_last()) * 10 + ((ds.last() as u32) as int - 48) as nat
    }
}

/// Reads a JSON integer of at most 19 digits that fits `i64`, starting at `i`.
pub open spec fn int_at(t: Seq<char>, i: int) -> Option<(int, int)> {
    let neg = 0 <= i < t.len() && t[i] == '-';
    let j = if neg {
        i + 1
    } else {
        i
    };
    let n = digit_run(t, j);
    if n == 0 || n > 19 {
        None
    } else {
        let m = digits_value(t.subrange(j, j + n)) as int;
        let v = if neg {
            -m
        } else {
            m
        };
        if i64::MIN <= v <= i64::MAX {
            Some((v, j + n))
        } else {
            None
        }
    }
}

/// Reads `key`, an opening quote and a string literal at position `i`.
#[verifier::opaque]
pub open spec fn str_field(t: Seq<char>, i: int, key: Seq<char>) -> Option<(Seq<char>, int)> {
    if lit_at(t, i, key.push('"')) {
        str_at(t, i + key.len() + 1)
    } else {
        None
    }
}

/// Reads the role field at position `i`: `null` or a string literal.
#[verifier::opaque]
pub open spec fn role_field(t: Seq<char>, i: int) -> Option<(Option<Seq<char>>, int)> {
    if lit_at(t, i, key_role() + null_text()) {
        Some((None, i + key_role().len() + 4))
    } else {
        match str_field(t, i, key_role()) {
            Some((r, j)) => Some((Some(r), j)),
            None => None,
        }
    }
}

/// Reads `key` and an integer at position `i`.
#[verifier::opaque]
pub open spec fn int_field(t: Seq<char>, i: int, key: Seq<char>) -> Option<(int, int)> {
    if lit_at(t, i, key) {
        int_at(t, i + key.len())
    } else {
        None
    }
}

/// Reads the five string fields, in the order `claims_text` writes them, and
/// the position after them.
#[verifier::opaque]
pub open spec fn read_strings(t: Seq<char>) -> Option<(Seq<char>, Seq<char>, Seq<char>, Seq<char>, Seq<char>, int)> {
    match str_field(t, 0, key_ns()) {
        None => None,
        Some((ns, i1)) => match str_field(t, i1, key_db()) {
            None => None,
            Some((db, i2)) => match str_field(t, i2, key_sc()) {
                None => None,
                Some((sc, i3)) => match str_field(t, i3, key_tk()) {
                    None => None,
                    Some((tk, i4)) => match str_field(t, i4, key_id()) {
                        None => None,
                        Some((id, i5)) => Some((ns, db, sc, tk, id, i5)),
                    },
                },
            },
        },
    }
}

/// Reads the role and the two times from position `i`.
#[verifier::opaque]
pub open spec fn read_tail(t: Seq<char>, i: int) -> Option<(Option<Seq<char>>, int, int)> {
    match role_field(t, i) {
        None => None,
        Some((role, i6)) => match int_field(t, i6, key_iat()) {
            None => None,
            Some((iat, i7)) => match int_field(t, i7, key_exp()) {
                None => None,
                Some((exp, _i8)) => Some((role, iat, exp)),
            },
        },
    }
}

/// Reads the fields of a claim set in the order `claims_text` writes them.
pub open spec fn read_fields(t: Seq<char>) -> Option<ClaimsView> {
    match read_strings(t) {
        None => None,
        Some((ns, db, sc, tk, id, i5)) => match read_tail(t, i5) {
            None => None,
            Some((role, iat, exp)) => Some(
                ClaimsView { ns, db, sc, tk, id, role, iat: iat as i64, exp: exp as i64 },
            ),
        },
    }
}

/// The claim set whose canonical text is `t`, if there is one.
pub open spec fn claims_of_text(t: Seq<char>) -> Option<ClaimsView> {
    if exists|v: ClaimsView| claims_text(v) == t {
        Some(choose|v: ClaimsView| claims_text(v) == t)
    } else {
        None
    }
}


proof fn lemma_str_round(t: Seq<char>, i: int, s: Seq<char>)
    requires
        lit_at(t, i, esc(s).push('"')),
    ensures
        str_at(t, i) == Some((s, i + esc(s).len() + 1)),
    decreases s.len(),
{
    let e = esc(s);
    assert(t[i + e.len()] == t.subrange(i, i + e.len() + 1)[e.len() as int]);
    if s.len() == 0 {
        assert(e.len() == 0);
        assert(t[i] == '"');
    } else {
        let c = s[0];
        let rest = s.drop_first();
        let ec = esc_char(c);
        assert(e == ec + esc(rest));
        let k = ec.len() as int;
        assert forall|p: int| 0 <= p < k implies t[i + p] == ec[p] by {
            assert(t[i + p] == t.subrange(i, i + e.len() + 1)[p]);
        }
        assert(t.subrange(i + k, i + k + esc(rest).len() + 1) =~= esc(rest).push('"')) by {
            assert forall|p: int| 0 <= p < esc(rest).len() + 1 implies t[i + k + p] == esc(
                rest,
            ).push('"')[p] by {
                assert(t[i + k + p] == t.subrange(i, i + e.len() + 1)[k + p]);
            }
        }
        lemma_str_round(t, i + k, rest);
        assert(seq![c] + rest =~= s);
        if c == '"' || c == '\\' {
            assert(t[i] == '\\');
            assert(t[i + 1] == c);
        } else if (c as u32) < 32 {
            let code = (c as u32) as int;
            assert(t[i] == '\\');
            assert(t[i + 1] == 'u');
            assert(t[i + 4] == hex_char(code / 16));
            assert(t[i + 5] == hex_char(code % 16));
            assert(hex_val(t[i + 4]) == code / 16);
            assert(hex_val(t[i + 5]) == code % 16);
            assert(hex_val(t[i + 4]) * 16 + hex_val(t[i + 5]) == code);
            vstd::utf8::char_u32_cast(c, c as u32);
        } else {
            assert(t[i] == c);
        }
    }
}


/// Ten to the power `k`.
pub open spec fn pow10(k: nat) -> nat
    decreases k,
{
    if k == 0 {
        1
    } else {
        10 * pow10((k - 1) as nat)
    }
}

proof fn lemma_pow10_19()
    ensures
        pow10(19) == 10000000000000000000nat,
{
    reveal_with_fuel(pow10, 20);
}

proof fn lemma_pow10_mono(a: nat, b: nat)
    requires
        a <= b,
    ensures
        pow10(a) <= pow10(b),
    decreases b,
{
    if a < b {
        lemma_pow10_mono(a, (b - 1) as nat);
    }
}

proof fn lemma_nat_text(n: nat)
    ensures
        nat_text(n).len() >= 1,
        forall|p: int| 0 <= p < nat_text(n).len() ==> is_digit(#[trigger] nat_text(n)[p]),
        digits_value(nat_text(n)) == n,
    decreases n,
{
    let d = digit_char((n % 10) as int);
    if n >= 10 {
        lemma_nat_text(n / 10);
        let a = nat_text(n / 10);
        assert(nat_text(n) == a + seq![d]);
        assert((a + seq![d]).drop_last() =~= a);
        assert((a + seq![d]).last() == d);
        assert forall|p: int| 0 <= p < nat_text(n).len() implies is_digit(
            #[trigger] nat_text(n)[p],
        ) by {
            if p < a.len() {
                assert(nat_text(n)[p] == a[p]);
            }
        }
    } else {
        assert(seq![d].drop_last() =~= Seq::<char>::empty());
        assert(digits_value(Seq::<char>::empty()) == 0);
    }
}

proof fn lemma_nat_text_len(n: nat, k: nat)
    requires
        k >= 1,
        n < pow10(k),
    ensures
        nat_text(n).len() <= k,
    decreases k,
{
    if n >= 10 {
        let km1 = (k - 1) as nat;
        assert(pow10(1) == 10) by {
            reveal_with_fuel(pow10, 2);
        }
        if k == 1 {
            assert(false);
        }
        let p = pow10(km1);
        assert(n / 10 < p) by (nonlinear_arith)
            requires
                n < 10 * p,
        ;
        lemma_nat_text_len(n / 10, km1);
    }
}

proof fn lemma_digit_run(t: Seq<char>, j: int, k: int)
    requires
        0 <= j,
        0 <= k,
        j + k <= t.len(),
        forall|p: int| j <= p < j + k ==> is_digit(#[trigger] t[p]),
        j + k == t.len() || !is_digit(t[j + k]),
    ensures
        digit_run(t, j) == k,
    decreases k,
{
    if k > 0 {
        lemma_digit_run(t, j + 1, k - 1);
    }
}

proof fn lemma_int_round(t: Seq<char>, i: int, n: int)
    requires
        i64::MIN <= n <= i64::MAX,
        lit_at(t, i, int_text(n)),
        i + int_text(n).len() < t.len(),
        !is_digit(t[i + int_text(n).len()]),
    ensures
        int_at(t, i) == Some((n, i + int_text(n).len())),
{
    let it = int_text(n);
    let m: nat = if n < 0 {
        (-n) as nat
    } else {
        n as nat
    };
    let nt = nat_text(m);
    let j = if n < 0 {
        i + 1
    } else {
        i
    };
    lemma_nat_text(m);
    assert(it.len() == (j - i) + nt.len());
    assert forall|p: int| 0 <= p < nt.len() implies t[j + p] == nt[p] by {
        assert(t[j + p] == t.subrange(i, i + it.len())[(j - i) + p]);
    }
    assert(t[i] == t.subrange(i, i + it.len())[0]);
    if n >= 0 {
        assert(is_digit(nt[0]));
    } else {
        assert(t[i] == '-');
    }
    assert forall|p: int| j <= p < j + nt.len() implies is_digit(#[trigger] t[p]) by {
        assert(t[j + (p - j)] == nt[p - j]);
    }
    lemma_digit_run(t, j, nt.len() as int);
    lemma_pow10_19();
    lemma_nat_text_len(m, 19);
    assert(t.subrange(j, j + nt.len()) =~= nt);
}

fn str_at_exec(t: &Vec<char>, i: usize) -> (r: Option<(Vec<char>, usize)>)
    ensures
        match r {
            Some((v, j)) => str_at(t@, i as int) == Some((v@, j as int)),
            None => str_at(t@, i as int) is None,
        },
{
    let mut acc: Vec<char> = Vec::new();
    let mut k: usize = i;
    assert(acc@ + Seq::<char>::empty() =~= Seq::<char>::empty());
    loop
        invariant
            i <= k,
            str_at(t@, i as int) == (match str_at(t@, k as int) {
                Some((v, j)) => Some((acc@ + v, j)),
                None => None,
            }),
        decreases t.len() - k,
    {
        if k >= t.len() {
            return None;
        }
        let c = t[k];
        if c == '"' {
            assert(acc@ + Seq::<char>::empty() =~= acc@);
            return Some((acc, k + 1));
        } else if c == '\\' {
            if k + 1 < t.len() && (t[k + 1] == '"' || t[k + 1] == '\\') {
                let ghost old_acc = acc@;
                acc.push(t[k + 1]);
                proof {
                    assert forall|v: Seq<char>| old_acc + (seq![t@[k + 1]] + v) =~= acc@ + v by {}
                }
                k = k + 2;
            } else if t.len() - k > 5 && t[k + 1] == 'u' && t[k + 2] == '0' && t[k + 3] == '0' && (
            t[k + 4] == '0' || t[k + 4] == '1') && (('0' <= t[k + 5] && t[k + 5] <= '9') || (
            'a' <= t[k + 5] && t[k + 5] <= 'f')) {
                let hi: u32 = t[k + 4] as u32 - 48;
                let d = t[k + 5] as u32;
                let lo: u32 = if d <= 57 {
                    d - 48
                } else {
                    d - 87
                };
                let code: u32 = hi * 16 + lo;
                assert(code < 32);
                let ch = (code as u8) as char;
                let ghost old_acc = acc@;
                acc.push(ch);
                proof {
                    assert(ch == ((hex_val(t@[k + 4]) * 16 + hex_val(t@[k + 5])) as u32) as char);
                    assert forall|v: Seq<char>|
                        old_acc + (seq![ch] + v) =~= acc@ + v by {}
                }
                k = k + 6;
            } else {
                return None;
            }
        } else {
            let ghost old_acc = acc@;
            acc.push(c);
            proof {
                assert forall|v: Seq<char>| old_acc + (seq![c] + v) =~= acc@ + v by {}
            }
            k = k + 1;
        }
    }
}

fn int_at_exec(t: &Vec<char>, i: usize) -> (r: Option<(i64, usize)>)
    ensures
        match r {
            Some((v, j)) => int_at(t@, i as int) == Some((v as int, j as int)),
            None => int_at(t@, i as int) is None,
        },
{
    let neg = i < t.len() && t[i] == '-';
    let j = if neg {
        i + 1
    } else {
        i
    };
    if j >= t.len() {
        return None;
    }
    let mut k: usize = j;
    while k < t.len() && '0' <= t[k] && t[k] <= '9'
        invariant
            j <= k <= t.len(),
            digit_run(t@, j as int) == (k - j) + digit_run(t@, k as int),
            forall|p: int| j <= p < k ==> is_digit(#[trigger] t@[p]),
        decreases t.len() - k,
    {
        k += 1;
    }
    let n = k - j;
    if n == 0 || n > 19 {
        return None;
    }
    let mut m: u64 = 0;
    let mut p: usize = j;
    proof {
        lemma_pow10_19();
        assert(t@.subrange(j as int, j as int) =~= Seq::<char>::empty());
    }
    while p < k
        invariant
            j <= p <= k,
            k - j <= 19,
            k <= t.len(),
            forall|q: int| j <= q < k ==> is_digit(#[trigger] t@[q]),
            m == digits_value(t@.subrange(j as int, p as int)),
            m < pow10((p - j) as nat),
            pow10(19) == 10000000000000000000nat,
        decreases k - p,
    {
        let d = (t[p] as u32 - 48) as u64;
        proof {
            assert(is_digit(t@[p as int]));
            assert(t@.subrange(j as int, p + 1).drop_last() =~= t@.subrange(j as int, p as int));
            assert(t@.subrange(j as int, p + 1).last() == t@[p as int]);
            lemma_pow10_mono((p + 1 - j) as nat, 19);
            assert(pow10((p + 1 - j) as nat) == 10 * pow10((p - j) as nat));
        }
        m = m * 10 + d;
        p += 1;
    }
    if neg {
        if m > 9223372036854775808u64 {
            None
        } else {
            Some(((-(m as i128)) as i64, k))
        }
    } else {
        if m > 9223372036854775807u64 {
            None
        } else {
            Some((m as i64, k))
        }
    }
}


proof fn lemma_lit_split(t: Seq<char>, i: int, a: Seq<char>, b: Seq<char>)
    requires
        lit_at(t, i, a + b),
    ensures
        lit_at(t, i, a),
        lit_at(t, i + a.len(), b),
{
    assert(t.subrange(i, i + a.len()) =~= t.subrange(i, i + a.len() + b.len()).subrange(
        0,
        a.len() as int,
    ));
    assert((a + b).subrange(0, a.len() as int) =~= a);
    assert(t.subrange(i + a.len(), i + a.len() + b.len()) =~= t.subrange(
        i,
        i + a.len() + b.len(),
    ).subrange(a.len() as int, (a.len() + b.len()) as int));
    assert((a + b).subrange(a.len() as int, (a.len() + b.len()) as int) =~= b);
}

proof fn lemma_lit_concat(a: Seq<char>, b: Seq<char>, c: Seq<char>)
    ensures
        lit_at(a + b + c, a.len() as int, b),
{
    assert((a + b + c).subrange(a.len() as int, (a.len() + b.len()) as int) =~= b);
}

proof fn lemma_str_field(t: Seq<char>, i: int, key: Seq<char>, s: Seq<char>)
    requires
        lit_at(t, i, key + quoted(s)),
    ensures
        str_field(t, i, key) == Some((s, i + key.len() + quoted(s).len())),
{
    reveal(str_field);
    assert(key + quoted(s) =~= key.push('"') + esc(s).push('"'));
    lemma_lit_split(t, i, key.push('"'), esc(s).push('"'));
    lemma_str_round(t, i + key.len() + 1, s);
}

proof fn lemma_role_field(t: Seq<char>, i: int, r: Option<Seq<char>>)
    requires
        lit_at(t, i, key_role() + role_text(r)),
    ensures
        role_field(t, i) == Some((r, i + key_role().len() + role_text(r).len())),
{
    reveal(role_field);
    match r {
        Some(s) => {
            let w = key_role() + quoted(s);
            assert(t[i + 8] == t.subrange(i, i + w.len())[8]);
            assert(w[8] == '"');
            if lit_at(t, i, key_role() + null_text()) {
                assert(t[i + 8] == t.subrange(i, i + 12)[8]);
                assert((key_role() + null_text())[8] == 'n');
            }
            lemma_str_field(t, i, key_role(), s);
        },
        None => {},
    }
}

proof fn lemma_int_field(t: Seq<char>, i: int, key: Seq<char>, n: int)
    requires
        i64::MIN <= n <= i64::MAX,
        lit_at(t, i, key + int_text(n)),
        i + key.len() + int_text(n).len() < t.len(),
        !is_digit(t[i + key.len() + int_text(n).len()]),
    ensures
        int_field(t, i, key) == Some((n, i + key.len() + int_text(n).len())),
{
    reveal(int_field);
    lemma_lit_split(t, i, key, int_text(n));
    lemma_int_round(t, i + key.len(), n);
}

/// The length of a field's text: its key and its value. `off1` to `off8` are
/// the positions where the fields after the first begin, and where the
/// closing brace stands.
spec fn piece_len(key: Seq<char>, value: Seq<char>) -> int {
    (key.len() + value.len()) as int
}

spec fn off1(v: ClaimsView) -> int {
    piece_len(key_ns(), quoted(v.ns))
}

spec fn off2(v: ClaimsView) -> int {
    off1(v) + piece_len(key_db(), quoted(v.db))
}

spec fn off3(v: ClaimsView) -> int {
    off2(v) + piece_len(key_sc(), quoted(v.sc))
}

spec fn off4(v: ClaimsView) -> int {
    off3(v) + piece_len(key_tk(), quoted(v.tk))
}

spec fn off5(v: ClaimsView) -> int {
    off4(v) + piece_len(key_id(), quoted(v.id))
}

spec fn off6(v: ClaimsView) -> int {
    off5(v) + piece_len(key_role(), role_text(v.role))
}

spec fn off7(v: ClaimsView) -> int {
    off6(v) + piece_len(key_iat(), int_text(v.iat as int))
}

spec fn off8(v: ClaimsView) -> int {
    off7(v) + piece_len(key_exp(), int_text(v.exp as int))
}

proof fn lemma_pieces(v: ClaimsView)
    ensures
        lit_at(claims_text(v), 0, key_ns() + quoted(v.ns)),
        lit_at(claims_text(v), off1(v), key_db() + quoted(v.db)),
        lit_at(claims_text(v), off2(v), key_sc() + quoted(v.sc)),
        lit_at(claims_text(v), off3(v), key_tk() + quoted(v.tk)),
        lit_at(claims_text(v), off4(v), key_id() + quoted(v.id)),
        lit_at(claims_text(v), off5(v), key_role() + role_text(v.role)),
        lit_at(claims_text(v), off6(v), key_iat() + int_text(v.iat as int)),
        lit_at(claims_text(v), off7(v), key_exp() + int_text(v.exp as int)),
        lit_at(claims_text(v), off8(v), seq!['}']),
{
    let t = claims_text(v);
    let f_ns = key_ns() + quoted(v.ns);
    let f_db = key_db() + quoted(v.db);
    let f_sc = key_sc() + quoted(v.sc);
    let f_tk = key_tk() + quoted(v.tk);
    let f_id = key_id() + quoted(v.id);
    let f_role = key_role() + role_text(v.role);
    let f_iat = key_iat() + int_text(v.iat as int);
    let f_exp = key_exp() + int_text(v.exp as int);
    let f_end = seq!['}'];
    let r8 = f_exp + f_end;
    let r7 = f_iat + r8;
    let r6 = f_role + r7;
    let r5 = f_id + r6;
    let r4 = f_tk + r5;
    let r3 = f_sc + r4;
    let r2 = f_db + r3;
    assert(t == f_ns + r2);
    assert(t.subrange(0, t.len() as int) =~= t);
    lemma_lit_split(t, 0, f_ns, r2);
    lemma_lit_split(t, off1(v), f_db, r3);
    lemma_lit_split(t, off2(v), f_sc, r4);
    lemma_lit_split(t, off3(v), f_tk, r5);
    lemma_lit_split(t, off4(v), f_id, r6);
    lemma_lit_split(t, off5(v), f_role, r7);
    lemma_lit_split(t, off6(v), f_iat, r8);
    lemma_lit_split(t, off7(v), f_exp, f_end);
}

proof fn lemma_read_strings_round(v: ClaimsView)
    ensures
        read_strings(claims_text(v)) == Some((v.ns, v.db, v.sc, v.tk, v.id, off5(v))),
{
    let t = claims_text(v);
    lemma_pieces(v);
    lemma_str_field(t, 0, key_ns(), v.ns);
    lemma_str_field(t, off1(v), key_db(), v.db);
    lemma_str_field(t, off2(v), key_sc(), v.sc);
    lemma_str_field(t, off3(v), key_tk(), v.tk);
    lemma_str_field(t, off4(v), key_id(), v.id);
    reveal(read_strings);
}

proof fn lemma_read_tail_round(v: ClaimsView)
    ensures
        read_tail(claims_text(v), off5(v)) == Some((v.role, v.iat as int, v.exp as int)),
{
    let t = claims_text(v);
    lemma_pieces(v);
    let f_exp = key_exp() + int_text(v.exp as int);
    lemma_role_field(t, off5(v), v.role);
    assert(t[off7(v)] == t.subrange(off7(v), off7(v) + f_exp.len())[0]);
    assert(f_exp[0] == ',');
    lemma_int_field(t, off6(v), key_iat(), v.iat as int);
    assert(t[off8(v)] == t.subrange(off8(v), off8(v) + 1)[0]);
    lemma_int_field(t, off7(v), key_exp(), v.exp as int);
    reveal(read_tail);
}

proof fn lemma_read_round(v: ClaimsView)
    ensures
        read_fields(claims_text(v)) == Some(v),
{
    lemma_read_strings_round(v);
    lemma_read_tail_round(v);
}

/// Reading back the canonical text of a claim set gives that claim set, and
/// no two claim sets share a text.
pub proof fn lemma_claims_text_round_trip(v: ClaimsView)
    ensures
        claims_of_text(claims_text(v)) == Some(v),
{
    let t = claims_text(v);
    assert(exists|w: ClaimsView| claims_text(w) == t);
    let w = choose|w: ClaimsView| claims_text(w) == t;
    lemma_read_round(v);
    lemma_read_round(w);
}

fn str_field_exec(t: &Vec<char>, i: usize, key_q: &Vec<char>, Ghost(key): Ghost<Seq<char>>) -> (r:
    Option<(Vec<char>, usize)>)
    requires
        key_q@ == key.push('"'),
    ensures
        match r {
            Some((v, j)) => str_field(t@, i as int, key) == Some((v@, j as int)),
            None => str_field(t@, i as int, key) is None,
        },
{
    reveal(str_field);
    if !has_lit_at(t, i, key_q) {
        return None;
    }
    assert(i + key_q.len() <= t.len());
    str_at_exec(t, i + key_q.len())
}

fn int_field_exec(t: &Vec<char>, i: usize, key: &Vec<char>) -> (r: Option<(i64, usize)>)
    ensures
        match r {
            Some((v, j)) => int_field(t@, i as int, key@) == Some((v as int, j as int)),
            None => int_field(t@, i as int, key@) is None,
        },
{
    reveal(int_field);
    if !has_lit_at(t, i, key) {
        return None;
    }
    assert(i + key.len() <= t.len());
    int_at_exec(t, i + key.len())
}

fn role_field_exec(t: &Vec<char>, i: usize) -> (r: Option<(Option<Vec<char>>, usize)>)
    ensures
        match r {
            Some((Some(v), j)) => role_field(t@, i as int) == Some((Some(v@), j as int)),
            Some((None, j)) => role_field(t@, i as int) == Some((None::<Seq<char>>, j as int)),
            None => role_field(t@, i as int) is None,
        },
{
    reveal(role_field);
    let null_key = vec![',', '"', 'r', 'o', 'l', 'e', '"', ':', 'n', 'u', 'l', 'l'];
    assert(null_key@ =~= key_role() + null_text());
    if has_lit_at(t, i, &null_key) {
        assert(i + null_key.len() <= t.len());
        return Some((None, i + 12));
    }
    let key_q = vec![',', '"', 'r', 'o', 'l', 'e', '"', ':', '"'];
    assert(key_q@ =~= key_role().push('"'));
    match str_field_exec(t, i, &key_q, Ghost(key_role())) {
        Some((v, j)) => Some((Some(v), j)),
        None => None,
    }
}

fn read_fields_exec(t: &Vec<char>) -> (r: Option<Claims>)
    ensures
        match r {
            Some(c) => read_fields(t@) == Some(c@),
            None => read_fields(t@) is None,
        },
{
    reveal(read_strings);
    reveal(read_tail);
    let k_ns = vec!['{', '"', 'n', 's', '"', ':', '"'];
    assert(k_ns@ =~= key_ns().push('"'));
    let (ns, i1) = match str_field_exec(t, 0, &k_ns, Ghost(key_ns())) {
        Some(x) => x,
        None => return None,
    };
    let k_db = vec![',', '"', 'd', 'b', '"', ':', '"'];
    assert(k_db@ =~= key_db().push('"'));
    let (db, i2) = match str_field_exec(t, i1, &k_db, Ghost(key_db())) {
        Some(x) => x,
        None => return None,
    };
    let k_sc = vec![',', '"', 's', 'c', '"', ':', '"'];
    assert(k_sc@ =~= key_sc().push('"'));
    let (sc, i3) = match str_field_exec(t, i2, &k_sc, Ghost(key_sc())) {
        Some(x) => x,
        None => return None,
    };
    let k_tk = vec![',', '"', 't', 'k', '"', ':', '"'];
    assert(k_tk@ =~= key_tk().push('"'));
    let (tk, i4) = match str_field_exec(t, i3, &k_tk, Ghost(key_tk())) {
        Some(x) => x,
        None => return None,
    };
    let k_id = vec![',', '"', 'i', 'd', '"', ':', '"'];
    assert(k_id@ =~= key_id().push('"'));
    let (id, i5) = match str_field_exec(t, i4, &k_id, Ghost(key_id())) {
        Some(x) => x,
        None => return None,
    };
    let (role, i6) = match role_field_exec(t, i5) {
        Some(x) => x,
        None => return None,
    };
    let k_iat = vec![',', '"', 'i', 'a', 't', '"', ':'];
    assert(k_iat@ =~= key_iat());
    let (iat, i7) = match int_field_exec(t, i6, &k_iat) {
        Some(x) => x,
        None => return None,
    };
    let k_exp = vec![',', '"', 'e', 'x', 'p', '"', ':'];
    assert(k_exp@ =~= key_exp());
    let (exp, _i8) = match int_field_exec(t, i7, &k_exp) {
        Some(x) => x,
        None => return None,
    };
    let role_s = match &role {
        Some(r) => Some(string_of(r)),
        None => None,
    };
    Some(
        Claims {
            ns: string_of(&ns),
            db: string_of(&db),
            sc: string_of(&sc),
            tk: string_of(&tk),
            id: string_of(&id),
            role: role_s,
            iat,
            exp,
        },
    )
}

/// Reads a claim set from its canonical JSON text; any other text is refused.
pub fn parse_claims(s: &str) -> (r: Option<Claims>)
    ensures
        match r {
            Some(c) => claims_of_text(s@) == Some(c@),
            None => claims_of_text(s@) is None,
        },
{
    let t = chars_of(s);
    let r = match read_fields_exec(&t) {
        None => None,
        Some(c) => {
            let back = chars_of(claims_json(&c).as_str());
            if same_chars(&back, &t) {
                proof {
                    lemma_claims_text_round_trip(c@);
                }
                Some(c)
            } else {
                None
            }
        },
    };
    proof {
        if r is None && exists|v: ClaimsView| claims_text(v) == s@ {
            let v = choose|v: ClaimsView| claims_text(v) == s@;
            lemma_read_round(v);
        }
    }
    r
}

} // verus!
