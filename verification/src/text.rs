//! Character-level scanning helpers shared by the gateway-address codec:
//! first-occurrence search, decimal numerals, and query-component decoding.

use vstd::prelude::*;
use vstd::arithmetic::div_mod::{lemma_fundamental_div_mod, lemma_mod_bound};

verus! {

/// Index of the first occurrence of `t` in `s`, if any.
pub open spec fn find_one(s: Seq<char>, t: char) -> Option<int>
    decreases s.len(),
{
    if s.len() == 0 {
        None
    } else if s[0] == t {
        Some(0)
    } else {
        match find_one(s.drop_first(), t) {
            None => None,
            Some(i) => Some(i + 1),
        }
    }
}

/// Index of the first occurrence of `t1` or `t2` in `s`, if any.
pub open spec fn find_two(s: Seq<char>, t1: char, t2: char) -> Option<int>
    decreases s.len(),
{
    if s.len() == 0 {
        None
    } else if s[0] == t1 || s[0] == t2 {
        Some(0)
    } else {
        match find_two(s.drop_first(), t1, t2) {
            None => None,
            Some(i) => Some(i + 1),
        }
    }
}

/// What `find_one` returns is the first occurrence: a valid index holding
/// `t`, with no occurrence before it; `None` means `t` does not occur.
pub proof fn lemma_find_one_props(s: Seq<char>, t: char)
    ensures
        match find_one(s, t) {
            Some(i) => 0 <= i < s.len() && s[i] == t && (forall|j: int|
                0 <= j < i ==> s[j] != t),
            None => forall|j: int| 0 <= j < s.len() ==> s[j] != t,
        },
    decreases s.len(),
{
    if s.len() > 0 && s[0] != t {
        lemma_find_one_props(s.drop_first(), t);
        match find_one(s.drop_first(), t) {
            Some(i) => {
                assert(s.drop_first()[i] == s[i + 1]);
                assert forall|j: int| 0 <= j < i + 1 implies s[j] != t by {
                    if j > 0 {
                        assert(s.drop_first()[j - 1] == s[j]);
                    }
                }
            },
            None => {
                assert forall|j: int| 0 <= j < s.len() implies s[j] != t by {
                    if j > 0 {
                        assert(s.drop_first()[j - 1] == s[j]);
                    }
                }
            },
        }
    }
}

/// Same first-occurrence reading for `find_two`.
pub proof fn lemma_find_two_props(s: Seq<char>, t1: char, t2: char)
    ensures
        match find_two(s, t1, t2) {
            Some(i) => 0 <= i < s.len() && (s[i] == t1 || s[i] == t2) && (forall|j: int|
                0 <= j < i ==> s[j] != t1 && s[j] != t2),
            None => forall|j: int| 0 <= j < s.len() ==> s[j] != t1 && s[j] != t2,
        },
    decreases s.len(),
{
    if s.len() > 0 && s[0] != t1 && s[0] != t2 {
        lemma_find_two_props(s.drop_first(), t1, t2);
        match find_two(s.drop_first(), t1, t2) {
            Some(i) => {
                assert(s.drop_first()[i] == s[i + 1]);
                assert forall|j: int| 0 <= j < i + 1 implies s[j] != t1 && s[j] != t2 by {
                    if j > 0 {
                        assert(s.drop_first()[j - 1] == s[j]);
                    }
                }
            },
            None => {
                assert forall|j: int| 0 <= j < s.len() implies s[j] != t1 && s[j] != t2 by {
                    if j > 0 {
                        assert(s.drop_first()[j - 1] == s[j]);
                    }
                }
            },
        }
    }
}

/// First occurrence of the character `t` in `s`.
pub fn find_char(s: &str, t: char) -> (r: Option<usize>)
    ensures
        match r {
            None => find_one(s@, t) == None::<int>,
            Some(i) => find_one(s@, t) == Some(i as int) && i < s@.len(),
        },
{
    let n = s.unicode_len();
    let mut i: usize = 0;
    while i < n
        invariant
            n == s@.len(),
            0 <= i <= n,
            forall|j: int| 0 <= j < i ==> s@[j] != t,
        decreases n - i,
    {
        if s.get_char(i) == t {
            proof {
                lemma_find_one_props(s@, t);
            }
            return Some(i);
        }
        i = i + 1;
    }
    proof {
        lemma_find_one_props(s@, t);
    }
    None
}

/// First occurrence in `s` of either `t1` or `t2`.
pub fn find_char2(s: &str, t1: char, t2: char) -> (r: Option<usize>)
    ensures
        match r {
            None => find_two(s@, t1, t2) == None::<int>,
            Some(i) => find_two(s@, t1, t2) == Some(i as int) && i < s@.len(),
        },
{
    let n = s.unicode_len();
    let mut i: usize = 0;
    while i < n
        invariant
            n == s@.len(),
            0 <= i <= n,
            forall|j: int| 0 <= j < i ==> s@[j] != t1 && s@[j] != t2,
        decreases n - i,
    {
        let c = s.get_char(i);
        if c == t1 || c == t2 {
            proof {
                lemma_find_two_props(s@, t1, t2);
            }
            return Some(i);
        }
        i = i + 1;
    }
    proof {
        lemma_find_two_props(s@, t1, t2);
    }
    None
}

/// `s` holds no occurrence of `t`.
pub open spec fn lacks(s: Seq<char>, t: char) -> bool {
    forall|i: int| 0 <= i < s.len() ==> s[i] != t
}

/// A first occurrence at `i` is what `find_one` returns.
pub proof fn lemma_find_one_at(s: Seq<char>, t: char, i: int)
    requires
        0 <= i < s.len(),
        s[i] == t,
        forall|j: int| 0 <= j < i ==> s[j] != t,
    ensures
        find_one(s, t) == Some(i),
{
    lemma_find_one_props(s, t);
}

/// Without an occurrence, `find_one` returns nothing.
pub proof fn lemma_find_one_absent(s: Seq<char>, t: char)
    requires
        lacks(s, t),
    ensures
        find_one(s, t) == None::<int>,
{
    lemma_find_one_props(s, t);
}

/// A first occurrence of either character at `i` is what `find_two` returns.
pub proof fn lemma_find_two_at(s: Seq<char>, t1: char, t2: char, i: int)
    requires
        0 <= i < s.len(),
        s[i] == t1 || s[i] == t2,
        forall|j: int| 0 <= j < i ==> s[j] != t1 && s[j] != t2,
    ensures
        find_two(s, t1, t2) == Some(i),
{
    lemma_find_two_props(s, t1, t2);
}

/// A digit string lacks every non-digit character.
pub proof fn lemma_digits_lack(s: Seq<char>, t: char)
    requires
        all_digits(s),
        !is_digit(t),
    ensures
        lacks(s, t),
{
}

/// Relies on std's `String::push`: appends exactly the given character.
#[verifier::external_body]
pub fn push_char(s: &mut String, c: char)
    ensures
        final(s)@ == old(s)@.push(c),
{
    s.push(c)
}

// ---------------------------------------------------------------------------
// Decimal numerals
// ---------------------------------------------------------------------------

pub open spec fn is_digit(c: char) -> bool {
    '0' <= c && c <= '9'
}

pub open spec fn digit_val(c: char) -> int {
    c as int - '0' as int
}

pub open spec fn all_digits(s: Seq<char>) -> bool {
    forall|i: int| 0 <= i < s.len() ==> is_digit(#[trigger] s[i])
}

/// Value of a digit string read in base ten, most significant first.
pub open spec fn dec_val(s: Seq<char>) -> int
    decreases s.len(),
{
    if s.len() == 0 {
        0
    } else {
        dec_val(s.drop_last()) * 10 + digit_val(s.last())
    }
}

pub open spec fn digit_char(d: int) -> char {
    ((48 + d) as u8) as char
}

/// The canonical decimal numeral of a natural number.
pub open spec fn dec_of(n: nat) -> Seq<char>
    decreases n,
{
    if n < 10 {
        seq![digit_char(n as int)]
    } else {
        dec_of(n / 10) + seq![digit_char((n % 10) as int)]
    }
}

pub proof fn lemma_dec_val_nonneg(s: Seq<char>)
    requires
        all_digits(s),
    ensures
        dec_val(s) >= 0,
    decreases s.len(),
{
    if s.len() > 0 {
        assert(all_digits(s.drop_last()));
        lemma_dec_val_nonneg(s.drop_last());
        assert(dec_val(s.drop_last()) * 10 >= 0);
        assert(is_digit(s.last()));
    }
}

/// Appending one digit multiplies the value by ten and adds that digit.
pub proof fn lemma_dec_val_push(s: Seq<char>, c: char)
    ensures
        dec_val(s.push(c)) == dec_val(s) * 10 + digit_val(c),
{
    assert(s.push(c).drop_last() =~= s);
    assert(s.push(c).last() == c);
}

/// The value of a digit string is at least the value of any of its prefixes.
pub proof fn lemma_dec_val_prefix(s: Seq<char>, i: int)
    requires
        all_digits(s),
        0 <= i <= s.len(),
    ensures
        dec_val(s.subrange(0, i)) <= dec_val(s),
    decreases s.len() - i,
{
    if i < s.len() {
        lemma_dec_val_prefix(s, i + 1);
        let p = s.subrange(0, i);
        let q = s.subrange(0, i + 1);
        assert(q.drop_last() =~= p);
        assert(all_digits(p));
        lemma_dec_val_nonneg(p);
        assert(dec_val(q) == dec_val(p) * 10 + digit_val(s[i]));
        assert(dec_val(p) * 10 >= dec_val(p));
    } else {
        assert(s.subrange(0, i) =~= s);
    }
}

/// The canonical numeral is made of digits, is nonempty, and reads back to
/// the number it was made from.
pub proof fn lemma_dec_of(n: nat)
    ensures
        all_digits(dec_of(n)),
        dec_of(n).len() >= 1,
        dec_val(dec_of(n)) == n,
    decreases n,
{
    if n < 10 {
        assert(dec_of(n) =~= seq![digit_char(n as int)]);
        assert((48 + n) as u8 == 48 + n);
        assert(((48 + n as int) as u8) as char as int == 48 + n);
        assert(is_digit(digit_char(n as int)));
        assert(dec_of(n).drop_last() =~= Seq::<char>::empty());
        assert(dec_val(Seq::<char>::empty()) == 0);
        assert(dec_of(n).last() == digit_char(n as int));
        assert(digit_val(digit_char(n as int)) == n);
    } else {
        lemma_mod_bound(n as int, 10);
        lemma_fundamental_div_mod(n as int, 10);
        lemma_dec_of(n / 10);
        let head = dec_of(n / 10);
        let d = (n % 10) as int;
        assert(0 <= d < 10);
        assert(is_digit(digit_char(d)) && digit_val(digit_char(d)) == d);
        assert(dec_of(n) =~= head.push(digit_char(d)));
        lemma_dec_val_push(head, digit_char(d));
        assert(dec_val(dec_of(n)) == dec_val(head) * 10 + d);
        assert(n == 10 * (n as int / 10) + d);
        assert forall|i: int| 0 <= i < dec_of(n).len() implies is_digit(
            #[trigger] dec_of(n)[i],
        ) by {
            if i < head.len() {
                assert(dec_of(n)[i] == head[i]);
            } else {
                assert(dec_of(n)[i] == digit_char(d));
            }
        }
    }
}

/// What a string must be for `parse_u64` to accept it: nonempty, digits
/// only, value within `u64`.
pub open spec fn spec_parse_u64(s: Seq<char>) -> Option<u64> {
    if s.len() >= 1 && all_digits(s) && dec_val(s) <= u64::MAX {
        Some(dec_val(s) as u64)
    } else {
        None
    }
}

/// Reads a decimal numeral as a `u64`; rejects the empty string, any
/// non-digit character, and values over `u64::MAX`.
pub fn parse_u64(s: &str) -> (r: Option<u64>)
    ensures
        r == spec_parse_u64(s@),
{
    let n = s.unicode_len();
    if n == 0 {
        return None;
    }
    let mut val: u64 = 0;
    let mut i: usize = 0;
    while i < n
        invariant
            n == s@.len(),
            0 <= i <= n,
            all_digits(s@.subrange(0, i as int)),
            val == dec_val(s@.subrange(0, i as int)),
        decreases n - i,
    {
        let c = s.get_char(i);
        if !(c >= '0' && c <= '9') {
            return None;
        }
        let d: u64 = (c as u32 - 48) as u64;
        let wide: u128 = (val as u128) * 10 + (d as u128);
        proof {
            let p = s@.subrange(0, i as int);
            let q = s@.subrange(0, i as int + 1);
            assert(q.drop_last() =~= p);
            assert(q.last() == s@[i as int]);
            assert(all_digits(q));
            assert(dec_val(q) == dec_val(p) * 10 + digit_val(s@[i as int]));
            assert(dec_val(q) == wide);
            if wide > u64::MAX as u128 && all_digits(s@) {
                lemma_dec_val_prefix(s@, i as int + 1);
            }
        }
        if wide > u64::MAX as u128 {
            return None;
        }
        val = wide as u64;
        i = i + 1;
    }
    proof {
        assert(s@.subrange(0, n as int) =~= s@);
    }
    Some(val)
}


// ---------------------------------------------------------------------------
// ASCII case folding
// ---------------------------------------------------------------------------

/// An ASCII capital folded to its small form; every other character stays.
pub open spec fn lower_char(c: char) -> char {
    if 'A' <= c && c <= 'Z' {
        (((c as u8) + 32) as char)
    } else {
        c
    }
}

pub open spec fn ascii_lower(s: Seq<char>) -> Seq<char> {
    s.map_values(|c: char| lower_char(c))
}

/// Folds the ASCII capitals of `s` to their small forms.
pub fn to_ascii_lower(s: &str) -> (r: String)
    ensures
        r@ == ascii_lower(s@),
{
    let n = s.unicode_len();
    let mut out = String::new();
    let mut i: usize = 0;
    proof {
        assert(out@ =~= ascii_lower(s@.subrange(0, 0)));
    }
    while i < n
        invariant
            n == s@.len(),
            0 <= i <= n,
            out@ == ascii_lower(s@.subrange(0, i as int)),
        decreases n - i,
    {
        let c = s.get_char(i);
        let low: char = if c >= 'A' && c <= 'Z' {
            ((c as u8) + 32) as char
        } else {
            c
        };
        push_char(&mut out, low);
        proof {
            assert(low == lower_char(s@[i as int]));
            assert(s@.subrange(0, i as int + 1) =~= s@.subrange(0, i as int).push(s@[i as int]));
            assert(ascii_lower(s@.subrange(0, i as int + 1)) =~= ascii_lower(
                s@.subrange(0, i as int),
            ).push(lower_char(s@[i as int])));
        }
        i = i + 1;
    }
    proof {
        assert(s@.subrange(0, n as int) =~= s@);
    }
    out
}

// ---------------------------------------------------------------------------
// Query-component decoding
// ---------------------------------------------------------------------------

pub open spec fn is_hex_digit(c: char) -> bool {
    is_digit(c) || ('a' <= c && c <= 'f') || ('A' <= c && c <= 'F')
}

pub open spec fn hex_val(c: char) -> int {
    if is_digit(c) {
        digit_val(c)
    } else if 'a' <= c && c <= 'f' {
        c as int - 'a' as int + 10
    } else {
        c as int - 'A' as int + 10
    }
}

/// Whether position 0 of `s` starts a decodable ASCII percent escape.
pub open spec fn starts_escape(s: Seq<char>) -> bool {
    s.len() >= 3 && s[0] == '%' && is_hex_digit(s[1]) && is_hex_digit(s[2]) && hex_val(s[1]) * 16
        + hex_val(s[2]) < 128
}

/// Decoding of one query component: `+` becomes a space, `%` followed by two
/// hex digits below 0x80 becomes that ASCII character, and everything else
/// (including escapes of non-ASCII bytes) is carried through unchanged.
pub open spec fn decode_query(s: Seq<char>) -> Seq<char>
    decreases s.len(),
{
    if s.len() == 0 {
        Seq::empty()
    } else if s[0] == '+' {
        seq![' '] + decode_query(s.drop_first())
    } else if starts_escape(s) {
        seq![(((hex_val(s[1]) * 16 + hex_val(s[2])) as u8) as char)] + decode_query(
            s.subrange(3, s.len() as int),
        )
    } else {
        seq![s[0]] + decode_query(s.drop_first())
    }
}

/// A component without `%` or `+` decodes to itself.
pub proof fn lemma_decode_plain(s: Seq<char>)
    requires
        forall|i: int| 0 <= i < s.len() ==> s[i] != '%' && s[i] != '+',
    ensures
        decode_query(s) == s,
    decreases s.len(),
{
    if s.len() > 0 {
        lemma_decode_plain(s.drop_first());
        assert(seq![s[0]] + s.drop_first() =~= s);
    }
}

/// Value of one hex digit, or `None` for any other character.
fn hex_digit_val(c: char) -> (r: Option<u8>)
    ensures
        r == if is_hex_digit(c) {
            Some(hex_val(c) as u8)
        } else {
            None::<u8>
        },
{
    if c >= '0' && c <= '9' {
        Some((c as u32 - 48) as u8)
    } else if c >= 'a' && c <= 'f' {
        Some((c as u32 - 97 + 10) as u8)
    } else if c >= 'A' && c <= 'F' {
        Some((c as u32 - 65 + 10) as u8)
    } else {
        None
    }
}

/// Applies `decode_query` to one query component.
pub fn decode_component(s: &str) -> (r: String)
    ensures
        r@ == decode_query(s@),
{
    let n = s.unicode_len();
    let mut out = String::new();
    let mut i: usize = 0;
    proof {
        assert(s@.subrange(0, n as int) =~= s@);
        assert(out@ + decode_query(s@) =~= decode_query(s@));
    }
    while i < n
        invariant
            n == s@.len(),
            0 <= i <= n,
            decode_query(s@) == out@ + decode_query(s@.subrange(i as int, n as int)),
        decreases n - i,
    {
        let ghost rem = s@.subrange(i as int, n as int);
        let c = s.get_char(i);
        if c == '+' {
            push_char(&mut out, ' ');
            proof {
                assert(rem.drop_first() =~= s@.subrange(i as int + 1, n as int));
                assert(out@ + decode_query(rem.drop_first()) =~= (out@.drop_last() + seq![' '])
                    + decode_query(rem.drop_first()));
                assert(out@.drop_last() + (seq![' '] + decode_query(rem.drop_first())) =~= (
                out@.drop_last() + seq![' ']) + decode_query(rem.drop_first()));
            }
            i = i + 1;
        } else if c == '%' && n - i > 2 {
            let h1 = hex_digit_val(s.get_char(i + 1));
            let h2 = hex_digit_val(s.get_char(i + 2));
            let mut decoded = false;
            match (h1, h2) {
                (Some(a), Some(b)) => {
                    let v: u8 = a * 16 + b;
                    if v < 128 {
                        push_char(&mut out, v as char);
                        proof {
                            assert(starts_escape(rem));
                            assert(rem.subrange(3, rem.len() as int) =~= s@.subrange(
                                i as int + 3,
                                n as int,
                            ));
                            assert(out@.drop_last() + (seq![v as char] + decode_query(
                                rem.subrange(3, rem.len() as int),
                            )) =~= out@ + decode_query(s@.subrange(i as int + 3, n as int)));
                        }
                        i = i + 3;
                        decoded = true;
                    }
                },
                _ => {},
            }
            if !decoded {
                push_char(&mut out, c);
                proof {
                    assert(!starts_escape(rem));
                    assert(rem.drop_first() =~= s@.subrange(i as int + 1, n as int));
                    assert(out@.drop_last() + (seq![rem[0]] + decode_query(rem.drop_first()))
                        =~= out@ + decode_query(s@.subrange(i as int + 1, n as int)));
                }
                i = i + 1;
            }
        } else {
            push_char(&mut out, c);
            proof {
                assert(!starts_escape(rem));
                assert(rem.drop_first() =~= s@.subrange(i as int + 1, n as int));
                assert(out@.drop_last() + (seq![rem[0]] + decode_query(rem.drop_first())) =~= out@
                    + decode_query(s@.subrange(i as int + 1, n as int)));
            }
            i = i + 1;
        }
    }
    proof {
        assert(s@.subrange(0, n as int) =~= s@);
        assert(s@.subrange(n as int, n as int) =~= Seq::<char>::empty());
        assert(out@ + Seq::<char>::empty() =~= out@);
    }
    out
}

/// Writes `n` as its canonical decimal numeral.
pub fn u64_to_dec(n: u64) -> (r: String)
    ensures
        r@ == dec_of(n as nat),
    decreases n,
{
    let d: u8 = 48 + (n % 10) as u8;
    let digit: char = d as char;
    proof {
        lemma_mod_bound(n as int, 10);
        assert(digit == digit_char((n % 10) as int));
        if n < 10 {
            lemma_fundamental_div_mod(n as int, 10);
            assert(n % 10 == n);
        }
    }
    if n < 10 {
        let mut out = String::new();
        push_char(&mut out, digit);
        proof {
            assert(out@ =~= seq![digit_char(n as int)]);
        }
        out
    } else {
        let mut out = u64_to_dec(n / 10);
        push_char(&mut out, digit);
        proof {
            assert(out@ =~= dec_of((n / 10) as nat) + seq![digit_char((n % 10) as int)]);
        }
        out
    }
}


/// The decimal numeral of an integer, a minus sign leading when negative.
pub open spec fn int_dec(n: int) -> Seq<char> {
    if n < 0 {
        "-"@ + dec_of((-n) as nat)
    } else {
        dec_of(n as nat)
    }
}

/// Writes a signed 64-bit integer as its decimal numeral.
pub fn i64_to_dec(n: i64) -> (r: String)
    ensures
        r@ == int_dec(n as int),
{
    if n < 0 {
        let mag: u64 = (-(n as i128)) as u64;
        let mut out = String::from_str("-");
        let digits = u64_to_dec(mag);
        out.append(digits.as_str());
        out
    } else {
        u64_to_dec(n as u64)
    }
}

} // verus!
