//! The compact persisted form of a handle.
//!
//! A handle is persisted as a single-field tagged record wrapping its raw
//! one-based index: the text `Handle(` followed by the decimal numeral of
//! the index and a closing `)`. The tag keeps a persisted handle distinct
//! from a bare number standing in the same structure. Parsing rebuilds a
//! handle from exactly that text, with no validation against any arena;
//! validity is re-established only when the handle is used to index again.

use vstd::prelude::*;
use crate::arena::Handle;

verus! {

/// The character standing for one decimal digit value.
pub open spec fn digit_char(d: int) -> char {
    if d == 0 {
        '0'
    } else if d == 1 {
        '1'
    } else if d == 2 {
        '2'
    } else if d == 3 {
        '3'
    } else if d == 4 {
        '4'
    } else if d == 5 {
        '5'
    } else if d == 6 {
        '6'
    } else if d == 7 {
        '7'
    } else if d == 8 {
        '8'
    } else {
        '9'
    }
}

/// Whether `c` is a decimal digit character.
pub open spec fn is_digit_char(c: char) -> bool {
    c == '0' || c == '1' || c == '2' || c == '3' || c == '4' || c == '5' || c == '6' || c == '7'
        || c == '8' || c == '9'
}

/// The numeric value of one decimal digit character.
pub open spec fn digit_val(c: char) -> int {
    if c == '0' {
        0
    } else if c == '1' {
        1
    } else if c == '2' {
        2
    } else if c == '3' {
        3
    } else if c == '4' {
        4
    } else if c == '5' {
        5
    } else if c == '6' {
        6
    } else if c == '7' {
        7
    } else if c == '8' {
        8
    } else {
        9
    }
}

/// The decimal numeral of `n`, most significant digit first, without
/// leading zeros.
pub open spec fn dec_digits(n: int) -> Seq<char>
    decreases n,
{
    if n < 10 {
        seq![digit_char(n)]
    } else {
        dec_digits(n / 10).push(digit_char(n % 10))
    }
}

/// The numeric value of a digit string, most significant digit first.
pub open spec fn digits_val(s: Seq<char>) -> int
    decreases s.len(),
{
    if s.len() == 0 {
        0
    } else {
        digits_val(s.drop_last()) * 10 + digit_val(s.last())
    }
}

/// Whether `s` is the canonical numeral of some value: nonempty, all
/// digits, and without a leading zero except for the numeral `0` itself.
pub open spec fn is_canonical_digits(s: Seq<char>) -> bool {
    &&& s.len() > 0
    &&& forall|i: int| 0 <= i < s.len() ==> is_digit_char(#[trigger] s[i])
    &&& s.len() > 1 ==> s[0] != '0'
}

/// The tag that opens the compact form.
pub open spec fn compact_tag() -> Seq<char> {
    seq!['H', 'a', 'n', 'd', 'l', 'e', '(']
}

/// The canonical compact text of a handle whose one-based index is `n`.
pub open spec fn compact_form(n: int) -> Seq<char> {
    compact_tag() + dec_digits(n) + seq![')']
}

/// What parsing a compact text yields: the encoded one-based index, for
/// exactly the texts that are the canonical compact form of an index a
/// handle can store, and nothing for every other text.
pub open spec fn parse_compact(s: Seq<char>) -> Option<int> {
    let digits = s.subrange(7, s.len() - 1);
    if s.len() >= 9 && s.subrange(0, 7) == compact_tag() && s.last() == ')'
        && is_canonical_digits(digits) && 1 <= digits_val(digits) <= u32::MAX {
        Some(digits_val(digits))
    } else {
        None
    }
}

/// Ten to the power `k`.
pub open spec fn pow10(k: int) -> int
    decreases k,
{
    if k <= 0 {
        1
    } else {
        10 * pow10(k - 1)
    }
}

/// A digit string's value is nonnegative and below ten to its length.
proof fn lemma_digits_val_upper(s: Seq<char>)
    requires
        forall|i: int| 0 <= i < s.len() ==> is_digit_char(#[trigger] s[i]),
    ensures
        0 <= digits_val(s) < pow10(s.len() as int),
    decreases s.len(),
{
    if s.len() > 0 {
        lemma_digits_val_upper(s.drop_last());
    }
}

/// A digit string that opens with a nonzero digit has a value of at least
/// ten to one less than its length.
proof fn lemma_digits_val_lower(s: Seq<char>)
    requires
        s.len() > 0,
        forall|i: int| 0 <= i < s.len() ==> is_digit_char(#[trigger] s[i]),
        s[0] != '0',
    ensures
        digits_val(s) >= pow10(s.len() - 1),
    decreases s.len(),
{
    assert(is_digit_char(s[s.len() - 1]));
    assert(digit_val(s.last()) >= 0);
    if s.len() == 1 {
        assert(s.drop_last() =~= Seq::<char>::empty());
        assert(digits_val(Seq::<char>::empty()) == 0);
        assert(digits_val(s) == digit_val(s[0]));
        assert(digit_val(s[0]) >= 1);
    } else {
        let prefix = s.drop_last();
        assert(forall|i: int| 0 <= i < prefix.len() ==> prefix[i] == s[i]);
        lemma_digits_val_lower(prefix);
        assert(digits_val(s) == digits_val(prefix) * 10 + digit_val(s.last()));
        assert(digits_val(prefix) * 10 >= pow10(s.len() - 2) * 10);
        assert(pow10(s.len() - 1) == 10 * pow10(s.len() - 2));
    }
}

/// The decimal numeral of `n >= 1` is canonical and has value `n`.
proof fn lemma_dec_digits_canonical(n: int)
    requires
        n >= 1,
    ensures
        is_canonical_digits(dec_digits(n)),
        dec_digits(n)[0] != '0',
        digits_val(dec_digits(n)) == n,
    decreases n,
{
    if n < 10 {
        assert(dec_digits(n) =~= Seq::empty().push(digit_char(n)));
        assert(dec_digits(n).drop_last() =~= Seq::<char>::empty());
        assert(digits_val(Seq::<char>::empty()) == 0);
        assert(dec_digits(n).last() == digit_char(n));
        assert(digit_val(digit_char(n)) == n);
    } else {
        lemma_dec_digits_canonical(n / 10);
        let prefix = dec_digits(n / 10);
        let whole = dec_digits(n);
        assert(whole == prefix.push(digit_char(n % 10)));
        assert(whole.drop_last() =~= prefix);
        assert(digits_val(whole) == digits_val(prefix) * 10 + digit_val(digit_char(n % 10)));
        assert(digit_val(digit_char(n % 10)) == n % 10);
        assert(digits_val(whole) == n);
    }
}

/// A borrowed slice of text holding one decimal digit character.
fn digit_str(d: u32) -> (r: &'static str)
    requires
        d < 10,
    ensures
        r@ == seq![digit_char(d as int)],
{
    if d == 0 {
        proof {
            reveal_strlit("0");
            assert("0"@ =~= seq![digit_char(d as int)]);
        }
        "0"
    } else if d == 1 {
        proof {
            reveal_strlit("1");
            assert("1"@ =~= seq![digit_char(d as int)]);
        }
        "1"
    } else if d == 2 {
        proof {
            reveal_strlit("2");
            assert("2"@ =~= seq![digit_char(d as int)]);
        }
        "2"
    } else if d == 3 {
        proof {
            reveal_strlit("3");
            assert("3"@ =~= seq![digit_char(d as int)]);
        }
        "3"
    } else if d == 4 {
        proof {
            reveal_strlit("4");
            assert("4"@ =~= seq![digit_char(d as int)]);
        }
        "4"
    } else if d == 5 {
        proof {
            reveal_strlit("5");
            assert("5"@ =~= seq![digit_char(d as int)]);
        }
        "5"
    } else if d == 6 {
        proof {
            reveal_strlit("6");
            assert("6"@ =~= seq![digit_char(d as int)]);
        }
        "6"
    } else if d == 7 {
        proof {
            reveal_strlit("7");
            assert("7"@ =~= seq![digit_char(d as int)]);
        }
        "7"
    } else if d == 8 {
        proof {
            reveal_strlit("8");
            assert("8"@ =~= seq![digit_char(d as int)]);
        }
        "8"
    } else {
        proof {
            reveal_strlit("9");
            assert("9"@ =~= seq![digit_char(d as int)]);
        }
        "9"
    }
}

/// Appends the decimal numeral of `n` to `s`.
fn push_dec(s: &mut String, n: u32)
    ensures
        final(s)@ == old(s)@ + dec_digits(n as int),
    decreases n,
{
    if n >= 10 {
        push_dec(s, n / 10);
    }
    s.append(digit_str(n % 10));
    proof {
        assert(s@ =~= old(s)@ + dec_digits(n as int));
    }
}

/// Decodes one decimal digit character.
fn char_digit(c: char) -> (r: Option<u32>)
    ensures
        match r {
            Some(d) => is_digit_char(c) && d == digit_val(c) && d < 10,
            None => !is_digit_char(c),
        },
{
    if c == '0' {
        Some(0)
    } else if c == '1' {
        Some(1)
    } else if c == '2' {
        Some(2)
    } else if c == '3' {
        Some(3)
    } else if c == '4' {
        Some(4)
    } else if c == '5' {
        Some(5)
    } else if c == '6' {
        Some(6)
    } else if c == '7' {
        Some(7)
    } else if c == '8' {
        Some(8)
    } else if c == '9' {
        Some(9)
    } else {
        None
    }
}

/// The character at position `i` of the tag that opens the compact form.
fn tag_char(i: usize) -> (c: char)
    requires
        i < 7,
    ensures
        c == compact_tag()[i as int],
{
    if i == 0 {
        'H'
    } else if i == 1 {
        'a'
    } else if i == 2 {
        'n'
    } else if i == 3 {
        'd'
    } else if i == 4 {
        'l'
    } else if i == 5 {
        'e'
    } else {
        '('
    }
}

impl<T> Handle<T> {
    /// Renders this handle in its compact persisted form: the tag
    /// `Handle(` wrapping the decimal numeral of its one-based index,
    /// closed by `)`.
    pub fn to_compact(&self) -> (s: String)
        ensures
            s@ == compact_form(self@ as int),
    {
        let raw = self.raw();
        let mut s = String::from_str("Handle(");
        push_dec(&mut s, raw);
        s.append(")");
        proof {
            reveal_strlit("Handle(");
            reveal_strlit(")");
            assert(s@ =~= compact_form(self@ as int));
        }
        s
    }

    /// Rebuilds a handle from its compact persisted form, with no
    /// validation against any arena. Yields a handle for exactly the
    /// texts that [`parse_compact`] accepts: the canonical compact form
    /// of a nonzero index that the representation can store.
    pub fn from_compact(text: &str) -> (r: Option<Handle<T>>)
        ensures
            match r {
                Some(h) => parse_compact(text@) == Some(h@ as int),
                None => parse_compact(text@) is None,
            },
    {
        let n = text.unicode_len();
        if n < 9 {
            return None;
        }
        let mut i: usize = 0;
        while i < 7
            invariant
                9 <= n == text@.len(),
                i <= 7,
                forall|j: int| 0 <= j < i ==> text@[j] == compact_tag()[j],
            decreases 7 - i,
        {
            if text.get_char(i) != tag_char(i) {
                proof {
                    assert(text@.subrange(0, 7)[i as int] == text@[i as int]);
                    assert(text@.subrange(0, 7) != compact_tag());
                }
                return None;
            }
            i += 1;
        }
        proof {
            assert(text@.subrange(0, 7) =~= compact_tag());
        }
        if text.get_char(n - 1) != ')' {
            return None;
        }
        let m = n - 1;
        let mut p: usize = 7;
        let mut acc: u64 = 0;
        let mut too_big: bool = false;
        while p < m
            invariant
                9 <= n == text@.len(),
                m == n - 1,
                7 <= p <= m,
                forall|j: int| 7 <= j < p ==> is_digit_char(#[trigger] text@[j]),
                p > 7 ==> (text@[7] != '0' || m == 8),
                !too_big ==> acc <= u32::MAX && acc as int == digits_val(
                    text@.subrange(7, p as int),
                ),
                too_big ==> digits_val(text@.subrange(7, p as int)) > u32::MAX,
            decreases m - p,
        {
            let c = text.get_char(p);
            let d = match char_digit(c) {
                Some(d) => d,
                None => {
                    proof {
                        assert(text@.subrange(7, m as int)[p - 7] == text@[p as int]);
                        assert(!is_canonical_digits(text@.subrange(7, m as int)));
                    }
                    return None;
                },
            };
            if p == 7 && d == 0 && m > 8 {
                proof {
                    assert(text@.subrange(7, m as int)[0] == text@[7]);
                    assert(!is_canonical_digits(text@.subrange(7, m as int)));
                }
                return None;
            }
            proof {
                assert(text@.subrange(7, p + 1).drop_last() =~= text@.subrange(7, p as int));
                assert(text@.subrange(7, p + 1).last() == text@[p as int]);
            }
            if too_big {
                proof {
                    lemma_digits_val_upper(text@.subrange(7, p as int));
                }
            } else {
                let next = acc * 10 + (d as u64);
                if next > u32::MAX as u64 {
                    too_big = true;
                } else {
                    acc = next;
                }
            }
            p += 1;
        }
        let ghost digits = text@.subrange(7, m as int);
        proof {
            assert(digits.len() == m - 7 >= 1);
        }
        if too_big {
            return None;
        }
        if acc == 0 {
            return None;
        }
        let h = Handle::new(acc as u32);
        proof {
            assert(parse_compact(text@) == Some(acc as int));
        }
        Some(h)
    }
}

/// Law: parsing the compact text of any index a handle can store yields
/// exactly that index. Serializing a handle and deserializing the text is
/// lossless, up to and including the maximum representable index.
pub proof fn lemma_compact_round_trip(n: int)
    requires
        1 <= n <= u32::MAX,
    ensures
        parse_compact(compact_form(n)) == Some(n),
{
    lemma_dec_digits_canonical(n);
    let s = compact_form(n);
    let digits = dec_digits(n);
    assert(s.len() == digits.len() + 8);
    assert(s.subrange(0, 7) =~= compact_tag());
    assert(s.last() == ')');
    assert(s.subrange(7, s.len() - 1) =~= digits);
}

} // verus!
