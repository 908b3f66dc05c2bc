use vstd::prelude::*;

verus! {

/// The Unicode `White_Space` characters, the set that surrounding-whitespace
/// trimming ignores.
pub open spec fn is_space_char(c: char) -> bool {
    (9 <= c as u32 && c as u32 <= 13)  // tab, line feed, vertical tab, form feed, carriage return
    || c as u32 == 32  // space
    || c as u32 == 0x85  // next line
    || c as u32 == 0xA0  // no-break space
    || c as u32 == 0x1680  // ogham space mark
    || (0x2000 <= c as u32 && c as u32 <= 0x200A)  // en quad .. hair space
    || c as u32 == 0x2028  // line separator
    || c as u32 == 0x2029  // paragraph separator
    || c as u32 == 0x202F  // narrow no-break space
    || c as u32 == 0x205F  // medium mathematical space
    || c as u32 == 0x3000  // ideographic space
}

/// A text is blank when every character is whitespace; the empty text is blank.
pub open spec fn spec_is_blank(s: Seq<char>) -> bool {
    forall|i: int| 0 <= i < s.len() ==> is_space_char(s[i])
}

/// The entry sentinel: exactly the three letters `FIN`, in any letter case,
/// surrounded by nothing but whitespace.
pub open spec fn spec_is_fin(s: Seq<char>) -> bool {
    exists|lo: int|
        #![trigger s[lo]]
        0 <= lo && lo + 3 <= s.len()
        && (forall|i: int| 0 <= i < lo ==> is_space_char(#[trigger] s[i]))
        && (forall|i: int| lo + 3 <= i < s.len() ==> is_space_char(#[trigger] s[i]))
        && (s[lo] == 'F' || s[lo] == 'f')
        && (s[lo + 1] == 'I' || s[lo + 1] == 'i')
        && (s[lo + 2] == 'N' || s[lo + 2] == 'n')
}

/// Compares two string slices by their character sequences.
pub fn str_eq(a: &str, b: &str) -> (r: bool)
    ensures
        r == (a@ == b@),
{
    let owned_a = a.to_owned();
    let owned_b = b.to_owned();
    owned_a == owned_b
}

/// Whitespace test for one character.
pub fn is_space(c: char) -> (r: bool)
    ensures
        r == is_space_char(c),
{
    let u = c as u32;
    (9 <= u && u <= 13) || u == 32 || u == 0x85 || u == 0xA0 || u == 0x1680
        || (0x2000 <= u && u <= 0x200A) || u == 0x2028 || u == 0x2029 || u == 0x202F
        || u == 0x205F || u == 0x3000
}

/// Blank test for a whole text.
pub fn is_blank(s: &str) -> (r: bool)
    ensures
        r == spec_is_blank(s@),
{
    let n = s.unicode_len();
    let mut i: usize = 0;
    while i < n
        invariant
            i <= n,
            n == s@.len(),
            forall|j: int| 0 <= j < i ==> is_space_char(#[trigger] s@[j]),
        decreases n - i,
    {
        if !is_space(s.get_char(i)) {
            return false;
        }
        i += 1;
    }
    true
}

/// Sentinel test: does the text read `FIN` once whitespace around it is ignored?
pub fn is_end_sentinel(s: &str) -> (r: bool)
    ensures
        r == spec_is_fin(s@),
{
    let n = s.unicode_len();
    let mut lo: usize = 0;
    while lo < n && is_space(s.get_char(lo))
        invariant
            lo <= n,
            n == s@.len(),
            forall|j: int| 0 <= j < lo ==> is_space_char(#[trigger] s@[j]),
        decreases n - lo,
    {
        lo += 1;
    }
    if lo == n {
        // Blank input: every candidate start would have to hold a letter
        // where only whitespace stands.
        assert(!spec_is_fin(s@)) by {
            assert(forall|j: int| 0 <= j < s@.len() ==> is_space_char(#[trigger] s@[j]));
            assert(!is_space_char('F'));
            assert(!is_space_char('f'));
        }
        return false;
    }
    let mut hi: usize = n;
    while hi > lo && is_space(s.get_char(hi - 1))
        invariant
            lo <= hi <= n,
            n == s@.len(),
            forall|j: int| hi <= j < n ==> is_space_char(#[trigger] s@[j]),
        decreases hi,
    {
        hi -= 1;
    }
    // s@[lo] and s@[hi - 1] are not whitespace; everything outside lo..hi is.
    assert(!is_space_char(s@[lo as int]));
    assert(hi > lo && !is_space_char(s@[hi - 1]));
    if hi - lo != 3 {
        assert(!spec_is_fin(s@)) by {
            assert(!is_space_char('F'));
            assert(!is_space_char('f'));
            assert(!is_space_char('N'));
            assert(!is_space_char('n'));
            assert forall|l: int|
                #![trigger s@[l]]
                0 <= l && l + 3 <= s@.len()
                && (forall|i: int| 0 <= i < l ==> is_space_char(#[trigger] s@[i]))
                && (forall|i: int| l + 3 <= i < s@.len() ==> is_space_char(#[trigger] s@[i]))
                implies !((s@[l] == 'F' || s@[l] == 'f') && (s@[l + 2] == 'N' || s@[l + 2] == 'n')) by {
                if (s@[l] == 'F' || s@[l] == 'f') && (s@[l + 2] == 'N' || s@[l + 2] == 'n') {
                    // A witness would have to start at the first non-space
                    // character and end at the last one, forcing width 3.
                    assert(l == lo) by {
                        if l < lo {
                            assert(is_space_char(s@[l]));
                        }
                        if l > lo {
                            assert(is_space_char(s@[lo as int]));
                        }
                    }
                    assert(l + 3 == hi) by {
                        if l + 3 < hi {
                            assert(is_space_char(s@[hi - 1]));
                        }
                        if l + 3 > hi {
                            assert(is_space_char(s@[l + 2]));
                        }
                    }
                }
            }
        }
        return false;
    }
    let c0 = s.get_char(lo);
    let c1 = s.get_char(lo + 1);
    let c2 = s.get_char(lo + 2);
    let matched = (c0 == 'F' || c0 == 'f') && (c1 == 'I' || c1 == 'i') && (c2 == 'N' || c2 == 'n');
    proof {
        if matched {
            assert(spec_is_fin(s@)) by {
                let l = lo as int;
                assert(0 <= l && l + 3 <= s@.len()
                    && (forall|i: int| 0 <= i < l ==> is_space_char(#[trigger] s@[i]))
                    && (forall|i: int| l + 3 <= i < s@.len() ==> is_space_char(#[trigger] s@[i]))
                    && (s@[l] == 'F' || s@[l] == 'f')
                    && (s@[l + 1] == 'I' || s@[l + 1] == 'i')
                    && (s@[l + 2] == 'N' || s@[l + 2] == 'n'));
            }
        } else {
            assert(!spec_is_fin(s@)) by {
                assert(!is_space_char('F'));
                assert(!is_space_char('f'));
                assert forall|l: int|
                    #![trigger s@[l]]
                    0 <= l && l + 3 <= s@.len()
                    && (forall|i: int| 0 <= i < l ==> is_space_char(#[trigger] s@[i]))
                    && (forall|i: int| l + 3 <= i < s@.len() ==> is_space_char(#[trigger] s@[i]))
                    implies !((s@[l] == 'F' || s@[l] == 'f')
                        && (s@[l + 1] == 'I' || s@[l + 1] == 'i')
                        && (s@[l + 2] == 'N' || s@[l + 2] == 'n')) by {
                    if (s@[l] == 'F' || s@[l] == 'f') {
                        assert(l == lo) by {
                            if l < lo {
                                assert(is_space_char(s@[l]));
                            }
                            if l > lo {
                                assert(is_space_char(s@[lo as int]));
                            }
                        }
                    }
                }
            }
        }
    }
    matched
}

/// Index of the first occurrence of `c` in `s`; `s.len()` when absent.
pub open spec fn spec_find(s: Seq<char>, c: char) -> int
    decreases s.len(),
{
    if s.len() == 0 {
        0
    } else if s[0] == c {
        0
    } else {
        1 + spec_find(s.drop_first(), c)
    }
}

/// Index of the last occurrence of `c` in `s`; `-1` when absent.
pub open spec fn spec_rfind(s: Seq<char>, c: char) -> int
    decreases s.len(),
{
    if s.len() == 0 {
        -1
    } else if s[s.len() - 1] == c {
        s.len() - 1
    } else {
        spec_rfind(s.drop_last(), c)
    }
}

pub proof fn lemma_find_bounds(s: Seq<char>, c: char)
    ensures
        0 <= spec_find(s, c) <= s.len(),
        spec_find(s, c) < s.len() ==> s[spec_find(s, c)] == c,
        forall|i: int| 0 <= i < spec_find(s, c) ==> s[i] != c,
    decreases s.len(),
{
    if s.len() > 0 && s[0] != c {
        lemma_find_bounds(s.drop_first(), c);
        assert forall|i: int| 0 <= i < spec_find(s, c) implies s[i] != c by {
            if i > 0 {
                assert(s.drop_first()[i - 1] != c);
            }
        }
    }
}

/// `spec_find` is determined by its characterization: everything before `j`
/// misses `c`, and `j` either hits `c` or is the end.
pub proof fn lemma_find_at(s: Seq<char>, c: char, j: int)
    requires
        0 <= j <= s.len(),
        j < s.len() ==> s[j] == c,
        forall|i: int| 0 <= i < j ==> s[i] != c,
    ensures
        spec_find(s, c) == j,
    decreases s.len(),
{
    if s.len() > 0 && s[0] != c {
        lemma_find_at(s.drop_first(), c, j - 1);
    }
}

pub proof fn lemma_rfind_bounds(s: Seq<char>, c: char)
    ensures
        -1 <= spec_rfind(s, c) < s.len(),
        spec_rfind(s, c) >= 0 ==> s[spec_rfind(s, c)] == c,
        forall|i: int| spec_rfind(s, c) < i < s.len() ==> s[i] != c,
    decreases s.len(),
{
    if s.len() > 0 && s[s.len() - 1] != c {
        lemma_rfind_bounds(s.drop_last(), c);
        assert forall|i: int| spec_rfind(s, c) < i < s.len() implies s[i] != c by {
            if i < s.len() - 1 {
                assert(s.drop_last()[i] != c);
            }
        }
    }
}

/// `spec_rfind` is determined by its characterization.
pub proof fn lemma_rfind_at(s: Seq<char>, c: char, j: int)
    requires
        -1 <= j < s.len(),
        j >= 0 ==> s[j] == c,
        forall|i: int| j < i < s.len() ==> s[i] != c,
    ensures
        spec_rfind(s, c) == j,
    decreases s.len(),
{
    if s.len() > 0 && s[s.len() - 1] != c {
        lemma_rfind_at(s.drop_last(), c, j);
    }
}

/// First occurrence of `c`, or the character count when `c` is absent.
pub fn find_char(s: &str, c: char) -> (r: usize)
    ensures
        r == spec_find(s@, c),
{
    let n = s.unicode_len();
    let mut i: usize = 0;
    while i < n
        invariant
            i <= n,
            n == s@.len(),
            forall|j: int| 0 <= j < i ==> s@[j] != c,
        decreases n - i,
    {
        if s.get_char(i) == c {
            proof {
                lemma_find_at(s@, c, i as int);
            }
            return i;
        }
        i += 1;
    }
    proof {
        lemma_find_at(s@, c, n as int);
    }
    n
}

/// Last occurrence of `c`, or `None` when `c` is absent.
pub fn rfind_char(s: &str, c: char) -> (r: Option<usize>)
    ensures
        match r {
            Some(j) => spec_rfind(s@, c) == j,
            None => spec_rfind(s@, c) == -1,
        },
{
    let n = s.unicode_len();
    let mut i: usize = n;
    while i > 0
        invariant
            i <= n,
            n == s@.len(),
            forall|j: int| i <= j < n ==> s@[j] != c,
        decreases i,
    {
        i -= 1;
        if s.get_char(i) == c {
            proof {
                lemma_rfind_at(s@, c, i as int);
            }
            return Some(i);
        }
    }
    proof {
        lemma_rfind_at(s@, c, -1);
    }
    None
}

/// An owned copy of the characters of `s` from `from` (inclusive) to `to`
/// (exclusive).
pub fn substring_copy(s: &str, from: usize, to: usize) -> (r: String)
    requires
        from <= to <= s@.len(),
    ensures
        r@ == s@.subrange(from as int, to as int),
{
    let piece = s.substring_char(from, to);
    piece.to_owned()
}

/// The character a decimal digit is written with.
pub open spec fn spec_digit_char(d: int) -> char {
    if d == 0 { '0' }
    else if d == 1 { '1' }
    else if d == 2 { '2' }
    else if d == 3 { '3' }
    else if d == 4 { '4' }
    else if d == 5 { '5' }
    else if d == 6 { '6' }
    else if d == 7 { '7' }
    else if d == 8 { '8' }
    else { '9' }
}

pub open spec fn is_digit_char(c: char) -> bool {
    c == '0' || c == '1' || c == '2' || c == '3' || c == '4' || c == '5' || c == '6' || c == '7'
        || c == '8' || c == '9'
}

/// Decimal digit test for one character.
pub fn is_digit(c: char) -> (r: bool)
    ensures
        r == is_digit_char(c),
{
    c == '0' || c == '1' || c == '2' || c == '3' || c == '4' || c == '5' || c == '6' || c == '7'
        || c == '8' || c == '9'
}

/// The value a decimal digit character stands for; `0` for anything else.
pub open spec fn spec_digit_val(c: char) -> int {
    if c == '1' { 1 }
    else if c == '2' { 2 }
    else if c == '3' { 3 }
    else if c == '4' { 4 }
    else if c == '5' { 5 }
    else if c == '6' { 6 }
    else if c == '7' { 7 }
    else if c == '8' { 8 }
    else if c == '9' { 9 }
    else { 0 }
}

/// The usual decimal rendering of a number, most significant digit first,
/// no leading zero except for the number zero itself.
pub open spec fn spec_decimal(n: nat) -> Seq<char>
    decreases n,
{
    if n < 10 {
        seq![spec_digit_char(n as int)]
    } else {
        spec_decimal(n / 10).push(spec_digit_char((n % 10) as int))
    }
}

/// The number a string of decimal digits stands for, most significant first.
pub open spec fn spec_digits_val(s: Seq<char>) -> int
    decreases s.len(),
{
    if s.len() == 0 {
        0
    } else {
        spec_digits_val(s.drop_last()) * 10 + spec_digit_val(s.last())
    }
}

pub proof fn lemma_digits_val_nonneg(s: Seq<char>)
    ensures
        spec_digits_val(s) >= 0,
    decreases s.len(),
{
    if s.len() > 0 {
        lemma_digits_val_nonneg(s.drop_last());
    }
}

proof fn lemma_digit_round(d: int)
    requires
        0 <= d < 10,
    ensures
        spec_digit_val(spec_digit_char(d)) == d,
{
}

/// Reading back a decimal rendering yields the number it was made from,
/// and the rendering consists of digits alone.
pub proof fn lemma_decimal_val(n: nat)
    ensures
        spec_digits_val(spec_decimal(n)) == n,
        spec_decimal(n).len() >= 1,
        forall|i: int| 0 <= i < spec_decimal(n).len() ==> is_digit_char(#[trigger] spec_decimal(n)[i]),
    decreases n,
{
    if n < 10 {
        lemma_digit_round(n as int);
        assert(spec_decimal(n).drop_last() =~= Seq::<char>::empty());
        assert(spec_decimal(n).last() == spec_digit_char(n as int));
        assert(spec_digits_val(spec_decimal(n)) == spec_digits_val(spec_decimal(n).drop_last()) * 10 + spec_digit_val(spec_decimal(n).last()));
        assert(spec_digits_val(spec_decimal(n)) == n);
    } else {
        lemma_decimal_val(n / 10);
        lemma_digit_round((n % 10) as int);
        assert(spec_decimal(n).drop_last() =~= spec_decimal(n / 10));
        assert(spec_decimal(n).last() == spec_digit_char((n % 10) as int));
        assert(spec_digits_val(spec_decimal(n)) == (n / 10) * 10 + n % 10);
        vstd::arithmetic::div_mod::lemma_fundamental_div_mod(n as int, 10);
        assert(spec_digits_val(spec_decimal(n)) == n);
    }
}

pub(crate) fn digit_str(d: usize) -> (r: &'static str)
    requires
        d < 10,
    ensures
        r@ =~= seq![spec_digit_char(d as int)],
{
    proof {
        reveal_strlit("0");
        reveal_strlit("1");
        reveal_strlit("2");
        reveal_strlit("3");
        reveal_strlit("4");
        reveal_strlit("5");
        reveal_strlit("6");
        reveal_strlit("7");
        reveal_strlit("8");
        reveal_strlit("9");
    }
    match d {
        0 => "0",
        1 => "1",
        2 => "2",
        3 => "3",
        4 => "4",
        5 => "5",
        6 => "6",
        7 => "7",
        8 => "8",
        _ => "9",
    }
}

/// Renders a number in decimal.
pub fn to_decimal(n: usize) -> (r: String)
    ensures
        r@ == spec_decimal(n as nat),
    decreases n,
{
    if n < 10 {
        digit_str(n).to_owned()
    } else {
        let mut prefix = to_decimal(n / 10);
        prefix.append(digit_str(n % 10));
        proof {
            assert(prefix@ =~= spec_decimal(n as nat));
        }
        prefix
    }
}

} // verus!

