use vstd::prelude::*;

use crate::error::Error;

verus! {

pub open spec fn is_upper(c: char) -> bool {
    'A' <= c && c <= 'Z'
}

pub open spec fn is_digit(c: char) -> bool {
    '0' <= c && c <= '9'
}

/// The letter that stands for `d` in `0..26`.
pub open spec fn letter_of(d: int) -> char {
    ((65 + d) as u8) as char
}

/// The decimal digit character for `d` in `0..10`.
pub open spec fn digit_of(d: int) -> char {
    ((48 + d) as u8) as char
}

/// Value of a run of column letters in bijective base 26 (A = 1, Z = 26,
/// AA = 27).
pub open spec fn letters_value(s: Seq<char>) -> nat
    decreases s.len(),
{
    if s.len() == 0 {
        0
    } else {
        letters_value(s.drop_last()) * 26 + ((s.last() as int - 64) as nat)
    }
}

/// Value of a run of decimal digits.
pub open spec fn digits_value(s: Seq<char>) -> nat
    decreases s.len(),
{
    if s.len() == 0 {
        0
    } else {
        digits_value(s.drop_last()) * 10 + ((s.last() as int - 48) as nat)
    }
}

/// The column letters of the 0-based column `c` ("A" for 0, "AA" for 26).
pub open spec fn col_letters(c: nat) -> Seq<char>
    decreases c,
{
    if c < 26 {
        seq![letter_of(c as int)]
    } else {
        col_letters((c / 26 - 1) as nat).push(letter_of((c % 26) as int))
    }
}

/// The decimal digits of `n`, without leading zeros.
pub open spec fn decimal(n: nat) -> Seq<char>
    decreases n,
{
    if n < 10 {
        seq![digit_of(n as int)]
    } else {
        decimal(n / 10).push(digit_of((n % 10) as int))
    }
}

/// `s` splits at `k` into column letters and a row number without a
/// leading zero.
pub open spec fn is_address_split(s: Seq<char>, k: int) -> bool {
    &&& 0 < k < s.len()
    &&& forall|i: int| 0 <= i < k ==> is_upper(#[trigger] s[i])
    &&& forall|i: int| k <= i < s.len() ==> is_digit(#[trigger] s[i])
    &&& s[k] != '0'
}

/// `s` matches `[A-Z]+[1-9][0-9]*`.
pub open spec fn is_address(s: Seq<char>) -> bool {
    exists|k: int| is_address_split(s, k)
}

/// The 0-based (row, column) that an address stands for.
pub open spec fn index_of(s: Seq<char>) -> (nat, nat)
    recommends
        is_address(s),
{
    let k = choose|k: int| is_address_split(s, k);
    (
        (digits_value(s.subrange(k, s.len() as int)) - 1) as nat,
        (letters_value(s.subrange(0, k)) - 1) as nat,
    )
}

/// An address whose row and column fit the machine's index type.
pub open spec fn is_representable_address(s: Seq<char>) -> bool {
    is_address(s) && index_of(s).0 < usize::MAX && index_of(s).1 < usize::MAX
}

/// The textual address of the 0-based (row, col).
pub open spec fn address_of(row: nat, col: nat) -> Seq<char> {
    col_letters(col) + decimal(row + 1)
}

/// A cell given either by its 0-based (row, col) or by its textual address.
#[derive(Debug)]
pub enum CellAddr {
    Idx((usize, usize)),
    Name(String),
}

/// Relies on String::push: the character is appended.
#[verifier::external_body]
pub(crate) fn push_char(s: &mut String, c: char)
    ensures
        final(s)@ == old(s)@.push(c),
{
    s.push(c)
}

fn push_col_letters(s: &mut String, c: usize)
    ensures
        final(s)@ == old(s)@ + col_letters(c as nat),
    decreases c,
{
    if c >= 26 {
        push_col_letters(s, c / 26 - 1);
    }
    let d: u8 = (c % 26) as u8;
    push_char(s, (65 + d) as char);
    proof {
        assert(old(s)@ + col_letters(c as nat) =~= final(s)@) by {
            reveal_with_fuel(col_letters, 2);
        }
    }
}

pub(crate) fn push_decimal(s: &mut String, n: u128)
    ensures
        final(s)@ == old(s)@ + decimal(n as nat),
    decreases n,
{
    if n >= 10 {
        push_decimal(s, n / 10);
    }
    let d: u8 = (n % 10) as u8;
    push_char(s, (48 + d) as char);
    proof {
        assert(old(s)@ + decimal(n as nat) =~= final(s)@) by {
            reveal_with_fuel(decimal, 2);
        }
    }
}

proof fn lemma_letters_value_push(s: Seq<char>, c: char)
    ensures
        letters_value(s.push(c)) == letters_value(s) * 26 + ((c as int - 64) as nat),
{
    assert(s.push(c).drop_last() =~= s);
}

proof fn lemma_digits_value_push(s: Seq<char>, c: char)
    ensures
        digits_value(s.push(c)) == digits_value(s) * 10 + ((c as int - 48) as nat),
{
    assert(s.push(c).drop_last() =~= s);
}

impl CellAddr {
    /// The 0-based (row, col) of this cell, if it has one.
    pub open spec fn as_idx_spec(&self) -> Option<(int, int)> {
        match self {
            CellAddr::Idx((row, col)) => Some((*row as int, *col as int)),
            CellAddr::Name(name) => if is_representable_address(name@) {
                Some((index_of(name@).0 as int, index_of(name@).1 as int))
            } else {
                None
            },
        }
    }

    /// The 0-based (row, col) of this cell.
    pub fn as_idx(&self) -> (r: Result<(usize, usize), Error>)
        ensures
            match self {
                CellAddr::Idx(idx) => r == Ok::<(usize, usize), Error>(*idx),
                CellAddr::Name(name) => match r {
                    Ok((row, col)) => is_representable_address(name@) && index_of(name@) == (
                        row as nat,
                        col as nat,
                    ),
                    Err(e) => e is InvalidAddress && !is_representable_address(name@),
                },
            },
    {
        match self {
            CellAddr::Idx(idx) => Ok(*idx),
            CellAddr::Name(name) => address_to_index(name),
        }
    }

    /// The textual address of this cell.
    pub fn as_addr(&self) -> (r: String)
        ensures
            match self {
                CellAddr::Idx((row, col)) => r@ == address_of(*row as nat, *col as nat),
                CellAddr::Name(name) => r@ == name@,
            },
    {
        match self {
            CellAddr::Idx((row, col)) => index_to_address(*row, *col),
            CellAddr::Name(name) => name.clone(),
        }
    }
}

/// The first position in `s` that holds a digit, or its length.
fn first_digit(s: &str) -> (k: usize)
    ensures
        k <= s@.len(),
        forall|i: int| 0 <= i < k ==> !is_digit(#[trigger] s@[i]),
        k < s@.len() ==> is_digit(s@[k as int]),
{
    let n = s.unicode_len();
    let mut k: usize = 0;
    while k < n
        invariant
            n == s@.len(),
            k <= n,
            forall|i: int| 0 <= i < k ==> !is_digit(#[trigger] s@[i]),
        decreases n - k,
    {
        let c = s.get_char(k);
        if '0' <= c && c <= '9' {
            return k;
        }
        k = k + 1;
    }
    k
}

proof fn lemma_split_unique(s: Seq<char>, k1: int, k2: int)
    requires
        is_address_split(s, k1),
        is_address_split(s, k2),
    ensures
        k1 == k2,
{
    if k1 < k2 {
        assert(is_digit(s[k1]));
        assert(is_upper(s[k1]));
    } else if k2 < k1 {
        assert(is_digit(s[k2]));
        assert(is_upper(s[k2]));
    }
}

proof fn lemma_index_of_split(s: Seq<char>, k: int)
    requires
        is_address_split(s, k),
    ensures
        is_address(s),
        index_of(s) == (
            (digits_value(s.subrange(k, s.len() as int)) - 1) as nat,
            (letters_value(s.subrange(0, k)) - 1) as nat,
        ),
{
    let k2 = choose|k2: int| is_address_split(s, k2);
    lemma_split_unique(s, k, k2);
}

/// Converts a textual address such as "B10" to its 0-based (row, col).
pub fn address_to_index(name: &String) -> (r: Result<(usize, usize), Error>)
    ensures
        match r {
            Ok((row, col)) => is_representable_address(name@) && index_of(name@) == (
                row as nat,
                col as nat,
            ),
            Err(e) => e is InvalidAddress && !is_representable_address(name@),
        },
{
    let s = name.as_str();
    let n = s.unicode_len();
    let k = first_digit(s);
    if k == 0 || k == n || s.get_char(k) == '0' {
        proof {
            if is_address(s@) {
                lemma_split_at_first_digit(s@, k as int);
            }
        }
        return Err(Error::InvalidAddress(name.clone()));
    }
    let mut col: usize = 0;
    let mut i: usize = 0;
    while i < k
        invariant
            n == s@.len(),
            s@ == name@,
            0 < k < n,
            i <= k,
            forall|j: int| 0 <= j < k ==> !is_digit(#[trigger] s@[j]),
            is_digit(s@[k as int]),
            forall|j: int| 0 <= j < i ==> is_upper(#[trigger] s@[j]),
            col as nat == letters_value(s@.subrange(0, i as int)),
        decreases k - i,
    {
        let c = s.get_char(i);
        if !('A' <= c && c <= 'Z') {
            proof {
                if is_address(s@) {
                    lemma_split_at_first_digit(s@, k as int);
                }
            }
            return Err(Error::InvalidAddress(name.clone()));
        }
        let d: usize = (c as u32 - 64) as usize;
        proof {
            assert(s@.subrange(0, i as int + 1) =~= s@.subrange(0, i as int).push(c));
            lemma_letters_value_push(s@.subrange(0, i as int), c);
        }
        let next = match col.checked_mul(26) {
            Some(m) => m.checked_add(d),
            None => None,
        };
        match next {
            Some(v) => {
                col = v;
            },
            None => {
                proof {
                    if is_address(s@) {
                        lemma_split_at_first_digit(s@, k as int);
                        lemma_letters_mono(s@, i as int + 1, k as int);
                    }
                }
                return Err(Error::InvalidAddress(name.clone()));
            },
        }
        i = i + 1;
    }
    let mut row: usize = 0;
    let mut i: usize = k;
    while i < n
        invariant
            n == s@.len(),
            s@ == name@,
            0 < k < n,
            k <= i <= n,
            forall|j: int| 0 <= j < k ==> !is_digit(#[trigger] s@[j]),
            forall|j: int| 0 <= j < k ==> is_upper(#[trigger] s@[j]),
            forall|j: int| k <= j < i ==> is_digit(#[trigger] s@[j]),
            is_digit(s@[k as int]),
            s@[k as int] != '0',
            col as nat == letters_value(s@.subrange(0, k as int)),
            row as nat == digits_value(s@.subrange(k as int, i as int)),
        decreases n - i,
    {
        let c = s.get_char(i);
        if !('0' <= c && c <= '9') {
            proof {
                if is_address(s@) {
                    lemma_split_at_first_digit(s@, k as int);
                }
            }
            return Err(Error::InvalidAddress(name.clone()));
        }
        let d: usize = (c as u32 - 48) as usize;
        proof {
            assert(s@.subrange(k as int, i as int + 1) =~= s@.subrange(k as int, i as int).push(
                c,
            ));
            lemma_digits_value_push(s@.subrange(k as int, i as int), c);
        }
        let next = match row.checked_mul(10) {
            Some(m) => m.checked_add(d),
            None => None,
        };
        match next {
            Some(v) => {
                row = v;
            },
            None => {
                proof {
                    if is_address(s@) {
                        lemma_split_at_first_digit(s@, k as int);
                        lemma_digits_mono(s@, k as int, i as int + 1);
                    }
                }
                return Err(Error::InvalidAddress(name.clone()));
            },
        }
        i = i + 1;
    }
    proof {
        assert(is_address_split(s@, k as int));
        lemma_split_at_first_digit(s@, k as int);
        lemma_letters_mono(s@, 1, k as int);
        lemma_digits_mono(s@, k as int, k as int + 1);
        assert(s@.subrange(0, 0).push(s@[0]) =~= s@.subrange(0, 1));
        lemma_letters_value_push(s@.subrange(0, 0), s@[0]);
        assert(s@.subrange(k as int, k as int).push(s@[k as int]) =~= s@.subrange(
            k as int,
            k as int + 1,
        ));
        lemma_digits_value_push(s@.subrange(k as int, k as int), s@[k as int]);
    }
    Ok((row - 1, col - 1))
}

/// The split of an address is at its first digit.
proof fn lemma_split_at_first_digit(s: Seq<char>, k: int)
    requires
        0 <= k <= s.len(),
        forall|j: int| 0 <= j < k ==> !is_digit(#[trigger] s[j]),
        k < s.len() ==> is_digit(s[k]),
        is_address(s),
    ensures
        is_address_split(s, k),
        index_of(s) == (
            (digits_value(s.subrange(k, s.len() as int)) - 1) as nat,
            (letters_value(s.subrange(0, k)) - 1) as nat,
        ),
{
    let k2 = choose|k2: int| is_address_split(s, k2);
    if k2 < k {
        assert(is_digit(s[k2]));
    } else if k < k2 {
        assert(is_upper(s[k]));
    }
}

/// Adding column letters never lowers the value.
proof fn lemma_letters_mono(s: Seq<char>, a: int, b: int)
    requires
        0 <= a <= b <= s.len(),
        forall|j: int| 0 <= j < b ==> is_upper(#[trigger] s[j]),
    ensures
        letters_value(s.subrange(0, a)) <= letters_value(s.subrange(0, b)),
    decreases b - a,
{
    if a < b {
        lemma_letters_mono(s, a, b - 1);
        assert(s.subrange(0, b) =~= s.subrange(0, b - 1).push(s[b - 1]));
        lemma_letters_value_push(s.subrange(0, b - 1), s[b - 1]);
    }
}

/// Adding digits never lowers the value.
proof fn lemma_digits_mono(s: Seq<char>, k: int, a: int)
    requires
        0 <= k <= a <= s.len(),
        forall|j: int| k <= j < s.len() ==> is_digit(#[trigger] s[j]),
    ensures
        digits_value(s.subrange(k, a)) <= digits_value(s.subrange(k, s.len() as int)),
    decreases s.len() - a,
{
    if a < s.len() {
        lemma_digits_mono(s, k, a + 1);
        assert(s.subrange(k, a + 1) =~= s.subrange(k, a).push(s[a]));
        lemma_digits_value_push(s.subrange(k, a), s[a]);
    }
}

/// Converts a 0-based (row, col) to its textual address, such as "B10".
pub fn index_to_address(row: usize, col: usize) -> (r: String)
    ensures
        r@ == address_of(row as nat, col as nat),
{
    let mut s = String::new();
    push_col_letters(&mut s, col);
    push_decimal(&mut s, row as u128 + 1);
    s
}

proof fn lemma_col_letters(c: nat)
    ensures
        col_letters(c).len() >= 1,
        forall|i: int| 0 <= i < col_letters(c).len() ==> is_upper(#[trigger] col_letters(c)[i]),
        letters_value(col_letters(c)) == c + 1,
    decreases c,
{
    if c >= 26 {
        let p = (c / 26 - 1) as nat;
        lemma_col_letters(p);
        lemma_letters_value_push(col_letters(p), letter_of((c % 26) as int));
        assert(letter_of((c % 26) as int) as int == 65 + c % 26);
        assert(c == (c / 26) * 26 + c % 26) by (nonlinear_arith);
    } else {
        lemma_letters_value_push(Seq::empty(), letter_of(c as int));
        assert(Seq::<char>::empty().push(letter_of(c as int)) =~= col_letters(c));
    }
}

proof fn lemma_decimal(n: nat)
    requires
        n >= 1,
    ensures
        decimal(n).len() >= 1,
        forall|i: int| 0 <= i < decimal(n).len() ==> is_digit(#[trigger] decimal(n)[i]),
        decimal(n)[0] != '0',
        digits_value(decimal(n)) == n,
    decreases n,
{
    if n >= 10 {
        let p = n / 10;
        lemma_decimal(p);
        lemma_digits_value_push(decimal(p), digit_of((n % 10) as int));
        assert(digit_of((n % 10) as int) as int == 48 + n % 10);
        assert(n == (n / 10) * 10 + n % 10) by (nonlinear_arith);
    } else {
        lemma_digits_value_push(Seq::empty(), digit_of(n as int));
        assert(Seq::<char>::empty().push(digit_of(n as int)) =~= decimal(n));
    }
}

proof fn lemma_letters_inverse(l: Seq<char>)
    requires
        l.len() >= 1,
        forall|i: int| 0 <= i < l.len() ==> is_upper(#[trigger] l[i]),
    ensures
        letters_value(l) >= 1,
        col_letters((letters_value(l) - 1) as nat) == l,
    decreases l.len(),
{
    let p = l.drop_last();
    let x = l.last();
    assert(l =~= p.push(x));
    lemma_letters_value_push(p, x);
    let d = x as int - 64;
    if l.len() == 1 {
        assert(p.len() == 0);
        assert(letters_value(p) == 0);
        assert(col_letters((d - 1) as nat) =~= l);
    } else {
        lemma_letters_inverse(p);
        let v = letters_value(p);
        let c = (v * 26 + d - 1) as nat;
        assert(c / 26 == v && c % 26 == d - 1) by (nonlinear_arith)
            requires
                c == v * 26 + d - 1,
                1 <= d <= 26,
                v >= 1,
        ;
        assert(col_letters(c) =~= l);
    }
}

proof fn lemma_decimal_inverse(s: Seq<char>)
    requires
        s.len() >= 1,
        forall|i: int| 0 <= i < s.len() ==> is_digit(#[trigger] s[i]),
        s[0] != '0',
    ensures
        digits_value(s) >= 1,
        decimal(digits_value(s)) == s,
    decreases s.len(),
{
    let p = s.drop_last();
    let x = s.last();
    assert(s =~= p.push(x));
    lemma_digits_value_push(p, x);
    let d = x as int - 48;
    if s.len() == 1 {
        assert(p.len() == 0);
        assert(digits_value(p) == 0);
        assert(decimal(d as nat) =~= s);
    } else {
        assert(p[0] == s[0]);
        lemma_decimal_inverse(p);
        let v = digits_value(p);
        let n = (v * 10 + d) as nat;
        assert(n / 10 == v && n % 10 == d) by (nonlinear_arith)
            requires
                n == v * 10 + d,
                0 <= d <= 9,
                v >= 1,
        ;
        assert(decimal(n) =~= s);
    }
}

/// Reading back the address of a (row, col) gives that (row, col).
pub proof fn lemma_index_of_address_of(row: nat, col: nat)
    ensures
        is_address(address_of(row, col)),
        index_of(address_of(row, col)) == (row, col),
{
    let l = col_letters(col);
    let d = decimal(row + 1);
    let s = address_of(row, col);
    lemma_col_letters(col);
    lemma_decimal(row + 1);
    let k = l.len() as int;
    assert(forall|i: int| 0 <= i < k ==> s[i] == l[i]);
    assert(forall|i: int| k <= i < s.len() ==> s[i] == d[i - k]);
    assert(is_address_split(s, k));
    lemma_index_of_split(s, k);
    assert(s.subrange(0, k) =~= l);
    assert(s.subrange(k, s.len() as int) =~= d);
}

/// Writing out the (row, col) of a well-formed address gives that address
/// back.
pub proof fn lemma_address_of_index_of(s: Seq<char>)
    requires
        is_address(s),
    ensures
        address_of(index_of(s).0, index_of(s).1) == s,
{
    let k = choose|k: int| is_address_split(s, k);
    lemma_index_of_split(s, k);
    let l = s.subrange(0, k);
    let d = s.subrange(k, s.len() as int);
    assert(forall|i: int| 0 <= i < l.len() ==> l[i] == s[i]);
    assert(forall|i: int| 0 <= i < d.len() ==> d[i] == s[k + i]);
    lemma_letters_inverse(l);
    lemma_decimal_inverse(d);
    assert(l + d =~= s);
}

} // verus!
