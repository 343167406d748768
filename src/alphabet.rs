//! Passwords drawn from a fixed printable alphabet until they hold a digit,
//! an uppercase letter, a lowercase letter and a symbol.
use crate::utils::{index_at, push_char, CredError, IndexGen};
use vstd::prelude::*;

verus! {

/// The number of characters in the alphabet.
pub const ALPHABET_LEN: u32 = 82;

/// The most passwords drawn before giving up.
pub const MAX_ATTEMPTS: u32 = 10000;

/// What `char::is_uppercase` says of a character.
pub uninterp spec fn upper_char(c: char) -> bool;

/// What `char::is_lowercase` says of a character.
pub uninterp spec fn lower_char(c: char) -> bool;

/// What `char::is_alphanumeric` says of a character.
pub uninterp spec fn alnum_char(c: char) -> bool;

/// Relies on `char::is_uppercase`: the Unicode `Uppercase` property, which
/// among ASCII characters holds `A` to `Z` alone.
#[verifier::external_body]
fn is_uppercase(c: char) -> (r: bool)
    ensures
        r == upper_char(c),
        (c as u32) < 128 ==> (r <==> 'A' <= c <= 'Z'),
{
    c.is_uppercase()
}

/// Relies on `char::is_lowercase`: the Unicode `Lowercase` property, which
/// among ASCII characters holds `a` to `z` alone.
#[verifier::external_body]
fn is_lowercase(c: char) -> (r: bool)
    ensures
        r == lower_char(c),
        (c as u32) < 128 ==> (r <==> 'a' <= c <= 'z'),
{
    c.is_lowercase()
}

/// Relies on `char::is_alphanumeric`: alphabetic or numeric, which among
/// ASCII characters holds the letters and the digits alone.
#[verifier::external_body]
fn is_alphanumeric(c: char) -> (r: bool)
    ensures
        r == alnum_char(c),
        (c as u32) < 128 ==> (r <==> ('0' <= c <= '9' || 'A' <= c <= 'Z' || 'a' <= c <= 'z')),
{
    c.is_alphanumeric()
}

/// The byte of the alphabet at index `i`: the digits, the symbols `!` to `&`,
/// `(` to `.` and `:` to `@`, the capitals, then the small letters.
pub open spec fn alphabet_byte(i: int) -> u8 {
    if i < 10 {
        (48 + i) as u8
    } else if i < 16 {
        (23 + i) as u8
    } else if i < 23 {
        (24 + i) as u8
    } else if i < 56 {
        (35 + i) as u8
    } else {
        (41 + i) as u8
    }
}

pub open spec fn alphabet_char(i: int) -> char {
    alphabet_byte(i) as char
}

/// A character of the alphabet.
pub open spec fn in_alphabet(c: char) -> bool {
    exists|i: int| 0 <= i < ALPHABET_LEN && alphabet_char(i) == c
}

/// The password drawn from `length` words of the stream of `seed` from `pos` on.
pub open spec fn attempt(seed: u64, pos: nat, length: nat) -> Seq<char> {
    Seq::new(length, |i: int| alphabet_char(index_at(seed, (pos + i) as nat, ALPHABET_LEN) as int))
}

/// The password of the `k`-th try, each try taking `length` draws from `pos` on.
pub open spec fn attempt_k(seed: u64, pos: nat, length: nat, k: nat) -> Seq<char> {
    attempt(seed, pos + k * length, length)
}

/// A decimal digit.
pub open spec fn is_digit(c: char) -> bool {
    '0' <= c <= '9'
}

/// Every character of `s` is ASCII.
pub open spec fn all_ascii(s: Seq<char>) -> bool {
    forall|i: int| 0 <= i < s.len() ==> (#[trigger] s[i] as u32) < 128
}

/// The password holds a decimal digit, an uppercase letter, a lowercase
/// letter and a character that is neither letter nor digit.
pub open spec fn meets_reqs(s: Seq<char>) -> bool {
    &&& exists|i: int| 0 <= i < s.len() && is_digit(#[trigger] s[i])
    &&& exists|i: int| 0 <= i < s.len() && upper_char(#[trigger] s[i])
    &&& exists|i: int| 0 <= i < s.len() && lower_char(#[trigger] s[i])
    &&& exists|i: int| 0 <= i < s.len() && !alnum_char(#[trigger] s[i])
}

/// The requirements as they read on ASCII text: a digit, a capital, a small
/// letter, and a character that is none of these.
pub open spec fn ascii_meets_reqs(s: Seq<char>) -> bool {
    &&& exists|i: int| 0 <= i < s.len() && is_digit(#[trigger] s[i])
    &&& exists|i: int| 0 <= i < s.len() && 'A' <= #[trigger] s[i] <= 'Z'
    &&& exists|i: int| 0 <= i < s.len() && 'a' <= #[trigger] s[i] <= 'z'
    &&& exists|i: int|
        0 <= i < s.len() && !(is_digit(#[trigger] s[i]) || 'A' <= s[i] <= 'Z' || 'a' <= s[i] <= 'z')
}

/// The character of the alphabet at `index`.
fn valid_char(index: usize) -> (c: char)
    requires
        index < ALPHABET_LEN,
    ensures
        c == alphabet_char(index as int),
{
    let i = index as u8;
    let b: u8 = if i < 10 {
        48 + i
    } else if i < 16 {
        23 + i
    } else if i < 23 {
        24 + i
    } else if i < 56 {
        35 + i
    } else {
        41 + i
    };
    b as char
}

/// Builds passwords from a seeded index generator.
pub struct Alphabet {
    pub ig: IndexGen,
    pub pw: String,
}

impl Alphabet {
    pub open spec fn seed(&self) -> u64 {
        self.ig.seed()
    }

    pub open spec fn pos(&self) -> nat {
        self.ig.pos()
    }

    /// The last password built.
    pub open spec fn password(&self) -> Seq<char> {
        self.pw@
    }

    pub fn new(seed: u64) -> (a: Alphabet)
        ensures
            a.seed() == seed,
            a.pos() == 0,
            a.password() == Seq::<char>::empty(),
    {
        Alphabet { ig: IndexGen::new(seed), pw: String::new() }
    }

    /// Draws `length` characters of the alphabet, in draw order.
    pub fn create_pw(&mut self, length: u32) -> (r: String)
        ensures
            r@ == attempt(old(self).seed(), old(self).pos(), length as nat),
            final(self).seed() == old(self).seed(),
            final(self).pos() == old(self).pos() + length,
            final(self).password() == old(self).password(),
    {
        let mut out_str = String::new();
        let mut i: u32 = 0;
        while i < length
            invariant
                i <= length,
                self.seed() == old(self).seed(),
                self.pos() == old(self).pos() + i,
                self.password() == old(self).password(),
                out_str@ == attempt(old(self).seed(), old(self).pos(), i as nat),
            decreases length - i,
        {
            let index = self.ig.gen_index(ALPHABET_LEN);
            let my_char = valid_char(index);
            push_char(&mut out_str, my_char);
            i += 1;
            assert(out_str@ =~= attempt(old(self).seed(), old(self).pos(), i as nat));
        }
        out_str
    }

    /// Whether the password holds a decimal digit, an uppercase letter, a
    /// lowercase letter and a character that is neither letter nor digit.
    /// On ASCII text the classes are disjoint, so fewer than four characters
    /// never pass.
    pub fn check_pw_reqs(pw: &str) -> (r: bool)
        ensures
            r == meets_reqs(pw@),
            all_ascii(pw@) ==> (r == ascii_meets_reqs(pw@)),
            all_ascii(pw@) && pw@.len() < 4 ==> !r,
    {
        let n = pw.unicode_len();
        let mut digit = false;
        let mut upper = false;
        let mut lower = false;
        let mut symbol = false;
        let mut i: usize = 0;
        while i < n
            invariant
                n == pw@.len(),
                i <= n,
                digit == exists|j: int| 0 <= j < i && is_digit(#[trigger] pw@[j]),
                upper == exists|j: int| 0 <= j < i && upper_char(#[trigger] pw@[j]),
                lower == exists|j: int| 0 <= j < i && lower_char(#[trigger] pw@[j]),
                symbol == exists|j: int| 0 <= j < i && !alnum_char(#[trigger] pw@[j]),
                forall|j: int|
                    0 <= j < i && (#[trigger] pw@[j] as u32) < 128 ==> {
                        &&& (upper_char(pw@[j]) <==> 'A' <= pw@[j] <= 'Z')
                        &&& (lower_char(pw@[j]) <==> 'a' <= pw@[j] <= 'z')
                        &&& (alnum_char(pw@[j]) <==> (is_digit(pw@[j]) || 'A' <= pw@[j] <= 'Z'
                            || 'a' <= pw@[j] <= 'z'))
                    },
            decreases n - i,
        {
            let c = pw.get_char(i);
            let is_u = is_uppercase(c);
            let is_l = is_lowercase(c);
            let is_a = is_alphanumeric(c);
            digit = digit || ('0' <= c && c <= '9');
            upper = upper || is_u;
            lower = lower || is_l;
            symbol = symbol || !is_a;
            i += 1;
        }
        proof {
            let s = pw@;
            if all_ascii(s) {
                assert(meets_reqs(s) == ascii_meets_reqs(s)) by {
                    if meets_reqs(s) {
                        let b = choose|j: int| 0 <= j < s.len() && upper_char(#[trigger] s[j]);
                        let c = choose|j: int| 0 <= j < s.len() && lower_char(#[trigger] s[j]);
                        let d = choose|j: int| 0 <= j < s.len() && !alnum_char(#[trigger] s[j]);
                        assert((s[b] as u32) < 128 && (s[c] as u32) < 128 && (s[d] as u32) < 128);
                    }
                    if ascii_meets_reqs(s) {
                        let b = choose|j: int| 0 <= j < s.len() && 'A' <= #[trigger] s[j] <= 'Z';
                        let c = choose|j: int| 0 <= j < s.len() && 'a' <= #[trigger] s[j] <= 'z';
                        let d = choose|j: int|
                            0 <= j < s.len() && !(is_digit(#[trigger] s[j]) || 'A' <= s[j] <= 'Z'
                                || 'a' <= s[j] <= 'z');
                        assert((s[b] as u32) < 128 && (s[c] as u32) < 128 && (s[d] as u32) < 128);
                    }
                }
                if ascii_meets_reqs(s) {
                    let a = choose|j: int| 0 <= j < s.len() && is_digit(#[trigger] s[j]);
                    let b = choose|j: int| 0 <= j < s.len() && 'A' <= #[trigger] s[j] <= 'Z';
                    let c = choose|j: int| 0 <= j < s.len() && 'a' <= #[trigger] s[j] <= 'z';
                    let d = choose|j: int|
                        0 <= j < s.len() && !(is_digit(#[trigger] s[j]) || 'A' <= s[j] <= 'Z' || 'a'
                            <= s[j] <= 'z');
                    assert(a != b && a != c && a != d && b != c && b != d && c != d);
                    assert(s.len() >= 4);
                }
            }
        }
        digit && upper && lower && symbol
    }

    /// Draws passwords of `length` characters until one meets the
    /// requirements, and stores it in `pw`. Lengths below four cannot meet
    /// them and are refused; after `MAX_ATTEMPTS` failed tries it gives up.
    pub fn make_password(&mut self, length: u32) -> (r: Result<(), CredError>)
        ensures
            final(self).seed() == old(self).seed(),
            length < 4 ==> {
                &&& r == Err::<(), CredError>(CredError::PasswordTooShort(length))
                &&& final(self).pos() == old(self).pos()
                &&& final(self).password() == old(self).password()
            },
            length >= 4 ==> match r {
                Ok(_) => exists|k: nat|
                    {
                        &&& k < MAX_ATTEMPTS
                        &&& meets_reqs(#[trigger] attempt_k(old(self).seed(), old(self).pos(), length as nat, k))
                        &&& forall|j: nat|
                            j < k ==> !meets_reqs(
                                #[trigger] attempt_k(old(self).seed(), old(self).pos(), length as nat, j),
                            )
                        &&& final(self).password() == attempt_k(
                            old(self).seed(),
                            old(self).pos(),
                            length as nat,
                            k,
                        )
                        &&& final(self).pos() == old(self).pos() + (k + 1) * length
                    },
                Err(e) => {
                    &&& e == CredError::AttemptsExhausted
                    &&& forall|j: nat|
                        j < MAX_ATTEMPTS ==> !meets_reqs(
                            #[trigger] attempt_k(old(self).seed(), old(self).pos(), length as nat, j),
                        )
                    &&& final(self).pos() == old(self).pos() + MAX_ATTEMPTS * length
                    &&& final(self).password() == old(self).password()
                },
            },
            r is Ok ==> {
                &&& final(self).password().len() == length
                &&& forall|i: int|
                    0 <= i < length ==> in_alphabet(#[trigger] final(self).password()[i])
                &&& meets_reqs(final(self).password())
                &&& all_ascii(final(self).password())
                &&& ascii_meets_reqs(final(self).password())
            },
    {
        if length < 4 {
            return Err(CredError::PasswordTooShort(length));
        }
        let ghost s = self.seed();
        let ghost p = self.pos();
        let ghost len = length as nat;
        let mut k: u32 = 0;
        while k < MAX_ATTEMPTS
            invariant
                k <= MAX_ATTEMPTS,
                s == old(self).seed(),
                p == old(self).pos(),
                len == length,
                length >= 4,
                self.seed() == s,
                self.pos() == p + k * len,
                self.password() == old(self).password(),
                forall|j: nat| j < k ==> !meets_reqs(#[trigger] attempt_k(s, p, len, j)),
            decreases MAX_ATTEMPTS - k,
        {
            let pw = self.create_pw(length);
            assert(pw@ == attempt_k(s, p, len, k as nat));
            assert((k + 1) * len == k * len + len) by (nonlinear_arith);
            proof {
                assert forall|i: int| 0 <= i < pw@.len() implies (#[trigger] pw@[i] as u32) < 128 by {
                    let idx = index_at(s, (p + k * len + i) as nat, ALPHABET_LEN) as int;
                    assert(pw@[i] == alphabet_char(idx));
                }
            }
            if Self::check_pw_reqs(pw.as_str()) {
                self.pw = pw;
                proof {
                    assert forall|i: int| 0 <= i < length implies in_alphabet(
                        #[trigger] self.password()[i],
                    ) by {
                        let idx = index_at(s, (p + k * len + i) as nat, ALPHABET_LEN) as int;
                        assert(alphabet_char(idx) == self.password()[i]);
                    }
                }
                return Ok(());
            }
            k += 1;
        }
        Err(CredError::AttemptsExhausted)
    }
}

} // verus!
