//! Usernames: a title-cased adjective followed by a title-cased noun.
use crate::utils::{index_at, push_char, CredError, IndexGen};
use vstd::prelude::*;

verus! {

/// Which word list a lookup was made in.
#[derive(Clone, Copy, Debug, PartialEq, Eq, Structural)]
pub enum SizeType {
    NounSize,
    AdjSize,
}

/// What `char::to_uppercase` yields for a character.
pub uninterp spec fn upper_of(c: char) -> Seq<char>;

/// Relies on `char::to_uppercase`: the characters of the uppercase mapping,
/// which for a small ASCII letter is its capital; any other ASCII character
/// has no mapping and yields itself.
#[verifier::external_body]
fn upper_chars(c: char) -> (r: Vec<char>)
    ensures
        r@ == upper_of(c),
        'a' <= c <= 'z' ==> r@ == seq![((c as u32) - 32) as char],
        (c as u32) < 128 && !('a' <= c <= 'z') ==> r@ == seq![c],
{
    c.to_uppercase().collect()
}

/// The characters of `s` with every space removed.
pub open spec fn strip_spaces(s: Seq<char>) -> Seq<char>
    decreases s.len(),
{
    if s.len() == 0 {
        s
    } else if s.last() == ' ' {
        strip_spaces(s.drop_last())
    } else {
        strip_spaces(s.drop_last()).push(s.last())
    }
}

/// A word title-cased from the uppercase form `upper` of its first character
/// and the characters `rest` after it; none unless that form is one character.
pub open spec fn title_from(upper: Seq<char>, rest: Seq<char>) -> Option<Seq<char>> {
    if upper.len() == 1 {
        Some(seq![upper[0]] + rest)
    } else {
        None
    }
}

/// A word with its spaces removed and its first character uppercased; none
/// where that character's uppercase form is not a single character.
pub open spec fn title_case_of(s: Seq<char>) -> Option<Seq<char>> {
    let t = strip_spaces(s);
    if t.len() == 0 {
        Some(t)
    } else {
        title_from(upper_of(t[0]), t.drop_first())
    }
}

/// The ASCII capital of a small ASCII letter; any other character as it is.
pub open spec fn ascii_upper(c: char) -> char {
    if 'a' <= c <= 'z' {
        ((c as u32) - 32) as char
    } else {
        c
    }
}

/// The first character of `s` that is not a space is ASCII, or there is none.
pub open spec fn ascii_first(s: Seq<char>) -> bool {
    strip_spaces(s).len() == 0 || (strip_spaces(s)[0] as u32) < 128
}

/// Title case where the first character is ASCII: spaces removed, the first
/// remaining character made a capital if it is a small letter.
pub open spec fn ascii_title_case(s: Seq<char>) -> Seq<char> {
    let t = strip_spaces(s);
    if t.len() == 0 {
        t
    } else {
        seq![ascii_upper(t[0])] + t.drop_first()
    }
}

/// Builds a word from the uppercase form of its first character and the
/// characters after it; fails unless that form is a single character.
pub fn join_title(upper: &Vec<char>, rest: &[char]) -> (r: Result<String, CredError>)
    ensures
        match r {
            Ok(w) => title_from(upper@, rest@) == Some(w@),
            Err(e) => title_from(upper@, rest@) is None && e == CredError::Conversion,
        },
{
    if upper.len() != 1 {
        return Err(CredError::Conversion);
    }
    let mut out = String::new();
    push_char(&mut out, upper[0]);
    let mut i: usize = 0;
    while i < rest.len()
        invariant
            0 <= i <= rest@.len(),
            upper@.len() == 1,
            out@ == seq![upper@[0]] + rest@.subrange(0, i as int),
        decreases rest@.len() - i,
    {
        push_char(&mut out, rest[i]);
        i += 1;
        assert(out@ =~= seq![upper@[0]] + rest@.subrange(0, i as int));
    }
    assert(rest@.subrange(0, rest@.len() as int) =~= rest@);
    Ok(out)
}

/// Removes every space from `n` and uppercases its first remaining character,
/// leaving the others as they are.
pub fn title_case(n: String) -> (r: Result<String, CredError>)
    ensures
        match r {
            Ok(w) => title_case_of(n@) == Some(w@),
            Err(e) => title_case_of(n@) is None && e == CredError::Conversion,
        },
        ascii_first(n@) ==> (r matches Ok(w) && w@ == ascii_title_case(n@)),
        starts_with_letter(n@) ==> match r {
            Ok(w) => w@.len() > 0 && 'A' <= w@[0] <= 'Z' && no_spaces(w@),
            Err(_) => false,
        },
{
    let s = n.as_str();
    let len = s.unicode_len();
    let mut arr: Vec<char> = Vec::new();
    let mut i: usize = 0;
    while i < len
        invariant
            len == s@.len(),
            s@ == n@,
            0 <= i <= len,
            arr@ == strip_spaces(s@.subrange(0, i as int)),
        decreases len - i,
    {
        let c = s.get_char(i);
        assert(s@.subrange(0, i + 1).drop_last() =~= s@.subrange(0, i as int));
        if c != ' ' {
            arr.push(c);
        }
        i += 1;
    }
    assert(s@.subrange(0, len as int) =~= s@);
    if arr.len() == 0 {
        return Ok(String::new());
    }
    let upper = upper_chars(arr[0]);
    let r = join_title(&upper, arr.as_slice().split_at(1).1);
    proof {
        lemma_strip_spaces(n@);
        if starts_with_letter(n@) {
            let w = seq![upper@[0]] + arr@.drop_first();
            assert(w[0] == upper@[0]);
            assert forall|k: int| 0 <= k < w.len() implies w[k] != ' ' by {
                if k > 0 {
                    assert(w[k] == arr@[k]);
                }
            }
        }
    }
    r
}

/// The views of a list of words.
pub open spec fn words_view(ws: Seq<String>) -> Seq<Seq<char>> {
    ws.map_values(|w: String| w@)
}

/// The word drawn from `ws` by the generator at position `pos` of the stream of `seed`.
pub open spec fn drawn_word(ws: Seq<Seq<char>>, seed: u64, pos: nat) -> Seq<char> {
    ws[index_at(seed, pos, ws.len() as u32) as int]
}

/// The username, or the error, that a generator at position `pos` of the
/// stream of `seed` yields from the noun and adjective lists.
pub open spec fn username_outcome(
    seed: u64,
    pos: nat,
    nouns: Seq<Seq<char>>,
    adjs: Seq<Seq<char>>,
) -> Result<Seq<char>, CredError> {
    if nouns.len() == 0 {
        Err(CredError::Lookup(SizeType::NounSize))
    } else {
        match title_case_of(drawn_word(nouns, seed, pos)) {
            None => Err(CredError::Conversion),
            Some(noun) => if adjs.len() == 0 {
                Err(CredError::Lookup(SizeType::AdjSize))
            } else {
                match title_case_of(drawn_word(adjs, seed, pos + 1)) {
                    None => Err(CredError::Conversion),
                    Some(adj) => Ok(adj + noun),
                }
            },
        }
    }
}

/// Every word of the list starts with an ASCII letter, spaces aside.
pub open spec fn all_start_with_letter(ws: Seq<Seq<char>>) -> bool {
    forall|i: int| 0 <= i < ws.len() ==> #[trigger] starts_with_letter(ws[i])
}

/// Every word of the list has an ASCII first character, spaces aside, or
/// holds only spaces.
pub open spec fn all_ascii_first(ws: Seq<Seq<char>>) -> bool {
    forall|i: int| 0 <= i < ws.len() ==> #[trigger] ascii_first(ws[i])
}

/// How many draws building a username from these lists takes.
pub open spec fn username_draws(
    seed: u64,
    pos: nat,
    nouns: Seq<Seq<char>>,
    adjs: Seq<Seq<char>>,
) -> nat {
    if nouns.len() == 0 {
        0
    } else if title_case_of(drawn_word(nouns, seed, pos)) is None || adjs.len() == 0 {
        1
    } else {
        2
    }
}

/// Builds usernames from a noun list and an adjective list.
pub struct Username {
    pub ig: IndexGen,
    pub nouns: Vec<String>,
    pub adjs: Vec<String>,
    pub un: String,
}

impl Username {
    /// The generator's seed.
    pub open spec fn seed(&self) -> u64 {
        self.ig.seed()
    }

    /// How many draws the generator has made.
    pub open spec fn pos(&self) -> nat {
        self.ig.pos()
    }

    pub open spec fn nouns(&self) -> Seq<Seq<char>> {
        words_view(self.nouns@)
    }

    pub open spec fn adjs(&self) -> Seq<Seq<char>> {
        words_view(self.adjs@)
    }

    /// The last username built.
    pub open spec fn username(&self) -> Seq<char> {
        self.un@
    }

    /// Both lists can be indexed by a 32-bit draw.
    pub open spec fn wf(&self) -> bool {
        self.nouns@.len() <= u32::MAX && self.adjs@.len() <= u32::MAX
    }

    pub fn new(seed: u64, nouns: Vec<String>, adjs: Vec<String>) -> (u: Username)
        requires
            nouns@.len() <= u32::MAX,
            adjs@.len() <= u32::MAX,
        ensures
            u.wf(),
            u.seed() == seed,
            u.pos() == 0,
            u.nouns() == words_view(nouns@),
            u.adjs() == words_view(adjs@),
            u.username() == Seq::<char>::empty(),
    {
        Username { ig: IndexGen::new(seed), nouns, adjs, un: String::new() }
    }

    /// Draws a noun, then an adjective, title-cases both and stores the
    /// adjective followed by the noun in `un`.
    pub fn make_username(&mut self) -> (r: Result<(), CredError>)
        requires
            old(self).wf(),
        ensures
            final(self).wf(),
            final(self).seed() == old(self).seed(),
            final(self).nouns() == old(self).nouns(),
            final(self).adjs() == old(self).adjs(),
            final(self).pos() == old(self).pos() + username_draws(
                old(self).seed(),
                old(self).pos(),
                old(self).nouns(),
                old(self).adjs(),
            ),
            match r {
                Ok(_) => username_outcome(
                    old(self).seed(),
                    old(self).pos(),
                    old(self).nouns(),
                    old(self).adjs(),
                ) == Ok::<Seq<char>, CredError>(final(self).username()),
                Err(e) => username_outcome(
                    old(self).seed(),
                    old(self).pos(),
                    old(self).nouns(),
                    old(self).adjs(),
                ) == Err::<Seq<char>, CredError>(e) && final(self).username() == old(self).username(),
            },
            old(self).nouns().len() > 0 && old(self).adjs().len() > 0 && all_ascii_first(
                old(self).nouns(),
            ) && all_ascii_first(old(self).adjs()) ==> {
                &&& r is Ok
                &&& final(self).username() == ascii_title_case(
                    drawn_word(old(self).adjs(), old(self).seed(), old(self).pos() + 1),
                ) + ascii_title_case(drawn_word(old(self).nouns(), old(self).seed(), old(self).pos()))
                &&& no_spaces(final(self).username())
            },
            old(self).nouns().len() > 0 && old(self).adjs().len() > 0 && all_start_with_letter(
                old(self).nouns(),
            ) && all_start_with_letter(old(self).adjs()) ==> {
                &&& r is Ok
                &&& no_spaces(final(self).username())
                &&& final(self).username().len() > 0
                &&& 'A' <= final(self).username()[0] <= 'Z'
            },
    {
        if self.nouns.len() == 0 {
            return Err(CredError::Lookup(SizeType::NounSize));
        }
        let ni = self.ig.gen_index(self.nouns.len() as u32);
        let noun = title_case(self.nouns[ni].clone())?;
        assert(self.nouns[ni as int]@ == self.nouns()[ni as int]);
        if self.adjs.len() == 0 {
            return Err(CredError::Lookup(SizeType::AdjSize));
        }
        let ai = self.ig.gen_index(self.adjs.len() as u32);
        let adj = title_case(self.adjs[ai].clone())?;
        assert(self.adjs[ai as int]@ == self.adjs()[ai as int]);
        self.un = adj.concat(noun.as_str());
        proof {
            if all_ascii_first(self.nouns()) && all_ascii_first(self.adjs()) {
                assert(ascii_first(self.adjs()[ai as int]));
                assert(ascii_first(self.nouns()[ni as int]));
                lemma_ascii_title_case_no_spaces(self.adjs()[ai as int]);
                lemma_ascii_title_case_no_spaces(self.nouns()[ni as int]);
                assert forall|k: int| 0 <= k < self.un@.len() implies self.un@[k] != ' ' by {
                    if k >= adj@.len() {
                        assert(self.un@[k] == noun@[k - adj@.len()]);
                    } else {
                        assert(self.un@[k] == adj@[k]);
                    }
                }
            }
            if all_start_with_letter(self.nouns()) && all_start_with_letter(self.adjs()) {
                assert(starts_with_letter(self.adjs()[ai as int]));
                assert(starts_with_letter(self.nouns()[ni as int]));
                assert(self.un@[0] == adj@[0]);
                assert forall|k: int| 0 <= k < self.un@.len() implies self.un@[k] != ' ' by {
                    if k >= adj@.len() {
                        assert(self.un@[k] == noun@[k - adj@.len()]);
                    } else {
                        assert(self.un@[k] == adj@[k]);
                    }
                }
            }
        }
        Ok(())
    }
}

} // verus!

verus! {

/// An ASCII letter.
pub open spec fn is_ascii_letter(c: char) -> bool {
    ('a' <= c <= 'z') || ('A' <= c <= 'Z')
}

/// The first character of `w` that is not a space is an ASCII letter.
pub open spec fn starts_with_letter(w: Seq<char>) -> bool {
    strip_spaces(w).len() > 0 && is_ascii_letter(strip_spaces(w)[0])
}

/// No character of `s` is a space.
pub open spec fn no_spaces(s: Seq<char>) -> bool {
    forall|i: int| 0 <= i < s.len() ==> s[i] != ' '
}

/// Removing the spaces leaves none, and leaves a word without spaces as it is.
pub proof fn lemma_strip_spaces(s: Seq<char>)
    ensures
        no_spaces(strip_spaces(s)),
        no_spaces(s) ==> strip_spaces(s) == s,
    decreases s.len(),
{
    if s.len() > 0 {
        lemma_strip_spaces(s.drop_last());
        if no_spaces(s) {
            assert(no_spaces(s.drop_last()));
            assert(s.drop_last().push(s.last()) =~= s);
        }
    }
}

/// Title case where the first character is ASCII leaves no space.
pub proof fn lemma_ascii_title_case_no_spaces(s: Seq<char>)
    ensures
        no_spaces(ascii_title_case(s)),
{
    let t = strip_spaces(s);
    lemma_strip_spaces(s);
    if t.len() > 0 {
        let w = seq![ascii_upper(t[0])] + t.drop_first();
        assert forall|k: int| 0 <= k < w.len() implies w[k] != ' ' by {
            if k > 0 {
                assert(w[k] == t[k]);
            }
        }
    }
}

/// Idempotence: title-casing a word whose first non-space character is ASCII
/// a second time changes nothing. By the contract of `title_case`, which
/// returns `ascii_title_case` of such words, `title_case` applied to its own
/// result returns that result.
pub proof fn lemma_title_case_idempotent(s: Seq<char>)
    requires
        ascii_first(s),
    ensures
        ascii_first(ascii_title_case(s)),
        ascii_title_case(ascii_title_case(s)) == ascii_title_case(s),
{
    let w = ascii_title_case(s);
    lemma_ascii_title_case_no_spaces(s);
    lemma_strip_spaces(w);
    if w.len() > 0 {
        assert(seq![ascii_upper(w[0])] + w.drop_first() =~= w);
    }
}

} // verus!
