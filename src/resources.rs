//! Word lists: the bytes of a list, one word per line, read as Latin-1.
use crate::username::words_view;
use crate::utils::{push_char, CredError};
use vstd::prelude::*;

verus! {

/// The name of the adjective list.
pub const ADJ_FILE: &'static str = "adjectives";

/// The name of the noun list.
pub const NOUN_FILE: &'static str = "nouns";

/// The lines of `b`, split at each newline byte, each byte read as the
/// character of the same number. A trailing newline ends in an empty line.
pub open spec fn split_lines(b: Seq<u8>) -> Seq<Seq<char>>
    decreases b.len(),
{
    if b.len() == 0 {
        seq![Seq::<char>::empty()]
    } else {
        let pre = split_lines(b.drop_last());
        if b.last() == 10 {
            pre.push(Seq::<char>::empty())
        } else {
            pre.update(pre.len() - 1, pre.last().push(b.last() as char))
        }
    }
}

/// The lines that hold at least one character.
pub open spec fn nonempty_lines(ls: Seq<Seq<char>>) -> Seq<Seq<char>> {
    ls.filter(|l: Seq<char>| l.len() > 0)
}

/// The words of the bytes `b`: their non-empty lines.
pub open spec fn words_of(b: Seq<u8>) -> Seq<Seq<char>> {
    nonempty_lines(split_lines(b))
}

proof fn lemma_nonempty_lines_push(ls: Seq<Seq<char>>, x: Seq<char>)
    ensures
        nonempty_lines(ls.push(x)) == if x.len() > 0 {
            nonempty_lines(ls).push(x)
        } else {
            nonempty_lines(ls)
        },
{
    reveal(Seq::filter);
    assert(ls.push(x).drop_last() =~= ls);
}

/// The words of the list `filename`, one per non-empty line of its bytes
/// `data` where the list was found. The name of the list is the error where
/// it was not found, or where it holds no word.
pub fn get_file(filename: &str, data: Option<Vec<u8>>) -> (r: Result<Vec<String>, CredError>)
    ensures
        match data {
            Some(d) => {
                &&& words_of(d@).len() > 0 ==> (r matches Ok(ws) && words_view(ws@) == words_of(d@)
                    && forall|i: int| 0 <= i < ws@.len() ==> #[trigger] ws@[i]@.len() > 0)
                &&& words_of(d@).len() == 0 ==> (r matches Err(CredError::EmptyResource(n)) && n@
                    == filename@)
            },
            None => r matches Err(CredError::MissingResource(n)) && n@ == filename@,
        },
{
    let d = match data {
        Some(d) => d,
        None => return Err(CredError::MissingResource(String::from_str(filename))),
    };
    let mut lines: Vec<String> = Vec::new();
    let mut cur = String::new();
    let mut i: usize = 0;
    while i < d.len()
        invariant
            i <= d@.len(),
            split_lines(d@.subrange(0, i as int)).len() >= 1,
            words_view(lines@) == nonempty_lines(split_lines(d@.subrange(0, i as int)).drop_last()),
            cur@ == split_lines(d@.subrange(0, i as int)).last(),
            forall|k: int| 0 <= k < lines@.len() ==> #[trigger] lines@[k]@.len() > 0,
        decreases d@.len() - i,
    {
        let b = d[i];
        let ghost pre = split_lines(d@.subrange(0, i as int));
        proof {
            let sub = d@.subrange(0, i + 1);
            assert(sub.drop_last() =~= d@.subrange(0, i as int));
            assert(sub.last() == b);
            lemma_nonempty_lines_push(pre.drop_last(), cur@);
            assert(pre.drop_last().push(cur@) =~= pre);
        }
        if b == 10 {
            if cur.unicode_len() > 0 {
                let done = cur;
                lines.push(done);
            }
            cur = String::new();
            proof {
                let next = split_lines(d@.subrange(0, i + 1));
                assert(next.drop_last() =~= pre);
                assert(words_view(lines@) =~= nonempty_lines(next.drop_last()));
            }
        } else {
            push_char(&mut cur, b as char);
            proof {
                let next = split_lines(d@.subrange(0, i + 1));
                assert(next.drop_last() =~= pre.drop_last());
            }
        }
        i += 1;
    }
    assert(d@.subrange(0, d@.len() as int) =~= d@);
    proof {
        let all = split_lines(d@);
        lemma_nonempty_lines_push(all.drop_last(), cur@);
        assert(all.drop_last().push(cur@) =~= all);
    }
    if cur.unicode_len() > 0 {
        lines.push(cur);
    }
    assert(words_view(lines@) =~= words_of(d@));
    if lines.len() == 0 {
        return Err(CredError::EmptyResource(String::from_str(filename)));
    }
    Ok(lines)
}

/// The noun list, from its bytes where it was found; an error where it was
/// not found or holds no word.
pub fn get_nouns(data: Option<Vec<u8>>) -> (r: Result<Vec<String>, CredError>)
    ensures
        match data {
            Some(d) => {
                &&& words_of(d@).len() > 0 ==> (r matches Ok(ws) && words_view(ws@) == words_of(d@)
                    && forall|i: int| 0 <= i < ws@.len() ==> #[trigger] ws@[i]@.len() > 0)
                &&& words_of(d@).len() == 0 ==> (r matches Err(CredError::EmptyResource(n)) && n@
                    == NOUN_FILE@)
            },
            None => r matches Err(CredError::MissingResource(n)) && n@ == NOUN_FILE@,
        },
{
    get_file(NOUN_FILE, data)
}

/// The adjective list, from its bytes where it was found; an error where it
/// was not found or holds no word.
pub fn get_adjs(data: Option<Vec<u8>>) -> (r: Result<Vec<String>, CredError>)
    ensures
        match data {
            Some(d) => {
                &&& words_of(d@).len() > 0 ==> (r matches Ok(ws) && words_view(ws@) == words_of(d@)
                    && forall|i: int| 0 <= i < ws@.len() ==> #[trigger] ws@[i]@.len() > 0)
                &&& words_of(d@).len() == 0 ==> (r matches Err(CredError::EmptyResource(n)) && n@
                    == ADJ_FILE@)
            },
            None => r matches Err(CredError::MissingResource(n)) && n@ == ADJ_FILE@,
        },
{
    get_file(ADJ_FILE, data)
}

} // verus!
