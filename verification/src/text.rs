//! Words of a line of text.

use vstd::prelude::*;

verus! {

/// The characters of `text` before its first space; all of them where it
/// has none.
pub open spec fn first_word(text: Seq<char>) -> Seq<char>
    decreases text.len(),
{
    if text.len() == 0 || text[0] == ' ' {
        Seq::empty()
    } else {
        seq![text[0]] + first_word(text.skip(1))
    }
}

/// The characters of `text` after its last space; all of them where it has
/// none.
pub open spec fn last_word(text: Seq<char>) -> Seq<char>
    decreases text.len(),
{
    if text.len() == 0 || text.last() == ' ' {
        Seq::empty()
    } else {
        last_word(text.drop_last()).push(text.last())
    }
}

/// Whether two strings hold the same characters.
pub fn text_eq(a: &str, b: &str) -> (same: bool)
    ensures
        same == (a@ == b@),
{
    String::from_str(a) == String::from_str(b)
}

/// The characters of `text`, one by one.
pub fn chars_of(text: &str) -> (chars: Vec<char>)
    ensures
        chars@ == text@,
{
    let mut chars: Vec<char> = Vec::new();
    for c in it: text.chars()
        invariant
            chars@ == it.seq().take(it.index() as int),
            it.seq() == text@,
    {
        chars.push(c);
    }
    chars
}

/// Where the first word of `chars` ends.
pub fn first_word_end(chars: &Vec<char>) -> (end: usize)
    ensures
        end <= chars@.len(),
        chars@.take(end as int) == first_word(chars@),
{
    let n: usize = chars.len();
    let mut end: usize = 0;
    assert(chars@.skip(0) =~= chars@);
    while end < n && chars[end] != ' '
        invariant
            n == chars@.len(),
            end <= n,
            first_word(chars@) == chars@.take(end as int) + first_word(chars@.skip(end as int)),
        decreases n - end,
    {
        proof {
            let rest = chars@.skip(end as int);
            assert(rest.skip(1) =~= chars@.skip(end + 1));
        }
        end += 1;
    }
    end
}

/// Where the last word of `chars` starts.
pub fn last_word_start(chars: &Vec<char>) -> (start: usize)
    ensures
        start <= chars@.len(),
        chars@.skip(start as int) == last_word(chars@),
{
    let n: usize = chars.len();
    let mut start: usize = n;
    assert(chars@.take(n as int) =~= chars@);
    while start > 0 && chars[start - 1] != ' '
        invariant
            n == chars@.len(),
            start <= n,
            last_word(chars@) == last_word(chars@.take(start as int)) + chars@.skip(start as int),
        decreases start,
    {
        proof {
            let front = chars@.take(start as int);
            assert(front.drop_last() =~= chars@.take(start - 1));
        }
        start -= 1;
    }
    start
}

} // verus!
