//! The command to run once every app has shut down.
use vstd::prelude::*;

use crate::text::{chars_of, push_char};

verus! {

/// Unicode `White_Space`, which `char::is_whitespace` tests.
pub open spec fn is_white_space(c: char) -> bool {
    let u = c as u32;
    (9 <= u <= 13) || u == 32 || u == 0x85 || u == 0xA0 || u == 0x1680 || (0x2000 <= u <= 0x200A)
        || u == 0x2028 || u == 0x2029 || u == 0x202F || u == 0x205F || u == 0x3000
}

/// The words of `s`: its maximal runs of characters that are not white
/// space, in order (what `str::split_whitespace` yields).
pub open spec fn words(s: Seq<char>) -> Seq<Seq<char>>
    decreases s.len(),
{
    if s.len() == 0 {
        seq![]
    } else {
        let w = words(s.drop_last());
        let c = s.last();
        if is_white_space(c) {
            w
        } else if s.len() >= 2 && !is_white_space(s[s.len() - 2]) {
            w.update(w.len() - 1, w.last().push(c))
        } else {
            w.push(seq![c])
        }
    }
}

/// `char::is_whitespace`.
pub fn white_space(c: char) -> (r: bool)
    ensures
        r == is_white_space(c),
{
    let u = c as u32;
    (9 <= u && u <= 13) || u == 32 || u == 0x85 || u == 0xA0 || u == 0x1680 || (0x2000 <= u && u
        <= 0x200A) || u == 0x2028 || u == 0x2029 || u == 0x202F || u == 0x205F || u == 0x3000
}

/// The words of `s` (`str::split_whitespace`).
pub fn split_whitespace(s: &str) -> (r: Vec<String>)
    ensures
        r@.map_values(|w: String| w@) == words(s@),
{
    let chars = chars_of(s);
    let n = chars.len();
    let mut out: Vec<String> = Vec::new();
    let mut cur = String::new();
    let mut in_word = false;
    let mut i: usize = 0;
    proof {
        assert(chars@.subrange(0, 0) =~= Seq::<char>::empty());
        assert(out@.map_values(|w: String| w@) =~= Seq::<Seq<char>>::empty());
    }
    while i < n
        invariant
            n == chars@.len(),
            chars@ == s@,
            i <= n,
            in_word == (i > 0 && !is_white_space(chars@[i - 1])),
            !in_word ==> cur@ == Seq::<char>::empty(),
            words(chars@.subrange(0, i as int)) == if in_word {
                out@.map_values(|w: String| w@).push(cur@)
            } else {
                out@.map_values(|w: String| w@)
            },
        decreases n - i,
    {
        let c = chars[i];
        let ghost pre = chars@.subrange(0, i as int);
        let ghost next = chars@.subrange(0, i + 1);
        let ghost done = out@.map_values(|w: String| w@);
        proof {
            assert(next.drop_last() =~= pre);
            assert(next.last() == c);
            if i > 0 {
                assert(next[next.len() - 2] == chars@[i - 1]);
            }
        }
        if white_space(c) {
            if in_word {
                let word = cur;
                out.push(word);
                cur = String::new();
                in_word = false;
                proof {
                    assert(out@.map_values(|w: String| w@) =~= done.push(word@));
                }
            }
        } else {
            let ghost was = cur@;
            push_char(&mut cur, c);
            proof {
                if in_word {
                    let w = done.push(was);
                    assert(w.update(w.len() - 1, w.last().push(c)) =~= done.push(cur@));
                } else {
                    assert(cur@ =~= seq![c]);
                }
            }
            in_word = true;
        }
        i = i + 1;
    }
    if in_word {
        let ghost done = out@.map_values(|w: String| w@);
        out.push(cur);
        proof {
            assert(out@.map_values(|w: String| w@) =~= done.push(cur@));
        }
    }
    proof {
        assert(chars@.subrange(0, n as int) =~= s@);
    }
    out
}

/// The program and arguments of `--post-cmd`: its first word, then the rest;
/// none when the command has no word.
pub fn post_cmd_parts(post_cmd: &str) -> (r: Option<(String, Vec<String>)>)
    ensures
        match r {
            None => words(post_cmd@).len() == 0,
            Some((command, args)) => words(post_cmd@).len() > 0 && command@ == words(post_cmd@)[0]
                && args@.map_values(|w: String| w@) == words(post_cmd@).drop_first(),
        },
{
    let mut parts = split_whitespace(post_cmd);
    let ghost all = parts@.map_values(|w: String| w@);
    if parts.len() == 0 {
        return None;
    }
    let command = parts.remove(0);
    proof {
        assert(parts@.map_values(|w: String| w@) =~= all.drop_first());
    }
    Some((command, parts))
}

} // verus!
