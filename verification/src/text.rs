//! Verified text utilities shared by the path and shell modules: splitting a
//! string on a separator, prefix testing, and small helpers for viewing
//! optional strings and lists of strings as mathematical values.

use vstd::prelude::*;

verus! {

/// Relies on `String::push`: std documents that it appends the given
/// character to the end of the string.
pub assume_specification[ String::push ](s: &mut String, c: char)
    ensures
        final(s)@ == old(s)@.push(c),
;

/// The sequence of character views of a sequence of strings.
pub open spec fn seq_views(v: Seq<String>) -> Seq<Seq<char>> {
    v.map_values(|s: String| s@)
}

/// The character view of an optional string.
pub open spec fn opt_view(o: Option<String>) -> Option<Seq<char>> {
    match o {
        Option::None => Option::None,
        Option::Some(s) => Option::Some(s@),
    }
}

/// Splitting `s` on `sep`, keeping empty chunks, with `cur` the chunk read so
/// far: `split_rec("a:b", ':', "x")` is `["xa", "b"]`.
pub open spec fn split_rec(s: Seq<char>, sep: char, cur: Seq<char>) -> Seq<Seq<char>>
    decreases s.len(),
{
    if s.len() == 0 {
        seq![cur]
    } else if s[0] == sep {
        seq![cur] + split_rec(s.drop_first(), sep, Seq::empty())
    } else {
        split_rec(s.drop_first(), sep, cur.push(s[0]))
    }
}

/// The chunks of `s` between occurrences of `sep`, empty chunks kept, as
/// `str::split` produces them: one chunk more than there are separators.
pub open spec fn split_all(s: Seq<char>, sep: char) -> Seq<Seq<char>> {
    split_rec(s, sep, Seq::empty())
}

/// Splitting always yields at least one chunk.
pub proof fn lemma_split_rec_len(s: Seq<char>, sep: char, cur: Seq<char>)
    ensures
        split_rec(s, sep, cur).len() >= 1,
    decreases s.len(),
{
    if s.len() == 0 {
    } else if s[0] == sep {
        lemma_split_rec_len(s.drop_first(), sep, Seq::empty());
    } else {
        lemma_split_rec_len(s.drop_first(), sep, cur.push(s[0]));
    }
}

/// Splits `s` on the separator character, keeping empty chunks.
pub fn split_on(s: &str, sep: char) -> (r: Vec<String>)
    ensures
        seq_views(r@) == split_all(s@, sep),
{
    let n = s.unicode_len();
    let mut out: Vec<String> = Vec::new();
    let mut cur: String = String::new();
    let mut i: usize = 0;
    proof {
        assert(s@.skip(0) =~= s@);
        assert(seq_views(out@) =~= Seq::<Seq<char>>::empty());
        assert(seq_views(out@) + split_rec(s@.skip(0), sep, cur@) =~= split_all(s@, sep));
    }
    while i < n
        invariant
            n == s@.len(),
            i <= n,
            split_all(s@, sep) == seq_views(out@) + split_rec(s@.skip(i as int), sep, cur@),
        decreases n - i,
    {
        let c = s.get_char(i);
        proof {
            assert(s@.skip(i as int)[0] == s@[i as int]);
            assert(s@.skip(i as int).drop_first() =~= s@.skip(i as int + 1));
        }
        if c == sep {
            let ghost old_out = out@;
            let ghost old_cur = cur@;
            out.push(cur);
            cur = String::new();
            proof {
                assert(seq_views(out@) =~= seq_views(old_out).push(old_cur));
                assert(split_rec(s@.skip(i as int), sep, old_cur) == seq![old_cur] + split_rec(
                    s@.skip(i as int + 1),
                    sep,
                    Seq::empty(),
                ));
                assert(seq_views(old_out) + (seq![old_cur] + split_rec(
                    s@.skip(i as int + 1),
                    sep,
                    Seq::empty(),
                )) =~= seq_views(out@) + split_rec(s@.skip(i as int + 1), sep, cur@));
            }
        } else {
            cur.push(c);
        }
        i += 1;
    }
    proof {
        assert(s@.skip(n as int) =~= Seq::<char>::empty());
    }
    let ghost old_out = out@;
    let ghost old_cur = cur@;
    out.push(cur);
    proof {
        assert(seq_views(out@) =~= seq_views(old_out).push(old_cur));
        assert(seq_views(old_out) + seq![old_cur] =~= seq_views(old_out).push(old_cur));
    }
    out
}

/// Whether `p` is a prefix of `s`.
pub open spec fn is_prefix(p: Seq<char>, s: Seq<char>) -> bool {
    p.len() <= s.len() && s.subrange(0, p.len() as int) == p
}

/// Tests whether the string starts with the given prefix.
pub fn starts_with_prefix(s: &str, p: &str) -> (r: bool)
    ensures
        r == is_prefix(p@, s@),
{
    let np = p.unicode_len();
    let ns = s.unicode_len();
    if np > ns {
        return false;
    }
    let mut i: usize = 0;
    while i < np
        invariant
            np == p@.len(),
            ns == s@.len(),
            np <= ns,
            i <= np,
            forall|j: int| 0 <= j < i ==> s@[j] == p@[j],
        decreases np - i,
    {
        if s.get_char(i) != p.get_char(i) {
            proof {
                assert(s@.subrange(0, np as int)[i as int] != p@[i as int]);
            }
            return false;
        }
        i += 1;
    }
    proof {
        assert(s@.subrange(0, np as int) =~= p@);
    }
    true
}

/// Whether the string consists of the single character `c`.
pub fn seg_is_char(s: &String, c: char) -> (r: bool)
    ensures
        r == (s@ == seq![c]),
{
    let n = s.as_str().unicode_len();
    if n == 1 && s.as_str().get_char(0) == c {
        proof {
            assert(s@ =~= seq![c]);
        }
        true
    } else {
        proof {
            assert(seq![c].len() == 1 && seq![c][0] == c);
        }
        false
    }
}

/// Whether the string is exactly `".."`.
pub fn seg_is_parent(s: &String) -> (r: bool)
    ensures
        r == (s@ == seq!['.', '.']),
{
    let n = s.as_str().unicode_len();
    if n == 2 && s.as_str().get_char(0) == '.' && s.as_str().get_char(1) == '.' {
        proof {
            assert(s@ =~= seq!['.', '.']);
        }
        true
    } else {
        proof {
            assert(seq!['.', '.'].len() == 2);
            assert(seq!['.', '.'][0] == '.' && seq!['.', '.'][1] == '.');
        }
        false
    }
}

} // verus!
