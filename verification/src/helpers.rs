//! Path list utilities.  Glob expansion itself is a filesystem
//! collaborator of the caller; the engine only deduplicates the paths
//! that come back.

use crate::palette::digit_char;
use vstd::prelude::*;

verus! {

/// The set of path texts occurring in a list of paths.
pub open spec fn path_texts(v: Seq<String>) -> Set<Seq<char>> {
    v.map_values(|s: String| s@).to_set()
}

/// Path list helpers.
pub struct Helpers;

impl Helpers {
    /// Drop duplicate paths, keeping the first occurrence of each; two
    /// paths count as equal when their text is equal.  The result carries
    /// each input text exactly once and nothing else.
    pub fn dedup_paths(paths: &Vec<String>) -> (out: Vec<String>)
        ensures
            forall|a: int, b: int| 0 <= a < b < out@.len() ==> out@[a]@ != out@[b]@,
            path_texts(out@) == path_texts(paths@),
    {
        let mut out: Vec<String> = Vec::new();
        let mut k: usize = 0;
        while k < paths.len()
            invariant
                k <= paths@.len(),
                forall|a: int, b: int| 0 <= a < b < out@.len() ==> out@[a]@ != out@[b]@,
                path_texts(out@) == path_texts(paths@.subrange(0, k as int)),
            decreases paths@.len() - k,
        {
            let ghost prefix = paths@.subrange(0, k as int);
            let path = &paths[k];
            let found = contains_string(&out, path);
            let ghost seen = out@;
            if !found {
                out.push(path.clone());
            }
            proof {
                let text = paths@[k as int]@;
                let extended = paths@.subrange(0, k + 1);
                assert(extended =~= prefix.push(paths@[k as int]));
                lemma_text_set_extend(prefix, paths@[k as int]);
                if found {
                    let w = choose|a: int| 0 <= a < seen.len() && seen[a]@ == text;
                    assert(seen.map_values(|s: String| s@)[w] == text);
                    assert(path_texts(seen).contains(text));
                    assert(path_texts(prefix).insert(text) =~= path_texts(prefix));
                } else {
                    lemma_text_set_extend(seen, paths@[k as int]);
                    assert(out@ =~= seen.push(paths@[k as int]));
                    assert(out@[out@.len() - 1]@ == text);
                }
            }
            k = k + 1;
        }
        proof {
            assert(paths@.subrange(0, paths@.len() as int) =~= paths@);
        }
        out
    }
}

/// Appending one path adds exactly its text to the text set.
proof fn lemma_text_set_extend(v: Seq<String>, s: String)
    ensures
        path_texts(v.push(s)) == path_texts(v).insert(s@),
{
    let f = |x: String| x@;
    assert(v.push(s).map_values(f) =~= v.map_values(f).push(s@));
    lemma_push_to_set(v.map_values(f), s@);
}

/// A sequence extended by one element gathers to the set extended by it.
proof fn lemma_push_to_set<A>(s: Seq<A>, x: A)
    ensures
        s.push(x).to_set() == s.to_set().insert(x),
{
    assert forall|e: A| #[trigger] s.push(x).to_set().contains(e) implies s.to_set().insert(
        x,
    ).contains(e) by {
        let i = choose|i: int| 0 <= i < s.push(x).len() && s.push(x)[i] == e;
        if i < s.len() {
            assert(s[i] == e);
        }
    }
    assert forall|e: A| s.to_set().insert(x).contains(e) implies #[trigger] s.push(
        x,
    ).to_set().contains(e) by {
        if s.contains(e) {
            let i = choose|i: int| 0 <= i < s.len() && s[i] == e;
            assert(s.push(x)[i] == e);
        } else {
            assert(s.push(x)[s.len() as int] == e);
        }
    }
    assert(s.push(x).to_set() =~= s.to_set().insert(x));
}

/// The decimal digits of `n`, most significant first, no leading zeros.
pub open spec fn dec_digits(n: int) -> Seq<char>
    decreases n,
{
    if n < 10 {
        seq![digit_char(n)]
    } else {
        dec_digits(n / 10) + seq![digit_char(n % 10)]
    }
}

/// The counter text appended to an output file name: the counter in
/// decimal, left-padded with zeros to at least three digits.
pub open spec fn counter_chars(n: int) -> Seq<char> {
    if n < 10 {
        seq!['0', '0'] + dec_digits(n)
    } else if n < 100 {
        seq!['0'] + dec_digits(n)
    } else {
        dec_digits(n)
    }
}

impl Helpers {
    /// The numbered name for output `counter` of a batch: the stem, the
    /// zero-padded counter, and the `.png` suffix.  Distinct counters give
    /// distinct names, so batch outputs never collide.
    pub fn numbered_png_name(stem: &str, counter: usize) -> (out: String)
        ensures
            out@ == stem@ + counter_chars(counter as int) + ".png"@,
    {
        let mut out = String::from_str(stem);
        if counter < 10 {
            out.append("00");
            proof {
                reveal_strlit("0");
                reveal_strlit("00");
                assert("00"@ =~= seq!['0', '0']);
            }
        } else if counter < 100 {
            out.append("0");
            proof {
                reveal_strlit("0");
                assert("0"@ =~= seq!['0']);
            }
        }
        push_counter_digits(&mut out, counter);
        out.append(".png");
        proof {
            assert(out@ =~= stem@ + counter_chars(counter as int) + ".png"@);
        }
        out
    }
}

/// Append the decimal digits of `n`, most significant first.
fn push_counter_digits(out: &mut String, n: usize)
    ensures
        final(out)@ == old(out)@ + dec_digits(n as int),
    decreases n,
{
    if n >= 10 {
        proof {
            vstd::arithmetic::div_mod::lemma_div_decreases(n as int, 10);
        }
        push_counter_digits(out, n / 10);
    }
    out.append(crate::palette::digit_str((n % 10) as u8));
    proof {
        assert(final(out)@ =~= old(out)@ + dec_digits(n as int));
    }
}

/// Whether some element of `v` has the same text as `s`.
fn contains_string(v: &Vec<String>, s: &String) -> (found: bool)
    ensures
        found == exists|a: int| 0 <= a < v@.len() && v@[a]@ == s@,
{
    let mut a: usize = 0;
    while a < v.len()
        invariant
            a <= v@.len(),
            forall|j: int| 0 <= j < a ==> v@[j]@ != s@,
        decreases v@.len() - a,
    {
        if v[a].eq(s) {
            proof {
                assert(v@[a as int]@ == s@);
            }
            return true;
        }
        a = a + 1;
    }
    proof {
        if exists|j: int| 0 <= j < v@.len() && v@[j]@ == s@ {
            let w = choose|j: int| 0 <= j < v@.len() && v@[j]@ == s@;
            assert(v@[w]@ != s@);
        }
    }
    false
}

} // verus!
