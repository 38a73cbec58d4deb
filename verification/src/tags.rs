//! Tag-filter normalization: from a raw filter string, keep only
//! alphabetic characters and the comma separator, lower-case the result,
//! and split it on commas into the candidate tag list.  Empty segments
//! are passed through; they simply never match a stored tag.

use vstd::prelude::*;

verus! {

/// The Unicode lowercase mapping of a character, written as the sequence
/// of characters that `char::to_lowercase` yields.  Named rather than
/// written out: it is a function of the character alone.
pub uninterp spec fn lower_of(c: char) -> Seq<char>;

/// Whether a character is alphabetic in the Unicode sense of
/// `char::is_alphabetic`.  Named rather than written out: it is a
/// function of the character alone.
pub uninterp spec fn is_alpha(c: char) -> bool;

/// Relies on char::to_lowercase: yields the Unicode lowercase mapping of
/// the character, which depends on the character alone.
#[verifier::external_body]
fn lower_char(c: char) -> (r: String)
    ensures
        r@ == lower_of(c),
{
    c.to_lowercase().collect::<String>()
}

/// Relies on char::is_alphabetic: true exactly for Unicode-alphabetic
/// characters, which depends on the character alone.
#[verifier::external_body]
fn char_is_alphabetic(c: char) -> (r: bool)
    ensures
        r == is_alpha(c),
{
    c.is_alphabetic()
}

/// What one input character contributes to the normalized filter string:
/// alphabetic characters and the comma are kept, lower-cased; everything
/// else is dropped.
pub open spec fn kept_char(c: char) -> Seq<char> {
    if is_alpha(c) || c == ',' {
        lower_of(c)
    } else {
        Seq::empty()
    }
}

/// The whole normalized filter string for an input.
pub open spec fn normalized_chars(s: Seq<char>) -> Seq<char>
    decreases s.len(),
{
    if s.len() == 0 {
        Seq::empty()
    } else {
        normalized_chars(s.drop_last()) + kept_char(s.last())
    }
}

/// Splitting a character sequence on commas, with empty segments kept,
/// as `str::split(',')` does.
pub open spec fn split_commas(s: Seq<char>) -> Seq<Seq<char>>
    decreases s.len(),
{
    if s.len() == 0 {
        seq![Seq::<char>::empty()]
    } else if s.last() == ',' {
        split_commas(s.drop_last()).push(Seq::empty())
    } else {
        let prev = split_commas(s.drop_last());
        prev.update(prev.len() - 1, prev.last().push(s.last()))
    }
}

/// The candidate tag list a raw filter string normalizes to.
pub open spec fn normalize_spec(s: Seq<char>) -> Seq<Seq<char>> {
    split_commas(normalized_chars(s))
}

/// Builds the normalized filter string for an input.
#[verifier::loop_isolation(false)]
fn normalized_string(input: &str) -> (r: String)
    ensures
        r@ == normalized_chars(input@),
{
    let n = input.unicode_len();
    let mut out = String::new();
    let mut i: usize = 0;
    while i < n
        invariant
            n == input@.len(),
            i <= n,
            out@ == normalized_chars(input@.take(i as int)),
        decreases n - i,
    {
        let c = input.get_char(i);
        proof {
            assert(input@.take(i + 1).drop_last() =~= input@.take(i as int));
            assert(input@.take(i + 1).last() == input@[i as int]);
        }
        if char_is_alphabetic(c) || c == ',' {
            let low = lower_char(c);
            out.append(low.as_str());
        }
        i += 1;
    }
    proof {
        assert(input@.take(n as int) =~= input@);
    }
    out
}

/// Normalizes a raw tag-filter string into the candidate tag list:
/// only alphabetic characters and commas are kept (digits, punctuation
/// and whitespace are silently discarded), the result is lower-cased and
/// split on commas.  A doubled comma yields an empty-string tag, which
/// simply never matches.
#[verifier::loop_isolation(false)]
pub fn normalize_tags(input: &str) -> (r: Vec<String>)
    ensures
        r@.map_values(|t: String| t@) == normalize_spec(input@),
{
    let ns = normalized_string(input);
    let n = ns.as_str().unicode_len();
    let mut done: Vec<String> = Vec::new();
    let mut seg_start: usize = 0;
    let mut i: usize = 0;
    proof {
        assert(done@.map_values(|t: String| t@).push(ns@.subrange(0, 0)) =~~= seq![
            Seq::<char>::empty(),
        ]);
    }
    while i < n
        invariant
            n == ns@.len(),
            seg_start <= i <= n,
            split_commas(ns@.take(i as int)) == done@.map_values(|t: String| t@).push(
                ns@.subrange(seg_start as int, i as int),
            ),
        decreases n - i,
    {
        let c = ns.as_str().get_char(i);
        proof {
            assert(ns@.take(i + 1).drop_last() =~= ns@.take(i as int));
            assert(ns@.take(i + 1).last() == ns@[i as int]);
        }
        if c == ',' {
            let seg = ns.as_str().substring_char(seg_start, i).to_owned();
            let ghost m = done@.map_values(|t: String| t@);
            let ghost old_start = seg_start as int;
            done.push(seg);
            seg_start = i + 1;
            proof {
                assert(done@.map_values(|t: String| t@) =~= m.push(
                    ns@.subrange(old_start, i as int),
                ));
                assert(ns@.subrange(i + 1, i + 1) =~= Seq::<char>::empty());
            }
        } else {
            proof {
                let prev = split_commas(ns@.take(i as int));
                let m = done@.map_values(|t: String| t@);
                assert(prev.last() == prev[m.len() as int]);
                assert(ns@.subrange(seg_start as int, i + 1) =~= ns@.subrange(
                    seg_start as int,
                    i as int,
                ).push(c));
                assert(prev.update(prev.len() - 1, prev.last().push(c)) =~= m.push(
                    ns@.subrange(seg_start as int, i + 1),
                ));
            }
        }
        i += 1;
    }
    proof {
        assert(ns@.take(n as int) =~= ns@);
    }
    let last_seg = ns.as_str().substring_char(seg_start, n).to_owned();
    done.push(last_seg);
    proof {
        assert(done@.map_values(|t: String| t@) =~= split_commas(ns@));
    }
    done
}

} // verus!
