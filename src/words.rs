//! Splitting text into whitespace-delimited tokens.
use vstd::prelude::*;

verus! {

/// The Unicode `White_Space` property.
pub open spec fn is_white_space(c: char) -> bool {
    let u = c as u32;
    (0x9 <= u && u <= 0xd) || u == 0x20 || u == 0x85 || u == 0xa0 || u == 0x1680 || (0x2000 <= u
        && u <= 0x200a) || u == 0x2028 || u == 0x2029 || u == 0x202f || u == 0x205f || u == 0x3000
}

/// The tokens of `s`: its maximal runs of characters that are not white space, in order.
pub open spec fn tokens(s: Seq<char>) -> Seq<Seq<char>>
    decreases s.len(),
{
    if s.len() == 0 {
        seq![]
    } else {
        let prev = tokens(s.drop_last());
        let c = s.last();
        if is_white_space(c) {
            prev
        } else if s.len() >= 2 && !is_white_space(s[s.len() - 2]) {
            prev.drop_last().push(prev.last().push(c))
        } else {
            prev.push(seq![c])
        }
    }
}

/// Tests a character for the Unicode `White_Space` property.
pub fn is_white_space_char(c: char) -> (r: bool)
    ensures
        r == is_white_space(c),
{
    let u = c as u32;
    (0x9 <= u && u <= 0xd) || u == 0x20 || u == 0x85 || u == 0xa0 || u == 0x1680 || (0x2000 <= u
        && u <= 0x200a) || u == 0x2028 || u == 0x2029 || u == 0x202f || u == 0x205f || u == 0x3000
}

/// The characters of `s`, in order.
pub(crate) fn chars_of(s: &str) -> (r: Vec<char>)
    ensures
        r@ == s@,
{
    let mut r: Vec<char> = Vec::new();
    for c in it: s.chars()
        invariant
            it.seq() == s@,
            r@ == it.seq().take(it.index() as int),
    {
        assert(it.seq().take(it.index() as int + 1) == r@.push(c));
        r.push(c);
    }
    assert(r@ =~= s@);
    r
}

proof fn lemma_tokens_nonempty(s: Seq<char>)
    ensures
        s.len() > 0 && !is_white_space(s.last()) ==> tokens(s).len() > 0,
    decreases s.len(),
{
    if s.len() > 0 {
        lemma_tokens_nonempty(s.drop_last());
    }
}

/// Counts the whitespace-delimited tokens of `s`.
pub fn count_tokens(s: &str) -> (r: u64)
    ensures
        r == tokens(s@).len(),
{
    let cs = chars_of(s);
    let mut count: u64 = 0;
    let mut i: usize = 0;
    while i < cs.len()
        invariant
            cs@ == s@,
            i <= cs.len(),
            count == tokens(cs@.subrange(0, i as int)).len(),
            count <= i,
        decreases cs.len() - i,
    {
        let c = cs[i];
        assert(cs@.subrange(0, i as int + 1).drop_last() == cs@.subrange(0, i as int));
        if !is_white_space_char(c) {
            if i == 0 || is_white_space_char(cs[i - 1]) {
                count = count + 1;
            } else {
                proof {
                    lemma_tokens_nonempty(cs@.subrange(0, i as int));
                }
            }
        }
        i = i + 1;
    }
    assert(cs@.subrange(0, cs@.len() as int) == cs@);
    count
}

/// Whether a character has the Unicode `Uppercase` property, as `char::is_uppercase` reports it.
pub uninterp spec fn is_upper(c: char) -> bool;

/// Relies on `char::is_uppercase`: whether `c` has the Unicode `Uppercase` property.
#[verifier::external_body]
pub(crate) fn char_is_uppercase(c: char) -> (r: bool)
    ensures
        r == is_upper(c),
{
    c.is_uppercase()
}

/// The tokens of `s`, each given by the flags that `up` holds for its
/// characters (`up` has one flag per character of `s`).
pub open spec fn flag_tokens(s: Seq<char>, up: Seq<bool>) -> Seq<Seq<bool>>
    decreases s.len(),
{
    if s.len() == 0 {
        seq![]
    } else {
        let prev = flag_tokens(s.drop_last(), up.drop_last());
        let f = up.last();
        if is_white_space(s.last()) {
            prev
        } else if s.len() >= 2 && !is_white_space(s[s.len() - 2]) {
            prev.drop_last().push(prev.last().push(f))
        } else {
            prev.push(seq![f])
        }
    }
}

/// A token whose characters are all flagged upper-case: a speaker name or a
/// direction, not speech.
pub open spec fn is_cue(w: Seq<bool>) -> bool {
    forall|k: int| 0 <= k < w.len() ==> #[trigger] w[k]
}

/// How many of the tokens `ts` are not cues.
pub open spec fn spoken_count(ts: Seq<Seq<bool>>) -> nat
    decreases ts.len(),
{
    if ts.len() == 0 {
        0
    } else {
        spoken_count(ts.drop_last()) + if is_cue(ts.last()) {
            0nat
        } else {
            1nat
        }
    }
}

/// The upper-case flag of each character of `s`.
pub open spec fn upper_flags(s: Seq<char>) -> Seq<bool> {
    Seq::new(s.len(), |i: int| is_upper(s[i]))
}

/// The spoken tokens of `s`: those not made of upper-case characters only.
pub open spec fn spoken_tokens(s: Seq<char>) -> nat {
    spoken_count(flag_tokens(s, upper_flags(s)))
}

proof fn lemma_flag_tokens_len(s: Seq<char>, up: Seq<bool>)
    requires
        up.len() == s.len(),
    ensures
        flag_tokens(s, up).len() == tokens(s).len(),
        s.len() > 0 && !is_white_space(s.last()) ==> tokens(s).len() > 0,
    decreases s.len(),
{
    if s.len() > 0 {
        lemma_flag_tokens_len(s.drop_last(), up.drop_last());
        if s.len() >= 2 {
            assert(s.drop_last().last() == s[s.len() - 2]);
        }
    }
}

/// No more tokens are spoken than there are tokens.
pub proof fn lemma_spoken_within(s: Seq<char>)
    ensures
        spoken_tokens(s) <= tokens(s).len(),
{
    lemma_flag_tokens_len(s, upper_flags(s));
    lemma_spoken_count_within(flag_tokens(s, upper_flags(s)));
}

proof fn lemma_spoken_count_within(ts: Seq<Seq<bool>>)
    ensures
        spoken_count(ts) <= ts.len(),
    decreases ts.len(),
{
    if ts.len() > 0 {
        lemma_spoken_count_within(ts.drop_last());
    }
}

/// Counts the whitespace-delimited tokens of `s` that are not all flagged
/// upper-case, given the upper-case flag of each character of `s`.
pub fn count_spoken_flagged(s: &str, upper: &Vec<bool>) -> (r: u64)
    requires
        upper@.len() == s@.len(),
    ensures
        r == spoken_count(flag_tokens(s@, upper@)),
{
    let cs = chars_of(s);
    let mut done: u64 = 0;
    let mut in_token = false;
    let mut cur_cue = false;
    let mut i: usize = 0;
    while i < cs.len()
        invariant
            cs@ == s@,
            upper@.len() == cs@.len(),
            i <= cs.len(),
            in_token == (i > 0 && !is_white_space(cs@[i - 1])),
            ({
                let ts = flag_tokens(cs@.subrange(0, i as int), upper@.subrange(0, i as int));
                &&& in_token ==> ts.len() > 0
                &&& in_token ==> cur_cue == is_cue(ts.last())
                &&& in_token ==> done == spoken_count(ts.drop_last())
                &&& !in_token ==> done == spoken_count(ts)
            }),
            done <= i,
            in_token ==> done < i,
        decreases cs.len() - i,
    {
        let c = cs[i];
        let up = upper[i];
        let ghost prev = cs@.subrange(0, i as int);
        let ghost ts = flag_tokens(prev, upper@.subrange(0, i as int));
        let ghost ts2 = flag_tokens(cs@.subrange(0, i as int + 1), upper@.subrange(0, i as int + 1));
        assert(cs@.subrange(0, i as int + 1).drop_last() == prev);
        assert(upper@.subrange(0, i as int + 1).drop_last() == upper@.subrange(0, i as int));
        if is_white_space_char(c) {
            if in_token {
                if !cur_cue {
                    done = done + 1;
                }
            }
            in_token = false;
        } else if in_token {
            proof {
                let w = ts.last();
                assert(ts2 == ts.drop_last().push(w.push(up)));
                assert(ts2.drop_last() == ts.drop_last());
                assert(ts2.last() == w.push(up));
                if cur_cue && up {
                    assert forall|k: int| 0 <= k < w.push(up).len() implies #[trigger] w.push(
                        up,
                    )[k] by {
                        if k < w.len() {
                            assert(w.push(up)[k] == w[k]);
                        }
                    }
                } else if !cur_cue {
                    let k0 = choose|k: int| 0 <= k < w.len() && !#[trigger] w[k];
                    assert(w.push(up)[k0] == w[k0]);
                } else {
                    assert(w.push(up)[w.len() as int] == up);
                }
            }
            cur_cue = cur_cue && up;
        } else {
            proof {
                assert(ts2 == ts.push(seq![up]));
                assert(ts2.drop_last() == ts);
                assert(seq![up][0] == up);
            }
            cur_cue = up;
            in_token = true;
        }
        i = i + 1;
    }
    assert(cs@.subrange(0, cs@.len() as int) == cs@);
    assert(upper@.subrange(0, upper@.len() as int) == upper@);
    if in_token && !cur_cue {
        done = done + 1;
    }
    done
}

/// Counts the whitespace-delimited tokens of `s` that are not made of upper-case
/// characters only.
pub fn count_spoken_tokens(s: &str) -> (r: u64)
    ensures
        r == spoken_tokens(s@),
{
    let cs = chars_of(s);
    let mut upper: Vec<bool> = Vec::new();
    let mut i: usize = 0;
    while i < cs.len()
        invariant
            cs@ == s@,
            i <= cs.len(),
            upper@.len() == i,
            forall|j: int| 0 <= j < i ==> upper@[j] == is_upper(cs@[j]),
        decreases cs.len() - i,
    {
        upper.push(char_is_uppercase(cs[i]));
        i = i + 1;
    }
    assert(upper@ =~= upper_flags(s@));
    count_spoken_flagged(s, &upper)
}

} // verus!
