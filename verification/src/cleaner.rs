//! Reduction of an HTML fragment to plain text.
//!
//! The cleaner walks the fragment left to right. A tag starts at `<` and runs
//! to the next `>`; a line-break tag becomes a single newline, every other
//! tag is dropped while the text around and between tags is kept. A `<` with
//! no closing `>` is kept verbatim together with everything after it, so
//! malformed markup degrades gracefully instead of failing.

use vstd::prelude::*;

verus! {

/// `c` is an ASCII letter.
pub open spec fn is_ascii_letter(c: char) -> bool {
    (97 <= c as u32 && c as u32 <= 122) || (65 <= c as u32 && c as u32 <= 90)
}

/// The markup between `<` and `>` names the line-break tag `br`, whatever
/// attributes or self-closing slash follow the name.
pub open spec fn is_br_markup(inner: Seq<char>) -> bool {
    inner.len() >= 2 && (inner[0] == 'b' || inner[0] == 'B') && (inner[1] == 'r' || inner[1]
        == 'R') && (inner.len() == 2 || !is_ascii_letter(inner[2]))
}

/// Plain text for a fragment, scanning outside any tag.
pub open spec fn clean_text(s: Seq<char>) -> Seq<char>
    decreases s.len(), 1int,
{
    if s.len() == 0 {
        Seq::empty()
    } else if s[0] == '<' {
        clean_tag(s.subrange(1, s.len() as int), Seq::empty())
    } else {
        seq![s[0]] + clean_text(s.subrange(1, s.len() as int))
    }
}

/// Plain text for the remainder `s` of a fragment, scanning inside a tag
/// whose markup so far (after the `<`) is `inner`.
pub open spec fn clean_tag(s: Seq<char>, inner: Seq<char>) -> Seq<char>
    decreases s.len(), 0int,
{
    if s.len() == 0 {
        seq!['<'] + inner
    } else if s[0] == '>' {
        (if is_br_markup(inner) {
            seq!['\n']
        } else {
            Seq::empty()
        }) + clean_text(s.subrange(1, s.len() as int))
    } else {
        clean_tag(s.subrange(1, s.len() as int), inner.push(s[0]))
    }
}

/// Cleaning leaves text without any markup unchanged.
///
/// Law: on input that contains no `<` at all, cleaning is the identity, so a
/// second cleaning returns the first one's result unchanged.
pub proof fn lemma_clean_plain_text(s: Seq<char>)
    requires
        forall|i: int| 0 <= i < s.len() ==> s[i] != '<',
    ensures
        clean_text(s) == s,
    decreases s.len(),
{
    if s.len() == 0 {
        assert(clean_text(s) =~= s);
    } else {
        let rest = s.subrange(1, s.len() as int);
        assert(forall|i: int| 0 <= i < rest.len() ==> rest[i] == s[i + 1]);
        lemma_clean_plain_text(rest);
        assert(clean_text(s) =~= s);
    }
}

/// Cleaning passes a markup-free prefix through unchanged.
///
/// Law: text without any `<` before the rest of the input is kept as it is,
/// so cleaning text made of plain stretches and line-break tags returns the
/// stretches unchanged with each line-break tag turned into one newline.
pub proof fn lemma_clean_plain_prefix(plain: Seq<char>, rest: Seq<char>)
    requires
        forall|i: int| 0 <= i < plain.len() ==> plain[i] != '<',
    ensures
        clean_text(plain + rest) == plain + clean_text(rest),
    decreases plain.len(),
{
    if plain.len() == 0 {
        assert(plain + rest =~= rest);
        assert(plain + clean_text(rest) =~= clean_text(rest));
    } else {
        let s = plain + rest;
        assert(s[0] == plain[0]);
        let plain2 = plain.subrange(1, plain.len() as int);
        assert(forall|i: int| 0 <= i < plain2.len() ==> plain2[i] == plain[i + 1]);
        assert(s.subrange(1, s.len() as int) =~= plain2 + rest);
        lemma_clean_plain_prefix(plain2, rest);
        assert(seq![plain[0]] + (plain2 + clean_text(rest)) =~= plain + clean_text(rest));
    }
}

/// Inside a tag, consuming the rest of the markup up to its `>` appends the
/// markup to the inner accumulator and then resolves the tag.
proof fn lemma_clean_tag_through(inner: Seq<char>, acc: Seq<char>, rest: Seq<char>)
    requires
        forall|i: int| 0 <= i < inner.len() ==> inner[i] != '>',
    ensures
        clean_tag(inner + seq!['>'] + rest, acc) == (if is_br_markup(acc + inner) {
            seq!['\n']
        } else {
            Seq::empty()
        }) + clean_text(rest),
    decreases inner.len(),
{
    let s = inner + seq!['>'] + rest;
    if inner.len() == 0 {
        assert(s[0] == '>');
        assert(s.subrange(1, s.len() as int) =~= rest);
        assert(acc + inner =~= acc);
    } else {
        assert(s[0] == inner[0]);
        assert(s[0] != '>');
        let inner2 = inner.subrange(1, inner.len() as int);
        assert(s.subrange(1, s.len() as int) =~= inner2 + seq!['>'] + rest);
        lemma_clean_tag_through(inner2, acc.push(inner[0]), rest);
        assert(acc.push(inner[0]) + inner2 =~= acc + inner);
    }
}

/// A line-break tag cleans to exactly one newline.
///
/// Law: wherever a complete `br` tag stands at the front of the remaining
/// input — whatever attributes its markup carries — the cleaned output is one
/// newline character followed by the cleaning of what comes after the tag.
pub proof fn lemma_clean_br_tag(inner: Seq<char>, rest: Seq<char>)
    requires
        is_br_markup(inner),
        forall|i: int| 0 <= i < inner.len() ==> inner[i] != '>',
    ensures
        clean_text(seq!['<'] + inner + seq!['>'] + rest) == seq!['\n'] + clean_text(rest),
{
    let s = seq!['<'] + inner + seq!['>'] + rest;
    assert(s[0] == '<');
    assert(s.subrange(1, s.len() as int) =~= inner + seq!['>'] + rest);
    lemma_clean_tag_through(inner, Seq::empty(), rest);
    assert(Seq::<char>::empty() + inner =~= inner);
}

/// A tag that is not a line break cleans to nothing: only what follows it
/// remains.
pub proof fn lemma_clean_other_tag(inner: Seq<char>, rest: Seq<char>)
    requires
        !is_br_markup(inner),
        forall|i: int| 0 <= i < inner.len() ==> inner[i] != '>',
    ensures
        clean_text(seq!['<'] + inner + seq!['>'] + rest) == clean_text(rest),
{
    let s = seq!['<'] + inner + seq!['>'] + rest;
    assert(s[0] == '<');
    assert(s.subrange(1, s.len() as int) =~= inner + seq!['>'] + rest);
    lemma_clean_tag_through(inner, Seq::empty(), rest);
    assert(Seq::<char>::empty() + inner =~= inner);
    assert(Seq::<char>::empty() + clean_text(rest) =~= clean_text(rest));
}

/// Does the accumulated tag markup name a line-break tag?
fn br_markup(inner: &Vec<char>) -> (r: bool)
    ensures
        r == is_br_markup(inner@),
{
    if inner.len() < 2 {
        return false;
    }
    let c0 = inner[0];
    let c1 = inner[1];
    if !(c0 == 'b' || c0 == 'B') || !(c1 == 'r' || c1 == 'R') {
        return false;
    }
    if inner.len() == 2 {
        return true;
    }
    let c2 = inner[2] as u32;
    !((97 <= c2 && c2 <= 122) || (65 <= c2 && c2 <= 90))
}

/// Clean one fragment, given as characters: tags stripped, line-break tags
/// turned into newlines, text kept.
pub fn clean_chars(text: &Vec<char>) -> (r: Vec<char>)
    ensures
        r@ == clean_text(text@),
{
    let n: usize = text.len();
    let mut out: Vec<char> = Vec::new();
    let mut i: usize = 0;
    proof {
        assert(text@.skip(0) =~= text@);
        assert(Seq::<char>::empty() + clean_text(text@) =~= clean_text(text@));
    }
    while i < n
        invariant
            n == text@.len(),
            i <= n,
            clean_text(text@) == out@ + clean_text(text@.skip(i as int)),
        decreases n - i,
    {
        let c = text[i];
        if c != '<' {
            proof {
                let s = text@.skip(i as int);
                assert(s[0] == c);
                assert(s.subrange(1, s.len() as int) =~= text@.skip(i + 1));
                assert(out@.push(c) + clean_text(text@.skip(i + 1)) =~= out@ + clean_text(
                    text@.skip(i as int),
                ));
            }
            out.push(c);
            i = i + 1;
        } else {
            proof {
                let s = text@.skip(i as int);
                assert(s[0] == '<');
                assert(s.subrange(1, s.len() as int) =~= text@.skip(i + 1));
            }
            let mut inner: Vec<char> = Vec::new();
            let mut j: usize = i + 1;
            while j < n && text[j] != '>'
                invariant
                    n == text@.len(),
                    i < j <= n,
                    clean_text(text@) == out@ + clean_tag(text@.skip(j as int), inner@),
                decreases n - j,
            {
                proof {
                    let s = text@.skip(j as int);
                    assert(s[0] == text@[j as int]);
                    assert(s.subrange(1, s.len() as int) =~= text@.skip(j + 1));
                }
                inner.push(text[j]);
                j = j + 1;
            }
            if j == n {
                proof {
                    assert(text@.skip(j as int) =~= Seq::<char>::empty());
                    assert(out@ + (seq!['<'] + inner@) =~= out@.push('<') + inner@);
                }
                out.push('<');
                let mut k: usize = 0;
                let m: usize = inner.len();
                while k < m
                    invariant
                        m == inner@.len(),
                        k <= m,
                        clean_text(text@) == out@ + inner@.skip(k as int),
                    decreases m - k,
                {
                    proof {
                        assert(out@.push(inner@[k as int]) + inner@.skip(k + 1) =~= out@
                            + inner@.skip(k as int));
                    }
                    out.push(inner[k]);
                    k = k + 1;
                }
                proof {
                    assert(inner@.skip(m as int) =~= Seq::<char>::empty());
                    assert(out@ + Seq::<char>::empty() =~= out@);
                }
                i = n;
            } else {
                proof {
                    let s = text@.skip(j as int);
                    assert(s[0] == '>');
                    assert(s.subrange(1, s.len() as int) =~= text@.skip(j + 1));
                }
                if br_markup(&inner) {
                    proof {
                        assert(out@.push('\n') + clean_text(text@.skip(j + 1)) =~= out@ + (seq![
                            '\n',
                        ] + clean_text(text@.skip(j + 1))));
                    }
                    out.push('\n');
                } else {
                    proof {
                        assert(out@ + (Seq::<char>::empty() + clean_text(text@.skip(j + 1))) =~= out@
                            + clean_text(text@.skip(j + 1)));
                    }
                }
                i = j + 1;
            }
        }
    }
    proof {
        assert(text@.skip(n as int) =~= Seq::<char>::empty());
        assert(out@ + Seq::<char>::empty() =~= out@);
    }
    out
}

} // verus!
