use vstd::prelude::*;

use crate::feed::{urls, Feed};

verus! {

/// The whitespace that surrounds a URL on its line and is cut away: the
/// characters of Unicode's White_Space property.
pub open spec fn is_space(c: char) -> bool {
    ||| '\t' <= c <= '\r'
    ||| c == ' '
    ||| c == '\u{85}'
    ||| c == '\u{A0}'
    ||| c == '\u{1680}'
    ||| '\u{2000}' <= c <= '\u{200A}'
    ||| c == '\u{2028}'
    ||| c == '\u{2029}'
    ||| c == '\u{202F}'
    ||| c == '\u{205F}'
    ||| c == '\u{3000}'
}

/// A line without its leading whitespace.
pub open spec fn trim_start(s: Seq<char>) -> Seq<char>
    decreases s.len(),
{
    if s.len() > 0 && is_space(s[0]) {
        trim_start(s.drop_first())
    } else {
        s
    }
}

/// A line without its trailing whitespace.
pub open spec fn trim_end(s: Seq<char>) -> Seq<char>
    decreases s.len(),
{
    if s.len() > 0 && is_space(s.last()) {
        trim_end(s.drop_last())
    } else {
        s
    }
}

/// A line without its leading and trailing whitespace.
pub open spec fn trim(s: Seq<char>) -> Seq<char> {
    trim_end(trim_start(s))
}

/// The lines of a text: the pieces between line breaks, the text after
/// the last break included (empty when the text ends with a break).
pub open spec fn lines(s: Seq<char>) -> Seq<Seq<char>>
    decreases s.len(),
{
    if s.len() == 0 {
        seq![Seq::<char>::empty()]
    } else {
        let p = lines(s.drop_last());
        if s.last() == '\n' {
            p.push(Seq::<char>::empty())
        } else {
            p.update(p.len() - 1, p.last().push(s.last()))
        }
    }
}

/// The trimmed lines that are not blank, in order.
pub open spec fn keep(ls: Seq<Seq<char>>) -> Seq<Seq<char>>
    decreases ls.len(),
{
    if ls.len() == 0 {
        Seq::empty()
    } else {
        let k = keep(ls.drop_last());
        let t = trim(ls.last());
        if t.len() > 0 {
            k.push(t)
        } else {
            k
        }
    }
}

/// The URLs that a feed file holds.
pub open spec fn load(s: Seq<char>) -> Seq<Seq<char>> {
    keep(lines(s))
}

/// A feed file holding the given URLs: each one followed by a line break.
pub open spec fn save(us: Seq<Seq<char>>) -> Seq<char>
    decreases us.len(),
{
    if us.len() == 0 {
        Seq::empty()
    } else {
        save(us.drop_last()) + us.last() + seq!['\n']
    }
}

/// A URL that a feed file can hold and give back unchanged.
pub open spec fn storable(u: Seq<char>) -> bool {
    &&& u.len() > 0
    &&& !u.contains('\n')
    &&& trim(u) == u
}

proof fn lemma_lines_nonempty(s: Seq<char>)
    ensures
        lines(s).len() >= 1,
    decreases s.len(),
{
    if s.len() > 0 {
        lemma_lines_nonempty(s.drop_last());
    }
}

proof fn lemma_lines_extend(t: Seq<char>, u: Seq<char>)
    requires
        !u.contains('\n'),
    ensures
        lines(t + u) == lines(t).update(lines(t).len() - 1, lines(t).last() + u),
    decreases u.len(),
{
    lemma_lines_nonempty(t);
    if u.len() == 0 {
        assert(t + u =~= t);
        assert(lines(t).last() + u =~= lines(t).last());
        assert(lines(t).update(lines(t).len() - 1, lines(t).last()) =~= lines(t));
    } else {
        let v = u.drop_last();
        assert(!v.contains('\n')) by {
            if v.contains('\n') {
                let j = choose|j: int| 0 <= j < v.len() && v[j] == '\n';
                assert(u[j] == '\n');
            }
        }
        lemma_lines_extend(t, v);
        assert((t + u).drop_last() =~= t + v);
        assert(u.last() != '\n') by {
            assert(u[u.len() - 1] == u.last());
        }
        assert((t + u).last() == u.last());
        assert((lines(t).last() + v).push(u.last()) =~= lines(t).last() + u);
        assert(lines(t + u) =~= lines(t).update(lines(t).len() - 1, lines(t).last() + u));
    }
}

proof fn lemma_lines_of_save(us: Seq<Seq<char>>)
    requires
        forall|k: int| 0 <= k < us.len() ==> !(#[trigger] us[k]).contains('\n'),
    ensures
        lines(save(us)) == us.push(Seq::<char>::empty()),
    decreases us.len(),
{
    if us.len() == 0 {
        assert(lines(save(us)) =~= us.push(Seq::<char>::empty()));
    } else {
        let init = us.drop_last();
        let x = us.last();
        assert(!x.contains('\n')) by {
            assert(us[us.len() - 1] == x);
        }
        assert forall|k: int| 0 <= k < init.len() implies !(#[trigger] init[k]).contains('\n') by {
            assert(init[k] == us[k]);
        }
        lemma_lines_of_save(init);
        lemma_lines_extend(save(init), x);
        let s = save(us);
        assert(s.drop_last() =~= save(init) + x);
        assert(s.last() == '\n');
        let e = Seq::<char>::empty();
        assert(init.push(e).update(init.len() as int, e + x) =~= us) by {
            assert(e + x =~= x);
        }
        assert(lines(s) =~= us.push(e));
    }
}

proof fn lemma_keep_storable(us: Seq<Seq<char>>)
    requires
        forall|k: int| 0 <= k < us.len() ==> storable(#[trigger] us[k]),
    ensures
        keep(us) == us,
    decreases us.len(),
{
    if us.len() > 0 {
        let init = us.drop_last();
        assert forall|k: int| 0 <= k < init.len() implies storable(#[trigger] init[k]) by {
            assert(init[k] == us[k]);
        }
        lemma_keep_storable(init);
        assert(storable(us[us.len() - 1]));
        assert(us =~= init.push(us.last()));
    }
}

/// Saving a list of URLs and loading the file gives the same list back, in
/// the same order, when every URL is non-empty, holds no line break and has
/// no surrounding whitespace.
pub proof fn lemma_load_save(us: Seq<Seq<char>>)
    requires
        forall|k: int| 0 <= k < us.len() ==> storable(#[trigger] us[k]),
    ensures
        load(save(us)) == us,
{
    lemma_lines_of_save(us);
    let e = Seq::<char>::empty();
    let ls = us.push(e);
    assert(ls.drop_last() =~= us);
    assert(trim(e) =~= e) by {
        reveal_with_fuel(trim_start, 2);
        reveal_with_fuel(trim_end, 2);
    }
    lemma_keep_storable(us);
}

fn is_space_char(c: char) -> (r: bool)
    ensures
        r == is_space(c),
{
    ('\t' <= c && c <= '\r') || c == ' ' || c == '\u{85}' || c == '\u{A0}' || c == '\u{1680}'
        || ('\u{2000}' <= c && c <= '\u{200A}') || c == '\u{2028}' || c == '\u{2029}' || c
        == '\u{202F}' || c == '\u{205F}' || c == '\u{3000}'
}

/// Appends to `out` a feed for the line `text[start..end]`, trimmed, unless
/// the line is blank.
fn push_line(text: &str, start: usize, end: usize, out: &mut Vec<Feed>)
    requires
        start <= end <= text@.len(),
    ensures
        urls(final(out)@) == if trim(text@.subrange(start as int, end as int)).len() > 0 {
            urls(old(out)@).push(trim(text@.subrange(start as int, end as int)))
        } else {
            urls(old(out)@)
        },
        final(out)@.len() >= old(out)@.len(),
        forall|k: int| 0 <= k < old(out)@.len() ==> final(out)@[k] == old(out)@[k],
        forall|k: int|
            old(out)@.len() <= k < final(out)@.len() ==> (#[trigger] final(out)@[k]).channel is None,
{
    let ghost s = text@;
    let mut lo: usize = start;
    while lo < end && is_space_char(text.get_char(lo))
        invariant
            start <= lo <= end <= s.len(),
            s == text@,
            trim_start(s.subrange(start as int, end as int)) == trim_start(
                s.subrange(lo as int, end as int),
            ),
        decreases end - lo,
    {
        assert(s.subrange(lo as int, end as int).drop_first() =~= s.subrange(
            lo + 1,
            end as int,
        ));
        lo = lo + 1;
    }
    assert(trim_start(s.subrange(lo as int, end as int)) == s.subrange(lo as int, end as int));
    let mut hi: usize = end;
    while hi > lo && is_space_char(text.get_char(hi - 1))
        invariant
            start <= lo <= hi <= end <= s.len(),
            s == text@,
            trim_end(s.subrange(lo as int, end as int)) == trim_end(
                s.subrange(lo as int, hi as int),
            ),
        decreases hi - lo,
    {
        assert(s.subrange(lo as int, hi as int).drop_last() =~= s.subrange(
            lo as int,
            hi - 1,
        ));
        hi = hi - 1;
    }
    assert(trim_end(s.subrange(lo as int, hi as int)) == s.subrange(lo as int, hi as int));
    if lo < hi {
        let url = String::from_str(text.substring_char(lo, hi));
        out.push(Feed::new(url));
        assert(urls(out@) =~= urls(old(out)@).push(trim(s.subrange(start as int, end as int))));
    }
}

/// Reads the feeds that a feed file holds: one for each line that is not
/// blank, its URL being the line without surrounding whitespace.
pub fn parse_feeds(text: &str) -> (feeds: Vec<Feed>)
    ensures
        urls(feeds@) == load(text@),
        forall|k: int| 0 <= k < feeds.len() ==> (#[trigger] feeds@[k]).channel is None,
{
    let ghost s = text@;
    let n = text.unicode_len();
    let mut out: Vec<Feed> = Vec::new();
    let mut start: usize = 0;
    let mut i: usize = 0;
    proof {
        assert(s.take(0) =~= Seq::<char>::empty());
        assert(lines(s.take(0)).drop_last() =~= Seq::<Seq<char>>::empty());
    }
    while i < n
        invariant
            n == s.len(),
            s == text@,
            start <= i <= n,
            lines(s.take(i as int)).len() >= 1,
            lines(s.take(i as int)).last() == s.subrange(start as int, i as int),
            keep(lines(s.take(i as int)).drop_last()) == urls(out@),
            forall|k: int| 0 <= k < out.len() ==> (#[trigger] out@[k]).channel is None,
        decreases n - i,
    {
        let c = text.get_char(i);
        let ghost prev = lines(s.take(i as int));
        assert(s.take(i + 1).drop_last() =~= s.take(i as int));
        assert(s.take(i + 1).last() == c);
        if c == '\n' {
            let ghost before = out@;
            push_line(text, start, i, &mut out);
            assert(lines(s.take(i + 1)) == prev.push(Seq::<char>::empty()));
            assert(lines(s.take(i + 1)).drop_last() =~= prev);
            assert(prev =~= prev.drop_last().push(prev.last()));
            assert forall|k: int| 0 <= k < out.len() implies (#[trigger] out@[k]).channel is None by {
                if k < before.len() {
                    assert(out@[k] == before[k]);
                }
            }
            start = i + 1;
            assert(lines(s.take(i + 1)).last() =~= s.subrange(start as int, (i + 1) as int));
        } else {
            assert(lines(s.take(i + 1)).drop_last() =~= prev.drop_last());
            assert(lines(s.take(i + 1)).last() =~= s.subrange(start as int, (i + 1) as int));
        }
        i = i + 1;
    }
    let ghost ls = lines(s.take(n as int));
    assert(s.take(n as int) =~= s);
    let ghost before = out@;
    push_line(text, start, n, &mut out);
    assert(ls =~= ls.drop_last().push(ls.last()));
    assert forall|k: int| 0 <= k < out.len() implies (#[trigger] out@[k]).channel is None by {
        if k < before.len() {
            assert(out@[k] == before[k]);
        }
    }
    out
}

/// Writes the text of a feed file: each URL in order, followed by a line break.
pub fn feeds_text(feeds: &Vec<Feed>) -> (text: String)
    ensures
        text@ == save(urls(feeds@)),
{
    let ghost us = urls(feeds@);
    let mut text = String::new();
    let mut i: usize = 0;
    proof {
        assert(us.take(0) =~= Seq::<Seq<char>>::empty());
    }
    while i < feeds.len()
        invariant
            i <= feeds.len(),
            us == urls(feeds@),
            text@ == save(us.take(i as int)),
        decreases feeds.len() - i,
    {
        text.append(feeds[i].url.as_str());
        text.append("\n");
        proof {
            reveal_strlit("\n");
            assert(us.take(i + 1).drop_last() =~= us.take(i as int));
            assert(us.take(i + 1).last() == feeds@[i as int].url@);
            assert("\n"@ =~= seq!['\n']);
        }
        i = i + 1;
    }
    assert(us.take(feeds.len() as int) =~= us);
    text
}

} // verus!
